//! `funnel status`: show the active tunnels on the server.
use vstd::prelude::*;
use crate::client::humanize::{format_bytes_spec, format_bytes_u64};
use crate::text::{decimal, decimal2, push_decimal, push_decimal2, push_str};

verus! {

/// A whole number of seconds as `1h01m01s`, `2m05s` or `45s`.
pub open spec fn format_duration_spec(total: nat) -> Seq<char> {
    let hours = total / 3600;
    let minutes = (total % 3600) / 60;
    let seconds = total % 60;
    if hours > 0 {
        decimal(hours) + "h"@ + decimal2(minutes) + "m"@ + decimal2(seconds) + "s"@
    } else if minutes > 0 {
        decimal(minutes) + "m"@ + decimal2(seconds) + "s"@
    } else {
        decimal(seconds) + "s"@
    }
}

/// Formats a tunnel's uptime. The server reports fractional seconds; the
/// caller passes them converted to whole seconds (`secs as u64`).
pub fn format_duration(total: u64) -> (r: String)
    ensures
        r@ == format_duration_spec(total as nat),
{
    let hours = total / 3600;
    let minutes = (total % 3600) / 60;
    let seconds = total % 60;
    let mut s = String::new();
    if hours > 0 {
        push_decimal(&mut s, hours);
        push_str(&mut s, "h");
        push_decimal2(&mut s, minutes);
        push_str(&mut s, "m");
        push_decimal2(&mut s, seconds);
        push_str(&mut s, "s");
    } else if minutes > 0 {
        push_decimal(&mut s, minutes);
        push_str(&mut s, "m");
        push_decimal2(&mut s, seconds);
        push_str(&mut s, "s");
    } else {
        push_decimal(&mut s, seconds);
        push_str(&mut s, "s");
    }
    proof {
        assert(s@ =~= format_duration_spec(total as nat));
    }
    s
}

/// Formats a traffic counter; see `format_bytes_spec`.
pub fn format_bytes(bytes: u64) -> (r: String)
    ensures
        r@ == format_bytes_spec(bytes as nat),
{
    format_bytes_u64(bytes)
}

} // verus!
