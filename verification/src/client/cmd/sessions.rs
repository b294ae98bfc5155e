//! `funnel sessions`: list tunnel sessions.
use vstd::prelude::*;
use crate::client::humanize::{format_bytes_spec, format_bytes_u64};
use crate::text::{decimal, push_decimal, push_str, push_char};

verus! {

/// A signed byte counter as the session list prints it: counts below 1 KiB
/// (negative ones included) in whole bytes, larger ones as `format_bytes_spec`.
pub open spec fn format_signed_bytes_spec(bytes: int) -> Seq<char> {
    if bytes >= 1024 {
        format_bytes_spec(bytes as nat)
    } else if bytes >= 0 {
        decimal(bytes as nat) + " B"@
    } else {
        seq!['-'] + decimal((-bytes) as nat) + " B"@
    }
}

/// Formats a session's traffic counter.
pub fn format_bytes(bytes: i64) -> (r: String)
    ensures
        r@ == format_signed_bytes_spec(bytes as int),
{
    if bytes >= 1024 {
        return format_bytes_u64(bytes as u64);
    }
    let mut s = String::new();
    if bytes >= 0 {
        push_decimal(&mut s, bytes as u64);
    } else {
        push_char(&mut s, '-');
        let magnitude: u64 = if bytes == i64::MIN {
            0x8000_0000_0000_0000u64
        } else {
            (-bytes) as u64
        };
        push_decimal(&mut s, magnitude);
    }
    push_str(&mut s, " B");
    proof {
        assert(s@ =~= format_signed_bytes_spec(bytes as int));
    }
    s
}

} // verus!
