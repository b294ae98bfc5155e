//! What the terminal shows while a tunnel runs.
use vstd::prelude::*;
use crate::text::{decimal, push_decimal, push_str};

verus! {

/// One request handled by the tunnel, for the request log.
#[derive(Debug)]
pub struct RequestResult {
    pub method: String,
    pub path: String,
    /// HTTP status; 0 for a raw stream connection.
    pub status: u16,
    /// How long the request took: whole seconds...
    pub duration_secs: u64,
    /// ...and the nanoseconds beyond them.
    pub duration_subsec_nanos: u32,
}

/// How a request line is highlighted.
#[derive(Debug, Clone, Copy, PartialEq, Eq, Structural)]
pub enum RequestStyle {
    /// A raw stream connection (cyan, shown as `connected`).
    Stream,
    /// A 2xx status (green).
    Success,
    /// A 3xx or 4xx status (yellow).
    Warning,
    /// Any other status (red).
    Failure,
}

/// The highlight for a request's status.
pub open spec fn request_style_spec(status: u16) -> RequestStyle {
    if status == 0 {
        RequestStyle::Stream
    } else if 200 <= status <= 299 {
        RequestStyle::Success
    } else if 300 <= status <= 499 {
        RequestStyle::Warning
    } else {
        RequestStyle::Failure
    }
}

/// Chooses the highlight for a request's status.
pub fn request_style(status: u16) -> (r: RequestStyle)
    ensures
        r == request_style_spec(status),
{
    if status == 0 {
        RequestStyle::Stream
    } else if 200 <= status && status <= 299 {
        RequestStyle::Success
    } else if 300 <= status && status <= 499 {
        RequestStyle::Warning
    } else {
        RequestStyle::Failure
    }
}

/// A session length as `1h 1m 1s`, `2m 5s` or `45s`.
pub open spec fn format_uptime_spec(total: nat) -> Seq<char> {
    let hours = total / 3600;
    let mins = (total % 3600) / 60;
    let secs = total % 60;
    if hours > 0 {
        decimal(hours) + "h "@ + decimal(mins) + "m "@ + decimal(secs) + "s"@
    } else if mins > 0 {
        decimal(mins) + "m "@ + decimal(secs) + "s"@
    } else {
        decimal(secs) + "s"@
    }
}

/// Formats the session's uptime from its whole seconds.
pub fn format_uptime(total_secs: u64) -> (r: String)
    ensures
        r@ == format_uptime_spec(total_secs as nat),
{
    let hours = total_secs / 3600;
    let mins = (total_secs % 3600) / 60;
    let secs = total_secs % 60;
    let mut s = String::new();
    if hours > 0 {
        push_decimal(&mut s, hours);
        push_str(&mut s, "h ");
        push_decimal(&mut s, mins);
        push_str(&mut s, "m ");
        push_decimal(&mut s, secs);
        push_str(&mut s, "s");
    } else if mins > 0 {
        push_decimal(&mut s, mins);
        push_str(&mut s, "m ");
        push_decimal(&mut s, secs);
        push_str(&mut s, "s");
    } else {
        push_decimal(&mut s, secs);
        push_str(&mut s, "s");
    }
    proof {
        assert(s@ =~= format_uptime_spec(total_secs as nat));
    }
    s
}

/// How a request's duration is shown when it is under a second: its
/// milliseconds, such as `12ms`; `None` from one second on (shown in seconds
/// with one decimal instead).
pub fn millis_label(ms: u128) -> (r: Option<String>)
    ensures
        ms < 1000 ==> r is Some && r->0@ == decimal(ms as nat) + "ms"@,
        ms >= 1000 ==> r is None,
{
    if ms < 1000 {
        let mut s = String::new();
        push_decimal(&mut s, ms as u64);
        push_str(&mut s, "ms");
        Some(s)
    } else {
        None
    }
}

} // verus!
