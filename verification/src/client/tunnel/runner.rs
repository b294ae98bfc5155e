//! Reconnection policy and the tunnel's public URL.
use vstd::prelude::*;
use vstd::arithmetic::power2::{pow2, lemma2_to64, lemma_pow2_strictly_increases};
use crate::tunnel::id::TunnelId;
use crate::text::{decimal, push_decimal, push_str, string_of, str_eq};

verus! {

/// Shortest wait before reconnecting, in seconds.
pub const INITIAL_BACKOFF_SECS: u64 = 1;

/// Longest wait before reconnecting, in seconds.
pub const MAX_BACKOFF_SECS: u64 = 30;

/// The wait before reconnection attempt `attempt`: `2^attempt` seconds,
/// kept between one and thirty seconds.
pub open spec fn backoff_secs(attempt: nat) -> nat {
    if pow2(attempt) >= 30 {
        30
    } else {
        pow2(attempt)
    }
}

/// Computes the wait before reconnection attempt `attempt`, in seconds.
pub fn backoff_delay(attempt: u32) -> (r: u64)
    ensures
        r == backoff_secs(attempt as nat),
        1 <= r <= 30,
{
    proof {
        lemma2_to64();
    }
    if attempt >= 5 {
        proof {
            if attempt > 5 {
                lemma_pow2_strictly_increases(5, attempt as nat);
            }
        }
        MAX_BACKOFF_SECS
    } else if attempt == 0 {
        1
    } else if attempt == 1 {
        2
    } else if attempt == 2 {
        4
    } else if attempt == 3 {
        8
    } else {
        16
    }
}

/// Later attempts never wait less than earlier ones.
pub proof fn lemma_backoff_monotone(a: nat, b: nat)
    requires
        a <= b,
    ensures
        backoff_secs(a) <= backoff_secs(b),
{
    if a < b {
        lemma_pow2_strictly_increases(a, b);
    }
}

/// How one run of the tunnel ended.
#[derive(Debug, Clone, Copy, PartialEq, Eq, Structural)]
pub enum RunOutcome {
    /// The connection was established and later lost.
    Disconnected,
    /// The server refused the tunnel for good.
    Refused,
    /// Connecting failed in a way that may pass.
    Failed,
}

/// What the runner does next.
#[derive(Debug, Clone, Copy, PartialEq, Eq, Structural)]
pub enum RunnerAction {
    /// Give up.
    Stop,
    /// Wait this many seconds, then reconnect.
    RetryAfter(u64),
}

/// The runner's decision after a run, from the attempt number in force.
pub open spec fn step_spec(attempt: u32, outcome: RunOutcome) -> (RunnerAction, u32) {
    match outcome {
        RunOutcome::Refused => (RunnerAction::Stop, attempt),
        RunOutcome::Disconnected => (RunnerAction::RetryAfter(backoff_secs(0) as u64), 1u32),
        RunOutcome::Failed => (
            RunnerAction::RetryAfter(backoff_secs(attempt as nat) as u64),
            if attempt == u32::MAX {
                attempt
            } else {
                (attempt + 1) as u32
            },
        ),
    }
}

/// The attempt number in force before round `k` when the rounds end with
/// `outcomes`, starting from 0.
pub open spec fn attempt_before(outcomes: Seq<RunOutcome>, k: nat) -> u32
    decreases k,
{
    if k == 0 {
        0
    } else {
        step_spec(attempt_before(outcomes, (k - 1) as nat), outcomes[k - 1]).1
    }
}

/// What the runner does after round `k`.
pub open spec fn action_after(outcomes: Seq<RunOutcome>, k: nat) -> RunnerAction {
    step_spec(attempt_before(outcomes, k), outcomes[k as int]).0
}

/// How many rounds have passed before round `k` since the last lost
/// connection (or since the start): the round after a lost connection
/// counts 1.
pub open spec fn rounds_since_reset(outcomes: Seq<RunOutcome>, k: nat) -> nat
    decreases k,
{
    if k == 0 {
        0
    } else if outcomes[k - 1] == RunOutcome::Disconnected {
        1
    } else {
        rounds_since_reset(outcomes, (k - 1) as nat) + 1
    }
}

proof fn lemma_backoff_saturates(n: nat)
    requires
        n >= 5,
    ensures
        backoff_secs(n) == 30,
{
    lemma2_to64();
    lemma_backoff_monotone(5, n);
}

proof fn lemma_attempt_before(outcomes: Seq<RunOutcome>, k: nat)
    requires
        k <= outcomes.len(),
        forall|j: int| 0 <= j < k ==> outcomes[j] != RunOutcome::Refused,
    ensures
        attempt_before(outcomes, k) == (if rounds_since_reset(outcomes, k) < u32::MAX {
            rounds_since_reset(outcomes, k)
        } else {
            u32::MAX as nat
        }),
    decreases k,
{
    if k > 0 {
        lemma_attempt_before(outcomes, (k - 1) as nat);
    }
}

/// The reconnect loop over a run of rounds (each round after the first
/// follows a retry, so no earlier round was refused): a refusal ends it; a
/// lost connection waits the first backoff step; a failed attempt waits
/// `2^i` seconds (between one and thirty), `i` counting the rounds since the
/// last lost connection, or since the start.
pub proof fn lemma_reconnect_rounds(outcomes: Seq<RunOutcome>, k: nat)
    requires
        k < outcomes.len(),
        forall|j: int| 0 <= j < k ==> outcomes[j] != RunOutcome::Refused,
    ensures
        outcomes[k as int] == RunOutcome::Refused ==> action_after(outcomes, k) == RunnerAction::Stop,
        outcomes[k as int] == RunOutcome::Disconnected ==> action_after(outcomes, k)
            == RunnerAction::RetryAfter(backoff_secs(0) as u64),
        outcomes[k as int] == RunOutcome::Failed ==> action_after(outcomes, k)
            == RunnerAction::RetryAfter(backoff_secs(rounds_since_reset(outcomes, k)) as u64),
{
    lemma_attempt_before(outcomes, k);
    let n = rounds_since_reset(outcomes, k);
    if n >= u32::MAX {
        lemma_backoff_saturates(n);
        lemma_backoff_saturates(u32::MAX as nat);
    }
}

/// The runner's decision after a run: stop on a refusal; otherwise wait with
/// backoff, where a lost connection restarts the backoff from the first step.
/// Returns the action and the next attempt number.
pub fn next_step(attempt: u32, outcome: RunOutcome) -> (r: (RunnerAction, u32))
    ensures
        r == step_spec(attempt, outcome),
        outcome == RunOutcome::Refused ==> r.0 == RunnerAction::Stop && r.1 == attempt,
        outcome == RunOutcome::Disconnected ==> r.0 == RunnerAction::RetryAfter(
            backoff_secs(0) as u64,
        ) && r.1 == 1,
        outcome == RunOutcome::Failed ==> r.0 == RunnerAction::RetryAfter(
            backoff_secs(attempt as nat) as u64,
        ) && r.1 == (if attempt == u32::MAX {
            attempt
        } else {
            (attempt + 1) as u32
        }),
{
    match outcome {
        RunOutcome::Refused => (RunnerAction::Stop, attempt),
        RunOutcome::Disconnected => (RunnerAction::RetryAfter(backoff_delay(0)), 1),
        RunOutcome::Failed => {
            let delay = backoff_delay(attempt);
            let next = if attempt == u32::MAX {
                attempt
            } else {
                attempt + 1
            };
            (RunnerAction::RetryAfter(delay), next)
        },
    }
}

/// The status line shown while waiting to reconnect.
pub fn reconnect_message(delay_secs: u64) -> (r: String)
    ensures
        r@ == "reconnecting in "@ + decimal(delay_secs as nat) + "s..."@,
{
    let mut s = string_of("reconnecting in ");
    push_decimal(&mut s, delay_secs);
    push_str(&mut s, "s...");
    s
}

/// What `url::Url::parse` reads from a URL: its scheme, its host (if any)
/// and its explicit port (if any, and not the scheme's default); `None`
/// when the text is not a URL.
pub uninterp spec fn url_parts(s: Seq<char>) -> Option<(Seq<char>, Option<Seq<char>>, Option<u16>)>;

/// `url::Url::parse`, read back through `scheme`, `host_str` and `port`.
#[verifier::external_body]
fn parse_url_parts(s: &str) -> (r: Option<(String, Option<String>, Option<u16>)>)
    ensures
        match (r, url_parts(s@)) {
            (None, None) => true,
            (Some((scheme, host, port)), Some((ss, sh, sp))) => scheme@ == ss && port == sp && match (host, sh) {
                (None, None) => true,
                (Some(h), Some(hv)) => h@ == hv,
                _ => false,
            },
            _ => false,
        },
{
    match url::Url::parse(s) {
        Ok(u) => Some((u.scheme().to_string(), u.host_str().map(|h| h.to_string()), u.port())),
        Err(_) => None,
    }
}

/// Why a server URL gives no host to connect to.
#[derive(Debug, Clone, Copy, PartialEq, Eq, Structural)]
pub enum ServerUrlError {
    /// The text is not a URL.
    Invalid,
    /// The URL has no host.
    NoHost,
}

/// The host of the server URL the client connects to.
pub fn server_host(server_url: &str) -> (r: Result<String, ServerUrlError>)
    ensures
        match url_parts(server_url@) {
            None => r == Err::<String, ServerUrlError>(ServerUrlError::Invalid),
            Some((_, None, _)) => r == Err::<String, ServerUrlError>(ServerUrlError::NoHost),
            Some((_, Some(h), _)) => r matches Ok(host) && host@ == h,
        },
{
    match parse_url_parts(server_url) {
        None => Err(ServerUrlError::Invalid),
        Some((_, None, _)) => Err(ServerUrlError::NoHost),
        Some((_, Some(h), _)) => Ok(h),
    }
}

/// The public URL of tunnel `id` on a server with the given scheme, host and
/// port: `<scheme>://<id>.<host>[:<port>]`, where any scheme other than
/// `https` is shown as `http`.
pub open spec fn public_url_spec(scheme: Seq<char>, host: Seq<char>, port: Option<u16>, id: Seq<char>) -> Seq<char> {
    let shown = if scheme == "https"@ {
        "https"@
    } else {
        "http"@
    };
    let base = shown + "://"@ + id + "."@ + host;
    match port {
        Some(p) => base + ":"@ + decimal(p as nat),
        None => base,
    }
}

/// Builds a tunnel's public URL from the server URL's parts.
pub fn public_url_from_parts(scheme: &str, host: &str, port: Option<u16>, tunnel_id: &TunnelId) -> (r: String)
    ensures
        r@ == public_url_spec(scheme@, host@, port, tunnel_id@),
{
    let mut s = if str_eq(scheme, "https") {
        string_of("https")
    } else {
        string_of("http")
    };
    push_str(&mut s, "://");
    push_str(&mut s, tunnel_id.as_ref());
    push_str(&mut s, ".");
    push_str(&mut s, host);
    match port {
        Some(p) => {
            push_str(&mut s, ":");
            push_decimal(&mut s, p as u64);
        },
        None => {},
    }
    s
}

/// The public URL of a tunnel on the server at `server_url`; `None` when the
/// server URL cannot be parsed or has no host.
pub fn build_public_url(server_url: &str, tunnel_id: &TunnelId) -> (r: Option<String>)
    ensures
        match url_parts(server_url@) {
            Some((scheme, Some(host), port)) => r is Some && r->Some_0@ == public_url_spec(
                scheme,
                host,
                port,
                tunnel_id@,
            ),
            _ => r is None,
        },
{
    match parse_url_parts(server_url) {
        Some((scheme, Some(host), port)) => Some(
            public_url_from_parts(scheme.as_str(), host.as_str(), port, tunnel_id),
        ),
        _ => None,
    }
}

/// A tunnel's public URL is `<scheme>://<id>.<host>`, the scheme shown as
/// `https` for an https server and `http` otherwise, followed by `:<port>`
/// whenever the server URL names a port, whatever the scheme.
pub proof fn lemma_public_url_shape(scheme: Seq<char>, host: Seq<char>, port: Option<u16>, id: Seq<char>)
    ensures
        public_url_spec(scheme, host, port, id) == (if scheme == "https"@ {
            "https"@
        } else {
            "http"@
        }) + "://"@ + id + "."@ + host + match port {
            Some(p) => ":"@ + decimal(p as nat),
            None => Seq::<char>::empty(),
        },
        forall|p: u16| #[trigger] public_url_spec(scheme, host, Some(p), id) == public_url_spec(scheme, host, None, id)
            + ":"@ + decimal(p as nat),
{
    let base = (if scheme == "https"@ {
        "https"@
    } else {
        "http"@
    }) + "://"@ + id + "."@ + host;
    assert(base + Seq::<char>::empty() =~= base);
    assert forall|p: u16| #[trigger] public_url_spec(scheme, host, Some(p), id) == public_url_spec(scheme, host, None, id)
        + ":"@ + decimal(p as nat) by {
    }
}

} // verus!
