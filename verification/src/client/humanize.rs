//! Human-readable byte counts, durations and timestamps, as the CLI prints
//! them.
use vstd::prelude::*;
use vstd::arithmetic::power2::{pow2, lemma_pow2_unfold, lemma2_to64, lemma_pow2_pos};
use crate::text::{decimal, digit_char, decimal2, push_decimal, push_decimal2, push_char, push_str, string_of};

verus! {

/// The number of binary digits of `n` (0 for 0).
pub open spec fn bit_len(n: nat) -> nat
    decreases n,
{
    if n == 0 {
        0
    } else {
        1 + bit_len(n / 2)
    }
}

/// `a / b` rounded to the nearest integer, ties to the even neighbour.
pub open spec fn round_half_even(a: nat, b: nat) -> nat {
    let q = a / b;
    let r = a % b;
    if 2 * r > b {
        q + 1
    } else if 2 * r < b {
        q
    } else if q % 2 == 0 {
        q
    } else {
        q + 1
    }
}

/// The value of the integer `n` once converted to a 64-bit float: rounded to
/// a 53-bit significand, ties to even.
pub open spec fn f64_round(n: nat) -> nat {
    if bit_len(n) <= 53 {
        n
    } else {
        let e = (bit_len(n) - 53) as nat;
        round_half_even(n, pow2(e)) * pow2(e)
    }
}

/// The tenths shown when `n / 2^k` is computed in floating point and printed
/// with one decimal (`{:.1}`), which rounds ties to even.
pub open spec fn shown_tenths(n: nat, k: nat) -> nat {
    round_half_even(f64_round(n) * 10, pow2(k))
}

/// A number of tenths written with one decimal, such as `2.0`.
pub open spec fn one_decimal(tenths: nat) -> Seq<char> {
    decimal(tenths / 10) + seq!['.', digit_char(tenths % 10)]
}

/// A byte count as the CLI prints it: whole bytes below 1 KiB, otherwise the
/// largest binary unit up to GiB with one decimal.
pub open spec fn format_bytes_spec(n: nat) -> Seq<char> {
    if n >= pow2(30) {
        one_decimal(shown_tenths(n, 30)) + " GiB"@
    } else if n >= pow2(20) {
        one_decimal(shown_tenths(n, 20)) + " MiB"@
    } else if n >= pow2(10) {
        one_decimal(shown_tenths(n, 10)) + " KiB"@
    } else {
        decimal(n) + " B"@
    }
}

proof fn lemma_bit_len_bounds(n: nat)
    requires
        n > 0,
    ensures
        bit_len(n) >= 1,
        pow2((bit_len(n) - 1) as nat) <= n < pow2(bit_len(n)),
    decreases n,
{
    lemma_pow2_unfold(bit_len(n));
    if n / 2 == 0 {
        lemma2_to64();
        assert(bit_len(n / 2) == 0);
    } else {
        lemma_bit_len_bounds(n / 2);
        if bit_len(n / 2) >= 1 {
            lemma_pow2_unfold((bit_len(n) - 1) as nat);
        }
    }
}

fn pow2_u128(e: u32) -> (r: u128)
    requires
        e <= 64,
    ensures
        r == pow2(e as nat),
{
    let mut p: u128 = 1;
    let mut i: u32 = 0;
    proof {
        lemma2_to64();
    }
    while i < e
        invariant
            0 <= i <= e <= 64,
            p == pow2(i as nat),
        decreases e - i,
    {
        proof {
            lemma_pow2_unfold((i + 1) as nat);
            lemma2_to64();
            if i < 64 {
                vstd::arithmetic::power2::lemma_pow2_strictly_increases(i as nat, 64);
            }
        }
        p = p * 2;
        i = i + 1;
    }
    p
}

fn div_round_half_even(a: u128, b: u128) -> (r: u128)
    requires
        b > 0,
        a / b < u128::MAX,
    ensures
        r == round_half_even(a as nat, b as nat),
{
    let q = a / b;
    let r = a % b;
    if r > b - r {
        proof {
            assert(2 * r > b);
        }
        q + 1
    } else if r < b - r {
        q
    } else if q % 2 == 0 {
        q
    } else {
        q + 1
    }
}

/// The integer value of `n` after conversion to `f64`.
fn f64_round_u64(n: u64) -> (r: u128)
    ensures
        r == f64_round(n as nat),
        r <= 2 * (n as nat),
{
    let mut m: u64 = n;
    let mut bl: u32 = 0;
    proof {
        lemma2_to64();
    }
    while m > 0
        invariant
            bit_len(n as nat) == bl + bit_len(m as nat),
            bl <= 64,
            m as nat * pow2(bl as nat) <= n,
        decreases m,
    {
        proof {
            lemma_pow2_unfold((bl + 1) as nat);
            assert((m / 2) as nat * pow2((bl + 1) as nat) <= n) by (nonlinear_arith)
                requires
                    m as nat * pow2(bl as nat) <= n,
                    pow2((bl + 1) as nat) == 2 * pow2(bl as nat),
            {
            }
            if bl + 1 > 64 {
                lemma2_to64();
                vstd::arithmetic::power2::lemma_pow2_strictly_increases(64, (bl + 1) as nat);
                assert(m as nat * pow2(bl as nat) >= pow2(bl as nat)) by (nonlinear_arith)
                    requires
                        m > 0,
                {
                }
                assert(pow2((bl + 1) as nat) == 2 * pow2(bl as nat));
                if bl >= 64 {
                    if bl > 64 {
                        vstd::arithmetic::power2::lemma_pow2_strictly_increases(64, bl as nat);
                    }
                    assert(false);
                }
            }
        }
        m = m / 2;
        bl = bl + 1;
    }
    if bl <= 53 {
        proof {
            if n > 0 {
                lemma_bit_len_bounds(n as nat);
            }
        }
        return n as u128;
    }
    let e = bl - 53;
    let p = pow2_u128(e);
    proof {
        lemma_bit_len_bounds(n as nat);
        vstd::arithmetic::power2::lemma_pow2_strictly_increases(e as nat, (bl - 1) as nat);
        assert(p <= n);
        lemma_pow2_pos(e as nat);
    }
    let nn = n as u128;
    proof {
        assert(nn / p <= nn) by (nonlinear_arith)
            requires
                p >= 1,
        {
        }
    }
    let q = div_round_half_even(nn, p);
    proof {
        assert(q * p <= nn + p) by (nonlinear_arith)
            requires
                q <= nn / p + 1,
                p >= 1,
        {
            assert((nn / p) * p <= nn);
        }
    }
    q * p
}

/// Writes `n / 2^k` (computed in floating point) with one decimal.
fn push_scaled(s: &mut String, n: u64, k: u32)
    requires
        10 <= k <= 64,
    ensures
        final(s)@ == old(s)@ + one_decimal(shown_tenths(n as nat, k as nat)),
{
    let v = f64_round_u64(n);
    let a = v * 10;
    let p = pow2_u128(k);
    proof {
        lemma_pow2_pos(k as nat);
        assert(a / p <= a) by (nonlinear_arith)
            requires
                p >= 1,
        {
        }
    }
    let t = div_round_half_even(a, p);
    proof {
        lemma2_to64();
        if k > 10 {
            vstd::arithmetic::power2::lemma_pow2_strictly_increases(10, k as nat);
        }
        assert(a / p <= a / 1024) by (nonlinear_arith)
            requires
                p >= 1024,
        {
        }
        assert(t / 10 <= u64::MAX);
    }
    push_decimal(s, (t / 10) as u64);
    push_char(s, '.');
    let d = (t % 10) as u64;
    push_decimal(s, d);
    proof {
        assert(decimal(d as nat) == seq![digit_char(d as nat)]);
        assert(final(s)@ =~= old(s)@ + one_decimal(shown_tenths(n as nat, k as nat)));
    }
}

/// A byte count with binary units; see `format_bytes_spec`.
pub fn format_bytes_u64(n: u64) -> (r: String)
    ensures
        r@ == format_bytes_spec(n as nat),
{
    proof {
        lemma2_to64();
    }
    let mut s = String::new();
    if n >= 1024 * 1024 * 1024 {
        push_scaled(&mut s, n, 30);
        push_str(&mut s, " GiB");
    } else if n >= 1024 * 1024 {
        push_scaled(&mut s, n, 20);
        push_str(&mut s, " MiB");
    } else if n >= 1024 {
        push_scaled(&mut s, n, 10);
        push_str(&mut s, " KiB");
    } else {
        push_decimal(&mut s, n);
        push_str(&mut s, " B");
    }
    proof {
        assert(s@ =~= format_bytes_spec(n as nat));
    }
    s
}

/// The moment an RFC 3339 timestamp names, in UTC, written as
/// `%Y-%m-%dT%H:%M:%S` (to the second); `None` when the text is not an
/// RFC 3339 timestamp.
pub uninterp spec fn utc_seconds_text(ts: Seq<char>) -> Option<Seq<char>>;

/// `chrono::DateTime::parse_from_rfc3339`, converted to UTC and formatted
/// with `%Y-%m-%dT%H:%M:%S`.
#[verifier::external_body]
fn rfc3339_to_utc_seconds(ts: &str) -> (r: Option<String>)
    ensures
        match (r, utc_seconds_text(ts@)) {
            (Some(t), Some(u)) => t@ == u,
            (None, None) => true,
            _ => false,
        },
{
    match chrono::DateTime::parse_from_rfc3339(ts) {
        Ok(t) => Some(t.with_timezone(&chrono::Utc).format("%Y-%m-%dT%H:%M:%S").to_string()),
        Err(_) => None,
    }
}

/// A timestamp as the lists print it: in UTC, to the second; text that is
/// not an RFC 3339 timestamp is shown as it is.
pub fn format_timestamp(ts: &str) -> (r: String)
    ensures
        r@ == match utc_seconds_text(ts@) {
            Some(u) => u,
            None => ts@,
        },
{
    match rfc3339_to_utc_seconds(ts) {
        Some(t) => t,
        None => string_of(ts),
    }
}

} // verus!
