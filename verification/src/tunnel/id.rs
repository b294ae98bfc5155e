//! Tunnel identifiers: validated DNS subdomain labels.
use vstd::prelude::*;
use vstd::utf8::*;
use crate::auth::token::{fill_random, RandomUnavailable};
use crate::text::{ascii_lower, chars_of, str_eq, decimal, push_char, push_decimal, string_of, str_to_lowercase, unicode_lowercase};

verus! {

/// Shortest accepted identifier, in bytes.
pub const MIN_LENGTH: usize = 3;

/// Longest accepted identifier, in bytes.
pub const MAX_LENGTH: usize = 63;

/// Length of generated identifiers.
pub const DEFAULT_LENGTH: usize = 8;

/// Why a string is not a valid tunnel identifier.
#[derive(Debug, Clone, PartialEq, Eq, Structural)]
pub enum TunnelIdError {
    Empty,
    TooShort(usize),
    TooLong(usize),
    NotLowercase,
    InvalidFormat,
}

/// The message shown for each validation error.
pub open spec fn tunnel_id_error_message(e: TunnelIdError) -> Seq<char> {
    match e {
        TunnelIdError::Empty => "tunnel ID cannot be empty"@,
        TunnelIdError::TooShort(n) => "tunnel ID must be at least 3 characters, got "@ + decimal(
            n as nat,
        ),
        TunnelIdError::TooLong(n) => "tunnel ID must be at most 63 characters, got "@ + decimal(
            n as nat,
        ),
        TunnelIdError::NotLowercase => "tunnel ID must be lowercase"@,
        TunnelIdError::InvalidFormat =>
            "tunnel ID must contain only lowercase letters, numbers, and hyphens, and cannot start or end with a hyphen"@,
    }
}

impl TunnelIdError {
    /// The error's message.
    pub fn to_string(&self) -> (r: String)
        ensures
            r@ == tunnel_id_error_message(*self),
    {
        match self {
            TunnelIdError::Empty => string_of("tunnel ID cannot be empty"),
            TunnelIdError::TooShort(n) => {
                let mut s = string_of("tunnel ID must be at least 3 characters, got ");
                push_decimal(&mut s, *n as u64);
                s
            },
            TunnelIdError::TooLong(n) => {
                let mut s = string_of("tunnel ID must be at most 63 characters, got ");
                push_decimal(&mut s, *n as u64);
                s
            },
            TunnelIdError::NotLowercase => string_of("tunnel ID must be lowercase"),
            TunnelIdError::InvalidFormat => string_of(
                "tunnel ID must contain only lowercase letters, numbers, and hyphens, and cannot start or end with a hyphen",
            ),
        }
    }
}

/// A lowercase ASCII letter or a decimal digit, as a byte.
pub open spec fn is_alnum_byte(b: u8) -> bool {
    (0x61 <= b && b <= 0x7a) || (0x30 <= b && b <= 0x39)
}

/// A byte allowed inside a DNS label.
pub open spec fn is_label_byte(b: u8) -> bool {
    is_alnum_byte(b) || b == 0x2d
}

/// Letters, digits and hyphens only, starting and ending with a letter or digit.
pub open spec fn label_format_ok(b: Seq<u8>) -> bool {
    &&& b.len() >= 1
    &&& is_alnum_byte(b[0])
    &&& is_alnum_byte(b[b.len() - 1])
    &&& forall|i: int| 1 <= i < b.len() - 1 ==> is_label_byte(#[trigger] b[i])
}

/// A lowercase ASCII letter or a decimal digit.
pub open spec fn is_alnum_char(c: char) -> bool {
    ('a' <= c && c <= 'z') || ('0' <= c && c <= '9')
}

/// A character allowed inside a DNS label.
pub open spec fn is_label_char(c: char) -> bool {
    is_alnum_char(c) || c == '-'
}

/// A valid DNS subdomain label of 3 to 63 characters.
pub open spec fn is_dns_label(s: Seq<char>) -> bool {
    &&& 3 <= s.len() <= 63
    &&& is_alnum_char(s[0])
    &&& is_alnum_char(s[s.len() - 1])
    &&& forall|i: int| 0 <= i < s.len() ==> is_label_char(#[trigger] s[i])
}

/// The outcome of validating `s`, checked in the order the rules are listed:
/// empty, too short, too long (lengths in UTF-8 bytes), not lowercase, bad format.
pub open spec fn tunnel_id_check(s: Seq<char>) -> Result<(), TunnelIdError> {
    let b = encode_utf8(s);
    if s.len() == 0 {
        Err(TunnelIdError::Empty)
    } else if b.len() < 3 {
        Err(TunnelIdError::TooShort(b.len() as usize))
    } else if b.len() > 63 {
        Err(TunnelIdError::TooLong(b.len() as usize))
    } else if unicode_lowercase(s) != s {
        Err(TunnelIdError::NotLowercase)
    } else if !label_format_ok(b) {
        Err(TunnelIdError::InvalidFormat)
    } else {
        Ok(())
    }
}

proof fn lemma_leading_byte_large(v: u32)
    ensures
        0xC0 <= (0xC0u8 | ((v >> 6u32) & 0x1F) as u8),
        0xC0 <= (0xE0u8 | ((v >> 12u32) & 0x0F) as u8),
        0xC0 <= (0xF0u8 | ((v >> 18u32) & 0x7) as u8),
        (v <= 0x7f ==> (v & 0x7F) as u8 == v),
{
    assert(0xC0 <= (0xC0u8 | ((v >> 6u32) & 0x1F) as u8)) by (bit_vector);
    assert(0xC0 <= (0xE0u8 | ((v >> 12u32) & 0x0F) as u8)) by (bit_vector);
    assert(0xC0 <= (0xF0u8 | ((v >> 18u32) & 0x7) as u8)) by (bit_vector);
    assert(v <= 0x7f ==> (v & 0x7F) as u8 == v) by (bit_vector);
}

proof fn lemma_char_ascii_bound(c: char)
    ensures
        (c as u32) <= 0x7f ==> '\0' <= c <= '\u{7f}',
{
}

/// Text whose UTF-8 bytes are all below 0x80 is ASCII, and its bytes are its characters.
proof fn lemma_small_bytes_ascii(s: Seq<char>)
    requires
        forall|k: int| 0 <= k < encode_utf8(s).len() ==> #[trigger] encode_utf8(s)[k] < 0x80,
    ensures
        is_ascii_chars(s),
    decreases s.len(),
{
    if s.len() > 0 {
        let v = s[0] as u32;
        lemma_leading_byte_large(v);
        let e = encode_scalar(v);
        let rest = encode_utf8(s.drop_first());
        assert(encode_utf8(s) == e + rest);
        assert(e[0] == encode_utf8(s)[0]);
        assert(v <= 0x7f);
        lemma_char_ascii_bound(s[0]);
        assert forall|k: int| 0 <= k < rest.len() implies #[trigger] rest[k] < 0x80 by {
            assert(rest[k] == encode_utf8(s)[k + e.len()]);
        }
        lemma_small_bytes_ascii(s.drop_first());
        assert forall|i: int| 0 <= i < s.len() implies '\0' <= #[trigger] s[i] <= '\u{7f}' by {
            if i > 0 {
                assert(s[i] == s.drop_first()[i - 1]);
            }
        }
    }
}

/// Ties the byte-level rules to the character-level description of a label.
proof fn lemma_label_bytes_iff_chars(s: Seq<char>)
    ensures
        (3 <= encode_utf8(s).len() <= 63 && label_format_ok(encode_utf8(s))) <==> is_dns_label(s),
        is_dns_label(s) ==> is_ascii_chars(s) && encode_utf8(s).len() == s.len(),
{
    let b = encode_utf8(s);
    if 3 <= b.len() <= 63 && label_format_ok(b) {
        assert forall|k: int| 0 <= k < b.len() implies #[trigger] b[k] < 0x80 by {
            if 1 <= k < b.len() - 1 {
                assert(is_label_byte(b[k]));
            }
        }
        lemma_small_bytes_ascii(s);
        is_ascii_chars_encode_utf8(s);
        assert forall|i: int| 0 <= i < s.len() implies is_label_char(#[trigger] s[i]) by {
            assert(b[i] == s[i] as u8);
            if 1 <= i < b.len() - 1 {
                assert(is_label_byte(b[i]));
            }
        }
        assert(b[0] == s[0] as u8);
        assert(b[b.len() - 1] == s[s.len() - 1] as u8);
    }
    if is_dns_label(s) {
        assert(is_ascii_chars(s));
        is_ascii_chars_encode_utf8(s);
        assert forall|k: int| 1 <= k < b.len() - 1 implies is_label_byte(#[trigger] b[k]) by {
            assert(b[k] == s[k] as u8);
            assert(is_label_char(s[k]));
        }
        assert(b[0] == s[0] as u8);
        assert(b[b.len() - 1] == s[s.len() - 1] as u8);
    }
}

/// The 36 characters generated identifiers are drawn from: `0`..`9`, then
/// `a`..`z`.
pub open spec fn domain_safe_alphabet_spec() -> Seq<char> {
    "0123456789abcdefghijklmnopqrstuvwxyz"@
}

/// How many random bytes choose one character of a generated identifier.
pub const BYTES_PER_CHAR: usize = 8;

/// The random bytes a generated identifier is made from.
pub open spec fn id_random_len() -> nat {
    (DEFAULT_LENGTH * BYTES_PER_CHAR) as nat
}

/// The bytes, read as one big-endian number, modulo 36.
pub open spec fn mod36_of(bs: Seq<u8>) -> nat
    decreases bs.len(),
{
    if bs.len() == 0 {
        0
    } else {
        ((mod36_of(bs.drop_last()) * 256 + bs.last()) % 36) as nat
    }
}

/// The identifier made from random bytes: each run of `BYTES_PER_CHAR`
/// bytes, as a number modulo 36, picks one character of the alphabet.
pub open spec fn id_from_bytes(bytes: Seq<u8>) -> Seq<char> {
    Seq::new(
        DEFAULT_LENGTH as nat,
        |i: int|
            domain_safe_alphabet_spec()[mod36_of(
                bytes.subrange(i * BYTES_PER_CHAR, (i + 1) * BYTES_PER_CHAR),
            ) as int],
    )
}

proof fn lemma_alphabet_alnum()
    ensures
        domain_safe_alphabet_spec().len() == 36,
        forall|i: int| 0 <= i < 36 ==> is_alnum_char(#[trigger] domain_safe_alphabet_spec()[i]),
{
    reveal_strlit("0123456789abcdefghijklmnopqrstuvwxyz");
}

/// The alphabet generated identifiers are drawn from.
fn domain_safe_alphabet() -> (r: Vec<char>)
    ensures
        r@ == domain_safe_alphabet_spec(),
{
    chars_of("0123456789abcdefghijklmnopqrstuvwxyz")
}

fn is_alnum(b: u8) -> (r: bool)
    ensures
        r == is_alnum_byte(b),
{
    (0x61 <= b && b <= 0x7a) || (0x30 <= b && b <= 0x39)
}

/// A validated tunnel identifier: always a valid DNS subdomain label.
#[derive(Debug, PartialEq, Eq)]
pub struct TunnelId {
    id: String,
}

impl View for TunnelId {
    type V = Seq<char>;

    closed spec fn view(&self) -> Seq<char> {
        self.id@
    }
}

impl TunnelId {
    #[verifier::type_invariant]
    closed spec fn wf(self) -> bool {
        is_dns_label(self.id@)
    }

    /// Validates `raw` and wraps it as an identifier.
    pub fn new(raw: String) -> (r: Result<TunnelId, TunnelIdError>)
        ensures
            match (r, tunnel_id_check(raw@)) {
                (Ok(id), Ok(())) => id@ == raw@,
                (Err(e), Err(se)) => e == se,
                _ => false,
            },
            r is Ok <==> is_dns_label(raw@),
    {
        match Self::validate(raw.as_str()) {
            Ok(()) => {
                proof {
                    lemma_label_bytes_iff_chars(raw@);
                }
                Ok(TunnelId { id: raw })
            },
            Err(e) => Err(e),
        }
    }

    /// The identifier made from `DEFAULT_LENGTH * BYTES_PER_CHAR` random
    /// bytes: each run of `BYTES_PER_CHAR` bytes, as a big-endian number
    /// modulo 36, picks a character of `0`..`9`, `a`..`z`.
    pub fn from_random_bytes(bytes: &Vec<u8>) -> (r: TunnelId)
        requires
            bytes@.len() == id_random_len(),
        ensures
            r@ == id_from_bytes(bytes@),
            r@.len() == DEFAULT_LENGTH,
            forall|i: int| 0 <= i < r@.len() ==> is_alnum_char(#[trigger] r@[i]),
            is_dns_label(r@),
    {
        let alphabet = domain_safe_alphabet();
        proof {
            lemma_alphabet_alnum();
        }
        let mut id = String::new();
        let mut k: usize = 0;
        while k < DEFAULT_LENGTH
            invariant
                bytes@.len() == id_random_len(),
                alphabet@ == domain_safe_alphabet_spec(),
                domain_safe_alphabet_spec().len() == 36,
                0 <= k <= DEFAULT_LENGTH,
                id@.len() == k,
                forall|i: int| 0 <= i < k ==> #[trigger] id@[i] == id_from_bytes(bytes@)[i],
            decreases DEFAULT_LENGTH - k,
        {
            let start = k * BYTES_PER_CHAR;
            let ghost chunk = bytes@.subrange(start as int, (start + BYTES_PER_CHAR) as int);
            let mut m: usize = 0;
            let mut j: usize = 0;
            proof {
                assert(chunk.take(0) =~= Seq::<u8>::empty());
            }
            while j < BYTES_PER_CHAR
                invariant
                    bytes@.len() == id_random_len(),
                    k < DEFAULT_LENGTH,
                    start == k * BYTES_PER_CHAR,
                    chunk == bytes@.subrange(start as int, (start + BYTES_PER_CHAR) as int),
                    0 <= j <= BYTES_PER_CHAR,
                    m == mod36_of(chunk.take(j as int)),
                    m < 36,
                decreases BYTES_PER_CHAR - j,
            {
                proof {
                    assert(chunk.take(j + 1).drop_last() =~= chunk.take(j as int));
                    assert(chunk.take(j + 1).last() == bytes@[start + j]);
                }
                m = (m * 256 + bytes[start + j] as usize) % 36;
                j = j + 1;
            }
            proof {
                assert(chunk.take(BYTES_PER_CHAR as int) =~= chunk);
            }
            let ghost before = id@;
            push_char(&mut id, alphabet[m]);
            proof {
                assert forall|i: int| 0 <= i < k + 1 implies #[trigger] id@[i] == id_from_bytes(bytes@)[i] by {
                    if i < k {
                        assert(id@[i] == before[i]);
                    }
                }
            }
            k = k + 1;
        }
        proof {
            assert(id@ =~= id_from_bytes(bytes@));
            assert forall|i: int| 0 <= i < id@.len() implies is_alnum_char(#[trigger] id@[i]) by {
                let ix = mod36_of(bytes@.subrange(i * BYTES_PER_CHAR, (i + 1) * BYTES_PER_CHAR)) as int;
                assert(id@[i] == domain_safe_alphabet_spec()[ix]);
            }
        }
        TunnelId { id }
    }

    /// A fresh random identifier: `DEFAULT_LENGTH * BYTES_PER_CHAR` bytes from
    /// the operating system's random source, made into an identifier by
    /// `from_random_bytes`. Fails only when the random source does.
    pub fn generate() -> (r: Result<TunnelId, RandomUnavailable>)
        ensures
            r matches Ok(id) ==> {
                &&& id@.len() == DEFAULT_LENGTH
                &&& forall|i: int| 0 <= i < id@.len() ==> is_alnum_char(#[trigger] id@[i])
                &&& is_dns_label(id@)
                &&& exists|b: Seq<u8>| b.len() == id_random_len() && id@ == id_from_bytes(b)
            },
    {
        let mut bytes: Vec<u8> = vec![0u8; DEFAULT_LENGTH * BYTES_PER_CHAR];
        match fill_random(&mut bytes) {
            Ok(()) => {},
            Err(_) => return Err(RandomUnavailable),
        }
        let id = TunnelId::from_random_bytes(&bytes);
        proof {
            assert(bytes@.len() == id_random_len() && id@ == id_from_bytes(bytes@));
        }
        Ok(id)
    }

    /// Validates `raw` without taking ownership.
    #[verifier::loop_isolation(false)]
    pub fn validate(s: &str) -> (r: Result<(), TunnelIdError>)
        ensures
            r == tunnel_id_check(s@),
            r is Ok <==> is_dns_label(s@),
    {
        proof {
            lemma_label_bytes_iff_chars(s@);
        }
        let bytes = s.as_bytes();
        if s.is_empty() {
            return Err(TunnelIdError::Empty);
        }
        let len = bytes.len();
        if len < MIN_LENGTH {
            return Err(TunnelIdError::TooShort(len));
        }
        if len > MAX_LENGTH {
            return Err(TunnelIdError::TooLong(len));
        }
        let lower = str_to_lowercase(s);
        if !str_eq(s, lower.as_str()) {
            proof {
                if is_dns_label(s@) {
                    assert(s@.map_values(|c: char| ascii_lower(c)) =~= s@);
                }
            }
            return Err(TunnelIdError::NotLowercase);
        }
        let n = bytes.len();
        if !is_alnum(bytes[0]) || !is_alnum(bytes[n - 1]) {
            return Err(TunnelIdError::InvalidFormat);
        }
        let mut i: usize = 1;
        while i < n - 1
            invariant
                n == bytes@.len(),
                3 <= n,
                1 <= i <= n - 1,
                forall|k: int| 1 <= k < i ==> is_label_byte(#[trigger] bytes@[k]),
                bytes@ == encode_utf8(s@),
            decreases n - i,
        {
            let b = bytes[i];
            if !(is_alnum(b) || b == 0x2d) {
                proof {
                    assert(bytes@ == encode_utf8(s@));
                    assert(!is_label_byte(bytes@[i as int]));
                    assert(!label_format_ok(encode_utf8(s@)));
                }
                return Err(TunnelIdError::InvalidFormat);
            }
            i = i + 1;
        }
        Ok(())
    }

    /// The identifier's text.
    pub fn as_ref(&self) -> (r: &str)
        ensures
            r@ == self@,
            is_dns_label(r@),
    {
        proof {
            use_type_invariant(self);
        }
        self.id.as_str()
    }

    /// The identifier's text, as displayed.
    pub fn to_string(&self) -> (r: String)
        ensures
            r@ == self@,
            is_dns_label(r@),
    {
        proof {
            use_type_invariant(self);
        }
        self.id.clone()
    }

    /// Gives up the identifier, keeping its text.
    pub fn into_string(self) -> (r: String)
        ensures
            r@ == self@,
    {
        self.id
    }
}

impl Clone for TunnelId {
    fn clone(&self) -> (r: Self)
        ensures
            r@ == self@,
    {
        proof {
            use_type_invariant(self);
        }
        TunnelId { id: self.id.clone() }
    }
}

} // verus!
