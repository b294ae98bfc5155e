//! API keys: generation, hashing and display prefixes.
use vstd::prelude::*;
use vstd::utf8::{encode_utf8, is_char_boundary};
use crate::text::{push_str, push_char, string_of};
use base64::Engine;
use sha2::Digest;

verus! {

/// Length of the visible prefix of a key, in bytes.
pub const VISIBLE_PREFIX_LEN: usize = 10;

/// Number of random bytes in a generated key.
pub const RANDOM_BYTES: usize = 32;

/// The visible start of an API key, safe to display and log.
#[derive(Debug, PartialEq, Eq)]
pub struct ApiKeyPrefix(pub String);

impl ApiKeyPrefix {
    /// The first ten bytes of the key (all of it when shorter). The cut must
    /// fall between characters.
    pub fn from_key(full_key: &str) -> (r: Self)
        requires
            is_char_boundary(
                encode_utf8(full_key@),
                if encode_utf8(full_key@).len() < 10 { encode_utf8(full_key@).len() as int } else { 10 },
            ),
        ensures
            encode_utf8(r.0@) == encode_utf8(full_key@).subrange(
                0,
                if encode_utf8(full_key@).len() < 10 { encode_utf8(full_key@).len() as int } else { 10 },
            ),
    {
        let len = full_key.as_bytes().len();
        let end = if len < VISIBLE_PREFIX_LEN {
            len
        } else {
            VISIBLE_PREFIX_LEN
        };
        let (head, _) = full_key.split_at(end);
        ApiKeyPrefix(string_of(head))
    }

    /// The prefix's text.
    pub fn as_ref(&self) -> (r: &str)
        ensures
            r@ == self.0@,
    {
        self.0.as_str()
    }

    /// The prefix as displayed: followed by `...`.
    pub fn to_string(&self) -> (r: String)
        ensures
            r@ == self.0@ + "..."@,
    {
        let mut s = string_of(self.0.as_str());
        push_str(&mut s, "...");
        s
    }
}

/// The random source could not supply bytes.
#[derive(Debug, Clone, Copy, PartialEq, Eq, Structural)]
pub struct RandomUnavailable;

#[verifier::external_type_specification]
#[verifier::external_body]
pub struct ExGetrandomError(getrandom::Error);

/// `getrandom::fill`: overwrites the buffer with random bytes from the
/// operating system. What the bytes are rests on chance and is not stated.
#[verifier::external_body]
pub(crate) fn fill_random(buf: &mut Vec<u8>) -> (r: Result<(), getrandom::Error>)
    ensures
        final(buf)@.len() == old(buf)@.len(),
{
    getrandom::fill(buf.as_mut_slice())
}

/// The base64 digit for a value below 64: `A`..`Z`, `a`..`z`, `0`..`9`, then
/// `-` and `_` in the URL-safe alphabet or `+` and `/` in the standard one.
pub open spec fn base64_digit(v: nat, url_safe: bool) -> char {
    if v < 26 {
        ((65 + v) as u32) as char
    } else if v < 52 {
        ((97 + v - 26) as u32) as char
    } else if v < 62 {
        ((48 + v - 52) as u32) as char
    } else if v == 62 {
        if url_safe {
            '-'
        } else {
            '+'
        }
    } else {
        if url_safe {
            '_'
        } else {
            '/'
        }
    }
}

/// Base64 text of some bytes: each group of three bytes as four digits of
/// six bits each, high bits first; a last group of one or two bytes as two
/// or three digits, followed (when padding) by `=` up to four.
pub open spec fn base64_text(bs: Seq<u8>, url_safe: bool, pad: bool) -> Seq<char>
    decreases bs.len(),
{
    if bs.len() == 0 {
        Seq::empty()
    } else if bs.len() == 1 {
        let a = bs[0] as nat;
        seq![base64_digit(a / 4, url_safe), base64_digit((a % 4) * 16, url_safe)] + if pad {
            seq!['=', '=']
        } else {
            Seq::empty()
        }
    } else if bs.len() == 2 {
        let a = bs[0] as nat;
        let b = bs[1] as nat;
        seq![
            base64_digit(a / 4, url_safe),
            base64_digit((a % 4) * 16 + b / 16, url_safe),
            base64_digit((b % 16) * 4, url_safe),
        ] + if pad {
            seq!['=']
        } else {
            Seq::empty()
        }
    } else {
        let a = bs[0] as nat;
        let b = bs[1] as nat;
        let c = bs[2] as nat;
        seq![
            base64_digit(a / 4, url_safe),
            base64_digit((a % 4) * 16 + b / 16, url_safe),
            base64_digit((b % 16) * 4 + c / 64, url_safe),
            base64_digit(c % 64, url_safe),
        ] + base64_text(bs.skip(3), url_safe, pad)
    }
}

/// The URL-safe base64 text of some bytes, without padding, as
/// `base64::engine::general_purpose::URL_SAFE_NO_PAD.encode` computes it.
pub open spec fn base64_url_no_pad(bytes: Seq<u8>) -> Seq<char> {
    base64_text(bytes, true, false)
}

/// How many characters unpadded base64 produces for `n` bytes.
pub open spec fn base64_no_pad_len(n: nat) -> nat {
    (n / 3) * 4 + if n % 3 == 1 {
        2nat
    } else if n % 3 == 2 {
        3nat
    } else {
        0nat
    }
}

/// `URL_SAFE_NO_PAD.encode`: the unpadded URL-safe base64 text of the bytes,
/// four characters per three bytes plus two or three for a remainder.
#[verifier::external_body]
fn encode_base64_url_no_pad(bytes: &Vec<u8>) -> (r: String)
    requires
        bytes@.len() <= 4096,
    ensures
        r@ == base64_url_no_pad(bytes@),
        r@.len() == base64_no_pad_len(bytes@.len()),
{
    base64::engine::general_purpose::URL_SAFE_NO_PAD.encode(bytes)
}

/// The SHA-256 digest of some bytes (`sha2::Sha256::digest`).
pub uninterp spec fn sha256(data: Seq<u8>) -> Seq<u8>;

/// `Sha256::digest`: the 32-byte SHA-256 digest of the bytes.
#[verifier::external_body]
fn sha256_digest(data: &[u8]) -> (r: Vec<u8>)
    ensures
        r@ == sha256(data@),
        r@.len() == 32,
{
    sha2::Sha256::digest(data).to_vec()
}

/// The lowercase hexadecimal digit for a value below 16.
pub open spec fn hex_digit(v: nat) -> char {
    if v < 10 {
        ((0x30 + v) as u32) as char
    } else {
        ((0x61 + v - 10) as u32) as char
    }
}

/// Lowercase hexadecimal text: two digits per byte, high nibble first.
pub open spec fn hex_lower(bytes: Seq<u8>) -> Seq<char>
    decreases bytes.len(),
{
    if bytes.len() == 0 {
        Seq::empty()
    } else {
        hex_lower(bytes.drop_last()) + seq![
            hex_digit((bytes.last() / 16) as nat),
            hex_digit((bytes.last() % 16) as nat),
        ]
    }
}

/// `hex::encode`: each byte as two lowercase hexadecimal digits.
#[verifier::external_body]
fn hex_encode(bytes: &Vec<u8>) -> (r: String)
    ensures
        r@ == hex_lower(bytes@),
{
    hex::encode(bytes)
}

/// The API key made from 32 random bytes: `sk_` followed by the bytes in
/// unpadded URL-safe base64, 46 characters in all.
pub fn api_key_from_bytes(bytes: &Vec<u8>) -> (key: String)
    requires
        bytes@.len() == RANDOM_BYTES,
    ensures
        key@ == "sk_"@ + base64_url_no_pad(bytes@),
        key@.len() == 46,
{
    let encoded = encode_base64_url_no_pad(bytes);
    let mut key = string_of("sk_");
    push_str(&mut key, encoded.as_str());
    proof {
        reveal_strlit("sk_");
        assert(key@ == "sk_"@ + base64_url_no_pad(bytes@));
    }
    key
}

/// A new API key: `sk_` followed by 32 random bytes in unpadded URL-safe
/// base64, 46 characters in all. Fails only when the operating system's
/// random source does; whether it does is not in this library's hands.
pub fn generate_api_key() -> (r: Result<String, RandomUnavailable>)
    ensures
        r matches Ok(key) ==> {
            &&& key@.len() == 46
            &&& exists|b: Seq<u8>| b.len() == 32 && key@ == "sk_"@ + base64_url_no_pad(b)
        },
{
    let mut bytes: Vec<u8> = vec![0u8; RANDOM_BYTES];
    match fill_random(&mut bytes) {
        Ok(()) => {},
        Err(_) => return Err(RandomUnavailable),
    }
    let key = api_key_from_bytes(&bytes);
    proof {
        assert(bytes@.len() == 32 && key@ == "sk_"@ + base64_url_no_pad(bytes@));
    }
    Ok(key)
}

/// The stored form of a token: the lowercase hex of the SHA-256 digest of
/// its UTF-8 bytes. A fast hash suffices since keys are random.
pub fn hash_token(token: &str) -> (r: String)
    ensures
        r@ == hex_lower(sha256(encode_utf8(token@))),
        r@.len() == 64,
        forall|i: int| 0 <= i < 64 ==> {
            let c = #[trigger] r@[i];
            ('0' <= c && c <= '9') || ('a' <= c && c <= 'f')
        },
{
    let digest = sha256_digest(token.as_bytes());
    proof {
        lemma_hex_lower_len(digest@);
    }
    hex_encode(&digest)
}

proof fn lemma_hex_lower_len(bytes: Seq<u8>)
    ensures
        hex_lower(bytes).len() == 2 * bytes.len(),
        forall|i: int| 0 <= i < hex_lower(bytes).len() ==> {
            let c = #[trigger] hex_lower(bytes)[i];
            ('0' <= c && c <= '9') || ('a' <= c && c <= 'f')
        },
    decreases bytes.len(),
{
    if bytes.len() > 0 {
        lemma_hex_lower_len(bytes.drop_last());
        let hi = (bytes.last() / 16) as nat;
        let lo = (bytes.last() % 16) as nat;
        assert(hi < 16 && lo < 16);
        assert forall|i: int| 0 <= i < hex_lower(bytes).len() implies {
            let c = #[trigger] hex_lower(bytes)[i];
            ('0' <= c && c <= '9') || ('a' <= c && c <= 'f')
        } by {
            let prev = hex_lower(bytes.drop_last());
            if i < prev.len() {
                assert(hex_lower(bytes)[i] == prev[i]);
            } else {
                let v = if i == prev.len() { hi } else { lo };
                assert(hex_lower(bytes)[i] == hex_digit(v));
            }
        }
    }
}

} // verus!
