//! What the inspector's HAR export says of an exchange beyond its recorded
//! fields: the full URL, the query parameters and the body text.
use vstd::prelude::*;
use vstd::utf8::encode_utf8;
use crate::auth::token::base64_text;
use crate::client::inspector::model::BodyPreview;
use crate::client::inspector::replay::{content_type, content_type_spec, normalized_path, normalized_path_spec, until_char};
use crate::protocol::request::Headers;
use crate::text::{chars_of, decimal, decimal_string, push_char, push_str, trim_end_char, trim_trailing};
use base64::Engine;

verus! {

/// The standard base64 text of some bytes, padded with `=`, as
/// `base64::engine::general_purpose::STANDARD.encode` computes it.
pub open spec fn base64_standard(bytes: Seq<u8>) -> Seq<char> {
    base64_text(bytes, false, true)
}

/// How many characters padded base64 produces for `n` bytes.
pub open spec fn base64_padded_len(n: nat) -> nat {
    ((n + 2) / 3) * 4
}

/// `STANDARD.encode`: the padded base64 text of the bytes, four characters
/// for every three bytes or part of three.
#[verifier::external_body]
pub(crate) fn encode_base64_standard(bytes: &Vec<u8>) -> (r: String)
    requires
        base64_padded_len(bytes@.len()) <= usize::MAX,
    ensures
        r@ == base64_standard(bytes@),
        r@.len() == base64_padded_len(bytes@.len()),
{
    base64::engine::general_purpose::STANDARD.encode(bytes)
}

/// The body text of a HAR entry: base64 of the kept bytes for a binary
/// body, otherwise the preview text.
pub fn har_body_text(body: &BodyPreview) -> (r: String)
    requires
        base64_padded_len(body.preview_bytes@.len()) <= usize::MAX,
    ensures
        r@ == (if body.binary {
            base64_standard(body.preview_bytes@)
        } else {
            body.text@
        }),
{
    if body.binary {
        encode_base64_standard(&body.preview_bytes)
    } else {
        body.text.clone()
    }
}

/// The body part of a HAR entry (`postData` of a request, `content` of a
/// response), as plain values that the export writes out field by field.
pub struct HarBody {
    /// `size`: the body's full length (only a response's `content` has it).
    pub size: Option<usize>,
    /// `mimeType`.
    pub mime_type: String,
    /// `text`, when the entry has one.
    pub text: Option<String>,
    /// Whether `encoding` is `base64`.
    pub base64: bool,
    /// `comment`, when the body was cut short.
    pub comment: Option<String>,
}

/// The media type a HAR body is labelled with: the request's or response's
/// content type, `application/octet-stream` without one.
pub open spec fn har_mime_type(headers: Headers) -> Seq<char> {
    match content_type_spec(headers) {
        Some(t) => t,
        None => "application/octet-stream"@,
    }
}

/// The note on a body whose preview was cut short, naming how many bytes
/// were kept.
pub open spec fn truncation_comment(kept: nat) -> Seq<char> {
    "Body preview truncated to "@ + decimal(kept) + " bytes."@
}

/// What the HAR text of a body is: base64 of the kept bytes for a binary
/// body, the preview text otherwise.
pub open spec fn har_text_spec(body: BodyPreview) -> Seq<char> {
    if body.binary {
        base64_standard(body.preview_bytes@)
    } else {
        body.text@
    }
}

/// The shared part of both body kinds: the media type, the base64 marker
/// and the truncation note.
pub open spec fn har_body_common(r: HarBody, body: BodyPreview, headers: Headers) -> bool {
    &&& r.mime_type@ == har_mime_type(headers)
    &&& r.base64 == body.binary
    &&& match r.comment {
        Some(c) => body.truncated && c@ == truncation_comment(body.preview_bytes@.len()),
        None => !body.truncated,
    }
}

fn har_mime(headers: &Headers) -> (r: String)
    ensures
        r@ == har_mime_type(*headers),
{
    match content_type(headers) {
        Some(t) => t,
        None => String::from_str("application/octet-stream"),
    }
}

fn har_comment(body: &BodyPreview) -> (r: Option<String>)
    ensures
        match r {
            Some(c) => body.truncated && c@ == truncation_comment(body.preview_bytes@.len()),
            None => !body.truncated,
        },
{
    if body.truncated {
        let mut c = String::from_str("Body preview truncated to ");
        let digits = decimal_string(body.preview_bytes.len() as u64);
        push_str(&mut c, digits.as_str());
        push_str(&mut c, " bytes.");
        Some(c)
    } else {
        None
    }
}

/// The `postData` of a request with a body: its media type and text, the
/// base64 marker for a binary body and a note when it was cut short.
pub fn har_post_data(body: &BodyPreview, headers: &Headers) -> (r: HarBody)
    requires
        base64_padded_len(body.preview_bytes@.len()) <= usize::MAX,
    ensures
        har_body_common(r, *body, *headers),
        r.size is None,
        r.text is Some && r.text->0@ == har_text_spec(*body),
{
    HarBody {
        size: None,
        mime_type: har_mime(headers),
        text: Some(har_body_text(body)),
        base64: body.binary,
        comment: har_comment(body),
    }
}

/// The `content` of a response: its full size and media type, its text
/// when it is not empty, the base64 marker for a binary body and a note
/// when it was cut short.
pub fn har_content(body: &BodyPreview, headers: &Headers) -> (r: HarBody)
    requires
        base64_padded_len(body.preview_bytes@.len()) <= usize::MAX,
    ensures
        har_body_common(r, *body, *headers),
        r.size == Some(body.bytes),
        match r.text {
            Some(t) => body.bytes > 0 && t@ == har_text_spec(*body),
            None => body.bytes == 0,
        },
{
    let text = if body.bytes > 0 {
        Some(har_body_text(body))
    } else {
        None
    };
    HarBody {
        size: Some(body.bytes),
        mime_type: har_mime(headers),
        text,
        base64: body.binary,
        comment: har_comment(body),
    }
}

/// Whether `s` holds the character `c`.
pub open spec fn has_char(s: Seq<char>, c: char) -> bool {
    exists|i: int| 0 <= i < s.len() && s[i] == c
}

/// What follows the first `c` in `s` (when there is one).
pub open spec fn after_char(s: Seq<char>, c: char) -> Seq<char> {
    s.skip(until_char(s, c).len() as int + 1)
}

proof fn lemma_until_char(s: Seq<char>, c: char)
    ensures
        until_char(s, c).len() <= s.len(),
        s.take(until_char(s, c).len() as int) == until_char(s, c),
        until_char(s, c).len() < s.len() ==> s[until_char(s, c).len() as int] == c,
        until_char(s, c).len() < s.len() <==> has_char(s, c),
        forall|j: int| 0 <= j < until_char(s, c).len() ==> s[j] != c,
    decreases s.len(),
{
    if s.len() > 0 && s[0] != c {
        let rest = s.drop_first();
        lemma_until_char(rest, c);
        assert(s.take(until_char(s, c).len() as int) =~= until_char(s, c));
        if has_char(s, c) {
            let i = choose|i: int| 0 <= i < s.len() && s[i] == c;
            assert(rest[i - 1] == c);
        }
        if has_char(rest, c) {
            let i = choose|i: int| 0 <= i < rest.len() && rest[i] == c;
            assert(s[i + 1] == c);
        }
        assert forall|j: int| 0 <= j < until_char(s, c).len() implies s[j] != c by {
            if j > 0 {
                assert(s[j] == rest[j - 1]);
            }
        }
    } else if s.len() > 0 {
        assert(has_char(s, c));
    }
}

/// Splits `s` at the first `c`: what comes before it, and what comes after
/// it when there is one.
fn split_once_char(s: &str, c: char) -> (r: (String, Option<String>))
    ensures
        r.0@ == until_char(s@, c),
        match r.1 {
            Some(a) => has_char(s@, c) && a@ == after_char(s@, c),
            None => !has_char(s@, c),
        },
{
    let cs = chars_of(s);
    let n = cs.len();
    let mut i: usize = 0;
    while i < n && cs[i] != c
        invariant
            n == cs@.len(),
            cs@ == s@,
            0 <= i <= n,
            forall|j: int| 0 <= j < i ==> cs@[j] != c,
        decreases n - i,
    {
        i = i + 1;
    }
    proof {
        lemma_until_char(s@, c);
        let u = until_char(s@, c);
        if u.len() < i {
            assert(s@[u.len() as int] == c);
        }
        if i < u.len() {
            assert(s@[i as int] != c);
        }
        assert(u.len() == i);
    }
    let mut before = String::new();
    let mut k: usize = 0;
    while k < i
        invariant
            i <= n == cs@.len(),
            cs@ == s@,
            0 <= k <= i,
            before@ == cs@.take(k as int),
        decreases i - k,
    {
        push_char(&mut before, cs[k]);
        k = k + 1;
        proof {
            assert(before@ =~= cs@.take(k as int));
        }
    }
    if i == n {
        return (before, None);
    }
    let mut after = String::new();
    let mut k: usize = i + 1;
    while k < n
        invariant
            i < n == cs@.len(),
            cs@ == s@,
            i + 1 <= k <= n,
            after@ == cs@.subrange(i + 1, k as int),
        decreases n - k,
    {
        push_char(&mut after, cs[k]);
        k = k + 1;
        proof {
            assert(after@ =~= cs@.subrange(i + 1, k as int));
        }
    }
    proof {
        assert(after@ =~= after_char(s@, c));
    }
    (before, Some(after))
}

/// The name and value pairs that `url::form_urlencoded::parse` reads from
/// a query string's bytes.
pub uninterp spec fn form_decode(query: Seq<u8>) -> Seq<(Seq<char>, Seq<char>)>;

/// `url::form_urlencoded::parse`, each decoded name and value taken as an
/// owned string.
#[verifier::external_body]
fn form_decode_pairs(query: &str) -> (r: Vec<(String, String)>)
    ensures
        r@.map_values(|p: (String, String)| (p.0@, p.1@)) == form_decode(encode_utf8(query@)),
{
    url::form_urlencoded::parse(query.as_bytes()).map(|(n, v)| (n.into_owned(), v.into_owned())).collect()
}

/// The query parameters of a request path: those after the first `?`,
/// none without one.
pub fn query_pairs(path: &str) -> (r: Vec<(String, String)>)
    ensures
        r@.map_values(|p: (String, String)| (p.0@, p.1@)) == (if has_char(path@, '?') {
            form_decode(encode_utf8(after_char(path@, '?')))
        } else {
            Seq::empty()
        }),
{
    let (_, query) = split_once_char(path, '?');
    match query {
        Some(q) => form_decode_pairs(q.as_str()),
        None => {
            let r: Vec<(String, String)> = Vec::new();
            proof {
                assert(r@.map_values(|p: (String, String)| (p.0@, p.1@)) =~= Seq::<
                    (Seq<char>, Seq<char>),
                >::empty());
            }
            r
        },
    }
}

/// The text of `base` parsed as a URL, with its path and query replaced
/// (`url::Url::parse`, `set_path`, `set_query`, then the URL's text); `None`
/// when `base` is not a URL.
pub uninterp spec fn url_with_path_query(base: Seq<char>, path: Seq<char>, query: Option<Seq<char>>) -> Option<Seq<char>>;

/// Parses `base`, sets the path and the query, and gives back the URL's text.
#[verifier::external_body]
fn set_url_path_query(base: &str, path: &str, query: Option<&str>) -> (r: Option<String>)
    ensures
        match (r, url_with_path_query(base@, path@, match query { Some(q) => Some(q@), None => None })) {
            (Some(s), Some(t)) => s@ == t,
            (None, None) => true,
            _ => false,
        },
{
    match url::Url::parse(base) {
        Ok(mut u) => {
            u.set_path(path);
            u.set_query(query);
            Some(u.to_string())
        },
        Err(_) => None,
    }
}

/// The full URL of an exchange: the public URL with the request's path and
/// query; when the public URL does not parse, the two are joined as text.
pub open spec fn exchange_url_spec(public_url: Seq<char>, path: Seq<char>) -> Seq<char> {
    let p = normalized_path_spec(path);
    let path_only = until_char(p, '?');
    let query = if has_char(p, '?') {
        after_char(p, '?')
    } else {
        Seq::empty()
    };
    match url_with_path_query(public_url, path_only, if query.len() == 0 { None } else { Some(query) }) {
        Some(u) => u,
        None => trim_end_char(public_url, '/') + p,
    }
}

/// Builds the full URL of an exchange for the export.
pub fn exchange_url(public_url: &str, path: &str) -> (r: String)
    ensures
        r@ == exchange_url_spec(public_url@, path@),
{
    let p = normalized_path(path);
    let (path_only, query) = split_once_char(p.as_str(), '?');
    let q: Option<&str> = match &query {
        Some(q) => if q.as_str().unicode_len() == 0 {
            None
        } else {
            Some(q.as_str())
        },
        None => None,
    };
    match set_url_path_query(public_url, path_only.as_str(), q) {
        Some(u) => u,
        None => {
            let mut s = trim_trailing(public_url, '/');
            push_str(&mut s, p.as_str());
            s
        },
    }
}

} // verus!
