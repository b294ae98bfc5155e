//! Request and response metadata carried on data streams.
use vstd::prelude::*;
use crate::strmap::StrMap;
use crate::text::{ascii_lower, string_of};

verus! {

/// HTTP headers: each name with its values, in order.
pub type Headers = StrMap<Vec<String>>;

/// Why protocol metadata cannot be turned into HTTP types.
#[derive(Debug)]
pub enum ProtocolTypeError {
    /// The method is not a valid HTTP method token.
    InvalidMethod(String),
    /// The status is outside 100..=999.
    InvalidStatus(u16),
}

/// Metadata of a forwarded HTTP request.
#[derive(Debug)]
pub struct RequestMeta {
    pub method: String,
    pub path: String,
    pub headers: Headers,
}

/// Metadata of a forwarded HTTP response.
#[derive(Debug)]
pub struct ResponseMeta {
    pub status: u16,
    pub headers: Headers,
}

#[verifier::external_type_specification]
#[verifier::external_body]
pub struct ExMethod(http::Method);

#[verifier::external_type_specification]
#[verifier::external_body]
pub struct ExStatusCode(http::StatusCode);

#[verifier::external_type_specification]
#[verifier::external_body]
pub struct ExHeaderName(http::HeaderName);

#[verifier::external_type_specification]
#[verifier::external_body]
pub struct ExHeaderValue(http::HeaderValue);

#[verifier::external_type_specification]
#[verifier::external_body]
#[verifier::reject_recursive_types(T)]
pub struct ExHeaderMap<T>(http::HeaderMap<T>);

/// A token character of RFC 9110 (the characters `http` accepts in methods).
pub open spec fn is_tchar(b: u8) -> bool {
    ||| (0x30 <= b && b <= 0x39)
    ||| (0x41 <= b && b <= 0x5a)
    ||| (0x61 <= b && b <= 0x7a)
    ||| b == 0x21 || b == 0x23 || b == 0x24 || b == 0x25 || b == 0x26 || b == 0x27
    ||| b == 0x2a || b == 0x2b || b == 0x2d || b == 0x2e || b == 0x5e || b == 0x5f
    ||| b == 0x60 || b == 0x7c || b == 0x7e
}

/// A valid HTTP method: a non-empty token.
pub open spec fn is_method_token(b: Seq<u8>) -> bool {
    b.len() > 0 && forall|i: int| 0 <= i < b.len() ==> is_tchar(#[trigger] b[i])
}

/// The method that `http::Method::from_bytes` makes of these bytes.
pub uninterp spec fn http_method_of(b: Seq<u8>) -> http::Method;

/// The status code that `http::StatusCode::from_u16` makes of this number.
pub uninterp spec fn status_code_of(n: u16) -> http::StatusCode;

/// `http::Method::from_bytes` (what `str::parse` calls): succeeds exactly
/// when the UTF-8 bytes form a non-empty token, with the method those bytes
/// name.
#[verifier::external_body]
fn parse_http_method(s: &str) -> (r: Option<http::Method>)
    ensures
        r is Some <==> is_method_token(vstd::utf8::encode_utf8(s@)),
        r matches Some(m) ==> m == http_method_of(vstd::utf8::encode_utf8(s@)),
{
    http::Method::from_bytes(s.as_bytes()).ok()
}

/// `http::StatusCode::from_u16`: succeeds exactly for 100..=999, with the
/// status code of that number, which no other number in that range gives.
#[verifier::external_body]
fn status_from_u16(s: u16) -> (r: Option<http::StatusCode>)
    ensures
        r is Some <==> (100 <= s && s <= 999),
        r matches Some(c) ==> c == status_code_of(s),
        r matches Some(c) ==> forall|t: u16| 100 <= t <= 999 && #[trigger] status_code_of(t) == c ==> t == s,
{
    http::StatusCode::from_u16(s).ok()
}

impl RequestMeta {
    /// The request's method as an `http::Method`.
    pub fn http_method(&self) -> (r: Result<http::Method, ProtocolTypeError>)
        ensures
            r is Ok <==> is_method_token(vstd::utf8::encode_utf8(self.method@)),
            r matches Ok(m) ==> m == http_method_of(vstd::utf8::encode_utf8(self.method@)),
            r matches Err(ProtocolTypeError::InvalidMethod(m)) ==> m@ == self.method@,
            !(r matches Err(ProtocolTypeError::InvalidStatus(_))),
    {
        match parse_http_method(self.method.as_str()) {
            Some(m) => Ok(m),
            None => Err(ProtocolTypeError::InvalidMethod(self.method.clone())),
        }
    }
}

impl ResponseMeta {
    /// The response's status as an `http::StatusCode`.
    pub fn http_status(&self) -> (r: Result<http::StatusCode, ProtocolTypeError>)
        ensures
            r is Ok <==> (100 <= self.status && self.status <= 999),
            r matches Ok(c) ==> c == status_code_of(self.status),
            r matches Ok(c) ==> forall|t: u16| 100 <= t <= 999 && #[trigger] status_code_of(t) == c ==> t
                == self.status,
            r is Err ==> r == Err::<http::StatusCode, ProtocolTypeError>(
                ProtocolTypeError::InvalidStatus(self.status),
            ),
    {
        match status_from_u16(self.status) {
            Some(s) => Ok(s),
            None => Err(ProtocolTypeError::InvalidStatus(self.status)),
        }
    }
}

/// Whether `http::HeaderName::try_from` accepts the text as a header name:
/// between 1 and 65535 UTF-8 bytes, each a token character.
pub open spec fn header_name_valid(s: Seq<char>) -> bool {
    let b = vstd::utf8::encode_utf8(s);
    &&& 1 <= b.len() <= 65535
    &&& forall|i: int| 0 <= i < b.len() ==> is_tchar(#[trigger] b[i])
}

/// A byte that `http::HeaderValue` accepts: tab, or 32 and above except
/// DEL (127).
pub open spec fn header_value_byte(b: u8) -> bool {
    (b >= 32 && b != 127) || b == 9
}

/// Whether `http::HeaderValue::from_str` accepts the text as a header value:
/// every UTF-8 byte of it is accepted.
pub open spec fn header_value_valid(s: Seq<char>) -> bool {
    let b = vstd::utf8::encode_utf8(s);
    forall|i: int| 0 <= i < b.len() ==> header_value_byte(#[trigger] b[i])
}

/// The number of values an `http::HeaderMap` holds (`HeaderMap::len`).
pub uninterp spec fn header_map_len(m: http::HeaderMap) -> nat;

/// The text `http` keeps for a header name: the name in lowercase.
pub open spec fn stored_name(s: Seq<char>) -> Seq<char> {
    s.map_values(|c: char| ascii_lower(c))
}

/// A character that `HeaderValue::to_str` reads back: visible ASCII or tab.
pub open spec fn readable_value_char(c: char) -> bool {
    (' ' <= c && c <= '~') || c == '\t'
}

/// The text a stored header value reads back as: itself when every
/// character is visible ASCII or tab, otherwise empty.
pub open spec fn read_back_value(s: Seq<char>) -> Seq<char> {
    if forall|i: int| 0 <= i < s.len() ==> readable_value_char(#[trigger] s[i]) {
        s
    } else {
        Seq::empty()
    }
}

/// How many distinct names a map can hold before `try_append` may report
/// that it is full: below this many, the map always grows as needed. (Past
/// it, whether the map is full depends on how its names hash.)
pub const HEADER_MAP_SAFE_NAMES: u64 = 6554;

/// The values stored under `name`, in the order they are iterated.
pub open spec fn values_of(entries: Seq<(Seq<char>, Seq<char>)>, name: Seq<char>) -> Seq<Seq<char>>
    decreases entries.len(),
{
    if entries.len() == 0 {
        Seq::empty()
    } else {
        let prev = values_of(entries.drop_last(), name);
        if entries.last().0 == name {
            prev.push(entries.last().1)
        } else {
            prev
        }
    }
}

/// The distinct names among the entries.
pub open spec fn entry_names(entries: Seq<(Seq<char>, Seq<char>)>) -> Set<Seq<char>> {
    entries.map_values(|e: (Seq<char>, Seq<char>)| e.0).to_set()
}

/// `HeaderMap::try_append`, its name and value converted from text with
/// `HeaderName::try_from` and `HeaderValue::from_str`. Nothing is added when
/// either text is invalid or the map is full; a map holding fewer than
/// `HEADER_MAP_SAFE_NAMES` distinct names is never full. An added value is
/// iterated under the name's lowercase text, after the values that name
/// already had.
#[verifier::external_body]
fn header_map_append_text(m: &mut http::HeaderMap, name: &str, value: &str) -> (r: bool)
    ensures
        r ==> header_name_valid(name@) && header_value_valid(value@),
        r ==> header_map_len(*final(m)) == header_map_len(*old(m)) + 1,
        r ==> header_map_entries(*final(m)).to_multiset() == header_map_entries(*old(m)).to_multiset().insert(
            (stored_name(name@), read_back_value(value@)),
        ),
        r ==> forall|n: Seq<char>| #[trigger] values_of(header_map_entries(*final(m)), n) == if n
            == stored_name(name@) {
            values_of(header_map_entries(*old(m)), n).push(read_back_value(value@))
        } else {
            values_of(header_map_entries(*old(m)), n)
        },
        !r ==> header_map_len(*final(m)) == header_map_len(*old(m)),
        !r ==> header_map_entries(*final(m)) == header_map_entries(*old(m)),
        header_name_valid(name@) && header_value_valid(value@) && entry_names(
            header_map_entries(*old(m)),
        ).len() < HEADER_MAP_SAFE_NAMES ==> r,
{
    match (http::HeaderName::try_from(name), http::HeaderValue::from_str(value)) {
        (Ok(n), Ok(v)) => m.try_append(n, v).is_ok(),
        _ => false,
    }
}

/// `http::HeaderMap::new`: an empty map.
#[verifier::external_body]
fn header_map_new() -> (r: http::HeaderMap)
    ensures
        header_map_len(r) == 0,
        header_map_entries(r) == Seq::<(Seq<char>, Seq<char>)>::empty(),
{
    http::HeaderMap::new()
}

/// What iterating an `http::HeaderMap` yields: each value with its name,
/// names grouped in the order they were first added and each name's values
/// in the order they were appended. A name is its lowercase text; a value is
/// its text, or empty where it is not visible ASCII (`HeaderValue::to_str`
/// fails on it).
pub uninterp spec fn header_map_entries(m: http::HeaderMap) -> Seq<(Seq<char>, Seq<char>)>;

/// `http::HeaderMap::iter`, each name read with `HeaderName::as_str` and each
/// value with `HeaderValue::to_str` (empty where that fails). One entry is
/// yielded per value, so there are `HeaderMap::len` of them.
#[verifier::external_body]
pub(crate) fn header_entries(m: &http::HeaderMap) -> (r: Vec<(String, String)>)
    ensures
        r@.map_values(|e: (String, String)| (e.0@, e.1@)) == header_map_entries(*m),
        r@.len() == header_map_len(*m),
{
    m.iter().map(|(n, v)| (n.as_str().to_string(), v.to_str().unwrap_or("").to_string())).collect()
}

/// The texts of each header's values.
pub open spec fn header_texts(h: Headers) -> Map<Seq<char>, Seq<Seq<char>>> {
    h@.map_values(|v: Vec<String>| texts(v))
}

/// `m` with `value` added at the end of the values of `name`.
pub open spec fn with_value(m: Map<Seq<char>, Seq<Seq<char>>>, name: Seq<char>, value: Seq<char>) -> Map<
    Seq<char>,
    Seq<Seq<char>>,
> {
    m.insert(
        name,
        (if m.contains_key(name) {
            m[name]
        } else {
            Seq::empty()
        }).push(value),
    )
}

/// Adds a value at the end of the values of `name`.
pub fn append_header(h: &mut Headers, name: String, value: String)
    ensures
        header_texts(*final(h)) == with_value(header_texts(*old(h)), name@, value@),
{
    let ghost k = name@;
    let ghost v = value@;
    let ghost before = *h;
    h.append(name, value);
    proof {
        assert(texts(h@[k]) =~= (if before@.contains_key(k) {
            texts(before@[k])
        } else {
            Seq::empty()
        }).push(v));
        assert forall|j: Seq<char>| j != k implies (#[trigger] h@.contains_key(j)
            == before@.contains_key(j)) && (h@.contains_key(j) ==> h@[j] == before@[j]) by {
            assert(h@.remove(k).contains_key(j) == h@.contains_key(j));
            assert(before@.remove(k).contains_key(j) == before@.contains_key(j));
            if h@.contains_key(j) {
                assert(h@.remove(k)[j] == h@[j]);
                assert(before@.remove(k)[j] == before@[j]);
            }
        }
        assert(header_texts(*h) =~= with_value(header_texts(before), k, v));
    }
}

/// The texts of a list of strings.
pub open spec fn texts(v: Vec<String>) -> Seq<Seq<char>> {
    v@.map_values(|s: String| s@)
}

/// The (stored name, read-back value) pairs that the valid values of a
/// header become, in order; none when the name is invalid.
pub open spec fn converted_values(name: Seq<char>, values: Seq<Seq<char>>) -> Seq<(Seq<char>, Seq<char>)>
    decreases values.len(),
{
    if values.len() == 0 {
        Seq::empty()
    } else {
        let prev = converted_values(name, values.drop_last());
        if header_name_valid(name) && header_value_valid(values.last()) {
            prev.push((stored_name(name), read_back_value(values.last())))
        } else {
            prev
        }
    }
}

/// The pairs that the first `n` headers of `h` (in the order they were
/// added) become.
pub open spec fn converted_pairs(h: Headers, n: nat) -> Seq<(Seq<char>, Seq<char>)>
    decreases n,
{
    if n == 0 {
        Seq::empty()
    } else {
        let k = h.key_seq()[n - 1];
        converted_pairs(h, (n - 1) as nat) + converted_values(k, texts(h@[k]))
    }
}

proof fn lemma_converted_values_grow(name: Seq<char>, values: Seq<Seq<char>>, j: int)
    requires
        0 <= j <= values.len(),
    ensures
        converted_values(name, values.take(j)).len() <= converted_values(name, values).len(),
    decreases values.len() - j,
{
    if j < values.len() {
        lemma_converted_values_grow(name, values, j + 1);
        assert(values.take(j + 1).drop_last() =~= values.take(j));
    } else {
        assert(values.take(j) =~= values);
    }
}

proof fn lemma_converted_pairs_grow(h: Headers, a: nat, b: nat)
    requires
        a <= b,
    ensures
        converted_pairs(h, a).len() <= converted_pairs(h, b).len(),
    decreases b - a,
{
    if a < b {
        lemma_converted_pairs_grow(h, a, (b - 1) as nat);
    }
}

proof fn lemma_values_of_push(e: Seq<(Seq<char>, Seq<char>)>, x: (Seq<char>, Seq<char>), n: Seq<char>)
    ensures
        values_of(e.push(x), n) == if x.0 == n {
            values_of(e, n).push(x.1)
        } else {
            values_of(e, n)
        },
{
    assert(e.push(x).drop_last() =~= e);
}

proof fn lemma_names_have_values(e: Seq<(Seq<char>, Seq<char>)>, n: Seq<char>)
    ensures
        entry_names(e).contains(n) <==> values_of(e, n).len() > 0,
    decreases e.len(),
{
    broadcast use vstd::seq_lib::group_seq_properties;

    if e.len() > 0 {
        let d = e.drop_last();
        lemma_names_have_values(d, n);
        assert(e.map_values(|p: (Seq<char>, Seq<char>)| p.0) =~= d.map_values(
            |p: (Seq<char>, Seq<char>)| p.0,
        ).push(e.last().0));
        assert(e =~= d.push(e.last()));
    } else {
        assert(e.map_values(|p: (Seq<char>, Seq<char>)| p.0) =~= Seq::<Seq<char>>::empty());
    }
}

proof fn lemma_converted_values_names(name: Seq<char>, values: Seq<Seq<char>>)
    ensures
        forall|i: int| 0 <= i < converted_values(name, values).len() ==> (#[trigger] converted_values(name, values)[i]).0 == stored_name(name),
    decreases values.len(),
{
    if values.len() > 0 {
        let prev = converted_values(name, values.drop_last());
        lemma_converted_values_names(name, values.drop_last());
        assert forall|i: int| 0 <= i < converted_values(name, values).len() implies (
        #[trigger] converted_values(name, values)[i]).0 == stored_name(name) by {
            if i < prev.len() {
                assert(converted_values(name, values)[i] == prev[i]);
            }
        }
    }
}

/// The names of the first `n` headers, as the map stores them.
spec fn stored_key_names(h: Headers, n: nat) -> Set<Seq<char>> {
    h.key_seq().take(n as int).map_values(|k: Seq<char>| stored_name(k)).to_set()
}

proof fn lemma_converted_pairs_names(h: Headers, n: nat)
    requires
        n <= h.key_seq().len(),
    ensures
        forall|i: int| 0 <= i < converted_pairs(h, n).len() ==> stored_key_names(h, n).contains(
            (#[trigger] converted_pairs(h, n)[i]).0,
        ),
    decreases n,
{
    broadcast use vstd::seq_lib::group_seq_properties;

    if n > 0 {
        let m = (n - 1) as nat;
        lemma_converted_pairs_names(h, m);
        let k = h.key_seq()[m as int];
        lemma_converted_values_names(k, texts(h@[k]));
        let prev = converted_pairs(h, m);
        let cur = converted_values(k, texts(h@[k]));
        let names_n = h.key_seq().take(n as int).map_values(|k: Seq<char>| stored_name(k));
        let names_m = h.key_seq().take(m as int).map_values(|k: Seq<char>| stored_name(k));
        assert forall|i: int| 0 <= i < converted_pairs(h, n).len() implies stored_key_names(h, n).contains(
            (#[trigger] converted_pairs(h, n)[i]).0,
        ) by {
            if i < prev.len() {
                assert(converted_pairs(h, n)[i] == prev[i]);
                assert(stored_key_names(h, m).contains(prev[i].0));
                let j = choose|j: int| 0 <= j < names_m.len() && names_m[j] == prev[i].0;
                assert(names_n[j] == names_m[j]);
            } else {
                assert(converted_pairs(h, n)[i] == cur[i - prev.len()]);
                assert(names_n[m as int] == stored_name(k));
            }
        }
    }
}

proof fn lemma_stored_key_names_len(h: Headers, n: nat)
    requires
        n <= h.key_seq().len(),
    ensures
        stored_key_names(h, n).finite(),
        stored_key_names(h, n).len() <= n,
{
    broadcast use vstd::seq_lib::group_seq_properties;

    let names = h.key_seq().take(n as int).map_values(|k: Seq<char>| stored_name(k));
    names.lemma_cardinality_of_set();
}

/// Bounds the distinct names that a prefix of the converted pairs holds:
/// by how many headers it came from, and by how many pairs it has.
proof fn lemma_prefix_names_bound(h: Headers, i: nat, k: Seq<char>, part: Seq<(Seq<char>, Seq<char>)>)
    requires
        i < h.key_seq().len(),
        k == h.key_seq()[i as int],
        part.len() <= converted_values(k, texts(h@[k])).len(),
        part == converted_values(k, texts(h@[k])).take(part.len() as int),
    ensures
        entry_names(converted_pairs(h, i) + part).len() <= i + 1,
        entry_names(converted_pairs(h, i) + part).len() <= (converted_pairs(h, i) + part).len(),
{
    broadcast use vstd::seq_lib::group_seq_properties;

    let all = converted_pairs(h, i) + part;
    let fst = all.map_values(|p: (Seq<char>, Seq<char>)| p.0);
    fst.lemma_cardinality_of_set();
    lemma_converted_pairs_names(h, (i + 1) as nat);
    assert(converted_pairs(h, (i + 1) as nat) == converted_pairs(h, i) + converted_values(k, texts(h@[k])));
    lemma_stored_key_names_len(h, (i + 1) as nat);
    assert forall|n: Seq<char>| entry_names(all).contains(n) implies stored_key_names(h, (i + 1) as nat).contains(n) by {
        let j = choose|j: int| 0 <= j < fst.len() && fst[j] == n;
        assert(all[j] == converted_pairs(h, (i + 1) as nat)[j]);
    }
    vstd::set_lib::lemma_len_subset(entry_names(all), stored_key_names(h, (i + 1) as nat));
}

proof fn lemma_converted_values_prefix(name: Seq<char>, values: Seq<Seq<char>>, j: int)
    requires
        0 <= j <= values.len(),
    ensures
        converted_values(name, values.take(j)).len() <= converted_values(name, values).len(),
        converted_values(name, values.take(j)) == converted_values(name, values).take(
            converted_values(name, values.take(j)).len() as int,
        ),
    decreases values.len() - j,
{
    if j < values.len() {
        lemma_converted_values_prefix(name, values, j + 1);
        assert(values.take(j + 1).drop_last() =~= values.take(j));
        let a = converted_values(name, values.take(j));
        let b = converted_values(name, values.take(j + 1));
        let full = converted_values(name, values);
        assert(b == full.take(b.len() as int));
        assert(a =~= b.take(a.len() as int));
        assert(a =~= full.take(a.len() as int));
    } else {
        assert(values.take(j) =~= values);
        assert(converted_values(name, values) =~= converted_values(name, values).take(
            converted_values(name, values).len() as int,
        ));
    }
}

/// Converts protocol headers into an `http::HeaderMap`, skipping names and
/// values that are not valid HTTP. While the headers have fewer than
/// `HEADER_MAP_SAFE_NAMES` names, or fewer valid values than that, the map
/// holds exactly the converted pairs (names lowercase), each name's values in
/// their order; beyond that, a full map drops the rest.
pub fn to_header_map(headers: &Headers) -> (r: http::HeaderMap)
    ensures
        header_map_len(r) <= converted_pairs(*headers, headers.key_seq().len()).len(),
        headers.key_seq().len() < HEADER_MAP_SAFE_NAMES || converted_pairs(*headers, headers.key_seq().len()).len()
            < HEADER_MAP_SAFE_NAMES ==> {
            &&& header_map_entries(r).to_multiset() == converted_pairs(*headers, headers.key_seq().len()).to_multiset()
            &&& header_map_len(r) == converted_pairs(*headers, headers.key_seq().len()).len()
            &&& forall|n: Seq<char>| #[trigger] values_of(header_map_entries(r), n) == values_of(
                converted_pairs(*headers, headers.key_seq().len()),
                n,
            )
        },
{
    broadcast use vstd::seq_lib::group_to_multiset_ensures;

    headers.keys_are_distinct();
    let mut map = header_map_new();
    let names = headers.keys();
    let ghost total = converted_pairs(*headers, names@.len() as nat);
    let ghost small = names@.len() < HEADER_MAP_SAFE_NAMES || total.len() < HEADER_MAP_SAFE_NAMES;
    proof {
        assert(header_map_entries(map).to_multiset() =~= Seq::<(Seq<char>, Seq<char>)>::empty().to_multiset());
    }
    let mut i: usize = 0;
    while i < names.len()
        invariant
            names@.map_values(|k: String| k@) == headers.key_seq(),
            headers.key_seq().len() == headers.val_seq().len(),
            forall|k: Seq<char>| #[trigger] headers@.contains_key(k) <==> headers.key_seq().contains(k),
            0 <= i <= names@.len(),
            total == converted_pairs(*headers, names@.len() as nat),
            small == (names@.len() < HEADER_MAP_SAFE_NAMES || total.len() < HEADER_MAP_SAFE_NAMES),
            header_map_len(map) <= converted_pairs(*headers, i as nat).len(),
            small ==> header_map_entries(map).to_multiset() == converted_pairs(*headers, i as nat).to_multiset(),
            small ==> header_map_len(map) == converted_pairs(*headers, i as nat).len(),
            small ==> forall|n: Seq<char>| #[trigger] values_of(header_map_entries(map), n) == values_of(
                converted_pairs(*headers, i as nat),
                n,
            ),
        decreases names@.len() - i,
    {
        let name = &names[i];
        proof {
            assert(names@.map_values(|k: String| k@)[i as int] == name@);
            assert(headers.key_seq().contains(name@));
            lemma_converted_pairs_grow(*headers, (i + 1) as nat, names@.len() as nat);
        }
        let got = headers.get(name.as_str());
        if let Some(values) = got {
            let ghost base = converted_pairs(*headers, i as nat);
            let ghost vs = texts(*values);
            let mut j: usize = 0;
            proof {
                assert(vs.take(0) =~= Seq::<Seq<char>>::empty());
                assert(base + converted_values(name@, vs.take(0)) =~= base);
                assert(headers@[name@] == *values);
                assert(headers.key_seq()[i as int] == name@);
            }
            while j < values.len()
                invariant
                    0 <= j <= values@.len(),
                    vs == texts(*values),
                    i < names@.len(),
                    names@.map_values(|k: String| k@) == headers.key_seq(),
                    headers.key_seq()[i as int] == name@,
                    headers@[name@] == *values,
                    base == converted_pairs(*headers, i as nat),
                    small == (names@.len() < HEADER_MAP_SAFE_NAMES || total.len() < HEADER_MAP_SAFE_NAMES),
                    (base + converted_values(name@, vs)).len() <= total.len(),
                    header_map_len(map) <= (base + converted_values(name@, vs.take(j as int))).len(),
                    small ==> header_map_entries(map).to_multiset() == (base + converted_values(
                        name@,
                        vs.take(j as int),
                    )).to_multiset(),
                    small ==> header_map_len(map) == (base + converted_values(name@, vs.take(j as int))).len(),
                    small ==> forall|n: Seq<char>| #[trigger] values_of(header_map_entries(map), n) == values_of(
                        base + converted_values(name@, vs.take(j as int)),
                        n,
                    ),
                decreases values@.len() - j,
            {
                let ghost before = base + converted_values(name@, vs.take(j as int));
                let ghost old_entries = header_map_entries(map);
                proof {
                    assert(vs.take(j + 1).drop_last() =~= vs.take(j as int));
                    assert(vs.take(j + 1).last() == values@[j as int]@);
                    lemma_converted_values_grow(name@, vs, j + 1);
                    lemma_converted_values_grow(name@, vs, j as int);
                    if small {
                        assert forall|n: Seq<char>| entry_names(old_entries).contains(n) == entry_names(before).contains(n) by {
                            lemma_names_have_values(old_entries, n);
                            lemma_names_have_values(before, n);
                            assert(values_of(old_entries, n) == values_of(before, n));
                        }
                        assert(entry_names(old_entries) =~= entry_names(before));
                        lemma_converted_values_prefix(name@, vs, j as int);
                        lemma_prefix_names_bound(*headers, i as nat, name@, converted_values(name@, vs.take(j as int)));
                    }
                }
                let added = header_map_append_text(&mut map, name.as_str(), values[j].as_str());
                proof {
                    let after = base + converted_values(name@, vs.take(j + 1));
                    if header_name_valid(name@) && header_value_valid(values@[j as int]@) {
                        let pair = (stored_name(name@), read_back_value(values@[j as int]@));
                        assert(after =~= before.push(pair));
                        vstd::seq_lib::to_multiset_build(before, pair);
                        if small {
                            assert forall|n: Seq<char>| #[trigger] values_of(header_map_entries(map), n) == values_of(after, n) by {
                                lemma_values_of_push(before, pair, n);
                            }
                        }
                    } else {
                        assert(after =~= before);
                    }
                }
                j = j + 1;
            }
            proof {
                assert(vs.take(values@.len() as int) =~= vs);
            }
        }
        i = i + 1;
    }
    map
}

} // verus!
