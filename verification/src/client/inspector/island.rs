//! The inspector's request list: one row per exchange, the filters and the
//! search over rows, and the links that select a row.
use vstd::prelude::*;
use vstd::utf8::encode_utf8;
use crate::client::inspector::log::ExchangeLog;
use crate::client::inspector::model::{CapturedExchange, ExchangeSource};
use crate::text::{
    chars_contain, chars_of, contains_seq, decimal, decimal_string, digit_char, push_str, str_eq,
    str_to_lowercase, string_of, unicode_lowercase,
};

verus! {

/// What a row of the request list shows of an exchange.
#[derive(Debug)]
pub struct IslandExchange {
    pub id: String,
    pub method: String,
    pub path: String,
    pub status: u16,
    /// `tunnel` or `replay`.
    pub source: String,
    pub duration_ms: u128,
}

/// The row for an exchange.
pub fn island_exchange(exchange: &CapturedExchange) -> (r: IslandExchange)
    ensures
        r.id@ == exchange.id@,
        r.method@ == exchange.method@,
        r.path@ == exchange.path@,
        r.status == exchange.status,
        r.source@ == (match exchange.source {
            ExchangeSource::Tunnel => "tunnel"@,
            ExchangeSource::Replay => "replay"@,
        }),
        r.duration_ms == exchange.duration_ms,
{
    IslandExchange {
        id: exchange.id.clone(),
        method: exchange.method.clone(),
        path: exchange.path.clone(),
        status: exchange.status,
        source: string_of(exchange.source.as_str()),
        duration_ms: exchange.duration_ms,
    }
}

/// The style class of a status: `s5` for 5xx and above, `s4` for 4xx,
/// `s2` otherwise.
pub open spec fn status_class_spec(status: u16) -> Seq<char> {
    if status >= 500 {
        "s5"@
    } else if status >= 400 {
        "s4"@
    } else {
        "s2"@
    }
}

/// Chooses the style class of a status.
pub fn status_class(status: u16) -> (r: &'static str)
    ensures
        r@ == status_class_spec(status),
{
    if status >= 500 {
        "s5"
    } else if status >= 400 {
        "s4"
    } else {
        "s2"
    }
}

/// Whether a row passes the list's filter: `2xx`, `4xx` and `5xx` select by
/// status class, `replay` selects replayed exchanges, anything else passes
/// every row.
pub open spec fn filter_passes(status: u16, replayed: bool, filter: Seq<char>) -> bool {
    if filter == "2xx"@ {
        200 <= status < 300
    } else if filter == "4xx"@ {
        400 <= status < 500
    } else if filter == "5xx"@ {
        status >= 500
    } else if filter == "replay"@ {
        replayed
    } else {
        true
    }
}

/// The text a search runs over: method, path and status, separated by spaces.
pub open spec fn search_line(method: Seq<char>, path: Seq<char>, status: u16) -> Seq<char> {
    method + " "@ + path + " "@ + decimal(status as nat)
}

/// Whether a search finds a row: an empty query finds every row; otherwise
/// the lowercased query must occur in the lowercased search line.
pub open spec fn query_hits(line: Seq<char>, query: Seq<char>) -> bool {
    query.len() == 0 || contains_seq(unicode_lowercase(line), unicode_lowercase(query))
}

fn filter_check(status: u16, replayed: bool, filter: &str) -> (r: bool)
    ensures
        r == filter_passes(status, replayed, filter@),
{
    if str_eq(filter, "2xx") {
        200 <= status && status < 300
    } else if str_eq(filter, "4xx") {
        400 <= status && status < 500
    } else if str_eq(filter, "5xx") {
        status >= 500
    } else if str_eq(filter, "replay") {
        replayed
    } else {
        true
    }
}

fn query_check(method: &str, path: &str, status: u16, query: &str) -> (r: bool)
    ensures
        r == query_hits(search_line(method@, path@, status), query@),
{
    if query.unicode_len() == 0 {
        return true;
    }
    let mut line = string_of(method);
    push_str(&mut line, " ");
    push_str(&mut line, path);
    push_str(&mut line, " ");
    let digits = decimal_string(status as u64);
    push_str(&mut line, digits.as_str());
    proof {
        assert(line@ =~= search_line(method@, path@, status));
    }
    let hay = str_to_lowercase(line.as_str());
    let needle = str_to_lowercase(query);
    let hay_chars = chars_of(hay.as_str());
    let needle_chars = chars_of(needle.as_str());
    chars_contain(hay_chars.as_slice(), needle_chars.as_slice())
}

/// Whether a row is listed under the given filter and search.
pub fn matches_filter(entry: &IslandExchange, filter: &str, query: &str) -> (r: bool)
    ensures
        r == (filter_passes(entry.status, entry.source@ == "replay"@, filter@) && query_hits(
            search_line(entry.method@, entry.path@, entry.status),
            query@,
        )),
{
    let replayed = str_eq(entry.source.as_str(), "replay");
    if !filter_check(entry.status, replayed, filter) {
        return false;
    }
    query_check(entry.method.as_str(), entry.path.as_str(), entry.status, query)
}

/// Whether an exchange is listed under the given filter and search.
pub fn exchange_matches_filter(entry: &CapturedExchange, filter: &str, query: &str) -> (r: bool)
    ensures
        r == (filter_passes(entry.status, entry.source == ExchangeSource::Replay, filter@)
            && query_hits(search_line(entry.method@, entry.path@, entry.status), query@)),
{
    let replayed = match entry.source {
        ExchangeSource::Replay => true,
        ExchangeSource::Tunnel => false,
    };
    if !filter_check(entry.status, replayed, filter) {
        return false;
    }
    query_check(entry.method.as_str(), entry.path.as_str(), entry.status, query)
}

/// Whether the request list shows an exchange under a filter and search.
pub open spec fn listed(entry: CapturedExchange, filter: Seq<char>, query: Seq<char>) -> bool {
    filter_passes(entry.status, entry.source == ExchangeSource::Replay, filter) && query_hits(
        search_line(entry.method@, entry.path@, entry.status),
        query,
    )
}

/// The positions in the log, oldest first, of the exchanges the request
/// list shows under a filter and search: exactly those it lists.
pub fn filtered_requests(log: &ExchangeLog, filter: &str, query: &str) -> (r: Vec<usize>)
    ensures
        forall|k: int| 0 <= k < r@.len() ==> #[trigger] r@[k] < log@.len() && listed(log@[r@[k] as int], filter@, query@),
        forall|k: int, l: int| 0 <= k < l < r@.len() ==> r@[k] < r@[l],
        forall|i: int| 0 <= i < log@.len() && listed(#[trigger] log@[i], filter@, query@) ==> r@.contains(i as usize),
{
    let n = log.len();
    let mut r: Vec<usize> = Vec::new();
    let mut i: usize = 0;
    while i < n
        invariant
            n == log@.len(),
            0 <= i <= n,
            forall|k: int| 0 <= k < r@.len() ==> #[trigger] r@[k] < i && listed(log@[r@[k] as int], filter@, query@),
            forall|k: int, l: int| 0 <= k < l < r@.len() ==> r@[k] < r@[l],
            forall|j: int| 0 <= j < i && listed(#[trigger] log@[j], filter@, query@) ==> r@.contains(j as usize),
        decreases n - i,
    {
        let ghost old_r = r@;
        if exchange_matches_filter(log.entry(i), filter, query) {
            r.push(i);
            proof {
                assert(r@[old_r.len() as int] == i);
                assert forall|j: int| 0 <= j < i + 1 && listed(#[trigger] log@[j], filter@, query@) implies r@.contains(j as usize) by {
                    if j < i {
                        let k = choose|k: int| 0 <= k < old_r.len() && old_r[k] == j as usize;
                        assert(r@[k] == j as usize);
                    } else {
                        assert(r@[old_r.len() as int] == j as usize);
                    }
                }
            }
        }
        i = i + 1;
    }
    r
}

/// A byte that form encoding keeps as it is: ASCII letters and digits and
/// `*`, `-`, `.`, `_`.
pub open spec fn form_unchanged(b: u8) -> bool {
    ||| b == 0x2a || b == 0x2d || b == 0x2e || b == 0x5f
    ||| (0x30 <= b && b <= 0x39)
    ||| (0x41 <= b && b <= 0x5a)
    ||| (0x61 <= b && b <= 0x7a)
}

/// An uppercase hexadecimal digit.
pub open spec fn hex_upper(d: nat) -> char {
    if d < 10 {
        digit_char(d)
    } else if d == 10 {
        'A'
    } else if d == 11 {
        'B'
    } else if d == 12 {
        'C'
    } else if d == 13 {
        'D'
    } else if d == 14 {
        'E'
    } else {
        'F'
    }
}

/// The form encoding of one byte: itself when kept, `+` for a space,
/// otherwise `%` and two uppercase hexadecimal digits.
pub open spec fn form_encode_byte(b: u8) -> Seq<char> {
    if form_unchanged(b) {
        seq![b as char]
    } else if b == 0x20 {
        seq!['+']
    } else {
        seq!['%', hex_upper((b / 16) as nat), hex_upper((b % 16) as nat)]
    }
}

/// The `application/x-www-form-urlencoded` form of bytes, byte by byte.
pub open spec fn form_encode(bs: Seq<u8>) -> Seq<char>
    decreases bs.len(),
{
    if bs.len() == 0 {
        Seq::empty()
    } else {
        form_encode(bs.drop_last()) + form_encode_byte(bs.last())
    }
}

/// `url::form_urlencoded::byte_serialize` on the UTF-8 bytes of the text,
/// collected into a string.
#[verifier::external_body]
fn url_escape(value: &str) -> (r: String)
    ensures
        r@ == form_encode(encode_utf8(value@)),
{
    url::form_urlencoded::byte_serialize(value.as_bytes()).collect()
}

/// The link that selects a row, keeping the current filter (unless it is
/// empty or `all`) and search (unless it is empty).
pub open spec fn request_href_spec(id: Seq<char>, filter: Seq<char>, query: Seq<char>) -> Seq<char> {
    let base = "/?request="@ + form_encode(encode_utf8(id));
    let filtered = if filter.len() > 0 && filter != "all"@ {
        base + "&filter="@ + form_encode(encode_utf8(filter))
    } else {
        base
    };
    if query.len() > 0 {
        filtered + "&q="@ + form_encode(encode_utf8(query))
    } else {
        filtered
    }
}

/// Builds the link that selects a row.
pub fn request_href(id: &str, filter: &str, query: &str) -> (r: String)
    ensures
        r@ == request_href_spec(id@, filter@, query@),
{
    let mut href = string_of("/?request=");
    let escaped = url_escape(id);
    push_str(&mut href, escaped.as_str());
    if filter.unicode_len() > 0 && !str_eq(filter, "all") {
        push_str(&mut href, "&filter=");
        let f = url_escape(filter);
        push_str(&mut href, f.as_str());
    }
    if query.unicode_len() > 0 {
        push_str(&mut href, "&q=");
        let q = url_escape(query);
        push_str(&mut href, q.as_str());
    }
    href
}

/// The link of a filter tab: the filter, and the search when there is one.
pub open spec fn filter_href_spec(filter: Seq<char>, query: Seq<char>) -> Seq<char> {
    if query.len() == 0 {
        "/?filter="@ + filter
    } else {
        "/?filter="@ + filter + "&q="@ + form_encode(encode_utf8(query))
    }
}

/// Builds the link of a filter tab, keeping the current search.
pub fn filter_href(filter: &str, query: &str) -> (r: String)
    ensures
        r@ == filter_href_spec(filter@, query@),
{
    let mut href = string_of("/?filter=");
    push_str(&mut href, filter);
    if query.unicode_len() > 0 {
        push_str(&mut href, "&q=");
        let q = url_escape(query);
        push_str(&mut href, q.as_str());
    }
    href
}

/// The request list's filters: `2xx` lists exactly the statuses 200 to 299,
/// `4xx` exactly 400 to 499, `5xx` exactly 500 and above, `replay` exactly
/// the replayed exchanges, and `all` every exchange; with an empty search,
/// an exchange is listed exactly when its filter passes it.
pub proof fn lemma_filters_select(entry: CapturedExchange)
    ensures
        listed(entry, "2xx"@, ""@) <==> 200 <= entry.status < 300,
        listed(entry, "4xx"@, ""@) <==> 400 <= entry.status < 500,
        listed(entry, "5xx"@, ""@) <==> 500 <= entry.status,
        listed(entry, "replay"@, ""@) <==> entry.source == ExchangeSource::Replay,
        listed(entry, "all"@, ""@),
{
    reveal_strlit("2xx");
    reveal_strlit("4xx");
    reveal_strlit("5xx");
    reveal_strlit("replay");
    reveal_strlit("all");
    reveal_strlit("");
    assert("4xx"@[0] != "2xx"@[0]);
    assert("5xx"@[0] != "2xx"@[0] && "5xx"@[0] != "4xx"@[0]);
    assert("replay"@.len() != "2xx"@.len() && "replay"@.len() != "4xx"@.len() && "replay"@.len() != "5xx"@.len());
    assert("all"@[0] != "2xx"@[0] && "all"@[0] != "4xx"@[0] && "all"@[0] != "5xx"@[0]);
    assert("all"@.len() != "replay"@.len());
}

} // verus!
