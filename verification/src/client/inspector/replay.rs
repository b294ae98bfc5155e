//! Helpers behind the inspector's replays and exports: file names, URLs, the
//! headers typed into the replay form, and what headers say about a body.
use vstd::prelude::*;
use crate::protocol::request::{Headers, append_header, header_texts, texts, with_value};
use crate::strmap::StrMap;
use crate::text::{
    chars_of, eq_ignore_ascii_case, push_char, push_str, split_fields, str_eq_ignore_ascii_case,
    str_to_lowercase, string_from_chars, string_of, trim, trim_chars, unicode_lowercase,
};

verus! {

/// The character used for `c` in a download's file name: ASCII letters,
/// digits, `-`, `_` and `.` are kept, anything else becomes `-`.
pub open spec fn filename_char(c: char) -> char {
    if ('a' <= c && c <= 'z') || ('A' <= c && c <= 'Z') || ('0' <= c && c <= '9') || c == '-'
        || c == '_' || c == '.' {
        c
    } else {
        '-'
    }
}

/// A file name made safe from an exchange identifier.
pub fn safe_filename(value: &str) -> (r: String)
    ensures
        r@ == value@.map_values(|c: char| filename_char(c)),
{
    let n = value.unicode_len();
    let mut s = String::new();
    let mut i: usize = 0;
    while i < n
        invariant
            n == value@.len(),
            0 <= i <= n,
            s@ == value@.take(i as int).map_values(|c: char| filename_char(c)),
        decreases n - i,
    {
        let c = value.get_char(i);
        let keep = ('a' <= c && c <= 'z') || ('A' <= c && c <= 'Z') || ('0' <= c && c <= '9') || c
            == '-' || c == '_' || c == '.';
        if keep {
            push_char(&mut s, c);
        } else {
            push_char(&mut s, '-');
        }
        proof {
            assert(value@.take(i + 1).map_values(|c: char| filename_char(c)) =~= value@.take(
                i as int,
            ).map_values(|c: char| filename_char(c)).push(filename_char(c)));
        }
        i = i + 1;
    }
    proof {
        assert(value@.take(n as int) =~= value@);
    }
    s
}

/// A path that starts with `/`: the path itself, or the path after a `/`.
pub open spec fn normalized_path_spec(path: Seq<char>) -> Seq<char> {
    if path.len() > 0 && path[0] == '/' {
        path
    } else {
        "/"@ + path
    }
}

/// Makes a path start with `/`.
pub fn normalized_path(path: &str) -> (r: String)
    ensures
        r@ == normalized_path_spec(path@),
{
    if path.unicode_len() > 0 && path.get_char(0) == '/' {
        string_of(path)
    } else {
        let mut s = string_of("/");
        push_str(&mut s, path);
        s
    }
}

/// The URL a replayed request is sent to on the local service.
pub fn replay_url(local_addr: &str, path: &str) -> (r: String)
    ensures
        r@ == "http://"@ + local_addr@ + normalized_path_spec(path@),
{
    let mut s = string_of("http://");
    push_str(&mut s, local_addr);
    let p = normalized_path(path);
    push_str(&mut s, p.as_str());
    s
}

/// Headers of the replay form that are not sent: those about the
/// connection or the transfer, which the HTTP client sets itself.
pub open spec fn skip_replay_header_spec(name: Seq<char>) -> bool {
    ||| eq_ignore_ascii_case(name, "host"@)
    ||| eq_ignore_ascii_case(name, "content-length"@)
    ||| eq_ignore_ascii_case(name, "transfer-encoding"@)
    ||| eq_ignore_ascii_case(name, "connection"@)
    ||| eq_ignore_ascii_case(name, "keep-alive"@)
    ||| eq_ignore_ascii_case(name, "proxy-authenticate"@)
    ||| eq_ignore_ascii_case(name, "proxy-authorization"@)
    ||| eq_ignore_ascii_case(name, "te"@)
    ||| eq_ignore_ascii_case(name, "trailer"@)
    ||| eq_ignore_ascii_case(name, "upgrade"@)
    ||| eq_ignore_ascii_case(name, "proxy-connection"@)
    ||| eq_ignore_ascii_case(name, "accept-encoding"@)
}

/// Decides whether a header of the replay form is left out.
pub fn skip_replay_header(name: &str) -> (r: bool)
    ensures
        r == skip_replay_header_spec(name@),
{
    str_eq_ignore_ascii_case(name, "host") || str_eq_ignore_ascii_case(name, "content-length")
        || str_eq_ignore_ascii_case(name, "transfer-encoding") || str_eq_ignore_ascii_case(
        name,
        "connection",
    ) || str_eq_ignore_ascii_case(name, "keep-alive") || str_eq_ignore_ascii_case(
        name,
        "proxy-authenticate",
    ) || str_eq_ignore_ascii_case(name, "proxy-authorization") || str_eq_ignore_ascii_case(
        name,
        "te",
    ) || str_eq_ignore_ascii_case(name, "trailer") || str_eq_ignore_ascii_case(name, "upgrade")
        || str_eq_ignore_ascii_case(name, "proxy-connection") || str_eq_ignore_ascii_case(
        name,
        "accept-encoding",
    )
}

/// Whether `i` is the position of the first `:` in `s`.
pub open spec fn is_first_colon(s: Seq<char>, i: int) -> bool {
    0 <= i < s.len() && s[i] == ':' && forall|j: int| 0 <= j < i ==> s[j] != ':'
}

/// A `name: value` line split at its first colon, both sides trimmed; `None`
/// without a colon.
pub open spec fn header_line(line: Seq<char>) -> Option<(Seq<char>, Seq<char>)> {
    if exists|i: int| is_first_colon(line, i) {
        let i = choose|i: int| is_first_colon(line, i);
        Some((trim(line.take(i)), trim(line.skip(i + 1))))
    } else {
        None
    }
}

/// Headers after one more line of the form: a trimmed `name: value` line
/// adds the value to the name unless the header is left out; other lines
/// change nothing.
pub open spec fn header_line_step(m: Map<Seq<char>, Seq<Seq<char>>>, line: Seq<char>) -> Map<
    Seq<char>,
    Seq<Seq<char>>,
> {
    match header_line(trim(line)) {
        Some((name, value)) => if skip_replay_header_spec(name) {
            m
        } else {
            with_value(m, name, value)
        },
        None => m,
    }
}

/// The headers read from a sequence of lines.
pub open spec fn parsed_lines(lines: Seq<Seq<char>>) -> Map<Seq<char>, Seq<Seq<char>>>
    decreases lines.len(),
{
    if lines.len() == 0 {
        Map::empty()
    } else {
        header_line_step(parsed_lines(lines.drop_last()), lines.last())
    }
}

/// The headers typed into the replay form, one `name: value` per line.
pub open spec fn parse_headers_spec(raw: Seq<char>) -> Map<Seq<char>, Seq<Seq<char>>> {
    parsed_lines(split_fields(raw, '\n'))
}

proof fn lemma_first_colon_unique(s: Seq<char>, i: int, k: int)
    requires
        is_first_colon(s, i),
        is_first_colon(s, k),
    ensures
        i == k,
{
    if i < k {
        assert(s[i] != ':');
    } else if k < i {
        assert(s[k] != ':');
    }
}

fn slice_string(cs: &Vec<char>, from: usize, to: usize) -> (r: String)
    requires
        from <= to <= cs@.len(),
    ensures
        r@ == cs@.subrange(from as int, to as int),
{
    let mut s = String::new();
    let mut k: usize = from;
    while k < to
        invariant
            from <= k <= to <= cs@.len(),
            s@ == cs@.subrange(from as int, k as int),
        decreases to - k,
    {
        push_char(&mut s, cs[k]);
        k = k + 1;
        proof {
            assert(cs@.subrange(from as int, k as int) =~= cs@.subrange(from as int, k - 1).push(
                cs@[k - 1],
            ));
        }
    }
    s
}

/// Splits a (trimmed) line at its first colon.
fn split_header_line(line: &Vec<char>) -> (r: Option<(String, String)>)
    ensures
        match header_line(line@) {
            Some((n, v)) => r matches Some((a, b)) && a@ == n && b@ == v,
            None => r is None,
        },
{
    let n = line.len();
    let mut i: usize = 0;
    while i < n && line[i] != ':'
        invariant
            n == line@.len(),
            0 <= i <= n,
            forall|j: int| 0 <= j < i ==> line@[j] != ':',
        decreases n - i,
    {
        i = i + 1;
    }
    if i == n {
        proof {
            assert forall|k: int| !is_first_colon(line@, k) by {
                if 0 <= k < line@.len() && line@[k] == ':' {
                    assert(k < i);
                }
            }
        }
        return None;
    }
    proof {
        assert(is_first_colon(line@, i as int));
        let c = choose|k: int| is_first_colon(line@, k);
        lemma_first_colon_unique(line@, i as int, c);
    }
    let name_part = chars_of(slice_string(line, 0, i).as_str());
    let value_part = chars_of(slice_string(line, i + 1, n).as_str());
    let name = string_from_chars(trim_chars(name_part.as_slice()).as_slice());
    let value = string_from_chars(trim_chars(value_part.as_slice()).as_slice());
    proof {
        assert(line@.take(i as int) =~= line@.subrange(0, i as int));
        assert(line@.skip(i + 1) =~= line@.subrange(i + 1, n as int));
    }
    Some((name, value))
}

fn header_step(map: &mut Headers, line: &Vec<char>)
    ensures
        header_texts(*final(map)) == header_line_step(header_texts(*old(map)), line@),
{
    let t = trim_chars(line.as_slice());
    match split_header_line(&t) {
        Some((name, value)) => {
            if !skip_replay_header(name.as_str()) {
                append_header(map, name, value);
            }
        },
        None => {},
    }
}

/// Reads the headers typed into the replay form: each non-blank line of the
/// form `name: value` (split at the first colon, both sides trimmed) adds the
/// value to the name, except for headers the HTTP client sets itself.
pub fn parse_headers(raw: &str) -> (r: Headers)
    ensures
        header_texts(r) == parse_headers_spec(raw@),
{
    let cs = chars_of(raw);
    let n = cs.len();
    let mut map: Headers = StrMap::new();
    let mut line: Vec<char> = Vec::new();
    let mut i: usize = 0;
    proof {
        assert(cs@.subrange(0, 0) =~= Seq::<char>::empty());
        assert(split_fields(cs@.subrange(0, 0), '\n').drop_last() =~= Seq::<Seq<char>>::empty());
        assert(header_texts(map) =~= Map::empty());
    }
    while i < n
        invariant
            n == cs@.len(),
            0 <= i <= n,
            split_fields(cs@.subrange(0, i as int), '\n').len() >= 1,
            line@ == split_fields(cs@.subrange(0, i as int), '\n').last(),
            header_texts(map) == parsed_lines(split_fields(cs@.subrange(0, i as int), '\n').drop_last()),
        decreases n - i,
    {
        let c = cs[i];
        let ghost fs = split_fields(cs@.subrange(0, i as int), '\n');
        proof {
            assert(cs@.subrange(0, i + 1).drop_last() =~= cs@.subrange(0, i as int));
        }
        if c == '\n' {
            header_step(&mut map, &line);
            line = Vec::new();
            proof {
                let fs2 = split_fields(cs@.subrange(0, i + 1), '\n');
                assert(fs2 == fs.push(Seq::<char>::empty()));
                assert(fs2.drop_last() =~= fs);
                assert(fs.drop_last().push(fs.last()) =~= fs);
            }
        } else {
            line.push(c);
            proof {
                let fs2 = split_fields(cs@.subrange(0, i + 1), '\n');
                assert(fs2 == fs.update(fs.len() - 1, fs.last().push(c)));
                assert(fs2.drop_last() =~= fs.drop_last());
            }
        }
        i = i + 1;
    }
    header_step(&mut map, &line);
    proof {
        let fs = split_fields(cs@.subrange(0, n as int), '\n');
        assert(cs@.subrange(0, n as int) =~= raw@);
        assert(fs.drop_last().push(fs.last()) =~= fs);
    }
    map
}

/// Whether `i` is the position of the first key named `name`, compared
/// without regard to ASCII case.
pub open spec fn is_first_named(keys: Seq<Seq<char>>, name: Seq<char>, i: int) -> bool {
    &&& 0 <= i < keys.len()
    &&& eq_ignore_ascii_case(keys[i], name)
    &&& forall|j: int| 0 <= j < i ==> !eq_ignore_ascii_case(#[trigger] keys[j], name)
}

/// The first value of the first header named `name` (in the order the
/// headers were added), if that header has a value.
pub open spec fn first_header_value(h: Headers, name: Seq<char>) -> Option<Seq<char>> {
    if exists|i: int| is_first_named(h.key_seq(), name, i) {
        let i = choose|i: int| is_first_named(h.key_seq(), name, i);
        let vs = texts(h@[h.key_seq()[i]]);
        if vs.len() > 0 {
            Some(vs[0])
        } else {
            None
        }
    } else {
        None
    }
}

proof fn lemma_first_named_unique(keys: Seq<Seq<char>>, name: Seq<char>, i: int, k: int)
    requires
        is_first_named(keys, name, i),
        is_first_named(keys, name, k),
    ensures
        i == k,
{
    if i < k {
        assert(!eq_ignore_ascii_case(keys[i], name));
    } else if k < i {
        assert(!eq_ignore_ascii_case(keys[k], name));
    }
}

/// Looks up the first value of a header, its name compared without regard
/// to ASCII case.
pub fn first_value(headers: &Headers, name: &str) -> (r: Option<String>)
    ensures
        match first_header_value(*headers, name@) {
            Some(v) => r is Some && r->0@ == v,
            None => r is None,
        },
{
    headers.keys_are_distinct();
    let keys = headers.keys();
    let n = keys.len();
    let mut i: usize = 0;
    while i < n
        invariant
            n == keys@.len(),
            keys@.map_values(|k: String| k@) == headers.key_seq(),
            0 <= i <= n,
            forall|j: int| 0 <= j < i ==> !eq_ignore_ascii_case(#[trigger] headers.key_seq()[j], name@),
        decreases n - i,
    {
        proof {
            assert(keys@.map_values(|k: String| k@)[i as int] == keys@[i as int]@);
        }
        if str_eq_ignore_ascii_case(keys[i].as_str(), name) {
            proof {
                assert(is_first_named(headers.key_seq(), name@, i as int));
                let c = choose|k: int| is_first_named(headers.key_seq(), name@, k);
                lemma_first_named_unique(headers.key_seq(), name@, i as int, c);
                assert(headers.key_seq().contains(keys@[i as int]@));
            }
            return match headers.get(keys[i].as_str()) {
                Some(values) => {
                    if values.len() > 0 {
                        proof {
                            assert(texts(*values)[0] == values@[0]@);
                        }
                        Some(values[0].clone())
                    } else {
                        None
                    }
                },
                None => None,
            };
        }
        i = i + 1;
    }
    proof {
        assert forall|k: int| !is_first_named(headers.key_seq(), name@, k) by {
            if 0 <= k < headers.key_seq().len() && eq_ignore_ascii_case(headers.key_seq()[k], name@) {
                assert(k < i);
            }
        }
    }
    None
}

/// The part of `s` before the first `c`, or all of `s`.
pub open spec fn until_char(s: Seq<char>, c: char) -> Seq<char>
    decreases s.len(),
{
    if s.len() == 0 {
        s
    } else if s[0] == c {
        Seq::empty()
    } else {
        seq![s[0]] + until_char(s.drop_first(), c)
    }
}

fn chars_until(cs: &Vec<char>, c: char) -> (r: Vec<char>)
    ensures
        r@ == until_char(cs@, c),
{
    let n = cs.len();
    let mut out: Vec<char> = Vec::new();
    let mut i: usize = 0;
    proof {
        assert(cs@.skip(0) =~= cs@);
        assert(out@ + until_char(cs@, c) =~= until_char(cs@, c));
    }
    while i < n && cs[i] != c
        invariant
            n == cs@.len(),
            0 <= i <= n,
            out@ == cs@.take(i as int),
            until_char(cs@, c) == out@ + until_char(cs@.skip(i as int), c),
        decreases n - i,
    {
        proof {
            let rest = cs@.skip(i as int);
            assert(rest[0] == cs@[i as int]);
            assert(rest.drop_first() =~= cs@.skip(i + 1));
            assert(out@.push(cs@[i as int]) + until_char(cs@.skip(i + 1), c) =~= out@ + (seq![
                cs@[i as int],
            ] + until_char(cs@.skip(i + 1), c)));
        }
        out.push(cs[i]);
        i = i + 1;
        proof {
            assert(out@ =~= cs@.take(i as int));
        }
    }
    proof {
        let rest = cs@.skip(i as int);
        if i < n {
            assert(rest[0] == c);
        } else {
            assert(rest.len() == 0);
        }
        assert(out@ + until_char(rest, c) =~= out@);
    }
    out
}

/// The media type of a `Content-Type` value: the part before any `;`,
/// trimmed and lowercased; `None` when that is empty.
pub open spec fn media_type(value: Seq<char>) -> Option<Seq<char>> {
    let t = unicode_lowercase(trim(until_char(value, ';')));
    if t.len() == 0 {
        None
    } else {
        Some(t)
    }
}

/// The media type named by the headers' `Content-Type`, if any.
pub open spec fn content_type_spec(h: Headers) -> Option<Seq<char>> {
    match first_header_value(h, "content-type"@) {
        Some(v) => media_type(v),
        None => None,
    }
}

/// Reads the media type from the headers.
pub fn content_type(headers: &Headers) -> (r: Option<String>)
    ensures
        match content_type_spec(*headers) {
            Some(t) => r is Some && r->0@ == t,
            None => r is None,
        },
{
    match first_value(headers, "content-type") {
        Some(v) => {
            let cs = chars_of(v.as_str());
            let head = chars_until(&cs, ';');
            let trimmed = string_from_chars(trim_chars(head.as_slice()).as_slice());
            let lowered = str_to_lowercase(trimmed.as_str());
            if lowered.as_str().unicode_len() == 0 {
                None
            } else {
                Some(lowered)
            }
        },
        None => None,
    }
}

/// Where a response redirects to: the first `Location` value, or empty.
pub open spec fn redirect_url_spec(h: Headers) -> Seq<char> {
    match first_header_value(h, "location"@) {
        Some(v) => v,
        None => Seq::empty(),
    }
}

/// Reads the redirect target from the headers.
pub fn redirect_url(headers: &Headers) -> (r: String)
    ensures
        r@ == redirect_url_spec(*headers),
{
    match first_value(headers, "location") {
        Some(v) => v,
        None => String::new(),
    }
}

/// Whether `name` is, ignoring ASCII case, a header the replay sets itself
/// or that belongs to one connection: host, content-length,
/// transfer-encoding, connection, keep-alive, proxy-authenticate,
/// proxy-authorization, te, trailer, upgrade, proxy-connection or
/// accept-encoding.
pub open spec fn one_of_unreplayed_names(name: Seq<char>) -> bool {
    ||| eq_ignore_ascii_case(name, "host"@)
    ||| eq_ignore_ascii_case(name, "content-length"@)
    ||| eq_ignore_ascii_case(name, "transfer-encoding"@)
    ||| eq_ignore_ascii_case(name, "connection"@)
    ||| eq_ignore_ascii_case(name, "keep-alive"@)
    ||| eq_ignore_ascii_case(name, "proxy-authenticate"@)
    ||| eq_ignore_ascii_case(name, "proxy-authorization"@)
    ||| eq_ignore_ascii_case(name, "te"@)
    ||| eq_ignore_ascii_case(name, "trailer"@)
    ||| eq_ignore_ascii_case(name, "upgrade"@)
    ||| eq_ignore_ascii_case(name, "proxy-connection"@)
    ||| eq_ignore_ascii_case(name, "accept-encoding"@)
}

/// The replay form leaves out exactly these headers.
pub proof fn lemma_replay_skips_exactly(name: Seq<char>)
    ensures
        skip_replay_header_spec(name) <==> one_of_unreplayed_names(name),
{
}

proof fn lemma_parsed_lines_names(lines: Seq<Seq<char>>)
    ensures
        forall|k: Seq<char>| #[trigger] parsed_lines(lines).contains_key(k) ==> !one_of_unreplayed_names(k),
    decreases lines.len(),
{
    if lines.len() > 0 {
        lemma_parsed_lines_names(lines.drop_last());
        let before = parsed_lines(lines.drop_last());
        assert forall|k: Seq<char>| #[trigger] parsed_lines(lines).contains_key(k) implies !one_of_unreplayed_names(k) by {
            match header_line(trim(lines.last())) {
                Some((name, value)) => {
                    if !skip_replay_header_spec(name) && k != name {
                        assert(with_value(before, name, value).contains_key(k) ==> before.contains_key(k));
                    }
                },
                None => {},
            }
        }
    }
}

/// Whatever is typed into the replay form, the headers read from it hold
/// none of the names the replay leaves out.
pub proof fn lemma_parsed_headers_skip(raw: Seq<char>)
    ensures
        forall|k: Seq<char>| #[trigger] parse_headers_spec(raw).contains_key(k) ==> !one_of_unreplayed_names(k),
{
    lemma_parsed_lines_names(split_fields(raw, '\n'));
}

} // verus!
