//! What the inspector page shows of an exchange's headers and bodies.
use vstd::prelude::*;
use vstd::seq_lib::{group_to_multiset_ensures, to_multiset_build, to_multiset_insert};
use crate::client::inspector::har::{base64_padded_len, base64_standard, encode_base64_standard};
use crate::client::inspector::model::BodyPreview;
use crate::client::inspector::replay::{first_header_value, first_value};
use crate::protocol::request::{Headers, texts};
use crate::text::{
    chars_contain, chars_of, chars_start_with, contains_seq, decimal, eq_ignore_ascii_case,
    push_decimal, push_str, starts_with, str_eq, str_eq_ignore_ascii_case, str_to_lowercase,
    string_from_chars, string_of, trim, trim_chars, trim_start, trim_start_chars,
    unicode_lowercase,
};

verus! {

/// The coding named by the headers' `Content-Encoding`: its first value,
/// trimmed and lowercased; `None` when absent or empty.
pub open spec fn content_encoding_spec(h: Headers) -> Option<Seq<char>> {
    match first_header_value(h, "content-encoding"@) {
        Some(v) => {
            let t = unicode_lowercase(trim(v));
            if t.len() == 0 {
                None
            } else {
                Some(t)
            }
        },
        None => None,
    }
}

/// Reads the content coding from the headers.
pub fn content_encoding(headers: &Headers) -> (r: Option<String>)
    ensures
        match content_encoding_spec(*headers) {
            Some(t) => r is Some && r->0@ == t,
            None => r is None,
        },
{
    match first_value(headers, "content-encoding") {
        Some(v) => {
            let cs = chars_of(v.as_str());
            let trimmed = string_from_chars(trim_chars(cs.as_slice()).as_slice());
            let lowered = str_to_lowercase(trimmed.as_str());
            if lowered.as_str().unicode_len() == 0 {
                None
            } else {
                Some(lowered)
            }
        },
        None => None,
    }
}

/// A coding that actually compresses: the trimmed coding, unless it is
/// `identity` (in any ASCII case).
pub open spec fn compressed_encoding_spec(encoding: Option<Seq<char>>) -> Option<Seq<char>> {
    match encoding {
        Some(e) => if eq_ignore_ascii_case(trim(e), "identity"@) {
            None
        } else {
            Some(trim(e))
        },
        None => None,
    }
}

/// Keeps a coding only when it compresses.
pub fn compressed_encoding(encoding: Option<&str>) -> (r: Option<String>)
    ensures
        match compressed_encoding_spec(match encoding {
            Some(e) => Some(e@),
            None => None,
        }) {
            Some(t) => r is Some && r->0@ == t,
            None => r is None,
        },
{
    match encoding {
        Some(e) => {
            let cs = chars_of(e);
            let t = string_from_chars(trim_chars(cs.as_slice()).as_slice());
            if str_eq_ignore_ascii_case(t.as_str(), "identity") {
                None
            } else {
                Some(t)
            }
        },
        None => None,
    }
}

/// The caption of a body: its size, then its media type after ` · ` when
/// known.
pub fn content_label(size: &str, content_type: Option<&str>) -> (r: String)
    ensures
        r@ == match content_type {
            Some(t) => size@ + " \u{b7} "@ + t@,
            None => size@,
        },
{
    let mut s = string_of(size);
    match content_type {
        Some(t) => {
            push_str(&mut s, " \u{b7} ");
            push_str(&mut s, t);
        },
        None => {},
    }
    s
}

/// Whether a body can be shown rendered: a media type of HTML, XHTML or
/// SVG, or a body that (after leading white space, in lowercase) opens with
/// `<!doctype html`, `<html` or `<svg`.
pub open spec fn previewable_markup_spec(body: Seq<char>, content_type: Option<Seq<char>>) -> bool {
    let opening = unicode_lowercase(trim_start(body));
    ||| (match content_type {
        Some(t) => t == "text/html"@ || t == "application/xhtml+xml"@ || t == "image/svg+xml"@,
        None => false,
    })
    ||| starts_with(opening, "<!doctype html"@)
    ||| starts_with(opening, "<html"@)
    ||| starts_with(opening, "<svg"@)
}

/// Decides whether a body is shown rendered.
pub fn previewable_markup(body: &str, content_type: Option<&str>) -> (r: bool)
    ensures
        r == previewable_markup_spec(
            body@,
            match content_type {
                Some(t) => Some(t@),
                None => None,
            },
        ),
{
    let by_type = match content_type {
        Some(t) => str_eq(t, "text/html") || str_eq(t, "application/xhtml+xml") || str_eq(
            t,
            "image/svg+xml",
        ),
        None => false,
    };
    let cs = chars_of(body);
    let start = string_from_chars(trim_start_chars(cs.as_slice()).as_slice());
    let lowered = str_to_lowercase(start.as_str());
    let opening = chars_of(lowered.as_str());
    let doctype = chars_of("<!doctype html");
    let html = chars_of("<html");
    let svg = chars_of("<svg");
    by_type || chars_start_with(opening.as_slice(), doctype.as_slice()) || chars_start_with(
        opening.as_slice(),
        html.as_slice(),
    ) || chars_start_with(opening.as_slice(), svg.as_slice())
}

/// Whether `s` ends with `suffix`.
pub open spec fn ends_with(s: Seq<char>, suffix: Seq<char>) -> bool {
    suffix.len() <= s.len() && s.skip(s.len() - suffix.len()) == suffix
}

/// Whether a body is worth parsing as JSON: a JSON media type (exactly
/// `application/json`, ending in `+json`, or containing `/json`), or a body
/// that opens with `{` or `[` after leading white space.
pub open spec fn looks_like_json_spec(body: Seq<char>, content_type: Option<Seq<char>>) -> bool {
    let opening = trim_start(body);
    ||| (match content_type {
        Some(t) => t == "application/json"@ || ends_with(t, "+json"@) || contains_seq(t, "/json"@),
        None => false,
    })
    ||| (opening.len() > 0 && (opening[0] == '{' || opening[0] == '['))
}

/// Decides whether a body is parsed as JSON for display.
pub fn looks_like_json(body: &str, content_type: Option<&str>) -> (r: bool)
    ensures
        r == looks_like_json_spec(
            body@,
            match content_type {
                Some(t) => Some(t@),
                None => None,
            },
        ),
{
    let by_type = match content_type {
        Some(t) => {
            let cs = chars_of(t);
            let suffix = chars_of("+json");
            let part = chars_of("/json");
            let mut ends = false;
            if suffix.len() <= cs.len() {
                let tail = vstd::slice::slice_subrange(cs.as_slice(), cs.len() - suffix.len(), cs.len());
                ends = chars_start_with(tail, suffix.as_slice()) && tail.len() == suffix.len();
                proof {
                    assert(tail@ =~= cs@.skip(cs@.len() - suffix@.len()));
                    assert(tail@.take(suffix@.len() as int) =~= tail@);
                }
            }
            str_eq(t, "application/json") || ends || chars_contain(cs.as_slice(), part.as_slice())
        },
        None => false,
    };
    let cs = chars_of(body);
    let opening = trim_start_chars(cs.as_slice());
    by_type || (opening.len() > 0 && (opening[0] == '{' || opening[0] == '['))
}

/// Whether a media type is a font: it mentions `font` (which covers
/// `font/...`), or it is one of the older application types for fonts.
pub open spec fn font_content_type_spec(content_type: Option<Seq<char>>) -> bool {
    match content_type {
        Some(t) => {
            ||| starts_with(t, "font/"@)
            ||| contains_seq(t, "font"@)
            ||| t == "application/woff"@
            ||| t == "application/woff2"@
            ||| t == "application/x-font-ttf"@
            ||| t == "application/x-font-opentype"@
            ||| t == "application/vnd.ms-fontobject"@
        },
        None => false,
    }
}

/// Decides whether a media type is a font.
pub fn font_content_type(content_type: Option<&str>) -> (r: bool)
    ensures
        r == font_content_type_spec(
            match content_type {
                Some(t) => Some(t@),
                None => None,
            },
        ),
{
    match content_type {
        Some(t) => {
            let cs = chars_of(t);
            let prefix = chars_of("font/");
            let word = chars_of("font");
            chars_start_with(cs.as_slice(), prefix.as_slice()) || chars_contain(
                cs.as_slice(),
                word.as_slice(),
            ) || str_eq(t, "application/woff") || str_eq(t, "application/woff2") || str_eq(
                t,
                "application/x-font-ttf",
            ) || str_eq(t, "application/x-font-opentype") || str_eq(
                t,
                "application/vnd.ms-fontobject",
            )
        },
        None => false,
    }
}

/// A `data:` URL for a font body, when the whole body was kept: its media
/// type (or `font/woff2`) and the base64 of its bytes.
pub fn font_data_url(body: &BodyPreview, content_type: Option<&str>) -> (r: Option<String>)
    requires
        base64_padded_len(body.preview_bytes@.len()) <= usize::MAX,
    ensures
        body.preview_bytes@.len() == 0 || body.preview_bytes@.len() != body.bytes ==> r is None,
        body.preview_bytes@.len() > 0 && body.preview_bytes@.len() == body.bytes ==> r is Some
            && r->0@ == "data:"@ + (match content_type {
            Some(t) => t@,
            None => "font/woff2"@,
        }) + ";base64,"@ + base64_standard(body.preview_bytes@),
{
    if body.preview_bytes.len() == 0 || body.preview_bytes.len() != body.bytes {
        return None;
    }
    let mut s = string_of("data:");
    match content_type {
        Some(t) => push_str(&mut s, t),
        None => push_str(&mut s, "font/woff2"),
    }
    push_str(&mut s, ";base64,");
    let encoded = encode_base64_standard(&body.preview_bytes);
    push_str(&mut s, encoded.as_str());
    Some(s)
}

/// A body's size as shown: the byte count, marked when the preview was cut.
pub fn body_size(body: &BodyPreview) -> (r: String)
    ensures
        r@ == decimal(body.bytes as nat) + (if body.truncated {
            " (truncated)"@
        } else {
            Seq::empty()
        }),
{
    let mut s = String::new();
    push_decimal(&mut s, body.bytes as u64);
    if body.truncated {
        push_str(&mut s, " (truncated)");
    }
    proof {
        assert(s@ =~= decimal(body.bytes as nat) + (if body.truncated {
            " (truncated)"@
        } else {
            Seq::empty()
        }));
    }
    s
}

/// A body's text as shown: `(empty body)` in place of nothing.
pub fn empty_label(value: &str) -> (r: String)
    ensures
        r@ == (if value@.len() == 0 {
            "(empty body)"@
        } else {
            value@
        }),
{
    if value.unicode_len() == 0 {
        string_of("(empty body)")
    } else {
        string_of(value)
    }
}

/// The `name: value` lines of the headers of one name.
pub open spec fn header_lines_of(name: Seq<char>, values: Seq<Seq<char>>) -> Seq<Seq<char>>
    decreases values.len(),
{
    if values.len() == 0 {
        Seq::empty()
    } else {
        header_lines_of(name, values.drop_last()).push(name + ": "@ + values.last())
    }
}

/// The `name: value` lines of headers, names in the order they were added.
pub open spec fn header_lines(h: Headers, n: nat) -> Seq<Seq<char>>
    decreases n,
{
    if n == 0 {
        Seq::empty()
    } else {
        let k = h.key_seq()[n - 1];
        header_lines(h, (n - 1) as nat) + header_lines_of(k, texts(h@[k]))
    }
}

/// Lines joined with line feeds between them.
pub open spec fn join_lines(lines: Seq<Seq<char>>) -> Seq<char>
    decreases lines.len(),
{
    if lines.len() == 0 {
        Seq::empty()
    } else if lines.len() == 1 {
        lines[0]
    } else {
        join_lines(lines.drop_last()) + "\n"@ + lines.last()
    }
}

/// The headers as text for the replay form: one `name: value` line per value.
pub fn headers_to_text(headers: &Headers) -> (r: String)
    ensures
        r@ == join_lines(header_lines(*headers, headers.key_seq().len())),
{
    headers.keys_are_distinct();
    let keys = headers.keys();
    let mut out = String::new();
    let mut started = false;
    let ghost mut lines: Seq<Seq<char>> = Seq::empty();
    let mut i: usize = 0;
    while i < keys.len()
        invariant
            keys@.map_values(|k: String| k@) == headers.key_seq(),
            forall|k: Seq<char>| #[trigger] headers@.contains_key(k) <==> headers.key_seq().contains(k),
            0 <= i <= keys@.len(),
            lines == header_lines(*headers, i as nat),
            out@ == join_lines(lines),
            started == (lines.len() > 0),
        decreases keys@.len() - i,
    {
        let name = &keys[i];
        proof {
            assert(keys@.map_values(|k: String| k@)[i as int] == name@);
            assert(headers.key_seq().contains(name@));
        }
        match headers.get(name.as_str()) {
            Some(values) => {
                let ghost base = lines;
                let mut j: usize = 0;
                while j < values.len()
                    invariant
                        0 <= j <= values@.len(),
                        lines == base + header_lines_of(name@, texts(*values).take(j as int)),
                        out@ == join_lines(lines),
                        started == (lines.len() > 0),
                    decreases values@.len() - j,
                {
                    let ghost before = lines;
                    let ghost line = name@ + ": "@ + values@[j as int]@;
                    if started {
                        push_str(&mut out, "\n");
                    }
                    push_str(&mut out, name.as_str());
                    push_str(&mut out, ": ");
                    push_str(&mut out, values[j].as_str());
                    proof {
                        lines = before.push(line);
                        assert(texts(*values).take(j + 1).drop_last() =~= texts(*values).take(
                            j as int,
                        ));
                        assert(texts(*values).take(j + 1).last() == values@[j as int]@);
                        assert(base + header_lines_of(name@, texts(*values).take(j + 1)) =~= lines);
                        assert(lines.drop_last() =~= before);
                        if before.len() == 0 {
                            assert(out@ =~= join_lines(lines));
                        } else {
                            assert(out@ =~= join_lines(lines));
                        }
                    }
                    started = true;
                    j = j + 1;
                }
                proof {
                    assert(texts(*values).take(values@.len() as int) =~= texts(*values));
                }
            },
            None => {},
        }
        i = i + 1;
    }
    proof {
        assert(headers.key_seq().len() == keys@.len());
    }
    out
}

/// Whether `a` comes no later than `b` when compared character by
/// character by code point, a prefix first (the order of `String`).
pub open spec fn text_le(a: Seq<char>, b: Seq<char>) -> bool
    decreases a.len(),
{
    if a.len() == 0 {
        true
    } else if b.len() == 0 {
        false
    } else if a[0] == b[0] {
        text_le(a.drop_first(), b.drop_first())
    } else {
        a[0] < b[0]
    }
}

proof fn lemma_text_le_total(a: Seq<char>, b: Seq<char>)
    ensures
        text_le(a, b) || text_le(b, a),
    decreases a.len(),
{
    if a.len() > 0 && b.len() > 0 && a[0] == b[0] {
        lemma_text_le_total(a.drop_first(), b.drop_first());
    }
}

proof fn lemma_text_le_transitive(a: Seq<char>, b: Seq<char>, c: Seq<char>)
    requires
        text_le(a, b),
        text_le(b, c),
    ensures
        text_le(a, c),
    decreases a.len(),
{
    if a.len() > 0 && b.len() > 0 && c.len() > 0 && a[0] == b[0] && b[0] == c[0] {
        lemma_text_le_transitive(a.drop_first(), b.drop_first(), c.drop_first());
    }
}

fn chars_le(a: &Vec<char>, b: &Vec<char>) -> (r: bool)
    ensures
        r == text_le(a@, b@),
{
    let mut i: usize = 0;
    proof {
        assert(a@.skip(0) =~= a@);
        assert(b@.skip(0) =~= b@);
    }
    while i < a.len() && i < b.len() && a[i] == b[i]
        invariant
            0 <= i <= a@.len(),
            i <= b@.len(),
            text_le(a@, b@) == text_le(a@.skip(i as int), b@.skip(i as int)),
        decreases a@.len() - i,
    {
        proof {
            assert(a@.skip(i as int).drop_first() =~= a@.skip(i + 1));
            assert(b@.skip(i as int).drop_first() =~= b@.skip(i + 1));
        }
        i = i + 1;
    }
    proof {
        assert(i < a@.len() ==> a@.skip(i as int)[0] == a@[i as int]);
        assert(i < b@.len() ==> b@.skip(i as int)[0] == b@[i as int]);
    }
    if i == a.len() {
        true
    } else if i == b.len() {
        false
    } else {
        a[i] < b[i]
    }
}

/// The (name, value) pairs of headers, names in the order they were added.
pub open spec fn header_pairs(h: Headers, n: nat) -> Seq<(Seq<char>, Seq<char>)>
    decreases n,
{
    if n == 0 {
        Seq::empty()
    } else {
        let k = h.key_seq()[n - 1];
        header_pairs(h, (n - 1) as nat) + texts(h@[k]).map_values(|v: Seq<char>| (k, v))
    }
}

/// The texts of (name, value) rows.
pub open spec fn row_texts(rows: Seq<(String, String)>) -> Seq<(Seq<char>, Seq<char>)> {
    rows.map_values(|r: (String, String)| (r.0@, r.1@))
}

/// Whether rows are ordered by their lowercased names.
pub open spec fn rows_sorted(rows: Seq<(Seq<char>, Seq<char>)>) -> bool {
    forall|i: int, j: int|
        0 <= i < j < rows.len() ==> text_le(
            unicode_lowercase(#[trigger] rows[i].0),
            unicode_lowercase(#[trigger] rows[j].0),
        )
}

/// The rows of the header table: every (name, value) pair, ordered by the
/// lowercased name.
pub fn header_rows(headers: &Headers) -> (r: Vec<(String, String)>)
    ensures
        rows_sorted(row_texts(r@)),
        row_texts(r@).to_multiset() == header_pairs(*headers, headers.key_seq().len()).to_multiset(),
{
    broadcast use group_to_multiset_ensures;

    headers.keys_are_distinct();
    let keys = headers.keys();
    let mut rows: Vec<(String, String)> = Vec::new();
    let mut lowered: Vec<Vec<char>> = Vec::new();
    let mut i: usize = 0;
    while i < keys.len()
        invariant
            keys@.map_values(|k: String| k@) == headers.key_seq(),
            forall|k: Seq<char>| #[trigger] headers@.contains_key(k) <==> headers.key_seq().contains(k),
            0 <= i <= keys@.len(),
            rows@.len() == lowered@.len(),
            forall|t: int| 0 <= t < rows@.len() ==> #[trigger] lowered@[t]@ == unicode_lowercase(rows@[t].0@),
            rows_sorted(row_texts(rows@)),
            row_texts(rows@).to_multiset() == header_pairs(*headers, i as nat).to_multiset(),
        decreases keys@.len() - i,
    {
        let name = &keys[i];
        proof {
            assert(keys@.map_values(|k: String| k@)[i as int] == name@);
            assert(headers.key_seq().contains(name@));
        }
        let low = chars_of(str_to_lowercase(name.as_str()).as_str());
        match headers.get(name.as_str()) {
            Some(values) => {
                let ghost base = header_pairs(*headers, i as nat);
                let mut j: usize = 0;
                proof {
                    assert(texts(*values).take(0).map_values(|v: Seq<char>| (name@, v)) =~= Seq::<(Seq<char>, Seq<char>)>::empty());
                    assert(base + Seq::<(Seq<char>, Seq<char>)>::empty() =~= base);
                }
                while j < values.len()
                    invariant
                        0 <= j <= values@.len(),
                        low@ == unicode_lowercase(name@),
                        rows@.len() == lowered@.len(),
                        forall|t: int| 0 <= t < rows@.len() ==> #[trigger] lowered@[t]@ == unicode_lowercase(rows@[t].0@),
                        rows_sorted(row_texts(rows@)),
                        row_texts(rows@).to_multiset() == (base + texts(*values).take(j as int).map_values(
                            |v: Seq<char>| (name@, v),
                        )).to_multiset(),
                    decreases values@.len() - j,
                {
                    let n = rows.len();
                    let mut p: usize = 0;
                    while p < n && chars_le(&lowered[p], &low)
                        invariant
                            n == rows@.len() == lowered@.len(),
                            0 <= p <= n,
                            forall|t: int| 0 <= t < p ==> text_le(#[trigger] lowered@[t]@, low@),
                        decreases n - p,
                    {
                        p = p + 1;
                    }
                    let ghost before = rows@;
                    let ghost before_low = lowered@;
                    let ghost pair = (name@, values@[j as int]@);
                    proof {
                        if p < n {
                            lemma_text_le_total(lowered@[p as int]@, low@);
                        }
                    }
                    rows.insert(p, (name.clone(), values[j].clone()));
                    lowered.insert(p, low.clone());
                    proof {
                        let rt = row_texts(rows@);
                        assert(rt =~= row_texts(before).insert(p as int, pair));
                        assert forall|t: int| 0 <= t < rows@.len() implies #[trigger] lowered@[t]@
                            == unicode_lowercase(rows@[t].0@) by {
                            if t < p {
                                assert(lowered@[t] == before_low[t]);
                                assert(rows@[t] == before[t]);
                            } else if t > p {
                                assert(lowered@[t] == before_low[t - 1]);
                                assert(rows@[t] == before[t - 1]);
                            }
                        }
                        assert forall|a: int, b: int| 0 <= a < b < rt.len() implies text_le(
                            unicode_lowercase(#[trigger] rt[a].0),
                            unicode_lowercase(#[trigger] rt[b].0),
                        ) by {
                            let old_rt = row_texts(before);
                            assert(rt[a].0 == rows@[a].0@);
                            assert(rt[b].0 == rows@[b].0@);
                            assert(lowered@[a]@ == unicode_lowercase(rows@[a].0@));
                            assert(lowered@[b]@ == unicode_lowercase(rows@[b].0@));
                            if a < p && b < p {
                                assert(rt[a] == old_rt[a] && rt[b] == old_rt[b]);
                            } else if a < p && b == p {
                                assert(lowered@[a] == before_low[a]);
                            } else if a < p {
                                assert(rt[a] == old_rt[a] && rt[b] == old_rt[b - 1]);
                            } else if a == p {
                                assert(lowered@[b] == before_low[b - 1]);
                                assert(rt[b] == old_rt[b - 1]);
                                lemma_text_le_total(before_low[p as int]@, low@);
                                assert(before_low[p as int]@ == unicode_lowercase(old_rt[p as int].0));
                                assert(before_low[b - 1]@ == unicode_lowercase(old_rt[b - 1].0));
                                if p < b - 1 {
                                    assert(text_le(unicode_lowercase(old_rt[p as int].0), unicode_lowercase(old_rt[b - 1].0)));
                                    lemma_text_le_transitive(low@, before_low[p as int]@, before_low[b - 1]@);
                                }
                            } else {
                                assert(rt[a] == old_rt[a - 1] && rt[b] == old_rt[b - 1]);
                            }
                        }
                        to_multiset_insert(row_texts(before), p as int, pair);
                        let vs = texts(*values);
                        let prev = base + vs.take(j as int).map_values(|v: Seq<char>| (name@, v));
                        to_multiset_build(prev, pair);
                        assert(vs.take(j + 1).map_values(|v: Seq<char>| (name@, v)) =~= vs.take(
                            j as int,
                        ).map_values(|v: Seq<char>| (name@, v)).push(pair));
                        assert(base + vs.take(j + 1).map_values(|v: Seq<char>| (name@, v)) =~= (base
                            + vs.take(j as int).map_values(|v: Seq<char>| (name@, v))).push(pair));
                    }
                    j = j + 1;
                }
                proof {
                    assert(texts(*values).take(values@.len() as int) =~= texts(*values));
                }
            },
            None => {},
        }
        i = i + 1;
    }
    rows
}

/// The data URL a font body is previewed from: present when the whole body
/// was kept and is not empty.
pub open spec fn font_data_url_spec(body: BodyPreview, content_type: Option<Seq<char>>) -> Option<Seq<char>> {
    if body.preview_bytes@.len() == 0 || body.preview_bytes@.len() != body.bytes {
        None
    } else {
        Some(
            "data:"@ + (match content_type {
                Some(t) => t,
                None => "font/woff2"@,
            }) + ";base64,"@ + base64_standard(body.preview_bytes@),
        )
    }
}

/// Whether `text` is one JSON value, as `serde_json::from_str` into a
/// `serde_json::Value` decides.
pub uninterp spec fn json_valid(text: Seq<char>) -> bool;

/// The pretty-printed form of a JSON text: what `serde_json::to_string_pretty`
/// writes for the `serde_json::Value` that `serde_json::from_str` reads.
pub uninterp spec fn json_pretty(text: Seq<char>) -> Seq<char>;

/// `serde_json::from_str::<serde_json::Value>`, then
/// `serde_json::to_string_pretty` of the value (which cannot fail on a
/// `Value`): the pretty text exactly when the text is JSON.
#[verifier::external_body]
fn pretty_json_text(text: &str) -> (r: Option<String>)
    ensures
        r is Some <==> json_valid(text@),
        r matches Some(p) ==> p@ == json_pretty(text@),
{
    serde_json::from_str::<serde_json::Value>(text).ok().map(
        |v| serde_json::to_string_pretty(&v).unwrap_or_else(|_| v.to_string()),
    )
}

/// How the inspector shows a captured body.
pub enum BodyView {
    /// No bytes were captured.
    Empty,
    /// A compressed body: its coding, the note shown about it and the raw
    /// text.
    Compressed { encoding: String, note: String, raw: String },
    /// A font: the data URL it is rendered from (when the whole body was
    /// kept), the font family name the preview uses and the raw text.
    Font { data_url: Option<String>, family: String, text: String },
    /// A binary body, shown by its label.
    Binary(String),
    /// Text that is JSON: the text, and its pretty-printed form (also shown
    /// as a tree).
    Json { text: String, pretty: String },
    /// HTML, XHTML or SVG markup: shown raw and previewed.
    Markup(String),
    /// Any other text.
    Plain(String),
}

/// The note shown for a body the local service sent compressed.
pub open spec fn compressed_note(encoding: Seq<char>) -> Seq<char> {
    "Compressed "@ + encoding
        + " body captured. New requests ask the local service for an uncompressed response."@
}

/// The text shown for a body: `(empty body)` for empty text.
pub open spec fn shown_text(body: BodyPreview) -> Seq<char> {
    if body.text@.len() == 0 {
        "(empty body)"@
    } else {
        body.text@
    }
}

/// Which view a body gets, tried in order: empty, compressed, font,
/// binary, JSON, markup, plain text.
pub open spec fn body_view_spec(
    r: BodyView,
    body: BodyPreview,
    content_type: Option<Seq<char>>,
    content_encoding: Option<Seq<char>>,
) -> bool {
    let text = shown_text(body);
    if body.bytes == 0 {
        r is Empty
    } else if compressed_encoding_spec(content_encoding) is Some {
        let enc = compressed_encoding_spec(content_encoding)->0;
        r matches BodyView::Compressed { encoding, note, raw } && encoding@ == enc && note@
            == compressed_note(enc) && raw@ == body.text@
    } else if font_content_type_spec(content_type) {
        r matches BodyView::Font { data_url, family, text: raw } && raw@ == body.text@ && family@
            == "funnel-preview-"@ + decimal(body.bytes as nat) && match (
            data_url,
            font_data_url_spec(body, content_type),
        ) {
            (Some(u), Some(v)) => u@ == v,
            (None, None) => true,
            _ => false,
        }
    } else if body.binary {
        r matches BodyView::Binary(t) && t@ == text
    } else if looks_like_json_spec(text, content_type) && json_valid(text) {
        r matches BodyView::Json { text: t, pretty } && t@ == text && pretty@ == json_pretty(text)
    } else if previewable_markup_spec(text, content_type) {
        r matches BodyView::Markup(t) && t@ == text
    } else {
        r matches BodyView::Plain(t) && t@ == text
    }
}

/// Chooses how to show a body given its media type and content coding.
pub fn body_view(body: &BodyPreview, content_type: Option<&str>, content_encoding: Option<&str>) -> (r: BodyView)
    requires
        base64_padded_len(body.preview_bytes@.len()) <= usize::MAX,
    ensures
        body_view_spec(
            r,
            *body,
            match content_type {
                Some(t) => Some(t@),
                None => None,
            },
            match content_encoding {
                Some(e) => Some(e@),
                None => None,
            },
        ),
{
    if body.bytes == 0 {
        return BodyView::Empty;
    }
    match compressed_encoding(content_encoding) {
        Some(enc) => {
            let mut note = string_of("Compressed ");
            push_str(&mut note, enc.as_str());
            push_str(
                &mut note,
                " body captured. New requests ask the local service for an uncompressed response.",
            );
            return BodyView::Compressed { encoding: enc, note, raw: body.text.clone() };
        },
        None => {},
    }
    if font_content_type(content_type) {
        let mut family = string_of("funnel-preview-");
        push_decimal(&mut family, body.bytes as u64);
        return BodyView::Font {
            data_url: font_data_url(body, content_type),
            family,
            text: body.text.clone(),
        };
    }
    let text = empty_label(body.text.as_str());
    if body.binary {
        return BodyView::Binary(text);
    }
    if looks_like_json(text.as_str(), content_type) {
        match pretty_json_text(text.as_str()) {
            Some(pretty) => {
                return BodyView::Json { text, pretty };
            },
            None => {},
        }
    }
    if previewable_markup(text.as_str(), content_type) {
        return BodyView::Markup(text);
    }
    BodyView::Plain(text)
}

} // verus!
