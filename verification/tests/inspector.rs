use funnel::client::inspector::json_tree::{json_child_name, json_node_label, JsonNodeLabel, JsonTree};
use funnel::client::inspector::har::{exchange_url, har_body_text, har_content, har_post_data, query_pairs};
use funnel::client::inspector::island::{
    exchange_matches_filter, filtered_requests, island_exchange, matches_filter, request_href, status_class, IslandExchange,
};
use funnel::client::inspector::log::{ExchangeLog, MAX_ENTRIES};
use funnel::client::inspector::model::{
    append_preview, binary_label, body_preview, is_probably_text, BodyPreview, CapturedExchange,
    ExchangeSource, BODY_PREVIEW_BYTES,
};
use funnel::client::inspector::replay::{
    content_type, normalized_path, parse_headers, redirect_url, replay_url, safe_filename,
    skip_replay_header,
};
use funnel::client::inspector::view::{
    body_size, body_view, compressed_encoding, BodyView, looks_like_json, content_encoding, content_label, empty_label, font_content_type,
    font_data_url, headers_to_text, previewable_markup,
};
use funnel::protocol::request::Headers;
use funnel::strmap::StrMap;

fn headers(entries: &[(&str, &[&str])]) -> Headers {
    let mut h: Headers = StrMap::new();
    for (name, values) in entries {
        h.insert(name.to_string(), values.iter().map(|v| v.to_string()).collect());
    }
    h
}

fn exchange(id: &str, method: &str, path: &str, status: u16, source: ExchangeSource) -> CapturedExchange {
    CapturedExchange {
        id: id.to_string(),
        sequence: 0,
        source,
        timestamp_ms: 12,
        remote_addr: "203.0.113.10:443".to_string(),
        method: method.to_string(),
        path: path.to_string(),
        request_headers: StrMap::new(),
        request_body: BodyPreview::empty(),
        status,
        response_headers: StrMap::new(),
        response_body: BodyPreview::empty(),
        duration_ms: 37,
    }
}

#[test]
fn binary_stream_under_preview_limit_is_not_truncated() {
    let mut preview = BodyPreview::empty();
    append_preview(&mut preview, b"\0woff2-like-binary");
    assert!(preview.binary);
    assert_eq!(preview.bytes, 18);
    assert_eq!(preview.preview_bytes.len(), preview.bytes);
    assert!(!preview.truncated);
    assert_eq!(preview.text, "(binary body, 18 bytes)");
}

#[test]
fn streamed_text_accumulates() {
    let mut preview = BodyPreview::empty();
    append_preview(&mut preview, b"hello ");
    append_preview(&mut preview, b"world");
    assert!(!preview.binary);
    assert_eq!(preview.text, "hello world");
    assert_eq!(preview.bytes, 11);
    assert_eq!(preview.preview_bytes, b"hello world");
    assert!(!preview.truncated);
}

#[test]
fn streamed_text_is_cut_at_the_limit() {
    let mut preview = BodyPreview::empty();
    let big = vec![b'a'; BODY_PREVIEW_BYTES + 10];
    append_preview(&mut preview, &big);
    assert_eq!(preview.text.len(), BODY_PREVIEW_BYTES);
    assert_eq!(preview.preview_bytes.len(), BODY_PREVIEW_BYTES);
    assert!(preview.truncated);
    append_preview(&mut preview, b"more");
    assert_eq!(preview.bytes, BODY_PREVIEW_BYTES + 14);
    assert_eq!(preview.text.len(), BODY_PREVIEW_BYTES);
}

#[test]
fn binary_body_stays_binary() {
    let mut preview = BodyPreview::empty();
    append_preview(&mut preview, b"\x00\x01\x02");
    append_preview(&mut preview, b"plain text");
    assert!(preview.binary);
    assert_eq!(preview.text, "(binary body, 13 bytes)");
}

#[test]
fn text_detection() {
    assert!(is_probably_text(b""));
    assert!(is_probably_text(b"line one\nline two\r\n\ttabbed"));
    assert!(!is_probably_text(&[0xff, 0xfe]));
    assert!(!is_probably_text(b"\0abc"));
    let mut mostly_text = vec![b'a'; 99];
    mostly_text.push(0);
    assert!(is_probably_text(&mostly_text));
    let mut five_percent = vec![b'a'; 95];
    five_percent.extend_from_slice(&[1, 2, 3, 4, 5]);
    assert!(!is_probably_text(&five_percent));
    assert!(is_probably_text("héllo wörld".as_bytes()));
}

#[test]
fn whole_body_preview() {
    let p = body_preview(br#"{"ok":true}"#);
    assert!(!p.binary && !p.truncated);
    assert_eq!(p.text, r#"{"ok":true}"#);
    assert_eq!(p.bytes, 11);
    let big = vec![b'x'; BODY_PREVIEW_BYTES + 1];
    let p = body_preview(&big);
    assert!(p.truncated);
    assert_eq!(p.preview_bytes.len(), BODY_PREVIEW_BYTES);
    let empty = body_preview(b"");
    assert_eq!(empty.text, "");
    assert!(!empty.binary);
    assert_eq!(binary_label(5), "(binary body, 5 bytes)");
}

#[test]
fn binary_har_body_uses_base64_preview() {
    let body = body_preview(b"\0font");
    assert!(body.binary);
    assert_eq!(har_body_text(&body), "AGZvbnQ=");
}

#[test]
fn har_log_contains_request_response_and_query() {
    assert_eq!(
        exchange_url("https://example.com", "/submit?debug=true"),
        "https://example.com/submit?debug=true"
    );
    assert_eq!(query_pairs("/submit?debug=true"), vec![("debug".to_string(), "true".to_string())]);
    let request_headers = headers(&[("content-type", &["application/json"])]);
    assert_eq!(content_type(&request_headers).as_deref(), Some("application/json"));
    let response_headers = headers(&[("location", &["/next"])]);
    assert_eq!(redirect_url(&response_headers), "/next");
    let body = body_preview(br#"{"ok":true}"#);
    assert_eq!(har_body_text(&body), r#"{"ok":true}"#);
}

#[test]
fn exchange_urls() {
    assert_eq!(exchange_url("https://example.com/", "plain"), "https://example.com/plain");
    assert_eq!(exchange_url("not a url//", "a?b"), "not a url/a?b");
    assert_eq!(exchange_url("https://example.com", "/a?"), "https://example.com/a");
    assert!(query_pairs("/no-query").is_empty());
    assert_eq!(
        query_pairs("/s?a=1&b=x+y&c=%41"),
        vec![
            ("a".to_string(), "1".to_string()),
            ("b".to_string(), "x y".to_string()),
            ("c".to_string(), "A".to_string())
        ]
    );
}

#[test]
fn header_lookups() {
    let h = headers(&[("Content-Type", &["Text/HTML; charset=utf-8"]), ("Location", &[])]);
    assert_eq!(content_type(&h).as_deref(), Some("text/html"));
    assert_eq!(redirect_url(&h), "");
    assert_eq!(content_type(&headers(&[("content-type", &["  ; x"])])), None);
    let enc = headers(&[("content-encoding", &[" GZIP "])]);
    assert_eq!(content_encoding(&enc).as_deref(), Some("gzip"));
    assert_eq!(compressed_encoding(Some(" identity ")), None);
    assert_eq!(compressed_encoding(Some(" br ")).as_deref(), Some("br"));
    assert_eq!(compressed_encoding(None), None);
}

#[test]
fn replay_form_headers() {
    let h = parse_headers("X-One: a\n\nhost: ignored\nX-One:  b  \r\nno colon line\nX-Two:c:d\n");
    assert_eq!(h.get("X-One"), Some(&vec!["a".to_string(), "b".to_string()]));
    assert_eq!(h.get("X-Two"), Some(&vec!["c:d".to_string()]));
    assert!(!h.contains_key("host"));
    assert_eq!(h.len(), 2);
    assert!(skip_replay_header("Content-Length"));
    assert!(!skip_replay_header("x-api-key"));
}

#[test]
fn names_and_urls() {
    assert_eq!(safe_filename("req/one"), "req-one");
    assert_eq!(safe_filename("a.b_c-9"), "a.b_c-9");
    assert_eq!(normalized_path("x"), "/x");
    assert_eq!(normalized_path("/x"), "/x");
    assert_eq!(replay_url("127.0.0.1:3000", "api"), "http://127.0.0.1:3000/api");
}

#[test]
fn page_helpers() {
    assert_eq!(content_label("12", Some("text/plain")), "12 \u{b7} text/plain");
    assert_eq!(content_label("12", None), "12");
    assert!(previewable_markup("  <!DOCTYPE html><p>", None));
    assert!(previewable_markup("x", Some("image/svg+xml")));
    assert!(!previewable_markup("<p>", Some("text/plain")));
    assert!(font_content_type(Some("font/woff2")));
    assert!(font_content_type(Some("application/x-font-ttf")));
    assert!(font_content_type(Some("application/vnd.ms-fontobject")));
    assert!(!font_content_type(Some("text/plain")));
    assert!(!font_content_type(None));
    assert_eq!(empty_label(""), "(empty body)");
    assert_eq!(empty_label("x"), "x");
    let mut body = body_preview(b"\0font");
    assert_eq!(body_size(&body), "5");
    assert_eq!(font_data_url(&body, None).as_deref(), Some("data:font/woff2;base64,AGZvbnQ="));
    body.truncated = true;
    assert_eq!(body_size(&body), "5 (truncated)");
    body.bytes = 10;
    assert_eq!(font_data_url(&body, Some("font/ttf")), None);
    let h = headers(&[("a", &["1", "2"]), ("b", &["3"])]);
    assert_eq!(headers_to_text(&h), "a: 1\na: 2\nb: 3");
    assert_eq!(headers_to_text(&StrMap::new()), "");
}

#[test]
fn request_list_filters() {
    let row = IslandExchange {
        id: "r1".into(),
        method: "POST".into(),
        path: "/Submit".into(),
        status: 404,
        source: "replay".into(),
        duration_ms: 3,
    };
    assert!(matches_filter(&row, "4xx", ""));
    assert!(!matches_filter(&row, "2xx", ""));
    assert!(matches_filter(&row, "replay", "submit 404"));
    assert!(!matches_filter(&row, "all", "get"));
    assert!(matches_filter(&row, "anything", "post /sub"));
    assert_eq!(status_class(503), "s5");
    assert_eq!(status_class(404), "s4");
    assert_eq!(status_class(200), "s2");
    let e = exchange("x", "GET", "/", 500, ExchangeSource::Tunnel);
    assert!(exchange_matches_filter(&e, "5xx", ""));
    assert!(!exchange_matches_filter(&e, "replay", ""));
    let island = island_exchange(&e);
    assert_eq!(island.source, "tunnel");
    assert_eq!(island.duration_ms, 37);
}

#[test]
fn request_links() {
    assert_eq!(request_href("req/1", "all", ""), "/?request=req%2F1");
    assert_eq!(request_href("a b", "4xx", "x&y"), "/?request=a+b&filter=4xx&q=x%26y");
    assert_eq!(request_href("id", "", "é"), "/?request=id&q=%C3%A9");
}

#[test]
fn exchange_log_numbers_and_caps_entries() {
    let mut log = ExchangeLog::new();
    assert_eq!(log.push(exchange("a", "GET", "/", 200, ExchangeSource::Tunnel)), 1);
    assert_eq!(log.push(exchange("b", "GET", "/", 200, ExchangeSource::Replay)), 2);
    assert_eq!(log.find("b"), Some(1));
    assert_eq!(log.find("zzz"), None);
    for i in 0..300 {
        log.push(exchange(&format!("n{i}"), "GET", "/", 200, ExchangeSource::Tunnel));
    }
    assert_eq!(log.len(), MAX_ENTRIES);
    assert_eq!(log.entry(0).sequence, 53);
    assert_eq!(log.entry(MAX_ENTRIES - 1).sequence, 302);
    assert_eq!(log.find("a"), None);
}

#[test]
fn header_rows_sorted_by_lowercase_name() {
    let h = headers(&[("b", &["1"]), ("A", &["2", "3"]), ("c", &["4"]), ("B2", &["5"])]);
    let rows = funnel::client::inspector::view::header_rows(&h);
    let expected: Vec<(String, String)> = [("A", "2"), ("A", "3"), ("b", "1"), ("B2", "5"), ("c", "4")]
        .iter()
        .map(|(n, v)| (n.to_string(), v.to_string()))
        .collect();
    assert_eq!(rows, expected);
    assert!(funnel::client::inspector::view::header_rows(&StrMap::new()).is_empty());
}

#[test]
fn json_detection() {
    assert!(looks_like_json("plain", Some("application/json")));
    assert!(looks_like_json("plain", Some("application/problem+json")));
    assert!(looks_like_json("plain", Some("text/json")));
    assert!(looks_like_json("  \n[1, 2]", None));
    assert!(looks_like_json("{\"a\":1}", Some("text/plain")));
    assert!(!looks_like_json("hello", Some("text/plain")));
    assert!(!looks_like_json("", None));
}

#[test]
fn har_post_data_and_content_fields() {
    let json_headers = headers(&[("Content-Type", &["application/json; charset=utf-8"])]);
    let body = body_preview(br#"{"ok":true}"#);
    let post = har_post_data(&body, &json_headers);
    assert_eq!(post.size, None);
    assert_eq!(post.mime_type, "application/json");
    assert_eq!(post.text.as_deref(), Some(r#"{"ok":true}"#));
    assert!(!post.base64);
    assert_eq!(post.comment, None);

    let content = har_content(&body, &json_headers);
    assert_eq!(content.size, Some(11));
    assert_eq!(content.text.as_deref(), Some(r#"{"ok":true}"#));

    let empty = har_content(&BodyPreview::empty(), &headers(&[]));
    assert_eq!(empty.size, Some(0));
    assert_eq!(empty.mime_type, "application/octet-stream");
    assert_eq!(empty.text, None);

    let binary = body_preview(b"\0font");
    let binary_content = har_content(&binary, &headers(&[]));
    assert!(binary_content.base64);
    assert_eq!(binary_content.text.as_deref(), Some("AGZvbnQ="));

    let big = vec![b'a'; BODY_PREVIEW_BYTES + 10];
    let cut = body_preview(&big);
    assert!(cut.truncated);
    let cut_post = har_post_data(&cut, &headers(&[]));
    assert_eq!(
        cut_post.comment.as_deref(),
        Some(format!("Body preview truncated to {} bytes.", BODY_PREVIEW_BYTES).as_str())
    );
}

#[test]
fn filtered_requests_lists_matching_positions_in_order() {
    let mut log = ExchangeLog::new();
    log.push(exchange("a", "GET", "/ok", 200, ExchangeSource::Tunnel));
    log.push(exchange("b", "POST", "/missing", 404, ExchangeSource::Tunnel));
    log.push(exchange("c", "GET", "/again", 201, ExchangeSource::Replay));
    log.push(exchange("d", "GET", "/boom", 503, ExchangeSource::Tunnel));
    assert_eq!(filtered_requests(&log, "all", ""), vec![0, 1, 2, 3]);
    assert_eq!(filtered_requests(&log, "2xx", ""), vec![0, 2]);
    assert_eq!(filtered_requests(&log, "4xx", ""), vec![1]);
    assert_eq!(filtered_requests(&log, "5xx", ""), vec![3]);
    assert_eq!(filtered_requests(&log, "replay", ""), vec![2]);
    assert_eq!(filtered_requests(&log, "all", "get"), vec![0, 2, 3]);
    assert_eq!(filtered_requests(&log, "2xx", "AGAIN"), vec![2]);
    assert!(filtered_requests(&ExchangeLog::new(), "all", "").is_empty());
}

#[test]
fn body_view_picks_the_rendering() {
    assert!(matches!(body_view(&BodyPreview::empty(), None, None), BodyView::Empty));

    let text = body_preview(b"xyz");
    match body_view(&text, Some("text/plain"), Some(" gzip ")) {
        BodyView::Compressed { encoding, note, raw } => {
            assert_eq!(encoding, "gzip");
            assert_eq!(
                note,
                "Compressed gzip body captured. New requests ask the local service for an uncompressed response."
            );
            assert_eq!(raw, "xyz");
        }
        _ => panic!("expected a compressed view"),
    }
    assert!(matches!(body_view(&text, None, Some("identity")), BodyView::Plain(t) if t == "xyz"));

    let font = body_preview(b"\0font");
    match body_view(&font, Some("font/woff2"), None) {
        BodyView::Font { data_url, family, .. } => {
            assert_eq!(data_url.as_deref(), Some("data:font/woff2;base64,AGZvbnQ="));
            assert_eq!(family, "funnel-preview-5");
        }
        _ => panic!("expected a font view"),
    }

    let binary = body_preview(b"\0\x01\x02");
    assert!(matches!(body_view(&binary, None, None), BodyView::Binary(_)));

    let json = body_preview(br#"{"a":1}"#);
    match body_view(&json, None, None) {
        BodyView::Json { text, pretty } => {
            assert_eq!(text, r#"{"a":1}"#);
            assert_eq!(pretty, "{\n  \"a\": 1\n}");
        }
        _ => panic!("expected a JSON view"),
    }
    let broken = body_preview(b"{oops");
    assert!(matches!(body_view(&broken, None, None), BodyView::Plain(t) if t == "{oops"));
    assert!(matches!(
        body_view(&broken, Some("application/json"), None),
        BodyView::Plain(_)
    ));

    let page = body_preview(b"<!DOCTYPE html><p>hi</p>");
    assert!(matches!(body_view(&page, None, None), BodyView::Markup(_)));
    assert!(matches!(body_view(&body_preview(b"hello"), None, None), BodyView::Plain(t) if t == "hello"));
}

#[test]
fn json_tree_labels() {
    let object = JsonTree::Object(vec![
        ("a".to_string(), JsonTree::Number("1".to_string())),
        ("b".to_string(), JsonTree::Array(vec![JsonTree::Bool(true), JsonTree::Null])),
    ]);
    assert_eq!(
        json_node_label(&object, "root"),
        JsonNodeLabel::Branch { name: "root".to_string(), kind: "object · 2".to_string() }
    );
    assert_eq!(
        json_node_label(&JsonTree::Array(vec![JsonTree::Null]), "b"),
        JsonNodeLabel::Branch { name: "b".to_string(), kind: "array · 1".to_string() }
    );
    assert_eq!(
        json_node_label(&JsonTree::Str("hi".to_string()), "k"),
        JsonNodeLabel::Leaf { name: "k".to_string(), text: "hi".to_string() }
    );
    assert_eq!(
        json_node_label(&JsonTree::Bool(false), "[0]"),
        JsonNodeLabel::Leaf { name: "[0]".to_string(), text: "false".to_string() }
    );
    assert_eq!(
        json_node_label(&JsonTree::Null, "n"),
        JsonNodeLabel::Leaf { name: "n".to_string(), text: "null".to_string() }
    );
    assert_eq!(
        json_node_label(&JsonTree::Number("2.5".to_string()), "x"),
        JsonNodeLabel::Leaf { name: "x".to_string(), text: "2.5".to_string() }
    );
    assert_eq!(json_child_name(12), "[12]");
}

#[test]
fn filter_tab_links() {
    assert_eq!(funnel::client::inspector::island::filter_href("4xx", ""), "/?filter=4xx");
    assert_eq!(funnel::client::inspector::island::filter_href("all", "a b&c"), "/?filter=all&q=a+b%26c");
}
