use curlish::http::{prepare_request, summarize_response, truncate, urlencoding, MAX_BODY_CHARS};
use curlish::model::{
    format_headers, parse_headers, resolve_placeholders, EnvVariable, HeaderEntry, HttpMethod,
    Request, UiArea,
};
use curlish::storage::default_path;
use curlish::sync::{config_path, default_branch, default_local_dir};
use curlish::text::{
    contains_str, join_strings, lines_of, parse_usize, split_chars, to_ascii_lowercase,
    to_ascii_uppercase, trim_str, u64_to_decimal,
};

fn header(name: &str, value: &str) -> HeaderEntry {
    HeaderEntry { name: String::from(name), value: String::from(value) }
}

#[test]
fn format_headers_writes_one_line() {
    assert_eq!(format_headers(&[]), "(none)");
    let hs = vec![header("Accept", "application/json"), header("X-Test", "123")];
    assert_eq!(format_headers(&hs), "Accept: application/json; X-Test: 123");
}

#[test]
fn parse_reads_back_formatted_headers() {
    let hs = vec![header("Accept", "a:b"), header("X-Empty", ""), header("X-Test", "1 2")];
    let parsed = parse_headers(&format_headers(&hs));
    assert_eq!(parsed.len(), 3);
    for (p, h) in parsed.iter().zip(hs.iter()) {
        assert_eq!(p.name, h.name);
        assert_eq!(p.value, h.value);
    }
}

#[test]
fn parse_headers_skips_pieces_without_name() {
    let hs = parse_headers(" ; : novalue ;Host:example.com:8080;Flag");
    assert_eq!(hs.len(), 2);
    assert_eq!(hs[0].name, "Host");
    assert_eq!(hs[0].value, "example.com:8080");
    assert_eq!(hs[1].name, "Flag");
    assert_eq!(hs[1].value, "");
}

#[test]
fn method_names_round_trip() {
    for m in HttpMethod::ALL.iter() {
        assert_eq!(HttpMethod::parse(m.as_str()), Some(*m));
        assert_eq!(HttpMethod::parse(&m.as_str().to_lowercase()), Some(*m));
        assert_eq!(HttpMethod::ALL[m.index()], *m);
    }
    assert_eq!(HttpMethod::parse("\tdelete\n"), Some(HttpMethod::Delete));
}

#[test]
fn area_labels_and_moves() {
    assert_eq!(UiArea::RequestList.label(), "Requests");
    assert_eq!(UiArea::Details.label(), "Details");
    assert_eq!(UiArea::Response.label(), "Response");
    assert_eq!(UiArea::RequestList.right(), UiArea::Details);
    assert_eq!(UiArea::Details.left(), UiArea::RequestList);
    assert_eq!(UiArea::Details.down(), UiArea::Response);
    assert_eq!(UiArea::Response.up(), UiArea::RequestList);
    assert_eq!(UiArea::Response.right(), UiArea::Response);
}

#[test]
fn new_request_is_named_after_its_id() {
    let r = Request::new(1234567);
    assert_eq!(r.name, "Request 1234567");
    assert_eq!(r.method, HttpMethod::Get);
    assert!(r.url.is_empty());
    let s = Request::sample();
    assert_eq!(s.name, "Example GET");
    assert_eq!(s.url, "https://httpbin.org/get");
}

#[test]
fn placeholders_are_replaced_in_order() {
    let vars = vec![
        EnvVariable { key: String::from("a"), value: String::from("{{b}}") },
        EnvVariable { key: String::from("b"), value: String::from("2") },
    ];
    assert_eq!(resolve_placeholders("x{{a}}y{{c}}", &vars), "x2y{{c}}");
    assert_eq!(resolve_placeholders("{{{a}}}", &vars), "{2}");
    assert_eq!(resolve_placeholders("plain", &[]), "plain");
}

#[test]
fn text_without_placeholders_is_kept() {
    let vars = vec![
        EnvVariable { key: String::from("host"), value: String::from("example.org") },
        EnvVariable { key: String::from(""), value: String::from("x") },
    ];
    let url = "https://api.test/v1?q={x}&r=}}";
    assert_eq!(resolve_placeholders(url, &vars), url);
}

#[test]
fn urlencoding_escapes_reserved_bytes() {
    assert_eq!(urlencoding("a-b_c.d~E9"), "a-b_c.d~E9");
    assert_eq!(urlencoding("a b&c=d"), "a%20b%26c%3Dd");
    assert_eq!(urlencoding("é"), "%C3%A9");
}

#[test]
fn truncate_keeps_short_bodies() {
    assert_eq!(truncate(String::from("short")), "short");
    let exact = "x".repeat(MAX_BODY_CHARS);
    assert_eq!(truncate(exact.clone()), exact);
}

#[test]
fn truncate_cuts_long_bodies() {
    let long = "y".repeat(MAX_BODY_CHARS + 10);
    let cut = truncate(long);
    assert_eq!(cut.len(), MAX_BODY_CHARS + "\n...<truncated>".len());
    assert!(cut.ends_with("\n...<truncated>"));
}

#[test]
fn response_summary_formats_status() {
    let r = summarize_response(404, "404 Not Found", vec![header("A", "b")], String::from("nope"));
    assert_eq!(r.status, "404 404 Not Found");
    assert_eq!(r.headers.len(), 1);
    assert_eq!(r.body, "nope");
}

#[test]
fn body_is_sent_only_when_present_and_not_get() {
    let mut req = Request::sample();
    req.body = String::from("  data ");
    let p = prepare_request(&req, &[]).ok().unwrap();
    assert!(p.body.is_none());
    req.method = HttpMethod::Put;
    let p = prepare_request(&req, &[]).ok().unwrap();
    assert_eq!(p.body, Some(String::from("  data ")));
    req.body = String::from(" \n ");
    let p = prepare_request(&req, &[]).ok().unwrap();
    assert!(p.body.is_none());
}

#[test]
fn bad_header_value_is_refused() {
    let mut req = Request::sample();
    req.headers.push(header("X-A", "ok"));
    req.headers.push(header("X-B", "bad\u{7f}"));
    match prepare_request(&req, &[]) {
        Err(msg) => assert_eq!(msg, "Invalid header value for X-B"),
        Ok(_) => panic!("expected the header value to be refused"),
    }
}

#[test]
fn text_helpers_behave_as_std() {
    assert_eq!(trim_str("\u{a0} a b \u{3000}"), "a b");
    assert_eq!(to_ascii_lowercase("ÄbC"), "Äbc");
    assert_eq!(to_ascii_uppercase("äbC"), "äBC");
    assert!(contains_str("abc", ""));
    assert!(contains_str("abc", "bc"));
    assert!(!contains_str("abc", "cb"));
    assert_eq!(u64_to_decimal(0), "0");
    assert_eq!(u64_to_decimal(u64::MAX), u64::MAX.to_string());
    assert_eq!(parse_usize("+42"), Some(42));
    assert_eq!(parse_usize("4 2"), None);
    assert_eq!(parse_usize(""), None);
    assert_eq!(parse_usize("99999999999999999999999"), None);
    let v: Vec<char> = "a;;b".chars().collect();
    assert_eq!(split_chars(&v, ';'), vec!["a", "", "b"]);
    assert_eq!(join_strings(&vec![String::from("a"), String::from("b")], "; "), "a; b");
    for s in ["", "a", "a\n", "a\r\nb\r", "\n\nx", "a\n\r"] {
        let expected: Vec<String> = s.lines().map(String::from).collect();
        assert_eq!(lines_of(s), expected);
    }
}

#[test]
fn default_paths() {
    assert_eq!(default_path(), ".curlish.json");
    assert_eq!(config_path(), ".curlish-sync.toml");
    assert_eq!(default_branch(), "main");
    assert_eq!(default_local_dir(), ".curlish-repo");
}

#[test]
fn header_names_are_checked_as_tokens() {
    let with_name = |name: &str| Request {
        id: 1,
        name: String::from("r"),
        method: HttpMethod::Get,
        url: String::from("http://x"),
        headers: vec![HeaderEntry { name: String::from(name), value: String::from("v") }],
        body: String::new(),
    };
    assert!(prepare_request(&with_name("X-Ok_1!#$%&'*+.^`|~"), &[]).is_ok());
    match prepare_request(&with_name("Bad Name"), &[]) {
        Err(e) => assert_eq!(e, "Invalid header name: Bad Name"),
        Ok(_) => panic!("space accepted in a header name"),
    }
    match prepare_request(&with_name("  "), &[]) {
        Err(e) => assert_eq!(e, "Invalid header name:   "),
        Ok(_) => panic!("empty header name accepted"),
    }
    assert!(prepare_request(&with_name("X(1)"), &[]).is_err());
    assert!(prepare_request(&with_name("Caf\u{e9}"), &[]).is_err());
}
