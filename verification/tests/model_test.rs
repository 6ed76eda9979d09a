use curlish::model::{parse_headers, HttpMethod};

#[test]
fn parse_headers_splits_pairs() {
    let headers = parse_headers("Accept: application/json; X-Test: 123");
    assert_eq!(headers.len(), 2);
    assert_eq!(headers[0].name, "Accept");
    assert_eq!(headers[0].value, "application/json");
    assert_eq!(headers[1].name, "X-Test");
}

#[test]
fn parse_method_is_case_insensitive() {
    assert_eq!(HttpMethod::parse("post"), Some(HttpMethod::Post));
    assert_eq!(HttpMethod::parse(" PATCH "), Some(HttpMethod::Patch));
    assert_eq!(HttpMethod::parse("nope"), None);
}
