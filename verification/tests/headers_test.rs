use curlish::headers::{common_values_for, filter_suggestions, COMMON_HEADER_NAMES};

#[test]
fn filter_empty_input_returns_all() {
    let result = filter_suggestions(&COMMON_HEADER_NAMES, "");
    assert_eq!(result.len(), COMMON_HEADER_NAMES.len());
}

#[test]
fn filter_narrows_by_substring() {
    let result = filter_suggestions(&COMMON_HEADER_NAMES, "content");
    assert!(result.contains(&"Content-Type"));
    assert!(result.contains(&"Content-Length"));
    assert!(result.contains(&"Content-Encoding"));
    assert!(!result.contains(&"Accept"));
}

#[test]
fn filter_is_case_insensitive() {
    let result = filter_suggestions(&COMMON_HEADER_NAMES, "ACCEPT");
    assert!(result.contains(&"Accept"));
    assert!(result.contains(&"Accept-Encoding"));
}

#[test]
fn filter_no_match_returns_empty() {
    let result = filter_suggestions(&COMMON_HEADER_NAMES, "zzzzz");
    assert!(result.is_empty());
}

#[test]
fn common_values_for_content_type() {
    let values = common_values_for("Content-Type");
    assert!(values.contains(&"application/json"));
    assert!(values.contains(&"text/html"));
}

#[test]
fn common_values_case_insensitive_lookup() {
    let values = common_values_for("content-type");
    assert!(!values.is_empty());
    assert_eq!(values, common_values_for("Content-Type"));
}

#[test]
fn common_values_for_unknown_header_is_empty() {
    let values = common_values_for("X-Custom-Nonsense");
    assert!(values.is_empty());
}

#[test]
fn common_values_for_authorization() {
    let values = common_values_for("Authorization");
    assert!(values.contains(&"Bearer "));
    assert!(values.contains(&"Basic "));
}

#[test]
fn filter_values_for_content_type() {
    let values = common_values_for("Content-Type");
    let filtered = filter_suggestions(values, "json");
    assert!(filtered.contains(&"application/json"));
    assert!(!filtered.contains(&"text/html"));
}

#[test]
fn common_value_lists_have_no_duplicates() {
    for name in [
        "Content-Type", "Accept", "Accept-Encoding", "Accept-Charset", "Accept-Language",
        "Authorization", "Cache-Control", "Connection", "Content-Encoding",
        "Transfer-Encoding", "X-Requested-With",
    ] {
        let values = common_values_for(name);
        assert!(!values.is_empty());
        for (i, a) in values.iter().enumerate() {
            for b in &values[i + 1..] {
                assert_ne!(a, b);
            }
        }
    }
}
