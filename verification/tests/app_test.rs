use curlish::app::{App, EditField, Mode};
use curlish::model::{HttpMethod, RequestStore, UiArea};

#[test]
fn filtered_methods_empty_filter_returns_all() {
    let result = App::filtered_methods("");
    assert_eq!(result.len(), HttpMethod::ALL.len());
}

#[test]
fn filtered_methods_narrows_by_substring() {
    let result = App::filtered_methods("P");
    assert!(result.contains(&HttpMethod::Post));
    assert!(result.contains(&HttpMethod::Put));
    assert!(result.contains(&HttpMethod::Patch));
    assert!(!result.contains(&HttpMethod::Get));
}

#[test]
fn filtered_methods_case_insensitive() {
    let result = App::filtered_methods("get");
    assert_eq!(result, vec![HttpMethod::Get]);
}

#[test]
fn filtered_methods_no_match() {
    let result = App::filtered_methods("ZZZZZ");
    assert!(result.is_empty());
}

#[test]
fn current_field_maps_indices() {
    let app = App {
        store: RequestStore::default(),
        selected: 0,
        field_index: 0,
        mode: Mode::Normal,
        input: String::new(),
        status_line: String::new(),
        response: None,
        storage_path: String::from("test"),
        focused_area: UiArea::RequestList,
        response_scroll: 0,
        sync_config: None,
        next_id: 1,
    };

    let fields = [
        EditField::Name,
        EditField::Method,
        EditField::Url,
        EditField::Headers,
        EditField::Body,
    ];
    for (i, expected) in fields.iter().enumerate() {
        let a = App {
            field_index: i,
            store: app.store.clone(),
            selected: app.selected,
            mode: Mode::Normal,
            input: String::new(),
            status_line: String::new(),
            response: None,
            storage_path: String::from("test"),
            focused_area: UiArea::RequestList,
            response_scroll: 0,
            sync_config: None,
            next_id: 1,
        };
        assert_eq!(a.current_field(), *expected);
    }
}

#[test]
fn current_field_out_of_bounds_returns_body() {
    let app = App {
        store: RequestStore::default(),
        selected: 0,
        field_index: 99,
        mode: Mode::Normal,
        input: String::new(),
        status_line: String::new(),
        response: None,
        storage_path: String::from("test"),
        focused_area: UiArea::RequestList,
        response_scroll: 0,
        sync_config: None,
        next_id: 1,
    };
    assert_eq!(app.current_field(), EditField::Body);
}
