use curlish::app::{App, AppAction, EditField, Mode};
use curlish::keys::{Effect, Key, KeyCode, PullReport, SetupReport, SyncReport};
use curlish::model::{HeaderEntry, HttpMethod, RequestStore, ResponseSummary, UiArea};
use curlish::sync::{SyncConfig, SyncStatus};

fn key(code: KeyCode) -> Key {
    Key { code, ctrl: false }
}

fn ch(c: char) -> Key {
    key(KeyCode::Char(c))
}

fn ctrl(c: char) -> Key {
    Key { code: KeyCode::Char(c), ctrl: true }
}

fn app() -> App {
    App::load(RequestStore::default(), String::from("store.json"), None)
}

fn type_text(app: &mut App, text: &str) {
    for c in text.chars() {
        app.handle_key(ch(c));
    }
}

fn body_lines(app: &App) -> Vec<String> {
    match &app.mode {
        Mode::BodyEditor { lines, .. } => lines.clone(),
        _ => panic!("not in the body editor"),
    }
}

#[test]
fn load_numbers_new_requests_after_the_highest_id() {
    let a = app();
    assert_eq!(a.next_id, 2);
    assert_eq!(a.selected, 0);
    assert!(matches!(a.mode, Mode::Normal));
    assert_eq!(a.focused_area, UiArea::RequestList);
}

#[test]
fn new_request_is_added_and_selected() {
    let mut a = app();
    assert!(matches!(a.handle_key(ch('n')), Effect::Continue));
    assert_eq!(a.store.requests.len(), 2);
    assert_eq!(a.selected, 1);
    assert_eq!(a.store.requests[1].id, 2);
    assert_eq!(a.store.requests[1].name, "Request 2");
    assert_eq!(a.next_id, 3);
    assert_eq!(a.status_line, "New request added");
}

#[test]
fn duplicate_inserts_copy_after_current() {
    let mut a = app();
    a.handle_key(ch('c'));
    assert_eq!(a.store.requests.len(), 2);
    assert_eq!(a.selected, 1);
    assert_eq!(a.store.requests[1].name, "Example GET-copy");
    assert_eq!(a.store.requests[1].id, 2);
    assert_eq!(a.store.requests[1].url, "https://httpbin.org/get");
    assert_eq!(a.status_line, "Request duplicated");
}

#[test]
fn delete_asks_and_esc_cancels() {
    let mut a = app();
    a.handle_key(ch('x'));
    assert!(matches!(a.mode, Mode::ConfirmDelete { selected: 1 }));
    a.handle_key(key(KeyCode::Esc));
    assert!(matches!(a.mode, Mode::Normal));
    assert_eq!(a.store.requests.len(), 1);
    assert_eq!(a.status_line, "Delete cancelled");
}

#[test]
fn delete_confirmed_removes_request() {
    let mut a = app();
    a.handle_key(ch('n'));
    a.handle_key(ch('x'));
    a.handle_key(key(KeyCode::Up));
    assert!(matches!(a.mode, Mode::ConfirmDelete { selected: 0 }));
    a.handle_key(key(KeyCode::Enter));
    assert_eq!(a.store.requests.len(), 1);
    assert_eq!(a.selected, 0);
    assert_eq!(a.status_line, "Request deleted");
}

#[test]
fn selection_wraps_round_the_list() {
    let mut a = app();
    a.handle_key(ch('n'));
    a.handle_key(ch('n'));
    assert_eq!(a.selected, 2);
    a.handle_key(key(KeyCode::Down));
    assert_eq!(a.selected, 0);
    a.handle_key(key(KeyCode::Up));
    assert_eq!(a.selected, 2);
}

#[test]
fn wasd_moves_between_areas() {
    let mut a = app();
    a.handle_key(ch('d'));
    assert_eq!(a.focused_area, UiArea::Details);
    a.handle_key(ch('s'));
    assert_eq!(a.focused_area, UiArea::Response);
    a.handle_key(ch('w'));
    assert_eq!(a.focused_area, UiArea::RequestList);
    a.handle_key(ch('a'));
    assert_eq!(a.focused_area, UiArea::RequestList);
}

#[test]
fn details_cursor_wraps_round_the_fields() {
    let mut a = app();
    a.handle_key(ch('d'));
    a.handle_key(key(KeyCode::Up));
    assert_eq!(a.field_index, 4);
    assert_eq!(a.current_field(), EditField::Body);
    a.handle_key(key(KeyCode::Down));
    assert_eq!(a.field_index, 0);
}

#[test]
fn response_scroll_stops_at_top() {
    let mut a = app();
    a.handle_key(ch('s'));
    a.handle_key(key(KeyCode::Up));
    assert_eq!(a.response_scroll, 0);
    a.handle_key(key(KeyCode::Down));
    a.handle_key(key(KeyCode::Down));
    assert_eq!(a.response_scroll, 2);
}

#[test]
fn editing_name_trims_input() {
    let mut a = app();
    a.handle_key(ch('d'));
    a.handle_key(ch('e'));
    assert!(matches!(a.mode, Mode::Editing(EditField::Name)));
    assert_eq!(a.input, "Example GET");
    a.handle_key(key(KeyCode::Backspace));
    a.handle_key(key(KeyCode::Backspace));
    a.handle_key(key(KeyCode::Backspace));
    type_text(&mut a, "POST  ");
    a.handle_key(key(KeyCode::Enter));
    assert!(matches!(a.mode, Mode::Normal));
    assert_eq!(a.store.requests[0].name, "Example POST");
    assert_eq!(a.input, "");
}

#[test]
fn editing_with_no_request_fails() {
    let mut a = App::load(
        RequestStore { requests: Vec::new(), environments: Vec::new(), active_environment: None },
        String::from("s.json"),
        None,
    );
    a.mode = Mode::Editing(EditField::Url);
    match a.handle_key(key(KeyCode::Enter)) {
        Effect::Fail(msg) => assert_eq!(msg, "No request selected"),
        _ => panic!("expected a failure"),
    }
}

#[test]
fn method_picker_filters_and_sets_method() {
    let mut a = app();
    a.handle_key(ch('d'));
    a.handle_key(key(KeyCode::Down));
    a.handle_key(ch('e'));
    assert!(matches!(a.mode, Mode::MethodPicker { selected: 0, .. }));
    type_text(&mut a, "pa");
    a.handle_key(key(KeyCode::Enter));
    assert_eq!(a.store.requests[0].method, HttpMethod::Patch);
    assert!(matches!(a.mode, Mode::Normal));
}

#[test]
fn method_picker_wraps_up() {
    let mut a = app();
    a.mode = Mode::MethodPicker { filter: String::new(), selected: 0 };
    a.handle_key(key(KeyCode::Up));
    assert!(matches!(a.mode, Mode::MethodPicker { selected: 6, .. }));
    a.handle_key(key(KeyCode::Enter));
    assert_eq!(a.store.requests[0].method, HttpMethod::Options);
}

#[test]
fn header_added_with_autocompleted_value() {
    let mut a = app();
    a.field_index = 3;
    a.focused_area = UiArea::Details;
    a.handle_key(ch('e'));
    assert!(matches!(a.mode, Mode::HeaderList { selected: 0 }));
    a.handle_key(ch('n'));
    assert!(matches!(
        a.mode,
        Mode::HeaderEdit { index: 0, editing_value: false, autocomplete_idx: None }
    ));
    type_text(&mut a, "content-ty");
    assert_eq!(a.current_suggestions(false, 0), vec!["Content-Type"]);
    a.handle_key(key(KeyCode::Tab));
    assert!(matches!(a.mode, Mode::HeaderEdit { autocomplete_idx: Some(0), .. }));
    a.handle_key(key(KeyCode::Enter));
    assert_eq!(a.input, "Content-Type");
    a.handle_key(key(KeyCode::Enter));
    assert_eq!(a.store.requests[0].headers[0].name, "Content-Type");
    assert!(matches!(a.mode, Mode::HeaderEdit { editing_value: true, .. }));
    type_text(&mut a, "json");
    a.handle_key(key(KeyCode::Down));
    a.handle_key(key(KeyCode::Enter));
    assert_eq!(a.input, "application/json");
    a.handle_key(key(KeyCode::Enter));
    assert_eq!(a.store.requests[0].headers[0].value, "application/json");
    assert!(matches!(a.mode, Mode::HeaderList { selected: 0 }));
    a.handle_key(ch('x'));
    assert!(a.store.requests[0].headers.is_empty());
}

#[test]
fn body_editor_edits_and_saves() {
    let mut a = app();
    a.field_index = 4;
    a.focused_area = UiArea::Details;
    a.handle_key(ch('e'));
    assert_eq!(body_lines(&a), vec![String::new()]);
    type_text(&mut a, "ab");
    a.handle_key(key(KeyCode::Left));
    a.handle_key(key(KeyCode::Enter));
    assert_eq!(body_lines(&a), vec![String::from("a"), String::from("b")]);
    type_text(&mut a, "x");
    a.handle_key(key(KeyCode::Backspace));
    a.handle_key(key(KeyCode::Backspace));
    assert_eq!(body_lines(&a), vec![String::from("ab")]);
    a.handle_key(key(KeyCode::Enter));
    type_text(&mut a, "cd");
    a.handle_key(key(KeyCode::Esc));
    assert_eq!(a.store.requests[0].body, "a\ncdb");
    assert_eq!(a.status_line, "Body saved");
}

#[test]
fn body_editor_opened_and_closed_keeps_body() {
    let mut a = app();
    a.store.requests[0].body = String::from("{\n  \"k\": 1\n}");
    a.field_index = 4;
    a.focused_area = UiArea::Details;
    a.handle_key(ch('e'));
    assert_eq!(
        body_lines(&a),
        vec![String::from("{"), String::from("  \"k\": 1"), String::from("}")]
    );
    a.handle_key(key(KeyCode::Esc));
    assert!(matches!(a.mode, Mode::Normal));
    assert_eq!(a.store.requests[0].body, "{\n  \"k\": 1\n}");
}

#[test]
fn body_editor_drops_final_line_feed() {
    let mut a = app();
    a.store.requests[0].body = String::from("x\n");
    a.field_index = 4;
    a.focused_area = UiArea::Details;
    a.handle_key(ch('e'));
    a.handle_key(key(KeyCode::Esc));
    assert_eq!(a.store.requests[0].body, "x");
}

fn body_cursor(app: &App) -> (usize, usize) {
    match &app.mode {
        Mode::BodyEditor { cursor_row, cursor_col, .. } => (*cursor_row, *cursor_col),
        _ => panic!("not in the body editor"),
    }
}

#[test]
fn body_editor_column_counts_bytes() {
    let mut a = app();
    a.store.requests[0].body = String::from("a\u{e9}");
    a.field_index = 4;
    a.focused_area = UiArea::Details;
    a.handle_key(ch('e'));
    a.handle_key(key(KeyCode::Right));
    a.handle_key(key(KeyCode::Right));
    assert_eq!(body_cursor(&a), (0, 2));
    a.handle_key(key(KeyCode::Right));
    assert_eq!(body_cursor(&a), (0, 3));
    a.handle_key(key(KeyCode::Right));
    assert_eq!(body_cursor(&a), (0, 3));
    a.handle_key(ch('x'));
    assert_eq!(body_lines(&a), vec![String::from("a\u{e9}x")]);
    assert_eq!(body_cursor(&a), (0, 4));
    a.handle_key(key(KeyCode::Backspace));
    assert_eq!(body_lines(&a), vec![String::from("a\u{e9}")]);
    assert_eq!(body_cursor(&a), (0, 3));
    a.handle_key(key(KeyCode::Enter));
    a.handle_key(key(KeyCode::Backspace));
    assert_eq!(body_cursor(&a), (0, 3));
    a.handle_key(key(KeyCode::Left));
    a.handle_key(key(KeyCode::Left));
    a.handle_key(key(KeyCode::Enter));
    assert_eq!(body_lines(&a), vec![String::from("a"), String::from("\u{e9}")]);
    a.handle_key(key(KeyCode::Right));
    a.handle_key(key(KeyCode::Right));
    a.handle_key(key(KeyCode::Up));
    assert_eq!(body_cursor(&a), (0, 1));
}

#[test]
fn body_editor_pretty_prints_json() {
    let mut a = app();
    a.store.requests[0].body = String::from("{\"a\":1}");
    a.field_index = 4;
    a.focused_area = UiArea::Details;
    a.handle_key(ch('e'));
    assert_eq!(body_lines(&a), vec![String::from("{\"a\":1}")]);
    a.handle_key(ctrl('p'));
    assert_eq!(
        body_lines(&a),
        vec![String::from("{"), String::from("  \"a\": 1"), String::from("}")]
    );
    a.handle_key(ctrl('s'));
    assert_eq!(a.store.requests[0].body, "{\n  \"a\": 1\n}");
}

#[test]
fn body_editor_keeps_text_that_is_not_json() {
    let mut a = app();
    a.store.requests[0].body = String::from("not json\r\nline");
    a.field_index = 4;
    a.focused_area = UiArea::Details;
    a.handle_key(ch('e'));
    assert_eq!(body_lines(&a), vec![String::from("not json"), String::from("line")]);
    a.handle_key(ctrl('p'));
    assert_eq!(body_lines(&a), vec![String::from("not json"), String::from("line")]);
}

#[test]
fn run_with_empty_url_only_reports() {
    let mut a = app();
    a.store.requests[0].url = String::from("   ");
    assert!(matches!(a.handle_key(ch('r')), Effect::Continue));
    assert_eq!(a.status_line, "URL is empty");
}

#[test]
fn run_prepares_request() {
    let mut a = app();
    a.store.requests[0].headers.push(HeaderEntry {
        name: String::from(" Accept "),
        value: String::from(" text/plain "),
    });
    match a.handle_key(ch('r')) {
        Effect::Execute(p) => {
            assert_eq!(p.method, HttpMethod::Get);
            assert_eq!(p.url, "https://httpbin.org/get");
            assert_eq!(p.headers.len(), 1);
            assert_eq!(p.headers[0].name, "Accept");
            assert_eq!(p.headers[0].value, "text/plain");
            assert!(p.body.is_none());
        },
        _ => panic!("expected a request to send"),
    }
}

#[test]
fn run_with_bad_header_name_reports() {
    let mut a = app();
    a.store.requests[0].headers.push(HeaderEntry {
        name: String::from("bad name"),
        value: String::from("x"),
    });
    assert!(matches!(a.handle_key(ch('r')), Effect::Continue));
    assert_eq!(a.status_line, "Request failed: Invalid header name: bad name");
}

#[test]
fn finished_request_shows_response() {
    let mut a = app();
    a.finish_execute(Ok(ResponseSummary {
        status: String::from("200 200 OK"),
        headers: Vec::new(),
        body: String::from("hi"),
    }));
    assert_eq!(a.status_line, "Request completed");
    assert_eq!(a.response.as_ref().unwrap().body, "hi");
    a.finish_execute(Err(String::from("Request failed")));
    assert_eq!(a.status_line, "Request failed: Request failed");
}

#[test]
fn quit_asks_when_unsaved() {
    let mut a = app();
    assert!(matches!(a.handle_key(ch('q')), Effect::CheckUnsaved));
    assert_eq!(a.finish_quit_check(true), AppAction::Continue);
    assert!(matches!(a.mode, Mode::ConfirmQuit { selected: 1 }));
    assert!(matches!(a.handle_key(key(KeyCode::Down)), Effect::Continue));
    assert!(matches!(a.handle_key(key(KeyCode::Enter)), Effect::Quit));
}

#[test]
fn quit_without_changes_quits() {
    let mut a = app();
    assert_eq!(a.finish_quit_check(false), AppAction::Quit);
}

#[test]
fn save_reports_path() {
    let mut a = app();
    assert!(matches!(a.handle_key(ctrl('s')), Effect::Save));
    assert!(matches!(a.handle_key(ch('S')), Effect::Save));
    a.finish_save(None);
    assert_eq!(a.status_line, "Saved to store.json");
    a.finish_save(Some(Ok(SyncStatus::Synced)));
    assert_eq!(a.status_line, "Saved & synced to store.json");
    a.finish_save(Some(Ok(SyncStatus::Conflict)));
    assert!(matches!(a.mode, Mode::SyncConflict { selected: 2 }));
    a.finish_save(Some(Err(String::from("boom"))));
    assert_eq!(a.status_line, "Sync error");
    match &a.mode {
        Mode::SyncError { message } => assert_eq!(message, "Push failed: boom"),
        _ => panic!("expected the sync error popup"),
    }
}

#[test]
fn sync_without_config_reports() {
    let mut a = app();
    assert!(matches!(a.handle_key(ch('g')), Effect::Continue));
    assert_eq!(a.status_line, "No sync configured (Shift+G to set up)");
}

#[test]
fn sync_setup_and_conflict_flow() {
    let mut a = app();
    a.handle_key(ch('G'));
    assert!(matches!(a.mode, Mode::SyncSetup));
    type_text(&mut a, " git@example.com:r.git ");
    let cfg = match a.handle_key(key(KeyCode::Enter)) {
        Effect::SetUpSync(c) => c,
        _ => panic!("expected sync to be set up"),
    };
    assert_eq!(cfg.repo_url, "git@example.com:r.git");
    assert_eq!(cfg.branch, "main");
    assert_eq!(cfg.local_dir, ".curlish-repo");
    a.finish_sync_setup(cfg, SetupReport::Configured);
    assert_eq!(a.status_line, "Sync configured");
    assert!(a.sync_config.is_some());
    assert!(matches!(a.handle_key(ch('g')), Effect::Sync));
    assert_eq!(a.status_line, "Syncing...");
    a.finish_sync(SyncReport::Pushed(SyncStatus::Conflict));
    assert!(matches!(a.mode, Mode::SyncConflict { selected: 2 }));
    a.handle_key(key(KeyCode::Down));
    assert!(matches!(a.mode, Mode::SyncConflict { selected: 0 }));
    a.handle_key(key(KeyCode::Down));
    assert!(matches!(a.handle_key(key(KeyCode::Enter)), Effect::ForcePull));
    let mut store = RequestStore::default();
    store.requests[0].id = 41;
    a.finish_force_pull(PullReport::Loaded(store));
    assert_eq!(a.next_id, 42);
    assert_eq!(a.status_line, "Loaded remote version");
}

#[test]
fn sync_setup_with_empty_url_disables() {
    let mut a = app();
    a.sync_config = Some(SyncConfig {
        repo_url: String::from("u"),
        branch: String::from("main"),
        local_dir: String::from(".curlish-repo"),
    });
    a.handle_key(ch('G'));
    assert_eq!(a.input, "u");
    a.handle_key(key(KeyCode::Backspace));
    assert!(matches!(a.handle_key(key(KeyCode::Enter)), Effect::DisableSync));
    assert!(a.sync_config.is_none());
    assert_eq!(a.status_line, "Sync disabled");
}

#[test]
fn environments_are_added_edited_and_deleted() {
    let mut a = app();
    a.add_environment();
    assert_eq!(a.store.environments[0].name, "env-1");
    assert_eq!(a.store.active_environment, Some(0));
    assert_eq!(a.status_line, "Environment \"env-1\" created");
    assert_eq!(a.active_env_name(), "env-1");
    a.mode = Mode::EnvEditor { selected: 0 };
    a.handle_key(ch('n'));
    assert!(matches!(a.mode, Mode::EnvVarEdit { index: 0, editing_value: false }));
    type_text(&mut a, "host ");
    a.handle_key(key(KeyCode::Tab));
    type_text(&mut a, "example.com");
    a.handle_key(key(KeyCode::Enter));
    assert!(matches!(a.mode, Mode::EnvEditor { selected: 0 }));
    let vars = a.active_env_vars();
    assert_eq!(vars[0].key, "host");
    assert_eq!(vars[0].value, "example.com");
    a.handle_key(ch('r'));
    assert!(matches!(a.mode, Mode::EnvNameEdit));
    type_text(&mut a, "x");
    a.handle_key(key(KeyCode::Enter));
    assert_eq!(a.active_env_name(), "env-1x");
    a.delete_environment();
    assert!(a.store.environments.is_empty());
    assert_eq!(a.store.active_environment, None);
    assert_eq!(a.active_env_name(), "(none)");
}

#[test]
fn run_resolves_environment_variables() {
    let mut a = app();
    a.add_environment();
    a.store.environments[0].variables.push(curlish::model::EnvVariable {
        key: String::from("host"),
        value: String::from("example.com"),
    });
    a.store.requests[0].url = String::from("https://{{host}}/x");
    a.store.requests[0].method = HttpMethod::Post;
    a.store.requests[0].body = String::from("{{host}}");
    match a.handle_key(ch('r')) {
        Effect::Execute(p) => {
            assert_eq!(p.url, "https://example.com/x");
            assert_eq!(p.body, Some(String::from("example.com")));
        },
        _ => panic!("expected a request to send"),
    }
}

#[test]
fn cycling_environments_wraps() {
    let mut a = app();
    a.add_environment();
    a.add_environment();
    assert_eq!(a.store.active_environment, Some(1));
    a.cycle_environment(1);
    assert_eq!(a.store.active_environment, Some(0));
    a.cycle_environment(-1);
    assert_eq!(a.store.active_environment, Some(1));
}

#[test]
fn sync_error_popup_closes() {
    let mut a = app();
    a.finish_force_push(Err(String::from("denied")));
    assert!(matches!(&a.mode, Mode::SyncError { message } if message == "Force push failed: denied"));
    a.handle_key(key(KeyCode::Esc));
    assert!(matches!(a.mode, Mode::Normal));
    a.finish_force_push(Ok(()));
    assert_eq!(a.status_line, "Forced push — local version kept");
}
