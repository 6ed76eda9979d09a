use vstd::prelude::*;
use crate::app::{field_at, ring, ring_step, App, EditField, Mode};
use crate::http::{header_error, prepare_request, sends, PreparedRequest};
use crate::model::{area_down, area_left, area_right, area_up, method_index, EnvVariable, HttpMethod, Request, RequestStore, UiArea};
use crate::sync::{SyncConfig, SyncStatus};
use crate::text::{
    before_byte, char_count, decimal, from_byte, insert_at_byte, lines, lines_of, on_boundary,
    pop_char, popped, push_char, remove_at_byte, split_at_byte, trim, trim_str, views,
};
use vstd::utf8::encode_utf8;

verus! {

/// The keys that the program tells apart.
#[derive(Debug, Clone, Copy, PartialEq, Eq, Structural)]
pub enum KeyCode {
    Char(char),
    Up,
    Down,
    Left,
    Right,
    Enter,
    Esc,
    Backspace,
    Tab,
    /// Any other key, which no mode acts on.
    Other,
}

/// A key press, with whether Control was held.
#[derive(Debug, Clone, Copy, PartialEq, Eq, Structural)]
pub struct Key {
    pub code: KeyCode,
    pub ctrl: bool,
}

/// What a key asks of the world outside the state: nothing, to quit, to end
/// with an error, or some input or output whose outcome is then handed back
/// to the matching `finish_` method.
#[derive(Debug)]
pub enum Effect {
    /// Nothing more to do.
    Continue,
    /// Leave the program.
    Quit,
    /// Leave the program with this error.
    Fail(String),
    /// Find out whether the store differs from the file; then `finish_quit_check`.
    CheckUnsaved,
    /// Write the store, and push it where sync is set up; then `finish_save`
    /// (a failed write ends the program).
    Save,
    /// Send the request; then `finish_execute`.
    Execute(PreparedRequest),
    /// Write the store and push it; then `finish_sync`.
    Sync,
    /// Force-push the store; then `finish_force_push`.
    ForcePush,
    /// Force-pull the store and read it again; then `finish_force_pull`.
    ForcePull,
    /// Remove the file of sync settings.
    DisableSync,
    /// Save these sync settings, check for git and set up the repository;
    /// then `finish_sync_setup`.
    SetUpSync(SyncConfig),
}

/// `n + 1`, wrapping past the largest `u64`.
pub open spec fn wrapping_next(n: u64) -> u64 {
    if n < u64::MAX {
        (n + 1) as u64
    } else {
        0
    }
}

/// A response scroll moved by `delta` lines: never above the top, and
/// wrapping past the largest `u16` as a cast to `u16` does.
pub open spec fn scrolled(s: u16, delta: int) -> u16 {
    if s + delta < 0 {
        0
    } else {
        ((s + delta) % 65536) as u16
    }
}

/// `b` is `a` with only its status line changed, to `msg`.
pub open spec fn with_status(a: App, b: App, msg: Seq<char>) -> bool {
    b == App { status_line: b.status_line, ..a } && b.status_line@ == msg
}

/// The variables of the active environment, none where none is active.
pub open spec fn active_vars(a: App) -> Seq<EnvVariable> {
    match a.active_env() {
        Some(e) => e.variables@,
        None => Seq::empty(),
    }
}

/// A request made by `Request::new` with this id.
pub open spec fn is_new_request(r: Request, id: u64) -> bool {
    &&& r.id == id
    &&& r.name@ == "Request "@ + decimal(id as nat)
    &&& r.method == HttpMethod::Get
    &&& r.url@.len() == 0
    &&& r.headers@.len() == 0
    &&& r.body@.len() == 0
}

/// `d` is a copy of `r` with a new id and `-copy` after its name.
pub open spec fn is_copy(d: Request, r: Request, id: u64) -> bool {
    &&& d.id == id
    &&& d.name@ == r.name@ + "-copy"@
    &&& d.method == r.method
    &&& d.url == r.url
    &&& d.headers@ == r.headers@
    &&& d.body == r.body
}

/// `b` is `a` with only its requests changed.
pub open spec fn with_requests(a: RequestStore, b: RequestStore) -> bool {
    b == RequestStore { requests: b.requests, ..a }
}

/// The lines that the body editor starts with for a body.
pub open spec fn editor_lines(body: Seq<char>) -> Seq<Seq<char>> {
    if body.len() == 0 {
        seq![Seq::<char>::empty()]
    } else {
        lines(body)
    }
}

/// `b` is what the `e` key in the details pane makes of `a`: editing of the
/// field under the cursor begins, with what the field holds.
pub open spec fn start_edit_step(a: App, b: App) -> bool {
    match a.current() {
        None => b == a,
        Some(req) => match field_at(a.field_index as int) {
            EditField::Name => b == (App { input: req.name, mode: Mode::Editing(EditField::Name), ..a }),
            EditField::Url => b == (App { input: req.url, mode: Mode::Editing(EditField::Url), ..a }),
            EditField::Method => {
                &&& b == (App { mode: b.mode, ..a })
                &&& b.mode matches Mode::MethodPicker { filter, selected }
                &&& filter@.len() == 0
                &&& selected == method_index(req.method)
            },
            EditField::Headers => b == (App { mode: Mode::HeaderList { selected: 0 }, ..a }),
            EditField::Body => {
                &&& b == (App { mode: b.mode, ..a })
                &&& b.mode matches Mode::BodyEditor { lines, cursor_row, cursor_col }
                &&& views(lines@) == editor_lines(req.body@)
                &&& cursor_row == 0
                &&& cursor_col == 0
            },
        },
    }
}

/// `b` and `e` are what running the request under the cursor makes of `a`:
/// an error where there is none; a status line where its URL is blank or a
/// header is refused; else the request, prepared with the active
/// environment's variables, is to be sent.
pub open spec fn execute_step(a: App, b: App, e: Effect) -> bool {
    match a.current() {
        None => {
            &&& b == a
            &&& e matches Effect::Fail(m)
            &&& m@ == "No request selected"@
        },
        Some(req) => if trim(req.url@).len() == 0 {
            with_status(a, b, "URL is empty"@) && e is Continue
        } else {
            match header_error(req.headers@, active_vars(a)) {
                Some(msg) => with_status(a, b, "Request failed: "@ + msg) && e is Continue,
                None => {
                    &&& b == a
                    &&& e matches Effect::Execute(p)
                    &&& sends(p, req, active_vars(a))
                },
            }
        },
    }
}

/// `b` and `e` are what a key in normal mode makes of `a`.
pub open spec fn normal_step(a: App, key: Key, b: App, e: Effect) -> bool {
    if key.ctrl && key.code == KeyCode::Char('s') {
        b == a && e is Save
    } else {
        match key.code {
            KeyCode::Char('q') => b == a && e is CheckUnsaved,
            KeyCode::Char('w') => b == (App { focused_area: area_up(a.focused_area), ..a }) && e is Continue,
            KeyCode::Char('a') => b == (App { focused_area: area_left(a.focused_area), ..a }) && e is Continue,
            KeyCode::Char('s') => b == (App { focused_area: area_down(a.focused_area), ..a }) && e is Continue,
            KeyCode::Char('d') => b == (App { focused_area: area_right(a.focused_area), ..a }) && e is Continue,
            KeyCode::Up => move_step(a, b, -1) && e is Continue,
            KeyCode::Down => move_step(a, b, 1) && e is Continue,
            KeyCode::Char('n') => add_step(a, b) && e is Continue,
            KeyCode::Char('x') => (if a.store.requests@.len() > 0 {
                b == (App { mode: Mode::ConfirmDelete { selected: 1 }, ..a })
            } else {
                b == a
            }) && e is Continue,
            KeyCode::Char('e') => (if a.focused_area == UiArea::Details {
                start_edit_step(a, b)
            } else {
                b == a
            }) && e is Continue,
            KeyCode::Char('r') => execute_step(a, b, e),
            KeyCode::Char('S') => b == a && e is Save,
            KeyCode::Char('c') => duplicate_step(a, b) && e is Continue,
            KeyCode::Char('g') => match a.sync_config {
                None => with_status(a, b, "No sync configured (Shift+G to set up)"@) && e is Continue,
                Some(_) => with_status(a, b, "Syncing..."@) && e is Sync,
            },
            KeyCode::Char('G') => {
                &&& b == (App { input: b.input, mode: Mode::SyncSetup, ..a })
                &&& b.input@ == match a.sync_config {
                    Some(c) => c.repo_url@,
                    None => Seq::empty(),
                }
                &&& e is Continue
            },
            _ => b == a && e is Continue,
        }
    }
}

/// `b` is `a` after Up (`delta` -1) or Down (`delta` 1) in the focused pane.
pub open spec fn move_step(a: App, b: App, delta: int) -> bool {
    match a.focused_area {
        UiArea::RequestList => b == (App {
            selected: if a.store.requests@.len() == 0 {
                0
            } else {
                ring(a.selected as int, delta, a.store.requests@.len() as int) as usize
            },
            ..a
        }),
        UiArea::Details => b == (App { field_index: ring(a.field_index as int, delta, 5) as usize, ..a }),
        UiArea::Response => b == (App { response_scroll: scrolled(a.response_scroll, delta), ..a }),
    }
}

/// `b` is `a` with a new request added after the others.
pub open spec fn add_step(a: App, b: App) -> bool {
    &&& b == (App {
        store: RequestStore { requests: b.store.requests, ..a.store },
        selected: a.store.requests@.len() as usize,
        next_id: wrapping_next(a.next_id),
        status_line: b.status_line,
        ..a
    })
    &&& b.store.requests@ == a.store.requests@.push(b.store.requests@.last())
    &&& is_new_request(b.store.requests@.last(), a.next_id)
    &&& b.status_line@ == "New request added"@
}

/// `b` is `a` with the request under the cursor copied after it.
pub open spec fn duplicate_step(a: App, b: App) -> bool {
    match a.current() {
        None => b == a,
        Some(r) => {
            let at = a.selected + 1;
            &&& b == (App {
                store: RequestStore { requests: b.store.requests, ..a.store },
                selected: at as usize,
                next_id: wrapping_next(a.next_id),
                status_line: b.status_line,
                ..a
            })
            &&& b.store.requests@ == a.store.requests@.insert(at, b.store.requests@[at])
            &&& is_copy(b.store.requests@[at], r, a.next_id)
            &&& b.status_line@ == "Request duplicated"@
        },
    }
}

impl App {
    /// What every state of the program keeps: where there are requests the
    /// cursor is on one, the body editor's cursor is within its line (the
    /// column counts the line's UTF-8 bytes, and may fall inside a
    /// character), and a yes/no popup has one of its two choices selected.
    pub open spec fn wf(&self) -> bool {
        &&& (self.store.requests@.len() > 0 ==> self.selected < self.store.requests@.len())
        &&& match self.mode {
            Mode::BodyEditor { lines, cursor_row, cursor_col } => {
                &&& cursor_row < lines@.len()
                &&& cursor_col <= encode_utf8(lines@[cursor_row as int]@).len()
            },
            Mode::ConfirmDelete { selected } => selected <= 1,
            Mode::ConfirmQuit { selected } => selected <= 1,
            _ => true,
        }
    }

    /// Moves the cursor in the requests pane by `delta`, round the list.
    fn move_selection(&mut self, delta: isize)
        requires
            delta == 1 || delta == -1,
        ensures
            *final(self) == (App {
                selected: if old(self).store.requests@.len() == 0 {
                    0
                } else {
                    ring(
                        old(self).selected as int,
                        delta as int,
                        old(self).store.requests@.len() as int,
                    ) as usize
                },
                ..*old(self)
            }),
    {
        let len = self.store.requests.len();
        if len == 0 {
            self.selected = 0;
            return;
        }
        self.selected = ring_step(self.selected, len, delta == 1);
    }

    /// Moves the cursor in the details pane by `delta`, round the fields.
    fn move_field(&mut self, delta: isize)
        requires
            delta == 1 || delta == -1,
        ensures
            *final(self) == (App {
                field_index: ring(old(self).field_index as int, delta as int, 5) as usize,
                ..*old(self)
            }),
    {
        self.field_index = ring_step(self.field_index, 5, delta == 1);
    }

    /// Scrolls the response by `delta` lines.
    fn scroll_response(&mut self, delta: isize)
        requires
            delta == 1 || delta == -1,
        ensures
            *final(self) == (App {
                response_scroll: scrolled(old(self).response_scroll, delta as int),
                ..*old(self)
            }),
    {
        if delta == 1 {
            if self.response_scroll == 65535 {
                self.response_scroll = 0;
            } else {
                self.response_scroll = self.response_scroll + 1;
            }
        } else if self.response_scroll > 0 {
            self.response_scroll = self.response_scroll - 1;
        }
    }

    /// Adds a new empty request after the others and puts the cursor on it.
    pub fn add_request(&mut self)
        ensures
            add_step(*old(self), *final(self)),
    {
        self.store.requests.push(Request::new(self.next_id));
        self.next_id = self.next_id.wrapping_add(1);
        self.selected = self.store.requests.len() - 1;
        self.status_line = String::from_str("New request added");
    }

    /// Removes the request under the cursor, keeping the cursor on the list.
    pub fn delete_request(&mut self)
        requires
            old(self).wf(),
        ensures
            old(self).store.requests@.len() == 0 ==> *final(self) == *old(self),
            old(self).store.requests@.len() > 0 ==> {
                let n = old(self).store.requests@.len() - 1;
                &&& *final(self) == (App {
                    store: RequestStore { requests: final(self).store.requests, ..old(self).store },
                    selected: if old(self).selected >= n && n > 0 {
                        (n - 1) as usize
                    } else {
                        old(self).selected
                    },
                    status_line: final(self).status_line,
                    ..*old(self)
                })
                &&& final(self).store.requests@ == old(self).store.requests@.remove(
                    old(self).selected as int,
                )
                &&& final(self).status_line@ == "Request deleted"@
            },
    {
        if self.store.requests.len() == 0 {
            return;
        }
        self.store.requests.remove(self.selected);
        if self.selected >= self.store.requests.len() && self.store.requests.len() > 0 {
            self.selected = self.store.requests.len() - 1;
        }
        self.status_line = String::from_str("Request deleted");
    }

    /// Puts a copy of the request under the cursor after it, with a new id
    /// and `-copy` after its name, and moves the cursor onto the copy.
    pub fn duplicate_request(&mut self)
        requires
            old(self).wf(),
        ensures
            duplicate_step(*old(self), *final(self)),
    {
        if self.selected >= self.store.requests.len() {
            return;
        }
        let mut dup = self.store.requests[self.selected].clone();
        dup.id = self.next_id;
        self.next_id = self.next_id.wrapping_add(1);
        dup.name.append("-copy");
        self.store.requests.insert(self.selected + 1, dup);
        self.selected = self.selected + 1;
        self.status_line = String::from_str("Request duplicated");
    }

    /// Sets the status line, and shows `message` in the sync error popup.
    pub fn show_sync_error(&mut self, message: &str)
        ensures
            *final(self) == (App {
                status_line: final(self).status_line,
                mode: final(self).mode,
                ..*old(self)
            }),
            final(self).status_line@ == "Sync error"@,
            final(self).mode matches Mode::SyncError { message: m } && m@ == message@,
    {
        self.status_line = String::from_str("Sync error");
        self.mode = Mode::SyncError { message: String::from_str(message) };
    }
}


impl App {
    /// Begins editing the field under the cursor in the details pane.
    pub fn start_edit(&mut self)
        requires
            old(self).wf(),
        ensures
            start_edit_step(*old(self), *final(self)),
            final(self).wf(),
    {
        if self.selected >= self.store.requests.len() {
            return;
        }
        let field = self.current_field();
        let sel = self.selected;
        match field {
            EditField::Name => {
                self.input = self.store.requests[sel].name.clone();
                self.mode = Mode::Editing(EditField::Name);
            },
            EditField::Url => {
                self.input = self.store.requests[sel].url.clone();
                self.mode = Mode::Editing(EditField::Url);
            },
            EditField::Method => {
                let idx = self.store.requests[sel].method.index();
                self.mode = Mode::MethodPicker { filter: String::new(), selected: idx };
            },
            EditField::Headers => {
                self.mode = Mode::HeaderList { selected: 0 };
            },
            EditField::Body => {
                let body = self.store.requests[sel].body.as_str();
                let lines = if body.unicode_len() == 0 {
                    let mut v: Vec<String> = Vec::new();
                    v.push(String::new());
                    assert(views(v@) =~= seq![Seq::<char>::empty()]);
                    v
                } else {
                    proof {
                        crate::text::lemma_lines_nonempty(body@);
                    }
                    lines_of(body)
                };
                assert(lines@.len() > 0) by {
                    assert(views(lines@).len() == lines@.len());
                }
                assert(lines@[0]@.len() >= 0);
                self.mode = Mode::BodyEditor { lines, cursor_row: 0, cursor_col: 0 };
            },
        }
    }

    /// Runs the request under the cursor: checks it and, where it is fit to
    /// send, asks for it to be sent.
    pub fn execute_request(&mut self) -> (e: Effect)
        ensures
            execute_step(*old(self), *final(self), e),
    {
        if self.selected >= self.store.requests.len() {
            return Effect::Fail(String::from_str("No request selected"));
        }
        let sel = self.selected;
        let url = trim_str(self.store.requests[sel].url.as_str());
        if char_count(&url) == 0 {
            self.status_line = String::from_str("URL is empty");
            return Effect::Continue;
        }
        let env_vars = self.active_env_vars();
        proof {
            assert(env_vars@ == active_vars(*self)) by {
                if self.active_env() is None {
                    assert(env_vars@ =~= Seq::<EnvVariable>::empty());
                }
            }
        }
        match prepare_request(&self.store.requests[sel], env_vars.as_slice()) {
            Ok(p) => Effect::Execute(p),
            Err(msg) => {
                let mut status = String::from_str("Request failed: ");
                status.append(msg.as_str());
                self.status_line = status;
                Effect::Continue
            },
        }
    }

    /// Handles a key in normal mode.
    pub fn handle_normal(&mut self, key: Key) -> (e: Effect)
        requires
            old(self).wf(),
            old(self).mode is Normal,
        ensures
            normal_step(*old(self), key, *final(self), e),
            final(self).wf(),
    {
        if key.ctrl && key.code == KeyCode::Char('s') {
            return Effect::Save;
        }
        match key.code {
            KeyCode::Char('q') => Effect::CheckUnsaved,
            KeyCode::Char('w') => {
                self.focused_area = self.focused_area.up();
                Effect::Continue
            },
            KeyCode::Char('a') => {
                self.focused_area = self.focused_area.left();
                Effect::Continue
            },
            KeyCode::Char('s') => {
                self.focused_area = self.focused_area.down();
                Effect::Continue
            },
            KeyCode::Char('d') => {
                self.focused_area = self.focused_area.right();
                Effect::Continue
            },
            KeyCode::Up => {
                match self.focused_area {
                    UiArea::RequestList => self.move_selection(-1),
                    UiArea::Details => self.move_field(-1),
                    UiArea::Response => self.scroll_response(-1),
                }
                Effect::Continue
            },
            KeyCode::Down => {
                match self.focused_area {
                    UiArea::RequestList => self.move_selection(1),
                    UiArea::Details => self.move_field(1),
                    UiArea::Response => self.scroll_response(1),
                }
                Effect::Continue
            },
            KeyCode::Char('n') => {
                self.add_request();
                Effect::Continue
            },
            KeyCode::Char('x') => {
                if self.store.requests.len() > 0 {
                    self.mode = Mode::ConfirmDelete { selected: 1 };
                }
                Effect::Continue
            },
            KeyCode::Char('e') => {
                if self.focused_area == UiArea::Details {
                    self.start_edit();
                }
                Effect::Continue
            },
            KeyCode::Char('r') => self.execute_request(),
            KeyCode::Char('S') => Effect::Save,
            KeyCode::Char('c') => {
                self.duplicate_request();
                Effect::Continue
            },
            KeyCode::Char('g') => {
                if self.sync_config.is_none() {
                    self.status_line = String::from_str("No sync configured (Shift+G to set up)");
                    Effect::Continue
                } else {
                    self.status_line = String::from_str("Syncing...");
                    Effect::Sync
                }
            },
            KeyCode::Char('G') => {
                self.input = match &self.sync_config {
                    Some(c) => c.repo_url.clone(),
                    None => String::new(),
                };
                self.mode = Mode::SyncSetup;
                Effect::Continue
            },
            _ => Effect::Continue,
        }
    }
}

} // verus!

verus! {

/// `b` is `a` with its input line changed to `text`, the rest as it was but
/// for the mode, which becomes `mode`.
pub open spec fn with_input_mode(a: App, b: App, text: Seq<char>, mode: Mode) -> bool {
    b == (App { input: b.input, mode: mode, ..a }) && b.input@ == text
}

/// `b` is `a` with the request under the cursor replaced by `r`.
pub open spec fn with_current(a: App, b: App, r: Request) -> bool {
    &&& b.store == RequestStore { requests: b.store.requests, ..a.store }
    &&& b.store.requests@ == a.store.requests@.update(a.selected as int, r)
}

/// `b` and `e` are what a key makes of `a` while the name or URL is edited.
pub open spec fn inline_step(a: App, field: EditField, key: Key, b: App, e: Effect) -> bool {
    match key.code {
        KeyCode::Esc => with_input_mode(a, b, Seq::empty(), Mode::Normal) && e is Continue,
        KeyCode::Enter => match a.current() {
            None => {
                &&& b == a
                &&& e matches Effect::Fail(m)
                &&& m@ == "No request selected"@
            },
            Some(req) => {
                &&& e is Continue
                &&& b.input@.len() == 0
                &&& match field {
                    EditField::Name => {
                        &&& b == (App { store: b.store, input: b.input, mode: Mode::Normal, ..a })
                        &&& with_current(a, b, Request { name: b.store.requests@[a.selected as int].name, ..req })
                        &&& b.store.requests@[a.selected as int].name@ == trim(a.input@)
                    },
                    EditField::Url => {
                        &&& b == (App { store: b.store, input: b.input, mode: Mode::Normal, ..a })
                        &&& with_current(a, b, Request { url: b.store.requests@[a.selected as int].url, ..req })
                        &&& b.store.requests@[a.selected as int].url@ == trim(a.input@)
                    },
                    _ => b == (App { input: b.input, mode: Mode::Normal, ..a }),
                }
            },
        },
        KeyCode::Backspace => b == (App { input: b.input, ..a }) && b.input@ == popped(a.input@)
            && e is Continue,
        KeyCode::Char(c) => b == (App { input: b.input, ..a }) && b.input@ == a.input@.push(c)
            && e is Continue,
        _ => b == a && e is Continue,
    }
}

impl App {
    /// Sets the name or the URL of the request under the cursor to the
    /// trimmed input line.
    pub fn apply_inline_input(&mut self, field: EditField) -> (ok: bool)
        requires
            old(self).wf(),
        ensures
            ok == (old(self).current() is Some),
            !ok ==> *final(self) == *old(self),
            ok ==> match field {
                EditField::Name => {
                    &&& *final(self) == (App { store: final(self).store, ..*old(self) })
                    &&& with_current(*old(self), *final(self), Request {
                        name: final(self).store.requests@[old(self).selected as int].name,
                        ..old(self).current().unwrap()
                    })
                    &&& final(self).store.requests@[old(self).selected as int].name@ == trim(old(self).input@)
                },
                EditField::Url => {
                    &&& *final(self) == (App { store: final(self).store, ..*old(self) })
                    &&& with_current(*old(self), *final(self), Request {
                        url: final(self).store.requests@[old(self).selected as int].url,
                        ..old(self).current().unwrap()
                    })
                    &&& final(self).store.requests@[old(self).selected as int].url@ == trim(old(self).input@)
                },
                _ => *final(self) == *old(self),
            },
            final(self).wf(),
    {
        if self.selected >= self.store.requests.len() {
            return false;
        }
        let sel = self.selected;
        let value = trim_str(self.input.as_str());
        match field {
            EditField::Name => {
                self.store.requests[sel].name = value;
            },
            EditField::Url => {
                self.store.requests[sel].url = value;
            },
            _ => {},
        }
        true
    }

    /// Handles a key while the name or the URL is edited.
    pub fn handle_inline_edit(&mut self, field: EditField, key: Key) -> (e: Effect)
        requires
            old(self).wf(),
            old(self).mode is Editing,
        ensures
            inline_step(*old(self), field, key, *final(self), e),
            final(self).wf(),
    {
        match key.code {
            KeyCode::Esc => {
                self.input = String::new();
                self.mode = Mode::Normal;
                Effect::Continue
            },
            KeyCode::Enter => {
                if !self.apply_inline_input(field) {
                    return Effect::Fail(String::from_str("No request selected"));
                }
                self.input = String::new();
                self.mode = Mode::Normal;
                Effect::Continue
            },
            KeyCode::Backspace => {
                pop_char(&mut self.input);
                Effect::Continue
            },
            KeyCode::Char(ch) => {
                push_char(&mut self.input, ch);
                Effect::Continue
            },
            _ => Effect::Continue,
        }
    }
}

} // verus!

verus! {

/// One place back in a list of `count`, from the first to the last.
pub open spec fn back_one(sel: usize, count: nat) -> usize {
    if sel == 0 {
        (count - 1) as usize
    } else {
        (sel - 1) as usize
    }
}

/// `b` and `e` are what a key makes of `a` in the method picker.
pub open spec fn method_picker_step(a: App, key: Key, b: App, e: Effect) -> bool {
    &&& e is Continue
    &&& a.mode matches Mode::MethodPicker { filter, selected }
    &&& {
        let ms = crate::app::methods_for(filter@);
        match key.code {
            KeyCode::Esc => b == (App { mode: Mode::Normal, ..a }),
            KeyCode::Enter => if selected < ms.len() && a.current() is Some {
                &&& b == (App { store: b.store, mode: Mode::Normal, ..a })
                &&& with_current(a, b, Request { method: ms[selected as int], ..a.current().unwrap() })
            } else {
                b == (App { mode: Mode::Normal, ..a })
            },
            KeyCode::Up => if ms.len() > 0 {
                b == (App {
                    mode: Mode::MethodPicker { filter: filter, selected: back_one(selected, ms.len()) },
                    ..a
                })
            } else {
                b == a
            },
            KeyCode::Down => if ms.len() > 0 {
                b == (App {
                    mode: Mode::MethodPicker {
                        filter: filter,
                        selected: ring(selected as int, 1, ms.len() as int) as usize,
                    },
                    ..a
                })
            } else {
                b == a
            },
            KeyCode::Backspace => {
                &&& b == (App { mode: b.mode, ..a })
                &&& b.mode matches Mode::MethodPicker { filter: f, selected: s }
                &&& f@ == popped(filter@)
                &&& s == 0
            },
            KeyCode::Char(c) => {
                &&& b == (App { mode: b.mode, ..a })
                &&& b.mode matches Mode::MethodPicker { filter: f, selected: s }
                &&& f@ == filter@.push(c)
                &&& s == 0
            },
            _ => b == a,
        }
    }
}

impl App {
    /// Handles a key in the method picker.
    pub fn handle_method_picker(&mut self, key: Key) -> (e: Effect)
        requires
            old(self).wf(),
            old(self).mode is MethodPicker,
        ensures
            method_picker_step(*old(self), key, *final(self), e),
            final(self).wf(),
    {
        let (mut filter, selected) = match &self.mode {
            Mode::MethodPicker { filter, selected } => (filter.clone(), *selected),
            _ => {
                return Effect::Continue;
            },
        };
        match key.code {
            KeyCode::Esc => {
                self.mode = Mode::Normal;
            },
            KeyCode::Enter => {
                let filtered = App::filtered_methods(filter.as_str());
                if selected < filtered.len() && self.selected < self.store.requests.len() {
                    let sel = self.selected;
                    self.store.requests[sel].method = filtered[selected];
                }
                self.mode = Mode::Normal;
            },
            KeyCode::Up => {
                let count = App::filtered_methods(filter.as_str()).len();
                if count > 0 {
                    let s = if selected == 0 {
                        count - 1
                    } else {
                        selected - 1
                    };
                    self.mode = Mode::MethodPicker { filter, selected: s };
                }
            },
            KeyCode::Down => {
                let count = App::filtered_methods(filter.as_str()).len();
                if count > 0 {
                    let s = ring_step(selected, count, true);
                    self.mode = Mode::MethodPicker { filter, selected: s };
                }
            },
            KeyCode::Backspace => {
                pop_char(&mut filter);
                self.mode = Mode::MethodPicker { filter, selected: 0 };
            },
            KeyCode::Char(ch) => {
                push_char(&mut filter, ch);
                self.mode = Mode::MethodPicker { filter, selected: 0 };
            },
            _ => {},
        }
        Effect::Continue
    }
}

} // verus!

verus! {

/// The number of headers of the request under the cursor, 0 where there is
/// no request.
pub open spec fn header_count(a: App) -> nat {
    match a.current() {
        Some(r) => r.headers@.len(),
        None => 0,
    }
}

/// The selection kept inside a list that now holds `count` items.
pub open spec fn clamped(sel: usize, count: nat) -> usize {
    if sel >= count && count > 0 {
        (count - 1) as usize
    } else {
        sel
    }
}

/// `b` and `e` are what a key makes of `a` in the header list.
pub open spec fn header_list_step(a: App, key: Key, b: App, e: Effect) -> bool {
    &&& e is Continue
    &&& a.mode matches Mode::HeaderList { selected }
    &&& {
        let count = header_count(a);
        match key.code {
            KeyCode::Esc => b == (App { mode: Mode::Normal, ..a }),
            KeyCode::Up => if count > 0 {
                b == (App { mode: Mode::HeaderList { selected: back_one(selected, count) }, ..a })
            } else {
                b == a
            },
            KeyCode::Down => if count > 0 {
                b == (App {
                    mode: Mode::HeaderList { selected: ring(selected as int, 1, count as int) as usize },
                    ..a
                })
            } else {
                b == a
            },
            KeyCode::Char('n') => match a.current() {
                None => b == a,
                Some(req) => {
                    let new_header = b.store.requests@[a.selected as int].headers@.last();
                    &&& b == (App {
                        store: b.store,
                        input: b.input,
                        mode: Mode::HeaderEdit {
                            index: count as usize,
                            editing_value: false,
                            autocomplete_idx: None,
                        },
                        ..a
                    })
                    &&& with_current(a, b, Request { headers: b.store.requests@[a.selected as int].headers, ..req })
                    &&& b.store.requests@[a.selected as int].headers@ == req.headers@.push(new_header)
                    &&& new_header.name@.len() == 0
                    &&& new_header.value@.len() == 0
                    &&& b.input@.len() == 0
                },
            },
            KeyCode::Char('x') => match a.current() {
                Some(req) => if selected < req.headers@.len() {
                    &&& b == (App {
                        store: b.store,
                        mode: Mode::HeaderList { selected: clamped(selected, (count - 1) as nat) },
                        ..a
                    })
                    &&& with_current(a, b, Request { headers: b.store.requests@[a.selected as int].headers, ..req })
                    &&& b.store.requests@[a.selected as int].headers@ == req.headers@.remove(selected as int)
                } else {
                    b == (App { mode: Mode::HeaderList { selected: clamped(selected, count) }, ..a })
                },
                None => b == a,
            },
            KeyCode::Char('e') | KeyCode::Enter => if selected < count {
                with_input_mode(
                    a,
                    b,
                    a.current().unwrap().headers@[selected as int].name@,
                    Mode::HeaderEdit { index: selected, editing_value: false, autocomplete_idx: None },
                )
            } else {
                b == a
            },
            _ => b == a,
        }
    }
}

impl App {
    /// Handles a key in the header list.
    pub fn handle_header_list(&mut self, key: Key) -> (e: Effect)
        requires
            old(self).wf(),
            old(self).mode is HeaderList,
        ensures
            header_list_step(*old(self), key, *final(self), e),
            final(self).wf(),
    {
        let selected = match &self.mode {
            Mode::HeaderList { selected } => *selected,
            _ => {
                return Effect::Continue;
            },
        };
        let has_req = self.selected < self.store.requests.len();
        let sel = self.selected;
        let count = if has_req {
            self.store.requests[sel].headers.len()
        } else {
            0
        };
        match key.code {
            KeyCode::Esc => {
                self.mode = Mode::Normal;
            },
            KeyCode::Up => {
                if count > 0 {
                    let s = if selected == 0 {
                        count - 1
                    } else {
                        selected - 1
                    };
                    self.mode = Mode::HeaderList { selected: s };
                }
            },
            KeyCode::Down => {
                if count > 0 {
                    self.mode = Mode::HeaderList { selected: ring_step(selected, count, true) };
                }
            },
            KeyCode::Char('n') => {
                if has_req {
                    self.store.requests[sel].headers.push(
                        crate::model::HeaderEntry { name: String::new(), value: String::new() },
                    );
                    self.input = String::new();
                    self.mode = Mode::HeaderEdit {
                        index: count,
                        editing_value: false,
                        autocomplete_idx: None,
                    };
                }
            },
            KeyCode::Char('x') => {
                if has_req {
                    if selected < count {
                        self.store.requests[sel].headers.remove(selected);
                    }
                    let new_count = self.store.requests[sel].headers.len();
                    if selected >= new_count && new_count > 0 {
                        self.mode = Mode::HeaderList { selected: new_count - 1 };
                    }
                }
            },
            KeyCode::Char('e') | KeyCode::Enter => {
                if selected < count {
                    self.input = self.store.requests[sel].headers[selected].name.clone();
                    self.mode = Mode::HeaderEdit {
                        index: selected,
                        editing_value: false,
                        autocomplete_idx: None,
                    };
                }
            },
            _ => {},
        }
        Effect::Continue
    }
}

} // verus!

verus! {

/// `b` is `a` after the highlighted suggestion `ai` is taken into the input
/// line while header `index` is edited.
pub open spec fn accept_step(a: App, ai: usize, index: usize, editing_value: bool, b: App) -> bool {
    let sugg = a.suggestions(editing_value, index as int);
    let mode = Mode::HeaderEdit { index, editing_value, autocomplete_idx: None };
    if ai < sugg.len() {
        with_input_mode(a, b, sugg[ai as int], mode)
    } else {
        b == (App { mode: mode, ..a })
    }
}

/// `b` is `a` after the input line is stored into header `index`: into its
/// name, after which its value is edited, or into its value, after which the
/// header list comes back.
pub open spec fn save_field_step(a: App, index: usize, editing_value: bool, b: App) -> bool {
    match a.current() {
        Some(req) => if index < req.headers@.len() {
            let h = req.headers@[index as int];
            let nh = b.store.requests@[a.selected as int].headers@[index as int];
            &&& with_current(a, b, Request { headers: b.store.requests@[a.selected as int].headers, ..req })
            &&& if !editing_value {
                &&& b.store.requests@[a.selected as int].headers@ == req.headers@.update(
                    index as int,
                    crate::model::HeaderEntry { name: nh.name, ..h },
                )
                &&& nh.name@ == trim(a.input@)
                &&& b == (App {
                    store: b.store,
                    input: h.value,
                    mode: Mode::HeaderEdit { index, editing_value: true, autocomplete_idx: None },
                    ..a
                })
            } else {
                &&& b.store.requests@[a.selected as int].headers@ == req.headers@.update(
                    index as int,
                    crate::model::HeaderEntry { value: nh.value, ..h },
                )
                &&& nh.value@ == trim(a.input@)
                &&& b == (App {
                    store: b.store,
                    input: b.input,
                    mode: Mode::HeaderList { selected: index },
                    ..a
                })
                &&& b.input@.len() == 0
            }
        } else {
            b == a
        },
        None => b == a,
    }
}

/// `b` and `e` are what a key makes of `a` while a header is edited.
pub open spec fn header_edit_step(a: App, key: Key, b: App, e: Effect) -> bool {
    &&& e is Continue
    &&& a.mode matches Mode::HeaderEdit { index, editing_value, autocomplete_idx }
    &&& {
        let count = a.suggestions(editing_value, index as int).len();
        let edit = |ac: Option<usize>| Mode::HeaderEdit { index, editing_value, autocomplete_idx: ac };
        match key.code {
            KeyCode::Esc => with_input_mode(a, b, Seq::empty(), Mode::HeaderList { selected: index }),
            KeyCode::Enter => match autocomplete_idx {
                Some(ai) => accept_step(a, ai, index, editing_value, b),
                None => save_field_step(a, index, editing_value, b),
            },
            KeyCode::Tab => match autocomplete_idx {
                Some(ai) => accept_step(a, ai, index, editing_value, b),
                None => if count > 0 {
                    b == (App { mode: edit(Some(0usize)), ..a })
                } else {
                    save_field_step(a, index, editing_value, b)
                },
            },
            KeyCode::Up => if count > 0 {
                b == (App {
                    mode: edit(
                        Some(
                            match autocomplete_idx {
                                Some(i) => if i == 0 {
                                    (count - 1) as usize
                                } else {
                                    (i - 1) as usize
                                },
                                None => (count - 1) as usize,
                            },
                        ),
                    ),
                    ..a
                })
            } else {
                b == a
            },
            KeyCode::Down => if count > 0 {
                b == (App {
                    mode: edit(
                        Some(
                            match autocomplete_idx {
                                Some(i) => ring(i as int, 1, count as int) as usize,
                                None => 0usize,
                            },
                        ),
                    ),
                    ..a
                })
            } else {
                b == a
            },
            KeyCode::Backspace => with_input_mode(a, b, popped(a.input@), edit(None)),
            KeyCode::Char(c) => with_input_mode(a, b, a.input@.push(c), edit(None)),
            _ => b == a,
        }
    }
}

impl App {
    /// Takes suggestion `suggestion_idx` into the input line.
    pub fn accept_header_suggestion(
        &mut self,
        suggestion_idx: usize,
        header_idx: usize,
        editing_value: bool,
    )
        requires
            old(self).wf(),
            !(old(self).mode is BodyEditor) && !(old(self).mode is ConfirmDelete) && !(old(
                self,
            ).mode is ConfirmQuit),
        ensures
            accept_step(*old(self), suggestion_idx, header_idx, editing_value, *final(self)),
            final(self).wf(),
    {
        let suggestions = self.current_suggestions(editing_value, header_idx);
        if suggestion_idx < suggestions.len() {
            self.input = String::from_str(suggestions[suggestion_idx]);
        }
        self.mode = Mode::HeaderEdit {
            index: header_idx,
            editing_value,
            autocomplete_idx: None,
        };
    }

    /// Stores the trimmed input line into the name or the value of header
    /// `index`.
    pub fn save_header_field(&mut self, index: usize, editing_value: bool)
        requires
            old(self).wf(),
            !(old(self).mode is BodyEditor) && !(old(self).mode is ConfirmDelete) && !(old(
                self,
            ).mode is ConfirmQuit),
        ensures
            save_field_step(*old(self), index, editing_value, *final(self)),
            final(self).wf(),
    {
        let input_val = trim_str(self.input.as_str());
        if self.selected < self.store.requests.len() {
            let sel = self.selected;
            if index < self.store.requests[sel].headers.len() {
                if !editing_value {
                    self.store.requests[sel].headers[index].name = input_val;
                    self.input = self.store.requests[sel].headers[index].value.clone();
                    self.mode = Mode::HeaderEdit { index, editing_value: true, autocomplete_idx: None };
                } else {
                    self.store.requests[sel].headers[index].value = input_val;
                    self.input = String::new();
                    self.mode = Mode::HeaderList { selected: index };
                }
            }
        }
    }

    /// Handles a key while a header is edited.
    pub fn handle_header_edit(&mut self, key: Key) -> (e: Effect)
        requires
            old(self).wf(),
            old(self).mode is HeaderEdit,
        ensures
            header_edit_step(*old(self), key, *final(self), e),
            final(self).wf(),
    {
        let (index, editing_value, autocomplete_idx) = match &self.mode {
            Mode::HeaderEdit { index, editing_value, autocomplete_idx } => (
                *index,
                *editing_value,
                *autocomplete_idx,
            ),
            _ => {
                return Effect::Continue;
            },
        };
        match key.code {
            KeyCode::Esc => {
                self.input = String::new();
                self.mode = Mode::HeaderList { selected: index };
            },
            KeyCode::Enter => {
                match autocomplete_idx {
                    Some(ai) => self.accept_header_suggestion(ai, index, editing_value),
                    None => self.save_header_field(index, editing_value),
                }
            },
            KeyCode::Tab => {
                let count = self.current_suggestions(editing_value, index).len();
                match autocomplete_idx {
                    Some(ai) => self.accept_header_suggestion(ai, index, editing_value),
                    None => {
                        if count > 0 {
                            self.mode = Mode::HeaderEdit {
                                index,
                                editing_value,
                                autocomplete_idx: Some(0),
                            };
                        } else {
                            self.save_header_field(index, editing_value);
                        }
                    },
                }
            },
            KeyCode::Up => {
                let count = self.current_suggestions(editing_value, index).len();
                if count > 0 {
                    let new_idx = match autocomplete_idx {
                        Some(i) => if i == 0 {
                            count - 1
                        } else {
                            i - 1
                        },
                        None => count - 1,
                    };
                    self.mode = Mode::HeaderEdit {
                        index,
                        editing_value,
                        autocomplete_idx: Some(new_idx),
                    };
                }
            },
            KeyCode::Down => {
                let count = self.current_suggestions(editing_value, index).len();
                if count > 0 {
                    let new_idx = match autocomplete_idx {
                        Some(i) => ring_step(i, count, true),
                        None => 0,
                    };
                    self.mode = Mode::HeaderEdit {
                        index,
                        editing_value,
                        autocomplete_idx: Some(new_idx),
                    };
                }
            },
            KeyCode::Backspace => {
                pop_char(&mut self.input);
                self.mode = Mode::HeaderEdit { index, editing_value, autocomplete_idx: None };
            },
            KeyCode::Char(ch) => {
                push_char(&mut self.input, ch);
                self.mode = Mode::HeaderEdit { index, editing_value, autocomplete_idx: None };
            },
            _ => {},
        }
        Effect::Continue
    }
}

} // verus!

verus! {

/// The text that pretty-printing the JSON in `raw` gives with
/// `serde_json::to_string_pretty`, none where `raw` is not JSON.
pub uninterp spec fn pretty_json(raw: Seq<char>) -> Option<Seq<char>>;

/// Parses `raw` as a `serde_json::Value` and prints it back with
/// `serde_json::to_string_pretty`; none where either step fails. Printing a
/// value always writes something, so the text it gives is never empty.
#[verifier::external_body]
fn prettify_json(raw: &str) -> (r: Option<String>)
    ensures
        match pretty_json(raw@) {
            Some(p) => r matches Some(s) && s@ == p,
            None => r is None,
        },
        r matches Some(s) ==> s@.len() > 0,
{
    match serde_json::from_str::<serde_json::Value>(raw) {
        Ok(v) => serde_json::to_string_pretty(&v).ok(),
        Err(_) => None,
    }
}

/// The smaller of two numbers.
pub open spec fn min_of(x: usize, y: nat) -> usize {
    if (x as nat) < y {
        x
    } else {
        y as usize
    }
}

/// `b` is `a` with the text of the body editor, `lines` joined by line
/// feeds, stored as the body of the request under the cursor, and normal
/// mode back.
pub open spec fn body_saved(a: App, lines: Seq<Seq<char>>, b: App) -> bool {
    &&& b == (App { store: b.store, mode: Mode::Normal, status_line: b.status_line, ..a })
    &&& b.status_line@ == "Body saved"@
    &&& match a.current() {
        Some(req) => {
            &&& with_current(a, b, Request { body: b.store.requests@[a.selected as int].body, ..req })
            &&& b.store.requests@[a.selected as int].body@ == crate::text::join(lines, "\n"@)
        },
        None => b.store == a.store,
    }
}

/// `b` is `a` with the body editor showing `lines` and its cursor at
/// `row`, `col`.
pub open spec fn editor_at(a: App, b: App, lines: Seq<Seq<char>>, row: int, col: int) -> bool {
    &&& b == (App { mode: b.mode, ..a })
    &&& b.mode matches Mode::BodyEditor { lines: l, cursor_row, cursor_col }
    &&& views(l@) == lines
    &&& cursor_row == row
    &&& cursor_col == col
}

/// Whether `key` can be handled in the body editor of `a` without cutting
/// a character of the line in two: typing and Enter need the cursor at a
/// character boundary, Backspace needs one just before the cursor. Every
/// other key, and every other mode, is always fine.
pub open spec fn editor_key_fits(a: App, key: Key) -> bool {
    match a.mode {
        Mode::BodyEditor { lines: lv, cursor_row: row, cursor_col: col } => {
            let line = lv@[row as int]@;
            if key.ctrl && (key.code == KeyCode::Char('s') || key.code == KeyCode::Char('p')) {
                true
            } else {
                match key.code {
                    KeyCode::Char(_) | KeyCode::Enter => on_boundary(line, col as int),
                    KeyCode::Backspace => col == 0 || on_boundary(line, col - 1),
                    _ => true,
                }
            }
        },
        _ => true,
    }
}

/// `b` and `e` are what a key makes of `a` in the body editor. The cursor
/// column counts UTF-8 bytes of the line: Left and Right move it by one
/// byte, typing puts the character in at that byte and moves one byte on,
/// Backspace takes out the character that starts one byte back.
pub open spec fn body_editor_step(a: App, key: Key, b: App, e: Effect) -> bool {
    &&& e is Continue
    &&& a.mode matches Mode::BodyEditor { lines: lv, cursor_row: row, cursor_col: col }
    &&& {
        let ls = views(lv@);
        let line = ls[row as int];
        if key.ctrl && key.code == KeyCode::Char('s') {
            body_saved(a, ls, b)
        } else if key.ctrl && key.code == KeyCode::Char('p') {
            match pretty_json(crate::text::join(ls, "\n"@)) {
                Some(p) => editor_at(a, b, lines(p), 0, 0),
                None => b == a,
            }
        } else {
            match key.code {
                KeyCode::Esc => body_saved(a, ls, b),
                KeyCode::Enter => editor_at(
                    a,
                    b,
                    ls.update(row as int, before_byte(line, col as int)).insert(
                        row + 1,
                        from_byte(line, col as int),
                    ),
                    row + 1,
                    0,
                ),
                KeyCode::Backspace => if col > 0 {
                    editor_at(
                        a,
                        b,
                        ls.update(
                            row as int,
                            before_byte(line, col - 1) + from_byte(line, col - 1).drop_first(),
                        ),
                        row as int,
                        col - 1,
                    )
                } else if row > 0 {
                    let prev = ls[row - 1];
                    editor_at(
                        a,
                        b,
                        ls.remove(row as int).update(row - 1, prev + line),
                        row - 1,
                        encode_utf8(prev).len() as int,
                    )
                } else {
                    b == a
                },
                KeyCode::Left => if col > 0 {
                    editor_at(a, b, ls, row as int, col - 1)
                } else {
                    b == a
                },
                KeyCode::Right => if col < encode_utf8(line).len() {
                    editor_at(a, b, ls, row as int, col + 1)
                } else {
                    b == a
                },
                KeyCode::Up => if row > 0 {
                    editor_at(a, b, ls, row - 1, min_of(col, encode_utf8(ls[row - 1]).len()) as int)
                } else {
                    b == a
                },
                KeyCode::Down => if row + 1 < ls.len() {
                    editor_at(a, b, ls, row + 1, min_of(col, encode_utf8(ls[row + 1]).len()) as int)
                } else {
                    b == a
                },
                KeyCode::Char(c) => editor_at(
                    a,
                    b,
                    ls.update(
                        row as int,
                        before_byte(line, col as int).push(c) + from_byte(line, col as int),
                    ),
                    row as int,
                    col + 1,
                ),
                _ => b == a,
            }
        }
    }
}

impl App {
    /// Stores the joined lines as the body of the request under the cursor
    /// and leaves the body editor.
    fn save_body(&mut self, lines: &Vec<String>)
        requires
            old(self).wf(),
        ensures
            body_saved(*old(self), views(lines@), *final(self)),
            final(self).wf(),
    {
        let body = crate::text::join_strings(lines, "\n");
        if self.selected < self.store.requests.len() {
            let sel = self.selected;
            self.store.requests[sel].body = body;
        }
        self.mode = Mode::Normal;
        self.status_line = String::from_str("Body saved");
    }

    /// Handles a key in the body editor.
    pub fn handle_body_editor(&mut self, key: Key) -> (e: Effect)
        requires
            old(self).wf(),
            old(self).mode is BodyEditor,
            editor_key_fits(*old(self), key),
        ensures
            body_editor_step(*old(self), key, *final(self), e),
            final(self).wf(),
    {
        let mut m = Mode::Normal;
        std::mem::swap(&mut m, &mut self.mode);
        let (mut lines, row, col) = match m {
            Mode::BodyEditor { lines, cursor_row, cursor_col } => (lines, cursor_row, cursor_col),
            _ => {
                return Effect::Continue;
            },
        };
        let ghost ls = views(lines@);
        let ghost line = ls[row as int];
        assert(lines@[row as int]@ == line);
        assert(row < lines.len());
        if key.ctrl && key.code == KeyCode::Char('s') {
            self.save_body(&lines);
            return Effect::Continue;
        }
        if key.ctrl && key.code == KeyCode::Char('p') {
            let raw = crate::text::join_strings(&lines, "\n");
            match prettify_json(raw.as_str()) {
                Some(pretty) => {
                    proof {
                        crate::text::lemma_lines_nonempty(pretty@);
                    }
                    let new_lines = lines_of(pretty.as_str());
                    assert(new_lines@.len() == views(new_lines@).len());
                    self.mode = Mode::BodyEditor { lines: new_lines, cursor_row: 0, cursor_col: 0 };
                },
                None => {
                    self.mode = Mode::BodyEditor { lines, cursor_row: row, cursor_col: col };
                },
            }
            return Effect::Continue;
        }
        match key.code {
            KeyCode::Esc => {
                self.save_body(&lines);
            },
            KeyCode::Enter => {
                let (head, tail) = split_at_byte(&lines[row], col);
                proof {
                    crate::text::lemma_split_at_boundary(line, col as int);
                }
                lines[row] = head;
                lines.insert(row + 1, tail);
                assert(views(lines@) =~= ls.update(row as int, before_byte(line, col as int)).insert(
                    row + 1,
                    from_byte(line, col as int),
                ));
                self.mode = Mode::BodyEditor { lines, cursor_row: row + 1, cursor_col: 0 };
            },
            KeyCode::Backspace => {
                if col > 0 {
                    let shorter = remove_at_byte(&lines[row], col - 1);
                    let ghost before = before_byte(line, col - 1);
                    let ghost after = from_byte(line, col - 1).drop_first();
                    proof {
                        crate::text::lemma_split_at_boundary(line, col - 1);
                        crate::text::lemma_encode_concat(before, after);
                    }
                    lines[row] = shorter;
                    assert(views(lines@) =~= ls.update(row as int, before + after));
                    self.mode = Mode::BodyEditor { lines, cursor_row: row, cursor_col: col - 1 };
                } else if row > 0 {
                    let removed = lines.remove(row);
                    let new_col = lines[row - 1].as_str().as_bytes().len();
                    lines[row - 1].append(removed.as_str());
                    proof {
                        crate::text::lemma_encode_concat(ls[row - 1], line);
                    }
                    assert(views(lines@) =~= ls.remove(row as int).update(
                        row - 1,
                        ls[row - 1] + line,
                    ));
                    self.mode = Mode::BodyEditor {
                        lines,
                        cursor_row: row - 1,
                        cursor_col: new_col,
                    };
                } else {
                    self.mode = Mode::BodyEditor { lines, cursor_row: row, cursor_col: col };
                }
            },
            KeyCode::Left => {
                let c = if col > 0 {
                    col - 1
                } else {
                    col
                };
                self.mode = Mode::BodyEditor { lines, cursor_row: row, cursor_col: c };
            },
            KeyCode::Right => {
                let c = if col < lines[row].as_str().as_bytes().len() {
                    col + 1
                } else {
                    col
                };
                self.mode = Mode::BodyEditor { lines, cursor_row: row, cursor_col: c };
            },
            KeyCode::Up => {
                if row > 0 {
                    let len = lines[row - 1].as_str().as_bytes().len();
                    let c = if col < len {
                        col
                    } else {
                        len
                    };
                    self.mode = Mode::BodyEditor { lines, cursor_row: row - 1, cursor_col: c };
                } else {
                    self.mode = Mode::BodyEditor { lines, cursor_row: row, cursor_col: col };
                }
            },
            KeyCode::Down => {
                if row + 1 < lines.len() {
                    let len = lines[row + 1].as_str().as_bytes().len();
                    let c = if col < len {
                        col
                    } else {
                        len
                    };
                    self.mode = Mode::BodyEditor { lines, cursor_row: row + 1, cursor_col: c };
                } else {
                    self.mode = Mode::BodyEditor { lines, cursor_row: row, cursor_col: col };
                }
            },
            KeyCode::Char(ch) => {
                let longer = insert_at_byte(&lines[row], col, ch);
                let ghost before = before_byte(line, col as int);
                let ghost after = from_byte(line, col as int);
                proof {
                    crate::text::lemma_split_at_boundary(line, col as int);
                    crate::text::lemma_encode_concat(before.push(ch), after);
                    crate::text::lemma_encode_concat(before, seq![ch]);
                    assert(before.push(ch) =~= before + seq![ch]);
                    assert(encode_utf8(seq![ch]).len() > 0);
                }
                let n = longer.as_str().as_bytes().len();
                assert(col < n);
                lines[row] = longer;
                assert(views(lines@) =~= ls.update(row as int, before.push(ch) + after));
                self.mode = Mode::BodyEditor { lines, cursor_row: row, cursor_col: col + 1 };
            },
            _ => {
                self.mode = Mode::BodyEditor { lines, cursor_row: row, cursor_col: col };
            },
        }
        Effect::Continue
    }
}

} // verus!

verus! {

/// `b` is what deleting the request under the cursor makes of `a`.
pub open spec fn delete_step(a: App, b: App) -> bool {
    if a.store.requests@.len() == 0 {
        b == a
    } else {
        let n = a.store.requests@.len() - 1;
        &&& b == (App {
            store: RequestStore { requests: b.store.requests, ..a.store },
            selected: if a.selected >= n && n > 0 {
                (n - 1) as usize
            } else {
                a.selected
            },
            status_line: b.status_line,
            ..a
        })
        &&& b.store.requests@ == a.store.requests@.remove(a.selected as int)
        &&& b.status_line@ == "Request deleted"@
    }
}

/// `b` and `e` are what a key makes of `a` in the popup that confirms a
/// delete.
pub open spec fn confirm_delete_step(a: App, key: Key, b: App, e: Effect) -> bool {
    &&& e is Continue
    &&& a.mode matches Mode::ConfirmDelete { selected }
    &&& match key.code {
        KeyCode::Up | KeyCode::Down => b == (App {
            mode: Mode::ConfirmDelete { selected: (1 - selected) as usize },
            ..a
        }),
        KeyCode::Enter => if selected == 0 {
            delete_step(App { mode: Mode::Normal, ..a }, b)
        } else {
            with_status(App { mode: Mode::Normal, ..a }, b, "Delete cancelled"@)
        },
        KeyCode::Esc => with_status(App { mode: Mode::Normal, ..a }, b, "Delete cancelled"@),
        _ => b == a,
    }
}

/// `b` and `e` are what a key makes of `a` in the popup that confirms
/// quitting with unsaved changes.
pub open spec fn confirm_quit_step(a: App, key: Key, b: App, e: Effect) -> bool {
    &&& a.mode matches Mode::ConfirmQuit { selected }
    &&& match key.code {
        KeyCode::Up | KeyCode::Down => b == (App {
            mode: Mode::ConfirmQuit { selected: (1 - selected) as usize },
            ..a
        }) && e is Continue,
        KeyCode::Enter => if selected == 0 {
            b == a && e is Quit
        } else {
            b == (App { mode: Mode::Normal, ..a }) && e is Continue
        },
        KeyCode::Esc => b == (App { mode: Mode::Normal, ..a }) && e is Continue,
        _ => b == a && e is Continue,
    }
}

impl App {
    /// The shared logic of the two yes/no popups: Up and Down switch the
    /// choice, Enter confirms where the first choice is selected, Esc
    /// cancels; none where nothing is decided yet.
    fn handle_yes_no(key: Key, selected: &mut usize) -> (r: Option<bool>)
        requires
            *old(selected) <= 1,
        ensures
            match key.code {
                KeyCode::Up | KeyCode::Down => r is None && *final(selected) == 1 - *old(selected),
                KeyCode::Enter => r == Some(*old(selected) == 0) && *final(selected) == *old(selected),
                KeyCode::Esc => r == Some(false) && *final(selected) == *old(selected),
                _ => r is None && *final(selected) == *old(selected),
            },
    {
        match key.code {
            KeyCode::Up | KeyCode::Down => {
                *selected = 1 - *selected;
                None
            },
            KeyCode::Enter => Some(*selected == 0),
            KeyCode::Esc => Some(false),
            _ => None,
        }
    }

    /// Handles a key in the popup that confirms a delete.
    pub fn handle_confirm_delete(&mut self, key: Key) -> (e: Effect)
        requires
            old(self).wf(),
            old(self).mode is ConfirmDelete,
        ensures
            confirm_delete_step(*old(self), key, *final(self), e),
            final(self).wf(),
    {
        let mut selected = match &self.mode {
            Mode::ConfirmDelete { selected } => *selected,
            _ => {
                return Effect::Continue;
            },
        };
        match App::handle_yes_no(key, &mut selected) {
            Some(true) => {
                self.mode = Mode::Normal;
                self.delete_request();
            },
            Some(false) => {
                self.mode = Mode::Normal;
                self.status_line = String::from_str("Delete cancelled");
            },
            None => {
                self.mode = Mode::ConfirmDelete { selected };
            },
        }
        Effect::Continue
    }

    /// Handles a key in the popup that confirms quitting.
    pub fn handle_confirm_quit(&mut self, key: Key) -> (e: Effect)
        requires
            old(self).wf(),
            old(self).mode is ConfirmQuit,
        ensures
            confirm_quit_step(*old(self), key, *final(self), e),
            final(self).wf(),
    {
        let mut selected = match &self.mode {
            Mode::ConfirmQuit { selected } => *selected,
            _ => {
                return Effect::Continue;
            },
        };
        match App::handle_yes_no(key, &mut selected) {
            Some(true) => Effect::Quit,
            Some(false) => {
                self.mode = Mode::Normal;
                Effect::Continue
            },
            None => {
                self.mode = Mode::ConfirmQuit { selected };
                Effect::Continue
            },
        }
    }
}

} // verus!

verus! {

/// `b` is `a` with environment `i` replaced by `env`.
pub open spec fn with_env(a: App, b: App, i: int, env: crate::model::Environment) -> bool {
    &&& b.store == RequestStore { environments: b.store.environments, ..a.store }
    &&& b.store.environments@ == a.store.environments@.update(i, env)
}

/// `b` and `e` are what a key makes of `a` in the environment editor.
pub open spec fn env_editor_step(a: App, key: Key, b: App, e: Effect) -> bool {
    &&& e is Continue
    &&& a.mode matches Mode::EnvEditor { selected }
    &&& match a.store.active_environment {
        None => b == (App { mode: Mode::Normal, ..a }),
        Some(idx) => {
            let exists = idx < a.store.environments@.len();
            let env = a.store.environments@[idx as int];
            let count: nat = if exists {
                env.variables@.len()
            } else {
                0
            };
            match key.code {
                KeyCode::Esc => b == (App { mode: Mode::Normal, ..a }),
                KeyCode::Up => if count > 0 {
                    b == (App { mode: Mode::EnvEditor { selected: back_one(selected, count) }, ..a })
                } else {
                    b == a
                },
                KeyCode::Down => if count > 0 {
                    b == (App {
                        mode: Mode::EnvEditor {
                            selected: ring(selected as int, 1, count as int) as usize,
                        },
                        ..a
                    })
                } else {
                    b == a
                },
                KeyCode::Char('n') => if exists {
                    let nv = b.store.environments@[idx as int].variables@.last();
                    &&& b == (App {
                        store: b.store,
                        input: b.input,
                        mode: Mode::EnvVarEdit { index: count as usize, editing_value: false },
                        ..a
                    })
                    &&& with_env(a, b, idx as int, crate::model::Environment {
                        variables: b.store.environments@[idx as int].variables,
                        ..env
                    })
                    &&& b.store.environments@[idx as int].variables@ == env.variables@.push(nv)
                    &&& nv.key@.len() == 0
                    &&& nv.value@.len() == 0
                    &&& b.input@.len() == 0
                } else {
                    b == a
                },
                KeyCode::Char('x') => if exists && selected < count {
                    &&& b == (App {
                        store: b.store,
                        mode: Mode::EnvEditor { selected: clamped(selected, (count - 1) as nat) },
                        ..a
                    })
                    &&& with_env(a, b, idx as int, crate::model::Environment {
                        variables: b.store.environments@[idx as int].variables,
                        ..env
                    })
                    &&& b.store.environments@[idx as int].variables@ == env.variables@.remove(
                        selected as int,
                    )
                } else {
                    b == (App { mode: Mode::EnvEditor { selected: clamped(selected, count) }, ..a })
                },
                KeyCode::Char('e') | KeyCode::Enter => if selected < count {
                    with_input_mode(
                        a,
                        b,
                        env.variables@[selected as int].key@,
                        Mode::EnvVarEdit { index: selected, editing_value: false },
                    )
                } else {
                    b == a
                },
                KeyCode::Char('r') => if exists {
                    b == (App { input: env.name, mode: Mode::EnvNameEdit, ..a })
                } else {
                    b == (App { mode: Mode::EnvNameEdit, ..a })
                },
                _ => b == a,
            }
        },
    }
}

/// `b` and `e` are what a key makes of `a` while a variable is edited.
pub open spec fn env_var_edit_step(a: App, key: Key, b: App, e: Effect) -> bool {
    &&& e is Continue
    &&& a.mode matches Mode::EnvVarEdit { index, editing_value }
    &&& {
        let idx = match a.store.active_environment {
            Some(i) => i,
            None => 0usize,
        };
        match key.code {
            KeyCode::Esc => with_input_mode(a, b, Seq::empty(), Mode::EnvEditor { selected: index }),
            KeyCode::Tab | KeyCode::Enter => if idx < a.store.environments@.len() && index
                < a.store.environments@[idx as int].variables@.len() {
                let env = a.store.environments@[idx as int];
                let v = env.variables@[index as int];
                let nv = b.store.environments@[idx as int].variables@[index as int];
                &&& with_env(a, b, idx as int, crate::model::Environment {
                    variables: b.store.environments@[idx as int].variables,
                    ..env
                })
                &&& if !editing_value {
                    &&& b.store.environments@[idx as int].variables@ == env.variables@.update(
                        index as int,
                        EnvVariable { key: nv.key, ..v },
                    )
                    &&& nv.key@ == trim(a.input@)
                    &&& b == (App {
                        store: b.store,
                        input: v.value,
                        mode: Mode::EnvVarEdit { index, editing_value: true },
                        ..a
                    })
                } else {
                    &&& b.store.environments@[idx as int].variables@ == env.variables@.update(
                        index as int,
                        EnvVariable { value: nv.value, ..v },
                    )
                    &&& nv.value@ == trim(a.input@)
                    &&& b == (App {
                        store: b.store,
                        input: b.input,
                        mode: Mode::EnvEditor { selected: index },
                        ..a
                    })
                    &&& b.input@.len() == 0
                }
            } else {
                b == a
            },
            KeyCode::Backspace => b == (App { input: b.input, ..a }) && b.input@ == popped(a.input@),
            KeyCode::Char(c) => b == (App { input: b.input, ..a }) && b.input@ == a.input@.push(c),
            _ => b == a,
        }
    }
}

/// `b` and `e` are what a key makes of `a` while the environment's name is
/// edited.
pub open spec fn env_name_edit_step(a: App, key: Key, b: App, e: Effect) -> bool {
    &&& e is Continue
    &&& match key.code {
        KeyCode::Esc => with_input_mode(a, b, Seq::empty(), Mode::EnvEditor { selected: 0 }),
        KeyCode::Enter => match a.store.active_environment {
            Some(idx) => if idx < a.store.environments@.len() {
                let env = a.store.environments@[idx as int];
                &&& b == (App {
                    store: b.store,
                    input: b.input,
                    mode: Mode::EnvEditor { selected: 0 },
                    ..a
                })
                &&& with_env(a, b, idx as int, crate::model::Environment {
                    name: b.store.environments@[idx as int].name,
                    ..env
                })
                &&& b.store.environments@[idx as int].name@ == trim(a.input@)
                &&& b.input@.len() == 0
            } else {
                with_input_mode(a, b, Seq::empty(), Mode::EnvEditor { selected: 0 })
            },
            None => with_input_mode(a, b, Seq::empty(), Mode::EnvEditor { selected: 0 }),
        },
        KeyCode::Backspace => b == (App { input: b.input, ..a }) && b.input@ == popped(a.input@),
        KeyCode::Char(c) => b == (App { input: b.input, ..a }) && b.input@ == a.input@.push(c),
        _ => b == a,
    }
}

impl App {
    /// Handles a key in the environment editor.
    pub fn handle_env_editor(&mut self, key: Key) -> (e: Effect)
        requires
            old(self).wf(),
            old(self).mode is EnvEditor,
        ensures
            env_editor_step(*old(self), key, *final(self), e),
            final(self).wf(),
    {
        let idx = match self.store.active_environment {
            Some(i) => i,
            None => {
                self.mode = Mode::Normal;
                return Effect::Continue;
            },
        };
        let selected = match &self.mode {
            Mode::EnvEditor { selected } => *selected,
            _ => {
                return Effect::Continue;
            },
        };
        let exists = idx < self.store.environments.len();
        let count = if exists {
            self.store.environments[idx].variables.len()
        } else {
            0
        };
        match key.code {
            KeyCode::Esc => {
                self.mode = Mode::Normal;
            },
            KeyCode::Up => {
                if count > 0 {
                    let s = if selected == 0 {
                        count - 1
                    } else {
                        selected - 1
                    };
                    self.mode = Mode::EnvEditor { selected: s };
                }
            },
            KeyCode::Down => {
                if count > 0 {
                    self.mode = Mode::EnvEditor { selected: ring_step(selected, count, true) };
                }
            },
            KeyCode::Char('n') => {
                if exists {
                    self.store.environments[idx].variables.push(
                        EnvVariable { key: String::new(), value: String::new() },
                    );
                    self.input = String::new();
                    self.mode = Mode::EnvVarEdit { index: count, editing_value: false };
                }
            },
            KeyCode::Char('x') => {
                if exists && selected < count {
                    self.store.environments[idx].variables.remove(selected);
                }
                let new_count = if exists {
                    self.store.environments[idx].variables.len()
                } else {
                    0
                };
                if selected >= new_count && new_count > 0 {
                    self.mode = Mode::EnvEditor { selected: new_count - 1 };
                }
            },
            KeyCode::Char('e') | KeyCode::Enter => {
                if selected < count {
                    self.input = self.store.environments[idx].variables[selected].key.clone();
                    self.mode = Mode::EnvVarEdit { index: selected, editing_value: false };
                }
            },
            KeyCode::Char('r') => {
                if exists {
                    self.input = self.store.environments[idx].name.clone();
                }
                self.mode = Mode::EnvNameEdit;
            },
            _ => {},
        }
        Effect::Continue
    }

    /// Handles a key while a variable of the active environment is edited.
    pub fn handle_env_var_edit(&mut self, key: Key) -> (e: Effect)
        requires
            old(self).wf(),
            old(self).mode is EnvVarEdit,
        ensures
            env_var_edit_step(*old(self), key, *final(self), e),
            final(self).wf(),
    {
        let (index, editing_value) = match &self.mode {
            Mode::EnvVarEdit { index, editing_value } => (*index, *editing_value),
            _ => {
                return Effect::Continue;
            },
        };
        let idx = match self.store.active_environment {
            Some(i) => i,
            None => 0,
        };
        match key.code {
            KeyCode::Esc => {
                self.input = String::new();
                self.mode = Mode::EnvEditor { selected: index };
            },
            KeyCode::Tab | KeyCode::Enter => {
                let input_val = trim_str(self.input.as_str());
                if idx < self.store.environments.len() && index
                    < self.store.environments[idx].variables.len() {
                    if !editing_value {
                        self.store.environments[idx].variables[index].key = input_val;
                        self.input = self.store.environments[idx].variables[index].value.clone();
                        self.mode = Mode::EnvVarEdit { index, editing_value: true };
                    } else {
                        self.store.environments[idx].variables[index].value = input_val;
                        self.input = String::new();
                        self.mode = Mode::EnvEditor { selected: index };
                    }
                }
            },
            KeyCode::Backspace => {
                pop_char(&mut self.input);
            },
            KeyCode::Char(ch) => {
                push_char(&mut self.input, ch);
            },
            _ => {},
        }
        Effect::Continue
    }

    /// Handles a key while the name of the active environment is edited.
    pub fn handle_env_name_edit(&mut self, key: Key) -> (e: Effect)
        requires
            old(self).wf(),
            old(self).mode is EnvNameEdit,
        ensures
            env_name_edit_step(*old(self), key, *final(self), e),
            final(self).wf(),
    {
        match key.code {
            KeyCode::Esc => {
                self.input = String::new();
                self.mode = Mode::EnvEditor { selected: 0 };
            },
            KeyCode::Enter => {
                let name = trim_str(self.input.as_str());
                match self.store.active_environment {
                    Some(idx) => {
                        if idx < self.store.environments.len() {
                            self.store.environments[idx].name = name;
                        }
                    },
                    None => {},
                }
                self.input = String::new();
                self.mode = Mode::EnvEditor { selected: 0 };
            },
            KeyCode::Backspace => {
                pop_char(&mut self.input);
            },
            KeyCode::Char(ch) => {
                push_char(&mut self.input, ch);
            },
            _ => {},
        }
        Effect::Continue
    }
}

} // verus!

verus! {

/// `b` is `a` showing the sync error popup with `message`.
pub open spec fn sync_error_shown(a: App, b: App, message: Seq<char>) -> bool {
    &&& b == (App { status_line: b.status_line, mode: b.mode, ..a })
    &&& b.status_line@ == "Sync error"@
    &&& b.mode matches Mode::SyncError { message: m }
    &&& m@ == message
}

/// The settings of sync for a repository URL: branch `main`, the default
/// local clone.
pub open spec fn config_for(c: SyncConfig, url: Seq<char>) -> bool {
    &&& c.repo_url@ == url
    &&& c.branch@ == "main"@
    &&& c.local_dir@ == crate::sync::sync_repo_dir()
}

/// `b` and `e` are what a key makes of `a` in the sync conflict popup.
pub open spec fn sync_conflict_step(a: App, key: Key, b: App, e: Effect) -> bool {
    &&& a.mode matches Mode::SyncConflict { selected }
    &&& match key.code {
        KeyCode::Up => b == (App {
            mode: Mode::SyncConflict { selected: if selected == 0 { 2 } else { (selected - 1) as usize } },
            ..a
        }) && e is Continue,
        KeyCode::Down => b == (App {
            mode: Mode::SyncConflict { selected: ring(selected as int, 1, 3) as usize },
            ..a
        }) && e is Continue,
        KeyCode::Enter => if selected == 0 {
            b == (App { mode: Mode::Normal, ..a }) && (if a.sync_config is Some {
                e is ForcePush
            } else {
                e is Continue
            })
        } else if selected == 1 {
            b == (App { mode: Mode::Normal, ..a }) && (if a.sync_config is Some {
                e is ForcePull
            } else {
                e is Continue
            })
        } else {
            with_status(App { mode: Mode::Normal, ..a }, b, "Sync conflict unresolved"@) && e is Continue
        },
        KeyCode::Esc => with_status(App { mode: Mode::Normal, ..a }, b, "Sync conflict unresolved"@)
            && e is Continue,
        _ => b == a && e is Continue,
    }
}

/// `b` and `e` are what a key makes of `a` while the repository URL for sync
/// is entered.
pub open spec fn sync_setup_step(a: App, key: Key, b: App, e: Effect) -> bool {
    match key.code {
        KeyCode::Esc => with_input_mode(a, b, Seq::empty(), Mode::Normal) && e is Continue,
        KeyCode::Enter => {
            let url = trim(a.input@);
            if url.len() == 0 {
                &&& b == (App {
                    input: b.input,
                    mode: Mode::Normal,
                    sync_config: None,
                    status_line: b.status_line,
                    ..a
                })
                &&& b.input@.len() == 0
                &&& b.status_line@ == "Sync disabled"@
                &&& e is DisableSync
            } else {
                &&& with_input_mode(a, b, Seq::empty(), Mode::Normal)
                &&& e matches Effect::SetUpSync(c)
                &&& config_for(c, url)
            }
        },
        KeyCode::Backspace => b == (App { input: b.input, ..a }) && b.input@ == popped(a.input@)
            && e is Continue,
        KeyCode::Char(c) => b == (App { input: b.input, ..a }) && b.input@ == a.input@.push(c)
            && e is Continue,
        _ => b == a && e is Continue,
    }
}

/// `b` and `e` are what a key makes of `a` in the sync error popup.
pub open spec fn sync_error_step(a: App, key: Key, b: App, e: Effect) -> bool {
    &&& e is Continue
    &&& match key.code {
        KeyCode::Esc | KeyCode::Enter => b == (App { mode: Mode::Normal, ..a }),
        _ => b == a,
    }
}

impl App {
    /// Handles a key in the sync conflict popup.
    pub fn handle_sync_conflict(&mut self, key: Key) -> (e: Effect)
        requires
            old(self).wf(),
            old(self).mode is SyncConflict,
        ensures
            sync_conflict_step(*old(self), key, *final(self), e),
            final(self).wf(),
    {
        let selected = match &self.mode {
            Mode::SyncConflict { selected } => *selected,
            _ => {
                return Effect::Continue;
            },
        };
        match key.code {
            KeyCode::Up => {
                let s = if selected == 0 {
                    2
                } else {
                    selected - 1
                };
                self.mode = Mode::SyncConflict { selected: s };
                Effect::Continue
            },
            KeyCode::Down => {
                self.mode = Mode::SyncConflict { selected: ring_step(selected, 3, true) };
                Effect::Continue
            },
            KeyCode::Enter => {
                self.mode = Mode::Normal;
                if selected == 0 {
                    if self.sync_config.is_some() {
                        Effect::ForcePush
                    } else {
                        Effect::Continue
                    }
                } else if selected == 1 {
                    if self.sync_config.is_some() {
                        Effect::ForcePull
                    } else {
                        Effect::Continue
                    }
                } else {
                    self.status_line = String::from_str("Sync conflict unresolved");
                    Effect::Continue
                }
            },
            KeyCode::Esc => {
                self.mode = Mode::Normal;
                self.status_line = String::from_str("Sync conflict unresolved");
                Effect::Continue
            },
            _ => Effect::Continue,
        }
    }

    /// Handles a key while the repository URL for sync is entered.
    pub fn handle_sync_setup(&mut self, key: Key) -> (e: Effect)
        requires
            old(self).wf(),
            old(self).mode is SyncSetup,
        ensures
            sync_setup_step(*old(self), key, *final(self), e),
            final(self).wf(),
    {
        match key.code {
            KeyCode::Esc => {
                self.input = String::new();
                self.mode = Mode::Normal;
                Effect::Continue
            },
            KeyCode::Enter => {
                let url = trim_str(self.input.as_str());
                self.input = String::new();
                self.mode = Mode::Normal;
                if char_count(&url) == 0 {
                    self.sync_config = None;
                    self.status_line = String::from_str("Sync disabled");
                    Effect::DisableSync
                } else {
                    let cfg = SyncConfig {
                        repo_url: url,
                        branch: crate::sync::default_branch(),
                        local_dir: crate::sync::default_local_dir(),
                    };
                    Effect::SetUpSync(cfg)
                }
            },
            KeyCode::Backspace => {
                pop_char(&mut self.input);
                Effect::Continue
            },
            KeyCode::Char(ch) => {
                push_char(&mut self.input, ch);
                Effect::Continue
            },
            _ => Effect::Continue,
        }
    }

    /// Handles a key in the sync error popup.
    pub fn handle_sync_error(&mut self, key: Key) -> (e: Effect)
        requires
            old(self).wf(),
            old(self).mode is SyncError,
        ensures
            sync_error_step(*old(self), key, *final(self), e),
            final(self).wf(),
    {
        match key.code {
            KeyCode::Esc | KeyCode::Enter => {
                self.mode = Mode::Normal;
            },
            _ => {},
        }
        Effect::Continue
    }
}

/// `b` and `e` are what `key` makes of `a`, in whatever mode `a` is.
pub open spec fn key_step(a: App, key: Key, b: App, e: Effect) -> bool {
    match a.mode {
        Mode::Normal => normal_step(a, key, b, e),
        Mode::Editing(field) => inline_step(a, field, key, b, e),
        Mode::MethodPicker { .. } => method_picker_step(a, key, b, e),
        Mode::HeaderList { .. } => header_list_step(a, key, b, e),
        Mode::HeaderEdit { .. } => header_edit_step(a, key, b, e),
        Mode::BodyEditor { .. } => body_editor_step(a, key, b, e),
        Mode::ConfirmDelete { .. } => confirm_delete_step(a, key, b, e),
        Mode::ConfirmQuit { .. } => confirm_quit_step(a, key, b, e),
        Mode::EnvEditor { .. } => env_editor_step(a, key, b, e),
        Mode::EnvVarEdit { .. } => env_var_edit_step(a, key, b, e),
        Mode::EnvNameEdit => env_name_edit_step(a, key, b, e),
        Mode::SyncConflict { .. } => sync_conflict_step(a, key, b, e),
        Mode::SyncSetup => sync_setup_step(a, key, b, e),
        Mode::SyncError { .. } => sync_error_step(a, key, b, e),
    }
}

impl App {
    /// Handles a key press: changes the state as the current mode says, and
    /// tells what the caller is to do next.
    pub fn handle_key(&mut self, key: Key) -> (e: Effect)
        requires
            old(self).wf(),
            editor_key_fits(*old(self), key),
        ensures
            key_step(*old(self), key, *final(self), e),
            final(self).wf(),
    {
        match &self.mode {
            Mode::Normal => self.handle_normal(key),
            Mode::Editing(field) => {
                let f = *field;
                self.handle_inline_edit(f, key)
            },
            Mode::MethodPicker { .. } => self.handle_method_picker(key),
            Mode::HeaderList { .. } => self.handle_header_list(key),
            Mode::HeaderEdit { .. } => self.handle_header_edit(key),
            Mode::BodyEditor { .. } => self.handle_body_editor(key),
            Mode::ConfirmDelete { .. } => self.handle_confirm_delete(key),
            Mode::ConfirmQuit { .. } => self.handle_confirm_quit(key),
            Mode::EnvEditor { .. } => self.handle_env_editor(key),
            Mode::EnvVarEdit { .. } => self.handle_env_var_edit(key),
            Mode::EnvNameEdit => self.handle_env_name_edit(key),
            Mode::SyncConflict { .. } => self.handle_sync_conflict(key),
            Mode::SyncSetup => self.handle_sync_setup(key),
            Mode::SyncError { .. } => self.handle_sync_error(key),
        }
    }
}

} // verus!

verus! {

/// How writing and pushing the store ended, for the `g` key.
#[derive(Debug)]
pub enum SyncReport {
    /// The store could not be written.
    SaveFailed(String),
    /// The store was written and the push ended so.
    Pushed(SyncStatus),
    /// The store was written and the push failed.
    PushFailed(String),
}

/// How taking the remote version ended.
#[derive(Debug)]
pub enum PullReport {
    /// The remote version was pulled and read back as this store.
    Loaded(RequestStore),
    /// The pull worked but the file could not be read back.
    ReloadFailed(String),
    /// The pull failed.
    PullFailed(String),
}

/// How setting up sync ended.
#[derive(Debug)]
pub enum SetupReport {
    /// The settings could not be saved.
    SaveFailed(String),
    /// The settings were saved but git is not installed.
    GitMissing,
    /// The settings were saved but the repository could not be set up.
    InitFailed(String),
    /// Sync is set up.
    Configured,
}

impl App {
    /// After `q`: asks to confirm where the store has unsaved changes, else
    /// quits.
    pub fn finish_quit_check(&mut self, unsaved: bool) -> (r: crate::app::AppAction)
        requires
            old(self).wf(),
        ensures
            unsaved ==> *final(self) == (App { mode: Mode::ConfirmQuit { selected: 1 }, ..*old(self) })
                && r == crate::app::AppAction::Continue,
            !unsaved ==> *final(self) == *old(self) && r == crate::app::AppAction::Quit,
            final(self).wf(),
    {
        if unsaved {
            self.mode = Mode::ConfirmQuit { selected: 1 };
            crate::app::AppAction::Continue
        } else {
            crate::app::AppAction::Quit
        }
    }

    /// After the store was written: `push` is how the push that follows a
    /// save ended, none where sync is not set up.
    pub fn finish_save(&mut self, push: Option<Result<SyncStatus, String>>)
        requires
            old(self).wf(),
        ensures
            match push {
                None => with_status(*old(self), *final(self), "Saved to "@ + old(self).storage_path@),
                Some(Ok(SyncStatus::Synced)) => with_status(
                    *old(self),
                    *final(self),
                    "Saved & synced to "@ + old(self).storage_path@,
                ),
                Some(Ok(SyncStatus::Conflict)) => with_status(
                    App { mode: Mode::SyncConflict { selected: 2 }, ..*old(self) },
                    *final(self),
                    "Saved locally, sync conflict detected"@,
                ),
                Some(Ok(SyncStatus::Disabled)) => sync_error_shown(
                    *old(self),
                    *final(self),
                    "Sync unavailable (no git repo initialized)"@,
                ),
                Some(Err(msg)) => sync_error_shown(*old(self), *final(self), "Push failed: "@ + msg@),
            },
            final(self).wf(),
    {
        match push {
            None => {
                let mut s = String::from_str("Saved to ");
                s.append(self.storage_path.as_str());
                self.status_line = s;
            },
            Some(Ok(SyncStatus::Synced)) => {
                let mut s = String::from_str("Saved & synced to ");
                s.append(self.storage_path.as_str());
                self.status_line = s;
            },
            Some(Ok(SyncStatus::Conflict)) => {
                self.status_line = String::from_str("Saved locally, sync conflict detected");
                self.mode = Mode::SyncConflict { selected: 2 };
            },
            Some(Ok(SyncStatus::Disabled)) => {
                self.show_sync_error("Sync unavailable (no git repo initialized)");
            },
            Some(Err(msg)) => {
                let mut s = String::from_str("Push failed: ");
                s.append(msg.as_str());
                self.show_sync_error(s.as_str());
            },
        }
    }

    /// After the request was sent: shows the response, or the error.
    pub fn finish_execute(&mut self, result: Result<crate::model::ResponseSummary, String>)
        requires
            old(self).wf(),
        ensures
            match result {
                Ok(resp) => with_status(
                    App { response: Some(resp), ..*old(self) },
                    *final(self),
                    "Request completed"@,
                ),
                Err(msg) => with_status(*old(self), *final(self), "Request failed: "@ + msg@),
            },
            final(self).wf(),
    {
        match result {
            Ok(resp) => {
                self.status_line = String::from_str("Request completed");
                self.response = Some(resp);
            },
            Err(msg) => {
                let mut s = String::from_str("Request failed: ");
                s.append(msg.as_str());
                self.status_line = s;
            },
        }
    }

    /// After `g`: shows how writing and pushing the store ended.
    pub fn finish_sync(&mut self, report: SyncReport)
        requires
            old(self).wf(),
        ensures
            match report {
                SyncReport::SaveFailed(msg) => sync_error_shown(
                    *old(self),
                    *final(self),
                    "Save failed: "@ + msg@,
                ),
                SyncReport::Pushed(SyncStatus::Synced) => with_status(
                    *old(self),
                    *final(self),
                    "Synced successfully"@,
                ),
                SyncReport::Pushed(SyncStatus::Conflict) => with_status(
                    App { mode: Mode::SyncConflict { selected: 2 }, ..*old(self) },
                    *final(self),
                    "Sync conflict"@,
                ),
                SyncReport::Pushed(SyncStatus::Disabled) => sync_error_shown(
                    *old(self),
                    *final(self),
                    "Sync unavailable (no git repo initialized)"@,
                ),
                SyncReport::PushFailed(msg) => sync_error_shown(
                    *old(self),
                    *final(self),
                    "Sync failed: "@ + msg@,
                ),
            },
            final(self).wf(),
    {
        match report {
            SyncReport::SaveFailed(msg) => {
                let mut s = String::from_str("Save failed: ");
                s.append(msg.as_str());
                self.show_sync_error(s.as_str());
            },
            SyncReport::Pushed(SyncStatus::Synced) => {
                self.status_line = String::from_str("Synced successfully");
            },
            SyncReport::Pushed(SyncStatus::Conflict) => {
                self.status_line = String::from_str("Sync conflict");
                self.mode = Mode::SyncConflict { selected: 2 };
            },
            SyncReport::Pushed(SyncStatus::Disabled) => {
                self.show_sync_error("Sync unavailable (no git repo initialized)");
            },
            SyncReport::PushFailed(msg) => {
                let mut s = String::from_str("Sync failed: ");
                s.append(msg.as_str());
                self.show_sync_error(s.as_str());
            },
        }
    }

    /// After keeping the local version by a force push.
    pub fn finish_force_push(&mut self, result: Result<(), String>)
        requires
            old(self).wf(),
        ensures
            match result {
                Ok(()) => with_status(*old(self), *final(self), "Forced push — local version kept"@),
                Err(msg) => sync_error_shown(
                    *old(self),
                    *final(self),
                    "Force push failed: "@ + msg@,
                ),
            },
            final(self).wf(),
    {
        match result {
            Ok(()) => {
                self.status_line = String::from_str("Forced push — local version kept");
            },
            Err(msg) => {
                let mut s = String::from_str("Force push failed: ");
                s.append(msg.as_str());
                self.show_sync_error(s.as_str());
            },
        }
    }

    /// After taking the remote version: the store read back replaces the
    /// one in memory, with the cursor on its first request.
    pub fn finish_force_pull(&mut self, report: PullReport)
        requires
            old(self).wf(),
        ensures
            match report {
                PullReport::Loaded(store) => with_status(
                    App {
                        store: store,
                        selected: 0,
                        next_id: crate::app::next_id_after(store.requests@),
                        ..*old(self)
                    },
                    *final(self),
                    "Loaded remote version"@,
                ),
                PullReport::ReloadFailed(msg) => sync_error_shown(
                    *old(self),
                    *final(self),
                    "Failed to reload: "@ + msg@,
                ),
                PullReport::PullFailed(msg) => sync_error_shown(
                    *old(self),
                    *final(self),
                    "Force pull failed: "@ + msg@,
                ),
            },
            final(self).wf(),
    {
        match report {
            PullReport::Loaded(store) => {
                let next_id = crate::app::next_free_id(&store.requests);
                self.store = store;
                self.selected = 0;
                self.next_id = next_id;
                self.status_line = String::from_str("Loaded remote version");
            },
            PullReport::ReloadFailed(msg) => {
                let mut s = String::from_str("Failed to reload: ");
                s.append(msg.as_str());
                self.show_sync_error(s.as_str());
            },
            PullReport::PullFailed(msg) => {
                let mut s = String::from_str("Force pull failed: ");
                s.append(msg.as_str());
                self.show_sync_error(s.as_str());
            },
        }
    }

    /// After the settings for sync were entered: `config` is kept once it
    /// was saved, whatever followed.
    pub fn finish_sync_setup(&mut self, config: SyncConfig, report: SetupReport)
        requires
            old(self).wf(),
        ensures
            match report {
                SetupReport::SaveFailed(msg) => sync_error_shown(
                    *old(self),
                    *final(self),
                    "Failed to save config: "@ + msg@,
                ),
                SetupReport::GitMissing => sync_error_shown(
                    App { sync_config: Some(config), ..*old(self) },
                    *final(self),
                    "git is not installed"@,
                ),
                SetupReport::InitFailed(msg) => sync_error_shown(
                    App { sync_config: Some(config), ..*old(self) },
                    *final(self),
                    "Init failed: "@ + msg@,
                ),
                SetupReport::Configured => with_status(
                    App { sync_config: Some(config), ..*old(self) },
                    *final(self),
                    "Sync configured"@,
                ),
            },
            final(self).wf(),
    {
        match report {
            SetupReport::SaveFailed(msg) => {
                let mut s = String::from_str("Failed to save config: ");
                s.append(msg.as_str());
                self.show_sync_error(s.as_str());
            },
            SetupReport::GitMissing => {
                self.show_sync_error("git is not installed");
                self.sync_config = Some(config);
            },
            SetupReport::InitFailed(msg) => {
                let mut s = String::from_str("Init failed: ");
                s.append(msg.as_str());
                self.show_sync_error(s.as_str());
                self.sync_config = Some(config);
            },
            SetupReport::Configured => {
                self.status_line = String::from_str("Sync configured");
                self.sync_config = Some(config);
            },
        }
    }
}

} // verus!

verus! {

impl App {
    /// Adds an empty environment named `env-N`, N being the new number of
    /// environments, and makes it the active one.
    pub fn add_environment(&mut self)
        requires
            old(self).wf(),
        ensures
            ({
                let n = final(self).store.environments@.len();
                let env = final(self).store.environments@.last();
                &&& *final(self) == (App {
                    store: RequestStore {
                        environments: final(self).store.environments,
                        active_environment: Some((n - 1) as usize),
                        ..old(self).store
                    },
                    status_line: final(self).status_line,
                    ..*old(self)
                })
                &&& final(self).store.environments@ == old(self).store.environments@.push(env)
                &&& env.name@ == "env-"@ + decimal(n)
                &&& env.variables@.len() == 0
                &&& final(self).status_line@ == "Environment \""@ + env.name@ + "\" created"@
            }),
            final(self).wf(),
    {
        self.store.environments.push(crate::model::Environment::new(""));
        let n = self.store.environments.len();
        let mut name = String::from_str("env-");
        let digits = crate::text::u64_to_decimal(n as u64);
        name.append(digits.as_str());
        let mut status = String::from_str("Environment \"");
        status.append(name.as_str());
        status.append("\" created");
        self.store.environments[n - 1].name = name;
        self.store.active_environment = Some(n - 1);
        self.status_line = status;
    }

    /// Removes the active environment; the one at its place, or else the
    /// last, becomes active, none where no environment is left.
    pub fn delete_environment(&mut self)
        requires
            old(self).wf(),
        ensures
            match old(self).store.active_environment {
                Some(idx) => if idx < old(self).store.environments@.len() {
                    let n = final(self).store.environments@.len();
                    &&& *final(self) == (App {
                        store: RequestStore {
                            environments: final(self).store.environments,
                            active_environment: if n == 0 {
                                None
                            } else if idx < n {
                                Some(idx)
                            } else {
                                Some((n - 1) as usize)
                            },
                            ..old(self).store
                        },
                        status_line: final(self).status_line,
                        ..*old(self)
                    })
                    &&& final(self).store.environments@ == old(self).store.environments@.remove(idx as int)
                    &&& final(self).status_line@ == "Environment deleted"@
                } else {
                    *final(self) == *old(self)
                },
                None => *final(self) == *old(self),
            },
            final(self).wf(),
    {
        match self.store.active_environment {
            Some(idx) => {
                if idx < self.store.environments.len() {
                    self.store.environments.remove(idx);
                    let n = self.store.environments.len();
                    if n == 0 {
                        self.store.active_environment = None;
                    } else if idx < n {
                        self.store.active_environment = Some(idx);
                    } else {
                        self.store.active_environment = Some(n - 1);
                    }
                    self.status_line = String::from_str("Environment deleted");
                }
            },
            None => {},
        }
    }

    /// Makes the next (`delta` 1) or the previous (`delta` -1) environment
    /// active, round the list, counting from the first where none is active.
    pub fn cycle_environment(&mut self, delta: isize)
        requires
            old(self).wf(),
            delta == 1 || delta == -1,
        ensures
            ({
                let n = old(self).store.environments@.len();
                let cur: int = match old(self).store.active_environment {
                    Some(i) => i as int,
                    None => 0,
                };
                if n == 0 {
                    *final(self) == *old(self)
                } else {
                    *final(self) == (App {
                        store: RequestStore {
                            active_environment: Some(ring(cur, delta as int, n as int) as usize),
                            ..old(self).store
                        },
                        ..*old(self)
                    })
                }
            }),
            final(self).wf(),
    {
        let len = self.store.environments.len();
        if len == 0 {
            return;
        }
        let current = match self.store.active_environment {
            Some(i) => i,
            None => 0,
        };
        self.store.active_environment = Some(ring_step(current, len, delta == 1));
    }
}

} // verus!
