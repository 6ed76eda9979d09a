use vstd::prelude::*;
use crate::headers::{
    common_values, common_values_for, filter_suggestions, keeps, str_views, COMMON_HEADER_NAMES,
};
use crate::model::{
    all_methods, method_name, EnvVariable, HttpMethod, Request, RequestStore, ResponseSummary,
    UiArea,
};
use crate::sync::SyncConfig;
use crate::text::{chars_of, contains_chars, has_substring, to_ascii_uppercase, upper};

verus! {

/// How many fields the details pane shows.
pub const FIELD_COUNT: usize = 5;

/// The fields of a request that the details pane lets the user edit.
#[derive(Debug, Clone, Copy, PartialEq, Eq, Structural)]
pub enum EditField {
    Name,
    Method,
    Url,
    Headers,
    Body,
}

/// What the keyboard is doing at the moment.
#[derive(Debug)]
pub enum Mode {
    Normal,
    /// Simple inline text edit (Name, URL)
    Editing(EditField),
    /// Method picker: Up/Down to select, type to filter, Enter to confirm
    MethodPicker { filter: String, selected: usize },
    /// Header list browser: Up/Down to select, n/x/e to add/delete/edit, Esc to leave
    HeaderList { selected: usize },
    /// Editing a single header's name or value inline (with autocomplete)
    HeaderEdit { index: usize, editing_value: bool, autocomplete_idx: Option<usize> },
    /// Multi-line body editor
    BodyEditor { lines: Vec<String>, cursor_row: usize, cursor_col: usize },
    /// Confirm delete: Up/Down to select, Enter to confirm
    ConfirmDelete { selected: usize },
    /// Confirm quit with unsaved changes
    ConfirmQuit { selected: usize },
    /// Environment editor: manage variables in the active environment
    EnvEditor { selected: usize },
    /// Editing a single env variable's key or value
    EnvVarEdit { index: usize, editing_value: bool },
    /// Editing the environment name
    EnvNameEdit,
    /// Sync conflict: choose Keep local / Take remote / Cancel
    SyncConflict { selected: usize },
    /// Setup sync: enter repo URL
    SyncSetup,
    /// Sync error popup: show full error, dismiss with Esc/Enter
    SyncError { message: String },
}

/// Whether the program goes on after a key.
#[derive(Debug, Clone, Copy, PartialEq, Eq, Structural)]
pub enum AppAction {
    Continue,
    Quit,
}

/// The whole state of the program.
pub struct App {
    pub store: RequestStore,
    pub selected: usize,
    pub field_index: usize,
    pub mode: Mode,
    pub input: String,
    pub status_line: String,
    pub response: Option<ResponseSummary>,
    pub storage_path: String,
    pub focused_area: UiArea,
    pub response_scroll: u16,
    pub sync_config: Option<SyncConfig>,
    pub next_id: u64,
}

/// `pos` moved by `delta` places in a ring of `len` places.
pub open spec fn ring(pos: int, delta: int, len: int) -> int {
    (pos + delta) % len
}

/// `pos` moved one place forward or back in a ring of `len` places.
pub fn ring_step(pos: usize, len: usize, forward: bool) -> (r: usize)
    requires
        len > 0,
    ensures
        r == ring(pos as int, if forward { 1 } else { -1 }, len as int),
        r < len,
{
    let p = pos % len;
    let ghost q = (pos as int) / (len as int);
    let ghost d: int = if forward { 1 } else { -1 };
    proof {
        vstd::arithmetic::div_mod::lemma_fundamental_div_mod(pos as int, len as int);
        assert(pos as int + d == (len as int) * q + (p + d));
        vstd::arithmetic::div_mod::lemma_mod_multiples_vanish(q, p + d, len as int);
    }
    if forward {
        if p + 1 == len {
            proof {
                vstd::arithmetic::div_mod::lemma_mod_self_0(len as int);
            }
            0
        } else {
            proof {
                vstd::arithmetic::div_mod::lemma_small_mod((p + 1) as nat, len as nat);
            }
            p + 1
        }
    } else {
        if p == 0 {
            proof {
                vstd::arithmetic::div_mod::lemma_mod_add_multiples_vanish(-1, len as int);
                vstd::arithmetic::div_mod::lemma_small_mod((len - 1) as nat, len as nat);
            }
            len - 1
        } else {
            proof {
                vstd::arithmetic::div_mod::lemma_small_mod((p - 1) as nat, len as nat);
            }
            p - 1
        }
    }
}

/// The field at each place of the details pane; every place past the
/// fourth is the body.
pub open spec fn field_at(i: int) -> EditField {
    if i == 0 {
        EditField::Name
    } else if i == 1 {
        EditField::Method
    } else if i == 2 {
        EditField::Url
    } else if i == 3 {
        EditField::Headers
    } else {
        EditField::Body
    }
}

/// A method is offered by the picker where the filter, in capital letters,
/// is empty or stands in its name.
pub open spec fn method_matches(m: HttpMethod, filter: Seq<char>) -> bool {
    upper(filter).len() == 0 || has_substring(method_name(m), upper(filter))
}

/// The methods that the picker offers for `filter`, in order.
pub open spec fn methods_for(filter: Seq<char>) -> Seq<HttpMethod> {
    all_methods().filter(|m: HttpMethod| method_matches(m, filter))
}

impl App {
    /// The request under the cursor, if there is one.
    pub open spec fn current(&self) -> Option<Request> {
        if self.selected < self.store.requests@.len() {
            Some(self.store.requests@[self.selected as int])
        } else {
            None
        }
    }

    /// The active environment, if one is chosen and exists.
    pub open spec fn active_env(&self) -> Option<crate::model::Environment> {
        match self.store.active_environment {
            Some(i) => if i < self.store.environments@.len() {
                Some(self.store.environments@[i as int])
            } else {
                None
            },
            None => None,
        }
    }

    /// The name of header `index` of the request under the cursor, or the
    /// empty text where there is none.
    pub open spec fn header_name_at(&self, index: int) -> Seq<char> {
        match self.current() {
            Some(r) => if 0 <= index < r.headers@.len() {
                r.headers@[index].name@
            } else {
                Seq::empty()
            },
            None => Seq::empty(),
        }
    }

    /// The suggestions offered while editing a header's name or value.
    pub open spec fn suggestions(&self, editing_value: bool, index: int) -> Seq<Seq<char>> {
        let all = if editing_value {
            common_values(crate::text::lower(self.header_name_at(index)))
        } else {
            str_views(COMMON_HEADER_NAMES@)
        };
        all.filter(keeps(self.input@))
    }

    /// The App built around a loaded store: the cursor on the first request
    /// in the requests pane, nothing being edited, and new requests numbered
    /// after the highest id in the store.
    pub fn load(store: RequestStore, storage_path: String, sync_config: Option<SyncConfig>) -> (r:
        Self)
        ensures
            r.store == store,
            r.selected == 0,
            r.field_index == 0,
            r.mode is Normal,
            r.input@.len() == 0,
            r.status_line@.len() == 0,
            r.response is None,
            r.storage_path == storage_path,
            r.focused_area == UiArea::RequestList,
            r.response_scroll == 0,
            r.sync_config == sync_config,
            r.next_id == next_id_after(store.requests@),
    {
        let next_id = next_free_id(&store.requests);
        App {
            store,
            selected: 0,
            field_index: 0,
            mode: Mode::Normal,
            input: String::new(),
            status_line: String::new(),
            response: None,
            storage_path,
            focused_area: UiArea::RequestList,
            response_scroll: 0,
            sync_config,
            next_id,
        }
    }

    /// The field under the cursor in the details pane.
    pub fn current_field(&self) -> (r: EditField)
        ensures
            r == field_at(self.field_index as int),
    {
        match self.field_index {
            0 => EditField::Name,
            1 => EditField::Method,
            2 => EditField::Url,
            3 => EditField::Headers,
            _ => EditField::Body,
        }
    }

    /// The methods offered by the picker for `filter`: those whose name holds
    /// the filter in capital letters, all of them for an empty filter.
    pub fn filtered_methods(filter: &str) -> (r: Vec<HttpMethod>)
        ensures
            r@ == methods_for(filter@),
            forall|m: HttpMethod|
                #![trigger r@.contains(m)]
                r@.contains(m) <==> (upper(filter@).len() == 0 || exists|i: int|
                    crate::text::occurs_at(method_name(m), upper(filter@), i)),
    {
        let f = to_ascii_uppercase(filter);
        let fv = chars_of(f.as_str());
        let ghost pred = |m: HttpMethod| method_matches(m, filter@);
        let all = HttpMethod::ALL;
        assert(all@ =~= all_methods());
        let mut out: Vec<HttpMethod> = Vec::new();
        let mut i: usize = 0;
        while i < 7
            invariant
                i <= 7,
                all@ == all_methods(),
                fv@ == upper(filter@),
                pred == (|m: HttpMethod| method_matches(m, filter@)),
                out@ == all_methods().take(i as int).filter(pred),
            decreases 7 - i,
        {
            let m = all[i];
            let name = chars_of(m.as_str());
            let keep = fv.len() == 0 || contains_chars(&name, &fv);
            proof {
                reveal(Seq::filter);
                assert(all_methods().take(i + 1).drop_last() =~= all_methods().take(i as int));
            }
            if keep {
                out.push(m);
            }
            i += 1;
        }
        assert(all_methods().take(7) =~= all_methods());
        proof {
            assert forall|m: HttpMethod|
                #![trigger out@.contains(m)]
                out@.contains(m) <==> (upper(filter@).len() == 0 || exists|i: int|
                    crate::text::occurs_at(method_name(m), upper(filter@), i)) by {
                crate::laws::law_method_offered_iff_name_holds_filter(filter@, m);
            }
        }
        out
    }

    /// The request under the cursor.
    pub fn current_request(&self) -> (r: Option<&Request>)
        ensures
            match self.current() {
                Some(q) => r matches Some(x) && *x == q,
                None => r is None,
            },
    {
        if self.selected < self.store.requests.len() {
            Some(&self.store.requests[self.selected])
        } else {
            None
        }
    }

    /// The request under the cursor, to be changed in place.
    pub fn current_request_mut(&mut self) -> (r: Option<&mut Request>)
        ensures
            match old(self).current() {
                Some(q) => r matches Some(x) && *x == q && *final(self) == (App {
                    store: RequestStore {
                        requests: final(self).store.requests,
                        ..old(self).store
                    },
                    ..*old(self)
                }) && final(self).store.requests@ == old(self).store.requests@.update(
                    old(self).selected as int,
                    *final(x),
                ),
                None => r is None && *final(self) == *old(self),
            },
    {
        if self.selected < self.store.requests.len() {
            Some(&mut self.store.requests[self.selected])
        } else {
            None
        }
    }

    /// The variables of the active environment, none where no environment is
    /// active.
    pub fn active_env_vars(&self) -> (r: Vec<EnvVariable>)
        ensures
            match self.active_env() {
                Some(e) => r@ == e.variables@,
                None => r@.len() == 0,
            },
    {
        match self.store.active_environment {
            Some(i) => {
                if i < self.store.environments.len() {
                    let v = self.store.environments[i].variables.clone();
                    assert(v@ =~= self.store.environments@[i as int].variables@);
                    v
                } else {
                    Vec::new()
                }
            },
            None => Vec::new(),
        }
    }

    /// The name of the active environment, `(none)` where none is active.
    pub fn active_env_name(&self) -> (r: &str)
        ensures
            match self.active_env() {
                Some(e) => r@ == e.name@,
                None => r@ == "(none)"@,
            },
    {
        match self.store.active_environment {
            Some(i) => {
                if i < self.store.environments.len() {
                    self.store.environments[i].name.as_str()
                } else {
                    "(none)"
                }
            },
            None => "(none)",
        }
    }

    /// The suggestions for the header being edited: header names while its
    /// name is edited, the common values for its name while its value is.
    pub fn current_suggestions(&self, editing_value: bool, index: usize) -> (r: Vec<&'static str>)
        ensures
            str_views(r@) == self.suggestions(editing_value, index as int),
    {
        if !editing_value {
            let names: &[&'static str] = &COMMON_HEADER_NAMES;
            assert(names@ == COMMON_HEADER_NAMES@);
            let r = filter_suggestions(names, self.input.as_str());
            assert(str_views(r@) == str_views(COMMON_HEADER_NAMES@).filter(keeps(self.input@)));
            r
        } else {
            proof {
                reveal_strlit("");
                assert(crate::text::lower(""@) =~= Seq::<char>::empty());
            }
            let values = if self.selected < self.store.requests.len() && index
                < self.store.requests[self.selected].headers.len() {
                let v = common_values_for(self.store.requests[self.selected].headers[index].name.as_str());
                assert(self.header_name_at(index as int) == self.store.requests@[self.selected as int].headers@[index as int].name@);
                assert(str_views(v@) == common_values(
                    crate::text::lower(self.header_name_at(index as int)),
                ));
                v
            } else {
                let v = common_values_for("");
                assert(self.header_name_at(index as int) == Seq::<char>::empty());
                assert(crate::text::lower(Seq::<char>::empty()) =~= Seq::<char>::empty());
                assert(str_views(v@) == common_values(
                    crate::text::lower(self.header_name_at(index as int)),
                ));
                v
            };
            assert(str_views(values@) == common_values(
                crate::text::lower(self.header_name_at(index as int)),
            ));
            let r = filter_suggestions(values, self.input.as_str());
            assert(str_views(r@) == str_views(values@).filter(keeps(self.input@)));
            r
        }
    }
}

/// The id that follows the highest id among the requests (1 where there are
/// none), wrapping past the largest `u64`.
pub open spec fn next_id_after(reqs: Seq<Request>) -> u64 {
    if max_id(reqs) < u64::MAX {
        (max_id(reqs) + 1) as u64
    } else {
        0
    }
}

/// The highest id among the requests, 0 where there are none.
pub open spec fn max_id(reqs: Seq<Request>) -> nat
    decreases reqs.len(),
{
    if reqs.len() == 0 {
        0
    } else {
        let m = max_id(reqs.drop_last());
        if reqs.last().id > m {
            reqs.last().id as nat
        } else {
            m
        }
    }
}

/// The id that follows the highest id among the requests.
pub fn next_free_id(reqs: &Vec<Request>) -> (r: u64)
    ensures
        r == next_id_after(reqs@),
{
    let mut m: u64 = 0;
    let mut i: usize = 0;
    while i < reqs.len()
        invariant
            i <= reqs@.len(),
            m == max_id(reqs@.take(i as int)),
        decreases reqs@.len() - i,
    {
        assert(reqs@.take(i + 1).drop_last() =~= reqs@.take(i as int));
        if reqs[i].id > m {
            m = reqs[i].id;
        }
        i += 1;
    }
    assert(reqs@.take(reqs@.len() as int) =~= reqs@);
    m.wrapping_add(1)
}

} // verus!
