use vstd::prelude::*;
use crate::app::{methods_for, method_matches, next_id_after, max_id, ring, App, Mode};
use crate::headers::{common_values, suggestion_matches};
use crate::keys::{body_editor_step, editor_key_fits, inline_step, Key, KeyCode, Effect};
use crate::text::{before_byte, from_byte, lemma_boundary_at_join, lemma_encode_concat, lemma_split_at_boundary, on_boundary};
use vstd::utf8::{encode_utf8, encode_utf8_decode_utf8};
use crate::model::{all_methods, area_down, area_left, area_right, area_up, method_name, method_named, HttpMethod, Request, UiArea};
use crate::text::{lower, upper, trim, trim_start, trim_end, has_substring, occurs_at, popped, views};

verus! {

/// Every suggestion matches the empty input: filtering by it keeps the list
/// as it is.
pub proof fn law_filter_empty_input_keeps_all(s: Seq<&str>)
    ensures
        s.filter(|x: &str| suggestion_matches(x, Seq::empty())) == s,
    decreases s.len(),
{
    reveal(Seq::filter);
    if s.len() > 0 {
        law_filter_empty_input_keeps_all(s.drop_last());
        let e: Seq<char> = Seq::empty();
        assert(lower(e) =~= e);
        assert(lower(s.last()@).subrange(0, 0) =~= e);
        assert(occurs_at(lower(s.last()@), lower(e), 0));
        assert(s.drop_last().push(s.last()) =~= s);
    }
}

/// Filtering does not depend on the case of the input's ASCII letters.
pub proof fn law_filter_ignores_case(s: Seq<&str>, x: Seq<char>, y: Seq<char>)
    requires
        lower(x) == lower(y),
    ensures
        s.filter(|v: &str| suggestion_matches(v, x)) == s.filter(|v: &str| suggestion_matches(v, y)),
{
    assert((|v: &str| suggestion_matches(v, x)) =~= (|v: &str| suggestion_matches(v, y)));
}

/// The common values of a header do not depend on the case of the ASCII
/// letters of its name.
pub proof fn law_common_values_ignore_case(x: Seq<char>, y: Seq<char>)
    requires
        lower(x) == lower(y),
    ensures
        common_values(lower(x)) == common_values(lower(y)),
{
}

/// The empty filter offers every method, in order.
pub proof fn law_empty_filter_offers_all_methods()
    ensures
        methods_for(Seq::empty()) == all_methods(),
{
    let e: Seq<char> = Seq::empty();
    assert(upper(e) =~= e);
    let pred = |m: HttpMethod| method_matches(m, e);
    assert forall|i: int| 0 <= i <= 7 implies #[trigger] all_methods().take(i).filter(pred)
        == all_methods().take(i) by {
        lemma_filter_all_true(all_methods().take(i), pred);
    }
    assert(all_methods().take(7) =~= all_methods());
}

proof fn lemma_filter_all_true(s: Seq<HttpMethod>, pred: spec_fn(HttpMethod) -> bool)
    requires
        forall|m: HttpMethod| #[trigger] pred(m),
    ensures
        s.filter(pred) == s,
    decreases s.len(),
{
    reveal(Seq::filter);
    if s.len() > 0 {
        lemma_filter_all_true(s.drop_last(), pred);
        assert(s.drop_last().push(s.last()) =~= s);
    }
}

proof fn lemma_trim_plain(s: Seq<char>)
    requires
        forall|i: int| 0 <= i < s.len() ==> 'A' <= #[trigger] s[i] <= 'Z',
    ensures
        trim(s) == s,
        upper(s) == s,
        upper(lower(s)) == s,
{
    if s.len() > 0 {
        assert(!crate::text::is_white_space(s[0]));
        assert(!crate::text::is_white_space(s.last()));
    }
    assert(trim_start(s) == s);
    assert(trim_end(s) == s);
    assert(upper(s) =~= s);
    assert(upper(lower(s)) =~= s);
}

/// Parsing the name of a method, written in capital or in small letters,
/// gives the method back.
pub proof fn law_parse_method_name(m: HttpMethod)
    ensures
        method_named(upper(trim(method_name(m)))) == Some(m),
        method_named(upper(trim(lower(method_name(m))))) == Some(m),
{
    reveal_strlit("GET");
    reveal_strlit("POST");
    reveal_strlit("PUT");
    reveal_strlit("PATCH");
    reveal_strlit("DELETE");
    reveal_strlit("HEAD");
    reveal_strlit("OPTIONS");
    let n = method_name(m);
    lemma_trim_plain(n);
    let l = lower(n);
    assert(forall|i: int| 0 <= i < l.len() ==> !crate::text::is_white_space(#[trigger] l[i]));
    if l.len() > 0 {
        assert(!crate::text::is_white_space(l[0]));
        assert(!crate::text::is_white_space(l.last()));
    }
    assert(trim_start(l) == l);
    assert(trim_end(l) == l);
}

/// One step forward and one step back round a list come back to the start,
/// and so do one step back and one forward.
pub proof fn law_ring_steps_undo(p: int, n: int)
    requires
        0 <= p < n,
    ensures
        ring(ring(p, 1, n), -1, n) == p,
        ring(ring(p, -1, n), 1, n) == p,
{
    vstd::arithmetic::div_mod::lemma_small_mod(p as nat, n as nat);
    if p + 1 < n {
        vstd::arithmetic::div_mod::lemma_small_mod((p + 1) as nat, n as nat);
    } else {
        vstd::arithmetic::div_mod::lemma_mod_self_0(n);
        vstd::arithmetic::div_mod::lemma_mod_add_multiples_vanish(-1, n);
        vstd::arithmetic::div_mod::lemma_small_mod((n - 1) as nat, n as nat);
    }
    if p > 0 {
        vstd::arithmetic::div_mod::lemma_small_mod((p - 1) as nat, n as nat);
    } else {
        vstd::arithmetic::div_mod::lemma_mod_add_multiples_vanish(-1, n);
        vstd::arithmetic::div_mod::lemma_small_mod((n - 1) as nat, n as nat);
        vstd::arithmetic::div_mod::lemma_mod_self_0(n);
    }
}

/// Moving in the layout twice the same way goes no further than once.
pub proof fn law_area_moves_settle(a: UiArea)
    ensures
        area_up(area_up(a)) == area_up(a),
        area_down(area_down(a)) == area_down(a),
        area_left(area_left(a)) == area_left(a),
        area_right(area_right(a)) == area_right(a),
{
}

/// Every request loaded has an id below the one that new requests start
/// from, unless the ids reach the largest `u64`.
pub proof fn law_new_ids_are_fresh(reqs: Seq<Request>)
    requires
        max_id(reqs) < u64::MAX,
    ensures
        forall|i: int| 0 <= i < reqs.len() ==> #[trigger] reqs[i].id < next_id_after(reqs),
    decreases reqs.len(),
{
    if reqs.len() > 0 {
        let m = max_id(reqs.drop_last());
        assert(m <= max_id(reqs));
        law_new_ids_are_fresh(reqs.drop_last());
        assert forall|i: int| 0 <= i < reqs.len() implies #[trigger] reqs[i].id < next_id_after(reqs) by {
            if i < reqs.len() - 1 {
                assert(reqs[i] == reqs.drop_last()[i]);
                assert(reqs.drop_last()[i].id < next_id_after(reqs.drop_last()));
            }
        }
    }
}

/// In the body editor, Backspace takes back the character just typed: a
/// character typed at a character boundary leaves one just before the
/// cursor, so the Backspace that follows can always be handled.
pub proof fn law_backspace_undoes_typing(a: App, c: char, b: App, e1: Effect, d: App, e2: Effect)
    requires
        a.wf(),
        a.mode is BodyEditor,
        editor_key_fits(a, Key { code: KeyCode::Char(c), ctrl: false }),
        body_editor_step(a, Key { code: KeyCode::Char(c), ctrl: false }, b, e1),
        body_editor_step(b, Key { code: KeyCode::Backspace, ctrl: false }, d, e2),
    ensures
        editor_key_fits(b, Key { code: KeyCode::Backspace, ctrl: false }),
        d == (App { mode: d.mode, ..a }),
        a.mode matches Mode::BodyEditor { lines: l1, cursor_row: r1, cursor_col: c1 } && d.mode matches Mode::BodyEditor { lines: l2, cursor_row: r2, cursor_col: c2 } && views(l1@) == views(l2@) && r1 == r2 && c1 == c2,
{
    if let Mode::BodyEditor { lines, cursor_row, cursor_col } = a.mode {
        let ls = views(lines@);
        let row = cursor_row as int;
        let col = cursor_col as int;
        let line = ls[row];
        assert(lines@[row]@ == line);
        let before = before_byte(line, col);
        let after = from_byte(line, col);
        lemma_split_at_boundary(line, col);
        let rest = seq![c] + after;
        let typed = before.push(c) + after;
        assert(typed =~= before + rest);
        lemma_encode_concat(before, rest);
        lemma_boundary_at_join(before, rest);
        assert(encode_utf8(before).len() == col);
        lemma_split_at_boundary(typed, col);
        assert(encode_utf8(typed).take(col) =~= encode_utf8(before));
        assert(encode_utf8(typed).skip(col) =~= encode_utf8(rest));
        encode_utf8_decode_utf8(before);
        encode_utf8_decode_utf8(rest);
        assert(before_byte(typed, col) == before);
        assert(from_byte(typed, col) == rest);
        assert(rest.drop_first() =~= after);
        assert(ls.update(row, typed).update(row, line) =~= ls);
        if let Mode::BodyEditor { lines: bl, cursor_row: br, cursor_col: bc } = b.mode {
            assert(views(bl@) == ls.update(row, typed));
            assert(bl@[br as int]@ == typed);
            assert(bc == col + 1);
            if let Mode::BodyEditor { lines: dl, cursor_row: dr, cursor_col: dc } = d.mode {
                assert(views(dl@) == views(bl@).update(br as int, before + after));
                assert(views(dl@) =~= ls);
            }
        }
    }
}

/// In the body editor, Backspace at the start of a line takes back the line
/// break just made with Enter.
pub proof fn law_backspace_undoes_enter(a: App, b: App, e1: Effect, d: App, e2: Effect)
    requires
        a.wf(),
        a.mode is BodyEditor,
        editor_key_fits(a, Key { code: KeyCode::Enter, ctrl: false }),
        body_editor_step(a, Key { code: KeyCode::Enter, ctrl: false }, b, e1),
        body_editor_step(b, Key { code: KeyCode::Backspace, ctrl: false }, d, e2),
    ensures
        editor_key_fits(b, Key { code: KeyCode::Backspace, ctrl: false }),
        d == (App { mode: d.mode, ..a }),
        a.mode matches Mode::BodyEditor { lines: l1, cursor_row: r1, cursor_col: c1 } && d.mode matches Mode::BodyEditor { lines: l2, cursor_row: r2, cursor_col: c2 } && views(l1@) == views(l2@) && r1 == r2 && c1 == c2,
{
    if let Mode::BodyEditor { lines, cursor_row, cursor_col } = a.mode {
        let ls = views(lines@);
        let row = cursor_row as int;
        let col = cursor_col as int;
        let line = ls[row];
        assert(lines@[row]@ == line);
        let before = before_byte(line, col);
        let after = from_byte(line, col);
        lemma_split_at_boundary(line, col);
        assert(encode_utf8(before).len() == col);
        let split = ls.update(row, before).insert(row + 1, after);
        assert(split.remove(row + 1).update(row, split[row] + split[row + 1]) =~= ls);
        if let Mode::BodyEditor { lines: bl, cursor_row: br, cursor_col: bc } = b.mode {
            assert(views(bl@) == split);
            assert(br == row + 1 && bc == 0);
            assert(views(bl@)[br as int] == split[row + 1]);
            assert(views(bl@)[br - 1] == split[row]);
            if let Mode::BodyEditor { lines: dl, cursor_row: dr, cursor_col: dc } = d.mode {
                assert(views(dl@) =~= ls);
                assert(dc == col);
            }
        }
    }
}

/// Opening the body editor on a request and leaving it with Esc keeps the
/// body, where the body holds no carriage return and does not end with a
/// line feed (the editor works on its lines, which drop those).
pub proof fn law_body_editor_keeps_body(a: App, b: App, d: App, e: Effect)
    requires
        a.current() is Some,
        crate::app::field_at(a.field_index as int) == crate::app::EditField::Body,
        crate::keys::start_edit_step(a, b),
        body_editor_step(b, Key { code: KeyCode::Esc, ctrl: false }, d, e),
        !a.store.requests@[a.selected as int].body@.contains('\r'),
        a.store.requests@[a.selected as int].body@.len() == 0
            || a.store.requests@[a.selected as int].body@.last() != '\n',
    ensures
        d.mode is Normal,
        d.store.requests@.len() == a.store.requests@.len(),
        forall|i: int|
            0 <= i < a.store.requests@.len() && i != a.selected ==> #[trigger] d.store.requests@[i]
                == a.store.requests@[i],
        d.store.requests@[a.selected as int] == (Request {
            body: d.store.requests@[a.selected as int].body,
            ..a.store.requests@[a.selected as int]
        }),
        d.store.requests@[a.selected as int].body@ == a.store.requests@[a.selected as int].body@,
{
    let body = a.store.requests@[a.selected as int].body@;
    reveal_strlit("\n");
    if body.len() == 0 {
        assert(crate::text::join(seq![Seq::<char>::empty()], "\n"@) == Seq::<char>::empty());
    } else {
        crate::text::lemma_join_lines(body);
    }
    assert(b.current() == a.current());
}

/// While the name or URL is edited, Backspace takes back the character just
/// typed.
pub proof fn law_input_backspace_undoes_typing(a: App, f: crate::app::EditField, c: char, b: App, e1: Effect, d: App, e2: Effect)
    requires
        inline_step(a, f, Key { code: KeyCode::Char(c), ctrl: false }, b, e1),
        inline_step(b, f, Key { code: KeyCode::Backspace, ctrl: false }, d, e2),
    ensures
        d == (App { input: d.input, ..a }),
        d.input@ == a.input@,
{
    assert(popped(a.input@.push(c)) =~= a.input@);
}

} // verus!

verus! {

use crate::sync::{
    ends_with, has_remote_ref_error, ran, rev_count, runs_git, succeeded, sync_next, Reply, Stage,
    Step, SyncOp, SyncRun, SyncStatus, SyncTask,
};

/// A push from a fresh clone, whose fetch finds the remote branch with
/// commits, stops at a conflict instead of overwriting either side.
pub proof fn law_fresh_clone_meeting_history_conflicts(
    m0: SyncRun,
    r0: Reply,
    m1: SyncRun,
    s1: Step,
    r1: Reply,
    m2: SyncRun,
    s2: Step,
)
    requires
        m0.task == SyncTask::Push,
        m0.stage == Stage::Fetched,
        !m0.repo_existed,
        succeeded(r0),
        sync_next(m0, r0, m1, s1),
        rev_count(r1) > 0,
        sync_next(m1, r1, m2, s2),
    ensures
        ends_with(s2, SyncStatus::Conflict),
{
}

/// A push where the local and the remote branch each have commits of their
/// own stops at a conflict.
pub proof fn law_diverged_push_conflicts(
    m0: SyncRun,
    r0: Reply,
    m1: SyncRun,
    s1: Step,
    r1: Reply,
    m2: SyncRun,
    s2: Step,
    r2: Reply,
    m3: SyncRun,
    s3: Step,
)
    requires
        m0.task == SyncTask::Push,
        m0.stage == Stage::Fetched,
        m0.repo_existed,
        succeeded(r0),
        sync_next(m0, r0, m1, s1),
        rev_count(r1) > 0,
        sync_next(m1, r1, m2, s2),
        rev_count(r2) > 0,
        sync_next(m2, r2, m3, s3),
    ensures
        ends_with(s3, SyncStatus::Conflict),
{
}

/// A push where only the remote branch is ahead takes the remote version:
/// it resets to the remote branch, copies the store out of the clone and
/// reports success.
pub proof fn law_remote_ahead_push_pulls(
    m0: SyncRun,
    r0: Reply,
    m1: SyncRun,
    s1: Step,
    r1: Reply,
    m2: SyncRun,
    s2: Step,
    r2: Reply,
    m3: SyncRun,
    s3: Step,
    r3: Reply,
    m4: SyncRun,
    s4: Step,
    r4: Reply,
    m5: SyncRun,
    s5: Step,
)
    requires
        m0.task == SyncTask::Push,
        m0.stage == Stage::Fetched,
        m0.repo_existed,
        succeeded(r0),
        sync_next(m0, r0, m1, s1),
        rev_count(r1) == 0,
        sync_next(m1, r1, m2, s2),
        rev_count(r2) > 0,
        sync_next(m2, r2, m3, s3),
        succeeded(r3),
        sync_next(m3, r3, m4, s4),
        sync_next(m4, r4, m5, s5),
    ensures
        runs_git(s3, seq!["reset"@, "--hard"@, "origin/"@ + m0.branch@], true),
        s4 matches Step::Do(SyncOp::CopyFromRepo),
        ends_with(s5, SyncStatus::Synced),
{
}

/// A push where the remote branch is not ahead goes on to copy the store
/// into the clone, commit it and push it.
pub proof fn law_push_without_remote_news_sends(
    m0: SyncRun,
    r0: Reply,
    m1: SyncRun,
    s1: Step,
    r1: Reply,
    m2: SyncRun,
    s2: Step,
    r2: Reply,
    m3: SyncRun,
    s3: Step,
)
    requires
        m0.task == SyncTask::Push,
        m0.stage == Stage::Fetched,
        m0.repo_existed,
        succeeded(r0),
        sync_next(m0, r0, m1, s1),
        sync_next(m1, r1, m2, s2),
        rev_count(r2) == 0,
        sync_next(m2, r2, m3, s3),
    ensures
        s3 matches Step::Do(SyncOp::CopyToRepo),
{
}

/// A push that finds the clone even with the remote, and the store as the
/// clone already holds it, makes no commit: it checks the status, fetches,
/// rebases and pushes, and reports success when those work, so pushing
/// twice in a row changes nothing the second time.
pub proof fn law_push_in_sync_commits_nothing(
    m0: SyncRun,
    r0: Reply,
    m1: SyncRun,
    s1: Step,
    r1: Reply,
    m2: SyncRun,
    s2: Step,
    r2: Reply,
    m3: SyncRun,
    s3: Step,
    r3: Reply,
    m4: SyncRun,
    s4: Step,
    r4: Reply,
    m5: SyncRun,
    s5: Step,
)
    requires
        m0.task == SyncTask::Push,
        m0.stage == Stage::CopiedToRepo,
        sync_next(m0, r0, m1, s1),
        ran(r1) matches Some(o) && o.stdout@.len() == 0,
        sync_next(m1, r1, m2, s2),
        succeeded(r2),
        sync_next(m2, r2, m3, s3),
        succeeded(r3),
        sync_next(m3, r3, m4, s4),
        succeeded(r4),
        sync_next(m4, r4, m5, s5),
    ensures
        runs_git(s1, seq!["status"@, "--porcelain"@], true),
        runs_git(s2, seq!["fetch"@, "origin"@, m0.branch@], true),
        runs_git(s3, seq!["rebase"@, "origin/"@ + m0.branch@], true),
        runs_git(s4, seq!["push"@, "origin"@, m0.branch@], true),
        ends_with(s5, SyncStatus::Synced),
{
}

/// A push to a remote without the branch yet puts the clone on a local
/// branch of that name (whatever git's default branch is), commits
/// everything and pushes the branch upstream, and reports success when that
/// push works.
pub proof fn law_push_to_empty_remote_bootstraps(
    m0: SyncRun,
    r0: Reply,
    m1: SyncRun,
    s1: Step,
    r1: Reply,
    m2: SyncRun,
    s2: Step,
    r2: Reply,
    m3: SyncRun,
    s3: Step,
    r3: Reply,
    m4: SyncRun,
    s4: Step,
    r4: Reply,
    m5: SyncRun,
    s5: Step,
)
    requires
        m0.task == SyncTask::Push,
        m0.stage == Stage::SyncFetched,
        !succeeded(r0),
        has_remote_ref_error(r0),
        sync_next(m0, r0, m1, s1),
        sync_next(m1, r1, m2, s2),
        sync_next(m2, r2, m3, s3),
        sync_next(m3, r3, m4, s4),
        succeeded(r4),
        sync_next(m4, r4, m5, s5),
    ensures
        runs_git(s1, seq!["checkout"@, "-B"@, m0.branch@], true),
        runs_git(s2, seq!["add"@, "."@], true),
        runs_git(s3, seq!["commit"@, "-m"@, "curlish: initial sync"@], true),
        runs_git(s4, seq!["push"@, "-u"@, "origin"@, m0.branch@], true),
        ends_with(s5, SyncStatus::Synced),
{
}

} // verus!

verus! {

use crate::model::{header_from_pair, header_pairs, header_text, headers_from_pairs, headers_text, parsed_headers, HeaderEntry};
use crate::text::{first_index, is_white_space, join, split, split_from};

/// A header that reads back as itself once written on a line: a name that is
/// not empty, neither starts nor ends with white space, and holds no `:` or
/// `;`; a value that neither starts nor ends with white space and holds no `;`.
pub open spec fn plain_header(h: HeaderEntry) -> bool {
    let n = h.name@;
    let v = h.value@;
    &&& n.len() > 0
    &&& !is_white_space(n[0])
    &&& !is_white_space(n.last())
    &&& forall|i: int| 0 <= i < n.len() ==> #[trigger] n[i] != ':' && n[i] != ';'
    &&& v.len() > 0 ==> !is_white_space(v[0]) && !is_white_space(v.last())
    &&& forall|i: int| 0 <= i < v.len() ==> #[trigger] v[i] != ';'
}

proof fn lemma_split_concat(x: Seq<char>, y: Seq<char>, sep: char, cur: Seq<char>)
    ensures
        split_from(x + seq![sep] + y, sep, cur) == split_from(x, sep, cur) + split_from(y, sep, Seq::empty()),
    decreases x.len(),
{
    let whole = x + seq![sep] + y;
    if x.len() == 0 {
        assert(whole =~= seq![sep] + y);
        assert(whole.drop_first() =~= y);
    } else {
        assert(whole.drop_first() =~= x.drop_first() + seq![sep] + y);
        assert(whole[0] == x[0]);
        if x[0] == sep {
            lemma_split_concat(x.drop_first(), y, sep, Seq::empty());
            assert(seq![cur] + (split_from(x.drop_first(), sep, Seq::empty()) + split_from(y, sep, Seq::empty()))
                =~= (seq![cur] + split_from(x.drop_first(), sep, Seq::empty())) + split_from(y, sep, Seq::empty()));
        } else {
            lemma_split_concat(x.drop_first(), y, sep, cur.push(x[0]));
        }
    }
}

proof fn lemma_split_plain(x: Seq<char>, sep: char, cur: Seq<char>)
    requires
        forall|i: int| 0 <= i < x.len() ==> #[trigger] x[i] != sep,
    ensures
        split_from(x, sep, cur) == seq![cur + x],
    decreases x.len(),
{
    if x.len() == 0 {
        assert(cur + x =~= cur);
    } else {
        assert(x[0] != sep);
        assert forall|i: int| 0 <= i < x.drop_first().len() implies #[trigger] x.drop_first()[i] != sep by {
            assert(x.drop_first()[i] == x[i + 1]);
        }
        lemma_split_plain(x.drop_first(), sep, cur.push(x[0]));
        assert(cur.push(x[0]) + x.drop_first() =~= cur + x);
    }
}

/// The pieces that splitting the header line at `;` gives: the first header's
/// text, then each other's after the space of the separator.
pub open spec fn line_pieces(texts: Seq<Seq<char>>) -> Seq<Seq<char>>
    decreases texts.len(),
{
    if texts.len() <= 1 {
        texts
    } else {
        line_pieces(texts.drop_last()).push(" "@ + texts.last())
    }
}

proof fn lemma_split_join(texts: Seq<Seq<char>>)
    requires
        texts.len() > 0,
        forall|k: int, i: int| 0 <= k < texts.len() && 0 <= i < texts[k].len() ==> #[trigger] texts[k][i] != ';',
    ensures
        split(join(texts, "; "@), ';') == line_pieces(texts),
    decreases texts.len(),
{
    reveal_strlit("; ");
    reveal_strlit(" ");
    if texts.len() == 1 {
        lemma_split_plain(texts[0], ';', Seq::empty());
        assert(Seq::<char>::empty() + texts[0] =~= texts[0]);
    } else {
        let init = texts.drop_last();
        assert forall|k: int, i: int| 0 <= k < init.len() && 0 <= i < init[k].len() implies #[trigger] init[k][i] != ';' by {
            assert(init[k] == texts[k]);
        }
        lemma_split_join(init);
        let tail = " "@ + texts.last();
        assert(join(texts, "; "@) =~= join(init, "; "@) + seq![';'] + tail);
        lemma_split_concat(join(init, "; "@), tail, ';', Seq::empty());
        assert forall|i: int| 0 <= i < tail.len() implies #[trigger] tail[i] != ';' by {
            if i > 0 {
                assert(tail[i] == texts.last()[i - 1]);
            }
        }
        lemma_split_plain(tail, ';', Seq::empty());
        assert(Seq::<char>::empty() + tail =~= tail);
    }
}

proof fn lemma_header_piece(h: HeaderEntry, lead: bool)
    requires
        plain_header(h),
    ensures
        header_from_pair(if lead { " "@ + header_text(h) } else { header_text(h) }) == Some((h.name@, h.value@)),
{
    reveal_strlit(" ");
    reveal_strlit(": ");
    let n = h.name@;
    let v = h.value@;
    let text = header_text(h);
    let p = if lead { " "@ + text } else { text };
    assert(text =~= n + seq![':', ' '] + v);
    assert(text[0] == n[0]);
    if lead {
        assert(p[0] == ' ');
        assert(p.drop_first() =~= text);
    }
    assert(trim_start(text) == text);
    assert(trim_start(p) == text);
    let t = if v.len() > 0 { text } else { n + seq![':'] };
    if v.len() > 0 {
        assert(text.last() == v.last());
        assert(trim_end(text) == text);
    } else {
        assert(text.last() == ' ');
        assert(text.drop_last() =~= n + seq![':']);
        assert((n + seq![':']).last() == ':');
        assert(trim_end(n + seq![':']) == n + seq![':']);
        assert(trim_end(text) == n + seq![':']);
    }
    assert(trim(p) == t);
    assert forall|k: int| 0 <= k < n.len() implies #[trigger] t[k] != ':' by {
        assert(t[k] == n[k]);
    }
    assert(t[n.len() as int] == ':');
    crate::text::lemma_first_index_at(t, ':', n.len() as int);
    assert(t.take(n.len() as int) =~= n);
    assert(trim_start(n) == n);
    assert(trim_end(n) == n);
    if v.len() > 0 {
        let rest = t.skip(n.len() as int + 1);
        assert(rest =~= " "@ + v);
        assert(rest.drop_first() =~= v);
        assert(trim_start(rest) == trim_start(v));
        assert(trim_start(v) == v);
        assert(trim_end(v) == v);
    } else {
        assert(t.len() == n.len() + 1);
    }
}

proof fn lemma_headers_from_pieces(hs: Seq<HeaderEntry>)
    requires
        hs.len() > 0,
        forall|k: int| 0 <= k < hs.len() ==> plain_header(#[trigger] hs[k]),
    ensures
        headers_from_pairs(line_pieces(hs.map_values(|h: HeaderEntry| header_text(h)))) == header_pairs(hs),
    decreases hs.len(),
{
    let texts = hs.map_values(|h: HeaderEntry| header_text(h));
    if hs.len() == 1 {
        lemma_header_piece(hs[0], false);
        assert(line_pieces(texts) == texts);
        assert(texts.drop_last() =~= Seq::<Seq<char>>::empty());
        assert(texts.last() == header_text(hs[0]));
        assert(headers_from_pairs(texts.drop_last()) =~= Seq::<(Seq<char>, Seq<char>)>::empty());
        assert(headers_from_pairs(texts) =~= seq![(hs[0].name@, hs[0].value@)]);
        assert(header_pairs(hs) =~= seq![(hs[0].name@, hs[0].value@)]);
    } else {
        let init = hs.drop_last();
        lemma_headers_from_pieces(init);
        assert(init.map_values(|h: HeaderEntry| header_text(h)) =~= texts.drop_last());
        lemma_header_piece(hs.last(), true);
        let z = line_pieces(texts);
        assert(z == line_pieces(texts.drop_last()).push(" "@ + texts.last()));
        assert(z.drop_last() =~= line_pieces(texts.drop_last()));
        assert(z.last() == " "@ + header_text(hs.last()));
        assert(headers_from_pairs(z) == headers_from_pairs(z.drop_last()).push((hs.last().name@, hs.last().value@)));
        assert(header_pairs(hs) =~= header_pairs(init).push((hs.last().name@, hs.last().value@)));
    }
}

/// Reading back the line that the details pane shows for a list of plain
/// headers gives the same names and values.
pub proof fn law_parse_reads_back_format(hs: Seq<HeaderEntry>)
    requires
        hs.len() > 0,
        forall|k: int| 0 <= k < hs.len() ==> plain_header(#[trigger] hs[k]),
    ensures
        parsed_headers(headers_text(hs)) == header_pairs(hs),
{
    reveal_strlit(": ");
    let texts = hs.map_values(|h: HeaderEntry| header_text(h));
    assert forall|k: int, i: int| 0 <= k < texts.len() && 0 <= i < texts[k].len() implies #[trigger] texts[k][i] != ';' by {
        let h = hs[k];
        assert(texts[k] =~= h.name@ + seq![':', ' '] + h.value@);
        if i < h.name@.len() {
            assert(texts[k][i] == h.name@[i]);
        } else if i >= h.name@.len() + 2 {
            assert(texts[k][i] == h.value@[i - h.name@.len() - 2]);
        }
    }
    lemma_split_join(texts);
    lemma_headers_from_pieces(hs);
}

} // verus!

verus! {

use crate::model::{placeholder, resolved, EnvVariable};
use crate::text::replace_all;

proof fn lemma_replace_absent(s: Seq<char>, pat: Seq<char>, rep: Seq<char>)
    requires
        forall|i: int| !#[trigger] occurs_at(s, pat, i),
    ensures
        replace_all(s, pat, rep) == s,
    decreases s.len(),
{
    if pat.len() > 0 && s.len() >= pat.len() {
        assert(!occurs_at(s, pat, 0));
        assert(s.subrange(0, pat.len() as int) =~= s.take(pat.len() as int));
        let rest = s.drop_first();
        assert forall|i: int| !#[trigger] occurs_at(rest, pat, i) by {
            if occurs_at(rest, pat, i) {
                assert(s.subrange(i + 1, i + 1 + pat.len()) =~= rest.subrange(i, i + pat.len()));
                assert(occurs_at(s, pat, i + 1));
            }
        }
        lemma_replace_absent(rest, pat, rep);
        assert(seq![s[0]] + rest =~= s);
    }
}

/// A text in which no `{{` stands is left as it is by any variables: a
/// request written without placeholders is sent as written.
pub proof fn law_text_without_placeholders_is_kept(s: Seq<char>, vars: Seq<EnvVariable>)
    requires
        !has_substring(s, "{{"@),
    ensures
        resolved(s, vars) == s,
    decreases vars.len(),
{
    reveal_strlit("{{");
    if vars.len() > 0 {
        law_text_without_placeholders_is_kept(s, vars.drop_last());
        let pat = placeholder(vars.last().key@);
        assert forall|i: int| !#[trigger] occurs_at(s, pat, i) by {
            if occurs_at(s, pat, i) {
                assert(s.subrange(i, i + 2) =~= pat.subrange(0, 2));
                assert(pat.subrange(0, 2) =~= "{{"@);
                assert(occurs_at(s, "{{"@, i));
            }
        }
        lemma_replace_absent(s, pat, vars.last().value@);
    }
}

} // verus!

verus! {

use vstd::utf8::{
    is_ascii_chars, is_ascii_chars_concat, is_ascii_chars_encode_utf8, is_char_boundary_iff_not_is_continuation_byte,
    is_char_boundary_start_end_of_seq, encode_utf8_valid_utf8,
};

/// Every line of the body editor holds only ASCII characters.
pub open spec fn ascii_lines(ls: Seq<Seq<char>>) -> bool {
    forall|k: int| 0 <= k < ls.len() ==> is_ascii_chars(#[trigger] ls[k])
}

proof fn lemma_ascii_boundary(s: Seq<char>, i: int)
    requires
        is_ascii_chars(s),
        0 <= i <= s.len(),
    ensures
        on_boundary(s, i),
{
    is_ascii_chars_encode_utf8(s);
    encode_utf8_valid_utf8(s);
    let b = encode_utf8(s);
    if i == s.len() {
        is_char_boundary_start_end_of_seq(b);
    } else {
        assert(s[i] as u8 == b[i]);
        assert((s[i] as u32) < 128);
        is_char_boundary_iff_not_is_continuation_byte(b, i);
    }
}

proof fn lemma_ascii_split(s: Seq<char>, col: int)
    requires
        is_ascii_chars(s),
        on_boundary(s, col),
    ensures
        is_ascii_chars(before_byte(s, col)),
        is_ascii_chars(from_byte(s, col)),
{
    lemma_split_at_boundary(s, col);
    is_ascii_chars_concat(s, before_byte(s, col), from_byte(s, col));
}

/// In the body editor, a line of ASCII text takes every key: each of its
/// byte positions is a character boundary, so typing, Enter and Backspace
/// never cut a character in two.
pub proof fn law_ascii_line_takes_every_key(a: App, key: Key)
    requires
        a.wf(),
        a.mode matches Mode::BodyEditor { lines, cursor_row, cursor_col } && is_ascii_chars(
            lines@[cursor_row as int]@,
        ),
    ensures
        editor_key_fits(a, key),
{
    if let Mode::BodyEditor { lines, cursor_row, cursor_col } = a.mode {
        let line = lines@[cursor_row as int]@;
        is_ascii_chars_encode_utf8(line);
        lemma_ascii_boundary(line, cursor_col as int);
        if cursor_col > 0 {
            lemma_ascii_boundary(line, cursor_col - 1);
        }
    }
}

/// In the body editor, ASCII text stays ASCII under every key but the
/// JSON prettifier (which may unescape characters), as long as the keys
/// typed are ASCII.
pub proof fn law_ascii_body_stays_ascii(a: App, key: Key, b: App, e: Effect)
    requires
        a.wf(),
        a.mode matches Mode::BodyEditor { lines, .. } && ascii_lines(views(lines@)),
        !(key.ctrl && key.code == KeyCode::Char('p')),
        key.code matches KeyCode::Char(c) ==> (c as u32) < 128,
        body_editor_step(a, key, b, e),
    ensures
        b.mode matches Mode::BodyEditor { lines, .. } ==> ascii_lines(views(lines@)),
{
    if let Mode::BodyEditor { lines, cursor_row, cursor_col } = a.mode {
        let ls = views(lines@);
        let row = cursor_row as int;
        let col = cursor_col as int;
        let line = ls[row];
        assert(is_ascii_chars(line));
        is_ascii_chars_encode_utf8(line);
        if let Mode::BodyEditor { lines: bl, .. } = b.mode {
            let nl = views(bl@);
            if !(key.ctrl && key.code == KeyCode::Char('s')) {
                match key.code {
                    KeyCode::Enter => {
                        lemma_ascii_boundary(line, col);
                        lemma_ascii_split(line, col);
                        let u = ls.update(row, before_byte(line, col));
                        assert(nl == u.insert(row + 1, from_byte(line, col)));
                        assert forall|k: int| 0 <= k < nl.len() implies is_ascii_chars(#[trigger] nl[k]) by {
                            if k <= row {
                                assert(nl[k] == u[k]);
                            } else if k > row + 1 {
                                assert(nl[k] == u[k - 1]);
                            }
                        }
                    },
                    KeyCode::Backspace => {
                        if col > 0 {
                            lemma_ascii_boundary(line, col - 1);
                            lemma_ascii_split(line, col - 1);
                            let rest = from_byte(line, col - 1);
                            lemma_split_at_boundary(line, col - 1);
                            assert(encode_utf8(line).skip(col - 1).len() > 0);
                            if rest.len() == 0 {
                                assert(encode_utf8(rest) =~= Seq::<u8>::empty());
                            }
                            assert(rest.len() > 0);
                            assert forall|i: int| 0 <= i < rest.drop_first().len() implies '\0' <= #[trigger] rest.drop_first()[i] <= '\u{7f}' by {
                                assert(rest.drop_first()[i] == rest[i + 1]);
                            }
                            let joined = before_byte(line, col - 1) + rest.drop_first();
                            is_ascii_chars_concat(joined, before_byte(line, col - 1), rest.drop_first());
                            assert(is_ascii_chars(joined));
                            assert(nl == ls.update(row, joined));
                            assert forall|k: int| 0 <= k < nl.len() implies is_ascii_chars(#[trigger] nl[k]) by {
                                if k != row {
                                    assert(nl[k] == ls[k]);
                                }
                            }
                        } else if row > 0 {
                            let prev = ls[row - 1];
                            assert(is_ascii_chars(prev));
                            is_ascii_chars_concat(prev + line, prev, line);
                            let r = ls.remove(row);
                            assert(nl == r.update(row - 1, prev + line));
                            assert forall|k: int| 0 <= k < nl.len() implies is_ascii_chars(#[trigger] nl[k]) by {
                                if k < row - 1 {
                                    assert(nl[k] == ls[k]);
                                } else if k >= row {
                                    assert(nl[k] == ls[k + 1]);
                                }
                            }
                        }
                    },
                    KeyCode::Char(c) => {
                        lemma_ascii_boundary(line, col);
                        lemma_ascii_split(line, col);
                        let typed = before_byte(line, col).push(c) + from_byte(line, col);
                        assert(is_ascii_chars(before_byte(line, col).push(c)));
                        is_ascii_chars_concat(typed, before_byte(line, col).push(c), from_byte(line, col));
                        assert(nl == ls.update(row, typed));
                        assert forall|k: int| 0 <= k < nl.len() implies is_ascii_chars(#[trigger] nl[k]) by {
                            if k != row {
                                assert(nl[k] == ls[k]);
                            }
                        }
                    },
                    _ => {},
                }
            }
        }
    }
}

} // verus!

verus! {

proof fn lemma_values_distinct_0()
    ensures
        seq!["application/json"@, "application/x-www-form-urlencoded"@, "application/xml"@, "application/octet-stream"@, "multipart/form-data"@, "text/plain"@, "text/html"@, "text/css"@, "text/xml"@].no_duplicates(),
{
    reveal_strlit("application/json");
    reveal_strlit("application/octet-stream");
    reveal_strlit("application/x-www-form-urlencoded");
    reveal_strlit("application/xml");
    reveal_strlit("multipart/form-data");
    reveal_strlit("text/css");
    reveal_strlit("text/html");
    reveal_strlit("text/plain");
    reveal_strlit("text/xml");
    let t = seq!["application/json"@, "application/x-www-form-urlencoded"@, "application/xml"@, "application/octet-stream"@, "multipart/form-data"@, "text/plain"@, "text/html"@, "text/css"@, "text/xml"@];
    assert("application/json"@.len() != "application/x-www-form-urlencoded"@.len());
    assert("application/json"@.len() != "application/xml"@.len());
    assert("application/json"@.len() != "application/octet-stream"@.len());
    assert("application/json"@.len() != "multipart/form-data"@.len());
    assert("application/json"@.len() != "text/plain"@.len());
    assert("application/json"@.len() != "text/html"@.len());
    assert("application/json"@.len() != "text/css"@.len());
    assert("application/json"@.len() != "text/xml"@.len());
    assert("application/x-www-form-urlencoded"@.len() != "application/xml"@.len());
    assert("application/x-www-form-urlencoded"@.len() != "application/octet-stream"@.len());
    assert("application/x-www-form-urlencoded"@.len() != "multipart/form-data"@.len());
    assert("application/x-www-form-urlencoded"@.len() != "text/plain"@.len());
    assert("application/x-www-form-urlencoded"@.len() != "text/html"@.len());
    assert("application/x-www-form-urlencoded"@.len() != "text/css"@.len());
    assert("application/x-www-form-urlencoded"@.len() != "text/xml"@.len());
    assert("application/xml"@.len() != "application/octet-stream"@.len());
    assert("application/xml"@.len() != "multipart/form-data"@.len());
    assert("application/xml"@.len() != "text/plain"@.len());
    assert("application/xml"@.len() != "text/html"@.len());
    assert("application/xml"@.len() != "text/css"@.len());
    assert("application/xml"@.len() != "text/xml"@.len());
    assert("application/octet-stream"@.len() != "multipart/form-data"@.len());
    assert("application/octet-stream"@.len() != "text/plain"@.len());
    assert("application/octet-stream"@.len() != "text/html"@.len());
    assert("application/octet-stream"@.len() != "text/css"@.len());
    assert("application/octet-stream"@.len() != "text/xml"@.len());
    assert("multipart/form-data"@.len() != "text/plain"@.len());
    assert("multipart/form-data"@.len() != "text/html"@.len());
    assert("multipart/form-data"@.len() != "text/css"@.len());
    assert("multipart/form-data"@.len() != "text/xml"@.len());
    assert("text/plain"@.len() != "text/html"@.len());
    assert("text/plain"@.len() != "text/css"@.len());
    assert("text/plain"@.len() != "text/xml"@.len());
    assert("text/html"@.len() != "text/css"@.len());
    assert("text/html"@.len() != "text/xml"@.len());
    assert("text/css"@[5] != "text/xml"@[5]);
    assert forall|i: int, j: int| 0 <= i < 9 && 0 <= j < 9 && i != j implies t[i] != t[j] by {
        assert(i == 0 || i == 1 || i == 2 || i == 3 || i == 4 || i == 5 || i == 6 || i == 7 || i == 8);
        assert(j == 0 || j == 1 || j == 2 || j == 3 || j == 4 || j == 5 || j == 6 || j == 7 || j == 8);
    }
}

proof fn lemma_values_distinct_1()
    ensures
        seq!["application/json"@, "application/xml"@, "text/html"@, "text/plain"@, "*/*"@].no_duplicates(),
{
    reveal_strlit("*/*");
    reveal_strlit("application/json");
    reveal_strlit("application/xml");
    reveal_strlit("text/html");
    reveal_strlit("text/plain");
    let t = seq!["application/json"@, "application/xml"@, "text/html"@, "text/plain"@, "*/*"@];
    assert("application/json"@.len() != "application/xml"@.len());
    assert("application/json"@.len() != "text/html"@.len());
    assert("application/json"@.len() != "text/plain"@.len());
    assert("application/json"@.len() != "*/*"@.len());
    assert("application/xml"@.len() != "text/html"@.len());
    assert("application/xml"@.len() != "text/plain"@.len());
    assert("application/xml"@.len() != "*/*"@.len());
    assert("text/html"@.len() != "text/plain"@.len());
    assert("text/html"@.len() != "*/*"@.len());
    assert("text/plain"@.len() != "*/*"@.len());
    assert forall|i: int, j: int| 0 <= i < 5 && 0 <= j < 5 && i != j implies t[i] != t[j] by {
        assert(i == 0 || i == 1 || i == 2 || i == 3 || i == 4);
        assert(j == 0 || j == 1 || j == 2 || j == 3 || j == 4);
    }
}

proof fn lemma_values_distinct_2()
    ensures
        seq!["gzip"@, "deflate"@, "br"@, "gzip, deflate, br"@, "identity"@].no_duplicates(),
{
    reveal_strlit("br");
    reveal_strlit("deflate");
    reveal_strlit("gzip");
    reveal_strlit("gzip, deflate, br");
    reveal_strlit("identity");
    let t = seq!["gzip"@, "deflate"@, "br"@, "gzip, deflate, br"@, "identity"@];
    assert("gzip"@.len() != "deflate"@.len());
    assert("gzip"@.len() != "br"@.len());
    assert("gzip"@.len() != "gzip, deflate, br"@.len());
    assert("gzip"@.len() != "identity"@.len());
    assert("deflate"@.len() != "br"@.len());
    assert("deflate"@.len() != "gzip, deflate, br"@.len());
    assert("deflate"@.len() != "identity"@.len());
    assert("br"@.len() != "gzip, deflate, br"@.len());
    assert("br"@.len() != "identity"@.len());
    assert("gzip, deflate, br"@.len() != "identity"@.len());
    assert forall|i: int, j: int| 0 <= i < 5 && 0 <= j < 5 && i != j implies t[i] != t[j] by {
        assert(i == 0 || i == 1 || i == 2 || i == 3 || i == 4);
        assert(j == 0 || j == 1 || j == 2 || j == 3 || j == 4);
    }
}

proof fn lemma_values_distinct_3()
    ensures
        seq!["utf-8"@, "iso-8859-1"@, "utf-8, iso-8859-1;q=0.5"@].no_duplicates(),
{
    reveal_strlit("iso-8859-1");
    reveal_strlit("utf-8");
    reveal_strlit("utf-8, iso-8859-1;q=0.5");
    let t = seq!["utf-8"@, "iso-8859-1"@, "utf-8, iso-8859-1;q=0.5"@];
    assert("utf-8"@.len() != "iso-8859-1"@.len());
    assert("utf-8"@.len() != "utf-8, iso-8859-1;q=0.5"@.len());
    assert("iso-8859-1"@.len() != "utf-8, iso-8859-1;q=0.5"@.len());
    assert forall|i: int, j: int| 0 <= i < 3 && 0 <= j < 3 && i != j implies t[i] != t[j] by {
        assert(i == 0 || i == 1 || i == 2);
        assert(j == 0 || j == 1 || j == 2);
    }
}

proof fn lemma_values_distinct_4()
    ensures
        seq!["en-US"@, "en-US,en;q=0.9"@, "en-GB"@, "de-DE"@, "fr-FR"@, "*"@].no_duplicates(),
{
    reveal_strlit("*");
    reveal_strlit("de-DE");
    reveal_strlit("en-GB");
    reveal_strlit("en-US");
    reveal_strlit("en-US,en;q=0.9");
    reveal_strlit("fr-FR");
    let t = seq!["en-US"@, "en-US,en;q=0.9"@, "en-GB"@, "de-DE"@, "fr-FR"@, "*"@];
    assert("en-US"@.len() != "en-US,en;q=0.9"@.len());
    assert("en-US"@[3] != "en-GB"@[3]);
    assert("en-US"@[0] != "de-DE"@[0]);
    assert("en-US"@[0] != "fr-FR"@[0]);
    assert("en-US"@.len() != "*"@.len());
    assert("en-US,en;q=0.9"@.len() != "en-GB"@.len());
    assert("en-US,en;q=0.9"@.len() != "de-DE"@.len());
    assert("en-US,en;q=0.9"@.len() != "fr-FR"@.len());
    assert("en-US,en;q=0.9"@.len() != "*"@.len());
    assert("en-GB"@[0] != "de-DE"@[0]);
    assert("en-GB"@[0] != "fr-FR"@[0]);
    assert("en-GB"@.len() != "*"@.len());
    assert("de-DE"@[0] != "fr-FR"@[0]);
    assert("de-DE"@.len() != "*"@.len());
    assert("fr-FR"@.len() != "*"@.len());
    assert forall|i: int, j: int| 0 <= i < 6 && 0 <= j < 6 && i != j implies t[i] != t[j] by {
        assert(i == 0 || i == 1 || i == 2 || i == 3 || i == 4 || i == 5);
        assert(j == 0 || j == 1 || j == 2 || j == 3 || j == 4 || j == 5);
    }
}

proof fn lemma_values_distinct_5()
    ensures
        seq!["Bearer "@, "Basic "@].no_duplicates(),
{
    reveal_strlit("Basic ");
    reveal_strlit("Bearer ");
    let t = seq!["Bearer "@, "Basic "@];
    assert("Bearer "@.len() != "Basic "@.len());
    assert forall|i: int, j: int| 0 <= i < 2 && 0 <= j < 2 && i != j implies t[i] != t[j] by {
        assert(i == 0 || i == 1);
        assert(j == 0 || j == 1);
    }
}

proof fn lemma_values_distinct_6()
    ensures
        seq!["no-cache"@, "no-store"@, "max-age=0"@, "max-age=3600"@, "public"@, "private"@].no_duplicates(),
{
    reveal_strlit("max-age=0");
    reveal_strlit("max-age=3600");
    reveal_strlit("no-cache");
    reveal_strlit("no-store");
    reveal_strlit("private");
    reveal_strlit("public");
    let t = seq!["no-cache"@, "no-store"@, "max-age=0"@, "max-age=3600"@, "public"@, "private"@];
    assert("no-cache"@[3] != "no-store"@[3]);
    assert("no-cache"@.len() != "max-age=0"@.len());
    assert("no-cache"@.len() != "max-age=3600"@.len());
    assert("no-cache"@.len() != "public"@.len());
    assert("no-cache"@.len() != "private"@.len());
    assert("no-store"@.len() != "max-age=0"@.len());
    assert("no-store"@.len() != "max-age=3600"@.len());
    assert("no-store"@.len() != "public"@.len());
    assert("no-store"@.len() != "private"@.len());
    assert("max-age=0"@.len() != "max-age=3600"@.len());
    assert("max-age=0"@.len() != "public"@.len());
    assert("max-age=0"@.len() != "private"@.len());
    assert("max-age=3600"@.len() != "public"@.len());
    assert("max-age=3600"@.len() != "private"@.len());
    assert("public"@.len() != "private"@.len());
    assert forall|i: int, j: int| 0 <= i < 6 && 0 <= j < 6 && i != j implies t[i] != t[j] by {
        assert(i == 0 || i == 1 || i == 2 || i == 3 || i == 4 || i == 5);
        assert(j == 0 || j == 1 || j == 2 || j == 3 || j == 4 || j == 5);
    }
}

proof fn lemma_values_distinct_7()
    ensures
        seq!["keep-alive"@, "close"@].no_duplicates(),
{
    reveal_strlit("close");
    reveal_strlit("keep-alive");
    let t = seq!["keep-alive"@, "close"@];
    assert("keep-alive"@.len() != "close"@.len());
    assert forall|i: int, j: int| 0 <= i < 2 && 0 <= j < 2 && i != j implies t[i] != t[j] by {
        assert(i == 0 || i == 1);
        assert(j == 0 || j == 1);
    }
}

proof fn lemma_values_distinct_8()
    ensures
        seq!["gzip"@, "deflate"@, "br"@, "identity"@].no_duplicates(),
{
    reveal_strlit("br");
    reveal_strlit("deflate");
    reveal_strlit("gzip");
    reveal_strlit("identity");
    let t = seq!["gzip"@, "deflate"@, "br"@, "identity"@];
    assert("gzip"@.len() != "deflate"@.len());
    assert("gzip"@.len() != "br"@.len());
    assert("gzip"@.len() != "identity"@.len());
    assert("deflate"@.len() != "br"@.len());
    assert("deflate"@.len() != "identity"@.len());
    assert("br"@.len() != "identity"@.len());
    assert forall|i: int, j: int| 0 <= i < 4 && 0 <= j < 4 && i != j implies t[i] != t[j] by {
        assert(i == 0 || i == 1 || i == 2 || i == 3);
        assert(j == 0 || j == 1 || j == 2 || j == 3);
    }
}

proof fn lemma_values_distinct_9()
    ensures
        seq!["chunked"@, "compress"@, "deflate"@, "gzip"@].no_duplicates(),
{
    reveal_strlit("chunked");
    reveal_strlit("compress");
    reveal_strlit("deflate");
    reveal_strlit("gzip");
    let t = seq!["chunked"@, "compress"@, "deflate"@, "gzip"@];
    assert("chunked"@.len() != "compress"@.len());
    assert("chunked"@[0] != "deflate"@[0]);
    assert("chunked"@.len() != "gzip"@.len());
    assert("compress"@.len() != "deflate"@.len());
    assert("compress"@.len() != "gzip"@.len());
    assert("deflate"@.len() != "gzip"@.len());
    assert forall|i: int, j: int| 0 <= i < 4 && 0 <= j < 4 && i != j implies t[i] != t[j] by {
        assert(i == 0 || i == 1 || i == 2 || i == 3);
        assert(j == 0 || j == 1 || j == 2 || j == 3);
    }
}

/// No header's list of common values offers the same value twice.
pub proof fn law_common_values_distinct(name: Seq<char>)
    ensures
        common_values(name).no_duplicates(),
{
    lemma_values_distinct_0();
    lemma_values_distinct_1();
    lemma_values_distinct_2();
    lemma_values_distinct_3();
    lemma_values_distinct_4();
    lemma_values_distinct_5();
    lemma_values_distinct_6();
    lemma_values_distinct_7();
    lemma_values_distinct_8();
    lemma_values_distinct_9();
}

} // verus!

verus! {

use crate::http::{sends, PreparedRequest};
use crate::model::method_index;

/// What is sent for a request: its method, its URL with the placeholders
/// resolved, each header with placeholders resolved and its name and value
/// trimmed, in order; and its body, resolved, for every method but GET
/// unless that body is only white space (a GET, or a blank body, sends
/// none).
pub proof fn law_body_sent_for_all_but_get(p: PreparedRequest, req: Request, vars: Seq<EnvVariable>)
    requires
        sends(p, req, vars),
    ensures
        p.method == req.method,
        p.url@ == resolved(req.url@, vars),
        p.headers@.len() == req.headers@.len(),
        forall|i: int|
            0 <= i < p.headers@.len() ==> (#[trigger] p.headers@[i]).name@ == trim(
                resolved(req.headers@[i].name@, vars),
            ) && p.headers@[i].value@ == trim(resolved(req.headers@[i].value@, vars)),
        req.method != HttpMethod::Get && trim(resolved(req.body@, vars)).len() > 0 ==> (p.body matches Some(
            b,
        ) && b@ == resolved(req.body@, vars)),
        req.method == HttpMethod::Get || trim(resolved(req.body@, vars)).len() == 0 ==> p.body is None,
{
}

/// The picker offers a method exactly when the filter, in capitals, stands
/// somewhere in the method's name (every method for an empty filter).
pub proof fn law_method_offered_iff_name_holds_filter(f: Seq<char>, m: HttpMethod)
    ensures
        methods_for(f).contains(m) <==> (upper(f).len() == 0 || exists|i: int|
            occurs_at(method_name(m), upper(f), i)),
{
    let all = all_methods();
    let p = |x: HttpMethod| method_matches(x, f);
    let k: int = match m {
        HttpMethod::Get => 0,
        HttpMethod::Post => 1,
        HttpMethod::Put => 2,
        HttpMethod::Patch => 3,
        HttpMethod::Delete => 4,
        HttpMethod::Head => 5,
        HttpMethod::Options => 6,
    };
    assert(all[k] == m);
    if method_matches(m, f) {
        all.lemma_filter_contains(p, k);
    }
    if all.filter(p).contains(m) {
        let j = choose|j: int| 0 <= j < all.filter(p).len() && all.filter(p)[j] == m;
        all.lemma_filter_pred(p, j);
    }
}

proof fn lemma_filter_keeps_order(s: Seq<HttpMethod>, p: spec_fn(HttpMethod) -> bool)
    requires
        forall|i: int, j: int| 0 <= i < j < s.len() ==> method_index(s[i]) < method_index(s[j]),
    ensures
        forall|i: int, j: int|
            0 <= i < j < s.filter(p).len() ==> method_index(s.filter(p)[i]) < method_index(
                s.filter(p)[j],
            ),
    decreases s.len(),
{
    reveal(Seq::filter);
    if s.len() > 0 {
        let init = s.drop_last();
        lemma_filter_keeps_order(init, p);
        let fi = init.filter(p);
        assert forall|k: int| 0 <= k < fi.len() implies method_index(fi[k]) < method_index(s.last()) by {
            assert(fi.contains(fi[k]));
            init.lemma_filter_contains_rev(p, fi[k]);
            let j = choose|j: int| 0 <= j < init.len() && init[j] == fi[k];
            assert(init[j] == s[j]);
        }
        if p(s.last()) {
            let f = s.filter(p);
            assert(f == fi.push(s.last()));
            assert forall|i: int, j: int| 0 <= i < j < f.len() implies method_index(f[i]) < method_index(f[j]) by {
                if j == f.len() - 1 {
                    assert(f[j] == s.last());
                    assert(f[i] == fi[i]);
                } else {
                    assert(f[i] == fi[i] && f[j] == fi[j]);
                }
            }
        }
    }
}

/// The picker offers the methods in its fixed order (GET, POST, PUT,
/// PATCH, DELETE, HEAD, OPTIONS), each at most once.
pub proof fn law_methods_offered_in_order(f: Seq<char>)
    ensures
        forall|i: int, j: int|
            0 <= i < j < methods_for(f).len() ==> method_index(methods_for(f)[i]) < method_index(
                methods_for(f)[j],
            ),
{
    let all = all_methods();
    assert forall|i: int, j: int| 0 <= i < j < all.len() implies method_index(all[i]) < method_index(all[j]) by {
        assert(method_index(all[i]) == i && method_index(all[j]) == j);
    }
    lemma_filter_keeps_order(all, |m: HttpMethod| method_matches(m, f));
}

/// One variable turns every `{{key}}` in the text into its value, whatever
/// that value is (an empty value too).
pub proof fn law_one_variable_replaces_its_placeholder(s: Seq<char>, v: EnvVariable)
    ensures
        resolved(s, seq![v]) == replace_all(s, "{{"@ + v.key@ + "}}"@, v.value@),
{
    let none = Seq::<EnvVariable>::empty();
    assert(seq![v].drop_last() =~= none);
    assert(seq![v].last() == v);
    assert(resolved(s, none) == s);
    assert(resolved(s, seq![v]) == replace_all(resolved(s, none), placeholder(v.key@), v.value@));
}

/// Resolving with one more variable replaces that variable's placeholder in
/// what the variables before it gave.
pub proof fn law_variables_apply_in_order(s: Seq<char>, vars: Seq<EnvVariable>, v: EnvVariable)
    ensures
        resolved(s, vars.push(v)) == replace_all(resolved(s, vars), "{{"@ + v.key@ + "}}"@, v.value@),
{
    assert(vars.push(v).drop_last() =~= vars);
    assert(vars.push(v).last() == v);
}

/// Before the clone is used, git gets a user name and an e-mail where it
/// has none: after the check of the name (`rn`) and of the e-mail (`re`),
/// a missing name is set to `curlish` and a missing e-mail to
/// `curlish@localhost`, each whether or not the other was missing, and
/// only then is the remote's URL set.
pub proof fn law_missing_git_identity_is_filled(
    m0: SyncRun,
    rn: Reply,
    m1: SyncRun,
    s1: Step,
    re: Reply,
    m2: SyncRun,
    s2: Step,
    r2: Reply,
    m3: SyncRun,
    s3: Step,
)
    requires
        m0.stage == Stage::UserNameChecked,
        sync_next(m0, rn, m1, s1),
        sync_next(m1, re, m2, s2),
        sync_next(m2, r2, m3, s3),
    ensures
        runs_git(s1, seq!["config"@, "user.email"@], true),
        succeeded(rn) && succeeded(re) ==> runs_git(
            s2,
            seq!["remote"@, "set-url"@, "origin"@, m0.repo_url@],
            true,
        ),
        succeeded(rn) && !succeeded(re) ==> runs_git(
            s2,
            seq!["config"@, "user.email"@, "curlish@localhost"@],
            true,
        ) && runs_git(s3, seq!["remote"@, "set-url"@, "origin"@, m0.repo_url@], true),
        !succeeded(rn) ==> runs_git(s2, seq!["config"@, "user.name"@, "curlish"@], true),
        !succeeded(rn) && !succeeded(re) ==> runs_git(
            s3,
            seq!["config"@, "user.email"@, "curlish@localhost"@],
            true,
        ),
        !succeeded(rn) && succeeded(re) ==> runs_git(
            s3,
            seq!["remote"@, "set-url"@, "origin"@, m0.repo_url@],
            true,
        ),
{
}

} // verus!
