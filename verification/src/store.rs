//! The session store: the daemon's single table of tracked sessions, their
//! append-only event log, and the latest todo snapshot per session. All
//! reconciliation rules live here: placeholder promotion on upsert, coalesce
//! semantics for optional metadata, wholesale todo replacement, and cascading
//! deletion.

use vstd::multiset::Multiset;
use vstd::prelude::*;

use crate::models::{clone_opt_string, Plate, PlateStatus};
use crate::payload::{count_completed, parse_todo_statuses, spec_count_completed, todo_statuses_of};
use crate::text::{concat_str, opt_str_view, opt_string_view, own_opt, str_eq, strs_view};

verus! {

/// One appended event: diagnostics only, never read back for status.
#[derive(Debug)]
pub struct EventRecord {
    pub session_id: String,
    pub event_type: String,
    pub payload: String,
    pub created_at: i64,
}

/// The latest todo snapshot of one session, with its progress pair already
/// derived from the snapshot text.
#[derive(Debug)]
pub struct TodoRecord {
    pub session_id: String,
    pub todos_json: String,
    pub parsed: bool,
    pub completed: usize,
    pub total: usize,
    pub updated_at: i64,
}

impl Clone for EventRecord {
    fn clone(&self) -> (r: Self)
        ensures
            r == *self,
    {
        EventRecord {
            session_id: self.session_id.clone(),
            event_type: self.event_type.clone(),
            payload: self.payload.clone(),
            created_at: self.created_at,
        }
    }
}

impl Clone for TodoRecord {
    fn clone(&self) -> (r: Self)
        ensures
            r == *self,
    {
        TodoRecord {
            session_id: self.session_id.clone(),
            todos_json: self.todos_json.clone(),
            parsed: self.parsed,
            completed: self.completed,
            total: self.total,
            updated_at: self.updated_at,
        }
    }
}

/// `rows` holds at most one plate per session id; `todos` at most one
/// snapshot per session id.
pub struct SessionStore {
    plates: Vec<Plate>,
    events: Vec<EventRecord>,
    todos: Vec<TodoRecord>,
}

/// Some row carries this session id.
pub open spec fn has_plate(rows: Seq<Plate>, id: Seq<char>) -> bool {
    exists|i: int| 0 <= i < rows.len() && rows[i].session_id@ == id
}

/// The index of the row carrying this session id (unique when the store is
/// well formed).
pub open spec fn plate_index(rows: Seq<Plate>, id: Seq<char>) -> int {
    choose|i: int| 0 <= i < rows.len() && rows[i].session_id@ == id
}

pub open spec fn unique_plate_ids(rows: Seq<Plate>) -> bool {
    forall|i: int, j: int|
        0 <= i < j < rows.len() ==> rows[i].session_id@ != rows[j].session_id@
}

pub open spec fn unique_todo_ids(todos: Seq<TodoRecord>) -> bool {
    forall|i: int, j: int|
        0 <= i < j < todos.len() ==> todos[i].session_id@ != todos[j].session_id@
}

/// The synthetic session id a placeholder registration uses until the real
/// id is known.
pub open spec fn spec_placeholder_id(project_path: Seq<char>) -> Seq<char> {
    "pending:"@ + project_path
}

/// A new optional field value after an upsert: an incoming value overwrites,
/// absence never erases what was known.
pub open spec fn coalesced(
    newv: Option<String>,
    incoming: Option<Seq<char>>,
    oldv: Option<String>,
) -> bool {
    match incoming {
        Some(s) => opt_string_view(newv) == Some(s),
        None => newv == oldv,
    }
}

/// The row an upsert leaves behind when the session already existed:
/// status, last event and last tool refreshed unconditionally, optional
/// metadata coalesced, summary/goal/progress and `created_at` kept,
/// `updated_at` advanced.
pub open spec fn upsert_updated(
    n: Plate,
    o: Plate,
    transcript_path: Option<Seq<char>>,
    git_branch: Option<Seq<char>>,
    tmux_target: Option<Seq<char>>,
    status: PlateStatus,
    event_type: Seq<char>,
    tool_name: Option<Seq<char>>,
    now: i64,
) -> bool {
    &&& n.session_id == o.session_id
    &&& n.project_path == o.project_path
    &&& n.status == status
    &&& opt_string_view(n.last_event_type) == Some(event_type)
    &&& opt_string_view(n.last_tool) == tool_name
    &&& coalesced(n.transcript_path, transcript_path, o.transcript_path)
    &&& coalesced(n.git_branch, git_branch, o.git_branch)
    &&& coalesced(n.tmux_target, tmux_target, o.tmux_target)
    &&& n.summary == o.summary
    &&& n.goal == o.goal
    &&& n.todo_progress == o.todo_progress
    &&& n.created_at == o.created_at
    &&& n.updated_at == now
}

/// The row an upsert inserts when the session id was new.
pub open spec fn upsert_inserted(
    p: Plate,
    session_id: Seq<char>,
    project_path: Seq<char>,
    transcript_path: Option<Seq<char>>,
    git_branch: Option<Seq<char>>,
    tmux_target: Option<Seq<char>>,
    status: PlateStatus,
    event_type: Seq<char>,
    tool_name: Option<Seq<char>>,
    now: i64,
) -> bool {
    &&& p.session_id@ == session_id
    &&& p.project_path@ == project_path
    &&& opt_string_view(p.transcript_path) == transcript_path
    &&& opt_string_view(p.git_branch) == git_branch
    &&& opt_string_view(p.tmux_target) == tmux_target
    &&& p.status == status
    &&& opt_string_view(p.last_event_type) == Some(event_type)
    &&& opt_string_view(p.last_tool) == tool_name
    &&& p.summary is None
    &&& p.goal is None
    &&& p.todo_progress is None
    &&& p.created_at == now
    &&& p.updated_at == now
}

/// The whole effect of an upsert on the session table: refresh in place
/// when the id exists, otherwise delete any placeholder for the same path
/// and append a fresh row.
pub open spec fn rows_upserted(
    newr: Seq<Plate>,
    oldr: Seq<Plate>,
    session_id: Seq<char>,
    project_path: Seq<char>,
    transcript_path: Option<Seq<char>>,
    git_branch: Option<Seq<char>>,
    tmux_target: Option<Seq<char>>,
    status: PlateStatus,
    event_type: Seq<char>,
    tool_name: Option<Seq<char>>,
    now: i64,
) -> bool {
    if has_plate(oldr, session_id) {
        let j = plate_index(oldr, session_id);
        &&& newr.len() == oldr.len()
        &&& (forall|i: int| 0 <= i < oldr.len() && i != j ==> newr[i] == oldr[i])
        &&& upsert_updated(
            newr[j],
            oldr[j],
            transcript_path,
            git_branch,
            tmux_target,
            status,
            event_type,
            tool_name,
            now,
        )
    } else {
        let ph = spec_placeholder_id(project_path);
        let base = if has_plate(oldr, ph) {
            oldr.remove(plate_index(oldr, ph))
        } else {
            oldr
        };
        &&& newr.len() == base.len() + 1
        &&& newr.drop_last() == base
        &&& upsert_inserted(
            newr.last(),
            session_id,
            project_path,
            transcript_path,
            git_branch,
            tmux_target,
            status,
            event_type,
            tool_name,
            now,
        )
    }
}

/// The whole effect of a todo-snapshot write: any previous snapshot for the
/// session is gone, and the new record carries the snapshot text with its
/// progress pair derived from it.
pub open spec fn todos_replaced(
    newt: Seq<TodoRecord>,
    oldt: Seq<TodoRecord>,
    session_id: Seq<char>,
    todos_json: Seq<char>,
    now: i64,
) -> bool {
    &&& newt.len() >= 1
    &&& newt.drop_last() == oldt.filter(|t: TodoRecord| t.session_id@ != session_id)
    &&& ({
        let t = newt.last();
        &&& t.session_id@ == session_id
        &&& t.todos_json@ == todos_json
        &&& t.parsed == (todo_statuses_of(todos_json) is Some)
        &&& (todo_statuses_of(todos_json) matches Some(v) ==> t.completed == spec_count_completed(
            v,
        ) && t.total == v.len())
        &&& (todo_statuses_of(todos_json) is None ==> t.completed == 0 && t.total == 0)
        &&& t.updated_at == now
    })
}

/// The whole effect of appending one event to the log.
pub open spec fn event_appended(
    newe: Seq<EventRecord>,
    olde: Seq<EventRecord>,
    session_id: Seq<char>,
    event_type: Seq<char>,
    payload: Seq<char>,
    now: i64,
) -> bool {
    &&& newe.len() == olde.len() + 1
    &&& newe.drop_last() == olde
    &&& ({
        let e = newe.last();
        &&& e.session_id@ == session_id
        &&& e.event_type@ == event_type
        &&& e.payload@ == payload
        &&& e.created_at == now
    })
}

/// A plate for this project path that a viewer would still see as active.
pub open spec fn stopped_here(p: Plate, path: Seq<char>) -> bool {
    p.project_path@ == path && !(p.status is Closed)
}

/// A row after a direct status write: only the status and the update time
/// change.
pub open spec fn status_set(n: Plate, o: Plate, status: PlateStatus, now: i64) -> bool {
    &&& n.session_id == o.session_id
    &&& n.project_path == o.project_path
    &&& n.transcript_path == o.transcript_path
    &&& n.git_branch == o.git_branch
    &&& n.tmux_target == o.tmux_target
    &&& n.status == status
    &&& n.last_event_type == o.last_event_type
    &&& n.last_tool == o.last_tool
    &&& n.summary == o.summary
    &&& n.goal == o.goal
    &&& n.todo_progress == o.todo_progress
    &&& n.created_at == o.created_at
    &&& n.updated_at == now
}

/// The row `mark_stopped` leaves behind.
pub open spec fn closed_row(n: Plate, o: Plate, now: i64) -> bool {
    status_set(n, o, PlateStatus::Closed, now)
}

/// The row a plain summary write leaves behind.
pub open spec fn summary_set(n: Plate, o: Plate, summary: Seq<char>) -> bool {
    &&& n.session_id == o.session_id
    &&& n.project_path == o.project_path
    &&& n.transcript_path == o.transcript_path
    &&& n.git_branch == o.git_branch
    &&& n.tmux_target == o.tmux_target
    &&& n.status == o.status
    &&& n.last_event_type == o.last_event_type
    &&& n.last_tool == o.last_tool
    &&& opt_string_view(n.summary) == Some(summary)
    &&& n.goal == o.goal
    &&& n.todo_progress == o.todo_progress
    &&& n.created_at == o.created_at
    &&& n.updated_at == o.updated_at
}

/// The row a plain goal write leaves behind.
pub open spec fn goal_set(n: Plate, o: Plate, goal: Seq<char>) -> bool {
    &&& n.session_id == o.session_id
    &&& n.project_path == o.project_path
    &&& n.transcript_path == o.transcript_path
    &&& n.git_branch == o.git_branch
    &&& n.tmux_target == o.tmux_target
    &&& n.status == o.status
    &&& n.last_event_type == o.last_event_type
    &&& n.last_tool == o.last_tool
    &&& n.summary == o.summary
    &&& opt_string_view(n.goal) == Some(goal)
    &&& n.todo_progress == o.todo_progress
    &&& n.created_at == o.created_at
    &&& n.updated_at == o.updated_at
}

/// Every element of a filtered sequence occurs in the original.
pub proof fn lemma_filter_elements<T>(s: Seq<T>, pred: spec_fn(T) -> bool)
    ensures
        forall|i: int| 0 <= i < s.filter(pred).len() ==> s.contains(#[trigger] s.filter(pred)[i]),
    decreases s.len(),
{
    reveal(Seq::filter);
    if s.len() > 0 {
        lemma_filter_elements(s.drop_last(), pred);
        assert forall|i: int| 0 <= i < s.filter(pred).len() implies s.contains(
            #[trigger] s.filter(pred)[i],
        ) by {
            let f = s.filter(pred);
            let fd = s.drop_last().filter(pred);
            if pred(s.last()) && i == f.len() - 1 {
                assert(s[s.len() - 1] == f[i]);
            } else {
                assert(fd[i] == f[i]);
                assert(s.drop_last().contains(fd[i]));
                let k = choose|k: int|
                    0 <= k < s.drop_last().len() && s.drop_last()[k] == fd[i];
                assert(s[k] == f[i]);
            }
        }
    }
}

/// Filtering keeps pairwise-distinct keys pairwise distinct.
pub proof fn lemma_filter_keeps_distinct_keys<T>(
    s: Seq<T>,
    pred: spec_fn(T) -> bool,
    key: spec_fn(T) -> Seq<char>,
)
    requires
        forall|i: int, j: int| 0 <= i < j < s.len() ==> key(s[i]) != key(s[j]),
    ensures
        forall|i: int, j: int|
            0 <= i < j < s.filter(pred).len() ==> key(#[trigger] s.filter(pred)[i]) != key(
                #[trigger] s.filter(pred)[j],
            ),
    decreases s.len(),
{
    reveal(Seq::filter);
    if s.len() > 0 {
        lemma_filter_keeps_distinct_keys(s.drop_last(), pred, key);
        lemma_filter_elements(s.drop_last(), pred);
        assert forall|i: int, j: int|
            0 <= i < j < s.filter(pred).len() implies key(#[trigger] s.filter(pred)[i]) != key(
            #[trigger] s.filter(pred)[j],
        ) by {
            let f = s.filter(pred);
            let fd = s.drop_last().filter(pred);
            if pred(s.last()) && j == f.len() - 1 {
                assert(f[j] == s.last());
                assert(fd[i] == f[i]);
                assert(s.drop_last().contains(fd[i]));
                let k = choose|k: int|
                    0 <= k < s.drop_last().len() && s.drop_last()[k] == fd[i];
                assert(key(s[k]) != key(s[s.len() - 1]));
            } else {
                assert(fd[i] == f[i]);
                assert(fd[j] == f[j]);
            }
        }
    }
}

/// A filter keeps nothing when nothing satisfies the predicate.
pub proof fn lemma_filter_none<T>(s: Seq<T>, pred: spec_fn(T) -> bool)
    requires
        forall|i: int| 0 <= i < s.len() ==> !pred(s[i]),
    ensures
        s.filter(pred).len() == 0,
    decreases s.len(),
{
    reveal(Seq::filter);
    if s.len() > 0 {
        lemma_filter_none(s.drop_last(), pred);
    }
}

/// Law: starting from a store with no rows for a project path, registering a
/// placeholder for it and then upserting a real event with a fresh session
/// id for the same path leaves exactly one active row for the path, and no
/// row with the placeholder id — the placeholder is deleted, not merely
/// superseded. `rows0`, `rows1` and `rows2` are the rows before, between and
/// after the two operations, related exactly as `register_placeholder` and
/// `upsert_plate` ensure.
pub proof fn lemma_placeholder_promotion(
    rows0: Seq<Plate>,
    rows1: Seq<Plate>,
    rows2: Seq<Plate>,
    project_path: Seq<char>,
    session_id: Seq<char>,
    status: PlateStatus,
    reg_now: i64,
)
    requires
        unique_plate_ids(rows0),
        forall|i: int| 0 <= i < rows0.len() ==> rows0[i].project_path@ != project_path,
        has_plate(rows0, spec_placeholder_id(project_path)) ==> rows1 == rows0,
        !has_plate(rows0, spec_placeholder_id(project_path)) ==> rows1.len() == rows0.len() + 1
            && rows1.drop_last() == rows0 && placeholder_row(rows1.last(), project_path, reg_now),
        session_id != spec_placeholder_id(project_path),
        !has_plate(rows0, session_id),
        ({
            let ph = spec_placeholder_id(project_path);
            let base = if has_plate(rows1, ph) {
                rows1.remove(plate_index(rows1, ph))
            } else {
                rows1
            };
            &&& rows2.len() == base.len() + 1
            &&& rows2.drop_last() == base
            &&& rows2.last().session_id@ == session_id
            &&& rows2.last().project_path@ == project_path
            &&& rows2.last().status == status
        }),
        !(status is Closed),
    ensures
        rows2.filter(|p: Plate| stopped_here(p, project_path)).len() == 1,
        !has_plate(rows2, spec_placeholder_id(project_path)),
{
    let ph = spec_placeholder_id(project_path);
    let pred = |p: Plate| stopped_here(p, project_path);
    let base = if has_plate(rows1, ph) {
        rows1.remove(plate_index(rows1, ph))
    } else {
        rows1
    };
    // Every row of `base` keeps a project path other than this one, and none
    // carries the placeholder id.
    if has_plate(rows0, ph) {
        // A row with the synthetic id already existed; registration changed
        // nothing and the upsert removed that row.
        let j = plate_index(rows1, ph);
        assert(0 <= j < rows1.len() && rows1[j].session_id@ == ph);
        assert forall|k: int| 0 <= k < base.len() implies base[k].project_path@ != project_path
            && base[k].session_id@ != ph by {
            if k < j {
                assert(base[k] == rows1[k]);
            } else {
                assert(base[k] == rows1[k + 1]);
            }
        }
    } else {
        // Registration appended the placeholder; the upsert removed it
        // again, leaving exactly the original rows.
        assert(rows1[rows1.len() - 1].session_id@ == ph);
        assert(has_plate(rows1, ph));
        let j = plate_index(rows1, ph);
        assert(0 <= j < rows1.len() && rows1[j].session_id@ == ph);
        if j < rows1.len() - 1 {
            assert(rows1[j] == rows0[j]);
            assert(false);
        }
        assert(base =~= rows0);
    }
    assert forall|k: int| 0 <= k < base.len() implies !pred(base[k]) by {}
    lemma_filter_none(base, pred);
    reveal(Seq::filter);
    assert(rows2.len() > 0);
    assert(rows2.drop_last().filter(pred).len() == 0);
    assert(pred(rows2.last()));
    assert(rows2.filter(pred).len() == 1);
    assert forall|i: int| 0 <= i < rows2.len() implies rows2[i].session_id@ != ph by {
        if i < rows2.len() - 1 {
            assert(rows2[i] == rows2.drop_last()[i]);
        }
    }
}

/// Law: an upsert on an existing row never erases a recorded transcript path
/// with absence, and an update that carries one overwrites it. The same
/// coalescing governs the branch, target and tool metadata.
pub proof fn lemma_upsert_coalesces(
    n: Plate,
    o: Plate,
    transcript_path: Option<Seq<char>>,
    git_branch: Option<Seq<char>>,
    tmux_target: Option<Seq<char>>,
    status: PlateStatus,
    event_type: Seq<char>,
    tool_name: Option<Seq<char>>,
    now: i64,
)
    requires
        upsert_updated(
            n,
            o,
            transcript_path,
            git_branch,
            tmux_target,
            status,
            event_type,
            tool_name,
            now,
        ),
    ensures
        transcript_path is None ==> n.transcript_path == o.transcript_path,
        transcript_path matches Some(t) ==> opt_string_view(n.transcript_path) == Some(t),
        git_branch is None ==> n.git_branch == o.git_branch,
        git_branch matches Some(b) ==> opt_string_view(n.git_branch) == Some(b),
{
}

/// Law: deleting a session removes all of its events and its todo snapshot;
/// nothing keyed by the deleted id survives in any table.
pub proof fn lemma_delete_leaves_no_orphans(
    rows0: Seq<Plate>,
    events0: Seq<EventRecord>,
    todos0: Seq<TodoRecord>,
    rows1: Seq<Plate>,
    events1: Seq<EventRecord>,
    todos1: Seq<TodoRecord>,
    id: Seq<char>,
)
    requires
        rows1 == rows0.filter(|p: Plate| p.session_id@ != id),
        events1 == events0.filter(|e: EventRecord| e.session_id@ != id),
        todos1 == todos0.filter(|t: TodoRecord| t.session_id@ != id),
    ensures
        !has_plate(rows1, id),
        forall|i: int| 0 <= i < events1.len() ==> #[trigger] events1[i].session_id@ != id,
        forall|i: int| 0 <= i < todos1.len() ==> #[trigger] todos1[i].session_id@ != id,
{
    assert forall|i: int| 0 <= i < rows1.len() implies #[trigger] rows1[i].session_id@ != id by {
        rows0.lemma_filter_pred(|p: Plate| p.session_id@ != id, i);
    }
    assert forall|i: int| 0 <= i < events1.len() implies #[trigger] events1[i].session_id@
        != id by {
        events0.lemma_filter_pred(|e: EventRecord| e.session_id@ != id, i);
    }
    assert forall|i: int| 0 <= i < todos1.len() implies #[trigger] todos1[i].session_id@ != id by {
        todos0.lemma_filter_pred(|t: TodoRecord| t.session_id@ != id, i);
    }
}

/// Some snapshot carries this session id.
pub open spec fn has_todo(todos: Seq<TodoRecord>, id: Seq<char>) -> bool {
    exists|i: int| 0 <= i < todos.len() && todos[i].session_id@ == id
}

/// The index of the snapshot carrying this session id.
pub open spec fn todo_index(todos: Seq<TodoRecord>, id: Seq<char>) -> int {
    choose|i: int| 0 <= i < todos.len() && todos[i].session_id@ == id
}

/// The `completed/total` progress text.
pub open spec fn spec_progress_string(completed: nat, total: nat) -> Seq<char> {
    crate::text::spec_dec_digits(completed) + "/"@ + crate::text::spec_dec_digits(total)
}

/// The progress a session's snapshot yields: present exactly when the
/// session has a snapshot whose text parsed as a todo array.
pub open spec fn spec_progress_for(todos: Seq<TodoRecord>, id: Seq<char>) -> Option<Seq<char>> {
    if has_todo(todos, id) {
        let t = todos[todo_index(todos, id)];
        if t.parsed {
            Some(spec_progress_string(t.completed as nat, t.total as nat))
        } else {
            None
        }
    } else {
        None
    }
}

/// A served plate: identical to its stored row except that `todo_progress`
/// is derived from the session's snapshot.
pub open spec fn row_with_progress(n: Plate, o: Plate, todos: Seq<TodoRecord>) -> bool {
    &&& n.session_id == o.session_id
    &&& n.project_path == o.project_path
    &&& n.transcript_path == o.transcript_path
    &&& n.git_branch == o.git_branch
    &&& n.tmux_target == o.tmux_target
    &&& n.status == o.status
    &&& n.last_event_type == o.last_event_type
    &&& n.last_tool == o.last_tool
    &&& n.summary == o.summary
    &&& n.goal == o.goal
    &&& opt_string_view(n.todo_progress) == spec_progress_for(todos, o.session_id@)
    &&& n.created_at == o.created_at
    &&& n.updated_at == o.updated_at
}

/// `m` is the stored table joined with its snapshots, row for row.
pub open spec fn joined_rows(rows: Seq<Plate>, todos: Seq<TodoRecord>, m: Seq<Plate>) -> bool {
    m.len() == rows.len() && forall|i: int|
        0 <= i < rows.len() ==> row_with_progress(#[trigger] m[i], rows[i], todos)
}

/// Newest first, by update time.
pub open spec fn sorted_desc(s: Seq<Plate>) -> bool {
    forall|i: int, j: int| 0 <= i < j < s.len() ==> s[i].updated_at >= s[j].updated_at
}

/// Renders the `completed/total` progress text.
fn progress_string(completed: usize, total: usize) -> (r: String)
    ensures
        r@ == spec_progress_string(completed as nat, total as nat),
{
    let mut s = crate::text::usize_to_string(completed);
    s.append("/");
    let t = crate::text::usize_to_string(total);
    s.append(t.as_str());
    s
}

/// Selection sort by update time, newest first. The result is a
/// permutation of the input.
fn sort_plates_desc(v: Vec<Plate>) -> (r: Vec<Plate>)
    ensures
        sorted_desc(r@),
        r@.to_multiset() == v@.to_multiset(),
{
    broadcast use vstd::seq_lib::group_to_multiset_ensures;

    let ghost all = v@;
    let mut src = v;
    let mut out: Vec<Plate> = Vec::new();
    proof {
        assert(out@.to_multiset().add(src@.to_multiset()) =~= all.to_multiset());
    }
    while src.len() > 0
        invariant
            sorted_desc(out@),
            out@.to_multiset().add(src@.to_multiset()) == all.to_multiset(),
            forall|a: int, b: int|
                0 <= a < out@.len() && 0 <= b < src@.len() ==> out@[a].updated_at
                    >= src@[b].updated_at,
        decreases src.len(),
    {
        let ghost src0 = src@;
        let ghost out0 = out@;
        // Index of a newest remaining element.
        let mut m: usize = 0;
        let mut k: usize = 1;
        while k < src.len()
            invariant
                src.len() > 0,
                m < k,
                k <= src.len(),
                forall|t: int| 0 <= t < k ==> src@[m as int].updated_at >= src@[t].updated_at,
            decreases src.len() - k,
        {
            if src[k].updated_at > src[m].updated_at {
                m = k;
            }
            k += 1;
        }
        let p = src.remove(m);
        out.push(p);
        proof {
            src0.to_multiset_ensures();
            out0.to_multiset_ensures();
            assert(p == src0[m as int]);
            assert(src0.contains(p));
            assert(src@ == src0.remove(m as int));
            assert(src0.remove(m as int).to_multiset() == src0.to_multiset().remove(p));
            assert(out@ == out0.push(p));
            assert(out0.push(p).to_multiset() == out0.to_multiset().insert(p));
            assert(out@.to_multiset().add(src@.to_multiset()) =~= all.to_multiset());
            // The picked element is newest among the remainder, so the
            // output stays sorted and dominates what is left.
            assert forall|b: int| 0 <= b < src@.len() implies p.updated_at
                >= src@[b].updated_at by {
                if b < m {
                    assert(src@[b] == src0[b]);
                } else {
                    assert(src@[b] == src0[b + 1]);
                }
            }
            assert forall|a: int, b: int|
                0 <= a < out@.len() && 0 <= b < src@.len() implies out@[a].updated_at
                >= src@[b].updated_at by {
                if a < out0.len() {
                    assert(out@[a] == out0[a]);
                }
            }
        }
    }
    proof {
        assert(src@.to_multiset() =~= Multiset::<Plate>::empty());
        assert(out@.to_multiset() =~= all.to_multiset());
    }
    out
}

/// The row a placeholder registration inserts.
pub open spec fn placeholder_row(p: Plate, project_path: Seq<char>, now: i64) -> bool {
    &&& p.session_id@ == spec_placeholder_id(project_path)
    &&& p.project_path@ == project_path
    &&& p.transcript_path is None
    &&& p.git_branch is None
    &&& p.tmux_target is None
    &&& p.status == PlateStatus::Starting
    &&& p.last_event_type is None
    &&& p.last_tool is None
    &&& p.summary is None
    &&& p.goal is None
    &&& p.todo_progress is None
    &&& p.created_at == now
    &&& p.updated_at == now
}

impl SessionStore {
    pub closed spec fn rows(&self) -> Seq<Plate> {
        self.plates@
    }

    pub closed spec fn events(&self) -> Seq<EventRecord> {
        self.events@
    }

    pub closed spec fn todos(&self) -> Seq<TodoRecord> {
        self.todos@
    }

    /// Well-formedness: one row per session id, one snapshot per session id.
    pub open spec fn wf(&self) -> bool {
        unique_plate_ids(self.rows()) && unique_todo_ids(self.todos())
    }

    pub fn new() -> (s: Self)
        ensures
            s.wf(),
            s.rows() == Seq::<Plate>::empty(),
            s.events() == Seq::<EventRecord>::empty(),
            s.todos() == Seq::<TodoRecord>::empty(),
    {
        SessionStore { plates: Vec::new(), events: Vec::new(), todos: Vec::new() }
    }

    /// Index of the row for this session id, if any.
    fn find_plate_idx(&self, session_id: &str) -> (r: Option<usize>)
        ensures
            match r {
                Some(i) => i < self.rows().len() && self.rows()[i as int].session_id@
                    == session_id@,
                None => !has_plate(self.rows(), session_id@),
            },
    {
        let mut i: usize = 0;
        while i < self.plates.len()
            invariant
                i <= self.rows().len(),
                forall|k: int| 0 <= k < i ==> self.rows()[k].session_id@ != session_id@,
            decreases self.rows().len() - i,
        {
            if str_eq(self.plates[i].session_id.as_str(), session_id) {
                return Some(i);
            }
            i += 1;
        }
        None
    }

    /// With unique ids, a found index is the index `plate_index` denotes.
    pub proof fn lemma_found_is_index(rows: Seq<Plate>, id: Seq<char>, i: int)
        requires
            unique_plate_ids(rows),
            0 <= i < rows.len(),
            rows[i].session_id@ == id,
        ensures
            has_plate(rows, id),
            plate_index(rows, id) == i,
    {
        assert(has_plate(rows, id));
        let j = plate_index(rows, id);
        if i != j {
            assert(rows[i].session_id@ != rows[j].session_id@);
        }
    }

    /// The upsert at the heart of ingestion. When the session id is new, any
    /// placeholder row for the same project path is deleted (promotion) and a
    /// fresh row is appended; when it exists, the row's status, last event
    /// and last tool are refreshed unconditionally and the optional metadata
    /// with coalesce semantics. Returns whether the session already existed.
    pub fn upsert_plate(
        &mut self,
        session_id: &str,
        project_path: &str,
        transcript_path: Option<&str>,
        git_branch: Option<&str>,
        tmux_target: Option<&str>,
        status: PlateStatus,
        event_type: &str,
        tool_name: Option<&str>,
        now: i64,
    ) -> (existed: bool)
        requires
            old(self).wf(),
        ensures
            final(self).wf(),
            final(self).events() == old(self).events(),
            final(self).todos() == old(self).todos(),
            existed == has_plate(old(self).rows(), session_id@),
            rows_upserted(
                final(self).rows(),
                old(self).rows(),
                session_id@,
                project_path@,
                opt_str_view(transcript_path),
                opt_str_view(git_branch),
                opt_str_view(tmux_target),
                status,
                event_type@,
                opt_str_view(tool_name),
                now,
            ),
    {
        let found = self.find_plate_idx(session_id);
        match found {
            Some(i) => {
                proof {
                    Self::lemma_found_is_index(self.rows(), session_id@, i as int);
                }
                let o = self.plates[i].clone();
                let n = Plate {
                    session_id: o.session_id,
                    project_path: o.project_path,
                    transcript_path: match transcript_path {
                        Some(t) => Some(String::from_str(t)),
                        None => o.transcript_path,
                    },
                    git_branch: match git_branch {
                        Some(t) => Some(String::from_str(t)),
                        None => o.git_branch,
                    },
                    tmux_target: match tmux_target {
                        Some(t) => Some(String::from_str(t)),
                        None => o.tmux_target,
                    },
                    status,
                    last_event_type: Some(String::from_str(event_type)),
                    last_tool: own_opt(tool_name),
                    summary: o.summary,
                    goal: o.goal,
                    todo_progress: o.todo_progress,
                    created_at: o.created_at,
                    updated_at: now,
                };
                let _ = self.plates.remove(i);
                self.plates.insert(i, n);
                proof {
                    assert(self.rows() =~= old(self).rows().update(i as int, self.rows()[i as int]));
                    assert(rows_upserted(
                        self.rows(),
                        old(self).rows(),
                        session_id@,
                        project_path@,
                        opt_str_view(transcript_path),
                        opt_str_view(git_branch),
                        opt_str_view(tmux_target),
                        status,
                        event_type@,
                        opt_str_view(tool_name),
                        now,
                    ));
                }
                true
            },
            None => {
                let ph = concat_str("pending:", project_path);
                let ghost rows0 = self.rows();
                let ph_found = self.find_plate_idx(ph.as_str());
                if let Some(j) = ph_found {
                    proof {
                        Self::lemma_found_is_index(self.rows(), ph@, j as int);
                    }
                    let _ = self.plates.remove(j);
                }
                let n = Plate {
                    session_id: String::from_str(session_id),
                    project_path: String::from_str(project_path),
                    transcript_path: own_opt(transcript_path),
                    git_branch: own_opt(git_branch),
                    tmux_target: own_opt(tmux_target),
                    status,
                    last_event_type: Some(String::from_str(event_type)),
                    last_tool: own_opt(tool_name),
                    summary: None,
                    goal: None,
                    todo_progress: None,
                    created_at: now,
                    updated_at: now,
                };
                self.plates.push(n);
                proof {
                    let oldr = old(self).rows();
                    let phs = spec_placeholder_id(project_path@);
                    let base = if has_plate(oldr, phs) {
                        oldr.remove(plate_index(oldr, phs))
                    } else {
                        oldr
                    };
                    assert(!has_plate(oldr, session_id@));
                    assert(self.rows().len() == base.len() + 1);
                    assert(self.rows().drop_last() =~= base);
                    assert(upsert_inserted(
                        self.rows().last(),
                        session_id@,
                        project_path@,
                        opt_str_view(transcript_path),
                        opt_str_view(git_branch),
                        opt_str_view(tmux_target),
                        status,
                        event_type@,
                        opt_str_view(tool_name),
                        now,
                    ));
                    assert(rows_upserted(
                        self.rows(),
                        old(self).rows(),
                        session_id@,
                        project_path@,
                        opt_str_view(transcript_path),
                        opt_str_view(git_branch),
                        opt_str_view(tmux_target),
                        status,
                        event_type@,
                        opt_str_view(tool_name),
                        now,
                    ));
                }
                false
            },
        }
    }

    /// Idempotent placeholder registration: returns the synthetic id, adding
    /// a `Starting` row only when none exists for this project path yet.
    pub fn register_placeholder(&mut self, project_path: &str, now: i64) -> (r: String)
        requires
            old(self).wf(),
        ensures
            final(self).wf(),
            final(self).events() == old(self).events(),
            final(self).todos() == old(self).todos(),
            r@ == spec_placeholder_id(project_path@),
            has_plate(old(self).rows(), spec_placeholder_id(project_path@)) ==> final(self).rows()
                == old(self).rows(),
            !has_plate(old(self).rows(), spec_placeholder_id(project_path@)) ==> ({
                &&& final(self).rows().len() == old(self).rows().len() + 1
                &&& final(self).rows().drop_last() == old(self).rows()
                &&& placeholder_row(final(self).rows().last(), project_path@, now)
            }),
    {
        let ph = concat_str("pending:", project_path);
        let found = self.find_plate_idx(ph.as_str());
        match found {
            Some(_) => ph,
            None => {
                let p = Plate {
                    session_id: ph.clone(),
                    project_path: String::from_str(project_path),
                    transcript_path: None,
                    git_branch: None,
                    tmux_target: None,
                    status: PlateStatus::Starting,
                    last_event_type: None,
                    last_tool: None,
                    summary: None,
                    goal: None,
                    todo_progress: None,
                    created_at: now,
                    updated_at: now,
                };
                self.plates.push(p);
                proof {
                    assert(self.rows().drop_last() =~= old(self).rows());
                }
                ph
            },
        }
    }

    /// Loads one saved row, as when reopening a persisted table at startup;
    /// a row whose session id is already present is refused.
    pub fn restore_plate(&mut self, plate: Plate) -> (r: bool)
        requires
            old(self).wf(),
        ensures
            final(self).wf(),
            final(self).events() == old(self).events(),
            final(self).todos() == old(self).todos(),
            r == !has_plate(old(self).rows(), plate.session_id@),
            r ==> final(self).rows() == old(self).rows().push(plate),
            !r ==> final(self).rows() == old(self).rows(),
    {
        match self.find_plate_idx(plate.session_id.as_str()) {
            Some(_) => false,
            None => {
                self.plates.push(plate);
                true
            },
        }
    }

    /// The whole event log, in append order, as when persisting the store.
    pub fn list_events(&self) -> (r: Vec<EventRecord>)
        ensures
            r@ == self.events(),
    {
        let mut out: Vec<EventRecord> = Vec::new();
        let mut i: usize = 0;
        while i < self.events.len()
            invariant
                i <= self.events().len(),
                out@ == self.events().subrange(0, i as int),
            decreases self.events().len() - i,
        {
            out.push(self.events[i].clone());
            proof {
                assert(out@ =~= self.events().subrange(0, i + 1));
            }
            i += 1;
        }
        proof {
            assert(self.events().subrange(0, self.events().len() as int) =~= self.events());
        }
        out
    }

    /// All todo snapshots, as when persisting the store.
    pub fn list_todos(&self) -> (r: Vec<TodoRecord>)
        ensures
            r@ == self.todos(),
    {
        let mut out: Vec<TodoRecord> = Vec::new();
        let mut i: usize = 0;
        while i < self.todos.len()
            invariant
                i <= self.todos().len(),
                out@ == self.todos().subrange(0, i as int),
            decreases self.todos().len() - i,
        {
            out.push(self.todos[i].clone());
            proof {
                assert(out@ =~= self.todos().subrange(0, i + 1));
            }
            i += 1;
        }
        proof {
            assert(self.todos().subrange(0, self.todos().len() as int) =~= self.todos());
        }
        out
    }

    /// Loads one saved event, as when reopening a persisted log at startup.
    pub fn restore_event(&mut self, event: EventRecord)
        requires
            old(self).wf(),
        ensures
            final(self).wf(),
            final(self).rows() == old(self).rows(),
            final(self).todos() == old(self).todos(),
            final(self).events() == old(self).events().push(event),
    {
        self.events.push(event);
    }

    /// Loads one saved todo snapshot; a snapshot whose session id is
    /// already present is refused.
    pub fn restore_todo(&mut self, todo: TodoRecord) -> (r: bool)
        requires
            old(self).wf(),
        ensures
            final(self).wf(),
            final(self).rows() == old(self).rows(),
            final(self).events() == old(self).events(),
            r == !has_todo(old(self).todos(), todo.session_id@),
            r ==> final(self).todos() == old(self).todos().push(todo),
            !r ==> final(self).todos() == old(self).todos(),
    {
        match self.find_todo_idx(todo.session_id.as_str()) {
            Some(_) => false,
            None => {
                self.todos.push(todo);
                true
            },
        }
    }

    /// Closes every non-closed session of a project path and returns the
    /// affected ids, in row order, for per-id notifications.
    pub fn mark_stopped(&mut self, project_path: &str, now: i64) -> (r: Vec<String>)
        requires
            old(self).wf(),
        ensures
            final(self).wf(),
            final(self).events() == old(self).events(),
            final(self).todos() == old(self).todos(),
            final(self).rows().len() == old(self).rows().len(),
            forall|i: int|
                0 <= i < old(self).rows().len() ==> if stopped_here(
                    old(self).rows()[i],
                    project_path@,
                ) {
                    closed_row(final(self).rows()[i], old(self).rows()[i], now)
                } else {
                    final(self).rows()[i] == old(self).rows()[i]
                },
            strs_view(r@) == old(self).rows().filter(
                |p: Plate| stopped_here(p, project_path@),
            ).map_values(|p: Plate| p.session_id@),
    {
        let ghost rows0 = self.rows();
        let ghost pred = |p: Plate| stopped_here(p, project_path@);
        let mut new_plates: Vec<Plate> = Vec::new();
        let mut ids: Vec<String> = Vec::new();
        let mut i: usize = 0;
        proof {
            reveal(Seq::filter);
            assert(rows0.subrange(0, 0) =~= Seq::<Plate>::empty());
            assert(strs_view(ids@) =~= rows0.subrange(0, 0).filter(pred).map_values(
                |p: Plate| p.session_id@,
            ));
        }
        while i < self.plates.len()
            invariant
                i <= rows0.len(),
                self.rows() == rows0,
                new_plates@.len() == i,
                forall|k: int|
                    0 <= k < i ==> if stopped_here(rows0[k], project_path@) {
                        closed_row(new_plates@[k], rows0[k], now)
                    } else {
                        new_plates@[k] == rows0[k]
                    },
                pred == (|p: Plate| stopped_here(p, project_path@)),
                strs_view(ids@) == rows0.subrange(0, i as int).filter(pred).map_values(
                    |p: Plate| p.session_id@,
                ),
            decreases rows0.len() - i,
        {
            let p = &self.plates[i];
            let affected = str_eq(p.project_path.as_str(), project_path) && p.status
                != PlateStatus::Closed;
            let ghost ids_before = ids@;
            proof {
                assert(affected == pred(rows0[i as int]));
            }
            if affected {
                ids.push(p.session_id.clone());
                let o = p.clone();
                new_plates.push(
                    Plate {
                        session_id: o.session_id,
                        project_path: o.project_path,
                        transcript_path: o.transcript_path,
                        git_branch: o.git_branch,
                        tmux_target: o.tmux_target,
                        status: PlateStatus::Closed,
                        last_event_type: o.last_event_type,
                        last_tool: o.last_tool,
                        summary: o.summary,
                        goal: o.goal,
                        todo_progress: o.todo_progress,
                        created_at: o.created_at,
                        updated_at: now,
                    },
                );
            } else {
                new_plates.push(p.clone());
            }
            proof {
                reveal(Seq::filter);
                let sid_of = |p: Plate| p.session_id@;
                let prefix0 = rows0.subrange(0, i as int);
                let prefix1 = rows0.subrange(0, i + 1);
                assert(prefix1.drop_last() =~= prefix0);
                assert(prefix1.last() == rows0[i as int]);
                if pred(rows0[i as int]) {
                    assert(ids@ == ids_before.push(rows0[i as int].session_id));
                    assert(prefix1.filter(pred) == prefix0.filter(pred).push(rows0[i as int]));
                    assert(strs_view(ids@) =~= strs_view(ids_before).push(
                        rows0[i as int].session_id@,
                    ));
                    assert(prefix1.filter(pred).map_values(sid_of) =~= prefix0.filter(
                        pred,
                    ).map_values(sid_of).push(rows0[i as int].session_id@));
                } else {
                    assert(prefix1.filter(pred) == prefix0.filter(pred));
                    assert(ids@ == ids_before);
                }
                assert(strs_view(ids@) =~= prefix1.filter(pred).map_values(sid_of));
                assert(strs_view(ids@) =~= prefix1.filter(pred).map_values(
                    |p: Plate| p.session_id@,
                ));
            }
            i += 1;
        }
        proof {
            assert(rows0.subrange(0, rows0.len() as int) =~= rows0);
        }
        self.plates = new_plates;
        proof {
            assert forall|a: int, b: int|
                0 <= a < b < self.rows().len() implies self.rows()[a].session_id@
                != self.rows()[b].session_id@ by {
                assert(self.rows()[a].session_id == rows0[a].session_id);
                assert(self.rows()[b].session_id == rows0[b].session_id);
            }
        }
        ids
    }

    /// Appends one event to the durable log.
    pub fn insert_event(&mut self, session_id: &str, event_type: &str, payload: &str, now: i64)
        requires
            old(self).wf(),
        ensures
            final(self).wf(),
            final(self).rows() == old(self).rows(),
            final(self).todos() == old(self).todos(),
            event_appended(
                final(self).events(),
                old(self).events(),
                session_id@,
                event_type@,
                payload@,
                now,
            ),
    {
        self.events.push(
            EventRecord {
                session_id: String::from_str(session_id),
                event_type: String::from_str(event_type),
                payload: String::from_str(payload),
                created_at: now,
            },
        );
        proof {
            assert(self.events().drop_last() =~= old(self).events());
        }
    }

    /// How many events the log holds for this session.
    pub fn get_event_count(&self, session_id: &str) -> (c: usize)
        ensures
            c == self.events().filter(|e: EventRecord| e.session_id@ == session_id@).len(),
    {
        let ghost all = self.events();
        let ghost pred = |e: EventRecord| e.session_id@ == session_id@;
        let mut c: usize = 0;
        let mut i: usize = 0;
        proof {
            reveal(Seq::filter);
            assert(all.subrange(0, 0) =~= Seq::<EventRecord>::empty());
        }
        while i < self.events.len()
            invariant
                i <= all.len(),
                self.events() == all,
                pred == (|e: EventRecord| e.session_id@ == session_id@),
                c <= i,
                c == all.subrange(0, i as int).filter(pred).len(),
            decreases all.len() - i,
        {
            let matched = str_eq(self.events[i].session_id.as_str(), session_id);
            proof {
                reveal(Seq::filter);
                assert(all.subrange(0, i + 1).drop_last() =~= all.subrange(0, i as int));
                assert(all.subrange(0, i + 1).last() == all[i as int]);
                all.subrange(0, i + 1).drop_last().lemma_filter_len(pred);
            }
            if matched {
                c += 1;
            }
            i += 1;
        }
        proof {
            assert(all.subrange(0, all.len() as int) =~= all);
        }
        c
    }

    /// Replaces a session's todo snapshot wholesale, deriving the progress
    /// pair from the snapshot text.
    pub fn upsert_todos(&mut self, session_id: &str, todos_json: &str, now: i64)
        requires
            old(self).wf(),
        ensures
            final(self).wf(),
            final(self).rows() == old(self).rows(),
            final(self).events() == old(self).events(),
            todos_replaced(final(self).todos(), old(self).todos(), session_id@, todos_json@, now),
    {
        let parsed = parse_todo_statuses(todos_json);
        let (ok, completed, total): (bool, usize, usize) = match &parsed {
            Some(v) => (true, count_completed(v), v.len()),
            None => (false, 0, 0),
        };
        let ghost all = self.todos();
        let ghost pred = |t: TodoRecord| t.session_id@ != session_id@;
        let mut kept: Vec<TodoRecord> = Vec::new();
        let mut i: usize = 0;
        proof {
            reveal(Seq::filter);
            assert(all.subrange(0, 0) =~= Seq::<TodoRecord>::empty());
            assert(kept@ =~= all.subrange(0, 0).filter(pred));
        }
        while i < self.todos.len()
            invariant
                i <= all.len(),
                self.todos() == all,
                pred == (|t: TodoRecord| t.session_id@ != session_id@),
                kept@ == all.subrange(0, i as int).filter(pred),
            decreases all.len() - i,
        {
            let t = &self.todos[i];
            let keep = !str_eq(t.session_id.as_str(), session_id);
            proof {
                reveal(Seq::filter);
                assert(all.subrange(0, i + 1).drop_last() =~= all.subrange(0, i as int));
                assert(all.subrange(0, i + 1).last() == all[i as int]);
            }
            if keep {
                kept.push(
                    TodoRecord {
                        session_id: t.session_id.clone(),
                        todos_json: t.todos_json.clone(),
                        parsed: t.parsed,
                        completed: t.completed,
                        total: t.total,
                        updated_at: t.updated_at,
                    },
                );
            }
            i += 1;
        }
        proof {
            assert(all.subrange(0, all.len() as int) =~= all);
            lemma_filter_keeps_distinct_keys(all, pred, |t: TodoRecord| t.session_id@);
            lemma_filter_elements(all, pred);
        }
        kept.push(
            TodoRecord {
                session_id: String::from_str(session_id),
                todos_json: String::from_str(todos_json),
                parsed: ok,
                completed,
                total,
                updated_at: now,
            },
        );
        self.todos = kept;
        proof {
            assert(self.todos().drop_last() =~= all.filter(pred));
            assert forall|a: int, b: int|
                0 <= a < b < self.todos().len() implies self.todos()[a].session_id@
                != self.todos()[b].session_id@ by {
                if b < self.todos().len() - 1 {
                    assert(all.filter(pred)[a].session_id@ != all.filter(pred)[b].session_id@);
                } else {
                    assert(pred(all.filter(pred)[a]));
                }
            }
        }
    }

    /// Removes a session together with all of its events and its todo
    /// snapshot: nothing keyed by this id survives.
    pub fn delete_plate(&mut self, session_id: &str)
        requires
            old(self).wf(),
        ensures
            final(self).wf(),
            final(self).rows() == old(self).rows().filter(
                |p: Plate| p.session_id@ != session_id@,
            ),
            final(self).events() == old(self).events().filter(
                |e: EventRecord| e.session_id@ != session_id@,
            ),
            final(self).todos() == old(self).todos().filter(
                |t: TodoRecord| t.session_id@ != session_id@,
            ),
    {
        let ghost rows0 = self.rows();
        let ghost events0 = self.events();
        let ghost todos0 = self.todos();
        let ghost ppred = |p: Plate| p.session_id@ != session_id@;
        let ghost epred = |e: EventRecord| e.session_id@ != session_id@;
        let ghost tpred = |t: TodoRecord| t.session_id@ != session_id@;

        let mut new_plates: Vec<Plate> = Vec::new();
        let mut i: usize = 0;
        proof {
            reveal(Seq::filter);
            assert(new_plates@ =~= rows0.subrange(0, 0).filter(ppred));
        }
        while i < self.plates.len()
            invariant
                i <= rows0.len(),
                self.rows() == rows0,
                ppred == (|p: Plate| p.session_id@ != session_id@),
                new_plates@ == rows0.subrange(0, i as int).filter(ppred),
            decreases rows0.len() - i,
        {
            let p = &self.plates[i];
            let keep = !str_eq(p.session_id.as_str(), session_id);
            proof {
                reveal(Seq::filter);
                assert(rows0.subrange(0, i + 1).drop_last() =~= rows0.subrange(0, i as int));
                assert(rows0.subrange(0, i + 1).last() == rows0[i as int]);
            }
            if keep {
                new_plates.push(p.clone());
            }
            i += 1;
        }

        let mut new_events: Vec<EventRecord> = Vec::new();
        let mut j: usize = 0;
        proof {
            reveal(Seq::filter);
            assert(new_events@ =~= events0.subrange(0, 0).filter(epred));
        }
        while j < self.events.len()
            invariant
                j <= events0.len(),
                self.events() == events0,
                epred == (|e: EventRecord| e.session_id@ != session_id@),
                new_events@ == events0.subrange(0, j as int).filter(epred),
            decreases events0.len() - j,
        {
            let e = &self.events[j];
            let keep = !str_eq(e.session_id.as_str(), session_id);
            proof {
                reveal(Seq::filter);
                assert(events0.subrange(0, j + 1).drop_last() =~= events0.subrange(0, j as int));
                assert(events0.subrange(0, j + 1).last() == events0[j as int]);
            }
            if keep {
                new_events.push(
                    EventRecord {
                        session_id: e.session_id.clone(),
                        event_type: e.event_type.clone(),
                        payload: e.payload.clone(),
                        created_at: e.created_at,
                    },
                );
            }
            j += 1;
        }

        let mut new_todos: Vec<TodoRecord> = Vec::new();
        let mut k: usize = 0;
        proof {
            reveal(Seq::filter);
            assert(new_todos@ =~= todos0.subrange(0, 0).filter(tpred));
        }
        while k < self.todos.len()
            invariant
                k <= todos0.len(),
                self.todos() == todos0,
                tpred == (|t: TodoRecord| t.session_id@ != session_id@),
                new_todos@ == todos0.subrange(0, k as int).filter(tpred),
            decreases todos0.len() - k,
        {
            let t = &self.todos[k];
            let keep = !str_eq(t.session_id.as_str(), session_id);
            proof {
                reveal(Seq::filter);
                assert(todos0.subrange(0, k + 1).drop_last() =~= todos0.subrange(0, k as int));
                assert(todos0.subrange(0, k + 1).last() == todos0[k as int]);
            }
            if keep {
                new_todos.push(
                    TodoRecord {
                        session_id: t.session_id.clone(),
                        todos_json: t.todos_json.clone(),
                        parsed: t.parsed,
                        completed: t.completed,
                        total: t.total,
                        updated_at: t.updated_at,
                    },
                );
            }
            k += 1;
        }

        self.plates = new_plates;
        self.events = new_events;
        self.todos = new_todos;
        proof {
            assert(rows0.subrange(0, rows0.len() as int) =~= rows0);
            assert(events0.subrange(0, events0.len() as int) =~= events0);
            assert(todos0.subrange(0, todos0.len() as int) =~= todos0);
            lemma_filter_keeps_distinct_keys(rows0, ppred, |p: Plate| p.session_id@);
            lemma_filter_keeps_distinct_keys(todos0, tpred, |t: TodoRecord| t.session_id@);
        }
    }

    /// The transcript path recorded for a session, when the session exists
    /// and has one.
    pub fn get_transcript_path(&self, session_id: &str) -> (r: Option<String>)
        requires
            self.wf(),
        ensures
            has_plate(self.rows(), session_id@) ==> r == self.rows()[plate_index(
                self.rows(),
                session_id@,
            )].transcript_path,
            !has_plate(self.rows(), session_id@) ==> r is None,
    {
        match self.find_plate_idx(session_id) {
            Some(i) => {
                proof {
                    Self::lemma_found_is_index(self.rows(), session_id@, i as int);
                }
                clone_opt_string(&self.plates[i].transcript_path)
            },
            None => None,
        }
    }

    /// The summary recorded for a session, when the session exists and has
    /// one.
    pub fn get_summary(&self, session_id: &str) -> (r: Option<String>)
        requires
            self.wf(),
        ensures
            has_plate(self.rows(), session_id@) ==> r == self.rows()[plate_index(
                self.rows(),
                session_id@,
            )].summary,
            !has_plate(self.rows(), session_id@) ==> r is None,
    {
        match self.find_plate_idx(session_id) {
            Some(i) => {
                proof {
                    Self::lemma_found_is_index(self.rows(), session_id@, i as int);
                }
                clone_opt_string(&self.plates[i].summary)
            },
            None => None,
        }
    }

    /// The cached goal recorded for a session, when the session exists and
    /// has one.
    pub fn get_goal(&self, session_id: &str) -> (r: Option<String>)
        requires
            self.wf(),
        ensures
            has_plate(self.rows(), session_id@) ==> r == self.rows()[plate_index(
                self.rows(),
                session_id@,
            )].goal,
            !has_plate(self.rows(), session_id@) ==> r is None,
    {
        match self.find_plate_idx(session_id) {
            Some(i) => {
                proof {
                    Self::lemma_found_is_index(self.rows(), session_id@, i as int);
                }
                clone_opt_string(&self.plates[i].goal)
            },
            None => None,
        }
    }

    /// Overwrites a session's summary; a missing session is a no-op.
    pub fn set_summary(&mut self, session_id: &str, summary: &str)
        requires
            old(self).wf(),
        ensures
            final(self).wf(),
            final(self).events() == old(self).events(),
            final(self).todos() == old(self).todos(),
            !has_plate(old(self).rows(), session_id@) ==> final(self).rows() == old(self).rows(),
            has_plate(old(self).rows(), session_id@) ==> ({
                let j = plate_index(old(self).rows(), session_id@);
                &&& final(self).rows().len() == old(self).rows().len()
                &&& (forall|i: int|
                    0 <= i < old(self).rows().len() && i != j ==> final(self).rows()[i] == old(
                        self,
                    ).rows()[i])
                &&& summary_set(final(self).rows()[j], old(self).rows()[j], summary@)
            }),
    {
        match self.find_plate_idx(session_id) {
            Some(i) => {
                proof {
                    Self::lemma_found_is_index(self.rows(), session_id@, i as int);
                }
                let o = self.plates[i].clone();
                let n = Plate {
                    session_id: o.session_id,
                    project_path: o.project_path,
                    transcript_path: o.transcript_path,
                    git_branch: o.git_branch,
                    tmux_target: o.tmux_target,
                    status: o.status,
                    last_event_type: o.last_event_type,
                    last_tool: o.last_tool,
                    summary: Some(String::from_str(summary)),
                    goal: o.goal,
                    todo_progress: o.todo_progress,
                    created_at: o.created_at,
                    updated_at: o.updated_at,
                };
                let _ = self.plates.remove(i);
                self.plates.insert(i, n);
                proof {
                    assert(self.rows() =~= old(self).rows().update(i as int, self.rows()[i as int]));
                }
            },
            None => {},
        }
    }

    /// Index of the todo snapshot for this session id, if any.
    fn find_todo_idx(&self, session_id: &str) -> (r: Option<usize>)
        ensures
            match r {
                Some(i) => i < self.todos().len() && self.todos()[i as int].session_id@
                    == session_id@,
                None => !has_todo(self.todos(), session_id@),
            },
    {
        let mut i: usize = 0;
        while i < self.todos.len()
            invariant
                i <= self.todos().len(),
                forall|k: int| 0 <= k < i ==> self.todos()[k].session_id@ != session_id@,
            decreases self.todos().len() - i,
        {
            if str_eq(self.todos[i].session_id.as_str(), session_id) {
                return Some(i);
            }
            i += 1;
        }
        None
    }

    /// The stored table joined with its snapshots, in row order.
    fn joined(&self) -> (r: Vec<Plate>)
        requires
            self.wf(),
        ensures
            joined_rows(self.rows(), self.todos(), r@),
    {
        let mut out: Vec<Plate> = Vec::new();
        let mut i: usize = 0;
        while i < self.plates.len()
            invariant
                self.wf(),
                i <= self.rows().len(),
                out@.len() == i,
                forall|k: int|
                    0 <= k < i ==> row_with_progress(#[trigger] out@[k], self.rows()[k],
                    self.todos()),
            decreases self.rows().len() - i,
        {
            let o = self.plates[i].clone();
            let progress: Option<String> = match self.find_todo_idx(o.session_id.as_str()) {
                Some(t) => {
                    proof {
                        let j = todo_index(self.todos(), self.rows()[i as int].session_id@);
                        assert(0 <= j < self.todos().len() && self.todos()[j].session_id@
                            == self.rows()[i as int].session_id@);
                        if j != t as int {
                            assert(self.todos()[j].session_id@ != self.todos()[t as int].session_id@);
                        }
                    }
                    let rec = &self.todos[t];
                    if rec.parsed {
                        Some(progress_string(rec.completed, rec.total))
                    } else {
                        None
                    }
                },
                None => None,
            };
            out.push(
                Plate {
                    session_id: o.session_id,
                    project_path: o.project_path,
                    transcript_path: o.transcript_path,
                    git_branch: o.git_branch,
                    tmux_target: o.tmux_target,
                    status: o.status,
                    last_event_type: o.last_event_type,
                    last_tool: o.last_tool,
                    summary: o.summary,
                    goal: o.goal,
                    todo_progress: progress,
                    created_at: o.created_at,
                    updated_at: o.updated_at,
                },
            );
            i += 1;
        }
        out
    }

    /// The full session list as served to viewers: every row, joined with
    /// its todo progress, newest update first.
    pub fn get_plates(&self) -> (r: Vec<Plate>)
        requires
            self.wf(),
        ensures
            sorted_desc(r@),
            r@.len() == self.rows().len(),
            exists|m: Seq<Plate>|
                joined_rows(self.rows(), self.todos(), m) && r@.to_multiset() == #[trigger] m.to_multiset(),
    {
        let joined = self.joined();
        let ghost m = joined@;
        let r = sort_plates_desc(joined);
        proof {
            broadcast use vstd::seq_lib::group_to_multiset_ensures;

            assert(r@.len() == r@.to_multiset().len());
            assert(m.len() == m.to_multiset().len());
            assert(joined_rows(self.rows(), self.todos(), m) && r@.to_multiset()
                == m.to_multiset());
        }
        r
    }

    /// The stored row of a session, when it exists.
    pub fn get_plate(&self, session_id: &str) -> (r: Option<Plate>)
        requires
            self.wf(),
        ensures
            has_plate(self.rows(), session_id@) ==> r == Some(
                self.rows()[plate_index(self.rows(), session_id@)],
            ),
            !has_plate(self.rows(), session_id@) ==> r is None,
    {
        match self.find_plate_idx(session_id) {
            Some(i) => {
                proof {
                    Self::lemma_found_is_index(self.rows(), session_id@, i as int);
                }
                Some(self.plates[i].clone())
            },
            None => None,
        }
    }

    /// Direct status write used by reconciliation transitions, where only
    /// the status and the update time change; a missing session is a no-op.
    pub fn set_status(&mut self, session_id: &str, status: PlateStatus, now: i64)
        requires
            old(self).wf(),
        ensures
            final(self).wf(),
            final(self).events() == old(self).events(),
            final(self).todos() == old(self).todos(),
            !has_plate(old(self).rows(), session_id@) ==> final(self).rows() == old(self).rows(),
            has_plate(old(self).rows(), session_id@) ==> ({
                let j = plate_index(old(self).rows(), session_id@);
                &&& final(self).rows().len() == old(self).rows().len()
                &&& (forall|i: int|
                    0 <= i < old(self).rows().len() && i != j ==> final(self).rows()[i] == old(
                        self,
                    ).rows()[i])
                &&& status_set(final(self).rows()[j], old(self).rows()[j], status, now)
            }),
    {
        match self.find_plate_idx(session_id) {
            Some(i) => {
                proof {
                    Self::lemma_found_is_index(self.rows(), session_id@, i as int);
                }
                let o = self.plates[i].clone();
                let n = Plate {
                    session_id: o.session_id,
                    project_path: o.project_path,
                    transcript_path: o.transcript_path,
                    git_branch: o.git_branch,
                    tmux_target: o.tmux_target,
                    status,
                    last_event_type: o.last_event_type,
                    last_tool: o.last_tool,
                    summary: o.summary,
                    goal: o.goal,
                    todo_progress: o.todo_progress,
                    created_at: o.created_at,
                    updated_at: now,
                };
                let _ = self.plates.remove(i);
                self.plates.insert(i, n);
                proof {
                    assert(self.rows() =~= old(self).rows().update(i as int, self.rows()[i as int]));
                }
            },
            None => {},
        }
    }

    /// Overwrites a session's cached goal; a missing session is a no-op.
    pub fn set_goal(&mut self, session_id: &str, goal: &str)
        requires
            old(self).wf(),
        ensures
            final(self).wf(),
            final(self).events() == old(self).events(),
            final(self).todos() == old(self).todos(),
            !has_plate(old(self).rows(), session_id@) ==> final(self).rows() == old(self).rows(),
            has_plate(old(self).rows(), session_id@) ==> ({
                let j = plate_index(old(self).rows(), session_id@);
                &&& final(self).rows().len() == old(self).rows().len()
                &&& (forall|i: int|
                    0 <= i < old(self).rows().len() && i != j ==> final(self).rows()[i] == old(
                        self,
                    ).rows()[i])
                &&& goal_set(final(self).rows()[j], old(self).rows()[j], goal@)
            }),
    {
        match self.find_plate_idx(session_id) {
            Some(i) => {
                proof {
                    Self::lemma_found_is_index(self.rows(), session_id@, i as int);
                }
                let o = self.plates[i].clone();
                let n = Plate {
                    session_id: o.session_id,
                    project_path: o.project_path,
                    transcript_path: o.transcript_path,
                    git_branch: o.git_branch,
                    tmux_target: o.tmux_target,
                    status: o.status,
                    last_event_type: o.last_event_type,
                    last_tool: o.last_tool,
                    summary: o.summary,
                    goal: Some(String::from_str(goal)),
                    todo_progress: o.todo_progress,
                    created_at: o.created_at,
                    updated_at: o.updated_at,
                };
                let _ = self.plates.remove(i);
                self.plates.insert(i, n);
                proof {
                    assert(self.rows() =~= old(self).rows().update(i as int, self.rows()[i as int]));
                }
            },
            None => {},
        }
    }
}

} // verus!
