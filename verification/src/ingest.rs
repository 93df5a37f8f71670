//! Event ingestion: how one inbound hook event becomes a status, a session
//! upsert, a todo-snapshot refresh and a log append, and when it triggers
//! the opportunistic summarization collaborator.

use vstd::prelude::*;

use crate::models::{HookEvent, PlateStatus, SummaryResult};
use crate::payload::{extract_todos_field, todos_field_of};
use crate::state_machine::{spec_event_from_hook, spec_transition, Event};
use crate::store::{
    event_appended, has_plate, plate_index, rows_upserted, todos_replaced, SessionStore,
};
use crate::text::{opt_deref, opt_str_view, opt_string_view, str_eq};

verus! {

/// The status an inbound event implies. The model is not history sensitive,
/// so ingestion feeds it the nominal `Running` state rather than the stored
/// one; every externally sourced event determines the result outright.
pub open spec fn spec_determine_status(
    event_type: Seq<char>,
    tool_name: Option<Seq<char>>,
    error: Option<Seq<char>>,
) -> PlateStatus {
    spec_transition(PlateStatus::Running, spec_event_from_hook(event_type, tool_name, error))
}

pub fn determine_status(event: &HookEvent) -> (r: PlateStatus)
    ensures
        r == spec_determine_status(
            event.event_type@,
            opt_string_view(event.tool_name),
            opt_string_view(event.error),
        ),
{
    let sm_event = Event::from_hook(
        event.event_type.as_str(),
        opt_deref(&event.tool_name),
        opt_deref(&event.error),
    );
    PlateStatus::Running.transition(&sm_event)
}

/// The todo-snapshot text an event carries: present exactly when the event
/// reports the todo-writing tool and its parameters hold a `todos` field.
pub open spec fn spec_todos_update(event: HookEvent) -> Option<Seq<char>> {
    if opt_string_view(event.tool_name) == Some("TodoWrite"@) {
        match event.tool_params {
            Some(ps) => todos_field_of(ps@),
            None => None,
        }
    } else {
        None
    }
}

/// Applies one inbound event to the store: computes the new status, upserts
/// the session (promoting any placeholder), refreshes the todo snapshot when
/// the event carries one, and appends the raw payload to the event log.
/// Returns whether the session already existed and the status written.
pub fn ingest_event(store: &mut SessionStore, event: &HookEvent, payload_json: &str, now: i64) -> (r
    : (bool, PlateStatus))
    requires
        old(store).wf(),
    ensures
        final(store).wf(),
        r.1 == spec_determine_status(
            event.event_type@,
            opt_string_view(event.tool_name),
            opt_string_view(event.error),
        ),
        r.0 == has_plate(old(store).rows(), event.session_id@),
        rows_upserted(
            final(store).rows(),
            old(store).rows(),
            event.session_id@,
            event.project_path@,
            opt_string_view(event.transcript_path),
            opt_string_view(event.git_branch),
            opt_string_view(event.tmux_target),
            r.1,
            event.event_type@,
            opt_string_view(event.tool_name),
            now,
        ),
        event_appended(
            final(store).events(),
            old(store).events(),
            event.session_id@,
            event.event_type@,
            payload_json@,
            now,
        ),
        spec_todos_update(*event) is None ==> final(store).todos() == old(store).todos(),
        spec_todos_update(*event) matches Some(json) ==> todos_replaced(
            final(store).todos(),
            old(store).todos(),
            event.session_id@,
            json,
            now,
        ),
{
    let status = determine_status(event);
    let existed = store.upsert_plate(
        event.session_id.as_str(),
        event.project_path.as_str(),
        opt_deref(&event.transcript_path),
        opt_deref(&event.git_branch),
        opt_deref(&event.tmux_target),
        status,
        event.event_type.as_str(),
        opt_deref(&event.tool_name),
        now,
    );

    let is_todo_write = match &event.tool_name {
        Some(t) => str_eq(t.as_str(), "TodoWrite"),
        None => false,
    };
    if is_todo_write {
        if let Some(params) = &event.tool_params {
            if let Some(todos_json) = extract_todos_field(params.as_str()) {
                store.upsert_todos(event.session_id.as_str(), todos_json.as_str(), now);
            }
        }
    }

    store.insert_event(event.session_id.as_str(), event.event_type.as_str(), payload_json, now);
    (existed, status)
}

/// When ingestion triggers the external summarizer: always when the new
/// status needs a user's eyes (awaiting input or approval, or freshly
/// idle); on every fifth completed action; and otherwise only while no
/// summary is cached yet.
pub open spec fn spec_should_summarize(
    status: PlateStatus,
    event_type: Seq<char>,
    event_count: nat,
    has_summary: bool,
) -> bool {
    if status is AwaitingInput || status is AwaitingApproval || status is Idle {
        true
    } else if event_type == "tool_call"@ {
        event_count > 0 && event_count % 5 == 0
    } else {
        !has_summary
    }
}

pub fn should_summarize(store: &SessionStore, event: &HookEvent, status: PlateStatus) -> (r: bool)
    requires
        store.wf(),
    ensures
        r == spec_should_summarize(
            status,
            event.event_type@,
            store.events().filter(|e: crate::store::EventRecord| e.session_id@ == event.session_id@).len(),
            has_plate(store.rows(), event.session_id@) && store.rows()[plate_index(
                store.rows(),
                event.session_id@,
            )].summary is Some,
        ),
{
    let needs_attention = match status {
        PlateStatus::AwaitingInput | PlateStatus::AwaitingApproval | PlateStatus::Idle => true,
        _ => false,
    };
    if needs_attention {
        true
    } else if str_eq(event.event_type.as_str(), "tool_call") {
        let event_count = store.get_event_count(event.session_id.as_str());
        event_count > 0 && event_count % 5 == 0
    } else {
        store.get_summary(event.session_id.as_str()).is_none()
    }
}

/// The transcript the summarizer should read for this event: the path the
/// event carries, or failing that the one recorded in the store.
pub fn summarize_transcript(store: &SessionStore, event: &HookEvent) -> (r: Option<String>)
    requires
        store.wf(),
    ensures
        event.transcript_path is Some ==> r == event.transcript_path,
        event.transcript_path is None && has_plate(store.rows(), event.session_id@) ==> r
            == store.rows()[plate_index(store.rows(), event.session_id@)].transcript_path,
        event.transcript_path is None && !has_plate(store.rows(), event.session_id@) ==> r is None,
{
    match &event.transcript_path {
        Some(t) => Some(t.clone()),
        None => store.get_transcript_path(event.session_id.as_str()),
    }
}

/// Applies a summarizer result: caches a freshly extracted goal when there
/// is one, and overwrites the summary. A session deleted in the meantime is
/// left alone.
pub fn apply_summary(store: &mut SessionStore, session_id: &str, result: &SummaryResult)
    requires
        old(store).wf(),
    ensures
        final(store).wf(),
        final(store).events() == old(store).events(),
        final(store).todos() == old(store).todos(),
        !has_plate(old(store).rows(), session_id@) ==> final(store).rows() == old(store).rows(),
        has_plate(old(store).rows(), session_id@) ==> ({
            let j = plate_index(old(store).rows(), session_id@);
            let n = final(store).rows()[j];
            let o = old(store).rows()[j];
            &&& final(store).rows().len() == old(store).rows().len()
            &&& (forall|i: int|
                0 <= i < old(store).rows().len() && i != j ==> final(store).rows()[i] == old(
                    store,
                ).rows()[i])
            &&& n.session_id == o.session_id
            &&& n.project_path == o.project_path
            &&& n.transcript_path == o.transcript_path
            &&& n.git_branch == o.git_branch
            &&& n.tmux_target == o.tmux_target
            &&& n.status == o.status
            &&& n.last_event_type == o.last_event_type
            &&& n.last_tool == o.last_tool
            &&& opt_string_view(n.summary) == Some(result.summary@)
            &&& (result.goal matches Some(g) ==> opt_string_view(n.goal) == Some(g@))
            &&& (result.goal is None ==> n.goal == o.goal)
            &&& n.todo_progress == o.todo_progress
            &&& n.created_at == o.created_at
            &&& n.updated_at == o.updated_at
        }),
{
    let ghost rows0 = store.rows();
    if let Some(goal) = &result.goal {
        store.set_goal(session_id, goal.as_str());
    }
    proof {
        if has_plate(rows0, session_id@) {
            let j = plate_index(rows0, session_id@);
            assert(store.rows()[j].session_id == rows0[j].session_id);
            SessionStore::lemma_found_is_index(store.rows(), session_id@, j);
        } else {
            if has_plate(store.rows(), session_id@) {
                let j = plate_index(store.rows(), session_id@);
                assert(rows0[j].session_id@ == session_id@);
            }
        }
    }
    store.set_summary(session_id, result.summary.as_str());
}

} // verus!
