use plate_spinner::ingest::{
    apply_summary, determine_status, ingest_event, should_summarize, summarize_transcript,
};
use plate_spinner::models::{HookEvent, PlateStatus, SummaryResult};
use plate_spinner::reconcile::{run_recovery_cycle, PlateObservation, Reconciler};
use plate_spinner::store::SessionStore;

fn event(session_id: &str, project_path: &str, event_type: &str) -> HookEvent {
    HookEvent {
        session_id: session_id.to_string(),
        project_path: project_path.to_string(),
        event_type: event_type.to_string(),
        tool_name: None,
        tool_params: None,
        transcript_path: None,
        git_branch: None,
        tmux_target: None,
        error: None,
    }
}

#[test]
fn determine_status_follows_the_event() {
    assert_eq!(determine_status(&event("a", "/r", "session_start")), PlateStatus::Running);
    let mut e = event("a", "/r", "tool_start");
    e.tool_name = Some("AskUserQuestion".to_string());
    assert_eq!(determine_status(&e), PlateStatus::AwaitingInput);
    let mut e = event("a", "/r", "stop");
    e.error = Some("boom".to_string());
    assert_eq!(determine_status(&e), PlateStatus::Error);
    assert_eq!(determine_status(&event("a", "/r", "stop")), PlateStatus::Idle);
}

#[test]
fn placeholder_then_events_then_stop() {
    // Register a placeholder, receive the real session, walk it through a
    // question, a clean stop, and a project-level stop notification.
    let mut store = SessionStore::new();
    let placeholder = store.register_placeholder("/repo", 10);
    assert_eq!(placeholder, "pending:/repo");

    let start = event("abc", "/repo", "session_start");
    let (existed, status) = ingest_event(&mut store, &start, "{}", 20);
    assert!(!existed);
    assert_eq!(status, PlateStatus::Running);

    let mut ask = event("abc", "/repo", "tool_start");
    ask.tool_name = Some("AskUserQuestion".to_string());
    let (existed, status) = ingest_event(&mut store, &ask, "{}", 30);
    assert!(existed);
    assert_eq!(status, PlateStatus::AwaitingInput);

    let repo_rows: Vec<_> = store
        .get_plates()
        .into_iter()
        .filter(|p| p.project_path == "/repo")
        .collect();
    assert_eq!(repo_rows.len(), 1);
    assert_eq!(repo_rows[0].session_id, "abc");
    assert_eq!(repo_rows[0].status, PlateStatus::AwaitingInput);

    let (_, status) = ingest_event(&mut store, &event("abc", "/repo", "stop"), "{}", 40);
    assert_eq!(status, PlateStatus::Idle);
    assert_eq!(store.get_plate("abc").unwrap().status, PlateStatus::Idle);

    let ids = store.mark_stopped("/repo", 50);
    assert_eq!(ids, vec!["abc".to_string()]);
    assert_eq!(store.get_plate("abc").unwrap().status, PlateStatus::Closed);
}

#[test]
fn todo_write_event_refreshes_the_snapshot() {
    let mut store = SessionStore::new();
    let mut e = event("abc", "/repo", "tool_start");
    e.tool_name = Some("TodoWrite".to_string());
    e.tool_params = Some(
        r#"{"todos":[{"status":"completed"},{"status":"in_progress"}]}"#.to_string(),
    );
    ingest_event(&mut store, &e, "{}", 100);
    assert_eq!(store.get_plates()[0].todo_progress, Some("1/2".to_string()));
}

#[test]
fn ingestion_records_the_raw_payload() {
    let mut store = SessionStore::new();
    ingest_event(&mut store, &event("abc", "/repo", "session_start"), r#"{"raw":true}"#, 5);
    assert_eq!(store.get_event_count("abc"), 1);
}

#[test]
fn should_summarize_on_attention_cadence_or_missing_summary() {
    let mut store = SessionStore::new();
    let e = event("abc", "/repo", "session_start");
    ingest_event(&mut store, &e, "{}", 1);

    // Attention states always summarize.
    assert!(should_summarize(&store, &e, PlateStatus::AwaitingInput));
    assert!(should_summarize(&store, &e, PlateStatus::Idle));

    // Otherwise a missing summary triggers one; a cached one does not.
    assert!(should_summarize(&store, &e, PlateStatus::Running));
    store.set_summary("abc", "doing things");
    assert!(!should_summarize(&store, &e, PlateStatus::Running));

    // Completed actions summarize on every fifth event.
    let tc = event("abc", "/repo", "tool_call");
    for now in 2..5 {
        ingest_event(&mut store, &tc, "{}", now);
    }
    assert_eq!(store.get_event_count("abc"), 4);
    assert!(!should_summarize(&store, &tc, PlateStatus::Running));
    ingest_event(&mut store, &tc, "{}", 5);
    assert_eq!(store.get_event_count("abc"), 5);
    assert!(should_summarize(&store, &tc, PlateStatus::Running));
}

#[test]
fn summarize_transcript_prefers_the_event_path() {
    let mut store = SessionStore::new();
    let mut e = event("abc", "/repo", "session_start");
    e.transcript_path = Some("/from-event.jsonl".to_string());
    ingest_event(&mut store, &e, "{}", 1);

    assert_eq!(summarize_transcript(&store, &e), Some("/from-event.jsonl".to_string()));
    let plain = event("abc", "/repo", "tool_call");
    assert_eq!(summarize_transcript(&store, &plain), Some("/from-event.jsonl".to_string()));
    let unknown = event("nope", "/repo", "tool_call");
    assert_eq!(summarize_transcript(&store, &unknown), None);
}

#[test]
fn apply_summary_caches_goal_and_overwrites_summary() {
    let mut store = SessionStore::new();
    ingest_event(&mut store, &event("abc", "/repo", "session_start"), "{}", 1);

    let first = SummaryResult {
        goal: Some("Auth system".to_string()),
        summary: "Auth system: running tests".to_string(),
    };
    apply_summary(&mut store, "abc", &first);
    assert_eq!(store.get_goal("abc"), Some("Auth system".to_string()));
    assert_eq!(store.get_summary("abc"), Some("Auth system: running tests".to_string()));

    // A later round without a fresh goal keeps the cached one.
    let second = SummaryResult { goal: None, summary: "Auth system: fixing login".to_string() };
    apply_summary(&mut store, "abc", &second);
    assert_eq!(store.get_goal("abc"), Some("Auth system".to_string()));
    assert_eq!(store.get_summary("abc"), Some("Auth system: fixing login".to_string()));
}

#[test]
fn reconciliation_recovers_a_stale_awaiting_approval_session() {
    // A session awaiting approval whose transcript moved five seconds past
    // the recorded update is recovered to idle by one cycle, with exactly
    // one change notification for its id.
    let mut store = SessionStore::new();
    let mut e = event("abc", "/repo", "tool_start");
    e.tool_name = Some("ExitPlanMode".to_string());
    e.transcript_path = Some("/t.jsonl".to_string());
    ingest_event(&mut store, &e, "{}", 1000);
    assert_eq!(store.get_plate("abc").unwrap().status, PlateStatus::AwaitingApproval);

    let mut rec = Reconciler::new();
    let observations = vec![PlateObservation {
        session_id: "abc".to_string(),
        transcript_mtime_secs: Some(1005),
        transcript_complete: false,
    }];
    let changed = run_recovery_cycle(&mut store, &mut rec, &observations, 1010);
    assert_eq!(changed, vec!["abc".to_string()]);
    let plate = store.get_plate("abc").unwrap();
    assert_eq!(plate.status, PlateStatus::Idle);
    assert_eq!(plate.updated_at, 1010);
}

#[test]
fn reconciliation_leaves_fresh_sessions_alone() {
    let mut store = SessionStore::new();
    let mut e = event("abc", "/repo", "tool_start");
    e.tool_name = Some("ExitPlanMode".to_string());
    ingest_event(&mut store, &e, "{}", 1000);

    let mut rec = Reconciler::new();
    // The transcript is only one second newer than the update: not stale.
    let observations = vec![PlateObservation {
        session_id: "abc".to_string(),
        transcript_mtime_secs: Some(1001),
        transcript_complete: false,
    }];
    let changed = run_recovery_cycle(&mut store, &mut rec, &observations, 1010);
    assert!(changed.is_empty());
    assert_eq!(store.get_plate("abc").unwrap().status, PlateStatus::AwaitingApproval);
}

#[test]
fn running_session_needs_confirmation_or_timeout() {
    let mut store = SessionStore::new();
    ingest_event(&mut store, &event("abc", "/repo", "session_start"), "{}", 1000);

    // Thirty-one seconds of silence, but the transcript does not confirm a
    // completed turn: no recovery.
    let mut rec = Reconciler::new();
    let obs = vec![PlateObservation {
        session_id: "abc".to_string(),
        transcript_mtime_secs: Some(1000),
        transcript_complete: false,
    }];
    assert!(run_recovery_cycle(&mut store, &mut rec, &obs, 1031).is_empty());

    // The same silence with a confirming transcript recovers it.
    let obs = vec![PlateObservation {
        session_id: "abc".to_string(),
        transcript_mtime_secs: Some(1000),
        transcript_complete: true,
    }];
    let changed = run_recovery_cycle(&mut store, &mut rec, &obs, 1041);
    assert_eq!(changed, vec!["abc".to_string()]);
    assert_eq!(store.get_plate("abc").unwrap().status, PlateStatus::Running);
}

#[test]
fn wake_grace_window_shields_running_sessions() {
    let mut store = SessionStore::new();
    ingest_event(&mut store, &event("abc", "/repo", "session_start"), "{}", 1000);

    let mut rec = Reconciler::new();
    let obs = vec![PlateObservation {
        session_id: "abc".to_string(),
        transcript_mtime_secs: Some(1000),
        transcript_complete: true,
    }];
    // First cycle just records the time.
    assert!(run_recovery_cycle(&mut store, &mut rec, &obs, 1005).is_empty());
    // The next cycle comes 100 seconds later: the machine slept, so the
    // stale-looking running session is left alone.
    assert!(run_recovery_cycle(&mut store, &mut rec, &obs, 1105).is_empty());
    // Once the grace window has passed, the recovery fires.
    let changed = run_recovery_cycle(&mut store, &mut rec, &obs, 1120);
    assert_eq!(changed, vec!["abc".to_string()]);
}
