use plate_spinner::models::PlateStatus;
use plate_spinner::store::SessionStore;

#[test]
fn upsert_inserts_then_updates() {
    let mut store = SessionStore::new();
    let existed = store.upsert_plate(
        "abc",
        "/repo",
        Some("/t.jsonl"),
        Some("main"),
        None,
        PlateStatus::Running,
        "session_start",
        None,
        100,
    );
    assert!(!existed);
    let existed = store.upsert_plate(
        "abc",
        "/repo",
        None,
        None,
        None,
        PlateStatus::Idle,
        "stop",
        None,
        110,
    );
    assert!(existed);
    let plates = store.get_plates();
    assert_eq!(plates.len(), 1);
    assert_eq!(plates[0].session_id, "abc");
    assert_eq!(plates[0].status, PlateStatus::Idle);
    assert_eq!(plates[0].created_at, 100);
    assert_eq!(plates[0].updated_at, 110);
}

#[test]
fn placeholder_promotion_leaves_one_active_row() {
    let mut store = SessionStore::new();
    let placeholder = store.register_placeholder("/repo", 50);
    assert_eq!(placeholder, "pending:/repo");
    store.upsert_plate(
        "abc",
        "/repo",
        None,
        None,
        None,
        PlateStatus::Running,
        "session_start",
        None,
        60,
    );
    let plates = store.get_plates();
    let active: Vec<_> = plates
        .iter()
        .filter(|p| p.project_path == "/repo" && p.status != PlateStatus::Closed)
        .collect();
    assert_eq!(active.len(), 1);
    assert_eq!(active[0].session_id, "abc");
    assert!(plates.iter().all(|p| p.session_id != "pending:/repo"));
}

#[test]
fn register_placeholder_is_idempotent() {
    let mut store = SessionStore::new();
    let a = store.register_placeholder("/repo", 10);
    let b = store.register_placeholder("/repo", 20);
    assert_eq!(a, b);
    assert_eq!(store.get_plates().len(), 1);
    assert_eq!(store.get_plates()[0].updated_at, 10);
}

#[test]
fn upsert_none_never_erases_transcript_path() {
    let mut store = SessionStore::new();
    store.upsert_plate(
        "abc",
        "/repo",
        Some("/first.jsonl"),
        None,
        None,
        PlateStatus::Running,
        "session_start",
        None,
        100,
    );
    store.upsert_plate(
        "abc",
        "/repo",
        None,
        None,
        None,
        PlateStatus::Running,
        "tool_call",
        Some("Bash"),
        110,
    );
    assert_eq!(store.get_transcript_path("abc"), Some("/first.jsonl".to_string()));
    store.upsert_plate(
        "abc",
        "/repo",
        Some("/second.jsonl"),
        None,
        None,
        PlateStatus::Running,
        "tool_call",
        None,
        120,
    );
    assert_eq!(store.get_transcript_path("abc"), Some("/second.jsonl".to_string()));
}

#[test]
fn last_tool_follows_every_event() {
    let mut store = SessionStore::new();
    store.upsert_plate(
        "abc",
        "/repo",
        None,
        None,
        None,
        PlateStatus::Running,
        "tool_start",
        Some("Bash"),
        100,
    );
    assert_eq!(store.get_plate("abc").unwrap().last_tool, Some("Bash".to_string()));
    // An event with no tool overwrites the recorded tool with absence:
    // status, last event and last tool all follow the latest event.
    store.upsert_plate(
        "abc",
        "/repo",
        None,
        None,
        None,
        PlateStatus::Idle,
        "stop",
        None,
        110,
    );
    let row = store.get_plate("abc").unwrap();
    assert_eq!(row.last_tool, None);
    assert_eq!(row.last_event_type, Some("stop".to_string()));
}

#[test]
fn mark_stopped_closes_open_rows_and_returns_ids() {
    let mut store = SessionStore::new();
    store.upsert_plate(
        "a1",
        "/repo",
        None,
        None,
        None,
        PlateStatus::Running,
        "session_start",
        None,
        100,
    );
    store.upsert_plate(
        "b2",
        "/other",
        None,
        None,
        None,
        PlateStatus::Running,
        "session_start",
        None,
        100,
    );
    let ids = store.mark_stopped("/repo", 150);
    assert_eq!(ids, vec!["a1".to_string()]);
    assert_eq!(store.get_plate("a1").unwrap().status, PlateStatus::Closed);
    assert_eq!(store.get_plate("a1").unwrap().updated_at, 150);
    assert_eq!(store.get_plate("b2").unwrap().status, PlateStatus::Running);
    // A second call finds nothing left to close.
    assert!(store.mark_stopped("/repo", 160).is_empty());
}

#[test]
fn delete_removes_events_and_todo_snapshot() {
    let mut store = SessionStore::new();
    store.upsert_plate(
        "abc",
        "/repo",
        None,
        None,
        None,
        PlateStatus::Running,
        "session_start",
        None,
        100,
    );
    store.insert_event("abc", "session_start", "{}", 100);
    store.insert_event("abc", "tool_call", "{}", 101);
    store.upsert_todos("abc", r#"[{"status":"completed"}]"#, 102);
    store.insert_event("other", "session_start", "{}", 103);
    assert_eq!(store.get_event_count("abc"), 2);

    store.delete_plate("abc");
    assert!(store.get_plate("abc").is_none());
    assert_eq!(store.get_event_count("abc"), 0);
    assert_eq!(store.get_event_count("other"), 1);
    let plates = store.get_plates();
    assert!(plates.iter().all(|p| p.session_id != "abc"));
}

#[test]
fn todo_snapshot_is_replaced_wholesale() {
    let mut store = SessionStore::new();
    store.upsert_plate(
        "abc",
        "/repo",
        None,
        None,
        None,
        PlateStatus::Running,
        "session_start",
        None,
        100,
    );
    store.upsert_todos(
        "abc",
        r#"[{"status":"completed"},{"status":"pending"},{"status":"completed"}]"#,
        101,
    );
    assert_eq!(store.get_plates()[0].todo_progress, Some("2/3".to_string()));
    store.upsert_todos("abc", r#"[{"status":"pending"}]"#, 102);
    assert_eq!(store.get_plates()[0].todo_progress, Some("0/1".to_string()));
}

#[test]
fn unparsable_todo_snapshot_yields_no_progress() {
    let mut store = SessionStore::new();
    store.upsert_plate(
        "abc",
        "/repo",
        None,
        None,
        None,
        PlateStatus::Running,
        "session_start",
        None,
        100,
    );
    store.upsert_todos("abc", "not json", 101);
    assert_eq!(store.get_plates()[0].todo_progress, None);
}

#[test]
fn get_plates_orders_newest_first() {
    let mut store = SessionStore::new();
    store.upsert_plate(
        "old",
        "/a",
        None,
        None,
        None,
        PlateStatus::Running,
        "session_start",
        None,
        100,
    );
    store.upsert_plate(
        "newer",
        "/b",
        None,
        None,
        None,
        PlateStatus::Running,
        "session_start",
        None,
        200,
    );
    store.upsert_plate(
        "newest",
        "/c",
        None,
        None,
        None,
        PlateStatus::Running,
        "session_start",
        None,
        300,
    );
    let plates = store.get_plates();
    let ids: Vec<_> = plates.iter().map(|p| p.session_id.as_str()).collect();
    assert_eq!(ids, vec!["newest", "newer", "old"]);
}

#[test]
fn summary_and_goal_are_stored_per_session() {
    let mut store = SessionStore::new();
    store.upsert_plate(
        "abc",
        "/repo",
        None,
        None,
        None,
        PlateStatus::Running,
        "session_start",
        None,
        100,
    );
    assert_eq!(store.get_summary("abc"), None);
    assert_eq!(store.get_goal("abc"), None);
    store.set_summary("abc", "Fixing tests");
    store.set_goal("abc", "Auth system");
    assert_eq!(store.get_summary("abc"), Some("Fixing tests".to_string()));
    assert_eq!(store.get_goal("abc"), Some("Auth system".to_string()));
    assert_eq!(store.get_summary("missing"), None);
    // A summary write never advances the update time.
    assert_eq!(store.get_plate("abc").unwrap().updated_at, 100);
}

#[test]
fn restore_loads_saved_rows_once() {
    let mut store = SessionStore::new();
    let row = plate_spinner::models::Plate {
        session_id: "abc".to_string(),
        project_path: "/repo".to_string(),
        transcript_path: Some("/t.jsonl".to_string()),
        git_branch: None,
        tmux_target: None,
        status: PlateStatus::Idle,
        last_event_type: Some("stop".to_string()),
        last_tool: None,
        summary: Some("did things".to_string()),
        goal: None,
        todo_progress: None,
        created_at: 100,
        updated_at: 200,
    };
    assert!(store.restore_plate(row));
    let loaded = store.get_plate("abc").unwrap();
    assert_eq!(loaded.status, PlateStatus::Idle);
    assert_eq!(loaded.summary, Some("did things".to_string()));
    assert_eq!(loaded.created_at, 100);

    // A second row with the same id is refused.
    let dup = plate_spinner::models::Plate {
        session_id: "abc".to_string(),
        project_path: "/elsewhere".to_string(),
        transcript_path: None,
        git_branch: None,
        tmux_target: None,
        status: PlateStatus::Running,
        last_event_type: None,
        last_tool: None,
        summary: None,
        goal: None,
        todo_progress: None,
        created_at: 300,
        updated_at: 300,
    };
    assert!(!store.restore_plate(dup));
    assert_eq!(store.get_plates().len(), 1);
    assert_eq!(store.get_plate("abc").unwrap().project_path, "/repo");
}

#[test]
fn snapshot_round_trip_keeps_all_three_tables() {
    let mut store = SessionStore::new();
    store.upsert_plate(
        "abc",
        "/repo",
        None,
        None,
        None,
        PlateStatus::Running,
        "session_start",
        None,
        100,
    );
    store.insert_event("abc", "session_start", r#"{"n":1}"#, 100);
    store.insert_event("abc", "tool_call", r#"{"n":2}"#, 101);
    store.upsert_todos("abc", r#"[{"status":"completed"},{"status":"pending"}]"#, 102);

    // Persist by value, reload into a fresh store.
    let mut reloaded = SessionStore::new();
    for row in store.get_plates() {
        assert!(reloaded.restore_plate(row));
    }
    for event in store.list_events() {
        reloaded.restore_event(event);
    }
    for todo in store.list_todos() {
        assert!(reloaded.restore_todo(todo));
    }

    assert_eq!(reloaded.get_event_count("abc"), 2);
    assert_eq!(reloaded.get_plates()[0].todo_progress, Some("1/2".to_string()));
    assert_eq!(reloaded.get_plate("abc").unwrap().status, PlateStatus::Running);

    // A duplicate snapshot for the same session is refused on reload.
    let dup = store.list_todos().remove(0);
    assert!(!reloaded.restore_todo(dup));
}

#[test]
fn event_count_counts_only_this_session() {
    let mut store = SessionStore::new();
    store.insert_event("a", "tool_call", "{}", 1);
    store.insert_event("b", "tool_call", "{}", 2);
    store.insert_event("a", "stop", "{}", 3);
    assert_eq!(store.get_event_count("a"), 2);
    assert_eq!(store.get_event_count("b"), 1);
    assert_eq!(store.get_event_count("c"), 0);
}
