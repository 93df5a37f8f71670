use plate_spinner::config::Config;
use plate_spinner::models::{Plate, PlateStatus};
use plate_spinner::tui::App;
use plate_spinner::ui::{format_label, next_sound, next_theme, pad_or_truncate, prev_sound};
use plate_spinner::{build_version, needs_restart};

fn plate(session_id: &str, project_path: &str, status: PlateStatus) -> Plate {
    Plate {
        session_id: session_id.to_string(),
        project_path: project_path.to_string(),
        transcript_path: None,
        git_branch: None,
        tmux_target: None,
        status,
        last_event_type: None,
        last_tool: None,
        summary: None,
        goal: None,
        todo_progress: None,
        created_at: 0,
        updated_at: 0,
    }
}

fn app_with(plates: Vec<Plate>) -> App {
    let mut app = App::new(Config::default(), true, false);
    app.plates = plates;
    app
}

#[test]
fn new_app_starts_clean() {
    let app = App::new(Config::default(), false, false);
    assert!(app.plates.is_empty());
    assert_eq!(app.selected_index, Some(0));
    assert!(app.show_auth_banner);
    assert!(!app.closed_expanded);
    let dismissed = App::new(Config::default(), false, true);
    assert!(!dismissed.show_auth_banner);
    let keyed = App::new(Config::default(), true, false);
    assert!(!keyed.show_auth_banner);
}

#[test]
fn open_plates_put_attention_first() {
    let app = app_with(vec![
        plate("run", "/a", PlateStatus::Running),
        plate("ask", "/b", PlateStatus::AwaitingInput),
        plate("gone", "/c", PlateStatus::Closed),
        plate("err", "/d", PlateStatus::Error),
    ]);
    let open = app.open_plates();
    let ids: Vec<_> = open.iter().map(|p| p.session_id.as_str()).collect();
    assert_eq!(ids, vec!["ask", "err", "run"]);
    let closed = app.closed_plates();
    assert_eq!(closed.len(), 1);
    assert_eq!(closed[0].session_id, "gone");
}

#[test]
fn display_order_appends_closed_when_expanded() {
    let mut app = app_with(vec![
        plate("run", "/a", PlateStatus::Running),
        plate("gone", "/c", PlateStatus::Closed),
    ]);
    assert_eq!(app.display_order().len(), 1);
    app.toggle_closed();
    let ids: Vec<_> = app.display_order().iter().map(|p| p.session_id.clone()).collect();
    assert_eq!(ids, vec!["run".to_string(), "gone".to_string()]);
}

#[test]
fn selection_moves_within_bounds() {
    let mut app = app_with(vec![
        plate("a", "/a", PlateStatus::Running),
        plate("b", "/b", PlateStatus::Running),
    ]);
    assert_eq!(app.max_selectable_index(), 1);
    app.move_down();
    assert_eq!(app.selected_index, Some(1));
    app.move_down();
    assert_eq!(app.selected_index, Some(1));
    app.move_up();
    assert_eq!(app.selected_index, Some(0));
    app.move_up();
    assert_eq!(app.selected_index, Some(0));
    app.deselect();
    assert_eq!(app.selected_index, None);
    app.move_up();
    assert_eq!(app.selected_index, Some(1));
    app.deselect();
    app.move_down();
    assert_eq!(app.selected_index, Some(0));
    app.jump(1);
    assert_eq!(app.selected_index, Some(1));
    app.jump(9);
    assert_eq!(app.selected_index, Some(1));
}

#[test]
fn closed_header_sits_after_open_plates() {
    let mut app = app_with(vec![
        plate("a", "/a", PlateStatus::Running),
        plate("gone", "/c", PlateStatus::Closed),
    ]);
    // One open plate, so position 1 is the closed-group header.
    assert_eq!(app.max_selectable_index(), 1);
    app.jump(1);
    assert!(app.is_on_closed_header());
    assert!(app.selected_plate().is_none());
    app.toggle_closed();
    assert_eq!(app.max_selectable_index(), 2);
    app.jump(2);
    let selected = app.selected_plate().expect("expanded closed plate selectable");
    assert_eq!(selected.session_id, "gone");
}

#[test]
fn seen_marks_silence_the_attention_count() {
    let mut app = app_with(vec![
        plate("ask", "/a", PlateStatus::AwaitingInput),
        plate("err", "/b", PlateStatus::Error),
        plate("run", "/c", PlateStatus::Running),
    ]);
    assert_eq!(app.attention_count(), 2);
    assert!(app.is_unseen("ask"));
    app.jump(0);
    app.mark_seen();
    assert!(!app.is_unseen("ask"));
    assert_eq!(app.attention_count(), 1);
    // Marking the same plate again changes nothing.
    app.mark_seen();
    assert_eq!(app.attention_count(), 1);
}

#[test]
fn dismissing_the_banner_hides_it() {
    let mut app = App::new(Config::default(), false, false);
    assert!(app.show_auth_banner);
    app.dismiss_auth_banner();
    assert!(!app.show_auth_banner);
}

#[test]
fn project_name_takes_the_last_path_component() {
    assert_eq!(plate("s", "/home/user/project", PlateStatus::Running).project_name(), "project");
    assert_eq!(plate("s", "/home/user/project/", PlateStatus::Running).project_name(), "project");
    assert_eq!(plate("s", "project", PlateStatus::Running).project_name(), "project");
    assert_eq!(plate("s", "///", PlateStatus::Running).project_name(), "");
}

#[test]
fn pad_or_truncate_fits_the_width() {
    assert_eq!(pad_or_truncate("abc", 5), "abc  ");
    assert_eq!(pad_or_truncate("abcdef", 5), "ab...");
    assert_eq!(pad_or_truncate("abcdef", 2), "ab");
    assert_eq!(pad_or_truncate("abcde", 5), "abcde");
}

#[test]
fn format_label_joins_project_and_branch() {
    assert_eq!(format_label("proj", Some("main")), format!("{:<25}", "proj/main"));
    assert_eq!(format_label("proj", None), format!("{:<25}", "proj"));
    assert_eq!(
        format_label("a-very-long-project-name", Some("feature/deep")),
        "a-very-long-project-na..."
    );
}

#[test]
fn sound_cycle_wraps_both_ways() {
    assert_eq!(next_sound("alert"), "bell");
    assert_eq!(prev_sound("bell"), "alert");
    assert_eq!(next_sound("none"), "alert");
    assert_eq!(prev_sound("alert"), "none");
    // An unknown sound cycles from the start of the list.
    assert_eq!(next_sound("mystery"), "bell");
}

#[test]
fn theme_cycle_wraps() {
    assert_eq!(next_theme("default"), "light");
    assert_eq!(next_theme("light"), "monochrome");
    assert_eq!(next_theme("monochrome"), "default");
}

#[test]
fn refresh_rings_for_fresh_transitions_and_clears_seen() {
    let mut app = app_with(vec![plate("abc", "/repo", PlateStatus::Running)]);
    // First refresh records the running status and rings nothing.
    let sounds = app.apply_refresh(vec![plate("abc", "/repo", PlateStatus::Running)]);
    assert!(sounds.is_empty());

    // The user has acknowledged the session.
    app.jump(0);
    app.mark_seen();
    assert!(!app.is_unseen("abc"));

    // The session stops working: the default idle sound rings and the seen
    // mark is cleared.
    let sounds = app.apply_refresh(vec![plate("abc", "/repo", PlateStatus::Idle)]);
    assert_eq!(sounds, vec!["pop".to_string()]);
    assert!(app.is_unseen("abc"));

    // Idle to idle is not a transition.
    let sounds = app.apply_refresh(vec![plate("abc", "/repo", PlateStatus::Idle)]);
    assert!(sounds.is_empty());
}

#[test]
fn refresh_with_sounds_disabled_stays_silent() {
    let mut config = Config::default();
    config.sounds.enabled = false;
    let mut app = App::new(config, true, false);
    app.apply_refresh(vec![plate("abc", "/repo", PlateStatus::Running)]);
    let sounds = app.apply_refresh(vec![plate("abc", "/repo", PlateStatus::Error)]);
    assert!(sounds.is_empty());
}

#[test]
fn refresh_closing_a_session_keeps_its_seen_mark() {
    let mut app = app_with(vec![plate("abc", "/repo", PlateStatus::Running)]);
    app.apply_refresh(vec![plate("abc", "/repo", PlateStatus::Running)]);
    app.jump(0);
    app.mark_seen();
    // Running to closed rings the closed sound but does not resurface the
    // session.
    let sounds = app.apply_refresh(vec![plate("abc", "/repo", PlateStatus::Closed)]);
    assert_eq!(sounds, vec!["none".to_string()]);
    assert!(!app.is_unseen("abc"));
}

#[test]
fn refresh_clamps_the_selection_to_the_new_list() {
    let mut app = app_with(vec![
        plate("a", "/a", PlateStatus::Running),
        plate("b", "/b", PlateStatus::Running),
    ]);
    app.jump(1);
    app.apply_refresh(vec![plate("a", "/a", PlateStatus::Running)]);
    assert_eq!(app.selected_index, Some(0));
    // With nothing left to select, a too-large position is dropped.
    app.selected_index = Some(5);
    app.apply_refresh(vec![]);
    assert_eq!(app.selected_index, None);
}

#[test]
fn version_mismatch_calls_for_a_restart() {
    let version = build_version();
    assert!(!version.is_empty());
    assert!(!needs_restart(Some(version.as_str()), version.as_str()));
    assert!(needs_restart(Some("0.0.0-other"), version.as_str()));
    assert!(needs_restart(None, version.as_str()));
}
