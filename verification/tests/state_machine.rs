use plate_spinner::models::PlateStatus;
use plate_spinner::state_machine::{Event, Tool};

#[test]
fn session_start_transitions_to_running() {
    assert_eq!(PlateStatus::Starting.transition(&Event::SessionStart), PlateStatus::Running);
}

#[test]
fn tool_start_ask_user_question_transitions_to_awaiting_input() {
    assert_eq!(
        PlateStatus::Running.transition(&Event::ToolStart(Tool::AskUserQuestion)),
        PlateStatus::AwaitingInput
    );
}

#[test]
fn tool_start_exit_plan_mode_transitions_to_awaiting_approval() {
    assert_eq!(
        PlateStatus::Running.transition(&Event::ToolStart(Tool::ExitPlanMode)),
        PlateStatus::AwaitingApproval
    );
}

#[test]
fn tool_call_transitions_to_running() {
    assert_eq!(PlateStatus::AwaitingInput.transition(&Event::ToolCall), PlateStatus::Running);
    assert_eq!(PlateStatus::AwaitingApproval.transition(&Event::ToolCall), PlateStatus::Running);
}

#[test]
fn stop_with_error_transitions_to_error() {
    assert_eq!(
        PlateStatus::Running.transition(&Event::Stop { has_error: true }),
        PlateStatus::Error
    );
}

#[test]
fn stop_without_error_transitions_to_idle() {
    assert_eq!(
        PlateStatus::Running.transition(&Event::Stop { has_error: false }),
        PlateStatus::Idle
    );
}

#[test]
fn health_check_recovery_from_attention_states() {
    assert_eq!(
        PlateStatus::AwaitingInput.transition(&Event::HealthCheckRecovery),
        PlateStatus::Idle
    );
    assert_eq!(
        PlateStatus::AwaitingApproval.transition(&Event::HealthCheckRecovery),
        PlateStatus::Idle
    );
    assert_eq!(PlateStatus::Error.transition(&Event::HealthCheckRecovery), PlateStatus::Idle);
}

#[test]
fn health_check_recovery_no_op_for_other_states() {
    assert_eq!(PlateStatus::Running.transition(&Event::HealthCheckRecovery), PlateStatus::Running);
    assert_eq!(PlateStatus::Idle.transition(&Event::HealthCheckRecovery), PlateStatus::Idle);
}

#[test]
fn prompt_submit_reactivates_idle() {
    assert_eq!(PlateStatus::Idle.transition(&Event::PromptSubmit), PlateStatus::Running);
}

#[test]
fn event_from_hook_parses_correctly() {
    assert_eq!(Event::from_hook("session_start", None, None), Event::SessionStart);
    assert_eq!(
        Event::from_hook("tool_start", Some("AskUserQuestion"), None),
        Event::ToolStart(Tool::AskUserQuestion)
    );
    assert_eq!(
        Event::from_hook("stop", None, Some("error message")),
        Event::Stop { has_error: true }
    );
}

#[test]
fn transition_is_total_over_all_pairs() {
    let states = [
        PlateStatus::Starting,
        PlateStatus::Running,
        PlateStatus::Idle,
        PlateStatus::AwaitingInput,
        PlateStatus::AwaitingApproval,
        PlateStatus::Error,
        PlateStatus::Closed,
    ];
    let events = [
        Event::SessionStart,
        Event::PromptSubmit,
        Event::ToolStart(Tool::AskUserQuestion),
        Event::ToolStart(Tool::ExitPlanMode),
        Event::ToolStart(Tool::Other),
        Event::ToolCall,
        Event::Stop { has_error: false },
        Event::Stop { has_error: true },
        Event::HealthCheckRecovery,
    ];
    let mut pairs = 0;
    for s in states {
        for e in &events {
            // Every pair yields a defined state with a canonical name.
            let next = s.transition(e);
            assert!(!next.as_str().is_empty());
            pairs += 1;
        }
    }
    assert_eq!(pairs, 63);
}

#[test]
fn recovery_is_idempotent() {
    let states = [
        PlateStatus::Starting,
        PlateStatus::Running,
        PlateStatus::Idle,
        PlateStatus::AwaitingInput,
        PlateStatus::AwaitingApproval,
        PlateStatus::Error,
        PlateStatus::Closed,
    ];
    for s in states {
        let once = s.transition(&Event::HealthCheckRecovery);
        let twice = once.transition(&Event::HealthCheckRecovery);
        assert_eq!(once, twice);
    }
}

#[test]
fn stop_outcomes_ignore_prior_state() {
    let states = [
        PlateStatus::Starting,
        PlateStatus::Running,
        PlateStatus::Idle,
        PlateStatus::AwaitingInput,
        PlateStatus::AwaitingApproval,
        PlateStatus::Error,
        PlateStatus::Closed,
    ];
    for s in states {
        assert_eq!(s.transition(&Event::Stop { has_error: true }), PlateStatus::Error);
        assert_eq!(s.transition(&Event::Stop { has_error: false }), PlateStatus::Idle);
        assert_eq!(s.transition(&Event::SessionStart), PlateStatus::Running);
        assert_eq!(s.transition(&Event::PromptSubmit), PlateStatus::Running);
    }
}

#[test]
fn unknown_event_type_counts_as_tool_call() {
    assert_eq!(Event::from_hook("mystery", None, None), Event::ToolCall);
}

#[test]
fn status_names_round_trip() {
    let states = [
        PlateStatus::Starting,
        PlateStatus::Running,
        PlateStatus::Idle,
        PlateStatus::AwaitingInput,
        PlateStatus::AwaitingApproval,
        PlateStatus::Error,
        PlateStatus::Closed,
    ];
    for s in states {
        assert_eq!(PlateStatus::from_status_str(s.as_str()), Some(s));
    }
    assert_eq!(PlateStatus::from_status_str("bogus"), None);
}
