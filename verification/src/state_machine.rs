//! The pure status state machine: every inbound lifecycle event fully
//! determines the next status, so lost or duplicated events self-correct on
//! the next one. Only the synthetic recovery event is conditional on the
//! prior state, because it must not clobber states that are not stuck.

use vstd::prelude::*;

use crate::models::PlateStatus;
use crate::text::{opt_str_view, str_eq};

verus! {

/// Tools that influence the status a session moves to when they start.
#[derive(Debug, Clone, PartialEq, Eq, Structural)]
pub enum Tool {
    AskUserQuestion,
    ExitPlanMode,
    Other,
}

pub open spec fn spec_tool_from_name(name: Seq<char>) -> Tool {
    if name == "AskUserQuestion"@ {
        Tool::AskUserQuestion
    } else if name == "ExitPlanMode"@ {
        Tool::ExitPlanMode
    } else {
        Tool::Other
    }
}

impl Tool {
    pub fn from_name(name: &str) -> (r: Self)
        ensures
            r == spec_tool_from_name(name@),
    {
        if str_eq(name, "AskUserQuestion") {
            Self::AskUserQuestion
        } else if str_eq(name, "ExitPlanMode") {
            Self::ExitPlanMode
        } else {
            Self::Other
        }
    }
}

/// The events the state machine understands, derived from hook payloads; the
/// recovery event is produced only by the reconciliation loop.
#[derive(Debug, Clone, PartialEq, Eq, Structural)]
pub enum Event {
    SessionStart,
    PromptSubmit,
    ToolStart(Tool),
    ToolCall,
    Stop { has_error: bool },
    HealthCheckRecovery,
}

/// How a raw hook payload maps to an event: unknown event types are treated
/// as a completed action, a missing tool name as an anonymous tool, and a
/// stop carries an error exactly when the payload reported one.
pub open spec fn spec_event_from_hook(
    event_type: Seq<char>,
    tool_name: Option<Seq<char>>,
    error: Option<Seq<char>>,
) -> Event {
    if event_type == "session_start"@ {
        Event::SessionStart
    } else if event_type == "prompt_submit"@ {
        Event::PromptSubmit
    } else if event_type == "tool_start"@ {
        Event::ToolStart(
            spec_tool_from_name(
                match tool_name {
                    Some(t) => t,
                    None => ""@,
                },
            ),
        )
    } else if event_type == "stop"@ {
        (Event::Stop { has_error: error is Some })
    } else {
        Event::ToolCall
    }
}

impl Event {
    pub fn from_hook(event_type: &str, tool_name: Option<&str>, error: Option<&str>) -> (r: Self)
        ensures
            r == spec_event_from_hook(event_type@, opt_str_view(tool_name), opt_str_view(error)),
    {
        if str_eq(event_type, "session_start") {
            Self::SessionStart
        } else if str_eq(event_type, "prompt_submit") {
            Self::PromptSubmit
        } else if str_eq(event_type, "tool_start") {
            let name = match tool_name {
                Some(t) => t,
                None => "",
            };
            Self::ToolStart(Tool::from_name(name))
        } else if str_eq(event_type, "stop") {
            (Self::Stop { has_error: error.is_some() })
        } else {
            Self::ToolCall
        }
    }
}

/// The transition table. Every externally sourced event determines the next
/// status outright; `HealthCheckRecovery` moves only the three stuck states
/// (awaiting input, awaiting approval, error) to `Idle` and leaves every
/// other state alone.
pub open spec fn spec_transition(s: PlateStatus, e: Event) -> PlateStatus {
    match e {
        Event::SessionStart => PlateStatus::Running,
        Event::PromptSubmit => PlateStatus::Running,
        Event::ToolStart(tool) => match tool {
            Tool::AskUserQuestion => PlateStatus::AwaitingInput,
            Tool::ExitPlanMode => PlateStatus::AwaitingApproval,
            Tool::Other => PlateStatus::Running,
        },
        Event::ToolCall => PlateStatus::Running,
        Event::Stop { has_error } => if has_error {
            PlateStatus::Error
        } else {
            PlateStatus::Idle
        },
        Event::HealthCheckRecovery => {
            if s is AwaitingInput || s is AwaitingApproval || s is Error {
                PlateStatus::Idle
            } else {
                s
            }
        },
    }
}

impl PlateStatus {
    pub fn transition(self, event: &Event) -> (r: PlateStatus)
        ensures
            r == spec_transition(self, *event),
    {
        match (self, event) {
            (_, Event::SessionStart) => PlateStatus::Running,
            (_, Event::PromptSubmit) => PlateStatus::Running,
            (_, Event::ToolStart(Tool::AskUserQuestion)) => PlateStatus::AwaitingInput,
            (_, Event::ToolStart(Tool::ExitPlanMode)) => PlateStatus::AwaitingApproval,
            (_, Event::ToolStart(Tool::Other)) => PlateStatus::Running,
            (_, Event::ToolCall) => PlateStatus::Running,
            (_, Event::Stop { has_error: true }) => PlateStatus::Error,
            (_, Event::Stop { has_error: false }) => PlateStatus::Idle,
            (PlateStatus::AwaitingInput, Event::HealthCheckRecovery) => PlateStatus::Idle,
            (PlateStatus::AwaitingApproval, Event::HealthCheckRecovery) => PlateStatus::Idle,
            (PlateStatus::Error, Event::HealthCheckRecovery) => PlateStatus::Idle,
            (state, Event::HealthCheckRecovery) => state,
        }
    }
}

/// The transition function is total: every state and event pair has a
/// defined successor, and that successor is one of the seven statuses.
pub proof fn lemma_transition_total(s: PlateStatus, e: Event)
    ensures
        spec_transition(s, e) is Starting || spec_transition(s, e) is Running
            || spec_transition(s, e) is Idle || spec_transition(s, e) is AwaitingInput
            || spec_transition(s, e) is AwaitingApproval || spec_transition(s, e) is Error
            || spec_transition(s, e) is Closed,
{
}

/// Recovery moves exactly the stuck states to `Idle`: applied to awaiting
/// input, awaiting approval or error it yields `Idle`; applied to any other
/// state it is a no-op; and applying it twice equals applying it once.
pub proof fn lemma_recovery_unsticks(s: PlateStatus)
    ensures
        (s is AwaitingInput || s is AwaitingApproval || s is Error) ==> spec_transition(
            s,
            Event::HealthCheckRecovery,
        ) == PlateStatus::Idle,
        !(s is AwaitingInput || s is AwaitingApproval || s is Error) ==> spec_transition(
            s,
            Event::HealthCheckRecovery,
        ) == s,
        spec_transition(spec_transition(s, Event::HealthCheckRecovery), Event::HealthCheckRecovery)
            == spec_transition(s, Event::HealthCheckRecovery),
{
}

/// The unconditional rows of the table: a stop with an error always yields
/// `Error`, a clean stop always yields `Idle`, and a session start or prompt
/// submission always yields `Running`, whatever the prior state was.
pub proof fn lemma_unconditional_events(s: PlateStatus)
    ensures
        spec_transition(s, (Event::Stop { has_error: true })) == PlateStatus::Error,
        spec_transition(s, (Event::Stop { has_error: false })) == PlateStatus::Idle,
        spec_transition(s, Event::SessionStart) == PlateStatus::Running,
        spec_transition(s, Event::PromptSubmit) == PlateStatus::Running,
{
}

} // verus!
