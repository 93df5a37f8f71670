//! Data model: the status enum of a tracked session ("plate"), the session
//! row itself, the inbound hook event, and the notification messages that the
//! daemon broadcasts to connected viewers.

use vstd::prelude::*;

use crate::text::str_eq;

verus! {

/// The authoritative status of one tracked session.
#[derive(Debug, Clone, Copy, PartialEq, Eq, Structural)]
pub enum PlateStatus {
    Starting,
    Running,
    Idle,
    AwaitingInput,
    AwaitingApproval,
    Error,
    Closed,
}

impl Default for PlateStatus {
    /// A freshly registered session starts in `Starting`.
    fn default() -> (r: Self)
        ensures
            r == PlateStatus::Starting,
    {
        PlateStatus::Starting
    }
}

/// States in which a plate is waiting on its user rather than working.
pub open spec fn spec_needs_attention(s: PlateStatus) -> bool {
    s is AwaitingInput || s is AwaitingApproval || s is Idle || s is Error || s is Closed
}

/// The canonical lower-case name of each status, as stored and served.
pub open spec fn spec_status_str(s: PlateStatus) -> Seq<char> {
    match s {
        PlateStatus::Starting => "starting"@,
        PlateStatus::Running => "running"@,
        PlateStatus::Idle => "idle"@,
        PlateStatus::AwaitingInput => "awaiting_input"@,
        PlateStatus::AwaitingApproval => "awaiting_approval"@,
        PlateStatus::Error => "error"@,
        PlateStatus::Closed => "closed"@,
    }
}

/// One-character icon shown beside a plate in the dashboard.
pub open spec fn spec_status_icon(s: PlateStatus) -> char {
    match s {
        PlateStatus::Starting => '.',
        PlateStatus::Running => '>',
        PlateStatus::Idle => '-',
        PlateStatus::AwaitingInput => '?',
        PlateStatus::AwaitingApproval => '!',
        PlateStatus::Error => 'X',
        PlateStatus::Closed => 'x',
    }
}

/// Short fixed-width label for the dashboard's status column.
pub open spec fn spec_status_short_name(s: PlateStatus) -> Seq<char> {
    match s {
        PlateStatus::Starting => "start"@,
        PlateStatus::Running => "running"@,
        PlateStatus::Idle => "idle"@,
        PlateStatus::AwaitingInput => "input"@,
        PlateStatus::AwaitingApproval => "approve"@,
        PlateStatus::Error => "error"@,
        PlateStatus::Closed => "closed"@,
    }
}

/// Status implied by a tool about to run: a question tool means the user is
/// being asked for input, the plan-approval tool means approval is pending,
/// anything else means the session is working.
pub open spec fn spec_status_from_tool(tool_name: Seq<char>) -> PlateStatus {
    if tool_name == "AskUserQuestion"@ {
        PlateStatus::AwaitingInput
    } else if tool_name == "ExitPlanMode"@ {
        PlateStatus::AwaitingApproval
    } else {
        PlateStatus::Running
    }
}

impl PlateStatus {
    pub fn from_tool(tool_name: &str) -> (r: Self)
        ensures
            r == spec_status_from_tool(tool_name@),
    {
        if str_eq(tool_name, "AskUserQuestion") {
            Self::AwaitingInput
        } else if str_eq(tool_name, "ExitPlanMode") {
            Self::AwaitingApproval
        } else {
            Self::Running
        }
    }

    pub fn needs_attention(&self) -> (r: bool)
        ensures
            r == spec_needs_attention(*self),
    {
        match self {
            Self::AwaitingInput | Self::AwaitingApproval | Self::Idle | Self::Error
            | Self::Closed => true,
            _ => false,
        }
    }

    pub fn as_str(&self) -> (r: &'static str)
        ensures
            r@ == spec_status_str(*self),
    {
        match self {
            Self::Starting => "starting",
            Self::Running => "running",
            Self::Idle => "idle",
            Self::AwaitingInput => "awaiting_input",
            Self::AwaitingApproval => "awaiting_approval",
            Self::Error => "error",
            Self::Closed => "closed",
        }
    }

    pub fn icon(&self) -> (r: char)
        ensures
            r == spec_status_icon(*self),
    {
        match self {
            Self::Starting => '.',
            Self::Running => '>',
            Self::Idle => '-',
            Self::AwaitingInput => '?',
            Self::AwaitingApproval => '!',
            Self::Error => 'X',
            Self::Closed => 'x',
        }
    }

    pub fn short_name(&self) -> (r: &'static str)
        ensures
            r@ == spec_status_short_name(*self),
    {
        match self {
            Self::Starting => "start",
            Self::Running => "running",
            Self::Idle => "idle",
            Self::AwaitingInput => "input",
            Self::AwaitingApproval => "approve",
            Self::Error => "error",
            Self::Closed => "closed",
        }
    }

    /// Inverse of `as_str`: recognises exactly the seven canonical names.
    pub fn from_status_str(s: &str) -> (r: Option<Self>)
        ensures
            r == spec_status_from_str(s@),
    {
        if str_eq(s, "starting") {
            Some(Self::Starting)
        } else if str_eq(s, "running") {
            Some(Self::Running)
        } else if str_eq(s, "idle") {
            Some(Self::Idle)
        } else if str_eq(s, "awaiting_input") {
            Some(Self::AwaitingInput)
        } else if str_eq(s, "awaiting_approval") {
            Some(Self::AwaitingApproval)
        } else if str_eq(s, "error") {
            Some(Self::Error)
        } else if str_eq(s, "closed") {
            Some(Self::Closed)
        } else {
            None
        }
    }
}

pub open spec fn spec_status_from_str(s: Seq<char>) -> Option<PlateStatus> {
    if s == "starting"@ {
        Some(PlateStatus::Starting)
    } else if s == "running"@ {
        Some(PlateStatus::Running)
    } else if s == "idle"@ {
        Some(PlateStatus::Idle)
    } else if s == "awaiting_input"@ {
        Some(PlateStatus::AwaitingInput)
    } else if s == "awaiting_approval"@ {
        Some(PlateStatus::AwaitingApproval)
    } else if s == "error"@ {
        Some(PlateStatus::Error)
    } else if s == "closed"@ {
        Some(PlateStatus::Closed)
    } else {
        None
    }
}

/// Round trip: every status is recognised back from its canonical name.
pub proof fn lemma_status_str_round_trip(s: PlateStatus)
    ensures
        spec_status_from_str(spec_status_str(s)) == Some(s),
{
    reveal_strlit("starting");
    reveal_strlit("running");
    reveal_strlit("idle");
    reveal_strlit("awaiting_input");
    reveal_strlit("awaiting_approval");
    reveal_strlit("error");
    reveal_strlit("closed");
    // The seven canonical names all have distinct lengths, so no two are equal.
    assert("starting"@.len() == 8);
    assert("running"@.len() == 7);
    assert("idle"@.len() == 4);
    assert("awaiting_input"@.len() == 14);
    assert("awaiting_approval"@.len() == 17);
    assert("error"@.len() == 5);
    assert("closed"@.len() == 6);
}

/// One tracked session as served to viewers. Timestamps are seconds since the
/// Unix epoch.
#[derive(Debug)]
pub struct Plate {
    pub session_id: String,
    pub project_path: String,
    pub transcript_path: Option<String>,
    pub git_branch: Option<String>,
    pub tmux_target: Option<String>,
    pub status: PlateStatus,
    pub last_event_type: Option<String>,
    pub last_tool: Option<String>,
    pub summary: Option<String>,
    pub goal: Option<String>,
    pub todo_progress: Option<String>,
    pub created_at: i64,
    pub updated_at: i64,
}

/// The path with trailing separators removed.
pub open spec fn spec_trim_end_slashes(s: Seq<char>) -> Seq<char>
    decreases s.len(),
{
    if s.len() > 0 && s.last() == '/' {
        spec_trim_end_slashes(s.drop_last())
    } else {
        s
    }
}

/// The suffix after the last separator.
pub open spec fn spec_last_segment(t: Seq<char>) -> Seq<char>
    decreases t.len(),
{
    if t.len() == 0 {
        t
    } else if t.last() == '/' {
        Seq::empty()
    } else {
        spec_last_segment(t.drop_last()).push(t.last())
    }
}

/// A project's display name: the last component of its path, ignoring
/// trailing separators.
pub open spec fn spec_project_name(path: Seq<char>) -> Seq<char> {
    spec_last_segment(spec_trim_end_slashes(path))
}

/// Trimming stops exactly at the last non-separator.
proof fn lemma_trim_end(s: Seq<char>, e: int)
    requires
        0 <= e <= s.len(),
        forall|k: int| e <= k < s.len() ==> s[k] == '/',
        e > 0 ==> s[e - 1] != '/',
    ensures
        spec_trim_end_slashes(s) == s.subrange(0, e),
    decreases s.len(),
{
    if s.len() == e {
        assert(s.subrange(0, e) =~= s);
    } else {
        assert(s.last() == '/');
        assert(s.drop_last() =~= s.subrange(0, s.len() - 1));
        lemma_trim_end(s.drop_last(), e);
        assert(s.drop_last().subrange(0, e) =~= s.subrange(0, e));
    }
}

/// The last segment is the suffix after the last separator.
proof fn lemma_last_segment(t: Seq<char>, b: int)
    requires
        0 <= b <= t.len(),
        forall|k: int| b <= k < t.len() ==> t[k] != '/',
        b > 0 ==> t[b - 1] == '/',
    ensures
        spec_last_segment(t) == t.subrange(b, t.len() as int),
    decreases t.len(),
{
    if t.len() == 0 {
        assert(t.subrange(0, 0) =~= t);
    } else if t.len() == b {
        assert(t.last() == '/');
        assert(t.subrange(b, t.len() as int) =~= Seq::<char>::empty());
    } else {
        assert(t.last() != '/');
        assert(t.drop_last() =~= t.subrange(0, t.len() - 1));
        lemma_last_segment(t.drop_last(), b);
        assert(t.subrange(b, t.len() as int) =~= t.drop_last().subrange(
            b,
            t.len() - 1,
        ).push(t.last()));
    }
}

impl Plate {
    /// The project's display name: the last path component, with trailing
    /// separators ignored; a path with no component at all names itself
    /// (the empty remainder).
    pub fn project_name(&self) -> (r: &str)
        ensures
            r@ == spec_project_name(self.project_path@),
    {
        let path = self.project_path.as_str();
        let n = path.unicode_len();
        let mut e: usize = n;
        while e > 0 && path.get_char(e - 1) == '/'
            invariant
                e <= n,
                n == path@.len(),
                forall|k: int| e <= k < n ==> path@[k] == '/',
            decreases e,
        {
            e -= 1;
        }
        let mut b: usize = e;
        while b > 0 && path.get_char(b - 1) != '/'
            invariant
                b <= e <= n,
                n == path@.len(),
                forall|k: int| b <= k < e ==> path@[k] != '/',
            decreases b,
        {
            b -= 1;
        }
        proof {
            lemma_trim_end(path@, e as int);
            assert(spec_trim_end_slashes(path@) == path@.subrange(0, e as int));
            lemma_last_segment(path@.subrange(0, e as int), b as int);
            assert(path@.subrange(0, e as int).subrange(b as int, e as int) =~= path@.subrange(
                b as int,
                e as int,
            ));
        }
        path.substring_char(b, e)
    }
}

impl Clone for Plate {
    fn clone(&self) -> (r: Self)
        ensures
            r == *self,
    {
        Plate {
            session_id: self.session_id.clone(),
            project_path: self.project_path.clone(),
            transcript_path: clone_opt_string(&self.transcript_path),
            git_branch: clone_opt_string(&self.git_branch),
            tmux_target: clone_opt_string(&self.tmux_target),
            status: self.status,
            last_event_type: clone_opt_string(&self.last_event_type),
            last_tool: clone_opt_string(&self.last_tool),
            summary: clone_opt_string(&self.summary),
            goal: clone_opt_string(&self.goal),
            todo_progress: clone_opt_string(&self.todo_progress),
            created_at: self.created_at,
            updated_at: self.updated_at,
        }
    }
}

/// Clone of an optional string, preserving the value exactly.
pub fn clone_opt_string(o: &Option<String>) -> (r: Option<String>)
    ensures
        r == *o,
{
    match o {
        Some(s) => Some(s.clone()),
        None => None,
    }
}

/// An inbound lifecycle event as handed to the ingestion logic. Optional
/// fields are absent when the producing hook did not supply them;
/// `tool_params` carries the tool's parameters as raw JSON text.
#[derive(Debug)]
pub struct HookEvent {
    pub session_id: String,
    pub project_path: String,
    pub event_type: String,
    pub tool_name: Option<String>,
    pub tool_params: Option<String>,
    pub transcript_path: Option<String>,
    pub git_branch: Option<String>,
    pub tmux_target: Option<String>,
    pub error: Option<String>,
}

/// Result of one summarization round: a freshly extracted goal (absent when a
/// cached goal was reused) and the summary line to display.
#[derive(Debug)]
pub struct SummaryResult {
    pub goal: Option<String>,
    pub summary: String,
}

/// Notification fanned out to connected viewers after a committed write.
#[derive(Debug, Clone)]
pub enum WsMessage {
    PlateUpdate(String),
    PlateDeleted(String),
}

/// Body of the daemon's status endpoint.
#[derive(Debug)]
pub struct StatusResponse {
    pub status: String,
    pub api_key_configured: Option<bool>,
    pub hooks_installed: Option<bool>,
}

/// Body of the placeholder-registration and mark-stopped requests.
#[derive(Debug)]
pub struct RegisterRequest {
    pub project_path: String,
}

/// `true` exactly on the plates that a viewer still has open.
pub open spec fn spec_is_open(p: Plate) -> bool {
    !(p.status is Closed)
}

} // verus!
