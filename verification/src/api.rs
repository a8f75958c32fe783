//! Agent-facing action contract, schema version 2 (agents can no longer
//! mark a task done themselves): action names, help requests, response
//! codes and the tool catalog.
use vstd::prelude::*;

verus! {

/// Closed set of task-oriented actions accepted by `convergio.act`.
#[derive(Debug, Clone, Copy, PartialEq, Eq, Structural)]
pub enum Action {
    /// Diagnose daemon and integration readiness.
    Status,
    /// Create a plan.
    CreatePlan,
    /// Create a task under a plan.
    CreateTask,
    /// List tasks for a plan.
    ListTasks,
    /// Find the next task an agent should work on.
    NextTask,
    /// Claim a task as in progress.
    ClaimTask,
    /// Touch a task heartbeat.
    Heartbeat,
    /// Attach evidence to a task.
    AddEvidence,
    /// Submit a task and run gates.
    SubmitTask,
    /// Validate a plan.
    ValidatePlan,
    /// Verify the audit hash chain.
    AuditVerify,
    /// Explain the most recent gate refusal for a task.
    ExplainLastRefusal,
    /// Return the canonical prompt addendum for agents.
    AgentPrompt,
}

/// The stable snake_case name of an action.
pub open spec fn action_name(a: Action) -> Seq<char> {
    match a {
        Action::Status => "status"@,
        Action::CreatePlan => "create_plan"@,
        Action::CreateTask => "create_task"@,
        Action::ListTasks => "list_tasks"@,
        Action::NextTask => "next_task"@,
        Action::ClaimTask => "claim_task"@,
        Action::Heartbeat => "heartbeat"@,
        Action::AddEvidence => "add_evidence"@,
        Action::SubmitTask => "submit_task"@,
        Action::ValidatePlan => "validate_plan"@,
        Action::AuditVerify => "audit_verify"@,
        Action::ExplainLastRefusal => "explain_last_refusal"@,
        Action::AgentPrompt => "agent_prompt"@,
    }
}

/// Every action, in stable display order.
pub open spec fn all_actions() -> Seq<Action> {
    seq![
        Action::Status,
        Action::CreatePlan,
        Action::CreateTask,
        Action::ListTasks,
        Action::NextTask,
        Action::ClaimTask,
        Action::Heartbeat,
        Action::AddEvidence,
        Action::SubmitTask,
        Action::ValidatePlan,
        Action::AuditVerify,
        Action::ExplainLastRefusal,
        Action::AgentPrompt,
    ]
}

impl Action {
    /// Every supported action in stable display order.
    pub fn all() -> (r: Vec<Action>)
        ensures
            r@ == all_actions(),
    {
        let mut r: Vec<Action> = Vec::new();
        r.push(Action::Status);
        r.push(Action::CreatePlan);
        r.push(Action::CreateTask);
        r.push(Action::ListTasks);
        r.push(Action::NextTask);
        r.push(Action::ClaimTask);
        r.push(Action::Heartbeat);
        r.push(Action::AddEvidence);
        r.push(Action::SubmitTask);
        r.push(Action::ValidatePlan);
        r.push(Action::AuditVerify);
        r.push(Action::ExplainLastRefusal);
        r.push(Action::AgentPrompt);
        assert(r@ =~= all_actions());
        r
    }

    /// Stable snake_case action name.
    pub fn as_str(self) -> (r: &'static str)
        ensures
            r@ == action_name(self),
    {
        match self {
            Action::Status => "status",
            Action::CreatePlan => "create_plan",
            Action::CreateTask => "create_task",
            Action::ListTasks => "list_tasks",
            Action::NextTask => "next_task",
            Action::ClaimTask => "claim_task",
            Action::Heartbeat => "heartbeat",
            Action::AddEvidence => "add_evidence",
            Action::SubmitTask => "submit_task",
            Action::ValidatePlan => "validate_plan",
            Action::AuditVerify => "audit_verify",
            Action::ExplainLastRefusal => "explain_last_refusal",
            Action::AgentPrompt => "agent_prompt",
        }
    }
}

} // verus!

verus! {

/// Position of an action in [`all_actions`].
pub open spec fn action_index(a: Action) -> int {
    match a {
        Action::Status => 0,
        Action::CreatePlan => 1,
        Action::CreateTask => 2,
        Action::ListTasks => 3,
        Action::NextTask => 4,
        Action::ClaimTask => 5,
        Action::Heartbeat => 6,
        Action::AddEvidence => 7,
        Action::SubmitTask => 8,
        Action::ValidatePlan => 9,
        Action::AuditVerify => 10,
        Action::ExplainLastRefusal => 11,
        Action::AgentPrompt => 12,
    }
}

proof fn lemma_index_inverse(a: Action)
    ensures
        0 <= action_index(a) < all_actions().len(),
        all_actions()[action_index(a)] == a,
{
    match a {
        Action::Status => {},
        Action::CreatePlan => {},
        Action::CreateTask => {},
        Action::ListTasks => {},
        Action::NextTask => {},
        Action::ClaimTask => {},
        Action::Heartbeat => {},
        Action::AddEvidence => {},
        Action::SubmitTask => {},
        Action::ValidatePlan => {},
        Action::AuditVerify => {},
        Action::ExplainLastRefusal => {},
        Action::AgentPrompt => {},
    }
}

/// The catalog lists every action exactly once.
pub proof fn law_all_lists_each_action_once(a: Action)
    ensures
        all_actions().contains(a),
        all_actions().no_duplicates(),
{
    assert forall|i: int| 0 <= i < 13 implies action_index(#[trigger] all_actions()[i]) == i by {
        if i == 0 {
            assert(all_actions()[i] == Action::Status);
        } else if i == 1 {
            assert(all_actions()[i] == Action::CreatePlan);
        } else if i == 2 {
            assert(all_actions()[i] == Action::CreateTask);
        } else if i == 3 {
            assert(all_actions()[i] == Action::ListTasks);
        } else if i == 4 {
            assert(all_actions()[i] == Action::NextTask);
        } else if i == 5 {
            assert(all_actions()[i] == Action::ClaimTask);
        } else if i == 6 {
            assert(all_actions()[i] == Action::Heartbeat);
        } else if i == 7 {
            assert(all_actions()[i] == Action::AddEvidence);
        } else if i == 8 {
            assert(all_actions()[i] == Action::SubmitTask);
        } else if i == 9 {
            assert(all_actions()[i] == Action::ValidatePlan);
        } else if i == 10 {
            assert(all_actions()[i] == Action::AuditVerify);
        } else if i == 11 {
            assert(all_actions()[i] == Action::ExplainLastRefusal);
        } else if i == 12 {
            assert(all_actions()[i] == Action::AgentPrompt);
        }
    }
    lemma_index_inverse(a);
}

/// Position of a name among the action names, told apart by length,
/// first and last character; -1 for any other text.
pub open spec fn name_code(s: Seq<char>) -> int {
    if s.len() == 6 && s[0] == 's' && s[5] == 's' {
        0
    } else if s.len() == 11 && s[0] == 'c' && s[10] == 'n' {
        1
    } else if s.len() == 11 && s[0] == 'c' && s[10] == 'k' {
        2
    } else if s.len() == 10 && s[0] == 'l' && s[9] == 's' {
        3
    } else if s.len() == 9 && s[0] == 'n' && s[8] == 'k' {
        4
    } else if s.len() == 10 && s[0] == 'c' && s[9] == 'k' {
        5
    } else if s.len() == 9 && s[0] == 'h' && s[8] == 't' {
        6
    } else if s.len() == 12 && s[0] == 'a' && s[11] == 'e' {
        7
    } else if s.len() == 11 && s[0] == 's' && s[10] == 'k' {
        8
    } else if s.len() == 13 && s[0] == 'v' && s[12] == 'n' {
        9
    } else if s.len() == 12 && s[0] == 'a' && s[11] == 'y' {
        10
    } else if s.len() == 20 && s[0] == 'e' && s[19] == 'l' {
        11
    } else if s.len() == 12 && s[0] == 'a' && s[11] == 't' {
        12
    } else {
        -1
    }
}

proof fn lemma_name_code(a: Action)
    ensures
        name_code(action_name(a)) == action_index(a),
{
    match a {
        Action::Status => {
            reveal_strlit("status");
        },
        Action::CreatePlan => {
            reveal_strlit("create_plan");
        },
        Action::CreateTask => {
            reveal_strlit("create_task");
        },
        Action::ListTasks => {
            reveal_strlit("list_tasks");
        },
        Action::NextTask => {
            reveal_strlit("next_task");
        },
        Action::ClaimTask => {
            reveal_strlit("claim_task");
        },
        Action::Heartbeat => {
            reveal_strlit("heartbeat");
        },
        Action::AddEvidence => {
            reveal_strlit("add_evidence");
        },
        Action::SubmitTask => {
            reveal_strlit("submit_task");
        },
        Action::ValidatePlan => {
            reveal_strlit("validate_plan");
        },
        Action::AuditVerify => {
            reveal_strlit("audit_verify");
        },
        Action::ExplainLastRefusal => {
            reveal_strlit("explain_last_refusal");
        },
        Action::AgentPrompt => {
            reveal_strlit("agent_prompt");
        },
    }
}

/// Distinct actions have distinct names.
pub proof fn law_action_names_distinct(a: Action, b: Action)
    requires
        action_name(a) == action_name(b),
    ensures
        a == b,
{
    lemma_name_code(a);
    lemma_name_code(b);
    lemma_index_inverse(a);
    lemma_index_inverse(b);
}

} // verus!

verus! {

/// Current major schema version for agent actions.
pub const SCHEMA_VERSION: &'static str = "2";

/// Stable MCP help tool name.
pub const HELP_TOOL: &'static str = "convergio.help";

/// Stable MCP action tool name.
pub const ACT_TOOL: &'static str = "convergio.act";

/// The capabilities exposed to agents, in order.
pub open spec fn capability_names() -> Seq<Seq<char>> {
    seq!["status"@, "plans"@, "tasks"@, "evidence"@, "audit"@, "validation"@]
}

/// Action capabilities exposed to agents.
pub fn capabilities() -> (r: Vec<&'static str>)
    ensures
        r@.map_values(|s: &'static str| s@) == capability_names(),
{
    let r: Vec<&'static str> = vec!["status", "plans", "tasks", "evidence", "audit", "validation"];
    assert(r@.map_values(|s: &'static str| s@) =~= capability_names());
    r
}

/// Read-only help topics served by `convergio.help`.
#[derive(Debug, Clone, PartialEq, Eq, Structural)]
pub enum HelpTopic {
    /// Minimal session bootstrap.
    Quickstart,
    /// Action catalog.
    Actions,
    /// Details for one action.
    Action,
    /// Evidence payload conventions.
    EvidenceSchema,
    /// How agents should handle gate refusals.
    GateRefusal,
    /// Local setup instructions.
    Setup,
    /// Canonical agent prompt addendum.
    Prompt,
}

/// Help output verbosity.
#[derive(Debug, Clone, Copy, PartialEq, Eq, Structural)]
pub enum HelpVerbosity {
    /// Compact default for agent context.
    Short,
    /// Include machine-readable schemas or examples.
    Schema,
    /// Full explanatory content.
    Full,
}

/// Request accepted by `convergio.help`.
#[derive(Debug, Clone)]
pub struct HelpRequest {
    /// Requested help topic.
    pub topic: HelpTopic,
    /// Action name when `topic` is `Action`.
    pub action: Option<Action>,
    /// Requested verbosity.
    pub verbosity: HelpVerbosity,
}

/// Stable response codes.
#[derive(Debug, Clone, Copy, PartialEq, Eq, Structural)]
pub enum AgentCode {
    /// Action completed (`ok` on the wire).
    Success,
    /// Daemon is unreachable.
    DaemonUnavailable,
    /// The action schema version is incompatible.
    SchemaVersionMismatch,
    /// Request shape is invalid.
    InvalidRequest,
    /// A gate refused the transition.
    GateRefused,
    /// Requested resource was not found.
    NotFound,
    /// Any other daemon or bridge failure.
    Error,
}

/// Stable next-step hints for agents.
#[derive(Debug, Clone, Copy, PartialEq, Eq, Structural)]
pub enum NextHint {
    /// Call `convergio.help` again before retrying.
    RefreshHelp,
    /// Start the local daemon.
    StartDaemon,
    /// Fix the issue, attach new evidence, then retry submit.
    FixAddEvidenceRetrySubmit,
    /// Continue with task completion.
    CompleteTask,
    /// Verify audit state.
    VerifyAudit,
}

/// Stable MCP tool names.
#[derive(Debug, Clone)]
pub struct ToolNames {
    /// Read-only help tool.
    pub help: &'static str,
    /// Action dispatcher tool.
    pub act: &'static str,
}

/// Compact catalog returned by help implementations.
#[derive(Debug, Clone)]
pub struct ActionCatalog {
    /// Current schema version.
    pub schema_version: &'static str,
    /// Stable MCP tool names.
    pub tools: ToolNames,
    /// Available capabilities.
    pub capabilities: Vec<&'static str>,
    /// Supported actions, by name.
    pub actions: Vec<&'static str>,
}

impl ActionCatalog {
    /// The default catalog: schema version, the two tool names, the
    /// capabilities and the name of every action in display order.
    pub fn current() -> (c: ActionCatalog)
        ensures
            c.schema_version@ == SCHEMA_VERSION@,
            c.tools.help@ == HELP_TOOL@,
            c.tools.act@ == ACT_TOOL@,
            c.capabilities@.map_values(|s: &'static str| s@) == capability_names(),
            c.actions@.map_values(|s: &'static str| s@) == all_actions().map_values(|a: Action| action_name(a)),
    {
        let all = Action::all();
        let mut actions: Vec<&'static str> = Vec::new();
        let mut i: usize = 0;
        while i < all.len()
            invariant
                i <= all.len(),
                all@ == all_actions(),
                actions@.map_values(|s: &'static str| s@) == all@.take(i as int).map_values(|a: Action| action_name(a)),
            decreases all.len() - i,
        {
            let ghost before = actions@;
            let name = all[i].as_str();
            actions.push(name);
            proof {
                assert(all@.take(i + 1) =~= all@.take(i as int).push(all@[i as int]));
                assert(actions@ =~= before.push(name));
                assert(actions@.map_values(|s: &'static str| s@) =~= before.map_values(|s: &'static str| s@).push(
                    action_name(all@[i as int]),
                ));
            }
            i += 1;
        }
        assert(all@.take(all.len() as int) =~= all@);
        ActionCatalog {
            schema_version: SCHEMA_VERSION,
            tools: ToolNames { help: HELP_TOOL, act: ACT_TOOL },
            capabilities: capabilities(),
            actions,
        }
    }
}

/// The topic of a help request that names none.
pub fn default_help_topic() -> (t: HelpTopic)
    ensures
        t == HelpTopic::Quickstart,
{
    HelpTopic::Quickstart
}

/// The verbosity of a help request that names none.
pub fn default_help_verbosity() -> (v: HelpVerbosity)
    ensures
        v == HelpVerbosity::Short,
{
    HelpVerbosity::Short
}

} // verus!
