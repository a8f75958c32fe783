//! Versioned action names accepted by `convergio.act` in the current
//! schema.
use vstd::prelude::*;

verus! {

/// Closed set of task-oriented actions accepted by `convergio.act`.
#[derive(Debug, Clone, Copy, PartialEq, Eq, Structural)]
pub enum Action {
    /// Diagnose daemon and integration readiness.
    Status,
    /// Create a plan.
    CreatePlan,
    /// Create a task under a plan.
    CreateTask,
    /// List tasks for a plan.
    ListTasks,
    /// Find the next task an agent should work on.
    NextTask,
    /// Claim a task as in progress.
    ClaimTask,
    /// Touch a task heartbeat.
    Heartbeat,
    /// Attach evidence to a task.
    AddEvidence,
    /// Generate a compact task-scoped context packet.
    GetTaskContext,
    /// Publish a plan-scoped bus message.
    PublishMessage,
    /// Poll unacknowledged plan-scoped bus messages.
    PollMessages,
    /// Acknowledge a plan-scoped bus message.
    AckMessage,
    /// Submit a task and run gates.
    SubmitTask,
    /// Validate a plan.
    ValidatePlan,
    /// Verify the audit hash chain.
    AuditVerify,
    /// Import and materialize a CRDT operation batch.
    ImportCrdtOps,
    /// List unresolved CRDT conflicts.
    ListCrdtConflicts,
    /// Register or refresh an agent identity.
    RegisterAgent,
    /// List durable agent identities.
    ListAgents,
    /// Record an agent registry heartbeat.
    HeartbeatAgent,
    /// Retire an agent identity.
    RetireAgent,
    /// Spawn the local shell runner adapter.
    SpawnRunner,
    /// Solve a mission through the installed planner capability.
    PlannerSolve,
    /// List installed local capabilities.
    ListCapabilities,
    /// Get one installed local capability.
    GetCapability,
    /// Claim a workspace resource lease.
    ClaimWorkspaceLease,
    /// List active workspace leases.
    ListWorkspaceLeases,
    /// Release a workspace resource lease.
    ReleaseWorkspaceLease,
    /// Submit a workspace patch proposal.
    SubmitPatchProposal,
    /// Enqueue an accepted patch proposal for merge arbitration.
    EnqueuePatchProposal,
    /// Process the next pending merge queue item.
    ProcessMergeQueue,
    /// List merge queue items.
    ListMergeQueue,
    /// List open workspace conflicts.
    ListWorkspaceConflicts,
    /// Explain the most recent gate refusal for a task.
    ExplainLastRefusal,
    /// Return the canonical prompt addendum for agents.
    AgentPrompt,
}

/// The stable snake_case name of an action.
pub open spec fn action_name(a: Action) -> Seq<char> {
    match a {
        Action::Status => "status"@,
        Action::CreatePlan => "create_plan"@,
        Action::CreateTask => "create_task"@,
        Action::ListTasks => "list_tasks"@,
        Action::NextTask => "next_task"@,
        Action::ClaimTask => "claim_task"@,
        Action::Heartbeat => "heartbeat"@,
        Action::AddEvidence => "add_evidence"@,
        Action::GetTaskContext => "get_task_context"@,
        Action::PublishMessage => "publish_message"@,
        Action::PollMessages => "poll_messages"@,
        Action::AckMessage => "ack_message"@,
        Action::SubmitTask => "submit_task"@,
        Action::ValidatePlan => "validate_plan"@,
        Action::AuditVerify => "audit_verify"@,
        Action::ImportCrdtOps => "import_crdt_ops"@,
        Action::ListCrdtConflicts => "list_crdt_conflicts"@,
        Action::RegisterAgent => "register_agent"@,
        Action::ListAgents => "list_agents"@,
        Action::HeartbeatAgent => "heartbeat_agent"@,
        Action::RetireAgent => "retire_agent"@,
        Action::SpawnRunner => "spawn_runner"@,
        Action::PlannerSolve => "planner.solve"@,
        Action::ListCapabilities => "list_capabilities"@,
        Action::GetCapability => "get_capability"@,
        Action::ClaimWorkspaceLease => "claim_workspace_lease"@,
        Action::ListWorkspaceLeases => "list_workspace_leases"@,
        Action::ReleaseWorkspaceLease => "release_workspace_lease"@,
        Action::SubmitPatchProposal => "submit_patch_proposal"@,
        Action::EnqueuePatchProposal => "enqueue_patch_proposal"@,
        Action::ProcessMergeQueue => "process_merge_queue"@,
        Action::ListMergeQueue => "list_merge_queue"@,
        Action::ListWorkspaceConflicts => "list_workspace_conflicts"@,
        Action::ExplainLastRefusal => "explain_last_refusal"@,
        Action::AgentPrompt => "agent_prompt"@,
    }
}

/// Every action, in stable display order.
pub open spec fn all_actions() -> Seq<Action> {
    seq![
        Action::Status,
        Action::CreatePlan,
        Action::CreateTask,
        Action::ListTasks,
        Action::NextTask,
        Action::ClaimTask,
        Action::Heartbeat,
        Action::AddEvidence,
        Action::GetTaskContext,
        Action::PublishMessage,
        Action::PollMessages,
        Action::AckMessage,
        Action::SubmitTask,
        Action::ValidatePlan,
        Action::AuditVerify,
        Action::ImportCrdtOps,
        Action::ListCrdtConflicts,
        Action::RegisterAgent,
        Action::ListAgents,
        Action::HeartbeatAgent,
        Action::RetireAgent,
        Action::SpawnRunner,
        Action::PlannerSolve,
        Action::ListCapabilities,
        Action::GetCapability,
        Action::ClaimWorkspaceLease,
        Action::ListWorkspaceLeases,
        Action::ReleaseWorkspaceLease,
        Action::SubmitPatchProposal,
        Action::EnqueuePatchProposal,
        Action::ProcessMergeQueue,
        Action::ListMergeQueue,
        Action::ListWorkspaceConflicts,
        Action::ExplainLastRefusal,
        Action::AgentPrompt,
    ]
}

impl Action {
    /// Every supported action in stable display order.
    pub fn all() -> (r: Vec<Action>)
        ensures
            r@ == all_actions(),
    {
        let mut r: Vec<Action> = Vec::new();
        r.push(Action::Status);
        r.push(Action::CreatePlan);
        r.push(Action::CreateTask);
        r.push(Action::ListTasks);
        r.push(Action::NextTask);
        r.push(Action::ClaimTask);
        r.push(Action::Heartbeat);
        r.push(Action::AddEvidence);
        r.push(Action::GetTaskContext);
        r.push(Action::PublishMessage);
        r.push(Action::PollMessages);
        r.push(Action::AckMessage);
        r.push(Action::SubmitTask);
        r.push(Action::ValidatePlan);
        r.push(Action::AuditVerify);
        r.push(Action::ImportCrdtOps);
        r.push(Action::ListCrdtConflicts);
        r.push(Action::RegisterAgent);
        r.push(Action::ListAgents);
        r.push(Action::HeartbeatAgent);
        r.push(Action::RetireAgent);
        r.push(Action::SpawnRunner);
        r.push(Action::PlannerSolve);
        r.push(Action::ListCapabilities);
        r.push(Action::GetCapability);
        r.push(Action::ClaimWorkspaceLease);
        r.push(Action::ListWorkspaceLeases);
        r.push(Action::ReleaseWorkspaceLease);
        r.push(Action::SubmitPatchProposal);
        r.push(Action::EnqueuePatchProposal);
        r.push(Action::ProcessMergeQueue);
        r.push(Action::ListMergeQueue);
        r.push(Action::ListWorkspaceConflicts);
        r.push(Action::ExplainLastRefusal);
        r.push(Action::AgentPrompt);
        assert(r@ =~= all_actions());
        r
    }

    /// Stable snake_case action name.
    pub fn as_str(self) -> (r: &'static str)
        ensures
            r@ == action_name(self),
    {
        match self {
            Action::Status => "status",
            Action::CreatePlan => "create_plan",
            Action::CreateTask => "create_task",
            Action::ListTasks => "list_tasks",
            Action::NextTask => "next_task",
            Action::ClaimTask => "claim_task",
            Action::Heartbeat => "heartbeat",
            Action::AddEvidence => "add_evidence",
            Action::GetTaskContext => "get_task_context",
            Action::PublishMessage => "publish_message",
            Action::PollMessages => "poll_messages",
            Action::AckMessage => "ack_message",
            Action::SubmitTask => "submit_task",
            Action::ValidatePlan => "validate_plan",
            Action::AuditVerify => "audit_verify",
            Action::ImportCrdtOps => "import_crdt_ops",
            Action::ListCrdtConflicts => "list_crdt_conflicts",
            Action::RegisterAgent => "register_agent",
            Action::ListAgents => "list_agents",
            Action::HeartbeatAgent => "heartbeat_agent",
            Action::RetireAgent => "retire_agent",
            Action::SpawnRunner => "spawn_runner",
            Action::PlannerSolve => "planner.solve",
            Action::ListCapabilities => "list_capabilities",
            Action::GetCapability => "get_capability",
            Action::ClaimWorkspaceLease => "claim_workspace_lease",
            Action::ListWorkspaceLeases => "list_workspace_leases",
            Action::ReleaseWorkspaceLease => "release_workspace_lease",
            Action::SubmitPatchProposal => "submit_patch_proposal",
            Action::EnqueuePatchProposal => "enqueue_patch_proposal",
            Action::ProcessMergeQueue => "process_merge_queue",
            Action::ListMergeQueue => "list_merge_queue",
            Action::ListWorkspaceConflicts => "list_workspace_conflicts",
            Action::ExplainLastRefusal => "explain_last_refusal",
            Action::AgentPrompt => "agent_prompt",
        }
    }
}

} // verus!

verus! {

/// Position of an action in [`all_actions`].
pub open spec fn action_index(a: Action) -> int {
    match a {
        Action::Status => 0,
        Action::CreatePlan => 1,
        Action::CreateTask => 2,
        Action::ListTasks => 3,
        Action::NextTask => 4,
        Action::ClaimTask => 5,
        Action::Heartbeat => 6,
        Action::AddEvidence => 7,
        Action::GetTaskContext => 8,
        Action::PublishMessage => 9,
        Action::PollMessages => 10,
        Action::AckMessage => 11,
        Action::SubmitTask => 12,
        Action::ValidatePlan => 13,
        Action::AuditVerify => 14,
        Action::ImportCrdtOps => 15,
        Action::ListCrdtConflicts => 16,
        Action::RegisterAgent => 17,
        Action::ListAgents => 18,
        Action::HeartbeatAgent => 19,
        Action::RetireAgent => 20,
        Action::SpawnRunner => 21,
        Action::PlannerSolve => 22,
        Action::ListCapabilities => 23,
        Action::GetCapability => 24,
        Action::ClaimWorkspaceLease => 25,
        Action::ListWorkspaceLeases => 26,
        Action::ReleaseWorkspaceLease => 27,
        Action::SubmitPatchProposal => 28,
        Action::EnqueuePatchProposal => 29,
        Action::ProcessMergeQueue => 30,
        Action::ListMergeQueue => 31,
        Action::ListWorkspaceConflicts => 32,
        Action::ExplainLastRefusal => 33,
        Action::AgentPrompt => 34,
    }
}

proof fn lemma_index_inverse(a: Action)
    ensures
        0 <= action_index(a) < all_actions().len(),
        all_actions()[action_index(a)] == a,
{
    match a {
        Action::Status => {},
        Action::CreatePlan => {},
        Action::CreateTask => {},
        Action::ListTasks => {},
        Action::NextTask => {},
        Action::ClaimTask => {},
        Action::Heartbeat => {},
        Action::AddEvidence => {},
        Action::GetTaskContext => {},
        Action::PublishMessage => {},
        Action::PollMessages => {},
        Action::AckMessage => {},
        Action::SubmitTask => {},
        Action::ValidatePlan => {},
        Action::AuditVerify => {},
        Action::ImportCrdtOps => {},
        Action::ListCrdtConflicts => {},
        Action::RegisterAgent => {},
        Action::ListAgents => {},
        Action::HeartbeatAgent => {},
        Action::RetireAgent => {},
        Action::SpawnRunner => {},
        Action::PlannerSolve => {},
        Action::ListCapabilities => {},
        Action::GetCapability => {},
        Action::ClaimWorkspaceLease => {},
        Action::ListWorkspaceLeases => {},
        Action::ReleaseWorkspaceLease => {},
        Action::SubmitPatchProposal => {},
        Action::EnqueuePatchProposal => {},
        Action::ProcessMergeQueue => {},
        Action::ListMergeQueue => {},
        Action::ListWorkspaceConflicts => {},
        Action::ExplainLastRefusal => {},
        Action::AgentPrompt => {},
    }
}

/// The catalog lists every action exactly once.
pub proof fn law_all_lists_each_action_once(a: Action)
    ensures
        all_actions().contains(a),
        all_actions().no_duplicates(),
{
    assert forall|i: int| 0 <= i < 35 implies action_index(#[trigger] all_actions()[i]) == i by {
        if i == 0 {
            assert(all_actions()[i] == Action::Status);
        } else if i == 1 {
            assert(all_actions()[i] == Action::CreatePlan);
        } else if i == 2 {
            assert(all_actions()[i] == Action::CreateTask);
        } else if i == 3 {
            assert(all_actions()[i] == Action::ListTasks);
        } else if i == 4 {
            assert(all_actions()[i] == Action::NextTask);
        } else if i == 5 {
            assert(all_actions()[i] == Action::ClaimTask);
        } else if i == 6 {
            assert(all_actions()[i] == Action::Heartbeat);
        } else if i == 7 {
            assert(all_actions()[i] == Action::AddEvidence);
        } else if i == 8 {
            assert(all_actions()[i] == Action::GetTaskContext);
        } else if i == 9 {
            assert(all_actions()[i] == Action::PublishMessage);
        } else if i == 10 {
            assert(all_actions()[i] == Action::PollMessages);
        } else if i == 11 {
            assert(all_actions()[i] == Action::AckMessage);
        } else if i == 12 {
            assert(all_actions()[i] == Action::SubmitTask);
        } else if i == 13 {
            assert(all_actions()[i] == Action::ValidatePlan);
        } else if i == 14 {
            assert(all_actions()[i] == Action::AuditVerify);
        } else if i == 15 {
            assert(all_actions()[i] == Action::ImportCrdtOps);
        } else if i == 16 {
            assert(all_actions()[i] == Action::ListCrdtConflicts);
        } else if i == 17 {
            assert(all_actions()[i] == Action::RegisterAgent);
        } else if i == 18 {
            assert(all_actions()[i] == Action::ListAgents);
        } else if i == 19 {
            assert(all_actions()[i] == Action::HeartbeatAgent);
        } else if i == 20 {
            assert(all_actions()[i] == Action::RetireAgent);
        } else if i == 21 {
            assert(all_actions()[i] == Action::SpawnRunner);
        } else if i == 22 {
            assert(all_actions()[i] == Action::PlannerSolve);
        } else if i == 23 {
            assert(all_actions()[i] == Action::ListCapabilities);
        } else if i == 24 {
            assert(all_actions()[i] == Action::GetCapability);
        } else if i == 25 {
            assert(all_actions()[i] == Action::ClaimWorkspaceLease);
        } else if i == 26 {
            assert(all_actions()[i] == Action::ListWorkspaceLeases);
        } else if i == 27 {
            assert(all_actions()[i] == Action::ReleaseWorkspaceLease);
        } else if i == 28 {
            assert(all_actions()[i] == Action::SubmitPatchProposal);
        } else if i == 29 {
            assert(all_actions()[i] == Action::EnqueuePatchProposal);
        } else if i == 30 {
            assert(all_actions()[i] == Action::ProcessMergeQueue);
        } else if i == 31 {
            assert(all_actions()[i] == Action::ListMergeQueue);
        } else if i == 32 {
            assert(all_actions()[i] == Action::ListWorkspaceConflicts);
        } else if i == 33 {
            assert(all_actions()[i] == Action::ExplainLastRefusal);
        } else if i == 34 {
            assert(all_actions()[i] == Action::AgentPrompt);
        }
    }
    lemma_index_inverse(a);
}

/// Position of a name among the action names, told apart by length,
/// first and last character; -1 for any other text.
pub open spec fn name_code(s: Seq<char>) -> int {
    if s.len() == 6 && s[0] == 's' && s[5] == 's' {
        0
    } else if s.len() == 11 && s[0] == 'c' && s[10] == 'n' {
        1
    } else if s.len() == 11 && s[0] == 'c' && s[10] == 'k' {
        2
    } else if s.len() == 10 && s[0] == 'l' && s[9] == 's' {
        3
    } else if s.len() == 9 && s[0] == 'n' && s[8] == 'k' {
        4
    } else if s.len() == 10 && s[0] == 'c' && s[9] == 'k' {
        5
    } else if s.len() == 9 && s[0] == 'h' && s[8] == 't' {
        6
    } else if s.len() == 12 && s[0] == 'a' && s[11] == 'e' {
        7
    } else if s.len() == 16 && s[0] == 'g' && s[15] == 't' {
        8
    } else if s.len() == 15 && s[0] == 'p' && s[14] == 'e' {
        9
    } else if s.len() == 13 && s[0] == 'p' && s[12] == 's' {
        10
    } else if s.len() == 11 && s[0] == 'a' && s[10] == 'e' {
        11
    } else if s.len() == 11 && s[0] == 's' && s[10] == 'k' {
        12
    } else if s.len() == 13 && s[0] == 'v' && s[12] == 'n' {
        13
    } else if s.len() == 12 && s[0] == 'a' && s[11] == 'y' {
        14
    } else if s.len() == 15 && s[0] == 'i' && s[14] == 's' {
        15
    } else if s.len() == 19 && s[0] == 'l' && s[18] == 's' {
        16
    } else if s.len() == 14 && s[0] == 'r' && s[13] == 't' {
        17
    } else if s.len() == 11 && s[0] == 'l' && s[10] == 's' {
        18
    } else if s.len() == 15 && s[0] == 'h' && s[14] == 't' {
        19
    } else if s.len() == 12 && s[0] == 'r' && s[11] == 't' {
        20
    } else if s.len() == 12 && s[0] == 's' && s[11] == 'r' {
        21
    } else if s.len() == 13 && s[0] == 'p' && s[12] == 'e' {
        22
    } else if s.len() == 17 && s[0] == 'l' && s[16] == 's' {
        23
    } else if s.len() == 14 && s[0] == 'g' && s[13] == 'y' {
        24
    } else if s.len() == 21 && s[0] == 'c' && s[20] == 'e' {
        25
    } else if s.len() == 21 && s[0] == 'l' && s[20] == 's' {
        26
    } else if s.len() == 23 && s[0] == 'r' && s[22] == 'e' {
        27
    } else if s.len() == 21 && s[0] == 's' && s[20] == 'l' {
        28
    } else if s.len() == 22 && s[0] == 'e' && s[21] == 'l' {
        29
    } else if s.len() == 19 && s[0] == 'p' && s[18] == 'e' {
        30
    } else if s.len() == 16 && s[0] == 'l' && s[15] == 'e' {
        31
    } else if s.len() == 24 && s[0] == 'l' && s[23] == 's' {
        32
    } else if s.len() == 20 && s[0] == 'e' && s[19] == 'l' {
        33
    } else if s.len() == 12 && s[0] == 'a' && s[11] == 't' {
        34
    } else {
        -1
    }
}

proof fn lemma_name_code(a: Action)
    ensures
        name_code(action_name(a)) == action_index(a),
{
    match a {
        Action::Status => {
            reveal_strlit("status");
        },
        Action::CreatePlan => {
            reveal_strlit("create_plan");
        },
        Action::CreateTask => {
            reveal_strlit("create_task");
        },
        Action::ListTasks => {
            reveal_strlit("list_tasks");
        },
        Action::NextTask => {
            reveal_strlit("next_task");
        },
        Action::ClaimTask => {
            reveal_strlit("claim_task");
        },
        Action::Heartbeat => {
            reveal_strlit("heartbeat");
        },
        Action::AddEvidence => {
            reveal_strlit("add_evidence");
        },
        Action::GetTaskContext => {
            reveal_strlit("get_task_context");
        },
        Action::PublishMessage => {
            reveal_strlit("publish_message");
        },
        Action::PollMessages => {
            reveal_strlit("poll_messages");
        },
        Action::AckMessage => {
            reveal_strlit("ack_message");
        },
        Action::SubmitTask => {
            reveal_strlit("submit_task");
        },
        Action::ValidatePlan => {
            reveal_strlit("validate_plan");
        },
        Action::AuditVerify => {
            reveal_strlit("audit_verify");
        },
        Action::ImportCrdtOps => {
            reveal_strlit("import_crdt_ops");
        },
        Action::ListCrdtConflicts => {
            reveal_strlit("list_crdt_conflicts");
        },
        Action::RegisterAgent => {
            reveal_strlit("register_agent");
        },
        Action::ListAgents => {
            reveal_strlit("list_agents");
        },
        Action::HeartbeatAgent => {
            reveal_strlit("heartbeat_agent");
        },
        Action::RetireAgent => {
            reveal_strlit("retire_agent");
        },
        Action::SpawnRunner => {
            reveal_strlit("spawn_runner");
        },
        Action::PlannerSolve => {
            reveal_strlit("planner.solve");
        },
        Action::ListCapabilities => {
            reveal_strlit("list_capabilities");
        },
        Action::GetCapability => {
            reveal_strlit("get_capability");
        },
        Action::ClaimWorkspaceLease => {
            reveal_strlit("claim_workspace_lease");
        },
        Action::ListWorkspaceLeases => {
            reveal_strlit("list_workspace_leases");
        },
        Action::ReleaseWorkspaceLease => {
            reveal_strlit("release_workspace_lease");
        },
        Action::SubmitPatchProposal => {
            reveal_strlit("submit_patch_proposal");
        },
        Action::EnqueuePatchProposal => {
            reveal_strlit("enqueue_patch_proposal");
        },
        Action::ProcessMergeQueue => {
            reveal_strlit("process_merge_queue");
        },
        Action::ListMergeQueue => {
            reveal_strlit("list_merge_queue");
        },
        Action::ListWorkspaceConflicts => {
            reveal_strlit("list_workspace_conflicts");
        },
        Action::ExplainLastRefusal => {
            reveal_strlit("explain_last_refusal");
        },
        Action::AgentPrompt => {
            reveal_strlit("agent_prompt");
        },
    }
}

/// Distinct actions have distinct names.
pub proof fn law_action_names_distinct(a: Action, b: Action)
    requires
        action_name(a) == action_name(b),
    ensures
        a == b,
{
    lemma_name_code(a);
    lemma_name_code(b);
    lemma_index_inverse(a);
    lemma_index_inverse(b);
}

} // verus!
