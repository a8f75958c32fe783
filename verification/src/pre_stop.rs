//! End-of-session safety net (`cvg session pre-stop`): a registry of
//! checks, each producing an outcome, and the rule that decides
//! whether the agent may detach.
//!
//! The checks that look at the repository (recent commit messages, the
//! friction log, the worktrees and their pull requests) are given what
//! the caller read there as a [`Probes`] value; the four HTTP-shaped
//! checks are still scheduled work and report the plan task that will
//! implement them.
use vstd::prelude::*;
use crate::text::string_views;

verus! {

/// Outcome of one safety check.
#[derive(Debug, Clone)]
pub enum CheckOutcome {
    /// The check ran and found nothing to surface.
    Pass,
    /// The check ran and found issues, one line each.
    Fail {
        /// What was found and where.
        findings: Vec<String>,
    },
    /// The check is scheduled but not implemented; does not block.
    NotImplemented {
        /// Plan task id of the implementation slot.
        task_id: &'static str,
    },
}

/// An outcome as text.
pub enum OutcomeView {
    Pass,
    Fail(Seq<Seq<char>>),
    NotImplemented(Seq<char>),
}

impl CheckOutcome {
    pub open spec fn view(&self) -> OutcomeView {
        match self {
            CheckOutcome::Pass => OutcomeView::Pass,
            CheckOutcome::Fail { findings } => OutcomeView::Fail(string_views(findings@)),
            CheckOutcome::NotImplemented { task_id } => OutcomeView::NotImplemented(task_id@),
        }
    }

    /// Whether this outcome blocks detach: only a failure does.
    pub fn blocks(&self) -> (r: bool)
        ensures
            r == (self is Fail),
    {
        match self {
            CheckOutcome::Fail { .. } => true,
            _ => false,
        }
    }
}

/// Context passed to every check.
#[derive(Debug, Clone)]
pub struct CheckContext {
    /// Stable agent identity.
    pub agent_id: String,
    /// Daemon base URL, for checks that call HTTP routes.
    pub daemon_url: String,
}

/// What the repository-facing checks read before the checks run.
#[derive(Debug, Clone)]
pub struct Probes {
    /// Bodies of the commits of the last 24 hours; `None` when `git`
    /// could not be run or failed.
    pub commit_log: Option<String>,
    /// The friction log; `None` when it is missing or unreadable.
    pub friction_log: Option<String>,
    /// The branch of each secondary worktree with whether a pull request
    /// is open for it; `None` when the worktrees could not be listed.
    pub worktrees: Option<Vec<(String, bool)>>,
}

impl Probes {
    /// Nothing could be read: every repository check passes.
    pub fn unavailable() -> (p: Probes)
        ensures
            p.commit_log is None,
            p.friction_log is None,
            p.worktrees is None,
    {
        Probes { commit_log: None, friction_log: None, worktrees: None }
    }
}

/// One safety check.
pub trait Check {
    /// Stable identifier shown in reports and logs.
    fn id(&self) -> &'static str;

    /// Short human label for the report.
    fn label(&self) -> &'static str;

    /// Runs the check on what the probes read.
    fn run(&self, ctx: &CheckContext, probes: &Probes) -> CheckOutcome;
}

/// One row of the report.
#[derive(Debug)]
pub struct CheckResult {
    /// The check's id.
    pub id: &'static str,
    /// The check's label.
    pub label: &'static str,
    /// What the check produced.
    pub outcome: CheckOutcome,
}

/// Aggregate report.
#[derive(Debug)]
pub struct PreStopReport {
    /// Effective agent identity.
    pub agent_id: String,
    /// Per-check outcomes, in registry order.
    pub results: Vec<CheckResult>,
    /// Whether `--force` was supplied.
    pub forced: bool,
}

/// A report blocks detach when it was not forced and some outcome fails.
pub open spec fn blocks_detach(report: PreStopReport) -> bool {
    !report.forced && exists|i: int| 0 <= i < report.results@.len() && report.results@[i].outcome is Fail
}

/// Whether the report should stop the agent from detaching: at least
/// one failing outcome and no `--force`.
pub fn report_blocks_detach(report: &PreStopReport) -> (r: bool)
    ensures
        r == blocks_detach(*report),
{
    if report.forced {
        return false;
    }
    let mut i: usize = 0;
    while i < report.results.len()
        invariant
            i <= report.results.len(),
            !report.forced,
            forall|k: int| 0 <= k < i ==> !(report.results@[k].outcome is Fail),
        decreases report.results.len() - i,
    {
        if report.results[i].outcome.blocks() {
            assert(report.results@[i as int].outcome is Fail);
            return true;
        }
        i += 1;
    }
    false
}

/// A forced report never blocks detach.
pub proof fn law_forced_never_blocks(report: PreStopReport)
    requires
        report.forced,
    ensures
        !blocks_detach(report),
{
}

/// A report whose outcomes all pass or are not implemented never blocks
/// detach.
pub proof fn law_no_failure_never_blocks(report: PreStopReport)
    requires
        forall|i: int| 0 <= i < report.results@.len() ==> !(report.results@[i].outcome is Fail),
    ensures
        !blocks_detach(report),
{
}

} // verus!

verus! {

/// A check that is scheduled but not implemented yet.
#[derive(Debug, Clone, Copy)]
pub struct StubCheck {
    pub id: &'static str,
    pub label: &'static str,
    /// Plan task id of the implementation slot.
    pub task_id: &'static str,
}

impl Check for StubCheck {
    fn id(&self) -> (r: &'static str)
        ensures
            r == self.id,
    {
        self.id
    }

    fn label(&self) -> (r: &'static str)
        ensures
            r == self.label,
    {
        self.label
    }

    fn run(&self, ctx: &CheckContext, probes: &Probes) -> (r: CheckOutcome)
        ensures
            r.view() == OutcomeView::NotImplemented(self.task_id@),
    {
        CheckOutcome::NotImplemented { task_id: self.task_id }
    }
}

/// A check of the registry.
pub enum RegisteredCheck {
    Stub(StubCheck),
    WorktreeNoPr(crate::worktree::WorktreeNoPrCheck),
    FrictionMissing(crate::friction::FrictionMissingCheck),
}

pub open spec fn registered_id(c: RegisteredCheck) -> Seq<char> {
    match c {
        RegisteredCheck::Stub(s) => s.id@,
        RegisteredCheck::WorktreeNoPr(_) => "check.worktree.no_pr"@,
        RegisteredCheck::FrictionMissing(_) => "check.friction.missing"@,
    }
}

pub open spec fn registered_label(c: RegisteredCheck) -> Seq<char> {
    match c {
        RegisteredCheck::Stub(s) => s.label@,
        RegisteredCheck::WorktreeNoPr(_) => "abandoned worktrees with no PR open"@,
        RegisteredCheck::FrictionMissing(_) => "friction-log entries hinted in commits but not written"@,
    }
}

/// What check `c` reports on `probes`.
pub open spec fn registered_outcome(c: RegisteredCheck, probes: Probes, o: OutcomeView) -> bool {
    match c {
        RegisteredCheck::Stub(s) => o == OutcomeView::NotImplemented(s.task_id@),
        RegisteredCheck::WorktreeNoPr(_) => crate::worktree::worktree_outcome(
            o,
            match probes.worktrees {
                Some(ws) => Some(crate::worktree::worktree_views(ws@)),
                None => None,
            },
        ),
        RegisteredCheck::FrictionMissing(_) => crate::friction::friction_outcome(
            o,
            crate::friction::opt_view(probes.commit_log),
            crate::friction::opt_view(probes.friction_log),
        ),
    }
}

impl Check for RegisteredCheck {
    fn id(&self) -> (r: &'static str)
        ensures
            r@ == registered_id(*self),
    {
        match self {
            RegisteredCheck::Stub(s) => s.id(),
            RegisteredCheck::WorktreeNoPr(c) => c.id(),
            RegisteredCheck::FrictionMissing(c) => c.id(),
        }
    }

    fn label(&self) -> (r: &'static str)
        ensures
            r@ == registered_label(*self),
    {
        match self {
            RegisteredCheck::Stub(s) => s.label(),
            RegisteredCheck::WorktreeNoPr(c) => c.label(),
            RegisteredCheck::FrictionMissing(c) => c.label(),
        }
    }

    fn run(&self, ctx: &CheckContext, probes: &Probes) -> (r: CheckOutcome)
        ensures
            registered_outcome(*self, *probes, r.view()),
    {
        match self {
            RegisteredCheck::Stub(s) => s.run(ctx, probes),
            RegisteredCheck::WorktreeNoPr(c) => c.run(ctx, probes),
            RegisteredCheck::FrictionMissing(c) => c.run(ctx, probes),
        }
    }
}

/// The six checks, in report order.
pub open spec fn registry_spec() -> Seq<RegisteredCheck> {
    seq![
        RegisteredCheck::Stub(
            StubCheck { id: "check.plan_pr_drift", label: "plan-vs-merged-PR drift", task_id: "5298055b" },
        ),
        RegisteredCheck::Stub(
            StubCheck {
                id: "check.bus.inbound",
                label: "inbound bus messages addressed to me, unconsumed",
                task_id: "564926dc",
            },
        ),
        RegisteredCheck::Stub(
            StubCheck {
                id: "check.bus.outbound",
                label: "outbound stale bus messages sent by me, never consumed",
                task_id: "2c181be2",
            },
        ),
        RegisteredCheck::WorktreeNoPr(crate::worktree::WorktreeNoPrCheck),
        RegisteredCheck::Stub(
            StubCheck {
                id: "check.handshake.uncommitted",
                label: "files declared in last bus handshake but never committed",
                task_id: "95e6b262",
            },
        ),
        RegisteredCheck::FrictionMissing(crate::friction::FrictionMissingCheck),
    ]
}

/// The canonical registry: the worktree and friction checks, and four
/// HTTP-shaped checks that still point at their plan tasks.
pub fn registry() -> (r: Vec<RegisteredCheck>)
    ensures
        r@ == registry_spec(),
{
    let r: Vec<RegisteredCheck> = vec![
        RegisteredCheck::Stub(
            StubCheck { id: "check.plan_pr_drift", label: "plan-vs-merged-PR drift", task_id: "5298055b" },
        ),
        RegisteredCheck::Stub(
            StubCheck {
                id: "check.bus.inbound",
                label: "inbound bus messages addressed to me, unconsumed",
                task_id: "564926dc",
            },
        ),
        RegisteredCheck::Stub(
            StubCheck {
                id: "check.bus.outbound",
                label: "outbound stale bus messages sent by me, never consumed",
                task_id: "2c181be2",
            },
        ),
        RegisteredCheck::WorktreeNoPr(crate::worktree::WorktreeNoPrCheck),
        RegisteredCheck::Stub(
            StubCheck {
                id: "check.handshake.uncommitted",
                label: "files declared in last bus handshake but never committed",
                task_id: "95e6b262",
            },
        ),
        RegisteredCheck::FrictionMissing(crate::friction::FrictionMissingCheck),
    ];
    assert(r@ =~= registry_spec());
    r
}

/// Runs every check of the registry, in order, and collects the report.
pub fn run_pre_stop(ctx: &CheckContext, forced: bool, probes: &Probes) -> (r: Result<PreStopReport, ()>)
    ensures
        r is Ok,
        r->Ok_0.agent_id@ == ctx.agent_id@,
        r->Ok_0.forced == forced,
        r->Ok_0.results@.len() == registry_spec().len(),
        forall|i: int|
            0 <= i < registry_spec().len() ==> {
                let res = #[trigger] r->Ok_0.results@[i];
                &&& res.id@ == registered_id(registry_spec()[i])
                &&& res.label@ == registered_label(registry_spec()[i])
                &&& registered_outcome(registry_spec()[i], *probes, res.outcome.view())
            },
{
    let reg = registry();
    let mut results: Vec<CheckResult> = Vec::new();
    let mut i: usize = 0;
    while i < reg.len()
        invariant
            i <= reg.len(),
            reg@ == registry_spec(),
            results@.len() == i,
            forall|k: int|
                0 <= k < i ==> {
                    let res = #[trigger] results@[k];
                    &&& res.id@ == registered_id(registry_spec()[k])
                    &&& res.label@ == registered_label(registry_spec()[k])
                    &&& registered_outcome(registry_spec()[k], *probes, res.outcome.view())
                },
        decreases reg.len() - i,
    {
        let check = &reg[i];
        let outcome = check.run(ctx, probes);
        let id = check.id();
        let label = check.label();
        results.push(CheckResult { id, label, outcome });
        i += 1;
    }
    let agent_id = crate::text::string_of(&crate::text::chars_of(ctx.agent_id.as_str()));
    Ok(PreStopReport { agent_id, results, forced })
}

} // verus!
