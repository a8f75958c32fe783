use convergio::friction::{scan_friction_ids, FrictionMissingCheck};
use convergio::pre_stop::{
    registry, report_blocks_detach, run_pre_stop, Check, CheckContext, CheckOutcome, CheckResult, PreStopReport,
    Probes,
};
use convergio::pre_stop_render::render_human;
use convergio::worktree::{list_worktree_branches, WorktreeNoPrCheck};

fn ctx() -> CheckContext {
    CheckContext { agent_id: "agent-roberdan".into(), daemon_url: "http://127.0.0.1:8420".into() }
}

#[test]
fn scan_friction_ids_extracts_word_boundaries() {
    let s = "fixed F46 and F46b but not F999. (refF200 should not match.)";
    let ids = scan_friction_ids(s);
    assert!(ids.contains("F46"));
    assert!(ids.contains("F999"));
    assert!(!ids.contains("F200"));
}

#[test]
fn friction_missing_check_id_and_label_are_stable() {
    let c = FrictionMissingCheck;
    assert_eq!(c.id(), "check.friction.missing");
}

#[test]
fn list_worktree_branches_skips_main_and_detached() {
    let porcelain = "worktree /repo
HEAD abc
branch refs/heads/main

worktree /repo/.worktrees/feat-x
HEAD def
branch refs/heads/feat/x

worktree /repo/.worktrees/headless
HEAD ghi
detached

";
    let branches = list_worktree_branches(porcelain);
    assert_eq!(branches, vec!["feat/x".to_string()]);
}

#[test]
fn worktree_no_pr_check_id_and_label_are_stable() {
    let c = WorktreeNoPrCheck;
    assert_eq!(c.id(), "check.worktree.no_pr");
    assert!(c.label().contains("worktree"));
}

#[test]
fn registry_lists_all_six_checks() {
    let reg = registry();
    assert_eq!(reg.len(), 6, "six checks are mandated");
    let ids: Vec<&str> = reg.iter().map(|c| c.id()).collect();
    assert!(ids.contains(&"check.plan_pr_drift"));
    assert!(ids.contains(&"check.bus.inbound"));
    assert!(ids.contains(&"check.bus.outbound"));
    assert!(ids.contains(&"check.worktree.no_pr"));
    assert!(ids.contains(&"check.handshake.uncommitted"));
    assert!(ids.contains(&"check.friction.missing"));
}

#[test]
fn stub_checks_still_point_at_their_task_ids() {
    let report = run_pre_stop(&ctx(), false, &Probes::unavailable()).expect("scaffold runs");
    let stub_ids: Vec<&'static str> = report
        .results
        .iter()
        .filter_map(|r| match &r.outcome {
            CheckOutcome::NotImplemented { task_id } => Some(*task_id),
            _ => None,
        })
        .collect();
    assert_eq!(stub_ids.len(), 4, "four checks remain HTTP-shaped stubs");
    for tid in stub_ids {
        assert!(!tid.is_empty(), "stub must point at a task");
    }
}

#[test]
fn fail_outcome_blocks_unless_forced() {
    let mut report = run_pre_stop(&ctx(), false, &Probes::unavailable()).expect("scaffold runs");
    report.results[0].outcome = CheckOutcome::Fail { findings: vec!["something to flag".into()] };
    assert!(report_blocks_detach(&report));
    report.forced = true;
    assert!(!report_blocks_detach(&report));
}

#[test]
fn pass_outcome_does_not_block() {
    let mut report = run_pre_stop(&ctx(), false, &Probes::unavailable()).expect("scaffold runs");
    for r in &mut report.results {
        r.outcome = CheckOutcome::Pass;
    }
    assert!(!report_blocks_detach(&report));
}

#[test]
fn human_report_marks_each_check() {
    let report = PreStopReport {
        agent_id: "a1".to_string(),
        results: vec![
            CheckResult { id: "one", label: "First", outcome: CheckOutcome::Pass },
            CheckResult {
                id: "two",
                label: "Second",
                outcome: CheckOutcome::Fail { findings: vec!["x".to_string(), "y".to_string()] },
            },
            CheckResult { id: "three", label: "Third", outcome: CheckOutcome::NotImplemented { task_id: "t-9" } },
        ],
        forced: false,
    };
    let expected = [
        "session pre-stop report (agent_id=a1, force=false)\n",
        "  [ok] one — First\n",
        "  [FAIL] two — Second\n",
        "        - x\n",
        "        - y\n",
        "  [todo] three — Third\n",
        "        scheduled in plan task t-9\n",
    ]
    .concat();
    assert_eq!(render_human("a1", false, &report), expected);
    let empty = PreStopReport { agent_id: "a1".to_string(), results: vec![], forced: true };
    assert_eq!(render_human("a1", true, &empty), "session pre-stop report (agent_id=a1, force=true)\n");
}
