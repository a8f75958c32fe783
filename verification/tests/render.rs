use convergio::agent::{byte_prefix_of, default_agent_id, RunnerKind};
use convergio::graph::{cluster_path, drift_path, for_task_path};
use convergio::graph_render::{
    render_build_human, render_cluster_human, render_drift_human, render_pack_human, BuildSummary, ClusterReport,
    Community, ContextPack, DriftReport, PackAdr, PackFile, PackNode,
};
use convergio::order::{IdSet, StringSet};
use convergio::pr::{AnalysedPr, ManifestStatus};
use convergio::pr_render::{merge_order_text, pr_summary_line};
use convergio::pr_sync::{
    is_settled, sync_report_human, sync_report_plain, tracked_pairs, SyncFailure, SyncOk, SyncReport, SyncSkip,
};
use convergio::session::{select_plan, Plan};

const T1: &str = "11111111-2222-3333-4444-555555555555";
const T2: &str = "aaaaaaaa-bbbb-cccc-dddd-eeeeeeeeeeee";
const T3: &str = "99999999-8888-7777-6666-555555555555";

fn kind(vendor: &str, model: &str) -> RunnerKind {
    RunnerKind { vendor: vendor.to_string(), model: model.to_string() }
}

fn s(x: &str) -> Option<String> {
    Some(x.to_string())
}

#[test]
fn default_agent_id_uses_kind_and_slug() {
    let id = default_agent_id(&kind("acme", "sonnet"), "abcdef1234567890");
    assert_eq!(id, "acme-sonnet-abcdef1");
}

#[test]
fn default_agent_id_handles_short_task_id() {
    let id = default_agent_id(&kind("copilot", "gpt-5.2"), "abc");
    assert_eq!(id, "copilot-gpt-5.2-abc");
}

#[test]
fn byte_prefix_stops_on_character_boundaries() {
    let t: Vec<char> = "aé€x".chars().collect();
    assert_eq!(byte_prefix_of(&t, 0), Some(vec![]));
    assert_eq!(byte_prefix_of(&t, 1), Some(vec!['a']));
    assert_eq!(byte_prefix_of(&t, 2), None);
    assert_eq!(byte_prefix_of(&t, 3), Some(vec!['a', 'é']));
    assert_eq!(byte_prefix_of(&t, 6), Some(vec!['a', 'é', '€']));
    assert_eq!(byte_prefix_of(&t, 7), Some(vec!['a', 'é', '€', 'x']));
    assert_eq!(byte_prefix_of(&t, 8), None);
}

#[test]
fn tracked_pairs_keep_plan_tasks_in_pr_then_line_order() {
    let mut plan = StringSet::new();
    plan.insert(T1);
    plan.insert(T2);
    let body_a = format!("Tracks: {T2}, {T3}\nTracks: {T1}\n");
    let body_b = format!("prose\nTracks: {T1}\n");
    let prs = vec![(Some(12), Some(body_a)), (None, Some(body_b)), (Some(14), None)];
    let pairs = tracked_pairs(&prs, &plan);
    assert_eq!(pairs, vec![(12, T2.to_string()), (12, T1.to_string()), (0, T1.to_string())]);
}

#[test]
fn tracked_pairs_empty_without_prs() {
    let plan = StringSet::new();
    assert!(tracked_pairs(&vec![], &plan).is_empty());
}

#[test]
fn settled_statuses_are_submitted_done_and_failed() {
    assert!(is_settled("submitted"));
    assert!(is_settled("done"));
    assert!(is_settled("failed"));
    assert!(!is_settled("pending"));
    assert!(!is_settled("in_progress"));
}

fn sample_report() -> SyncReport {
    SyncReport {
        scanned_prs: 5,
        tracked_pairs: 3,
        transitioned: vec![SyncOk { pr_number: 12, task_id: T1.to_string(), previous_status: "pending".to_string() }],
        skipped: vec![SyncSkip { pr_number: 13, task_id: T2.to_string(), current_status: "done".to_string() }],
        failed: vec![SyncFailure { pr_number: -1, task_id: T3.to_string(), reason: "gate refused".to_string() }],
    }
}

#[test]
fn sync_report_plain_counts() {
    assert_eq!(sync_report_plain(&sample_report()), "scanned=5 tracked=3 transitioned=1 skipped=1 failed=1\n");
    assert_eq!(sync_report_plain(&SyncReport::empty()), "scanned=0 tracked=0 transitioned=0 skipped=0 failed=0\n");
}

#[test]
fn sync_report_human_lists_each_outcome() {
    let expected = [
        "cvg pr sync — scanned 5 merged PRs, 3 (PR, task) pairs found\n",
        "\n",
        "  transitioned (1):  pending → submitted\n",
        "    PR #12 → task 11111111\n",
        "\n",
        "  skipped (1): already submitted or done\n",
        "    PR #13 → task aaaaaaaa (done)\n",
        "\n",
        "  failed (1): gate refusal or transport error\n",
        "    PR #-1 → task 99999999: gate refused\n",
    ]
    .concat();
    assert_eq!(sync_report_human(&sample_report()), expected);
}

#[test]
fn sync_report_human_empty_says_no_tasks() {
    let expected = [
        "cvg pr sync — scanned 0 merged PRs, 0 (PR, task) pairs found\n",
        "\n",
        "  transitioned (0):  no tasks → submitted\n",
        "\n",
        "  skipped (0): already submitted or done\n",
        "\n",
        "  failed (0): gate refusal or transport error\n",
    ]
    .concat();
    assert_eq!(sync_report_human(&SyncReport::empty()), expected);
}

#[test]
fn build_summary_line() {
    let r = BuildSummary { nodes: Some(120), edges: Some(300), crates: Some(4), files_parsed: Some(40), files_skipped: None };
    assert_eq!(render_build_human(&r), "Graph build: 4 crates, 40 files parsed (0 skipped). Total: 120 nodes / 300 edges.\n");
}

#[test]
fn drift_report_lists_sets() {
    let r = DriftReport {
        since: s("HEAD~3"),
        adr_scope: None,
        files_changed: Some(2),
        actual_crates: Some(vec![s("a"), None, s("b")]),
        declared_crates: Some(vec![]),
        drift: None,
        ghosts: Some(vec![s("c")]),
    };
    let expected = [
        "Drift report (since HEAD~3, scope: (all proposed/accepted ADRs))\n",
        "  files changed: 2\n",
        "  actual crates: a, b\n",
        "  declared crates: (empty)\n",
        "  DRIFT (touched but not declared): (empty)\n",
        "  ghosts (declared but not touched): c\n",
    ]
    .concat();
    assert_eq!(render_drift_human(&r), expected);
}

fn node(i: u64) -> PackNode {
    PackNode { kind: s("fn"), name: Some(format!("f{i}")), crate_name: s("core"), score: Some(i), file_path: None }
}

#[test]
fn context_pack_caps_nodes_at_ten() {
    let p = ContextPack {
        task_id: s("t-1"),
        query_tokens: Some(vec![s("graph"), None, s("drift")]),
        estimated_tokens: Some(900),
        matched_nodes: Some((0..12).map(node).collect()),
        files: Some(vec![PackFile { path: s("src/lib.rs"), node_count: Some(3) }]),
        related_adrs: Some(vec![PackAdr { adr_id: s("0007"), via_crate: s("core"), file_path: s("docs/adr/0007.md") }]),
    };
    let mut expected = String::from(
        "Context-pack for task t-1\n  query tokens: graph, drift\n  estimated_tokens: 900\n  matched nodes (12):\n",
    );
    for i in 0..10 {
        expected.push_str(&format!("    [fn] f{i} (core) score={i} (no file)\n"));
    }
    expected.push_str("    ... and 2 more (use --output json for full list)\n");
    expected.push_str("  files (1):\n    src/lib.rs (3 matches)\n");
    expected.push_str("  related ADRs:\n    0007 (via core) — docs/adr/0007.md\n");
    assert_eq!(render_pack_human(&p), expected);
}

#[test]
fn context_pack_without_sections() {
    let p = ContextPack {
        task_id: None,
        query_tokens: None,
        estimated_tokens: None,
        matched_nodes: None,
        files: None,
        related_adrs: Some(vec![]),
    };
    assert_eq!(render_pack_human(&p), "Context-pack for task ?\n  query tokens: \n  estimated_tokens: 0\n");
}

#[test]
fn cluster_report_shows_target_and_first_files() {
    let files: Vec<Option<String>> = (0..7).map(|i| Some(format!("f{i}.rs"))).collect();
    let r = ClusterReport {
        crate_name: s("core"),
        total_files: Some(7),
        total_items: Some(50),
        total_loc: Some(2000),
        target_loc: Some(1500),
        above_target: Some(true),
        iterations: Some(3),
        communities: vec![Community {
            label: s("io"),
            loc: Some(2000),
            item_count: Some(50),
            internal_edges: Some(9),
            external_edges: Some(1),
            files,
        }],
    };
    let expected = [
        "Cluster report for core: 7 files, 50 items, 2000 LOC, 1 communities (after 3 iter)\n",
        "  target LOC: 1500 — ABOVE TARGET\n",
        "  [0] community io: 7 files / 50 items / 2000 LOC (internal=9, external=1)\n",
        "        f0.rs\n",
        "        f1.rs\n",
        "        f2.rs\n",
        "        f3.rs\n",
        "        f4.rs\n",
        "        ... and 2 more\n",
    ]
    .concat();
    assert_eq!(render_cluster_human(&r), expected);
}

#[test]
fn cluster_report_without_target() {
    let r = ClusterReport {
        crate_name: None,
        total_files: None,
        total_items: None,
        total_loc: None,
        target_loc: None,
        above_target: None,
        iterations: None,
        communities: vec![],
    };
    assert_eq!(render_cluster_human(&r), "Cluster report for ?: 0 files, 0 items, 0 LOC, 0 communities (after 0 iter)\n");
}

#[test]
fn for_task_path_encodes_hints() {
    let p = for_task_path("t-1", Some(5), None, Some("convergio-cli"), None, Some("yes please"), None, Some("a/b"));
    assert_eq!(p, "/v1/graph/for-task/t-1?node_limit=5&crate=convergio-cli&adr_required=yes%20please&validation_profile=a%2Fb&");
    assert_eq!(for_task_path("t", None, Some(100), None, None, None, None, None), "/v1/graph/for-task/t?token_budget=100&");
}

#[test]
fn drift_and_cluster_paths() {
    assert_eq!(drift_path(Some("HEAD~1"), None, Some("/repo")), "/v1/graph/drift?since=HEAD~1&repo_root=/repo&");
    assert_eq!(drift_path(None, None, None), "/v1/graph/drift?");
    assert_eq!(cluster_path("core", Some(1500)), "/v1/graph/cluster/core?target_loc=1500");
    assert_eq!(cluster_path("core", None), "/v1/graph/cluster/core?");
}

fn apr(number: i64, title: &str, files: &[&str], deps: &[i64]) -> AnalysedPr {
    let mut f = StringSet::new();
    for x in files {
        f.insert(x);
    }
    let mut d = IdSet::new();
    for x in deps {
        d.insert(*x);
    }
    AnalysedPr { number, title: title.to_string(), files: f, depends_on: d, manifest_status: ManifestStatus::Match }
}

#[test]
fn pr_summary_line_shows_dependencies_and_conflicts() {
    let all = vec![apr(12, "fix parser", &["a.rs", "b.rs"], &[11]), apr(13, "docs", &["b.rs"], &[]), apr(14, "x", &["c.rs"], &[])];
    assert_eq!(
        pr_summary_line(&all[0], &all, "2 files"),
        "  #12   fix parser (2 files) depends-on=[#11] conflicts-with=[#13]\n"
    );
    assert_eq!(pr_summary_line(&all[2], &all, "1 file"), "  #14   x (1 file)\n");
    let long = "t".repeat(70);
    let p = apr(123456, &long, &[], &[]);
    let alone = vec![apr(123456, &long, &[], &[])];
    let expected = format!("  #123456 {}… (no manifest)\n", "t".repeat(59));
    assert_eq!(pr_summary_line(&p, &alone, "no manifest"), expected);
}

#[test]
fn merge_order_is_an_arrow_chain() {
    assert_eq!(merge_order_text(&vec![11, 12, 13]), "#11 -> #12 -> #13");
    assert_eq!(merge_order_text(&vec![7]), "#7");
    assert_eq!(merge_order_text(&vec![]), "");
}

fn plan(id: &str, project: Option<&str>, status: &str, updated: &str) -> Plan {
    Plan {
        id: id.to_string(),
        title: id.to_string(),
        description: None,
        project: project.map(|p| p.to_string()),
        status: status.to_string(),
        updated_at: updated.to_string(),
    }
}

#[test]
fn select_plan_prefers_latest_open_plan_of_project() {
    let plans = vec![
        plan("a", Some("cvg"), "active", "2026-01-02"),
        plan("b", Some("cvg"), "done", "2026-03-01"),
        plan("c", Some("other"), "active", "2026-04-01"),
        plan("d", Some("cvg"), "draft", "2026-02-01"),
        plan("e", None, "active", "2026-05-01"),
        plan("f", Some("cvg"), "active", "2026-01-15"),
    ];
    assert_eq!(select_plan(&plans, "cvg"), Some(3));
    assert_eq!(select_plan(&plans, "none"), None);
    let ties = vec![plan("x", Some("p"), "active", "t"), plan("y", Some("p"), "draft", "t")];
    assert_eq!(select_plan(&ties, "p"), Some(1));
}

#[test]
fn sync_steps_record_each_outcome() {
    let mut r = SyncReport::begin(4, 3);
    assert!(!r.after_lookup(1, T1, Err("timeout".to_string())));
    assert!(!r.after_lookup(2, T2, Ok("done".to_string())));
    assert!(r.after_lookup(3, T3, Ok("pending".to_string())));
    r.after_transition(3, T3, "pending", Ok(()));
    assert!(!r.after_lookup(5, T2, Ok("failed".to_string())));
    assert!(r.after_lookup(4, T1, Ok("in_progress".to_string())));
    r.after_transition(4, T1, "in_progress", Err("gate refused: evidence".to_string()));
    assert_eq!((r.scanned_prs, r.tracked_pairs), (4, 3));
    assert_eq!(r.transitioned.len(), 1);
    assert_eq!((r.transitioned[0].pr_number, r.transitioned[0].previous_status.as_str()), (3, "pending"));
    assert_eq!(r.skipped.len(), 2);
    assert_eq!((r.skipped[0].task_id.as_str(), r.skipped[0].current_status.as_str()), (T2, "done"));
    assert_eq!(r.skipped[1].current_status, "failed");
    let reasons: Vec<&str> = r.failed.iter().map(|f| f.reason.as_str()).collect();
    assert_eq!(reasons, vec!["fetch task: timeout", "gate refused: evidence"]);
}
