use convergio::agent_view::{agent_list_row, agent_plain_line, agent_show_lines, agent_table_row, AgentInfo};
use convergio::bus::{ack_verdict, check_topic_scope, BusCall, BusRefusal, TopicScope};
use convergio::bus_view::{
    render_posted_human, render_posted_plain, render_tail_human, render_tail_plain, render_topics_human,
    render_topics_plain, tail_path, TailEntry, TopicLine,
};
use convergio::diagnostics::{audit_verify_path, tail_lines};
use convergio::triage::{close_path, close_reason, close_targets, confirms, triage_path};

fn s(x: &str) -> Option<String> {
    Some(x.to_string())
}

#[test]
fn publish_rejects_system_topic_with_hint() {
    let r = check_topic_scope(TopicScope::Plan, BusCall::Publish, "system.agent");
    assert_eq!(
        r,
        Err(BusRefusal::InvalidTopicScope("topic 'system.agent' is system-scoped; use publish_system".to_string()))
    );
    assert_eq!(
        r.unwrap_err().message(),
        "invalid topic scope: topic 'system.agent' is system-scoped; use publish_system"
    );
    assert_eq!(check_topic_scope(TopicScope::Plan, BusCall::Publish, "task.done"), Ok(()));
}

#[test]
fn poll_rejects_system_topic_with_hint() {
    assert_eq!(
        check_topic_scope(TopicScope::Plan, BusCall::Poll, "system.x"),
        Err(BusRefusal::InvalidTopicScope("topic 'system.x' is system-scoped; use poll_system".to_string()))
    );
}

#[test]
fn system_calls_reject_plan_topics() {
    assert_eq!(
        check_topic_scope(TopicScope::System, BusCall::Publish, "task.done"),
        Err(BusRefusal::InvalidTopicScope("topic 'task.done' is not system-scoped; use publish".to_string()))
    );
    assert_eq!(
        check_topic_scope(TopicScope::System, BusCall::Poll, "systemic"),
        Err(BusRefusal::InvalidTopicScope("topic 'systemic' is not system-scoped; use poll".to_string()))
    );
    assert_eq!(check_topic_scope(TopicScope::System, BusCall::Poll, "system.heartbeat"), Ok(()));
}

#[test]
fn ack_of_unknown_id_is_not_found() {
    assert_eq!(ack_verdict("m-1", 0, false), Err(BusRefusal::NotFound("m-1".to_string())));
    assert_eq!(ack_verdict("m-1", 0, false).unwrap_err().message(), "message not found: m-1");
}

#[test]
fn tail_path_with_and_without_topic() {
    assert_eq!(tail_path("p1", 0, 50, None), "/v1/plans/p1/messages/tail?cursor=0&limit=50");
    assert_eq!(tail_path("p1", 7, -1, Some("task.done")), "/v1/plans/p1/messages/tail?cursor=7&limit=-1&topic=task.done");
}

#[test]
fn tail_layouts() {
    let ms = vec![
        TailEntry { seq: Some(3), topic: s("task.done"), sender: s("a1"), consumed: true, kind: s("done") },
        TailEntry { seq: Some(1234), topic: None, sender: None, consumed: false, kind: s("") },
        TailEntry { seq: None, topic: s("t"), sender: s("b"), consumed: false, kind: None },
    ];
    let expected = [
        "Plan p1 — 3 message(s)\n",
        "  seq   3 [task.done] sender=a1 done [acked]\n",
        "  seq 1234 [?] sender=-\n",
        "  seq   0 [t] sender=b\n",
    ]
    .concat();
    assert_eq!(render_tail_human("p1", &ms), expected);
    assert_eq!(
        render_tail_plain(&ms),
        "seq=3 topic=task.done sender=a1\nseq=1234 topic=? sender=-\nseq=0 topic=t sender=b\n"
    );
    assert_eq!(render_tail_human("p1", &vec![]), "Plan p1 — 0 message(s)\n");
}

#[test]
fn topics_layouts() {
    let ts = vec![
        TopicLine { topic: s("a"), count: Some(2), last_seq: Some(9), last_at: s("2026-01-01T00:00:00Z") },
        TopicLine { topic: None, count: None, last_seq: None, last_at: None },
    ];
    assert_eq!(
        render_topics_human("p1", &ts),
        "Plan p1 (2 topics)\n  - a (2 msgs, last seq=9 at 2026-01-01T00:00:00Z)\n  - ? (0 msgs, last seq=0 at ?)\n"
    );
    assert_eq!(render_topics_plain(&ts), "topic=a count=2 last_seq=9\ntopic=? count=0 last_seq=0\n");
}

#[test]
fn posted_layouts() {
    assert_eq!(render_posted_human("task.done", "p1", Some(12)), "Posted to task.done on plan p1 as seq 12.\n");
    assert_eq!(render_posted_plain(Some(12), &s("m-9")), "seq=12 id=m-9\n");
    assert_eq!(render_posted_plain(None, &None), "seq=0 id=?\n");
}

fn agent() -> AgentInfo {
    AgentInfo {
        id: s("agent-1"),
        kind: s("runner"),
        status: s("idle"),
        current_task_id: None,
        host: s("box"),
        name: None,
        capabilities: Some(vec![s("rust"), None, s("docs")]),
        last_heartbeat_at: s("2026-05-01T10:00:00Z"),
    }
}

#[test]
fn agent_table_rows_are_padded() {
    let row = agent_list_row(&agent());
    let expected = format!("{:<28} {:<18} {:<10} {:<36}\n", "agent-1", "runner", "idle", "-");
    assert_eq!(row, expected);
    let long = "x".repeat(30);
    assert_eq!(agent_table_row(&long, "k", "s", "t"), format!("{long} {:<18} {:<10} {:<36}\n", "k", "s", "t"));
}

#[test]
fn agent_plain_and_show() {
    assert_eq!(agent_plain_line(&agent()), "agent-1\tidle\t-\n");
    let expected = [
        "  kind:             runner\n",
        "  status:           idle\n",
        "  current_task_id:  -\n",
        "  host:             box\n",
        "  capabilities:     rust, docs\n",
        "  last_heartbeat:   2026-05-01T10:00:00Z\n",
    ]
    .concat();
    assert_eq!(agent_show_lines(&agent()), expected);
    let bare = AgentInfo {
        id: None,
        kind: None,
        status: None,
        current_task_id: s("t-1"),
        host: None,
        name: s("n"),
        capabilities: Some(vec![]),
        last_heartbeat_at: None,
    };
    assert_eq!(
        agent_show_lines(&bare),
        "  kind:             ?\n  status:           ?\n  current_task_id:  t-1\n  name:             n\n"
    );
}

#[test]
fn triage_requests() {
    assert_eq!(triage_path("p1", 14), "/v1/plans/p1/triage?stale_days=14");
    assert_eq!(close_path("t-1"), "/v1/tasks/t-1/close-post-hoc");
    assert_eq!(close_reason(14), "auto-closed by triage: stale for 14 days");
}

#[test]
fn triage_confirmation_accepts_y_and_s() {
    assert!(confirms("y\n"));
    assert!(confirms("  Y "));
    assert!(confirms("s"));
    assert!(confirms("S\r\n"));
    assert!(!confirms("yes"));
    assert!(!confirms("n"));
    assert!(!confirms(""));
}

#[test]
fn triage_closes_listed_ids_only() {
    let ids = vec![s("t-1"), None, s(""), s("t-2")];
    assert_eq!(close_targets(&ids), vec!["t-1".to_string(), "t-2".to_string()]);
}

#[test]
fn publish_rejects_system_topic() {
    let err = check_topic_scope(TopicScope::Plan, BusCall::Publish, "system.session-events").unwrap_err();
    assert!(matches!(err, BusRefusal::InvalidTopicScope(_)), "publish must refuse system.* topics: got {err:?}");
}

#[test]
fn publish_system_rejects_non_system_topic() {
    let err = check_topic_scope(TopicScope::System, BusCall::Publish, "task.done").unwrap_err();
    assert!(matches!(err, BusRefusal::InvalidTopicScope(_)), "publish_system must refuse non-system.* topics: got {err:?}");
}

#[test]
fn poll_rejects_system_topic() {
    let err = check_topic_scope(TopicScope::Plan, BusCall::Poll, "system.session-events").unwrap_err();
    assert!(matches!(err, BusRefusal::InvalidTopicScope(_)));
}

#[test]
fn poll_system_rejects_non_system_topic() {
    let err = check_topic_scope(TopicScope::System, BusCall::Poll, "task.done").unwrap_err();
    assert!(matches!(err, BusRefusal::InvalidTopicScope(_)));
}

#[test]
fn ack_unknown_id_is_not_found() {
    let err = ack_verdict("does-not-exist", 0, false).unwrap_err();
    assert!(matches!(err, BusRefusal::NotFound(_)));
}

#[test]
fn double_ack_is_idempotent() {
    // The first ack marks the row; the second finds it already consumed.
    assert_eq!(ack_verdict("m-1", 1, true), Ok(()));
    assert_eq!(ack_verdict("m-1", 0, true), Ok(()));
}

#[test]
fn mcp_tail_keeps_last_lines_in_order() {
    assert_eq!(tail_lines("a\nb\nc\n", 2), vec!["b".to_string(), "c".to_string()]);
    assert_eq!(tail_lines("a\r\nb", 5), vec!["a".to_string(), "b".to_string()]);
    assert!(tail_lines("a\nb\n", 0).is_empty());
    assert!(tail_lines("", 3).is_empty());
}

#[test]
fn audit_verify_route_carries_bounds() {
    assert_eq!(audit_verify_path(None, None), "/v1/audit/verify?");
    assert_eq!(audit_verify_path(Some(3), None), "/v1/audit/verify?from=3&");
    assert_eq!(audit_verify_path(Some(3), Some(-1)), "/v1/audit/verify?from=3&to=-1&");
}
