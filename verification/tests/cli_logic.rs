use convergio::agent::{default_agent_id, RunnerKind};
use convergio::bus::is_system_topic;
use convergio::capability::{parse_trusted_keys, TrustedKeyError};
use convergio::doctor::{check_audit, check_binary, check_config, check_daemon, check_pid, doctor_report, AuditProbe, CheckStatus, DoctorCheck, HealthProbe};
use convergio::plan::PlanTransitionTarget;
use convergio::service::{ServiceKind, ServiceSpec, TargetOs};
use convergio::session::{is_open_status, top_pending, Task, TaskCounts};
use convergio::theme::Theme;

fn view(c: &DoctorCheck) -> (&str, CheckStatus, &str) {
    (c.name, c.status, c.message.as_str())
}

#[test]
fn tty_defaults_to_color() {
    assert_eq!(Theme::resolve_with(None, false, true), Theme::Color);
}

#[test]
fn non_tty_defaults_to_mono() {
    assert_eq!(Theme::resolve_with(None, false, false), Theme::Mono);
}

#[test]
fn no_color_forces_mono_even_on_tty() {
    assert_eq!(Theme::resolve_with(None, true, true), Theme::Mono);
}

#[test]
fn explicit_theme_overrides_no_color() {
    assert_eq!(Theme::resolve_with(Some("color"), true, false), Theme::Color);
}

#[test]
fn high_contrast_alias_works() {
    assert_eq!(Theme::resolve_with(Some("hc"), false, true), Theme::HighContrast);
    assert_eq!(Theme::resolve_with(Some("plain"), false, true), Theme::Mono);
    assert_eq!(Theme::resolve_with(Some("bogus"), false, true), Theme::Color);
}

#[test]
fn systemd_service_on_linux() {
    let s = ServiceSpec::current(TargetOs::Linux, "/home/u", "/usr/bin/convergio").unwrap();
    assert_eq!(s.kind, ServiceKind::Systemd);
    assert_eq!(s.path, "/home/u/.config/systemd/user/convergio.service");
    assert_eq!(
        s.content,
        "[Unit]\nDescription=Convergio local daemon\n\n[Service]\nExecStart=/usr/bin/convergio start\nRestart=on-failure\n\n[Install]\nWantedBy=default.target\n"
    );
    let start = s.start("1000");
    assert_eq!(start.len(), 2);
    assert_eq!(start[1].program, "systemctl");
    assert_eq!(start[1].args, vec!["--user", "enable", "--now", "convergio.service"]);
    assert_eq!(s.stop("1000").args, vec!["--user", "stop", "convergio.service"]);
}

#[test]
fn launchd_service_on_macos() {
    let s = ServiceSpec::current(TargetOs::MacOs, "/Users/u/", "/opt/bin/convergio").unwrap();
    assert_eq!(s.kind, ServiceKind::Launchd);
    assert_eq!(s.path, "/Users/u/Library/LaunchAgents/com.convergio.v3.plist");
    assert!(s.content.contains("<string>/opt/bin/convergio</string><string>start</string>"));
    assert!(s.content.contains("<string>/Users/u/.convergio/convergio.log</string>"));
    assert!(s.content.contains("<key>Label</key><string>com.convergio.v3</string>"));
    let start = s.start("501");
    assert_eq!(start[0].args, vec!["bootstrap", "gui/501", "/Users/u/Library/LaunchAgents/com.convergio.v3.plist"]);
    assert_eq!(s.is_loaded("501").args, vec!["print", "gui/501/com.convergio.v3"]);
}

#[test]
fn no_service_elsewhere() {
    assert!(ServiceSpec::current(TargetOs::Other, "/h", "/b").is_err());
}

#[test]
fn doctor_config_checks() {
    let mut v = Vec::new();
    check_config(&mut v, Some("/h/.convergio"), true, false);
    assert_eq!(view(&v[0]), ("config_dir", CheckStatus::Pass, "/h/.convergio"));
    assert_eq!(
        view(&v[1]),
        ("config_file", CheckStatus::Warn, "/h/.convergio/config.toml missing; run `cvg setup`")
    );
    let mut w = Vec::new();
    check_config(&mut w, None, true, true);
    assert_eq!(w.len(), 1);
    assert_eq!(view(&w[0]), ("config_dir", CheckStatus::Fail, "HOME is not set"));
}

#[test]
fn doctor_pid_and_binaries() {
    let mut v = Vec::new();
    check_pid(&mut v, true, Some(" 42\n"), true);
    check_pid(&mut v, true, Some("43"), false);
    check_pid(&mut v, true, Some("  "), false);
    check_pid(&mut v, true, None, false);
    check_pid(&mut v, false, None, false);
    check_binary(&mut v, "cvg", true, Some("0.1.0"), Some("cvg 0.1.0\n"));
    check_binary(&mut v, "convergio", true, Some("0.2.0"), Some("convergio 0.1.0"));
    check_binary(&mut v, "convergio", true, None, None);
    check_binary(&mut v, "convergio-mcp", false, None, None);
    assert_eq!(v.len(), 8);
    assert_eq!(view(&v[0]), ("daemon_pid", CheckStatus::Pass, "pid 42 is running"));
    assert_eq!(view(&v[1]), ("daemon_pid", CheckStatus::Warn, "stale pid 43"));
    assert_eq!(view(&v[2]), ("daemon_pid", CheckStatus::Warn, "daemon.pid is empty"));
    assert_eq!(view(&v[3]), ("daemon_pid", CheckStatus::Warn, "no daemon.pid found"));
    assert_eq!(view(&v[4]), ("cvg", CheckStatus::Pass, "cvg 0.1.0"));
    assert_eq!(
        view(&v[5]),
        ("convergio", CheckStatus::Fail, "convergio 0.1.0; expected version 0.2.0. Run install-local.sh")
    );
    assert_eq!(view(&v[6]), ("convergio", CheckStatus::Fail, "`convergio` not found in PATH"));
    assert_eq!(view(&v[7]), ("convergio-mcp", CheckStatus::Warn, "`convergio-mcp` not found yet"));
}

#[test]
fn doctor_daemon_and_audit() {
    let mut v = Vec::new();
    let ok = HealthProbe::Answered { service: Some("convergio".into()), version: Some("0.1.0".into()) };
    assert!(check_daemon(&mut v, &ok, "0.1.0"));
    let old = HealthProbe::Answered { service: Some("convergio".into()), version: None };
    assert!(!check_daemon(&mut v, &old, "0.1.0"));
    let other = HealthProbe::Answered { service: Some("nginx".into()), version: Some("1".into()) };
    assert!(!check_daemon(&mut v, &other, "0.1.0"));
    assert!(!check_daemon(&mut v, &HealthProbe::HttpError { status: "500 Internal Server Error".into() }, "0.1.0"));
    check_audit(&mut v, true, &AuditProbe::Verified);
    check_audit(&mut v, false, &AuditProbe::Verified);
    assert_eq!(view(&v[0]), ("daemon", CheckStatus::Pass, "version 0.1.0"));
    assert_eq!(view(&v[1]), ("daemon", CheckStatus::Fail, "version ?; expected 0.1.0"));
    assert_eq!(view(&v[2]), ("daemon", CheckStatus::Fail, "service is not convergio"));
    assert_eq!(view(&v[3]), ("daemon", CheckStatus::Fail, "HTTP 500 Internal Server Error"));
    assert_eq!(view(&v[4]), ("audit", CheckStatus::Pass, "chain verifies"));
    assert_eq!(view(&v[5]), ("audit", CheckStatus::Warn, "skipped because daemon is not reachable"));
    let report = doctor_report("http://127.0.0.1:8420", v);
    assert!(!report.ok);
    let mut good = Vec::new();
    check_audit(&mut good, true, &AuditProbe::Verified);
    assert!(doctor_report("u", good).ok);
}

fn task(id: &str, status: &str, wave: i64, sequence: i64, created_at: &str) -> Task {
    Task {
        id: id.into(),
        title: format!("task {id}"),
        status: status.into(),
        wave,
        sequence,
        created_at: created_at.into(),
    }
}

#[test]
fn open_statuses() {
    assert!(is_open_status("draft"));
    assert!(is_open_status("active"));
    assert!(!is_open_status("completed"));
}

#[test]
fn task_counts_by_status() {
    let tasks = vec![
        task("a", "done", 1, 1, "t"),
        task("b", "pending", 1, 2, "t"),
        task("c", "pending", 1, 3, "t"),
        task("d", "failed", 1, 4, "t"),
        task("e", "blocked", 1, 5, "t"),
    ];
    let c = TaskCounts::from_tasks(&tasks);
    assert_eq!((c.total, c.done, c.pending, c.in_progress, c.submitted, c.failed), (5, 1, 2, 0, 0, 1));
}

#[test]
fn top_pending_orders_by_wave_sequence_and_time() {
    let tasks = vec![
        task("late", "pending", 2, 1, "2024-01-01"),
        task("done", "done", 0, 0, "2024-01-01"),
        task("b", "pending", 1, 2, "2024-01-01"),
        task("a2", "pending", 1, 1, "2024-02-01"),
        task("a1", "pending", 1, 1, "2024-01-01"),
    ];
    let top: Vec<String> = top_pending(&tasks, 3).into_iter().map(|t| t.id).collect();
    assert_eq!(top, vec!["a1", "a2", "b"]);
    assert_eq!(top_pending(&tasks, 10).len(), 4);
    assert!(top_pending(&tasks, 0).is_empty());
}

#[test]
fn agent_id_slug_is_seven_bytes() {
    let kind = RunnerKind { vendor: "acme".into(), model: "m1".into() };
    assert_eq!(default_agent_id(&kind, "abcdef1234567890"), "acme-m1-abcdef1");
    assert_eq!(default_agent_id(&kind, "abc"), "acme-m1-abc");
    assert_eq!(default_agent_id(&kind, "aéééxyz"), "acme-m1-aééé");
    assert_eq!(default_agent_id(&kind, "ééééX"), "acme-m1-ééééX");
}

#[test]
fn trusted_keys_split_at_first_colon() {
    let keys = parse_trusted_keys(vec!["k1:abcd".to_string(), "k2:ef:01".to_string()]).unwrap();
    assert_eq!((keys[0].key_id.as_str(), keys[0].public_key.as_str()), ("k1", "abcd"));
    assert_eq!((keys[1].key_id.as_str(), keys[1].public_key.as_str()), ("k2", "ef:01"));
    let err = parse_trusted_keys(vec!["k1:a".to_string(), "bad".to_string()]).unwrap_err();
    assert_eq!(err, TrustedKeyError::MissingSeparator);
    assert_eq!(err.message(), "trusted key must be key_id:hex_public_key");
}

#[test]
fn plan_targets_on_the_wire() {
    assert_eq!(PlanTransitionTarget::Draft.as_wire(), "draft");
    assert_eq!(PlanTransitionTarget::Active.as_wire(), "active");
    assert_eq!(PlanTransitionTarget::Completed.as_wire(), "completed");
    assert_eq!(PlanTransitionTarget::Cancelled.as_wire(), "cancelled");
}

#[test]
fn system_topics() {
    assert!(is_system_topic("system.audit"));
    assert!(!is_system_topic("plan.events"));
    assert!(!is_system_topic("system"));
}
