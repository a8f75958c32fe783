use convergio::api::{ActionCatalog, Action};
use convergio::coherence::statuses_match;
use convergio::friction::FrictionMissingCheck;
use convergio::glitch::{frame, glitch_by_flips};
use convergio::gradient::brand;
use convergio::order::{IdSet, StringSet};
use convergio::palette::{cyan, magenta, Rgb};
use convergio::pr::{AnalysedPr, ManifestStatus};
use convergio::pr_order::suggest_merge_order;
use convergio::pr_sync::{is_valid_uuid, parse_tracks_lines};
use convergio::pre_stop::{report_blocks_detach, run_pre_stop, Check, CheckContext, CheckOutcome, Probes};
use convergio::theme::Theme;
use convergio::worktree::WorktreeNoPrCheck;

fn strip_ansi(s: &str) -> String {
    let mut out = String::new();
    let mut in_esc = false;
    for c in s.chars() {
        if c == '\x1b' {
            in_esc = true;
            continue;
        }
        if in_esc {
            if c == 'm' {
                in_esc = false;
            }
            continue;
        }
        out.push(c);
    }
    out
}

fn ctx() -> CheckContext {
    CheckContext { agent_id: "agent-7".into(), daemon_url: "http://127.0.0.1:8420".into() }
}

fn pr(number: i64, deps: &[i64]) -> AnalysedPr {
    let mut d = IdSet::new();
    for x in deps {
        d.insert(*x);
    }
    AnalysedPr {
        number,
        title: format!("pr {number}"),
        files: StringSet::new(),
        depends_on: d,
        manifest_status: ManifestStatus::Missing,
    }
}

#[test]
fn merge_order_puts_a_dependency_chain_first() {
    let order = suggest_merge_order(&vec![pr(3, &[2]), pr(2, &[1]), pr(1, &[]), pr(4, &[1, 3])]);
    let pos = |n: i64| order.iter().position(|&x| x == n).unwrap();
    assert!(pos(1) < pos(2));
    assert!(pos(2) < pos(3));
    assert!(pos(3) < pos(4));
    assert_eq!(order.len(), 4);
}

#[test]
fn gradient_reads_back_as_its_text() {
    let s = brand("Make machines prove it.", Theme::Color);
    assert_eq!(strip_ansi(&s), "Make machines prove it.");
    assert_eq!(strip_ansi(&brand("plain", Theme::Mono)), "plain");
}

#[test]
fn gradient_ends_on_the_last_colour() {
    let s = brand("AB", Theme::Color);
    assert!(s.contains("\x1b[38;2;0;200;255mB"));
}

#[test]
fn blend_rounds_halves_up() {
    assert_eq!(Rgb::blend(magenta(), cyan(), 1, 2), Rgb::new(128, 100, 218));
    assert_eq!(Rgb::blend(magenta(), cyan(), 0, 5), magenta());
    assert_eq!(Rgb::blend(magenta(), cyan(), 5, 5), cyan());
    assert_eq!(Rgb::blend(magenta(), cyan(), 0, 0), magenta());
}

#[test]
fn glitch_frames_repeat_every_three() {
    for f in 0..9u32 {
        assert_eq!(frame("OEOEOEOE", f), frame("OEOEOEOE", f % 3));
    }
    assert_eq!(frame("OOOO", 0), "0OO0");
}

#[test]
fn forced_report_never_blocks() {
    let probes = Probes {
        commit_log: Some("fix F12".into()),
        friction_log: Some("| F1 | old |".into()),
        worktrees: Some(vec![("feat/x".into(), false)]),
    };
    let report = run_pre_stop(&ctx(), true, &probes).unwrap();
    assert!(!report_blocks_detach(&report));
    let unforced = run_pre_stop(&ctx(), false, &probes).unwrap();
    assert!(report_blocks_detach(&unforced));
    assert_eq!(unforced.agent_id, "agent-7");
    assert_eq!(unforced.results.len(), 6);
}

#[test]
fn friction_findings_are_sorted_and_only_missing() {
    let probes = Probes {
        commit_log: Some("F9 and F10 and F7; also F7 again".into()),
        friction_log: Some("| F7 | logged |".into()),
        worktrees: None,
    };
    match FrictionMissingCheck.run(&ctx(), &probes) {
        CheckOutcome::Fail { findings } => assert_eq!(
            findings,
            vec![
                "commit message references F10 but no row in v0.2-friction-log.md".to_string(),
                "commit message references F9 but no row in v0.2-friction-log.md".to_string(),
            ]
        ),
        other => panic!("unexpected {other:?}"),
    }
}

#[test]
fn friction_passes_when_logs_unreadable_or_complete() {
    let c = FrictionMissingCheck;
    let none = Probes::unavailable();
    assert!(matches!(c.run(&ctx(), &none), CheckOutcome::Pass));
    let no_log = Probes { commit_log: Some("F1".into()), friction_log: None, worktrees: None };
    assert!(matches!(c.run(&ctx(), &no_log), CheckOutcome::Pass));
    let complete = Probes { commit_log: Some("F1".into()), friction_log: Some("F1".into()), worktrees: None };
    assert!(matches!(c.run(&ctx(), &complete), CheckOutcome::Pass));
}

#[test]
fn worktree_findings_name_branches_without_pr() {
    let probes = Probes {
        commit_log: None,
        friction_log: None,
        worktrees: Some(vec![("feat/x".into(), false), ("feat/y".into(), true)]),
    };
    match WorktreeNoPrCheck.run(&ctx(), &probes) {
        CheckOutcome::Fail { findings } => {
            assert_eq!(findings, vec!["worktree branch 'feat/x' has no open PR".to_string()])
        }
        other => panic!("unexpected {other:?}"),
    }
}

#[test]
fn tracked_ids_are_uuids() {
    let body = "Tracks: 7e33309f-1457-4c8e-9eae-dba599a4a452, nonsense, 12345678-1234-1234-1234-1234567890ab\n";
    let ids = parse_tracks_lines(body);
    assert_eq!(ids.len(), 2);
    assert!(ids.iter().all(|i| is_valid_uuid(i)));
}

#[test]
fn status_match_is_symmetric() {
    assert!(statuses_match("superseded", "Superseded by 0042"));
    assert!(statuses_match(" proposed ", "proposed"));
}

#[test]
fn catalog_lists_each_action_once() {
    let catalog = ActionCatalog::current();
    let mut names = catalog.actions.clone();
    names.sort();
    names.dedup();
    assert_eq!(names.len(), Action::all().len());
    assert_eq!(catalog.schema_version, "2");
    assert_eq!(catalog.capabilities, vec!["status", "plans", "tasks", "evidence", "audit", "validation"]);
}

#[test]
fn status_match_ignores_padding_and_case() {
    assert_eq!(
        statuses_match("\tSuperseded by 0042  ", "superseded"),
        statuses_match("Superseded by 0042", "superseded")
    );
    assert!(statuses_match("ACCEPTED", " accepted\n"));
    assert!(!statuses_match(" Proposed ", "accepted"));
}

/// The channel that single-precision interpolation gives.
fn lerp_channel(x: u8, y: u8, i: u64, m: u64) -> u8 {
    let t = if m == 0 { 0.0 } else { (i as f32 / m as f32).clamp(0.0, 1.0) };
    let xf = f32::from(x);
    let yf = f32::from(y);
    (xf + (yf - xf) * t).round() as u8
}

#[test]
fn blend_matches_single_precision_interpolation() {
    let pairs: [(u8, u8); 5] = [(255, 0), (0, 200), (180, 255), (7, 3), (1, 254)];
    for m in 0..=100u64 {
        for i in 0..=m {
            for &(x, y) in pairs.iter() {
                let a = Rgb::new(x, y, x);
                let b = Rgb::new(y, x, y);
                let got = Rgb::blend(a, b, i, m);
                assert_eq!(got.r, lerp_channel(x, y, i, m), "x={x} y={y} i={i} m={m}");
                assert_eq!(got.g, lerp_channel(y, x, i, m), "x={y} y={x} i={i} m={m}");
            }
        }
    }
}

#[test]
fn blend_follows_single_precision_on_halves() {
    // Step 21 of 80 from 0 to 200 is 52.5 exactly; 21/80 in single
    // precision lies just below 0.2625, so the channel is 52.
    assert_eq!(Rgb::blend(magenta(), cyan(), 21, 80).g, 52);
    assert_eq!(Rgb::blend(magenta(), cyan(), 47, 80).g, 117);
    assert_eq!(Rgb::blend(magenta(), cyan(), 21, 80).g, lerp_channel(0, 200, 21, 80));
}

#[test]
fn blend_handles_large_step_counts() {
    let m: u64 = u64::MAX;
    for &i in [0u64, 1, 3, 1 << 40, (1 << 63) + 12345, m - 1, m].iter() {
        for &(x, y) in [(255u8, 0u8), (0, 200), (180, 255)].iter() {
            let got = Rgb::blend(Rgb::new(x, x, x), Rgb::new(y, y, y), i, m).r;
            assert_eq!(got, lerp_channel(x, y, i, m), "x={x} y={y} i={i}");
        }
    }
}

#[test]
fn blend_channels_stay_between_the_two_colours() {
    let a = Rgb::new(255, 0, 180);
    let b = Rgb::new(0, 200, 255);
    for m in 0..=60u64 {
        for i in 0..=m {
            let c = Rgb::blend(a, b, i, m);
            assert!(c.r <= 255 && c.g <= 200 && c.b >= 180 && c.b <= 255, "i={i} m={m}");
        }
    }
}

#[test]
fn demo_glitch_swaps_only_flipped_characters() {
    let flips = vec![false, true, false, false, true, false, true, false, true];
    assert_eq!(glitch_by_flips("CONVERGIO", &flips), "C0NV_RGI0");
    let some = vec![true, false, false, false, false, false, false, false, false];
    assert_eq!(glitch_by_flips("CONVERGIO", &some), "CONVERGIO");
    assert_eq!(glitch_by_flips("CONVERGIO", &vec![false; 9]), "CONVERGIO");
    assert_eq!(glitch_by_flips("CONVERGIO", &vec![true; 9]), "C0NV_RGI0");
}
