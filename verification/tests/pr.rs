use convergio::order::{IdSet, StringSet};
use convergio::pr::{compare_manifest, manifest_status_str, parse_manifest, AnalysedPr, ManifestStatus, ParsedManifest};
use convergio::pr_order::suggest_merge_order;
use convergio::pr_sync::{is_valid_uuid, parse_tracks_lines};

const SAMPLE_BODY: &str = "## Problem
something broke.

## Files touched

```
crates/convergio-cli/src/commands/pr.rs
crates/convergio-cli/src/main.rs
```

<!-- Depends on PR #11 -->
";

fn set_of(items: &[&str]) -> StringSet {
    let mut s = StringSet::new();
    for i in items {
        s.insert(i);
    }
    s
}

fn pm(items: &[&str]) -> ParsedManifest {
    ParsedManifest { files: set_of(items), depends_on: IdSet::new() }
}

fn diff_set(items: &[&str]) -> StringSet {
    set_of(items)
}

#[test]
fn pr_parse_manifest_extracts_files_and_dependencies() {
    let m = parse_manifest(SAMPLE_BODY);
    let (files, deps) = (m.files, m.depends_on);
    assert!(files.contains("crates/convergio-cli/src/commands/pr.rs"));
    assert!(files.contains("crates/convergio-cli/src/main.rs"));
    assert_eq!(files.len(), 2);
    assert!(deps.contains(&11));
}

#[test]
fn pr_parse_manifest_handles_no_manifest_block() {
    let m = parse_manifest("## Problem\n\n## Why\n\nReasons.\n");
    let (files, deps) = (m.files, m.depends_on);
    assert!(files.is_empty());
    assert!(deps.is_empty());
}

#[test]
fn pr_parse_manifest_picks_multiple_dependencies() {
    let body = "Body.\n<!-- Depends on PR #1 -->\n<!-- Depends on PR #42 -->\n";
    let m = parse_manifest(body);
    let deps = m.depends_on;
    assert!(deps.contains(&1));
    assert!(deps.contains(&42));
}

#[test]
fn merge_order_respects_explicit_dependencies() {
    let pr1 = AnalysedPr {
        number: 1,
        title: "small".into(),
        files: StringSet::new(),
        depends_on: IdSet::new(),
        manifest_status: ManifestStatus::Missing,
    };
    let mut deps = IdSet::new();
    deps.insert(1);
    let pr2 = AnalysedPr {
        number: 2,
        title: "depends on 1".into(),
        files: StringSet::new(),
        depends_on: deps,
        manifest_status: ManifestStatus::Missing,
    };
    let order = suggest_merge_order(&vec![pr2, pr1]);
    let pos1 = order.iter().position(|&n| n == 1).unwrap();
    let pos2 = order.iter().position(|&n| n == 2).unwrap();
    assert!(pos1 < pos2, "PR 1 must merge before PR 2 (its dependent)");
}

#[test]
fn match_when_manifest_equals_diff() {
    assert_eq!(compare_manifest(&pm(&["a", "b"]), &diff_set(&["a", "b"])), ManifestStatus::Match);
}

#[test]
fn missing_when_manifest_empty() {
    assert_eq!(compare_manifest(&pm(&[]), &diff_set(&["a"])), ManifestStatus::Missing);
}

#[test]
fn mismatch_when_diff_has_extras() {
    assert_eq!(compare_manifest(&pm(&["a"]), &diff_set(&["a", "b"])), ManifestStatus::Mismatch);
}

#[test]
fn mismatch_when_manifest_has_extras() {
    assert_eq!(compare_manifest(&pm(&["a", "b"]), &diff_set(&["a"])), ManifestStatus::Mismatch);
}

#[test]
fn pr_parse_parse_manifest_extracts_files_and_dependencies() {
    let m = parse_manifest(SAMPLE_BODY);
    assert!(m.files.contains("crates/convergio-cli/src/commands/pr.rs"));
    assert!(m.files.contains("crates/convergio-cli/src/main.rs"));
    assert_eq!(m.files.len(), 2);
    assert!(m.depends_on.contains(&11));
}

#[test]
fn pr_parse_parse_manifest_handles_no_manifest_block() {
    let m = parse_manifest("## Problem\n\n## Why\n\nReasons.\n");
    assert!(m.files.is_empty());
    assert!(m.depends_on.is_empty());
}

#[test]
fn pr_parse_parse_manifest_picks_multiple_dependencies() {
    let body = "Body.\n<!-- Depends on PR #1 -->\n<!-- Depends on PR #42 -->\n";
    let m = parse_manifest(body);
    assert!(m.depends_on.contains(&1));
    assert!(m.depends_on.contains(&42));
}

#[test]
fn json_status_codes_are_machine_stable() {
    assert_eq!(manifest_status_str(ManifestStatus::Match), "match");
    assert_eq!(manifest_status_str(ManifestStatus::Missing), "missing");
    assert_eq!(manifest_status_str(ManifestStatus::Mismatch), "mismatch");
}

const UUID_A: &str = "7e33309f-1457-4c8e-9eae-dba599a4a452";
const UUID_B: &str = "7ec3fc92-e6b7-4cc5-96b6-659a572160be";

#[test]
fn parse_tracks_extracts_single_uuid() {
    let body = format!("## Summary\n\nbody.\n\nTracks: {UUID_A}\n");
    let ids = parse_tracks_lines(&body);
    assert_eq!(ids, vec![UUID_A.to_string()]);
}

#[test]
fn parse_tracks_extracts_multiple_lines() {
    let body = format!("Tracks: {UUID_A}\nTracks: {UUID_B}\n");
    let ids = parse_tracks_lines(&body);
    assert_eq!(ids, vec![UUID_A.to_string(), UUID_B.to_string()]);
}

#[test]
fn parse_tracks_extracts_comma_separated() {
    let body = format!("Tracks: {UUID_A}, {UUID_B}\n");
    let ids = parse_tracks_lines(&body);
    assert_eq!(ids, vec![UUID_A.to_string(), UUID_B.to_string()]);
}

#[test]
fn parse_tracks_rejects_non_uuid_garbage() {
    let body = "Tracks: not-a-uuid 12345 short-string\n";
    assert!(parse_tracks_lines(body).is_empty());
}

#[test]
fn parse_tracks_returns_empty_on_no_tracks_line() {
    let body = "## Summary\n\nNothing tracked here.\n## Files touched\n";
    assert!(parse_tracks_lines(body).is_empty());
}

#[test]
fn parse_tracks_ignores_inline_prose() {
    let body = format!("Some context. Tracks: {UUID_A}\n");
    assert!(parse_tracks_lines(&body).is_empty());
}

#[test]
fn is_valid_uuid_accepts_v4_shape() {
    assert!(is_valid_uuid(UUID_A));
}

#[test]
fn is_valid_uuid_rejects_too_short() {
    assert!(!is_valid_uuid("7e33309f-1457"));
}

#[test]
fn is_valid_uuid_rejects_missing_dashes() {
    assert!(!is_valid_uuid("7e33309f1457bcde7e33309f1457bcde0000"));
}

#[test]
fn is_valid_uuid_rejects_non_hex_chars() {
    assert!(!is_valid_uuid("zzzzzzzz-1457-4c8e-9eae-dba599a4a452"));
}

fn stacked(number: i64, files: &[&str], deps: &[i64]) -> AnalysedPr {
    let mut d = IdSet::new();
    for x in deps {
        d.insert(*x);
    }
    AnalysedPr {
        number,
        title: format!("pr-{number}"),
        files: set_of(files),
        depends_on: d,
        manifest_status: ManifestStatus::Match,
    }
}

#[test]
fn merge_order_visits_least_overlapping_first() {
    let prs = vec![stacked(5, &["x"], &[]), stacked(7, &[], &[]), stacked(6, &["x"], &[7])];
    assert_eq!(suggest_merge_order(&prs), vec![7, 5, 6]);
    let prs = vec![stacked(3, &["a", "b"], &[]), stacked(1, &["a"], &[]), stacked(2, &["b"], &[])];
    assert_eq!(suggest_merge_order(&prs), vec![1, 2, 3]);
}

#[test]
fn merge_order_lists_unknown_dependencies_and_survives_cycles() {
    let prs = vec![stacked(2, &[], &[9])];
    assert_eq!(suggest_merge_order(&prs), vec![9, 2]);
    let cyclic = vec![stacked(1, &[], &[2]), stacked(2, &[], &[1])];
    assert_eq!(suggest_merge_order(&cyclic), vec![2, 1]);
}
