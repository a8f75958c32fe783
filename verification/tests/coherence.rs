use convergio::coherence::{run_check, statuses_match, Adr, Report, Violation};
use convergio::coherence_render::{render_report_human, render_report_plain};
use convergio::coherence_parse::{members_of_document, parse_workspace_members, IndexEntry, MembersError, TomlTree};
use convergio::coherence_body::{scan_body, BodyViolation};
use convergio::coherence_parse::parse_frontmatter;
use convergio::coherence_scan::{find_crate_idents, find_repo_paths};

fn cratest() -> Vec<String> {
    ["convergio-cli", "convergio-graph"].iter().map(|s| s.to_string()).collect()
}

fn chars(s: &str) -> Vec<char> {
    s.chars().collect()
}

#[test]
fn statuses_match_lenient() {
    assert!(statuses_match("accepted", "accepted"));
    assert!(statuses_match("Accepted", "accepted"));
    assert!(statuses_match("superseded by 0042", "superseded"));
    assert!(!statuses_match("accepted", "proposed"));
}

#[test]
fn flags_unknown_crate_reference() {
    let v = scan_body("AGENTS.md", "See `convergio-doesnotexist` for details.", &cratest(), &Vec::new());
    assert!(v.iter().any(|x| x.kind == "unknown_crate_reference"));
}

#[test]
fn known_crate_passes() {
    let v = scan_body("AGENTS.md", "Run `convergio-cli` and `convergio-graph`.", &cratest(), &Vec::new());
    assert!(v.is_empty());
}

#[test]
fn skips_fenced_examples() {
    let body = "before\n```\nconvergio-doesnotexist-fenced\n```\nafter\n";
    let v = scan_body("doc.md", body, &cratest(), &Vec::new());
    assert!(v.is_empty());
}

#[test]
fn dedups_within_one_file() {
    let body = "convergio-doesnotexist and again convergio-doesnotexist\n";
    let v = scan_body("doc.md", body, &cratest(), &Vec::new());
    let unknowns: Vec<&BodyViolation> = v.iter().filter(|x| x.kind == "unknown_crate_reference").collect();
    assert_eq!(unknowns.len(), 1);
}

#[test]
fn skip_files_returns_empty() {
    let v = scan_body("CHANGELOG.md", "convergio-doesnotexist is not in members", &cratest(), &Vec::new());
    assert!(v.is_empty());
}

#[test]
fn allowlist_prevents_flag() {
    let v = scan_body("AGENTS.md", "convergio-audit will be split out (ADR-0013)", &cratest(), &Vec::new());
    assert!(v.is_empty());
}

#[test]
fn ignores_substring_matches() {
    let idents = find_crate_idents(&chars("aconvergio-foo bconvergio-bar"));
    assert!(idents.is_empty());
}

#[test]
fn ignores_directory_components() {
    let idents = find_crate_idents(&chars("see ~/convergio-worktrees/main/ for help"));
    assert!(idents.is_empty());
}

#[test]
fn finds_paths_with_globs() {
    let paths = find_repo_paths(&chars("see crates/foo/tests/e2e_*.rs"));
    assert!(paths.iter().any(|p| p.contains(&'*')));
}

#[test]
fn parse_frontmatter_extracts_lists() {
    let body = "---\nid: 0001\nstatus: accepted\nrelated_adrs: [0002, 0003]\ntouches_crates: [convergio-cli]\n---\n# body\n";
    let fm = parse_frontmatter(body).unwrap();
    assert_eq!(fm.status, "accepted");
    assert_eq!(fm.related_adrs, vec!["0002", "0003"]);
    assert_eq!(fm.touches_crates, vec!["convergio-cli"]);
}

#[test]
fn parse_frontmatter_handles_empty_lists() {
    let body = "---\nstatus: proposed\nrelated_adrs: []\ntouches_crates: []\n---\n";
    let fm = parse_frontmatter(body).unwrap();
    assert!(fm.related_adrs.is_empty());
    assert!(fm.touches_crates.is_empty());
}

#[test]
fn run_check_reports_adr_violations_in_order() {
    let adr = |id: &str, status: &str, related: &[&str], touches: &[&str]| Adr {
        id: id.to_string(),
        path: format!("docs/adr/{id}-x.md"),
        status: status.to_string(),
        related_adrs: related.iter().map(|s| s.to_string()).collect(),
        touches_crates: touches.iter().map(|s| s.to_string()).collect(),
    };
    let adrs = vec![
        adr("0001", "accepted", &["0002", "0009"], &["convergio-cli", "convergio-ghost"]),
        adr("0002", "proposed", &[], &[]),
    ];
    let index = vec![IndexEntry { id: "0001".to_string(), status: "superseded".to_string() }];
    let crates = vec!["convergio-cli".to_string()];
    let docs = vec![("README.md".to_string(), "nothing to flag\n".to_string())];
    let r = run_check(&adrs, &index, &crates, &docs, &vec![]);
    assert_eq!((r.adrs_checked, r.crates_known, r.index_entries, r.docs_scanned), (2, 1, 1, 1));
    let got: Vec<(String, String, String)> =
        r.violations.iter().map(|v| (v.file.clone(), v.kind.clone(), v.detail.clone())).collect();
    let want = vec![
        ("docs/adr/0001-x.md", "missing_adr_ref", "references ADR 0009 which does not exist"),
        (
            "docs/adr/0001-x.md",
            "missing_crate_ref",
            "touches_crates references 'convergio-ghost' which is not in workspace.members",
        ),
        ("docs/adr/0001-x.md", "status_mismatch", "ADR file status 'accepted' != index status 'superseded'"),
        ("docs/adr/0002-x.md", "missing_from_index", "ADR 0002 exists on disk but has no row in docs/adr/README.md"),
    ];
    let want: Vec<(String, String, String)> =
        want.into_iter().map(|(a, b, c)| (a.to_string(), b.to_string(), c.to_string())).collect();
    assert_eq!(got, want);
}

#[test]
fn coherence_report_layouts() {
    let clean = Report { adrs_checked: 3, crates_known: 2, index_entries: 3, docs_scanned: 9, violations: vec![] };
    assert_eq!(
        render_report_human(&clean),
        "Checked 3 ADRs, 2 crates known, 3 index entries, 9 markdown bodies.\nCoherence: ok (no violations).\n"
    );
    assert_eq!(
        render_report_plain(&clean),
        "checked=3 crates_known=2 index_entries=3 docs_scanned=9 violations=0\n"
    );
    let v = Violation { file: "a.md".to_string(), kind: "unknown_crate".to_string(), detail: "d".to_string() };
    let dirty = Report { adrs_checked: 0, crates_known: 0, index_entries: 0, docs_scanned: 1, violations: vec![v] };
    assert_eq!(
        render_report_human(&dirty),
        "Checked 0 ADRs, 0 crates known, 0 index entries, 1 markdown bodies.\nCoherence: 1 violation(s):\n  - [unknown_crate] a.md: d\n"
    );
}

#[test]
fn workspace_members_are_last_segments_once() {
    let manifest = "[workspace]\nmembers = [\"crates/convergio-cli\", \"crates/convergio-bus\", 3, \"other/convergio-cli\"]\n";
    assert_eq!(
        parse_workspace_members(manifest),
        Ok(vec!["convergio-cli".to_string(), "convergio-bus".to_string()])
    );
    assert_eq!(parse_workspace_members("[package]\nname = \"x\"\n"), Err(MembersError::NoMembers));
    assert_eq!(parse_workspace_members("[workspace]\nmembers = \"crates/a\"\n"), Err(MembersError::NoMembers));
    assert_eq!(parse_workspace_members("this is = = not toml"), Err(MembersError::NotToml));
}

#[test]
fn members_of_document_reads_the_members_array() {
    let members = TomlTree::Array(vec![
        TomlTree::Str("crates/alpha".to_string()),
        TomlTree::Other,
        TomlTree::Str("tools/beta".to_string()),
        TomlTree::Str("other/alpha".to_string()),
    ]);
    let doc = TomlTree::Table(vec![(
        "workspace".to_string(),
        TomlTree::Table(vec![("members".to_string(), members)]),
    )]);
    assert_eq!(members_of_document(&doc), Ok(vec!["alpha".to_string(), "beta".to_string()]));
    let no_array = TomlTree::Table(vec![(
        "workspace".to_string(),
        TomlTree::Table(vec![("members".to_string(), TomlTree::Str("x".to_string()))]),
    )]);
    assert_eq!(members_of_document(&no_array), Err(MembersError::NoMembers));
    assert_eq!(members_of_document(&TomlTree::Other), Err(MembersError::NoMembers));
}
