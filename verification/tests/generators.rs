use convergio::docs_gen::{
    adr_file_id, gen_adr_index, gen_crate_stats, gen_cvg_subcommands, gen_test_count, gen_workspace_members,
    is_rust_source,
};

fn pair(a: &str, b: &str) -> (String, String) {
    (a.to_string(), b.to_string())
}

#[test]
fn test_count_counts_annotations_in_rust_sources_only() {
    let files = vec![
        pair("crates/a/src/lib.rs", "#[test]\nfn a() {}\n  #[tokio::test]\n#[tokio::test(flavor = \"x\")]\n#[testing]\n"),
        pair("crates/a/target/debug/x.rs", "#[test]\n"),
        pair("crates/a/README.md", "#[test]\n"),
    ];
    assert_eq!(
        gen_test_count(&files),
        "**Tests declared:** 3 (counted from `#[test]` + `#[tokio::test]` annotations under `crates/`; live runner count via `cargo test --workspace`).\n"
    );
}

#[test]
fn rust_source_rules() {
    assert!(is_rust_source("crates/a/src/lib.rs"));
    assert!(!is_rust_source("crates/a/target/lib.rs"));
    assert!(!is_rust_source("crates/a/.rs"));
    assert!(!is_rust_source("crates/a/lib.rsx"));
}

#[test]
fn subcommands_are_sorted_deduplicated_and_dashed() {
    let src = "pub mod plan;\npub mod session_pre_stop;\nmod private;\n  pub mod about;\npub mod plan;\n";
    assert_eq!(gen_cvg_subcommands(src), "- `cvg about`\n- `cvg plan`\n- `cvg session-pre-stop`\n");
}

#[test]
fn adr_index_orders_rows_by_id() {
    let entries = vec![
        pair("0002-second.md", "---\nstatus: accepted\n---\n# ADR-0002: Second thing\n"),
        pair("README.md", ""),
        pair("0000-template.md", "# Template\n"),
        pair("0001-first.md", "# First\n"),
        pair("notes.txt", ""),
    ];
    assert_eq!(
        gen_adr_index(&entries),
        "| # | Title | Status |\n|---|-------|--------|\n| [0001](./0001-first.md) | First | ? |\n| [0002](./0002-second.md) | Second thing | accepted |\n"
    );
}

#[test]
fn adr_index_falls_back_to_file_name_without_heading() {
    let entries = vec![pair("0003-third.md", "---\nstatus: proposed\n---\nno heading\n")];
    assert_eq!(
        gen_adr_index(&entries),
        "| # | Title | Status |\n|---|-------|--------|\n| [0003](./0003-third.md) | 0003-third.md | proposed |\n"
    );
}

#[test]
fn adr_file_ids() {
    assert_eq!(adr_file_id("0012-x.md").as_deref(), Some("0012"));
    assert_eq!(adr_file_id("0000-template.md"), None);
    assert_eq!(adr_file_id("README.md"), None);
    assert_eq!(adr_file_id("12-x.md"), None);
    assert_eq!(adr_file_id("0012-x.txt"), None);
}

#[test]
fn workspace_members_sorted_with_first_sentence() {
    let pkgs = vec![
        ("convergio-cli".to_string(), Some("The CLI. More text.".to_string())),
        ("convergio-api".to_string(), None),
    ];
    assert_eq!(
        gen_workspace_members(&pkgs),
        "- `convergio-api` — (no description)\n- `convergio-cli` — The CLI\n"
    );
}

#[test]
fn crate_stats_without_crate() {
    assert_eq!(
        gen_crate_stats(None, &Vec::new()),
        "_(no surrounding crate found — `crate_stats` is intended for per-crate AGENTS.md)_\n"
    );
}

#[test]
fn crate_stats_counts_and_lists_long_files() {
    let mut big = String::from("pub struct S;\n");
    for _ in 0..259 {
        big.push_str("x\n");
    }
    let mut other = String::new();
    for _ in 0..260 {
        other.push_str("y\n");
    }
    let mut longest = String::new();
    for _ in 0..280 {
        longest.push_str("z\n");
    }
    let files = vec![
        pair("src/lib.rs", "pub fn a() {}\nfn b() {}\n"),
        pair("src/big.rs", &big),
        pair("src/a_other.rs", &other),
        pair("src/longest.rs", &longest),
        pair("src/notes.txt", "pub fn ignored() {}\n"),
    ];
    assert_eq!(
        gen_crate_stats(Some("convergio-x"), &files),
        "**`convergio-x` stats:** 4 `*.rs` files / 2 public items / 802 lines (under `src/`).\n\nFiles approaching the 300-line cap:\n- `src/longest.rs` (280 lines)\n- `src/a_other.rs` (260 lines)\n- `src/big.rs` (260 lines)\n"
    );
}

#[test]
fn crate_stats_without_long_files() {
    let files = vec![pair("src/lib.rs", "pub fn a() {}\n")];
    assert_eq!(
        gen_crate_stats(Some("c"), &files),
        "**`c` stats:** 1 `*.rs` files / 1 public items / 1 lines (under `src/`).\n\nNo files within 50 lines of the 300-line cap.\n"
    );
}
