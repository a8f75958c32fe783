use convergio::docs_gen::{first_h1, is_public_item, parse_frontmatter_field};
use convergio::docs_report::{render_docs_human, render_docs_plain};
use convergio::docs_rewrite::{blocks, rewrite, scan_blocks, splice, GeneratorLookup, GeneratorTable, RewriteError};

/// Answers every block of `input` with the same two-item list.
fn dummy(input: &str) -> GeneratorTable {
    let (found, _) = scan_blocks(input);
    GeneratorTable {
        entries: found.iter().map(|b| (b.name.clone(), Ok("- one\n- two\n".to_string()))).collect(),
    }
}

/// Knows no generator at all.
fn strict() -> GeneratorTable {
    GeneratorTable { entries: vec![] }
}

#[test]
fn parse_frontmatter_picks_field() {
    let src = "---\nid: 0014\nstatus: accepted\n---\n# title\n";
    assert_eq!(parse_frontmatter_field(src, "status").as_deref(), Some("accepted"));
    assert_eq!(parse_frontmatter_field(src, "id").as_deref(), Some("0014"));
    assert_eq!(parse_frontmatter_field(src, "missing"), None);
}

#[test]
fn first_h1_returns_inline_title() {
    let src = "---\nid: 1\n---\n# Hello world\nmore\n";
    assert_eq!(first_h1(src).as_deref(), Some("Hello world"));
}

#[test]
fn is_public_item_recognises_common_pubs() {
    assert!(is_public_item("pub fn foo() {}"));
    assert!(is_public_item("pub struct Bar;"));
    assert!(is_public_item("pub enum Baz {"));
    assert!(is_public_item("pub trait T {"));
    assert!(!is_public_item("fn private() {}"));
    assert!(!is_public_item("pub(crate) fn x() {}"));
}

#[test]
fn replaces_block() {
    let input = "intro\n<!-- BEGIN AUTO:dummy -->\nold\n<!-- END AUTO -->\noutro\n";
    let out = rewrite(input, &dummy(input), "test.md", ".").unwrap();
    assert!(out.contains("- one") && out.contains("- two"));
    assert!(!out.contains("old"));
    assert!(out.contains("intro") && out.contains("outro"));
}

#[test]
fn passes_through_files_with_no_markers() {
    let input = "no markers here\njust text\n";
    let out = rewrite(input, &dummy(input), "test.md", ".").unwrap();
    assert_eq!(out, input);
}

#[test]
fn handles_multiple_blocks() {
    let input = "<!-- BEGIN AUTO:a -->\nx\n<!-- END AUTO -->\nmid\n<!-- BEGIN AUTO:b -->\ny\n<!-- END AUTO -->\n";
    let out = rewrite(input, &dummy(input), "test.md", ".").unwrap();
    assert_eq!(out.matches("- one").count(), 2);
}

#[test]
fn skips_markers_inside_fences() {
    let input = "before\n```markdown\n<!-- BEGIN AUTO:dummy -->\nfenced\n<!-- END AUTO -->\n```\nafter\n";
    let out = rewrite(input, &strict(), "test.md", ".").unwrap();
    assert_eq!(out, input);
}

#[test]
fn skips_markers_inside_inline_code() {
    let input = "Use `<!-- BEGIN AUTO:dummy -->` for examples.\n";
    let out = rewrite(input, &strict(), "test.md", ".").unwrap();
    assert_eq!(out, input);
}

#[test]
fn docs_report_layouts() {
    let stale = vec!["README.md".to_string(), "docs/x.md".to_string()];
    let none: Vec<String> = vec![];
    assert_eq!(
        render_docs_human(&stale, &none, true),
        "2 stale doc file(s) — run `cvg docs regenerate` and commit:\n  - README.md\n  - docs/x.md\n"
    );
    assert_eq!(render_docs_human(&none, &stale, false), "Rewrote 2 doc file(s):\n  - README.md\n  - docs/x.md\n");
    assert_eq!(render_docs_human(&stale, &none, false), "All AUTO blocks are current.\n");
    assert_eq!(render_docs_human(&none, &none, true), "All AUTO blocks are current.\n");
    assert_eq!(render_docs_plain(&stale, &none), "stale=2 rewritten=0\n");
}

#[test]
fn rewrite_gives_exact_output() {
    let input = "intro\n<!-- BEGIN AUTO:dummy -->\nold\n<!-- END AUTO -->\noutro\n";
    let out = rewrite(input, &dummy(input), "test.md", ".").unwrap();
    assert_eq!(out, "intro\n<!-- BEGIN AUTO:dummy -->\n- one\n- two\n<!-- END AUTO -->\noutro\n");
    // A second run changes nothing.
    assert_eq!(rewrite(&out, &dummy(&out), "test.md", ".").unwrap(), out);
}

#[test]
fn rewrite_adds_final_newline_and_trims_name() {
    let input = "<!-- BEGIN AUTO:  x  -->\nold\n<!-- END AUTO -->";
    let table = GeneratorTable { entries: vec![("x".to_string(), Ok("body".to_string()))] };
    let out = rewrite(input, &table, "f.md", "/repo").unwrap();
    assert_eq!(out, "<!-- BEGIN AUTO:x -->\nbody\n<!-- END AUTO -->");
}

#[test]
fn rewrite_reports_structural_errors() {
    assert_eq!(
        rewrite("<!-- BEGIN AUTO:x -->\nbody\n", &strict(), "f.md", "."),
        Err(RewriteError::UnterminatedBlock { name: "x".to_string(), at: 0 })
    );
    assert_eq!(rewrite("<!-- BEGIN AUTO:x\n", &strict(), "f.md", "."), Err(RewriteError::UnterminatedMarker { at: 0 }));
}

#[test]
fn rewrite_reports_generator_failure() {
    let input = "<!-- BEGIN AUTO:x -->\n<!-- END AUTO -->\n";
    assert_eq!(
        rewrite(input, &strict(), "f.md", "."),
        Err(RewriteError::Generator { name: "x".to_string(), message: "unknown AUTO generator 'x'".to_string() })
    );
    let table = GeneratorTable { entries: vec![("x".to_string(), Err("boom".to_string()))] };
    assert_eq!(
        rewrite(input, &table, "f.md", "."),
        Err(RewriteError::Generator { name: "x".to_string(), message: "boom".to_string() })
    );
}

#[test]
fn generator_failure_comes_before_a_later_structural_error() {
    let input = "<!-- BEGIN AUTO:x -->\n<!-- END AUTO -->\n<!-- BEGIN AUTO:y\n";
    assert_eq!(
        rewrite(input, &strict(), "f.md", "."),
        Err(RewriteError::Generator { name: "x".to_string(), message: "unknown AUTO generator 'x'".to_string() })
    );
    let ok = GeneratorTable { entries: vec![("x".to_string(), Ok("b\n".to_string()))] };
    assert_eq!(rewrite(input, &ok, "f.md", "."), Err(RewriteError::UnterminatedMarker { at: 40 }));
}

#[test]
fn blocks_and_splice_agree_with_rewrite() {
    let input = "a\n<!-- BEGIN AUTO:one -->\nx\n<!-- END AUTO -->\nb\n<!-- BEGIN AUTO:two -->\n<!-- END AUTO -->\n";
    let found = blocks(input).unwrap();
    let names: Vec<&str> = found.iter().map(|b| b.name.as_str()).collect();
    assert_eq!(names, vec!["one", "two"]);
    assert_eq!(found[0].begin, 2);
    let out = splice(input, &found, &vec!["1".to_string(), "2\n".to_string()]);
    assert_eq!(out, "a\n<!-- BEGIN AUTO:one -->\n1\n<!-- END AUTO -->\nb\n<!-- BEGIN AUTO:two -->\n2\n<!-- END AUTO -->\n");
    assert!(blocks("<!-- BEGIN AUTO:x\n").is_err());
}

#[test]
fn table_answers_by_first_matching_name() {
    let table = GeneratorTable {
        entries: vec![("a".to_string(), Ok("first".to_string())), ("a".to_string(), Ok("second".to_string()))],
    };
    assert_eq!(table.run("a", "f.md", "."), Ok("first".to_string()));
    assert_eq!(table.run("b", "f.md", "."), Err("unknown AUTO generator 'b'".to_string()));
}
