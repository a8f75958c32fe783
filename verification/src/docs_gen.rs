//! Bodies of the derived markdown blocks that `cvg docs regenerate`
//! rewrites: ADR index, subcommand list, test count, workspace member
//! list and per-crate statistics. Each generator takes the text it
//! summarises (file names and contents, read by the caller) and returns
//! the block body.
use vstd::prelude::*;
use crate::text::{chars_of, eq_str, has_prefix, lines, lines_of, matches_at, occurs_at, push_all, starts_with, string_of, trim, trim_start, trimmed, trimmed_start, views};

verus! {

/// Frontmatter lines from index `n` on: the value after `key` on the
/// first line that starts with it, before the closing `---`.
pub open spec fn field_scan(ls: Seq<Seq<char>>, n: int, key: Seq<char>) -> Option<Seq<char>>
    decreases ls.len() - n,
{
    if n < 0 || n >= ls.len() {
        None
    } else if trim(ls[n]) == "---"@ {
        None
    } else if starts_with(trim(ls[n]), key) {
        Some(trim(trim(ls[n]).skip(key.len() as int)))
    } else {
        field_scan(ls, n + 1, key)
    }
}

/// The value of `field:` in the frontmatter block opened by a first line
/// `---`.
pub open spec fn frontmatter_field(src: Seq<char>, field: Seq<char>) -> Option<Seq<char>> {
    let ls = lines_of(src);
    if ls.len() == 0 || trim(ls[0]) != "---"@ {
        None
    } else {
        field_scan(ls, 1, field.push(':'))
    }
}

/// The text of the first line that starts with `# `, trimmed.
pub open spec fn h1_scan(ls: Seq<Seq<char>>, n: int) -> Option<Seq<char>>
    decreases ls.len() - n,
{
    if n < 0 || n >= ls.len() {
        None
    } else if starts_with(ls[n], "# "@) {
        Some(trim(ls[n].skip(2)))
    } else {
        h1_scan(ls, n + 1)
    }
}

pub open spec fn h1_of(src: Seq<char>) -> Option<Seq<char>> {
    h1_scan(lines_of(src), 0)
}

/// A line (already left-trimmed) that declares a public item.
pub open spec fn declares_public_item(t: Seq<char>) -> bool {
    ||| starts_with(t, "pub fn "@)
    ||| starts_with(t, "pub struct "@)
    ||| starts_with(t, "pub enum "@)
    ||| starts_with(t, "pub trait "@)
    ||| starts_with(t, "pub const "@)
    ||| starts_with(t, "pub type "@)
    ||| starts_with(t, "pub use "@)
}

fn opt_string(v: Option<Vec<char>>) -> (r: Option<String>)
    ensures
        r is Some <==> v is Some,
        r is Some ==> r->0@ == v->0@,
{
    match v {
        Some(c) => Some(string_of(&c)),
        None => None,
    }
}

/// Value of a frontmatter field: the first line `field: value` between
/// an opening `---` first line and the closing `---`, value trimmed.
pub fn parse_frontmatter_field(src: &str, field: &str) -> (r: Option<String>)
    ensures
        r is Some <==> frontmatter_field(src@, field@) is Some,
        r is Some ==> r->0@ == frontmatter_field(src@, field@)->0,
{
    let s = chars_of(src);
    let ls = lines(&s);
    if ls.len() == 0 {
        return None;
    }
    assert(views(ls@)[0] == ls@[0]@);
    let first = trimmed(&ls[0]);
    if !eq_str(&first, "---") {
        return None;
    }
    let mut key = chars_of(field);
    key.push(':');
    let mut k: usize = 1;
    while k < ls.len()
        invariant
            1 <= k <= ls.len(),
            views(ls@) == lines_of(src@),
            key@ == field@.push(':'),
            frontmatter_field(src@, field@) == field_scan(views(ls@), k as int, key@),
        decreases ls.len() - k,
    {
        assert(views(ls@)[k as int] == ls@[k as int]@);
        let t = trimmed(&ls[k]);
        if eq_str(&t, "---") {
            return None;
        }
        if matches_at(&t, &key, 0) {
            let rest = crate::text::slice_of(&t, key.len(), t.len());
            let v = trimmed(&rest);
            return opt_string(Some(v));
        }
        k += 1;
    }
    None
}

/// The first `# ` heading of a markdown body, trimmed.
pub fn first_h1(src: &str) -> (r: Option<String>)
    ensures
        r is Some <==> h1_of(src@) is Some,
        r is Some ==> r->0@ == h1_of(src@)->0,
{
    let s = chars_of(src);
    let ls = lines(&s);
    let mut k: usize = 0;
    while k < ls.len()
        invariant
            k <= ls.len(),
            views(ls@) == lines_of(src@),
            h1_of(src@) == h1_scan(views(ls@), k as int),
        decreases ls.len() - k,
    {
        assert(views(ls@)[k as int] == ls@[k as int]@);
        if has_prefix(&ls[k], "# ") {
            proof {
                reveal_strlit("# ");
            }
            let rest = crate::text::slice_of(&ls[k], 2, ls[k].len());
            let v = trimmed(&rest);
            return opt_string(Some(v));
        }
        k += 1;
    }
    None
}

/// Whether a left-trimmed source line declares a public item
/// (`pub fn`, `pub struct`, `pub enum`, `pub trait`, `pub const`,
/// `pub type`, `pub use`); `pub(crate)` items do not count.
pub fn is_public_item(t: &str) -> (r: bool)
    ensures
        r == declares_public_item(t@),
{
    let s = chars_of(t);
    has_prefix(&s, "pub fn ") || has_prefix(&s, "pub struct ") || has_prefix(&s, "pub enum ") || has_prefix(
        &s,
        "pub trait ",
    ) || has_prefix(&s, "pub const ") || has_prefix(&s, "pub type ") || has_prefix(&s, "pub use ")
}

} // verus!

verus! {

/// A test annotation line: `#[test]`, `#[tokio::test]` or
/// `#[tokio::test(...)]` after leading whitespace.
pub open spec fn is_test_attr(line: Seq<char>) -> bool {
    let t = trim_start(line);
    t == "#[test]"@ || t == "#[tokio::test]"@ || starts_with(t, "#[tokio::test("@)
}

/// Number of test annotation lines.
pub open spec fn test_lines(ls: Seq<Seq<char>>) -> nat
    decreases ls.len(),
{
    if ls.len() == 0 {
        0
    } else {
        test_lines(ls.drop_last()) + if is_test_attr(ls.last()) {
            1nat
        } else {
            0nat
        }
    }
}

/// A path whose file name has the extension `rs` and none of whose
/// `/`-separated components is `target`.
pub open spec fn is_rust_source_path(path: Seq<char>) -> bool {
    &&& has_rs_extension(path)
    &&& !crate::text::split_on(path, '/').contains("target"@)
}

/// The file name (last `/`-separated component) has the extension `rs`.
pub open spec fn has_rs_extension(path: Seq<char>) -> bool {
    let name = crate::text::split_on(path, '/').last();
    name.len() > 3 && crate::text::ends_with(name, ".rs"@)
}

/// `(path, contents)` pairs as text.
pub open spec fn file_views(files: Seq<(String, String)>) -> Seq<(Seq<char>, Seq<char>)> {
    files.map_values(|f: (String, String)| (f.0@, f.1@))
}

/// Test annotations over the Rust sources among `files`.
pub open spec fn tests_in(files: Seq<(Seq<char>, Seq<char>)>) -> nat
    decreases files.len(),
{
    if files.len() == 0 {
        0
    } else {
        tests_in(files.drop_last()) + if is_rust_source_path(files.last().0) {
            test_lines(lines_of(files.last().1))
        } else {
            0nat
        }
    }
}

pub open spec fn test_count_text(n: nat) -> Seq<char> {
    "**Tests declared:** "@ + crate::text::decimal(n)
        + " (counted from `#[test]` + `#[tokio::test]` annotations under `crates/`; live runner count via `cargo test --workspace`).\n"@
}

/// Whether `path` names a Rust source file outside any `target`
/// directory.
pub fn is_rust_source(path: &str) -> (r: bool)
    ensures
        r == is_rust_source_path(path@),
{
    let p = chars_of(path);
    let segs = crate::text::split_char(&p, '/');
    proof {
        crate::text::lemma_split_nonempty(path@, '/');
    }
    let name = &segs[segs.len() - 1];
    assert(views(segs@).last() == name@);
    let target = chars_of("target");
    name.len() > 3 && crate::text::has_suffix(name, ".rs") && !crate::text::contains_chars(&segs, &target)
}

fn count_test_lines(src: &str) -> (n: usize)
    ensures
        n == test_lines(lines_of(src@)),
{
    let s = chars_of(src);
    let ls = lines(&s);
    let mut n: usize = 0;
    let mut k: usize = 0;
    while k < ls.len()
        invariant
            k <= ls.len(),
            views(ls@) == lines_of(src@),
            n == test_lines(views(ls@).take(k as int)),
            n <= k,
        decreases ls.len() - k,
    {
        let t = trimmed_start(&ls[k]);
        let hit = eq_str(&t, "#[test]") || eq_str(&t, "#[tokio::test]") || has_prefix(&t, "#[tokio::test(");
        proof {
            assert(views(ls@)[k as int] == ls@[k as int]@);
            assert(views(ls@).take(k + 1).drop_last() =~= views(ls@).take(k as int));
        }
        if hit {
            n += 1;
        }
        k += 1;
    }
    assert(views(ls@).take(ls.len() as int) =~= views(ls@));
    n
}

/// The test-count block: the number of `#[test]` and `#[tokio::test]`
/// annotations in the Rust sources among `files` (`(path, contents)`
/// under `crates/`).
pub fn gen_test_count(files: &Vec<(String, String)>) -> (r: String)
    requires
        tests_in(file_views(files@)) <= usize::MAX,
    ensures
        r@ == test_count_text(tests_in(file_views(files@))),
{
    let ghost fv = file_views(files@);
    let mut count: usize = 0;
    let mut i: usize = 0;
    while i < files.len()
        invariant
            i <= files.len(),
            fv == file_views(files@),
            tests_in(fv) <= usize::MAX,
            count == tests_in(fv.take(i as int)),
        decreases files.len() - i,
    {
        proof {
            assert(fv.take(i + 1).drop_last() =~= fv.take(i as int));
            assert(fv.take(i + 1).last() == (files@[i as int].0@, files@[i as int].1@));
            lemma_tests_in_prefix(fv, i + 1);
        }
        if is_rust_source(files[i].0.as_str()) {
            let n = count_test_lines(files[i].1.as_str());
            count = count + n;
        }
        i += 1;
    }
    assert(fv.take(files.len() as int) =~= fv);
    let mut out: Vec<char> = Vec::new();
    crate::text::push_str(&mut out, "**Tests declared:** ");
    crate::text::push_decimal(&mut out, count as u64);
    crate::text::push_str(
        &mut out,
        " (counted from `#[test]` + `#[tokio::test]` annotations under `crates/`; live runner count via `cargo test --workspace`).\n",
    );
    string_of(&out)
}

proof fn lemma_tests_in_prefix(files: Seq<(Seq<char>, Seq<char>)>, k: int)
    requires
        0 <= k <= files.len(),
    ensures
        tests_in(files.take(k)) <= tests_in(files),
    decreases files.len() - k,
{
    if k < files.len() {
        lemma_tests_in_prefix(files, k + 1);
        assert(files.take(k + 1).drop_last() =~= files.take(k));
    } else {
        assert(files.take(k) =~= files);
    }
}

} // verus!

verus! {

/// The module declared by a line `pub mod <name>;`, if any.
pub open spec fn declared_module(line: Seq<char>) -> Option<Seq<char>> {
    let t = trim(line);
    if starts_with(t, "pub mod "@) {
        let name = trim(crate::text::split_on(t.skip(8), ';')[0]);
        if name.len() > 0 {
            Some(name)
        } else {
            None
        }
    } else {
        None
    }
}

/// Modules declared by the first `n` lines.
pub open spec fn module_set(ls: Seq<Seq<char>>, n: int) -> Set<Seq<char>>
    decreases n,
{
    if n <= 0 {
        Set::empty()
    } else {
        let s = module_set(ls, n - 1);
        match declared_module(ls[n - 1]) {
            Some(m) => s.insert(m),
            None => s,
        }
    }
}

pub open spec fn modules_of(src: Seq<char>) -> Set<Seq<char>> {
    module_set(lines_of(src), lines_of(src).len() as int)
}

/// `_` replaced by `-`.
pub open spec fn dashed(s: Seq<char>) -> Seq<char> {
    s.map_values(|c: char| if c == '_' { '-' } else { c })
}

/// One bullet `- `cvg <name>`` per entry.
pub open spec fn subcommand_bullets(e: Seq<Seq<char>>) -> Seq<char>
    decreases e.len(),
{
    if e.len() == 0 {
        Seq::empty()
    } else {
        subcommand_bullets(e.drop_last()) + "- `cvg "@ + dashed(e.last()) + "`\n"@
    }
}

fn dash_of(s: &Vec<char>) -> (r: Vec<char>)
    ensures
        r@ == dashed(s@),
{
    let mut r: Vec<char> = Vec::new();
    let mut i: usize = 0;
    while i < s.len()
        invariant
            i <= s.len(),
            r@ == dashed(s@.take(i as int)),
        decreases s.len() - i,
    {
        let c = s[i];
        r.push(if c == '_' { '-' } else { c });
        assert(dashed(s@.take(i + 1)) =~= dashed(s@.take(i as int)).push(if c == '_' { '-' } else { c }));
        i += 1;
    }
    assert(s@.take(s.len() as int) =~= s@);
    r
}

/// The subcommand block: one bullet per module declared `pub mod` in
/// the commands module source, in increasing order, each once, with
/// `_` shown as `-`.
pub fn gen_cvg_subcommands(mod_src: &str) -> (r: String)
    ensures
        exists|e: Seq<Seq<char>>|
            #![auto]
            crate::order::sorted_strict(e) && e.to_set() == modules_of(mod_src@) && r@ == subcommand_bullets(e),
{
    let s = chars_of(mod_src);
    let ls = lines(&s);
    let mut names = crate::order::StringSet::new();
    let mut k: usize = 0;
    while k < ls.len()
        invariant
            k <= ls.len(),
            views(ls@) == lines_of(mod_src@),
            names.wf(),
            names.elems().to_set() == module_set(views(ls@), k as int),
        decreases ls.len() - k,
    {
        assert(views(ls@)[k as int] == ls@[k as int]@);
        let t = trimmed(&ls[k]);
        if has_prefix(&t, "pub mod ") {
            proof {
                reveal_strlit("pub mod ");
            }
            let rest = crate::text::slice_of(&t, 8, t.len());
            let pieces = crate::text::split_char(&rest, ';');
            proof {
                crate::text::lemma_split_nonempty(rest@, ';');
                assert(views(pieces@)[0] == pieces@[0]@);
            }
            let name = trimmed(&pieces[0]);
            if name.len() > 0 {
                names.insert_chars(&name);
            }
        }
        k += 1;
    }
    let mut out: Vec<char> = Vec::new();
    let mut i: usize = 0;
    while i < names.items.len()
        invariant
            i <= names.items.len(),
            out@ == subcommand_bullets(names.elems().take(i as int)),
        decreases names.items.len() - i,
    {
        let c = chars_of(names.items[i].as_str());
        let d = dash_of(&c);
        crate::text::push_str(&mut out, "- `cvg ");
        push_all(&mut out, &d);
        crate::text::push_str(&mut out, "`\n");
        proof {
            assert(names.elems()[i as int] == c@);
            assert(names.elems().take(i + 1).drop_last() =~= names.elems().take(i as int));
        }
        i += 1;
    }
    assert(names.elems().take(names.items.len() as int) =~= names.elems());
    string_of(&out)
}

} // verus!

verus! {

/// `str::trim_start_matches` with a non-empty string pattern.
pub open spec fn strip_prefix_all(s: Seq<char>, p: Seq<char>) -> Seq<char>
    decreases s.len(),
{
    if p.len() > 0 && starts_with(s, p) {
        strip_prefix_all(s.skip(p.len() as int), p)
    } else {
        s
    }
}

/// `str::trim_end_matches` with a non-empty string pattern.
pub open spec fn strip_suffix_all(s: Seq<char>, p: Seq<char>) -> Seq<char>
    decreases s.len(),
{
    if p.len() > 0 && crate::text::ends_with(s, p) {
        strip_suffix_all(s.take(s.len() - p.len()), p)
    } else {
        s
    }
}

/// The id of an ADR file name `NNNN-....md` (four digits, not the
/// `0000` template, not `README.md`).
pub open spec fn indexed_adr_id(name: Seq<char>) -> Option<Seq<char>> {
    if !crate::text::ends_with(name, ".md"@) || name == "README.md"@ {
        None
    } else {
        let id = crate::text::split_on(name, '-')[0];
        if id.len() == 4 && (forall|i: int| 0 <= i < 4 ==> crate::text::is_digit(#[trigger] id[i])) && id
            != "0000"@ {
            Some(id)
        } else {
            None
        }
    }
}

/// The title column: the H1 without a leading `ADR-<id>:`, `ADR` or
/// `:`; the whole H1 when nothing is left.
pub open spec fn display_title(id: Seq<char>, title: Seq<char>) -> Seq<char> {
    let d = trim(
        crate::text::strip_lead(strip_prefix_all(trim(strip_prefix_all(title, "ADR-"@ + id + ":"@)), "ADR"@), ':'),
    );
    if d.len() == 0 {
        title
    } else {
        d
    }
}

/// The file stem of the first entry named `<id>-....md`.
pub open spec fn adr_file_scan(names: Seq<Seq<char>>, id: Seq<char>) -> Option<Seq<char>>
    decreases names.len(),
{
    if names.len() == 0 {
        None
    } else if starts_with(names[0], id.push('-')) && crate::text::ends_with(names[0], ".md"@) {
        Some(strip_suffix_all(names[0], ".md"@))
    } else {
        adr_file_scan(names.skip(1), id)
    }
}

/// `(id, title, status)` of each ADR file among `entries`, in entry order.
pub open spec fn adr_rows(entries: Seq<(Seq<char>, Seq<char>)>) -> Seq<(Seq<char>, Seq<char>, Seq<char>)>
    decreases entries.len(),
{
    if entries.len() == 0 {
        Seq::empty()
    } else {
        let rest = adr_rows(entries.drop_last());
        let (name, src) = entries.last();
        match indexed_adr_id(name) {
            Some(id) => {
                let status = match frontmatter_field(src, "status"@) {
                    Some(s) => s,
                    None => "?"@,
                };
                let title = match h1_of(src) {
                    Some(t) => t,
                    None => name,
                };
                rest.push((id, title, status))
            },
            None => rest,
        }
    }
}

/// One table row.
pub open spec fn adr_row(row: (Seq<char>, Seq<char>, Seq<char>), names: Seq<Seq<char>>) -> Seq<char> {
    let (id, title, status) = row;
    let stem = match adr_file_scan(names, id) {
        Some(f) => f,
        None => id.push('-'),
    };
    "| ["@ + id + "](./"@ + stem + ".md) | "@ + display_title(id, title) + " | "@ + status + " |\n"@
}

/// The rows `rows[order[0]]`, `rows[order[1]]`, ... rendered.
pub open spec fn adr_table_rows(
    rows: Seq<(Seq<char>, Seq<char>, Seq<char>)>,
    order: Seq<usize>,
    names: Seq<Seq<char>>,
) -> Seq<char>
    decreases order.len(),
{
    if order.len() == 0 {
        Seq::empty()
    } else {
        adr_table_rows(rows, order.drop_last(), names) + adr_row(rows[order.last() as int], names)
    }
}

pub open spec fn adr_table_head() -> Seq<char> {
    "| # | Title | Status |\n"@ + "|---|-------|--------|\n"@
}

pub open spec fn row_ids(rows: Seq<(Seq<char>, Seq<char>, Seq<char>)>) -> Seq<Seq<char>> {
    rows.map_values(|r: (Seq<char>, Seq<char>, Seq<char>)| r.0)
}

} // verus!

verus! {

fn strip_prefix_all_of(s: &Vec<char>, p: &Vec<char>) -> (r: Vec<char>)
    ensures
        r@ == strip_prefix_all(s@, p@),
{
    if p.len() == 0 {
        return crate::text::slice_of(s, 0, s.len());
    }
    let mut i: usize = 0;
    assert(s@.skip(0) =~= s@);
    while matches_at(s, p, i)
        invariant
            i <= s.len(),
            p.len() > 0,
            strip_prefix_all(s@.skip(i as int), p@) == strip_prefix_all(s@, p@),
        decreases s.len() - i,
    {
        proof {
            assert(s@.skip(i as int).subrange(0, p@.len() as int) =~= s@.subrange(i as int, i + p@.len()));
            assert(s@.skip(i as int).skip(p@.len() as int) =~= s@.skip(i + p@.len()));
        }
        i = i + p.len();
    }
    proof {
        if i + p@.len() <= s@.len() {
            assert(s@.skip(i as int).subrange(0, p@.len() as int) =~= s@.subrange(i as int, i + p@.len()));
        }
    }
    crate::text::slice_of(s, i, s.len())
}

fn strip_suffix_all_of(s: &Vec<char>, p: &Vec<char>) -> (r: Vec<char>)
    ensures
        r@ == strip_suffix_all(s@, p@),
{
    if p.len() == 0 {
        return crate::text::slice_of(s, 0, s.len());
    }
    let mut n: usize = s.len();
    assert(s@.take(s.len() as int) =~= s@);
    while n >= p.len() && matches_at(s, p, n - p.len())
        invariant
            n <= s.len(),
            p.len() > 0,
            strip_suffix_all(s@.take(n as int), p@) == strip_suffix_all(s@, p@),
        decreases n,
    {
        proof {
            let t = s@.take(n as int);
            assert(t.subrange(t.len() - p@.len(), t.len() as int) =~= s@.subrange(n - p@.len(), n as int));
            assert(t.take(t.len() - p@.len()) =~= s@.take(n - p@.len()));
        }
        n = n - p.len();
    }
    proof {
        let t = s@.take(n as int);
        if n >= p@.len() {
            assert(t.subrange(t.len() - p@.len(), t.len() as int) =~= s@.subrange(n - p@.len(), n as int));
        }
    }
    crate::text::slice_of(s, 0, n)
}

fn adr_id_chars(name: &Vec<char>) -> (r: Option<Vec<char>>)
    ensures
        r is Some <==> indexed_adr_id(name@) is Some,
        r is Some ==> r->0@ == indexed_adr_id(name@)->0,
{
    if !crate::text::has_suffix(name, ".md") || eq_str(name, "README.md") {
        return None;
    }
    let pieces = crate::text::split_char(name, '-');
    proof {
        crate::text::lemma_split_nonempty(name@, '-');
        assert(views(pieces@)[0] == pieces@[0]@);
    }
    let id = &pieces[0];
    if id.len() != 4 {
        return None;
    }
    let mut i: usize = 0;
    while i < 4
        invariant
            i <= 4,
            id@.len() == 4,
            id@ == crate::text::split_on(name@, '-')[0],
            forall|j: int| 0 <= j < i ==> crate::text::is_digit(#[trigger] id@[j]),
        decreases 4 - i,
    {
        if !('0' <= id[i] && id[i] <= '9') {
            proof {
                let sid = crate::text::split_on(name@, '-')[0];
                assert(!crate::text::is_digit(sid[i as int]));
                assert(!(forall|j: int| 0 <= j < 4 ==> crate::text::is_digit(#[trigger] sid[j])));
            }
            return None;
        }
        i += 1;
    }
    if eq_str(id, "0000") {
        return None;
    }
    Some(crate::text::slice_of(id, 0, id.len()))
}

/// The id of an ADR file name that the index lists (`NNNN-....md`, four
/// digits, not the `0000` template, not `README.md`).
pub fn adr_file_id(name: &str) -> (r: Option<String>)
    ensures
        r is Some <==> indexed_adr_id(name@) is Some,
        r is Some ==> r->0@ == indexed_adr_id(name@)->0,
{
    let n = chars_of(name);
    opt_string(adr_id_chars(&n))
}

fn display_title_of(id: &Vec<char>, title: &Vec<char>) -> (r: Vec<char>)
    ensures
        r@ == display_title(id@, title@),
{
    let mut pre = chars_of("ADR-");
    push_all(&mut pre, id);
    pre.push(':');
    proof {
        assert(pre@ =~= "ADR-"@ + id@ + ":"@) by {
            reveal_strlit(":");
        }
    }
    let a = strip_prefix_all_of(title, &pre);
    let b = trimmed(&a);
    let adr = chars_of("ADR");
    let c = strip_prefix_all_of(&b, &adr);
    let d = crate::text::strip_leading(&c, ':');
    let e = trimmed(&d);
    if e.len() == 0 {
        crate::text::slice_of(title, 0, title.len())
    } else {
        e
    }
}

fn adr_file_of(names: &Vec<Vec<char>>, id: &Vec<char>) -> (r: Vec<char>)
    ensures
        r@ == match adr_file_scan(views(names@), id@) {
            Some(f) => f,
            None => id@.push('-'),
        },
{
    let mut key = crate::text::slice_of(id, 0, id.len());
    key.push('-');
    let md = chars_of(".md");
    let mut i: usize = 0;
    assert(views(names@).skip(0) =~= views(names@));
    while i < names.len()
        invariant
            i <= names.len(),
            key@ == id@.push('-'),
            md@ == ".md"@,
            adr_file_scan(views(names@).skip(i as int), id@) == adr_file_scan(views(names@), id@),
        decreases names.len() - i,
    {
        let n = &names[i];
        proof {
            assert(views(names@).skip(i as int)[0] == n@);
            assert(views(names@).skip(i as int).skip(1) =~= views(names@).skip(i + 1));
        }
        if matches_at(n, &key, 0) && crate::text::has_suffix(n, ".md") {
            return strip_suffix_all_of(n, &md);
        }
        i += 1;
    }
    proof {
        assert(views(names@).skip(names.len() as int) =~= Seq::<Seq<char>>::empty());
    }
    key
}

} // verus!

verus! {

pub open spec fn entry_names(entries: Seq<(Seq<char>, Seq<char>)>) -> Seq<Seq<char>> {
    entries.map_values(|e: (Seq<char>, Seq<char>)| e.0)
}

fn opt_chars(v: Option<String>, default: &str) -> (r: Vec<char>)
    ensures
        r@ == match v {
            Some(s) => s@,
            None => default@,
        },
{
    match v {
        Some(s) => chars_of(s.as_str()),
        None => chars_of(default),
    }
}

/// The ADR index block: a table with one row per ADR file among
/// `entries` (`(file name, contents)` of each entry of the ADR
/// directory, in directory order; the contents of other entries are not
/// read), ordered by id, entries with the same id in directory order.
/// Each row links the first entry named `<id>-....md`, shows the H1
/// (without a leading `ADR-<id>:`) or the file name, and the `status`
/// frontmatter field or `?`.
pub fn gen_adr_index(entries: &Vec<(String, String)>) -> (r: String)
    ensures
        exists|order: Seq<usize>|
            #![auto]
            crate::order::is_perm(order, adr_rows(file_views(entries@)).len()) && crate::order::sorted_stable(
                row_ids(adr_rows(file_views(entries@))),
                order,
            ) && r@ == adr_table_head() + adr_table_rows(
                adr_rows(file_views(entries@)),
                order,
                entry_names(file_views(entries@)),
            ),
{
    let ghost fv = file_views(entries@);
    let ghost mut rows: Seq<(Seq<char>, Seq<char>, Seq<char>)> = Seq::empty();
    let mut names: Vec<Vec<char>> = Vec::new();
    let mut ids: Vec<Vec<char>> = Vec::new();
    let mut titles: Vec<Vec<char>> = Vec::new();
    let mut statuses: Vec<Vec<char>> = Vec::new();
    let mut i: usize = 0;
    while i < entries.len()
        invariant
            i <= entries.len(),
            fv == file_views(entries@),
            views(names@) == entry_names(fv.take(i as int)),
            rows == adr_rows(fv.take(i as int)),
            ids@.len() == rows.len(),
            titles@.len() == rows.len(),
            statuses@.len() == rows.len(),
            forall|k: int| 0 <= k < rows.len() ==> #[trigger] rows[k] == (ids@[k]@, titles@[k]@, statuses@[k]@),
        decreases entries.len() - i,
    {
        let name = chars_of(entries[i].0.as_str());
        let src = entries[i].1.as_str();
        proof {
            assert(fv.take(i + 1).drop_last() =~= fv.take(i as int));
            assert(fv.take(i + 1).last() == (name@, src@));
        }
        let id = adr_id_chars(&name);
        match id {
            Some(idv) => {
                let status = opt_chars(parse_frontmatter_field(src, "status"), "?");
                let title = match first_h1(src) {
                    Some(t) => chars_of(t.as_str()),
                    None => crate::text::slice_of(&name, 0, name.len()),
                };
                proof {
                    let st = match frontmatter_field(src@, "status"@) {
                        Some(x) => x,
                        None => "?"@,
                    };
                    assert(status@ == st);
                    let tt = match h1_of(src@) {
                        Some(x) => x,
                        None => name@,
                    };
                    assert(title@ == tt);
                    assert(adr_rows(fv.take(i + 1)) == adr_rows(fv.take(i as int)).push((idv@, title@, status@)));
                    rows = rows.push((idv@, title@, status@));
                }
                ids.push(idv);
                titles.push(title);
                statuses.push(status);
            },
            None => {
                assert(adr_rows(fv.take(i + 1)) == adr_rows(fv.take(i as int)));
            },
        }
        let ghost before = views(names@);
        names.push(name);
        proof {
            assert(views(names@) =~= before.push(name@));
            assert(entry_names(fv.take(i + 1)) =~= entry_names(fv.take(i as int)).push(name@));
        }
        i += 1;
    }
    assert(fv.take(entries.len() as int) =~= fv);
    assert(views(ids@) =~= row_ids(rows));
    let order = crate::order::sorted_indices(&ids);
    let ghost nm = entry_names(fv);
    let mut out: Vec<char> = Vec::new();
    crate::text::push_str(&mut out, "| # | Title | Status |\n");
    crate::text::push_str(&mut out, "|---|-------|--------|\n");
    let mut j: usize = 0;
    while j < order.len()
        invariant
            j <= order.len(),
            views(names@) == nm,
            crate::order::is_perm(order@, ids@.len() as nat),
            ids@.len() == rows.len(),
            titles@.len() == rows.len(),
            statuses@.len() == rows.len(),
            forall|k: int| 0 <= k < rows.len() ==> #[trigger] rows[k] == (ids@[k]@, titles@[k]@, statuses@[k]@),
            out@ == adr_table_head() + adr_table_rows(rows, order@.take(j as int), nm),
        decreases order.len() - j,
    {
        let k = order[j];
        let stem = adr_file_of(&names, &ids[k]);
        let shown = display_title_of(&ids[k], &titles[k]);
        let ghost before = out@;
        crate::text::push_str(&mut out, "| [");
        push_all(&mut out, &ids[k]);
        crate::text::push_str(&mut out, "](./");
        push_all(&mut out, &stem);
        crate::text::push_str(&mut out, ".md) | ");
        push_all(&mut out, &shown);
        crate::text::push_str(&mut out, " | ");
        push_all(&mut out, &statuses[k]);
        crate::text::push_str(&mut out, " |\n");
        proof {
            assert(rows[k as int] == (ids@[k as int]@, titles@[k as int]@, statuses@[k as int]@));
            assert(order@.take(j + 1).drop_last() =~= order@.take(j as int));
            assert(order@.take(j + 1).last() == k);
            assert(out@ =~= before + adr_row(rows[k as int], nm));
        }
        j += 1;
    }
    assert(order@.take(order.len() as int) =~= order@);
    string_of(&out)
}

} // verus!

verus! {

/// A package as text: name and optional description.
pub open spec fn package_views(p: Seq<(String, Option<String>)>) -> Seq<(Seq<char>, Option<Seq<char>>)> {
    p.map_values(
        |x: (String, Option<String>)|
            (
                x.0@,
                match x.1 {
                    Some(d) => Some(d@),
                    None => None,
                },
            ),
    )
}

/// The description up to its first `.`, trimmed.
pub open spec fn member_desc(d: Option<Seq<char>>) -> Seq<char> {
    match d {
        Some(s) => trim(crate::text::split_on(s, '.')[0]),
        None => "(no description)"@,
    }
}

pub open spec fn member_line(p: (Seq<char>, Option<Seq<char>>)) -> Seq<char> {
    "- `"@ + p.0 + "` — "@ + member_desc(p.1) + "\n"@
}

/// Lines of `pkgs[order[0]]`, `pkgs[order[1]]`, ...
pub open spec fn member_lines(pkgs: Seq<(Seq<char>, Option<Seq<char>>)>, order: Seq<usize>) -> Seq<char>
    decreases order.len(),
{
    if order.len() == 0 {
        Seq::empty()
    } else {
        member_lines(pkgs, order.drop_last()) + member_line(pkgs[order.last() as int])
    }
}

pub open spec fn package_names(pkgs: Seq<(Seq<char>, Option<Seq<char>>)>) -> Seq<Seq<char>> {
    pkgs.map_values(|p: (Seq<char>, Option<Seq<char>>)| p.0)
}

/// The workspace member block: one line `- `name` — description` per
/// package (`(name, description)` in workspace order), ordered by name,
/// packages of the same name in workspace order. The description is
/// cut at its first `.` and trimmed; a package without one shows
/// `(no description)`.
pub fn gen_workspace_members(packages: &Vec<(String, Option<String>)>) -> (r: String)
    ensures
        exists|order: Seq<usize>|
            #![auto]
            crate::order::is_perm(order, packages@.len()) && crate::order::sorted_stable(
                package_names(package_views(packages@)),
                order,
            ) && r@ == member_lines(package_views(packages@), order),
{
    let ghost pv = package_views(packages@);
    let mut names: Vec<Vec<char>> = Vec::new();
    let mut i: usize = 0;
    while i < packages.len()
        invariant
            i <= packages.len(),
            pv == package_views(packages@),
            views(names@) == package_names(pv).take(i as int),
        decreases packages.len() - i,
    {
        let n = chars_of(packages[i].0.as_str());
        let ghost before = views(names@);
        names.push(n);
        assert(views(names@) =~= before.push(n@));
        assert(package_names(pv).take(i + 1) =~= package_names(pv).take(i as int).push(n@));
        i += 1;
    }
    assert(package_names(pv).take(packages.len() as int) =~= package_names(pv));
    let order = crate::order::sorted_indices(&names);
    let mut out: Vec<char> = Vec::new();
    let mut j: usize = 0;
    while j < order.len()
        invariant
            j <= order.len(),
            pv == package_views(packages@),
            crate::order::is_perm(order@, packages@.len() as nat),
            out@ == member_lines(pv, order@.take(j as int)),
        decreases order.len() - j,
    {
        let k = order[j];
        let ghost before = out@;
        crate::text::push_str(&mut out, "- `");
        let name = chars_of(packages[k].0.as_str());
        push_all(&mut out, &name);
        crate::text::push_str(&mut out, "` — ");
        match &packages[k].1 {
            Some(d) => {
                let dv = chars_of(d.as_str());
                let pieces = crate::text::split_char(&dv, '.');
                proof {
                    crate::text::lemma_split_nonempty(dv@, '.');
                    assert(views(pieces@)[0] == pieces@[0]@);
                }
                let first = trimmed(&pieces[0]);
                push_all(&mut out, &first);
            },
            None => {
                crate::text::push_str(&mut out, "(no description)");
            },
        }
        crate::text::push_str(&mut out, "\n");
        proof {
            assert(order@.take(j + 1).drop_last() =~= order@.take(j as int));
            assert(out@ =~= before + member_line(pv[k as int]));
        }
        j += 1;
    }
    assert(order@.take(order.len() as int) =~= order@);
    string_of(&out)
}

} // verus!

verus! {

/// Number of lines that declare a public item.
pub open spec fn item_lines(ls: Seq<Seq<char>>) -> nat
    decreases ls.len(),
{
    if ls.len() == 0 {
        0
    } else {
        item_lines(ls.drop_last()) + if declares_public_item(trim_start(ls.last())) {
            1nat
        } else {
            0nat
        }
    }
}

/// Rust files, public items and lines over the Rust sources among
/// `files`.
pub open spec fn stats_fold(files: Seq<(Seq<char>, Seq<char>)>) -> (nat, nat, nat)
    decreases files.len(),
{
    if files.len() == 0 {
        (0, 0, 0)
    } else {
        let (f, i, l) = stats_fold(files.drop_last());
        let (path, src) = files.last();
        if has_rs_extension(path) {
            (f + 1, i + item_lines(lines_of(src)), l + lines_of(src).len())
        } else {
            (f, i, l)
        }
    }
}

/// Rust sources of at least 250 lines, with their line counts.
pub open spec fn near_cap(files: Seq<(Seq<char>, Seq<char>)>) -> Seq<(Seq<char>, nat)>
    decreases files.len(),
{
    if files.len() == 0 {
        Seq::empty()
    } else {
        let rest = near_cap(files.drop_last());
        let (path, src) = files.last();
        if has_rs_extension(path) && lines_of(src).len() >= 250 {
            rest.push((path, lines_of(src).len()))
        } else {
            rest
        }
    }
}

pub open spec fn crate_stats_head(name: Seq<char>, f: nat, i: nat, l: nat) -> Seq<char> {
    "**`"@ + name + "` stats:** "@ + crate::text::decimal(f) + " `*.rs` files / "@ + crate::text::decimal(i)
        + " public items / "@ + crate::text::decimal(l) + " lines (under `src/`).\n"@
}

/// Bullets of `e[order[0]]`, `e[order[1]]`, ...
pub open spec fn near_cap_lines(e: Seq<(Seq<char>, nat)>, order: Seq<usize>) -> Seq<char>
    decreases order.len(),
{
    if order.len() == 0 {
        Seq::empty()
    } else {
        let (p, n) = e[order.last() as int];
        near_cap_lines(e, order.drop_last()) + "- `"@ + p + "` ("@ + crate::text::decimal(n) + " lines)\n"@
    }
}

pub open spec fn crate_stats_text(name: Seq<char>, files: Seq<(Seq<char>, Seq<char>)>, order: Seq<usize>) -> Seq<
    char,
> {
    let (f, i, l) = stats_fold(files);
    let near = near_cap(files);
    crate_stats_head(name, f, i, l) + if near.len() == 0 {
        "\nNo files within 50 lines of the 300-line cap.\n"@
    } else {
        "\nFiles approaching the 300-line cap:\n"@ + near_cap_lines(near, order)
    }
}

pub open spec fn no_crate_text() -> Seq<char> {
    "_(no surrounding crate found — `crate_stats` is intended for per-crate AGENTS.md)_\n"@
}

proof fn lemma_stats_prefix(files: Seq<(Seq<char>, Seq<char>)>, k: int)
    requires
        0 <= k <= files.len(),
    ensures
        stats_fold(files.take(k)).2 <= stats_fold(files).2,
    decreases files.len() - k,
{
    if k < files.len() {
        lemma_stats_prefix(files, k + 1);
        assert(files.take(k + 1).drop_last() =~= files.take(k));
    } else {
        assert(files.take(k) =~= files);
    }
}

fn has_rs_ext(path: &str) -> (r: bool)
    ensures
        r == has_rs_extension(path@),
{
    let p = chars_of(path);
    let segs = crate::text::split_char(&p, '/');
    proof {
        crate::text::lemma_split_nonempty(path@, '/');
    }
    let name = &segs[segs.len() - 1];
    assert(views(segs@).last() == name@);
    name.len() > 3 && crate::text::has_suffix(name, ".rs")
}

/// Public-item lines and total lines of one source.
fn file_stats(src: &str) -> (r: (usize, usize))
    ensures
        r.0 == item_lines(lines_of(src@)),
        r.1 == lines_of(src@).len(),
        r.0 <= r.1,
{
    let s = chars_of(src);
    let ls = lines(&s);
    let mut n: usize = 0;
    let mut k: usize = 0;
    while k < ls.len()
        invariant
            k <= ls.len(),
            views(ls@) == lines_of(src@),
            n == item_lines(views(ls@).take(k as int)),
            n <= k,
        decreases ls.len() - k,
    {
        let t = trimmed_start(&ls[k]);
        let ts = string_of(&t);
        let hit = is_public_item(ts.as_str());
        proof {
            assert(views(ls@)[k as int] == ls@[k as int]@);
            assert(views(ls@).take(k + 1).drop_last() =~= views(ls@).take(k as int));
        }
        if hit {
            n += 1;
        }
        k += 1;
    }
    assert(views(ls@).take(ls.len() as int) =~= views(ls@));
    (n, ls.len())
}

} // verus!

verus! {

/// The crate statistics block for the crate that owns the markdown file
/// being rewritten: `crate_name` is that crate's directory name (`None`
/// when no enclosing directory holds a `Cargo.toml` with `[package]`),
/// `files` the `(path relative to the crate, contents)` of the files
/// under its `src/`. Counts Rust files, public-item lines and lines, and
/// lists the files of 250 lines or more, longest first, then by path.
pub fn gen_crate_stats(crate_name: Option<&str>, files: &Vec<(String, String)>) -> (r: String)
    requires
        stats_fold(file_views(files@)).2 <= usize::MAX,
    ensures
        crate_name is None ==> r@ == no_crate_text(),
        crate_name is Some ==> exists|order: Seq<usize>|
            #![auto]
            crate::order::is_perm(order, near_cap(file_views(files@)).len()) && crate::order::ranked(
                near_cap(file_views(files@)),
                order,
            ) && r@ == crate_stats_text(crate_name->0@, file_views(files@), order),
{
    let name = match crate_name {
        None => {
            return string_of(&chars_of("_(no surrounding crate found — `crate_stats` is intended for per-crate AGENTS.md)_\n"));
        },
        Some(n) => n,
    };
    let ghost fv = file_views(files@);
    let mut total_files: usize = 0;
    let mut total_items: usize = 0;
    let mut total_lines: usize = 0;
    let mut near: Vec<(Vec<char>, u64)> = Vec::new();
    let mut i: usize = 0;
    while i < files.len()
        invariant
            i <= files.len(),
            fv == file_views(files@),
            stats_fold(fv).2 <= usize::MAX,
            (total_files as nat, total_items as nat, total_lines as nat) == stats_fold(fv.take(i as int)),
            total_files <= i,
            total_items <= total_lines,
            crate::order::rank_views(near@) == near_cap(fv.take(i as int)),
        decreases files.len() - i,
    {
        proof {
            assert(fv.take(i + 1).drop_last() =~= fv.take(i as int));
            assert(fv.take(i + 1).last() == (files@[i as int].0@, files@[i as int].1@));
            lemma_stats_prefix(fv, i + 1);
        }
        if has_rs_ext(files[i].0.as_str()) {
            let (items, n) = file_stats(files[i].1.as_str());
            total_files = total_files + 1;
            total_items = total_items + items;
            total_lines = total_lines + n;
            if n >= 250 {
                let path = chars_of(files[i].0.as_str());
                let ghost before = crate::order::rank_views(near@);
                near.push((path, n as u64));
                assert(crate::order::rank_views(near@) =~= before.push((path@, n as nat)));
            }
        }
        i += 1;
    }
    assert(fv.take(files.len() as int) =~= fv);
    let mut out: Vec<char> = Vec::new();
    crate::text::push_str(&mut out, "**`");
    crate::text::push_str(&mut out, name);
    crate::text::push_str(&mut out, "` stats:** ");
    crate::text::push_decimal(&mut out, total_files as u64);
    crate::text::push_str(&mut out, " `*.rs` files / ");
    crate::text::push_decimal(&mut out, total_items as u64);
    crate::text::push_str(&mut out, " public items / ");
    crate::text::push_decimal(&mut out, total_lines as u64);
    crate::text::push_str(&mut out, " lines (under `src/`).\n");
    let order = crate::order::rank_order(&near);
    let ghost e = crate::order::rank_views(near@);
    if near.len() == 0 {
        crate::text::push_str(&mut out, "\nNo files within 50 lines of the 300-line cap.\n");
    } else {
        crate::text::push_str(&mut out, "\nFiles approaching the 300-line cap:\n");
        let ghost head = out@;
        let mut j: usize = 0;
        while j < order.len()
            invariant
                j <= order.len(),
                e == crate::order::rank_views(near@),
                crate::order::is_perm(order@, near@.len() as nat),
                out@ == head + near_cap_lines(e, order@.take(j as int)),
            decreases order.len() - j,
        {
            let k = order[j];
            let ghost before = out@;
            crate::text::push_str(&mut out, "- `");
            push_all(&mut out, &near[k].0);
            crate::text::push_str(&mut out, "` (");
            crate::text::push_decimal(&mut out, near[k].1);
            crate::text::push_str(&mut out, " lines)\n");
            proof {
                assert(e[k as int] == (near@[k as int].0@, near@[k as int].1 as nat));
                assert(order@.take(j + 1).drop_last() =~= order@.take(j as int));
            }
            j += 1;
        }
        assert(order@.take(order.len() as int) =~= order@);
    }
    string_of(&out)
}

} // verus!
