//! Line-level scanners of the body-drift check: which markdown lines
//! are live (outside ``` fences), and which `convergio-*`
//! identifiers and repo paths a line mentions.
use vstd::prelude::*;
use crate::text::{chars_of, has_char, contains, lines, lines_of, matches_at, occurs_at, slice_of, starts_with, trim_start, trimmed_start, views, is_alnum, is_digit, is_lower};

verus! {

/// The fence marker.
pub open spec fn fence() -> Seq<char> {
    seq!['`', '`', '`']
}

/// The identifier needle.
pub open spec fn needle() -> Seq<char> {
    seq!['c', 'o', 'n', 'v', 'e', 'r', 'g', 'i', 'o', '-']
}

/// A line that opens or closes a fenced block.
pub open spec fn is_fence_line(line: Seq<char>) -> bool {
    starts_with(trim_start(line), fence())
}

/// Lines of `lines` after the first `n`, starting in fence state `in_fence`,
/// that are live. Each fence line flips the state and is dropped.
pub open spec fn live_from(lines: Seq<Seq<char>>, n: int, in_fence: bool) -> Seq<Seq<char>>
    decreases lines.len() - n,
{
    if n >= lines.len() || n < 0 {
        Seq::empty()
    } else if is_fence_line(lines[n]) {
        live_from(lines, n + 1, !in_fence)
    } else if in_fence {
        live_from(lines, n + 1, in_fence)
    } else {
        seq![lines[n]] + live_from(lines, n + 1, in_fence)
    }
}

/// The lines of `body` that are not inside a fenced code block.
pub open spec fn live_lines_of(body: Seq<char>) -> Seq<Seq<char>> {
    live_from(lines_of(body), 0, false)
}

/// `s` with every backtick removed.
pub open spec fn strip_ticks(s: Seq<char>) -> Seq<char> {
    s.filter(|c: char| c != '`')
}

/// A character that may not stand right before an identifier.
pub open spec fn ident_blocker(c: char) -> bool {
    is_alnum(c) || c == '-' || c == '_' || c == '/'
}

/// A character that continues an identifier.
pub open spec fn ident_char(c: char) -> bool {
    is_lower(c) || is_digit(c) || c == '-'
}

/// End of the run of identifier characters that starts at `j`.
pub open spec fn ident_end(s: Seq<char>, j: int) -> int
    decreases s.len() - j,
{
    if j < s.len() && j >= 0 && ident_char(s[j]) {
        ident_end(s, j + 1)
    } else {
        j
    }
}

/// Identifiers found scanning `s` from position `i` on.
pub open spec fn idents_from(s: Seq<char>, i: int) -> Seq<Seq<char>>
    decreases s.len() - i,
{
    if i < 0 || i + 10 > s.len() {
        Seq::empty()
    } else if !occurs_at(s, needle(), i) {
        idents_from(s, i + 1)
    } else if i > 0 && ident_blocker(s[i - 1]) {
        idents_from(s, i + 1)
    } else {
        let j = ident_end(s, i + 10);
        proof {
            lemma_ident_end(s, i + 10);
        }
        if j <= i {
            Seq::empty()
        } else if j < s.len() && s[j] == '/' {
            idents_from(s, j)
        } else {
            let end = if s[j - 1] == '-' { j - 1 } else { j };
            let found: Seq<Seq<char>> = if end > i + 10 {
                seq![s.subrange(i, end)]
            } else {
                Seq::empty()
            };
            found + idents_from(s, j)
        }
    }
}

/// `convergio-*` identifiers mentioned in a line.
pub open spec fn crate_idents_of(line: Seq<char>) -> Seq<Seq<char>> {
    idents_from(strip_ticks(line), 0)
}

/// Top-level directories that anchor a repo path.
pub open spec fn path_prefix_at(s: Seq<char>, i: int) -> bool {
    ||| occurs_at(s, seq!['c', 'r', 'a', 't', 'e', 's', '/'], i)
    ||| occurs_at(s, seq!['d', 'o', 'c', 's', '/'], i)
    ||| occurs_at(s, seq!['s', 'c', 'r', 'i', 'p', 't', 's', '/'], i)
    ||| occurs_at(s, seq!['e', 'x', 'a', 'm', 'p', 'l', 'e', 's', '/'], i)
}

/// A character that may not stand right before a repo path.
pub open spec fn path_blocker(c: char) -> bool {
    is_alnum(c) || c == '/' || c == '_'
}

/// A character that continues a repo path (globs included).
pub open spec fn path_char(c: char) -> bool {
    is_alnum(c) || c == '/' || c == '.' || c == '_' || c == '-' || c == '*' || c == '?'
}

/// End of the run of path characters that starts at `j`.
pub open spec fn path_end(s: Seq<char>, j: int) -> int
    decreases s.len() - j,
{
    if j < s.len() && j >= 0 && path_char(s[j]) {
        path_end(s, j + 1)
    } else {
        j
    }
}

/// Repo paths found scanning `s` from position `i` on.
pub open spec fn paths_from(s: Seq<char>, i: int) -> Seq<Seq<char>>
    decreases s.len() - i,
{
    if i < 0 || i >= s.len() {
        Seq::empty()
    } else if path_prefix_at(s, i) && !(i > 0 && path_blocker(s[i - 1])) {
        let j = path_end(s, i);
        proof {
            lemma_path_end(s, i);
        }
        if j <= i {
            Seq::empty()
        } else {
            let p = s.subrange(i, j);
            let found: Seq<Seq<char>> = if p.contains('/') && p.last() != '/' {
                seq![p]
            } else {
                Seq::empty()
            };
            found + paths_from(s, j)
        }
    } else {
        paths_from(s, i + 1)
    }
}

/// Repo-relative paths mentioned in a line.
pub open spec fn repo_paths_of(line: Seq<char>) -> Seq<Seq<char>> {
    paths_from(strip_ticks(line), 0)
}

pub proof fn lemma_ident_end(s: Seq<char>, j: int)
    requires
        0 <= j <= s.len(),
    ensures
        j <= ident_end(s, j) <= s.len(),
        forall|k: int| j <= k < ident_end(s, j) ==> ident_char(s[k]),
        ident_end(s, j) < s.len() ==> !ident_char(s[ident_end(s, j)]),
    decreases s.len() - j,
{
    if j < s.len() && ident_char(s[j]) {
        lemma_ident_end(s, j + 1);
    }
}

pub proof fn lemma_path_end(s: Seq<char>, j: int)
    requires
        0 <= j <= s.len(),
    ensures
        j <= path_end(s, j) <= s.len(),
        forall|k: int| j <= k < path_end(s, j) ==> path_char(s[k]),
        path_end(s, j) < s.len() ==> !path_char(s[path_end(s, j)]),
    decreases s.len() - j,
{
    if j < s.len() && path_char(s[j]) {
        lemma_path_end(s, j + 1);
    }
}

/// `line` with its backticks removed.
pub fn strip_inline_code(line: &Vec<char>) -> (r: Vec<char>)
    ensures
        r@ == strip_ticks(line@),
{
    let mut r: Vec<char> = Vec::new();
    let mut i: usize = 0;
    while i < line.len()
        invariant
            i <= line.len(),
            r@ == strip_ticks(line@.take(i as int)),
        decreases line.len() - i,
    {
        proof {
            assert(line@.take(i + 1) == line@.take(i as int).push(line@[i as int]));
            line@.take(i as int).lemma_filter_push(line@[i as int], |c: char| c != '`');
        }
        if line[i] != '`' {
            r.push(line[i]);
        }
        i += 1;
    }
    assert(line@.take(line.len() as int) == line@);
    r
}

fn is_ident_blocker(c: char) -> (r: bool)
    ensures
        r == ident_blocker(c),
{
    ('0' <= c && c <= '9') || ('a' <= c && c <= 'z') || ('A' <= c && c <= 'Z') || c == '-' || c
        == '_' || c == '/'
}

fn is_ident_char(c: char) -> (r: bool)
    ensures
        r == ident_char(c),
{
    ('a' <= c && c <= 'z') || ('0' <= c && c <= '9') || c == '-'
}

fn is_path_blocker(c: char) -> (r: bool)
    ensures
        r == path_blocker(c),
{
    ('0' <= c && c <= '9') || ('a' <= c && c <= 'z') || ('A' <= c && c <= 'Z') || c == '/' || c
        == '_'
}

fn is_path_char(c: char) -> (r: bool)
    ensures
        r == path_char(c),
{
    ('0' <= c && c <= '9') || ('a' <= c && c <= 'z') || ('A' <= c && c <= 'Z') || c == '/' || c
        == '.' || c == '_' || c == '-' || c == '*' || c == '?'
}

/// Finds `convergio-foo` style identifiers in `line`, ignoring
/// backticks, substrings of longer words and directory components.
pub fn find_crate_idents(line: &Vec<char>) -> (r: Vec<Vec<char>>)
    ensures
        views(r@) == crate_idents_of(line@),
{
    let s = strip_inline_code(line);
    let nd = chars_of("convergio-");
    proof {
        reveal_strlit("convergio-");
        assert(nd@ =~= needle());
    }
    let mut out: Vec<Vec<char>> = Vec::new();
    let mut i: usize = 0;
    while i < s.len() && s.len() - i >= 10
        invariant
            s@ == strip_ticks(line@),
            nd@ == needle(),
            i <= s.len(),
            views(out@) + idents_from(s@, i as int) == crate_idents_of(line@),
        decreases s.len() - i,
    {
        let ghost before = views(out@);
        if !matches_at(&s, &nd, i) {
            i += 1;
        } else if i > 0 && is_ident_blocker(s[i - 1]) {
            i += 1;
        } else {
            let mut j = i + 10;
            while j < s.len() && is_ident_char(s[j])
                invariant
                    i + 10 <= j <= s.len(),
                    ident_end(s@, i + 10) == ident_end(s@, j as int),
                decreases s.len() - j,
            {
                j += 1;
            }
            proof {
                assert(ident_end(s@, j as int) == j);
            }
            if j < s.len() && s[j] == '/' {
                i = j;
            } else {
                let end = if s[j - 1] == '-' {
                    j - 1
                } else {
                    j
                };
                if end > i + 10 {
                    let id = slice_of(&s, i, end);
                    out.push(id);
                    proof {
                        assert(views(out@) =~= before.push(id@));
                        assert(views(out@) + idents_from(s@, j as int) =~= before + (seq![id@]
                            + idents_from(s@, j as int)));
                    }
                } else {
                    proof {
                        assert(Seq::<Seq<char>>::empty() + idents_from(s@, j as int) =~= idents_from(
                            s@,
                            j as int,
                        ));
                    }
                }
                i = j;
            }
        }
    }
    proof {
        assert(idents_from(s@, i as int) == Seq::<Seq<char>>::empty());
        assert(views(out@) + Seq::<Seq<char>>::empty() =~= views(out@));
    }
    out
}

fn prefix_at(s: &Vec<char>, i: usize) -> (r: bool)
    ensures
        r == path_prefix_at(s@, i as int),
{
    let a = chars_of("crates/");
    let b = chars_of("docs/");
    let c = chars_of("scripts/");
    let d = chars_of("examples/");
    proof {
        reveal_strlit("crates/");
        reveal_strlit("docs/");
        reveal_strlit("scripts/");
        reveal_strlit("examples/");
        assert(a@ =~= seq!['c', 'r', 'a', 't', 'e', 's', '/']);
        assert(b@ =~= seq!['d', 'o', 'c', 's', '/']);
        assert(c@ =~= seq!['s', 'c', 'r', 'i', 'p', 't', 's', '/']);
        assert(d@ =~= seq!['e', 'x', 'a', 'm', 'p', 'l', 'e', 's', '/']);
    }
    matches_at(s, &a, i) || matches_at(s, &b, i) || matches_at(s, &c, i) || matches_at(s, &d, i)
}

/// Finds repo-relative path references anchored on `crates/`, `docs/`,
/// `scripts/` or `examples/`.
pub fn find_repo_paths(line: &Vec<char>) -> (r: Vec<Vec<char>>)
    ensures
        views(r@) == repo_paths_of(line@),
{
    let s = strip_inline_code(line);
    let mut out: Vec<Vec<char>> = Vec::new();
    let mut i: usize = 0;
    while i < s.len()
        invariant
            s@ == strip_ticks(line@),
            i <= s.len(),
            views(out@) + paths_from(s@, i as int) == repo_paths_of(line@),
        decreases s.len() - i,
    {
        let ghost before = views(out@);
        if prefix_at(&s, i) && !(i > 0 && is_path_blocker(s[i - 1])) {
            let mut j = i;
            while j < s.len() && is_path_char(s[j])
                invariant
                    i <= j <= s.len(),
                    path_end(s@, i as int) == path_end(s@, j as int),
                decreases s.len() - j,
            {
                j += 1;
            }
            proof {
                assert(path_end(s@, j as int) == j);
                assert(s@[i as int] == s@.subrange(i as int, i as int + 4)[0]);
            }
            if j <= i {
                proof {
                    assert(path_char(s@[i as int]));
                }
                i = s.len();
            } else {
                let p = slice_of(&s, i, j);
                if has_char(&p, '/') && p[p.len() - 1] != '/' {
                    out.push(p);
                    proof {
                        assert(views(out@) =~= before.push(p@));
                        assert(views(out@) + paths_from(s@, j as int) =~= before + (seq![p@]
                            + paths_from(s@, j as int)));
                    }
                } else {
                    proof {
                        assert(Seq::<Seq<char>>::empty() + paths_from(s@, j as int) =~= paths_from(
                            s@,
                            j as int,
                        ));
                    }
                }
                i = j;
            }
        } else {
            i += 1;
        }
    }
    proof {
        assert(views(out@) + Seq::<Seq<char>>::empty() =~= views(out@));
    }
    out
}

/// Lines of `body` outside fenced code blocks.
pub fn live_lines(body: &Vec<char>) -> (r: Vec<Vec<char>>)
    ensures
        views(r@) == live_lines_of(body@),
{
    let ls = lines(body);
    let fc = chars_of("```");
    proof {
        reveal_strlit("```");
        assert(fc@ =~= fence());
    }
    let mut out: Vec<Vec<char>> = Vec::new();
    let mut in_fence = false;
    let mut k: usize = 0;
    while k < ls.len()
        invariant
            k <= ls.len(),
            views(ls@) == lines_of(body@),
            fc@ == fence(),
            views(out@) + live_from(views(ls@), k as int, in_fence) == live_lines_of(body@),
        decreases ls.len() - k,
    {
        let ghost before = views(out@);
        let line = &ls[k];
        assert(views(ls@)[k as int] == line@);
        let t = trimmed_start(line);
        if matches_at(&t, &fc, 0) {
            in_fence = !in_fence;
        } else if !in_fence {
            out.push(line.clone());
            proof {
                assert(views(out@) =~= before.push(line@));
                assert(views(out@) + live_from(views(ls@), k + 1, in_fence) =~= before + (seq![
                    line@] + live_from(views(ls@), k + 1, in_fence)));
            }
        }
        k += 1;
    }
    proof {
        assert(views(out@) + Seq::<Seq<char>>::empty() =~= views(out@));
    }
    out
}

} // verus!
