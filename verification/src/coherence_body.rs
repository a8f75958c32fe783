//! Body-text drift detector: unresolved `convergio-*` identifiers and
//! repo paths mentioned in the live (non-fenced) text of a markdown
//! file.
use vstd::prelude::*;
use crate::coherence_scan::{crate_idents_of, find_crate_idents, find_repo_paths, live_lines, live_lines_of, repo_paths_of};
use crate::text::{eq_str, chars_of, contains_chars, contains_string, ends_with, has_char, has_suffix, list_has, push_all, push_str, string_of, views, is_upper};

verus! {

/// One unresolved body-text reference.
pub struct BodyViolation {
    pub file: String,
    pub kind: &'static str,
    pub detail: String,
}

/// What a violation says, as text.
pub struct ViolationView {
    pub file: Seq<char>,
    pub kind: Seq<char>,
    pub detail: Seq<char>,
}

impl BodyViolation {
    pub open spec fn view(&self) -> ViolationView {
        ViolationView { file: self.file@, kind: self.kind@, detail: self.detail@ }
    }
}

pub open spec fn violation_views(v: Seq<BodyViolation>) -> Seq<ViolationView> {
    v.map_values(|x: BodyViolation| x.view())
}

/// Markdown files skipped entirely (matched as a suffix of the path).
pub open spec fn skipped_file(f: Seq<char>) -> bool {
    ||| ends_with(f, "CHANGELOG.md"@)
    ||| ends_with(f, "LICENSE"@)
    ||| ends_with(f, "SECURITY.md"@)
    ||| ends_with(f, "docs/adr/0000-template.md"@)
    ||| ends_with(f, "0000-template.md"@)
}

/// `convergio-*` names that are legitimately mentioned although they are
/// not workspace members.
pub open spec fn allowed_ident(x: Seq<char>) -> bool {
    ||| x == "convergio-local"@
    ||| x == "convergio-local-public-readiness"@
    ||| x == "convergio-worktree"@
    ||| x == "convergio-feature"@
    ||| x == "convergio-audit"@
    ||| x == "convergio-state"@
    ||| x == "convergio-coordination"@
    ||| x == "convergio-acp"@
    ||| x == "convergio-cap"@
    ||| x == "convergio-migrations"@
    ||| x == "convergio-notary"@
    ||| x == "convergio-darwin-arm64"@
    ||| x == "convergio-darwin-arm64-signed"@
    ||| x == "convergio-edu"@
    ||| x == "convergio-edu-v1"@
    ||| x == "convergio-research"@
    ||| x == "convergio-thinking-bundles"@
}

/// Trailing punctuation dropped from a path before it is looked up.
pub open spec fn trailing_punct(c: char) -> bool {
    c == ')' || c == ']' || c == '.' || c == ',' || c == ';' || c == ':' || c == '!' || c == '?'
}

/// `str::trim_end_matches` with [`trailing_punct`].
pub open spec fn strip_punct(s: Seq<char>) -> Seq<char>
    decreases s.len(),
{
    if s.len() > 0 && trailing_punct(s.last()) {
        strip_punct(s.drop_last())
    } else {
        s
    }
}

pub open spec fn has_upper(s: Seq<char>) -> bool {
    exists|i: int| 0 <= i < s.len() && is_upper(#[trigger] s[i])
}

pub open spec fn crate_violation(file: Seq<char>, x: Seq<char>) -> ViolationView {
    ViolationView {
        file,
        kind: "unknown_crate_reference"@,
        detail: "body mentions '"@ + x + "' which is not in workspace.members"@,
    }
}

pub open spec fn path_violation(file: Seq<char>, p: Seq<char>) -> ViolationView {
    ViolationView {
        file,
        kind: "missing_path_reference"@,
        detail: "body references '"@ + p + "' which does not exist on disk"@,
    }
}

/// Scan state: violations so far, identifiers and paths already seen.
pub struct ScanState {
    pub out: Seq<ViolationView>,
    pub seen_crates: Seq<Seq<char>>,
    pub seen_paths: Seq<Seq<char>>,
}

pub open spec fn ident_step(file: Seq<char>, crates: Seq<String>, st: ScanState, x: Seq<char>) -> ScanState {
    if list_has(crates, x) || allowed_ident(x) || st.seen_crates.contains(x) {
        st
    } else {
        ScanState {
            out: st.out.push(crate_violation(file, x)),
            seen_crates: st.seen_crates.push(x),
            seen_paths: st.seen_paths,
        }
    }
}

pub open spec fn path_step(file: Seq<char>, existing: Seq<String>, st: ScanState, p: Seq<char>) -> ScanState {
    if has_upper(p) || st.seen_paths.contains(p) {
        st
    } else {
        let st2 = ScanState { out: st.out, seen_crates: st.seen_crates, seen_paths: st.seen_paths.push(p) };
        let q = strip_punct(p);
        if list_has(existing, q) || q.contains('*') {
            st2
        } else {
            ScanState { out: st2.out.push(path_violation(file, q)), ..st2 }
        }
    }
}

/// Folds the first `n` identifiers of `xs` into `st`.
pub open spec fn idents_fold(file: Seq<char>, crates: Seq<String>, st: ScanState, xs: Seq<Seq<char>>, n: int) -> ScanState
    decreases n,
{
    if n <= 0 {
        st
    } else {
        ident_step(file, crates, idents_fold(file, crates, st, xs, n - 1), xs[n - 1])
    }
}

/// Folds the first `n` paths of `ps` into `st`.
pub open spec fn paths_fold(file: Seq<char>, existing: Seq<String>, st: ScanState, ps: Seq<Seq<char>>, n: int) -> ScanState
    decreases n,
{
    if n <= 0 {
        st
    } else {
        path_step(file, existing, paths_fold(file, existing, st, ps, n - 1), ps[n - 1])
    }
}

/// One live line: its identifiers first, then its paths.
pub open spec fn line_step(file: Seq<char>, crates: Seq<String>, existing: Seq<String>, st: ScanState, line: Seq<char>) -> ScanState {
    let ids = crate_idents_of(line);
    let ps = repo_paths_of(line);
    let st1 = idents_fold(file, crates, st, ids, ids.len() as int);
    paths_fold(file, existing, st1, ps, ps.len() as int)
}

/// Folds the first `n` lines.
pub open spec fn lines_fold(file: Seq<char>, crates: Seq<String>, existing: Seq<String>, lines: Seq<Seq<char>>, n: int) -> ScanState
    decreases n,
{
    if n <= 0 {
        ScanState { out: Seq::empty(), seen_crates: Seq::empty(), seen_paths: Seq::empty() }
    } else {
        line_step(file, crates, existing, lines_fold(file, crates, existing, lines, n - 1), lines[n - 1])
    }
}

/// Violations of one markdown body: every identifier that is neither a
/// workspace member nor allow-listed (once per file), and every path
/// without an uppercase letter whose punctuation-stripped form is not an
/// existing repo path and is not a glob (once per raw path).
pub open spec fn body_violations(file: Seq<char>, body: Seq<char>, crates: Seq<String>, existing: Seq<String>) -> Seq<ViolationView> {
    if skipped_file(file) {
        Seq::empty()
    } else {
        let ls = live_lines_of(body);
        lines_fold(file, crates, existing, ls, ls.len() as int).out
    }
}

fn is_skipped(f: &Vec<char>) -> (r: bool)
    ensures
        r == skipped_file(f@),
{
    has_suffix(f, "CHANGELOG.md") || has_suffix(f, "LICENSE") || has_suffix(f, "SECURITY.md")
        || has_suffix(f, "docs/adr/0000-template.md") || has_suffix(f, "0000-template.md")
}

fn is_allowed(x: &Vec<char>) -> (r: bool)
    ensures
        r == allowed_ident(x@),
{
    eq_str(x, "convergio-local") || eq_str(x, "convergio-local-public-readiness") || eq_str(
        x,
        "convergio-worktree",
    ) || eq_str(x, "convergio-feature") || eq_str(x, "convergio-audit") || eq_str(
        x,
        "convergio-state",
    ) || eq_str(x, "convergio-coordination") || eq_str(x, "convergio-acp") || eq_str(
        x,
        "convergio-cap",
    ) || eq_str(x, "convergio-migrations") || eq_str(x, "convergio-notary") || eq_str(
        x,
        "convergio-darwin-arm64",
    ) || eq_str(x, "convergio-darwin-arm64-signed") || eq_str(x, "convergio-edu") || eq_str(
        x,
        "convergio-edu-v1",
    ) || eq_str(x, "convergio-research") || eq_str(x, "convergio-thinking-bundles")
}

fn any_upper(s: &Vec<char>) -> (r: bool)
    ensures
        r == has_upper(s@),
{
    let mut i: usize = 0;
    while i < s.len()
        invariant
            i <= s.len(),
            forall|k: int| 0 <= k < i ==> !is_upper(s@[k]),
        decreases s.len() - i,
    {
        if 'A' <= s[i] && s[i] <= 'Z' {
            return true;
        }
        i += 1;
    }
    false
}

fn is_punct(c: char) -> (r: bool)
    ensures
        r == trailing_punct(c),
{
    c == ')' || c == ']' || c == '.' || c == ',' || c == ';' || c == ':' || c == '!' || c == '?'
}

fn strip_trailing(s: &Vec<char>) -> (r: Vec<char>)
    ensures
        r@ == strip_punct(s@),
{
    let mut r = s.clone();
    assert(r@ == s@);
    while r.len() > 0 && is_punct(r[r.len() - 1])
        invariant
            strip_punct(r@) == strip_punct(s@),
        decreases r.len(),
    {
        r.pop();
    }
    r
}

fn make_violation(file: &Vec<char>, kind: &'static str, head: &str, x: &Vec<char>, tail: &str) -> (v: BodyViolation)
    ensures
        v.view() == (ViolationView { file: file@, kind: kind@, detail: head@ + x@ + tail@ }),
{
    let mut d: Vec<char> = Vec::new();
    push_str(&mut d, head);
    push_all(&mut d, x);
    push_str(&mut d, tail);
    BodyViolation { file: string_of(file), kind, detail: string_of(&d) }
}

/// Scans one markdown body. `crates` lists the workspace members and
/// `existing` the repo-relative paths that exist on disk.
pub fn scan_body(rel_file: &str, body: &str, crates: &Vec<String>, existing: &Vec<String>) -> (r: Vec<BodyViolation>)
    ensures
        violation_views(r@) == body_violations(rel_file@, body@, crates@, existing@),
{
    let file = chars_of(rel_file);
    if is_skipped(&file) {
        let r: Vec<BodyViolation> = Vec::new();
        assert(violation_views(r@) =~= Seq::<ViolationView>::empty());
        return r;
    }
    let b = chars_of(body);
    let ls = live_lines(&b);
    let mut out: Vec<BodyViolation> = Vec::new();
    let mut seen_crates: Vec<Vec<char>> = Vec::new();
    let mut seen_paths: Vec<Vec<char>> = Vec::new();
    let mut k: usize = 0;
    proof {
        assert(violation_views(out@) =~= Seq::<ViolationView>::empty());
        assert(views(seen_crates@) =~= Seq::<Seq<char>>::empty());
        assert(views(seen_paths@) =~= Seq::<Seq<char>>::empty());
    }
    while k < ls.len()
        invariant
            k <= ls.len(),
            file@ == rel_file@,
            views(ls@) == live_lines_of(body@),
            lines_fold(file@, crates@, existing@, views(ls@), k as int) == (ScanState {
                out: violation_views(out@),
                seen_crates: views(seen_crates@),
                seen_paths: views(seen_paths@),
            }),
        decreases ls.len() - k,
    {
        let line = &ls[k];
        assert(views(ls@)[k as int] == line@);
        let ghost st0 = lines_fold(file@, crates@, existing@, views(ls@), k as int);
        let ids = find_crate_idents(line);
        let mut i: usize = 0;
        while i < ids.len()
            invariant
                i <= ids.len(),
                file@ == rel_file@,
                views(ids@) == crate_idents_of(line@),
                idents_fold(file@, crates@, st0, views(ids@), i as int) == (ScanState {
                    out: violation_views(out@),
                    seen_crates: views(seen_crates@),
                    seen_paths: views(seen_paths@),
                }),
            decreases ids.len() - i,
        {
            let x = &ids[i];
            assert(views(ids@)[i as int] == x@);
            if contains_string(crates, x) || is_allowed(x) || contains_chars(&seen_crates, x) {
            } else {
                let v = make_violation(
                    &file,
                    "unknown_crate_reference",
                    "body mentions '",
                    x,
                    "' which is not in workspace.members",
                );
                let ghost o = violation_views(out@);
                let ghost sc = views(seen_crates@);
                out.push(v);
                seen_crates.push(x.clone());
                proof {
                    assert(violation_views(out@) =~= o.push(v.view()));
                    assert(views(seen_crates@) =~= sc.push(x@));
                }
            }
            i += 1;
        }
        let ghost st1 = idents_fold(file@, crates@, st0, views(ids@), ids.len() as int);
        let ps = find_repo_paths(line);
        let mut j: usize = 0;
        while j < ps.len()
            invariant
                j <= ps.len(),
                file@ == rel_file@,
                views(ps@) == repo_paths_of(line@),
                paths_fold(file@, existing@, st1, views(ps@), j as int) == (ScanState {
                    out: violation_views(out@),
                    seen_crates: views(seen_crates@),
                    seen_paths: views(seen_paths@),
                }),
            decreases ps.len() - j,
        {
            let p = &ps[j];
            assert(views(ps@)[j as int] == p@);
            if any_upper(p) || contains_chars(&seen_paths, p) {
            } else {
                let ghost sp = views(seen_paths@);
                seen_paths.push(p.clone());
                proof {
                    assert(views(seen_paths@) =~= sp.push(p@));
                }
                let q = strip_trailing(p);
                if contains_string(existing, &q) || has_char(&q, '*') {
                } else {
                    let v = make_violation(
                        &file,
                        "missing_path_reference",
                        "body references '",
                        &q,
                        "' which does not exist on disk",
                    );
                    let ghost o = violation_views(out@);
                    out.push(v);
                    proof {
                        assert(violation_views(out@) =~= o.push(v.view()));
                    }
                }
            }
            j += 1;
        }
        k += 1;
    }
    out
}

} // verus!

verus! {

pub open spec fn is_crate_violation(v: ViolationView) -> bool {
    v.kind == "unknown_crate_reference"@
}

/// The unknown-crate violations so far are one per identifier seen, in
/// order, and no identifier is seen twice.
pub open spec fn crates_once(file: Seq<char>, st: ScanState) -> bool {
    &&& st.out.filter(|v: ViolationView| is_crate_violation(v)) == st.seen_crates.map_values(
        |x: Seq<char>| crate_violation(file, x),
    )
    &&& st.seen_crates.no_duplicates()
}

proof fn lemma_ident_step(file: Seq<char>, crates: Seq<String>, st: ScanState, x: Seq<char>)
    requires
        crates_once(file, st),
    ensures
        crates_once(file, ident_step(file, crates, st, x)),
{
    if !(list_has(crates, x) || allowed_ident(x) || st.seen_crates.contains(x)) {
        let v = crate_violation(file, x);
        st.out.lemma_filter_push(v, |v: ViolationView| is_crate_violation(v));
        assert(st.seen_crates.push(x).map_values(|y: Seq<char>| crate_violation(file, y)) =~= st.seen_crates.map_values(
            |y: Seq<char>| crate_violation(file, y),
        ).push(v));
    }
}

proof fn lemma_idents_fold(file: Seq<char>, crates: Seq<String>, st: ScanState, xs: Seq<Seq<char>>, n: int)
    requires
        crates_once(file, st),
    ensures
        crates_once(file, idents_fold(file, crates, st, xs, n)),
    decreases n,
{
    if n > 0 {
        lemma_idents_fold(file, crates, st, xs, n - 1);
        lemma_ident_step(file, crates, idents_fold(file, crates, st, xs, n - 1), xs[n - 1]);
    }
}

proof fn lemma_path_step(file: Seq<char>, existing: Seq<String>, st: ScanState, p: Seq<char>)
    requires
        crates_once(file, st),
    ensures
        crates_once(file, path_step(file, existing, st, p)),
        path_step(file, existing, st, p).seen_crates == st.seen_crates,
{
    let q = strip_punct(p);
    let v = path_violation(file, q);
    reveal_strlit("unknown_crate_reference");
    reveal_strlit("missing_path_reference");
    assert("missing_path_reference"@.len() == 22);
    assert("unknown_crate_reference"@.len() == 23);
    assert(v.kind == "missing_path_reference"@);
    assert(!is_crate_violation(v));
    st.out.lemma_filter_push(v, |v: ViolationView| is_crate_violation(v));
}

proof fn lemma_paths_fold(file: Seq<char>, existing: Seq<String>, st: ScanState, ps: Seq<Seq<char>>, n: int)
    requires
        crates_once(file, st),
    ensures
        crates_once(file, paths_fold(file, existing, st, ps, n)),
    decreases n,
{
    if n > 0 {
        lemma_paths_fold(file, existing, st, ps, n - 1);
        lemma_path_step(file, existing, paths_fold(file, existing, st, ps, n - 1), ps[n - 1]);
    }
}

proof fn lemma_lines_fold(file: Seq<char>, crates: Seq<String>, existing: Seq<String>, lines: Seq<Seq<char>>, n: int)
    ensures
        crates_once(file, lines_fold(file, crates, existing, lines, n)),
    decreases n,
{
    if n <= 0 {
        let st = lines_fold(file, crates, existing, lines, n);
        assert(st.out.filter(|v: ViolationView| is_crate_violation(v)) =~= Seq::<ViolationView>::empty());
        assert(st.seen_crates.map_values(|x: Seq<char>| crate_violation(file, x)) =~= Seq::<ViolationView>::empty());
    } else {
        lemma_lines_fold(file, crates, existing, lines, n - 1);
        let st = lines_fold(file, crates, existing, lines, n - 1);
        let line = lines[n - 1];
        let ids = crate_idents_of(line);
        let ps = repo_paths_of(line);
        lemma_idents_fold(file, crates, st, ids, ids.len() as int);
        lemma_paths_fold(file, existing, idents_fold(file, crates, st, ids, ids.len() as int), ps, ps.len() as int);
    }
}

proof fn lemma_crate_violation_injective(file: Seq<char>, x: Seq<char>, y: Seq<char>)
    requires
        crate_violation(file, x) == crate_violation(file, y),
    ensures
        x == y,
{
    let p = "body mentions '"@;
    let s = "' which is not in workspace.members"@;
    let dx = p + x + s;
    let dy = p + y + s;
    assert(dx == dy);
    assert(x.len() == y.len());
    assert(dx.subrange(p.len() as int, (p.len() + x.len()) as int) =~= x);
    assert(dy.subrange(p.len() as int, (p.len() + y.len()) as int) =~= y);
}

/// A file reports each unknown crate identifier at most once: its
/// unknown-crate violations are pairwise distinct.
pub proof fn law_unknown_crate_reported_once(file: Seq<char>, body: Seq<char>, crates: Seq<String>, existing: Seq<String>)
    ensures
        body_violations(file, body, crates, existing).filter(|v: ViolationView| is_crate_violation(v)).no_duplicates(),
{
    if skipped_file(file) {
        assert(body_violations(file, body, crates, existing).filter(|v: ViolationView| is_crate_violation(v))
            =~= Seq::<ViolationView>::empty());
    } else {
        let ls = live_lines_of(body);
        lemma_lines_fold(file, crates, existing, ls, ls.len() as int);
        let st = lines_fold(file, crates, existing, ls, ls.len() as int);
        let m = st.seen_crates.map_values(|x: Seq<char>| crate_violation(file, x));
        assert forall|i: int, j: int| 0 <= i < m.len() && 0 <= j < m.len() && i != j implies m[i] != m[j] by {
            if m[i] == m[j] {
                lemma_crate_violation_injective(file, st.seen_crates[i], st.seen_crates[j]);
            }
        }
    }
}

/// A reported violation: an unknown crate, or a path that, with its
/// trailing punctuation removed, is not an existing repo path, is not a
/// glob, and ends in no trailing punctuation.
pub open spec fn reported_ok(file: Seq<char>, existing: Seq<String>, v: ViolationView) -> bool {
    ||| is_crate_violation(v)
    ||| exists|q: Seq<char>|
        #[trigger] path_violation(file, q) == v && !(exists|i: int| 0 <= i < existing.len() && existing[i]@ == q)
            && !q.contains('*') && (q.len() == 0 || !trailing_punct(q.last()))
}

pub open spec fn all_reported_ok(file: Seq<char>, existing: Seq<String>, out: Seq<ViolationView>) -> bool {
    forall|i: int| 0 <= i < out.len() ==> reported_ok(file, existing, #[trigger] out[i])
}

proof fn lemma_strip_punct_end(s: Seq<char>)
    ensures
        strip_punct(s).len() == 0 || !trailing_punct(strip_punct(s).last()),
    decreases s.len(),
{
    if s.len() > 0 && trailing_punct(s.last()) {
        lemma_strip_punct_end(s.drop_last());
    }
}

proof fn lemma_ok_push(file: Seq<char>, existing: Seq<String>, out: Seq<ViolationView>, v: ViolationView)
    requires
        all_reported_ok(file, existing, out),
        reported_ok(file, existing, v),
    ensures
        all_reported_ok(file, existing, out.push(v)),
{
    assert forall|i: int| 0 <= i < out.push(v).len() implies reported_ok(file, existing, #[trigger] out.push(v)[i]) by {
        if i < out.len() {
            assert(out.push(v)[i] == out[i]);
        }
    }
}

proof fn lemma_ok_idents(file: Seq<char>, crates: Seq<String>, existing: Seq<String>, st: ScanState, xs: Seq<Seq<char>>, n: int)
    requires
        all_reported_ok(file, existing, st.out),
    ensures
        all_reported_ok(file, existing, idents_fold(file, crates, st, xs, n).out),
    decreases n,
{
    if n > 0 {
        lemma_ok_idents(file, crates, existing, st, xs, n - 1);
        let s0 = idents_fold(file, crates, st, xs, n - 1);
        let x = xs[n - 1];
        if !(list_has(crates, x) || allowed_ident(x) || s0.seen_crates.contains(x)) {
            lemma_ok_push(file, existing, s0.out, crate_violation(file, x));
        }
    }
}

proof fn lemma_ok_paths(file: Seq<char>, existing: Seq<String>, st: ScanState, ps: Seq<Seq<char>>, n: int)
    requires
        all_reported_ok(file, existing, st.out),
    ensures
        all_reported_ok(file, existing, paths_fold(file, existing, st, ps, n).out),
    decreases n,
{
    if n > 0 {
        lemma_ok_paths(file, existing, st, ps, n - 1);
        let s0 = paths_fold(file, existing, st, ps, n - 1);
        let p = ps[n - 1];
        if !(has_upper(p) || s0.seen_paths.contains(p)) {
            let q = strip_punct(p);
            if !(list_has(existing, q) || q.contains('*')) {
                lemma_strip_punct_end(p);
                assert(reported_ok(file, existing, path_violation(file, q)));
                lemma_ok_push(file, existing, s0.out, path_violation(file, q));
            }
        }
    }
}

proof fn lemma_ok_lines(file: Seq<char>, crates: Seq<String>, existing: Seq<String>, lines: Seq<Seq<char>>, n: int)
    ensures
        all_reported_ok(file, existing, lines_fold(file, crates, existing, lines, n).out),
    decreases n,
{
    if n > 0 {
        lemma_ok_lines(file, crates, existing, lines, n - 1);
        let st = lines_fold(file, crates, existing, lines, n - 1);
        let line = lines[n - 1];
        let ids = crate_idents_of(line);
        let ps = repo_paths_of(line);
        lemma_ok_idents(file, crates, existing, st, ids, ids.len() as int);
        lemma_ok_paths(file, existing, idents_fold(file, crates, st, ids, ids.len() as int), ps, ps.len() as int);
    }
}

/// A path is reported missing only in the form it is looked up in: its
/// trailing `) ] . , ; : ! ?` removed. So a reported path ends in none of
/// them, is not an existing repo path and is not a glob; an existing path
/// that ends a sentence is never reported.
pub proof fn law_missing_paths_are_stripped_and_absent(
    file: Seq<char>,
    body: Seq<char>,
    crates: Seq<String>,
    existing: Seq<String>,
)
    ensures
        all_reported_ok(file, existing, body_violations(file, body, crates, existing)),
{
    if !skipped_file(file) {
        let ls = live_lines_of(body);
        lemma_ok_lines(file, crates, existing, ls, ls.len() as int);
    }
}

} // verus!
