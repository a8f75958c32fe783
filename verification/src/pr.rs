//! `cvg pr stack`: the `## Files touched` manifest of a PR body, its
//! comparison with the real diff, file conflicts between PRs, and the
//! rendering helpers.
use vstd::prelude::*;
use crate::order::{IdSet, StringSet};
use crate::text::{chars_of, contains, has_infix, has_prefix, is_digit, lines, lines_of, matches_at, occurs_at, push_all, starts_with, string_of, trim, trim_end, trim_start, trimmed, trimmed_end, trimmed_start, views};
use crate::docs_rewrite::{find_at_or_after, find_from, lemma_find_from};

verus! {

/// Status of a PR's `## Files touched` manifest against the real diff.
#[derive(Debug, Clone, Copy, PartialEq, Eq, Structural)]
pub enum ManifestStatus {
    /// Manifest covers exactly the diffed files.
    Match,
    /// Manifest is missing or empty.
    Missing,
    /// Manifest disagrees with the diff.
    Mismatch,
}

/// What a PR body declares.
pub struct ParsedManifest {
    pub files: StringSet,
    pub depends_on: IdSet,
}

impl ParsedManifest {
    pub open spec fn wf(&self) -> bool {
        self.files.wf() && self.depends_on.wf()
    }
}

pub open spec fn depends_pat() -> Seq<char> {
    "Depends on PR #"@
}

/// The leading run of ASCII digits of `s`.
pub open spec fn digit_run(s: Seq<char>) -> Seq<char>
    decreases s.len(),
{
    if s.len() > 0 && is_digit(s[0]) {
        seq![s[0]] + digit_run(s.skip(1))
    } else {
        Seq::empty()
    }
}

/// The value of a decimal digit string.
pub open spec fn digits_value(s: Seq<char>) -> int
    decreases s.len(),
{
    if s.len() == 0 {
        0
    } else {
        digits_value(s.drop_last()) * 10 + ((s.last() as u32) - ('0' as u32))
    }
}

/// `str::parse::<i64>` of a string of ASCII digits.
pub open spec fn parse_digits(s: Seq<char>) -> Option<i64> {
    if s.len() > 0 && digits_value(s) <= i64::MAX {
        Some(digits_value(s) as i64)
    } else {
        None
    }
}

/// PR numbers declared by `Depends on PR #N` on a line, scanning from `i`.
pub open spec fn deps_from(line: Seq<char>, i: int) -> Set<i64>
    decreases line.len() + 1 - i,
{
    match find_from(line, depends_pat(), i) {
        None => Set::empty(),
        Some(q) => {
            proof {
                lemma_find_from(line, depends_pat(), i);
                reveal_strlit("Depends on PR #");
            }
            let tail = line.skip(q + depends_pat().len());
            let here = match parse_digits(digit_run(tail)) {
                Some(n) => set![n],
                None => Set::empty(),
            };
            if q >= i {
                here.union(deps_from(line, q + depends_pat().len()))
            } else {
                here
            }
        },
    }
}

/// Parser state over the lines of a body.
pub struct ManifestState {
    pub files: Set<Seq<char>>,
    pub deps: Set<i64>,
    pub in_block: bool,
    pub in_section: bool,
}

/// A path line of the manifest block.
pub open spec fn manifest_path(line: Seq<char>) -> Option<Seq<char>> {
    let p = trim(line);
    if p.len() > 0 && p[0] != '<' && p[0] != '-' {
        Some(p)
    } else {
        None
    }
}

pub open spec fn manifest_step(st: ManifestState, raw: Seq<char>) -> ManifestState {
    let line = trim_end(raw);
    if starts_with(line, "## "@) {
        ManifestState { in_section: contains(line, "Files touched"@), in_block: false, ..st }
    } else if st.in_section && starts_with(trim_start(line), "```"@) {
        ManifestState { in_block: !st.in_block, ..st }
    } else {
        let files = if st.in_block {
            match manifest_path(line) {
                Some(p) => st.files.insert(p),
                None => st.files,
            }
        } else {
            st.files
        };
        ManifestState { files, deps: st.deps.union(deps_from(line, 0)), ..st }
    }
}

pub open spec fn manifest_fold(ls: Seq<Seq<char>>, n: int) -> ManifestState
    decreases n,
{
    if n <= 0 {
        ManifestState { files: Set::empty(), deps: Set::empty(), in_block: false, in_section: false }
    } else {
        manifest_step(manifest_fold(ls, n - 1), ls[n - 1])
    }
}

/// The manifest of a PR body: the paths listed in fenced blocks under a
/// `## ...Files touched...` header, and every `Depends on PR #N`.
pub open spec fn manifest_of(body: Seq<char>) -> ManifestState {
    manifest_fold(lines_of(body), lines_of(body).len() as int)
}

/// The leading digit run of `s[from..]`.
fn digits_at(s: &Vec<char>, from: usize) -> (r: Vec<char>)
    requires
        from <= s.len(),
    ensures
        r@ == digit_run(s@.skip(from as int)),
{
    let mut r: Vec<char> = Vec::new();
    let mut i = from;
    proof {
        assert(r@ + digit_run(s@.skip(i as int)) =~= digit_run(s@.skip(from as int)));
    }
    while i < s.len() && '0' <= s[i] && s[i] <= '9'
        invariant
            from <= i <= s.len(),
            r@ + digit_run(s@.skip(i as int)) == digit_run(s@.skip(from as int)),
        decreases s.len() - i,
    {
        proof {
            assert(s@.skip(i as int)[0] == s@[i as int]);
            assert(s@.skip(i as int).skip(1) =~= s@.skip(i + 1));
            assert(r@.push(s@[i as int]) + digit_run(s@.skip(i + 1)) =~= r@ + digit_run(s@.skip(i as int)));
        }
        r.push(s[i]);
        i += 1;
    }
    proof {
        assert(digit_run(s@.skip(i as int)) == Seq::<char>::empty()) by {
            if i < s.len() {
                assert(s@.skip(i as int)[0] == s@[i as int]);
            }
        }
        assert(r@ + Seq::<char>::empty() =~= r@);
    }
    r
}

pub proof fn lemma_digits_value_monotone(s: Seq<char>, c: char)
    requires
        is_digit(c),
        forall|i: int| 0 <= i < s.len() ==> is_digit(#[trigger] s[i]),
    ensures
        digits_value(s.push(c)) >= digits_value(s),
        digits_value(s.push(c)) == digits_value(s) * 10 + ((c as u32) - ('0' as u32)),
        digits_value(s) >= 0,
    decreases s.len(),
{
    assert(s.push(c).drop_last() =~= s);
    lemma_digits_value_nonneg(s);
}

pub proof fn lemma_digits_value_nonneg(s: Seq<char>)
    requires
        forall|i: int| 0 <= i < s.len() ==> is_digit(#[trigger] s[i]),
    ensures
        digits_value(s) >= 0,
    decreases s.len(),
{
    if s.len() > 0 {
        lemma_digits_value_nonneg(s.drop_last());
    }
}

/// `str::parse::<i64>` of a digit string.
pub fn parse_number(d: &Vec<char>) -> (r: Option<i64>)
    requires
        forall|i: int| 0 <= i < d@.len() ==> is_digit(#[trigger] d@[i]),
    ensures
        r == parse_digits(d@),
{
    if d.len() == 0 {
        return None;
    }
    let mut acc: Option<i64> = Some(0);
    let mut i: usize = 0;
    assert(d@.take(0) =~= Seq::<char>::empty());
    while i < d.len()
        invariant
            i <= d.len(),
            forall|k: int| 0 <= k < d@.len() ==> is_digit(#[trigger] d@[k]),
            match acc {
                Some(v) => v as int == digits_value(d@.take(i as int)),
                None => digits_value(d@.take(i as int)) > i64::MAX,
            },
        decreases d.len() - i,
    {
        let c = d[i];
        proof {
            assert(d@.take(i + 1) =~= d@.take(i as int).push(c));
            assert(forall|k: int| 0 <= k < d@.take(i as int).len() ==> d@.take(i as int)[k] == d@[k]);
            lemma_digits_value_monotone(d@.take(i as int), c);
        }
        let digit: i64 = (c as u32 - '0' as u32) as i64;
        acc = match acc {
            None => None,
            Some(v) => if v > (i64::MAX - digit) / 10 {
                None
            } else {
                Some(v * 10 + digit)
            },
        };
        i += 1;
    }
    assert(d@.take(d.len() as int) =~= d@);
    acc
}

/// PR numbers declared on one line by `Depends on PR #N`.
fn line_deps(line: &Vec<char>, deps: &mut IdSet)
    requires
        old(deps).wf(),
    ensures
        final(deps).wf(),
        final(deps).items@.to_set() == old(deps).items@.to_set().union(deps_from(line@, 0)),
{
    let pat = chars_of("Depends on PR #");
    proof {
        reveal_strlit("Depends on PR #");
    }
    let mut i: usize = 0;
    let ghost start = deps.items@.to_set();
    proof {
        assert(start.union(deps_from(line@, 0)) =~= start.union(deps_from(line@, 0)));
    }
    loop
        invariant
            pat@ == depends_pat(),
            depends_pat().len() == 15,
            i <= line.len(),
            deps.wf(),
            start == old(deps).items@.to_set(),
            deps.items@.to_set().union(deps_from(line@, i as int)) == start.union(deps_from(line@, 0)),
        decreases line.len() - i,
    {
        match find_at_or_after(line, &pat, i) {
            None => {
                proof {
                    assert(deps_from(line@, i as int) == Set::<i64>::empty());
                    assert(deps.items@.to_set().union(Set::<i64>::empty()) =~= deps.items@.to_set());
                }
                return;
            },
            Some(q) => {
                proof {
                    lemma_find_from(line@, pat@, i as int);
                }
                let d = digits_at(line, q + 15);
                proof {
                    lemma_digit_run(line@.skip(q + 15));
                }
                let ghost before = deps.items@.to_set();
                let ghost here = match parse_digits(digit_run(line@.skip(q + 15))) {
                    Some(n) => set![n],
                    None => Set::<i64>::empty(),
                };
                match parse_number(&d) {
                    Some(n) => {
                        deps.insert(n);
                        proof {
                            assert(deps.items@.to_set() =~= before.union(here));
                        }
                    },
                    None => {
                        proof {
                            assert(before.union(here) =~= before);
                        }
                    },
                }
                proof {
                    assert(deps.items@.to_set().union(deps_from(line@, q + 15)) =~= before.union(
                        deps_from(line@, i as int),
                    ));
                }
                i = q + 15;
            },
        }
    }
}

pub proof fn lemma_digit_run(s: Seq<char>)
    ensures
        forall|i: int| 0 <= i < digit_run(s).len() ==> is_digit(#[trigger] digit_run(s)[i]),
    decreases s.len(),
{
    if s.len() > 0 && is_digit(s[0]) {
        lemma_digit_run(s.skip(1));
        assert forall|i: int| 0 <= i < digit_run(s).len() implies is_digit(#[trigger] digit_run(s)[i]) by {
            if i > 0 {
                assert(digit_run(s)[i] == digit_run(s.skip(1))[i - 1]);
            }
        }
    }
}

/// Parses the `## Files touched` manifest and the `Depends on PR #N`
/// declarations of a PR body.
pub fn parse_manifest(body: &str) -> (r: ParsedManifest)
    ensures
        r.wf(),
        r.files.view() == manifest_of(body@).files,
        r.depends_on.view() == manifest_of(body@).deps,
{
    let b = chars_of(body);
    let ls = lines(&b);
    let mut files = StringSet::new();
    let mut deps = IdSet::new();
    let mut in_block = false;
    let mut in_section = false;
    let mut k: usize = 0;
    proof {
        assert(files.elems().to_set() =~= Set::<Seq<char>>::empty());
        assert(deps.items@.to_set() =~= Set::<i64>::empty());
    }
    while k < ls.len()
        invariant
            k <= ls.len(),
            views(ls@) == lines_of(body@),
            files.wf(),
            deps.wf(),
            manifest_fold(views(ls@), k as int) == (ManifestState {
                files: files.elems().to_set(),
                deps: deps.items@.to_set(),
                in_block,
                in_section,
            }),
        decreases ls.len() - k,
    {
        assert(views(ls@)[k as int] == ls@[k as int]@);
        let line = trimmed_end(&ls[k]);
        if has_prefix(&line, "## ") {
            in_section = has_infix(&line, &chars_of("Files touched"));
            in_block = false;
        } else if in_section && has_prefix(&trimmed_start(&line), "```") {
            in_block = !in_block;
        } else {
            if in_block {
                let p = trimmed(&line);
                if p.len() > 0 && p[0] != '<' && p[0] != '-' {
                    files.insert_chars(&p);
                }
            }
            line_deps(&line, &mut deps);
        }
        k += 1;
    }
    ParsedManifest { files, depends_on: deps }
}

impl StringSet {
    /// Same elements as `other`.
    pub fn same_elements(&self, other: &StringSet) -> (r: bool)
        ensures
            r == (self.view() == other.view()),
    {
        let mut i: usize = 0;
        while i < self.items.len()
            invariant
                i <= self.items.len(),
                forall|j: int| 0 <= j < i ==> other.elems().contains(#[trigger] self.elems()[j]),
            decreases self.items.len() - i,
        {
            if !other.contains(self.items[i].as_str()) {
                assert(self.view().contains(self.elems()[i as int]));
                assert(!other.view().contains(self.elems()[i as int]));
                return false;
            }
            i += 1;
        }
        let mut j: usize = 0;
        while j < other.items.len()
            invariant
                j <= other.items.len(),
                forall|k: int| 0 <= k < self.elems().len() ==> other.elems().contains(#[trigger] self.elems()[k]),
                forall|k: int| 0 <= k < j ==> self.elems().contains(#[trigger] other.elems()[k]),
            decreases other.items.len() - j,
        {
            if !self.contains(other.items[j].as_str()) {
                assert(other.view().contains(other.elems()[j as int]));
                assert(!self.view().contains(other.elems()[j as int]));
                return false;
            }
            j += 1;
        }
        assert forall|x: Seq<char>| self.view().contains(x) <==> other.view().contains(x) by {
            if self.elems().contains(x) {
                let k = choose|k: int| 0 <= k < self.elems().len() && self.elems()[k] == x;
                assert(other.elems().contains(self.elems()[k]));
            }
            if other.elems().contains(x) {
                let k = choose|k: int| 0 <= k < other.elems().len() && other.elems()[k] == x;
                assert(self.elems().contains(other.elems()[k]));
            }
        }
        assert(self.view() =~= other.view());
        true
    }

    /// Number of elements also in `other`.
    pub fn count_common(&self, other: &StringSet) -> (r: usize)
        ensures
            r == common_count(self.elems(), other.elems(), self.elems().len() as int),
    {
        let mut n: usize = 0;
        let mut i: usize = 0;
        while i < self.items.len()
            invariant
                i <= self.items.len(),
                n == common_count(self.elems(), other.elems(), i as int),
                n <= i,
            decreases self.items.len() - i,
        {
            assert(self.elems()[i as int] == self.items@[i as int]@);
            if other.contains(self.items[i].as_str()) {
                n += 1;
            }
            i += 1;
        }
        n
    }
}

/// How many of the first `n` elements of `a` are in `b`.
pub open spec fn common_count(a: Seq<Seq<char>>, b: Seq<Seq<char>>, n: int) -> nat
    decreases n,
{
    if n <= 0 {
        0
    } else {
        common_count(a, b, n - 1) + if b.contains(a[n - 1]) {
            1nat
        } else {
            0nat
        }
    }
}

/// Cross-checks a manifest against the real diff: `Missing` when the
/// manifest lists no file, `Match` when it lists exactly the diffed files,
/// `Mismatch` otherwise.
pub fn compare_manifest(manifest: &ParsedManifest, diff: &StringSet) -> (r: ManifestStatus)
    ensures
        r == (if manifest.files.elems().len() == 0 {
            ManifestStatus::Missing
        } else if manifest.files.view() == diff.view() {
            ManifestStatus::Match
        } else {
            ManifestStatus::Mismatch
        }),
{
    if manifest.files.is_empty() {
        return ManifestStatus::Missing;
    }
    if manifest.files.same_elements(diff) {
        ManifestStatus::Match
    } else {
        ManifestStatus::Mismatch
    }
}

/// Machine-stable name of a manifest status.
pub fn manifest_status_str(s: ManifestStatus) -> (r: &'static str)
    ensures
        r@ == (match s {
            ManifestStatus::Match => "match"@,
            ManifestStatus::Missing => "missing"@,
            ManifestStatus::Mismatch => "mismatch"@,
        }),
{
    match s {
        ManifestStatus::Match => "match",
        ManifestStatus::Missing => "missing",
        ManifestStatus::Mismatch => "mismatch",
    }
}

/// One PR after analysis.
pub struct AnalysedPr {
    pub number: i64,
    pub title: String,
    pub files: StringSet,
    pub depends_on: IdSet,
    pub manifest_status: ManifestStatus,
}

impl AnalysedPr {
    pub open spec fn wf(&self) -> bool {
        self.files.wf() && self.depends_on.wf()
    }
}

/// Manifest-only analysis of a PR (no diff available): files and
/// dependencies from the body; `Missing` when no file is listed, else
/// `Match`.
pub fn analyse_pr(number: i64, title: &str, body: &str) -> (r: AnalysedPr)
    ensures
        r.wf(),
        r.number == number,
        r.title@ == title@,
        r.files.view() == manifest_of(body@).files,
        r.depends_on.view() == manifest_of(body@).deps,
        r.manifest_status == (if r.files.elems().len() == 0 {
            ManifestStatus::Missing
        } else {
            ManifestStatus::Match
        }),
{
    let m = parse_manifest(body);
    let status = if m.files.is_empty() {
        ManifestStatus::Missing
    } else {
        ManifestStatus::Match
    };
    AnalysedPr {
        number,
        title: string_of(&chars_of(title)),
        files: m.files,
        depends_on: m.depends_on,
        manifest_status: status,
    }
}

/// Analysis of a PR with its real diff: the diff is taken as the file
/// list, and the manifest is compared with it.
pub fn analyse_pr_with_diff(number: i64, title: &str, body: &str, diff: StringSet) -> (r: AnalysedPr)
    requires
        diff.wf(),
    ensures
        r.wf(),
        r.number == number,
        r.title@ == title@,
        r.files == diff,
        r.depends_on.view() == manifest_of(body@).deps,
        r.manifest_status == (if manifest_of(body@).files.len() == 0 {
            ManifestStatus::Missing
        } else if manifest_of(body@).files == diff.view() {
            ManifestStatus::Match
        } else {
            ManifestStatus::Mismatch
        }),
{
    let m = parse_manifest(body);
    let status = compare_manifest(&m, &diff);
    proof {
        m.files.elems().lemma_cardinality_of_set();
        if m.files.elems().len() == 0 {
            assert(m.files.view() =~= Set::<Seq<char>>::empty());
        } else {
            assert(m.files.view().contains(m.files.elems()[0]));
        }
    }
    AnalysedPr {
        number,
        title: string_of(&chars_of(title)),
        files: diff,
        depends_on: m.depends_on,
        manifest_status: status,
    }
}

/// `p` is another PR than `target` and shares a file with it.
pub open spec fn conflicts(target: AnalysedPr, p: AnalysedPr) -> bool {
    p.number != target.number && p.files.view().intersect(target.files.view()).len() > 0
}

/// Numbers of the PRs among the first `n` of `all` that conflict with `target`.
pub open spec fn conflicts_prefix(target: AnalysedPr, all: Seq<AnalysedPr>, n: int) -> Seq<i64>
    decreases n,
{
    if n <= 0 {
        Seq::empty()
    } else if conflicts(target, all[n - 1]) {
        conflicts_prefix(target, all, n - 1).push(all[n - 1].number)
    } else {
        conflicts_prefix(target, all, n - 1)
    }
}

/// PR numbers (other than the target's) that touch a file the target
/// touches, in input order.
pub fn compute_conflicts(target: &AnalysedPr, all: &Vec<AnalysedPr>) -> (r: Vec<i64>)
    ensures
        r@ == conflicts_prefix(*target, all@, all@.len() as int),
{
    let mut out: Vec<i64> = Vec::new();
    let mut i: usize = 0;
    while i < all.len()
        invariant
            i <= all.len(),
            out@ == conflicts_prefix(*target, all@, i as int),
        decreases all.len() - i,
    {
        let p = &all[i];
        if p.number != target.number && share_file(&target.files, &p.files) {
            out.push(p.number);
        }
        i += 1;
    }
    out
}

/// The two sets share an element.
fn share_file(a: &StringSet, b: &StringSet) -> (r: bool)
    ensures
        r == (b.view().intersect(a.view()).len() > 0),
{
    let mut i: usize = 0;
    while i < a.items.len()
        invariant
            i <= a.items.len(),
            forall|j: int| 0 <= j < i ==> !b.elems().contains(#[trigger] a.elems()[j]),
        decreases a.items.len() - i,
    {
        if b.contains(a.items[i].as_str()) {
            proof {
                let x = a.elems()[i as int];
                assert(b.view().intersect(a.view()).contains(x));
                b.elems().lemma_cardinality_of_set();
                vstd::set_lib::lemma_set_empty_equivalency_len(b.view().intersect(a.view()));
            }
            return true;
        }
        i += 1;
    }
    proof {
        assert(b.view().intersect(a.view()) =~= Set::<Seq<char>>::empty()) by {
            assert forall|x: Seq<char>| !b.view().intersect(a.view()).contains(x) by {
                if a.elems().contains(x) {
                    let k = choose|k: int| 0 <= k < a.elems().len() && a.elems()[k] == x;
                    assert(!b.elems().contains(a.elems()[k]));
                }
            }
        }
    }
    false
}

/// Truncates to `n` characters, ending with `…` when shortened.
pub fn truncate(s: &str, n: usize) -> (r: String)
    ensures
        r@ == (if s@.len() <= n {
            s@
        } else {
            s@.take(if n == 0 { 0 } else { n - 1 }) + seq!['…']
        }),
{
    let c = chars_of(s);
    if c.len() <= n {
        return string_of(&c);
    }
    let keep = if n == 0 {
        0
    } else {
        n - 1
    };
    let mut v = crate::text::slice_of(&c, 0, keep);
    v.push('…');
    string_of(&v)
}

/// A `## ` header line.
pub open spec fn is_header(raw: Seq<char>) -> bool {
    starts_with(trim_end(raw), "## "@)
}

/// Line `k` stands in a section whose header names `Files touched`: the
/// nearest header above it contains those words.
pub open spec fn under_files_touched(ls: Seq<Seq<char>>, k: int) -> bool {
    exists|h: int|
        0 <= h < k && #[trigger] is_header(ls[h]) && contains(trim_end(ls[h]), "Files touched"@) && forall|j: int|
            h < j < k ==> !is_header(#[trigger] ls[j])
}

/// What the fold keeps after `n` lines: it is inside the section only
/// below a `Files touched` header, inside a block only inside the
/// section, and every file is the trimmed text of a line in that section.
pub open spec fn manifest_inv(ls: Seq<Seq<char>>, n: int, st: ManifestState) -> bool {
    &&& st.in_section ==> under_files_touched(ls, n)
    &&& st.in_block ==> st.in_section
    &&& forall|f: Seq<char>|
        #[trigger] st.files.contains(f) ==> exists|k: int|
            0 <= k < n && under_files_touched(ls, k) && f == trim(trim_end(#[trigger] ls[k]))
}

proof fn lemma_manifest_fold_inv(ls: Seq<Seq<char>>, n: int)
    requires
        0 <= n <= ls.len(),
    ensures
        manifest_inv(ls, n, manifest_fold(ls, n)),
    decreases n,
{
    if n > 0 {
        lemma_manifest_fold_inv(ls, n - 1);
        let st = manifest_fold(ls, n - 1);
        let raw = ls[n - 1];
        let line = trim_end(raw);
        let st2 = manifest_fold(ls, n);
        assert(st2 == manifest_step(st, raw));
        if starts_with(line, "## "@) {
            assert(is_header(ls[n - 1]));
            if st2.in_section {
                assert(under_files_touched(ls, n)) by {
                    assert(forall|j: int| n - 1 < j < n ==> !is_header(#[trigger] ls[j]));
                }
            }
            assert forall|f: Seq<char>| #[trigger] st2.files.contains(f) implies exists|k: int|
                0 <= k < n && under_files_touched(ls, k) && f == trim(trim_end(#[trigger] ls[k])) by {
                let k = choose|k: int| 0 <= k < n - 1 && under_files_touched(ls, k) && f == trim(trim_end(#[trigger] ls[k]));
            }
        } else {
            assert(!is_header(ls[n - 1]));
            if st.in_section {
                let h = choose|h: int|
                    0 <= h < n - 1 && #[trigger] is_header(ls[h]) && contains(trim_end(ls[h]), "Files touched"@) && forall|j: int|
                        h < j < n - 1 ==> !is_header(#[trigger] ls[j]);
                assert(forall|j: int| h < j < n ==> !is_header(#[trigger] ls[j]));
                assert(under_files_touched(ls, n));
            }
            assert forall|f: Seq<char>| #[trigger] st2.files.contains(f) implies exists|k: int|
                0 <= k < n && under_files_touched(ls, k) && f == trim(trim_end(#[trigger] ls[k])) by {
                if st.files.contains(f) {
                    let k = choose|k: int| 0 <= k < n - 1 && under_files_touched(ls, k) && f == trim(trim_end(#[trigger] ls[k]));
                } else {
                    assert(f == trim(trim_end(ls[n - 1])));
                    assert(under_files_touched(ls, n - 1));
                }
            }
        }
    }
}

/// Only lines of a fenced block under a `## ` header that names `Files
/// touched` become manifest files: each file is the trimmed text of a
/// line whose nearest header above names `Files touched`, so a block under
/// any other header contributes nothing.
pub proof fn law_manifest_files_come_from_files_touched(body: Seq<char>)
    ensures
        forall|f: Seq<char>|
            #[trigger] manifest_of(body).files.contains(f) ==> exists|k: int|
                0 <= k < lines_of(body).len() && under_files_touched(lines_of(body), k) && f == trim(
                    trim_end(#[trigger] lines_of(body)[k]),
                ),
{
    lemma_manifest_fold_inv(lines_of(body), lines_of(body).len() as int);
}

} // verus!
