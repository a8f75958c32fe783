//! Cross-document coherence: ADR frontmatter against the ADR index,
//! the workspace members and the other ADRs, plus body drift of every
//! markdown file.
use vstd::prelude::*;
use crate::coherence_body::{body_violations, scan_body, violation_views, BodyViolation, ViolationView};
use crate::coherence_parse::{parse_frontmatter, FrontmatterError, IndexEntry};
use crate::text::{chars_of, is_ws, lemma_trim_lower, lemma_trim_pad_back, lemma_trim_pad_front, contains_string, ends_with, eq_str, has_suffix, is_digit, list_has, lower, lowered, push_all, push_str, split_char, split_on, starts_with, string_of, string_views, trim, trimmed, views};

verus! {

/// Lenient status comparison: equal, or one a prefix of the other, after
/// trimming and ASCII lowercasing (`"superseded by 0042"` matches
/// `"superseded"`).
pub open spec fn status_matches(file: Seq<char>, index: Seq<char>) -> bool {
    let f = lower(trim(file));
    let i = lower(trim(index));
    f == i || starts_with(f, i) || starts_with(i, f)
}

/// Compares an ADR file status with its index status.
pub fn statuses_match(file: &str, index: &str) -> (r: bool)
    ensures
        r == status_matches(file@, index@),
{
    let fv = chars_of(file);
    let iv = chars_of(index);
    let ft = trimmed(&fv);
    let it = trimmed(&iv);
    let f = lowered(&ft);
    let i = lowered(&it);
    crate::text::eq(&f, &i) || crate::text::matches_at(&f, &i, 0) || crate::text::matches_at(&i, &f, 0)
}

/// The ADR id of a file name: the digits before the first `-` of a
/// `*.md` file other than `README.md`.
pub open spec fn adr_id_of(name: Seq<char>) -> Option<Seq<char>> {
    if !ends_with(name, ".md"@) || name == "README.md"@ {
        None
    } else {
        let id = split_on(name, '-')[0];
        if id.len() > 0 && (forall|i: int| 0 <= i < id.len() ==> is_digit(#[trigger] id[i])) {
            Some(id)
        } else {
            None
        }
    }
}

/// The ADR id of a file name, when it names an ADR.
pub fn adr_id(name: &str) -> (r: Option<String>)
    ensures
        match r {
            Some(s) => adr_id_of(name@) == Some(s@),
            None => adr_id_of(name@) is None,
        },
{
    let n = chars_of(name);
    if !has_suffix(&n, ".md") || eq_str(&n, "README.md") {
        return None;
    }
    let parts = split_char(&n, '-');
    proof {
        crate::text::lemma_split_nonempty(n@, '-');
    }
    assert(views(parts@)[0] == parts@[0]@);
    let id = &parts[0];
    let mut i: usize = 0;
    while i < id.len()
        invariant
            i <= id.len(),
            n@ == name@,
            id@ == split_on(n@, '-')[0],
            ends_with(n@, ".md"@) && n@ != "README.md"@,
            forall|j: int| 0 <= j < i ==> is_digit(#[trigger] id@[j]),
        decreases id.len() - i,
    {
        if !('0' <= id[i] && id[i] <= '9') {
            assert(!is_digit(id@[i as int]));
            assert(split_on(n@, '-')[0] == id@);
            return None;
        }
        i += 1;
    }
    if id.len() == 0 {
        return None;
    }
    Some(string_of(id))
}

/// One ADR on disk.
pub struct Adr {
    pub id: String,
    pub path: String,
    pub status: String,
    pub related_adrs: Vec<String>,
    pub touches_crates: Vec<String>,
}

/// Reads an ADR from its file name, its path as reported, and its body.
/// `Ok(None)` when the name is not an ADR file name.
pub fn load_adr(name: &str, path: &str, body: &str) -> (r: Result<Option<Adr>, FrontmatterError>)
    ensures
        adr_id_of(name@) is None ==> r == Ok::<Option<Adr>, FrontmatterError>(None),
        adr_id_of(name@) is Some ==> match r {
            Ok(Some(a)) => Some(a.id@) == adr_id_of(name@) && a.path@ == path@
                && crate::coherence_parse::frontmatter_of(body@) == Ok::<crate::coherence_parse::FrontmatterView, FrontmatterError>(
                crate::coherence_parse::FrontmatterView {
                    status: a.status@,
                    related_adrs: string_views(a.related_adrs@),
                    touches_crates: string_views(a.touches_crates@),
                }),
            Ok(None) => false,
            Err(e) => crate::coherence_parse::frontmatter_of(body@) == Err::<crate::coherence_parse::FrontmatterView, FrontmatterError>(e),
        },
{
    match adr_id(name) {
        None => Ok(None),
        Some(id) => match parse_frontmatter(body) {
            Err(e) => Err(e),
            Ok(fm) => Ok(
                Some(
                    Adr {
                        id,
                        path: string_of(&chars_of(path)),
                        status: fm.status,
                        related_adrs: fm.related_adrs,
                        touches_crates: fm.touches_crates,
                    },
                ),
            ),
        },
    }
}

/// One coherence violation.
pub struct Violation {
    pub file: String,
    pub kind: String,
    pub detail: String,
}

impl Violation {
    pub open spec fn view(&self) -> ViolationView {
        ViolationView { file: self.file@, kind: self.kind@, detail: self.detail@ }
    }
}

pub open spec fn coherence_views(v: Seq<Violation>) -> Seq<ViolationView> {
    v.map_values(|x: Violation| x.view())
}

/// Status of `id` in the index entries (first entry with that id).
pub open spec fn index_status(es: Seq<IndexEntry>, id: Seq<char>) -> Option<Seq<char>>
    decreases es.len(),
{
    if es.len() == 0 {
        None
    } else if es[0].id@ == id {
        Some(es[0].status@)
    } else {
        index_status(es.skip(1), id)
    }
}

pub open spec fn known_id(adrs: Seq<Adr>, id: Seq<char>) -> bool {
    exists|i: int| 0 <= i < adrs.len() && #[trigger] adrs[i].id@ == id
}

/// Violations for dangling `related_adrs` entries of one ADR, first `n`.
pub open spec fn ref_violations(adrs: Seq<Adr>, a: Adr, n: int) -> Seq<ViolationView>
    decreases n,
{
    if n <= 0 {
        Seq::empty()
    } else {
        let prev = ref_violations(adrs, a, n - 1);
        let r = a.related_adrs@[n - 1]@;
        if known_id(adrs, r) {
            prev
        } else {
            prev.push(ViolationView {
                file: a.path@,
                kind: "missing_adr_ref"@,
                detail: "references ADR "@ + r + " which does not exist"@,
            })
        }
    }
}

/// Violations for unknown `touches_crates` entries of one ADR, first `n`.
pub open spec fn crate_violations(crates: Seq<String>, a: Adr, n: int) -> Seq<ViolationView>
    decreases n,
{
    if n <= 0 {
        Seq::empty()
    } else {
        let prev = crate_violations(crates, a, n - 1);
        let c = a.touches_crates@[n - 1]@;
        if list_has(crates, c) {
            prev
        } else {
            prev.push(ViolationView {
                file: a.path@,
                kind: "missing_crate_ref"@,
                detail: "touches_crates references '"@ + c + "' which is not in workspace.members"@,
            })
        }
    }
}

/// The index-related violation of one ADR, if any.
pub open spec fn index_violations(index: Seq<IndexEntry>, a: Adr) -> Seq<ViolationView> {
    match index_status(index, a.id@) {
        Some(st) => if status_matches(a.status@, st) {
            Seq::empty()
        } else {
            seq![ViolationView {
                file: a.path@,
                kind: "status_mismatch"@,
                detail: "ADR file status '"@ + a.status@ + "' != index status '"@ + st + "'"@,
            }]
        },
        None => seq![ViolationView {
            file: a.path@,
            kind: "missing_from_index"@,
            detail: "ADR "@ + a.id@ + " exists on disk but has no row in docs/adr/README.md"@,
        }],
    }
}

/// All violations of one ADR, in check order.
pub open spec fn adr_violations(adrs: Seq<Adr>, index: Seq<IndexEntry>, crates: Seq<String>, a: Adr) -> Seq<ViolationView> {
    ref_violations(adrs, a, a.related_adrs@.len() as int) + crate_violations(
        crates,
        a,
        a.touches_crates@.len() as int,
    ) + index_violations(index, a)
}

/// Violations of the first `n` ADRs.
pub open spec fn adrs_violations(adrs: Seq<Adr>, index: Seq<IndexEntry>, crates: Seq<String>, n: int) -> Seq<ViolationView>
    decreases n,
{
    if n <= 0 {
        Seq::empty()
    } else {
        adrs_violations(adrs, index, crates, n - 1) + adr_violations(adrs, index, crates, adrs[n - 1])
    }
}

/// Body violations of the first `n` markdown documents `(path, body)`.
pub open spec fn docs_violations(docs: Seq<(String, String)>, crates: Seq<String>, existing: Seq<String>, n: int) -> Seq<ViolationView>
    decreases n,
{
    if n <= 0 {
        Seq::empty()
    } else {
        docs_violations(docs, crates, existing, n - 1) + body_violations(
            docs[n - 1].0@,
            docs[n - 1].1@,
            crates,
            existing,
        )
    }
}

/// Outcome of a coherence check.
pub struct Report {
    pub adrs_checked: usize,
    pub crates_known: usize,
    pub index_entries: usize,
    pub docs_scanned: usize,
    pub violations: Vec<Violation>,
}

fn known(adrs: &Vec<Adr>, id: &Vec<char>) -> (r: bool)
    ensures
        r == known_id(adrs@, id@),
{
    let mut i: usize = 0;
    while i < adrs.len()
        invariant
            i <= adrs.len(),
            forall|j: int| 0 <= j < i ==> adrs@[j].id@ != id@,
        decreases adrs.len() - i,
    {
        let c = chars_of(adrs[i].id.as_str());
        if crate::text::eq(&c, id) {
            return true;
        }
        i += 1;
    }
    false
}

fn lookup_status(index: &Vec<IndexEntry>, id: &Vec<char>) -> (r: Option<Vec<char>>)
    ensures
        match r {
            Some(s) => index_status(index@, id@) == Some(s@),
            None => index_status(index@, id@) is None,
        },
{
    let mut i: usize = 0;
    assert(index@.skip(0) =~= index@);
    while i < index.len()
        invariant
            i <= index.len(),
            index_status(index@.skip(i as int), id@) == index_status(index@, id@),
        decreases index.len() - i,
    {
        assert(index@.skip(i as int).skip(1) =~= index@.skip(i + 1));
        let c = chars_of(index[i].id.as_str());
        if crate::text::eq(&c, id) {
            return Some(chars_of(index[i].status.as_str()));
        }
        i += 1;
    }
    None
}

fn violation(file: &Vec<char>, kind: &str, detail: &Vec<char>) -> (v: Violation)
    ensures
        v.view() == (ViolationView { file: file@, kind: kind@, detail: detail@ }),
{
    Violation { file: string_of(file), kind: string_of(&chars_of(kind)), detail: string_of(detail) }
}

fn push_violation(out: &mut Vec<Violation>, v: Violation)
    ensures
        coherence_views(final(out)@) == coherence_views(old(out)@).push(v.view()),
{
    out.push(v);
    assert(coherence_views(out@) =~= coherence_views(old(out)@).push(v.view()));
}

/// Checks one ADR and appends its violations.
fn check_adr(adrs: &Vec<Adr>, index: &Vec<IndexEntry>, crates: &Vec<String>, a: &Adr, out: &mut Vec<Violation>)
    ensures
        coherence_views(final(out)@) == coherence_views(old(out)@) + adr_violations(adrs@, index@, crates@, *a),
{
    let path = chars_of(a.path.as_str());
    let ghost start = coherence_views(out@);
    let mut i: usize = 0;
    while i < a.related_adrs.len()
        invariant
            i <= a.related_adrs.len(),
            path@ == a.path@,
            coherence_views(out@) == start + ref_violations(adrs@, *a, i as int),
        decreases a.related_adrs.len() - i,
    {
        let r = chars_of(a.related_adrs[i].as_str());
        if !known(adrs, &r) {
            let mut d = chars_of("references ADR ");
            push_all(&mut d, &r);
            push_str(&mut d, " which does not exist");
            let v = violation(&path, "missing_adr_ref", &d);
            push_violation(out, v);
        }
        i += 1;
    }
    let ghost mid = coherence_views(out@);
    let mut j: usize = 0;
    while j < a.touches_crates.len()
        invariant
            j <= a.touches_crates.len(),
            path@ == a.path@,
            mid == start + ref_violations(adrs@, *a, a.related_adrs@.len() as int),
            coherence_views(out@) == mid + crate_violations(crates@, *a, j as int),
        decreases a.touches_crates.len() - j,
    {
        let c = chars_of(a.touches_crates[j].as_str());
        if !contains_string(crates, &c) {
            let mut d = chars_of("touches_crates references '");
            push_all(&mut d, &c);
            push_str(&mut d, "' which is not in workspace.members");
            let v = violation(&path, "missing_crate_ref", &d);
            let ghost before = coherence_views(out@);
            push_violation(out, v);
            assert(coherence_views(out@) =~= mid + crate_violations(crates@, *a, j + 1));
        }
        j += 1;
    }
    let id = chars_of(a.id.as_str());
    let ghost mid2 = coherence_views(out@);
    match lookup_status(index, &id) {
        Some(st) => {
            let status = chars_of(a.status.as_str());
            if !statuses_match(a.status.as_str(), &string_of(&st)) {
                let mut d = chars_of("ADR file status '");
                push_all(&mut d, &status);
                push_str(&mut d, "' != index status '");
                push_all(&mut d, &st);
                push_str(&mut d, "'");
                let v = violation(&path, "status_mismatch", &d);
                push_violation(out, v);
            }
        },
        None => {
            let mut d = chars_of("ADR ");
            push_all(&mut d, &id);
            push_str(&mut d, " exists on disk but has no row in docs/adr/README.md");
            let v = violation(&path, "missing_from_index", &d);
            push_violation(out, v);
        },
    }
    assert(coherence_views(out@) =~= start + adr_violations(adrs@, index@, crates@, *a));
}

/// The coherence report over loaded ADRs, the ADR index entries, the
/// workspace crate names, the markdown documents `(path, body)` and the
/// repo paths that exist. ADR violations come first, in ADR order, then
/// body violations, in document order.
pub fn run_check(
    adrs: &Vec<Adr>,
    index: &Vec<IndexEntry>,
    crates: &Vec<String>,
    docs: &Vec<(String, String)>,
    existing: &Vec<String>,
) -> (r: Report)
    ensures
        r.adrs_checked == adrs.len(),
        r.crates_known == crates.len(),
        r.index_entries == index.len(),
        r.docs_scanned == docs.len(),
        coherence_views(r.violations@) == adrs_violations(adrs@, index@, crates@, adrs.len() as int)
            + docs_violations(docs@, crates@, existing@, docs.len() as int),
{
    let mut out: Vec<Violation> = Vec::new();
    let mut k: usize = 0;
    assert(coherence_views(out@) =~= Seq::<ViolationView>::empty());
    while k < adrs.len()
        invariant
            k <= adrs.len(),
            coherence_views(out@) == adrs_violations(adrs@, index@, crates@, k as int),
        decreases adrs.len() - k,
    {
        check_adr(adrs, index, crates, &adrs[k], &mut out);
        k += 1;
    }
    let ghost av = coherence_views(out@);
    let mut d: usize = 0;
    assert(av + docs_violations(docs@, crates@, existing@, 0) =~= av);
    while d < docs.len()
        invariant
            d <= docs.len(),
            av == adrs_violations(adrs@, index@, crates@, adrs.len() as int),
            coherence_views(out@) == av + docs_violations(docs@, crates@, existing@, d as int),
        decreases docs.len() - d,
    {
        let bv = scan_body(docs[d].0.as_str(), docs[d].1.as_str(), crates, existing);
        let mut i: usize = 0;
        let ghost start = coherence_views(out@);
        while i < bv.len()
            invariant
                i <= bv.len(),
                coherence_views(out@) == start + violation_views(bv@).take(i as int),
            decreases bv.len() - i,
        {
            let b = &bv[i];
            let v = Violation {
                file: string_of(&chars_of(b.file.as_str())),
                kind: string_of(&chars_of(b.kind)),
                detail: string_of(&chars_of(b.detail.as_str())),
            };
            let ghost before = coherence_views(out@);
            out.push(v);
            proof {
                assert(coherence_views(out@) =~= before.push(v.view()));
                assert(violation_views(bv@).take(i + 1) =~= violation_views(bv@).take(i as int).push(
                    bv@[i as int].view(),
                ));
            }
            i += 1;
        }
        proof {
            assert(violation_views(bv@).take(bv.len() as int) =~= violation_views(bv@));
            assert(coherence_views(out@) =~= av + docs_violations(docs@, crates@, existing@, d + 1));
        }
        d += 1;
    }
    Report {
        adrs_checked: adrs.len(),
        crates_known: crates.len(),
        index_entries: index.len(),
        docs_scanned: docs.len(),
        violations: out,
    }
}

} // verus!

verus! {

/// Status matching ignores surrounding whitespace and ASCII case:
/// padding a status with whitespace on either side, or changing the case
/// of its ASCII letters, does not change whether it matches another.
pub proof fn law_status_match_ignores_padding_and_case(a: Seq<char>, a2: Seq<char>, b: Seq<char>, w1: Seq<char>, w2: Seq<char>)
    requires
        forall|j: int| 0 <= j < w1.len() ==> is_ws(#[trigger] w1[j]),
        forall|j: int| 0 <= j < w2.len() ==> is_ws(#[trigger] w2[j]),
        lower(a2) == lower(a),
    ensures
        status_matches(w1 + a + w2, b) == status_matches(a, b),
        status_matches(b, w1 + a + w2) == status_matches(b, a),
        status_matches(a2, b) == status_matches(a, b),
        status_matches(b, a2) == status_matches(b, a),
{
    lemma_trim_pad_front(w1, a + w2);
    lemma_trim_pad_back(a, w2);
    assert(w1 + a + w2 =~= w1 + (a + w2));
    lemma_trim_lower(a2, a);
}

/// Status matching is lenient but symmetric, and every status matches
/// itself.
pub proof fn law_status_match_symmetric(a: Seq<char>, b: Seq<char>)
    ensures
        status_matches(a, b) == status_matches(b, a),
        status_matches(a, a),
{
}

} // verus!
