//! `check.friction.missing`: friction ids (`F` and digits, as a whole
//! word) mentioned in recent commit messages but absent from the
//! friction log.
use vstd::prelude::*;
use crate::order::{sorted_strict, StringSet};
use crate::pre_stop::{Check, CheckContext, CheckOutcome, OutcomeView, Probes};
use crate::text::{chars_of, is_alnum, is_digit, push_all, push_str, slice_of, string_of};

verus! {

/// `s[i..j]` is a friction reference: `F`, one or more digits, not
/// preceded nor followed by an ASCII letter or digit.
pub open spec fn friction_ref(s: Seq<char>, i: int, j: int) -> bool {
    &&& 0 <= i
    &&& i + 1 < j <= s.len()
    &&& s[i] == 'F'
    &&& (i == 0 || !is_alnum(s[i - 1]))
    &&& forall|k: int| i < k < j ==> is_digit(#[trigger] s[k])
    &&& (j == s.len() || !is_alnum(s[j]))
}

/// The friction references of `s` starting before `n`.
pub open spec fn friction_ids_before(s: Seq<char>, n: int) -> Set<Seq<char>> {
    Set::new(|t: Seq<char>| exists|i: int, j: int| i < n && friction_ref(s, i, j) && t == s.subrange(i, j))
}

/// Every friction reference of `s`.
pub open spec fn friction_ids(s: Seq<char>) -> Set<Seq<char>> {
    friction_ids_before(s, s.len() as int)
}

proof fn lemma_ref_end_unique(s: Seq<char>, i: int, j: int, j2: int)
    requires
        friction_ref(s, i, j),
        friction_ref(s, i, j2),
    ensures
        j == j2,
{
    if j < j2 {
        assert(is_digit(s[j]));
    } else if j2 < j {
        assert(is_digit(s[j2]));
    }
}

fn alnum(c: char) -> (r: bool)
    ensures
        r == is_alnum(c),
{
    ('0' <= c && c <= '9') || ('a' <= c && c <= 'z') || ('A' <= c && c <= 'Z')
}

/// Every friction id (`F` and one or more digits, as a whole word) in
/// `s`, each once, in increasing order.
pub fn scan_friction_ids(s: &str) -> (r: StringSet)
    ensures
        r.wf(),
        r@ == friction_ids(s@),
{
    let cs = chars_of(s);
    let n = cs.len();
    let mut out = StringSet::new();
    let mut i: usize = 0;
    assert(out@ =~= friction_ids_before(cs@, 0));
    while i < n
        invariant
            i <= n,
            n == cs@.len(),
            cs@ == s@,
            out.wf(),
            out@ == friction_ids_before(cs@, i as int),
        decreases n - i,
    {
        if cs[i] == 'F' && (i == 0 || !alnum(cs[i - 1])) && i + 1 < n && '0' <= cs[i + 1] && cs[i + 1] <= '9' {
            let mut j = i + 1;
            while j < n && '0' <= cs[j] && cs[j] <= '9'
                invariant
                    i + 1 <= j <= n,
                    n == cs@.len(),
                    forall|k: int| i < k < j ==> is_digit(#[trigger] cs@[k]),
                decreases n - j,
            {
                j += 1;
            }
            let ghost before = out@;
            let found = j == n || !alnum(cs[j]);
            if found {
                let id = slice_of(&cs, i, j);
                out.insert_chars(&id);
                proof {
                    assert(friction_ref(cs@, i as int, j as int));
                }
            }
            proof {
                assert forall|t: Seq<char>| out@.contains(t) <==> friction_ids_before(cs@, j as int).contains(t) by {
                    if friction_ids_before(cs@, j as int).contains(t) {
                        let (a, b) = choose|a: int, b: int|
                            a < j && friction_ref(cs@, a, b) && t == cs@.subrange(a, b);
                        if a > i {
                            assert(is_digit(cs@[a]));
                        } else if a == i {
                            lemma_ref_end_unique(cs@, i as int, b, j as int);
                        } else {
                            assert(friction_ids_before(cs@, i as int).contains(t));
                        }
                    }
                    if before.contains(t) {
                        let (a, b) = choose|a: int, b: int|
                            a < i && friction_ref(cs@, a, b) && t == cs@.subrange(a, b);
                        assert(a < j);
                    }
                    if found && t == cs@.subrange(i as int, j as int) {
                        assert(friction_ref(cs@, i as int, j as int));
                    }
                }
                assert(out@ =~= friction_ids_before(cs@, j as int));
            }
            i = j;
        } else {
            proof {
                assert forall|t: Seq<char>| out@.contains(t) <==> friction_ids_before(cs@, i + 1).contains(t) by {
                    if friction_ids_before(cs@, i + 1).contains(t) {
                        let (a, b) = choose|a: int, b: int|
                            a < i + 1 && friction_ref(cs@, a, b) && t == cs@.subrange(a, b);
                        if a == i {
                            assert(is_digit(cs@[i + 1]));
                        }
                    }
                    if out@.contains(t) {
                        let (a, b) = choose|a: int, b: int|
                            a < i && friction_ref(cs@, a, b) && t == cs@.subrange(a, b);
                        assert(a < i + 1);
                    }
                }
                assert(out@ =~= friction_ids_before(cs@, i + 1));
            }
            i += 1;
        }
    }
    out
}

} // verus!

verus! {

/// The finding for a friction id missing from the log.
pub open spec fn friction_finding(id: Seq<char>) -> Seq<char> {
    "commit message references "@ + id + " but no row in v0.2-friction-log.md"@
}

/// What `check.friction.missing` reports: a pass when the commit log or
/// the friction log could not be read, or when every id mentioned in the
/// commits has a row; otherwise one finding per missing id, in
/// increasing order.
pub open spec fn friction_outcome(o: OutcomeView, commit_log: Option<Seq<char>>, friction_log: Option<Seq<char>>) -> bool {
    match commit_log {
        None => o is Pass,
        Some(c) => {
            let mentioned = friction_ids(c);
            if mentioned == Set::<Seq<char>>::empty() {
                o is Pass
            } else {
                match friction_log {
                    None => o is Pass,
                    Some(l) => {
                        let missing = mentioned.difference(friction_ids(l));
                        if missing == Set::<Seq<char>>::empty() {
                            o is Pass
                        } else {
                            exists|e: Seq<Seq<char>>|
                                #![auto]
                                sorted_strict(e) && e.to_set() == missing && o == OutcomeView::Fail(
                                    e.map_values(|id: Seq<char>| friction_finding(id)),
                                )
                        }
                    },
                }
            }
        },
    }
}

pub open spec fn opt_view(o: Option<String>) -> Option<Seq<char>> {
    match o {
        Some(s) => Some(s@),
        None => None,
    }
}

/// Friction-log entries hinted in commits but not written.
pub struct FrictionMissingCheck;

fn missing_findings(mentioned: &StringSet, logged: &StringSet) -> (r: Vec<String>)
    requires
        mentioned.wf(),
        logged.wf(),
    ensures
        exists|e: Seq<Seq<char>>|
            #![auto]
            sorted_strict(e) && e.to_set() == mentioned@.difference(logged@) && crate::text::string_views(r@)
                == e.map_values(|id: Seq<char>| friction_finding(id)),
{
    let ghost m = mentioned.elems();
    let ghost mut e: Seq<Seq<char>> = Seq::empty();
    let mut r: Vec<String> = Vec::new();
    let mut i: usize = 0;
    while i < mentioned.items.len()
        invariant
            i <= mentioned.items.len(),
            m == mentioned.elems(),
            sorted_strict(m),
            sorted_strict(e),
            crate::text::string_views(r@) == e.map_values(|id: Seq<char>| friction_finding(id)),
            forall|q: int| 0 <= q < e.len() ==> exists|k: int| 0 <= k < i && #[trigger] e[q] == m[k],
            forall|x: Seq<char>|
                e.contains(x) <==> (exists|k: int| 0 <= k < i && m[k] == x && !logged@.contains(x)),
        decreases mentioned.items.len() - i,
    {
        let id = chars_of(mentioned.items[i].as_str());
        assert(m[i as int] == id@);
        if !logged.contains_chars(&id) {
            let mut f: Vec<char> = Vec::new();
            push_str(&mut f, "commit message references ");
            push_all(&mut f, &id);
            push_str(&mut f, " but no row in v0.2-friction-log.md");
            let fs = string_of(&f);
            let ghost olde = e;
            proof {
                if e.len() > 0 {
                    let q = e.len() - 1;
                    let k = choose|k: int| 0 <= k < i && e[q] == m[k];
                    assert(crate::order::seq_lt(m[k], m[i as int]));
                }
                e = e.push(id@);
                assert forall|x: Seq<char>|
                    e.contains(x) <==> (exists|k: int| 0 <= k < i + 1 && m[k] == x && !logged@.contains(x)) by {
                    if e.contains(x) {
                        let p = choose|p: int| 0 <= p < e.len() && e[p] == x;
                        if p < olde.len() {
                            assert(olde.contains(x));
                        }
                    }
                    if exists|k: int| 0 <= k < i + 1 && m[k] == x && !logged@.contains(x) {
                        let k = choose|k: int| 0 <= k < i + 1 && m[k] == x && !logged@.contains(x);
                        if k < i {
                            assert(olde.contains(x));
                            let p = choose|p: int| 0 <= p < olde.len() && olde[p] == x;
                            assert(e[p] == x);
                        } else {
                            assert(e[e.len() - 1] == x);
                        }
                    }
                }
                assert forall|q: int| 0 <= q < e.len() implies exists|k: int| 0 <= k < i + 1 && #[trigger] e[q] == m[k] by {
                    if q < olde.len() {
                        assert(e[q] == olde[q]);
                        let k = choose|k: int| 0 <= k < i && olde[q] == m[k];
                        assert(e[q] == m[k]);
                    } else {
                        assert(e[q] == m[i as int]);
                    }
                }
            }
            let ghost rv = crate::text::string_views(r@);
            r.push(fs);
            proof {
                assert(crate::text::string_views(r@) =~= rv.push(fs@));
                assert(e.map_values(|id: Seq<char>| friction_finding(id)) =~= olde.map_values(
                    |id: Seq<char>| friction_finding(id),
                ).push(friction_finding(id@)));
                assert(fs@ =~= friction_finding(id@));
            }
        } else {
            proof {
                assert forall|x: Seq<char>|
                    e.contains(x) <==> (exists|k: int| 0 <= k < i + 1 && m[k] == x && !logged@.contains(x)) by {
                    if exists|k: int| 0 <= k < i + 1 && m[k] == x && !logged@.contains(x) {
                        let k = choose|k: int| 0 <= k < i + 1 && m[k] == x && !logged@.contains(x);
                        assert(k < i);
                    }
                }
                assert forall|q: int| 0 <= q < e.len() implies exists|k: int| 0 <= k < i + 1 && #[trigger] e[q] == m[k] by {
                    let k = choose|k: int| 0 <= k < i && e[q] == m[k];
                    assert(e[q] == m[k]);
                }
            }
        }
        i += 1;
    }
    proof {
        assert forall|x: Seq<char>| e.to_set().contains(x) <==> mentioned@.difference(logged@).contains(x) by {
            if mentioned@.contains(x) && !logged@.contains(x) {
                let k = choose|k: int| 0 <= k < m.len() && m[k] == x;
                assert(e.contains(x));
            }
        }
        assert(e.to_set() =~= mentioned@.difference(logged@));
    }
    r
}

impl Check for FrictionMissingCheck {
    fn id(&self) -> (r: &'static str)
        ensures
            r@ == "check.friction.missing"@,
    {
        "check.friction.missing"
    }

    fn label(&self) -> (r: &'static str)
        ensures
            r@ == "friction-log entries hinted in commits but not written"@,
    {
        "friction-log entries hinted in commits but not written"
    }

    fn run(&self, ctx: &CheckContext, probes: &Probes) -> (r: CheckOutcome)
        ensures
            friction_outcome(r.view(), opt_view(probes.commit_log), opt_view(probes.friction_log)),
    {
        let log = match &probes.commit_log {
            None => return CheckOutcome::Pass,
            Some(l) => l,
        };
        let mentioned = scan_friction_ids(log.as_str());
        if mentioned.is_empty() {
            assert(mentioned@ =~= Set::<Seq<char>>::empty());
            return CheckOutcome::Pass;
        }
        proof {
            assert(mentioned@.contains(mentioned.elems()[0]));
        }
        let flog = match &probes.friction_log {
            None => return CheckOutcome::Pass,
            Some(l) => l,
        };
        let logged = scan_friction_ids(flog.as_str());
        let findings = missing_findings(&mentioned, &logged);
        if findings.len() == 0 {
            proof {
                let e = choose|e: Seq<Seq<char>>|
                    #![auto]
                    sorted_strict(e) && e.to_set() == mentioned@.difference(logged@) && crate::text::string_views(
                        findings@,
                    ) == e.map_values(|id: Seq<char>| friction_finding(id));
                assert(crate::text::string_views(findings@).len() == 0);
                assert(e.map_values(|id: Seq<char>| friction_finding(id)).len() == e.len());
                assert(e.len() == 0);
                assert(e.to_set() =~= Set::<Seq<char>>::empty());
            }
            CheckOutcome::Pass
        } else {
            proof {
                let e = choose|e: Seq<Seq<char>>|
                    #![auto]
                    sorted_strict(e) && e.to_set() == mentioned@.difference(logged@) && crate::text::string_views(
                        findings@,
                    ) == e.map_values(|id: Seq<char>| friction_finding(id));
                assert(crate::text::string_views(findings@).len() > 0);
                assert(e.map_values(|id: Seq<char>| friction_finding(id)).len() == e.len());
                assert(e.len() > 0);
                assert(e.to_set().contains(e[0]));
            }
            CheckOutcome::Fail { findings }
        }
    }
}

} // verus!
