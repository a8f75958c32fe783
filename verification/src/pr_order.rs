//! Suggested merge order of open PRs: a depth-first walk of the
//! `Depends on` edges, starting from the PRs that overlap least with the
//! others.
use vstd::prelude::*;
use crate::order::{IdSet, StringSet};
use crate::pr::{common_count, AnalysedPr};

verus! {

/// Files shared with the other PRs (those with another number), summed
/// over the first `n` PRs of `all`.
pub open spec fn overlap_prefix(target: AnalysedPr, all: Seq<AnalysedPr>, n: int) -> nat
    decreases n,
{
    if n <= 0 {
        0
    } else {
        overlap_prefix(target, all, n - 1) + if all[n - 1].number != target.number {
            common_count(target.files.elems(), all[n - 1].files.elems(), target.files.elems().len() as int)
        } else {
            0nat
        }
    }
}

/// Overlap sums only grow as more PRs are counted.
pub proof fn lemma_overlap_mono(target: AnalysedPr, all: Seq<AnalysedPr>, n: int, m: int)
    requires
        0 <= n <= m,
    ensures
        overlap_prefix(target, all, n) <= overlap_prefix(target, all, m),
    decreases m - n,
{
    if n < m {
        lemma_overlap_mono(target, all, n, m - 1);
    }
}

/// Number of files `target` shares with each other PR of `all`, summed.
pub fn count_overlap(target: &AnalysedPr, all: &Vec<AnalysedPr>) -> (r: usize)
    requires
        overlap_prefix(*target, all@, all@.len() as int) <= usize::MAX,
    ensures
        r == overlap_prefix(*target, all@, all@.len() as int),
{
    let mut sum: usize = 0;
    let mut i: usize = 0;
    while i < all.len()
        invariant
            i <= all.len(),
            overlap_prefix(*target, all@, all@.len() as int) <= usize::MAX,
            sum == overlap_prefix(*target, all@, i as int),
        decreases all.len() - i,
    {
        proof {
            lemma_overlap_mono(*target, all@, i + 1, all@.len() as int);
        }
        if all[i].number != target.number {
            let c = target.files.count_common(&all[i].files);
            sum = sum + c;
        }
        i += 1;
    }
    sum
}

/// The last PR of `prs` with this number (the one a map keyed by number
/// keeps).
pub open spec fn pr_for(prs: Seq<AnalysedPr>, id: i64) -> Option<int>
    decreases prs.len(),
{
    if prs.len() == 0 {
        None
    } else if prs.last().number == id {
        Some(prs.len() - 1)
    } else {
        pr_for(prs.drop_last(), id)
    }
}

pub proof fn lemma_pr_for(prs: Seq<AnalysedPr>, id: i64)
    ensures
        match pr_for(prs, id) {
            Some(i) => 0 <= i < prs.len() && prs[i].number == id,
            None => forall|j: int| 0 <= j < prs.len() ==> prs[j].number != id,
        },
    decreases prs.len(),
{
    if prs.len() > 0 && prs.last().number != id {
        lemma_pr_for(prs.drop_last(), id);
        assert(forall|j: int| 0 <= j < prs.len() - 1 ==> prs.drop_last()[j] == prs[j]);
    }
}

fn find_pr(prs: &Vec<AnalysedPr>, id: i64) -> (r: Option<usize>)
    ensures
        match r {
            Some(i) => pr_for(prs@, id) == Some(i as int),
            None => pr_for(prs@, id) is None,
        },
{
    let mut i = prs.len();
    assert(prs@.take(prs.len() as int) =~= prs@);
    while i > 0
        invariant
            i <= prs.len(),
            pr_for(prs@.take(i as int), id) == pr_for(prs@, id),
        decreases i,
    {
        assert(prs@.take(i as int).drop_last() =~= prs@.take(i - 1));
        assert(prs@.take(i as int).last() == prs@[i - 1]);
        if prs[i - 1].number == id {
            return Some(i - 1);
        }
        i -= 1;
    }
    None
}

/// Every PR number and every declared dependency, over the first `n` PRs.
pub open spec fn universe_seq(prs: Seq<AnalysedPr>, n: int) -> Seq<i64>
    decreases n,
{
    if n <= 0 {
        Seq::empty()
    } else {
        universe_seq(prs, n - 1).push(prs[n - 1].number) + prs[n - 1].depends_on.items@
    }
}

/// PR numbers and declared dependencies.
pub open spec fn universe(prs: Seq<AnalysedPr>) -> Set<i64> {
    universe_seq(prs, prs.len() as int).to_set()
}

pub proof fn lemma_universe(prs: Seq<AnalysedPr>, n: int, x: i64)
    requires
        0 <= n <= prs.len(),
    ensures
        universe_seq(prs, n).contains(x) <==> exists|i: int| 0 <= i < n && (prs[i].number == x
            || prs[i].depends_on.items@.contains(x)),
    decreases n,
{
    if n > 0 {
        lemma_universe(prs, n - 1, x);
        let prev = universe_seq(prs, n - 1);
        let cur = universe_seq(prs, n);
        let d = prs[n - 1].depends_on.items@;
        assert(cur == prev.push(prs[n - 1].number) + d);
        if cur.contains(x) {
            let k = choose|k: int| 0 <= k < cur.len() && cur[k] == x;
            if k < prev.len() {
                assert(prev[k] == x);
                let i = choose|i: int| 0 <= i < n - 1 && (prs[i].number == x || prs[i].depends_on.items@.contains(x));
                assert(0 <= i < n);
            } else if k == prev.len() {
                assert(prs[n - 1].number == x);
            } else {
                assert(d[k - prev.len() - 1] == x);
            }
        }
        if exists|i: int| 0 <= i < n && (prs[i].number == x || prs[i].depends_on.items@.contains(x)) {
            let i = choose|i: int| 0 <= i < n && (prs[i].number == x || prs[i].depends_on.items@.contains(x));
            if i < n - 1 {
                let k = choose|k: int| 0 <= k < prev.len() && prev[k] == x;
                assert(cur[k] == x);
            } else if prs[i].number == x {
                assert(cur[prev.len() as int] == x);
            } else {
                let k = choose|k: int| 0 <= k < d.len() && d[k] == x;
                assert(cur[prev.len() + 1 + k] == x);
            }
        }
    }
}

pub proof fn lemma_in_universe(prs: Seq<AnalysedPr>, i: int, x: i64)
    requires
        0 <= i < prs.len(),
        prs[i].number == x || prs[i].depends_on.items@.contains(x),
    ensures
        universe(prs).contains(x),
{
    lemma_universe(prs, prs.len() as int, x);
}

/// Dependencies of `id`, taken from the PR kept for that number.
pub open spec fn deps_of(prs: Seq<AnalysedPr>, id: i64) -> Seq<i64> {
    match pr_for(prs, id) {
        Some(i) => prs[i].depends_on.items@,
        None => Seq::empty(),
    }
}

pub open spec fn subset_of(s: Seq<i64>, u: Set<i64>) -> bool {
    forall|x: i64| s.contains(x) ==> u.contains(x)
}

proof fn lemma_visited_bound(visited: Seq<i64>, u: Set<i64>)
    requires
        visited.no_duplicates(),
        subset_of(visited, u),
        u.finite(),
    ensures
        visited.len() <= u.len(),
{
    visited.unique_seq_to_set();
    assert(visited.to_set().subset_of(u));
    vstd::set_lib::lemma_len_subset(visited.to_set(), u);
}

/// Every dependency of a listed number is listed before it.
pub open spec fn deps_first(prs: Seq<AnalysedPr>, o: Seq<i64>) -> bool {
    forall|j: int, d: i64|
        0 <= j < o.len() && #[trigger] deps_of(prs, o[j]).contains(d) ==> exists|k: int| 0 <= k < j && o[k] == d
}

/// `rank` decreases along every dependency: the dependencies have no
/// cycle.
pub open spec fn is_rank(prs: Seq<AnalysedPr>, rank: spec_fn(i64) -> nat) -> bool {
    forall|x: i64, d: i64| #[trigger] deps_of(prs, x).contains(d) ==> rank(d) < rank(x)
}

/// The declared dependencies have no cycle.
pub open spec fn acyclic(prs: Seq<AnalysedPr>) -> bool {
    exists|rank: spec_fn(i64) -> nat| is_rank(prs, rank)
}

pub open spec fn ob_has_deps(o: Seq<i64>, deps: Seq<i64>) -> bool {
    forall|q: int| 0 <= q < deps.len() ==> o.contains(#[trigger] deps[q])
}

/// Depth-first visit of `id` from `(visited, order)`: unless already
/// visited (or the nesting budget `fuel` is spent), mark it visited,
/// visit its dependencies in order, then append it.
pub open spec fn dfs(prs: Seq<AnalysedPr>, id: i64, st: (Seq<i64>, Seq<i64>), fuel: nat) -> (Seq<i64>, Seq<i64>)
    decreases fuel, 0nat, 0int,
{
    if st.0.contains(id) || fuel == 0 {
        st
    } else {
        let deps = deps_of(prs, id);
        let st1 = dfs_deps(prs, deps, deps.len() as int, (st.0.push(id), st.1), (fuel - 1) as nat);
        (st1.0, st1.1.push(id))
    }
}

/// The visits of the first `n` dependencies in `deps`, in order.
pub open spec fn dfs_deps(prs: Seq<AnalysedPr>, deps: Seq<i64>, n: int, st: (Seq<i64>, Seq<i64>), fuel: nat) -> (
    Seq<i64>,
    Seq<i64>,
)
    decreases fuel, 1nat, n,
{
    if n <= 0 {
        st
    } else {
        dfs(prs, deps[n - 1], dfs_deps(prs, deps, n - 1, st, fuel), fuel)
    }
}

/// Depth-first visit: dependencies first, then `id`; each number once.
fn visit(
    id: i64,
    prs: &Vec<AnalysedPr>,
    visited: &mut Vec<i64>,
    order: &mut Vec<i64>,
    Ghost(u): Ghost<Set<i64>>,
    Ghost(rank): Ghost<spec_fn(i64) -> nat>,
    Ghost(fuel): Ghost<nat>,
)
    requires
        fuel + old(visited)@.len() >= u.len(),
        is_rank(prs@, rank) ==> deps_first(prs@, old(order)@),
        is_rank(prs@, rank) ==> forall|g: i64|
            old(visited)@.contains(g) && !old(order)@.contains(g) ==> rank(g) > rank(id),
        u == universe(prs@),
        u.contains(id),
        old(visited)@.no_duplicates(),
        subset_of(old(visited)@, u),
        old(order)@.no_duplicates(),
        subset_of(old(order)@, old(visited)@.to_set()),
    ensures
        final(visited)@.no_duplicates(),
        subset_of(final(visited)@, u),
        final(visited)@.contains(id),
        forall|x: i64| old(visited)@.contains(x) ==> final(visited)@.contains(x),
        final(visited)@.len() >= old(visited)@.len(),
        final(order)@.no_duplicates(),
        final(order)@.len() >= old(order)@.len(),
        final(order)@.take(old(order)@.len() as int) == old(order)@,
        subset_of(final(order)@, final(visited)@.to_set()),
        forall|x: i64| #[trigger] final(visited)@.contains(x) && !old(visited)@.contains(x) ==> final(order)@.contains(x),
        forall|x: i64| #[trigger] final(order)@.contains(x) && !old(order)@.contains(x) ==> !old(visited)@.contains(x),
        is_rank(prs@, rank) ==> deps_first(prs@, final(order)@),
        (final(visited)@, final(order)@) == dfs(prs@, id, (old(visited)@, old(order)@), fuel),
    decreases u.len() - old(visited)@.len(),
{
    proof {
        universe_seq(prs@, prs@.len() as int).lemma_cardinality_of_set();
        lemma_visited_bound(visited@, u);
    }
    let mut k: usize = 0;
    while k < visited.len()
        invariant
            k <= visited.len(),
            visited@ == old(visited)@,
            order@ == old(order)@,
            old(visited)@.no_duplicates(),
            subset_of(old(visited)@, u),
            old(order)@.no_duplicates(),
            subset_of(old(order)@, old(visited)@.to_set()),
            forall|j: int| 0 <= j < k ==> visited@[j] != id,
            is_rank(prs@, rank) ==> deps_first(prs@, old(order)@),
        decreases visited.len() - k,
    {
        if visited[k] == id {
            proof {
                assert(order@.take(order@.len() as int) =~= order@);
                assert(old(visited)@.contains(id));
            }
            return;
        }
        k += 1;
    }
    let ghost v0 = visited@;
    let ghost o0 = order@;
    visited.push(id);
    proof {
        assert(visited@.no_duplicates());
        assert forall|x: i64| visited@.contains(x) implies u.contains(x) by {
            if x != id {
                let j = choose|j: int| 0 <= j < visited@.len() && visited@[j] == x;
                assert(v0[j] == x);
            }
        }
        assert(visited@[v0.len() as int] == id);
        assert forall|x: i64| order@.contains(x) implies visited@.to_set().contains(x) by {
            assert(v0.to_set().contains(x));
            let j = choose|j: int| 0 <= j < v0.len() && v0[j] == x;
            assert(visited@[j] == x);
        }
        assert forall|x: i64| v0.contains(x) implies visited@.contains(x) by {
            let j = choose|j: int| 0 <= j < v0.len() && v0[j] == x;
            assert(visited@[j] == x);
        }
        assert(order@.take(o0.len() as int) =~= o0);
        assert(!order@.contains(id)) by {
            if order@.contains(id) {
                assert(v0.to_set().contains(id));
            }
        }
        assert(!v0.contains(id));
        universe_seq(prs@, prs@.len() as int).lemma_cardinality_of_set();
        lemma_visited_bound(visited@, u);
        assert(fuel > 0);
    }
    match find_pr(prs, id) {
        None => {
            proof {
                lemma_pr_for(prs@, id);
                assert(deps_of(prs@, id) =~= Seq::<i64>::empty());
            }
        },
        Some(pi) => {
            proof {
                lemma_pr_for(prs@, id);
            }
            let deps = &prs[pi].depends_on.items;
            let mut i: usize = 0;
            while i < deps.len()
                invariant
                    i <= deps.len(),
                    pi < prs.len(),
                    deps@ == prs@[pi as int].depends_on.items@,
                    u == universe(prs@),
                    v0 == old(visited)@,
                    visited@.no_duplicates(),
                    subset_of(visited@, u),
                    visited@.len() > v0.len(),
                    visited@.contains(id),
                    forall|x: i64| v0.contains(x) ==> visited@.contains(x),
                    order@.no_duplicates(),
                    order@.len() >= o0.len(),
                    order@.take(o0.len() as int) == o0,
                    subset_of(order@, visited@.to_set()),
                    forall|x: i64| #[trigger] visited@.contains(x) && !v0.contains(x) && x != id ==> order@.contains(x),
                    !order@.contains(id),
                    forall|x: i64| #[trigger] order@.contains(x) && !o0.contains(x) ==> !v0.contains(x) && x != id,
                    pr_for(prs@, id) == Some(pi as int),
                    is_rank(prs@, rank) ==> deps_first(prs@, order@),
                    is_rank(prs@, rank) ==> forall|g: i64|
                        v0.contains(g) && !o0.contains(g) ==> rank(g) > rank(id),
                    forall|g: i64|
                        visited@.contains(g) && !order@.contains(g) ==> (v0.contains(g) && !o0.contains(g)) || g == id,
                    is_rank(prs@, rank) ==> forall|q: int| 0 <= q < i ==> order@.contains(#[trigger] deps@[q]),
                    fuel > 0,
                    fuel + v0.len() >= u.len(),
                    !v0.contains(id),
                    deps@ == deps_of(prs@, id),
                    (visited@, order@) == dfs_deps(prs@, deps@, i as int, (v0.push(id), o0), (fuel - 1) as nat),
                decreases deps.len() - i,
            {
                let d = deps[i];
                proof {
                    assert(prs@[pi as int].depends_on.items@.contains(d));
                    lemma_in_universe(prs@, pi as int, d);
                    universe_seq(prs@, prs@.len() as int).lemma_cardinality_of_set();
                    lemma_visited_bound(visited@, u);
                }
                let ghost vb = visited@;
                let ghost ob = order@;
                proof {
                    if is_rank(prs@, rank) {
                        assert(deps_of(prs@, id).contains(d));
                        assert(rank(d) < rank(id));
                    }
                }
                proof {
                    assert(deps@[i as int] == d);
                }
                if d != id {
                    visit(d, prs, visited, order, Ghost(u), Ghost(rank), Ghost((fuel - 1) as nat));
                    proof {
                        assert(order@.take(o0.len() as int) =~= o0) by {
                            assert(order@.take(ob.len() as int) == ob);
                            assert forall|j: int| 0 <= j < o0.len() implies order@[j] == o0[j] by {
                                assert(ob[j] == o0[j]);
                                assert(order@.take(ob.len() as int)[j] == order@[j]);
                            }
                        }
                        assert forall|x: i64| #[trigger] visited@.contains(x) && !v0.contains(x) && x != id implies order@.contains(x) by {
                            if vb.contains(x) {
                                assert(ob.contains(x));
                                let j = choose|j: int| 0 <= j < ob.len() && ob[j] == x;
                                assert(order@.take(ob.len() as int)[j] == x);
                                assert(order@[j] == x);
                            }
                        }
                        assert forall|x: i64| #[trigger] order@.contains(x) && !o0.contains(x) implies !v0.contains(x) && x != id by {
                            if !ob.contains(x) {
                                assert(!vb.contains(x));
                            }
                        }
                        if order@.contains(id) {
                            assert(vb.contains(id));
                            if !ob.contains(id) {
                                assert(!vb.contains(id));
                            }
                        }
                        assert forall|g: i64| visited@.contains(g) && !order@.contains(g) implies (v0.contains(g)
                            && !o0.contains(g)) || g == id by {
                            if !vb.contains(g) {
                                assert(order@.contains(g));
                            }
                            if ob.contains(g) {
                                let j = choose|j: int| 0 <= j < ob.len() && ob[j] == g;
                                assert(order@.take(ob.len() as int)[j] == g);
                                assert(order@.contains(g));
                            }
                        }
                        if is_rank(prs@, rank) {
                            assert forall|q: int| 0 <= q < i + 1 implies order@.contains(#[trigger] deps@[q]) by {
                                if q < i {
                                    assert(ob.contains(deps@[q]));
                                    let j = choose|j: int| 0 <= j < ob.len() && ob[j] == deps@[q];
                                    assert(order@.take(ob.len() as int)[j] == deps@[q]);
                                    assert(order@.contains(deps@[q]));
                                } else {
                                    assert(deps@[q] == d);
                                    if !order@.contains(d) {
                                        assert(visited@.contains(d));
                                        assert(rank(d) < rank(id));
                                    }
                                }
                            }
                        }
                    }
                } else {
                    proof {
                        if is_rank(prs@, rank) {
                            assert(false);
                        }
                        assert(vb.contains(id));
                    }
                }
                i += 1;
            }
            proof {
                if is_rank(prs@, rank) {
                    assert(ob_has_deps(order@, deps@));
                }
            }
        },
    }
    let ghost ob = order@;
    order.push(id);
    proof {
        assert(order@.take(ob.len() as int) =~= ob);
        assert(order@.take(o0.len() as int) =~= o0) by {
            assert forall|j: int| 0 <= j < o0.len() implies order@[j] == o0[j] by {
                assert(ob.take(o0.len() as int)[j] == ob[j]);
            }
        }
        assert forall|x: i64| #[trigger] order@.contains(x) && !o0.contains(x) implies !v0.contains(x) by {
            if x != id {
                let j = choose|j: int| 0 <= j < order@.len() && order@[j] == x;
                assert(ob[j] == x);
                assert(ob.contains(x));
            }
        }
        assert forall|x: i64| #[trigger] visited@.contains(x) && !v0.contains(x) implies order@.contains(x) by {
            if x == id {
                assert(order@[ob.len() as int] == id);
            } else {
                let j = choose|j: int| 0 <= j < ob.len() && ob[j] == x;
                assert(order@[j] == x);
            }
        }
        assert forall|x: i64| order@.contains(x) implies visited@.to_set().contains(x) by {
            if x != id {
                let j = choose|j: int| 0 <= j < order@.len() && order@[j] == x;
                assert(ob[j] == x);
                assert(ob.contains(x));
                assert(visited@.to_set().contains(x));
            }
        }
        if is_rank(prs@, rank) {
            assert forall|j: int, dd: i64|
                0 <= j < order@.len() && #[trigger] deps_of(prs@, order@[j]).contains(dd) implies exists|k: int|
                0 <= k < j && order@[k] == dd by {
                if j < ob.len() {
                    assert(order@[j] == ob[j]);
                    let k = choose|k: int| 0 <= k < j && ob[k] == dd;
                    assert(order@[k] == dd);
                } else {
                    assert(order@[j] == id);
                    lemma_pr_for(prs@, id);
                    match pr_for(prs@, id) {
                        None => {},
                        Some(pi) => {
                            let q = choose|q: int| 0 <= q < prs@[pi].depends_on.items@.len()
                                && prs@[pi].depends_on.items@[q] == dd;
                            assert(ob_has_deps(ob, prs@[pi].depends_on.items@));
                            assert(ob.contains(dd));
                            let k = choose|k: int| 0 <= k < ob.len() && ob[k] == dd;
                            assert(order@[k] == dd);
                        },
                    }
                }
            }
        }
    }
}

/// `x` is ranked.
pub open spec fn ranked_has(ranked: Seq<(usize, i64)>, x: i64) -> bool {
    exists|t: int| 0 <= t < ranked.len() && (#[trigger] ranked[t]).1 == x
}

/// Lexicographic order on `(overlap, number)`.
pub open spec fn rank_lt(a: (usize, i64), b: (usize, i64)) -> bool {
    a.0 < b.0 || (a.0 == b.0 && a.1 < b.1)
}

/// Overlap of the PR kept for `id` with the others (0 for a number
/// that no PR has).
pub open spec fn overlap_of(prs: Seq<AnalysedPr>, id: i64) -> nat {
    match pr_for(prs, id) {
        Some(i) => overlap_prefix(prs[i], prs, prs.len() as int),
        None => 0,
    }
}

/// `ranked` lists each PR number once, with its overlap, in increasing
/// `(overlap, number)` order.
pub open spec fn ranked_ok(prs: Seq<AnalysedPr>, ranked: Seq<(usize, i64)>) -> bool {
    &&& forall|a: int, b: int| 0 <= a < b < ranked.len() ==> rank_lt(ranked[a], ranked[b])
    &&& forall|t: int| 0 <= t < ranked.len() ==> (#[trigger] ranked[t]).0 == overlap_of(prs, ranked[t].1)
    &&& forall|x: i64| ranked_has(ranked, x) <==> exists|j: int| 0 <= j < prs.len() && prs[j].number == x
}

/// The depth-first visits of the first `n` ranked numbers, from nothing
/// visited, each with a nesting budget of the number of PRs and
/// dependencies.
pub open spec fn dfs_fold(prs: Seq<AnalysedPr>, ranked: Seq<(usize, i64)>, n: int) -> (Seq<i64>, Seq<i64>)
    decreases n,
{
    if n <= 0 {
        (Seq::empty(), Seq::empty())
    } else {
        dfs(prs, ranked[n - 1].1, dfs_fold(prs, ranked, n - 1), universe(prs).len())
    }
}

/// Suggested merge order: each PR visited in increasing `(overlap,
/// number)`, its dependencies (recursively) listed before it.
pub fn suggest_merge_order(prs: &Vec<AnalysedPr>) -> (r: Vec<i64>)
    requires
        forall|i: int| 0 <= i < prs.len() ==> overlap_of(prs@, (#[trigger] prs@[i]).number) <= usize::MAX,
    ensures
        r@.no_duplicates(),
        forall|i: int| 0 <= i < prs.len() ==> r@.contains(#[trigger] prs@[i].number),
        forall|x: i64| r@.contains(x) ==> universe(prs@).contains(x),
        acyclic(prs@) ==> deps_first(prs@, r@),
        exists|ranked: Seq<(usize, i64)>|
            ranked_ok(prs@, ranked) && r@ == #[trigger] dfs_fold(prs@, ranked, ranked.len() as int).1,
{
    let ghost u = universe(prs@);
    let mut keys = IdSet::new();
    let mut i: usize = 0;
    while i < prs.len()
        invariant
            i <= prs.len(),
            keys.wf(),
            forall|j: int| 0 <= j < i ==> keys.items@.contains(#[trigger] prs@[j].number),
            forall|x: i64| keys.items@.contains(x) ==> exists|j: int| 0 <= j < prs.len() && prs@[j].number == x,
        decreases prs.len() - i,
    {
        let ghost before = keys.items@;
        keys.insert(prs[i].number);
        proof {
            assert forall|j: int| 0 <= j <= i implies keys.items@.contains(#[trigger] prs@[j].number) by {
                if j < i {
                    assert(before.to_set().contains(prs@[j].number));
                }
                assert(keys.items@.to_set().contains(prs@[j].number));
            }
            assert forall|x: i64| keys.items@.contains(x) implies exists|j: int| 0 <= j < prs.len() && prs@[j].number == x by {
                assert(keys.items@.to_set().contains(x));
                if x != prs@[i as int].number {
                    assert(before.to_set().contains(x));
                }
            }
        }
        i += 1;
    }
    // Rank every key by (overlap with the others, number), insertion-sorted.
    let mut ranked: Vec<(usize, i64)> = Vec::new();
    let mut k: usize = 0;
    while k < keys.items.len()
        invariant
            k <= keys.items.len(),
            forall|a: int, b: int| 0 <= a < b < ranked@.len() ==> rank_lt(ranked@[a], ranked@[b]),
            forall|x: i64| ranked_has(ranked@, x) ==> keys.items@.contains(x),
            forall|x: i64| ranked_has(ranked@, x) ==> exists|j: int| 0 <= j < k && keys.items@[j] == x,
            keys.wf(),
            forall|j: int| 0 <= j < k ==> ranked_has(ranked@, keys.items@[j]),
            forall|t: int| 0 <= t < ranked@.len() ==> (#[trigger] ranked@[t]).0 == overlap_of(prs@, ranked@[t].1),
            forall|i: int| 0 <= i < prs.len() ==> overlap_of(prs@, (#[trigger] prs@[i]).number) <= usize::MAX,
            forall|j: int| 0 <= j < prs.len() ==> keys.items@.contains(#[trigger] prs@[j].number),
            forall|x: i64| keys.items@.contains(x) ==> exists|j: int| 0 <= j < prs.len() && prs@[j].number == x,
        decreases keys.items.len() - k,
    {
        let id = keys.items[k];
        let ov = match find_pr(prs, id) {
            Some(pi) => {
                proof {
                    lemma_pr_for(prs@, id);
                    let j = choose|j: int| 0 <= j < prs.len() && prs@[j].number == id;
                    assert(overlap_of(prs@, prs@[j].number) <= usize::MAX);
                }
                count_overlap(&prs[pi], prs)
            },
            None => 0,
        };
        assert(ov == overlap_of(prs@, id));
        let key = (ov, id);
        let mut pos: usize = 0;
        while pos < ranked.len() && (ranked[pos].0 < ov || (ranked[pos].0 == ov && ranked[pos].1 < id))
            invariant
                pos <= ranked.len(),
                key == (ov, id),
                k < keys.items.len(),
                id == keys.items@[k as int],
                keys.wf(),
                forall|x: i64| ranked_has(ranked@, x) ==> exists|j: int| 0 <= j < k && keys.items@[j] == x,
                forall|x: i64| ranked_has(ranked@, x) ==> keys.items@.contains(x),
                forall|a: int, b: int| 0 <= a < b < ranked@.len() ==> rank_lt(ranked@[a], ranked@[b]),
                forall|j: int| 0 <= j < pos ==> rank_lt(ranked@[j], key),
                forall|t: int| 0 <= t < ranked@.len() ==> (#[trigger] ranked@[t]).0 == overlap_of(prs@, ranked@[t].1),
            decreases ranked.len() - pos,
        {
            assert(rank_lt(ranked@[pos as int], key));
            pos += 1;
        }
        let ghost before = ranked@;
        ranked.insert(pos, key);
        proof {
            assert(ranked@ =~= before.insert(pos as int, key));
            assert forall|a: int, b: int| 0 <= a < b < ranked@.len() implies rank_lt(ranked@[a], ranked@[b]) by {
                if b < pos {
                    assert(ranked@[a] == before[a]);
                    assert(ranked@[b] == before[b]);
                } else if a < pos && b == pos {
                    assert(ranked@[a] == before[a]);
                } else if a < pos && b > pos {
                    assert(ranked@[a] == before[a]);
                    assert(ranked@[b] == before[b - 1]);
                } else if a == pos {
                    assert(ranked@[b] == before[b - 1]);
                    if pos < before.len() {
                        assert(!rank_lt(before[pos as int], key));
                        assert(ranked_has(before, before[pos as int].1));
                        let jj = choose|jj: int| 0 <= jj < k && keys.items@[jj] == before[pos as int].1;
                        assert(keys.items@[jj] < keys.items@[k as int]);
                        assert(rank_lt(key, before[pos as int]));
                        if b - 1 > pos {
                            assert(rank_lt(before[pos as int], before[b - 1]));
                        }
                    }
                } else {
                    assert(ranked@[a] == before[a - 1]);
                    assert(ranked@[b] == before[b - 1]);
                }
            }
            assert forall|x: i64| ranked_has(ranked@, x) implies exists|j: int| 0 <= j < k + 1 && keys.items@[j] == x by {
                let j = choose|j: int| 0 <= j < ranked@.len() && (#[trigger] ranked@[j]).1 == x;
                if j < pos {
                    assert(ranked@[j] == before[j]);
                    assert(ranked_has(before, x));
                } else if j > pos {
                    assert(ranked@[j] == before[j - 1]);
                    assert(ranked_has(before, x));
                } else {
                    assert(keys.items@[k as int] == x);
                }
            }
            assert forall|x: i64| ranked_has(ranked@, x) implies keys.items@.contains(x) by {
                let j = choose|j: int| 0 <= j < ranked@.len() && (#[trigger] ranked@[j]).1 == x;
                if j < pos {
                    assert(ranked@[j] == before[j]);
                    assert(before[j].1 == x);
                } else if j > pos {
                    assert(ranked@[j] == before[j - 1]);
                    assert(before[j - 1].1 == x);
                } else {
                    assert(keys.items@[k as int] == x);
                }
            }
            assert forall|t: int| 0 <= t < ranked@.len() implies (#[trigger] ranked@[t]).0 == overlap_of(prs@, ranked@[t].1) by {
                if t < pos {
                    assert(ranked@[t] == before[t]);
                } else if t > pos {
                    assert(ranked@[t] == before[t - 1]);
                }
            }
            assert forall|j: int| 0 <= j < k + 1 implies ranked_has(ranked@, keys.items@[j]) by {
                if j == k {
                    assert(ranked@[pos as int].1 == keys.items@[j]);
                } else {
                    let t = choose|t: int| 0 <= t < before.len() && (#[trigger] before[t]).1 == keys.items@[j];
                    if t < pos {
                        assert(ranked@[t] == before[t]);
                        assert(ranked@[t].1 == keys.items@[j]);
                    } else {
                        assert(ranked@[t + 1] == before[t]);
                        assert(ranked@[t + 1].1 == keys.items@[j]);
                    }
                }
            }
        }
        k += 1;
    }
    // Depth-first walk in rank order.
    let ghost rank = choose|rank: spec_fn(i64) -> nat| is_rank(prs@, rank);
    let mut visited: Vec<i64> = Vec::new();
    let mut order: Vec<i64> = Vec::new();
    let mut t: usize = 0;
    while t < ranked.len()
        invariant
            t <= ranked.len(),
            u == universe(prs@),
            forall|x: i64| ranked_has(ranked@, x) ==> keys.items@.contains(x),
            forall|x: i64| keys.items@.contains(x) ==> exists|j: int| 0 <= j < prs.len() && prs@[j].number == x,
            visited@.no_duplicates(),
            subset_of(visited@, u),
            order@.no_duplicates(),
            forall|x: i64| visited@.contains(x) <==> order@.contains(x),
            forall|j: int| 0 <= j < t ==> visited@.contains(#[trigger] ranked@[j].1),
            forall|j: int| 0 <= j < prs.len() ==> keys.items@.contains(#[trigger] prs@[j].number),
            forall|j: int| 0 <= j < keys.items@.len() ==> ranked_has(ranked@, keys.items@[j]),
            is_rank(prs@, rank) ==> deps_first(prs@, order@),
            (visited@, order@) == dfs_fold(prs@, ranked@, t as int),
        decreases ranked.len() - t,
    {
        let id = ranked[t].1;
        proof {
            assert(ranked@[t as int].1 == id);
            assert(ranked_has(ranked@, id));
            assert(keys.items@.contains(id));
            let j = choose|j: int| 0 <= j < prs.len() && prs@[j].number == id;
            lemma_in_universe(prs@, j, id);
            assert forall|x: i64| order@.contains(x) implies visited@.to_set().contains(x) by {}
        }
        let ghost vb = visited@;
        let ghost ob = order@;
        visit(id, prs, &mut visited, &mut order, Ghost(u), Ghost(rank), Ghost(u.len()));
        proof {
            assert forall|x: i64| visited@.contains(x) <==> order@.contains(x) by {
                if order@.contains(x) {
                    assert(visited@.to_set().contains(x));
                }
                if visited@.contains(x) && vb.contains(x) {
                    let j = choose|j: int| 0 <= j < ob.len() && ob[j] == x;
                    assert(order@.take(ob.len() as int)[j] == x);
                }
            }
            assert forall|j: int| 0 <= j < t + 1 implies visited@.contains(#[trigger] ranked@[j].1) by {
                if j < t {
                    assert(vb.contains(ranked@[j].1));
                }
            }
        }
        t += 1;
    }
    proof {
        assert forall|i: int| 0 <= i < prs.len() implies order@.contains(#[trigger] prs@[i].number) by {
            assert(keys.items@.contains(prs@[i].number));
            let j = choose|j: int| 0 <= j < keys.items@.len() && keys.items@[j] == prs@[i].number;
            assert(ranked_has(ranked@, keys.items@[j]));
            let tt = choose|tt: int| 0 <= tt < ranked@.len() && (#[trigger] ranked@[tt]).1 == keys.items@[j];
            assert(visited@.contains(ranked@[tt].1));
        }
        assert forall|x: i64| ranked_has(ranked@, x) <==> exists|j: int| 0 <= j < prs.len() && prs@[j].number == x by {
            if exists|j: int| 0 <= j < prs.len() && prs@[j].number == x {
                let j = choose|j: int| 0 <= j < prs.len() && prs@[j].number == x;
                assert(keys.items@.contains(prs@[j].number));
                let jj = choose|jj: int| 0 <= jj < keys.items@.len() && keys.items@[jj] == x;
                assert(ranked_has(ranked@, keys.items@[jj]));
            }
        }
        assert(ranked_ok(prs@, ranked@));
        assert(order@ == dfs_fold(prs@, ranked@, ranked@.len() as int).1);
    }
    order
}

proof fn lemma_common_count_zero(a: Seq<Seq<char>>, b: Seq<Seq<char>>, n: int)
    requires
        forall|i: int| 0 <= i < n && i < a.len() ==> !b.contains(#[trigger] a[i]),
        n <= a.len(),
    ensures
        common_count(a, b, n) == 0,
    decreases n,
{
    if n > 0 {
        lemma_common_count_zero(a, b, n - 1);
    }
}

proof fn lemma_overlap_push(target: AnalysedPr, all: Seq<AnalysedPr>, p: AnalysedPr, k: int)
    requires
        k <= all.len(),
    ensures
        overlap_prefix(target, all.push(p), k) == overlap_prefix(target, all, k),
    decreases k,
{
    if k > 0 {
        lemma_overlap_push(target, all, p, k - 1);
        assert(all.push(p)[k - 1] == all[k - 1]);
    }
}

/// A PR's overlap counts only files shared with PRs of another number:
/// listing another entry with its own number leaves it unchanged.
pub proof fn law_overlap_ignores_own_number(target: AnalysedPr, all: Seq<AnalysedPr>, p: AnalysedPr)
    requires
        p.number == target.number,
    ensures
        overlap_prefix(target, all.push(p), (all.len() + 1) as int) == overlap_prefix(target, all, all.len() as int),
{
    lemma_overlap_push(target, all, p, all.len() as int);
}

/// A PR none of whose files appears in a PR of another number has
/// overlap zero, whatever its own files are.
pub proof fn law_overlap_zero_when_nothing_shared(target: AnalysedPr, all: Seq<AnalysedPr>)
    requires
        forall|j: int, f: Seq<char>|
            0 <= j < all.len() && all[j].number != target.number && target.files.elems().contains(f)
                ==> !#[trigger] all[j].files.elems().contains(f),
    ensures
        overlap_prefix(target, all, all.len() as int) == 0,
{
    assert forall|n: int| 0 <= n <= all.len() implies overlap_prefix(target, all, n) == 0 by {
        lemma_overlap_zero_prefix(target, all, n);
    }
}

proof fn lemma_overlap_zero_prefix(target: AnalysedPr, all: Seq<AnalysedPr>, n: int)
    requires
        0 <= n <= all.len(),
        forall|j: int, f: Seq<char>|
            0 <= j < all.len() && all[j].number != target.number && target.files.elems().contains(f)
                ==> !#[trigger] all[j].files.elems().contains(f),
    ensures
        overlap_prefix(target, all, n) == 0,
    decreases n,
{
    if n > 0 {
        lemma_overlap_zero_prefix(target, all, n - 1);
        if all[n - 1].number != target.number {
            let a = target.files.elems();
            let b = all[n - 1].files.elems();
            assert forall|i: int| 0 <= i < a.len() && i < a.len() implies !b.contains(#[trigger] a[i]) by {
                assert(a.contains(a[i]));
            }
            lemma_common_count_zero(a, b, a.len() as int);
        }
    }
}

proof fn lemma_common_count_hit(a: Seq<Seq<char>>, b: Seq<Seq<char>>, n: int, i: int)
    requires
        0 <= i < n <= a.len(),
        b.contains(a[i]),
    ensures
        common_count(a, b, n) >= 1,
    decreases n,
{
    if i < n - 1 {
        lemma_common_count_hit(a, b, n - 1, i);
    }
}

/// A PR that shares a file with a PR of another number has a positive
/// overlap.
pub proof fn law_overlap_positive_when_shared(target: AnalysedPr, all: Seq<AnalysedPr>, j: int, f: Seq<char>)
    requires
        0 <= j < all.len(),
        all[j].number != target.number,
        target.files.elems().contains(f),
        all[j].files.elems().contains(f),
    ensures
        overlap_prefix(target, all, all.len() as int) >= 1,
{
    let a = target.files.elems();
    let i = choose|i: int| 0 <= i < a.len() && a[i] == f;
    lemma_common_count_hit(a, all[j].files.elems(), a.len() as int, i);
    assert(overlap_prefix(target, all, j + 1) >= 1);
    lemma_overlap_mono(target, all, j + 1, all.len() as int);
}

} // verus!
