//! Lexicographic order of strings (the order of `str::cmp`: UTF-8
//! byte order, which is code point order), and ordered string sets with
//! the iteration order of `BTreeSet<String>`.
use vstd::prelude::*;
use crate::text::{chars_of, string_of};

verus! {

/// `a < b` in lexicographic order by code point.
pub open spec fn seq_lt(a: Seq<char>, b: Seq<char>) -> bool
    decreases a.len(),
{
    if a.len() == 0 {
        b.len() > 0
    } else if b.len() == 0 {
        false
    } else if a[0] < b[0] {
        true
    } else if a[0] == b[0] {
        seq_lt(a.skip(1), b.skip(1))
    } else {
        false
    }
}

pub proof fn lemma_lt_irreflexive(a: Seq<char>)
    ensures
        !seq_lt(a, a),
    decreases a.len(),
{
    if a.len() > 0 {
        lemma_lt_irreflexive(a.skip(1));
    }
}

pub proof fn lemma_lt_asymmetric(a: Seq<char>, b: Seq<char>)
    ensures
        !(seq_lt(a, b) && seq_lt(b, a)),
    decreases a.len(),
{
    if a.len() > 0 && b.len() > 0 && a[0] == b[0] {
        lemma_lt_asymmetric(a.skip(1), b.skip(1));
    }
}

pub proof fn lemma_lt_transitive(a: Seq<char>, b: Seq<char>, c: Seq<char>)
    requires
        seq_lt(a, b),
        seq_lt(b, c),
    ensures
        seq_lt(a, c),
    decreases a.len(),
{
    if a.len() > 0 && b.len() > 0 && c.len() > 0 && a[0] == b[0] && b[0] == c[0] {
        lemma_lt_transitive(a.skip(1), b.skip(1), c.skip(1));
    }
}

pub proof fn lemma_lt_total(a: Seq<char>, b: Seq<char>)
    ensures
        seq_lt(a, b) || seq_lt(b, a) || a == b,
    decreases a.len(),
{
    if a.len() > 0 && b.len() > 0 {
        if a[0] == b[0] {
            lemma_lt_total(a.skip(1), b.skip(1));
            if a.skip(1) == b.skip(1) {
                assert(a =~= seq![a[0]] + a.skip(1));
                assert(b =~= seq![b[0]] + b.skip(1));
            }
        }
    } else if a.len() == 0 && b.len() == 0 {
        assert(a =~= b);
    }
}

/// `a < b` lexicographically.
pub fn chars_lt(a: &Vec<char>, b: &Vec<char>) -> (r: bool)
    ensures
        r == seq_lt(a@, b@),
{
    let mut i: usize = 0;
    proof {
        assert(a@.skip(0) =~= a@);
        assert(b@.skip(0) =~= b@);
    }
    while i < a.len() && i < b.len() && a[i] == b[i]
        invariant
            i <= a.len(),
            i <= b.len(),
            seq_lt(a@.skip(i as int), b@.skip(i as int)) == seq_lt(a@, b@),
        decreases a.len() - i,
    {
        assert(a@.skip(i as int).skip(1) =~= a@.skip(i + 1));
        assert(b@.skip(i as int).skip(1) =~= b@.skip(i + 1));
        i += 1;
    }
    if i == a.len() {
        i < b.len()
    } else if i == b.len() {
        false
    } else {
        assert(a@.skip(i as int)[0] == a@[i as int]);
        assert(b@.skip(i as int)[0] == b@[i as int]);
        a[i] < b[i]
    }
}

/// Strictly increasing.
pub open spec fn sorted_strict(s: Seq<Seq<char>>) -> bool {
    forall|i: int, j: int| 0 <= i < j < s.len() ==> seq_lt(s[i], s[j])
}

/// Sorted, each element once.
pub open spec fn sorted_ints(s: Seq<i64>) -> bool {
    forall|i: int, j: int| 0 <= i < j < s.len() ==> s[i] < s[j]
}

/// A set of strings, iterated in increasing order.
pub struct StringSet {
    pub items: Vec<String>,
}

pub open spec fn item_views(v: Seq<String>) -> Seq<Seq<char>> {
    v.map_values(|x: String| x@)
}

impl StringSet {
    pub open spec fn wf(&self) -> bool {
        sorted_strict(item_views(self.items@))
    }

    /// The elements, in iteration order.
    pub open spec fn elems(&self) -> Seq<Seq<char>> {
        item_views(self.items@)
    }

    pub open spec fn view(&self) -> Set<Seq<char>> {
        self.elems().to_set()
    }

    pub fn new() -> (r: StringSet)
        ensures
            r.wf(),
            r.elems() == Seq::<Seq<char>>::empty(),
    {
        let r = StringSet { items: Vec::new() };
        assert(r.elems() =~= Seq::<Seq<char>>::empty());
        r
    }

    pub fn len(&self) -> (r: usize)
        ensures
            r == self.elems().len(),
    {
        self.items.len()
    }

    pub fn is_empty(&self) -> (r: bool)
        ensures
            r == (self.elems().len() == 0),
    {
        self.items.len() == 0
    }

    /// Membership.
    pub fn contains_chars(&self, x: &Vec<char>) -> (r: bool)
        ensures
            r == self.elems().contains(x@),
    {
        let mut i: usize = 0;
        while i < self.items.len()
            invariant
                i <= self.items.len(),
                forall|j: int| 0 <= j < i ==> self.elems()[j] != x@,
            decreases self.items.len() - i,
        {
            let c = chars_of(self.items[i].as_str());
            if crate::text::eq(&c, x) {
                assert(self.elems()[i as int] == x@);
                return true;
            }
            i += 1;
        }
        false
    }

    /// Membership of a `str`.
    pub fn contains(&self, x: &str) -> (r: bool)
        ensures
            r == self.elems().contains(x@),
    {
        self.contains_chars(&chars_of(x))
    }

    /// Inserts `x` at its place in the order; no change when present.
    pub fn insert_chars(&mut self, x: &Vec<char>)
        requires
            old(self).wf(),
        ensures
            final(self).wf(),
            final(self).elems().to_set() == old(self).elems().to_set().insert(x@),
    {
        let ghost e = self.elems();
        let mut i: usize = 0;
        while i < self.items.len()
            invariant
                i <= self.items.len(),
                e == self.elems(),
                sorted_strict(e),
                forall|j: int| 0 <= j < i ==> seq_lt(e[j], x@),
            ensures
                i <= self.items.len(),
                e == self.elems(),
                forall|j: int| 0 <= j < i ==> seq_lt(e[j], x@),
                i < self.items.len() ==> !seq_lt(e[i as int], x@),
            decreases self.items.len() - i,
        {
            let c = chars_of(self.items[i].as_str());
            assert(e[i as int] == c@);
            if !chars_lt(&c, x) {
                break;
            }
            i += 1;
        }
        if i < self.items.len() {
            let c = chars_of(self.items[i].as_str());
            if crate::text::eq(&c, x) {
                proof {
                    assert(e[i as int] == x@);
                    assert(e.to_set().insert(x@) =~= e.to_set());
                }
                return;
            }
            proof {
                lemma_lt_total(e[i as int], x@);
            }
        }
        let s = string_of(x);
        self.items.insert(i, s);
        proof {
            let ne = self.elems();
            assert(ne =~= e.insert(i as int, x@));
            assert forall|a: int, b: int| 0 <= a < b < ne.len() implies seq_lt(ne[a], ne[b]) by {
                if b == i {
                    assert(ne[a] == e[a]);
                } else if a == i {
                    assert(ne[b] == e[b - 1]);
                    if b - 1 > i {
                        lemma_lt_transitive(x@, e[i as int], e[b - 1]);
                    }
                } else if a < i && b > i {
                    assert(ne[a] == e[a]);
                    assert(ne[b] == e[b - 1]);
                } else if a > i {
                    assert(ne[a] == e[a - 1]);
                    assert(ne[b] == e[b - 1]);
                }
            }
            assert forall|y: Seq<char>| ne.to_set().contains(y) <==> e.to_set().insert(x@).contains(y) by {
                if e.contains(y) {
                    let k = choose|k: int| 0 <= k < e.len() && e[k] == y;
                    if k < i {
                        assert(ne[k] == y);
                    } else {
                        assert(ne[k + 1] == y);
                    }
                }
                if ne.contains(y) {
                    let k = choose|k: int| 0 <= k < ne.len() && ne[k] == y;
                    if k < i {
                        assert(e[k] == y);
                    } else if k > i {
                        assert(e[k - 1] == y);
                    }
                }
                assert(ne[i as int] == x@);
            }
            assert(ne.to_set() =~= e.to_set().insert(x@));
        }
    }

    /// Inserts a `str`.
    pub fn insert(&mut self, x: &str)
        requires
            old(self).wf(),
        ensures
            final(self).wf(),
            final(self).elems().to_set() == old(self).elems().to_set().insert(x@),
    {
        let c = chars_of(x);
        self.insert_chars(&c);
    }
}

/// A set of integers, iterated in increasing order.
pub struct IdSet {
    pub items: Vec<i64>,
}

impl IdSet {
    pub open spec fn wf(&self) -> bool {
        sorted_ints(self.items@)
    }

    pub open spec fn view(&self) -> Set<i64> {
        self.items@.to_set()
    }

    pub fn new() -> (r: IdSet)
        ensures
            r.wf(),
            r.items@ == Seq::<i64>::empty(),
    {
        IdSet { items: Vec::new() }
    }

    pub fn len(&self) -> (r: usize)
        ensures
            r == self.items@.len(),
    {
        self.items.len()
    }

    pub fn is_empty(&self) -> (r: bool)
        ensures
            r == (self.items@.len() == 0),
    {
        self.items.len() == 0
    }

    pub fn contains(&self, x: &i64) -> (r: bool)
        ensures
            r == self.items@.contains(*x),
    {
        let mut i: usize = 0;
        while i < self.items.len()
            invariant
                i <= self.items.len(),
                forall|j: int| 0 <= j < i ==> self.items@[j] != *x,
            decreases self.items.len() - i,
        {
            if self.items[i] == *x {
                return true;
            }
            i += 1;
        }
        false
    }

    /// Inserts `x` at its place in the order; no change when present.
    pub fn insert(&mut self, x: i64)
        requires
            old(self).wf(),
        ensures
            final(self).wf(),
            final(self).items@.to_set() == old(self).items@.to_set().insert(x),
    {
        let ghost e = self.items@;
        let mut i: usize = 0;
        while i < self.items.len() && self.items[i] < x
            invariant
                i <= self.items.len(),
                e == self.items@,
                sorted_ints(e),
                forall|j: int| 0 <= j < i ==> e[j] < x,
            decreases self.items.len() - i,
        {
            i += 1;
        }
        if i < self.items.len() && self.items[i] == x {
            assert(e.to_set().insert(x) =~= e.to_set());
            return;
        }
        self.items.insert(i, x);
        proof {
            let ne = self.items@;
            assert(ne =~= e.insert(i as int, x));
            assert forall|a: int, b: int| 0 <= a < b < ne.len() implies ne[a] < ne[b] by {
                if b == i {
                    assert(ne[a] == e[a]);
                } else if a == i {
                    assert(ne[b] == e[b - 1]);
                } else if a < i && b > i {
                    assert(ne[a] == e[a]);
                    assert(ne[b] == e[b - 1]);
                } else if a > i {
                    assert(ne[a] == e[a - 1]);
                    assert(ne[b] == e[b - 1]);
                }
            }
            assert forall|y: i64| ne.to_set().contains(y) <==> e.to_set().insert(x).contains(y) by {
                if e.contains(y) {
                    let k = choose|k: int| 0 <= k < e.len() && e[k] == y;
                    if k < i {
                        assert(ne[k] == y);
                    } else {
                        assert(ne[k + 1] == y);
                    }
                }
                if ne.contains(y) {
                    let k = choose|k: int| 0 <= k < ne.len() && ne[k] == y;
                    if k < i {
                        assert(e[k] == y);
                    } else if k > i {
                        assert(e[k - 1] == y);
                    }
                }
                assert(ne[i as int] == x);
            }
            assert(ne.to_set() =~= e.to_set().insert(x));
        }
    }
}

} // verus!

verus! {

/// `a <= b` lexicographically.
pub open spec fn seq_le(a: Seq<char>, b: Seq<char>) -> bool {
    !seq_lt(b, a)
}

/// `r` lists each index below `n` once.
pub open spec fn is_perm(r: Seq<usize>, n: nat) -> bool {
    &&& r.len() == n
    &&& r.no_duplicates()
    &&& forall|i: int| 0 <= i < r.len() ==> r[i] < n
}

/// `r` orders `keys` ascending, equal keys in index order.
pub open spec fn sorted_stable(keys: Seq<Seq<char>>, r: Seq<usize>) -> bool {
    &&& forall|i: int, j: int| 0 <= i < j < r.len() ==> seq_le(keys[r[i] as int], keys[r[j] as int])
    &&& forall|i: int, j: int| 0 <= i < j < r.len() && keys[r[i] as int] == keys[r[j] as int] ==> r[i] < r[j]
}

pub proof fn lemma_le_lt_transitive(a: Seq<char>, b: Seq<char>, c: Seq<char>)
    requires
        seq_lt(a, b),
        seq_le(b, c),
    ensures
        seq_lt(a, c),
{
    lemma_lt_total(b, c);
    if seq_lt(b, c) {
        lemma_lt_transitive(a, b, c);
    }
}

pub proof fn lemma_le_transitive(a: Seq<char>, b: Seq<char>, c: Seq<char>)
    requires
        seq_le(a, b),
        seq_le(b, c),
    ensures
        seq_le(a, c),
{
    if seq_lt(c, a) {
        lemma_lt_total(a, b);
        if seq_lt(a, b) {
            lemma_lt_transitive(c, a, b);
            lemma_lt_asymmetric(b, c);
        } else {
            lemma_lt_asymmetric(b, c);
        }
    }
}

/// A stable ascending order of `keys`, as indices.
pub fn sorted_indices(keys: &Vec<Vec<char>>) -> (r: Vec<usize>)
    ensures
        is_perm(r@, keys@.len()),
        sorted_stable(crate::text::views(keys@), r@),
{
    let ghost ks = crate::text::views(keys@);
    let mut r: Vec<usize> = Vec::new();
    let mut k: usize = 0;
    while k < keys.len()
        invariant
            k <= keys.len(),
            ks == crate::text::views(keys@),
            is_perm(r@, k as nat),
            sorted_stable(ks, r@),
        decreases keys.len() - k,
    {
        let mut p: usize = 0;
        while p < r.len() && !chars_lt(&keys[k], &keys[r[p]])
            invariant
                p <= r.len(),
                k < keys.len(),
                ks == crate::text::views(keys@),
                is_perm(r@, k as nat),
                sorted_stable(ks, r@),
                forall|q: int| 0 <= q < p ==> seq_le(ks[r@[q] as int], ks[k as int]),
            decreases r.len() - p,
        {
            assert(ks[k as int] == keys@[k as int]@);
            assert(ks[r@[p as int] as int] == keys@[r@[p as int] as int]@);
            p += 1;
        }
        let ghost before = r@;
        proof {
            if p < r.len() {
                assert(ks[k as int] == keys@[k as int]@);
                assert(ks[r@[p as int] as int] == keys@[r@[p as int] as int]@);
                assert(seq_lt(ks[k as int], ks[before[p as int] as int]));
            }
        }
        r.insert(p, k);
        proof {
            assert(r@ =~= before.insert(p as int, k));
            assert forall|i: int| 0 <= i < r@.len() implies r@[i] < k + 1 by {
                if i < p {
                    assert(r@[i] == before[i]);
                } else if i > p {
                    assert(r@[i] == before[i - 1]);
                }
            }
            assert forall|i: int, j: int| 0 <= i < j < r@.len() implies r@[i] != r@[j] by {
                if i < p && j > p {
                    assert(r@[i] == before[i]);
                    assert(r@[j] == before[j - 1]);
                } else if i < p && j < p {
                    assert(r@[i] == before[i]);
                    assert(r@[j] == before[j]);
                } else if i > p {
                    assert(r@[i] == before[i - 1]);
                    assert(r@[j] == before[j - 1]);
                } else if i == p {
                    assert(r@[j] == before[j - 1]);
                } else {
                    assert(r@[i] == before[i]);
                }
            }
            assert forall|i: int, j: int| 0 <= i < j < r@.len() implies seq_le(ks[r@[i] as int], ks[r@[j] as int]) && (ks[r@[i] as int]
                == ks[r@[j] as int] ==> r@[i] < r@[j]) by {
                if j < p {
                    assert(r@[i] == before[i]);
                    assert(r@[j] == before[j]);
                } else if j == p {
                    assert(r@[i] == before[i]);
                    assert(r@[j] == k);
                    assert(seq_le(ks[before[i] as int], ks[k as int]));
                    assert(before[i] < k);
                } else if i < p {
                    assert(r@[i] == before[i]);
                    assert(r@[j] == before[j - 1]);
                } else if i == p {
                    assert(r@[j] == before[j - 1]);
                    if j - 1 > p {
                        assert(seq_le(ks[before[p as int] as int], ks[before[j - 1] as int]));
                    } else {
                        lemma_lt_irreflexive(ks[before[p as int] as int]);
                    }
                    lemma_le_lt_transitive(ks[k as int], ks[before[p as int] as int], ks[before[j - 1] as int]);
                    lemma_lt_asymmetric(ks[k as int], ks[before[j - 1] as int]);
                    lemma_lt_irreflexive(ks[k as int]);
                } else {
                    assert(r@[i] == before[i - 1]);
                    assert(r@[j] == before[j - 1]);
                }
            }
            assert forall|i: int, j: int| 0 <= i < j < r@.len() && ks[r@[i] as int] == ks[r@[j] as int] implies r@[i]
                < r@[j] by {
                assert(seq_le(ks[r@[i] as int], ks[r@[j] as int]) && (ks[r@[i] as int] == ks[r@[j] as int] ==> r@[i]
                    < r@[j]));
            }
        }
        k += 1;
    }
    r
}

} // verus!

verus! {

/// `a` may stand before `b` when ranking by number, larger first, then
/// by text, smaller first.
pub open spec fn ranks_before(a: (Seq<char>, nat), b: (Seq<char>, nat)) -> bool {
    a.1 > b.1 || (a.1 == b.1 && seq_le(a.0, b.0))
}

/// `r` lists `e` in rank order.
pub open spec fn ranked(e: Seq<(Seq<char>, nat)>, r: Seq<usize>) -> bool {
    forall|i: int, j: int| 0 <= i < j < r.len() ==> ranks_before(e[r[i] as int], e[r[j] as int])
}

pub open spec fn rank_views(v: Seq<(Vec<char>, u64)>) -> Seq<(Seq<char>, nat)> {
    v.map_values(|x: (Vec<char>, u64)| (x.0@, x.1 as nat))
}

pub proof fn lemma_ranks_transitive(a: (Seq<char>, nat), b: (Seq<char>, nat), c: (Seq<char>, nat))
    requires
        ranks_before(a, b),
        ranks_before(b, c),
    ensures
        ranks_before(a, c),
{
    if a.1 == b.1 && b.1 == c.1 {
        lemma_le_transitive(a.0, b.0, c.0);
    }
}

pub proof fn lemma_ranks_total(a: (Seq<char>, nat), b: (Seq<char>, nat))
    ensures
        ranks_before(a, b) || ranks_before(b, a),
{
    lemma_lt_asymmetric(a.0, b.0);
}

/// Indices of `entries` in rank order: larger number first, equal
/// numbers by text.
pub fn rank_order(entries: &Vec<(Vec<char>, u64)>) -> (r: Vec<usize>)
    ensures
        is_perm(r@, entries@.len()),
        ranked(rank_views(entries@), r@),
{
    let ghost e = rank_views(entries@);
    let mut r: Vec<usize> = Vec::new();
    let mut k: usize = 0;
    while k < entries.len()
        invariant
            k <= entries.len(),
            e == rank_views(entries@),
            is_perm(r@, k as nat),
            ranked(e, r@),
        decreases entries.len() - k,
    {
        let mut p: usize = 0;
        while p < r.len() && (entries[r[p]].1 > entries[k].1 || (entries[r[p]].1 == entries[k].1 && !chars_lt(
            &entries[k].0,
            &entries[r[p]].0,
        )))
            invariant
                p <= r.len(),
                k < entries.len(),
                e == rank_views(entries@),
                is_perm(r@, k as nat),
                ranked(e, r@),
                forall|q: int| 0 <= q < p ==> ranks_before(e[r@[q] as int], e[k as int]),
            decreases r.len() - p,
        {
            p += 1;
        }
        let ghost before = r@;
        proof {
            if p < r.len() {
                assert(!ranks_before(e[before[p as int] as int], e[k as int]));
                lemma_ranks_total(e[before[p as int] as int], e[k as int]);
            }
        }
        r.insert(p, k);
        proof {
            assert(r@ =~= before.insert(p as int, k));
            assert forall|i: int| 0 <= i < r@.len() implies r@[i] < k + 1 by {
                if i < p {
                    assert(r@[i] == before[i]);
                } else if i > p {
                    assert(r@[i] == before[i - 1]);
                }
            }
            assert forall|i: int, j: int| 0 <= i < j < r@.len() implies r@[i] != r@[j] by {
                if i < p && j > p {
                    assert(r@[i] == before[i]);
                    assert(r@[j] == before[j - 1]);
                } else if i < p && j < p {
                    assert(r@[i] == before[i]);
                    assert(r@[j] == before[j]);
                } else if i > p {
                    assert(r@[i] == before[i - 1]);
                    assert(r@[j] == before[j - 1]);
                } else if i == p {
                    assert(r@[j] == before[j - 1]);
                } else {
                    assert(r@[i] == before[i]);
                }
            }
            assert forall|i: int, j: int| 0 <= i < j < r@.len() implies ranks_before(
                e[r@[i] as int],
                e[r@[j] as int],
            ) by {
                if j < p {
                    assert(r@[i] == before[i]);
                    assert(r@[j] == before[j]);
                } else if j == p {
                    assert(r@[i] == before[i]);
                } else if i < p {
                    assert(r@[i] == before[i]);
                    assert(r@[j] == before[j - 1]);
                } else if i == p {
                    assert(r@[j] == before[j - 1]);
                    if j - 1 > p {
                        assert(ranks_before(e[before[p as int] as int], e[before[j - 1] as int]));
                        lemma_ranks_transitive(e[k as int], e[before[p as int] as int], e[before[j - 1] as int]);
                    }
                } else {
                    assert(r@[i] == before[i - 1]);
                    assert(r@[j] == before[j - 1]);
                }
            }
        }
        k += 1;
    }
    r
}

} // verus!
