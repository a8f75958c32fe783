//! `cvg pr sync`: task ids declared on `Tracks:` lines of a PR body.
use vstd::prelude::*;
use crate::text::{chars_of, first_index, is_hex, is_ws, lines, lines_of, matches_at, slice_of, starts_with, string_of, trim, trimmed, views, ws};

verus! {

/// A dash position of the 8-4-4-4-12 layout.
pub open spec fn dash_pos(i: int) -> bool {
    i == 8 || i == 13 || i == 18 || i == 23
}

/// The 8-4-4-4-12 hex-with-dashes shape of a UUID.
pub open spec fn uuid_shape(s: Seq<char>) -> bool {
    s.len() == 36 && forall|i: int| 0 <= i < 36 ==> if dash_pos(i) {
        #[trigger] s[i] == '-'
    } else {
        is_hex(s[i])
    }
}

/// Whether `s` has the shape of a UUID (8-4-4-4-12 hex digits and dashes).
pub fn is_valid_uuid(s: &str) -> (r: bool)
    ensures
        r == uuid_shape(s@),
{
    let c = chars_of(s);
    uuid_chars(&c)
}

fn uuid_chars(c: &Vec<char>) -> (r: bool)
    ensures
        r == uuid_shape(c@),
{
    if c.len() != 36 {
        return false;
    }
    let mut i: usize = 0;
    while i < 36
        invariant
            c.len() == 36,
            i <= 36,
            forall|j: int| 0 <= j < i ==> if dash_pos(j) {
                #[trigger] c@[j] == '-'
            } else {
                is_hex(c@[j])
            },
        decreases 36 - i,
    {
        let x = c[i];
        if i == 8 || i == 13 || i == 18 || i == 23 {
            if x != '-' {
                return false;
            }
        } else if !(('0' <= x && x <= '9') || ('a' <= x && x <= 'f') || ('A' <= x && x <= 'F')) {
            return false;
        }
        i += 1;
    }
    true
}

/// A token separator of a `Tracks:` line.
pub open spec fn tracks_sep(c: char) -> bool {
    c == ',' || is_ws(c)
}

/// Index of the first separator in `s`, if any.
pub open spec fn first_sep(s: Seq<char>) -> Option<nat>
    decreases s.len(),
{
    if s.len() == 0 {
        None
    } else if tracks_sep(s[0]) {
        Some(0)
    } else {
        match first_sep(s.skip(1)) {
            Some(i) => Some(i + 1),
            None => None,
        }
    }
}

pub proof fn lemma_first_sep(s: Seq<char>)
    ensures
        match first_sep(s) {
            Some(k) => k < s.len() && tracks_sep(s[k as int]) && forall|j: int| 0 <= j < k ==> !tracks_sep(s[j]),
            None => forall|j: int| 0 <= j < s.len() ==> !tracks_sep(s[j]),
        },
    decreases s.len(),
{
    if s.len() > 0 && !tracks_sep(s[0]) {
        lemma_first_sep(s.skip(1));
        assert(forall|j: int| 0 < j < s.len() ==> s[j] == s.skip(1)[j - 1]);
    }
}

/// `str::split` with [`tracks_sep`].
pub open spec fn split_tokens(s: Seq<char>) -> Seq<Seq<char>>
    decreases s.len(),
{
    match first_sep(s) {
        None => seq![s],
        Some(k) => {
            proof {
                lemma_first_sep(s);
            }
            seq![s.take(k as int)] + split_tokens(s.skip(k as int + 1))
        },
    }
}

/// UUIDs among the first `n` tokens, each trimmed.
pub open spec fn uuid_tokens(ts: Seq<Seq<char>>, n: int) -> Seq<Seq<char>>
    decreases n,
{
    if n <= 0 {
        Seq::empty()
    } else if uuid_shape(trim(ts[n - 1])) {
        uuid_tokens(ts, n - 1).push(trim(ts[n - 1]))
    } else {
        uuid_tokens(ts, n - 1)
    }
}

/// Task ids of one line: the UUID-shaped tokens after `Tracks:` when the
/// trimmed line starts with it.
pub open spec fn line_tracks(raw: Seq<char>) -> Seq<Seq<char>> {
    let line = trim(raw);
    if starts_with(line, "Tracks:"@) {
        let ts = split_tokens(line.skip(7));
        uuid_tokens(ts, ts.len() as int)
    } else {
        Seq::empty()
    }
}

/// Task ids of the first `n` lines.
pub open spec fn tracks_fold(ls: Seq<Seq<char>>, n: int) -> Seq<Seq<char>>
    decreases n,
{
    if n <= 0 {
        Seq::empty()
    } else {
        tracks_fold(ls, n - 1) + line_tracks(ls[n - 1])
    }
}

/// All task ids declared on `Tracks:` lines of a PR body, in order.
pub open spec fn tracks_of(body: Seq<char>) -> Seq<Seq<char>> {
    tracks_fold(lines_of(body), lines_of(body).len() as int)
}

fn split_seps(s: &Vec<char>) -> (r: Vec<Vec<char>>)
    ensures
        views(r@) == split_tokens(s@),
{
    let mut out: Vec<Vec<char>> = Vec::new();
    let mut p: usize = 0;
    assert(s@.skip(0) == s@);
    loop
        invariant
            p <= s.len(),
            views(out@) + split_tokens(s@.skip(p as int)) == split_tokens(s@),
        decreases s.len() - p,
    {
        let ghost rest = s@.skip(p as int);
        let ghost before = views(out@);
        let mut q = p;
        while q < s.len() && !(s[q] == ',' || ws(s[q]))
            invariant
                p <= q <= s.len(),
                forall|j: int| p <= j < q ==> !tracks_sep(s@[j]),
            decreases s.len() - q,
        {
            q += 1;
        }
        proof {
            lemma_first_sep(rest);
            assert(forall|j: int| 0 <= j < q - p ==> rest[j] == s@[p + j]);
            if q < s.len() {
                assert(rest[q - p] == s@[q as int]);
                assert(first_sep(rest) == Some((q - p) as nat)) by {
                    lemma_first_sep_at(rest, q - p);
                }
            } else {
                assert(first_sep(rest) is None) by {
                    lemma_first_sep_at(rest, q - p);
                }
            }
        }
        let piece = slice_of(s, p, q);
        out.push(piece);
        proof {
            assert(views(out@) =~= before.push(piece@));
            assert(rest.take(q - p) =~= piece@);
        }
        if q == s.len() {
            proof {
                assert(rest =~= piece@);
                assert(views(out@) =~= before + seq![rest]);
            }
            return out;
        }
        proof {
            assert(rest.skip(q - p + 1) =~= s@.skip(q + 1));
            assert(views(out@) + split_tokens(s@.skip(q + 1)) =~= before + split_tokens(rest));
        }
        p = q + 1;
    }
}

pub proof fn lemma_first_sep_at(s: Seq<char>, k: int)
    requires
        0 <= k <= s.len(),
        forall|j: int| 0 <= j < k ==> !tracks_sep(s[j]),
    ensures
        k < s.len() && tracks_sep(s[k]) ==> first_sep(s) == Some(k as nat),
        k == s.len() ==> first_sep(s) is None,
{
    lemma_first_sep(s);
}

/// Extracts every UUID from any `Tracks: <uuid>[, <uuid>]...` line.
pub fn parse_tracks_lines(body: &str) -> (r: Vec<String>)
    ensures
        r@.map_values(|s: String| s@) == tracks_of(body@),
{
    let b = chars_of(body);
    let ls = lines(&b);
    let prefix = chars_of("Tracks:");
    proof {
        reveal_strlit("Tracks:");
    }
    let mut out: Vec<String> = Vec::new();
    let mut k: usize = 0;
    assert(out@.map_values(|s: String| s@) =~= Seq::<Seq<char>>::empty());
    while k < ls.len()
        invariant
            k <= ls.len(),
            views(ls@) == lines_of(body@),
            prefix@ == "Tracks:"@,
            prefix@.len() == 7,
            out@.map_values(|s: String| s@) == tracks_fold(views(ls@), k as int),
        decreases ls.len() - k,
    {
        assert(views(ls@)[k as int] == ls@[k as int]@);
        let line = trimmed(&ls[k]);
        let ghost start = out@.map_values(|s: String| s@);
        if matches_at(&line, &prefix, 0) {
            let rest = slice_of(&line, 7, line.len());
            let toks = split_seps(&rest);
            assert(rest@ == line@.skip(7));
            let mut i: usize = 0;
            while i < toks.len()
                invariant
                    i <= toks.len(),
                    views(toks@) == split_tokens(line@.skip(7)),
                    out@.map_values(|s: String| s@) == start + uuid_tokens(views(toks@), i as int),
                decreases toks.len() - i,
            {
                assert(views(toks@)[i as int] == toks@[i as int]@);
                let t = trimmed(&toks[i]);
                if uuid_chars(&t) {
                    let ghost before = out@.map_values(|s: String| s@);
                    let st = string_of(&t);
                    out.push(st);
                    assert(out@.map_values(|s: String| s@) =~= before.push(t@));
                }
                i += 1;
            }
        } else {
            assert(start + Seq::<Seq<char>>::empty() =~= start);
        }
        k += 1;
    }
    out
}

} // verus!

verus! {

proof fn lemma_uuid_tokens_shaped(ts: Seq<Seq<char>>, n: int)
    ensures
        forall|i: int| 0 <= i < uuid_tokens(ts, n).len() ==> uuid_shape(#[trigger] uuid_tokens(ts, n)[i]),
    decreases n,
{
    if n > 0 {
        lemma_uuid_tokens_shaped(ts, n - 1);
        let prev = uuid_tokens(ts, n - 1);
        if uuid_shape(trim(ts[n - 1])) {
            assert forall|i: int| 0 <= i < prev.push(trim(ts[n - 1])).len() implies uuid_shape(
                #[trigger] prev.push(trim(ts[n - 1]))[i],
            ) by {
                if i < prev.len() {
                    assert(prev.push(trim(ts[n - 1]))[i] == prev[i]);
                }
            }
        }
    }
}

proof fn lemma_tracks_fold_shaped(ls: Seq<Seq<char>>, n: int)
    ensures
        forall|i: int| 0 <= i < tracks_fold(ls, n).len() ==> uuid_shape(#[trigger] tracks_fold(ls, n)[i]),
    decreases n,
{
    if n > 0 {
        lemma_tracks_fold_shaped(ls, n - 1);
        let raw = ls[n - 1];
        let line = trim(raw);
        if starts_with(line, "Tracks:"@) {
            let ts = split_tokens(line.skip(7));
            lemma_uuid_tokens_shaped(ts, ts.len() as int);
        }
        let prev = tracks_fold(ls, n - 1);
        let add = line_tracks(raw);
        assert forall|i: int| 0 <= i < (prev + add).len() implies uuid_shape(#[trigger] (prev + add)[i]) by {
            if i >= prev.len() {
                assert((prev + add)[i] == add[i - prev.len()]);
            }
        }
    }
}

/// Every task id taken from `Tracks:` lines has the shape of a UUID
/// (8-4-4-4-12 hex digits with dashes): prose after `Tracks:` never
/// yields a spurious id.
pub proof fn law_tracked_ids_are_uuids(body: Seq<char>)
    ensures
        forall|i: int| 0 <= i < tracks_of(body).len() ==> uuid_shape(#[trigger] tracks_of(body)[i]),
{
    lemma_tracks_fold_shaped(lines_of(body), lines_of(body).len() as int);
}

} // verus!

verus! {

/// A merged PR as listed: its number and body, when present.
pub open spec fn pr_entry_views(prs: Seq<(Option<i64>, Option<String>)>) -> Seq<(int, Seq<char>)> {
    prs.map_values(
        |p: (Option<i64>, Option<String>)|
            (
                match p.0 {
                    Some(n) => n as int,
                    None => 0int,
                },
                match p.1 {
                    Some(b) => b@,
                    None => Seq::<char>::empty(),
                },
            ),
    )
}

/// `(pr, task)` for each id of `ids`, first `n`, that belongs to the plan.
pub open spec fn pairs_of(pr: int, ids: Seq<Seq<char>>, plan: Set<Seq<char>>, n: int) -> Seq<(int, Seq<char>)>
    decreases n,
{
    if n <= 0 {
        Seq::empty()
    } else if plan.contains(ids[n - 1]) {
        pairs_of(pr, ids, plan, n - 1).push((pr, ids[n - 1]))
    } else {
        pairs_of(pr, ids, plan, n - 1)
    }
}

/// The `(pr, task)` pairs of the first `n` PRs: each task tracked by a
/// PR body that belongs to the plan, in PR then line order.
pub open spec fn tracked_spec(prs: Seq<(int, Seq<char>)>, plan: Set<Seq<char>>, n: int) -> Seq<(int, Seq<char>)>
    decreases n,
{
    if n <= 0 {
        Seq::empty()
    } else {
        let ids = tracks_of(prs[n - 1].1);
        tracked_spec(prs, plan, n - 1) + pairs_of(prs[n - 1].0, ids, plan, ids.len() as int)
    }
}

/// The `(PR number, task id)` pairs to sync: every task id that a
/// merged PR's body tracks (`Tracks:` lines) and that belongs to the
/// plan, in PR order then line order. A PR without a number counts as
/// PR 0, one without a body tracks nothing.
pub fn tracked_pairs(prs: &Vec<(Option<i64>, Option<String>)>, plan_task_ids: &crate::order::StringSet) -> (r: Vec<
    (i64, String),
>)
    requires
        plan_task_ids.wf(),
    ensures
        r@.map_values(|p: (i64, String)| (p.0 as int, p.1@)) == tracked_spec(
            pr_entry_views(prs@),
            plan_task_ids@,
            prs@.len() as int,
        ),
{
    let ghost pv = pr_entry_views(prs@);
    let mut out: Vec<(i64, String)> = Vec::new();
    let mut i: usize = 0;
    while i < prs.len()
        invariant
            i <= prs.len(),
            pv == pr_entry_views(prs@),
            plan_task_ids.wf(),
            out@.map_values(|p: (i64, String)| (p.0 as int, p.1@)) == tracked_spec(pv, plan_task_ids@, i as int),
        decreases prs.len() - i,
    {
        let num: i64 = match prs[i].0 {
            Some(n) => n,
            None => 0,
        };
        let ids = match &prs[i].1 {
            Some(b) => parse_tracks_lines(b.as_str()),
            None => {
                let v: Vec<String> = Vec::new();
                proof {
                    assert(lines_of(Seq::<char>::empty()) =~= Seq::<Seq<char>>::empty());
                    assert(v@.map_values(|s: String| s@) =~= tracks_of(Seq::<char>::empty()));
                }
                v
            },
        };
        let ghost idv = ids@.map_values(|s: String| s@);
        let ghost start = out@.map_values(|p: (i64, String)| (p.0 as int, p.1@));
        proof {
            assert(pv[i as int].0 == num as int);
            assert(idv == tracks_of(pv[i as int].1));
        }
        let mut j: usize = 0;
        while j < ids.len()
            invariant
                j <= ids.len(),
                idv == ids@.map_values(|s: String| s@),
                plan_task_ids.wf(),
                out@.map_values(|p: (i64, String)| (p.0 as int, p.1@)) == start + pairs_of(
                    num as int,
                    idv,
                    plan_task_ids@,
                    j as int,
                ),
            decreases ids.len() - j,
        {
            if plan_task_ids.contains(ids[j].as_str()) {
                let ghost before = out@.map_values(|p: (i64, String)| (p.0 as int, p.1@));
                let t = string_of(&chars_of(ids[j].as_str()));
                out.push((num, t));
                assert(out@.map_values(|p: (i64, String)| (p.0 as int, p.1@)) =~= before.push((num as int, idv[j as int])));
            }
            j += 1;
        }
        proof {
            assert(tracked_spec(pv, plan_task_ids@, i + 1) == tracked_spec(pv, plan_task_ids@, i as int) + pairs_of(
                num as int,
                idv,
                plan_task_ids@,
                idv.len() as int,
            ));
        }
        i += 1;
    }
    out
}

proof fn lemma_pairs_of_in_plan(pr: int, ids: Seq<Seq<char>>, plan: Set<Seq<char>>, n: int)
    requires
        n <= ids.len(),
    ensures
        forall|i: int| 0 <= i < pairs_of(pr, ids, plan, n).len() ==> {
            let q = #[trigger] pairs_of(pr, ids, plan, n)[i];
            &&& plan.contains(q.1)
            &&& q.0 == pr
            &&& ids.contains(q.1)
        },
    decreases n,
{
    if n > 0 {
        lemma_pairs_of_in_plan(pr, ids, plan, n - 1);
        let prev = pairs_of(pr, ids, plan, n - 1);
        if plan.contains(ids[n - 1]) {
            assert forall|i: int| 0 <= i < prev.push((pr, ids[n - 1])).len() implies {
                let q = #[trigger] prev.push((pr, ids[n - 1]))[i];
                &&& plan.contains(q.1)
                &&& q.0 == pr
                &&& ids.contains(q.1)
            } by {
                if i < prev.len() {
                    assert(prev.push((pr, ids[n - 1]))[i] == prev[i]);
                }
            }
        }
    }
}

proof fn lemma_tracked_in_plan(prs: Seq<(int, Seq<char>)>, plan: Set<Seq<char>>, n: int)
    requires
        n <= prs.len(),
    ensures
        forall|i: int| 0 <= i < tracked_spec(prs, plan, n).len() ==> {
            let q = #[trigger] tracked_spec(prs, plan, n)[i];
            &&& plan.contains(q.1)
            &&& uuid_shape(q.1)
        },
    decreases n,
{
    if n > 0 {
        lemma_tracked_in_plan(prs, plan, n - 1);
        let ids = tracks_of(prs[n - 1].1);
        let prev = tracked_spec(prs, plan, n - 1);
        let add = pairs_of(prs[n - 1].0, ids, plan, ids.len() as int);
        lemma_pairs_of_in_plan(prs[n - 1].0, ids, plan, ids.len() as int);
        law_tracked_ids_are_uuids(prs[n - 1].1);
        assert forall|i: int| 0 <= i < (prev + add).len() implies {
            let q = #[trigger] (prev + add)[i];
            &&& plan.contains(q.1)
            &&& uuid_shape(q.1)
        } by {
            if i < prev.len() {
                assert((prev + add)[i] == prev[i]);
            } else {
                let q = add[i - prev.len()];
                assert((prev + add)[i] == q);
                assert(ids.contains(q.1));
                let j = choose|j: int| 0 <= j < ids.len() && ids[j] == q.1;
                assert(uuid_shape(ids[j]));
            }
        }
    }
}

/// A synced pair always names a task of the plan, by a UUID-shaped id:
/// ids tracked by a PR body but belonging to another plan are never
/// paired.
pub proof fn law_pairs_stay_in_plan(prs: Seq<(int, Seq<char>)>, plan: Set<Seq<char>>)
    ensures
        forall|i: int| 0 <= i < tracked_spec(prs, plan, prs.len() as int).len() ==> {
            let q = #[trigger] tracked_spec(prs, plan, prs.len() as int)[i];
            &&& plan.contains(q.1)
            &&& uuid_shape(q.1)
        },
{
    lemma_tracked_in_plan(prs, plan, prs.len() as int);
}

/// A task already `submitted`, `done` or `failed` is left as it is.
pub open spec fn settled(status: Seq<char>) -> bool {
    status == "submitted"@ || status == "done"@ || status == "failed"@
}

/// Whether a task's status leaves it out of the sync.
pub fn is_settled(status: &str) -> (r: bool)
    ensures
        r == settled(status@),
{
    let s = chars_of(status);
    crate::text::eq_str(&s, "submitted") || crate::text::eq_str(&s, "done") || crate::text::eq_str(&s, "failed")
}

} // verus!

verus! {

/// A task moved to `submitted`.
#[derive(Debug, Clone)]
pub struct SyncOk {
    pub pr_number: i64,
    pub task_id: String,
    pub previous_status: String,
}

/// A task left as it was (already submitted or done).
#[derive(Debug, Clone)]
pub struct SyncSkip {
    pub pr_number: i64,
    pub task_id: String,
    pub current_status: String,
}

/// A task that could not be moved.
#[derive(Debug, Clone)]
pub struct SyncFailure {
    pub pr_number: i64,
    pub task_id: String,
    pub reason: String,
}

/// Outcome of `cvg pr sync`.
#[derive(Debug, Clone)]
pub struct SyncReport {
    pub scanned_prs: usize,
    pub tracked_pairs: usize,
    pub transitioned: Vec<SyncOk>,
    pub skipped: Vec<SyncSkip>,
    pub failed: Vec<SyncFailure>,
}

impl SyncReport {
    /// A report of nothing scanned.
    pub fn empty() -> (r: SyncReport)
        ensures
            r.scanned_prs == 0,
            r.tracked_pairs == 0,
            r.transitioned@.len() == 0,
            r.skipped@.len() == 0,
            r.failed@.len() == 0,
    {
        SyncReport { scanned_prs: 0, tracked_pairs: 0, transitioned: Vec::new(), skipped: Vec::new(), failed: Vec::new() }
    }

    /// A report about to process `pairs` found in `scanned` PRs.
    pub fn begin(scanned: usize, pairs: usize) -> (r: SyncReport)
        ensures
            r.scanned_prs == scanned,
            r.tracked_pairs == pairs,
            r.transitioned@.len() == 0,
            r.skipped@.len() == 0,
            r.failed@.len() == 0,
    {
        SyncReport {
            scanned_prs: scanned,
            tracked_pairs: pairs,
            transitioned: Vec::new(),
            skipped: Vec::new(),
            failed: Vec::new(),
        }
    }

    /// Records what the lookup of a tracked task gave: a lookup error
    /// fails the pair (`fetch task: <error>`), a settled task (submitted,
    /// done or failed) is skipped with its status, and any other status
    /// asks for the transition to be posted (the result is `true`;
    /// nothing is recorded yet).
    pub fn after_lookup(&mut self, pr_number: i64, task_id: &str, lookup: Result<String, String>) -> (post: bool)
        ensures
            final(self).scanned_prs == old(self).scanned_prs,
            final(self).tracked_pairs == old(self).tracked_pairs,
            final(self).transitioned@ == old(self).transitioned@,
            match lookup {
                Err(e) => {
                    &&& !post
                    &&& final(self).skipped@ == old(self).skipped@
                    &&& final(self).failed@.len() == old(self).failed@.len() + 1
                    &&& final(self).failed@.drop_last() == old(self).failed@
                    &&& final(self).failed@.last().pr_number == pr_number
                    &&& final(self).failed@.last().task_id@ == task_id@
                    &&& final(self).failed@.last().reason@ == "fetch task: "@ + e@
                },
                Ok(status) => if settled(status@) {
                    &&& !post
                    &&& final(self).failed@ == old(self).failed@
                    &&& final(self).skipped@.len() == old(self).skipped@.len() + 1
                    &&& final(self).skipped@.drop_last() == old(self).skipped@
                    &&& final(self).skipped@.last().pr_number == pr_number
                    &&& final(self).skipped@.last().task_id@ == task_id@
                    &&& final(self).skipped@.last().current_status@ == status@
                } else {
                    &&& post
                    &&& final(self).failed@ == old(self).failed@
                    &&& final(self).skipped@ == old(self).skipped@
                },
            },
    {
        match lookup {
            Err(e) => {
                let mut reason: Vec<char> = chars_of("fetch task: ");
                crate::text::push_str(&mut reason, e.as_str());
                self.failed.push(
                    SyncFailure { pr_number, task_id: string_of(&chars_of(task_id)), reason: string_of(&reason) },
                );
                assert(self.failed@.drop_last() =~= old(self).failed@);
                false
            },
            Ok(status) => {
                if is_settled(status.as_str()) {
                    self.skipped.push(
                        SyncSkip { pr_number, task_id: string_of(&chars_of(task_id)), current_status: status },
                    );
                    assert(self.skipped@.drop_last() =~= old(self).skipped@);
                    false
                } else {
                    true
                }
            },
        }
    }

    /// Records the daemon's answer to a posted transition: accepted, the
    /// task counts as transitioned from `previous_status`; refused, it
    /// fails with the refusal's text.
    pub fn after_transition(
        &mut self,
        pr_number: i64,
        task_id: &str,
        previous_status: &str,
        outcome: Result<(), String>,
    )
        ensures
            final(self).scanned_prs == old(self).scanned_prs,
            final(self).tracked_pairs == old(self).tracked_pairs,
            final(self).skipped@ == old(self).skipped@,
            match outcome {
                Ok(()) => {
                    &&& final(self).failed@ == old(self).failed@
                    &&& final(self).transitioned@.len() == old(self).transitioned@.len() + 1
                    &&& final(self).transitioned@.drop_last() == old(self).transitioned@
                    &&& final(self).transitioned@.last().pr_number == pr_number
                    &&& final(self).transitioned@.last().task_id@ == task_id@
                    &&& final(self).transitioned@.last().previous_status@ == previous_status@
                },
                Err(e) => {
                    &&& final(self).transitioned@ == old(self).transitioned@
                    &&& final(self).failed@.len() == old(self).failed@.len() + 1
                    &&& final(self).failed@.drop_last() == old(self).failed@
                    &&& final(self).failed@.last().pr_number == pr_number
                    &&& final(self).failed@.last().task_id@ == task_id@
                    &&& final(self).failed@.last().reason@ == e@
                },
            },
    {
        match outcome {
            Ok(()) => {
                self.transitioned.push(
                    SyncOk {
                        pr_number,
                        task_id: string_of(&chars_of(task_id)),
                        previous_status: string_of(&chars_of(previous_status)),
                    },
                );
                assert(self.transitioned@.drop_last() =~= old(self).transitioned@);
            },
            Err(e) => {
                self.failed.push(SyncFailure { pr_number, task_id: string_of(&chars_of(task_id)), reason: e });
                assert(self.failed@.drop_last() =~= old(self).failed@);
            },
        }
    }
}

/// The first eight bytes of a task id.
pub open spec fn short_id(id: Seq<char>) -> Seq<char> {
    crate::agent::byte_prefix(id, 8)->0
}

pub open spec fn shortable(id: Seq<char>) -> bool {
    crate::agent::byte_prefix(id, 8) is Some
}

/// Every task id of the report starts with eight whole bytes.
pub open spec fn report_shortable(r: SyncReport) -> bool {
    &&& forall|i: int| 0 <= i < r.transitioned@.len() ==> shortable(#[trigger] r.transitioned@[i].task_id@)
    &&& forall|i: int| 0 <= i < r.skipped@.len() ==> shortable(#[trigger] r.skipped@[i].task_id@)
    &&& forall|i: int| 0 <= i < r.failed@.len() ==> shortable(#[trigger] r.failed@[i].task_id@)
}

pub open spec fn ok_lines(v: Seq<SyncOk>) -> Seq<char>
    decreases v.len(),
{
    if v.len() == 0 {
        Seq::empty()
    } else {
        let o = v.last();
        ok_lines(v.drop_last()) + "    PR #"@ + crate::text::idecimal(o.pr_number as int) + " → task "@ + short_id(
            o.task_id@,
        ) + "\n"@
    }
}

pub open spec fn skip_lines(v: Seq<SyncSkip>) -> Seq<char>
    decreases v.len(),
{
    if v.len() == 0 {
        Seq::empty()
    } else {
        let s = v.last();
        skip_lines(v.drop_last()) + "    PR #"@ + crate::text::idecimal(s.pr_number as int) + " → task "@ + short_id(
            s.task_id@,
        ) + " ("@ + s.current_status@ + ")\n"@
    }
}

pub open spec fn fail_lines(v: Seq<SyncFailure>) -> Seq<char>
    decreases v.len(),
{
    if v.len() == 0 {
        Seq::empty()
    } else {
        let f = v.last();
        fail_lines(v.drop_last()) + "    PR #"@ + crate::text::idecimal(f.pr_number as int) + " → task "@ + short_id(
            f.task_id@,
        ) + ": "@ + f.reason@ + "\n"@
    }
}

/// The one-line summary of a report.
pub open spec fn sync_plain_spec(r: SyncReport) -> Seq<char> {
    "scanned="@ + crate::text::decimal(r.scanned_prs as nat) + " tracked="@ + crate::text::decimal(
        r.tracked_pairs as nat,
    ) + " transitioned="@ + crate::text::decimal(r.transitioned@.len()) + " skipped="@ + crate::text::decimal(
        r.skipped@.len(),
    ) + " failed="@ + crate::text::decimal(r.failed@.len()) + "\n"@
}

/// The human report: counts, then one line per transitioned, skipped
/// and failed task (ids shortened to eight bytes).
pub open spec fn sync_human_spec(r: SyncReport) -> Seq<char> {
    "cvg pr sync — scanned "@ + crate::text::decimal(r.scanned_prs as nat) + " merged PRs, "@ + crate::text::decimal(
        r.tracked_pairs as nat,
    ) + " (PR, task) pairs found\n"@ + "\n"@ + "  transitioned ("@ + crate::text::decimal(r.transitioned@.len())
        + "):  "@ + (if r.transitioned@.len() == 0 {
        "no tasks"@
    } else {
        "pending"@
    }) + " → submitted\n"@ + ok_lines(r.transitioned@) + "\n"@ + "  skipped ("@ + crate::text::decimal(
        r.skipped@.len(),
    ) + "): already submitted or done\n"@ + skip_lines(r.skipped@) + "\n"@ + "  failed ("@ + crate::text::decimal(
        r.failed@.len(),
    ) + "): gate refusal or transport error\n"@ + fail_lines(r.failed@)
}

/// The one-line summary of `cvg pr sync`.
pub fn sync_report_plain(r: &SyncReport) -> (s: String)
    ensures
        s@ == sync_plain_spec(*r),
{
    let mut out: Vec<char> = Vec::new();
    crate::text::push_str(&mut out, "scanned=");
    crate::text::push_decimal(&mut out, r.scanned_prs as u64);
    crate::text::push_str(&mut out, " tracked=");
    crate::text::push_decimal(&mut out, r.tracked_pairs as u64);
    crate::text::push_str(&mut out, " transitioned=");
    crate::text::push_decimal(&mut out, r.transitioned.len() as u64);
    crate::text::push_str(&mut out, " skipped=");
    crate::text::push_decimal(&mut out, r.skipped.len() as u64);
    crate::text::push_str(&mut out, " failed=");
    crate::text::push_decimal(&mut out, r.failed.len() as u64);
    crate::text::push_str(&mut out, "\n");
    assert(out@ =~= sync_plain_spec(*r));
    string_of(&out)
}

fn push_pr_task(out: &mut Vec<char>, pr: i64, id: &String)
    requires
        shortable(id@),
    ensures
        final(out)@ == old(out)@ + "    PR #"@ + crate::text::idecimal(pr as int) + " → task "@ + short_id(id@),
{
    crate::text::push_str(out, "    PR #");
    crate::text::push_idecimal(out, pr);
    crate::text::push_str(out, " → task ");
    let c = chars_of(id.as_str());
    match crate::agent::byte_prefix_of(&c, 8) {
        Some(p) => crate::text::push_all(out, &p),
        None => {},
    }
}

/// The human report of `cvg pr sync`.
pub fn sync_report_human(r: &SyncReport) -> (s: String)
    requires
        report_shortable(*r),
    ensures
        s@ == sync_human_spec(*r),
{
    let mut out: Vec<char> = Vec::new();
    crate::text::push_str(&mut out, "cvg pr sync — scanned ");
    crate::text::push_decimal(&mut out, r.scanned_prs as u64);
    crate::text::push_str(&mut out, " merged PRs, ");
    crate::text::push_decimal(&mut out, r.tracked_pairs as u64);
    crate::text::push_str(&mut out, " (PR, task) pairs found\n");
    crate::text::push_str(&mut out, "\n");
    crate::text::push_str(&mut out, "  transitioned (");
    crate::text::push_decimal(&mut out, r.transitioned.len() as u64);
    crate::text::push_str(&mut out, "):  ");
    if r.transitioned.len() == 0 {
        crate::text::push_str(&mut out, "no tasks");
    } else {
        crate::text::push_str(&mut out, "pending");
    }
    crate::text::push_str(&mut out, " → submitted\n");
    let ghost h1 = out@;
    let mut i: usize = 0;
    while i < r.transitioned.len()
        invariant
            i <= r.transitioned.len(),
            report_shortable(*r),
            out@ == h1 + ok_lines(r.transitioned@.take(i as int)),
        decreases r.transitioned.len() - i,
    {
        let o = &r.transitioned[i];
        push_pr_task(&mut out, o.pr_number, &o.task_id);
        crate::text::push_str(&mut out, "\n");
        assert(r.transitioned@.take(i + 1).drop_last() =~= r.transitioned@.take(i as int));
        i += 1;
    }
    assert(r.transitioned@.take(r.transitioned.len() as int) =~= r.transitioned@);
    crate::text::push_str(&mut out, "\n");
    crate::text::push_str(&mut out, "  skipped (");
    crate::text::push_decimal(&mut out, r.skipped.len() as u64);
    crate::text::push_str(&mut out, "): already submitted or done\n");
    let ghost h2 = out@;
    let mut j: usize = 0;
    while j < r.skipped.len()
        invariant
            j <= r.skipped.len(),
            report_shortable(*r),
            out@ == h2 + skip_lines(r.skipped@.take(j as int)),
        decreases r.skipped.len() - j,
    {
        let s = &r.skipped[j];
        push_pr_task(&mut out, s.pr_number, &s.task_id);
        crate::text::push_str(&mut out, " (");
        crate::text::push_str(&mut out, s.current_status.as_str());
        crate::text::push_str(&mut out, ")\n");
        assert(r.skipped@.take(j + 1).drop_last() =~= r.skipped@.take(j as int));
        j += 1;
    }
    assert(r.skipped@.take(r.skipped.len() as int) =~= r.skipped@);
    crate::text::push_str(&mut out, "\n");
    crate::text::push_str(&mut out, "  failed (");
    crate::text::push_decimal(&mut out, r.failed.len() as u64);
    crate::text::push_str(&mut out, "): gate refusal or transport error\n");
    let ghost h3 = out@;
    let mut k: usize = 0;
    while k < r.failed.len()
        invariant
            k <= r.failed.len(),
            report_shortable(*r),
            out@ == h3 + fail_lines(r.failed@.take(k as int)),
        decreases r.failed.len() - k,
    {
        let f = &r.failed[k];
        push_pr_task(&mut out, f.pr_number, &f.task_id);
        crate::text::push_str(&mut out, ": ");
        crate::text::push_str(&mut out, f.reason.as_str());
        crate::text::push_str(&mut out, "\n");
        assert(r.failed@.take(k + 1).drop_last() =~= r.failed@.take(k as int));
        k += 1;
    }
    assert(r.failed@.take(r.failed.len() as int) =~= r.failed@);
    assert(out@ =~= sync_human_spec(*r));
    string_of(&out)
}

} // verus!
