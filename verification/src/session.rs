//! `cvg session` summaries: which plans are open, how a plan's tasks
//! are spread over statuses, and which pending tasks come next.
use vstd::prelude::*;
use crate::order::{is_perm, lemma_lt_asymmetric, lemma_lt_irreflexive, lemma_lt_total, lemma_lt_transitive, seq_lt};
use crate::text::{chars_of, eq_str};

verus! {

/// A task as the daemon lists it.
#[derive(Debug, Clone)]
pub struct Task {
    pub id: String,
    pub title: String,
    pub status: String,
    pub wave: i64,
    pub sequence: i64,
    pub created_at: String,
}

/// A plan is open while `draft` or `active`.
pub fn is_open_status(status: &str) -> (r: bool)
    ensures
        r == (status@ == "draft"@ || status@ == "active"@),
{
    let s = chars_of(status);
    eq_str(&s, "draft") || eq_str(&s, "active")
}

/// Number of tasks per status.
#[derive(Debug, Default, Clone, Copy, PartialEq, Eq, Structural)]
pub struct TaskCounts {
    pub total: usize,
    pub done: usize,
    pub pending: usize,
    pub in_progress: usize,
    pub submitted: usize,
    pub failed: usize,
}

/// Tasks of `tasks` whose status is `status`.
pub open spec fn count_status(tasks: Seq<Task>, status: Seq<char>) -> nat
    decreases tasks.len(),
{
    if tasks.len() == 0 {
        0
    } else {
        count_status(tasks.drop_last(), status) + if tasks.last().status@ == status {
            1nat
        } else {
            0nat
        }
    }
}

proof fn lemma_count_le(tasks: Seq<Task>, status: Seq<char>)
    ensures
        count_status(tasks, status) <= tasks.len(),
    decreases tasks.len(),
{
    if tasks.len() > 0 {
        lemma_count_le(tasks.drop_last(), status);
    }
}

impl TaskCounts {
    /// The counts of `tasks`: all of them, and those `done`, `pending`,
    /// `in_progress`, `submitted` and `failed` (other statuses count in
    /// the total only).
    pub fn from_tasks(tasks: &Vec<Task>) -> (c: TaskCounts)
        ensures
            c.total == tasks@.len(),
            c.done == count_status(tasks@, "done"@),
            c.pending == count_status(tasks@, "pending"@),
            c.in_progress == count_status(tasks@, "in_progress"@),
            c.submitted == count_status(tasks@, "submitted"@),
            c.failed == count_status(tasks@, "failed"@),
    {
        let mut c = TaskCounts { total: tasks.len(), done: 0, pending: 0, in_progress: 0, submitted: 0, failed: 0 };
        let mut i: usize = 0;
        while i < tasks.len()
            invariant
                i <= tasks.len(),
                c.total == tasks@.len(),
                c.done == count_status(tasks@.take(i as int), "done"@),
                c.pending == count_status(tasks@.take(i as int), "pending"@),
                c.in_progress == count_status(tasks@.take(i as int), "in_progress"@),
                c.submitted == count_status(tasks@.take(i as int), "submitted"@),
                c.failed == count_status(tasks@.take(i as int), "failed"@),
            decreases tasks.len() - i,
        {
            proof {
                assert(tasks@.take(i + 1).drop_last() =~= tasks@.take(i as int));
                assert(tasks@.take(i + 1).last() == tasks@[i as int]);
                lemma_count_le(tasks@.take(i as int), "done"@);
                lemma_count_le(tasks@.take(i as int), "pending"@);
                lemma_count_le(tasks@.take(i as int), "in_progress"@);
                lemma_count_le(tasks@.take(i as int), "submitted"@);
                lemma_count_le(tasks@.take(i as int), "failed"@);
                reveal_strlit("done");
                reveal_strlit("pending");
                reveal_strlit("in_progress");
                reveal_strlit("submitted");
                reveal_strlit("failed");
            }
            let s = chars_of(tasks[i].status.as_str());
            assert(s@ == tasks@[i as int].status@);
            assert(s@ == "done"@ ==> s@ != "pending"@ && s@ != "in_progress"@ && s@ != "submitted"@ && s@ != "failed"@);
            if eq_str(&s, "done") {
                c.done = c.done + 1;
            } else if eq_str(&s, "pending") {
                c.pending = c.pending + 1;
            } else if eq_str(&s, "in_progress") {
                c.in_progress = c.in_progress + 1;
            } else if eq_str(&s, "submitted") {
                c.submitted = c.submitted + 1;
            } else if eq_str(&s, "failed") {
                c.failed = c.failed + 1;
            }
            i += 1;
        }
        assert(tasks@.take(tasks.len() as int) =~= tasks@);
        c
    }
}

/// The order key of a pending task: wave, then sequence, then creation
/// time.
pub open spec fn task_key(t: Task) -> (i64, i64, Seq<char>) {
    (t.wave, t.sequence, t.created_at@)
}

/// `a` orders strictly before `b`.
pub open spec fn key_lt(a: (i64, i64, Seq<char>), b: (i64, i64, Seq<char>)) -> bool {
    a.0 < b.0 || (a.0 == b.0 && (a.1 < b.1 || (a.1 == b.1 && seq_lt(a.2, b.2))))
}

/// `r` orders `tasks` by key, tasks with equal keys in their input
/// order.
pub open spec fn sorted_by_key(tasks: Seq<Task>, r: Seq<usize>) -> bool {
    &&& forall|i: int, j: int| 0 <= i < j < r.len() ==> !key_lt(task_key(tasks[r[j] as int]), task_key(tasks[r[i] as int]))
    &&& forall|i: int, j: int|
        0 <= i < j < r.len() && task_key(tasks[r[i] as int]) == task_key(tasks[r[j] as int]) ==> r[i] < r[j]
}

proof fn lemma_key_total(a: (i64, i64, Seq<char>), b: (i64, i64, Seq<char>))
    ensures
        key_lt(a, b) || key_lt(b, a) || a == b,
        !(key_lt(a, b) && key_lt(b, a)),
        !key_lt(a, a),
{
    lemma_lt_total(a.2, b.2);
    lemma_lt_asymmetric(a.2, b.2);
    lemma_lt_irreflexive(a.2);
}

proof fn lemma_key_transitive(a: (i64, i64, Seq<char>), b: (i64, i64, Seq<char>), c: (i64, i64, Seq<char>))
    requires
        key_lt(a, b),
        key_lt(b, c),
    ensures
        key_lt(a, c),
{
    if a.0 == b.0 && b.0 == c.0 && a.1 == b.1 && b.1 == c.1 {
        lemma_lt_transitive(a.2, b.2, c.2);
    }
}

fn task_lt(a: &Task, b: &Task) -> (r: bool)
    ensures
        r == key_lt(task_key(*a), task_key(*b)),
{
    if a.wave != b.wave {
        return a.wave < b.wave;
    }
    if a.sequence != b.sequence {
        return a.sequence < b.sequence;
    }
    crate::order::chars_lt(&chars_of(a.created_at.as_str()), &chars_of(b.created_at.as_str()))
}

} // verus!

verus! {

fn copy_task(t: &Task) -> (r: Task)
    ensures
        r == *t,
{
    Task {
        id: t.id.clone(),
        title: t.title.clone(),
        status: t.status.clone(),
        wave: t.wave,
        sequence: t.sequence,
        created_at: t.created_at.clone(),
    }
}

/// Indices of `tasks` in key order, equal keys in index order.
fn task_order(tasks: &Vec<Task>) -> (r: Vec<usize>)
    ensures
        is_perm(r@, tasks@.len()),
        sorted_by_key(tasks@, r@),
{
    let ghost ts = tasks@;
    let mut r: Vec<usize> = Vec::new();
    let mut k: usize = 0;
    while k < tasks.len()
        invariant
            k <= tasks.len(),
            ts == tasks@,
            is_perm(r@, k as nat),
            sorted_by_key(ts, r@),
        decreases tasks.len() - k,
    {
        let mut p: usize = 0;
        while p < r.len() && !task_lt(&tasks[k], &tasks[r[p]])
            invariant
                p <= r.len(),
                k < tasks.len(),
                ts == tasks@,
                is_perm(r@, k as nat),
                sorted_by_key(ts, r@),
                forall|q: int| 0 <= q < p ==> !key_lt(task_key(ts[k as int]), task_key(ts[r@[q] as int])),
            decreases r.len() - p,
        {
            p += 1;
        }
        let ghost before = r@;
        r.insert(p, k);
        proof {
            let kk = task_key(ts[k as int]);
            assert(r@ =~= before.insert(p as int, k));
            assert forall|i: int| 0 <= i < r@.len() implies r@[i] < k + 1 by {
                if i < p {
                    assert(r@[i] == before[i]);
                } else if i > p {
                    assert(r@[i] == before[i - 1]);
                }
            }
            assert forall|i: int, j: int| 0 <= i < j < r@.len() implies r@[i] != r@[j] by {
                if i < p && j > p {
                    assert(r@[i] == before[i]);
                    assert(r@[j] == before[j - 1]);
                } else if i < p && j < p {
                    assert(r@[i] == before[i]);
                    assert(r@[j] == before[j]);
                } else if i > p {
                    assert(r@[i] == before[i - 1]);
                    assert(r@[j] == before[j - 1]);
                } else if i == p {
                    assert(r@[j] == before[j - 1]);
                } else {
                    assert(r@[i] == before[i]);
                }
            }
            assert forall|i: int, j: int| 0 <= i < j < r@.len() implies !key_lt(
                task_key(ts[r@[j] as int]),
                task_key(ts[r@[i] as int]),
            ) && (task_key(ts[r@[i] as int]) == task_key(ts[r@[j] as int]) ==> r@[i] < r@[j]) by {
                if j < p {
                    assert(r@[i] == before[i]);
                    assert(r@[j] == before[j]);
                } else if j == p {
                    assert(r@[i] == before[i]);
                    assert(before[i] < k);
                } else if i < p {
                    assert(r@[i] == before[i]);
                    assert(r@[j] == before[j - 1]);
                } else if i == p {
                    assert(r@[j] == before[j - 1]);
                    let b = task_key(ts[before[j - 1] as int]);
                    let bp = task_key(ts[before[p as int] as int]);
                    assert(key_lt(kk, bp));
                    if j - 1 > p {
                        assert(!key_lt(b, bp));
                        lemma_key_total(bp, b);
                        if key_lt(bp, b) {
                            lemma_key_transitive(kk, bp, b);
                        }
                    }
                    lemma_key_total(kk, b);
                } else {
                    assert(r@[i] == before[i - 1]);
                    assert(r@[j] == before[j - 1]);
                }
            }
            assert forall|i: int, j: int|
                0 <= i < j < r@.len() && task_key(ts[r@[i] as int]) == task_key(ts[r@[j] as int]) implies r@[i]
                < r@[j] by {
                assert(!key_lt(task_key(ts[r@[j] as int]), task_key(ts[r@[i] as int])) && (task_key(ts[r@[i] as int])
                    == task_key(ts[r@[j] as int]) ==> r@[i] < r@[j]));
            }
        }
        k += 1;
    }
    r
}

/// The pending tasks of `tasks`, in order.
pub open spec fn pending_tasks(tasks: Seq<Task>) -> Seq<Task> {
    tasks.filter(|t: Task| t.status@ == "pending"@)
}

/// The first `limit` pending tasks by wave, then sequence, then
/// creation time; tasks with equal keys keep their listing order.
pub fn top_pending(tasks: &Vec<Task>, limit: usize) -> (r: Vec<Task>)
    ensures
        exists|order: Seq<usize>|
            #![auto]
            is_perm(order, pending_tasks(tasks@).len()) && sorted_by_key(pending_tasks(tasks@), order) && r@.len()
                == (if limit < order.len() {
                limit as int
            } else {
                order.len() as int
            }) && forall|i: int| 0 <= i < r@.len() ==> r@[i] == pending_tasks(tasks@)[order[i] as int],
{
    let mut pending: Vec<Task> = Vec::new();
    let mut i: usize = 0;
    while i < tasks.len()
        invariant
            i <= tasks.len(),
            pending@ == tasks@.take(i as int).filter(|t: Task| t.status@ == "pending"@),
        decreases tasks.len() - i,
    {
        proof {
            assert(tasks@.take(i + 1) =~= tasks@.take(i as int).push(tasks@[i as int]));
            tasks@.take(i as int).lemma_filter_push(tasks@[i as int], |t: Task| t.status@ == "pending"@);
        }
        if crate::text::eq_str(&chars_of(tasks[i].status.as_str()), "pending") {
            pending.push(copy_task(&tasks[i]));
        }
        i += 1;
    }
    assert(tasks@.take(tasks.len() as int) =~= tasks@);
    let order = task_order(&pending);
    let n = if limit < order.len() {
        limit
    } else {
        order.len()
    };
    let mut out: Vec<Task> = Vec::new();
    let mut j: usize = 0;
    while j < n
        invariant
            j <= n,
            n <= order.len(),
            is_perm(order@, pending@.len()),
            out@.len() == j,
            forall|q: int| 0 <= q < j ==> out@[q] == pending@[order@[q] as int],
        decreases n - j,
    {
        out.push(copy_task(&pending[order[j]]));
        j += 1;
    }
    assert(pending@ == pending_tasks(tasks@));
    assert(is_perm(order@, pending_tasks(tasks@).len()) && sorted_by_key(pending_tasks(tasks@), order@) && out@.len()
        == (if limit < order@.len() {
        limit as int
    } else {
        order@.len() as int
    }) && forall|i: int| 0 <= i < out@.len() ==> out@[i] == pending_tasks(tasks@)[order@[i] as int]);
    out
}

} // verus!

verus! {

/// A plan as the daemon lists it.
#[derive(Debug, Clone)]
pub struct Plan {
    pub id: String,
    pub title: String,
    pub description: Option<String>,
    pub project: Option<String>,
    pub status: String,
    pub updated_at: String,
}

/// A plan of `project` that is still open.
pub open spec fn candidate(p: Plan, project: Seq<char>) -> bool {
    &&& p.project matches Some(pr) && pr@ == project
    &&& (p.status@ == "draft"@ || p.status@ == "active"@)
}

/// The plan to resume when none is named: among the open plans of
/// `project`, the one updated last (by `updated_at` text order; of equal
/// times, the last listed). `None` when the project has no open plan.
pub fn select_plan(plans: &Vec<Plan>, project: &str) -> (r: Option<usize>)
    ensures
        r is None <==> forall|j: int| 0 <= j < plans@.len() ==> !candidate(#[trigger] plans@[j], project@),
        r matches Some(i) ==> {
            &&& i < plans@.len()
            &&& candidate(plans@[i as int], project@)
            &&& forall|j: int|
                0 <= j < plans@.len() && candidate(#[trigger] plans@[j], project@) ==> !seq_lt(
                    plans@[i as int].updated_at@,
                    plans@[j].updated_at@,
                )
            &&& forall|j: int|
                i < j < plans@.len() && candidate(#[trigger] plans@[j], project@) ==> seq_lt(
                    plans@[j].updated_at@,
                    plans@[i as int].updated_at@,
                )
        },
{
    let mut best: Option<usize> = None;
    let mut i: usize = 0;
    let pj = chars_of(project);
    while i < plans.len()
        invariant
            i <= plans.len(),
            pj@ == project@,
            best is None <==> forall|j: int| 0 <= j < i ==> !candidate(#[trigger] plans@[j], project@),
            best matches Some(b) ==> {
                &&& b < i
                &&& candidate(plans@[b as int], project@)
                &&& forall|j: int|
                    0 <= j < i && candidate(#[trigger] plans@[j], project@) ==> !seq_lt(
                        plans@[b as int].updated_at@,
                        plans@[j].updated_at@,
                    )
                &&& forall|j: int|
                    b < j < i && candidate(#[trigger] plans@[j], project@) ==> seq_lt(
                        plans@[j].updated_at@,
                        plans@[b as int].updated_at@,
                    )
            },
        decreases plans.len() - i,
    {
        let p = &plans[i];
        let in_project = match &p.project {
            Some(pr) => crate::text::eq(&chars_of(pr.as_str()), &pj),
            None => false,
        };
        let is_candidate = in_project && is_open_status(p.status.as_str());
        if is_candidate {
            let take = match best {
                None => true,
                Some(b) => !crate::order::chars_lt(
                    &chars_of(p.updated_at.as_str()),
                    &chars_of(plans[b].updated_at.as_str()),
                ),
            };
            if take {
                proof {
                    match best {
                        Some(b) => {
                            let cur = plans@[i as int].updated_at@;
                            let old_best = plans@[b as int].updated_at@;
                            assert forall|j: int|
                                0 <= j < i + 1 && candidate(#[trigger] plans@[j], project@) implies !seq_lt(
                                cur,
                                plans@[j].updated_at@,
                            ) by {
                                if j < i {
                                    lemma_lt_total(cur, old_best);
                                    if seq_lt(cur, plans@[j].updated_at@) {
                                        lemma_lt_total(old_best, cur);
                                        if seq_lt(old_best, cur) {
                                            lemma_lt_transitive(old_best, cur, plans@[j].updated_at@);
                                        }
                                    }
                                } else {
                                    lemma_lt_irreflexive(cur);
                                }
                            }
                        },
                        None => {
                            lemma_lt_irreflexive(plans@[i as int].updated_at@);
                        },
                    }
                }
                best = Some(i);
            } else {
                proof {
                    let b = best->0;
                    lemma_lt_asymmetric(plans@[i as int].updated_at@, plans@[b as int].updated_at@);
                }
            }
        }
        i += 1;
    }
    best
}

} // verus!
