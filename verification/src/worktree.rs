//! `check.worktree.no_pr`: secondary worktrees whose branch has no open
//! pull request.
use vstd::prelude::*;
use crate::pre_stop::{Check, CheckContext, CheckOutcome, OutcomeView, Probes};
use crate::text::{chars_of, eq_str, has_prefix, lines, lines_of, push_all, push_str, slice_of, starts_with, string_of, string_views, views};

verus! {

/// State while reading `git worktree list --porcelain`: branches found
/// so far, the branch of the current block, and whether the current
/// block is the main worktree (the first one).
pub struct WorktreeScan {
    pub branches: Seq<Seq<char>>,
    pub block: Option<Seq<char>>,
    pub main: bool,
}

/// The effect of one porcelain line.
pub open spec fn worktree_step(st: WorktreeScan, line: Seq<char>) -> WorktreeScan {
    if starts_with(line, "branch refs/heads/"@) {
        WorktreeScan { block: Some(line.skip(18)), ..st }
    } else if line == "detached"@ {
        WorktreeScan { block: None, ..st }
    } else if line.len() == 0 {
        WorktreeScan {
            branches: match st.block {
                Some(b) if !st.main => st.branches.push(b),
                _ => st.branches,
            },
            block: None,
            main: false,
        }
    } else {
        st
    }
}

pub open spec fn worktree_fold(ls: Seq<Seq<char>>, n: int) -> WorktreeScan
    decreases n,
{
    if n <= 0 {
        WorktreeScan { branches: Seq::empty(), block: None, main: true }
    } else {
        worktree_step(worktree_fold(ls, n - 1), ls[n - 1])
    }
}

/// The branch of every secondary worktree that is not on a detached
/// HEAD, in listing order.
pub open spec fn worktree_branches(text: Seq<char>) -> Seq<Seq<char>> {
    let st = worktree_fold(lines_of(text), lines_of(text).len() as int);
    match st.block {
        Some(b) if !st.main => st.branches.push(b),
        _ => st.branches,
    }
}

/// Branches of the secondary worktrees in `git worktree list
/// --porcelain` output: the main worktree (the first block) and blocks
/// on a detached HEAD are skipped.
pub fn list_worktree_branches(porcelain: &str) -> (r: Vec<String>)
    ensures
        string_views(r@) == worktree_branches(porcelain@),
{
    let text = chars_of(porcelain);
    let ls = lines(&text);
    let mut branches: Vec<String> = Vec::new();
    let mut block: Option<Vec<char>> = None;
    let mut main = true;
    let mut k: usize = 0;
    assert(string_views(branches@) =~= Seq::<Seq<char>>::empty());
    while k < ls.len()
        invariant
            k <= ls.len(),
            views(ls@) == lines_of(porcelain@),
            worktree_fold(views(ls@), k as int) == (WorktreeScan {
                branches: string_views(branches@),
                block: match block {
                    Some(b) => Some(b@),
                    None => None,
                },
                main,
            }),
        decreases ls.len() - k,
    {
        let line = &ls[k];
        assert(views(ls@)[k as int] == line@);
        if has_prefix(line, "branch refs/heads/") {
            proof {
                reveal_strlit("branch refs/heads/");
            }
            block = Some(slice_of(line, 18, line.len()));
        } else if eq_str(line, "detached") {
            block = None;
        } else if line.len() == 0 {
            match block {
                Some(b) => {
                    if !main {
                        let ghost before = string_views(branches@);
                        let s = string_of(&b);
                        branches.push(s);
                        assert(string_views(branches@) =~= before.push(b@));
                    }
                },
                None => {},
            }
            block = None;
            main = false;
        }
        k += 1;
    }
    match block {
        Some(b) => {
            if !main {
                let ghost before = string_views(branches@);
                let s = string_of(&b);
                branches.push(s);
                assert(string_views(branches@) =~= before.push(b@));
            }
        },
        None => {},
    }
    branches
}

/// The finding for a worktree branch without a pull request.
pub open spec fn worktree_finding(branch: Seq<char>) -> Seq<char> {
    "worktree branch '"@ + branch + "' has no open PR"@
}

/// One finding per branch without an open pull request, in order.
pub open spec fn worktree_findings(ws: Seq<(Seq<char>, bool)>) -> Seq<Seq<char>>
    decreases ws.len(),
{
    if ws.len() == 0 {
        Seq::empty()
    } else {
        let rest = worktree_findings(ws.drop_last());
        if ws.last().1 {
            rest
        } else {
            rest.push(worktree_finding(ws.last().0))
        }
    }
}

pub open spec fn worktree_views(ws: Seq<(String, bool)>) -> Seq<(Seq<char>, bool)> {
    ws.map_values(|w: (String, bool)| (w.0@, w.1))
}

/// What `check.worktree.no_pr` reports: a pass when the worktrees could
/// not be listed or every branch has an open pull request; otherwise one
/// finding per branch without one.
pub open spec fn worktree_outcome(o: OutcomeView, worktrees: Option<Seq<(Seq<char>, bool)>>) -> bool {
    match worktrees {
        None => o is Pass,
        Some(ws) => if worktree_findings(ws).len() == 0 {
            o is Pass
        } else {
            o == OutcomeView::Fail(worktree_findings(ws))
        },
    }
}

/// Abandoned worktrees with no open pull request.
pub struct WorktreeNoPrCheck;

impl Check for WorktreeNoPrCheck {
    fn id(&self) -> (r: &'static str)
        ensures
            r@ == "check.worktree.no_pr"@,
    {
        "check.worktree.no_pr"
    }

    fn label(&self) -> (r: &'static str)
        ensures
            r@ == "abandoned worktrees with no PR open"@,
    {
        "abandoned worktrees with no PR open"
    }

    fn run(&self, ctx: &CheckContext, probes: &Probes) -> (r: CheckOutcome)
        ensures
            worktree_outcome(
                r.view(),
                match probes.worktrees {
                    Some(ws) => Some(worktree_views(ws@)),
                    None => None,
                },
            ),
    {
        let ws = match &probes.worktrees {
            None => return CheckOutcome::Pass,
            Some(w) => w,
        };
        let ghost wv = worktree_views(ws@);
        let mut findings: Vec<String> = Vec::new();
        let mut i: usize = 0;
        while i < ws.len()
            invariant
                i <= ws.len(),
                wv == worktree_views(ws@),
                string_views(findings@) == worktree_findings(wv.take(i as int)),
            decreases ws.len() - i,
        {
            proof {
                assert(wv.take(i + 1).drop_last() =~= wv.take(i as int));
                assert(wv.take(i + 1).last() == (ws@[i as int].0@, ws@[i as int].1));
            }
            if !ws[i].1 {
                let mut f: Vec<char> = Vec::new();
                push_str(&mut f, "worktree branch '");
                push_str(&mut f, ws[i].0.as_str());
                push_str(&mut f, "' has no open PR");
                let ghost before = string_views(findings@);
                let fs = string_of(&f);
                findings.push(fs);
                assert(string_views(findings@) =~= before.push(worktree_finding(ws@[i as int].0@)));
            }
            i += 1;
        }
        assert(wv.take(ws.len() as int) =~= wv);
        if findings.len() == 0 {
            CheckOutcome::Pass
        } else {
            CheckOutcome::Fail { findings }
        }
    }
}

} // verus!
