//! `cvg plan triage`: the requests it makes and the decisions of its
//! optional close-out of stale tasks.
use vstd::prelude::*;
use crate::text::{chars_of, idecimal, push_idecimal, push_str, string_of, trim, trimmed};

verus! {

/// The route that lists the stale tasks of a plan.
pub fn triage_path(plan_id: &str, stale_days: i64) -> (r: String)
    ensures
        r@ == "/v1/plans/"@ + plan_id@ + "/triage?stale_days="@ + idecimal(stale_days as int),
{
    let mut p: Vec<char> = chars_of("/v1/plans/");
    push_str(&mut p, plan_id);
    push_str(&mut p, "/triage?stale_days=");
    push_idecimal(&mut p, stale_days);
    string_of(&p)
}

/// The route that closes one task after the fact.
pub fn close_path(task_id: &str) -> (r: String)
    ensures
        r@ == "/v1/tasks/"@ + task_id@ + "/close-post-hoc"@,
{
    let mut p: Vec<char> = chars_of("/v1/tasks/");
    push_str(&mut p, task_id);
    push_str(&mut p, "/close-post-hoc");
    string_of(&p)
}

/// The reason recorded on each task closed by triage.
pub fn close_reason(stale_days: i64) -> (r: String)
    ensures
        r@ == "auto-closed by triage: stale for "@ + idecimal(stale_days as int) + " days"@,
{
    let mut p: Vec<char> = chars_of("auto-closed by triage: stale for ");
    push_idecimal(&mut p, stale_days);
    push_str(&mut p, " days");
    string_of(&p)
}

/// Whether the answer to the confirmation prompt accepts: once trimmed
/// and lowercased it is `y` (yes) or `s` (sì). Only `y`, `Y`, `s` and `S`
/// lowercase to those letters.
pub open spec fn accepts(answer: Seq<char>) -> bool {
    let t = trim(answer);
    t == "y"@ || t == "Y"@ || t == "s"@ || t == "S"@
}

/// Reads the confirmation answer.
pub fn confirms(answer: &str) -> (r: bool)
    ensures
        r == accepts(answer@),
{
    proof {
        reveal_strlit("y");
        reveal_strlit("Y");
        reveal_strlit("s");
        reveal_strlit("S");
    }
    let t = trimmed(&chars_of(answer));
    assert(t@ == trim(answer@));
    assert("y"@.len() == 1 && "Y"@.len() == 1 && "s"@.len() == 1 && "S"@.len() == 1);
    if t.len() != 1 {
        return false;
    }
    let c = t[0];
    proof {
        assert(t@ =~= seq![c]);
        assert("y"@ =~= seq!['y']);
        assert("Y"@ =~= seq!['Y']);
        assert("s"@ =~= seq!['s']);
        assert("S"@ =~= seq!['S']);
        assert(seq![c] == seq!['y'] ==> seq![c][0] == 'y');
        assert(seq![c] == seq!['Y'] ==> seq![c][0] == 'Y');
        assert(seq![c] == seq!['s'] ==> seq![c][0] == 's');
        assert(seq![c] == seq!['S'] ==> seq![c][0] == 'S');
    }
    c == 'y' || c == 'Y' || c == 's' || c == 'S'
}

/// The ids of the listed tasks that closing acts on: those present and
/// not empty, in list order.
pub open spec fn targets(ids: Seq<Option<String>>) -> Seq<Seq<char>>
    decreases ids.len(),
{
    if ids.len() == 0 {
        Seq::empty()
    } else {
        match ids.last() {
            Some(s) => if s@.len() == 0 {
                targets(ids.drop_last())
            } else {
                targets(ids.drop_last()).push(s@)
            },
            None => targets(ids.drop_last()),
        }
    }
}

/// The task ids to close, from the ids of the listed tasks.
pub fn close_targets(ids: &Vec<Option<String>>) -> (r: Vec<String>)
    ensures
        r@.map_values(|s: String| s@) == targets(ids@),
{
    let mut out: Vec<String> = Vec::new();
    let mut i: usize = 0;
    while i < ids.len()
        invariant
            i <= ids.len(),
            out@.map_values(|s: String| s@) == targets(ids@.take(i as int)),
        decreases ids.len() - i,
    {
        assert(ids@.take(i + 1).drop_last() =~= ids@.take(i as int));
        match &ids[i] {
            Some(s) => {
                let c = chars_of(s.as_str());
                if c.len() > 0 {
                    let ghost before = out@.map_values(|s: String| s@);
                    out.push(string_of(&c));
                    assert(out@.map_values(|s: String| s@) =~= before.push(s@));
                }
            },
            None => {},
        }
        i += 1;
    }
    assert(ids@.take(ids.len() as int) =~= ids@);
    out
}

} // verus!
