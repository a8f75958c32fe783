//! Human layout of the `cvg session pre-stop` report.
use vstd::prelude::*;
use crate::pre_stop::{CheckOutcome, CheckResult, OutcomeView, PreStopReport};
use crate::text::{push_str, string_of};

verus! {

/// `- finding` lines, indented under their check.
pub open spec fn finding_lines(fs: Seq<Seq<char>>) -> Seq<char>
    decreases fs.len(),
{
    if fs.len() == 0 {
        Seq::empty()
    } else {
        finding_lines(fs.drop_last()) + "        - "@ + fs.last() + "\n"@
    }
}

/// `ok`, `FAIL` or `todo`.
pub open spec fn mark_of(o: OutcomeView) -> Seq<char> {
    match o {
        OutcomeView::Pass => "ok"@,
        OutcomeView::Fail(_) => "FAIL"@,
        OutcomeView::NotImplemented(_) => "todo"@,
    }
}

/// The lines of one check: its mark, id and label, then its findings or
/// the plan task that schedules it.
pub open spec fn result_text(r: CheckResult) -> Seq<char> {
    "  ["@ + mark_of(r.outcome.view()) + "] "@ + r.id@ + " — "@ + r.label@ + "\n"@ + match r.outcome.view() {
        OutcomeView::Pass => Seq::empty(),
        OutcomeView::Fail(fs) => finding_lines(fs),
        OutcomeView::NotImplemented(t) => "        scheduled in plan task "@ + t + "\n"@,
    }
}

pub open spec fn results_text(rs: Seq<CheckResult>) -> Seq<char>
    decreases rs.len(),
{
    if rs.len() == 0 {
        Seq::empty()
    } else {
        results_text(rs.drop_last()) + result_text(rs.last())
    }
}

pub open spec fn bool_text(b: bool) -> Seq<char> {
    if b {
        "true"@
    } else {
        "false"@
    }
}

/// The whole report: a header naming the agent and whether `--force`
/// was given, then each check in registry order.
pub open spec fn report_text(agent_id: Seq<char>, force: bool, rs: Seq<CheckResult>) -> Seq<char> {
    "session pre-stop report (agent_id="@ + agent_id + ", force="@ + bool_text(force) + ")\n"@ + results_text(rs)
}

fn push_findings(out: &mut Vec<char>, fs: &Vec<String>)
    ensures
        final(out)@ == old(out)@ + finding_lines(fs@.map_values(|x: String| x@)),
{
    let ghost start = out@;
    let mut i: usize = 0;
    while i < fs.len()
        invariant
            i <= fs.len(),
            out@ == start + finding_lines(fs@.take(i as int).map_values(|x: String| x@)),
        decreases fs.len() - i,
    {
        proof {
            assert(fs@.take(i + 1).map_values(|x: String| x@).drop_last() =~= fs@.take(i as int).map_values(
                |x: String| x@,
            ));
        }
        push_str(out, "        - ");
        push_str(out, fs[i].as_str());
        push_str(out, "\n");
        i += 1;
    }
    assert(fs@.take(fs.len() as int) =~= fs@);
}

fn push_result(out: &mut Vec<char>, r: &CheckResult)
    ensures
        final(out)@ == old(out)@ + result_text(*r),
{
    let ghost start = out@;
    push_str(out, "  [");
    match &r.outcome {
        CheckOutcome::Pass => push_str(out, "ok"),
        CheckOutcome::Fail { .. } => push_str(out, "FAIL"),
        CheckOutcome::NotImplemented { .. } => push_str(out, "todo"),
    }
    push_str(out, "] ");
    push_str(out, r.id);
    push_str(out, " — ");
    push_str(out, r.label);
    push_str(out, "\n");
    match &r.outcome {
        CheckOutcome::Pass => {},
        CheckOutcome::Fail { findings } => push_findings(out, findings),
        CheckOutcome::NotImplemented { task_id } => {
            push_str(out, "        scheduled in plan task ");
            push_str(out, task_id);
            push_str(out, "\n");
        },
    }
    assert(out@ =~= start + result_text(*r));
}

/// The human report of `cvg session pre-stop`.
pub fn render_human(agent_id: &str, force: bool, report: &PreStopReport) -> (s: String)
    ensures
        s@ == report_text(agent_id@, force, report.results@),
{
    let mut out: Vec<char> = Vec::new();
    push_str(&mut out, "session pre-stop report (agent_id=");
    push_str(&mut out, agent_id);
    push_str(&mut out, ", force=");
    if force {
        push_str(&mut out, "true");
    } else {
        push_str(&mut out, "false");
    }
    push_str(&mut out, ")\n");
    let ghost head = out@;
    let mut i: usize = 0;
    while i < report.results.len()
        invariant
            i <= report.results.len(),
            out@ == head + results_text(report.results@.take(i as int)),
        decreases report.results.len() - i,
    {
        proof {
            assert(report.results@.take(i + 1).drop_last() =~= report.results@.take(i as int));
        }
        push_result(&mut out, &report.results[i]);
        i += 1;
    }
    assert(report.results@.take(report.results.len() as int) =~= report.results@);
    assert(out@ =~= report_text(agent_id@, force, report.results@));
    string_of(&out)
}

} // verus!
