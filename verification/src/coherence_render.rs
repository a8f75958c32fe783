//! Human and plain layouts of the coherence report.
use vstd::prelude::*;
use crate::coherence::{Report, Violation};
use crate::coherence_body::ViolationView;
use crate::text::{decimal, push_decimal, push_str, string_of};

verus! {

pub open spec fn violation_line(v: ViolationView) -> Seq<char> {
    "  - ["@ + v.kind + "] "@ + v.file + ": "@ + v.detail + "\n"@
}

pub open spec fn violation_lines(vs: Seq<Violation>) -> Seq<char>
    decreases vs.len(),
{
    if vs.len() == 0 {
        Seq::empty()
    } else {
        violation_lines(vs.drop_last()) + violation_line(vs.last().view())
    }
}

/// The human report: the totals, then either the all-clear or each
/// violation with its kind, file and detail.
pub open spec fn report_human(r: Report) -> Seq<char> {
    "Checked "@ + decimal(r.adrs_checked as nat) + " ADRs, "@ + decimal(r.crates_known as nat) + " crates known, "@
        + decimal(r.index_entries as nat) + " index entries, "@ + decimal(r.docs_scanned as nat)
        + " markdown bodies.\n"@ + if r.violations@.len() == 0 {
        "Coherence: ok (no violations).\n"@
    } else {
        "Coherence: "@ + decimal(r.violations@.len()) + " violation(s):\n"@ + violation_lines(r.violations@)
    }
}

/// The human layout of `cvg coherence check`.
pub fn render_report_human(r: &Report) -> (s: String)
    ensures
        s@ == report_human(*r),
{
    let mut out: Vec<char> = Vec::new();
    push_str(&mut out, "Checked ");
    push_decimal(&mut out, r.adrs_checked as u64);
    push_str(&mut out, " ADRs, ");
    push_decimal(&mut out, r.crates_known as u64);
    push_str(&mut out, " crates known, ");
    push_decimal(&mut out, r.index_entries as u64);
    push_str(&mut out, " index entries, ");
    push_decimal(&mut out, r.docs_scanned as u64);
    push_str(&mut out, " markdown bodies.\n");
    let ghost head = out@;
    if r.violations.len() == 0 {
        push_str(&mut out, "Coherence: ok (no violations).\n");
    } else {
        push_str(&mut out, "Coherence: ");
        push_decimal(&mut out, r.violations.len() as u64);
        push_str(&mut out, " violation(s):\n");
        let ghost mid = out@;
        let mut i: usize = 0;
        while i < r.violations.len()
            invariant
                i <= r.violations.len(),
                out@ == mid + violation_lines(r.violations@.take(i as int)),
            decreases r.violations.len() - i,
        {
            assert(r.violations@.take(i + 1).drop_last() =~= r.violations@.take(i as int));
            let v = &r.violations[i];
            let ghost before = out@;
            push_str(&mut out, "  - [");
            push_str(&mut out, v.kind.as_str());
            push_str(&mut out, "] ");
            push_str(&mut out, v.file.as_str());
            push_str(&mut out, ": ");
            push_str(&mut out, v.detail.as_str());
            push_str(&mut out, "\n");
            assert(out@ =~= before + violation_line(v.view()));
            i += 1;
        }
        assert(r.violations@.take(r.violations.len() as int) =~= r.violations@);
    }
    assert(out@ =~= report_human(*r));
    string_of(&out)
}

/// The plain layout of `cvg coherence check`: the totals on one line.
pub fn render_report_plain(r: &Report) -> (s: String)
    ensures
        s@ == "checked="@ + decimal(r.adrs_checked as nat) + " crates_known="@ + decimal(r.crates_known as nat)
            + " index_entries="@ + decimal(r.index_entries as nat) + " docs_scanned="@ + decimal(
            r.docs_scanned as nat,
        ) + " violations="@ + decimal(r.violations@.len()) + "\n"@,
{
    let mut out: Vec<char> = Vec::new();
    push_str(&mut out, "checked=");
    push_decimal(&mut out, r.adrs_checked as u64);
    push_str(&mut out, " crates_known=");
    push_decimal(&mut out, r.crates_known as u64);
    push_str(&mut out, " index_entries=");
    push_decimal(&mut out, r.index_entries as u64);
    push_str(&mut out, " docs_scanned=");
    push_decimal(&mut out, r.docs_scanned as u64);
    push_str(&mut out, " violations=");
    push_decimal(&mut out, r.violations.len() as u64);
    push_str(&mut out, "\n");
    string_of(&out)
}

} // verus!
