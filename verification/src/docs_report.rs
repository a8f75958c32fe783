//! Layouts of the `cvg docs regenerate` report: which markdown files had
//! stale AUTO blocks (check mode) or were rewritten.
use vstd::prelude::*;
use crate::text::{decimal, push_decimal, push_str, string_of};

verus! {

/// `  - path` lines.
pub open spec fn file_lines(fs: Seq<String>) -> Seq<char>
    decreases fs.len(),
{
    if fs.len() == 0 {
        Seq::empty()
    } else {
        file_lines(fs.drop_last()) + "  - "@ + fs.last()@ + "\n"@
    }
}

fn push_file_lines(out: &mut Vec<char>, fs: &Vec<String>)
    ensures
        final(out)@ == old(out)@ + file_lines(fs@),
{
    let ghost start = out@;
    let mut i: usize = 0;
    while i < fs.len()
        invariant
            i <= fs.len(),
            out@ == start + file_lines(fs@.take(i as int)),
        decreases fs.len() - i,
    {
        assert(fs@.take(i + 1).drop_last() =~= fs@.take(i as int));
        push_str(out, "  - ");
        push_str(out, fs[i].as_str());
        push_str(out, "\n");
        i += 1;
    }
    assert(fs@.take(fs.len() as int) =~= fs@);
}

/// In check mode with stale files, the stale list and the command to
/// run; otherwise the rewritten files, or that every block is current.
pub open spec fn docs_human(stale: Seq<String>, rewritten: Seq<String>, check: bool) -> Seq<char> {
    if check && stale.len() > 0 {
        decimal(stale.len()) + " stale doc file(s) — run `cvg docs regenerate` and commit:\n"@ + file_lines(stale)
    } else if rewritten.len() > 0 {
        "Rewrote "@ + decimal(rewritten.len()) + " doc file(s):\n"@ + file_lines(rewritten)
    } else {
        "All AUTO blocks are current.\n"@
    }
}

/// The human layout of `cvg docs regenerate`.
pub fn render_docs_human(stale: &Vec<String>, rewritten: &Vec<String>, check: bool) -> (s: String)
    ensures
        s@ == docs_human(stale@, rewritten@, check),
{
    let mut out: Vec<char> = Vec::new();
    if check && stale.len() > 0 {
        push_decimal(&mut out, stale.len() as u64);
        push_str(&mut out, " stale doc file(s) — run `cvg docs regenerate` and commit:\n");
        push_file_lines(&mut out, stale);
    } else if rewritten.len() > 0 {
        push_str(&mut out, "Rewrote ");
        push_decimal(&mut out, rewritten.len() as u64);
        push_str(&mut out, " doc file(s):\n");
        push_file_lines(&mut out, rewritten);
    } else {
        push_str(&mut out, "All AUTO blocks are current.\n");
    }
    assert(out@ =~= docs_human(stale@, rewritten@, check));
    string_of(&out)
}

/// The plain layout of `cvg docs regenerate`.
pub fn render_docs_plain(stale: &Vec<String>, rewritten: &Vec<String>) -> (s: String)
    ensures
        s@ == "stale="@ + decimal(stale@.len()) + " rewritten="@ + decimal(rewritten@.len()) + "\n"@,
{
    let mut out: Vec<char> = Vec::new();
    push_str(&mut out, "stale=");
    push_decimal(&mut out, stale.len() as u64);
    push_str(&mut out, " rewritten=");
    push_decimal(&mut out, rewritten.len() as u64);
    push_str(&mut out, "\n");
    string_of(&out)
}

} // verus!
