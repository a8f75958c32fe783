//! Human layout of `cvg pr stack`: one summary line per PR and the
//! suggested merge order as an arrow chain. The localised words (the
//! header and the manifest label) come from the caller.
use vstd::prelude::*;
use crate::pr::{compute_conflicts, conflicts_prefix, truncate, AnalysedPr};
use crate::text::{chars_of, idecimal, push_idecimal, push_str, string_of};

verus! {

/// `#a<sep>#b<sep>...`.
pub open spec fn hash_list(ns: Seq<i64>, sep: Seq<char>) -> Seq<char>
    decreases ns.len(),
{
    if ns.len() == 0 {
        Seq::empty()
    } else if ns.len() == 1 {
        seq!['#'] + idecimal(ns[0] as int)
    } else {
        hash_list(ns.drop_last(), sep) + sep + seq!['#'] + idecimal(ns.last() as int)
    }
}

/// `s` padded with spaces to four characters (`{:<4}`).
pub open spec fn pad4(s: Seq<char>) -> Seq<char> {
    if s.len() < 4 {
        s + Seq::new((4 - s.len()) as nat, |i: int| ' ')
    } else {
        s
    }
}

/// Titles longer than 60 characters end in `…` after 59.
pub open spec fn short_title(t: Seq<char>) -> Seq<char> {
    if t.len() <= 60 {
        t
    } else {
        t.take(59) + seq!['…']
    }
}

/// The summary line of a PR: number, short title, manifest label, its
/// dependencies and the PRs it shares a file with.
pub open spec fn pr_line_spec(p: AnalysedPr, all: Seq<AnalysedPr>, label: Seq<char>) -> Seq<char> {
    let c = conflicts_prefix(p, all, all.len() as int);
    "  #"@ + pad4(idecimal(p.number as int)) + " "@ + short_title(p.title@) + " ("@ + label + ")"@ + (if p.depends_on.items@.len()
        == 0 {
        Seq::<char>::empty()
    } else {
        " depends-on=["@ + hash_list(p.depends_on.items@, ","@) + "]"@
    }) + (if c.len() == 0 {
        Seq::<char>::empty()
    } else {
        " conflicts-with=["@ + hash_list(c, ","@) + "]"@
    }) + "\n"@
}

fn push_hash_list(out: &mut Vec<char>, ns: &Vec<i64>, sep: &str)
    ensures
        final(out)@ == old(out)@ + hash_list(ns@, sep@),
{
    let ghost start = out@;
    let mut i: usize = 0;
    while i < ns.len()
        invariant
            i <= ns.len(),
            out@ == start + hash_list(ns@.take(i as int), sep@),
        decreases ns.len() - i,
    {
        if i > 0 {
            push_str(out, sep);
        }
        out.push('#');
        push_idecimal(out, ns[i]);
        proof {
            assert(ns@.take(i + 1).drop_last() =~= ns@.take(i as int));
            if i == 0 {
                assert(ns@.take(1)[0] == ns@[0]);
            }
        }
        i += 1;
    }
    assert(ns@.take(ns.len() as int) =~= ns@);
}

/// The summary line of one PR of the stack; `manifest_label` is the
/// localised description of its manifest status.
pub fn pr_summary_line(p: &AnalysedPr, all: &Vec<AnalysedPr>, manifest_label: &str) -> (s: String)
    ensures
        s@ == pr_line_spec(*p, all@, manifest_label@),
{
    let mut out: Vec<char> = Vec::new();
    push_str(&mut out, "  #");
    let mut num: Vec<char> = Vec::new();
    push_idecimal(&mut num, p.number);
    let ghost nv = num@;
    while num.len() < 4
        invariant
            nv.len() < 4 ==> num@ == nv + Seq::new((num@.len() - nv.len()) as nat, |i: int| ' ') && num@.len() <= 4,
            nv.len() >= 4 ==> num@ == nv,
            num@.len() >= nv.len(),
        decreases 4 - num.len(),
    {
        let ghost before = num@;
        num.push(' ');
        proof {
            assert(num@ =~= nv + Seq::new((num@.len() - nv.len()) as nat, |i: int| ' '));
        }
    }
    proof {
        if nv.len() < 4 {
            assert(num@ =~= pad4(nv));
        }
    }
    crate::text::push_all(&mut out, &num);
    push_str(&mut out, " ");
    let t = truncate(p.title.as_str(), 60);
    push_str(&mut out, t.as_str());
    push_str(&mut out, " (");
    push_str(&mut out, manifest_label);
    push_str(&mut out, ")");
    let ghost h = out@;
    if p.depends_on.items.len() > 0 {
        push_str(&mut out, " depends-on=[");
        push_hash_list(&mut out, &p.depends_on.items, ",");
        push_str(&mut out, "]");
    }
    let c = compute_conflicts(p, all);
    if c.len() > 0 {
        push_str(&mut out, " conflicts-with=[");
        push_hash_list(&mut out, &c, ",");
        push_str(&mut out, "]");
    }
    push_str(&mut out, "\n");
    assert(out@ =~= pr_line_spec(*p, all@, manifest_label@));
    string_of(&out)
}

/// The suggested merge order as `#a -> #b -> ...`.
pub fn merge_order_text(order: &Vec<i64>) -> (s: String)
    ensures
        s@ == hash_list(order@, " -> "@),
{
    let mut out: Vec<char> = Vec::new();
    push_hash_list(&mut out, order, " -> ");
    assert(out@ =~= hash_list(order@, " -> "@));
    string_of(&out)
}

} // verus!
