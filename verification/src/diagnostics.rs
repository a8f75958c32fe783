//! Local diagnostics: the tail of the MCP bridge log (`cvg mcp tail`) and
//! the audit-chain route (`cvg audit verify`).
use vstd::prelude::*;
use crate::text::{chars_of, idecimal, lines, lines_of, push_idecimal, push_str, string_of, views};

verus! {

/// The last `n` lines of a text (all of them when it has fewer), in
/// their order.
pub open spec fn last_lines(text: Seq<char>, n: nat) -> Seq<Seq<char>> {
    let ls = lines_of(text);
    if ls.len() <= n {
        ls
    } else {
        ls.skip(ls.len() - n)
    }
}

/// The lines `cvg mcp tail` prints: the last `n` lines of the log.
pub fn tail_lines(content: &str, n: usize) -> (r: Vec<String>)
    ensures
        r@.map_values(|s: String| s@) == last_lines(content@, n as nat),
{
    let ls = lines(&chars_of(content));
    let start: usize = if ls.len() <= n {
        0
    } else {
        ls.len() - n
    };
    let mut out: Vec<String> = Vec::new();
    let mut i: usize = start;
    while i < ls.len()
        invariant
            start <= i <= ls.len(),
            views(ls@) == lines_of(content@),
            start == (if ls@.len() <= n {
                0
            } else {
                ls@.len() - n
            }),
            out@.map_values(|s: String| s@) == views(ls@).subrange(start as int, i as int),
        decreases ls.len() - i,
    {
        let ghost before = out@.map_values(|s: String| s@);
        out.push(string_of(&ls[i]));
        assert(out@.map_values(|s: String| s@) =~= before.push(views(ls@)[i as int]));
        assert(views(ls@).subrange(start as int, i + 1) =~= views(ls@).subrange(start as int, i as int).push(
            views(ls@)[i as int],
        ));
        i += 1;
    }
    assert(views(ls@).subrange(start as int, ls@.len() as int) =~= last_lines(content@, n as nat));
    out
}

/// `<key><n>&` (the key ending in `=`) when a bound is given.
pub open spec fn bound_param(key: Seq<char>, v: Option<i64>) -> Seq<char> {
    match v {
        Some(x) => key + idecimal(x as int) + "&"@,
        None => Seq::empty(),
    }
}

/// The route of `cvg audit verify`, with the optional `seq` bounds.
pub fn audit_verify_path(from: Option<i64>, to: Option<i64>) -> (r: String)
    ensures
        r@ == "/v1/audit/verify?"@ + bound_param("from="@, from) + bound_param("to="@, to),
{
    let mut p: Vec<char> = chars_of("/v1/audit/verify?");
    let ghost start = p@;
    match from {
        Some(f) => {
            push_str(&mut p, "from=");
            push_idecimal(&mut p, f);
            push_str(&mut p, "&");
        },
        None => {},
    }
    let ghost mid = p@;
    assert(mid =~= start + bound_param("from="@, from));
    match to {
        Some(t) => {
            push_str(&mut p, "to=");
            push_idecimal(&mut p, t);
            push_str(&mut p, "&");
        },
        None => {},
    }
    assert(p@ =~= mid + bound_param("to="@, to));
    string_of(&p)
}

} // verus!
