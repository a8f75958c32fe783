//! Agent identities for spawned runners.
use vstd::prelude::*;
use crate::text::{chars_of, push_all, push_str, slice_of, string_of};

verus! {

/// The runner that an agent is spawned on: vendor and model.
#[derive(Debug, Clone)]
pub struct RunnerKind {
    pub vendor: String,
    pub model: String,
}

/// Bytes of `c` in UTF-8.
pub open spec fn utf8_width(c: char) -> nat {
    if (c as u32) < 0x80 {
        1
    } else if (c as u32) < 0x800 {
        2
    } else if (c as u32) < 0x10000 {
        3
    } else {
        4
    }
}

/// `str::get(..n)`: the prefix of exactly `n` UTF-8 bytes, when `n`
/// falls on a character boundary within the text.
pub open spec fn byte_prefix(t: Seq<char>, n: nat) -> Option<Seq<char>>
    decreases t.len(),
{
    if n == 0 {
        Some(Seq::empty())
    } else if t.len() == 0 {
        None
    } else if utf8_width(t[0]) > n {
        None
    } else {
        match byte_prefix(t.skip(1), (n - utf8_width(t[0])) as nat) {
            Some(p) => Some(seq![t[0]] + p),
            None => None,
        }
    }
}

/// The slug of a task id: its first seven bytes, or the whole id when
/// they do not end on a character boundary.
pub open spec fn task_slug(t: Seq<char>) -> Seq<char> {
    match byte_prefix(t, 7) {
        Some(p) => p,
        None => t,
    }
}

fn width(c: char) -> (w: usize)
    ensures
        w == utf8_width(c),
{
    let v = c as u32;
    if v < 0x80 {
        1
    } else if v < 0x800 {
        2
    } else if v < 0x10000 {
        3
    } else {
        4
    }
}

pub open spec fn lift(p: Seq<char>, o: Option<Seq<char>>) -> Option<Seq<char>> {
    match o {
        Some(q) => Some(p + q),
        None => None,
    }
}

/// `str::get(..n)` on characters: the prefix of exactly `n` UTF-8
/// bytes, when `n` falls on a character boundary within the text.
pub fn byte_prefix_of(t: &Vec<char>, n: usize) -> (r: Option<Vec<char>>)
    ensures
        match r {
            Some(p) => byte_prefix(t@, n as nat) == Some(p@),
            None => byte_prefix(t@, n as nat) is None,
        },
{
    let mut acc: usize = 0;
    let mut k: usize = 0;
    assert(t@.skip(0) =~= t@);
    assert(t@.take(0) + t@ =~= t@);
    while k < t.len() && acc < n
        invariant
            k <= t.len(),
            acc <= n,
            byte_prefix(t@, n as nat) == lift(t@.take(k as int), byte_prefix(t@.skip(k as int), (n - acc) as nat)),
        decreases t.len() - k,
    {
        let w = width(t[k]);
        proof {
            let rest = t@.skip(k as int);
            assert(rest[0] == t@[k as int]);
            assert(rest.skip(1) =~= t@.skip(k + 1));
            assert(t@.take(k + 1) =~= t@.take(k as int) + seq![t@[k as int]]);
            if w <= n - acc {
                let m = (n - acc - w) as nat;
                match byte_prefix(t@.skip(k + 1), m) {
                    Some(q) => {
                        assert(t@.take(k as int) + (seq![t@[k as int]] + q) =~= t@.take(k + 1) + q);
                    },
                    None => {},
                }
            }
        }
        if w > n - acc {
            return None;
        }
        acc = acc + w;
        k += 1;
    }
    if acc == n {
        proof {
            assert(t@.take(k as int) + Seq::<char>::empty() =~= t@.take(k as int));
        }
        Some(slice_of(t, 0, k))
    } else {
        None
    }
}

/// A default agent id `<vendor>-<model>-<slug>`, the slug being the
/// task id's first seven bytes (the whole id when shorter or when the
/// seventh byte is inside a character).
pub fn default_agent_id(kind: &RunnerKind, task_id: &str) -> (r: String)
    ensures
        r@ == kind.vendor@ + "-"@ + kind.model@ + "-"@ + task_slug(task_id@),
{
    let t = chars_of(task_id);
    let slug = match byte_prefix_of(&t, 7) {
        Some(p) => p,
        None => t,
    };
    let mut out: Vec<char> = chars_of(kind.vendor.as_str());
    push_str(&mut out, "-");
    push_str(&mut out, kind.model.as_str());
    push_str(&mut out, "-");
    push_all(&mut out, &slug);
    string_of(&out)
}

} // verus!
