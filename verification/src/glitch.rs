//! Deterministic glitch frames for the boot animation: characters are
//! swapped by a rule chosen by the frame counter, so every frame can be
//! predicted and tested.
use vstd::prelude::*;
use crate::text::{chars_of, string_of};

verus! {

/// The character at `position` in glitch frame `frame_index`: the
/// position is taken as a `u32` (modulo 2^32) and the frame modulo 3.
/// Frame 0 turns an `O` at a position divisible by 3 into `0`; frame 1
/// turns an `E` at an odd position into `_`; frame 2 turns every `O`
/// into `0` and every `E` into `_`.
pub open spec fn glitch_char(c: char, frame_index: u32, position: int) -> char {
    let pos = position % 0x1_0000_0000;
    let k = frame_index % 3;
    if k == 0 && c == 'O' && pos % 3 == 0 {
        '0'
    } else if k == 1 && c == 'E' && pos % 2 == 1 {
        '_'
    } else if k == 2 && c == 'O' {
        '0'
    } else if k == 2 && c == 'E' {
        '_'
    } else {
        c
    }
}

/// Every character of `s` passed through [`glitch_char`].
pub open spec fn glitch_frame(s: Seq<char>, frame_index: u32) -> Seq<char> {
    Seq::new(s.len(), |i: int| glitch_char(s[i], frame_index, i))
}

fn swap(c: char, frame_index: u32, position: usize) -> (r: char)
    ensures
        r == glitch_char(c, frame_index, position as int),
{
    let pos: u32 = ((position as u64) % 0x1_0000_0000u64) as u32;
    let k = frame_index % 3;
    if k == 0 && c == 'O' && pos % 3 == 0 {
        '0'
    } else if k == 1 && c == 'E' && pos % 2 == 1 {
        '_'
    } else if k == 2 && c == 'O' {
        '0'
    } else if k == 2 && c == 'E' {
        '_'
    } else {
        c
    }
}

/// Glitch frame `frame_index` of `text`.
pub fn frame(text: &str, frame_index: u32) -> (s: String)
    ensures
        s@ == glitch_frame(text@, frame_index),
{
    let cs = chars_of(text);
    let mut out: Vec<char> = Vec::new();
    let mut i: usize = 0;
    while i < cs.len()
        invariant
            i <= cs.len(),
            cs@ == text@,
            out@ == glitch_frame(cs@, frame_index).take(i as int),
        decreases cs.len() - i,
    {
        out.push(swap(cs[i], frame_index, i));
        assert(out@ =~= glitch_frame(cs@, frame_index).take(i + 1));
        i += 1;
    }
    assert(out@ =~= glitch_frame(cs@, frame_index));
    string_of(&out)
}

/// The frames repeat with period 3: frame `f` equals frame `f % 3`.
pub proof fn law_frame_cycles(s: Seq<char>, f: u32)
    ensures
        glitch_frame(s, f) == glitch_frame(s, f % 3),
{
    assert(glitch_frame(s, f) =~= glitch_frame(s, f % 3));
}

/// A glitch frame keeps the length and changes only `O` (into `0`) and
/// `E` (into `_`); every other character, Unicode included, passes
/// through.
pub proof fn law_frame_only_touches_o_and_e(s: Seq<char>, f: u32)
    ensures
        glitch_frame(s, f).len() == s.len(),
        forall|i: int|
            0 <= i < s.len() ==> {
                let c = #[trigger] glitch_frame(s, f)[i];
                c == s[i] || (s[i] == 'O' && c == '0') || (s[i] == 'E' && c == '_')
            },
{
}

/// The demo's glitch of one character: `O` becomes `0`, `E` becomes `_`.
pub open spec fn demo_swap(c: char) -> char {
    if c == 'O' {
        '0'
    } else if c == 'E' {
        '_'
    } else {
        c
    }
}

/// `text` with the characters whose coin came up swapped by
/// [`demo_swap`]: `flips[i]` is the coin of character `i`.
pub open spec fn flipped(text: Seq<char>, flips: Seq<bool>) -> Seq<char> {
    Seq::new(text.len(), |i: int| if flips[i] { demo_swap(text[i]) } else { text[i] })
}

/// The demo's glitch frame of `text`, given one coin per character.
pub fn glitch_by_flips(text: &str, flips: &Vec<bool>) -> (r: String)
    requires
        flips.len() == text@.len(),
    ensures
        r@ == flipped(text@, flips@),
{
    let cs = chars_of(text);
    let mut out: Vec<char> = Vec::new();
    let mut i: usize = 0;
    while i < cs.len()
        invariant
            cs@ == text@,
            flips.len() == cs.len(),
            i <= cs.len(),
            out@ == flipped(text@, flips@).take(i as int),
        decreases cs.len() - i,
    {
        let c = cs[i];
        let d = if flips[i] {
            if c == 'O' {
                '0'
            } else if c == 'E' {
                '_'
            } else {
                c
            }
        } else {
            c
        };
        out.push(d);
        assert(out@ =~= flipped(text@, flips@).take(i + 1));
        i += 1;
    }
    assert(out@ =~= flipped(text@, flips@));
    string_of(&out)
}

} // verus!
