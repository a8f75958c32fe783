//! Truecolor gradients: text whose characters fade from one colour to
//! another through `\x1b[38;2;R;G;Bm` escapes.
use vstd::prelude::*;
use crate::palette::{blend_spec, cyan, cyan_spec, magenta, magenta_spec, Rgb};
use crate::text::{chars_of, decimal, push_all, push_decimal, push_str, string_of};
use crate::theme::Theme;

verus! {

/// Resets the foreground colour.
pub const RESET: &'static str = "\x1b[0m";

/// The foreground escape for `c`.
pub open spec fn escape_of(c: Rgb) -> Seq<char> {
    "\x1b[38;2;"@ + decimal(c.r as nat) + ";"@ + decimal(c.g as nat) + ";"@ + decimal(c.b as nat) + "m"@
}

/// The first `k` characters of `cs`, each preceded by its colour on the
/// gradient from `a` (first character) to `b` (last character).
pub open spec fn gradient_prefix(cs: Seq<char>, a: Rgb, b: Rgb, k: nat) -> Seq<char>
    decreases k,
{
    if k == 0 || k > cs.len() {
        Seq::empty()
    } else {
        gradient_prefix(cs, a, b, (k - 1) as nat) + escape_of(blend_spec(a, b, (k - 1) as nat, (cs.len() - 1) as nat))
            + seq![cs[k - 1]]
    }
}

/// `text` with a left-to-right gradient, or unchanged when the theme
/// does not allow colour.
pub open spec fn render_spec(text: Seq<char>, a: Rgb, b: Rgb, theme: Theme) -> Seq<char> {
    if theme != Theme::Color {
        text
    } else if text.len() == 0 {
        Seq::empty()
    } else {
        gradient_prefix(text, a, b, text.len()) + RESET@
    }
}

fn push_escape(out: &mut Vec<char>, c: Rgb)
    ensures
        final(out)@ == old(out)@ + escape_of(c),
{
    push_str(out, "\x1b[38;2;");
    push_decimal(out, c.r as u64);
    push_str(out, ";");
    push_decimal(out, c.g as u64);
    push_str(out, ";");
    push_decimal(out, c.b as u64);
    push_str(out, "m");
}

/// The foreground escape `\x1b[38;2;R;G;Bm` for `rgb`.
pub fn fg_escape(rgb: Rgb) -> (s: String)
    ensures
        s@ == escape_of(rgb),
{
    let mut out: Vec<char> = Vec::new();
    push_escape(&mut out, rgb);
    assert(out@ =~= escape_of(rgb));
    string_of(&out)
}

/// `text` with a gradient from `start` on its first character to `end`
/// on its last (one escape per character, then a reset); `text`
/// unchanged when `theme` does not allow colour. Each character's colour
/// is interpolated in single precision (see [`crate::palette::mix`]).
pub fn render(text: &str, start: Rgb, end: Rgb, theme: Theme) -> (s: String)
    ensures
        s@ == render_spec(text@, start, end, theme),
{
    if !theme.allows_color() {
        return string_of(&chars_of(text));
    }
    let cs = chars_of(text);
    let len = cs.len();
    if len == 0 {
        return string_of(&cs);
    }
    let mut out: Vec<char> = Vec::new();
    let mut i: usize = 0;
    while i < len
        invariant
            i <= len,
            len == cs@.len(),
            cs@ == text@,
            len > 0,
            out@ == gradient_prefix(cs@, start, end, i as nat),
        decreases len - i,
    {
        let rgb = Rgb::blend(start, end, i as u64, (len - 1) as u64);
        push_escape(&mut out, rgb);
        out.push(cs[i]);
        i += 1;
    }
    push_str(&mut out, RESET);
    string_of(&out)
}

/// `text` with the brand gradient, magenta to cyan.
pub fn brand(text: &str, theme: Theme) -> (s: String)
    ensures
        s@ == render_spec(text@, magenta_spec(), cyan_spec(), theme),
{
    render(text, magenta(), cyan(), theme)
}

} // verus!

verus! {

/// What is left readable after removing escape sequences (`ESC` up to and
/// including the next `m`), starting inside one when `in_esc`.
pub open spec fn strip_from(s: Seq<char>, in_esc: bool) -> Seq<char>
    decreases s.len(),
{
    if s.len() == 0 {
        Seq::empty()
    } else if s[0] == '\x1b' {
        strip_from(s.skip(1), true)
    } else if in_esc {
        strip_from(s.skip(1), s[0] != 'm')
    } else {
        seq![s[0]] + strip_from(s.skip(1), false)
    }
}

/// Whether reading `s` from state `in_esc` ends inside an escape.
pub open spec fn esc_after(s: Seq<char>, in_esc: bool) -> bool
    decreases s.len(),
{
    if s.len() == 0 {
        in_esc
    } else if s[0] == '\x1b' {
        esc_after(s.skip(1), true)
    } else if in_esc {
        esc_after(s.skip(1), s[0] != 'm')
    } else {
        esc_after(s.skip(1), false)
    }
}

/// The readable text of `s`.
pub open spec fn strip_ansi(s: Seq<char>) -> Seq<char> {
    strip_from(s, false)
}

proof fn lemma_strip_concat(a: Seq<char>, b: Seq<char>, st: bool)
    ensures
        strip_from(a + b, st) == strip_from(a, st) + strip_from(b, esc_after(a, st)),
        esc_after(a + b, st) == esc_after(b, esc_after(a, st)),
    decreases a.len(),
{
    if a.len() == 0 {
        assert(a + b =~= b);
    } else {
        assert((a + b).skip(1) =~= a.skip(1) + b);
        assert((a + b)[0] == a[0]);
        if a[0] == '\x1b' {
            lemma_strip_concat(a.skip(1), b, true);
        } else if st {
            lemma_strip_concat(a.skip(1), b, a[0] != 'm');
        } else {
            lemma_strip_concat(a.skip(1), b, false);
        }
    }
}

/// Inside an escape, text without `ESC` or `m` stays inside it, unread.
proof fn lemma_strip_inside(s: Seq<char>)
    requires
        forall|i: int| 0 <= i < s.len() ==> s[i] != '\x1b' && s[i] != 'm',
    ensures
        strip_from(s, true) == Seq::<char>::empty(),
        esc_after(s, true),
    decreases s.len(),
{
    if s.len() > 0 {
        lemma_strip_inside(s.skip(1));
    }
}

/// Outside escapes, text without `ESC` reads as itself.
proof fn lemma_strip_plain(s: Seq<char>)
    requires
        !s.contains('\x1b'),
    ensures
        strip_from(s, false) == s,
        !esc_after(s, false),
    decreases s.len(),
{
    if s.len() > 0 {
        assert(!s.skip(1).contains('\x1b')) by {
            if s.skip(1).contains('\x1b') {
                let k = choose|k: int| 0 <= k < s.skip(1).len() && s.skip(1)[k] == '\x1b';
                assert(s[k + 1] == '\x1b');
            }
        }
        assert(s[0] != '\x1b');
        lemma_strip_plain(s.skip(1));
        assert(seq![s[0]] + s.skip(1) =~= s);
    }
}

proof fn lemma_decimal_digits(n: nat)
    ensures
        forall|i: int| 0 <= i < decimal(n).len() ==> '0' <= #[trigger] decimal(n)[i] <= '9',
    decreases n,
{
    if n >= 10 {
        lemma_decimal_digits(n / 10);
        assert forall|i: int| 0 <= i < decimal(n).len() implies '0' <= #[trigger] decimal(n)[i] <= '9' by {
            if i < decimal(n / 10).len() {
                assert(decimal(n)[i] == decimal(n / 10)[i]);
            }
        }
    }
}

proof fn lemma_strip_digits(n: nat)
    ensures
        strip_from(decimal(n), true) == Seq::<char>::empty(),
        esc_after(decimal(n), true),
{
    lemma_decimal_digits(n);
    lemma_strip_inside(decimal(n));
}

/// An escape sequence reads as nothing and closes.
proof fn lemma_strip_escape(c: Rgb)
    ensures
        strip_from(escape_of(c), false) == Seq::<char>::empty(),
        !esc_after(escape_of(c), false),
{
    let head = "\x1b[38;2;"@;
    let semi = ";"@;
    let tail = "m"@;
    let (dr, dg, db) = (decimal(c.r as nat), decimal(c.g as nat), decimal(c.b as nat));
    reveal_strlit("\x1b[38;2;");
    reveal_strlit(";");
    reveal_strlit("m");
    lemma_strip_inside(head.skip(1));
    assert(strip_from(head, false) == strip_from(head.skip(1), true));
    assert(esc_after(head, false) == esc_after(head.skip(1), true));
    lemma_strip_inside(semi);
    lemma_strip_digits(c.r as nat);
    lemma_strip_digits(c.g as nat);
    lemma_strip_digits(c.b as nat);
    assert(tail.skip(1) =~= Seq::<char>::empty());
    assert(strip_from(tail, true) == Seq::<char>::empty()) by {
        reveal_with_fuel(strip_from, 2);
    }
    assert(!esc_after(tail, true)) by {
        reveal_with_fuel(esc_after, 2);
    }
    lemma_strip_concat(head, dr, false);
    lemma_strip_concat(head + dr, semi, false);
    lemma_strip_concat(head + dr + semi, dg, false);
    lemma_strip_concat(head + dr + semi + dg, semi, false);
    lemma_strip_concat(head + dr + semi + dg + semi, db, false);
    lemma_strip_concat(head + dr + semi + dg + semi + db, tail, false);
}

proof fn lemma_strip_gradient(cs: Seq<char>, a: Rgb, b: Rgb, k: nat)
    requires
        k <= cs.len(),
        !cs.contains('\x1b'),
    ensures
        strip_from(gradient_prefix(cs, a, b, k), false) == cs.take(k as int),
        !esc_after(gradient_prefix(cs, a, b, k), false),
    decreases k,
{
    if k == 0 {
        assert(cs.take(0) =~= Seq::<char>::empty());
    } else {
        let prev = gradient_prefix(cs, a, b, (k - 1) as nat);
        let e = escape_of(blend_spec(a, b, (k - 1) as nat, (cs.len() - 1) as nat));
        let c = seq![cs[k - 1]];
        lemma_strip_gradient(cs, a, b, (k - 1) as nat);
        lemma_strip_escape(blend_spec(a, b, (k - 1) as nat, (cs.len() - 1) as nat));
        assert(cs[k - 1] != '\x1b');
        lemma_strip_concat(prev, e, false);
        lemma_strip_concat(prev + e, c, false);
        assert(c.skip(1) =~= Seq::<char>::empty());
        assert(strip_from(c, false) =~= c) by {
            reveal_with_fuel(strip_from, 2);
        }
        assert(!esc_after(c, false)) by {
            reveal_with_fuel(esc_after, 2);
        }
        assert(cs.take(k as int) =~= cs.take(k - 1) + c);
    }
}

/// The readable text of a rendered gradient is the text itself, for
/// every theme, when the text holds no escape character.
pub proof fn law_gradient_reads_as_text(text: Seq<char>, a: Rgb, b: Rgb, theme: Theme)
    requires
        !text.contains('\x1b'),
    ensures
        strip_ansi(render_spec(text, a, b, theme)) == text,
{
    if theme != Theme::Color {
        lemma_strip_plain(text);
    } else if text.len() > 0 {
        lemma_strip_gradient(text, a, b, text.len());
        reveal_strlit("\x1b[0m");
        let r = RESET@;
        let mid = r.subrange(1, 3);
        let m = r.subrange(3, 4);
        lemma_strip_inside(mid);
        assert(m.skip(1) =~= Seq::<char>::empty());
        assert(r.skip(1) =~= mid + m);
        lemma_strip_concat(mid, m, true);
        assert(strip_from(m, true) == Seq::<char>::empty()) by {
            reveal_with_fuel(strip_from, 2);
        }
        assert(!esc_after(m, true)) by {
            reveal_with_fuel(esc_after, 2);
        }
        assert(strip_from(r, false) == strip_from(r.skip(1), true));
        assert(esc_after(r, false) == esc_after(r.skip(1), true));
        lemma_strip_concat(gradient_prefix(text, a, b, text.len()), r, false);
        assert(text.take(text.len() as int) =~= text);
        assert(text + Seq::<char>::empty() =~= text);
    }
}

} // verus!
