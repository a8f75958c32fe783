//! ASCII banner: the `CONVERGIO` wordmark and the hexagonal "C"
//! lockup, in colour or as plain text depending on the theme.
use vstd::prelude::*;
use crate::claim::{CLAIM, SUBLINE};
use crate::gradient::{brand, escape_of, fg_escape, render_spec, RESET};
use crate::palette::{blend_spec, cyan_spec, magenta_spec, Rgb};
use crate::text::{chars_of, push_str, string_of};
use crate::theme::Theme;

verus! {

/// Row `i` of the six-row hexagonal "C" mark.
pub open spec fn hex_row(i: int) -> Seq<char> {
    if i == 0 {
        "        ▄▄████████▄▄"@
    } else if i == 1 {
        "      ▄██▀        ▀██▄"@
    } else if i == 2 {
        "    ▐█▌    ▄▄▄▄      ▐█▌"@
    } else if i == 3 {
        "    ▐█▌    ▀▀▀▀      ▐█▌"@
    } else if i == 4 {
        "      ▀██▄        ▄██▀"@
    } else {
        "        ▀▀████████▀▀"@
    }
}

/// Row `i` of the mark as shown: tinted with step `i` of 5 on the brand
/// gradient when the theme allows colour.
pub open spec fn hex_line(i: int, theme: Theme) -> Seq<char> {
    if theme == Theme::Color {
        escape_of(blend_spec(magenta_spec(), cyan_spec(), i as nat, 5)) + hex_row(i) + RESET@
    } else {
        hex_row(i)
    }
}

/// The mark: its six lines joined by `\n` (no final newline).
pub open spec fn hex_mark(theme: Theme) -> Seq<char> {
    hex_line(0, theme) + "\n"@ + hex_line(1, theme) + "\n"@ + hex_line(2, theme) + "\n"@ + hex_line(3, theme) + "\n"@
        + hex_line(4, theme) + "\n"@ + hex_line(5, theme)
}

pub open spec fn wordmark_spec(theme: Theme) -> Seq<char> {
    render_spec("CONVERGIO"@, magenta_spec(), cyan_spec(), theme)
}

pub open spec fn subline_spec(theme: Theme) -> Seq<char> {
    if theme == Theme::Color {
        "\x1b[2m"@ + SUBLINE@ + "\x1b[0m"@
    } else {
        SUBLINE@
    }
}

/// Mark, blank line, indented wordmark, blank line, indented claim and
/// indented subline, each line ending in `\n`.
pub open spec fn lockup_spec(theme: Theme) -> Seq<char> {
    hex_mark(theme) + "\n"@ + "        "@ + wordmark_spec(theme) + "\n"@ + "\n"@ + "        "@ + render_spec(
        CLAIM@,
        magenta_spec(),
        cyan_spec(),
        theme,
    ) + "\n"@ + "        "@ + subline_spec(theme) + "\n"@
}

fn hex_row_text(i: usize) -> (r: &'static str)
    requires
        i < 6,
    ensures
        r@ == hex_row(i as int),
{
    if i == 0 {
        "        ▄▄████████▄▄"
    } else if i == 1 {
        "      ▄██▀        ▀██▄"
    } else if i == 2 {
        "    ▐█▌    ▄▄▄▄      ▐█▌"
    } else if i == 3 {
        "    ▐█▌    ▀▀▀▀      ▐█▌"
    } else if i == 4 {
        "      ▀██▄        ▄██▀"
    } else {
        "        ▀▀████████▀▀"
    }
}

fn hexagonal_c(theme: Theme) -> (s: String)
    ensures
        s@ == hex_mark(theme),
{
    let mut out: Vec<char> = Vec::new();
    let mut i: usize = 0;
    while i < 6
        invariant
            i <= 6,
            i == 0 ==> out@ == Seq::<char>::empty(),
            i > 0 ==> out@ == hex_prefix(theme, i as int),
        decreases 6 - i,
    {
        if i > 0 {
            push_str(&mut out, "\n");
        }
        if theme.allows_color() {
            let rgb = Rgb::blend(crate::palette::magenta(), crate::palette::cyan(), i as u64, 5);
            let e = fg_escape(rgb);
            push_str(&mut out, e.as_str());
            push_str(&mut out, hex_row_text(i));
            push_str(&mut out, RESET);
        } else {
            push_str(&mut out, hex_row_text(i));
        }
        i += 1;
    }
    assert(hex_prefix(theme, 6) =~= hex_mark(theme)) by {
        reveal_with_fuel(hex_prefix, 7);
    }
    string_of(&out)
}

/// The first `n` lines of the mark joined by `\n`.
pub open spec fn hex_prefix(theme: Theme, n: int) -> Seq<char>
    decreases n,
{
    if n <= 1 {
        hex_line(0, theme)
    } else {
        hex_prefix(theme, n - 1) + "\n"@ + hex_line(n - 1, theme)
    }
}

/// The `CONVERGIO` wordmark with the brand gradient.
pub fn wordmark(theme: Theme) -> (s: String)
    ensures
        s@ == wordmark_spec(theme),
{
    brand("CONVERGIO", theme)
}

fn format_claim(theme: Theme) -> (s: String)
    ensures
        s@ == render_spec(CLAIM@, magenta_spec(), cyan_spec(), theme),
{
    if theme.allows_color() {
        brand(CLAIM, theme)
    } else {
        string_of(&chars_of(CLAIM))
    }
}

fn format_subline(theme: Theme) -> (s: String)
    ensures
        s@ == subline_spec(theme),
{
    let mut out: Vec<char> = Vec::new();
    if theme.allows_color() {
        push_str(&mut out, "\x1b[2m");
        push_str(&mut out, SUBLINE);
        push_str(&mut out, "\x1b[0m");
    } else {
        push_str(&mut out, SUBLINE);
    }
    assert(out@ =~= subline_spec(theme));
    string_of(&out)
}

/// The full lockup: hexagonal mark, wordmark, claim and subline.
pub fn lockup(theme: Theme) -> (s: String)
    ensures
        s@ == lockup_spec(theme),
{
    let mark = hexagonal_c(theme);
    let wm = wordmark(theme);
    let claim = format_claim(theme);
    let subline = format_subline(theme);
    let mut out: Vec<char> = Vec::new();
    push_str(&mut out, mark.as_str());
    push_str(&mut out, "\n");
    push_str(&mut out, "        ");
    push_str(&mut out, wm.as_str());
    push_str(&mut out, "\n");
    push_str(&mut out, "\n");
    push_str(&mut out, "        ");
    push_str(&mut out, claim.as_str());
    push_str(&mut out, "\n");
    push_str(&mut out, "        ");
    push_str(&mut out, subline.as_str());
    push_str(&mut out, "\n");
    assert(out@ =~= lockup_spec(theme));
    string_of(&out)
}

} // verus!
