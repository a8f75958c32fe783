//! Theme resolution: whether and how brand surfaces use colour.
//!
//! Resolution order: an explicit `CONVERGIO_THEME` choice, then
//! `NO_COLOR`, then whether the stream is a TTY.
use vstd::prelude::*;

verus! {

/// How brand surfaces render colour and animation.
#[derive(Debug, Clone, Copy, PartialEq, Eq, Structural)]
pub enum Theme {
    /// Full palette and animations.
    Color,
    /// Plain text, no escape sequences, no animation.
    Mono,
    /// White on black, no gradients.
    HighContrast,
}

/// The theme named by a `CONVERGIO_THEME` value, if it names one.
pub open spec fn named_theme(v: Seq<char>) -> Option<Theme> {
    if v == "mono"@ || v == "plain"@ || v == "none"@ {
        Some(Theme::Mono)
    } else if v == "hc"@ || v == "high-contrast"@ || v == "highcontrast"@ {
        Some(Theme::HighContrast)
    } else if v == "color"@ || v == "colour"@ {
        Some(Theme::Color)
    } else {
        None
    }
}

pub open spec fn resolve_spec(theme_var: Option<Seq<char>>, no_color: bool, is_tty: bool) -> Theme {
    match theme_var {
        Some(v) if named_theme(v) is Some => named_theme(v)->0,
        _ => if no_color || !is_tty {
            Theme::Mono
        } else {
            Theme::Color
        },
    }
}

impl Theme {
    /// The theme for an output stream: `theme_var` is the value of
    /// `CONVERGIO_THEME` (when set and valid Unicode), `no_color` whether
    /// `NO_COLOR` is set, `is_tty` whether the stream is a terminal.
    pub fn resolve_with(theme_var: Option<&str>, no_color: bool, is_tty: bool) -> (t: Theme)
        ensures
            t == resolve_spec(
                match theme_var {
                    Some(v) => Some(v@),
                    None => None,
                },
                no_color,
                is_tty,
            ),
    {
        match theme_var {
            Some(v) => {
                let c = crate::text::chars_of(v);
                if crate::text::eq_str(&c, "mono") || crate::text::eq_str(&c, "plain") || crate::text::eq_str(
                    &c,
                    "none",
                ) {
                    return Theme::Mono;
                }
                if crate::text::eq_str(&c, "hc") || crate::text::eq_str(&c, "high-contrast")
                    || crate::text::eq_str(&c, "highcontrast") {
                    return Theme::HighContrast;
                }
                if crate::text::eq_str(&c, "color") || crate::text::eq_str(&c, "colour") {
                    return Theme::Color;
                }
            },
            None => {},
        }
        if no_color || !is_tty {
            Theme::Mono
        } else {
            Theme::Color
        }
    }

    /// Whether truecolor escapes and gradients are allowed.
    pub fn allows_color(self) -> (r: bool)
        ensures
            r == (self == Theme::Color),
    {
        match self {
            Theme::Color => true,
            _ => false,
        }
    }

    /// Whether boot animations (pauses, glitch frames) are allowed.
    pub fn allows_animation(self) -> (r: bool)
        ensures
            r == (self == Theme::Color),
    {
        match self {
            Theme::Color => true,
            _ => false,
        }
    }
}

} // verus!

verus! {

/// An explicit, recognised `CONVERGIO_THEME` wins over `NO_COLOR` and
/// over the TTY state.
pub proof fn law_explicit_theme_wins(v: Seq<char>, no_color: bool, is_tty: bool)
    requires
        named_theme(v) is Some,
    ensures
        resolve_spec(Some(v), no_color, is_tty) == named_theme(v)->0,
{
}

/// Without a recognised explicit choice, `NO_COLOR` or a non-TTY stream
/// gives `Mono`, and only an interactive terminal gets `Color`; `Color`
/// is the one theme that allows colour and animation.
pub proof fn law_fallback_resolution(theme_var: Option<Seq<char>>, no_color: bool, is_tty: bool)
    requires
        theme_var is None || named_theme(theme_var->0) is None,
    ensures
        resolve_spec(theme_var, no_color, is_tty) == (if no_color || !is_tty {
            Theme::Mono
        } else {
            Theme::Color
        }),
{
}

} // verus!
