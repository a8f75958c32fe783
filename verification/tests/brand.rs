use convergio::banner::{lockup, wordmark};
use convergio::boot::{play, NoSleep, TextSink};
use convergio::claim::{CLAIM, PRODUCT_NAME, SUBLINE};
use convergio::glitch::frame;
use convergio::gradient::{brand, fg_escape, RESET};
use convergio::palette::{black, cyan, magenta, Rgb};
use convergio::theme::Theme;

fn strip_ansi(s: &str) -> String {
    let mut out = String::with_capacity(s.len());
    let mut in_esc = false;
    for c in s.chars() {
        if c == '\x1b' {
            in_esc = true;
            continue;
        }
        if in_esc {
            if c == 'm' {
                in_esc = false;
            }
            continue;
        }
        out.push(c);
    }
    out
}

#[test]
fn wordmark_mono_is_plain_text() {
    assert_eq!(wordmark(Theme::Mono), "CONVERGIO");
}

#[test]
fn lockup_contains_claim_and_subline() {
    let s = lockup(Theme::Mono);
    assert!(s.contains(CLAIM));
    assert!(s.contains(SUBLINE));
}

#[test]
fn lockup_color_emits_escapes() {
    let s = lockup(Theme::Color);
    assert!(s.contains("\x1b["));
    assert!(strip_ansi(&s).contains(CLAIM));
}

#[test]
fn lockup_mono_has_no_escape_sequences() {
    let s = lockup(Theme::Mono);
    assert!(!s.contains('\x1b'), "mono lockup leaked an escape sequence");
}

#[test]
fn lockup_has_six_hex_rows_plus_wordmark_and_claim() {
    let s = lockup(Theme::Mono);
    assert!(s.lines().count() >= 10);
}

#[test]
fn mono_theme_prints_static_banner_only() {
    let mut sink = TextSink::new();
    let mut s = NoSleep::default();
    play(&mut sink, &mut s, Theme::Mono).expect("write to buffer");
    let buf = sink.text;
    let out = buf;
    assert!(out.contains("CONVERGIO"));
    assert!(out.contains(CLAIM));
    assert!(!out.contains('\x1b'));
    assert_eq!(s.total, 0);
}

#[test]
fn color_theme_emits_glitch_then_boot_log() {
    let mut sink = TextSink::new();
    let mut s = NoSleep::default();
    play(&mut sink, &mut s, Theme::Color).expect("write to buffer");
    let buf = sink.text;
    let out = buf;
    assert!(out.contains("> booting convergio kernel..."));
    assert!(out.contains("> convergence achieved."));
    let plain = strip_ansi(&out);
    assert!(plain.contains("CONVERGIO"));
    assert!(plain.contains(CLAIM));
    assert_eq!(s.total, 80 * 3 + 180 * 4);
}

#[test]
fn high_contrast_theme_skips_animation() {
    let mut sink = TextSink::new();
    let mut s = NoSleep::default();
    play(&mut sink, &mut s, Theme::HighContrast).expect("write to buffer");
    let buf = sink.text;
    assert_eq!(s.total, 0);
    assert!(buf.contains("CONVERGIO"));
}

#[test]
fn claim_is_short_and_punchy() {
    assert!(CLAIM.len() < 40, "claim should fit on one line of any terminal");
}

#[test]
fn subline_uses_em_dash() {
    assert!(SUBLINE.contains('—'));
}

#[test]
fn product_name_capitalisation_is_stable() {
    assert_eq!(PRODUCT_NAME, "Convergio");
}

#[test]
fn frame_zero_swaps_first_o() {
    assert_eq!(frame("CONVERGIO", 0), "CONVERGIO");
}

#[test]
fn frame_one_underscores_e_at_odd_positions() {
    assert_eq!(frame("CONVERGIO", 1), "CONVERGIO");
    assert_eq!(frame("HE", 1), "H_");
}

#[test]
fn frame_two_swaps_all_o_and_e() {
    assert_eq!(frame("CONVERGIO", 2), "C0NV_RGI0");
}

#[test]
fn frame_cycles_with_modulo() {
    assert_eq!(frame("CONVERGIO", 5), frame("CONVERGIO", 2));
}

#[test]
fn unicode_passes_through_unchanged() {
    let input = "convergïø";
    assert_eq!(frame(input, 2), input);
}

#[test]
fn mono_theme_returns_plain_text() {
    assert_eq!(brand("CONVERGIO", Theme::Mono), "CONVERGIO");
}

#[test]
fn high_contrast_returns_plain_text() {
    assert_eq!(brand("CONVERGIO", Theme::HighContrast), "CONVERGIO");
}

#[test]
fn color_theme_emits_truecolor_escapes() {
    let s = brand("AB", Theme::Color);
    assert!(s.contains("\x1b[38;2;255;0;180mA"));
    assert!(s.contains('B'));
    assert!(s.ends_with(RESET));
}

#[test]
fn empty_input_is_empty_output() {
    assert_eq!(brand("", Theme::Color), "");
}

#[test]
fn single_char_does_not_divide_by_zero() {
    let s = brand("X", Theme::Color);
    assert!(s.contains('X'));
    assert!(s.ends_with(RESET));
}

#[test]
fn fg_escape_format_is_stable() {
    assert_eq!(fg_escape(Rgb::new(1, 2, 3)), "\x1b[38;2;1;2;3m");
}

#[test]
fn brand_colors_are_distinct() {
    assert_ne!(magenta(), cyan());
    assert_ne!(magenta(), black());
    assert_ne!(cyan(), black());
}

#[test]
fn allows_animation_only_in_color_theme() {
    assert!(Theme::Color.allows_animation());
    assert!(!Theme::Mono.allows_animation());
    assert!(!Theme::HighContrast.allows_animation());
}
