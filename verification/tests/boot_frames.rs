use convergio::boot::{boot_frames, play, NoSleep, TextSink};
use convergio::theme::Theme;

#[test]
fn color_frames_pause_after_each_frame_and_log_line() {
    let frames = boot_frames(Theme::Color);
    let pauses: Vec<u64> = frames.iter().map(|f| f.pause_ms).collect();
    assert_eq!(pauses, vec![80, 80, 80, 180, 180, 180, 180, 0]);
    assert!(frames[3].text.contains("> booting convergio kernel..."));
    assert!(frames[6].text.contains("> syncing nodes..."));
    assert!(frames[7].text.contains("> convergence achieved."));
}

#[test]
fn frames_print_what_play_prints() {
    for theme in [Theme::Color, Theme::Mono, Theme::HighContrast] {
        let mut sink = TextSink::new();
        let mut s = NoSleep::default();
        play(&mut sink, &mut s, theme).expect("write to buffer");
        let buf = sink.text;
        let frames = boot_frames(theme);
        let text: String = frames.iter().map(|f| f.text.as_str()).collect();
        assert_eq!(text, buf);
        assert_eq!(frames.iter().map(|f| f.pause_ms).sum::<u64>(), s.total);
    }
}

#[test]
fn static_theme_is_one_frame() {
    let frames = boot_frames(Theme::Mono);
    assert_eq!(frames.len(), 1);
    assert_eq!(frames[0].pause_ms, 0);
    assert!(frames[0].text.contains("CONVERGIO"));
}
