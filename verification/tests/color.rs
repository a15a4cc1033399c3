use strides::color::{detect_color_level, push_cells, push_run, rgb_to_ansi256, ColorLevel, Rgb};

#[test]
fn ansi256_maps_known_colors() {
    assert_eq!(rgb_to_ansi256(Rgb(0, 0, 0)), 16);
    assert_eq!(rgb_to_ansi256(Rgb(255, 255, 255)), 231);
    assert_eq!(rgb_to_ansi256(Rgb(255, 0, 0)), 196);
    assert_eq!(rgb_to_ansi256(Rgb(0, 255, 0)), 46);
    assert_eq!(rgb_to_ansi256(Rgb(0, 0, 255)), 21);
}

#[test]
fn none_level_emits_no_escapes() {
    let mut buf = String::new();
    push_run(&mut buf, '#', 4, ColorLevel::NoColor, |_| Rgb(10, 20, 30));
    assert_eq!(buf, "####");
    assert!(!buf.contains('\x1b'));
}

#[test]
fn truecolor_emits_24bit_and_coalesces() {
    let mut buf = String::new();
    // Constant color: one SGR up front, one reset at the end.
    push_run(&mut buf, '#', 3, ColorLevel::TrueColor, |_| Rgb(1, 2, 3));
    assert_eq!(buf, "\x1b[38;2;1;2;3m###\x1b[0m");
}

#[test]
fn ansi256_emits_indexed() {
    let mut buf = String::new();
    push_run(&mut buf, '#', 1, ColorLevel::Ansi256, |_| Rgb(255, 0, 0));
    assert_eq!(buf, "\x1b[38;5;196m#\x1b[0m");
}

#[test]
fn distinct_colors_emit_distinct_escapes() {
    let mut buf = String::new();
    let colors = [Rgb(1, 0, 0), Rgb(2, 0, 0)];
    push_run(&mut buf, '#', 2, ColorLevel::TrueColor, |i| colors[i]);
    assert_eq!(buf, "\x1b[38;2;1;0;0m#\x1b[38;2;2;0;0m#\x1b[0m");
}

#[test]
fn gradient_chars_colors_each_glyph() {
    let mut buf = String::new();
    let colors = [Rgb(1, 0, 0), Rgb(2, 0, 0)];
    push_cells(&mut buf, ColorLevel::TrueColor, "ab", |i| colors[i]);
    assert_eq!(buf, "\x1b[38;2;1;0;0ma\x1b[38;2;2;0;0mb\x1b[0m");
}

#[test]
fn gradient_chars_none_level_is_plain() {
    let mut buf = String::new();
    push_cells(&mut buf, ColorLevel::NoColor, "ab", |_| Rgb(1, 2, 3));
    assert_eq!(buf, "ab");
}

#[test]
fn gray_ramp_and_cube_midpoints() {
    assert_eq!(rgb_to_ansi256(Rgb(7, 7, 7)), 16);
    assert_eq!(rgb_to_ansi256(Rgb(8, 8, 8)), 232);
    assert_eq!(rgb_to_ansi256(Rgb(128, 128, 128)), 232 + (120 * 24 / 247) as u8);
    assert_eq!(rgb_to_ansi256(Rgb(249, 249, 249)), 231);
    // 51 * 5 / 255 = 1 exactly; 25 rounds down to 0, 26 up to 1.
    assert_eq!(rgb_to_ansi256(Rgb(51, 0, 0)), 16 + 36);
    assert_eq!(rgb_to_ansi256(Rgb(25, 0, 0)), 16);
    assert_eq!(rgb_to_ansi256(Rgb(26, 0, 0)), 16 + 36);
}

#[test]
fn cube_rounding_matches_float_rounding() {
    // Every channel value lands on the cube level that rounding `v / 255 * 5` gives.
    for v in 0..=255u8 {
        let level = (v as f64 / 255.0 * 5.0).round() as u16;
        let idx = rgb_to_ansi256(Rgb(v, 0, 1)) as u16;
        assert_eq!(idx, 16 + 36 * level, "channel {v}");
    }
}

#[test]
fn color_level_from_environment() {
    assert_eq!(detect_color_level(Some("1"), Some("truecolor"), Some("xterm")), ColorLevel::NoColor);
    assert_eq!(detect_color_level(Some(""), Some("TrueColor"), None), ColorLevel::TrueColor);
    assert_eq!(detect_color_level(None, Some("24BIT"), None), ColorLevel::TrueColor);
    assert_eq!(detect_color_level(None, Some("yes"), Some("xterm-256color")), ColorLevel::Ansi256);
    assert_eq!(detect_color_level(None, None, Some("DUMB")), ColorLevel::NoColor);
    assert_eq!(detect_color_level(None, None, None), ColorLevel::NoColor);
}

#[test]
fn ansi_changes_only_where_color_changes() {
    let mut buf = String::new();
    let colors = [Rgb(1, 0, 0), Rgb(1, 0, 0), Rgb(2, 0, 0)];
    push_run(&mut buf, '#', 3, ColorLevel::TrueColor, |i| colors[i]);
    assert_eq!(buf, "\x1b[38;2;1;0;0m##\x1b[38;2;2;0;0m#\x1b[0m");
    let mut empty = String::from("x");
    push_run(&mut empty, '#', 0, ColorLevel::TrueColor, |_| Rgb(1, 1, 1));
    assert_eq!(empty, "x");
}
