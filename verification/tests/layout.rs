use strides::color::{ColorLevel, Rgb};
use strides::layout::{triangle, Layout, RenderContext, Segment, SegmentInput, SpinnerFill};
use strides::style::TextStyle;
use strides::units::{push_bytes_iec, push_eta};

type Seg = Segment<(), ()>;

fn context() -> RenderContext<'static> {
    RenderContext {
        spinner: None,
        spinner_tick: 0,
        show_elapsed: false,
        bar: None,
        bytes_done: 0,
        bytes_total: None,
        rate: None,
        eta_secs: None,
        label: None,
        message: None,
        spinner_style: TextStyle::plain(),
        annotation_style: TextStyle::plain(),
        color_level: ColorLevel::NoColor,
    }
}

fn no_inputs(n: usize) -> Vec<SegmentInput> {
    (0..n).map(|_| SegmentInput::Absent).collect()
}

fn render(segment: Seg, ctx: &RenderContext, input: SegmentInput) -> String {
    let mut buf = String::new();
    Layout::new(Vec::new()).with_segment(segment).render(ctx, &vec![input], &mut buf);
    buf
}

/// The rate a caller derives from a float rate, as the layout expects it.
fn whole_rate(rate: f64) -> u64 {
    rate.max(0.0) as u64
}

/// The whole seconds remaining a caller derives from a float rate.
fn eta_secs(total: u64, done: u64, rate: f64) -> Option<u64> {
    if rate > 0.0 && total > done {
        let remaining = (total - done) as f64 / rate;
        if remaining.is_finite() && remaining >= 0.0 {
            return Some(remaining as u64);
        }
    }
    None
}

fn strip_ansi(s: &str) -> String {
    let mut out = String::new();
    let mut chars = s.chars();
    while let Some(c) = chars.next() {
        if c == '\x1b' {
            for c in chars.by_ref() {
                if c == 'm' {
                    break;
                }
            }
        } else {
            out.push(c);
        }
    }
    out
}

#[test]
fn skips_empty_segments_and_their_separators() {
    let layout = Layout::new(Vec::new())
        .with_segment(Seg::elapsed())
        .with_segment(Seg::message())
        .with_segment(Seg::bar())
        .with_segment(Seg::literal("done"));

    let mut ctx = context();
    ctx.message = Some("hello");

    let mut buf = String::new();
    layout.render(&ctx, &no_inputs(4), &mut buf);

    // elapsed hidden and bar untracked → only message and literal remain.
    assert_eq!(buf, "hello done");
}

#[test]
fn elapsed_border_and_precision() {
    let layout = Layout::new(Vec::new()).with_segment(Seg::elapsed().with_border("[", "]").with_precision(1));

    let mut ctx = context();
    ctx.show_elapsed = true;
    // The caller formats 1.5 s at the segment's precision.
    let secs = format!("{:.*}", 1, std::time::Duration::from_millis(1500).as_secs_f64());

    let mut buf = String::new();
    layout.render(&ctx, &vec![SegmentInput::Text(secs)], &mut buf);

    assert_eq!(buf, "[1.5s]");
}

#[test]
fn custom_separator() {
    let layout = Layout::new(Vec::new())
        .with_segment(Seg::literal("a"))
        .with_segment(Seg::literal("b"))
        .with_separator(" | ");

    let mut buf = String::new();
    layout.render(&context(), &no_inputs(2), &mut buf);

    assert_eq!(buf, "a | b");
}

#[test]
fn spinner_gradient_preserves_frame_glyphs() {
    for level in [ColorLevel::NoColor, ColorLevel::Ansi256, ColorLevel::TrueColor] {
        let mut ctx = context();
        ctx.spinner = Some("▒▓█");
        ctx.color_level = level;
        let cells = vec![Rgb(0, 255, 0), Rgb(128, 128, 0), Rgb(255, 0, 0)];
        let out = render(Seg::spinner().with_gradient((), SpinnerFill::Cells), &ctx, SegmentInput::Colors(cells));
        assert_eq!(strip_ansi(&out), "▒▓█");

        ctx.spinner_tick = 3;
        let pulse = vec![Rgb(9, 9, 9); 3];
        let out = render(Seg::spinner().with_gradient((), SpinnerFill::Pulse(8)), &ctx, SegmentInput::Colors(pulse));
        assert_eq!(strip_ansi(&out), "▒▓█");
    }
}

#[test]
fn triangle_wave_rises_and_falls() {
    let t = |tick, period| {
        let (n, d) = triangle(tick, period);
        n as f64 / d as f64
    };
    // Over a period of 4: 0,1,2,3,4 rising to the peak, then back down to 0 at 8.
    assert_eq!(t(0, 4), 0.0);
    assert_eq!(t(2, 4), 0.5);
    assert_eq!(t(4, 4), 1.0);
    assert_eq!(t(6, 4), 0.5);
    assert_eq!(t(8, 4), 0.0);
    // A zero period does not divide by zero.
    assert!(t(5, 0).is_finite());
}

#[test]
fn bytes_segment_skips_when_zero_and_no_total() {
    assert_eq!(render(Seg::bytes(), &context(), SegmentInput::Absent), "");
}

#[test]
fn bytes_segment_renders_done_only() {
    let mut ctx = context();
    ctx.bytes_done = 1500;
    assert_eq!(render(Seg::bytes(), &ctx, SegmentInput::Absent), "1.46 KiB");
}

#[test]
fn bytes_segment_renders_done_and_total() {
    let mut ctx = context();
    ctx.bytes_done = 1024 * 1024;
    ctx.bytes_total = Some(5 * 1024 * 1024);
    assert_eq!(render(Seg::bytes(), &ctx, SegmentInput::Absent), "1.00 MiB / 5.00 MiB");
}

#[test]
fn bytes_segment_renders_zero_when_total_known() {
    let mut ctx = context();
    ctx.bytes_total = Some(2048);
    assert_eq!(render(Seg::bytes(), &ctx, SegmentInput::Absent), "0 B / 2.00 KiB");
}

#[test]
fn rate_segment_skips_without_sample() {
    assert_eq!(render(Seg::rate(), &context(), SegmentInput::Absent), "");
}

#[test]
fn rate_segment_renders_with_unit_suffix() {
    let mut ctx = context();
    ctx.rate = Some(whole_rate(800.0 * 1024.0));
    assert_eq!(render(Seg::rate(), &ctx, SegmentInput::Absent), "800.00 KiB/s");
}

#[test]
fn eta_segment_skips_without_total_or_rate() {
    let mut ctx = context();
    ctx.rate = Some(whole_rate(1024.0));
    assert_eq!(render(Seg::eta(), &ctx, SegmentInput::Absent), "");

    ctx.rate = None;
    ctx.bytes_total = Some(2048);
    assert_eq!(render(Seg::eta(), &ctx, SegmentInput::Absent), "");
}

#[test]
fn eta_segment_seconds() {
    let mut ctx = context();
    ctx.bytes_done = 0;
    ctx.bytes_total = Some(1024 * 50);
    ctx.eta_secs = eta_secs(1024 * 50, 0, 1024.0 * 10.0);
    assert_eq!(render(Seg::eta(), &ctx, SegmentInput::Absent), "eta 5s");
}

#[test]
fn eta_segment_minutes_and_hours() {
    let mut ctx = context();
    ctx.bytes_done = 0;
    ctx.bytes_total = Some(125);
    ctx.eta_secs = eta_secs(125, 0, 1.0);
    assert_eq!(render(Seg::eta(), &ctx, SegmentInput::Absent), "eta 2m05s");

    ctx.bytes_total = Some(3725);
    ctx.eta_secs = eta_secs(3725, 0, 1.0);
    assert_eq!(render(Seg::eta(), &ctx, SegmentInput::Absent), "eta 1h02m05s");
}

#[test]
fn eta_segment_skips_when_complete() {
    let mut ctx = context();
    ctx.bytes_done = 4096;
    ctx.bytes_total = Some(4096);
    ctx.eta_secs = eta_secs(4096, 4096, 1024.0);
    assert_eq!(render(Seg::eta(), &ctx, SegmentInput::Absent), "");
    // Even with an estimate at hand, a finished transfer shows no ETA.
    ctx.eta_secs = Some(3);
    assert_eq!(render(Seg::eta(), &ctx, SegmentInput::Absent), "");
}

/// The byte formatting as a float computation, for comparison.
fn float_bytes_iec(n: u64) -> String {
    const UNITS: [&str; 6] = ["B", "KiB", "MiB", "GiB", "TiB", "PiB"];
    if n < 1024 {
        return format!("{n} B");
    }
    let mut value = n as f64;
    let mut unit = 0;
    while value >= 1024.0 && unit < UNITS.len() - 1 {
        value /= 1024.0;
        unit += 1;
    }
    format!("{:.2} {}", value, UNITS[unit])
}

fn bytes(n: u64) -> String {
    let mut buf = String::new();
    push_bytes_iec(&mut buf, n);
    buf
}

#[test]
fn bytes_match_float_formatting() {
    let mut samples: Vec<u64> = (0..5000).collect();
    // Exact ties at two decimals: 1.125 KiB, 1.375 KiB, 2.625 MiB, …
    samples.extend([1152, 1408, 2752512, 1025, 1535, 1536, 10239, 10240, 1048575, 1048576]);
    for k in 1..6u32 {
        let base = 1024u64.pow(k);
        for m in [1u64, 3, 7, 1000, 1023, 1024, 2047] {
            for d in [0u64, 1, base / 200, base / 400, base / 8, base / 2] {
                samples.push(base.saturating_mul(m).saturating_add(d));
                samples.push(base.saturating_mul(m).saturating_sub(d));
            }
        }
    }
    samples.extend([u64::MAX, u64::MAX - 1, u64::MAX - 2048, 1 << 53, (1 << 53) + 1, (1 << 54) + 3, 1 << 63]);
    let mut x: u64 = 0x9e3779b97f4a7c15;
    for _ in 0..20000 {
        x ^= x << 13;
        x ^= x >> 7;
        x ^= x << 17;
        samples.push(x >> (x % 64));
    }
    for n in samples {
        assert_eq!(bytes(n), float_bytes_iec(n), "n = {n}");
    }
}

#[test]
fn eta_formats() {
    let eta = |s| {
        let mut buf = String::new();
        push_eta(&mut buf, s);
        buf
    };
    assert_eq!(eta(0), "eta 0s");
    assert_eq!(eta(59), "eta 59s");
    assert_eq!(eta(60), "eta 1m00s");
    assert_eq!(eta(3600), "eta 1h00m00s");
    assert_eq!(eta(86399), "eta 23h59m59s");
    assert_eq!(eta(360000), "eta 100h00m00s");
}

#[test]
fn label_width_pads_and_truncates() {
    let mut ctx = context();
    ctx.label = Some("héllo");
    assert_eq!(render(Seg::label().with_width(3), &ctx, SegmentInput::Absent), "hél");
    assert_eq!(render(Seg::label().with_width(7), &ctx, SegmentInput::Absent), "héllo  ");
    assert_eq!(render(Seg::label(), &ctx, SegmentInput::Absent), "héllo");
    let expected = format!("{:<7.7}", "héllo");
    assert_eq!(render(Seg::label().with_width(7), &ctx, SegmentInput::Absent), expected);
}

#[test]
fn styled_label_wraps_in_style_escapes() {
    let mut ctx = context();
    ctx.label = Some("x");
    let style = owo_colors::Style::new().red();
    let out = render(Seg::label().with_style(style), &ctx, SegmentInput::Absent);
    assert_eq!(out, "\x1b[31mx\x1b[0m");
}

#[test]
fn default_layout_renders_in_order() {
    let layout: Layout<(), ()> = Layout::default_layout();
    let mut ctx = context();
    ctx.spinner = Some("⠖");
    ctx.label = Some("work");
    ctx.bar = Some("[##  ]");
    ctx.message = Some("msg");
    ctx.show_elapsed = true;
    let inputs = vec![
        SegmentInput::Text("0.25".to_string()),
        SegmentInput::Absent,
        SegmentInput::Absent,
        SegmentInput::Absent,
        SegmentInput::Absent,
    ];
    let mut buf = String::new();
    layout.render(&ctx, &inputs, &mut buf);
    assert_eq!(buf, "0.25s ⠖ work [##  ] msg");
}

#[test]
fn custom_segment_text_and_absence() {
    let layout: Layout<(), u8> = Layout::new(Vec::new())
        .with_segment(Segment::custom(1))
        .with_segment(Segment::literal("z"))
        .with_segment(Segment::custom(2));
    let mut buf = String::new();
    layout.render(&context(), &vec![SegmentInput::Text("a".into()), SegmentInput::Absent, SegmentInput::Text(String::new())], &mut buf);
    assert_eq!(buf, "a z");
}
