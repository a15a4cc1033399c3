use owo_colors::Style;

use strides::progress::{Phase, Progress};
use strides::state::State;
use strides::theme::Theme;

type Row = Progress<(), ()>;

#[test]
fn rendering_starts_on_first_poll_only() {
    let mut p: Row = Progress::new();
    assert_eq!(p.phase, Phase::Pending);
    assert!(!p.is_active());
    assert!(p.materialize());
    assert!(p.is_active());
    assert!(!p.materialize());
    assert_eq!(p.phase, Phase::Active);
}

#[test]
fn detached_row_never_renders() {
    let mut p: Row = Progress::new();
    p.detach_rendering();
    assert!(!p.materialize());
    assert_eq!(p.phase, Phase::Detached);
    assert!(!p.is_active());

    let mut q: Row = Progress::new();
    q.materialize();
    q.detach_rendering();
    assert!(!q.is_active());
}

#[test]
fn setters_touch_only_their_field() {
    let mut p: Row = Progress::new();
    p.set_label("label".to_string());
    p.set_message("msg".to_string());
    p.enable_elapsed_time();
    p.set_spinner_style(Style::new().bold());
    p.set_theme(Theme::new().with_bar_width(7));
    assert_eq!(p.state.label.as_deref(), Some("label"));
    assert_eq!(p.state.message.as_deref(), Some("msg"));
    assert!(p.state.with_elapsed_time);
    assert_eq!(p.spinner_style_override, Some(Style::new().bold()));
    assert_eq!(p.annotation_style_override, None);
    assert_eq!(p.theme_override.map(|t| t.bar_width), Some(Some(7)));
    assert_eq!(p.phase, Phase::Pending);
}

#[test]
fn state_counts_bytes_against_total() {
    let mut s = State::new();
    assert_eq!(s.add_bytes(10), None);
    s.set_bytes_total(40);
    assert_eq!(s.add_bytes(10), Some((20, 40)));
    assert_eq!(s.bytes_done, 20);
    assert_eq!(s.add_bytes(u64::MAX), Some((u64::MAX, 40)));
}
