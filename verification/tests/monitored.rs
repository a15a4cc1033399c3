use owo_colors::Style;

use strides::future::monitored::Monitored;

fn monitor(annotations: &[&str]) -> Monitored<()> {
    let mut m = Monitored::new(());
    for (i, a) in annotations.iter().enumerate() {
        assert_eq!(m.push(a.to_string()), i);
    }
    m
}

#[test]
fn frame_draws_one_line_per_future() {
    let m = monitor(&["one", "two"]);
    assert_eq!(m.frame("0.50"), "\x1b[?25l\x1b[2K\x1b[1Gone\n\x1b[2K\x1b[1Gtwo\n");
}

#[test]
fn frame_shows_spinner_and_elapsed_time() {
    let mut m = monitor(&["job"]).with_elapsed_time(true);
    m.on_tick(Some("⠋"));
    assert_eq!(m.frame("1.25"), "\x1b[?25l\x1b[2K\x1b[1G⠋ [1.25s] job\n");
}

#[test]
fn styles_wrap_spinner_and_annotation() {
    let mut m = monitor(&["job"]).with_spinner_style(Style::new().bold()).with_annotation_style(Style::new().bold());
    m.on_tick(Some("*"));
    assert_eq!(m.frame("0.00"), "\x1b[?25l\x1b[2K\x1b[1G\x1b[1m*\x1b[0m \x1b[1mjob\x1b[0m\n");
}

#[test]
fn completed_future_gives_up_its_line() {
    let mut m = monitor(&["a", "b", "c"]);
    assert_eq!(m.move_back(), "\x1b[3A");
    assert_eq!(m.complete(1), "\x1b[2K\x1b[1A\x1b[2K");
    assert_eq!(m.annotations, vec![Some("a".to_string()), None, Some("c".to_string())]);
    assert_eq!(m.move_back(), "\x1b[2A");
    // A completed slot still gets a cleared line, without an annotation.
    assert_eq!(m.frame("0.00"), "\x1b[?25l\x1b[2K\x1b[1Ga\n\x1b[2K\x1b[1G\x1b[2K\x1b[1Gc\n");
}

#[test]
fn nothing_running_moves_nowhere_and_restores() {
    let mut m = monitor(&["only"]);
    m.complete(0);
    assert_eq!(m.move_back(), "");
    assert_eq!(m.finish(), "\x1b[?25h\x1b[2K\x1b[1G");
}
