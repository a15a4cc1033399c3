use owo_colors::Style;

use strides::group::{active_count, standalone_frame, GroupCore};
use strides::term::{clear_line, hide_cursor, reset_sequence, restore_sequence, show_cursor, Output};
use strides::theme::Theme;

type Core = GroupCore<(), ()>;

fn group_core(is_tty: bool) -> Core {
    GroupCore::new(Theme::new(), Output::Stderr, is_tty, Style::new())
}

fn rows(texts: &[&str]) -> Vec<String> {
    texts.iter().map(|t| t.to_string()).collect()
}

#[test]
fn terminal_sequences() {
    assert_eq!(hide_cursor(), "\x1b[?25l");
    assert_eq!(show_cursor(), "\x1b[?25h");
    assert_eq!(clear_line(), "\x1b[2K\x1b[1G");
    assert_eq!(reset_sequence(true), "\x1b[?25h\x1b[1G\x1b[J");
    assert_eq!(reset_sequence(false), "");
    assert_eq!(restore_sequence(true), "\x1b[2K\x1b[1G\x1b[?25h");
    assert_eq!(restore_sequence(false), "");
}

#[test]
fn standalone_frame_hides_cursor_and_clears() {
    assert_eq!(standalone_frame("⠋ work"), "\x1b[?25l\x1b[2K\x1b[1G⠋ work");
}

#[test]
fn first_repaint_draws_rows_and_moves_back_up() {
    let mut g = group_core(true);
    let frame = g.repaint(&rows(&["a", "b"])).expect("first repaint draws");
    assert_eq!(frame, "\x1b[?25l\x1b[2K\x1b[1Ga\n\x1b[2K\x1b[1Gb\n\x1b[2A");
    assert_eq!(g.rendered_lines, 2);
    assert!(!g.dirty);
}

#[test]
fn clean_group_does_not_repaint() {
    let mut g = group_core(true);
    g.repaint(&rows(&["a"]));
    assert_eq!(g.repaint(&rows(&["a"])), None);
    g.mark_dirty();
    assert!(g.repaint(&rows(&["a"])).is_some());
}

#[test]
fn shrinking_clears_stale_lines() {
    let mut g = group_core(true);
    g.repaint(&rows(&["a", "b", "c"]));
    g.mark_dirty();
    let frame = g.repaint(&rows(&["a"])).expect("dirty repaint draws");
    assert_eq!(
        frame,
        "\x1b[?25l\x1b[2K\x1b[1Ga\n\x1b[2K\x1b[1G\n\x1b[2K\x1b[1G\n\x1b[3A"
    );
    assert_eq!(g.rendered_lines, 1);
}

#[test]
fn no_rows_after_no_rows_draws_nothing() {
    let mut g = group_core(true);
    assert_eq!(g.repaint(&Vec::new()), None);
    assert!(g.dirty);
}

#[test]
fn non_terminal_never_repaints() {
    let mut g = group_core(false);
    assert_eq!(g.repaint(&rows(&["a"])), None);
    assert_eq!(g.rendered_lines, 0);
}

#[test]
fn ticks_count_and_wrap() {
    let mut g = group_core(true);
    g.repaint(&rows(&["a"]));
    g.on_tick(Some("⠙"));
    assert_eq!(g.spinner_frame, Some("⠙"));
    assert_eq!(g.spinner_tick, 1);
    assert!(g.dirty);
    g.spinner_tick = u64::MAX;
    g.on_tick(None);
    assert_eq!(g.spinner_tick, 0);
}

#[test]
fn row_frame_prefers_row_choices() {
    let mut g = group_core(true);
    let bold = Style::new().bold();
    let plain = g.row_frame(false, None, None);
    assert!(!plain.show_elapsed);
    assert_eq!(plain.spinner_style, Style::new());
    let own = g.row_frame(true, Some(bold), Some(bold));
    assert!(own.show_elapsed);
    assert_eq!(own.spinner_style, bold);
    assert_eq!(own.annotation_style, bold);
    g.with_elapsed_time = true;
    assert!(g.row_frame(false, None, None).show_elapsed);
}

#[test]
fn active_count_counts_occupied_slots() {
    assert_eq!(active_count::<u8>(&vec![]), 0);
    assert_eq!(active_count(&vec![Some(1), None, Some(3), None]), 2);
}
