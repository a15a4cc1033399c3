use std::time::Duration;

use strides::spinner::styles;
use strides::spinner::{Frames, Spinner, Ticks};

fn take_frames(ticks: &mut Ticks, n: usize) -> Vec<&'static str> {
    (0..n).map(|_| ticks.next_frame().expect("spinner has frames")).collect()
}

#[test]
fn spinner() {
    let interval = Duration::from_millis(20);
    let spinner = styles::dots_3().with_interval(interval);
    let num = spinner.frames.len();
    let mut ticks = spinner.ticks();
    assert_eq!(ticks.interval, interval);
    assert!(ticks.armed);

    let frames = take_frames(&mut ticks, num + 1);
    // Compare against the per-character frames of the underlying string.
    let Frames::Chars(s) = spinner.frames else {
        unreachable!("DOTS_3 is a char spinner");
    };
    let expected = s.char_indices().map(|(i, c)| &s[i..i + c.len_utf8()]);
    assert!(frames[..num].iter().copied().eq(expected));
    assert_eq!(frames[0], frames[num]);
}

#[test]
fn multi_cell_frames() {
    let interval = Duration::from_millis(5);
    let spinner = styles::knight().with_interval(interval);
    let num = spinner.frames.len();
    let Frames::Strs(expected) = spinner.frames else {
        unreachable!("KNIGHT is a frame spinner");
    };

    let frames = take_frames(&mut spinner.ticks(), num + 1);
    assert_eq!(&frames[..num], expected);
    // Each frame is a multi-cell string and the cycle wraps.
    assert!(frames[0].chars().count() > 1);
    assert_eq!(frames[0], frames[num]);
}

#[test]
fn default_interval_is_80ms() {
    assert_eq!(Spinner::new("ab").interval, Duration::from_millis(80));
    assert_eq!(Spinner::frames(&["ab", "cd"]).interval, Duration::from_millis(80));
}

#[test]
fn frames_count_and_lookup() {
    let chars = Frames::Chars("a⠁c");
    assert_eq!(chars.len(), 3);
    assert_eq!(chars.get(1), Some("⠁"));
    assert_eq!(chars.get(3), None);
    assert!(!chars.is_empty());
    let strs = Frames::Strs(&["xy", "zw"]);
    assert_eq!(strs.len(), 2);
    assert_eq!(strs.get(1), Some("zw"));
    assert!(Frames::Chars("").is_empty());
}

#[test]
fn ticks_cycle_through_every_frame() {
    let mut ticks = Spinner::new("abc").ticks();
    let frames = take_frames(&mut ticks, 7);
    assert_eq!(frames, vec!["a", "b", "c", "a", "b", "c", "a"]);
    assert_eq!(ticks.next, 1);
}

#[test]
fn empty_spinner_never_ticks() {
    let mut ticks = Spinner::new("").ticks();
    assert!(!ticks.armed);
    assert_eq!(ticks.next_frame(), None);
    let mut never = Ticks::never();
    assert!(!never.armed);
    assert_eq!(never.next_frame(), None);
}

#[test]
fn spinner_styles_frames() {
    let Frames::Chars(dots) = styles::dots().frames else {
        unreachable!("DOTS is a char spinner");
    };
    assert_eq!(dots, "⠋⠙⠹⠸⠼⠴⠦⠧⠇⠏");
    assert_eq!(styles::dots_3().frames.len(), 4);
}

#[test]
fn ticks_for_animates_only_on_a_terminal() {
    let spinner = Spinner::new("ab").with_interval(Duration::from_millis(7));
    let mut on_tty = strides::spinner::ticks_for(Some(spinner), true);
    assert!(on_tty.armed);
    assert_eq!(on_tty.interval, Duration::from_millis(7));
    assert_eq!(on_tty.next_frame(), Some("a"));
    let mut piped = strides::spinner::ticks_for(Some(spinner), false);
    assert!(!piped.armed);
    assert_eq!(piped.next_frame(), None);
    let mut none = strides::spinner::ticks_for(None, true);
    assert!(!none.armed);
    assert_eq!(none.next_frame(), None);
}
