use strides::future::StepAction;
use strides::stream::{stream_step, Polled, ProgressBytesStream, ProgressCountStream, ProgressStream};

type Counting = ProgressCountStream<(), (), (), ()>;

fn fraction(r: Option<(u64, u64)>) -> Option<f64> {
    r.map(|(c, t)| c as f64 / t as f64)
}

#[test]
fn progress_closure_sees_zero_based_index() {
    let mut s: ProgressStream<(), (), (), (), ()> = ProgressStream::new((), (), ());
    let seen: Vec<usize> = (0..3).map(|_| s.next_index()).collect();
    assert_eq!(seen, vec![0, 1, 2]);
}

#[test]
fn count_seeds_total_from_size_hint() {
    let mut s: Counting = ProgressCountStream::new((), (), Some(4));
    assert_eq!(s.total, Some(4));
    assert_eq!(s.current, 0);
    for expected in [0.25, 0.5, 0.75, 1.0] {
        assert_eq!(fraction(s.record_item()), Some(expected));
    }
}

#[test]
fn count_without_size_hint_keeps_progress_absent() {
    let mut s: Counting = ProgressCountStream::new((), (), None);
    assert_eq!(s.total, None);
    assert_eq!(s.record_item(), None);
}

#[test]
fn count_with_len_overrides_size_hint() {
    // The size hint says 4; the caller knows the real working set is 2.
    let mut s: Counting = ProgressCountStream::new((), (), Some(4)).with_len(2);
    assert_eq!(fraction(s.record_item()), Some(0.5));
    assert_eq!(fraction(s.record_item()), Some(1.0));
}

#[test]
fn count_with_zero_len_does_not_set_progress() {
    let mut s: Counting = ProgressCountStream::new((), (), Some(2)).with_len(0);
    assert_eq!(s.record_item(), None);
    assert_eq!(s.record_item(), None);
    assert_eq!(s.current, 2);
}

#[test]
fn bytes_accumulate_and_saturate() {
    let mut s: ProgressBytesStream<(), (), (), (), ()> = ProgressBytesStream::new((), (), ());
    assert_eq!(s.record(1500), None);
    assert_eq!(s.core.state.bytes_done, 1500);
    let mut s = s.with_len(3000);
    assert_eq!(s.record(1500), Some((3000, 3000)));
    assert_eq!(s.record(u64::MAX), Some((u64::MAX, 3000)));
    assert_eq!(s.core.state.bytes_done, u64::MAX);
}

#[test]
fn bytes_with_zero_len_has_no_ratio() {
    let mut s: ProgressBytesStream<(), (), (), (), ()> = ProgressBytesStream::new((), (), ()).with_len(0);
    assert_eq!(s.record(10), None);
    assert_eq!(s.core.state.bytes_total, Some(0));
}

#[test]
fn stream_step_decisions() {
    assert_eq!(stream_step(Polled::Item, false), StepAction::Render);
    assert_eq!(stream_step(Polled::Finished, true), StepAction::Clear);
    assert_eq!(stream_step(Polled::Waiting, true), StepAction::Render);
    assert_eq!(stream_step(Polled::Waiting, false), StepAction::Idle);
}
