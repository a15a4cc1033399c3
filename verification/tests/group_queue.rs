use strides::future::Join;
use strides::group::{GroupPoll, GroupQueue};
use strides::stream::ProgressStream;

fn yielded<O>(e: GroupPoll<O>) -> Option<O> {
    match e {
        GroupPoll::Yield(o) => Some(o),
        _ => None,
    }
}

#[test]
fn empty_group_finishes_at_once() {
    let mut q: GroupQueue<u8> = GroupQueue::new();
    assert!(q.is_empty());
    assert!(matches!(q.next_event(), GroupPoll::Finished));
}

#[test]
fn completions_of_one_poll_go_out_one_per_poll_in_order() {
    let mut q: GroupQueue<&str> = GroupQueue::new();
    assert_eq!(q.add(), 0);
    assert_eq!(q.add(), 1);
    assert_eq!(q.add(), 2);
    assert!(matches!(q.next_event(), GroupPoll::Pending));
    q.complete(2, "c");
    q.complete(0, "a");
    assert!(!q.is_active(0));
    assert!(q.is_active(1));
    assert!(!q.is_active(7));
    assert_eq!(yielded(q.next_event()), Some("c"));
    assert_eq!(yielded(q.next_event()), Some("a"));
    assert!(matches!(q.next_event(), GroupPoll::Pending));
    q.complete(1, "b");
    assert_eq!(yielded(q.next_event()), Some("b"));
    assert!(matches!(q.next_event(), GroupPoll::Finished));
}

#[test]
fn stream_slots_produce_until_they_end() {
    let mut q: GroupQueue<u32> = GroupQueue::new();
    q.add();
    q.produce(0, 1);
    q.produce(0, 2);
    q.end(0);
    assert_eq!(yielded(q.next_event()), Some(1));
    assert_eq!(yielded(q.next_event()), Some(2));
    assert!(matches!(q.next_event(), GroupPoll::Finished));
}

#[test]
fn builders_keep_everything_else() {
    let mut j: Join<u8, u8, (), (), ()> = Join::new(vec![1, 2], ());
    j.complete(0, 10);
    let j = j.with_label("copy".to_string()).with_spinner_style(owo_colors::Style::new().bold());
    assert_eq!(j.results, vec![10]);
    assert_eq!(j.core.state.label.as_deref(), Some("copy"));
    let j = j.with_label("again".to_string());
    assert!(j.core.spinner_style_override.is_some());
    assert_eq!(j.completed, 1);

    let mut s: ProgressStream<(), (), (), (), ()> = ProgressStream::new((), (), ());
    s.next_index();
    s.core.state.bytes_done = 5;
    let s = s.with_elapsed_time().with_label("l".to_string());
    assert_eq!(s.current, 1);
    assert_eq!(s.core.state.bytes_done, 5);
    assert!(s.core.state.with_elapsed_time);
}
