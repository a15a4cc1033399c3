use strides::future::{join, Join};

type Row<F, O> = Join<F, O, (), (), ()>;

/// Completes the running futures in the order in which their delays elapse,
/// the way polling would.
fn run_to_completion(mut j: Row<(u64, &'static str), &'static str>) -> Vec<&'static str> {
    while !j.is_done() {
        let mut soonest = 0;
        for i in 1..j.futs.len() {
            if j.futs[i].0 < j.futs[soonest].0 {
                soonest = i;
            }
        }
        let (_, name) = j.futs[soonest];
        j.complete(soonest, name);
    }
    j.take_results()
}

#[test]
fn empty_input_resolves_immediately() {
    let mut j: Row<(), ()> = join(Vec::new(), ());
    assert!(j.is_done());
    let results = j.take_results();
    assert!(results.is_empty());
}

#[test]
fn returns_results_in_completion_order() {
    let futs = vec![(60, "slow"), (20, "fast"), (40, "medium")];
    let results = run_to_completion(join(futs, ()));
    assert_eq!(results, vec!["fast", "medium", "slow"]);
}

#[test]
fn progress_reflects_completion_fraction() {
    let j: Row<(), ()> = Join::new(Vec::new(), ());
    assert!(j.progress().is_none());

    let j: Row<(), ()> = join(vec![(); 4], ());
    assert_eq!(j.progress(), Some((0, 4)));
}

#[test]
fn completing_advances_the_ratio() {
    let mut j: Row<u8, u8> = join(vec![1, 2, 3, 4], ());
    assert_eq!(j.complete(0, 10), Some((1, 4)));
    // The last running future takes the completed one's place.
    assert_eq!(j.futs, vec![4, 2, 3]);
    assert_eq!(j.complete(2, 30), Some((2, 4)));
    assert_eq!(j.complete(1, 20), Some((3, 4)));
    assert!(!j.is_done());
    assert_eq!(j.complete(0, 40), Some((4, 4)));
    assert!(j.is_done());
    assert_eq!(j.take_results(), vec![10, 30, 20, 40]);
    assert!(j.results.is_empty());
}

#[test]
fn join_label_and_elapsed_time() {
    let j: Row<u8, u8> = join(vec![1], ()).with_label("copy".to_string()).with_elapsed_time();
    assert_eq!(j.core.state.label.as_deref(), Some("copy"));
    assert!(j.core.state.with_elapsed_time);
    assert_eq!(j.total, 1);
}
