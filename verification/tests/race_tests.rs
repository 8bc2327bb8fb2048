use std::time::Duration;

use promising::race::{first_outcome, gather_outcomes, Gather, Selector};
use promising::{Future, FutureError};

#[test]
fn gather_orders_by_tag_not_by_arrival() {
    let mut g: Gather<&str> = Gather::new(3);
    g.accept(Some((2, Ok("c"))));
    g.accept(Some((0, Ok("a"))));
    assert!(!g.is_done());
    g.accept(Some((1, Ok("b"))));
    assert!(g.is_done());
    assert_eq!(g.finish().ok().unwrap(), vec!["a", "b", "c"]);
}

#[test]
fn gather_short_circuits_on_first_failure() {
    let mut g: Gather<usize> = Gather::new(3);
    g.accept(Some((0, Ok(10))));
    g.accept(Some((1, Err(FutureError::TaskFailure("boom".to_string())))));
    assert!(g.is_done());
    match g.finish() {
        Err(FutureError::TaskFailure(err)) => assert_eq!(err, "boom"),
        _ => panic!("expected the recorded failure"),
    }
}

#[test]
fn gather_fills_each_slot_at_most_once() {
    let mut g: Gather<usize> = Gather::new(2);
    g.accept(Some((0, Ok(1))));
    g.accept(Some((0, Ok(9))));
    assert!(!g.is_done());
    g.accept(Some((1, Ok(2))));
    assert_eq!(g.finish().ok().unwrap(), vec![1, 2]);
}

#[test]
fn gather_records_hang_up_when_deliveries_end() {
    let mut g: Gather<usize> = Gather::new(2);
    g.accept(Some((1, Ok(5))));
    g.accept(None);
    assert!(g.is_done());
    assert!(matches!(g.finish(), Err(FutureError::HungUp)));
}

#[test]
fn gather_with_no_slots_is_done_at_once() {
    let g: Gather<usize> = Gather::new(0);
    assert!(g.is_done());
    assert_eq!(g.finish().ok().unwrap(), Vec::<usize>::new());
}

#[test]
fn first_outcome_takes_the_first_delivery_as_it_is() {
    assert_eq!(first_outcome(Some((4, Ok(7usize)))).ok(), Some(7usize));
    assert!(matches!(
        first_outcome(Some((0, Err::<usize, _>(FutureError::HungUp)))),
        Err(FutureError::HungUp)
    ));
    assert!(matches!(
        first_outcome::<usize>(None),
        Err(FutureError::HungUp)
    ));
}

#[test]
fn selector_reports_every_completion_with_its_tag() {
    let futures = vec![
        Future::value(10usize),
        Future::value(20usize),
        Future::value(30usize),
    ];
    let selector = Selector::register_all(futures);
    assert_eq!(selector.len(), 3);
    let mut seen: Vec<(usize, usize)> = Vec::new();
    for _ in 0..3 {
        let (tag, outcome) = selector.wait_next().expect("a delivery is owed");
        seen.push((tag, outcome.ok().unwrap()));
    }
    assert!(selector.wait_next().is_none());
    seen.sort();
    assert_eq!(seen, vec![(0, 10), (1, 20), (2, 30)]);
}

#[test]
fn gather_outcomes_collects_a_whole_selector() {
    let futures = vec![
        Future::delay(move || 1usize, Duration::from_millis(300)),
        Future::value(2usize),
    ];
    let (out, _deliveries) = gather_outcomes(Selector::register_all(futures));
    assert_eq!(out.ok().unwrap(), vec![1, 2]);
}

#[test]
fn first_of_forwards_a_first_failure() {
    let f = Future::first_of(vec![Future::from_fn(move || -> usize { panic!("boom") })]);
    match f.get() {
        Err(FutureError::TaskFailure(err)) => assert_eq!(err, "boom"),
        _ => panic!("a losing error still counts as first"),
    }
}

#[test]
fn first_of_nothing_hangs_up() {
    let f = Future::first_of(Vec::<Future<usize>>::new());
    assert!(matches!(f.get(), Err(FutureError::HungUp)));
}

#[test]
fn all_of_nothing_is_an_empty_success() {
    let f = Future::all(Vec::<Future<usize>>::new());
    assert_eq!(f.get().ok().unwrap(), Vec::<usize>::new());
}

#[test]
fn all_forwards_a_hang_up() {
    let (p, pending) = promising::promise::<usize>();
    Future::delay(move || drop(p), Duration::from_millis(200));
    let f = Future::all(vec![Future::value(1usize), pending]);
    assert!(matches!(f.get(), Err(FutureError::HungUp)));
}
