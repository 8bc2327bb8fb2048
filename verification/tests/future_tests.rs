use std::sync::mpsc::channel;
use std::time::Duration;

use promising::futures::{delivered_outcome, map_step};
use promising::isolate::task_outcome;
use promising::{promise, Future, FutureError};

#[test]
fn test_future() {
    let (p, f) = promise();
    assert_eq!(p.resolve(123usize), Ok(()));
    assert_eq!(f.get().ok(), Some(123usize));
}

#[test]
fn test_future_hungup() {
    let (p, f) = promise::<usize>();
    Future::delay(move || drop(p), Duration::from_millis(200));
    match f.get() {
        Err(FutureError::HungUp) => (),
        _ => panic!("should not happen"),
    }
}

#[test]
fn test_future_from_fn() {
    let f = Future::from_fn(move || 123usize);
    assert_eq!(f.get().ok(), Some(123usize));
}

#[test]
#[allow(unreachable_code)]
fn test_future_from_fn_fail() {
    let f = Future::from_fn(move || {
        panic!("ooops");
        123usize
    });
    let err = match f.get() {
        Err(FutureError::TaskFailure(err)) => err,
        _ => panic!("should not happen"),
    };
    assert_eq!(err, "ooops");
}

#[test]
fn test_future_delay() {
    let f = Future::delay(move || 123usize, Duration::from_secs(3));
    assert_eq!(f.get().ok(), Some(123usize));
}

#[test]
fn test_future_first_of() {
    let f1 = Future::delay(move || "slow", Duration::from_secs(3));
    let f2 = Future::from_fn(move || "fast");
    let f3 = Future::first_of(vec![f1, f2]);
    assert_eq!(f3.get().ok(), Some("fast"));
}

#[test]
fn test_future_all_failure() {
    let f1 = Future::delay(move || "slow", Duration::from_secs(3));
    let f2 = Future::delay(move || panic!("medium"), Duration::from_secs(1));
    let f3 = Future::from_fn(move || "fast");
    let f4 = Future::all(vec![f1, f2, f3]);
    let err = match f4.get() {
        Err(FutureError::TaskFailure(err)) => err,
        _ => panic!("should not happen"),
    };
    assert_eq!(err, "medium");
}

#[test]
fn test_future_all_success() {
    let f1 = Future::delay(move || "slow", Duration::from_secs(3));
    let f2 = Future::delay(move || "medium", Duration::from_secs(1));
    let f3 = Future::from_fn(move || "fast");
    let f4 = Future::all(vec![f1, f2, f3]);
    assert_eq!(f4.get().ok().unwrap(), vec!["slow", "medium", "fast"]);
}

#[test]
fn test_future_value() {
    let f = Future::value(123usize);
    assert_eq!(f.get().ok(), Some(123usize));
}

#[test]
fn test_future_on_result() {
    let (tx, rx) = channel();
    let f = Future::delay(move || 123usize, Duration::from_secs(1));
    f.on_result(move |x| {
        let _ = tx.send(x);
    });
    assert_eq!(rx.recv().ok().unwrap().ok().unwrap(), 123usize)
}

#[test]
fn test_future_on_success() {
    let (tx, rx) = channel();
    let f = Future::delay(move || 123usize, Duration::from_secs(1));
    f.on_success(move |x| {
        let _ = tx.send(x);
    });
    assert_eq!(rx.recv().ok().unwrap(), 123usize)
}

#[test]
fn test_future_map() {
    let (tx, rx) = channel();
    let f = Future::value(3usize);
    f.map(move |x| x * x).on_success(move |x| {
        let _ = tx.send(x);
    });
    assert_eq!(rx.recv().ok().unwrap(), 9usize);
}

#[test]
fn resolve_returns_value_when_future_gone() {
    let (p, f) = promise::<usize>();
    drop(f);
    assert_eq!(p.resolve(7), Err(7));
}

#[test]
fn delay_waits_at_least_the_duration() {
    let started = std::time::Instant::now();
    let f = Future::delay(move || 5usize, Duration::from_millis(300));
    assert_eq!(f.get().ok(), Some(5usize));
    assert!(started.elapsed() >= Duration::from_millis(300));
}

#[test]
fn map_skips_mapping_on_failure() {
    let (tx, rx) = channel();
    let f = Future::from_fn(move || -> usize { panic!("boom") });
    let mapped = f.map(move |x: usize| {
        let _ = tx.send(x);
        x + 1
    });
    let err = match mapped.get() {
        Err(FutureError::TaskFailure(err)) => err,
        _ => panic!("expected the upstream failure to be forwarded"),
    };
    assert_eq!(err, "boom");
    assert!(rx.try_recv().is_err());
}

#[test]
fn map_failure_in_mapping_becomes_task_failure() {
    let f = Future::value(3usize);
    let mapped = f.map(move |_x: usize| -> usize { panic!("mapping failed") });
    let err = match mapped.get() {
        Err(FutureError::TaskFailure(err)) => err,
        _ => panic!("expected a task failure"),
    };
    assert_eq!(err, "mapping failed");
}

#[test]
fn on_failure_sees_the_failure() {
    let (tx, rx) = channel();
    let f = Future::from_fn(move || -> usize { panic!("late boom") });
    f.on_failure(move |e| {
        let _ = tx.send(e);
    });
    match rx.recv().ok().unwrap() {
        FutureError::TaskFailure(err) => assert_eq!(err, "late boom"),
        _ => panic!("expected a task failure"),
    }
}

#[test]
fn on_failure_stays_silent_on_success() {
    let (tx, rx) = channel();
    let f = Future::value(1usize);
    f.on_failure(move |e| {
        let _ = tx.send(e);
    });
    assert!(rx.recv_timeout(Duration::from_millis(300)).is_err());
}

#[test]
fn on_success_stays_silent_on_failure() {
    let (tx, rx) = channel();
    let f = Future::from_fn(move || -> usize { panic!("quiet") });
    f.on_success(move |v| {
        let _ = tx.send(v);
    });
    assert!(rx.recv_timeout(Duration::from_millis(300)).is_err());
}

#[test]
fn on_complete_takes_the_success_branch() {
    let (tx, rx) = channel();
    let tx2 = tx.clone();
    let f = Future::value(11usize);
    f.on_complete(
        move |v| {
            let _ = tx.send(Ok(v));
        },
        move |e| {
            let _ = tx2.send(Err(e));
        },
    );
    match rx.recv().ok().unwrap() {
        Ok(v) => assert_eq!(v, 11usize),
        Err(_) => panic!("expected the success branch"),
    }
}

#[test]
fn on_complete_takes_the_failure_branch() {
    let (tx, rx) = channel();
    let tx2 = tx.clone();
    let f = Future::from_fn(move || -> usize { panic!("split") });
    f.on_complete(
        move |v| {
            let _ = tx.send(Ok(v));
        },
        move |e| {
            let _ = tx2.send(Err(e));
        },
    );
    match rx.recv().ok().unwrap() {
        Ok(_) => panic!("expected the failure branch"),
        Err(FutureError::TaskFailure(err)) => assert_eq!(err, "split"),
        Err(_) => panic!("expected a task failure"),
    }
}

#[test]
fn task_outcome_settles_by_the_run_alone() {
    assert_eq!(task_outcome::<usize>(Ok(5)).ok(), Some(5));
    match task_outcome::<usize>(Err("bad".to_string())) {
        Err(FutureError::TaskFailure(err)) => assert_eq!(err, "bad"),
        _ => panic!("expected a task failure"),
    }
}

#[test]
fn map_step_forwards_an_upstream_error_unchanged() {
    let forwarded = map_step(Err::<usize, FutureError>(FutureError::HungUp), |x: usize| x + 1);
    assert!(matches!(forwarded, Err(FutureError::HungUp)));
    let mapped = map_step(Ok::<usize, FutureError>(4), |x: usize| x + 1);
    assert_eq!(mapped.ok(), Some(5));
}

#[test]
fn map_step_turns_its_own_failure_into_a_task_failure() {
    let failed = map_step(Ok::<usize, FutureError>(4), |_x: usize| -> usize {
        panic!("step broke")
    });
    match failed {
        Err(FutureError::TaskFailure(err)) => assert_eq!(err, "step broke"),
        _ => panic!("expected a fresh task failure"),
    }
}

#[test]
fn delivered_outcome_settles_a_waiting_future() {
    assert_eq!(delivered_outcome(Some(Ok::<usize, FutureError>(3))).ok(), Some(3));
    assert!(matches!(
        delivered_outcome(Some(Err::<usize, FutureError>(FutureError::HungUp))),
        Err(FutureError::HungUp)
    ));
    assert!(matches!(
        delivered_outcome::<usize>(None),
        Err(FutureError::HungUp)
    ));
}
