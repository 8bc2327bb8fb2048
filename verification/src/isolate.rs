//! The failure-isolating boundary around user-supplied computations: a
//! computation runs on a thread of its own, so that an abnormal
//! termination is caught and reported as an outcome instead of tearing
//! anything else down.

use vstd::prelude::*;

use crate::outcome::FutureError;

verus! {

/// Relies on `crossbeam_utils::thread::scope`, with `Scope::spawn` and
/// `ScopedJoinHandle::join`: runs `func` on a scoped thread and waits for
/// it. A normal return arrives as `Ok` with the returned value; a panic is
/// caught by the join and its payload is handed back as the `Err` text
/// (the payload itself where it is text, an empty string otherwise).
#[verifier::external_body]
pub(crate) fn run_isolated<T, F>(func: F) -> (r: Result<T, String>) where
    T: Send,
    F: FnOnce() -> T + Send,

    ensures
        r matches Ok(v) ==> (func.requires(()) ==> func.ensures((), v)),
{
    let joined = crossbeam_utils::thread::scope(|s| s.spawn(|_| func()).join());
    match joined {
        Ok(Ok(v)) => Ok(v),
        Ok(Err(payload)) | Err(payload) => Err(
            if let Some(text) = payload.downcast_ref::<&str>() {
                (*text).to_string()
            } else if let Some(text) = payload.downcast_ref::<String>() {
                text.clone()
            } else {
                String::new()
            },
        ),
    }
}

/// Relies on `crossbeam_utils::thread::scope`, with `Scope::spawn` and
/// `ScopedJoinHandle::join`, exactly as `run_isolated` does, for a
/// computation that takes one argument.
#[verifier::external_body]
pub(crate) fn run_isolated_arg<A, B, F>(func: F, arg: A) -> (r: Result<B, String>) where
    A: Send,
    B: Send,
    F: FnOnce(A) -> B + Send,

    ensures
        r matches Ok(v) ==> (func.requires((arg,)) ==> func.ensures((arg,), v)),
{
    let joined = crossbeam_utils::thread::scope(|s| s.spawn(|_| func(arg)).join());
    match joined {
        Ok(Ok(v)) => Ok(v),
        Ok(Err(payload)) | Err(payload) => Err(
            if let Some(text) = payload.downcast_ref::<&str>() {
                (*text).to_string()
            } else if let Some(text) = payload.downcast_ref::<String>() {
                text.clone()
            } else {
                String::new()
            },
        ),
    }
}

/// Turns the result of an isolated run into a future's outcome: a normal
/// return becomes a success, an abnormal termination becomes a task
/// failure carrying the diagnostic text.
pub fn task_outcome<T>(run: Result<T, String>) -> (o: Result<T, FutureError>)
    ensures
        run matches Ok(v) ==> o == Ok::<T, FutureError>(v),
        run matches Err(text) ==> o == Err::<T, FutureError>(FutureError::TaskFailure(text)),
{
    match run {
        Ok(v) => Ok(v),
        Err(text) => Err(FutureError::TaskFailure(text)),
    }
}

/// Law: a computation behind the isolation boundary settles its future by
/// its own ending alone. For any run that the boundary's contract admits
/// of `func`, and any outcome that `task_outcome`'s contract admits of
/// that run: a normal return settles a success obeying `func`'s own
/// contract, and an abnormal termination settles a task failure carrying
/// exactly the diagnostic the run reported.
pub proof fn lemma_isolated_settle<T, F: FnOnce() -> T>(
    func: F,
    run: Result<T, String>,
    o: Result<T, FutureError>,
)
    requires
        func.requires(()),
        run matches Ok(v) ==> func.ensures((), v),
        run matches Ok(v) ==> o == Ok::<T, FutureError>(v),
        run matches Err(text) ==> o == Err::<T, FutureError>(FutureError::TaskFailure(text)),
    ensures
        o matches Ok(v) ==> func.ensures((), v),
        o matches Err(e) ==> (run matches Err(text) && e == FutureError::TaskFailure(text)),
{
}

} // verus!
