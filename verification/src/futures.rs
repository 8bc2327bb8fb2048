//! The promise/future pair: a `Future` stands for a value that is not yet
//! available, and the paired `Promise` is the one-shot handle that
//! eventually supplies it.

use vstd::prelude::*;

use crate::channel::{new_channel, recv_message, recv_message_timeout, send_message};
use crate::executor::spawn_task;
use crate::isolate::{run_isolated, run_isolated_arg, task_outcome};
use crate::outcome::FutureError;

verus! {

/// A promise is used to set the value of the associated future. It is
/// single-use: resolving or failing it consumes it, so a second completion
/// is impossible by construction.
#[verifier::reject_recursive_types(T)]
pub struct Promise<T> {
    sender: std::sync::mpsc::Sender<Result<T, FutureError>>,
}

/// Where a future's outcome comes from: stored at construction, or
/// arriving through the channel written by the paired promise.
#[verifier::reject_recursive_types(T)]
enum Source<T> {
    Ready(Result<T, FutureError>),
    Waiting(std::sync::mpsc::Receiver<Result<T, FutureError>>),
}

/// A future represents a value that is not yet available. It is
/// single-use: `get` and every consumption combinator consume it.
#[verifier::reject_recursive_types(T)]
pub struct Future<T> {
    source: Source<T>,
}

impl<T> Promise<T> {
    fn new(sender: std::sync::mpsc::Sender<Result<T, FutureError>>) -> Promise<T> {
        Promise { sender }
    }

    /// Completes the associated future with `value`: `Ok(())` when
    /// delivered. When the paired future is already gone, the value comes
    /// back to the caller unconsumed in `Err`, so nothing is silently
    /// lost; that is a deliberate return-to-sender, not a failure signal.
    pub fn resolve(self, value: T) -> (r: Result<(), T>)
        ensures
            r matches Err(back) ==> back == value,
    {
        match send_message(&self.sender, Ok(value)) {
            Ok(()) => Ok(()),
            Err(back) => match back {
                Ok(v) => Err(v),
                Err(_) => vstd::pervasive::unreached(),
            },
        }
    }

    /// Hands a finished outcome to the paired future; a peer that is
    /// already gone is ignored, since an outcome has no salvage path.
    pub(crate) fn send(self, outcome: Result<T, FutureError>) {
        let _ = send_message(&self.sender, outcome);
    }

    /// Fails the associated future with `error`, silently doing nothing
    /// when the peer is gone.
    pub(crate) fn fail(self, error: FutureError) {
        self.send(Err(error));
    }
}

impl<T> Future<T> {
    /// The outcome stored in the future itself, where there is one; a
    /// future still waiting on its promise has none.
    pub closed spec fn ready_outcome(self) -> Option<Result<T, FutureError>> {
        match self.source {
            Source::Ready(o) => Some(o),
            Source::Waiting(_) => None,
        }
    }

    fn new(receiver: std::sync::mpsc::Receiver<Result<T, FutureError>>) -> (f: Future<T>)
        ensures
            f.ready_outcome() is None,
    {
        Future { source: Source::Waiting(receiver) }
    }

    /// Creates a future that is already complete with `val`: the outcome
    /// is stored directly and no background task is involved.
    pub fn value(val: T) -> (f: Future<T>)
        ensures
            f.ready_outcome() == Some(Ok::<T, FutureError>(val)),
    {
        Future { source: Source::Ready(Ok(val)) }
    }

    /// Synchronously waits for the outcome of the future and returns it.
    /// A stored outcome is returned exactly as it stands; otherwise the
    /// call blocks until the paired promise delivers, and a channel closed
    /// without a message — the promise was dropped unresolved — is the
    /// hang-up failure, a normal terminal outcome, never a panic.
    pub fn get(self) -> (r: Result<T, FutureError>)
        ensures
            self.ready_outcome() matches Some(o) ==> r == o,
    {
        match self.source {
            Source::Ready(o) => o,
            Source::Waiting(receiver) => delivered_outcome(recv_message(&receiver)),
        }
    }
}

/// The rule `get` settles a waiting future by, from what the channel
/// reported: a delivered outcome is returned exactly as it stands, and no
/// delivery at all — the promise was dropped, or its background task
/// ended, without ever resolving or failing it — is the hang-up failure.
pub fn delivered_outcome<T>(report: Option<Result<T, FutureError>>) -> (r: Result<
    T,
    FutureError,
>)
    ensures
        report matches Some(o) ==> r == o,
        report is None ==> r == Err::<T, FutureError>(FutureError::HungUp),
{
    match report {
        Some(o) => o,
        None => Err(FutureError::HungUp),
    }
}

/// Creates a future and the associated promise to complete it, linked by
/// one fresh channel that carries at most the one outcome.
pub fn promise<T>() -> (pair: (Promise<T>, Future<T>))
    ensures
        pair.1.ready_outcome() is None,
{
    let (sender, receiver) = new_channel();
    (Promise::new(sender), Future::new(receiver))
}

/// Law: an immediate future hands exactly its stored value to `get`. For
/// any future carrying the stored outcome `Ok(x)` — which is what
/// `value(x)` returns — every result that `get`'s contract admits is
/// `Ok(x)`.
pub proof fn lemma_value_get<T>(x: T, f: Future<T>, r: Result<T, FutureError>)
    requires
        f.ready_outcome() == Some(Ok::<T, FutureError>(x)),
        f.ready_outcome() matches Some(o) ==> r == o,
    ensures
        r == Ok::<T, FutureError>(x),
{
}

impl<T: Send + 'static> Future<T> {
    /// Creates a future that resolves with the return value of `func`,
    /// run on a background task behind the failure-isolating boundary: a
    /// normal return resolves the future, an abnormal termination is
    /// caught and propagated as a task failure. The call itself returns
    /// immediately.
    pub fn from_fn<F>(func: F) -> (f: Future<T>) where F: FnOnce() -> T + Send + 'static
        ensures
            f.ready_outcome() is None,
    {
        let (p, f) = promise::<T>();
        spawn_task(move || {
            p.send(task_outcome(run_isolated(func)));
        });
        f
    }

    /// Like `from_fn`, except that the background task first lets at least
    /// `duration` elapse before running `func`.
    pub fn delay<F>(func: F, duration: core::time::Duration) -> (f: Future<T>) where
        F: FnOnce() -> T + Send + 'static,

        ensures
            f.ready_outcome() is None,
    {
        let (p, f) = promise::<T>();
        spawn_task(move || {
            sleep_at_least(duration);
            p.send(task_outcome(run_isolated(func)));
        });
        f
    }

    /// If this future completes with a value, the new future completes
    /// with `func` of that value, computed behind the same
    /// failure-isolating boundary as `from_fn`; if this future completes
    /// with an error, the new future completes with the same error and
    /// `func` is never run. Either way `func` runs at most once.
    pub fn map<B, F>(self, func: F) -> (f: Future<B>) where
        B: Send + 'static,
        F: FnOnce(T) -> B + Send + 'static,

        ensures
            f.ready_outcome() is None,
    {
        let (p, f) = promise::<B>();
        spawn_task(move || {
            let upstream = self.get();
            p.send(map_step(upstream, func));
        });
        f
    }

    /// Registers `func` to be called with the outcome of the future, from
    /// a background task once the outcome is fully delivered; the call
    /// itself does not block.
    pub fn on_result<F>(self, func: F) where
        F: FnOnce(Result<T, FutureError>) + Send + 'static,

        requires
            forall|o: Result<T, FutureError>| #[trigger] func.requires((o,)),
    {
        spawn_task(move || {
            let outcome = self.get();
            func(outcome);
        });
    }

    /// Registers `func` to be called with the value if the future
    /// completes successfully, and not at all otherwise; the call itself
    /// does not block.
    pub fn on_success<F>(self, func: F) where F: FnOnce(T) + Send + 'static
        requires
            forall|v: T| #[trigger] func.requires((v,)),
    {
        spawn_task(move || {
            match self.get() {
                Ok(value) => func(value),
                _ => (),
            }
        });
    }

    /// Registers `func` to be called with the error if the future fails,
    /// and not at all otherwise; the call itself does not block.
    pub fn on_failure<F>(self, func: F) where F: FnOnce(FutureError) + Send + 'static
        requires
            forall|e: FutureError| #[trigger] func.requires((e,)),
    {
        spawn_task(move || {
            match self.get() {
                Err(err) => func(err),
                _ => (),
            }
        });
    }

    /// Dispatches to exactly one of the two callbacks, by the outcome of
    /// the future: `success` with the value, or `failure` with the error;
    /// the call itself does not block.
    pub fn on_complete<S, F>(self, success: S, failure: F) where
        S: FnOnce(T) + Send + 'static,
        F: FnOnce(FutureError) + Send + 'static,

        requires
            forall|v: T| #[trigger] success.requires((v,)),
            forall|e: FutureError| #[trigger] failure.requires((e,)),
    {
        spawn_task(move || {
            match self.get() {
                Ok(value) => success(value),
                Err(err) => failure(err),
            }
        });
    }
}

/// One transformation step of `map`: applies `func` behind the isolation
/// boundary when the upstream outcome is a success, and forwards an
/// upstream error unchanged, leaving `func` untouched. A failure this
/// step produces itself — `func` terminating abnormally — is always a
/// fresh task failure, never anything else.
pub fn map_step<T, B, F>(upstream: Result<T, FutureError>, func: F) -> (o: Result<
    B,
    FutureError,
>) where T: Send, B: Send, F: FnOnce(T) -> B + Send
    ensures
        upstream matches Err(e) ==> o == Err::<B, FutureError>(e),
        upstream matches Ok(v) ==> (o matches Ok(b) ==> (func.requires((v,)) ==> func.ensures(
            (v,),
            b,
        ))),
        upstream is Ok ==> (o matches Err(e) ==> e is TaskFailure),
{
    match upstream {
        Ok(v) => task_outcome(run_isolated_arg(func, v)),
        Err(e) => Err(e),
    }
}

/// Suspends the calling task for at least the given time: waits on a
/// fresh channel that nothing ever sends to, keeping the sender alive for
/// the whole wait, so that only the timeout can end it.
fn sleep_at_least(duration: core::time::Duration) {
    let (_sender, receiver) = new_channel::<u8>();
    let _ = recv_message_timeout(&receiver, duration);
}

} // verus!
