//! The background task executor, an external collaborator: it runs a unit
//! of work independently of the caller, and nothing more is assumed of it.

use vstd::prelude::*;

verus! {

#[verifier::external_type_specification]
#[verifier::external_body]
pub struct ExThreadPool(threadpool::ThreadPool);

/// Relies on `threadpool::ThreadPool::new`: a fresh pool with one worker
/// thread of its own.
#[verifier::external_body]
pub(crate) fn new_worker() -> threadpool::ThreadPool {
    threadpool::ThreadPool::new(1)
}

/// Relies on `threadpool::ThreadPool::execute`: hands `job` to the pool's
/// worker thread and returns at once; the worker runs the job to its end
/// even after the pool handle is dropped.
#[verifier::external_body]
pub(crate) fn execute_job<F>(pool: &threadpool::ThreadPool, job: F) where
    F: FnOnce() + Send + 'static,

    requires
        job.requires(()),
{
    pool.execute(job);
}

/// Runs `job` on a background thread of its own and returns immediately;
/// the job keeps running to its end on the worker after the handle that
/// started it is gone.
pub(crate) fn spawn_task<F>(job: F) where F: FnOnce() + Send + 'static
    requires
        job.requires(()),
{
    let pool = new_worker();
    execute_job(&pool, job);
}

} // verus!
