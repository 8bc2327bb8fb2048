//! The terminal outcome of a future, and the errors it can carry.

use vstd::prelude::*;

verus! {

/// The ways a future can end without a value.
///
/// `TaskFailure` carries the diagnostic text that the background computation
/// raised when it terminated abnormally; the text is not interpreted here.
/// A diagnostic that is not text — something other than a message was
/// raised — arrives as empty text: its content cannot be carried across
/// the isolation boundary.
/// `HungUp` means the producer side was discarded, or its background task
/// ended, without ever resolving or failing the promise.
#[derive(Debug)]
pub enum FutureError {
    TaskFailure(String),
    HungUp,
}

} // verus!
