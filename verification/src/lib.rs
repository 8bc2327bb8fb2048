//! A minimal asynchronous-result primitive: a `Future` stands for a value
//! that is not yet available, and a `Promise` is the one-shot handle that
//! eventually supplies it.

mod channel;
mod executor;
pub mod isolate;
pub mod futures;
pub mod outcome;
pub mod race;

pub use futures::promise;
pub use futures::Future;
pub use futures::Promise;
pub use outcome::FutureError;
