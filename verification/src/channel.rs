//! Trusted view of the delivery primitive: `std::sync::mpsc` channels,
//! declared for the verifier together with the contracts the library
//! relies on. Nothing here is proved; every claim is checked against the
//! documented behaviour of the channel.

use vstd::prelude::*;

verus! {

#[verifier::external_type_specification]
#[verifier::external_body]
#[verifier::reject_recursive_types(T)]
pub struct ExSender<T>(std::sync::mpsc::Sender<T>);

#[verifier::external_type_specification]
#[verifier::external_body]
#[verifier::reject_recursive_types(T)]
pub struct ExReceiver<T>(std::sync::mpsc::Receiver<T>);

/// Relies on `std::sync::mpsc::channel`: returns the two halves of a newly
/// created channel; what goes into the sending half becomes available to
/// the receiving half.
#[verifier::external_body]
pub(crate) fn new_channel<T>() -> (std::sync::mpsc::Sender<T>, std::sync::mpsc::Receiver<T>) {
    std::sync::mpsc::channel()
}

/// Relies on `std::sync::mpsc::Sender::send`: delivery fails only when the
/// receiving half is gone, and then the rejected message comes back to the
/// caller inside the error.
#[verifier::external_body]
pub(crate) fn send_message<T>(sender: &std::sync::mpsc::Sender<T>, message: T) -> (r: Result<
    (),
    T,
>)
    ensures
        r matches Err(back) ==> back == message,
{
    match sender.send(message) {
        Ok(()) => Ok(()),
        Err(std::sync::mpsc::SendError(back)) => Err(back),
    }
}

/// Relies on `std::sync::mpsc::Receiver::recv`: blocks until a message
/// arrives (`Some`), or until every sender has been dropped with no message
/// left (`None`). What arrives is decided by the sending threads, so
/// nothing is claimed about the value.
#[verifier::external_body]
pub(crate) fn recv_message<T>(receiver: &std::sync::mpsc::Receiver<T>) -> Option<T> {
    receiver.recv().ok()
}

/// Relies on `std::sync::mpsc::Receiver::recv_timeout`: blocks until a
/// message arrives or until at least the given time has elapsed, whichever
/// comes first.
#[verifier::external_body]
pub(crate) fn recv_message_timeout<T>(
    receiver: &std::sync::mpsc::Receiver<T>,
    timeout: core::time::Duration,
) -> Option<T> {
    receiver.recv_timeout(timeout).ok()
}

/// Relies on `std::sync::mpsc::Sender::clone`: the clone feeds the same
/// channel as the original sender.
#[verifier::external_body]
pub(crate) fn clone_sender<T>(sender: &std::sync::mpsc::Sender<T>) -> std::sync::mpsc::Sender<T> {
    sender.clone()
}

} // verus!
