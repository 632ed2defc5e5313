use crossbeam::sync::{Parker, Unparker};
use crossbeam_channel::{bounded, Receiver, Sender};
use std::sync::Arc;
use vstd::prelude::*;

verus! {

/// `Sender` of crossbeam-channel, opaque here: the sending end of a channel.
#[verifier::external_type_specification]
#[verifier::external_body]
#[verifier::reject_recursive_types(T)]
pub struct ExSender<T>(Sender<T>);

/// `Receiver` of crossbeam-channel, opaque here: a receiving end of a
/// channel.
#[verifier::external_type_specification]
#[verifier::external_body]
#[verifier::reject_recursive_types(T)]
pub struct ExReceiver<T>(Receiver<T>);

/// `Parker` of crossbeam, opaque here: what a thread blocks on until it is
/// given a token.
#[verifier::external_type_specification]
#[verifier::external_body]
pub struct ExParker(Parker);

/// `Unparker` of crossbeam, opaque here: the handle that gives a parker its
/// token.
#[verifier::external_type_specification]
#[verifier::external_body]
pub struct ExUnparker(Unparker);

/// Calls `bounded` of crossbeam-channel: the two ends of a channel that
/// holds at most `capacity` messages. The call panics where the capacity is
/// too large to lay the channel out; the precondition keeps far below that.
/// Nothing is claimed of the ends: they are opaque here.
#[verifier::external_body]
pub(crate) fn channel<T>(capacity: usize) -> (Sender<T>, Receiver<T>)
    requires
        capacity <= u16::MAX,
{
    bounded(capacity)
}

/// Calls `Sender::send` of crossbeam-channel: blocks until the message is in
/// the channel or the channel is disconnected, and tells which. Which of the
/// two happens depends on the other end.
#[verifier::external_body]
pub(crate) fn send<T>(tx: &Sender<T>, msg: T) -> bool {
    tx.send(msg).is_ok()
}

/// Calls `Receiver::recv` of crossbeam-channel: blocks until a message
/// arrives, or until the channel is empty and disconnected, and then gives
/// `None`. What arrives depends on the other end.
#[verifier::external_body]
pub(crate) fn receive<T>(rx: &Receiver<T>) -> Option<T> {
    rx.recv().ok()
}

/// Calls `Receiver::clone` of crossbeam-channel: one more receiving end of
/// the same channel.
#[verifier::external_body]
pub(crate) fn share<T>(rx: &Receiver<T>) -> Receiver<T> {
    rx.clone()
}

/// Calls `Arc::clone` of std: one more pointer to the same value.
#[verifier::external_body]
pub(crate) fn another<T>(shared: &Arc<T>) -> (same: Arc<T>)
    ensures
        same == *shared,
{
    Arc::clone(shared)
}

/// Calls `Parker::new` and `Parker::unparker` of crossbeam: a parker without
/// a token, and the handle that gives it one.
#[verifier::external_body]
pub(crate) fn parker_pair() -> (Parker, Unparker) {
    let parker = Parker::new();
    let unparker = parker.unparker().clone();
    (parker, unparker)
}

/// Calls `Parker::park` of crossbeam: blocks until the token is there, and
/// takes it.
#[verifier::external_body]
pub(crate) fn park(parker: &Parker) {
    parker.park()
}

/// Calls `Unparker::unpark` of crossbeam: makes the token available.
#[verifier::external_body]
pub(crate) fn unpark(unparker: &Unparker) {
    unparker.unpark()
}

} // verus!
