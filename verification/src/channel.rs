//! The change channel: a bounded queue of the `futures` crate that carries
//! change events from a tracker to one subscriber.
//!
//! Nothing in this file is proved. It declares the channel's types and states
//! what the verified code relies on when it opens a channel or sends through
//! one.
use futures::sync::mpsc::{Receiver, SendError, Sender};
use futures::{Future, Sink};
use vstd::prelude::*;

verus! {

/// The sending half of a channel, `futures::sync::mpsc::Sender`. Its contents
/// are hidden from the verifier.
#[verifier::external_type_specification]
#[verifier::external_body]
#[verifier::reject_recursive_types(T)]
pub struct ExSender<T>(Sender<T>);

/// The receiving half of a channel, `futures::sync::mpsc::Receiver`. Its
/// contents are hidden from the verifier.
#[verifier::external_type_specification]
#[verifier::external_body]
#[verifier::reject_recursive_types(T)]
pub struct ExReceiver<T>(Receiver<T>);

/// The error of a send whose receiver is gone,
/// `futures::sync::mpsc::SendError`. Its contents are hidden from the verifier.
#[verifier::external_type_specification]
#[verifier::external_body]
#[verifier::reject_recursive_types(T)]
pub struct ExSendError<T>(SendError<T>);

/// `futures::sync::mpsc::channel` opens a bounded channel and returns its two
/// halves. It panics when `buffer` is not below a quarter of `usize::MAX`
/// (rounded down), so callers must stay below that. Nothing is claimed of the
/// halves it returns.
pub assume_specification<T>[ futures::sync::mpsc::channel::<T> ](buffer: usize) -> (ends: (
    Sender<T>,
    Receiver<T>,
))
    requires
        buffer < usize::MAX / 4,
;

/// Sends `item` through `tx` with `Sink::send` and waits for the send to
/// finish with `Future::wait`.
///
/// The call hands the sender back once the queue has taken the item, and an
/// error once the receiver is gone. While the queue is full it waits
/// for the receiver to take an item out. Which of the two comes back depends
/// on what the receiving side has done, so nothing is claimed of the result.
#[verifier::external_body]
pub(crate) fn send_and_wait<T>(tx: Sender<T>, item: T) -> (outcome: Result<Sender<T>, SendError<T>>) {
    tx.send(item).wait()
}

} // verus!
