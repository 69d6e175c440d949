//! The queues that connect a runner to its manager and to the producers of
//! control messages: the unbounded channels of `futures`.
//!
//! What a queue holds at any moment depends on the other tasks that share
//! it, so nothing is claimed of the outcome of a send or of a poll. The
//! decisions that follow from an outcome are taken by the runner, for every
//! outcome.

use crate::model::{InterMessage, ShardManagerMessage};
use crate::protocol::Polled;
use futures::channel::mpsc::{TryRecvError, UnboundedReceiver, UnboundedSender};
use vstd::prelude::*;

verus! {

/// The sending end of an unbounded channel of `futures`, opaque to proofs.
#[verifier::external_type_specification]
#[verifier::external_body]
#[verifier::reject_recursive_types(T)]
pub struct ExUnboundedSender<T>(UnboundedSender<T>);

/// The receiving end of an unbounded channel of `futures`, opaque to proofs.
#[verifier::external_type_specification]
#[verifier::external_body]
#[verifier::reject_recursive_types(T)]
pub struct ExUnboundedReceiver<T>(UnboundedReceiver<T>);

/// Calls `futures::channel::mpsc::unbounded`, which creates a channel and
/// returns its sending and its receiving end. Nothing is claimed of them.
#[verifier::external_body]
pub(crate) fn control_queue() -> (ends: (UnboundedSender<InterMessage>, UnboundedReceiver<InterMessage>)) {
    futures::channel::mpsc::unbounded()
}

/// Calls `UnboundedSender::unbounded_send`, which queues the message unless
/// the receiving end is closed or gone, and says which. The result is
/// whether the message was queued; it depends on the receiver, and nothing
/// is claimed of it. The call panics only on a queue that already counts as
/// many messages as a `usize` can tell apart from its open flag, which is
/// more than any memory holds.
#[verifier::external_body]
pub(crate) fn send_to_manager(tx: &UnboundedSender<ShardManagerMessage>, message: ShardManagerMessage) -> (queued: bool) {
    tx.unbounded_send(message).is_ok()
}

/// Calls `UnboundedReceiver::try_recv`, which takes the next queued message
/// without waiting for one, or says that the queue is empty, or that it is
/// empty and closed. The result names the three cases; which of them comes
/// depends on the senders, and nothing is claimed of it. While a sender is in
/// the middle of queueing a message the call yields the thread until the
/// message is there.
#[verifier::external_body]
pub(crate) fn poll_control(rx: &mut UnboundedReceiver<InterMessage>) -> (polled: Polled) {
    match rx.try_recv() {
        Ok(message) => Polled::Message(message),
        Err(TryRecvError::Closed) => Polled::Disconnected,
        Err(TryRecvError::Empty) => Polled::Empty,
    }
}

} // verus!
