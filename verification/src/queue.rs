//! The inbound queue of one session: unbounded, first in first out, fed by
//! many producers and drained by the one consumer that the session's client
//! holds. It is `tokio`'s unbounded channel. A queue never pushes back, so a
//! client that does not drain its queue lets it grow without limit.

use vstd::prelude::*;
use crate::message::Message;
use tokio::sync::mpsc::UnboundedReceiver;
use tokio::sync::mpsc::UnboundedSender;

verus! {

/// The producing half of `tokio`'s unbounded channel. Nothing inside it is
/// visible here. Two handles are equal when they feed the same queue.
#[verifier::external_type_specification]
#[verifier::external_body]
#[verifier::reject_recursive_types(T)]
pub struct ExUnboundedSender<T>(UnboundedSender<T>);

/// The consuming half of `tokio`'s unbounded channel.
#[verifier::external_type_specification]
#[verifier::external_body]
#[verifier::reject_recursive_types(T)]
pub struct ExUnboundedReceiver<T>(UnboundedReceiver<T>);

/// Calls `tokio::sync::mpsc::unbounded_channel`, which makes a new, empty
/// queue and hands out its two halves. Nothing is claimed of them.
#[verifier::external_body]
pub(crate) fn open_queue() -> (halves: (UnboundedSender<Message>, UnboundedReceiver<Message>)) {
    tokio::sync::mpsc::unbounded_channel()
}

/// Calls `UnboundedSender::send`, which never waits. It fails only when the
/// consuming half was closed or dropped, and then hands the message back.
/// Whether it succeeds is not decided by its arguments.
#[verifier::external_body]
pub(crate) fn push(producer: &UnboundedSender<Message>, message: Message) -> (outcome: Result<
    (),
    Message,
>)
    ensures
        outcome matches Err(returned) ==> returned@ == message@,
{
    producer.send(message).map_err(|refused| refused.0)
}

/// Calls `UnboundedSender::is_closed`: whether the consuming half was closed
/// or dropped. The answer can change from one call to the next.
#[verifier::external_body]
pub(crate) fn consumer_gone(producer: &UnboundedSender<Message>) -> (gone: bool) {
    producer.is_closed()
}

/// Calls `UnboundedSender::clone`, which makes another handle on the same
/// queue.
#[verifier::external_body]
pub(crate) fn share(producer: &UnboundedSender<Message>) -> (handle: UnboundedSender<Message>)
    ensures
        handle == *producer,
{
    producer.clone()
}

} // verus!
