//! The delivery of one message: find the recipient's live session, push
//! the message onto its queue, and say what the store is to record. A
//! message for a recipient without live session is refused; it is neither
//! queued for later nor recorded.
//!
//! Delivery comes first and recording second. When the store fails the
//! caller is told so although the recipient has the message already, and
//! when it fails between the two logs one party's log has the entry and
//! the other's has not. Neither is repaired.

use vstd::prelude::*;
use crate::error::BrokerError;
use crate::message::Message;
use crate::queue::{consumer_gone, push};
use crate::registry::Registry;
use crate::store::{
    persistence_commands, persistence_plan, run_all, LogView, StoreCommand, StoreCommandView,
};

verus! {

/// What became of the attempt to hand a message to its recipient.
#[derive(Debug, Clone, Copy, PartialEq, Eq, Structural)]
pub enum Push {
    /// The recipient has no session.
    NoSession,
    /// The recipient has a session, but its client has gone.
    StaleSession,
    /// The recipient had a live session when it was looked up, but its
    /// client went away before the push.
    ConsumerGone,
    /// The message is on the recipient's queue.
    Queued,
}

/// What a routed message asks of the store: its commands where it was
/// delivered, and nothing where it was not.
pub open spec fn asked(routed: Result<Vec<StoreCommand>, BrokerError>) -> Seq<StoreCommandView> {
    match routed {
        Ok(commands) => commands.deep_view(),
        Err(_) => Seq::empty(),
    }
}

/// Looks the recipient up and, where it has a live session, pushes a copy
/// of the message onto its queue. The registry is only read, so a stale
/// session that is found stays where it is.
pub fn attempt(registry: &Registry, message: &Message) -> (push: Push)
    ensures
        push is NoSession <==> !registry@.contains_key(message@.recipient),
{
    match registry.lookup(message.recipient.as_str()) {
        None => Push::NoSession,
        Some(producer) => if consumer_gone(producer) {
            Push::StaleSession
        } else {
            match push(producer, message.clone()) {
                Ok(()) => Push::Queued,
                Err(_) => Push::ConsumerGone,
            }
        },
    }
}

/// What follows from an attempt. Only a message that was queued is
/// recorded: the result then holds the commands for the store. A message
/// for a recipient without live session, or one whose push failed, is
/// dropped with the matching error and nothing is asked of the store.
pub fn settle(push: Push, message: &Message) -> (routed: Result<Vec<StoreCommand>, BrokerError>)
    ensures
        match push {
            Push::NoSession | Push::StaleSession => routed == Err::<
                Vec<StoreCommand>,
                BrokerError,
            >(BrokerError::RecipientNotFound),
            Push::ConsumerGone => routed == Err::<Vec<StoreCommand>, BrokerError>(
                BrokerError::DeliveryFailed,
            ),
            Push::Queued => (routed matches Ok(commands) && commands.deep_view()
                == persistence_plan(message@)),
        },
{
    match push {
        Push::NoSession | Push::StaleSession => Err(BrokerError::RecipientNotFound),
        Push::ConsumerGone => Err(BrokerError::DeliveryFailed),
        Push::Queued => Ok(persistence_commands(message)),
    }
}

/// Delivers a message to its recipient's live session and says what the
/// store is to record. The caller holds the shared lock for this call,
/// releases it, and then runs the commands in order. A message for a
/// recipient without live session is refused with `RecipientNotFound`, and a
/// message whose push lost the race against the client's departure with
/// `DeliveryFailed`; of neither is anything recorded.
pub fn route(registry: &Registry, message: &Message) -> (routed: Result<
    Vec<StoreCommand>,
    BrokerError,
>)
    ensures
        !registry@.contains_key(message@.recipient) ==> routed == Err::<
            Vec<StoreCommand>,
            BrokerError,
        >(BrokerError::RecipientNotFound) && asked(routed) == Seq::<StoreCommandView>::empty(),
        match routed {
            Ok(commands) => registry@.contains_key(message@.recipient) && commands.deep_view()
                == persistence_plan(message@),
            Err(error) => error == BrokerError::RecipientNotFound || (error
                == BrokerError::DeliveryFailed && registry@.contains_key(message@.recipient)),
        },
{
    settle(attempt(registry, message), message)
}

/// A send that did not deliver its message leaves every log as it was.
pub proof fn lemma_undelivered_send_keeps_logs(
    store: Map<Seq<char>, LogView>,
    routed: Result<Vec<StoreCommand>, BrokerError>,
)
    requires
        routed is Err,
    ensures
        run_all(store, asked(routed)) == store,
{
}

/// How a send ends once the message is delivered: with success where the
/// store ran every command, and with `PersistenceFailed` where it did not.
pub fn conclude(persisted: bool) -> (outcome: Result<(), BrokerError>)
    ensures
        outcome == if persisted {
            Ok::<(), BrokerError>(())
        } else {
            Err::<(), BrokerError>(BrokerError::PersistenceFailed)
        },
{
    if persisted {
        Ok(())
    } else {
        Err(BrokerError::PersistenceFailed)
    }
}

} // verus!
