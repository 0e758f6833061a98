//! One registered client: its nickname, the queue on which messages reach
//! it, and the replay of its stored history at the start of its stream.
//!
//! A session can be found by senders from the moment it is registered, which
//! is before its history is replayed. A message that is sent in that window
//! may therefore reach the client before or among the replayed ones; between
//! history and live messages no order is promised.

use vstd::prelude::*;
use tokio::sync::mpsc::UnboundedReceiver;
use tokio::sync::mpsc::UnboundedSender;
use crate::error::BrokerError;
use crate::message::Message;
use crate::queue::push;
use crate::store::decode_history;

verus! {

/// A session that the registry has accepted. It holds the consuming half of
/// its queue, which becomes the client's stream, and a handle on the
/// producing half for the replay.
#[derive(Debug)]
pub struct Session {
    nickname: String,
    producer: UnboundedSender<Message>,
    inbound: UnboundedReceiver<Message>,
}

impl Session {
    /// The nickname under which the session is registered.
    pub closed spec fn owner(&self) -> Seq<char> {
        self.nickname@
    }

    /// The producing half of the session's queue.
    pub closed spec fn producer(&self) -> UnboundedSender<Message> {
        self.producer
    }

    /// The consuming half of the session's queue.
    pub closed spec fn inbound(&self) -> UnboundedReceiver<Message> {
        self.inbound
    }

    /// Puts the parts of a session together.
    pub(crate) fn assemble(
        nickname: String,
        producer: UnboundedSender<Message>,
        inbound: UnboundedReceiver<Message>,
    ) -> (session: Session)
        ensures
            session.owner() == nickname@,
            session.producer() == producer,
            session.inbound() == inbound,
    {
        Session { nickname, producer, inbound }
    }

    /// The nickname under which the session is registered.
    pub fn nickname(&self) -> (nickname: &str)
        ensures
            nickname@ == self.owner(),
    {
        self.nickname.as_str()
    }

    /// Pushes stored messages onto the session's queue, in the given order,
    /// until all are pushed or the queue refuses one, and reports where it
    /// stopped. A refusal, which means that the client is gone, is no error:
    /// the rest is left unpushed and the session stays registered until a
    /// later registration finds it stale.
    pub fn replay(&self, history: &Vec<Message>) -> (replayed: Replayed)
        ensures
            replayed.pushed <= history.len(),
            match replayed.refused {
                Some(message) => replayed.pushed < history.len() && message@
                    == history@[replayed.pushed as int]@,
                None => replayed.pushed == history.len(),
            },
    {
        let mut index: usize = 0;
        while index < history.len()
            invariant
                index <= history.len(),
            decreases history.len() - index,
        {
            match push(&self.producer, history[index].clone()) {
                Ok(()) => {},
                Err(refused) => {
                    return Replayed { pushed: index, refused: Some(refused) };
                },
            }
            index = index + 1;
        }
        Replayed { pushed: index, refused: None }
    }

    /// Gives up the session for the consuming half of its queue.
    pub fn into_inbound(self) -> (inbound: UnboundedReceiver<Message>)
        ensures
            inbound == self.inbound(),
    {
        self.inbound
    }

    /// Starts the client's stream from what the store returned for the
    /// client's log, or from `None` where the store could not be read. With
    /// a log, its readable entries are replayed and the stream is handed
    /// out. Without one the call fails; the session stays in the registry,
    /// and as its queue has lost its consumer, a later registration finds it
    /// stale.
    pub fn start(self, stored: Option<Vec<Vec<u8>>>) -> (stream: Result<
        UnboundedReceiver<Message>,
        BrokerError,
    >)
        ensures
            stored is Some ==> stream == Ok::<UnboundedReceiver<Message>, BrokerError>(
                self.inbound(),
            ),
            stored is None ==> stream == Err::<UnboundedReceiver<Message>, BrokerError>(
                BrokerError::PersistenceFailed,
            ),
    {
        match stored {
            Some(entries) => {
                let history = decode_history(&entries);
                let _ = self.replay(&history);
                Ok(self.inbound)
            },
            None => Err(BrokerError::PersistenceFailed),
        }
    }
}

/// Where a replay stopped.
#[derive(Debug, PartialEq, Eq)]
pub struct Replayed {
    /// How many messages the queue took, counted from the first.
    pub pushed: usize,
    /// The message that the queue refused and handed back, which is the one
    /// that follows the pushed ones; `None` where the queue took them all.
    pub refused: Option<Message>,
}

} // verus!
