//! The presence registry: which nickname has a session, and the handle on
//! which messages for it are pushed. A nickname has at most one session.
//!
//! The registry is meant to stand behind one lock: `&mut self` is the
//! exclusive lock and `&self` the shared one. No function here waits for
//! anything, so the lock is never held across a call to the store.
//!
//! A session whose client has gone stays in the registry. It is evicted only
//! when the same nickname registers again; nothing sweeps the registry.

use vstd::prelude::*;
use vstd::hash_map::StringHashMap;
use tokio::sync::mpsc::UnboundedSender;
use crate::error::BrokerError;
use crate::message::Message;
use crate::queue::{consumer_gone, open_queue, share};
use crate::session::Session;

verus! {

/// What the registry holds for a nickname at the moment of asking.
#[derive(Debug, Clone, Copy, PartialEq, Eq, Structural)]
pub enum Occupancy {
    /// No session.
    Vacant,
    /// A session whose client has dropped its stream.
    Stale,
    /// A session whose client still holds its stream.
    Live,
}

/// The map from nickname to the producing half of the session's queue.
pub struct Registry {
    sessions: StringHashMap<UnboundedSender<Message>>,
}

impl View for Registry {
    type V = Map<Seq<char>, UnboundedSender<Message>>;

    closed spec fn view(&self) -> Map<Seq<char>, UnboundedSender<Message>> {
        self.sessions@
    }
}

impl Registry {
    /// Whether `producer` is the handle of the session of `nickname`.
    pub open spec fn holds(&self, nickname: Seq<char>, producer: UnboundedSender<Message>) -> bool {
        self@.contains_key(nickname) && self@[nickname] == producer
    }

    /// A registry without sessions.
    pub fn new() -> (registry: Registry)
        ensures
            registry@ == Map::<Seq<char>, UnboundedSender<Message>>::empty(),
    {
        Registry { sessions: StringHashMap::new() }
    }

    /// The handle on which messages for `nickname` are pushed, if the
    /// nickname has a session. The registry is not changed.
    pub fn lookup(&self, nickname: &str) -> (found: Option<&UnboundedSender<Message>>)
        ensures
            match found {
                Some(producer) => self.holds(nickname@, *producer),
                None => !self@.contains_key(nickname@),
            },
    {
        self.sessions.get(nickname)
    }

    /// What the registry holds for `nickname` right now. Whether a session
    /// is stale or live is asked of its queue, and a live session can turn
    /// stale at any moment.
    pub fn occupancy(&self, nickname: &str) -> (occupancy: Occupancy)
        ensures
            occupancy is Vacant <==> !self@.contains_key(nickname@),
    {
        match self.sessions.get(nickname) {
            None => Occupancy::Vacant,
            Some(producer) => if consumer_gone(producer) {
                Occupancy::Stale
            } else {
                Occupancy::Live
            },
        }
    }

    /// Accepts or refuses a new session for `nickname`, given what was found
    /// for the nickname. Against a live session the call fails and the
    /// registry stays as it is. Otherwise a new queue is made and its
    /// producing half is entered under the nickname, in place of a stale
    /// session if there was one; the session that is returned holds the
    /// consuming half.
    pub fn claim(&mut self, nickname: &str, occupancy: Occupancy) -> (claimed: Result<
        Session,
        BrokerError,
    >)
        ensures
            occupancy is Live ==> claimed == Err::<Session, BrokerError>(
                BrokerError::AlreadyActive,
            ) && final(self)@ == old(self)@,
            !(occupancy is Live) ==> (claimed matches Ok(session) && session.owner() == nickname@
                && final(self)@ == old(self)@.insert(nickname@, session.producer())),
    {
        match occupancy {
            Occupancy::Live => Err(BrokerError::AlreadyActive),
            Occupancy::Stale => {
                self.sessions.remove(nickname);
                Ok(self.enter(nickname))
            },
            Occupancy::Vacant => Ok(self.enter(nickname)),
        }
    }

    /// Makes a queue and enters its producing half under `nickname`.
    fn enter(&mut self, nickname: &str) -> (session: Session)
        ensures
            session.owner() == nickname@,
            final(self)@ == old(self)@.insert(nickname@, session.producer()),
    {
        let (producer, inbound) = open_queue();
        let handle = share(&producer);
        self.sessions.insert(nickname.to_owned(), producer);
        Session::assemble(nickname.to_owned(), handle, inbound)
    }

    /// Registers `nickname`. Where the nickname has no session the call
    /// succeeds. Where it has one, the call succeeds if that session's
    /// client has gone, and evicts the stale session in the same step;
    /// otherwise it fails with `AlreadyActive`. Under the exclusive lock no
    /// second caller can register the nickname in between.
    pub fn register(&mut self, nickname: &str) -> (claimed: Result<Session, BrokerError>)
        ensures
            !old(self)@.contains_key(nickname@) ==> claimed is Ok,
            match claimed {
                Ok(session) => session.owner() == nickname@ && final(self)@ == old(self)@.insert(
                    nickname@,
                    session.producer(),
                ),
                Err(error) => error == BrokerError::AlreadyActive && old(self)@.contains_key(
                    nickname@,
                ) && final(self)@ == old(self)@,
            },
    {
        let occupancy = self.occupancy(nickname);
        self.claim(nickname, occupancy)
    }
}

/// A nickname has at most one session: two handles that the registry holds
/// for one nickname are the same handle.
pub proof fn lemma_one_session_per_nickname(
    registry: Registry,
    nickname: Seq<char>,
    first: UnboundedSender<Message>,
    second: UnboundedSender<Message>,
)
    requires
        registry.holds(nickname, first),
        registry.holds(nickname, second),
    ensures
        first == second,
{
}

} // verus!
