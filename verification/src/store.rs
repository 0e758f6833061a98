//! The per-user message log: one append-only list of encoded messages for
//! each user, kept by a store outside the process. This module decides what
//! the store is asked to do and reads what the store hands back; it states,
//! over a model of the store, what those requests do to the logs.
//!
//! A log's expiry belongs to the whole log and not to one entry: each
//! message that asks for an expiry overwrites it.

use vstd::prelude::*;
use vstd::string::StringExecFns;
use crate::codec::{decode, decoding, encode, encoding, lemma_round_trip};
use crate::message::{Message, MessageView};

verus! {

/// One request to the store.
#[derive(Debug, PartialEq, Eq)]
pub enum StoreCommand {
    /// Append `entry` to the list under `key`, which comes to exist if it
    /// did not.
    Append { key: String, entry: Vec<u8> },
    /// Let the list under `key` expire, as a whole, at `instant` in epoch
    /// seconds; an expiry that was set before is overwritten.
    ExpireAt { key: String, instant: i64 },
}

/// What a [`StoreCommand`] asks for.
pub enum StoreCommandView {
    Append { key: Seq<char>, entry: Seq<u8> },
    ExpireAt { key: Seq<char>, instant: i64 },
}

impl View for StoreCommand {
    type V = StoreCommandView;

    open spec fn view(&self) -> StoreCommandView {
        match *self {
            StoreCommand::Append { key, entry } => StoreCommandView::Append {
                key: key@,
                entry: entry@,
            },
            StoreCommand::ExpireAt { key, instant } => StoreCommandView::ExpireAt {
                key: key@,
                instant,
            },
        }
    }
}

impl DeepView for StoreCommand {
    type V = StoreCommandView;

    open spec fn deep_view(&self) -> StoreCommandView {
        self@
    }
}

/// One log as the store holds it. The model has no clock: it shows the
/// expiry that a log carries, not whether that instant has passed.
pub struct LogView {
    /// The encoded messages, oldest first.
    pub entries: Seq<Seq<u8>>,
    /// The instant at which the whole log expires, if one was set.
    pub expiry: Option<i64>,
}

/// The key under which the store keeps a user's log.
pub open spec fn log_key_of(user: Seq<char>) -> Seq<char> {
    "user:"@ + user + ":messages"@
}

/// The entries under a key; none where the key does not exist.
pub open spec fn entries_at(store: Map<Seq<char>, LogView>, key: Seq<char>) -> Seq<Seq<u8>> {
    if store.contains_key(key) {
        store[key].entries
    } else {
        Seq::empty()
    }
}

/// The expiry of a key; none where the key does not exist.
pub open spec fn expiry_at(store: Map<Seq<char>, LogView>, key: Seq<char>) -> Option<i64> {
    if store.contains_key(key) {
        store[key].expiry
    } else {
        None
    }
}

/// The store after one command. Appending keeps the expiry; setting the
/// expiry keeps the entries and does nothing to a key that does not exist.
pub open spec fn run(store: Map<Seq<char>, LogView>, command: StoreCommandView) -> Map<
    Seq<char>,
    LogView,
> {
    match command {
        StoreCommandView::Append { key, entry } => store.insert(
            key,
            LogView { entries: entries_at(store, key).push(entry), expiry: expiry_at(store, key) },
        ),
        StoreCommandView::ExpireAt { key, instant } => if store.contains_key(key) {
            store.insert(key, LogView { entries: store[key].entries, expiry: Some(instant) })
        } else {
            store
        },
    }
}

/// The store after a list of commands, run in order.
pub open spec fn run_all(store: Map<Seq<char>, LogView>, commands: Seq<StoreCommandView>) -> Map<
    Seq<char>,
    LogView,
>
    decreases commands.len(),
{
    if commands.len() == 0 {
        store
    } else {
        run(run_all(store, commands.drop_last()), commands.last())
    }
}

/// What appending an entry to a user's log asks of the store: append the
/// entry, then set the log's expiry if one is given.
pub open spec fn append_plan(user: Seq<char>, entry: Seq<u8>, expire_at: Option<i64>) -> Seq<
    StoreCommandView,
> {
    let append = StoreCommandView::Append { key: log_key_of(user), entry };
    match expire_at {
        Some(instant) => seq![
            append,
            StoreCommandView::ExpireAt { key: log_key_of(user), instant },
        ],
        None => seq![append],
    }
}

/// What recording a delivered message asks of the store: the encoded
/// message in the recipient's log first, then in the sender's, each with the
/// expiry that the message asks for.
pub open spec fn persistence_plan(message: MessageView) -> Seq<StoreCommandView> {
    append_plan(message.recipient, encoding(message), message.expire_at()) + append_plan(
        message.sender,
        encoding(message),
        message.expire_at(),
    )
}

/// The messages that a log's entries stand for, in the log's order. An
/// entry that does not decode is left out.
pub open spec fn readable(entries: Seq<Seq<u8>>) -> Seq<MessageView>
    decreases entries.len(),
{
    if entries.len() == 0 {
        Seq::empty()
    } else {
        match decoding(entries.last()) {
            Ok(message) => readable(entries.drop_last()).push(message),
            Err(_) => readable(entries.drop_last()),
        }
    }
}

/// The encoded forms of a list of messages, in order.
pub open spec fn encodings(messages: Seq<MessageView>) -> Seq<Seq<u8>> {
    Seq::new(messages.len(), |i: int| encoding(messages[i]))
}

/// Two users have two keys.
pub proof fn lemma_log_key_injective(first: Seq<char>, second: Seq<char>)
    requires
        log_key_of(first) == log_key_of(second),
    ensures
        first == second,
{
    let prefix = "user:"@;
    let suffix = ":messages"@;
    let start = prefix.len() as int;
    let key = log_key_of(first);
    assert(key.len() == prefix.len() + first.len() + suffix.len());
    assert(log_key_of(second).len() == prefix.len() + second.len() + suffix.len());
    assert(first =~= (prefix + first + suffix).subrange(start, start + first.len()));
    assert(second =~= (prefix + second + suffix).subrange(start, start + second.len()));
}

/// Running one list of commands after another is running the two as one.
pub proof fn lemma_run_all_concat(
    store: Map<Seq<char>, LogView>,
    first: Seq<StoreCommandView>,
    second: Seq<StoreCommandView>,
)
    ensures
        run_all(store, first + second) == run_all(run_all(store, first), second),
    decreases second.len(),
{
    if second.len() == 0 {
        assert(first + second =~= first);
    } else {
        assert((first + second).drop_last() =~= first + second.drop_last());
        lemma_run_all_concat(store, first, second.drop_last());
    }
}

/// Appending to a user's log adds exactly one entry at the end of that log;
/// sets the log's expiry where one is given and keeps it where not; and
/// touches no other log.
pub proof fn lemma_append_plan_effect(
    store: Map<Seq<char>, LogView>,
    user: Seq<char>,
    entry: Seq<u8>,
    expire_at: Option<i64>,
)
    ensures
        ({
            let key = log_key_of(user);
            let after = run_all(store, append_plan(user, entry, expire_at));
            &&& entries_at(after, key) == entries_at(store, key).push(entry)
            &&& expiry_at(after, key) == if expire_at is Some {
                expire_at
            } else {
                expiry_at(store, key)
            }
            &&& forall|other: Seq<char>|
                other != key ==> #[trigger] entries_at(after, other) == entries_at(store, other)
                    && expiry_at(after, other) == expiry_at(store, other)
        }),
{
    let plan = append_plan(user, entry, expire_at);
    let appended = run(store, plan[0]);
    assert(run_all(store, plan.take(0)) == store);
    assert(plan.take(1).drop_last() =~= plan.take(0));
    assert(run_all(store, plan.take(1)) == appended);
    if expire_at is Some {
        assert(plan.drop_last() =~= plan.take(1));
    } else {
        assert(plan =~= plan.take(1));
    }
}

/// A delivered message between two different users adds exactly one entry,
/// the encoded message, to the recipient's log and to the sender's log, and
/// leaves every other log as it was.
pub proof fn lemma_delivery_is_recorded(store: Map<Seq<char>, LogView>, message: MessageView)
    requires
        message.sender != message.recipient,
    ensures
        ({
            let to = log_key_of(message.recipient);
            let from = log_key_of(message.sender);
            let after = run_all(store, persistence_plan(message));
            &&& entries_at(after, to) == entries_at(store, to).push(encoding(message))
            &&& entries_at(after, from) == entries_at(store, from).push(encoding(message))
            &&& forall|other: Seq<char>|
                other != to && other != from ==> #[trigger] entries_at(after, other) == entries_at(
                    store,
                    other,
                ) && expiry_at(after, other) == expiry_at(store, other)
        }),
{
    let entry = encoding(message);
    let expire_at = message.expire_at();
    let between = run_all(store, append_plan(message.recipient, entry, expire_at));
    lemma_run_all_concat(
        store,
        append_plan(message.recipient, entry, expire_at),
        append_plan(message.sender, entry, expire_at),
    );
    lemma_append_plan_effect(store, message.recipient, entry, expire_at);
    lemma_append_plan_effect(between, message.sender, entry, expire_at);
    if log_key_of(message.recipient) == log_key_of(message.sender) {
        lemma_log_key_injective(message.recipient, message.sender);
    }
    let to = log_key_of(message.recipient);
    let from = log_key_of(message.sender);
    let after = run_all(store, persistence_plan(message));
    assert(entries_at(after, to) == entries_at(between, to));
    assert(entries_at(between, from) == entries_at(store, from));
    assert forall|other: Seq<char>| other != to && other != from implies #[trigger] entries_at(
        after,
        other,
    ) == entries_at(store, other) && expiry_at(after, other) == expiry_at(store, other) by {
        assert(entries_at(between, other) == entries_at(store, other));
        assert(entries_at(after, other) == entries_at(between, other));
    }
}

/// A delivered message from a user to that same user adds two entries to
/// the one log, as the log is written once for the recipient and once for
/// the sender.
pub proof fn lemma_note_to_self_is_recorded_twice(
    store: Map<Seq<char>, LogView>,
    message: MessageView,
)
    requires
        message.sender == message.recipient,
    ensures
        ({
            let key = log_key_of(message.sender);
            let after = run_all(store, persistence_plan(message));
            entries_at(after, key) == entries_at(store, key).push(encoding(message)).push(
                encoding(message),
            )
        }),
{
    let entry = encoding(message);
    let expire_at = message.expire_at();
    let between = run_all(store, append_plan(message.recipient, entry, expire_at));
    lemma_run_all_concat(
        store,
        append_plan(message.recipient, entry, expire_at),
        append_plan(message.sender, entry, expire_at),
    );
    lemma_append_plan_effect(store, message.recipient, entry, expire_at);
    lemma_append_plan_effect(between, message.sender, entry, expire_at);
}

/// A delivered message that asks for an expiry leaves that expiry on the
/// sender's log and on the recipient's log.
pub proof fn lemma_delivery_sets_expiry(store: Map<Seq<char>, LogView>, message: MessageView)
    requires
        message.delete_timestamp != 0,
    ensures
        ({
            let after = run_all(store, persistence_plan(message));
            &&& expiry_at(after, log_key_of(message.sender)) == Some(message.delete_timestamp)
            &&& expiry_at(after, log_key_of(message.recipient)) == Some(message.delete_timestamp)
        }),
{
    let entry = encoding(message);
    let expire_at = message.expire_at();
    let between = run_all(store, append_plan(message.recipient, entry, expire_at));
    lemma_run_all_concat(
        store,
        append_plan(message.recipient, entry, expire_at),
        append_plan(message.sender, entry, expire_at),
    );
    lemma_append_plan_effect(store, message.recipient, entry, expire_at);
    lemma_append_plan_effect(between, message.sender, entry, expire_at);
    let to = log_key_of(message.recipient);
    let after = run_all(store, persistence_plan(message));
    if to != log_key_of(message.sender) {
        assert(entries_at(after, to) == entries_at(between, to));
    }
}

/// A delivered message that asks for no expiry leaves the expiry of every
/// log as it was.
pub proof fn lemma_delivery_without_expiry_keeps_expiry(
    store: Map<Seq<char>, LogView>,
    message: MessageView,
    key: Seq<char>,
)
    requires
        message.delete_timestamp == 0,
    ensures
        expiry_at(run_all(store, persistence_plan(message)), key) == expiry_at(store, key),
{
    let entry = encoding(message);
    let expire_at = message.expire_at();
    let between = run_all(store, append_plan(message.recipient, entry, expire_at));
    lemma_run_all_concat(
        store,
        append_plan(message.recipient, entry, expire_at),
        append_plan(message.sender, entry, expire_at),
    );
    lemma_append_plan_effect(store, message.recipient, entry, expire_at);
    lemma_append_plan_effect(between, message.sender, entry, expire_at);
    let after = run_all(store, persistence_plan(message));
    if key != log_key_of(message.recipient) {
        assert(entries_at(between, key) == entries_at(store, key));
    }
    if key != log_key_of(message.sender) {
        assert(entries_at(after, key) == entries_at(between, key));
    }
}

/// A log to which the encoded form of a message was appended reads back as
/// what it read back before, followed by that message.
pub proof fn lemma_appended_message_reads_back(entries: Seq<Seq<u8>>, message: MessageView)
    requires
        message.encodable(),
    ensures
        readable(entries.push(encoding(message))) == readable(entries).push(message),
{
    lemma_round_trip(message);
    assert(entries.push(encoding(message)).drop_last() =~= entries);
}

/// A log that holds the encoded forms of some messages reads back as those
/// messages, each once and in the log's order.
pub proof fn lemma_recorded_history_reads_back(messages: Seq<MessageView>)
    requires
        forall|i: int| 0 <= i < messages.len() ==> (#[trigger] messages[i]).encodable(),
    ensures
        readable(encodings(messages)) == messages,
    decreases messages.len(),
{
    if messages.len() > 0 {
        assert(encodings(messages).drop_last() =~= encodings(messages.drop_last()));
        lemma_recorded_history_reads_back(messages.drop_last());
        lemma_round_trip(messages.last());
        assert(messages.drop_last().push(messages.last()) =~= messages);
    } else {
        assert(readable(encodings(messages)) =~= messages);
    }
}

/// The key under which the store keeps a user's log.
pub fn log_key(user: &str) -> (key: String)
    ensures
        key@ == log_key_of(user@),
{
    let mut key = String::from_str("user:");
    key.append(user);
    key.append(":messages");
    key
}

/// The commands that append an entry to a user's log and, where an expiry
/// is given, set it on the log afterwards.
pub fn append_commands(user: &str, entry: Vec<u8>, expire_at: Option<i64>) -> (commands: Vec<
    StoreCommand,
>)
    ensures
        commands.deep_view() == append_plan(user@, entry@, expire_at),
{
    let mut commands: Vec<StoreCommand> = Vec::new();
    commands.push(StoreCommand::Append { key: log_key(user), entry });
    match expire_at {
        Some(instant) => {
            commands.push(StoreCommand::ExpireAt { key: log_key(user), instant });
        },
        None => {},
    }
    assert(commands.deep_view() =~= append_plan(user@, entry@, expire_at));
    commands
}

/// The commands that record a delivered message: in the recipient's log
/// first, then in the sender's. The store is to run them in order and stop
/// at the first that fails.
pub fn persistence_commands(message: &Message) -> (commands: Vec<StoreCommand>)
    ensures
        commands.deep_view() == persistence_plan(message@),
{
    let mut commands = append_commands(
        message.recipient.as_str(),
        encode(message),
        message.expire_at(),
    );
    let mut for_sender = append_commands(
        message.sender.as_str(),
        encode(message),
        message.expire_at(),
    );
    let ghost first = commands.deep_view();
    let ghost second = for_sender.deep_view();
    commands.append(&mut for_sender);
    assert(commands.deep_view() =~= first + second);
    commands
}

/// Decodes what the store returned for a user's log. The messages come in
/// the log's order; an entry that does not decode is skipped, and the rest
/// is still read.
pub fn decode_history(entries: &Vec<Vec<u8>>) -> (messages: Vec<Message>)
    ensures
        messages.deep_view() == readable(entries.deep_view()),
{
    let mut messages: Vec<Message> = Vec::new();
    let mut index: usize = 0;
    while index < entries.len()
        invariant
            index <= entries.len(),
            messages.deep_view() == readable(entries.deep_view().take(index as int)),
        decreases entries.len() - index,
    {
        let ghost before = entries.deep_view().take(index as int);
        let ghost after = entries.deep_view().take(index + 1);
        assert(after.drop_last() =~= before);
        assert(after.last() == entries@[index as int]@);
        let ghost read = messages.deep_view();
        match decode(entries[index].as_slice()) {
            Ok(message) => {
                messages.push(message);
                assert(messages.deep_view() =~= read.push(message@));
            },
            Err(_) => {},
        }
        index = index + 1;
    }
    assert(entries.deep_view().take(index as int) =~= entries.deep_view());
    messages
}

} // verus!
