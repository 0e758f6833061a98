//! The message record that clients exchange and the log keeps.

use vstd::prelude::*;

verus! {

/// A point-to-point message. It is created by the sender's client and never
/// changed afterwards.
#[derive(Debug, PartialEq, Eq)]
pub struct Message {
    /// Nickname of the client that wrote the message.
    pub sender: String,
    /// Nickname of the client the message is addressed to.
    pub recipient: String,
    /// The text, which the broker never interprets.
    pub content: String,
    /// Epoch seconds after which the logs that hold this message may be
    /// removed as a whole; zero asks for no expiry.
    pub delete_timestamp: i64,
}

/// What a [`Message`] says, with each string as its sequence of characters.
pub struct MessageView {
    pub sender: Seq<char>,
    pub recipient: Seq<char>,
    pub content: Seq<char>,
    pub delete_timestamp: i64,
}

impl MessageView {
    /// The message in which every field has its default: empty strings and
    /// no expiry.
    pub open spec fn blank() -> MessageView {
        MessageView {
            sender: Seq::empty(),
            recipient: Seq::empty(),
            content: Seq::empty(),
            delete_timestamp: 0,
        }
    }

    /// The instant at which the message asks its logs to expire, if it asks
    /// for any: zero stands for no expiry.
    pub open spec fn expire_at(self) -> Option<i64> {
        if self.delete_timestamp == 0 {
            None
        } else {
            Some(self.delete_timestamp)
        }
    }
}

impl View for Message {
    type V = MessageView;

    open spec fn view(&self) -> MessageView {
        MessageView {
            sender: self.sender@,
            recipient: self.recipient@,
            content: self.content@,
            delete_timestamp: self.delete_timestamp,
        }
    }
}

impl DeepView for Message {
    type V = MessageView;

    open spec fn deep_view(&self) -> MessageView {
        self@
    }
}

impl Default for Message {
    fn default() -> (message: Message)
        ensures
            message@ == MessageView::blank(),
    {
        Message {
            sender: String::new(),
            recipient: String::new(),
            content: String::new(),
            delete_timestamp: 0,
        }
    }
}

impl Clone for Message {
    fn clone(&self) -> (copy: Message)
        ensures
            copy == *self,
    {
        Message {
            sender: self.sender.clone(),
            recipient: self.recipient.clone(),
            content: self.content.clone(),
            delete_timestamp: self.delete_timestamp,
        }
    }
}

impl Message {
    /// Builds a message from its four fields.
    pub fn new(sender: String, recipient: String, content: String, delete_timestamp: i64) -> (message: Message)
        ensures
            message@.sender == sender@,
            message@.recipient == recipient@,
            message@.content == content@,
            message@.delete_timestamp == delete_timestamp,
    {
        Message { sender, recipient, content, delete_timestamp }
    }

    /// The instant at which the message asks its logs to expire, if it asks
    /// for any: zero stands for no expiry.
    pub fn expire_at(&self) -> (instant: Option<i64>)
        ensures
            instant == self@.expire_at(),
    {
        if self.delete_timestamp == 0 {
            None
        } else {
            Some(self.delete_timestamp)
        }
    }
}

} // verus!
