//! The stable binary form of a message, used only for the per-user logs: a
//! Protocol Buffers record with the sender, the recipient and the content as
//! text fields 1 to 3 and the expiry instant as 64-bit integer field 4.
//! Fields that hold their default, the empty text or zero, are left out.

use vstd::prelude::*;
use vstd::utf8::encode_utf8;
use crate::message::{Message, MessageView};
use crate::wire::{
    int64_field, key, lemma_parse_int64, lemma_parse_int64_rest, lemma_parse_key,
    lemma_parse_key_rest, lemma_parse_text, lemma_parse_text_rest, lemma_varint_nonempty,
    parse_int64, parse_key, parse_text, parse_unread, put_int64, put_text, skip_value,
    skipped_group, take_int64, take_key, take_text, text_field, varint, LENGTH_DELIMITED, VARINT,
};

verus! {

/// Field number of the sender.
pub const SENDER: u32 = 1;

/// Field number of the recipient.
pub const RECIPIENT: u32 = 2;

/// Field number of the content.
pub const CONTENT: u32 = 3;

/// Field number of the expiry instant.
pub const DELETE_TIMESTAMP: u32 = 4;

/// Why a blob is not the binary form of a message.
#[derive(Debug, Clone, Copy, PartialEq, Eq, Structural)]
pub enum DecodeFailure {
    /// Where a field should begin there is no well-formed key.
    Key,
    /// The value of the field with this number is malformed.
    Field(u32),
}

impl MessageView {
    /// Whether the length of each text fits the 64 bits in which the binary
    /// form records it. Every message that exists in memory meets this.
    pub open spec fn encodable(self) -> bool {
        &&& encode_utf8(self.sender).len() <= u64::MAX
        &&& encode_utf8(self.recipient).len() <= u64::MAX
        &&& encode_utf8(self.content).len() <= u64::MAX
    }
}

/// A text field of the binary form: nothing for the empty text.
pub open spec fn text_part(tag: u32, text: Seq<char>) -> Seq<u8> {
    if text.len() == 0 {
        Seq::empty()
    } else {
        text_field(tag, text)
    }
}

/// An integer field of the binary form: nothing for zero.
pub open spec fn int64_part(tag: u32, number: i64) -> Seq<u8> {
    if number == 0 {
        Seq::empty()
    } else {
        int64_field(tag, number)
    }
}

/// The binary form of a message: its four fields in the order of their
/// numbers.
pub open spec fn encoding(message: MessageView) -> Seq<u8> {
    text_part(SENDER, message.sender) + text_part(RECIPIENT, message.recipient) + text_part(
        CONTENT,
        message.content,
    ) + int64_part(DELETE_TIMESTAMP, message.delete_timestamp)
}

/// Reads the value of one field into `partial`: the message with that field
/// replaced, and the bytes after the value. A field whose number is none of
/// the four is passed over.
pub open spec fn merge_field(tag: u32, wire: u8, body: Seq<u8>, partial: MessageView) -> Option<
    (MessageView, Seq<u8>),
> {
    if tag == SENDER {
        match parse_text(wire, body) {
            Some((text, rest)) => Some((MessageView { sender: text, ..partial }, rest)),
            None => None,
        }
    } else if tag == RECIPIENT {
        match parse_text(wire, body) {
            Some((text, rest)) => Some((MessageView { recipient: text, ..partial }, rest)),
            None => None,
        }
    } else if tag == CONTENT {
        match parse_text(wire, body) {
            Some((text, rest)) => Some((MessageView { content: text, ..partial }, rest)),
            None => None,
        }
    } else if tag == DELETE_TIMESTAMP {
        match parse_int64(wire, body) {
            Some((number, rest)) => Some((MessageView { delete_timestamp: number, ..partial }, rest)),
            None => None,
        }
    } else {
        match parse_unread(wire, body, skipped_group(tag, body)) {
            Some(rest) => Some((partial, rest)),
            None => None,
        }
    }
}

/// Reads fields into `partial` until the bytes end. Fields may come in any
/// order; of a field that comes twice the later value stays. The first
/// malformed key or value fails the whole.
pub open spec fn merge_fields(bytes: Seq<u8>, partial: MessageView) -> Result<
    MessageView,
    DecodeFailure,
>
    decreases bytes.len(),
{
    if bytes.len() == 0 {
        Ok(partial)
    } else {
        match parse_key(bytes) {
            None => Err(DecodeFailure::Key),
            Some((tag, wire, body)) => match merge_field(tag, wire, body, partial) {
                Some((merged, rest)) if rest.len() < bytes.len() => merge_fields(rest, merged),
                _ => Err(DecodeFailure::Field(tag)),
            },
        }
    }
}

/// The message that a blob stands for, or why it stands for none.
pub open spec fn decoding(bytes: Seq<u8>) -> Result<MessageView, DecodeFailure> {
    merge_fields(bytes, MessageView::blank())
}

/// What reading a text field with one of the three text numbers does to a
/// partial message.
pub open spec fn with_text(partial: MessageView, tag: u32, text: Seq<char>) -> MessageView {
    if tag == SENDER {
        MessageView { sender: text, ..partial }
    } else if tag == RECIPIENT {
        MessageView { recipient: text, ..partial }
    } else {
        MessageView { content: text, ..partial }
    }
}

/// Reading fields from bytes that begin with a written text field stores
/// the text and goes on with what follows.
pub proof fn lemma_merge_text_field(tag: u32, text: Seq<char>, tail: Seq<u8>, partial: MessageView)
    requires
        tag == SENDER || tag == RECIPIENT || tag == CONTENT,
        encode_utf8(text).len() <= u64::MAX,
    ensures
        merge_fields(text_field(tag, text) + tail, partial) == merge_fields(
            tail,
            with_text(partial, tag, text),
        ),
{
    let value = varint(encode_utf8(text).len() as u64) + encode_utf8(text);
    let bytes = text_field(tag, text) + tail;
    assert(bytes =~= key(tag, LENGTH_DELIMITED) + (value + tail));
    lemma_varint_nonempty((tag * 8 + LENGTH_DELIMITED) as u64);
    lemma_parse_key(tag, LENGTH_DELIMITED, value + tail);
    lemma_parse_text(text, tail);
}

/// Reading fields from bytes that begin with the written expiry field
/// stores the instant and goes on with what follows.
pub proof fn lemma_merge_int64_field(number: i64, tail: Seq<u8>, partial: MessageView)
    ensures
        merge_fields(int64_field(DELETE_TIMESTAMP, number) + tail, partial) == merge_fields(
            tail,
            MessageView { delete_timestamp: number, ..partial },
        ),
{
    let value = varint(number as u64);
    let bytes = int64_field(DELETE_TIMESTAMP, number) + tail;
    assert(bytes =~= key(DELETE_TIMESTAMP, VARINT) + (value + tail));
    lemma_varint_nonempty((DELETE_TIMESTAMP * 8 + VARINT) as u64);
    lemma_parse_key(DELETE_TIMESTAMP, VARINT, value + tail);
    lemma_parse_int64(number, tail);
}

/// Encoding a message and decoding the result gives the message back, equal
/// in all four fields.
pub proof fn lemma_round_trip(message: MessageView)
    requires
        message.encodable(),
    ensures
        decoding(encoding(message)) == Ok::<MessageView, DecodeFailure>(message),
{
    let first = text_part(SENDER, message.sender);
    let second = text_part(RECIPIENT, message.recipient);
    let third = text_part(CONTENT, message.content);
    let fourth = int64_part(DELETE_TIMESTAMP, message.delete_timestamp);
    let blank = MessageView::blank();
    let one = MessageView { sender: message.sender, ..blank };
    let two = MessageView { recipient: message.recipient, ..one };
    let three = MessageView { content: message.content, ..two };

    assert(encoding(message) =~= first + (second + (third + fourth)));
    assert(merge_fields(first + (second + (third + fourth)), blank) == merge_fields(
        second + (third + fourth),
        one,
    )) by {
        if message.sender.len() == 0 {
            assert(first + (second + (third + fourth)) =~= second + (third + fourth));
            assert(one.sender =~= blank.sender);
        } else {
            lemma_merge_text_field(SENDER, message.sender, second + (third + fourth), blank);
        }
    }
    assert(merge_fields(second + (third + fourth), one) == merge_fields(third + fourth, two)) by {
        if message.recipient.len() == 0 {
            assert(second + (third + fourth) =~= third + fourth);
            assert(two.recipient =~= one.recipient);
        } else {
            lemma_merge_text_field(RECIPIENT, message.recipient, third + fourth, one);
        }
    }
    assert(merge_fields(third + fourth, two) == merge_fields(fourth, three)) by {
        if message.content.len() == 0 {
            assert(third + fourth =~= fourth);
            assert(three.content =~= two.content);
        } else {
            lemma_merge_text_field(CONTENT, message.content, fourth, two);
        }
    }
    assert(merge_fields(fourth, three) == Ok::<MessageView, DecodeFailure>(message)) by {
        if message.delete_timestamp != 0 {
            assert(fourth =~= int64_field(DELETE_TIMESTAMP, message.delete_timestamp)
                + Seq::<u8>::empty());
            lemma_merge_int64_field(message.delete_timestamp, Seq::empty(), three);
        }
    }
}

/// A message whose binary form fits in memory has texts whose lengths fit
/// the 64 bits in which the binary form records them.
pub proof fn lemma_encodable(message: MessageView)
    requires
        encoding(message).len() <= usize::MAX,
    ensures
        message.encodable(),
{
}

/// Encodes a message into its binary form. Decoding the result gives the
/// message back.
pub fn encode(message: &Message) -> (bytes: Vec<u8>)
    ensures
        bytes@ == encoding(message@),
        decoding(bytes@) == Ok::<MessageView, DecodeFailure>(message@),
{
    let mut bytes: Vec<u8> = Vec::new();
    if !message.sender.as_str().is_empty() {
        put_text(SENDER, &message.sender, &mut bytes);
    }
    if !message.recipient.as_str().is_empty() {
        put_text(RECIPIENT, &message.recipient, &mut bytes);
    }
    if !message.content.as_str().is_empty() {
        put_text(CONTENT, &message.content, &mut bytes);
    }
    if message.delete_timestamp != 0 {
        put_int64(DELETE_TIMESTAMP, message.delete_timestamp, &mut bytes);
    }
    proof {
        assert(bytes@ =~= encoding(message@));
        assert(bytes@.len() == bytes.len());
        lemma_encodable(message@);
        lemma_round_trip(message@);
    }
    bytes
}

/// Reads the fields in `bytes` into a message that is partly read already,
/// and hands back the message with those fields replaced. Fields may come
/// in any order and more than once, and fields with other numbers than the
/// four are passed over; a malformed key or value fails the whole, and the
/// failure says which it was.
pub fn merge(partial: Message, bytes: &[u8]) -> (merged: Result<Message, DecodeFailure>)
    ensures
        match merged {
            Ok(message) => merge_fields(bytes@, partial@) == Ok::<MessageView, DecodeFailure>(
                message@,
            ),
            Err(failure) => merge_fields(bytes@, partial@) == Err::<MessageView, DecodeFailure>(
                failure,
            ),
        },
{
    let mut message = partial;
    let mut rest: &[u8] = bytes;
    while rest.len() > 0
        invariant
            merge_fields(bytes@, partial@) == merge_fields(rest@, message@),
        decreases rest@.len(),
    {
        let (tag, wire, body) = match take_key(rest) {
            Ok(header) => header,
            Err(_) => {
                return Err(DecodeFailure::Key);
            },
        };
        proof {
            lemma_parse_key_rest(rest@);
        }
        if tag == SENDER || tag == RECIPIENT || tag == CONTENT {
            match take_text(wire, body) {
                Ok((text, after)) => {
                    proof {
                        lemma_parse_text_rest(wire, body@);
                    }
                    if tag == SENDER {
                        message.sender = text;
                    } else if tag == RECIPIENT {
                        message.recipient = text;
                    } else {
                        message.content = text;
                    }
                    rest = after;
                },
                Err(_) => {
                    return Err(DecodeFailure::Field(tag));
                },
            }
        } else if tag == DELETE_TIMESTAMP {
            match take_int64(wire, body) {
                Ok((number, after)) => {
                    proof {
                        lemma_parse_int64_rest(wire, body@);
                    }
                    message.delete_timestamp = number;
                    rest = after;
                },
                Err(_) => {
                    return Err(DecodeFailure::Field(tag));
                },
            }
        } else {
            match skip_value(wire, tag, body) {
                Ok(after) => {
                    rest = after;
                },
                Err(_) => {
                    return Err(DecodeFailure::Field(tag));
                },
            }
        }
    }
    Ok(message)
}

/// Decodes a blob into the message that it stands for: the fields that the
/// blob holds, read into a message of defaults.
pub fn decode(bytes: &[u8]) -> (decoded: Result<Message, DecodeFailure>)
    ensures
        match decoded {
            Ok(message) => decoding(bytes@) == Ok::<MessageView, DecodeFailure>(message@),
            Err(failure) => decoding(bytes@) == Err::<MessageView, DecodeFailure>(failure),
        },
{
    merge(Message::default(), bytes)
}

} // verus!
