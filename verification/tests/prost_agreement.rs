use messenger::codec::{decode, encode};
use messenger::message::Message;
use prost::bytes::{Buf, BufMut};
use prost::encoding::{int64, skip_field, string, DecodeContext, WireType};
use prost::DecodeError;

/// The record as `prost` sees it: the four fields with their numbers.
#[derive(Debug, Default, PartialEq)]
struct Record {
    sender: String,
    recipient: String,
    content: String,
    delete_timestamp: i64,
}

impl prost::Message for Record {
    fn encode_raw(&self, buf: &mut impl BufMut) {
        if !self.sender.is_empty() {
            string::encode(1, &self.sender, buf);
        }
        if !self.recipient.is_empty() {
            string::encode(2, &self.recipient, buf);
        }
        if !self.content.is_empty() {
            string::encode(3, &self.content, buf);
        }
        if self.delete_timestamp != 0 {
            int64::encode(4, &self.delete_timestamp, buf);
        }
    }

    fn merge_field(
        &mut self,
        tag: u32,
        wire_type: WireType,
        buf: &mut impl Buf,
        ctx: DecodeContext,
    ) -> Result<(), DecodeError> {
        match tag {
            1 => string::merge(wire_type, &mut self.sender, buf, ctx),
            2 => string::merge(wire_type, &mut self.recipient, buf, ctx),
            3 => string::merge(wire_type, &mut self.content, buf, ctx),
            4 => int64::merge(wire_type, &mut self.delete_timestamp, buf, ctx),
            _ => skip_field(wire_type, tag, buf, ctx),
        }
    }

    fn encoded_len(&self) -> usize {
        let mut length = 0;
        if !self.sender.is_empty() {
            length += string::encoded_len(1, &self.sender);
        }
        if !self.recipient.is_empty() {
            length += string::encoded_len(2, &self.recipient);
        }
        if !self.content.is_empty() {
            length += string::encoded_len(3, &self.content);
        }
        if self.delete_timestamp != 0 {
            length += int64::encoded_len(4, &self.delete_timestamp);
        }
        length
    }

    fn clear(&mut self) {
        *self = Record::default();
    }
}

fn as_record(message: &Message) -> Record {
    Record {
        sender: message.sender.clone(),
        recipient: message.recipient.clone(),
        content: message.content.clone(),
        delete_timestamp: message.delete_timestamp,
    }
}

fn by_prost(bytes: &[u8]) -> Option<Record> {
    <Record as prost::Message>::decode(bytes).ok()
}

fn by_library(bytes: &[u8]) -> Option<Record> {
    decode(bytes).ok().map(|message| as_record(&message))
}

fn next(state: &mut u64) -> u64 {
    *state ^= *state << 13;
    *state ^= *state >> 7;
    *state ^= *state << 17;
    *state
}

fn samples() -> Vec<Message> {
    let texts = ["", "a", "bob", "alice", "héllo ✓", "with:colon", "\u{0}", "𝄞 clef"];
    let instants = [0, 1, -1, 127, 128, 300, 1_700_000_000, i64::MAX, i64::MIN];
    let mut messages = Vec::new();
    let mut state = 0x9e37_79b9_7f4a_7c15u64;
    for _ in 0..200 {
        let sender = texts[(next(&mut state) % 8) as usize];
        let recipient = texts[(next(&mut state) % 8) as usize];
        let content = texts[(next(&mut state) % 8) as usize];
        let instant = instants[(next(&mut state) % 9) as usize];
        messages.push(Message::new(
            sender.to_string(),
            recipient.to_string(),
            content.to_string(),
            instant,
        ));
    }
    messages
}

#[test]
fn encode_agrees_with_prost_on_sample_messages() {
    for message in samples() {
        assert_eq!(encode(&message), prost::Message::encode_to_vec(&as_record(&message)));
    }
}

#[test]
fn decode_agrees_with_prost_on_what_prost_wrote() {
    for message in samples() {
        let bytes = prost::Message::encode_to_vec(&as_record(&message));
        assert_eq!(by_library(&bytes), Some(as_record(&message)));
        assert_eq!(by_library(&bytes), by_prost(&bytes));
    }
}

#[test]
fn decode_agrees_with_prost_on_arbitrary_bytes() {
    let mut state = 0x2545_f491_4f6c_dd1du64;
    for _ in 0..20_000 {
        let length = (next(&mut state) % 14) as usize;
        let mut bytes = Vec::with_capacity(length);
        for _ in 0..length {
            let draw = next(&mut state);
            // small values are likelier to be keys and lengths that parse
            let byte = if draw % 3 == 0 { (draw >> 8) as u8 } else { ((draw >> 8) % 0x60) as u8 };
            bytes.push(byte);
        }
        assert_eq!(by_library(&bytes), by_prost(&bytes), "on {:?}", bytes);
    }
}

#[test]
fn decode_agrees_with_prost_on_damaged_encodings() {
    let mut state = 0x1234_5678_9abc_def1u64;
    for message in samples() {
        let intact = encode(&message);
        if intact.is_empty() {
            continue;
        }
        for _ in 0..20 {
            let mut bytes = intact.clone();
            let at = (next(&mut state) % bytes.len() as u64) as usize;
            match next(&mut state) % 3 {
                0 => bytes[at] = (next(&mut state) >> 16) as u8,
                1 => bytes.truncate(at),
                _ => bytes.insert(at, (next(&mut state) >> 16) as u8),
            }
            assert_eq!(by_library(&bytes), by_prost(&bytes), "on {:?}", bytes);
        }
    }
}

#[test]
fn decode_agrees_with_prost_on_nested_groups() {
    // field 9 opens a group, field 10 opens one inside it; both are closed
    let nested = [0x4b, 0x53, 0x08, 0x01, 0x54, 0x4c, 0x20, 0x05];
    assert_eq!(by_library(&nested), by_prost(&nested));
    assert_eq!(by_library(&nested).unwrap().delete_timestamp, 5);
    // more groups inside one another than are read
    let mut deep = vec![0x4b; 150];
    deep.extend(std::iter::repeat(0x4c).take(150));
    assert_eq!(by_library(&deep), by_prost(&deep));
    assert_eq!(by_library(&deep), None);
}
