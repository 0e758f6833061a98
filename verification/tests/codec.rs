use messenger::codec::{decode, encode, merge, DecodeFailure};
use messenger::message::Message;

fn sample(sender: &str, recipient: &str, content: &str, delete_timestamp: i64) -> Message {
    Message::new(
        sender.to_string(),
        recipient.to_string(),
        content.to_string(),
        delete_timestamp,
    )
}

#[test]
fn encode_writes_fields_in_order() {
    let bytes = encode(&sample("bob", "alice", "hi", 0));
    assert_eq!(
        bytes,
        vec![0x0a, 3, b'b', b'o', b'b', 0x12, 5, b'a', b'l', b'i', b'c', b'e', 0x1a, 2, b'h', b'i']
    );
}

#[test]
fn encode_writes_expiry_as_varint() {
    let bytes = encode(&sample("", "", "", 300));
    assert_eq!(bytes, vec![0x20, 0xac, 0x02]);
}

#[test]
fn encode_of_blank_message_is_empty() {
    assert_eq!(encode(&Message::default()), Vec::<u8>::new());
}

#[test]
fn encode_writes_negative_expiry_in_ten_bytes() {
    let bytes = encode(&sample("", "", "", -1));
    assert_eq!(
        bytes,
        vec![0x20, 0xff, 0xff, 0xff, 0xff, 0xff, 0xff, 0xff, 0xff, 0xff, 0x01]
    );
}

#[test]
fn round_trip_keeps_all_four_fields() {
    let written = sample("bob", "alice", "héllo wörld ✓", 1_700_000_000);
    let decoded = decode(&encode(&written)).unwrap();
    assert_eq!(decoded.sender, "bob");
    assert_eq!(decoded.recipient, "alice");
    assert_eq!(decoded.content, "héllo wörld ✓");
    assert_eq!(decoded.delete_timestamp, 1_700_000_000);
    assert_eq!(decoded, written);
}

#[test]
fn round_trip_of_extreme_timestamps() {
    for instant in [i64::MIN, -1, 0, 1, 127, 128, i64::MAX] {
        let written = sample("a", "b", "", instant);
        assert_eq!(decode(&encode(&written)), Ok(written));
    }
}

#[test]
fn round_trip_of_long_content() {
    let written = sample("a", "b", &"x".repeat(20_000), 0);
    assert_eq!(decode(&encode(&written)), Ok(written));
}

#[test]
fn decode_of_empty_blob_is_blank_message() {
    assert_eq!(decode(&[]), Ok(Message::default()));
}

#[test]
fn decode_takes_the_later_of_a_repeated_field() {
    let blob = [0x0a, 1, b'x', 0x0a, 1, b'y'];
    assert_eq!(decode(&blob).unwrap().sender, "y");
}

#[test]
fn decode_accepts_fields_in_any_order() {
    let blob = [0x20, 7, 0x1a, 2, b'h', b'i', 0x0a, 1, b'b'];
    assert_eq!(decode(&blob), Ok(sample("b", "", "hi", 7)));
}

#[test]
fn decode_passes_over_unknown_fields() {
    // field 9 as varint, field 10 as four bytes, field 11 as two bytes of text
    let blob = [0x48, 0x05, 0x55, 1, 2, 3, 4, 0x5a, 2, b'z', b'z', 0x0a, 1, b'b'];
    assert_eq!(decode(&blob), Ok(sample("b", "", "", 0)));
}

#[test]
fn decode_passes_over_unknown_eight_byte_field() {
    let blob = [0x61, 1, 2, 3, 4, 5, 6, 7, 8, 0x20, 9];
    assert_eq!(decode(&blob), Ok(sample("", "", "", 9)));
}

#[test]
fn decode_passes_over_group() {
    // field 9 opens a group that holds field 1 as a number, and closes it
    let blob = [0x4b, 0x08, 0x05, 0x4c, 0x0a, 1, b'b'];
    assert_eq!(decode(&blob), Ok(sample("b", "", "", 0)));
}

#[test]
fn decode_refuses_group_that_is_not_closed() {
    assert_eq!(decode(&[0x4b, 0x08, 0x05]), Err(DecodeFailure::Field(9)));
}

#[test]
fn decode_refuses_group_closed_under_another_number() {
    assert_eq!(decode(&[0x4b, 0x54]), Err(DecodeFailure::Field(9)));
}

#[test]
fn decode_refuses_close_of_group_that_was_not_opened() {
    assert_eq!(decode(&[0x4c]), Err(DecodeFailure::Field(9)));
}

#[test]
fn decode_refuses_unknown_four_byte_field_that_is_cut_short() {
    assert_eq!(decode(&[0x55, 1, 2, 3]), Err(DecodeFailure::Field(10)));
}

#[test]
fn merge_replaces_only_the_fields_that_the_bytes_hold() {
    let partial = sample("bob", "alice", "old", 5);
    let merged = merge(partial, &[0x1a, 3, b'n', b'e', b'w']);
    assert_eq!(merged, Ok(sample("bob", "alice", "new", 5)));
}

#[test]
fn merge_of_nothing_keeps_the_message() {
    assert_eq!(merge(sample("bob", "alice", "hi", 5), &[]), Ok(sample("bob", "alice", "hi", 5)));
}

#[test]
fn decode_refuses_truncated_key() {
    assert_eq!(decode(&[0x80]), Err(DecodeFailure::Key));
}

#[test]
fn decode_refuses_field_number_zero() {
    assert_eq!(decode(&[0x02, 0x00]), Err(DecodeFailure::Key));
}

#[test]
fn decode_refuses_unknown_wire_type() {
    assert_eq!(decode(&[0x0e]), Err(DecodeFailure::Key));
}

#[test]
fn decode_refuses_text_shorter_than_announced() {
    assert_eq!(decode(&[0x0a, 5, b'a']), Err(DecodeFailure::Field(1)));
}

#[test]
fn decode_refuses_text_that_is_not_utf8() {
    assert_eq!(decode(&[0x12, 2, 0xff, 0xfe]), Err(DecodeFailure::Field(2)));
}

#[test]
fn decode_refuses_wrong_wire_type_for_text() {
    assert_eq!(decode(&[0x18, 1]), Err(DecodeFailure::Field(3)));
}

#[test]
fn decode_refuses_wrong_wire_type_for_timestamp() {
    assert_eq!(decode(&[0x22, 1, b'a']), Err(DecodeFailure::Field(4)));
}

#[test]
fn decode_refuses_overlong_varint() {
    let blob = [0x20, 0xff, 0xff, 0xff, 0xff, 0xff, 0xff, 0xff, 0xff, 0xff, 0x02];
    assert_eq!(decode(&blob), Err(DecodeFailure::Field(4)));
}

#[test]
fn decode_refuses_malformed_unknown_field() {
    assert_eq!(decode(&[0x4a, 9, b'a']), Err(DecodeFailure::Field(9)));
}

#[test]
fn encode_agrees_with_prost_field_encoders() {
    let written = sample("bob", "alice", "hi", 42);
    let mut expected = Vec::new();
    prost::encoding::string::encode(1, &written.sender, &mut expected);
    prost::encoding::string::encode(2, &written.recipient, &mut expected);
    prost::encoding::string::encode(3, &written.content, &mut expected);
    prost::encoding::int64::encode(4, &written.delete_timestamp, &mut expected);
    assert_eq!(encode(&written), expected);
}
