//! The Protocol Buffers wire format, as far as a message needs it: numbers
//! in LEB128 form, field keys, text fields and 64-bit integer fields. The
//! functions that write and read bytes are those of `prost::encoding`; this
//! module says in spec functions what they write and accept.

use vstd::prelude::*;
use vstd::utf8::{
    decode_utf8, encode_utf8, encode_utf8_decode_utf8, encode_utf8_valid_utf8, valid_utf8,
};
use prost::DecodeError;
use prost::encoding::{DecodeContext, WireType};

verus! {

/// Wire type of a field whose value is one number in LEB128 form.
pub const VARINT: u8 = 0;

/// Wire type of a field whose value is eight bytes.
pub const SIXTY_FOUR_BIT: u8 = 1;

/// Wire type of a field whose value is a length followed by that many bytes.
pub const LENGTH_DELIMITED: u8 = 2;

/// Wire type of the key that opens a group of fields.
pub const START_GROUP: u8 = 3;

/// Wire type of the key that closes a group of fields.
pub const END_GROUP: u8 = 4;

/// Wire type of a field whose value is four bytes.
pub const THIRTY_TWO_BIT: u8 = 5;

/// The largest wire type that exists.
pub const LAST_WIRE_TYPE: u8 = 5;

/// The largest field number that a key can carry.
pub const MAX_TAG: u32 = 536870911;

/// The error of `prost`'s decoding functions. Only its presence is used.
#[verifier::external_type_specification]
#[verifier::external_body]
pub struct ExDecodeError(DecodeError);

/// A number in LEB128 form: seven bits to a byte, the lowest group first,
/// and the high bit set on every byte but the last.
pub open spec fn varint(value: u64) -> Seq<u8>
    decreases value,
{
    if value < 0x80 {
        seq![value as u8]
    } else {
        seq![(value % 0x80 + 0x80) as u8] + varint(value / 0x80)
    }
}

/// The key that precedes a field's value: the field number above the three
/// bits of the wire type, as one number in LEB128 form.
pub open spec fn key(tag: u32, wire: u8) -> Seq<u8> {
    varint((tag * 8 + wire) as u64)
}

/// A text field as it is written: key, length in bytes, UTF-8 bytes.
pub open spec fn text_field(tag: u32, text: Seq<char>) -> Seq<u8> {
    key(tag, LENGTH_DELIMITED) + varint(encode_utf8(text).len() as u64) + encode_utf8(text)
}

/// A 64-bit integer field as it is written: key, then the number's two's
/// complement bits as an unsigned number in LEB128 form.
pub open spec fn int64_field(tag: u32, number: i64) -> Seq<u8> {
    key(tag, VARINT) + varint(number as u64)
}

/// Reads the remainder of a LEB128 number of which `seen` bytes came before
/// `bytes`: its value in units of the current byte, and what follows it.
/// There is no number where the bytes end before a byte without high bit,
/// where ten bytes do not suffice, or where the tenth byte holds more than
/// the one bit that is left of 64.
pub open spec fn varint_from(bytes: Seq<u8>, seen: nat) -> Option<(int, Seq<u8>)>
    decreases bytes.len(),
{
    if seen >= 10 || bytes.len() == 0 {
        None
    } else if bytes[0] < 0x80 {
        if seen == 9 && bytes[0] >= 2 {
            None
        } else {
            Some((bytes[0] as int, bytes.skip(1)))
        }
    } else {
        match varint_from(bytes.skip(1), seen + 1) {
            Some((high, rest)) => Some((bytes[0] - 0x80 + 0x80 * high, rest)),
            None => None,
        }
    }
}

/// Reads one LEB128 number from the front of `bytes`: the number and the
/// bytes after it.
pub open spec fn parse_varint(bytes: Seq<u8>) -> Option<(u64, Seq<u8>)> {
    match varint_from(bytes, 0) {
        Some((value, rest)) => Some((value as u64, rest)),
        None => None,
    }
}

/// Reads a field key from the front of `bytes`: field number, wire type and
/// the bytes after the key. A key is refused when it does not fit 32 bits,
/// names a wire type that does not exist, or carries field number zero.
pub open spec fn parse_key(bytes: Seq<u8>) -> Option<(u32, u8, Seq<u8>)> {
    match parse_varint(bytes) {
        Some((value, rest)) => if value <= u32::MAX && value % 8 <= LAST_WIRE_TYPE && value / 8 >= 1 {
            Some(((value / 8) as u32, (value % 8) as u8, rest))
        } else {
            None
        },
        None => None,
    }
}

/// Reads the value of a text field that was announced with wire type
/// `wire`: the text and the bytes after it. The wire type must be the
/// length-delimited one, the announced length must be there, and the bytes
/// must be UTF-8.
pub open spec fn parse_text(wire: u8, bytes: Seq<u8>) -> Option<(Seq<char>, Seq<u8>)> {
    if wire != LENGTH_DELIMITED {
        None
    } else {
        match parse_varint(bytes) {
            Some((length, body)) => if length <= body.len() && valid_utf8(body.take(length as int)) {
                Some((decode_utf8(body.take(length as int)), body.skip(length as int)))
            } else {
                None
            },
            None => None,
        }
    }
}

/// Reads the value of a 64-bit integer field that was announced with wire
/// type `wire`: the number and the bytes after it.
pub open spec fn parse_int64(wire: u8, bytes: Seq<u8>) -> Option<(i64, Seq<u8>)> {
    if wire != VARINT {
        None
    } else {
        match parse_varint(bytes) {
            Some((value, rest)) => Some((value as i64, rest)),
            None => None,
        }
    }
}

/// What `prost::encoding::skip_field` leaves of `bytes` when it passes over
/// a group that was opened under field number `tag`: the bytes after the key
/// that closes the group, or `None` where it refuses the group.
pub uninterp spec fn skipped_group(tag: u32, bytes: Seq<u8>) -> Option<Seq<u8>>;

/// Passes over the value of a field that is not read, announced with wire
/// type `wire`: the bytes after the value. A number is read and dropped;
/// four or eight bytes must be there; a length must be followed by as many
/// bytes as it says; a group is passed over as a whole, with the result
/// `group`; and a key that closes a group is refused where none was opened.
pub open spec fn parse_unread(wire: u8, bytes: Seq<u8>, group: Option<Seq<u8>>) -> Option<
    Seq<u8>,
> {
    if wire == VARINT {
        match parse_varint(bytes) {
            Some((_, rest)) => Some(rest),
            None => None,
        }
    } else if wire == SIXTY_FOUR_BIT {
        if bytes.len() >= 8 {
            Some(bytes.skip(8))
        } else {
            None
        }
    } else if wire == LENGTH_DELIMITED {
        match parse_varint(bytes) {
            Some((length, body)) => if length <= body.len() {
                Some(body.skip(length as int))
            } else {
                None
            },
            None => None,
        }
    } else if wire == START_GROUP {
        group
    } else if wire == THIRTY_TWO_BIT {
        if bytes.len() >= 4 {
            Some(bytes.skip(4))
        } else {
            None
        }
    } else {
        None
    }
}

/// Calls `prost::encoding::string::encode`, which appends the key of a
/// length-delimited field, the text's length in bytes and the text's bytes.
#[verifier::external_body]
pub(crate) fn put_text(tag: u32, text: &String, buffer: &mut Vec<u8>)
    requires
        1 <= tag <= MAX_TAG,
    ensures
        final(buffer)@ == old(buffer)@ + text_field(tag, text@),
{
    prost::encoding::string::encode(tag, text, buffer)
}

/// Calls `prost::encoding::int64::encode`, which appends the key of a varint
/// field and the number, cast to `u64`, in LEB128 form.
#[verifier::external_body]
pub(crate) fn put_int64(tag: u32, number: i64, buffer: &mut Vec<u8>)
    requires
        1 <= tag <= MAX_TAG,
    ensures
        final(buffer)@ == old(buffer)@ + int64_field(tag, number),
{
    prost::encoding::int64::encode(tag, &number, buffer)
}

/// Calls `prost::encoding::decode_key` on the front of `input` and hands back
/// the field number, the wire type as its number, and the rest of the input.
#[verifier::external_body]
pub(crate) fn take_key(input: &[u8]) -> (taken: Result<(u32, u8, &[u8]), DecodeError>)
    ensures
        match taken {
            Ok((tag, wire, rest)) => parse_key(input@) == Some((tag, wire, rest@)),
            Err(_) => parse_key(input@) is None,
        },
{
    let mut cursor = input;
    let (tag, wire_type) = prost::encoding::decode_key(&mut cursor)?;
    Ok((tag, wire_type as u8, cursor))
}

/// Calls `prost::encoding::string::merge` on the front of `input`, for a
/// field that was announced with wire type `wire`, and hands back the text
/// and the rest of the input.
#[verifier::external_body]
pub(crate) fn take_text(wire: u8, input: &[u8]) -> (taken: Result<(String, &[u8]), DecodeError>)
    requires
        wire <= LAST_WIRE_TYPE,
    ensures
        match taken {
            Ok((text, rest)) => parse_text(wire, input@) == Some((text@, rest@)),
            Err(_) => parse_text(wire, input@) is None,
        },
{
    let wire_type = WireType::try_from(u64::from(wire))?;
    let mut cursor = input;
    let mut text = String::new();
    prost::encoding::string::merge(wire_type, &mut text, &mut cursor, DecodeContext::default())?;
    Ok((text, cursor))
}

/// Calls `prost::encoding::int64::merge` on the front of `input`, for a field
/// that was announced with wire type `wire`, and hands back the number and
/// the rest of the input.
#[verifier::external_body]
pub(crate) fn take_int64(wire: u8, input: &[u8]) -> (taken: Result<(i64, &[u8]), DecodeError>)
    requires
        wire <= LAST_WIRE_TYPE,
    ensures
        match taken {
            Ok((number, rest)) => parse_int64(wire, input@) == Some((number, rest@)),
            Err(_) => parse_int64(wire, input@) is None,
        },
{
    let wire_type = WireType::try_from(u64::from(wire))?;
    let mut cursor = input;
    let mut number = 0i64;
    prost::encoding::int64::merge(wire_type, &mut number, &mut cursor, DecodeContext::default())?;
    Ok((number, cursor))
}

/// Calls `prost::encoding::skip_field` on the front of `input`, for a field
/// with number `tag` that was announced with wire type `wire`, and hands
/// back the rest of the input, which is never longer than the input.
#[verifier::external_body]
pub(crate) fn skip_value(wire: u8, tag: u32, input: &[u8]) -> (skipped: Result<&[u8], DecodeError>)
    requires
        wire <= LAST_WIRE_TYPE,
    ensures
        match skipped {
            Ok(rest) => parse_unread(wire, input@, skipped_group(tag, input@)) == Some(rest@)
                && rest@.len() <= input@.len(),
            Err(_) => parse_unread(wire, input@, skipped_group(tag, input@)) is None,
        },
{
    let wire_type = WireType::try_from(u64::from(wire))?;
    let mut cursor = input;
    prost::encoding::skip_field(wire_type, tag, &mut cursor, DecodeContext::default())?;
    Ok(cursor)
}

/// The largest value, plus one, that the rest of a LEB128 number can have
/// after `seen` of its bytes: what is left of 64 bits.
pub open spec fn headroom(seen: nat) -> int
    decreases 9 - seen,
{
    if seen >= 9 {
        2
    } else {
        0x80 * headroom(seen + 1)
    }
}

/// A LEB128 number that was read consumed at least one byte and fits what
/// is left of 64 bits, so that a whole number fits `u64`.
pub proof fn lemma_varint_from_bounds(bytes: Seq<u8>, seen: nat)
    requires
        varint_from(bytes, seen) is Some,
    ensures
        varint_from(bytes, seen) matches Some((value, rest)) && 0 <= value < headroom(seen)
            && rest.len() < bytes.len(),
    decreases bytes.len(),
{
    if bytes[0] < 0x80 {
        if seen < 9 {
            lemma_headroom_at_least(seen);
        }
    } else {
        lemma_varint_from_bounds(bytes.skip(1), seen + 1);
    }
}

/// Before the tenth byte there is room for at least a full byte.
pub proof fn lemma_headroom_at_least(seen: nat)
    requires
        seen < 9,
    ensures
        headroom(seen) >= 0x100,
    decreases 9 - seen,
{
    if seen < 8 {
        lemma_headroom_at_least(seen + 1);
    } else {
        reveal_with_fuel(headroom, 2);
    }
}

/// At the first byte the room is the full 64 bits.
pub proof fn lemma_headroom_whole()
    ensures
        headroom(0) == 0x1_0000_0000_0000_0000,
{
    reveal_with_fuel(headroom, 10);
}

/// A number that was written is read back, along with whatever follows it.
pub proof fn lemma_varint_from_varint(value: u64, seen: nat, tail: Seq<u8>)
    requires
        seen <= 9,
        value < headroom(seen),
    ensures
        varint_from(varint(value) + tail, seen) == Some((value as int, tail)),
    decreases value,
{
    let bytes = varint(value) + tail;
    if value < 0x80 {
        assert(bytes[0] == value);
        assert(bytes.skip(1) =~= tail);
    } else {
        assert(bytes[0] == value % 0x80 + 0x80);
        assert(bytes.skip(1) =~= varint(value / 0x80) + tail);
        lemma_varint_from_varint(value / 0x80, seen + 1, tail);
    }
}

/// Reading a written number gives the number and what follows it.
pub proof fn lemma_parse_varint(value: u64, tail: Seq<u8>)
    ensures
        parse_varint(varint(value) + tail) == Some((value, tail)),
{
    lemma_headroom_whole();
    lemma_varint_from_varint(value, 0, tail);
}

/// A number that was read consumed at least one byte.
pub proof fn lemma_parse_varint_rest(bytes: Seq<u8>)
    requires
        parse_varint(bytes) is Some,
    ensures
        parse_varint(bytes) matches Some((_, rest)) && rest.len() < bytes.len(),
{
    lemma_varint_from_bounds(bytes, 0);
}

/// A written number has at least one byte.
pub proof fn lemma_varint_nonempty(value: u64)
    ensures
        varint(value).len() >= 1,
{
}

/// Reading a written key gives the field number, the wire type and what
/// follows the key.
pub proof fn lemma_parse_key(tag: u32, wire: u8, tail: Seq<u8>)
    requires
        1 <= tag <= MAX_TAG,
        wire <= LAST_WIRE_TYPE,
    ensures
        parse_key(key(tag, wire) + tail) == Some((tag, wire, tail)),
{
    lemma_parse_varint((tag * 8 + wire) as u64, tail);
}

/// Reading the value of a written text field gives the text and what
/// follows it.
pub proof fn lemma_parse_text(text: Seq<char>, tail: Seq<u8>)
    requires
        encode_utf8(text).len() <= u64::MAX,
    ensures
        parse_text(
            LENGTH_DELIMITED,
            varint(encode_utf8(text).len() as u64) + encode_utf8(text) + tail,
        ) == Some((text, tail)),
{
    let payload = encode_utf8(text);
    let length = payload.len() as u64;
    assert(varint(length) + payload + tail =~= varint(length) + (payload + tail));
    lemma_parse_varint(length, payload + tail);
    assert((payload + tail).take(length as int) =~= payload);
    assert((payload + tail).skip(length as int) =~= tail);
    encode_utf8_valid_utf8(text);
    encode_utf8_decode_utf8(text);
}

/// Reading the value of a written integer field gives the number and what
/// follows it.
pub proof fn lemma_parse_int64(number: i64, tail: Seq<u8>)
    ensures
        parse_int64(VARINT, varint(number as u64) + tail) == Some((number, tail)),
{
    lemma_parse_varint(number as u64, tail);
    assert((number as u64) as i64 == number) by (bit_vector);
}

/// A key consumes at least one byte, and what it names exists.
pub proof fn lemma_parse_key_rest(bytes: Seq<u8>)
    requires
        parse_key(bytes) is Some,
    ensures
        parse_key(bytes) matches Some((tag, wire, body)) && body.len() < bytes.len() && 1 <= tag
            && wire <= LAST_WIRE_TYPE,
{
    lemma_parse_varint_rest(bytes);
}

/// The value of a text field leaves less than there was.
pub proof fn lemma_parse_text_rest(wire: u8, bytes: Seq<u8>)
    requires
        parse_text(wire, bytes) is Some,
    ensures
        parse_text(wire, bytes) matches Some((_, rest)) && rest.len() < bytes.len(),
{
    lemma_parse_varint_rest(bytes);
}

/// The value of an integer field leaves less than there was.
pub proof fn lemma_parse_int64_rest(wire: u8, bytes: Seq<u8>)
    requires
        parse_int64(wire, bytes) is Some,
    ensures
        parse_int64(wire, bytes) matches Some((_, rest)) && rest.len() < bytes.len(),
{
    lemma_parse_varint_rest(bytes);
}

} // verus!
