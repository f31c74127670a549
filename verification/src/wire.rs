//! The wire format in which transactions travel: that of Protocol Buffers.
//!
//! A message is a run of fields. Each field begins with a key, a variable
//! length integer that holds the field's number and the type of its payload;
//! the payload is a variable length integer, four bytes, eight bytes, a run of
//! bytes behind its length, or a group of fields up to the key that ends it.
//! This module reads variable length integers and keys, and steps over the
//! fields that a message does not know.

use vstd::prelude::*;
use vstd::string::*;

verus! {

/// The payload is a variable length integer.
pub const VARINT: u8 = 0;

/// The payload is eight bytes.
pub const SIXTY_FOUR_BIT: u8 = 1;

/// The payload is a run of bytes behind its length.
pub const LENGTH_DELIMITED: u8 = 2;

/// The payload is a group of fields.
pub const START_GROUP: u8 = 3;

/// The key ends a group.
pub const END_GROUP: u8 = 4;

/// The payload is four bytes.
pub const THIRTY_TWO_BIT: u8 = 5;

/// How deep messages and groups may nest.
pub const RECURSION_LIMIT: u32 = 100;

/// Why bytes do not decode.
#[derive(Clone, Copy, Debug, PartialEq, Eq, Structural)]
pub enum DecodeError {
    /// A variable length integer ends with the bytes, is longer than ten
    /// bytes, or does not fit 64 bits.
    InvalidVarint,
    /// A key does not fit 32 bits.
    InvalidKey,
    /// A key names a payload type that does not exist.
    InvalidWireType,
    /// A key names the field zero.
    InvalidTag,
    /// A payload is longer than the bytes that are left.
    BufferUnderflow,
    /// The fields of an inner message run over the message's length.
    DelimitedLengthExceeded,
    /// A key ends a group that is not open.
    UnexpectedEndGroup,
    /// A known field has a payload of another type than its own.
    UnexpectedWireType,
    /// Messages and groups nest deeper than `RECURSION_LIMIT`.
    RecursionLimitReached,
    /// The transaction has no timestamp.
    NoTimestamp,
    /// The nanoseconds of the timestamp are negative or a second or more.
    InvalidTimestamp,
}

impl DecodeError {
    /// The text by which the failure is reported.
    pub open spec fn message(&self) -> Seq<char> {
        match self {
            DecodeError::InvalidVarint => "invalid varint"@,
            DecodeError::InvalidKey => "invalid key value"@,
            DecodeError::InvalidWireType => "invalid wire type value"@,
            DecodeError::InvalidTag => "invalid tag value: 0"@,
            DecodeError::BufferUnderflow => "buffer underflow"@,
            DecodeError::DelimitedLengthExceeded => "delimited length exceeded"@,
            DecodeError::UnexpectedEndGroup => "unexpected end group tag"@,
            DecodeError::UnexpectedWireType => "invalid wire type"@,
            DecodeError::RecursionLimitReached => "recursion limit reached"@,
            DecodeError::NoTimestamp => "no timestamp"@,
            DecodeError::InvalidTimestamp => "invalid timestamp"@,
        }
    }

    /// The text by which the failure is reported.
    pub fn to_string(&self) -> (text: String)
        ensures
            text@ == self.message(),
    {
        match self {
            DecodeError::InvalidVarint => String::from_str("invalid varint"),
            DecodeError::InvalidKey => String::from_str("invalid key value"),
            DecodeError::InvalidWireType => String::from_str("invalid wire type value"),
            DecodeError::InvalidTag => String::from_str("invalid tag value: 0"),
            DecodeError::BufferUnderflow => String::from_str("buffer underflow"),
            DecodeError::DelimitedLengthExceeded => String::from_str("delimited length exceeded"),
            DecodeError::UnexpectedEndGroup => String::from_str("unexpected end group tag"),
            DecodeError::UnexpectedWireType => String::from_str("invalid wire type"),
            DecodeError::RecursionLimitReached => String::from_str("recursion limit reached"),
            DecodeError::NoTimestamp => String::from_str("no timestamp"),
            DecodeError::InvalidTimestamp => String::from_str("invalid timestamp"),
        }
    }
}

/// The key of a field: the field's number and the type of its payload.
#[derive(Clone, Copy, Debug, PartialEq, Eq, Structural)]
pub struct FieldKey {
    pub tag: u32,
    pub wire_type: u8,
}

/// The values that the bytes of a variable length integer from the byte
/// `count` on can make up: 64 bits are seven bits for each of nine bytes and
/// one bit for the tenth.
pub open spec fn varint_limit(count: nat) -> int {
    if count == 0 {
        0x1_0000_0000_0000_0000
    } else if count == 1 {
        0x0200_0000_0000_0000
    } else if count == 2 {
        0x0004_0000_0000_0000
    } else if count == 3 {
        0x0000_0800_0000_0000
    } else if count == 4 {
        0x0000_0010_0000_0000
    } else if count == 5 {
        0x0000_0000_2000_0000
    } else if count == 6 {
        0x0000_0000_0040_0000
    } else if count == 7 {
        0x0000_0000_0000_8000
    } else if count == 8 {
        0x0000_0000_0000_0100
    } else {
        2
    }
}

/// The variable length integer whose byte `count` stands at `at`: its value
/// from that byte on and the place behind its last byte.
///
/// Each byte gives its low seven bits, the least significant first; the high
/// bit says that another byte follows. `None` where the bytes end first,
/// where a tenth byte is followed by another, or where the tenth byte gives
/// more than one bit.
pub open spec fn varint_from(bytes: Seq<u8>, at: int, count: nat) -> Option<(int, int)>
    decreases 10 - count,
{
    if count >= 10 || at < 0 || at >= bytes.len() {
        None
    } else if bytes[at] < 0x80 {
        if count == 9 && bytes[at] >= 2 {
            None
        } else {
            Some((bytes[at] as int, at + 1))
        }
    } else {
        match varint_from(bytes, at + 1, count + 1) {
            Some((rest, next)) => Some((bytes[at] - 0x80 + 128 * rest, next)),
            None => None,
        }
    }
}

/// The variable length integer at `at`: its value and the place behind it.
pub open spec fn varint(bytes: Seq<u8>, at: int) -> Option<(int, int)> {
    varint_from(bytes, at, 0)
}

/// A variable length integer is within its limit and ends behind its start,
/// within the bytes.
pub proof fn lemma_varint_from(bytes: Seq<u8>, at: int, count: nat)
    ensures
        varint_from(bytes, at, count) matches Some((value, next)) ==> {
            &&& 0 <= value < varint_limit(count)
            &&& 0 <= at < next <= bytes.len()
            &&& count < 10
        },
    decreases 10 - count,
{
    if count < 10 && 0 <= at < bytes.len() && bytes[at] >= 0x80 {
        lemma_varint_from(bytes, at + 1, count + 1);
    }
}

/// A variable length integer fits 64 bits and ends behind its start, within
/// the bytes.
pub proof fn lemma_varint(bytes: Seq<u8>, at: int)
    ensures
        varint(bytes, at) matches Some((value, next)) ==> {
            &&& 0 <= value <= u64::MAX
            &&& 0 <= at < next <= bytes.len()
        },
{
    lemma_varint_from(bytes, at, 0);
}

/// The key at `at` and the place behind it.
pub open spec fn field_key(bytes: Seq<u8>, at: int) -> Result<(FieldKey, int), DecodeError> {
    match varint(bytes, at) {
        None => Err(DecodeError::InvalidVarint),
        Some((key, next)) => if key > u32::MAX {
            Err(DecodeError::InvalidKey)
        } else if key % 8 > 5 {
            Err(DecodeError::InvalidWireType)
        } else if key / 8 < 1 {
            Err(DecodeError::InvalidTag)
        } else {
            Ok((FieldKey { tag: (key / 8) as u32, wire_type: (key % 8) as u8 }, next))
        },
    }
}

/// A key ends behind its start, within the bytes, and names a payload type
/// that exists.
pub proof fn lemma_field_key(bytes: Seq<u8>, at: int)
    ensures
        field_key(bytes, at) matches Ok((key, next)) ==> {
            &&& 0 <= at < next <= bytes.len()
            &&& key.wire_type <= 5
            &&& key.tag >= 1
        },
{
    lemma_varint(bytes, at);
}

/// The number of bytes from `at` on.
pub open spec fn left(bytes: Seq<u8>, at: int) -> nat {
    if 0 <= at <= bytes.len() {
        (bytes.len() - at) as nat
    } else {
        0
    }
}

/// The length of a payload of `length` bytes at `at`, where the bytes hold
/// it.
pub open spec fn payload(bytes: Seq<u8>, at: int, length: int) -> Result<nat, DecodeError> {
    if length > bytes.len() - at {
        Err(DecodeError::BufferUnderflow)
    } else {
        Ok(length as nat)
    }
}

/// The length of the payload at `at` of a field with the key `key` that the
/// message does not know. `budget` is the depth to which groups may still
/// nest.
pub open spec fn skip_field(bytes: Seq<u8>, at: int, key: FieldKey, budget: nat) -> Result<
    nat,
    DecodeError,
>
    decreases left(bytes, at), 1nat,
{
    if budget == 0 {
        Err(DecodeError::RecursionLimitReached)
    } else if key.wire_type == VARINT {
        match varint(bytes, at) {
            None => Err(DecodeError::InvalidVarint),
            Some((_, next)) => Ok((next - at) as nat),
        }
    } else if key.wire_type == THIRTY_TWO_BIT {
        payload(bytes, at, 4)
    } else if key.wire_type == SIXTY_FOUR_BIT {
        payload(bytes, at, 8)
    } else if key.wire_type == LENGTH_DELIMITED {
        match varint(bytes, at) {
            None => Err(DecodeError::InvalidVarint),
            Some((length, next)) => match payload(bytes, next, length) {
                Err(error) => Err(error),
                Ok(length) => Ok((next - at + length) as nat),
            },
        }
    } else if key.wire_type == START_GROUP {
        skip_group(bytes, at, key.tag, budget)
    } else {
        Err(DecodeError::UnexpectedEndGroup)
    }
}

/// The length of the group of the field `tag` whose fields begin at `at`, up
/// to and with the key that ends it.
pub open spec fn skip_group(bytes: Seq<u8>, at: int, tag: u32, budget: nat) -> Result<
    nat,
    DecodeError,
>
    decreases left(bytes, at), 0nat,
{
    match field_key(bytes, at) {
        Err(error) => Err(error),
        Ok((inner, next)) => {
            proof {
                lemma_field_key(bytes, at);
            }
            if inner.wire_type == END_GROUP {
                if inner.tag != tag {
                    Err(DecodeError::UnexpectedEndGroup)
                } else {
                    Ok((next - at) as nat)
                }
            } else if budget == 0 {
                Err(DecodeError::RecursionLimitReached)
            } else {
                match skip_field(bytes, next, inner, (budget - 1) as nat) {
                    Err(error) => Err(error),
                    Ok(field) => match skip_group(bytes, next + field, tag, budget) {
                        Err(error) => Err(error),
                        Ok(rest) => Ok((next - at + field + rest) as nat),
                    },
                }
            }
        },
    }
}

/// A field that is stepped over ends within the bytes.
pub proof fn lemma_skip_field(bytes: Seq<u8>, at: int, key: FieldKey, budget: nat)
    requires
        0 <= at <= bytes.len(),
    ensures
        skip_field(bytes, at, key, budget) matches Ok(length) ==> at + length <= bytes.len(),
    decreases bytes.len() - at, 1nat,
{
    lemma_varint(bytes, at);
    if budget > 0 && key.wire_type == START_GROUP {
        lemma_skip_group(bytes, at, key.tag, budget);
    }
}

/// A group that is stepped over is not empty and ends within the bytes.
pub proof fn lemma_skip_group(bytes: Seq<u8>, at: int, tag: u32, budget: nat)
    requires
        0 <= at <= bytes.len(),
    ensures
        skip_group(bytes, at, tag, budget) matches Ok(length) ==> 0 < length && at + length
            <= bytes.len(),
    decreases bytes.len() - at, 0nat,
{
    lemma_field_key(bytes, at);
    match field_key(bytes, at) {
        Err(_) => {},
        Ok((inner, next)) => {
            if inner.wire_type != END_GROUP && budget > 0 {
                lemma_skip_field(bytes, next, inner, (budget - 1) as nat);
                match skip_field(bytes, next, inner, (budget - 1) as nat) {
                    Err(_) => {},
                    Ok(field) => {
                        lemma_skip_group(bytes, next + field, tag, budget);
                    },
                }
            }
        },
    }
}

/// Reads the variable length integer whose byte `count` stands at `at`.
fn decode_varint_from(bytes: &[u8], at: usize, count: u8) -> (result: Option<(u64, usize)>)
    requires
        at <= bytes@.len(),
    ensures
        match result {
            Some((value, next)) => varint_from(bytes@, at as int, count as nat) == Some(
                (value as int, next as int),
            ),
            None => varint_from(bytes@, at as int, count as nat) is None,
        },
    decreases 10 - count,
{
    if count >= 10 || at >= bytes.len() {
        return None;
    }
    let byte = bytes[at];
    if byte < 0x80 {
        if count == 9 && byte >= 2 {
            None
        } else {
            Some((byte as u64, at + 1))
        }
    } else {
        match decode_varint_from(bytes, at + 1, count + 1) {
            Some((rest, next)) => {
                proof {
                    lemma_varint_from(bytes@, at + 1, (count + 1) as nat);
                }
                Some(((byte - 0x80) as u64 + 128 * rest, next))
            },
            None => None,
        }
    }
}

/// Reads the variable length integer at `at`: its value and the place behind
/// it.
pub fn decode_varint(bytes: &[u8], at: usize) -> (result: Result<(u64, usize), DecodeError>)
    requires
        at <= bytes@.len(),
    ensures
        match result {
            Ok((value, next)) => varint(bytes@, at as int) == Some((value as int, next as int)),
            Err(error) => varint(bytes@, at as int) is None && error
                == DecodeError::InvalidVarint,
        },
{
    match decode_varint_from(bytes, at, 0) {
        Some(found) => Ok(found),
        None => Err(DecodeError::InvalidVarint),
    }
}

/// Reads the key at `at`: the key and the place behind it.
pub fn decode_key(bytes: &[u8], at: usize) -> (result: Result<(FieldKey, usize), DecodeError>)
    requires
        at <= bytes@.len(),
    ensures
        match result {
            Ok((key, next)) => field_key(bytes@, at as int) == Ok::<
                (FieldKey, int),
                DecodeError,
            >((key, next as int)),
            Err(error) => field_key(bytes@, at as int) == Err::<(FieldKey, int), DecodeError>(
                error,
            ),
        },
{
    match decode_varint(bytes, at) {
        Err(error) => Err(error),
        Ok((key, next)) => {
            if key > u32::MAX as u64 {
                Err(DecodeError::InvalidKey)
            } else if key % 8 > 5 {
                Err(DecodeError::InvalidWireType)
            } else if key / 8 < 1 {
                Err(DecodeError::InvalidTag)
            } else {
                Ok((FieldKey { tag: (key / 8) as u32, wire_type: (key % 8) as u8 }, next))
            }
        },
    }
}

/// The place behind a payload of `length` bytes at `at`.
pub fn advance_by(bytes: &[u8], at: usize, length: u64) -> (result: Result<usize, DecodeError>)
    requires
        at <= bytes@.len(),
    ensures
        match result {
            Ok(next) => payload(bytes@, at as int, length as int) == Ok::<nat, DecodeError>(
                length as nat,
            ) && next == at + length,
            Err(error) => payload(bytes@, at as int, length as int) == Err::<nat, DecodeError>(
                error,
            ),
        },
{
    let left = bytes.len() - at;
    if length > left as u64 {
        Err(DecodeError::BufferUnderflow)
    } else {
        Ok(at + length as usize)
    }
}

/// A length counted from `offset` bytes earlier.
pub open spec fn shifted(length: Result<nat, DecodeError>, offset: int) -> Result<
    nat,
    DecodeError,
> {
    match length {
        Ok(length) => Ok((offset + length) as nat),
        Err(error) => Err(error),
    }
}

/// Steps over the payload at `at` of a field with the key `key` that the
/// message does not know: hands out the place behind it.
pub fn skip(bytes: &[u8], at: usize, key: FieldKey, budget: u32) -> (result: Result<
    usize,
    DecodeError,
>)
    requires
        at <= bytes@.len(),
    ensures
        match result {
            Ok(next) => at <= next <= bytes@.len() && skip_field(
                bytes@,
                at as int,
                key,
                budget as nat,
            ) == Ok::<nat, DecodeError>((next - at) as nat),
            Err(error) => skip_field(bytes@, at as int, key, budget as nat) == Err::<
                nat,
                DecodeError,
            >(error),
        },
    decreases budget, 1nat,
{
    proof {
        lemma_varint(bytes@, at as int);
    }
    if budget == 0 {
        Err(DecodeError::RecursionLimitReached)
    } else if key.wire_type == VARINT {
        match decode_varint(bytes, at) {
            Err(error) => Err(error),
            Ok((_, next)) => Ok(next),
        }
    } else if key.wire_type == THIRTY_TWO_BIT {
        advance_by(bytes, at, 4)
    } else if key.wire_type == SIXTY_FOUR_BIT {
        advance_by(bytes, at, 8)
    } else if key.wire_type == LENGTH_DELIMITED {
        match decode_varint(bytes, at) {
            Err(error) => Err(error),
            Ok((length, next)) => advance_by(bytes, next, length),
        }
    } else if key.wire_type == START_GROUP {
        skip_to_end_of_group(bytes, at, key.tag, budget)
    } else {
        Err(DecodeError::UnexpectedEndGroup)
    }
}

/// Steps over the group of the field `tag` whose fields begin at `at`: hands
/// out the place behind the key that ends it.
pub fn skip_to_end_of_group(bytes: &[u8], at: usize, tag: u32, budget: u32) -> (result: Result<
    usize,
    DecodeError,
>)
    requires
        at <= bytes@.len(),
    ensures
        match result {
            Ok(next) => at <= next <= bytes@.len() && skip_group(
                bytes@,
                at as int,
                tag,
                budget as nat,
            ) == Ok::<nat, DecodeError>((next - at) as nat),
            Err(error) => skip_group(bytes@, at as int, tag, budget as nat) == Err::<
                nat,
                DecodeError,
            >(error),
        },
    decreases budget, 0nat,
{
    let mut place = at;
    loop
        invariant
            at <= place <= bytes@.len(),
            skip_group(bytes@, at as int, tag, budget as nat) == shifted(
                skip_group(bytes@, place as int, tag, budget as nat),
                place - at,
            ),
        decreases bytes@.len() - place,
    {
        proof {
            lemma_field_key(bytes@, place as int);
        }
        match decode_key(bytes, place) {
            Err(error) => {
                return Err(error);
            },
            Ok((inner, next)) => {
                if inner.wire_type == END_GROUP {
                    if inner.tag != tag {
                        return Err(DecodeError::UnexpectedEndGroup);
                    } else {
                        return Ok(next);
                    }
                } else if budget == 0 {
                    return Err(DecodeError::RecursionLimitReached);
                } else {
                    match skip(bytes, next, inner, budget - 1) {
                        Err(error) => {
                            return Err(error);
                        },
                        Ok(after) => {
                            place = after;
                        },
                    }
                }
            },
        }
    }
}

} // verus!
