//! Transactions and the bytes that they travel in.
//!
//! A transaction is a message of three fields: the code to run (field 1, a
//! run of bytes), the data for the code (field 2, a run of bytes, optional)
//! and the time at which the transaction was made (field 3, a message of the
//! seconds since the Unix epoch, field 1, and the nanoseconds past the second,
//! field 2, both variable length integers). Fields may come in any order and
//! more than once: of two runs of bytes the later one counts, and a later
//! timestamp overrides the fields of an earlier one that it names. Fields
//! with other numbers are stepped over.

use vstd::prelude::*;
use vstd::slice::{slice_subrange, slice_to_vec};
use crate::time::{DateTimeUtc, NANOS_PER_SECOND};
use crate::wire::{
    DecodeError, FieldKey, LENGTH_DELIMITED, RECURSION_LIMIT, VARINT, advance_by, decode_key,
    decode_varint, field_key, left, lemma_field_key, lemma_skip_field, lemma_varint, payload, skip,
    skip_field, varint,
};

verus! {

/// A timestamp as a message carries it.
#[derive(Clone, Copy, Debug, PartialEq, Eq, Structural)]
pub struct Timestamp {
    /// The seconds since the Unix epoch.
    pub seconds: i64,
    /// The nanoseconds past the second.
    pub nanos: i32,
}

/// A decoded transaction.
#[derive(Debug)]
pub struct Tx {
    /// The code to run.
    pub code: Vec<u8>,
    /// The data for the code.
    pub data: Option<Vec<u8>>,
    /// The time at which the transaction was made.
    pub timestamp: DateTimeUtc,
}

/// The fields of a transaction as far as a message has given them.
pub struct TxFields {
    pub code: Seq<u8>,
    pub data: Option<Seq<u8>>,
    pub timestamp: Option<Timestamp>,
}

/// What a `Tx` holds.
pub struct TxView {
    pub code: Seq<u8>,
    pub data: Option<Seq<u8>>,
    pub seconds: i64,
    pub nanos: u32,
}

impl View for Tx {
    type V = TxView;

    open spec fn view(&self) -> TxView {
        TxView {
            code: self.code@,
            data: match self.data {
                Some(data) => Some(data@),
                None => None,
            },
            seconds: self.timestamp.spec_seconds(),
            nanos: self.timestamp.spec_nanos(),
        }
    }
}

/// The 64 bits of `value` read as a signed number.
pub open spec fn as_signed_64(value: int) -> i64 {
    if value <= i64::MAX {
        value as i64
    } else {
        (value - 0x1_0000_0000_0000_0000) as i64
    }
}

/// The low 32 bits of `value` read as a signed number.
pub open spec fn as_signed_32(value: int) -> i32 {
    if value % 0x1_0000_0000 <= i32::MAX {
        (value % 0x1_0000_0000) as i32
    } else {
        (value % 0x1_0000_0000 - 0x1_0000_0000) as i32
    }
}

/// The timestamp `timestamp` after the field with the key `key`, whose
/// payload stands at `at`, and the place behind that payload.
pub open spec fn timestamp_field(bytes: Seq<u8>, at: int, key: FieldKey, timestamp: Timestamp)
    -> Result<(Timestamp, int), DecodeError> {
    if key.tag == 1 || key.tag == 2 {
        if key.wire_type != VARINT {
            Err(DecodeError::UnexpectedWireType)
        } else {
            match varint(bytes, at) {
                None => Err(DecodeError::InvalidVarint),
                Some((value, next)) => if key.tag == 1 {
                    Ok((Timestamp { seconds: as_signed_64(value), ..timestamp }, next))
                } else {
                    Ok((Timestamp { nanos: as_signed_32(value), ..timestamp }, next))
                },
            }
        }
    } else {
        match skip_field(bytes, at, key, (RECURSION_LIMIT - 1) as nat) {
            Err(error) => Err(error),
            Ok(length) => Ok((timestamp, at + length)),
        }
    }
}

/// A field of a timestamp ends at or behind its start, within the bytes.
pub proof fn lemma_timestamp_field(bytes: Seq<u8>, at: int, key: FieldKey, timestamp: Timestamp)
    requires
        0 <= at <= bytes.len(),
    ensures
        timestamp_field(bytes, at, key, timestamp) matches Ok((_, next)) ==> at <= next
            <= bytes.len(),
{
    lemma_varint(bytes, at);
    lemma_skip_field(bytes, at, key, (RECURSION_LIMIT - 1) as nat);
}

/// The timestamp `timestamp` after the field whose key stands at `at`, and
/// the place behind that field.
#[verifier::opaque]
pub open spec fn timestamp_step(bytes: Seq<u8>, at: int, timestamp: Timestamp) -> Result<
    (Timestamp, int),
    DecodeError,
> {
    match field_key(bytes, at) {
        Err(error) => Err(error),
        Ok((key, next)) => timestamp_field(bytes, next, key, timestamp),
    }
}

/// A field of a timestamp ends behind the start of its key, within the
/// bytes.
pub proof fn lemma_timestamp_step(bytes: Seq<u8>, at: int, timestamp: Timestamp)
    ensures
        timestamp_step(bytes, at, timestamp) matches Ok((_, next)) ==> 0 <= at < next
            <= bytes.len(),
{
    reveal(timestamp_step);
    lemma_field_key(bytes, at);
    match field_key(bytes, at) {
        Err(_) => {},
        Ok((key, next)) => {
            lemma_timestamp_field(bytes, next, key, timestamp);
        },
    }
}

/// The timestamp `timestamp` after the fields from `at` up to `limit`. The
/// fields must end at `limit` exactly.
pub open spec fn timestamp_fields(bytes: Seq<u8>, at: int, limit: int, timestamp: Timestamp)
    -> Result<Timestamp, DecodeError>
    decreases left(bytes, at),
{
    if at >= limit {
        if at == limit {
            Ok(timestamp)
        } else {
            Err(DecodeError::DelimitedLengthExceeded)
        }
    } else {
        match timestamp_step(bytes, at, timestamp) {
            Err(error) => Err(error),
            Ok((later, after)) => {
                proof {
                    lemma_timestamp_step(bytes, at, timestamp);
                }
                timestamp_fields(bytes, after, limit, later)
            },
        }
    }
}

/// The run of bytes that is the payload at `at` of the field with the key
/// `key`, and the place behind it.
pub open spec fn bytes_field(bytes: Seq<u8>, at: int, key: FieldKey) -> Result<
    (Seq<u8>, int),
    DecodeError,
> {
    if key.wire_type != LENGTH_DELIMITED {
        Err(DecodeError::UnexpectedWireType)
    } else {
        match varint(bytes, at) {
            None => Err(DecodeError::InvalidVarint),
            Some((length, next)) => match payload(bytes, next, length) {
                Err(error) => Err(error),
                Ok(length) => Ok((bytes.subrange(next, next + length), next + length)),
            },
        }
    }
}

/// The timestamp `earlier`, or the one of zero seconds where there is none,
/// after the fields of the message that is the payload at `at` of the field
/// with the key `key`, and the place behind that payload.
pub open spec fn timestamp_message(
    bytes: Seq<u8>,
    at: int,
    key: FieldKey,
    earlier: Option<Timestamp>,
) -> Result<(Timestamp, int), DecodeError> {
    if key.wire_type != LENGTH_DELIMITED {
        Err(DecodeError::UnexpectedWireType)
    } else {
        match varint(bytes, at) {
            None => Err(DecodeError::InvalidVarint),
            Some((length, next)) => match payload(bytes, next, length) {
                Err(error) => Err(error),
                Ok(length) => match timestamp_fields(
                    bytes,
                    next,
                    next + length,
                    match earlier {
                        Some(timestamp) => timestamp,
                        None => Timestamp { seconds: 0, nanos: 0 },
                    },
                ) {
                    Err(error) => Err(error),
                    Ok(timestamp) => Ok((timestamp, next + length)),
                },
            },
        }
    }
}

/// The fields `fields` after the field with the key `key`, whose payload
/// stands at `at`, and the place behind that payload.
pub open spec fn tx_field(bytes: Seq<u8>, at: int, key: FieldKey, fields: TxFields) -> Result<
    (TxFields, int),
    DecodeError,
> {
    if key.tag == 1 {
        match bytes_field(bytes, at, key) {
            Err(error) => Err(error),
            Ok((code, next)) => Ok((TxFields { code, ..fields }, next)),
        }
    } else if key.tag == 2 {
        match bytes_field(bytes, at, key) {
            Err(error) => Err(error),
            Ok((data, next)) => Ok((TxFields { data: Some(data), ..fields }, next)),
        }
    } else if key.tag == 3 {
        match timestamp_message(bytes, at, key, fields.timestamp) {
            Err(error) => Err(error),
            Ok((timestamp, next)) => Ok((TxFields { timestamp: Some(timestamp), ..fields }, next)),
        }
    } else {
        match skip_field(bytes, at, key, RECURSION_LIMIT as nat) {
            Err(error) => Err(error),
            Ok(length) => Ok((fields, at + length)),
        }
    }
}

/// A field of a transaction ends at or behind its start, within the bytes.
pub proof fn lemma_tx_field(bytes: Seq<u8>, at: int, key: FieldKey, fields: TxFields)
    requires
        0 <= at <= bytes.len(),
    ensures
        tx_field(bytes, at, key, fields) matches Ok((_, next)) ==> at <= next <= bytes.len(),
{
    lemma_varint(bytes, at);
    lemma_skip_field(bytes, at, key, RECURSION_LIMIT as nat);
}

/// The fields `fields` after the field whose key stands at `at`, and the
/// place behind that field.
#[verifier::opaque]
pub open spec fn tx_step(bytes: Seq<u8>, at: int, fields: TxFields) -> Result<
    (TxFields, int),
    DecodeError,
> {
    match field_key(bytes, at) {
        Err(error) => Err(error),
        Ok((key, next)) => tx_field(bytes, next, key, fields),
    }
}

/// A field of a transaction ends behind the start of its key, within the
/// bytes.
pub proof fn lemma_tx_step(bytes: Seq<u8>, at: int, fields: TxFields)
    ensures
        tx_step(bytes, at, fields) matches Ok((_, next)) ==> 0 <= at < next <= bytes.len(),
{
    reveal(tx_step);
    lemma_field_key(bytes, at);
    match field_key(bytes, at) {
        Err(_) => {},
        Ok((key, next)) => {
            lemma_tx_field(bytes, next, key, fields);
        },
    }
}

/// The fields `fields` after the fields from `at` to the end of the bytes.
pub open spec fn tx_fields(bytes: Seq<u8>, at: int, fields: TxFields) -> Result<
    TxFields,
    DecodeError,
>
    decreases left(bytes, at),
{
    if at >= bytes.len() {
        Ok(fields)
    } else {
        match tx_step(bytes, at, fields) {
            Err(error) => Err(error),
            Ok((later, after)) => {
                proof {
                    lemma_tx_step(bytes, at, fields);
                }
                tx_fields(bytes, after, later)
            },
        }
    }
}

/// The transaction that the fields `fields` make up: it must have a
/// timestamp, with nanoseconds from zero to less than a second.
pub open spec fn tx_of(fields: TxFields) -> Result<TxView, DecodeError> {
    match fields.timestamp {
        None => Err(DecodeError::NoTimestamp),
        Some(timestamp) => if 0 <= timestamp.nanos < NANOS_PER_SECOND {
            Ok(
                TxView {
                    code: fields.code,
                    data: fields.data,
                    seconds: timestamp.seconds,
                    nanos: timestamp.nanos as u32,
                },
            )
        } else {
            Err(DecodeError::InvalidTimestamp)
        },
    }
}

/// The transaction that the bytes `bytes` hold, or why they hold none.
pub open spec fn parse_tx(bytes: Seq<u8>) -> Result<TxView, DecodeError> {
    match tx_fields(bytes, 0, TxFields { code: Seq::empty(), data: None, timestamp: None }) {
        Err(error) => Err(error),
        Ok(fields) => tx_of(fields),
    }
}

/// The 64 bits of `value` read as a signed number.
fn to_signed_64(value: u64) -> (signed: i64)
    ensures
        signed == as_signed_64(value as int),
{
    if value <= i64::MAX as u64 {
        value as i64
    } else {
        (value as i128 - 0x1_0000_0000_0000_0000i128) as i64
    }
}

/// The low 32 bits of `value` read as a signed number.
fn to_signed_32(value: u64) -> (signed: i32)
    ensures
        signed == as_signed_32(value as int),
{
    let low = value % 0x1_0000_0000;
    if low <= i32::MAX as u64 {
        low as i32
    } else {
        (low as i64 - 0x1_0000_0000i64) as i32
    }
}

/// Reads one field of a timestamp.
fn decode_timestamp_field(bytes: &[u8], at: usize, key: FieldKey, timestamp: Timestamp) -> (result:
    Result<(Timestamp, usize), DecodeError>)
    requires
        at <= bytes@.len(),
    ensures
        match result {
            Ok((later, next)) => at <= next <= bytes@.len() && timestamp_field(
                bytes@,
                at as int,
                key,
                timestamp,
            ) == Ok::<(Timestamp, int), DecodeError>((later, next as int)),
            Err(error) => timestamp_field(bytes@, at as int, key, timestamp) == Err::<
                (Timestamp, int),
                DecodeError,
            >(error),
        },
{
    proof {
        lemma_varint(bytes@, at as int);
    }
    if key.tag == 1 || key.tag == 2 {
        if key.wire_type != VARINT {
            return Err(DecodeError::UnexpectedWireType);
        }
        match decode_varint(bytes, at) {
            Err(error) => Err(error),
            Ok((value, next)) => {
                if key.tag == 1 {
                    Ok((Timestamp { seconds: to_signed_64(value), nanos: timestamp.nanos }, next))
                } else {
                    Ok((Timestamp { seconds: timestamp.seconds, nanos: to_signed_32(value) }, next))
                }
            },
        }
    } else {
        match skip(bytes, at, key, RECURSION_LIMIT - 1) {
            Err(error) => Err(error),
            Ok(next) => Ok((timestamp, next)),
        }
    }
}

/// Reads the field of a timestamp whose key stands at `at`.
fn decode_timestamp_step(bytes: &[u8], at: usize, timestamp: Timestamp) -> (result: Result<
    (Timestamp, usize),
    DecodeError,
>)
    requires
        at <= bytes@.len(),
    ensures
        match result {
            Ok((later, next)) => at < next <= bytes@.len() && timestamp_step(
                bytes@,
                at as int,
                timestamp,
            ) == Ok::<(Timestamp, int), DecodeError>((later, next as int)),
            Err(error) => timestamp_step(bytes@, at as int, timestamp) == Err::<
                (Timestamp, int),
                DecodeError,
            >(error),
        },
{
    proof {
        reveal(timestamp_step);
        lemma_field_key(bytes@, at as int);
    }
    match decode_key(bytes, at) {
        Err(error) => Err(error),
        Ok((key, next)) => decode_timestamp_field(bytes, next, key, timestamp),
    }
}

/// Reads the fields of a timestamp from `at` up to `limit`.
fn decode_timestamp_fields(bytes: &[u8], at: usize, limit: usize, timestamp: Timestamp) -> (result:
    Result<Timestamp, DecodeError>)
    requires
        at <= bytes@.len(),
    ensures
        match result {
            Ok(later) => timestamp_fields(bytes@, at as int, limit as int, timestamp) == Ok::<
                Timestamp,
                DecodeError,
            >(later),
            Err(error) => timestamp_fields(bytes@, at as int, limit as int, timestamp) == Err::<
                Timestamp,
                DecodeError,
            >(error),
        },
{
    let mut place = at;
    let mut current = timestamp;
    while place < limit
        invariant
            place <= bytes@.len(),
            timestamp_fields(bytes@, place as int, limit as int, current) == timestamp_fields(
                bytes@,
                at as int,
                limit as int,
                timestamp,
            ),
        decreases bytes@.len() - place,
    {
        match decode_timestamp_step(bytes, place, current) {
            Err(error) => {
                return Err(error);
            },
            Ok((later, after)) => {
                place = after;
                current = later;
            },
        }
    }
    if place == limit {
        Ok(current)
    } else {
        Err(DecodeError::DelimitedLengthExceeded)
    }
}

/// Reads a run of bytes that is the payload of a field.
fn decode_bytes(bytes: &[u8], at: usize, key: FieldKey) -> (result: Result<
    (Vec<u8>, usize),
    DecodeError,
>)
    requires
        at <= bytes@.len(),
    ensures
        match result {
            Ok((run, next)) => at <= next <= bytes@.len() && bytes_field(bytes@, at as int, key)
                == Ok::<(Seq<u8>, int), DecodeError>((run@, next as int)),
            Err(error) => bytes_field(bytes@, at as int, key) == Err::<
                (Seq<u8>, int),
                DecodeError,
            >(error),
        },
{
    proof {
        lemma_varint(bytes@, at as int);
    }
    if key.wire_type != LENGTH_DELIMITED {
        return Err(DecodeError::UnexpectedWireType);
    }
    match decode_varint(bytes, at) {
        Err(error) => Err(error),
        Ok((length, next)) => match advance_by(bytes, next, length) {
            Err(error) => Err(error),
            Ok(end) => Ok((slice_to_vec(slice_subrange(bytes, next, end)), end)),
        },
    }
}

/// Reads a timestamp that is the payload of a field, over the timestamp
/// `earlier` where there is one.
fn decode_timestamp(bytes: &[u8], at: usize, key: FieldKey, earlier: Option<Timestamp>) -> (result:
    Result<(Timestamp, usize), DecodeError>)
    requires
        at <= bytes@.len(),
    ensures
        match result {
            Ok((timestamp, next)) => at <= next <= bytes@.len() && timestamp_message(
                bytes@,
                at as int,
                key,
                earlier,
            ) == Ok::<(Timestamp, int), DecodeError>((timestamp, next as int)),
            Err(error) => timestamp_message(bytes@, at as int, key, earlier) == Err::<
                (Timestamp, int),
                DecodeError,
            >(error),
        },
{
    proof {
        lemma_varint(bytes@, at as int);
    }
    if key.wire_type != LENGTH_DELIMITED {
        return Err(DecodeError::UnexpectedWireType);
    }
    match decode_varint(bytes, at) {
        Err(error) => Err(error),
        Ok((length, next)) => match advance_by(bytes, next, length) {
            Err(error) => Err(error),
            Ok(end) => {
                let start = match earlier {
                    Some(timestamp) => timestamp,
                    None => Timestamp { seconds: 0, nanos: 0 },
                };
                match decode_timestamp_fields(bytes, next, end, start) {
                    Err(error) => Err(error),
                    Ok(timestamp) => Ok((timestamp, end)),
                }
            },
        }
    }
}

/// The fields of a transaction as far as they were read.
struct Partial {
    code: Vec<u8>,
    data: Option<Vec<u8>>,
    timestamp: Option<Timestamp>,
}

impl View for Partial {
    type V = TxFields;

    closed spec fn view(&self) -> TxFields {
        TxFields {
            code: self.code@,
            data: match self.data {
                Some(data) => Some(data@),
                None => None,
            },
            timestamp: self.timestamp,
        }
    }
}

/// Reads one field of a transaction.
fn decode_tx_field(bytes: &[u8], at: usize, key: FieldKey, fields: Partial) -> (result: Result<
    (Partial, usize),
    DecodeError,
>)
    requires
        at <= bytes@.len(),
    ensures
        match result {
            Ok((later, next)) => at <= next <= bytes@.len() && tx_field(
                bytes@,
                at as int,
                key,
                fields@,
            ) == Ok::<(TxFields, int), DecodeError>((later@, next as int)),
            Err(error) => tx_field(bytes@, at as int, key, fields@) == Err::<
                (TxFields, int),
                DecodeError,
            >(error),
        },
{
    if key.tag == 1 {
        match decode_bytes(bytes, at, key) {
            Err(error) => Err(error),
            Ok((code, next)) => Ok(
                (Partial { code, data: fields.data, timestamp: fields.timestamp }, next),
            ),
        }
    } else if key.tag == 2 {
        match decode_bytes(bytes, at, key) {
            Err(error) => Err(error),
            Ok((data, next)) => Ok(
                (Partial { code: fields.code, data: Some(data), timestamp: fields.timestamp }, next),
            ),
        }
    } else if key.tag == 3 {
        match decode_timestamp(bytes, at, key, fields.timestamp) {
            Err(error) => Err(error),
            Ok((timestamp, next)) => Ok(
                (Partial { code: fields.code, data: fields.data, timestamp: Some(timestamp) }, next),
            ),
        }
    } else {
        match skip(bytes, at, key, RECURSION_LIMIT) {
            Err(error) => Err(error),
            Ok(next) => Ok((fields, next)),
        }
    }
}

/// Reads the field of a transaction whose key stands at `at`.
fn decode_tx_step(bytes: &[u8], at: usize, fields: Partial) -> (result: Result<
    (Partial, usize),
    DecodeError,
>)
    requires
        at <= bytes@.len(),
    ensures
        match result {
            Ok((later, next)) => at < next <= bytes@.len() && tx_step(bytes@, at as int, fields@)
                == Ok::<(TxFields, int), DecodeError>((later@, next as int)),
            Err(error) => tx_step(bytes@, at as int, fields@) == Err::<
                (TxFields, int),
                DecodeError,
            >(error),
        },
{
    proof {
        reveal(tx_step);
        lemma_field_key(bytes@, at as int);
    }
    match decode_key(bytes, at) {
        Err(error) => Err(error),
        Ok((key, next)) => decode_tx_field(bytes, next, key, fields),
    }
}

/// Reads the fields of a transaction from `at` to the end of the bytes.
fn decode_tx_fields(bytes: &[u8], at: usize, fields: Partial) -> (result: Result<
    Partial,
    DecodeError,
>)
    requires
        at <= bytes@.len(),
    ensures
        match result {
            Ok(later) => tx_fields(bytes@, at as int, fields@) == Ok::<TxFields, DecodeError>(
                later@,
            ),
            Err(error) => tx_fields(bytes@, at as int, fields@) == Err::<TxFields, DecodeError>(
                error,
            ),
        },
{
    let ghost whole = tx_fields(bytes@, at as int, fields@);
    let mut place = at;
    let mut current = fields;
    while place < bytes.len()
        invariant
            place <= bytes@.len(),
            whole == tx_fields(bytes@, at as int, fields@),
            tx_fields(bytes@, place as int, current@) == whole,
        decreases bytes@.len() - place,
    {
        match decode_tx_step(bytes, place, current) {
            Err(error) => {
                return Err(error);
            },
            Ok((later, after)) => {
                place = after;
                current = later;
            },
        }
    }
    Ok(current)
}

impl Tx {
    /// Decodes a transaction from `bytes`.
    pub fn try_from(bytes: &[u8]) -> (result: Result<Tx, DecodeError>)
        ensures
            match result {
                Ok(tx) => parse_tx(bytes@) == Ok::<TxView, DecodeError>(tx@),
                Err(error) => parse_tx(bytes@) == Err::<TxView, DecodeError>(error),
            },
    {
        let start = Partial { code: Vec::new(), data: None, timestamp: None };
        match decode_tx_fields(bytes, 0, start) {
            Err(error) => Err(error),
            Ok(fields) => match fields.timestamp {
                None => Err(DecodeError::NoTimestamp),
                Some(timestamp) => {
                    if timestamp.nanos < 0 {
                        return Err(DecodeError::InvalidTimestamp);
                    }
                    match DateTimeUtc::new(timestamp.seconds, timestamp.nanos as u32) {
                        None => Err(DecodeError::InvalidTimestamp),
                        Some(time) => Ok(Tx { code: fields.code, data: fields.data, timestamp: time }),
                    }
                },
            },
        }
    }
}

} // verus!
