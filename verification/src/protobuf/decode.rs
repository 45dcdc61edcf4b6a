//! Bytes to messages.

use crate::protobuf::varint::{
    lemma_varint_round_trip, read_varint, read_varint_at, tail, varint, VarintError,
};
use crate::protobuf::wire::{
    fields_view, from_le32, from_le64, lemma_le32_round_trip, lemma_le64_round_trip, message_wire,
    Field, FieldView, Value, ValueView, MAX_FIELD_NUMBER,
};
use vstd::prelude::*;

verus! {

/// Why bytes are not a message.
#[derive(Debug, Clone, Copy, PartialEq, Eq, Structural)]
pub enum DecodeError {
    /// The bytes end in the middle of a field.
    UnexpectedEof,
    /// A number takes more than ten bytes or more than 64 bits.
    VarintOverflow,
    /// A tag names a wire type that does not exist.
    InvalidWireType(u8),
    /// A tag names a field number that no message may use.
    InvalidFieldNumber,
    /// The bytes are a message, but not one of the type that was asked for.
    Unexpected,
}

/// A type that can be read from the bytes of a message.
pub trait DecodeMessage: Sized {
    fn parse_from_bytes(bytes: &[u8]) -> Result<Self, DecodeError>;
}

/// The error of a number that could not be read.
pub open spec fn spec_varint_error(e: VarintError) -> DecodeError {
    match e {
        VarintError::UnexpectedEof => DecodeError::UnexpectedEof,
        VarintError::Overflow => DecodeError::VarintOverflow,
    }
}

/// The error of a number that could not be read.
#[verifier::when_used_as_spec(spec_varint_error)]
pub fn varint_error(e: VarintError) -> (error: DecodeError)
    ensures
        error == spec_varint_error(e),
{
    match e {
        VarintError::UnexpectedEof => DecodeError::UnexpectedEof,
        VarintError::Overflow => DecodeError::VarintOverflow,
    }
}

/// The value of wire type `wire_type` that `bytes` start with, and how many
/// bytes it takes.
pub open spec fn parse_value(wire_type: u8, bytes: Seq<u8>) -> Result<(ValueView, nat), DecodeError> {
    if wire_type == 0 {
        match read_varint(bytes) {
            Ok((v, n)) => Ok((ValueView::Varint(v), n)),
            Err(e) => Err(spec_varint_error(e)),
        }
    } else if wire_type == 1 {
        if bytes.len() < 8 {
            Err(DecodeError::UnexpectedEof)
        } else {
            Ok((ValueView::Fixed64(from_le64(bytes)), 8))
        }
    } else if wire_type == 2 {
        match read_varint(bytes) {
            Ok((len, n)) => if bytes.len() - n < len {
                Err(DecodeError::UnexpectedEof)
            } else {
                Ok((ValueView::Bytes(bytes.subrange(n as int, n + len)), (n + len) as nat))
            },
            Err(e) => Err(spec_varint_error(e)),
        }
    } else if wire_type == 5 {
        if bytes.len() < 4 {
            Err(DecodeError::UnexpectedEof)
        } else {
            Ok((ValueView::Fixed32(from_le32(bytes)), 4))
        }
    } else {
        Err(DecodeError::InvalidWireType(wire_type))
    }
}

/// The field that `bytes` start with, and how many bytes it takes.
pub open spec fn parse_field(bytes: Seq<u8>) -> Result<(FieldView, nat), DecodeError> {
    match read_varint(bytes) {
        Err(e) => Err(spec_varint_error(e)),
        Ok((tag, n)) => if tag / 8 < 1 || tag / 8 > MAX_FIELD_NUMBER {
            Err(DecodeError::InvalidFieldNumber)
        } else {
            match parse_value((tag % 8) as u8, bytes.skip(n as int)) {
                Err(e) => Err(e),
                Ok((value, m)) => Ok((FieldView { number: (tag / 8) as u32, value }, n + m)),
            }
        },
    }
}

/// The fields that `bytes` consist of, in their order.
pub open spec fn parse_message(bytes: Seq<u8>) -> Result<Seq<FieldView>, DecodeError>
    decreases bytes.len(),
{
    if bytes.len() == 0 {
        Ok(Seq::empty())
    } else {
        match parse_field(bytes) {
            Err(e) => Err(e),
            Ok((field, n)) => if 0 < n <= bytes.len() {
                match parse_message(bytes.skip(n as int)) {
                    Ok(rest) => Ok(seq![field] + rest),
                    Err(e) => Err(e),
                }
            } else {
                Err(DecodeError::UnexpectedEof)
            },
        }
    }
}

fn read_le32_at(bytes: &[u8], at: usize) -> (x: u32)
    requires
        at + 4 <= bytes@.len(),
    ensures
        x == from_le32(bytes@.skip(at as int)),
{
    let b0: u32 = bytes[at] as u32;
    let b1: u32 = bytes[at + 1] as u32;
    let b2: u32 = bytes[at + 2] as u32;
    let b3: u32 = bytes[at + 3] as u32;
    b0 + b1 * 0x100 + b2 * 0x1_0000 + b3 * 0x100_0000
}

fn read_le64_at(bytes: &[u8], at: usize) -> (x: u64)
    requires
        at + 8 <= bytes@.len(),
    ensures
        x == from_le64(bytes@.skip(at as int)),
{
    let total = bytes.len();
    let low: u64 = read_le32_at(bytes, at) as u64;
    let high: u64 = read_le32_at(bytes, at + 4) as u64;
    assert(bytes@.skip(at as int).skip(4) =~= bytes@.skip(at + 4));
    low + high * 0x1_0000_0000
}

/// Copies `bytes[from..to]`.
fn copy_range(bytes: &[u8], from: usize, to: usize) -> (copy: Vec<u8>)
    requires
        from <= to <= bytes@.len(),
    ensures
        copy@ == bytes@.subrange(from as int, to as int),
{
    let mut copy: Vec<u8> = Vec::new();
    crate::packet::append_range(&mut copy, bytes, from, to);
    assert(copy@ =~= bytes@.subrange(from as int, to as int));
    copy
}

/// What was read, as a mathematical value.
pub open spec fn value_read(r: Result<(Value, usize), DecodeError>) -> Result<
    (ValueView, nat),
    DecodeError,
> {
    match r {
        Ok((value, n)) => Ok((value@, n as nat)),
        Err(e) => Err(e),
    }
}

/// What was read, as a mathematical value.
pub open spec fn field_read(r: Result<(Field, usize), DecodeError>) -> Result<
    (FieldView, nat),
    DecodeError,
> {
    match r {
        Ok((field, n)) => Ok((field@, n as nat)),
        Err(e) => Err(e),
    }
}

/// Reads a value of wire type `wire_type` from `bytes[at..]` and returns
/// it with the number of bytes it takes.
pub fn read_value_at(wire_type: u8, bytes: &[u8], at: usize) -> (r: Result<
    (Value, usize),
    DecodeError,
>)
    ensures
        value_read(r) == parse_value(wire_type, tail(bytes@, at)),
        r matches Ok((_, n)) ==> at + n <= bytes@.len(),
{
    let behind = at > bytes.len();
    let at = if behind {
        bytes.len()
    } else {
        at
    };
    let left = bytes.len() - at;
    assert(behind ==> bytes@.skip(at as int) =~= Seq::<u8>::empty());
    if wire_type == 0 {
        match read_varint_at(bytes, at) {
            Ok((v, n)) => Ok((Value::Varint(v), n)),
            Err(e) => Err(varint_error(e)),
        }
    } else if wire_type == 1 {
        if left < 8 {
            Err(DecodeError::UnexpectedEof)
        } else {
            Ok((Value::Fixed64(read_le64_at(bytes, at)), 8))
        }
    } else if wire_type == 2 {
        match read_varint_at(bytes, at) {
            Ok((len, n)) => {
                if ((left - n) as u64) < len {
                    Err(DecodeError::UnexpectedEof)
                } else {
                    let len = len as usize;
                    let copy = copy_range(bytes, at + n, at + n + len);
                    assert(bytes@.skip(at as int).subrange(n as int, n + len) =~= bytes@.subrange(
                        at + n,
                        at + n + len,
                    ));
                    Ok((Value::Bytes(copy), n + len))
                }
            },
            Err(e) => Err(varint_error(e)),
        }
    } else if wire_type == 5 {
        if left < 4 {
            Err(DecodeError::UnexpectedEof)
        } else {
            Ok((Value::Fixed32(read_le32_at(bytes, at)), 4))
        }
    } else {
        Err(DecodeError::InvalidWireType(wire_type))
    }
}

/// Reads a field from `bytes[at..]` and returns it with the number of
/// bytes it takes.
pub fn read_field_at(bytes: &[u8], at: usize) -> (r: Result<(Field, usize), DecodeError>)
    ensures
        field_read(r) == parse_field(tail(bytes@, at)),
        r matches Ok((_, n)) ==> 1 <= n && at + n <= bytes@.len(),
{
    let total = bytes.len();
    match read_varint_at(bytes, at) {
        Err(e) => Err(varint_error(e)),
        Ok((tag, n)) => {
            let number = tag / 8;
            if number < 1 || number > MAX_FIELD_NUMBER as u64 {
                return Err(DecodeError::InvalidFieldNumber);
            }
            assert(bytes@.skip(at as int).skip(n as int) =~= bytes@.skip(at + n));
            match read_value_at((tag % 8) as u8, bytes, at + n) {
                Err(e) => Err(e),
                Ok((value, m)) => Ok((Field { number: number as u32, value }, n + m)),
            }
        },
    }
}

/// Reads a message: the fields that `bytes` consist of, in their order.
pub fn decode_message(bytes: &[u8]) -> (r: Result<Vec<Field>, DecodeError>)
    ensures
        match r {
            Ok(fields) => parse_message(bytes@) == Ok::<Seq<FieldView>, DecodeError>(
                fields_view(fields@),
            ),
            Err(e) => parse_message(bytes@) == Err::<Seq<FieldView>, DecodeError>(e),
        },
{
    let mut fields: Vec<Field> = Vec::new();
    let mut at: usize = 0;
    assert(bytes@.skip(0) =~= bytes@);
    assert(fields_view(fields@) =~= Seq::<FieldView>::empty());
    while at < bytes.len()
        invariant
            at <= bytes@.len(),
            parse_message(bytes@) == match parse_message(bytes@.skip(at as int)) {
                Ok(rest) => Ok::<Seq<FieldView>, DecodeError>(fields_view(fields@) + rest),
                Err(e) => Err(e),
            },
        decreases bytes@.len() - at,
    {
        let ghost tail = bytes@.skip(at as int);
        let ghost before = fields_view(fields@);
        match read_field_at(bytes, at) {
            Err(e) => {
                return Err(e);
            },
            Ok((field, n)) => {
                proof {
                    assert(tail.skip(n as int) =~= bytes@.skip(at + n));
                    assert(fields_view(fields@.push(field)) =~= before.push(field@));
                    match parse_message(bytes@.skip(at + n)) {
                        Ok(rest) => {
                            assert(before.push(field@) + rest =~= before + (seq![field@] + rest));
                        },
                        Err(_) => {},
                    }
                }
                fields.push(field);
                at += n;
            },
        }
    }
    proof {
        assert(fields_view(fields@) + Seq::<FieldView>::empty() =~= fields_view(fields@));
    }
    Ok(fields)
}

/// Round trip of a value: reading its bytes under its wire type, whatever
/// follows them, gives the value back and takes exactly its bytes.
pub proof fn lemma_value_round_trip(value: ValueView, rest: Seq<u8>)
    requires
        value.valid(),
    ensures
        parse_value(value.wire_type(), value.wire() + rest) == Ok::<(ValueView, nat), DecodeError>(
            (value, value.wire().len()),
        ),
{
    let bytes = value.wire() + rest;
    match value {
        ValueView::Varint(v) => {
            lemma_varint_round_trip(v, rest);
        },
        ValueView::Fixed64(v) => {
            lemma_le64_round_trip(v, rest);
        },
        ValueView::Bytes(b) => {
            let n = varint(b.len()).len();
            lemma_varint_round_trip(b.len() as u64, b + rest);
            assert(bytes =~= varint(b.len()) + (b + rest));
            assert(bytes.subrange(n as int, (n + b.len()) as int) =~= b);
        },
        ValueView::Fixed32(v) => {
            lemma_le32_round_trip(v, rest);
        },
    }
}

/// Round trip of a field: reading its bytes, whatever follows them, gives
/// the field back and takes exactly its bytes.
pub proof fn lemma_field_round_trip(field: FieldView, rest: Seq<u8>)
    requires
        field.valid(),
    ensures
        field.wire().len() >= 1,
        parse_field(field.wire() + rest) == Ok::<(FieldView, nat), DecodeError>(
            (field, field.wire().len()),
        ),
{
    let bytes = field.wire() + rest;
    let tag = field.tag();
    let n = varint(tag as nat).len();
    lemma_varint_round_trip(tag, field.value.wire() + rest);
    crate::protobuf::varint::lemma_varint_len_u64(tag);
    assert(bytes =~= varint(tag as nat) + (field.value.wire() + rest));
    assert(bytes.skip(n as int) =~= field.value.wire() + rest);
    lemma_value_round_trip(field.value, rest);
    assert(tag / 8 == field.number);
    assert(tag % 8 == field.value.wire_type());
}

/// Round trip of a message: reading the bytes of valid fields gives the
/// fields back, in their order.
pub proof fn lemma_message_round_trip(fields: Seq<FieldView>)
    requires
        forall|i: int| 0 <= i < fields.len() ==> (#[trigger] fields[i]).valid(),
    ensures
        parse_message(message_wire(fields)) == Ok::<Seq<FieldView>, DecodeError>(fields),
    decreases fields.len(),
{
    if fields.len() == 0 {
        assert(fields =~= Seq::<FieldView>::empty());
    } else {
        let first = fields[0];
        let rest = fields.skip(1);
        let bytes = message_wire(fields);
        lemma_field_round_trip(first, message_wire(rest));
        assert forall|i: int| 0 <= i < rest.len() implies (#[trigger] rest[i]).valid() by {
            assert(rest[i] == fields[i + 1]);
        }
        lemma_message_round_trip(rest);
        assert(bytes.skip(first.wire().len() as int) =~= message_wire(rest));
        assert(seq![first] + rest =~= fields);
    }
}

} // verus!
