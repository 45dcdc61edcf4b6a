//! Messages to bytes.

use crate::protobuf::varint::write_varint;
use crate::protobuf::wire::{
    fields_view, le32, le64, lemma_message_wire_push, message_wire, Field, FieldView, Value,
    MAX_FIELD_NUMBER,
};
use vstd::prelude::*;

verus! {

/// Why a message has no bytes.
#[derive(Debug, Clone, Copy, PartialEq, Eq, Structural)]
pub enum EncodeError {
    /// The field at this index has a number that no message may use.
    InvalidFieldNumber(usize),
}

/// A type that can be written as the bytes of a message.
pub trait EncodeMessage {
    fn write_to_bytes(&mut self) -> Result<Vec<u8>, EncodeError>;
}

fn write_le32(x: u32, out: &mut Vec<u8>)
    ensures
        final(out)@ == old(out)@ + le32(x),
{
    out.push((x % 0x100) as u8);
    out.push(((x / 0x100) % 0x100) as u8);
    out.push(((x / 0x1_0000) % 0x100) as u8);
    out.push((x / 0x100_0000) as u8);
    assert(out@ =~= old(out)@ + le32(x));
}

fn write_le64(x: u64, out: &mut Vec<u8>)
    ensures
        final(out)@ == old(out)@ + le64(x),
{
    write_le32((x % 0x1_0000_0000) as u32, out);
    write_le32((x / 0x1_0000_0000) as u32, out);
    assert(out@ =~= old(out)@ + le64(x));
}

/// Appends the bytes of `value` to `out`.
pub fn write_value(value: &Value, out: &mut Vec<u8>)
    ensures
        final(out)@ == old(out)@ + value@.wire(),
{
    match value {
        Value::Varint(v) => write_varint(*v, out),
        Value::Fixed64(v) => write_le64(*v, out),
        Value::Bytes(b) => {
            write_varint(b.len() as u64, out);
            crate::packet::append_range(out, b.as_slice(), 0, b.len());
            assert(b@.subrange(0, b@.len() as int) =~= b@);
            assert(out@ =~= old(out)@ + value@.wire());
        },
        Value::Fixed32(v) => write_le32(*v, out),
    }
}

/// Every value that the machine can hold is valid.
pub proof fn lemma_value_is_valid(value: Value)
    ensures
        value@.valid(),
{
    if let Value::Bytes(b) = value {
        assert(b@.len() == b.len());
    }
}

/// The wire type of `value`.
pub fn wire_type(value: &Value) -> (wire_type: u8)
    ensures
        wire_type == value@.wire_type(),
{
    match value {
        Value::Varint(_) => 0,
        Value::Fixed64(_) => 1,
        Value::Bytes(_) => 2,
        Value::Fixed32(_) => 5,
    }
}

/// Appends the bytes of `field` to `out`.
pub fn write_field(field: &Field, out: &mut Vec<u8>)
    ensures
        final(out)@ == old(out)@ + field@.wire(),
{
    let tag: u64 = field.number as u64 * 8 + wire_type(&field.value) as u64;
    write_varint(tag, out);
    write_value(&field.value, out);
    assert(out@ =~= old(out)@ + field@.wire());
}

/// The bytes of a message with these fields. Fails exactly if a field has
/// a number that no message may use, and names the first such field.
pub fn encode_message(fields: &[Field]) -> (r: Result<Vec<u8>, EncodeError>)
    ensures
        match r {
            Ok(bytes) => {
                &&& forall|i: int| 0 <= i < fields@.len() ==> (#[trigger] fields@[i])@.valid()
                &&& bytes@ == message_wire(fields_view(fields@))
            },
            Err(EncodeError::InvalidFieldNumber(i)) => {
                &&& i < fields@.len()
                &&& !fields@[i as int]@.valid()
                &&& forall|j: int| 0 <= j < i ==> (#[trigger] fields@[j])@.valid()
            },
        },
{
    let mut out: Vec<u8> = Vec::new();
    let mut i: usize = 0;
    assert(fields_view(fields@.take(0)) =~= Seq::<FieldView>::empty());
    while i < fields.len()
        invariant
            i <= fields@.len(),
            forall|j: int| 0 <= j < i ==> (#[trigger] fields@[j])@.valid(),
            out@ == message_wire(fields_view(fields@.take(i as int))),
        decreases fields@.len() - i,
    {
        let field = &fields[i];
        if field.number < 1 || field.number > MAX_FIELD_NUMBER {
            return Err(EncodeError::InvalidFieldNumber(i));
        }
        proof {
            lemma_value_is_valid(field.value);
            let before = fields_view(fields@.take(i as int));
            lemma_message_wire_push(before, field@);
            assert(fields_view(fields@.take(i + 1)) =~= before.push(field@));
        }
        write_field(field, &mut out);
        i += 1;
    }
    assert(fields@.take(i as int) =~= fields@);
    Ok(out)
}

} // verus!
