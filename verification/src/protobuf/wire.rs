//! Fields and their values, and the bytes they stand for.
//!
//! A field on the wire is a tag, which is the field number times eight plus
//! the wire type, as a number of variable length, followed by the value: a
//! number of variable length (wire type 0), eight bytes (1), a length and
//! that many bytes (2), or four bytes (5). Fixed-size values have their
//! lowest byte first.

use crate::protobuf::varint::varint;
use vstd::prelude::*;

verus! {

/// The largest field number.
pub const MAX_FIELD_NUMBER: u32 = 0x1fff_ffff;

/// The value of a field, in the form it has on the wire.
#[derive(Debug, Clone, PartialEq, Eq)]
pub enum Value {
    Varint(u64),
    Fixed64(u64),
    Bytes(Vec<u8>),
    Fixed32(u32),
}

/// A value as a mathematical value.
pub enum ValueView {
    Varint(u64),
    Fixed64(u64),
    Bytes(Seq<u8>),
    Fixed32(u32),
}

/// One field of a message.
#[derive(Debug, Clone, PartialEq, Eq)]
pub struct Field {
    pub number: u32,
    pub value: Value,
}

/// A field as a mathematical value.
pub struct FieldView {
    pub number: u32,
    pub value: ValueView,
}

impl View for Value {
    type V = ValueView;

    open spec fn view(&self) -> ValueView {
        match *self {
            Value::Varint(v) => ValueView::Varint(v),
            Value::Fixed64(v) => ValueView::Fixed64(v),
            Value::Bytes(b) => ValueView::Bytes(b@),
            Value::Fixed32(v) => ValueView::Fixed32(v),
        }
    }
}

impl View for Field {
    type V = FieldView;

    open spec fn view(&self) -> FieldView {
        FieldView { number: self.number, value: self.value@ }
    }
}

/// The fields of a message as mathematical values.
pub open spec fn fields_view(fields: Seq<Field>) -> Seq<FieldView> {
    Seq::new(fields.len(), |i: int| fields[i]@)
}

/// The four bytes of `x`, lowest first.
pub open spec fn le32(x: u32) -> Seq<u8> {
    seq![
        (x % 0x100) as u8,
        ((x / 0x100) % 0x100) as u8,
        ((x / 0x1_0000) % 0x100) as u8,
        (x / 0x100_0000) as u8,
    ]
}

/// The number whose four bytes, lowest first, `bytes` start with.
pub open spec fn from_le32(bytes: Seq<u8>) -> u32
    recommends
        bytes.len() >= 4,
{
    (bytes[0] + bytes[1] * 0x100 + bytes[2] * 0x1_0000 + bytes[3] * 0x100_0000) as u32
}

/// The eight bytes of `x`, lowest first.
pub open spec fn le64(x: u64) -> Seq<u8> {
    le32((x % 0x1_0000_0000) as u32) + le32((x / 0x1_0000_0000) as u32)
}

/// The number whose eight bytes, lowest first, `bytes` start with.
pub open spec fn from_le64(bytes: Seq<u8>) -> u64
    recommends
        bytes.len() >= 8,
{
    (from_le32(bytes) + from_le32(bytes.skip(4)) * 0x1_0000_0000) as u64
}

/// Reading the four bytes of a number, whatever follows, gives the number.
pub proof fn lemma_le32_round_trip(x: u32, rest: Seq<u8>)
    ensures
        le32(x).len() == 4,
        from_le32(le32(x) + rest) == x,
{
}

/// Reading the eight bytes of a number, whatever follows, gives the number.
pub proof fn lemma_le64_round_trip(x: u64, rest: Seq<u8>)
    ensures
        le64(x).len() == 8,
        from_le64(le64(x) + rest) == x,
{
    let low = (x % 0x1_0000_0000) as u32;
    let high = (x / 0x1_0000_0000) as u32;
    let bytes = le64(x) + rest;
    lemma_le32_round_trip(low, le32(high) + rest);
    lemma_le32_round_trip(high, rest);
    assert(bytes =~= le32(low) + (le32(high) + rest));
    assert(bytes.skip(4) =~= le32(high) + rest);
}

impl ValueView {
    /// The wire type of the value.
    pub open spec fn wire_type(self) -> u8 {
        match self {
            ValueView::Varint(_) => 0,
            ValueView::Fixed64(_) => 1,
            ValueView::Bytes(_) => 2,
            ValueView::Fixed32(_) => 5,
        }
    }

    /// The length of a run of bytes fits 64 bits.
    pub open spec fn valid(self) -> bool {
        self matches ValueView::Bytes(b) ==> b.len() <= u64::MAX
    }

    /// The bytes of the value.
    pub open spec fn wire(self) -> Seq<u8> {
        match self {
            ValueView::Varint(v) => varint(v as nat),
            ValueView::Fixed64(v) => le64(v),
            ValueView::Bytes(b) => varint(b.len()) + b,
            ValueView::Fixed32(v) => le32(v),
        }
    }
}

impl FieldView {
    /// The field number is one that a message may use, and the value is
    /// valid.
    pub open spec fn valid(self) -> bool {
        1 <= self.number <= MAX_FIELD_NUMBER && self.value.valid()
    }

    /// The tag of the field.
    pub open spec fn tag(self) -> u64 {
        (self.number * 8 + self.value.wire_type()) as u64
    }

    /// The bytes of the field: its tag, then its value.
    pub open spec fn wire(self) -> Seq<u8> {
        varint(self.tag() as nat) + self.value.wire()
    }
}

/// The bytes of a message: those of its fields, in their order.
pub open spec fn message_wire(fields: Seq<FieldView>) -> Seq<u8>
    decreases fields.len(),
{
    if fields.len() == 0 {
        Seq::empty()
    } else {
        fields[0].wire() + message_wire(fields.skip(1))
    }
}

/// The bytes of a message with one more field are the bytes of the message
/// followed by those of the field.
pub proof fn lemma_message_wire_push(fields: Seq<FieldView>, field: FieldView)
    ensures
        message_wire(fields.push(field)) == message_wire(fields) + field.wire(),
    decreases fields.len(),
{
    let all = fields.push(field);
    if fields.len() == 0 {
        assert(all.skip(1) =~= Seq::<FieldView>::empty());
        assert(message_wire(all.skip(1)) =~= Seq::<u8>::empty());
        assert(message_wire(all) =~= field.wire());
    } else {
        assert(all.skip(1) =~= fields.skip(1).push(field));
        lemma_message_wire_push(fields.skip(1), field);
        assert(message_wire(all) =~= message_wire(fields) + field.wire());
    }
}

} // verus!
