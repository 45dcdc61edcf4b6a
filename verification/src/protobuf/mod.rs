//! The wire format of messages: a message is a sequence of fields, each a
//! field number with a value in one of four forms.

pub mod decode;
pub mod encode;
pub mod varint;
pub mod wire;
