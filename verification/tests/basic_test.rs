use fire_stream::protobuf::decode::{decode_message, DecodeError, DecodeMessage};
use fire_stream::protobuf::encode::{encode_message, EncodeError, EncodeMessage};
use fire_stream::protobuf::wire::{Field, Value};

#[derive(Debug, PartialEq, Eq)]
struct Test1 {
    // field 1
    s: String,
    // field 5
    some_struct: Test2,
}

#[derive(Debug, PartialEq, Eq)]
struct Test2 {
    // field 1
    nums: Vec<u32>,
    // field 2
    compl_enum: Test3,
    // field 200
    test4: Test4,
}

/// is internaly represented as
/// message {
///     oneof inner {
///         String one = 1;
///     }
/// }
#[derive(Debug, PartialEq, Eq)]
enum Test3 {
    // field 1
    One(String),
    // field 2, default
    Two,
}

#[derive(Debug, PartialEq, Eq)]
enum Test4 {
    Unknown,
    One,
    Two,
}

fn text(value: &Value) -> Result<String, DecodeError> {
    match value {
        Value::Bytes(b) => String::from_utf8(b.clone()).map_err(|_| DecodeError::Unexpected),
        _ => Err(DecodeError::Unexpected),
    }
}

fn nested(value: &Value) -> Result<&[u8], DecodeError> {
    match value {
        Value::Bytes(b) => Ok(b.as_slice()),
        _ => Err(DecodeError::Unexpected),
    }
}

fn number(value: &Value) -> Result<u64, DecodeError> {
    match value {
        Value::Varint(v) => Ok(*v),
        _ => Err(DecodeError::Unexpected),
    }
}

impl Test4 {
    fn number(&self) -> u64 {
        match self {
            Test4::Unknown => 0,
            Test4::One => 1,
            Test4::Two => 2,
        }
    }

    fn from_number(n: u64) -> Test4 {
        match n {
            1 => Test4::One,
            2 => Test4::Two,
            _ => Test4::Unknown,
        }
    }
}

impl EncodeMessage for Test3 {
    fn write_to_bytes(&mut self) -> Result<Vec<u8>, EncodeError> {
        let mut fields = Vec::new();
        match self {
            Test3::One(s) => fields.push(Field {
                number: 1,
                value: Value::Bytes(s.as_bytes().to_vec()),
            }),
            Test3::Two => {}
        }
        encode_message(&fields)
    }
}

impl DecodeMessage for Test3 {
    fn parse_from_bytes(bytes: &[u8]) -> Result<Self, DecodeError> {
        let mut me = Test3::Two;
        for field in decode_message(bytes)? {
            match field.number {
                1 => me = Test3::One(text(&field.value)?),
                2 => me = Test3::Two,
                _ => {}
            }
        }
        Ok(me)
    }
}

impl EncodeMessage for Test2 {
    fn write_to_bytes(&mut self) -> Result<Vec<u8>, EncodeError> {
        let mut fields = Vec::new();
        for n in &self.nums {
            fields.push(Field { number: 1, value: Value::Varint(*n as u64) });
        }
        fields.push(Field { number: 2, value: Value::Bytes(self.compl_enum.write_to_bytes()?) });
        if self.test4 != Test4::Unknown {
            fields.push(Field { number: 200, value: Value::Varint(self.test4.number()) });
        }
        encode_message(&fields)
    }
}

impl DecodeMessage for Test2 {
    fn parse_from_bytes(bytes: &[u8]) -> Result<Self, DecodeError> {
        let mut me = Test2 { nums: Vec::new(), compl_enum: Test3::Two, test4: Test4::Unknown };
        for field in decode_message(bytes)? {
            match field.number {
                1 => {
                    let n = number(&field.value)?;
                    me.nums.push(u32::try_from(n).map_err(|_| DecodeError::Unexpected)?);
                }
                2 => me.compl_enum = Test3::parse_from_bytes(nested(&field.value)?)?,
                200 => me.test4 = Test4::from_number(number(&field.value)?),
                _ => {}
            }
        }
        Ok(me)
    }
}

impl EncodeMessage for Test1 {
    fn write_to_bytes(&mut self) -> Result<Vec<u8>, EncodeError> {
        let fields = vec![
            Field { number: 1, value: Value::Bytes(self.s.as_bytes().to_vec()) },
            Field { number: 5, value: Value::Bytes(self.some_struct.write_to_bytes()?) },
        ];
        encode_message(&fields)
    }
}

impl DecodeMessage for Test1 {
    fn parse_from_bytes(bytes: &[u8]) -> Result<Self, DecodeError> {
        let mut me = Test1 {
            s: String::new(),
            some_struct: Test2 { nums: Vec::new(), compl_enum: Test3::Two, test4: Test4::Unknown },
        };
        for field in decode_message(bytes)? {
            match field.number {
                1 => me.s = text(&field.value)?,
                5 => me.some_struct = Test2::parse_from_bytes(nested(&field.value)?)?,
                _ => {}
            }
        }
        Ok(me)
    }
}

#[test]
fn test3() {
    let mut test3 = Test3::Two;
    let bytes = test3.write_to_bytes().unwrap();
    let n_test3 = Test3::parse_from_bytes(&bytes).unwrap();
    assert_eq!(test3, n_test3);

    let mut test3 = Test3::One("hello World".into());
    let bytes = test3.write_to_bytes().unwrap();
    let n_test3 = Test3::parse_from_bytes(&bytes).unwrap();
    assert_eq!(test3, n_test3);

    let mut test3 = Test3::Two;
    let bytes = test3.write_to_bytes().unwrap();
    let n_test3 = Test3::parse_from_bytes(&bytes).unwrap();
    assert_eq!(test3, n_test3);
}

#[test]
fn test2() {
    let mut test2 = Test2 {
        nums: (0..10).collect(),
        compl_enum: Test3::One("hello World".into()),
        test4: Test4::One,
    };
    let bytes = test2.write_to_bytes().unwrap();
    let n_test2 = Test2::parse_from_bytes(&bytes).unwrap();
    assert_eq!(test2, n_test2);
}

#[test]
fn test1() {
    let mut test1 = Test1 {
        s: "Hello World".into(),
        some_struct: Test2 {
            nums: (0..10).collect(),
            compl_enum: Test3::Two,
            test4: Test4::Two,
        },
    };
    let bytes = test1.write_to_bytes().unwrap();
    let n_test1 = Test1::parse_from_bytes(&bytes).unwrap();
    assert_eq!(test1, n_test1);
}

#[test]
fn message_bytes_are_exact() {
    let mut test3 = Test3::One("hi".into());
    assert_eq!(test3.write_to_bytes().unwrap(), vec![0x0a, 0x02, b'h', b'i']);
    let mut test2 = Test2 { nums: vec![1, 300], compl_enum: Test3::Two, test4: Test4::Two };
    assert_eq!(
        test2.write_to_bytes().unwrap(),
        vec![0x08, 0x01, 0x08, 0xac, 0x02, 0x12, 0x00, 0xc0, 0x0c, 0x02]
    );
}

#[test]
fn message_of_another_type() {
    // field 1 of a Test3 is text, not a number
    assert_eq!(Test3::parse_from_bytes(&[0x08, 0x01]), Err(DecodeError::Unexpected));
    // and the text is UTF-8
    assert_eq!(Test3::parse_from_bytes(&[0x0a, 0x01, 0xff]), Err(DecodeError::Unexpected));
    // fields that the type does not know are passed over
    assert_eq!(Test3::parse_from_bytes(&[0x18, 0x01]), Ok(Test3::Two));
    assert_eq!(Test3::parse_from_bytes(&[0x0a]), Err(DecodeError::UnexpectedEof));
}
