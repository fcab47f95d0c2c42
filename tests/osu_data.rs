use isoku::encoding::OsuEncode;
use std::fmt::Debug;
use isoku::codec::DecodeError;
use isoku::cursor::Cursor;
use isoku::codec::{encode_i32s, encode_str, encoded_size_i32s, encoded_size_str};
use isoku::cursor::{
    decode_bool, decode_i16, decode_i32, decode_i32s, decode_str, decode_u16, decode_u32,
};

#[test]
fn string() {
    basic_test("#osu".to_string(), &[0xb, 4, 0x23, 0x6f, 0x73, 0x75]);
    let mut buf = Vec::new();
    encode_str("#osu", &mut buf);
    assert_eq!(buf, vec![0xb, 4, 0x23, 0x6f, 0x73, 0x75]);
    assert_eq!(encoded_size_str("#osu"), buf.len());
    let (s, n) = decode_str(&buf).unwrap();
    assert_eq!(s, "#osu");
    assert_eq!(n, 6);
}

fn basic_test<T>(value: T, expected_buf: &[u8])
where
    T: OsuEncode + PartialEq + Debug,
{
    let mut buf = Vec::with_capacity(value.encoded_size());
    value.encode(&mut buf);
    assert_eq!(expected_buf, &buf[..]);
    assert_eq!(value.encoded_size(), buf.len());
    let (decoded, n) = T::decode(&buf).unwrap();
    assert_eq!(value, decoded);
    assert_eq!(n, buf.len());
}

#[test]
fn u16() {
    basic_test(2137u16, &[0x59, 0x8]);
    assert_eq!(decode_u16(&[0x59, 0x8]).unwrap(), (2137, 2));
}

#[test]
fn i16() {
    basic_test(666i16, &[0x9a, 0x2]);
    assert_eq!(decode_i16(&[0x9a, 0x2]).unwrap(), (666, 2));
}

#[test]
fn u32() {
    basic_test(9727u32, &[0xff, 0x25, 0, 0]);
    assert_eq!(decode_u32(&[0xff, 0x25, 0, 0]).unwrap(), (9727, 4));
}

#[test]
fn i32() {
    basic_test(1337i32, &[0x39, 0x5, 0, 0]);
    assert_eq!(decode_i32(&[0x39, 0x5, 0, 0]).unwrap(), (1337, 4));
}

#[test]
fn bool() {
    basic_test(true, &[1]);
    basic_test(false, &[0]);
    assert_eq!(decode_bool(&[7]).unwrap(), (true, 1));
}

#[test]
fn other_fixed_widths() {
    basic_test(0xabu8, &[0xab]);
    basic_test(-2i16, &[0xfe, 0xff]);
    basic_test(u64::MAX, &[0xff; 8]);
}

#[test]
fn empty_string() {
    basic_test(String::new(), &[0]);
    let mut buf = Vec::new();
    encode_str("", &mut buf);
    assert_eq!(buf, vec![0]);
    assert_eq!(encoded_size_str(""), 1);
    let (s, n) = decode_str(&buf).unwrap();
    assert_eq!(s, "");
    assert_eq!(n, 1);
}

#[test]
#[should_panic]
fn str_unknown_prefix() {
    let buf = [0xc, 0u8];
    decode_str(&buf).unwrap();
}

#[test]
#[should_panic]
fn str_invalid_len() {
    let buf = [0xb, 2, 0u8];
    decode_str(&buf).unwrap();
}

#[test]
fn i32_slice() {
    let val = [10i32, 2, 1, 3, 7, 0];
    let mut buf = Vec::new();
    encode_i32s(&val[..], &mut buf);
    assert_eq!(
        buf,
        vec![6, 0, 10, 0, 0, 0, 2, 0, 0, 0, 1, 0, 0, 0, 3, 0, 0, 0, 7, 0, 0, 0, 0, 0, 0, 0]
    );
    assert_eq!(encoded_size_i32s(&val[..]), buf.len());
    let (decoded, n) = decode_i32s(&buf).unwrap();
    assert_eq!(decoded, val.to_vec());
    assert_eq!(n, 26);
}

#[test]
fn invalid_utf8_is_replaced_not_rejected() {
    let buf = [0x0b, 2, 0xff, b'a'];
    let (s, n) = decode_str(&buf).unwrap();
    assert_eq!(s, "\u{fffd}a");
    assert_eq!(n, 4);
}

#[test]
fn long_string_length_takes_two_leb_bytes() {
    let text = "x".repeat(200);
    let mut expected = vec![0x0b, 0xc8, 0x01];
    expected.extend(text.as_bytes());
    basic_test(text.clone(), &expected);
    let mut buf = Vec::new();
    encode_str(&text, &mut buf);
    assert_eq!(&buf[..3], &[0x0b, 0xc8, 0x01]);
    assert_eq!(buf.len(), 203);
    assert_eq!(encoded_size_str(&text), 203);
    let (s, n) = decode_str(&buf).unwrap();
    assert_eq!(s, text);
    assert_eq!(n, 203);
}

#[test]
fn truncated_values_are_errors() {
    assert_eq!(decode_u32(&[1, 2, 3]), Err(DecodeError::Truncated));
    assert_eq!(decode_u16(&[]), Err(DecodeError::Truncated));
    assert_eq!(decode_i32s(&[2, 0, 1, 0, 0, 0]), Err(DecodeError::Truncated));
    assert_eq!(decode_str(&[]), Err(DecodeError::Truncated));
    assert_eq!(decode_str(&[0x0c]), Err(DecodeError::UnknownStringPrefix));
    assert_eq!(decode_str(&[0x0b, 0x80]), Err(DecodeError::BadLength));
    assert_eq!(decode_str(&[0x0b, 3, b'a']), Err(DecodeError::Truncated));
}

#[test]
fn negative_and_wide_integers() {
    let mut buf = Vec::new();
    isoku::codec::encode_i32(-1, &mut buf);
    assert_eq!(buf, vec![0xff; 4]);
    assert_eq!(decode_i32(&buf).unwrap(), (-1, 4));
    let mut buf = Vec::new();
    isoku::codec::encode_u64(0x0102030405060708, &mut buf);
    assert_eq!(buf, vec![8, 7, 6, 5, 4, 3, 2, 1]);
    assert_eq!(isoku::cursor::decode_u64(&buf).unwrap(), (0x0102030405060708, 8));
}

#[test]
fn cursor_reads_in_order() {
    let data = [1u8, 0x34, 0x12, 0, 0x0b, 1, b'z', 9];
    let mut c = Cursor::new(&data);
    assert_eq!(c.read_u8().unwrap(), 1);
    assert_eq!(c.read_u16().unwrap(), 0x1234);
    assert_eq!(c.read_string().unwrap(), "");
    assert_eq!(c.read_string().unwrap(), "z");
    assert_eq!(c.remaining(), 1);
    assert_eq!(c.data(), &[9]);
    assert!(c.read(2).is_err());
    c.advance(5);
    assert_eq!(c.remaining(), 0);
}
