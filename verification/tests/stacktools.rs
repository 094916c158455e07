use usbip_core::containers::stacktools::{StackStr, TryFromStrErr};

#[test]
fn valid_len_try_from_str_works() {
    let str = "Hello!";
    let result = StackStr::<{ "Hello!".as_bytes().len() }>::try_from(str);
    let stack_s = result.unwrap();
    println!("{}", stack_s.as_str());
}

#[test]
fn invalid_len_fails() {
    let s = "I am a big string!";
    let result = StackStr::<4>::try_from(s);
    assert_eq!(
        result,
        Err(TryFromStrErr::Length {
            max: 4,
            actual: s.len()
        })
    );
}

#[test]
fn valid_conversion_has_correct_len() {
    let s = "Super cool string!";
    let stack_s = StackStr::<56>::try_from(s).unwrap();
    assert_eq!(stack_s.len(), s.len());
}

#[test]
fn stack_str_encodes_whole_array() {
    let s = StackStr::<8>::try_from("1-1").unwrap();
    let mut out = Vec::new();
    s.encode(&mut out);
    assert_eq!(out, vec![b'1', b'-', b'1', 0, 0, 0, 0, 0]);
}

#[test]
fn stack_str_decode_trims_trailing_zeros() {
    let bytes = [b'a', b'b', 0, 0];
    let s = StackStr::<4>::decode(&bytes, 0).unwrap();
    assert_eq!(s.as_str(), "ab");
    assert_eq!(s.len(), 2);
}

#[test]
fn stack_str_decode_roundtrip() {
    let s = StackStr::<16>::try_from("héllo").unwrap();
    let mut out = Vec::new();
    s.encode(&mut out);
    let back = StackStr::<16>::decode(&out, 0).unwrap();
    assert_eq!(back, s);
}

#[test]
fn stack_str_decode_errors() {
    let short = [b'a'];
    assert!(StackStr::<4>::decode(&short, 0).is_err());
    let bad = [0xff, 0, 0, 0];
    assert!(StackStr::<4>::decode(&bad, 0).is_err());
}

#[test]
fn stack_str_write_and_clear() {
    let mut s = StackStr::<8>::new();
    assert!(s.is_empty());
    assert!(s.write_str("abc").is_ok());
    assert!(s.write_str("defgh").is_ok());
    assert!(s.write_str("i").is_err());
    assert_eq!(s.as_str(), "abcdefgh");
    s.clear();
    assert!(s.is_empty());
    assert_eq!(s.as_str(), "");
}

#[test]
fn stack_str_fill_keeps_length() {
    let mut s = StackStr::<8>::try_from("abc").unwrap();
    s.fill(b'x');
    assert_eq!(s.as_str(), "xxx");
    let mut e = StackStr::<4>::new();
    e.fill(0xff);
    assert_eq!(e.as_str(), "");
}

#[test]
fn stack_str_from_bytes() {
    let s = StackStr::<8>::from_utf8_bytes(b"usb").unwrap();
    assert_eq!(s.as_str(), "usb");
    assert!(matches!(
        StackStr::<8>::from_utf8_bytes(&[0xc3]),
        Err(TryFromStrErr::NotUtf8(_))
    ));
    assert_eq!(
        StackStr::<2>::from_utf8_bytes(b"usb"),
        Err(TryFromStrErr::Length { max: 2, actual: 3 })
    );
}

#[test]
fn stack_str_from_raw_parts() {
    let s = StackStr::<4>::from_raw_parts([b'o', b'k', b'!', 0], 2);
    assert_eq!(s.as_str(), "ok");
}

#[test]
fn stack_str_error_text() {
    let e = TryFromStrErr::Length { max: 4, actual: 18 };
    assert_eq!(e.message(), "invalid length of str (max: 4, actual: 18)");
}
