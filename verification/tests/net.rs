use usbip_core::net::{
    Error, OpCommon, OpDevlistReply, OpImportReply, OpImportRequest, OwnedOpImportRequest, Protocol,
    Status,
};
use usbip_core::wire::{DecodeFailure, EncodeFailure};

#[test]
fn protocol_codes() {
    assert_eq!(Protocol::op_req_import().bits(), 0x8003);
    assert_eq!(Protocol::op_rep_devlist().bits(), 0x0005);
    assert!(Protocol::from_bits(0x8006).is_some());
    assert!(Protocol::from_bits(0x0008).is_none());
    assert_eq!(
        Protocol::decode(&[0x00, 0x10], 0),
        Err(DecodeFailure::UnexpectedVariant { found: 0x10 })
    );
}

#[test]
fn status_codes() {
    for n in 0u32..6 {
        assert_eq!(Status::from_index(n).unwrap().index(), n);
    }
    assert_eq!(Status::from_index(6), None);
    assert_eq!(
        Status::decode(&[0, 0, 0, 6], 0),
        Err(DecodeFailure::UnexpectedVariant { found: 6 })
    );
    assert_eq!(Status::NoDev.message(), "Device not found");
}

#[test]
fn request_header_bytes() {
    let req = OpCommon::request(Protocol::op_req_import());
    let mut out = Vec::new();
    req.encode(&mut out);
    assert_eq!(out, vec![0x01, 0x11, 0x80, 0x03, 0, 0, 0, 0]);
}

#[test]
fn header_roundtrip_and_validate() {
    let rep = OpCommon::request(Protocol::op_rep_import()).reply(Status::DevBusy);
    let mut out = Vec::new();
    rep.encode(&mut out);
    assert_eq!(out, vec![0x01, 0x11, 0x00, 0x03, 0, 0, 0, 2]);
    let back = OpCommon::decode(&out, 0).unwrap();
    assert_eq!(back.validate(Protocol::op_rep_import()).unwrap(), Status::DevBusy);
    assert_eq!(back.validate(Protocol::op_unspec()).unwrap(), Status::DevBusy);
    match back.validate(Protocol::op_rep_devlist()) {
        Err(Error::CodeMismatch(c)) => assert_eq!(c, 0x0003),
        other => panic!("unexpected {other:?}"),
    }
}

#[test]
fn header_version_mismatch() {
    let bytes = [0x01, 0x06, 0x00, 0x03, 0, 0, 0, 0];
    let h = OpCommon::decode(&bytes, 0).unwrap();
    match h.validate(Protocol::op_rep_import()) {
        Err(Error::VersionMismatch(v)) => assert_eq!(v, 0x106),
        other => panic!("unexpected {other:?}"),
    }
    assert_eq!(OpCommon::decode(&bytes[..7], 0).unwrap_err(), DecodeFailure::UnexpectedEnd);
}

#[test]
fn import_request_roundtrip() {
    let req = OpImportRequest::new("3-2");
    let mut out = Vec::new();
    req.encode(&mut out).unwrap();
    assert_eq!(out.len(), 32);
    assert_eq!(&out[..4], &[b'3', b'-', b'2', 0]);
    let owned = OwnedOpImportRequest::decode(&out, 0).unwrap();
    assert_eq!(owned.into_inner().as_str(), "3-2");
}

#[test]
fn import_request_too_long() {
    let long = "0123456789012345678901234567890123";
    let mut out = Vec::new();
    assert_eq!(OpImportRequest::new(long).encode(&mut out), Err(EncodeFailure::UnexpectedEnd));
    assert!(out.is_empty());
}

#[test]
fn devlist_reply_roundtrip() {
    let r = OpDevlistReply::new(3);
    let mut out = Vec::new();
    r.encode(&mut out);
    assert_eq!(out, vec![0, 0, 0, 3]);
    assert_eq!(OpDevlistReply::decode(&out, 0).unwrap().num_devices(), 3);
}

#[test]
fn import_reply_too_short() {
    let bytes = vec![0u8; 100];
    assert_eq!(OpImportReply::decode(&bytes, 0).unwrap_err(), DecodeFailure::UnexpectedEnd);
}
