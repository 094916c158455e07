use usbip_core::windows::ioctl::{
    Attach, ControlCode, Detach, DeviceLocation, DeviceType, Door, DoorResult, DriverError,
    Function, GetImportedDevices, ImportedDevice, IoctlReply, NoIter, OnceSize, Port, RelayState,
    RelayStep, RequiredAccess, SizeOf, TransferMethod, VecWriter,
};
use usbip_core::windows::{
    device_location, is_aligned_to, u16_units, TryFromAttachArgsErr, Win32Error,
};
use usbip_core::wire::DecodeFailure;

#[test]
fn device_type_numbers() {
    assert_eq!(DeviceType::Unknown.into_u32(), 0x22);
    assert_eq!(DeviceType::Beep.into_u32(), 0x01);
    assert_eq!(DeviceType::Fips.into_u32(), 0x3a);
    assert_eq!(DeviceType::from_u32(0x27), DeviceType::Port8042);
    assert_eq!(DeviceType::from_u32(0x07), DeviceType::Unknown);
    assert_eq!(DeviceType::from_u32(0x1234), DeviceType::Unknown);
    assert_eq!(DeviceType::from_u32(DeviceType::Keyboard.into_u32()), DeviceType::Keyboard);
}

#[test]
fn control_code_bits() {
    let code = ControlCode::for_function(Function::GetImportedDevices);
    assert_eq!(code.into_u32(), 0x22E008);
    let back = ControlCode::from_u32(0x22E008);
    assert_eq!(back, code);
    assert_eq!(back.dev_type(), DeviceType::Unknown);
    assert_eq!(back.required_access().bits(), 3);
    assert_eq!(back.num(), 0x802);
    assert_eq!(back.transfer_method(), TransferMethod::Buffered);
    assert_eq!(ControlCode::from_u32(0x22E00B).transfer_method(), TransferMethod::Neither);
    assert_eq!(Function::PluginHardware.as_u32(), 0x800);
}

#[test]
fn transfer_methods_and_access() {
    assert_eq!(TransferMethod::from_u32(5), TransferMethod::InputDirect);
    assert_eq!(TransferMethod::OutputDirect.into_u32(), 2);
    assert!(RequiredAccess::from_bits(4).is_none());
    assert_eq!(RequiredAccess::read_write_data().bits(), 3);
}

#[test]
fn driver_errors() {
    assert_eq!(DriverError::from_u32(0xE1000008), Some(DriverError::InvalidAbi));
    assert_eq!(DriverError::from_u32(0x8007048F), Some(DriverError::DevNotConnected));
    assert_eq!(DriverError::from_u32(1), None);
    assert_eq!(Win32Error::new(5).get(), 5);
}

#[test]
fn port_and_size_messages() {
    let mut out = Vec::new();
    Port::new(0x1234).encode(&mut out);
    assert_eq!(out, vec![0x34, 0x12, 0, 0]);
    assert_eq!(Port::decode(&[0x34, 0x12, 0x01, 0], 0).unwrap().get(), 0x1234);
    let mut out = Vec::new();
    Detach::new(2).send(&mut out);
    assert_eq!(out, vec![8, 0, 0, 0, 2, 0, 0, 0]);
    let mut out = Vec::new();
    SizeOf::new(1112).encode(&mut out);
    assert_eq!(SizeOf::decode(&out, 0).is_ok(), true);
    let mut out = Vec::new();
    GetImportedDevices.send(&mut out);
    assert_eq!(out, vec![0x58, 0x04, 0, 0]);
}

#[test]
fn attach_messages() {
    let loc = device_location("10.0.0.1", 3240, "1-1").unwrap();
    let mut out = Vec::new();
    Attach::new(loc).send(&mut out).unwrap();
    assert_eq!(out.len(), 4 + 1096);
    assert_eq!(&out[..4], &[0x4c, 0x04, 0, 0]);
    assert_eq!(&out[4..8], &[0, 0, 0, 0]);
    assert_eq!(&out[8..11], b"1-1");
    assert_eq!(&out[40..44], b"3240");
    assert_eq!(&out[72..80], b"10.0.0.1");
    assert_eq!(Attach::recv(&[0, 0, 0, 0, 3, 0, 0, 0]), Ok(3));
    assert_eq!(Attach::recv(&[0, 0, 0, 0, 3]), Err(DecodeFailure::UnexpectedEnd));
    assert_eq!(
        device_location("h", 1, "0123456789012345678901234567890123").err(),
        Some(TryFromAttachArgsErr)
    );
    let long = DeviceLocation::new("h", 1, "0123456789012345678901234567890123");
    let mut out = Vec::new();
    assert!(long.encode(&mut out).is_err());
}

fn imported_device_bytes(port: i32, devid: u32, speed: u32, vendor: u16, product: u16) -> Vec<u8> {
    let mut b = Vec::new();
    b.extend_from_slice(&port.to_le_bytes());
    let mut busid = [0u8; 32];
    busid[..3].copy_from_slice(b"1-1");
    b.extend_from_slice(&busid);
    let mut service = [0u8; 32];
    service[..4].copy_from_slice(b"3240");
    b.extend_from_slice(&service);
    let mut host = vec![0u8; 1025];
    host[..8].copy_from_slice(b"10.0.0.1");
    b.extend_from_slice(&host);
    b.extend_from_slice(&[0, 0, 0]);
    b.extend_from_slice(&devid.to_le_bytes());
    b.extend_from_slice(&speed.to_le_bytes());
    b.extend_from_slice(&vendor.to_le_bytes());
    b.extend_from_slice(&product.to_le_bytes());
    b
}

#[test]
fn imported_devices_reply() {
    let mut out = vec![0u8, 0, 0, 0];
    out.extend(imported_device_bytes(1, 0x10002, 3, 0x1234, 0x5678));
    out.extend(imported_device_bytes(2, 0x10003, 5, 0x1111, 0x2222));
    out.extend([9, 9]);
    let devs = GetImportedDevices::recv(&out).unwrap();
    assert_eq!(devs.len(), 2);
    assert_eq!(devs[0].record.port, 1);
    assert_eq!(devs[0].record.busid.as_str(), "1-1");
    assert_eq!(devs[0].record.host.as_str(), "10.0.0.1");
    assert_eq!(devs[1].devid, 0x10003);
    assert_eq!(devs[1].speed.code(), 5);
    assert_eq!(devs[1].product, 0x2222);
    let one = ImportedDevice::decode(&out, 4).unwrap();
    assert_eq!(one.vendor, 0x1234);
    let mut bad = vec![0u8, 0, 0, 0];
    bad.extend(imported_device_bytes(1, 1, 9, 1, 1));
    assert_eq!(
        GetImportedDevices::recv(&bad).unwrap_err(),
        DecodeFailure::UnexpectedVariant { found: 9 }
    );
    assert!(GetImportedDevices::recv(&[0, 0, 0, 0]).unwrap().is_empty());
}

#[test]
fn door_and_relay() {
    let mut door = Door::new(0x22E008);
    assert!(!door.is_done());
    assert_eq!(
        door.read_write(Some(IoctlReply::Failed { bytes_returned: 8, code: 0, win32: Some(234) })),
        DoorResult::Read(8)
    );
    assert_eq!(
        door.read_write(Some(IoctlReply::Failed { bytes_returned: 8, code: 0, win32: Some(122) })),
        DoorResult::WriteZero
    );
    assert_eq!(
        door.read_write(Some(IoctlReply::Failed { bytes_returned: 0, code: 0x8007048F, win32: None })),
        DoorResult::NotConnected
    );
    assert_eq!(
        door.read_write(Some(IoctlReply::Failed { bytes_returned: 0, code: 7, win32: None })),
        DoorResult::Other(7)
    );
    assert_eq!(door.read_write(Some(IoctlReply::Done { bytes_returned: 4 })), DoorResult::Read(4));
    assert!(door.is_done());
    assert!(!door.needs_call());
    assert_eq!(door.read_write(None), DoorResult::Read(0));
    assert_eq!(door.read_write(Some(IoctlReply::Done { bytes_returned: 9 })), DoorResult::Read(0));
    assert!(door.is_done());

    let mut relay = RelayState::new();
    relay.regrow(16);
    assert_eq!(relay.record(DoorResult::Read(10)), RelayStep::Continue);
    assert_eq!(relay.start(), 10);
    assert_eq!(relay.record(DoorResult::WriteZero), RelayStep::Continue);
    relay.regrow(32);
    assert_eq!(relay.record(DoorResult::Read(0)), RelayStep::Finish(10));
    assert_eq!(
        relay.record(DoorResult::InvalidData),
        RelayStep::Fail(DoorResult::InvalidData)
    );
}

#[test]
fn size_sources() {
    let mut once = OnceSize::new(8);
    assert_eq!(once.next(), Some(8));
    assert_eq!(once.next(), Some(8));
    assert_eq!(NoIter.next(), None);
    let mut w = VecWriter::with_capacity(4);
    w.write(&[1, 2]);
    w.write(&[3]);
    assert_eq!(w.into_vec(), vec![1, 2, 3]);
}

#[test]
fn alignment_and_units() {
    assert!(is_aligned_to(8, 2));
    assert!(!is_aligned_to(9, 2));
    assert_eq!(u16_units(&[0x41, 0, 0x42, 0x01]), vec![0x41, 0x0142]);
    assert_eq!(TryFromAttachArgsErr.message(), "the given busid was greater than BUS_ID_SIZE (31)");
}
