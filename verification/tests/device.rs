use usbip_core::device::{UsbDevice, UsbInterface};
use usbip_core::text::IntErrorKind;
use usbip_core::unix::udev_utils::{AttrValue, DeviceAttrError, Error, UdevDeviceAttrs};
use usbip_core::wire::DecodeFailure;
use usbip_core::{DeviceSpeed, DeviceStatus, ParseDeviceStatusError};

#[test]
fn device_speed_sizeof_i32() {
    assert_eq!(
        std::mem::size_of::<DeviceSpeed>(),
        std::mem::size_of::<i32>()
    );
}

#[test]
fn device_status_parses_numbers() {
    assert_eq!("1".parse::<DeviceStatus>(), Ok(DeviceStatus::DevAvailable));
    assert_eq!("4".parse::<DeviceStatus>(), Ok(DeviceStatus::PortAvailable));
    assert_eq!("007".parse::<DeviceStatus>(), Ok(DeviceStatus::PortError));
    assert_eq!("0".parse::<DeviceStatus>(), Err(ParseDeviceStatusError::Invalid));
    assert_eq!("8".parse::<DeviceStatus>(), Err(ParseDeviceStatusError::Invalid));
    match "x".parse::<DeviceStatus>() {
        Err(ParseDeviceStatusError::Parse(e)) => assert_eq!(e.kind(), IntErrorKind::InvalidDigit),
        other => panic!("unexpected {other:?}"),
    }
    match "256".parse::<DeviceStatus>() {
        Err(ParseDeviceStatusError::Parse(e)) => assert_eq!(e.kind(), IntErrorKind::PosOverflow),
        other => panic!("unexpected {other:?}"),
    }
    match "".parse::<DeviceStatus>() {
        Err(ParseDeviceStatusError::Parse(e)) => assert_eq!(e.kind(), IntErrorKind::Empty),
        other => panic!("unexpected {other:?}"),
    }
}

#[test]
fn device_status_numbers_roundtrip() {
    for n in 1u8..=7 {
        let s = DeviceStatus::from_number(n).unwrap();
        assert_eq!(s.number(), n);
    }
    assert_eq!(DeviceStatus::from_number(0), None);
    assert_eq!(DeviceStatus::PortInUse.message(), "Port in Use");
}

#[test]
fn device_speed_parses_sysfs_text() {
    assert_eq!("unknown".parse::<DeviceSpeed>().unwrap().code(), 0);
    assert_eq!("1.5".parse::<DeviceSpeed>().unwrap().code(), 1);
    assert_eq!("12".parse::<DeviceSpeed>().unwrap().code(), 2);
    assert_eq!("480".parse::<DeviceSpeed>().unwrap().code(), 3);
    assert_eq!("53.3-480".parse::<DeviceSpeed>().unwrap().code(), 4);
    assert_eq!("5000".parse::<DeviceSpeed>().unwrap().code(), 5);
    assert_eq!("10000".parse::<DeviceSpeed>().unwrap().code(), 6);
    assert_eq!("20000".parse::<DeviceSpeed>().unwrap().code(), 0);
    assert!("fast".parse::<DeviceSpeed>().is_err());
    assert_eq!(DeviceSpeed::from(480).code(), 3);
    assert_eq!(DeviceSpeed::high().message(), "High Speed (480 Mbit/s)");
}

#[test]
fn device_speed_codes() {
    assert!(DeviceSpeed::from_code(6).is_some());
    assert!(DeviceSpeed::from_code(7).is_none());
    let mut out = Vec::new();
    DeviceSpeed::super_speed().encode(&mut out);
    assert_eq!(out, vec![0, 0, 0, 5]);
    assert_eq!(DeviceSpeed::decode(&out, 0).unwrap().code(), 5);
    assert_eq!(
        DeviceSpeed::decode(&[0, 0, 0, 9], 0),
        Err(DecodeFailure::UnexpectedVariant { found: 9 })
    );
    assert_eq!(DeviceSpeed::decode(&[0, 0, 0], 0), Err(DecodeFailure::UnexpectedEnd));
    let mut le = Vec::new();
    DeviceSpeed::low().encode_le(&mut le);
    assert_eq!(le, vec![1, 0, 0, 0]);
    assert_eq!(DeviceSpeed::decode_le(&le, 0).unwrap().code(), 1);
}

#[test]
fn usb_interface_roundtrip() {
    let (i, n) = UsbInterface::decode(&[9, 0, 1, 0xaa], 0).unwrap();
    assert_eq!(n, 4);
    let mut out = Vec::new();
    i.encode(&mut out);
    assert_eq!(out, vec![9, 0, 1, 0]);
    let (_, n) = UsbInterface::decode(&[9, 0, 1], 0).unwrap();
    assert_eq!(n, 3);
    assert_eq!(UsbInterface::decode(&[9, 0], 0).unwrap_err(), DecodeFailure::UnexpectedEnd);
}

fn sample_attrs<'a>() -> UdevDeviceAttrs<'a> {
    UdevDeviceAttrs {
        syspath: b"/sys/devices/pci0000:00/usb1/1-1",
        sysname: b"1-1",
        id_vendor: AttrValue::Text("1133"),
        id_product: AttrValue::Text("49948"),
        busnum: AttrValue::Text("1"),
        devnum: Some(2),
        speed: AttrValue::Text("480"),
        bcd_device: AttrValue::Text("256"),
        b_device_class: AttrValue::Text("0"),
        b_device_subclass: AttrValue::Text("0"),
        b_device_protocol: AttrValue::Text("0"),
        b_configuration_value: AttrValue::Text("1"),
        b_num_configurations: AttrValue::Missing,
        b_num_interfaces: AttrValue::Text("2"),
    }
}

#[test]
fn usb_device_from_udev_attributes() {
    let d = UsbDevice::from_udev_attrs(&sample_attrs()).unwrap();
    assert_eq!(d.path(), "/sys/devices/pci0000:00/usb1/1-1");
    assert_eq!(d.bus_id(), "1-1");
    assert_eq!(d.bus_num(), 1);
    assert_eq!(d.dev_num(), 2);
    assert_eq!(d.dev_id(), (1 << 16) | 2);
    assert_eq!(d.speed().code(), 3);
    assert_eq!(d.id_vendor(), 1133);
    assert_eq!(d.id_product(), 49948);
}

#[test]
fn usb_device_attribute_errors() {
    let mut a = sample_attrs();
    a.id_vendor = AttrValue::Missing;
    assert!(matches!(UsbDevice::from_udev_attrs(&a), Err(Error::AttributeNotFound)));
    let mut a = sample_attrs();
    a.busnum = AttrValue::NotUtf8;
    assert!(matches!(UsbDevice::from_udev_attrs(&a), Err(Error::NotUtf8)));
    let mut a = sample_attrs();
    a.id_product = AttrValue::Text("046d");
    assert!(matches!(
        UsbDevice::from_udev_attrs(&a),
        Err(Error::CustomErr(DeviceAttrError::Int(_)))
    ));
    let mut a = sample_attrs();
    a.devnum = None;
    assert!(matches!(UsbDevice::from_udev_attrs(&a), Err(Error::AttributeNotFound)));
    let mut a = sample_attrs();
    a.sysname = b"0123456789012345678901234567890123";
    assert!(matches!(
        UsbDevice::from_udev_attrs(&a),
        Err(Error::CustomErr(DeviceAttrError::Str(_)))
    ));
}

#[test]
fn usb_device_encode_decode_roundtrip() {
    let d = UsbDevice::from_udev_attrs(&sample_attrs()).unwrap();
    let mut out = Vec::new();
    d.encode(&mut out);
    assert_eq!(out.len(), 312);
    assert_eq!(&out[288..292], &[0, 0, 0, 1]);
    assert_eq!(&out[296..300], &[0, 0, 0, 3]);
    assert_eq!(out[311], 2);
    let back = UsbDevice::decode(&out, 0).unwrap();
    assert_eq!(back.bus_id(), "1-1");
    assert_eq!(back.path(), d.path());
    assert_eq!(back.dev_id(), d.dev_id());
    assert_eq!(back.id_product(), 49948);
    assert_eq!(UsbDevice::decode(&out[..311], 0).unwrap_err(), DecodeFailure::UnexpectedEnd);
    let mut bad = out.clone();
    bad[299] = 7;
    assert_eq!(
        UsbDevice::decode(&bad, 0).unwrap_err(),
        DecodeFailure::UnexpectedVariant { found: 7 }
    );
}

#[test]
fn error_texts() {
    assert_eq!(ParseDeviceStatusError::Invalid.message(), "Invalid device status");
    match "".parse::<DeviceStatus>() {
        Err(e) => assert_eq!(e.message(), "cannot parse integer from empty string"),
        Ok(_) => panic!("empty text is no status"),
    }
}
