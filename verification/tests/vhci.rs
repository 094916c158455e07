use usbip_core::unix::host::Error as HostError;
use usbip_core::device::UsbDevice;
use usbip_core::names::parse_contents;
use usbip_core::unix::host::{
    bind, bind_plan, match_busid_add, match_busid_del, rebind, unbind, unbind_other, BindTarget,
};
use usbip_core::unix::udev_utils::{AttrValue, UdevDeviceAttrs};
use usbip_core::unix::vhci2::{
    attach_text, connection_record, detach_text, imported_lines, num_controllers, parse_available,
    parse_imported_line, port_record_path, record_fields, record_host, status_attr, RecordError,
    AttachRefusal, AvailableIdev, OpenPorts, StatusLineError, UnixImportedDevice,
};
use usbip_core::vhci::{HubSpeed, ParseHubSpeedError};
use usbip_core::containers::stacktools::TryFromStrErr;
use usbip_core::text::IntErrorKind;
use usbip_core::{DeviceSpeed, DeviceStatus, TryFromDeviceSpeedError};

const STATUS: &str = "hub port sta spd dev      sockfd local_busid\n\
hs  0000 004 000 00000000 000000 0-0\n\
hs  0001 006 003 00010002 000005 1-1\n\
ss  0002 004 000 00000000 000000 0-0\n";

#[test]
fn hub_speeds() {
    assert_eq!("ss".parse::<HubSpeed>(), Ok(HubSpeed::Super));
    assert_eq!("hs".parse::<HubSpeed>(), Ok(HubSpeed::High));
    assert_eq!("".parse::<HubSpeed>(), Err(ParseHubSpeedError::Empty));
    assert_eq!("fs".parse::<HubSpeed>(), Err(ParseHubSpeedError::Invalid));
    assert_eq!(DeviceSpeed::from(HubSpeed::Super).code(), 5);
    assert_eq!(HubSpeed::try_from(DeviceSpeed::high()), Ok(HubSpeed::High));
    assert_eq!(
        HubSpeed::try_from(DeviceSpeed::full()),
        Err(TryFromDeviceSpeedError::Invalid)
    );
}

#[test]
fn free_port_lines() {
    let p = parse_available("hs  0000 004 000 00000000 000000 0-0").unwrap().unwrap();
    assert_eq!(p.port, 0);
    assert_eq!(p.hub_speed, HubSpeed::High);
    assert_eq!(parse_available("hs  0001 006 003 00010002 000005 1-1").unwrap(), None);
    assert!(matches!(parse_available("xs 0001 006"), Err(StatusLineError::Hub(_))));
    assert!(matches!(parse_available("hs 70000 006"), Err(StatusLineError::Int(_))));
    assert!(matches!(parse_available("hs 1 9"), Err(StatusLineError::Status(_))));
}

#[test]
fn imported_device_lines() {
    let l = parse_imported_line("hs  0001 006 003 00010002 000005 1-1").unwrap().unwrap();
    assert_eq!(l.port, 1);
    assert_eq!(l.status, DeviceStatus::PortInUse);
    assert_eq!(l.devid, 10002);
    assert_eq!(l.busid, "1-1");
    assert!(parse_imported_line("ss  0002 004 000 00000000 000000 0-0").unwrap().is_none());
    let lines = imported_lines(STATUS).unwrap();
    assert_eq!(lines.len(), 1);
    assert_eq!(lines[0].busid, "1-1");
}

#[test]
fn status_lines_with_missing_words_are_errors() {
    assert_eq!(parse_available(""), Err(StatusLineError::Missing));
    assert_eq!(parse_available("hs"), Err(StatusLineError::Missing));
    assert_eq!(parse_available("hs 0001"), Err(StatusLineError::Missing));
    assert!(parse_imported_line("hs 0001 006 003 00010002").is_err());
    assert!(matches!(parse_imported_line("hs 0001 006 003 00010002 000005"), Err(StatusLineError::Missing)));
    assert!(matches!(parse_imported_line("hs 0001 006 x"), Err(StatusLineError::Int(_))));
    let broken = "hub port sta spd dev      sockfd local_busid\n\
hs  0000 004 000 00000000 000000 0-0\n\
hs  0001 006\n\
ss  0002 zz\n";
    assert!(matches!(imported_lines(broken), Err(StatusLineError::Missing)));
}

#[test]
fn open_ports_from_status() {
    let mut ports = OpenPorts::new();
    ports.add_status(STATUS);
    assert_eq!(ports.get().len(), 2);
    assert!(ports.contains_port(2));
    assert!(!ports.contains_port(1));
    let taken = ports.get_next(DeviceSpeed::super_speed()).unwrap();
    assert_eq!(taken.port, 2);
    assert_eq!(ports.get().len(), 1);
    assert!(ports.get_next(DeviceSpeed::super_speed()).is_none());
    ports.push(taken);
    assert!(ports.contains_port(2));
    assert!(ports.get_next(DeviceSpeed::full()).is_none());
}

#[test]
fn status_attribute_names() {
    assert_eq!(status_attr(0), "status");
    assert_eq!(status_attr(12), "status.12");
}

fn device(bus_id: &'static [u8], speed: &'static str) -> UsbDevice {
    UsbDevice::from_udev_attrs(&UdevDeviceAttrs {
        syspath: b"/sys/devices/x",
        sysname: bus_id,
        id_vendor: AttrValue::Text("1234"),
        id_product: AttrValue::Text("5678"),
        busnum: AttrValue::Text("3"),
        devnum: Some(4),
        speed: AttrValue::Text(speed),
        bcd_device: AttrValue::Text("1"),
        b_device_class: AttrValue::Text("0"),
        b_device_subclass: AttrValue::Text("0"),
        b_device_protocol: AttrValue::Text("0"),
        b_configuration_value: AttrValue::Text("1"),
        b_num_configurations: AttrValue::Text("1"),
        b_num_interfaces: AttrValue::Text("1"),
    })
    .unwrap()
}

#[test]
fn attach_is_planned() {
    let mut ports = OpenPorts::new();
    ports.push(AvailableIdev { port: 8, hub_speed: HubSpeed::High, status: DeviceStatus::PortAvailable });
    let dev = device(b"2-1", "480");
    match ports.plan_attach(&dev, "2-2") {
        Err(AttachRefusal::BusIdMismatch(b)) => assert_eq!(b, "2-1"),
        other => panic!("unexpected {other:?}"),
    }
    let plan = ports.plan_attach(&dev, "2-1").unwrap();
    assert_eq!(plan.port.port, 8);
    assert_eq!(plan.dev_id, (3 << 16) | 4);
    assert_eq!(attach_text(&plan, 5), "8 5 196612 3");
    assert!(matches!(ports.plan_attach(&dev, "2-1"), Err(AttachRefusal::NoFreePorts)));
    assert_eq!(detach_text(8), "8");
}

#[test]
fn failed_attach_puts_the_port_back() {
    let mut ports = OpenPorts::new();
    ports.push(AvailableIdev { port: 8, hub_speed: HubSpeed::High, status: DeviceStatus::PortAvailable });
    ports.push(AvailableIdev { port: 9, hub_speed: HubSpeed::High, status: DeviceStatus::PortAvailable });
    let dev = device(b"2-1", "480");
    let plan = ports.plan_attach(&dev, "2-1").unwrap();
    assert_eq!(plan.port.port, 8);
    assert!(!ports.contains_port(8));
    ports.finish_attach(&plan, false);
    assert!(ports.contains_port(8));
    assert!(ports.contains_port(9));
    assert_eq!(ports.get().len(), 2);
    let plan = ports.plan_attach(&dev, "2-1").unwrap();
    ports.finish_attach(&plan, true);
    assert!(!ports.contains_port(plan.port.port));
    assert_eq!(ports.get().len(), 1);
}

#[test]
fn imported_device_display() {
    let names = parse_contents("1234  Acme\n\t5678  Widget\n");
    let line = parse_imported_line("hs  0001 006 003 00010002 000005 1-1").unwrap().unwrap();
    let idev = UnixImportedDevice::new(line, device(b"1-1", "480"));
    assert_eq!(idev.port(), 1);
    assert_eq!(idev.base().vendor(), 1234);
    assert_eq!(idev.base().dev_id(), 10002);
    let shown = idev.display(&names, Ok(("10.0.0.2:3240", "3-1")));
    assert_eq!(
        shown,
        "Port 01: <Port in Use> at High Speed (480 Mbit/s)\n       Acme : Widget (04d2:162e)\n       1-1 -> usbip://10.0.0.2:3240/3-1\n           -> remote bus/dev 004/003\n"
    );
    let shown = idev.display(&names, Err("gone"));
    assert!(shown.starts_with("Error when reading port record: gone\nPort 01"));
    assert!(shown.contains("       1-1 -> unknown host, remote port and remote busid\n"));
}

#[test]
fn host_driver_files() {
    let w = match_busid_add("1-1");
    assert_eq!(w.dir, "/sys/bus/usb/drivers/usbip-host");
    assert_eq!(w.attr, "match_busid");
    assert_eq!(w.text, "add 1-1");
    assert_eq!(match_busid_del("1-1").text, "del 1-1");
    assert_eq!(bind("1-1").attr, "bind");
    assert_eq!(rebind("1-1").text, "1-1");
    assert_eq!(unbind("1-1").attr, "unbind");
    let o = unbind_other("usb", "1-1");
    assert_eq!(o.dir, "/sys/bus/usb/drivers/usb");
}

#[test]
fn bind_decisions() {
    let t = BindTarget { devpath: "/devices/usb1/1-1", b_device_class: 0, driver: Some("usb") };
    let w = bind_plan("1-1", &t).unwrap();
    assert_eq!(w.len(), 3);
    assert_eq!(w[0].dir, "/sys/bus/usb/drivers/usb");
    assert_eq!(w[1].text, "add 1-1");
    assert_eq!(w[2].attr, "bind");
    let t = BindTarget { devpath: "/devices/usb1/1-1", b_device_class: 0, driver: None };
    assert_eq!(bind_plan("1-1", &t).unwrap().len(), 2);
    let t = BindTarget { devpath: "/devices/usbip-host/1-1", b_device_class: 0, driver: None };
    assert!(matches!(bind_plan("1-1", &t), Err(HostError::BindLoop(p)) if p == "/devices/usbip-host/1-1"));
    let t = BindTarget { devpath: "/devices/usb1/1-1", b_device_class: 9, driver: None };
    assert!(matches!(bind_plan("1-1", &t), Err(HostError::UnbindFailed)));
    let t = BindTarget { devpath: "/devices/usb1/1-1", b_device_class: 0, driver: Some("usbip-host") };
    assert!(matches!(bind_plan("1-1", &t), Err(HostError::AlreadyBound)));
}

#[test]
fn controllers_and_records() {
    let names = vec!["vhci_hcd.0".to_string(), "driver".to_string(), "vhci_hcd.1".to_string()];
    assert_eq!(num_controllers(&names), Some(2));
    assert_eq!(num_controllers(&vec!["power".to_string()]), None);
    assert_eq!(port_record_path(3), "/var/run/vhci_hcd/port3");
    let rec = connection_record("10.0.0.1", 3240, "1-1");
    assert_eq!(rec, "10.0.0.1 3240 1-1\n");
    assert_eq!(record_host(&rec).unwrap(), "10.0.0.1");
    let (port, id) = record_fields(&rec).unwrap();
    assert_eq!(port, 3240);
    assert_eq!(id.as_str(), "1-1");
    let mut ports = OpenPorts::new();
    ports.get_mut().push(AvailableIdev { port: 1, hub_speed: HubSpeed::Super, status: DeviceStatus::PortAvailable });
    assert!(ports.contains_port(1));
    assert_eq!(ParseHubSpeedError::Empty.message(), "Invalid hub speed");
}

#[test]
fn record_reads_host_port_and_bus_id() {
    let rec = "10.0.0.7 3240 1-1.2\n";
    assert_eq!(record_host(rec), Some("10.0.0.7".to_string()));
    let (port, id) = record_fields(rec).unwrap();
    assert_eq!(port, 3240);
    assert_eq!(id.as_str(), "1-1.2");
}

#[test]
fn record_errors_come_in_order() {
    assert_eq!(record_host("   \n"), None);
    assert!(matches!(record_fields("host"), Err(RecordError::Invalid)));
    match record_fields("host 70000 1-1") {
        Err(RecordError::Int(e)) => assert_eq!(e.kind(), IntErrorKind::PosOverflow),
        other => panic!("unexpected {:?}", other),
    }
    match record_fields("host x 1-1") {
        Err(RecordError::Int(e)) => assert_eq!(e.kind(), IntErrorKind::InvalidDigit),
        other => panic!("unexpected {:?}", other),
    }
    assert!(matches!(record_fields("host 3240"), Err(RecordError::Invalid)));
    let long = "h 1 0123456789012345678901234567890123";
    assert_eq!(
        record_fields(long).unwrap_err(),
        RecordError::Buffer(TryFromStrErr::Length { max: 32, actual: 34 })
    );
    assert_eq!(record_fields("h +22 a").unwrap().0, 22);
}

#[test]
fn parse_record() {
    let record = "127.0.0.1 3240 1-1";
    assert_eq!(record_host(record).unwrap(), "127.0.0.1");
    let (port, bus_id) = record_fields(record).unwrap();
    assert_eq!(port, 3240);
    assert_eq!(bus_id.as_str(), "1-1");
}
