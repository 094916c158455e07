use vstd::prelude::*;

pub mod containers;
pub mod device;
pub mod names;
pub mod net;
pub mod text;
pub mod unix;
pub mod util;
pub mod vhci;
pub mod windows;
pub mod wire;

pub use device::{
    spec_parse_speed, spec_parse_status, speed_code_of_rate, status_number, status_of_number,
    DeviceSpeed, DeviceStatus, ParseDeviceStatusError, TryFromDeviceSpeedError, UsbDevice,
    UsbInterface,
};

verus! {

/// The USB/IP protocol version spoken by this library.
pub const USBIP_VERSION: usize = 0x111;

/// The size of the device path field.
pub const DEV_PATH_MAX: usize = 256;

/// The size of the bus id field.
pub const BUS_ID_SIZE: usize = 32;

} // verus!
