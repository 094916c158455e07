//! USB devices as the USB/IP protocol describes them.
use vstd::prelude::*;

use vstd::string::StringSliceAdditionalSpecFns;
use vstd::utf8::valid_utf8;

use crate::containers::stacktools::{
    lemma_trim_zero_padded, trimmed_len, zero_padded, StackStr, TryFromStrErr,
};
use crate::text::{digits, lemma_parse_digits, lemma_parse_uint_bound, parse_uint, parse_uint_str, str_is, ParseIntError};
use crate::unix::udev_utils::{
    int_err, lift_int, spec_sysattr_uint, sysattr_str, sysattr_uint, AttrValue, DeviceAttrError,
    Error, UdevDeviceAttrs,
};
use crate::wire::{
    be16, be32, from_be16, from_be32, from_le32, get_u16_be, get_u32_be, get_u32_le, le32,
    lemma_be16_roundtrip, lemma_be32_roundtrip, put_u16_be, put_u32_be, put_u32_le, DecodeFailure,
};
use crate::{BUS_ID_SIZE, DEV_PATH_MAX};

verus! {

/// The state of a vhci device port, numbered 1 to 7 in the kernel's status files.
#[derive(Debug, Clone, Copy, PartialEq, Eq, Structural)]
pub enum DeviceStatus {
    DevAvailable,
    DevInUse,
    DevError,
    PortAvailable,
    PortInitializing,
    PortInUse,
    PortError,
}

/// The number of a device status.
pub open spec fn status_number(s: DeviceStatus) -> u8 {
    match s {
        DeviceStatus::DevAvailable => 1,
        DeviceStatus::DevInUse => 2,
        DeviceStatus::DevError => 3,
        DeviceStatus::PortAvailable => 4,
        DeviceStatus::PortInitializing => 5,
        DeviceStatus::PortInUse => 6,
        DeviceStatus::PortError => 7,
    }
}

/// The device status with a number, if any.
pub open spec fn status_of_number(n: u8) -> Option<DeviceStatus> {
    if n == 1 {
        Some(DeviceStatus::DevAvailable)
    } else if n == 2 {
        Some(DeviceStatus::DevInUse)
    } else if n == 3 {
        Some(DeviceStatus::DevError)
    } else if n == 4 {
        Some(DeviceStatus::PortAvailable)
    } else if n == 5 {
        Some(DeviceStatus::PortInitializing)
    } else if n == 6 {
        Some(DeviceStatus::PortInUse)
    } else if n == 7 {
        Some(DeviceStatus::PortError)
    } else {
        None
    }
}

/// A status is the status of its number, and only the numbers 1 to 7 name
/// a status.
pub proof fn lemma_status_number_roundtrip(s: DeviceStatus, n: u8)
    ensures
        status_of_number(status_number(s)) == Some(s),
        status_of_number(n) is Some <==> 1 <= n <= 7,
        status_of_number(n) matches Some(t) ==> status_number(t) == n,
{
}

/// Why a device status could not be read.
#[derive(Debug, Clone, PartialEq, Eq, Structural)]
pub enum ParseDeviceStatusError {
    /// The number names no status.
    Invalid,
    /// The text is not a `u8`.
    Parse(ParseIntError),
}

impl ParseDeviceStatusError {
    /// The text shown for the error.
    pub fn message(&self) -> (r: &'static str)
        ensures
            *self == ParseDeviceStatusError::Invalid ==> r@ == "Invalid device status"@,
            self matches ParseDeviceStatusError::Parse(e) ==> (e.kind == crate::text::IntErrorKind::Empty
                ==> r@ == "cannot parse integer from empty string"@),
    {
        match self {
            ParseDeviceStatusError::Invalid => "Invalid device status",
            ParseDeviceStatusError::Parse(e) => e.message(),
        }
    }
}

/// What reading a device status out of `s` gives.
pub open spec fn spec_parse_status(s: Seq<char>) -> Result<DeviceStatus, ParseDeviceStatusError> {
    match parse_uint(s, 0xff) {
        Err(k) => Err(ParseDeviceStatusError::Parse(ParseIntError { kind: k })),
        Ok(n) => match status_of_number(n as u8) {
            Some(st) => Ok(st),
            None => Err(ParseDeviceStatusError::Invalid),
        },
    }
}

/// The numbers of the statuses are fixed, as the driver writes them in its
/// status files: 1 device available, 2 device in use, 3 device error, 4
/// port available, 5 port initializing, 6 port in use, 7 port error.
/// Reading the decimal text of a number up to 255 gives its status, and any
/// other such number is no status.
pub proof fn lemma_status_numbers(n: nat)
    requires
        n <= 0xff,
    ensures
        spec_parse_status(digits(n, 10)) == (if n == 1 {
            Ok(DeviceStatus::DevAvailable)
        } else if n == 2 {
            Ok(DeviceStatus::DevInUse)
        } else if n == 3 {
            Ok(DeviceStatus::DevError)
        } else if n == 4 {
            Ok(DeviceStatus::PortAvailable)
        } else if n == 5 {
            Ok(DeviceStatus::PortInitializing)
        } else if n == 6 {
            Ok(DeviceStatus::PortInUse)
        } else if n == 7 {
            Ok(DeviceStatus::PortError)
        } else {
            Err(ParseDeviceStatusError::Invalid)
        }),
{
    lemma_parse_digits(n, 0xff);
}

/// Each status has the number that the driver writes for it.
pub proof fn lemma_status_number_of(s: DeviceStatus)
    ensures
        s == DeviceStatus::DevAvailable ==> status_number(s) == 1,
        s == DeviceStatus::DevInUse ==> status_number(s) == 2,
        s == DeviceStatus::DevError ==> status_number(s) == 3,
        s == DeviceStatus::PortAvailable ==> status_number(s) == 4,
        s == DeviceStatus::PortInitializing ==> status_number(s) == 5,
        s == DeviceStatus::PortInUse ==> status_number(s) == 6,
        s == DeviceStatus::PortError ==> status_number(s) == 7,
{
}

impl DeviceStatus {
    /// The number of this status.
    pub fn number(&self) -> (r: u8)
        ensures
            r == status_number(*self),
    {
        match self {
            DeviceStatus::DevAvailable => 1,
            DeviceStatus::DevInUse => 2,
            DeviceStatus::DevError => 3,
            DeviceStatus::PortAvailable => 4,
            DeviceStatus::PortInitializing => 5,
            DeviceStatus::PortInUse => 6,
            DeviceStatus::PortError => 7,
        }
    }

    /// The status with number `n`, if any.
    pub fn from_number(n: u8) -> (r: Option<DeviceStatus>)
        ensures
            r == status_of_number(n),
    {
        match n {
            1 => Some(DeviceStatus::DevAvailable),
            2 => Some(DeviceStatus::DevInUse),
            3 => Some(DeviceStatus::DevError),
            4 => Some(DeviceStatus::PortAvailable),
            5 => Some(DeviceStatus::PortInitializing),
            6 => Some(DeviceStatus::PortInUse),
            7 => Some(DeviceStatus::PortError),
            _ => None,
        }
    }

    /// Reads a status from its decimal number.
    pub fn parse(s: &str) -> (r: Result<DeviceStatus, ParseDeviceStatusError>)
        ensures
            r == spec_parse_status(s@),
    {
        match parse_uint_str(s, 0xff) {
            Err(e) => Err(ParseDeviceStatusError::Parse(e)),
            Ok(n) => match Self::from_number(n as u8) {
                Some(st) => Ok(st),
                None => Err(ParseDeviceStatusError::Invalid),
            },
        }
    }
}

/// How a device status is shown.
pub open spec fn status_text(s: DeviceStatus) -> Seq<char> {
    match s {
        DeviceStatus::DevAvailable => "Device Available"@,
        DeviceStatus::DevInUse => "Device in Use"@,
        DeviceStatus::DevError => "Device Unusable Due To Fatal Error"@,
        DeviceStatus::PortAvailable => "Port Available"@,
        DeviceStatus::PortInitializing => "Port Initializing"@,
        DeviceStatus::PortInUse => "Port in Use"@,
        DeviceStatus::PortError => "Port Error"@,
    }
}

impl DeviceStatus {
    /// How the status is shown.
    pub fn message(&self) -> (r: &'static str)
        ensures
            r@ == status_text(*self),
    {
        match self {
            DeviceStatus::DevAvailable => "Device Available",
            DeviceStatus::DevInUse => "Device in Use",
            DeviceStatus::DevError => "Device Unusable Due To Fatal Error",
            DeviceStatus::PortAvailable => "Port Available",
            DeviceStatus::PortInitializing => "Port Initializing",
            DeviceStatus::PortInUse => "Port in Use",
            DeviceStatus::PortError => "Port Error",
        }
    }
}

impl std::str::FromStr for DeviceStatus {
    type Err = ParseDeviceStatusError;

    /// Reads a status number, as [`DeviceStatus::parse`] does.
    fn from_str(s: &str) -> (r: Result<Self, Self::Err>)
        ensures
            r == spec_parse_status(s@),
    {
        Self::parse(s)
    }
}

/// The speed of a USB device, held as the number that the protocol sends:
/// 0 unknown, 1 low, 2 full, 3 high, 4 wireless, 5 super, 6 super plus.
#[derive(Debug, Clone, Copy, PartialEq, Eq, Structural)]
pub struct DeviceSpeed {
    code: u32,
}

/// Why a device speed does not fit where it was asked for.
#[derive(Debug, Clone, Copy, PartialEq, Eq, Structural)]
pub enum TryFromDeviceSpeedError {
    Invalid,
}

/// The speed that a rate in Mbit/s, as sysfs writes it, stands for.
pub open spec fn speed_code_of_rate(rate: u32) -> u32 {
    if rate == 12 {
        2
    } else if rate == 480 {
        3
    } else if rate == 5000 {
        5
    } else if rate == 10000 {
        6
    } else {
        0
    }
}

/// What reading a device speed out of sysfs text gives.
pub open spec fn spec_parse_speed(s: Seq<char>) -> Result<u32, ParseIntError> {
    if s == "unknown"@ {
        Ok(0)
    } else if s == "1.5"@ {
        Ok(1)
    } else if s == "53.3-480"@ {
        Ok(4)
    } else {
        match parse_uint(s, 0xffff_ffff) {
            Ok(v) => Ok(speed_code_of_rate(v as u32)),
            Err(k) => Err(ParseIntError { kind: k }),
        }
    }
}

impl DeviceSpeed {
    #[verifier::type_invariant]
    spec fn inv(&self) -> bool {
        self.code < 7
    }

    /// The number of this speed on the wire.
    pub closed spec fn spec_code(&self) -> u32 {
        self.code
    }

    /// The number of this speed on the wire.
    pub fn code(&self) -> (r: u32)
        ensures
            r == self.spec_code(),
            r < 7,
    {
        proof {
            use_type_invariant(self);
        }
        self.code
    }

    /// The speed with wire number `code`, if any.
    pub fn from_code(code: u32) -> (r: Option<DeviceSpeed>)
        ensures
            code < 7 <==> r is Some,
            r matches Some(s) ==> s.spec_code() == code,
    {
        if code < 7 {
            Some(DeviceSpeed { code })
        } else {
            None
        }
    }

    pub fn unknown() -> (r: DeviceSpeed)
        ensures
            r.spec_code() == 0,
    {
        DeviceSpeed { code: 0 }
    }

    /// Low speed (1.5 Mbit/s).
    pub fn low() -> (r: DeviceSpeed)
        ensures
            r.spec_code() == 1,
    {
        DeviceSpeed { code: 1 }
    }

    /// Full speed (12 Mbit/s).
    pub fn full() -> (r: DeviceSpeed)
        ensures
            r.spec_code() == 2,
    {
        DeviceSpeed { code: 2 }
    }

    /// High speed (480 Mbit/s).
    pub fn high() -> (r: DeviceSpeed)
        ensures
            r.spec_code() == 3,
    {
        DeviceSpeed { code: 3 }
    }

    /// Wireless speed.
    pub fn wireless() -> (r: DeviceSpeed)
        ensures
            r.spec_code() == 4,
    {
        DeviceSpeed { code: 4 }
    }

    /// Super speed (5 Gbit/s).
    pub fn super_speed() -> (r: DeviceSpeed)
        ensures
            r.spec_code() == 5,
    {
        DeviceSpeed { code: 5 }
    }

    /// Super speed plus (10 Gbit/s).
    pub fn super_speed_plus() -> (r: DeviceSpeed)
        ensures
            r.spec_code() == 6,
    {
        DeviceSpeed { code: 6 }
    }

    /// The speed of a rate in Mbit/s: 12, 480, 5000 and 10000 name full,
    /// high, super and super plus speed; any other rate is unknown.
    pub fn from_rate(rate: u32) -> (r: DeviceSpeed)
        ensures
            r.spec_code() == speed_code_of_rate(rate),
    {
        match rate {
            12 => DeviceSpeed { code: 2 },
            480 => DeviceSpeed { code: 3 },
            5000 => DeviceSpeed { code: 5 },
            10000 => DeviceSpeed { code: 6 },
            _ => DeviceSpeed { code: 0 },
        }
    }

    /// Reads a speed as sysfs writes it: `unknown`, `1.5`, `53.3-480`, or a
    /// rate in Mbit/s.
    pub fn parse(s: &str) -> (r: Result<DeviceSpeed, ParseIntError>)
        ensures
            match spec_parse_speed(s@) {
                Ok(c) => r matches Ok(sp) && sp.spec_code() == c,
                Err(e) => r == Err::<DeviceSpeed, ParseIntError>(e),
            },
    {
        if str_is(s, "unknown") {
            Ok(DeviceSpeed { code: 0 })
        } else if str_is(s, "1.5") {
            Ok(DeviceSpeed { code: 1 })
        } else if str_is(s, "53.3-480") {
            Ok(DeviceSpeed { code: 4 })
        } else {
            match parse_uint_str(s, 0xffff_ffff) {
                Ok(v) => Ok(Self::from_rate(v)),
                Err(e) => Err(e),
            }
        }
    }

    /// Appends the speed's number, as a big-endian `u32`.
    pub fn encode(&self, out: &mut Vec<u8>)
        ensures
            final(out)@ == old(out)@ + be32(self.spec_code()),
    {
        put_u32_be(out, self.code());
    }

    /// Reads a speed's number at `pos`.
    pub fn decode(src: &[u8], pos: usize) -> (r: Result<DeviceSpeed, DecodeFailure>)
        requires
            pos <= src@.len(),
        ensures
            pos + 4 > src@.len() ==> r == Err::<DeviceSpeed, DecodeFailure>(DecodeFailure::UnexpectedEnd),
            pos + 4 <= src@.len() ==> {
                let c = from_be32(src@.subrange(pos as int, src@.len() as int));
                &&& c < 7 ==> (r matches Ok(s) && s.spec_code() == c)
                &&& c >= 7 ==> r == Err::<DeviceSpeed, DecodeFailure>(DecodeFailure::UnexpectedVariant { found: c })
            },
    {
        let c = match get_u32_be(src, pos) {
            Ok(c) => c,
            Err(e) => return Err(e),
        };
        match Self::from_code(c) {
            Some(s) => Ok(s),
            None => Err(DecodeFailure::UnexpectedVariant { found: c }),
        }
    }
}

impl DeviceSpeed {
    /// Appends the speed's number, as a little-endian `u32`.
    pub fn encode_le(&self, out: &mut Vec<u8>)
        ensures
            final(out)@ == old(out)@ + le32(self.spec_code()),
    {
        put_u32_le(out, self.code());
    }

    /// Reads a speed's number, little-endian, at `pos`.
    pub fn decode_le(src: &[u8], pos: usize) -> (r: Result<DeviceSpeed, DecodeFailure>)
        requires
            pos <= src@.len(),
        ensures
            pos + 4 > src@.len() ==> r == Err::<DeviceSpeed, DecodeFailure>(DecodeFailure::UnexpectedEnd),
            pos + 4 <= src@.len() ==> {
                let c = from_le32(src@.subrange(pos as int, src@.len() as int));
                &&& c < 7 ==> (r matches Ok(s) && s.spec_code() == c)
                &&& c >= 7 ==> r == Err::<DeviceSpeed, DecodeFailure>(DecodeFailure::UnexpectedVariant { found: c })
            },
    {
        let c = match get_u32_le(src, pos) {
            Ok(c) => c,
            Err(e) => return Err(e),
        };
        match Self::from_code(c) {
            Some(s) => Ok(s),
            None => Err(DecodeFailure::UnexpectedVariant { found: c }),
        }
    }
}

/// How the speed with number `code` is shown.
pub open spec fn speed_text(code: u32) -> Seq<char> {
    if code == 1 {
        "Low Speed (1.5 Mbit/s)"@
    } else if code == 2 {
        "Full Speed (12 Mbit/s)"@
    } else if code == 3 {
        "High Speed (480 Mbit/s)"@
    } else if code == 4 {
        "Wireless Speed (??)"@
    } else if code == 5 {
        "Super Speed (5 Gbit/s)"@
    } else if code == 6 {
        "Super Speed Plus (10 Gbit/s)"@
    } else {
        "Unknown Speed"@
    }
}

impl DeviceSpeed {
    /// How the speed is shown.
    pub fn message(&self) -> (r: &'static str)
        ensures
            r@ == speed_text(self.spec_code()),
    {
        let c = self.code();
        if c == 1 {
            "Low Speed (1.5 Mbit/s)"
        } else if c == 2 {
            "Full Speed (12 Mbit/s)"
        } else if c == 3 {
            "High Speed (480 Mbit/s)"
        } else if c == 4 {
            "Wireless Speed (??)"
        } else if c == 5 {
            "Super Speed (5 Gbit/s)"
        } else if c == 6 {
            "Super Speed Plus (10 Gbit/s)"
        } else {
            "Unknown Speed"
        }
    }
}

impl std::str::FromStr for DeviceSpeed {
    type Err = ParseIntError;

    /// Reads a speed as sysfs writes it, as [`DeviceSpeed::parse`] does.
    fn from_str(s: &str) -> (r: Result<Self, Self::Err>)
        ensures
            match spec_parse_speed(s@) {
                Ok(c) => r matches Ok(sp) && sp.spec_code() == c,
                Err(e) => r == Err::<DeviceSpeed, ParseIntError>(e),
            },
    {
        Self::parse(s)
    }
}

impl vstd::std_specs::convert::FromSpecImpl<u32> for DeviceSpeed {
    open spec fn obeys_from_spec() -> bool {
        false
    }

    open spec fn from_spec(v: u32) -> Self {
        arbitrary()
    }
}

impl From<u32> for DeviceSpeed {
    fn from(value: u32) -> (r: Self)
        ensures
            r.spec_code() == speed_code_of_rate(value),
    {
        Self::from_rate(value)
    }
}

/// The class triple of a USB interface: class, subclass and protocol.
///
/// On the wire it takes four bytes, the last one being padding.
#[derive(Debug, Clone, Copy)]
pub struct UsbInterface {
    b_interface_class: u8,
    b_interface_subclass: u8,
    b_interface_protocol: u8,
}

impl View for UsbInterface {
    type V = (u8, u8, u8);

    closed spec fn view(&self) -> (u8, u8, u8) {
        (self.b_interface_class, self.b_interface_subclass, self.b_interface_protocol)
    }
}

impl UsbInterface {
    /// Appends the class, subclass and protocol bytes and a zero byte.
    pub fn encode(&self, out: &mut Vec<u8>)
        ensures
            final(out)@ == old(out)@ + seq![self@.0, self@.1, self@.2, 0u8],
    {
        out.push(self.b_interface_class);
        out.push(self.b_interface_subclass);
        out.push(self.b_interface_protocol);
        out.push(0u8);
        assert(final(out)@ =~= old(out)@ + seq![self@.0, self@.1, self@.2, 0u8]);
    }

    /// Reads an interface at `pos`: its three bytes must be there, and the
    /// padding byte is skipped when it is. Gives the interface and the number
    /// of bytes taken.
    pub fn decode(src: &[u8], pos: usize) -> (r: Result<(UsbInterface, usize), DecodeFailure>)
        requires
            pos <= src@.len(),
        ensures
            pos + 3 > src@.len() ==> r == Err::<(UsbInterface, usize), DecodeFailure>(DecodeFailure::UnexpectedEnd),
            pos + 3 <= src@.len() ==> (r matches Ok((i, n)) && i@ == (src@[pos as int], src@[pos + 1], src@[pos + 2])
                && n == (if pos + 4 <= src@.len() { 4usize } else { 3usize })),
    {
        if src.len() - pos < 3 {
            return Err(DecodeFailure::UnexpectedEnd);
        }
        let i = UsbInterface {
            b_interface_class: src[pos],
            b_interface_subclass: src[pos + 1],
            b_interface_protocol: src[pos + 2],
        };
        let n: usize = if src.len() - pos >= 4 { 4 } else { 3 };
        Ok((i, n))
    }
}

/// The size of an encoded [`UsbDevice`].
pub const USB_DEVICE_ENCODED_SIZE: usize = 312;

/// A USB device as a USB/IP host describes it.
#[derive(Debug)]
pub struct UsbDevice {
    path: StackStr<DEV_PATH_MAX>,
    busid: StackStr<BUS_ID_SIZE>,
    busnum: u32,
    devnum: u32,
    speed: DeviceSpeed,
    id_vendor: u16,
    id_product: u16,
    bcd_device: u16,
    b_device_class: u8,
    b_device_subclass: u8,
    b_device_protocol: u8,
    b_configuration_value: u8,
    b_num_configurations: u8,
    b_num_interfaces: u8,
}

/// The fields of a [`UsbDevice`]; for each string, its bytes and the whole
/// array it is held in.
#[verifier::ext_equal]
pub struct UsbDeviceView {
    pub path: Seq<u8>,
    pub path_raw: Seq<u8>,
    pub busid: Seq<u8>,
    pub busid_raw: Seq<u8>,
    pub busnum: u32,
    pub devnum: u32,
    pub speed: u32,
    pub id_vendor: u16,
    pub id_product: u16,
    pub bcd_device: u16,
    pub b_device_class: u8,
    pub b_device_subclass: u8,
    pub b_device_protocol: u8,
    pub b_configuration_value: u8,
    pub b_num_configurations: u8,
    pub b_num_interfaces: u8,
}

impl View for UsbDevice {
    type V = UsbDeviceView;

    closed spec fn view(&self) -> UsbDeviceView {
        UsbDeviceView {
            path: self.path.bytes(),
            path_raw: self.path.raw(),
            busid: self.busid.bytes(),
            busid_raw: self.busid.raw(),
            busnum: self.busnum,
            devnum: self.devnum,
            speed: self.speed.spec_code(),
            id_vendor: self.id_vendor,
            id_product: self.id_product,
            bcd_device: self.bcd_device,
            b_device_class: self.b_device_class,
            b_device_subclass: self.b_device_subclass,
            b_device_protocol: self.b_device_protocol,
            b_configuration_value: self.b_configuration_value,
            b_num_configurations: self.b_num_configurations,
            b_num_interfaces: self.b_num_interfaces,
        }
    }
}

/// The bytes of an encoded device: the two string arrays, then the numbers
/// big-endian, then the six single-byte fields.
pub open spec fn device_bytes(v: UsbDeviceView) -> Seq<u8> {
    v.path_raw + v.busid_raw + be32(v.busnum) + be32(v.devnum) + be32(v.speed) + be16(v.id_vendor)
        + be16(v.id_product) + be16(v.bcd_device) + seq![
        v.b_device_class,
        v.b_device_subclass,
        v.b_device_protocol,
        v.b_configuration_value,
        v.b_num_configurations,
        v.b_num_interfaces,
    ]
}

/// What decoding a device from the bytes `b` gives, field after field: a
/// string field must be there in full and be UTF-8, the speed must name a
/// speed, and every other field must be there.
pub open spec fn spec_decode_device(b: Seq<u8>) -> Result<UsbDeviceView, DecodeFailure> {
    if b.len() < 256 {
        Err(DecodeFailure::UnexpectedEnd)
    } else if !valid_utf8(b.subrange(0, 256)) {
        Err(DecodeFailure::Utf8)
    } else if b.len() < 288 {
        Err(DecodeFailure::UnexpectedEnd)
    } else if !valid_utf8(b.subrange(256, 288)) {
        Err(DecodeFailure::Utf8)
    } else if b.len() < 300 {
        Err(DecodeFailure::UnexpectedEnd)
    } else if from_be32(b.subrange(296, b.len() as int)) >= 7 {
        Err(DecodeFailure::UnexpectedVariant { found: from_be32(b.subrange(296, b.len() as int)) })
    } else if b.len() < 312 {
        Err(DecodeFailure::UnexpectedEnd)
    } else {
        let path_raw = b.subrange(0, 256);
        let busid_raw = b.subrange(256, 288);
        Ok(UsbDeviceView {
            path: path_raw.subrange(0, trimmed_len(path_raw) as int),
            path_raw,
            busid: busid_raw.subrange(0, trimmed_len(busid_raw) as int),
            busid_raw,
            busnum: from_be32(b.subrange(288, b.len() as int)),
            devnum: from_be32(b.subrange(292, b.len() as int)),
            speed: from_be32(b.subrange(296, b.len() as int)),
            id_vendor: from_be16(b.subrange(300, b.len() as int)),
            id_product: from_be16(b.subrange(302, b.len() as int)),
            bcd_device: from_be16(b.subrange(304, b.len() as int)),
            b_device_class: b[306],
            b_device_subclass: b[307],
            b_device_protocol: b[308],
            b_configuration_value: b[309],
            b_num_configurations: b[310],
            b_num_interfaces: b[311],
        })
    }
}

/// The device id of bus number `bus` and device number `dev`.
pub open spec fn spec_dev_id(bus: u32, dev: u32) -> u32 {
    ((bus << 16u32) | dev) as u32
}

impl UsbDevice {
    /// The sysfs path of the device.
    pub fn path(&self) -> (r: &str)
        ensures
            r.spec_bytes() == self@.path,
    {
        self.path.as_str()
    }

    /// The bus id of the device, such as `1-1`.
    pub fn bus_id(&self) -> (r: &str)
        ensures
            r.spec_bytes() == self@.busid,
    {
        self.busid.as_str()
    }

    /// The device id: the bus number in the high sixteen bits, or-ed with the
    /// device number.
    pub fn dev_id(&self) -> (r: u32)
        ensures
            r == spec_dev_id(self@.busnum, self@.devnum),
    {
        (self.bus_num() << 16u32) | self.dev_num()
    }

    pub fn speed(&self) -> (r: DeviceSpeed)
        ensures
            r.spec_code() == self@.speed,
    {
        self.speed
    }

    pub fn bus_num(&self) -> (r: u32)
        ensures
            r == self@.busnum,
    {
        self.busnum
    }

    pub fn dev_num(&self) -> (r: u32)
        ensures
            r == self@.devnum,
    {
        self.devnum
    }

    pub fn id_vendor(&self) -> (r: u16)
        ensures
            r == self@.id_vendor,
    {
        self.id_vendor
    }

    pub fn id_product(&self) -> (r: u16)
        ensures
            r == self@.id_product,
    {
        self.id_product
    }

    /// Appends the encoded device to `out`.
    pub fn encode(&self, out: &mut Vec<u8>)
        ensures
            final(out)@ == old(out)@ + device_bytes(self@),
    {
        self.path.encode(out);
        self.busid.encode(out);
        put_u32_be(out, self.busnum);
        put_u32_be(out, self.devnum);
        self.speed.encode(out);
        put_u16_be(out, self.id_vendor);
        put_u16_be(out, self.id_product);
        put_u16_be(out, self.bcd_device);
        out.push(self.b_device_class);
        out.push(self.b_device_subclass);
        out.push(self.b_device_protocol);
        out.push(self.b_configuration_value);
        out.push(self.b_num_configurations);
        out.push(self.b_num_interfaces);
        assert(final(out)@ =~= old(out)@ + device_bytes(self@));
    }

    /// Reads a device at `pos`.
    pub fn decode(src: &[u8], pos: usize) -> (r: Result<UsbDevice, DecodeFailure>)
        requires
            pos <= src@.len(),
        ensures
            match spec_decode_device(src@.subrange(pos as int, src@.len() as int)) {
                Ok(v) => r matches Ok(d) && d@ == v,
                Err(e) => r == Err::<UsbDevice, DecodeFailure>(e),
            },
    {
        let ghost b = src@.subrange(pos as int, src@.len() as int);
        // The length of `src`, a `usize`, bounds every position below.
        let _len = src.len();
        let path = match StackStr::<DEV_PATH_MAX>::decode(src, pos) {
            Ok(p) => p,
            Err(e) => {
                assert(b.len() >= 256 ==> b.subrange(0, 256) =~= src@.subrange(pos as int, pos + 256));
                return Err(e);
            },
        };
        assert(b.subrange(0, 256) =~= src@.subrange(pos as int, pos + 256));
        assert(pos + 256 <= src@.len());
        let p1 = pos + 256;
        let busid = match StackStr::<BUS_ID_SIZE>::decode(src, p1) {
            Ok(p) => p,
            Err(e) => {
                assert(b.len() >= 288 ==> b.subrange(256, 288) =~= src@.subrange(p1 as int, p1 + 32));
                return Err(e);
            },
        };
        assert(b.subrange(256, 288) =~= src@.subrange(p1 as int, p1 + 32));
        assert(p1 + 32 <= src@.len());
        let p2 = p1 + 32;
        let busnum = match get_u32_be(src, p2) {
            Ok(v) => v,
            Err(e) => return Err(e),
        };
        let devnum = match get_u32_be(src, p2 + 4) {
            Ok(v) => v,
            Err(e) => return Err(e),
        };
        let speed = match DeviceSpeed::decode(src, p2 + 8) {
            Ok(v) => v,
            Err(e) => {
                assert(b.len() >= 300 ==> b.subrange(296, b.len() as int) =~= src@.subrange(p2 + 8, src@.len() as int));
                return Err(e);
            },
        };
        let p3 = p2 + 12;
        let id_vendor = match get_u16_be(src, p3) {
            Ok(v) => v,
            Err(e) => return Err(e),
        };
        let id_product = match get_u16_be(src, p3 + 2) {
            Ok(v) => v,
            Err(e) => return Err(e),
        };
        let bcd_device = match get_u16_be(src, p3 + 4) {
            Ok(v) => v,
            Err(e) => return Err(e),
        };
        let p4 = p3 + 6;
        if src.len() - p4 < 6 {
            return Err(DecodeFailure::UnexpectedEnd);
        }
        let d = UsbDevice {
            path,
            busid,
            busnum,
            devnum,
            speed,
            id_vendor,
            id_product,
            bcd_device,
            b_device_class: src[p4],
            b_device_subclass: src[p4 + 1],
            b_device_protocol: src[p4 + 2],
            b_configuration_value: src[p4 + 3],
            b_num_configurations: src[p4 + 4],
            b_num_interfaces: src[p4 + 5],
        };
        proof {
            assert(b.subrange(288, b.len() as int) =~= src@.subrange(p2 as int, src@.len() as int));
            assert(b.subrange(292, b.len() as int) =~= src@.subrange(p2 + 4, src@.len() as int));
            assert(b.subrange(296, b.len() as int) =~= src@.subrange(p2 + 8, src@.len() as int));
            assert(b.subrange(300, b.len() as int) =~= src@.subrange(p3 as int, src@.len() as int));
            assert(b.subrange(302, b.len() as int) =~= src@.subrange(p3 + 2, src@.len() as int));
            assert(b.subrange(304, b.len() as int) =~= src@.subrange(p3 + 4, src@.len() as int));
        }
        Ok(d)
    }
}

/// Decoding the bytes of a device gives the device back, when each of its
/// strings is zero-padded in its array and its speed names a speed.
pub proof fn lemma_decode_device_bytes(v: UsbDeviceView)
    requires
        zero_padded(v.path, v.path_raw, 256),
        zero_padded(v.busid, v.busid_raw, 32),
        v.speed < 7,
    ensures
        spec_decode_device(device_bytes(v)) == Ok::<UsbDeviceView, DecodeFailure>(v),
{
    lemma_trim_zero_padded(v.path, v.path_raw, 256);
    lemma_trim_zero_padded(v.busid, v.busid_raw, 32);
    lemma_be32_roundtrip(v.busnum);
    lemma_be32_roundtrip(v.devnum);
    lemma_be32_roundtrip(v.speed);
    lemma_be16_roundtrip(v.id_vendor);
    lemma_be16_roundtrip(v.id_product);
    lemma_be16_roundtrip(v.bcd_device);
    let b = device_bytes(v);
    assert(b.len() == 312);
    assert(b.subrange(0, 256) =~= v.path_raw);
    assert(b.subrange(256, 288) =~= v.busid_raw);
    assert(b.subrange(288, 312).subrange(0, 4) =~= be32(v.busnum));
    assert(b.subrange(288, b.len() as int).subrange(0, 4) =~= be32(v.busnum));
    assert(b.subrange(292, b.len() as int).subrange(0, 4) =~= be32(v.devnum));
    assert(b.subrange(296, b.len() as int).subrange(0, 4) =~= be32(v.speed));
    assert(b.subrange(300, b.len() as int).subrange(0, 2) =~= be16(v.id_vendor));
    assert(b.subrange(302, b.len() as int).subrange(0, 2) =~= be16(v.id_product));
    assert(b.subrange(304, b.len() as int).subrange(0, 2) =~= be16(v.bcd_device));
    assert(spec_decode_device(b) =~= Ok::<UsbDeviceView, DecodeFailure>(v));
}

/// What reading a string attribute of at most `max` bytes gives.
pub open spec fn spec_str_attr(bytes: Seq<u8>, max: nat) -> Result<Seq<u8>, Error<DeviceAttrError>> {
    if !valid_utf8(bytes) {
        Err(Error::CustomErr(DeviceAttrError::Str(TryFromStrErr::NotUtf8(arbitrary()))))
    } else if bytes.len() > max {
        Err(
            Error::CustomErr(
                DeviceAttrError::Str(TryFromStrErr::Length { max: max as usize, actual: bytes.len() as usize }),
            ),
        )
    } else {
        Ok(bytes)
    }
}

/// What reading the speed attribute gives.
pub open spec fn spec_speed_attr<'a>(v: AttrValue<'a>) -> Result<u32, Error<DeviceAttrError>> {
    match v {
        AttrValue::Missing => Err(Error::AttributeNotFound),
        AttrValue::NotUtf8 => Err(Error::NotUtf8),
        AttrValue::Text(s) => match spec_parse_speed(s@) {
            Ok(c) => Ok(c),
            Err(e) => Err(Error::CustomErr(DeviceAttrError::Int(e))),
        },
    }
}

/// `n` zero bytes.
pub open spec fn zeros(n: nat) -> Seq<u8> {
    Seq::new(n, |i: int| 0u8)
}

/// A single-byte attribute that may be missing: zero unless it reads.
pub open spec fn spec_u8_or_zero<'a>(v: AttrValue<'a>) -> u8 {
    match spec_sysattr_uint(v, 0xff) {
        Ok(n) => n as u8,
        Err(_) => 0,
    }
}

/// What building a device out of its udev attributes gives: the path (at
/// most 255 bytes) and the bus id (at most 31 bytes), then the attributes in
/// the order of the fields, each of which must read; the number of
/// configurations and of interfaces are zero when they do not read.
pub open spec fn spec_device_from_attrs<'a>(a: UdevDeviceAttrs<'a>) -> Result<UsbDeviceView, Error<DeviceAttrError>> {
    match spec_str_attr(a.syspath@, 255) {
        Err(e) => Err(e),
        Ok(path) => match spec_str_attr(a.sysname@, 31) {
            Err(e) => Err(e),
            Ok(busid) => match spec_sysattr_uint(a.id_vendor, 0xffff) {
                Err(e) => Err(lift_int(e)),
                Ok(id_vendor) => match spec_sysattr_uint(a.id_product, 0xffff) {
                    Err(e) => Err(lift_int(e)),
                    Ok(id_product) => match spec_sysattr_uint(a.busnum, 0xffff_ffff) {
                        Err(e) => Err(lift_int(e)),
                        Ok(busnum) => match a.devnum {
                            None => Err(Error::AttributeNotFound),
                            Some(devnum) => match spec_speed_attr(a.speed) {
                                Err(e) => Err(e),
                                Ok(speed) => match spec_sysattr_uint(a.bcd_device, 0xffff) {
                                    Err(e) => Err(lift_int(e)),
                                    Ok(bcd_device) => match spec_sysattr_uint(a.b_device_class, 0xff) {
                                        Err(e) => Err(lift_int(e)),
                                        Ok(class) => match spec_sysattr_uint(a.b_device_subclass, 0xff) {
                                            Err(e) => Err(lift_int(e)),
                                            Ok(subclass) => match spec_sysattr_uint(a.b_device_protocol, 0xff) {
                                                Err(e) => Err(lift_int(e)),
                                                Ok(protocol) => match spec_sysattr_uint(a.b_configuration_value, 0xff) {
                                                    Err(e) => Err(lift_int(e)),
                                                    Ok(config) => Ok(
                                                        UsbDeviceView {
                                                            path,
                                                            path_raw: path + zeros((256 - path.len()) as nat),
                                                            busid,
                                                            busid_raw: busid + zeros((32 - busid.len()) as nat),
                                                            busnum,
                                                            devnum: devnum as u32,
                                                            speed,
                                                            id_vendor: id_vendor as u16,
                                                            id_product: id_product as u16,
                                                            bcd_device: bcd_device as u16,
                                                            b_device_class: class as u8,
                                                            b_device_subclass: subclass as u8,
                                                            b_device_protocol: protocol as u8,
                                                            b_configuration_value: config as u8,
                                                            b_num_configurations: spec_u8_or_zero(a.b_num_configurations),
                                                            b_num_interfaces: spec_u8_or_zero(a.b_num_interfaces),
                                                        },
                                                    ),
                                                },
                                            },
                                        },
                                    },
                                },
                            },
                        },
                    },
                },
            },
        },
    }
}

/// A device built from udev attributes carries each attribute in its own
/// field: the numbers of its vendor, product, bus, device release, class,
/// subclass, protocol and configuration are the decimal numbers that the
/// attributes of the same names hold, its device number is udev's, its speed
/// is what its speed attribute reads as, and its path and bus id are the
/// syspath and sysname it was read from.
pub proof fn lemma_device_attr_fields<'a>(a: UdevDeviceAttrs<'a>)
    ensures
        spec_device_from_attrs(a) matches Ok(v) ==> {
            &&& a.id_vendor matches AttrValue::Text(t) && parse_uint(t@, 0xffff) == Ok::<int, crate::text::IntErrorKind>(v.id_vendor as int)
            &&& a.id_product matches AttrValue::Text(t) && parse_uint(t@, 0xffff) == Ok::<int, crate::text::IntErrorKind>(v.id_product as int)
            &&& a.busnum matches AttrValue::Text(t) && parse_uint(t@, 0xffff_ffff) == Ok::<int, crate::text::IntErrorKind>(v.busnum as int)
            &&& a.devnum matches Some(d) && v.devnum == d as u32
            &&& a.speed matches AttrValue::Text(t) && spec_parse_speed(t@) == Ok::<u32, ParseIntError>(v.speed)
            &&& a.bcd_device matches AttrValue::Text(t) && parse_uint(t@, 0xffff) == Ok::<int, crate::text::IntErrorKind>(v.bcd_device as int)
            &&& a.b_device_class matches AttrValue::Text(t) && parse_uint(t@, 0xff) == Ok::<int, crate::text::IntErrorKind>(v.b_device_class as int)
            &&& a.b_device_subclass matches AttrValue::Text(t) && parse_uint(t@, 0xff) == Ok::<int, crate::text::IntErrorKind>(v.b_device_subclass as int)
            &&& a.b_device_protocol matches AttrValue::Text(t) && parse_uint(t@, 0xff) == Ok::<int, crate::text::IntErrorKind>(v.b_device_protocol as int)
            &&& a.b_configuration_value matches AttrValue::Text(t) && parse_uint(t@, 0xff) == Ok::<int, crate::text::IntErrorKind>(v.b_configuration_value as int)
            &&& v.path == a.syspath@
            &&& v.busid == a.sysname@
            &&& v.b_num_configurations == (if a.b_num_configurations matches AttrValue::Text(t) && parse_uint(t@, 0xff) is Ok {
                parse_uint(a.b_num_configurations->0@, 0xff)->Ok_0 as u8
            } else {
                0u8
            })
            &&& v.b_num_interfaces == (if a.b_num_interfaces matches AttrValue::Text(t) && parse_uint(t@, 0xff) is Ok {
                parse_uint(a.b_num_interfaces->0@, 0xff)->Ok_0 as u8
            } else {
                0u8
            })
        },
        ({
            &&& valid_utf8(a.syspath@) && a.syspath@.len() <= 255
            &&& valid_utf8(a.sysname@) && a.sysname@.len() <= 31
            &&& a.id_vendor matches AttrValue::Text(t) && parse_uint(t@, 0xffff) is Ok
            &&& a.id_product matches AttrValue::Text(t) && parse_uint(t@, 0xffff) is Ok
            &&& a.busnum matches AttrValue::Text(t) && parse_uint(t@, 0xffff_ffff) is Ok
            &&& a.devnum is Some
            &&& a.speed matches AttrValue::Text(t) && spec_parse_speed(t@) is Ok
            &&& a.bcd_device matches AttrValue::Text(t) && parse_uint(t@, 0xffff) is Ok
            &&& a.b_device_class matches AttrValue::Text(t) && parse_uint(t@, 0xff) is Ok
            &&& a.b_device_subclass matches AttrValue::Text(t) && parse_uint(t@, 0xff) is Ok
            &&& a.b_device_protocol matches AttrValue::Text(t) && parse_uint(t@, 0xff) is Ok
            &&& a.b_configuration_value matches AttrValue::Text(t) && parse_uint(t@, 0xff) is Ok
        }) ==> spec_device_from_attrs(a) is Ok,
{
    let vs = seq![
        (a.id_vendor, 0xffffint),
        (a.id_product, 0xffffint),
        (a.busnum, 0xffff_ffffint),
        (a.bcd_device, 0xffffint),
        (a.b_device_class, 0xffint),
        (a.b_device_subclass, 0xffint),
        (a.b_device_protocol, 0xffint),
        (a.b_configuration_value, 0xffint),
        (a.b_num_configurations, 0xffint),
        (a.b_num_interfaces, 0xffint),
    ];
    assert forall|i: int| 0 <= i < vs.len() implies (#[trigger] vs[i]).0 matches AttrValue::Text(t) ==> (
    parse_uint(t@, vs[i].1) matches Ok(n) ==> 0 <= n <= vs[i].1) by {
        if let AttrValue::Text(t) = vs[i].0 {
            lemma_parse_uint_bound(t@, vs[i].1);
        }
    }
    assert(vs[0].0 == a.id_vendor);
    assert(vs[1].0 == a.id_product);
    assert(vs[2].0 == a.busnum);
    assert(vs[3].0 == a.bcd_device);
    assert(vs[4].0 == a.b_device_class);
    assert(vs[5].0 == a.b_device_subclass);
    assert(vs[6].0 == a.b_device_protocol);
    assert(vs[7].0 == a.b_configuration_value);
    assert(vs[8].0 == a.b_num_configurations);
    assert(vs[9].0 == a.b_num_interfaces);
}

/// Reads a string attribute of at most `N` bytes into an array of `M` bytes.
fn str_attr<const N: usize, const M: usize>(bytes: &[u8]) -> (r: Result<StackStr<M>, Error<DeviceAttrError>>)
    requires
        N <= M,
    ensures
        match spec_str_attr(bytes@, N as nat) {
            Ok(b) => r matches Ok(s) && s.bytes() == b && s.raw() == b + zeros((M - b.len()) as nat),
            Err(Error::CustomErr(DeviceAttrError::Str(TryFromStrErr::NotUtf8(_)))) => r matches Err(
                Error::CustomErr(DeviceAttrError::Str(TryFromStrErr::NotUtf8(_))),
            ),
            Err(e) => r == Err::<StackStr<M>, Error<DeviceAttrError>>(e),
        },
{
    match StackStr::<N>::from_utf8_bytes(bytes) {
        Err(e) => Err(Error::CustomErr(DeviceAttrError::Str(e))),
        Ok(short) => match StackStr::<M>::try_from(short.as_str()) {
            Ok(s) => Ok(s),
            Err(_) => {
                assert(false);
                Err(Error::AttributeNotFound)
            },
        },
    }
}

/// Reads the speed attribute.
fn speed_attr<'a>(v: AttrValue<'a>) -> (r: Result<DeviceSpeed, Error<DeviceAttrError>>)
    ensures
        match spec_speed_attr(v) {
            Ok(c) => r matches Ok(sp) && sp.spec_code() == c,
            Err(e) => r == Err::<DeviceSpeed, Error<DeviceAttrError>>(e),
        },
{
    match sysattr_str(v) {
        Err(Error::AttributeNotFound) => Err(Error::AttributeNotFound),
        Err(_) => Err(Error::NotUtf8),
        Ok(s) => match DeviceSpeed::parse(s) {
            Ok(sp) => Ok(sp),
            Err(e) => Err(Error::CustomErr(DeviceAttrError::Int(e))),
        },
    }
}

impl UsbDevice {
    /// Builds a device out of what udev tells of it.
    pub fn from_udev_attrs<'a>(a: &UdevDeviceAttrs<'a>) -> (r: Result<UsbDevice, Error<DeviceAttrError>>)
        ensures
            match spec_device_from_attrs(*a) {
                Ok(v) => r matches Ok(d) && d@ == v,
                Err(Error::CustomErr(DeviceAttrError::Str(TryFromStrErr::NotUtf8(_)))) => r matches Err(
                    Error::CustomErr(DeviceAttrError::Str(TryFromStrErr::NotUtf8(_))),
                ),
                Err(e) => r == Err::<UsbDevice, Error<DeviceAttrError>>(e),
            },
    {
        let path = match str_attr::<255, DEV_PATH_MAX>(a.syspath) {
            Ok(p) => p,
            Err(e) => return Err(e),
        };
        let busid = match str_attr::<31, BUS_ID_SIZE>(a.sysname) {
            Ok(p) => p,
            Err(e) => return Err(e),
        };
        let id_vendor = match sysattr_uint(a.id_vendor, 0xffff) {
            Ok(n) => n as u16,
            Err(e) => return Err(int_err(e)),
        };
        let id_product = match sysattr_uint(a.id_product, 0xffff) {
            Ok(n) => n as u16,
            Err(e) => return Err(int_err(e)),
        };
        let busnum = match sysattr_uint(a.busnum, 0xffff_ffff) {
            Ok(n) => n,
            Err(e) => return Err(int_err(e)),
        };
        let devnum = match a.devnum {
            Some(d) => d as u32,
            None => return Err(Error::AttributeNotFound),
        };
        let speed = match speed_attr(a.speed) {
            Ok(s) => s,
            Err(e) => return Err(e),
        };
        let bcd_device = match sysattr_uint(a.bcd_device, 0xffff) {
            Ok(n) => n as u16,
            Err(e) => return Err(int_err(e)),
        };
        let b_device_class = match sysattr_uint(a.b_device_class, 0xff) {
            Ok(n) => n as u8,
            Err(e) => return Err(int_err(e)),
        };
        let b_device_subclass = match sysattr_uint(a.b_device_subclass, 0xff) {
            Ok(n) => n as u8,
            Err(e) => return Err(int_err(e)),
        };
        let b_device_protocol = match sysattr_uint(a.b_device_protocol, 0xff) {
            Ok(n) => n as u8,
            Err(e) => return Err(int_err(e)),
        };
        let b_configuration_value = match sysattr_uint(a.b_configuration_value, 0xff) {
            Ok(n) => n as u8,
            Err(e) => return Err(int_err(e)),
        };
        let b_num_configurations = match sysattr_uint(a.b_num_configurations, 0xff) {
            Ok(n) => n as u8,
            Err(_) => 0,
        };
        let b_num_interfaces = match sysattr_uint(a.b_num_interfaces, 0xff) {
            Ok(n) => n as u8,
            Err(_) => 0,
        };
        let d = UsbDevice {
            path,
            busid,
            busnum,
            devnum,
            speed,
            id_vendor,
            id_product,
            bcd_device,
            b_device_class,
            b_device_subclass,
            b_device_protocol,
            b_configuration_value,
            b_num_configurations,
            b_num_interfaces,
        };
        assert(d@ =~= spec_device_from_attrs(*a)->Ok_0);
        Ok(d)
    }
}

} // verus!
