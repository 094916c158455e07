//! The control codes of the vhci driver's device I/O requests, and the
//! messages that go with them.
use vstd::prelude::*;

use crate::containers::stacktools::{lemma_trim_zero_padded, trimmed_len, zero_padded, StackStr};
use crate::device::DeviceSpeed;
use crate::util::EncodedSize;
use crate::wire::{
    from_le16, from_le32, get_i32_le, get_u16_le, get_u32_le, le16, le32, lemma_le16_roundtrip,
    lemma_le32_roundtrip, put_i32_le, put_u16_le, put_u32_le, DecodeFailure,
};
use crate::text::{digits, push_digits};
use crate::BUS_ID_SIZE;
use crate::wire::EncodeFailure;
use vstd::string::StringSliceAdditionalSpecFns;

verus! {

/// The type of a device, as the high sixteen bits of a control code name it.
#[derive(Debug, Clone, Copy, PartialEq, Eq, Structural)]
pub enum DeviceType {
    Port8042,
    Acpi,
    Battery,
    Beep,
    BusExtender,
    Cdrom,
    CdromFileSystem,
    Changer,
    Controller,
    DataLink,
    Dfs,
    DfsFileSystem,
    DfsVolume,
    Disk,
    DiskFileSystem,
    Dvd,
    FileSystem,
    Fips,
    FullscreenVideo,
    InportPort,
    Keyboard,
    Ks,
    Ksec,
    Mailslot,
    MassStorage,
    MidiIn,
    MidiOut,
    Modem,
    Mouse,
    MultiUncProvider,
    NamedPipe,
    Network,
    NetworkBrowser,
    NetworkFileSystem,
    NetworkRedirector,
    Null,
    ParallelPort,
    PhysicalNetcard,
    Printer,
    Scanner,
    Screen,
    Serenum,
    SerialPort,
    SerialMousePort,
    Smartcard,
    Smb,
    Sound,
    Streams,
    Tape,
    TapeFileSystem,
    Termsrv,
    Transport,
    Unknown,
    Vdm,
    Video,
    VirtualDisk,
    WaveIn,
    WaveOut,
}

/// The number of a device type, where one is given: no number is given to
/// CD-ROM, disk, DVD, smart card and tape devices.
pub open spec fn device_type_value(t: DeviceType) -> Option<u32> {
    match t {
        DeviceType::Port8042 => Some(0x27u32),
        DeviceType::Acpi => Some(0x32u32),
        DeviceType::Battery => Some(0x29u32),
        DeviceType::Beep => Some(0x01u32),
        DeviceType::BusExtender => Some(0x2au32),
        DeviceType::Cdrom => None,
        DeviceType::CdromFileSystem => Some(0x03u32),
        DeviceType::Changer => Some(0x30u32),
        DeviceType::Controller => Some(0x04u32),
        DeviceType::DataLink => Some(0x05u32),
        DeviceType::Dfs => Some(0x06u32),
        DeviceType::DfsFileSystem => Some(0x35u32),
        DeviceType::DfsVolume => Some(0x36u32),
        DeviceType::Disk => None,
        DeviceType::DiskFileSystem => Some(0x08u32),
        DeviceType::Dvd => None,
        DeviceType::FileSystem => Some(0x09u32),
        DeviceType::Fips => Some(0x3au32),
        DeviceType::FullscreenVideo => Some(0x34u32),
        DeviceType::InportPort => Some(0x0au32),
        DeviceType::Keyboard => Some(0x0bu32),
        DeviceType::Ks => Some(0x2fu32),
        DeviceType::Ksec => Some(0x39u32),
        DeviceType::Mailslot => Some(0x0cu32),
        DeviceType::MassStorage => Some(0x2du32),
        DeviceType::MidiIn => Some(0x0du32),
        DeviceType::MidiOut => Some(0x0eu32),
        DeviceType::Modem => Some(0x2bu32),
        DeviceType::Mouse => Some(0x0fu32),
        DeviceType::MultiUncProvider => Some(0x10u32),
        DeviceType::NamedPipe => Some(0x11u32),
        DeviceType::Network => Some(0x12u32),
        DeviceType::NetworkBrowser => Some(0x13u32),
        DeviceType::NetworkFileSystem => Some(0x14u32),
        DeviceType::NetworkRedirector => Some(0x28u32),
        DeviceType::Null => Some(0x15u32),
        DeviceType::ParallelPort => Some(0x16u32),
        DeviceType::PhysicalNetcard => Some(0x17u32),
        DeviceType::Printer => Some(0x18u32),
        DeviceType::Scanner => Some(0x19u32),
        DeviceType::Screen => Some(0x1cu32),
        DeviceType::Serenum => Some(0x37u32),
        DeviceType::SerialPort => Some(0x1bu32),
        DeviceType::SerialMousePort => Some(0x1au32),
        DeviceType::Smartcard => None,
        DeviceType::Smb => Some(0x2eu32),
        DeviceType::Sound => Some(0x1du32),
        DeviceType::Streams => Some(0x1eu32),
        DeviceType::Tape => None,
        DeviceType::TapeFileSystem => Some(0x20u32),
        DeviceType::Termsrv => Some(0x38u32),
        DeviceType::Transport => Some(0x21u32),
        DeviceType::Unknown => Some(0x22u32),
        DeviceType::Vdm => Some(0x2cu32),
        DeviceType::Video => Some(0x23u32),
        DeviceType::VirtualDisk => Some(0x24u32),
        DeviceType::WaveIn => Some(0x25u32),
        DeviceType::WaveOut => Some(0x26u32),
    }
}

/// The device type with number `v`; a number that names none is the
/// unknown device type.
pub open spec fn device_type_of_value(v: u32) -> DeviceType {
        if v == 0x01 {
        DeviceType::Beep
    } else     if v == 0x03 {
        DeviceType::CdromFileSystem
    } else     if v == 0x04 {
        DeviceType::Controller
    } else     if v == 0x05 {
        DeviceType::DataLink
    } else     if v == 0x06 {
        DeviceType::Dfs
    } else     if v == 0x08 {
        DeviceType::DiskFileSystem
    } else     if v == 0x09 {
        DeviceType::FileSystem
    } else     if v == 0x0a {
        DeviceType::InportPort
    } else     if v == 0x0b {
        DeviceType::Keyboard
    } else     if v == 0x0c {
        DeviceType::Mailslot
    } else     if v == 0x0d {
        DeviceType::MidiIn
    } else     if v == 0x0e {
        DeviceType::MidiOut
    } else     if v == 0x0f {
        DeviceType::Mouse
    } else     if v == 0x10 {
        DeviceType::MultiUncProvider
    } else     if v == 0x11 {
        DeviceType::NamedPipe
    } else     if v == 0x12 {
        DeviceType::Network
    } else     if v == 0x13 {
        DeviceType::NetworkBrowser
    } else     if v == 0x14 {
        DeviceType::NetworkFileSystem
    } else     if v == 0x15 {
        DeviceType::Null
    } else     if v == 0x16 {
        DeviceType::ParallelPort
    } else     if v == 0x17 {
        DeviceType::PhysicalNetcard
    } else     if v == 0x18 {
        DeviceType::Printer
    } else     if v == 0x19 {
        DeviceType::Scanner
    } else     if v == 0x1a {
        DeviceType::SerialMousePort
    } else     if v == 0x1b {
        DeviceType::SerialPort
    } else     if v == 0x1c {
        DeviceType::Screen
    } else     if v == 0x1d {
        DeviceType::Sound
    } else     if v == 0x1e {
        DeviceType::Streams
    } else     if v == 0x20 {
        DeviceType::TapeFileSystem
    } else     if v == 0x21 {
        DeviceType::Transport
    } else     if v == 0x22 {
        DeviceType::Unknown
    } else     if v == 0x23 {
        DeviceType::Video
    } else     if v == 0x24 {
        DeviceType::VirtualDisk
    } else     if v == 0x25 {
        DeviceType::WaveIn
    } else     if v == 0x26 {
        DeviceType::WaveOut
    } else     if v == 0x27 {
        DeviceType::Port8042
    } else     if v == 0x28 {
        DeviceType::NetworkRedirector
    } else     if v == 0x29 {
        DeviceType::Battery
    } else     if v == 0x2a {
        DeviceType::BusExtender
    } else     if v == 0x2b {
        DeviceType::Modem
    } else     if v == 0x2c {
        DeviceType::Vdm
    } else     if v == 0x2d {
        DeviceType::MassStorage
    } else     if v == 0x2e {
        DeviceType::Smb
    } else     if v == 0x2f {
        DeviceType::Ks
    } else     if v == 0x30 {
        DeviceType::Changer
    } else     if v == 0x32 {
        DeviceType::Acpi
    } else     if v == 0x34 {
        DeviceType::FullscreenVideo
    } else     if v == 0x35 {
        DeviceType::DfsFileSystem
    } else     if v == 0x36 {
        DeviceType::DfsVolume
    } else     if v == 0x37 {
        DeviceType::Serenum
    } else     if v == 0x38 {
        DeviceType::Termsrv
    } else     if v == 0x39 {
        DeviceType::Ksec
    } else     if v == 0x3a {
        DeviceType::Fips
    } else {
        DeviceType::Unknown
    }
}

impl DeviceType {
    /// The number of the device type. Not for the types that have none.
    pub fn into_u32(self) -> (r: u32)
        requires
            device_type_value(self) is Some,
        ensures
            device_type_value(self) == Some(r),
    {
        match self {
            DeviceType::Port8042 => 0x27,
            DeviceType::Acpi => 0x32,
            DeviceType::Battery => 0x29,
            DeviceType::Beep => 0x01,
            DeviceType::BusExtender => 0x2a,
            DeviceType::CdromFileSystem => 0x03,
            DeviceType::Changer => 0x30,
            DeviceType::Controller => 0x04,
            DeviceType::DataLink => 0x05,
            DeviceType::Dfs => 0x06,
            DeviceType::DfsFileSystem => 0x35,
            DeviceType::DfsVolume => 0x36,
            DeviceType::DiskFileSystem => 0x08,
            DeviceType::FileSystem => 0x09,
            DeviceType::Fips => 0x3a,
            DeviceType::FullscreenVideo => 0x34,
            DeviceType::InportPort => 0x0a,
            DeviceType::Keyboard => 0x0b,
            DeviceType::Ks => 0x2f,
            DeviceType::Ksec => 0x39,
            DeviceType::Mailslot => 0x0c,
            DeviceType::MassStorage => 0x2d,
            DeviceType::MidiIn => 0x0d,
            DeviceType::MidiOut => 0x0e,
            DeviceType::Modem => 0x2b,
            DeviceType::Mouse => 0x0f,
            DeviceType::MultiUncProvider => 0x10,
            DeviceType::NamedPipe => 0x11,
            DeviceType::Network => 0x12,
            DeviceType::NetworkBrowser => 0x13,
            DeviceType::NetworkFileSystem => 0x14,
            DeviceType::NetworkRedirector => 0x28,
            DeviceType::Null => 0x15,
            DeviceType::ParallelPort => 0x16,
            DeviceType::PhysicalNetcard => 0x17,
            DeviceType::Printer => 0x18,
            DeviceType::Scanner => 0x19,
            DeviceType::Screen => 0x1c,
            DeviceType::Serenum => 0x37,
            DeviceType::SerialPort => 0x1b,
            DeviceType::SerialMousePort => 0x1a,
            DeviceType::Smb => 0x2e,
            DeviceType::Sound => 0x1d,
            DeviceType::Streams => 0x1e,
            DeviceType::TapeFileSystem => 0x20,
            DeviceType::Termsrv => 0x38,
            DeviceType::Transport => 0x21,
            DeviceType::Unknown => 0x22,
            DeviceType::Vdm => 0x2c,
            DeviceType::Video => 0x23,
            DeviceType::VirtualDisk => 0x24,
            DeviceType::WaveIn => 0x25,
            DeviceType::WaveOut => 0x26,
            _ => unreached(),
        }
    }

    /// The device type with number `value`, or the unknown type.
    pub fn from_u32(value: u32) -> (r: DeviceType)
        ensures
            r == device_type_of_value(value),
    {
        match value {
            0x01 => DeviceType::Beep,
            0x03 => DeviceType::CdromFileSystem,
            0x04 => DeviceType::Controller,
            0x05 => DeviceType::DataLink,
            0x06 => DeviceType::Dfs,
            0x08 => DeviceType::DiskFileSystem,
            0x09 => DeviceType::FileSystem,
            0x0a => DeviceType::InportPort,
            0x0b => DeviceType::Keyboard,
            0x0c => DeviceType::Mailslot,
            0x0d => DeviceType::MidiIn,
            0x0e => DeviceType::MidiOut,
            0x0f => DeviceType::Mouse,
            0x10 => DeviceType::MultiUncProvider,
            0x11 => DeviceType::NamedPipe,
            0x12 => DeviceType::Network,
            0x13 => DeviceType::NetworkBrowser,
            0x14 => DeviceType::NetworkFileSystem,
            0x15 => DeviceType::Null,
            0x16 => DeviceType::ParallelPort,
            0x17 => DeviceType::PhysicalNetcard,
            0x18 => DeviceType::Printer,
            0x19 => DeviceType::Scanner,
            0x1a => DeviceType::SerialMousePort,
            0x1b => DeviceType::SerialPort,
            0x1c => DeviceType::Screen,
            0x1d => DeviceType::Sound,
            0x1e => DeviceType::Streams,
            0x20 => DeviceType::TapeFileSystem,
            0x21 => DeviceType::Transport,
            0x22 => DeviceType::Unknown,
            0x23 => DeviceType::Video,
            0x24 => DeviceType::VirtualDisk,
            0x25 => DeviceType::WaveIn,
            0x26 => DeviceType::WaveOut,
            0x27 => DeviceType::Port8042,
            0x28 => DeviceType::NetworkRedirector,
            0x29 => DeviceType::Battery,
            0x2a => DeviceType::BusExtender,
            0x2b => DeviceType::Modem,
            0x2c => DeviceType::Vdm,
            0x2d => DeviceType::MassStorage,
            0x2e => DeviceType::Smb,
            0x2f => DeviceType::Ks,
            0x30 => DeviceType::Changer,
            0x32 => DeviceType::Acpi,
            0x34 => DeviceType::FullscreenVideo,
            0x35 => DeviceType::DfsFileSystem,
            0x36 => DeviceType::DfsVolume,
            0x37 => DeviceType::Serenum,
            0x38 => DeviceType::Termsrv,
            0x39 => DeviceType::Ksec,
            0x3a => DeviceType::Fips,
            _ => DeviceType::Unknown,
        }
    }
}

/// A device type that has a number is the type of that number.
pub proof fn lemma_device_type_roundtrip(t: DeviceType)
    requires
        device_type_value(t) is Some,
    ensures
        device_type_of_value(device_type_value(t)->0) == t,
{
}

/// Numbering the type of a number gives the number back, when the number
/// names a type; a number that names none is read as the unknown type.
pub proof fn lemma_device_type_value_roundtrip(v: u32)
    ensures
        device_type_of_value(v) != DeviceType::Unknown || v == 0x22 ==> device_type_value(
            device_type_of_value(v),
        ) == Some(v),
        device_type_of_value(v) == DeviceType::Unknown && v != 0x22 ==> forall|t: DeviceType|
            device_type_value(t) != Some(v),
{
    assert forall|t: DeviceType| device_type_of_value(v) == DeviceType::Unknown && v != 0x22 implies device_type_value(t) != Some(v) by {
        if device_type_value(t) == Some(v) {
            lemma_device_type_roundtrip(t);
        }
    }
}

/// How the buffers of a request are handed to the driver.
#[derive(Debug, Clone, Copy, PartialEq, Eq, Structural)]
pub enum TransferMethod {
    Neither,
    InputDirect,
    OutputDirect,
    Buffered,
}

/// The number of a transfer method: buffered 0, input direct 1, output
/// direct 2, neither 3.
pub open spec fn transfer_method_value(m: TransferMethod) -> u32 {
    match m {
        TransferMethod::Buffered => 0,
        TransferMethod::InputDirect => 1,
        TransferMethod::OutputDirect => 2,
        TransferMethod::Neither => 3,
    }
}

/// The transfer method named by the two low bits of `v`.
pub open spec fn transfer_method_of_value(v: u32) -> TransferMethod {
    let m = v & 3;
    if m == 0 {
        TransferMethod::Buffered
    } else if m == 1 {
        TransferMethod::InputDirect
    } else if m == 2 {
        TransferMethod::OutputDirect
    } else {
        TransferMethod::Neither
    }
}

impl TransferMethod {
    /// The method named by the two low bits of `value`.
    pub fn from_u32(value: u32) -> (r: TransferMethod)
        ensures
            r == transfer_method_of_value(value),
    {
        let m = value & 3;
        assert(m < 4) by (bit_vector)
            requires
                m == value & 3,
        ;
        if m == 0 {
            TransferMethod::Buffered
        } else if m == 1 {
            TransferMethod::InputDirect
        } else if m == 2 {
            TransferMethod::OutputDirect
        } else {
            TransferMethod::Neither
        }
    }

    /// The number of the method.
    pub fn into_u32(self) -> (r: u32)
        ensures
            r == transfer_method_value(self),
    {
        match self {
            TransferMethod::Buffered => 0,
            TransferMethod::InputDirect => 1,
            TransferMethod::OutputDirect => 2,
            TransferMethod::Neither => 3,
        }
    }
}

/// The access a request asks for: a set of the read (1) and write (2)
/// flags; none at all is any access.
#[derive(Debug, Clone, Copy, PartialEq, Eq, Structural)]
pub struct RequiredAccess {
    bits: u32,
}

impl RequiredAccess {
    pub closed spec fn spec_bits(&self) -> u32 {
        self.bits
    }

    /// The flags, as bits.
    pub fn bits(&self) -> (r: u32)
        ensures
            r == self.spec_bits(),
    {
        self.bits
    }

    /// The set with these bits, when each of them names a flag.
    pub fn from_bits(bits: u32) -> (r: Option<RequiredAccess>)
        ensures
            (bits & !3u32 == 0) <==> r is Some,
            r matches Some(a) ==> a.spec_bits() == bits,
    {
        if bits & !3u32 == 0 {
            Some(RequiredAccess { bits })
        } else {
            None
        }
    }

    pub fn any_access() -> (r: RequiredAccess)
        ensures
            r.spec_bits() == 0,
    {
        RequiredAccess { bits: 0 }
    }

    pub fn read_data() -> (r: RequiredAccess)
        ensures
            r.spec_bits() == 1,
    {
        RequiredAccess { bits: 1 }
    }

    pub fn write_data() -> (r: RequiredAccess)
        ensures
            r.spec_bits() == 2,
    {
        RequiredAccess { bits: 2 }
    }

    pub fn read_write_data() -> (r: RequiredAccess)
        ensures
            r.spec_bits() == 3,
    {
        RequiredAccess { bits: 3 }
    }
}

/// The functions of the vhci driver, numbered from `0x800`.
#[derive(Debug, Clone, Copy, PartialEq, Eq, Structural)]
pub enum Function {
    PluginHardware,
    PlugoutHardware,
    GetImportedDevices,
    SetPersistent,
    GetPersistent,
}

/// The number of a function.
pub open spec fn function_value(f: Function) -> u32 {
    match f {
        Function::PluginHardware => 0x800,
        Function::PlugoutHardware => 0x801,
        Function::GetImportedDevices => 0x802,
        Function::SetPersistent => 0x803,
        Function::GetPersistent => 0x804,
    }
}

impl Function {
    /// The number of the function.
    pub fn as_u32(&self) -> (r: u32)
        ensures
            r == function_value(*self),
    {
        match self {
            Function::PluginHardware => 0x800,
            Function::PlugoutHardware => 0x801,
            Function::GetImportedDevices => 0x802,
            Function::SetPersistent => 0x803,
            Function::GetPersistent => 0x804,
        }
    }
}

/// A device I/O control code: device type, required access, function
/// number and transfer method.
#[derive(Debug, Clone, Copy, PartialEq, Eq, Structural)]
pub struct ControlCode {
    dev_type: DeviceType,
    access: RequiredAccess,
    num: u32,
    method: TransferMethod,
}

/// The fields of a [`ControlCode`]: device type, access bits, function
/// number and transfer method.
pub struct ControlCodeView {
    pub dev_type: DeviceType,
    pub access: u32,
    pub num: u32,
    pub method: TransferMethod,
}

impl View for ControlCode {
    type V = ControlCodeView;

    closed spec fn view(&self) -> ControlCodeView {
        ControlCodeView {
            dev_type: self.dev_type,
            access: self.access.spec_bits(),
            num: self.num,
            method: self.method,
        }
    }
}

/// The 32 bits of a control code: the type in bits 16 and up, the access in
/// bits 14 and 15, the number from bit 2, the method in bits 0 and 1, or-ed
/// together.
pub open spec fn control_code_bits(ty: u32, access: u32, num: u32, method: u32) -> u32 {
    ((ty << 16u32) | (access << 14u32) | (num << 2u32) | method) as u32
}

/// What reading the control code `v` gives.
pub open spec fn spec_control_code_of(v: u32) -> ControlCodeView {
    ControlCodeView {
        dev_type: device_type_of_value((v >> 16u32) & 0xffff),
        access: (v >> 14u32) & 3,
        num: (v >> 2u32) & 0xfff,
        method: transfer_method_of_value(v & 3),
    }
}

/// The fields of a code land in their own bits, and are read back from
/// them.
proof fn lemma_code_fields(ty: u32, access: u32, num: u32, method: u32)
    by (bit_vector)
    requires
        ty < 0x10000,
        access < 4,
        num < 0x1000,
        method < 4,
    ensures
        ((((ty << 16u32) | (access << 14u32) | (num << 2u32) | method) as u32) >> 16u32) & 0xffff == ty,
        ((((ty << 16u32) | (access << 14u32) | (num << 2u32) | method) as u32) >> 14u32) & 3 == access,
        ((((ty << 16u32) | (access << 14u32) | (num << 2u32) | method) as u32) >> 2u32) & 0xfff == num,
        (((ty << 16u32) | (access << 14u32) | (num << 2u32) | method) as u32) & 3 == method,
{
}

/// The bits of a code are its fields put back together.
proof fn lemma_code_split(v: u32)
    by (bit_vector)
    ensures
        ((((v >> 16u32) & 0xffff) << 16u32) | (((v >> 14u32) & 3) << 14u32) | (((v >> 2u32) & 0xfff)
            << 2u32) | (v & 3)) as u32 == v,
        (v >> 16u32) & 0xffff < 0x10000,
        (v >> 14u32) & 3 < 4,
        (v >> 2u32) & 0xfff < 0x1000,
        v & 3 < 4,
{
}

impl ControlCode {
    /// The code with which a request for function `f` is made: of the
    /// unknown device type, for reading and writing, buffered.
    pub fn for_function(f: Function) -> (r: ControlCode)
        ensures
            r@.dev_type == DeviceType::Unknown,
            r@.access == 3,
            r@.num == function_value(f),
            r@.method == TransferMethod::Buffered,
    {
        ControlCode {
            dev_type: DeviceType::Unknown,
            access: RequiredAccess::read_write_data(),
            num: f.as_u32(),
            method: TransferMethod::Buffered,
        }
    }

    pub fn dev_type(&self) -> (r: DeviceType)
        ensures
            r == self@.dev_type,
    {
        self.dev_type
    }

    pub fn required_access(&self) -> (r: RequiredAccess)
        ensures
            r.spec_bits() == self@.access,
    {
        self.access
    }

    pub fn num(&self) -> (r: u32)
        ensures
            r == self@.num,
    {
        self.num
    }

    pub fn transfer_method(&self) -> (r: TransferMethod)
        ensures
            r == self@.method,
    {
        self.method
    }

    /// Reads the fields of the code `value`.
    pub fn from_u32(value: u32) -> (r: ControlCode)
        ensures
            r@ == spec_control_code_of(value),
    {
        let method = value & 3;
        let num = (value >> 2u32) & 0xfff;
        let access = (value >> 14u32) & 3;
        let ty = (value >> 16u32) & 0xffff;
        assert(access & !3u32 == 0) by (bit_vector)
            requires
                access == (value >> 14u32) & 3,
        ;
        let req = match RequiredAccess::from_bits(access) {
            Some(a) => a,
            None => RequiredAccess::read_data(),
        };
        ControlCode {
            dev_type: DeviceType::from_u32(ty),
            access: req,
            num,
            method: TransferMethod::from_u32(method),
        }
    }

    /// The 32 bits of the code. Not for the device types that have no
    /// number.
    pub fn into_u32(self) -> (r: u32)
        requires
            device_type_value(self@.dev_type) is Some,
        ensures
            r == control_code_bits(
                device_type_value(self@.dev_type)->0,
                self@.access,
                self@.num,
                transfer_method_value(self@.method),
            ),
    {
        let method = self.transfer_method().into_u32();
        let num = self.num() << 2u32;
        let access = self.required_access().bits() << 14u32;
        let ty = self.dev_type().into_u32() << 16u32;
        ty | access | num | method
    }
}

/// Reading the bits of a code gives the code back, when its number fits in
/// twelve bits, its access in two, and its device type has a number.
pub proof fn lemma_control_code_roundtrip(c: ControlCodeView)
    requires
        device_type_value(c.dev_type) is Some,
        c.access < 4,
        c.num < 0x1000,
    ensures
        spec_control_code_of(
            control_code_bits(device_type_value(c.dev_type)->0, c.access, c.num, transfer_method_value(c.method)),
        ) == c,
{
    let ty = device_type_value(c.dev_type)->0;
    let m = transfer_method_value(c.method);
    lemma_code_fields(ty, c.access, c.num, m);
    lemma_device_type_roundtrip(c.dev_type);
    assert(m & 3 == m) by (bit_vector)
        requires
            m < 4,
    ;
    let bits = control_code_bits(ty, c.access, c.num, m);
    assert(transfer_method_of_value(bits & 3) == c.method);
}

/// Putting the fields of a code read from `v` back together gives `v`,
/// when its device type bits name a type.
pub proof fn lemma_control_code_bits_roundtrip(v: u32)
    requires
        device_type_value(device_type_of_value((v >> 16u32) & 0xffff)) == Some((v >> 16u32) & 0xffff),
    ensures
        ({
            let c = spec_control_code_of(v);
            control_code_bits(device_type_value(c.dev_type)->0, c.access, c.num, transfer_method_value(c.method)) == v
        }),
{
    lemma_code_split(v);
    let m = v & 3;
    assert(m & 3 == m) by (bit_vector)
        requires
            m == v & 3,
    ;
    assert(transfer_method_value(transfer_method_of_value(m)) == m);
    let ty = (v >> 16u32) & 0xffff;
    assert(device_type_value(device_type_of_value(ty))->0 == ty);
}

/// The error codes of the vhci driver that this library knows of.
#[derive(Debug, Clone, Copy, PartialEq, Eq, Structural)]
pub enum DriverError {
    InvalidAbi,
    IncompatibleProtocolVersion,
    DevNotConnected,
}

/// The driver error with code `v`, if it is one of them.
pub open spec fn driver_error_of(v: u32) -> Option<DriverError> {
    if v == 0xE1000008 {
        Some(DriverError::InvalidAbi)
    } else if v == 0xE1000005 {
        Some(DriverError::IncompatibleProtocolVersion)
    } else if v == 0x8007048F {
        Some(DriverError::DevNotConnected)
    } else {
        None
    }
}

impl DriverError {
    /// The driver error with code `v`, if it is one of them.
    pub fn from_u32(v: u32) -> (r: Option<DriverError>)
        ensures
            r == driver_error_of(v),
    {
        match v {
            0xE1000008 => Some(DriverError::InvalidAbi),
            0xE1000005 => Some(DriverError::IncompatibleProtocolVersion),
            0x8007048F => Some(DriverError::DevNotConnected),
            _ => None,
        }
    }
}

/// The size of a service name, as the driver lays it out.
pub const NI_MAXSERV: usize = 32;

/// The size of a host name, as the driver lays it out.
pub const NI_MAXHOST: usize = 1025;

/// A port number, sent to the driver as a little-endian `i32`.
#[derive(Debug)]
pub struct Port {
    port: u16,
}

impl EncodedSize for Port {
    fn encoded_size_of() -> (r: usize)
        ensures
            r == 4,
    {
        4
    }
}

impl Port {
    pub fn new(port: u16) -> (r: Port)
        ensures
            r.spec_get() == port,
    {
        Port { port }
    }

    pub closed spec fn spec_get(&self) -> u16 {
        self.port
    }

    /// The port number.
    pub fn get(&self) -> (r: u16)
        ensures
            r == self.spec_get(),
    {
        self.port
    }

    /// Appends the port as a little-endian `i32`.
    pub fn encode(&self, out: &mut Vec<u8>)
        ensures
            final(out)@ == old(out)@ + le32(self.spec_get() as u32),
    {
        let p = self.port as i32;
        assert(p as u32 == self.port as u32);
        put_i32_le(out, p);
    }

    /// Reads a little-endian `i32` at `pos` and keeps its low sixteen bits.
    pub fn decode(src: &[u8], pos: usize) -> (r: Result<Port, DecodeFailure>)
        requires
            pos <= src@.len(),
        ensures
            pos + 4 > src@.len() ==> r == Err::<Port, DecodeFailure>(DecodeFailure::UnexpectedEnd),
            pos + 4 <= src@.len() ==> (r matches Ok(p) && p.spec_get() == from_le32(
                src@.subrange(pos as int, src@.len() as int),
            ) as u16),
    {
        match get_i32_le(src, pos) {
            Ok(v) => {
                let port = v as u16;
                let ghost x = from_le32(src@.subrange(pos as int, src@.len() as int));
                assert(port == x as u16) by (bit_vector)
                    requires
                        port == v as u16,
                        v == x as i32,
                ;
                Ok(Port { port })
            },
            Err(e) => Err(e),
        }
    }
}

/// Reading back the bytes of a port gives the port.
pub proof fn lemma_port_roundtrip(port: u16)
    ensures
        from_le32(le32(port as u32)) as u16 == port,
{
    lemma_le32_roundtrip(port as u32);
}

/// A size, sent to the driver as a little-endian `u32`.
#[derive(Debug)]
pub struct SizeOf {
    size: u32,
}

impl EncodedSize for SizeOf {
    fn encoded_size_of() -> (r: usize)
        ensures
            r == 4,
    {
        4
    }
}

impl SizeOf {
    pub fn new(size: u32) -> (r: SizeOf)
        ensures
            r.spec_size() == size,
    {
        SizeOf { size }
    }

    pub closed spec fn spec_size(&self) -> u32 {
        self.size
    }

    /// Appends the size, little-endian.
    pub fn encode(&self, out: &mut Vec<u8>)
        ensures
            final(out)@ == old(out)@ + le32(self.spec_size()),
    {
        put_u32_le(out, self.size);
    }

    /// Reads a size at `pos`.
    pub fn decode(src: &[u8], pos: usize) -> (r: Result<SizeOf, DecodeFailure>)
        requires
            pos <= src@.len(),
        ensures
            pos + 4 > src@.len() ==> r == Err::<SizeOf, DecodeFailure>(DecodeFailure::UnexpectedEnd),
            pos + 4 <= src@.len() ==> (r matches Ok(s) && s.spec_size() == from_le32(
                src@.subrange(pos as int, src@.len() as int),
            )),
    {
        match get_u32_le(src, pos) {
            Ok(size) => Ok(SizeOf { size }),
            Err(e) => Err(e),
        }
    }
}

/// A reply that carries nothing.
#[derive(Debug)]
pub struct Nothing;

impl EncodedSize for Nothing {
    fn encoded_size_of() -> (r: usize)
        ensures
            r == 0,
    {
        0
    }
}

impl Nothing {
    /// Reading nothing always succeeds.
    pub fn decode(src: &[u8], pos: usize) -> (r: Result<Nothing, DecodeFailure>)
        ensures
            r is Ok,
    {
        Ok(Nothing)
    }
}

/// A request for the driver to detach the device at a port.
#[derive(Debug)]
pub struct Detach {
    port: Port,
}

impl Detach {
    pub fn new(port: u16) -> (r: Detach)
        ensures
            r.spec_port() == port,
    {
        Detach { port: Port::new(port) }
    }

    pub closed spec fn spec_port(&self) -> u16 {
        self.port.spec_get()
    }

    /// The function of the request.
    pub fn function() -> (r: Function)
        ensures
            r == Function::PlugoutHardware,
    {
        Function::PlugoutHardware
    }

    /// Appends what is sent to the driver: the size of the message (the port
    /// and the size itself, eight bytes), then the port.
    pub fn send(&self, out: &mut Vec<u8>)
        ensures
            final(out)@ == old(out)@ + le32(8) + le32(self.spec_port() as u32),
    {
        let size = SizeOf::new(8);
        size.encode(out);
        self.port.encode(out);
    }
}

/// A connection as the driver records it: a port, the bus id, the service
/// (the remote port, as text) and the host, with three bytes of padding.
#[derive(Debug)]
pub struct PortRecord {
    pub port: i32,
    pub busid: StackStr<BUS_ID_SIZE>,
    pub service: StackStr<NI_MAXSERV>,
    pub host: StackStr<NI_MAXHOST>,
}

impl EncodedSize for PortRecord {
    fn encoded_size_of() -> (r: usize)
        ensures
            r == 1096,
    {
        1096
    }
}

/// The bytes of an encoded port record.
pub open spec fn port_record_bytes(port: i32, busid: Seq<u8>, service: Seq<u8>, host: Seq<u8>) -> Seq<u8> {
    le32(port as u32) + busid + service + host + seq![0u8, 0u8, 0u8]
}

/// Whether `b` begins with a well-formed port record: the port and the
/// three strings are there in full, and each string is UTF-8.
pub open spec fn port_record_readable(b: Seq<u8>) -> bool {
    &&& b.len() >= 1093
    &&& vstd::utf8::valid_utf8(b.subrange(4, 36))
    &&& vstd::utf8::valid_utf8(b.subrange(36, 68))
    &&& vstd::utf8::valid_utf8(b.subrange(68, 1093))
}

/// The failure of reading a port record from `b`, when it is not readable:
/// the first field that is cut short or not UTF-8.
pub open spec fn port_record_failure(b: Seq<u8>) -> DecodeFailure {
    if b.len() < 36 {
        DecodeFailure::UnexpectedEnd
    } else if !vstd::utf8::valid_utf8(b.subrange(4, 36)) {
        DecodeFailure::Utf8
    } else if b.len() < 68 {
        DecodeFailure::UnexpectedEnd
    } else if !vstd::utf8::valid_utf8(b.subrange(36, 68)) {
        DecodeFailure::Utf8
    } else if b.len() < 1093 {
        DecodeFailure::UnexpectedEnd
    } else {
        DecodeFailure::Utf8
    }
}

/// The string read from the array `raw`: its bytes up to the trailing zero
/// bytes.
pub open spec fn trimmed(raw: Seq<u8>) -> Seq<u8> {
    raw.subrange(0, trimmed_len(raw) as int)
}

impl PortRecord {
    /// Appends the encoded record: the port, the three arrays whole, and
    /// three zero bytes.
    pub fn encode(&self, out: &mut Vec<u8>)
        ensures
            final(out)@ == old(out)@ + port_record_bytes(
                self.port,
                self.busid.raw(),
                self.service.raw(),
                self.host.raw(),
            ),
    {
        put_i32_le(out, self.port);
        self.busid.encode(out);
        self.service.encode(out);
        self.host.encode(out);
        out.push(0u8);
        out.push(0u8);
        out.push(0u8);
        assert(final(out)@ =~= old(out)@ + port_record_bytes(
            self.port,
            self.busid.raw(),
            self.service.raw(),
            self.host.raw(),
        ));
    }

    /// Reads a record at `pos`, and skips the padding that follows it as far
    /// as the input goes. Gives the record and the number of bytes taken.
    pub fn decode(src: &[u8], pos: usize) -> (r: Result<(PortRecord, usize), DecodeFailure>)
        requires
            pos <= src@.len(),
        ensures
            ({
                let b = src@.subrange(pos as int, src@.len() as int);
                &&& port_record_readable(b) ==> (r matches Ok((rec, n)) && rec.port == from_le32(b) as i32
                    && rec.busid.raw() == b.subrange(4, 36) && rec.busid.bytes() == trimmed(b.subrange(4, 36))
                    && rec.service.raw() == b.subrange(36, 68) && rec.service.bytes() == trimmed(
                    b.subrange(36, 68),
                ) && rec.host.raw() == b.subrange(68, 1093) && rec.host.bytes() == trimmed(
                    b.subrange(68, 1093),
                ) && n == (if b.len() >= 1096 { 1096 } else { b.len() }))
                &&& !port_record_readable(b) ==> r == Err::<(PortRecord, usize), DecodeFailure>(port_record_failure(b))
            }),
    {
        let ghost b = src@.subrange(pos as int, src@.len() as int);
        let len = src.len();
        let port = match get_i32_le(src, pos) {
            Ok(p) => p,
            Err(e) => return Err(e),
        };
        assert(b.len() >= 4);
        let busid = match StackStr::<BUS_ID_SIZE>::decode(src, pos + 4) {
            Ok(s) => s,
            Err(e) => {
                assert(b.len() >= 36 ==> b.subrange(4, 36) =~= src@.subrange(pos + 4, pos + 36));
                return Err(e);
            },
        };
        assert(b.subrange(4, 36) =~= src@.subrange(pos + 4, pos + 36));
        let service = match StackStr::<NI_MAXSERV>::decode(src, pos + 36) {
            Ok(s) => s,
            Err(e) => {
                assert(b.len() >= 68 ==> b.subrange(36, 68) =~= src@.subrange(pos + 36, pos + 68));
                return Err(e);
            },
        };
        assert(b.subrange(36, 68) =~= src@.subrange(pos + 36, pos + 68));
        let host = match StackStr::<NI_MAXHOST>::decode(src, pos + 68) {
            Ok(s) => s,
            Err(e) => {
                assert(b.len() >= 1093 ==> b.subrange(68, 1093) =~= src@.subrange(pos + 68, pos + 1093));
                return Err(e);
            },
        };
        assert(b.subrange(68, 1093) =~= src@.subrange(pos + 68, pos + 1093));
        let rest = len - (pos + 1093);
        let n: usize = if rest >= 3 { 1096 } else { 1093 + rest };
        Ok((PortRecord { port, busid, service, host }, n))
    }
}

/// A device that the driver has imported, as it reports it.
#[derive(Debug)]
pub struct ImportedDevice {
    pub record: PortRecord,
    pub devid: u32,
    pub speed: DeviceSpeed,
    pub vendor: u16,
    pub product: u16,
}

impl EncodedSize for ImportedDevice {
    fn encoded_size_of() -> (r: usize)
        ensures
            r == 1108,
    {
        1108
    }
}

/// The size of an encoded [`ImportedDevice`].
pub const IMPORTED_DEVICE_SIZE: usize = 1108;

/// Whether `b` begins with a well-formed imported device: a readable record,
/// then the device id, a speed that names a speed, the vendor and the
/// product, all in full.
pub open spec fn imported_device_readable(b: Seq<u8>) -> bool {
    &&& port_record_readable(b)
    &&& b.len() >= 1108
    &&& from_le32(b.subrange(1100, b.len() as int)) < 7
}

/// The failure of reading an imported device from `b`, when it is not
/// readable.
pub open spec fn imported_device_failure(b: Seq<u8>) -> DecodeFailure {
    if !port_record_readable(b) {
        port_record_failure(b)
    } else if b.len() < 1104 {
        DecodeFailure::UnexpectedEnd
    } else if from_le32(b.subrange(1100, b.len() as int)) >= 7 {
        DecodeFailure::UnexpectedVariant { found: from_le32(b.subrange(1100, b.len() as int)) }
    } else {
        DecodeFailure::UnexpectedEnd
    }
}

/// Whether `d` holds what the well-formed bytes `b` say.
pub open spec fn imported_device_of(d: ImportedDevice, b: Seq<u8>) -> bool {
    &&& d.record.port == from_le32(b) as i32
    &&& d.record.busid.bytes() == trimmed(b.subrange(4, 36))
    &&& d.record.service.bytes() == trimmed(b.subrange(36, 68))
    &&& d.record.host.bytes() == trimmed(b.subrange(68, 1093))
    &&& d.devid == from_le32(b.subrange(1096, b.len() as int))
    &&& d.speed.spec_code() == from_le32(b.subrange(1100, b.len() as int))
    &&& d.vendor == from_le16(b.subrange(1104, b.len() as int))
    &&& d.product == from_le16(b.subrange(1106, b.len() as int))
}

/// The bytes of an encoded imported device.
pub open spec fn imported_device_bytes(d: ImportedDevice) -> Seq<u8> {
    port_record_bytes(d.record.port, d.record.busid.raw(), d.record.service.raw(), d.record.host.raw()) + le32(
        d.devid,
    ) + le32(d.speed.spec_code()) + le16(d.vendor) + le16(d.product)
}

impl ImportedDevice {
    /// Appends the encoded device: its record, then the device id, speed,
    /// vendor and product, little-endian.
    pub fn encode(&self, out: &mut Vec<u8>)
        ensures
            final(out)@ == old(out)@ + imported_device_bytes(*self),
    {
        self.record.encode(out);
        put_u32_le(out, self.devid);
        self.speed.encode_le(out);
        put_u16_le(out, self.vendor);
        put_u16_le(out, self.product);
        assert(out@ =~= old(out)@ + imported_device_bytes(*self));
    }
}

impl ImportedDevice {
    /// Reads an imported device at `pos`.
    pub fn decode(src: &[u8], pos: usize) -> (r: Result<ImportedDevice, DecodeFailure>)
        requires
            pos <= src@.len(),
        ensures
            ({
                let b = src@.subrange(pos as int, src@.len() as int);
                &&& imported_device_readable(b) ==> (r matches Ok(d) && imported_device_of(d, b))
                &&& !imported_device_readable(b) ==> r == Err::<ImportedDevice, DecodeFailure>(
                    imported_device_failure(b),
                )
            }),
    {
        let ghost b = src@.subrange(pos as int, src@.len() as int);
        // The length of `src`, a `usize`, bounds every position below.
        let _len = src.len();
        let (record, n) = match PortRecord::decode(src, pos) {
            Ok(x) => x,
            Err(e) => return Err(e),
        };
        let p = pos + n;
        let devid = match get_u32_le(src, p) {
            Ok(v) => v,
            Err(e) => return Err(e),
        };
        assert(b.len() >= 1100);
        assert(b.subrange(1096, b.len() as int) =~= src@.subrange(p as int, src@.len() as int));
        let speed = match DeviceSpeed::decode_le(src, p + 4) {
            Ok(s) => s,
            Err(e) => {
                assert(b.len() >= 1104 ==> b.subrange(1100, b.len() as int) =~= src@.subrange(p + 4, src@.len() as int));
                return Err(e);
            },
        };
        assert(b.subrange(1100, b.len() as int) =~= src@.subrange(p + 4, src@.len() as int));
        let vendor = match get_u16_le(src, p + 8) {
            Ok(v) => v,
            Err(e) => return Err(e),
        };
        let product = match get_u16_le(src, p + 10) {
            Ok(v) => v,
            Err(e) => return Err(e),
        };
        assert(b.subrange(1104, b.len() as int) =~= src@.subrange(p + 8, src@.len() as int));
        assert(b.subrange(1106, b.len() as int) =~= src@.subrange(p + 10, src@.len() as int));
        Ok(ImportedDevice { record, devid, speed, vendor, product })
    }
}

/// Reading back the bytes of an imported device gives the device: its port,
/// the bytes of its three strings, its device id, speed, vendor and product,
/// when each string is zero-padded in its array.
pub proof fn lemma_imported_device_roundtrip(d: ImportedDevice)
    requires
        zero_padded(d.record.busid.bytes(), d.record.busid.raw(), BUS_ID_SIZE as nat),
        zero_padded(d.record.service.bytes(), d.record.service.raw(), NI_MAXSERV as nat),
        zero_padded(d.record.host.bytes(), d.record.host.raw(), NI_MAXHOST as nat),
        d.speed.spec_code() < 7,
    ensures
        ({
            let b = imported_device_bytes(d);
            &&& imported_device_readable(b)
            &&& from_le32(b) as i32 == d.record.port
            &&& trimmed(b.subrange(4, 36)) == d.record.busid.bytes()
            &&& trimmed(b.subrange(36, 68)) == d.record.service.bytes()
            &&& trimmed(b.subrange(68, 1093)) == d.record.host.bytes()
            &&& from_le32(b.subrange(1096, b.len() as int)) == d.devid
            &&& from_le32(b.subrange(1100, b.len() as int)) == d.speed.spec_code()
            &&& from_le16(b.subrange(1104, b.len() as int)) == d.vendor
            &&& from_le16(b.subrange(1106, b.len() as int)) == d.product
        }),
{
    let r = d.record;
    lemma_trim_zero_padded(r.busid.bytes(), r.busid.raw(), BUS_ID_SIZE as nat);
    lemma_trim_zero_padded(r.service.bytes(), r.service.raw(), NI_MAXSERV as nat);
    lemma_trim_zero_padded(r.host.bytes(), r.host.raw(), NI_MAXHOST as nat);
    let port: i32 = r.port;
    let p = port as u32;
    lemma_le32_roundtrip(p);
    assert(p as i32 == port) by (bit_vector)
        requires
            p == port as u32,
    ;
    lemma_le32_roundtrip(d.devid);
    lemma_le32_roundtrip(d.speed.spec_code());
    lemma_le16_roundtrip(d.vendor);
    lemma_le16_roundtrip(d.product);
    let b = imported_device_bytes(d);
    assert(b.len() == 1108);
    assert(b.subrange(0, 4) =~= le32(p));
    assert(b.subrange(4, 36) =~= r.busid.raw());
    assert(b.subrange(36, 68) =~= r.service.raw());
    assert(b.subrange(68, 1093) =~= r.host.raw());
    assert(b.subrange(1096, b.len() as int).subrange(0, 4) =~= le32(d.devid));
    assert(b.subrange(1100, b.len() as int).subrange(0, 4) =~= le32(d.speed.spec_code()));
    assert(b.subrange(1104, b.len() as int).subrange(0, 2) =~= le16(d.vendor));
    assert(b.subrange(1106, b.len() as int).subrange(0, 2) =~= le16(d.product));
}

/// The request for the list of imported devices.
#[derive(Debug)]
pub struct GetImportedDevices;

/// The bytes of the `i`th device of a list reply `out`.
pub open spec fn list_item(out: Seq<u8>, i: int) -> Seq<u8> {
    out.subrange(4 + i * 1108, out.len() as int)
}

impl GetImportedDevices {
    /// The function of the request.
    pub fn function() -> (r: Function)
        ensures
            r == Function::GetImportedDevices,
    {
        Function::GetImportedDevices
    }

    /// Appends what is sent to the driver: the size of one device and of the
    /// size field, 1112, little-endian.
    pub fn send(&self, out: &mut Vec<u8>)
        ensures
            final(out)@ == old(out)@ + le32(1112),
    {
        SizeOf::new(1112).encode(out);
    }

    /// Reads the reply of the driver: a four-byte header, then as many whole
    /// devices as the rest holds; the first device that does not read makes
    /// the whole reply fail.
    pub fn recv(out: &[u8]) -> (r: Result<Vec<ImportedDevice>, DecodeFailure>)
        requires
            out@.len() >= 4,
        ensures
            ({
                let count = (out@.len() - 4) / 1108;
                &&& r is Ok <==> forall|i: int| 0 <= i < count ==> imported_device_readable(#[trigger] list_item(out@, i))
                &&& r matches Ok(v) ==> v@.len() == count && forall|i: int|
                    0 <= i < count ==> imported_device_of(#[trigger] v@[i], list_item(out@, i))
                &&& r matches Err(e) ==> exists|i: int|
                    0 <= i < count && !imported_device_readable(#[trigger] list_item(out@, i))
                        && e == imported_device_failure(list_item(out@, i))
            }),
    {
        let n = out.len();
        let count = (n - 4) / 1108;
        let mut items: Vec<ImportedDevice> = Vec::with_capacity(count);
        let mut i: usize = 0;
        while i < count
            invariant
                n == out@.len(),
                count == (out@.len() - 4) / 1108,
                i <= count,
                items@.len() == i,
                forall|k: int| 0 <= k < i ==> imported_device_readable(#[trigger] list_item(out@, k)),
                forall|k: int| 0 <= k < i ==> imported_device_of(#[trigger] items@[k], list_item(out@, k)),
            decreases count - i,
        {
            assert(4 + i * 1108 + 1108 <= out@.len()) by (nonlinear_arith)
                requires
                    i < count,
                    count == (out@.len() - 4) / 1108,
                    out@.len() >= 4,
            ;
            let pos = 4 + i * 1108;
            match ImportedDevice::decode(out, pos) {
                Ok(d) => {
                    items.push(d);
                },
                Err(e) => {
                    assert(!imported_device_readable(list_item(out@, i as int)));
                    return Err(e);
                },
            }
            i = i + 1;
        }
        Ok(items)
    }
}

/// Bytes written one slice after another.
#[derive(Debug, Default)]
pub struct VecWriter {
    inner: Vec<u8>,
}

impl View for VecWriter {
    type V = Seq<u8>;

    closed spec fn view(&self) -> Seq<u8> {
        self.inner@
    }
}

impl VecWriter {
    /// An empty writer with room for `cap` bytes.
    pub fn with_capacity(cap: usize) -> (r: VecWriter)
        ensures
            r@ == Seq::<u8>::empty(),
    {
        VecWriter { inner: Vec::with_capacity(cap) }
    }

    /// Appends `bytes`.
    pub fn write(&mut self, bytes: &[u8])
        ensures
            final(self)@ == old(self)@ + bytes@,
    {
        let mut i: usize = 0;
        while i < bytes.len()
            invariant
                i <= bytes@.len(),
                self.inner@ == old(self)@ + bytes@.subrange(0, i as int),
            decreases bytes.len() - i,
        {
            self.inner.push(bytes[i]);
            i = i + 1;
            assert(self.inner@ =~= old(self)@ + bytes@.subrange(0, i as int));
        }
        assert(bytes@.subrange(0, bytes@.len() as int) =~= bytes@);
    }

    /// The bytes written.
    pub fn into_vec(self) -> (r: Vec<u8>)
        ensures
            r@ == self@,
    {
        self.inner
    }
}

/// A size given once more: the same size, at most twice.
#[derive(Debug)]
pub struct OnceSize {
    byte_size: usize,
    called: u32,
}

impl OnceSize {
    pub fn new(byte_size: usize) -> (r: OnceSize)
        ensures
            r.spec_byte_size() == byte_size,
            r.spec_called() == 0,
    {
        OnceSize { byte_size, called: 0 }
    }

    pub closed spec fn spec_byte_size(&self) -> usize {
        self.byte_size
    }

    pub closed spec fn spec_called(&self) -> u32 {
        self.called
    }

    /// The size. Not more than twice.
    pub fn next(&mut self) -> (r: Option<usize>)
        requires
            old(self).spec_called() < 2,
        ensures
            r == Some(old(self).spec_byte_size()),
            final(self).spec_called() == old(self).spec_called() + 1,
            final(self).spec_byte_size() == old(self).spec_byte_size(),
    {
        self.called = self.called + 1;
        Some(self.byte_size)
    }
}

/// No size at all.
#[derive(Debug)]
pub struct NoIter;

impl NoIter {
    pub fn next(&mut self) -> (r: Option<usize>)
        ensures
            r is None,
    {
        None
    }
}

/// Where a device is: the host's address as text, the port of its service,
/// and the device's bus id.
#[derive(Debug)]
pub struct DeviceLocation<'a> {
    host: &'a str,
    port: u16,
    bus_id: &'a str,
}

/// The bytes of an encoded port record for a location: port zero, the bus
/// id, the service (the port in decimal) and the host, each zero-padded in
/// its array, and three zero bytes.
pub open spec fn location_bytes(host: Seq<u8>, port: u16, bus_id: Seq<u8>) -> Seq<u8> {
    let svc = digits(port as nat, 10);
    let svc_bytes = Seq::new(svc.len(), |i: int| svc[i] as u8);
    port_record_bytes(
        0,
        bus_id + Seq::new((BUS_ID_SIZE - bus_id.len()) as nat, |i: int| 0u8),
        svc_bytes + Seq::new((NI_MAXSERV - svc.len()) as nat, |i: int| 0u8),
        host + Seq::new((NI_MAXHOST - host.len()) as nat, |i: int| 0u8),
    )
}

impl<'a> DeviceLocation<'a> {
    pub fn new(host: &'a str, port: u16, bus_id: &'a str) -> (r: DeviceLocation<'a>)
        ensures
            r.spec_host() == host,
            r.spec_port() == port,
            r.spec_bus_id() == bus_id,
    {
        DeviceLocation { host, port, bus_id }
    }

    pub closed spec fn spec_host(&self) -> &'a str {
        self.host
    }

    pub closed spec fn spec_port(&self) -> u16 {
        self.port
    }

    pub closed spec fn spec_bus_id(&self) -> &'a str {
        self.bus_id
    }

    /// Appends the location as a port record. A bus id longer than its
    /// array is refused, and nothing is appended; the host must fit in its
    /// array.
    pub fn encode(&self, out: &mut Vec<u8>) -> (r: Result<(), EncodeFailure>)
        requires
            self.spec_host().spec_bytes().len() <= NI_MAXHOST,
        ensures
            r is Ok <==> self.spec_bus_id().spec_bytes().len() <= BUS_ID_SIZE,
            r is Ok ==> final(out)@ == old(out)@ + location_bytes(
                self.spec_host().spec_bytes(),
                self.spec_port(),
                self.spec_bus_id().spec_bytes(),
            ),
            r is Err ==> final(out)@ == old(out)@,
    {
        let busid = match StackStr::<BUS_ID_SIZE>::try_from(self.bus_id) {
            Ok(b) => b,
            Err(_) => return Err(EncodeFailure::UnexpectedEnd),
        };
        let mut svc_text = String::new();
        push_digits(&mut svc_text, self.port as u32, 10);
        let ghost svc = digits(self.port as nat, 10);
        assert(svc_text@ =~= svc);
        proof {
            crate::text::lemma_digits_ascii(self.port as nat);
        }
        let service = match StackStr::<NI_MAXSERV>::try_from(svc_text.as_str()) {
            Ok(s) => s,
            Err(_) => {
                assert(false);
                return Err(EncodeFailure::UnexpectedEnd);
            },
        };
        let host = match StackStr::<NI_MAXHOST>::try_from(self.host) {
            Ok(h) => h,
            Err(_) => {
                assert(false);
                return Err(EncodeFailure::UnexpectedEnd);
            },
        };
        let rec = PortRecord { port: 0, busid, service, host };
        rec.encode(out);
        Ok(())
    }
}

/// A request for the driver to connect to a host and attach one of its
/// devices.
#[derive(Debug)]
pub struct Attach<'a> {
    location: DeviceLocation<'a>,
}

impl<'a> Attach<'a> {
    pub fn new(location: DeviceLocation<'a>) -> (r: Attach<'a>)
        ensures
            r.spec_location() == location,
    {
        Attach { location }
    }

    pub closed spec fn spec_location(&self) -> DeviceLocation<'a> {
        self.location
    }

    /// The function of the request.
    pub fn function() -> (r: Function)
        ensures
            r == Function::PluginHardware,
    {
        Function::PluginHardware
    }

    /// Appends what is sent to the driver: the size of the message (the
    /// record and the size itself, 1100 bytes), then the location. A bus id
    /// that does not fit is refused.
    pub fn send(&self, out: &mut Vec<u8>) -> (r: Result<(), EncodeFailure>)
        requires
            self.spec_location().spec_host().spec_bytes().len() <= NI_MAXHOST,
        ensures
            r is Ok <==> self.spec_location().spec_bus_id().spec_bytes().len() <= BUS_ID_SIZE,
            r is Ok ==> final(out)@ == old(out)@ + le32(1100) + location_bytes(
                self.spec_location().spec_host().spec_bytes(),
                self.spec_location().spec_port(),
                self.spec_location().spec_bus_id().spec_bytes(),
            ),
    {
        SizeOf::new(1100).encode(out);
        self.location.encode(out)
    }

    /// The port that the driver attached the device to: a little-endian
    /// `i32` after a four-byte header, of which the low sixteen bits count.
    pub fn recv(out: &[u8]) -> (r: Result<u16, DecodeFailure>)
        ensures
            out@.len() >= 8 ==> r == Ok::<u16, DecodeFailure>(from_le32(out@.subrange(4, out@.len() as int)) as u16),
            out@.len() < 8 ==> r == Err::<u16, DecodeFailure>(DecodeFailure::UnexpectedEnd),
    {
        let pos: usize = if out.len() >= 4 { 4 } else { out.len() };
        match Port::decode(out, pos) {
            Ok(p) => Ok(p.get()),
            Err(e) => Err(e),
        }
    }
}

/// What one device I/O control call told: it succeeded, with the number of
/// bytes it wrote, or it failed, with the number of bytes it wrote, its
/// error code, and the Win32 error that the code stands for, when it stands
/// for one.
#[derive(Debug, Clone, Copy)]
pub enum IoctlReply {
    Done { bytes_returned: u32 },
    Failed { bytes_returned: u32, code: u32, win32: Option<u32> },
}

/// What a call through the door comes to.
#[derive(Debug, Clone, Copy, PartialEq, Eq, Structural)]
pub enum DoorResult {
    /// This many bytes were written; zero once the request is over.
    Read(usize),
    /// The driver refused the request as malformed.
    InvalidData,
    /// The device is not connected.
    NotConnected,
    /// Another driver error, with its code.
    Other(u32),
    /// The output buffer is too small.
    WriteZero,
    /// Another failure of the system.
    LastOsError,
}

/// The Win32 error for more data to come.
pub const ERROR_MORE_DATA: u32 = 234;

/// The Win32 error for a buffer that is too small.
pub const ERROR_INSUFFICIENT_BUFFER: u32 = 122;

/// What the door makes of a reply: success ends the request; a failure
/// that wrote less than four bytes is a driver error; otherwise more data
/// to come counts the bytes written, and a buffer too small asks for a
/// bigger one.
pub open spec fn spec_door_result(reply: IoctlReply) -> DoorResult {
    match reply {
        IoctlReply::Done { bytes_returned } => DoorResult::Read(bytes_returned as usize),
        IoctlReply::Failed { bytes_returned, code, win32 } => if bytes_returned < 4 {
            match driver_error_of(code) {
                Some(DriverError::InvalidAbi) => DoorResult::InvalidData,
                Some(DriverError::IncompatibleProtocolVersion) => DoorResult::InvalidData,
                Some(DriverError::DevNotConnected) => DoorResult::NotConnected,
                None => DoorResult::Other(code),
            }
        } else if win32 == Some(ERROR_MORE_DATA) {
            DoorResult::Read(bytes_returned as usize)
        } else if win32 == Some(ERROR_INSUFFICIENT_BUFFER) {
            DoorResult::WriteZero
        } else {
            DoorResult::LastOsError
        },
    }
}

/// What a reply of the driver comes to. A call that succeeded reads the
/// bytes it returned. A failed call that wrote four bytes or more reads them
/// only when its Win32 error says that more data is to come (234), asks for a
/// bigger buffer only when the buffer was too small (122), and is a failure of
/// the system for any other Win32 error. A failed call that wrote less is a
/// driver error: malformed data for the codes 0xE1000008 and 0xE1000005, a
/// device that is not connected for 0x8007048F, another error with its code
/// otherwise; it never reads.
pub proof fn lemma_door_reply_results(bytes_returned: u32, code: u32, win32: Option<u32>)
    ensures
        spec_door_result(IoctlReply::Done { bytes_returned }) == DoorResult::Read(bytes_returned as usize),
        bytes_returned >= 4 ==> spec_door_result(IoctlReply::Failed { bytes_returned, code, win32 }) == (
        if win32 == Some(234u32) {
            DoorResult::Read(bytes_returned as usize)
        } else if win32 == Some(122u32) {
            DoorResult::WriteZero
        } else {
            DoorResult::LastOsError
        }),
        bytes_returned < 4 ==> spec_door_result(IoctlReply::Failed { bytes_returned, code, win32 }) == (
        if code == 0xE1000008u32 || code == 0xE1000005u32 {
            DoorResult::InvalidData
        } else if code == 0x8007048Fu32 {
            DoorResult::NotConnected
        } else {
            DoorResult::Other(code)
        }),
{
}

/// The course of one request to the driver.
#[derive(Debug)]
pub struct Door {
    end_of_req: bool,
    code: u32,
}

impl Door {
    /// A request with control code `code`, not over yet.
    pub fn new(code: u32) -> (r: Door)
        ensures
            !r.spec_done(),
            r.spec_code() == code,
    {
        Door { end_of_req: false, code }
    }

    pub closed spec fn spec_done(&self) -> bool {
        self.end_of_req
    }

    pub closed spec fn spec_code(&self) -> u32 {
        self.code
    }

    /// The control code of the request.
    pub fn code(&self) -> (r: u32)
        ensures
            r == self.spec_code(),
    {
        self.code
    }

    /// Whether the request is over: then the driver is not called again,
    /// and every further read gives zero bytes.
    pub fn is_done(&self) -> (r: bool)
        ensures
            r == self.spec_done(),
    {
        self.end_of_req
    }

    /// Whether the next read must call the driver: only while the request
    /// is not over.
    pub fn needs_call(&self) -> (r: bool)
        ensures
            r == !self.spec_done(),
    {
        !self.end_of_req
    }

    /// The next read of the request. Once the request is over the driver is
    /// not called (`reply` is `None`), the read gives zero bytes and the door
    /// stays as it is. Before that, `reply` is the reply of the call of the
    /// driver that [`Door::needs_call`] asked for; a reply that wrote four
    /// bytes or more names its Win32 error.
    pub fn read_write(&mut self, reply: Option<IoctlReply>) -> (r: DoorResult)
        requires
            !old(self).spec_done() ==> reply is Some,
            reply matches Some(IoctlReply::Failed { bytes_returned, win32, .. }) ==> (bytes_returned >= 4 ==> win32 is Some),
        ensures
            old(self).spec_done() ==> r == DoorResult::Read(0) && *final(self) == *old(self),
            !old(self).spec_done() ==> (reply matches Some(rep) && r == spec_door_result(rep)
                && final(self).spec_done() == (rep is Done)),
            final(self).spec_code() == old(self).spec_code(),
    {
        if self.end_of_req {
            return DoorResult::Read(0);
        }
        let reply = match reply {
            Some(rep) => rep,
            None => return DoorResult::Read(0),
        };
        match reply {
            IoctlReply::Done { bytes_returned } => {
                self.end_of_req = true;
                DoorResult::Read(bytes_returned as usize)
            },
            IoctlReply::Failed { bytes_returned, code, win32 } => {
                if bytes_returned < 4 {
                    match DriverError::from_u32(code) {
                        Some(DriverError::InvalidAbi) => DoorResult::InvalidData,
                        Some(DriverError::IncompatibleProtocolVersion) => DoorResult::InvalidData,
                        Some(DriverError::DevNotConnected) => DoorResult::NotConnected,
                        None => DoorResult::Other(code),
                    }
                } else {
                    match win32 {
                        Some(ERROR_MORE_DATA) => DoorResult::Read(bytes_returned as usize),
                        Some(ERROR_INSUFFICIENT_BUFFER) => DoorResult::WriteZero,
                        _ => DoorResult::LastOsError,
                    }
                }
            },
        }
    }
}

/// What the reading loop of a request does after a call through the door.
#[derive(Debug, Clone, Copy, PartialEq, Eq, Structural)]
pub enum RelayStep {
    /// The reply is complete: the output is cut to this length.
    Finish(usize),
    /// Grow the output and call again.
    Continue,
    /// The request failed with this result.
    Fail(DoorResult),
}

/// The reading loop of a request: how long the output buffer is, and where
/// the next read goes.
#[derive(Debug)]
pub struct RelayState {
    len: usize,
    start: usize,
}

impl RelayState {
    /// An empty output, read from its start.
    pub fn new() -> (r: RelayState)
        ensures
            r.spec_len() == 0,
            r.spec_start() == 0,
    {
        RelayState { len: 0, start: 0 }
    }

    pub closed spec fn spec_len(&self) -> usize {
        self.len
    }

    pub closed spec fn spec_start(&self) -> usize {
        self.start
    }

    /// Where the next read goes.
    pub fn start(&self) -> (r: usize)
        ensures
            r == self.spec_start(),
    {
        self.start
    }

    /// The output is resized to `size`, which keeps what was read.
    pub fn regrow(&mut self, size: usize)
        requires
            old(self).spec_start() <= size,
        ensures
            final(self).spec_len() == size,
            final(self).spec_start() == old(self).spec_start(),
    {
        self.len = size;
    }

    /// Takes in what a call through the door gave: zero bytes ends the
    /// reply where the reads ended; more bytes move the next read past
    /// them; a buffer too small asks for a bigger one; any other failure
    /// ends the request.
    pub fn record(&mut self, result: DoorResult) -> (r: RelayStep)
        requires
            old(self).spec_start() <= old(self).spec_len(),
            result matches DoorResult::Read(n) ==> old(self).spec_start() + n <= old(self).spec_len(),
        ensures
            final(self).spec_len() == old(self).spec_len(),
            final(self).spec_start() <= final(self).spec_len(),
            match result {
                DoorResult::Read(n) => if n == 0 {
                    r == RelayStep::Finish(old(self).spec_start()) && final(self).spec_start() == old(self).spec_start()
                } else {
                    r == RelayStep::Continue && final(self).spec_start() == old(self).spec_start() + n
                },
                DoorResult::WriteZero => r == RelayStep::Continue && final(self).spec_start() == old(self).spec_start(),
                _ => r == RelayStep::Fail(result) && final(self).spec_start() == old(self).spec_start(),
            },
    {
        match result {
            DoorResult::Read(n) => {
                if n == 0 {
                    RelayStep::Finish(self.start)
                } else {
                    self.start = self.start + n;
                    RelayStep::Continue
                }
            },
            DoorResult::WriteZero => RelayStep::Continue,
            _ => RelayStep::Fail(result),
        }
    }
}

} // verus!
