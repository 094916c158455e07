//! The USB/IP protocol as the Linux kernel defines it: the operation
//! headers and the import and device-list messages, encoded big-endian with
//! fixed-size integers.
use vstd::prelude::*;
use vstd::string::StringSliceAdditionalSpecFns;

use crate::containers::stacktools::{lemma_trim_zero_padded, trimmed_len, zero_padded, StackStr};
use crate::device::{device_bytes, spec_decode_device, UsbDevice, UsbDeviceView};
use crate::wire::{
    be16, be32, from_be16, from_be32, get_u16_be, get_u32_be, lemma_be16_roundtrip,
    lemma_be32_roundtrip, put_u16_be, put_u32_be, DecodeFailure, EncodeFailure,
};
use crate::{BUS_ID_SIZE, USBIP_VERSION};

verus! {

/// The operation code of a USB/IP header: a set of flags out of
/// request (`0x8000`), import (`0x03`), device list (`0x05`) and export
/// (`0x06`), the reply flag being no bit at all.
#[derive(Debug, Clone, Copy, PartialEq, Eq, Structural)]
pub struct Protocol {
    bits: u16,
}

/// The bits that name a flag of [`Protocol`].
pub open spec fn known_protocol_bits(bits: u16) -> bool {
    bits & !0x8007u16 == 0
}

impl Protocol {
    /// The bits of the code.
    pub closed spec fn spec_bits(&self) -> u16 {
        self.bits
    }

    /// The bits of the code.
    pub fn bits(&self) -> (r: u16)
        ensures
            r == self.spec_bits(),
    {
        self.bits
    }

    /// The code with these bits, when each of them names a flag.
    pub fn from_bits(bits: u16) -> (r: Option<Protocol>)
        ensures
            known_protocol_bits(bits) <==> r is Some,
            r matches Some(p) ==> p.spec_bits() == bits,
    {
        if bits & !0x8007u16 == 0 {
            Some(Protocol { bits })
        } else {
            None
        }
    }

    /// The request flag.
    pub fn op_request() -> (r: Protocol)
        ensures
            r.spec_bits() == 0x8000,
    {
        Protocol { bits: 0x8000 }
    }

    /// The reply flag: no bit set.
    pub fn op_reply() -> (r: Protocol)
        ensures
            r.spec_bits() == 0,
    {
        Protocol { bits: 0 }
    }

    /// Import a remote USB device.
    pub fn op_import() -> (r: Protocol)
        ensures
            r.spec_bits() == 0x03,
    {
        Protocol { bits: 0x03 }
    }

    /// A request to import a device.
    pub fn op_req_import() -> (r: Protocol)
        ensures
            r.spec_bits() == 0x8003,
    {
        Protocol { bits: 0x8003 }
    }

    /// The reply to a request to import a device.
    pub fn op_rep_import() -> (r: Protocol)
        ensures
            r.spec_bits() == 0x03,
    {
        Protocol { bits: 0x03 }
    }

    /// No operation in particular.
    pub fn op_unspec() -> (r: Protocol)
        ensures
            r.spec_bits() == 0,
    {
        Protocol { bits: 0 }
    }

    /// Retrieve the list of exported USB devices.
    pub fn op_devlist() -> (r: Protocol)
        ensures
            r.spec_bits() == 0x05,
    {
        Protocol { bits: 0x05 }
    }

    /// A request for the device list.
    pub fn op_req_devlist() -> (r: Protocol)
        ensures
            r.spec_bits() == 0x8005,
    {
        Protocol { bits: 0x8005 }
    }

    /// The reply with the device list.
    pub fn op_rep_devlist() -> (r: Protocol)
        ensures
            r.spec_bits() == 0x05,
    {
        Protocol { bits: 0x05 }
    }

    /// Export a USB device to a remote host.
    pub fn op_export() -> (r: Protocol)
        ensures
            r.spec_bits() == 0x06,
    {
        Protocol { bits: 0x06 }
    }

    /// A request to export a device.
    pub fn op_req_export() -> (r: Protocol)
        ensures
            r.spec_bits() == 0x8006,
    {
        Protocol { bits: 0x8006 }
    }

    /// The reply to a request to export a device.
    pub fn op_rep_export() -> (r: Protocol)
        ensures
            r.spec_bits() == 0x06,
    {
        Protocol { bits: 0x06 }
    }

    /// Appends the code's bits, big-endian.
    pub fn encode(&self, out: &mut Vec<u8>)
        ensures
            final(out)@ == old(out)@ + be16(self.spec_bits()),
    {
        put_u16_be(out, self.bits);
    }

    /// Reads a code at `pos`; bits that name no flag are refused.
    pub fn decode(src: &[u8], pos: usize) -> (r: Result<Protocol, DecodeFailure>)
        requires
            pos <= src@.len(),
        ensures
            pos + 2 > src@.len() ==> r == Err::<Protocol, DecodeFailure>(DecodeFailure::UnexpectedEnd),
            pos + 2 <= src@.len() ==> {
                let b = from_be16(src@.subrange(pos as int, src@.len() as int));
                &&& known_protocol_bits(b) ==> (r matches Ok(p) && p.spec_bits() == b)
                &&& !known_protocol_bits(b) ==> r == Err::<Protocol, DecodeFailure>(
                    DecodeFailure::UnexpectedVariant { found: b as u32 },
                )
            },
    {
        let code = match get_u16_be(src, pos) {
            Ok(c) => c,
            Err(e) => return Err(e),
        };
        match Self::from_bits(code) {
            Some(p) => Ok(p),
            None => Err(DecodeFailure::UnexpectedVariant { found: code as u32 }),
        }
    }
}

/// The result of a USB/IP request; encoded as its index, a 4 byte value.
#[derive(Debug, Clone, Copy, PartialEq, Eq, Structural)]
pub enum Status {
    Success,
    Failed,
    DevBusy,
    DevErr,
    NoDev,
    Unexpected,
}

/// The number of a status on the wire.
pub open spec fn status_index(s: Status) -> u32 {
    match s {
        Status::Success => 0,
        Status::Failed => 1,
        Status::DevBusy => 2,
        Status::DevErr => 3,
        Status::NoDev => 4,
        Status::Unexpected => 5,
    }
}

/// The status with a number, if any.
pub open spec fn status_of_index(n: u32) -> Option<Status> {
    if n == 0 {
        Some(Status::Success)
    } else if n == 1 {
        Some(Status::Failed)
    } else if n == 2 {
        Some(Status::DevBusy)
    } else if n == 3 {
        Some(Status::DevErr)
    } else if n == 4 {
        Some(Status::NoDev)
    } else if n == 5 {
        Some(Status::Unexpected)
    } else {
        None
    }
}

/// A status is the status of its number, and only the numbers 0 to 5 name
/// a status.
pub proof fn lemma_status_index_roundtrip(s: Status, n: u32)
    ensures
        status_of_index(status_index(s)) == Some(s),
        status_of_index(n) is Some <==> n < 6,
        status_of_index(n) matches Some(t) ==> status_index(t) == n,
{
}

/// The numbers of the statuses on the wire are fixed: 0 success, 1 failed,
/// 2 device busy, 3 device error, 4 no device, 5 unexpected; no other number
/// is a status.
pub proof fn lemma_status_wire_numbers(n: u32, s: Status)
    ensures
        status_of_index(n) == (if n == 0 {
            Some(Status::Success)
        } else if n == 1 {
            Some(Status::Failed)
        } else if n == 2 {
            Some(Status::DevBusy)
        } else if n == 3 {
            Some(Status::DevErr)
        } else if n == 4 {
            Some(Status::NoDev)
        } else if n == 5 {
            Some(Status::Unexpected)
        } else {
            None
        }),
        s == Status::Success ==> status_index(s) == 0,
        s == Status::Failed ==> status_index(s) == 1,
        s == Status::DevBusy ==> status_index(s) == 2,
        s == Status::DevErr ==> status_index(s) == 3,
        s == Status::NoDev ==> status_index(s) == 4,
        s == Status::Unexpected ==> status_index(s) == 5,
{
}

/// What a status says.
pub open spec fn status_message(s: Status) -> Seq<char> {
    match s {
        Status::Success => "Request succeeded"@,
        Status::Failed => "Request failed"@,
        Status::DevBusy => "Device busy (exported)"@,
        Status::DevErr => "Device in error state"@,
        Status::NoDev => "Device not found"@,
        Status::Unexpected => "Unexpected response"@,
    }
}

impl Status {
    /// The number of the status on the wire.
    pub fn index(&self) -> (r: u32)
        ensures
            r == status_index(*self),
    {
        match self {
            Status::Success => 0,
            Status::Failed => 1,
            Status::DevBusy => 2,
            Status::DevErr => 3,
            Status::NoDev => 4,
            Status::Unexpected => 5,
        }
    }

    /// The status with number `n`, if any.
    pub fn from_index(n: u32) -> (r: Option<Status>)
        ensures
            r == status_of_index(n),
    {
        match n {
            0 => Some(Status::Success),
            1 => Some(Status::Failed),
            2 => Some(Status::DevBusy),
            3 => Some(Status::DevErr),
            4 => Some(Status::NoDev),
            5 => Some(Status::Unexpected),
            _ => None,
        }
    }

    /// A sentence that says what the status means.
    pub fn message(&self) -> (r: &'static str)
        ensures
            r@ == status_message(*self),
    {
        match self {
            Status::Success => "Request succeeded",
            Status::Failed => "Request failed",
            Status::DevBusy => "Device busy (exported)",
            Status::DevErr => "Device in error state",
            Status::NoDev => "Device not found",
            Status::Unexpected => "Unexpected response",
        }
    }

    /// Appends the status's number, big-endian.
    pub fn encode(&self, out: &mut Vec<u8>)
        ensures
            final(out)@ == old(out)@ + be32(status_index(*self)),
    {
        put_u32_be(out, self.index());
    }

    /// Reads a status at `pos`; a number that names no status is refused.
    pub fn decode(src: &[u8], pos: usize) -> (r: Result<Status, DecodeFailure>)
        requires
            pos <= src@.len(),
        ensures
            pos + 4 > src@.len() ==> r == Err::<Status, DecodeFailure>(DecodeFailure::UnexpectedEnd),
            pos + 4 <= src@.len() ==> {
                let n = from_be32(src@.subrange(pos as int, src@.len() as int));
                &&& status_of_index(n) matches Some(s) ==> r == Ok::<Status, DecodeFailure>(s)
                &&& status_of_index(n) is None ==> r == Err::<Status, DecodeFailure>(
                    DecodeFailure::UnexpectedVariant { found: n },
                )
            },
    {
        let n = match get_u32_be(src, pos) {
            Ok(n) => n,
            Err(e) => return Err(e),
        };
        match Self::from_index(n) {
            Some(s) => Ok(s),
            None => Err(DecodeFailure::UnexpectedVariant { found: n }),
        }
    }
}

/// What can go wrong between a host and a client.
#[derive(Debug)]
pub enum Error {
    /// The other side speaks another protocol version.
    VersionMismatch(u16),
    /// The header carries another operation code than the one expected,
    /// the one given.
    CodeMismatch(u16),
    /// The host answered for another bus id than the one asked for.
    BusIdMismatch(String),
    Enc(EncodeFailure),
    De(DecodeFailure),
}

/// The common header of every USB/IP operation.
#[derive(Debug, Clone, Copy)]
pub struct OpCommon {
    version: u16,
    code: Protocol,
    status: Status,
}

/// The fields of an [`OpCommon`]: version, code bits and status.
pub struct OpCommonView {
    pub version: u16,
    pub code: u16,
    pub status: Status,
}

impl View for OpCommon {
    type V = OpCommonView;

    closed spec fn view(&self) -> OpCommonView {
        OpCommonView { version: self.version, code: self.code.spec_bits(), status: self.status }
    }
}

/// The bytes of an encoded header.
pub open spec fn op_common_bytes(v: OpCommonView) -> Seq<u8> {
    be16(v.version) + be16(v.code) + be32(status_index(v.status))
}

/// What decoding a header from the bytes `b` gives.
pub open spec fn spec_decode_op_common(b: Seq<u8>) -> Result<OpCommonView, DecodeFailure> {
    if b.len() < 4 {
        Err(DecodeFailure::UnexpectedEnd)
    } else if !known_protocol_bits(from_be16(b.subrange(2, b.len() as int))) {
        Err(DecodeFailure::UnexpectedVariant { found: from_be16(b.subrange(2, b.len() as int)) as u32 })
    } else if b.len() < 8 {
        Err(DecodeFailure::UnexpectedEnd)
    } else {
        match status_of_index(from_be32(b.subrange(4, b.len() as int))) {
            None => Err(DecodeFailure::UnexpectedVariant { found: from_be32(b.subrange(4, b.len() as int)) }),
            Some(s) => Ok(
                OpCommonView {
                    version: from_be16(b),
                    code: from_be16(b.subrange(2, b.len() as int)),
                    status: s,
                },
            ),
        }
    }
}

/// What checking a header against the code `expected` gives: a version
/// other than this library's is refused, and so is a code other than the
/// expected one, unless nothing in particular (no bit) was expected;
/// otherwise the header's status.
pub open spec fn spec_validate(v: OpCommonView, expected: u16) -> Result<Status, Error> {
    if v.version != USBIP_VERSION {
        Err(Error::VersionMismatch(v.version))
    } else if expected != 0 && expected != v.code {
        Err(Error::CodeMismatch(v.code))
    } else {
        Ok(v.status)
    }
}

/// The status of a header read off the wire is the one its last four
/// bytes number, big-endian: a reply of this library's version with the
/// expected code and status bytes `0 0 0 4` says that there is no such device.
pub proof fn lemma_header_status(b: Seq<u8>, expected: u16)
    requires
        b.len() >= 8,
        from_be16(b) == USBIP_VERSION,
        known_protocol_bits(from_be16(b.subrange(2, b.len() as int))),
        expected == 0 || expected == from_be16(b.subrange(2, b.len() as int)),
        b[4] == 0,
        b[5] == 0,
        b[6] == 0,
        b[7] < 6,
    ensures
        spec_decode_op_common(b) matches Ok(v) && spec_validate(v, expected) == Ok::<Status, Error>(
            if b[7] == 0 {
                Status::Success
            } else if b[7] == 1 {
                Status::Failed
            } else if b[7] == 2 {
                Status::DevBusy
            } else if b[7] == 3 {
                Status::DevErr
            } else if b[7] == 4 {
                Status::NoDev
            } else {
                Status::Unexpected
            },
        ),
{
    let t = b.subrange(4, b.len() as int);
    assert(from_be32(t) == b[7] as u32) by {
        assert(t[0] == 0 && t[1] == 0 && t[2] == 0 && t[3] == b[7]);
    }
}

impl OpCommon {
    /// A header for a request with code `code`, of this library's version,
    /// and a success status.
    pub fn request(code: Protocol) -> (r: OpCommon)
        ensures
            r@.version == USBIP_VERSION,
            r@.code == code.spec_bits(),
            r@.status == Status::Success,
    {
        OpCommon { version: 0x111u16, code, status: Status::Success }
    }

    /// The same header with the status `status`.
    pub fn reply(self, status: Status) -> (r: OpCommon)
        ensures
            r@.version == self@.version,
            r@.code == self@.code,
            r@.status == status,
    {
        OpCommon { status, ..self }
    }

    /// Checks the version and the code of the header, and gives its status.
    pub fn validate(&self, expected: Protocol) -> (r: Result<Status, Error>)
        ensures
            r == spec_validate(self@, expected.spec_bits()),
    {
        if self.version != 0x111u16 {
            Err(Error::VersionMismatch(self.version))
        } else if expected.bits() != 0 && expected.bits() != self.code.bits() {
            Err(Error::CodeMismatch(self.code.bits()))
        } else {
            Ok(self.status)
        }
    }

    /// Appends the encoded header.
    pub fn encode(&self, out: &mut Vec<u8>)
        ensures
            final(out)@ == old(out)@ + op_common_bytes(self@),
    {
        put_u16_be(out, self.version);
        self.code.encode(out);
        self.status.encode(out);
        assert(final(out)@ =~= old(out)@ + op_common_bytes(self@));
    }

    /// Reads a header at `pos`.
    pub fn decode(src: &[u8], pos: usize) -> (r: Result<OpCommon, DecodeFailure>)
        requires
            pos <= src@.len(),
        ensures
            match spec_decode_op_common(src@.subrange(pos as int, src@.len() as int)) {
                Ok(v) => r matches Ok(c) && c@ == v,
                Err(e) => r == Err::<OpCommon, DecodeFailure>(e),
            },
    {
        let ghost b = src@.subrange(pos as int, src@.len() as int);
        // The length of `src`, a `usize`, bounds every position below.
        let _len = src.len();
        let version = match get_u16_be(src, pos) {
            Ok(v) => v,
            Err(e) => return Err(e),
        };
        let code = match Protocol::decode(src, pos + 2) {
            Ok(c) => c,
            Err(e) => {
                assert(b.len() >= 4 ==> b.subrange(2, b.len() as int) =~= src@.subrange(pos + 2, src@.len() as int));
                return Err(e);
            },
        };
        assert(b.subrange(2, b.len() as int) =~= src@.subrange(pos + 2, src@.len() as int));
        let status = match Status::decode(src, pos + 4) {
            Ok(s) => s,
            Err(e) => {
                assert(b.len() >= 8 ==> b.subrange(4, b.len() as int) =~= src@.subrange(pos + 4, src@.len() as int));
                return Err(e);
            },
        };
        assert(b.subrange(4, b.len() as int) =~= src@.subrange(pos + 4, src@.len() as int));
        Ok(OpCommon { version, code, status })
    }
}

/// Decoding an encoded header gives the header back, when its code bits
/// name flags.
pub proof fn lemma_decode_op_common_bytes(v: OpCommonView)
    requires
        known_protocol_bits(v.code),
    ensures
        spec_decode_op_common(op_common_bytes(v)) matches Ok(w) && w == v,
{
    lemma_be16_roundtrip(v.version);
    lemma_be16_roundtrip(v.code);
    lemma_be32_roundtrip(status_index(v.status));
    let b = op_common_bytes(v);
    assert(b.subrange(0, 2) =~= be16(v.version));
    assert(b.subrange(2, b.len() as int).subrange(0, 2) =~= be16(v.code));
    assert(b.subrange(4, b.len() as int).subrange(0, 4) =~= be32(status_index(v.status)));
}

/// A request header answered with a status checks out against its own code
/// as that status.
pub proof fn lemma_validate_reply(code: u16, status: Status)
    ensures
        spec_validate(OpCommonView { version: USBIP_VERSION as u16, code, status }, code) == Ok::<
            Status,
            Error,
        >(status),
{
}

/// A header of this library's version checks out against no code in
/// particular as its own status.
pub proof fn lemma_validate_unspec(v: OpCommonView)
    requires
        v.version == USBIP_VERSION,
    ensures
        spec_validate(v, 0) == Ok::<Status, Error>(v.status),
{
}

/// A request to import the device with bus id `bus_id`.
#[derive(Debug)]
pub struct OpImportRequest<'a> {
    bus_id: &'a str,
}

impl<'a> OpImportRequest<'a> {
    /// A request for the bus id `bus_id`.
    pub fn new(bus_id: &'a str) -> (r: OpImportRequest<'a>)
        ensures
            r.spec_bus_id() == bus_id,
    {
        OpImportRequest { bus_id }
    }

    /// The bus id asked for.
    pub closed spec fn spec_bus_id(&self) -> &'a str {
        self.bus_id
    }

    /// Appends the bus id in a zeroed array of 32 bytes; a bus id longer
    /// than that is refused and nothing is appended.
    pub fn encode(&self, out: &mut Vec<u8>) -> (r: Result<(), EncodeFailure>)
        ensures
            r is Ok <==> self.spec_bus_id().spec_bytes().len() <= BUS_ID_SIZE,
            r is Ok ==> final(out)@ == old(out)@ + self.spec_bus_id().spec_bytes() + Seq::new(
                (BUS_ID_SIZE - self.spec_bus_id().spec_bytes().len()) as nat,
                |i: int| 0u8,
            ),
            r is Err ==> final(out)@ == old(out)@,
    {
        match StackStr::<BUS_ID_SIZE>::try_from(self.bus_id) {
            Ok(s) => {
                s.encode(out);
                Ok(())
            },
            Err(_) => Err(EncodeFailure::UnexpectedEnd),
        }
    }
}

/// An import request as it is read off the wire.
#[derive(Debug)]
pub struct OwnedOpImportRequest {
    bus_id: StackStr<BUS_ID_SIZE>,
}

impl OwnedOpImportRequest {
    /// The bus id asked for.
    pub fn into_inner(self) -> (r: StackStr<BUS_ID_SIZE>)
        ensures
            r == self.spec_bus_id(),
    {
        self.bus_id
    }

    pub closed spec fn spec_bus_id(&self) -> StackStr<BUS_ID_SIZE> {
        self.bus_id
    }

    /// Reads a request at `pos`: 32 bytes of UTF-8 whose trailing zero bytes
    /// are not part of the bus id.
    pub fn decode(src: &[u8], pos: usize) -> (r: Result<OwnedOpImportRequest, DecodeFailure>)
        requires
            pos <= src@.len(),
        ensures
            pos + BUS_ID_SIZE > src@.len() ==> r == Err::<OwnedOpImportRequest, DecodeFailure>(DecodeFailure::UnexpectedEnd),
            pos + BUS_ID_SIZE <= src@.len() ==> {
                let b = src@.subrange(pos as int, pos + BUS_ID_SIZE);
                &&& !vstd::utf8::valid_utf8(b) ==> r == Err::<OwnedOpImportRequest, DecodeFailure>(DecodeFailure::Utf8)
                &&& vstd::utf8::valid_utf8(b) ==> (r matches Ok(q) && q.spec_bus_id().raw() == b
                    && q.spec_bus_id().bytes() == b.subrange(0, trimmed_len(b) as int))
            },
    {
        match StackStr::<BUS_ID_SIZE>::decode(src, pos) {
            Ok(bus_id) => Ok(OwnedOpImportRequest { bus_id }),
            Err(e) => Err(e),
        }
    }
}

/// The bytes of an encoded import request read back as a request give the
/// bus id that was encoded, when it is UTF-8 of at most 32 bytes that does
/// not end in a zero byte.
pub proof fn lemma_import_request_roundtrip(bus_id: Seq<u8>)
    requires
        zero_padded(bus_id, bus_id + Seq::new((BUS_ID_SIZE - bus_id.len()) as nat, |i: int| 0u8), BUS_ID_SIZE as nat),
    ensures
        ({
            let b = bus_id + Seq::new((BUS_ID_SIZE - bus_id.len()) as nat, |i: int| 0u8);
            &&& vstd::utf8::valid_utf8(b)
            &&& b.subrange(0, trimmed_len(b) as int) == bus_id
        }),
{
    lemma_trim_zero_padded(
        bus_id,
        bus_id + Seq::new((BUS_ID_SIZE - bus_id.len()) as nat, |i: int| 0u8),
        BUS_ID_SIZE as nat,
    );
}

/// The reply to an import request: the device that was imported.
#[derive(Debug)]
pub struct OpImportReply {
    usb_dev: UsbDevice,
}

impl OpImportReply {
    pub fn new(usb_dev: UsbDevice) -> (r: OpImportReply)
        ensures
            r.spec_device()@ == usb_dev@,
    {
        OpImportReply { usb_dev }
    }

    pub closed spec fn spec_device(&self) -> UsbDevice {
        self.usb_dev
    }

    /// The device that was imported.
    pub fn into_inner(self) -> (r: UsbDevice)
        ensures
            r@ == self.spec_device()@,
    {
        self.usb_dev
    }

    /// Appends the encoded device.
    pub fn encode(&self, out: &mut Vec<u8>)
        ensures
            final(out)@ == old(out)@ + device_bytes(self.spec_device()@),
    {
        self.usb_dev.encode(out);
    }

    /// Reads a reply at `pos`.
    pub fn decode(src: &[u8], pos: usize) -> (r: Result<OpImportReply, DecodeFailure>)
        requires
            pos <= src@.len(),
        ensures
            match spec_decode_device(src@.subrange(pos as int, src@.len() as int)) {
                Ok(v) => r matches Ok(rep) && rep.spec_device()@ == v,
                Err(e) => r == Err::<OpImportReply, DecodeFailure>(e),
            },
    {
        match UsbDevice::decode(src, pos) {
            Ok(usb_dev) => Ok(OpImportReply { usb_dev }),
            Err(e) => Err(e),
        }
    }
}

/// The reply to a device-list request: how many devices follow.
#[derive(Debug)]
pub struct OpDevlistReply {
    num_devices: u32,
}

impl OpDevlistReply {
    pub fn new(num_devices: u32) -> (r: OpDevlistReply)
        ensures
            r.spec_num_devices() == num_devices,
    {
        OpDevlistReply { num_devices }
    }

    pub closed spec fn spec_num_devices(&self) -> u32 {
        self.num_devices
    }

    /// How many devices follow.
    pub fn num_devices(&self) -> (r: u32)
        ensures
            r == self.spec_num_devices(),
    {
        self.num_devices
    }

    /// Appends the number, big-endian.
    pub fn encode(&self, out: &mut Vec<u8>)
        ensures
            final(out)@ == old(out)@ + be32(self.spec_num_devices()),
    {
        put_u32_be(out, self.num_devices);
    }

    /// Reads a reply at `pos`.
    pub fn decode(src: &[u8], pos: usize) -> (r: Result<OpDevlistReply, DecodeFailure>)
        requires
            pos <= src@.len(),
        ensures
            pos + 4 > src@.len() ==> r == Err::<OpDevlistReply, DecodeFailure>(DecodeFailure::UnexpectedEnd),
            pos + 4 <= src@.len() ==> (r matches Ok(d) && d.spec_num_devices() == from_be32(
                src@.subrange(pos as int, src@.len() as int),
            )),
    {
        match get_u32_be(src, pos) {
            Ok(n) => Ok(OpDevlistReply { num_devices: n }),
            Err(e) => Err(e),
        }
    }
}

} // verus!
