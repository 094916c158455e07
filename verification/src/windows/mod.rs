//! The Windows side: the device I/O requests of the usbip-win2 vhci driver.
use vstd::prelude::*;

use vstd::string::StringSliceAdditionalSpecFns;

use crate::windows::ioctl::DeviceLocation;
use crate::BUS_ID_SIZE;

pub mod ioctl;

verus! {

/// A Win32 error code.
#[derive(Debug, Clone, Copy, PartialEq, Eq, Structural)]
pub struct Win32Error {
    code: u32,
}

impl Win32Error {
    pub fn new(code: u32) -> (r: Win32Error)
        ensures
            r.spec_code() == code,
    {
        Win32Error { code }
    }

    pub closed spec fn spec_code(&self) -> u32 {
        self.code
    }

    /// The code.
    pub fn get(self) -> (r: u32)
        ensures
            r == self.spec_code(),
    {
        self.code
    }
}

/// The bus id given to attach a device is longer than a bus id can be.
#[derive(Debug, Clone, Copy, PartialEq, Eq, Structural)]
pub struct TryFromAttachArgsErr;

impl TryFromAttachArgsErr {
    /// The text shown for the error.
    pub fn message(&self) -> (r: &'static str)
        ensures
            r@ == "the given busid was greater than BUS_ID_SIZE (31)"@,
    {
        "the given busid was greater than BUS_ID_SIZE (31)"
    }
}

/// The location of the device with bus id `bus_id` on the host at `host`,
/// port `port`, when the bus id fits in a bus id field with its terminating
/// zero.
pub fn device_location<'a>(host: &'a str, port: u16, bus_id: &'a str) -> (r: Result<DeviceLocation<'a>, TryFromAttachArgsErr>)
    ensures
        bus_id.spec_bytes().len() < BUS_ID_SIZE ==> (r matches Ok(l) && l.spec_host() == host && l.spec_port()
            == port && l.spec_bus_id() == bus_id),
        bus_id.spec_bytes().len() >= BUS_ID_SIZE ==> r is Err,
{
    if bus_id.as_bytes().len() < BUS_ID_SIZE {
        Ok(DeviceLocation::new(host, port, bus_id))
    } else {
        Err(TryFromAttachArgsErr)
    }
}

/// Whether the address `addr` is a multiple of `align`, a power of two.
pub fn is_aligned_to(addr: usize, align: usize) -> (r: bool)
    requires
        align > 0,
        align & ((align - 1) as usize) == 0,
    ensures
        r == (addr % align == 0),
{
    addr % align == 0
}

/// The 16-bit units that the bytes `a` hold, in the machine's little-endian
/// order, two bytes each; the bytes must come in pairs.
pub fn u16_units(a: &[u8]) -> (r: Vec<u16>)
    requires
        a@.len() % 2 == 0,
    ensures
        r@.len() == a@.len() / 2,
        forall|i: int| 0 <= i < r@.len() ==> #[trigger] r@[i] == a@[2 * i] + 256 * a@[2 * i + 1],
{
    let mut out: Vec<u16> = Vec::new();
    let len = a.len();
    let n = len / 2;
    let mut i: usize = 0;
    while i < n
        invariant
            len == a@.len(),
            n == a@.len() / 2,
            a@.len() % 2 == 0,
            i <= n,
            out@.len() == i,
            forall|k: int| 0 <= k < i ==> #[trigger] out@[k] == a@[2 * k] + 256 * a@[2 * k + 1],
        decreases n - i,
    {
        let lo = a[2 * i] as u16;
        let hi = a[2 * i + 1] as u16;
        out.push(lo + 256 * hi);
        i = i + 1;
    }
    out
}

} // verus!
