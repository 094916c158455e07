//! The vhci driver on Linux: the lines of its status files, the ports that
//! are free, and the devices that are imported.
use vstd::prelude::*;

use vstd::string::StringSliceAdditionalSpecFns;
use vstd::utf8::{decode_utf8, encode_utf8, encode_utf8_decode_utf8};

use crate::containers::stacktools::{StackStr, TryFromStrErr};
use crate::device::{
    spec_dev_id, spec_parse_status, speed_text, status_text, DeviceSpeed, DeviceStatus,
    ParseDeviceStatusError, UsbDevice,
};
use crate::names::{spec_product_display, Names};
use crate::text::{
    chars_of, digits, has_prefix_at, is_digit, is_ws, lemma_digits_are_digits, lemma_parse_digits,
    lemma_ws_tokens_space, lemma_ws_tokens_word, lines, pad_left, parse_uint, parse_uint_str,
    push_digits, push_padded_digits, push_repeat, push_right_aligned, push_str, split_lines,
    split_whitespace, starts_with, str_is, ws_tokens, ParseIntError,
};
use crate::util::{next_token, Tokens};
use crate::vhci::base::ImportedDevice;
use crate::BUS_ID_SIZE;
use crate::vhci::{hub_speed_code, spec_parse_hub_speed, HubSpeed, ParseHubSpeedError};

verus! {

/// Why a line of a status file could not be read.
#[derive(Debug, PartialEq, Eq)]
pub enum StatusLineError {
    /// A word of the line is missing.
    Missing,
    Hub(ParseHubSpeedError),
    Int(ParseIntError),
    Status(ParseDeviceStatusError),
}

/// A free port of the driver.
#[derive(Debug, Clone, Copy, PartialEq, Eq, Structural)]
pub struct AvailableIdev {
    pub port: u16,
    pub hub_speed: HubSpeed,
    pub status: DeviceStatus,
}

/// What reading the first three words of a status line (hub speed, port,
/// status) gives; `Missing` where a word that is needed is not there.
pub open spec fn spec_line_head(toks: Seq<Seq<char>>) -> Result<(HubSpeed, u16, DeviceStatus), StatusLineError> {
    if toks.len() < 1 {
        Err(StatusLineError::Missing)
    } else {
        match spec_parse_hub_speed(toks[0]) {
            Err(e) => Err(StatusLineError::Hub(e)),
            Ok(hub) => if toks.len() < 2 {
                Err(StatusLineError::Missing)
            } else {
                match parse_uint(toks[1], 0xffff) {
                    Err(k) => Err(StatusLineError::Int(ParseIntError { kind: k })),
                    Ok(port) => if toks.len() < 3 {
                        Err(StatusLineError::Missing)
                    } else {
                        match spec_parse_status(toks[2]) {
                            Err(e) => Err(StatusLineError::Status(e)),
                            Ok(st) => Ok((hub, port as u16, st)),
                        }
                    },
                }
            },
        }
    }
}

/// Reads the first three words of a status line.
fn line_head(tokens: &mut Tokens) -> (r: Result<(HubSpeed, u16, DeviceStatus), StatusLineError>)
    ensures
        r == spec_line_head(old(tokens)@),
        r is Ok ==> final(tokens)@ == old(tokens)@.skip(3),
{
    let ghost ts = tokens@;
    let w = match next_token(tokens) {
        Some(w) => w,
        None => return Err(StatusLineError::Missing),
    };
    let hub = match HubSpeed::parse(w.as_str()) {
        Ok(h) => h,
        Err(e) => return Err(StatusLineError::Hub(e)),
    };
    let w = match next_token(tokens) {
        Some(w) => w,
        None => return Err(StatusLineError::Missing),
    };
    let port = match parse_uint_str(w.as_str(), 0xffff) {
        Ok(p) => p as u16,
        Err(e) => return Err(StatusLineError::Int(e)),
    };
    let w = match next_token(tokens) {
        Some(w) => w,
        None => return Err(StatusLineError::Missing),
    };
    let status = match DeviceStatus::parse(w.as_str()) {
        Ok(s) => s,
        Err(e) => return Err(StatusLineError::Status(e)),
    };
    assert(tokens@ =~= ts.skip(3));
    Ok((hub, port, status))
}

/// What reading a status line for a free port gives: the port when its
/// status says it is available, nothing otherwise; the error of its first
/// three words when they do not read.
pub open spec fn spec_available_line(line: Seq<char>) -> Result<Option<AvailableIdev>, StatusLineError> {
    match spec_line_head(ws_tokens(line)) {
        Err(e) => Err(e),
        Ok((hub, port, st)) => Ok(
            if st == DeviceStatus::PortAvailable {
                Some(AvailableIdev { port, hub_speed: hub, status: st })
            } else {
                None
            },
        ),
    }
}

/// Reads a status line: the port when it is available.
pub fn parse_available(line: &str) -> (r: Result<Option<AvailableIdev>, StatusLineError>)
    ensures
        r == spec_available_line(line@),
{
    let mut tokens = Tokens::new(line);
    match line_head(&mut tokens) {
        Err(e) => Err(e),
        Ok((hub, port, status)) => {
            if status == DeviceStatus::PortAvailable {
                Ok(Some(AvailableIdev { port, hub_speed: hub, status }))
            } else {
                Ok(None)
            }
        },
    }
}

/// A status line of a port that is in use: hub speed, port, status, device
/// id and the bus id of the local device.
#[derive(Debug)]
pub struct ImportedLine {
    pub hub: HubSpeed,
    pub port: u16,
    pub status: DeviceStatus,
    pub devid: u32,
    pub busid: String,
}

/// What reading a status line for an imported device gives: nothing for a
/// free port; otherwise the speed, device id and socket words must be
/// numbers, and the bus id follows them. `Missing` where a word that is
/// needed is not there.
pub open spec fn spec_imported_line(line: Seq<char>) -> Result<Option<(HubSpeed, u16, DeviceStatus, u32, Seq<char>)>, StatusLineError> {
    let toks = ws_tokens(line);
    match spec_line_head(toks) {
        Err(e) => Err(e),
        Ok((hub, port, st)) => if st == DeviceStatus::PortAvailable {
            Ok(None)
        } else if toks.len() < 4 {
            Err(StatusLineError::Missing)
        } else {
            match parse_uint(toks[3], 0xffff_ffff) {
                Err(k) => Err(StatusLineError::Int(ParseIntError { kind: k })),
                Ok(_) => if toks.len() < 5 {
                    Err(StatusLineError::Missing)
                } else {
                    match parse_uint(toks[4], 0xffff_ffff) {
                        Err(k) => Err(StatusLineError::Int(ParseIntError { kind: k })),
                        Ok(devid) => if toks.len() < 6 {
                            Err(StatusLineError::Missing)
                        } else {
                            match parse_uint(toks[5], 0xffff_ffff) {
                                Err(k) => Err(StatusLineError::Int(ParseIntError { kind: k })),
                                Ok(_) => if toks.len() < 7 {
                                    Err(StatusLineError::Missing)
                                } else {
                                    Ok(Some((hub, port, st, devid as u32, toks[6])))
                                },
                            }
                        },
                    }
                },
            }
        },
    }
}

/// Reads the words of a status line that must be a number no greater than
/// `u32::MAX`.
fn next_uint(tokens: &mut Tokens) -> (r: Result<u32, StatusLineError>)
    ensures
        old(tokens)@.len() == 0 ==> r == Err::<u32, StatusLineError>(StatusLineError::Missing),
        old(tokens)@.len() > 0 ==> match parse_uint(old(tokens)@[0], 0xffff_ffff) {
            Ok(v) => r == Ok::<u32, StatusLineError>(v as u32) && final(tokens)@ == old(tokens)@.drop_first(),
            Err(k) => r == Err::<u32, StatusLineError>(StatusLineError::Int(ParseIntError { kind: k })),
        },
{
    let w = match next_token(tokens) {
        Some(w) => w,
        None => return Err(StatusLineError::Missing),
    };
    match parse_uint_str(w.as_str(), 0xffff_ffff) {
        Ok(v) => Ok(v),
        Err(e) => Err(StatusLineError::Int(e)),
    }
}

/// Reads a status line: the imported device's line when the port is in use.
pub fn parse_imported_line(line: &str) -> (r: Result<Option<ImportedLine>, StatusLineError>)
    ensures
        match spec_imported_line(line@) {
            Ok(Some((hub, port, st, devid, busid))) => r matches Ok(Some(l)) && l.hub == hub && l.port == port
                && l.status == st && l.devid == devid && l.busid@ == busid,
            Ok(None) => r matches Ok(None),
            Err(e) => r == Err::<Option<ImportedLine>, StatusLineError>(e),
        },
{
    let mut tokens = Tokens::new(line);
    let ghost ts = tokens@;
    let (hub, port, status) = match line_head(&mut tokens) {
        Err(e) => return Err(e),
        Ok(h) => h,
    };
    if status == DeviceStatus::PortAvailable {
        return Ok(None);
    }
    let ghost t3 = tokens@;
    assert(t3 =~= ts.skip(3));
    match next_uint(&mut tokens) {
        Ok(_) => {},
        Err(e) => return Err(e),
    }
    assert(tokens@ =~= ts.skip(4));
    let devid = match next_uint(&mut tokens) {
        Ok(d) => d,
        Err(e) => return Err(e),
    };
    assert(tokens@ =~= ts.skip(5));
    match next_uint(&mut tokens) {
        Ok(_) => {},
        Err(e) => return Err(e),
    }
    assert(tokens@ =~= ts.skip(6));
    let busid = match next_token(&mut tokens) {
        Some(w) => w,
        None => return Err(StatusLineError::Missing),
    };
    Ok(Some(ImportedLine { hub, port, status, devid, busid }))
}

/// The free ports of the driver, in the order they were found.
#[derive(Debug)]
pub struct OpenPorts {
    ports: Vec<AvailableIdev>,
}

/// Whether a free port is of the speed with number `code`.
pub open spec fn port_of_speed(p: AvailableIdev, code: u32) -> bool {
    hub_speed_code(p.hub_speed) == code
}

impl View for OpenPorts {
    type V = Seq<AvailableIdev>;

    closed spec fn view(&self) -> Seq<AvailableIdev> {
        self.ports@
    }
}

impl OpenPorts {
    /// No free port.
    pub fn new() -> (r: OpenPorts)
        ensures
            r@ == Seq::<AvailableIdev>::empty(),
    {
        OpenPorts { ports: Vec::new() }
    }

    /// The free ports.
    pub fn get(&self) -> (r: &[AvailableIdev])
        ensures
            r@ == self@,
    {
        self.ports.as_slice()
    }

    /// The free ports, to change.
    pub fn get_mut(&mut self) -> (r: &mut Vec<AvailableIdev>)
        ensures
            r@ == old(self)@,
            final(self)@ == final(r)@,
    {
        &mut self.ports
    }

    /// Adds a free port at the end.
    pub fn push(&mut self, port: AvailableIdev)
        ensures
            final(self)@ == old(self)@.push(port),
    {
        self.get_mut().push(port);
    }

    /// Whether `port` is among the free ports.
    pub fn contains_port(&self, port: u16) -> (r: bool)
        ensures
            r <==> exists|i: int| 0 <= i < self@.len() && (#[trigger] self@[i]).port == port,
    {
        let mut i: usize = 0;
        while i < self.ports.len()
            invariant
                i <= self.ports@.len(),
                forall|k: int| 0 <= k < i ==> (#[trigger] self.ports@[k]).port != port,
            decreases self.ports.len() - i,
        {
            if self.ports[i].port == port {
                return true;
            }
            i = i + 1;
        }
        false
    }

    /// Takes out the first free port whose hub is of speed `speed`; the last
    /// port takes its place.
    pub fn get_next(&mut self, speed: DeviceSpeed) -> (r: Option<AvailableIdev>)
        ensures
            r is None <==> forall|i: int| 0 <= i < old(self)@.len() ==> !port_of_speed(#[trigger] old(self)@[i], speed.spec_code()),
            r is None ==> final(self)@ == old(self)@,
            r matches Some(p) ==> exists|i: int| {
                &&& 0 <= i < old(self)@.len()
                &&& p == old(self)@[i]
                &&& port_of_speed(p, speed.spec_code())
                &&& forall|j: int| 0 <= j < i ==> !port_of_speed(#[trigger] old(self)@[j], speed.spec_code())
                &&& final(self)@ == old(self)@.update(i, old(self)@.last()).drop_last()
            },
    {
        let code = speed.code();
        let mut i: usize = 0;
        while i < self.ports.len()
            invariant
                i <= self.ports@.len(),
                self.ports@ == old(self).ports@,
                code == speed.spec_code(),
                forall|k: int| 0 <= k < i ==> !port_of_speed(#[trigger] self.ports@[k], code),
            decreases self.ports.len() - i,
        {
            if self.ports[i].hub_speed.device_speed().code() == code {
                let ghost before = self.ports@;
                assert(port_of_speed(before[i as int], code));
                let p = self.ports.swap_remove(i);
                assert(p == old(self)@[i as int]);
                assert(self@ == old(self)@.update(i as int, old(self)@.last()).drop_last());
                return Some(p);
            }
            i = i + 1;
        }
        None
    }
}

/// Taking a port out and putting it back leaves the same ports, in another
/// order.
pub proof fn lemma_take_and_put_back(ports: Seq<AvailableIdev>, i: int)
    requires
        0 <= i < ports.len(),
    ensures
        ports.update(i, ports.last()).drop_last().push(ports[i]).to_multiset() == ports.to_multiset(),
{
    broadcast use vstd::seq_lib::group_to_multiset_ensures;

    let rest = ports.update(i, ports.last()).drop_last();
    let u = ports.update(i, ports.last());
    let m = ports.remove(i).to_multiset();
    assert(u.remove(i) =~= ports.remove(i));
    assert(ports.to_multiset() =~= m.insert(ports[i])) by {
        assert(ports.remove(i).to_multiset() =~= ports.to_multiset().remove(ports[i]));
        assert(ports.to_multiset().count(ports[i]) > 0);
    }
    assert(u.to_multiset() =~= m.insert(ports.last())) by {
        assert(u.remove(i).to_multiset() =~= u.to_multiset().remove(u[i]));
        assert(u.to_multiset().count(u[i]) > 0);
    }
    assert(u =~= rest.push(ports.last()));
    assert(rest.to_multiset() =~= m) by {
        assert(rest.to_multiset().insert(ports.last()) =~= m.insert(ports.last()));
        assert forall|x: AvailableIdev| rest.to_multiset().count(x) == m.count(x) by {
            assert(rest.to_multiset().insert(ports.last()).count(x) == m.insert(ports.last()).count(x));
        }
    }
}

/// The free ports that the lines `ls` of a status file name, in order.
pub open spec fn available_in(ls: Seq<Seq<char>>) -> Seq<AvailableIdev>
    decreases ls.len(),
{
    if ls.len() == 0 {
        Seq::empty()
    } else {
        let rest = available_in(ls.drop_last());
        match spec_available_line(ls.last()) {
            Ok(Some(p)) => rest.push(p),
            _ => rest,
        }
    }
}

/// Whether every line of a status file after its heading reads.
pub open spec fn status_text_reads(text: Seq<char>) -> bool {
    forall|i: int| 1 <= i < lines(text).len() ==> #[trigger] spec_available_line(lines(text)[i]) is Ok
}

/// The lines of a status file after its heading.
pub open spec fn status_lines(text: Seq<char>) -> Seq<Seq<char>> {
    if lines(text).len() == 0 {
        Seq::empty()
    } else {
        lines(text).subrange(1, lines(text).len() as int)
    }
}

impl OpenPorts {
    /// Adds the free ports that a status file of the driver names; its
    /// first line is a heading.
    pub fn add_status(&mut self, status: &str)
        requires
            status_text_reads(status@),
        ensures
            final(self)@ == old(self)@ + available_in(status_lines(status@)),
    {
        let ls = split_lines(status);
        let ghost all = lines(status@);
        let mut i: usize = 1;
        proof {
            if all.len() > 0 {
                assert(status_lines(status@).subrange(0, 0) =~= Seq::<Seq<char>>::empty());
            }
        }
        while i < ls.len()
            invariant
                ls@.len() == all.len(),
                all == lines(status@),
                forall|k: int| 0 <= k < ls@.len() ==> #[trigger] ls@[k]@ == all[k],
                status_text_reads(status@),
                1 <= i,
                i <= ls@.len() || ls@.len() == 0,
                ls@.len() > 0 ==> self@ == old(self)@ + available_in(all.subrange(1, i as int)),
                ls@.len() == 0 ==> self@ == old(self)@,
            decreases ls.len() - i,
        {
            assert(spec_available_line(all[i as int]) is Ok);
            let ghost seen = all.subrange(1, i as int);
            match parse_available(ls[i].as_str()) {
                Ok(Some(p)) => {
                    self.push(p);
                },
                _ => {},
            }
            proof {
                let next = all.subrange(1, i + 1);
                assert(next.drop_last() =~= seen);
                assert(next.last() == all[i as int]);
            }
            i = i + 1;
        }
        proof {
            if all.len() > 0 {
                assert(all.subrange(1, all.len() as int) =~= status_lines(status@));
            } else {
                assert(status_lines(status@) =~= Seq::<Seq<char>>::empty());
                assert(available_in(status_lines(status@)) =~= Seq::<AvailableIdev>::empty());
                assert(self@ =~= old(self)@ + available_in(status_lines(status@)));
            }
        }
    }
}

/// The name of the status attribute of controller `i`: `status` for the
/// first, `status.i` for the others.
pub open spec fn status_attr_name(i: nat) -> Seq<char> {
    if i == 0 {
        "status"@
    } else {
        "status."@ + digits(i, 10)
    }
}

/// The name of the status attribute of controller `i`.
pub fn status_attr(i: u32) -> (r: String)
    ensures
        r@ == status_attr_name(i as nat),
{
    let mut s = String::new();
    if i == 0 {
        push_str(&mut s, "status");
    } else {
        push_str(&mut s, "status.");
        push_digits(&mut s, i, 10);
    }
    s
}

/// A device that the driver has imported.
#[derive(Debug)]
pub struct UnixImportedDevice {
    base: ImportedDevice,
    port: u16,
    hub: HubSpeed,
    status: DeviceStatus,
    usb_dev: UsbDevice,
}

impl UnixImportedDevice {
    /// The imported device of a status line and the device it names; the
    /// vendor and product come from the device, the device id from the line.
    pub fn new(line: ImportedLine, usb_dev: UsbDevice) -> (r: UnixImportedDevice)
        ensures
            r.spec_port() == line.port,
            r.spec_hub() == line.hub,
            r.spec_status() == line.status,
            r.spec_base().spec_vendor() == usb_dev@.id_vendor,
            r.spec_base().spec_product() == usb_dev@.id_product,
            r.spec_base().spec_dev_id() == line.devid,
            r.spec_usb_dev()@ == usb_dev@,
    {
        let base = ImportedDevice::new(usb_dev.id_vendor(), usb_dev.id_product(), line.devid);
        UnixImportedDevice { base, port: line.port, hub: line.hub, status: line.status, usb_dev }
    }

    pub closed spec fn spec_port(&self) -> u16 {
        self.port
    }

    pub closed spec fn spec_hub(&self) -> HubSpeed {
        self.hub
    }

    pub closed spec fn spec_status(&self) -> DeviceStatus {
        self.status
    }

    pub closed spec fn spec_base(&self) -> ImportedDevice {
        self.base
    }

    pub closed spec fn spec_usb_dev(&self) -> UsbDevice {
        self.usb_dev
    }

    pub fn hub(&self) -> (r: HubSpeed)
        ensures
            r == self.spec_hub(),
    {
        self.hub
    }

    pub fn status(&self) -> (r: DeviceStatus)
        ensures
            r == self.spec_status(),
    {
        self.status
    }

    pub fn port(&self) -> (r: u16)
        ensures
            r == self.spec_port(),
    {
        self.port
    }

    /// Whether the device is shown at all: not while its port is free or
    /// still initialising. Only a device that is shown needs its connection
    /// record.
    pub fn is_shown(&self) -> (r: bool)
        ensures
            r == !(self.spec_status() == DeviceStatus::PortInitializing || self.spec_status()
                == DeviceStatus::PortAvailable),
    {
        !(self.status == DeviceStatus::PortInitializing || self.status == DeviceStatus::PortAvailable)
    }

    /// The vendor, product and device id of the device.
    pub fn base(&self) -> (r: &ImportedDevice)
        ensures
            *r == self.spec_base(),
    {
        &self.base
    }

    /// The device that was imported.
    pub fn usb_device(&self) -> (r: &UsbDevice)
        ensures
            r@ == self.spec_usb_dev()@,
    {
        &self.usb_dev
    }

    /// How the device is shown, with the names in `names` and what the
    /// connection record of its port held: the remote host and bus id, or
    /// why the record could not be read.
    pub fn display(&self, names: &Names, record: Result<(&str, &str), &str>) -> (r: String)
        ensures
            r@ == spec_idev_display(
                self.spec_status(),
                self.spec_port(),
                self.spec_usb_dev()@.speed,
                spec_product_display(names@, self.spec_base().spec_vendor(), self.spec_base().spec_product()),
                decode_utf8(self.spec_usb_dev()@.busid),
                self.spec_usb_dev()@.devnum,
                self.spec_usb_dev()@.busnum,
                match record {
                    Ok((host, busid)) => Ok((host@, busid@)),
                    Err(e) => Err(e@),
                },
            ),
    {
        let mut out = String::new();
        if self.status == DeviceStatus::PortInitializing || self.status == DeviceStatus::PortAvailable {
            return out;
        }
        match record {
            Err(e) => {
                push_str(&mut out, "Error when reading port record: ");
                push_str(&mut out, e);
                push_str(&mut out, "\n");
            },
            Ok(_) => {},
        }
        push_str(&mut out, "Port ");
        push_padded_digits(&mut out, self.port as u32, 10, 2);
        push_str(&mut out, ": <");
        push_str(&mut out, self.status.message());
        push_str(&mut out, "> at ");
        push_str(&mut out, self.usb_dev.speed().message());
        push_str(&mut out, "\n");
        let product = names.product_display(self.base.vendor(), self.base.product());
        push_str(&mut out, "       ");
        push_str(&mut out, product.as_str());
        push_str(&mut out, "\n");
        let bus_id = self.usb_dev.bus_id();
        proof {
            encode_utf8_decode_utf8(bus_id@);
        }
        push_right_aligned(&mut out, bus_id, 10);
        match record {
            Ok((host, remote_bus_id)) => {
                push_str(&mut out, " -> usbip://");
                push_str(&mut out, host);
                push_str(&mut out, "/");
                push_str(&mut out, remote_bus_id);
                push_str(&mut out, "\n");
            },
            Err(_) => {
                push_str(&mut out, " -> unknown host, remote port and remote busid\n");
            },
        }
        push_repeat(&mut out, ' ', 10);
        push_str(&mut out, " -> remote bus/dev ");
        push_padded_digits(&mut out, self.usb_dev.dev_num(), 10, 3);
        push_str(&mut out, "/");
        push_padded_digits(&mut out, self.usb_dev.bus_num(), 10, 3);
        push_str(&mut out, "\n");
        out
    }
}

/// How an imported device is shown: nothing for a port that is free or
/// starting; otherwise, after a line with the error of the port's record
/// where it could not be read, the port (two digits), status and speed, the
/// product, the local bus id right-aligned in ten characters with where the
/// device comes from, and the remote device and bus numbers (three digits
/// each).
pub open spec fn spec_idev_display(
    status: DeviceStatus,
    port: u16,
    speed: u32,
    product: Seq<char>,
    busid: Seq<char>,
    devnum: u32,
    busnum: u32,
    record: Result<(Seq<char>, Seq<char>), Seq<char>>,
) -> Seq<char> {
    if status == DeviceStatus::PortInitializing || status == DeviceStatus::PortAvailable {
        Seq::empty()
    } else {
        let error_line = match record {
            Err(e) => "Error when reading port record: "@ + e + "\n"@,
            Ok(_) => Seq::empty(),
        };
        let from = match record {
            Ok((host, remote)) => " -> usbip://"@ + host + "/"@ + remote + "\n"@,
            Err(_) => " -> unknown host, remote port and remote busid\n"@,
        };
        error_line + "Port "@ + pad_left(digits(port as nat, 10), 2, '0') + ": <"@ + status_text(status)
            + "> at "@ + speed_text(speed) + "\n"@ + "       "@ + product + "\n"@ + pad_left(busid, 10, ' ')
            + from + Seq::new(10, |i: int| ' ') + " -> remote bus/dev "@ + pad_left(digits(devnum as nat, 10), 3, '0')
            + "/"@ + pad_left(digits(busnum as nat, 10), 3, '0') + "\n"@
    }
}

/// The devices that the driver has imported.
#[derive(Debug)]
pub struct UnixImportedDevices {
    devices: Vec<UnixImportedDevice>,
}

impl UnixImportedDevices {
    pub fn new(devices: Vec<UnixImportedDevice>) -> (r: UnixImportedDevices)
        ensures
            r.spec_devices() == devices@,
    {
        UnixImportedDevices { devices }
    }

    pub closed spec fn spec_devices(&self) -> Seq<UnixImportedDevice> {
        self.devices@
    }

    /// The devices.
    pub fn devices(&self) -> (r: &[UnixImportedDevice])
        ensures
            r@ == self.spec_devices(),
    {
        self.devices.as_slice()
    }
}

/// The imported devices' lines among the lines `ls` of a status file: hub
/// speed, port, status, device id and bus id of each, in order.
pub open spec fn imported_in(ls: Seq<Seq<char>>) -> Seq<(HubSpeed, u16, DeviceStatus, u32, Seq<char>)>
    decreases ls.len(),
{
    if ls.len() == 0 {
        Seq::empty()
    } else {
        let rest = imported_in(ls.drop_last());
        match spec_imported_line(ls.last()) {
            Ok(Some(l)) => rest.push(l),
            _ => rest,
        }
    }
}

/// The error of the first of the lines `ls` that does not read as the line
/// of a port, if there is one.
pub open spec fn first_line_error(ls: Seq<Seq<char>>) -> Option<StatusLineError>
    decreases ls.len(),
{
    if ls.len() == 0 {
        None
    } else {
        match first_line_error(ls.drop_last()) {
            Some(e) => Some(e),
            None => match spec_imported_line(ls.last()) {
                Err(e) => Some(e),
                Ok(_) => None,
            },
        }
    }
}

/// An error among the first lines stays the first error of more lines.
proof fn lemma_first_line_error_extends(s: Seq<Seq<char>>, a: int, j: int, k: int)
    requires
        0 <= a <= j <= k <= s.len(),
        first_line_error(s.subrange(a, j)) is Some,
    ensures
        first_line_error(s.subrange(a, k)) == first_line_error(s.subrange(a, j)),
    decreases k - j,
{
    if k > j {
        lemma_first_line_error_extends(s, a, j, k - 1);
        assert(s.subrange(a, k).drop_last() =~= s.subrange(a, k - 1));
    }
}

/// Whether `l` holds the fields `v`.
pub open spec fn line_is(l: ImportedLine, v: (HubSpeed, u16, DeviceStatus, u32, Seq<char>)) -> bool {
    l.hub == v.0 && l.port == v.1 && l.status == v.2 && l.devid == v.3 && l.busid@ == v.4
}

/// The lines of the ports in use that a status file of the driver names;
/// its first line is a heading. The error of the first line that does not
/// read, if one does not.
pub fn imported_lines(status: &str) -> (r: Result<Vec<ImportedLine>, StatusLineError>)
    ensures
        match first_line_error(status_lines(status@)) {
            Some(e) => r == Err::<Vec<ImportedLine>, StatusLineError>(e),
            None => r matches Ok(v) && v@.len() == imported_in(status_lines(status@)).len()
                && forall|i: int| 0 <= i < v@.len() ==> line_is(#[trigger] v@[i], imported_in(status_lines(status@))[i]),
        },
{
    let ls = split_lines(status);
    let ghost all = lines(status@);
    let mut out: Vec<ImportedLine> = Vec::new();
    let mut i: usize = 1;
    proof {
        if all.len() > 0 {
            assert(all.subrange(1, 1) =~= Seq::<Seq<char>>::empty());
        }
    }
    while i < ls.len()
        invariant
            ls@.len() == all.len(),
            all == lines(status@),
            forall|k: int| 0 <= k < ls@.len() ==> #[trigger] ls@[k]@ == all[k],
            1 <= i,
            i <= ls@.len() || ls@.len() == 0,
            ls@.len() > 0 ==> first_line_error(all.subrange(1, i as int)) is None,
            ls@.len() > 0 ==> out@.len() == imported_in(all.subrange(1, i as int)).len(),
            ls@.len() > 0 ==> forall|k: int| 0 <= k < out@.len() ==> line_is(#[trigger] out@[k], imported_in(all.subrange(1, i as int))[k]),
            ls@.len() == 0 ==> out@.len() == 0,
        decreases ls.len() - i,
    {
        let ghost seen = all.subrange(1, i as int);
        let ghost next = all.subrange(1, i + 1);
        assert(next.drop_last() =~= seen);
        assert(next.last() == all[i as int]);
        let ghost before = out@;
        match parse_imported_line(ls[i].as_str()) {
            Ok(Some(l)) => {
                out.push(l);
                assert forall|k: int| 0 <= k < out@.len() implies line_is(#[trigger] out@[k], imported_in(next)[k]) by {
                    if k < before.len() {
                        assert(out@[k] == before[k]);
                    }
                }
            },
            Ok(None) => {},
            Err(e) => {
                proof {
                    assert(first_line_error(next) == Some(e));
                    lemma_first_line_error_extends(all, 1, i + 1, all.len() as int);
                    assert(all.subrange(1, all.len() as int) =~= status_lines(status@));
                }
                return Err(e);
            },
        }
        i = i + 1;
    }
    proof {
        if all.len() > 0 {
            assert(all.subrange(1, all.len() as int) =~= status_lines(status@));
        } else {
            assert(status_lines(status@) =~= Seq::<Seq<char>>::empty());
        }
    }
    Ok(out)
}

/// What attaching a device takes: the free port it goes to, and the device
/// id and speed that the driver is told.
#[derive(Debug, Clone, Copy)]
pub struct AttachPlan {
    pub port: AvailableIdev,
    pub dev_id: u32,
    pub speed: DeviceSpeed,
}

/// Why a device that a host sent cannot be attached.
#[derive(Debug)]
pub enum AttachRefusal {
    /// The host sent the device of another bus id, which is given.
    BusIdMismatch(String),
    /// No free port has a hub of the device's speed.
    NoFreePorts,
}

impl OpenPorts {
    /// Decides where the device `usb_dev`, sent by a host for the bus id
    /// `bus_id`, is attached: it must be the device of that bus id, and a
    /// free port of its speed is taken for it.
    pub fn plan_attach(&mut self, usb_dev: &UsbDevice, bus_id: &str) -> (r: Result<AttachPlan, AttachRefusal>)
        ensures
            decode_utf8(usb_dev@.busid) != bus_id@ ==> (r matches Err(AttachRefusal::BusIdMismatch(b)) && b@
                == decode_utf8(usb_dev@.busid) && final(self)@ == old(self)@),
            decode_utf8(usb_dev@.busid) == bus_id@ ==> {
                &&& (r matches Err(AttachRefusal::NoFreePorts)) <==> (forall|i: int| 0 <= i < old(self)@.len()
                    ==> !port_of_speed(#[trigger] old(self)@[i], usb_dev@.speed))
                &&& r matches Ok(plan) ==> {
                    &&& plan.dev_id == spec_dev_id(usb_dev@.busnum, usb_dev@.devnum)
                    &&& plan.speed.spec_code() == usb_dev@.speed
                    &&& exists|i: int| {
                        &&& 0 <= i < old(self)@.len()
                        &&& plan.port == old(self)@[i]
                        &&& port_of_speed(plan.port, usb_dev@.speed)
                        &&& forall|j: int| 0 <= j < i ==> !port_of_speed(#[trigger] old(self)@[j], usb_dev@.speed)
                        &&& final(self)@ == old(self)@.update(i, old(self)@.last()).drop_last()
                    }
                }
                &&& r is Ok || r matches Err(AttachRefusal::NoFreePorts)
            },
            r matches Err(AttachRefusal::NoFreePorts) ==> final(self)@ == old(self)@,
    {
        let dev_bus_id = usb_dev.bus_id();
        proof {
            encode_utf8_decode_utf8(dev_bus_id@);
        }
        if !str_is(dev_bus_id, bus_id) {
            let mut b = String::new();
            push_str(&mut b, dev_bus_id);
            assert(Seq::<char>::empty() + dev_bus_id@ =~= dev_bus_id@);
            return Err(AttachRefusal::BusIdMismatch(b));
        }
        let speed = usb_dev.speed();
        let dev_id = usb_dev.dev_id();
        match self.get_next(speed) {
            Some(port) => Ok(AttachPlan { port, dev_id, speed }),
            None => Err(AttachRefusal::NoFreePorts),
        }
    }
}

impl OpenPorts {
    /// Ends an attach that [`OpenPorts::plan_attach`] planned, once the
    /// driver has been told (`written`) or the write to it failed: a port
    /// that was not attached is free again and goes back among the free
    /// ports; an attached port stays taken.
    pub fn finish_attach(&mut self, plan: &AttachPlan, written: bool)
        ensures
            written ==> final(self)@ == old(self)@,
            !written ==> final(self)@ == old(self)@.push(plan.port),
    {
        if !written {
            self.push(plan.port);
        }
    }
}

/// A failed attach leaves the free ports as they were: the port that
/// [`OpenPorts::plan_attach`] took out of `before`, leaving `taken`, and that
/// [`OpenPorts::finish_attach`] puts back, makes the same ports again, in
/// another order.
pub proof fn lemma_failed_attach_restores(before: Seq<AvailableIdev>, taken: Seq<AvailableIdev>, port: AvailableIdev)
    requires
        exists|i: int| {
            &&& 0 <= i < before.len()
            &&& port == before[i]
            &&& taken == before.update(i, before.last()).drop_last()
        },
    ensures
        taken.push(port).to_multiset() == before.to_multiset(),
{
    let i = choose|i: int| {
        &&& 0 <= i < before.len()
        &&& port == before[i]
        &&& taken == before.update(i, before.last()).drop_last()
    };
    lemma_take_and_put_back(before, i);
}

/// `v` in decimal, with a minus sign when it is negative.
pub open spec fn signed_digits(v: int) -> Seq<char> {
    if v < 0 {
        "-"@ + digits((-v) as nat, 10)
    } else {
        digits(v as nat, 10)
    }
}

/// Appends `v` in decimal.
fn push_signed(out: &mut String, v: i32)
    ensures
        final(out)@ == old(out)@ + signed_digits(v as int),
{
    if v < 0 {
        push_str(out, "-");
        let m: u32 = if v == i32::MIN {
            0x8000_0000u32
        } else {
            (-v) as u32
        };
        push_digits(out, m, 10);
        assert(out@ =~= old(out)@ + signed_digits(v as int));
    } else {
        push_digits(out, v as u32, 10);
    }
}

/// What the driver's `attach` file is told to attach a device: the port, the
/// socket, the device id and the speed, in decimal, separated by spaces.
pub open spec fn spec_attach_text(port: u16, fd: i32, dev_id: u32, speed: u32) -> Seq<char> {
    digits(port as nat, 10) + " "@ + signed_digits(fd as int) + " "@ + digits(dev_id as nat, 10) + " "@
        + digits(speed as nat, 10)
}

/// What the driver's `attach` file is told to attach the device of `plan`
/// over the socket `fd`.
pub fn attach_text(plan: &AttachPlan, fd: i32) -> (r: String)
    ensures
        r@ == spec_attach_text(plan.port.port, fd, plan.dev_id, plan.speed.spec_code()),
{
    let mut out = String::new();
    push_digits(&mut out, plan.port.port as u32, 10);
    push_str(&mut out, " ");
    push_signed(&mut out, fd);
    push_str(&mut out, " ");
    push_digits(&mut out, plan.dev_id, 10);
    push_str(&mut out, " ");
    push_digits(&mut out, plan.speed.code(), 10);
    assert(out@ =~= spec_attach_text(plan.port.port, fd, plan.dev_id, plan.speed.spec_code()));
    out
}

/// What the driver's `detach` file is told to detach the device at `port`.
pub fn detach_text(port: u16) -> (r: String)
    ensures
        r@ == digits(port as nat, 10),
{
    let mut out = String::new();
    push_digits(&mut out, port as u32, 10);
    assert(out@ =~= digits(port as nat, 10));
    out
}

/// Where the driver's connection records are kept.
pub open spec fn state_path() -> Seq<char> {
    "/var/run/vhci_hcd"@
}

/// The file that records the connection of the device at `port`.
pub fn port_record_path(port: u16) -> (r: String)
    ensures
        r@ == state_path() + "/port"@ + digits(port as nat, 10),
{
    let mut out = String::new();
    push_str(&mut out, "/var/run/vhci_hcd");
    push_str(&mut out, "/port");
    push_digits(&mut out, port as u32, 10);
    assert(out@ =~= state_path() + "/port"@ + digits(port as nat, 10));
    out
}

/// The line that records a connection: the host's address, its server
/// port in decimal and the remote bus id, each followed by white space.
pub open spec fn spec_connection_record(ip: Seq<char>, port: u16, bus_id: Seq<char>) -> Seq<char> {
    ip + " "@ + digits(port as nat, 10) + " "@ + bus_id + "\n"@
}

/// The line that records a connection to the host at `ip`, port `port`, for
/// the remote bus id `bus_id`.
pub fn connection_record(ip: &str, port: u16, bus_id: &str) -> (r: String)
    ensures
        r@ == spec_connection_record(ip@, port, bus_id@),
{
    let mut out = String::new();
    push_str(&mut out, ip);
    push_str(&mut out, " ");
    push_digits(&mut out, port as u32, 10);
    push_str(&mut out, " ");
    push_str(&mut out, bus_id);
    push_str(&mut out, "\n");
    assert(out@ =~= spec_connection_record(ip@, port, bus_id@));
    out
}

/// Why the port and bus id of a connection record could not be read.
#[derive(Debug, PartialEq, Eq)]
pub enum RecordError {
    /// A word of the record is missing.
    Invalid,
    /// The server port is not a number that fits in 16 bits.
    Int(ParseIntError),
    /// The bus id does not fit in its buffer.
    Buffer(TryFromStrErr),
}

/// The host word of a connection record: its first word, if it has one.
pub fn record_host(record: &str) -> (r: Option<String>)
    ensures
        ws_tokens(record@).len() == 0 ==> r is None,
        ws_tokens(record@).len() > 0 ==> (r matches Some(h) && h@ == ws_tokens(record@)[0]),
{
    let words = split_whitespace(record);
    if words.len() == 0 {
        None
    } else {
        Some(words[0].clone())
    }
}

/// What the words after the host in a connection record say: the server
/// port, read as a decimal number, then the bus id as bytes; the error met
/// first otherwise.
pub open spec fn spec_record_fields(record: Seq<char>) -> Result<(u16, Seq<u8>), RecordError> {
    let toks = ws_tokens(record);
    if toks.len() < 2 {
        Err(RecordError::Invalid)
    } else {
        match parse_uint(toks[1], 0xffff) {
            Err(k) => Err(RecordError::Int(ParseIntError { kind: k })),
            Ok(p) => if toks.len() < 3 {
                Err(RecordError::Invalid)
            } else {
                let b = encode_utf8(toks[2]);
                if b.len() > BUS_ID_SIZE {
                    Err(RecordError::Buffer(TryFromStrErr::Length { max: BUS_ID_SIZE, actual: b.len() as usize }))
                } else {
                    Ok((p as u16, b))
                }
            },
        }
    }
}

/// A connection record reads back: for an address and a bus id that are
/// single words, and a bus id that fits its buffer, the host word of the
/// record is the address, and the words after it give the port and the bus
/// id.
pub proof fn lemma_record_reads_back(ip: Seq<char>, port: u16, bus_id: Seq<char>)
    requires
        ip.len() > 0,
        forall|j: int| 0 <= j < ip.len() ==> !is_ws(#[trigger] ip[j]),
        bus_id.len() > 0,
        forall|j: int| 0 <= j < bus_id.len() ==> !is_ws(#[trigger] bus_id[j]),
        encode_utf8(bus_id).len() <= BUS_ID_SIZE,
    ensures
        ws_tokens(spec_connection_record(ip, port, bus_id)).len() > 0,
        ws_tokens(spec_connection_record(ip, port, bus_id))[0] == ip,
        spec_record_fields(spec_connection_record(ip, port, bus_id)) == Ok::<(u16, Seq<u8>), RecordError>(
            (port, encode_utf8(bus_id)),
        ),
{
    reveal_strlit(" ");
    reveal_strlit("\n");
    let d = digits(port as nat, 10);
    lemma_digits_are_digits(port as nat);
    assert forall|j: int| 0 <= j < d.len() implies !is_ws(#[trigger] d[j]) by {
        assert(is_digit(d[j]));
    }
    let nl = seq!['\n'];
    let tail = seq![' '] + (bus_id + nl);
    let rest = seq![' '] + (d + tail);
    assert(spec_connection_record(ip, port, bus_id) =~= ip + rest);
    assert(ws_tokens(Seq::<char>::empty()) =~= Seq::<Seq<char>>::empty());
    lemma_ws_tokens_space('\n', Seq::<char>::empty());
    assert(nl =~= seq!['\n'] + Seq::<char>::empty());
    lemma_ws_tokens_word(bus_id, nl);
    lemma_ws_tokens_space(' ', bus_id + nl);
    lemma_ws_tokens_word(d, tail);
    lemma_ws_tokens_space(' ', d + tail);
    lemma_ws_tokens_word(ip, rest);
    let toks = ws_tokens(spec_connection_record(ip, port, bus_id));
    assert(toks =~= seq![ip, d, bus_id]);
    lemma_parse_digits(port as nat, 0xffff);
}

/// Reads the server port and the bus id of a connection record, the words
/// that follow its host.
pub fn record_fields(record: &str) -> (r: Result<(u16, StackStr<BUS_ID_SIZE>), RecordError>)
    ensures
        match spec_record_fields(record@) {
            Ok((p, b)) => r matches Ok((q, id)) && q == p && id.bytes() == b,
            Err(e) => r == Err::<(u16, StackStr<BUS_ID_SIZE>), RecordError>(e),
        },
{
    let words = split_whitespace(record);
    if words.len() < 2 {
        return Err(RecordError::Invalid);
    }
    let port = match parse_uint_str(words[1].as_str(), 0xffff) {
        Ok(p) => p as u16,
        Err(e) => return Err(RecordError::Int(e)),
    };
    if words.len() < 3 {
        return Err(RecordError::Invalid);
    }
    match StackStr::<BUS_ID_SIZE>::try_from(words[2].as_str()) {
        Ok(id) => Ok((port, id)),
        Err(e) => Err(RecordError::Buffer(e)),
    }
}

/// How many of the names `names` name a vhci controller (begin with
/// `vhci_hcd.`).
pub open spec fn controller_count(names: Seq<Seq<char>>) -> nat
    decreases names.len(),
{
    if names.len() == 0 {
        0
    } else {
        controller_count(names.drop_last()) + if starts_with(names.last(), "vhci_hcd."@) {
            1nat
        } else {
            0nat
        }
    }
}

/// The number of controllers among the entries `names` of the platform
/// device's directory; none at all is refused.
pub fn num_controllers(names: &Vec<String>) -> (r: Option<usize>)
    ensures
        controller_count(names@.map_values(|n: String| n@)) == 0 ==> r is None,
        controller_count(names@.map_values(|n: String| n@)) > 0 ==> r == Some(
            controller_count(names@.map_values(|n: String| n@)) as usize,
        ),
{
    let prefix = chars_of("vhci_hcd.");
    let ghost all = names@.map_values(|n: String| n@);
    let mut count: usize = 0;
    let mut i: usize = 0;
    while i < names.len()
        invariant
            i <= names@.len(),
            all == names@.map_values(|n: String| n@),
            prefix@ == "vhci_hcd."@,
            count == controller_count(all.subrange(0, i as int)),
            count <= i,
        decreases names.len() - i,
    {
        let cs = chars_of(names[i].as_str());
        let ghost before = all.subrange(0, i as int);
        let ghost after = all.subrange(0, i + 1);
        assert(after.drop_last() =~= before);
        assert(after.last() == names@[i as int]@);
        assert(cs@.subrange(0, cs@.len() as int) =~= cs@);
        if has_prefix_at(cs.as_slice(), 0, cs.len(), prefix.as_slice()) {
            count = count + 1;
        }
        i = i + 1;
    }
    assert(all.subrange(0, names@.len() as int) =~= all);
    if count == 0 {
        None
    } else {
        Some(count)
    }
}

} // verus!
