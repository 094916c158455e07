//! The usbip-host driver's sysfs files: which file a request writes, and
//! what it writes there.
use vstd::prelude::*;

use crate::text::{contains, contains_at, chars_of, push_str, str_is};

verus! {

/// The name of the host driver.
pub open spec fn driver_name() -> Seq<char> {
    "usbip-host"@
}

/// The sysfs directory of the host driver.
pub open spec fn sys_path() -> Seq<char> {
    "/sys/bus/usb/drivers/usbip-host"@
}

/// A write of `text` to the attribute `attr` of the sysfs directory `dir`.
#[derive(Debug)]
pub struct SysfsWrite {
    pub dir: String,
    pub attr: String,
    pub text: String,
}

/// A write of `text` to the attribute `attr` of the host driver.
fn host_write(attr: &str, prefix: &str, bus_id: &str) -> (r: SysfsWrite)
    ensures
        r.dir@ == sys_path(),
        r.attr@ == attr@,
        r.text@ == prefix@ + bus_id@,
{
    let mut dir = String::new();
    push_str(&mut dir, "/sys/bus/usb/drivers/usbip-host");
    let mut a = String::new();
    push_str(&mut a, attr);
    let mut text = String::new();
    push_str(&mut text, prefix);
    push_str(&mut text, bus_id);
    SysfsWrite { dir, attr: a, text }
}

/// Asks the host driver to take the device `bus_id`: `add` and the bus id,
/// to its `match_busid` file.
pub fn match_busid_add(bus_id: &str) -> (r: SysfsWrite)
    ensures
        r.dir@ == sys_path(),
        r.attr@ == "match_busid"@,
        r.text@ == "add "@ + bus_id@,
{
    host_write("match_busid", "add ", bus_id)
}

/// Asks the host driver to leave the device `bus_id`: `del` and the bus
/// id, to its `match_busid` file.
pub fn match_busid_del(bus_id: &str) -> (r: SysfsWrite)
    ensures
        r.dir@ == sys_path(),
        r.attr@ == "match_busid"@,
        r.text@ == "del "@ + bus_id@,
{
    host_write("match_busid", "del ", bus_id)
}

/// Binds the device `bus_id` to the host driver: the bus id, to its `bind`
/// file.
pub fn bind(bus_id: &str) -> (r: SysfsWrite)
    ensures
        r.dir@ == sys_path(),
        r.attr@ == "bind"@,
        r.text@ == bus_id@,
{
    let r = host_write("bind", "", bus_id);
    proof {
        reveal_strlit("");
    }
    assert(""@ + bus_id@ =~= bus_id@);
    r
}

/// Binds the device `bus_id` again: the bus id, to the `rebind` file.
pub fn rebind(bus_id: &str) -> (r: SysfsWrite)
    ensures
        r.dir@ == sys_path(),
        r.attr@ == "rebind"@,
        r.text@ == bus_id@,
{
    let r = host_write("rebind", "", bus_id);
    proof {
        reveal_strlit("");
    }
    assert(""@ + bus_id@ =~= bus_id@);
    r
}

/// Unbinds the device `bus_id` from the host driver: the bus id, to its
/// `unbind` file.
pub fn unbind(bus_id: &str) -> (r: SysfsWrite)
    ensures
        r.dir@ == sys_path(),
        r.attr@ == "unbind"@,
        r.text@ == bus_id@,
{
    let r = host_write("unbind", "", bus_id);
    proof {
        reveal_strlit("");
    }
    assert(""@ + bus_id@ =~= bus_id@);
    r
}

/// Unbinds the device `bus_id` from the driver `driver` it is bound to:
/// the bus id, to the `unbind` file of that driver's directory.
pub fn unbind_other(driver: &str, bus_id: &str) -> (r: SysfsWrite)
    ensures
        r.dir@ == "/sys/bus/usb/drivers/"@ + driver@,
        r.attr@ == "unbind"@,
        r.text@ == bus_id@,
{
    let mut dir = String::new();
    push_str(&mut dir, "/sys/bus/usb/drivers/");
    push_str(&mut dir, driver);
    let mut attr = String::new();
    push_str(&mut attr, "unbind");
    let mut text = String::new();
    push_str(&mut text, bus_id);
    assert(Seq::<char>::empty() + bus_id@ =~= bus_id@);
    assert(Seq::<char>::empty() + "unbind"@ =~= "unbind"@);
    assert(Seq::<char>::empty() + "/sys/bus/usb/drivers/"@ =~= "/sys/bus/usb/drivers/"@);
    SysfsWrite { dir, attr, text }
}

/// Why a device could not be bound to the host driver.
#[derive(Debug)]
pub enum Error {
    /// No USB device has the bus id.
    BusIdNotFound,
    /// The device is the host driver's own, at this device path.
    BindLoop(String),
    /// The device is already bound to the host driver.
    AlreadyBound,
    /// The device is a hub, which is not unbound.
    UnbindFailed,
}

/// What is known of the device to bind, as udev tells it: its device path,
/// its device class, and the driver it is bound to, if any.
pub struct BindTarget<'a> {
    pub devpath: &'a str,
    pub b_device_class: u32,
    pub driver: Option<&'a str>,
}

/// What binding a device comes to: refused when its device path is the host
/// driver's own, when it is a hub (class 9), or when it is bound to the host
/// driver already; otherwise the writes to make, in order: unbinding it from
/// its driver, if it has one, then adding its bus id to the host driver's
/// matches, then binding it.
pub open spec fn spec_bind_refusal<'a>(t: BindTarget<'a>) -> Option<Error> {
    if contains(t.devpath@, driver_name()) {
        Some(Error::BindLoop(arbitrary()))
    } else if t.b_device_class == 9 {
        Some(Error::UnbindFailed)
    } else if t.driver matches Some(d) && d@ == driver_name() {
        Some(Error::AlreadyBound)
    } else {
        None
    }
}

/// The writes that bind the device `bus_id`, or why it is not bound.
pub fn bind_plan<'a>(bus_id: &str, t: &BindTarget<'a>) -> (r: Result<Vec<SysfsWrite>, Error>)
    ensures
        contains(t.devpath@, driver_name()) ==> (r matches Err(Error::BindLoop(p)) && p@ == t.devpath@),
        !contains(t.devpath@, driver_name()) ==> match spec_bind_refusal(*t) {
            Some(e) => r matches Err(f) && f == e,
            None => r matches Ok(w) && {
                let k = if t.driver is Some { 1int } else { 0int };
                &&& w@.len() == k + 2
                &&& t.driver matches Some(d) ==> (w@[0].dir@ == "/sys/bus/usb/drivers/"@ + d@ && w@[0].attr@
                    == "unbind"@ && w@[0].text@ == bus_id@)
                &&& w@[k].dir@ == sys_path() && w@[k].attr@ == "match_busid"@ && w@[k].text@ == "add "@ + bus_id@
                &&& w@[k + 1].dir@ == sys_path() && w@[k + 1].attr@ == "bind"@ && w@[k + 1].text@ == bus_id@
            },
        },
{
    let path = chars_of(t.devpath);
    let name = chars_of("usbip-host");
    if contains_at(path.as_slice(), 0, path.len(), name.as_slice()) {
        assert(path@.subrange(0, path@.len() as int) =~= t.devpath@);
        let mut p = String::new();
        push_str(&mut p, t.devpath);
        assert(Seq::<char>::empty() + t.devpath@ =~= t.devpath@);
        return Err(Error::BindLoop(p));
    }
    assert(path@.subrange(0, path@.len() as int) =~= t.devpath@);
    if t.b_device_class == 9 {
        return Err(Error::UnbindFailed);
    }
    let mut writes: Vec<SysfsWrite> = Vec::new();
    match t.driver {
        Some(d) => {
            if str_is(d, "usbip-host") {
                return Err(Error::AlreadyBound);
            }
            writes.push(unbind_other(d, bus_id));
        },
        None => {},
    }
    writes.push(match_busid_add(bus_id));
    writes.push(bind(bus_id));
    Ok(writes)
}

} // verus!
