//! The vhci driver: the speeds of its hubs and what it reports of the
//! devices it has imported.
use vstd::prelude::*;

use crate::device::{DeviceSpeed, TryFromDeviceSpeedError};
use crate::text::str_is;

pub mod base;

verus! {

/// The speed of a vhci hub: high speed (USB 2) or super speed (USB 3).
#[derive(Debug, Clone, Copy, PartialEq, Eq, Structural)]
pub enum HubSpeed {
    High,
    Super,
}

/// Why a hub speed could not be read.
#[derive(Debug, Clone, Copy, PartialEq, Eq, Structural)]
pub enum ParseHubSpeedError {
    Empty,
    Invalid,
}

impl ParseHubSpeedError {
    /// The text shown for the error: `Invalid hub speed` for an empty
    /// string, `Empty string` for any other text.
    pub fn message(&self) -> (r: &'static str)
        ensures
            *self == ParseHubSpeedError::Empty ==> r@ == "Invalid hub speed"@,
            *self == ParseHubSpeedError::Invalid ==> r@ == "Empty string"@,
    {
        match self {
            ParseHubSpeedError::Empty => "Invalid hub speed",
            ParseHubSpeedError::Invalid => "Empty string",
        }
    }
}

/// What reading a hub speed out of `s` gives: `ss` is super speed, `hs` high
/// speed.
pub open spec fn spec_parse_hub_speed(s: Seq<char>) -> Result<HubSpeed, ParseHubSpeedError> {
    if s == "ss"@ {
        Ok(HubSpeed::Super)
    } else if s == "hs"@ {
        Ok(HubSpeed::High)
    } else if s.len() == 0 {
        Err(ParseHubSpeedError::Empty)
    } else {
        Err(ParseHubSpeedError::Invalid)
    }
}

/// The device speed of a hub speed: high speed is 3, super speed 5.
pub open spec fn hub_speed_code(h: HubSpeed) -> u32 {
    match h {
        HubSpeed::High => 3,
        HubSpeed::Super => 5,
    }
}

impl HubSpeed {
    /// Reads a hub speed as the vhci status files write it.
    pub fn parse(s: &str) -> (r: Result<HubSpeed, ParseHubSpeedError>)
        ensures
            r == spec_parse_hub_speed(s@),
    {
        if str_is(s, "ss") {
            Ok(HubSpeed::Super)
        } else if str_is(s, "hs") {
            Ok(HubSpeed::High)
        } else if s.is_empty() {
            Err(ParseHubSpeedError::Empty)
        } else {
            Err(ParseHubSpeedError::Invalid)
        }
    }

    /// The device speed of the hub.
    pub fn device_speed(self) -> (r: DeviceSpeed)
        ensures
            r.spec_code() == hub_speed_code(self),
    {
        match self {
            HubSpeed::High => DeviceSpeed::high(),
            HubSpeed::Super => DeviceSpeed::super_speed(),
        }
    }

    /// The hub speed of a device speed: only high and super speed are hub
    /// speeds.
    pub fn from_device_speed(speed: DeviceSpeed) -> (r: Result<HubSpeed, TryFromDeviceSpeedError>)
        ensures
            speed.spec_code() == 3 ==> r == Ok::<HubSpeed, TryFromDeviceSpeedError>(HubSpeed::High),
            speed.spec_code() == 5 ==> r == Ok::<HubSpeed, TryFromDeviceSpeedError>(HubSpeed::Super),
            speed.spec_code() != 3 && speed.spec_code() != 5 ==> r == Err::<HubSpeed, TryFromDeviceSpeedError>(
                TryFromDeviceSpeedError::Invalid,
            ),
    {
        let c = speed.code();
        if c == 3 {
            Ok(HubSpeed::High)
        } else if c == 5 {
            Ok(HubSpeed::Super)
        } else {
            Err(TryFromDeviceSpeedError::Invalid)
        }
    }
}

/// A hub speed is the hub speed of its device speed.
pub proof fn lemma_hub_speed_roundtrip(h: HubSpeed)
    ensures
        hub_speed_code(h) == 3 ==> h == HubSpeed::High,
        hub_speed_code(h) == 5 ==> h == HubSpeed::Super,
        hub_speed_code(h) == 3 || hub_speed_code(h) == 5,
{
}

impl std::str::FromStr for HubSpeed {
    type Err = ParseHubSpeedError;

    /// Reads a hub speed word, as [`HubSpeed::parse`] does.
    fn from_str(s: &str) -> (r: Result<Self, Self::Err>)
        ensures
            r == spec_parse_hub_speed(s@),
    {
        Self::parse(s)
    }
}

impl vstd::std_specs::convert::FromSpecImpl<HubSpeed> for DeviceSpeed {
    open spec fn obeys_from_spec() -> bool {
        false
    }

    open spec fn from_spec(v: HubSpeed) -> Self {
        arbitrary()
    }
}

impl From<HubSpeed> for DeviceSpeed {
    fn from(value: HubSpeed) -> (r: Self)
        ensures
            r.spec_code() == hub_speed_code(value),
    {
        value.device_speed()
    }
}

impl vstd::std_specs::convert::TryFromSpecImpl<DeviceSpeed> for HubSpeed {
    open spec fn obeys_try_from_spec() -> bool {
        false
    }

    open spec fn try_from_spec(v: DeviceSpeed) -> Result<Self, TryFromDeviceSpeedError> {
        arbitrary()
    }
}

impl TryFrom<DeviceSpeed> for HubSpeed {
    type Error = TryFromDeviceSpeedError;

    fn try_from(value: DeviceSpeed) -> (r: Result<Self, Self::Error>)
        ensures
            value.spec_code() == 3 ==> r == Ok::<HubSpeed, TryFromDeviceSpeedError>(HubSpeed::High),
            value.spec_code() == 5 ==> r == Ok::<HubSpeed, TryFromDeviceSpeedError>(HubSpeed::Super),
            value.spec_code() != 3 && value.spec_code() != 5 ==> r == Err::<HubSpeed, TryFromDeviceSpeedError>(
                TryFromDeviceSpeedError::Invalid,
            ),
    {
        Self::from_device_speed(value)
    }
}

#[verifier::external_type_specification]
#[verifier::external_body]
pub struct ExIoError(std::io::Error);

/// Why attaching a device failed.
#[derive(Debug)]
pub enum AttachErrorKind {
    /// No port of the right speed is free.
    OutOfPorts,
    /// Writing to the driver's attach file failed.
    SysFs(std::io::Error),
}

} // verus!
