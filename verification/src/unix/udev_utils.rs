//! Reading the sysfs attributes that udev hands out for a device.
use vstd::prelude::*;

use crate::containers::stacktools::TryFromStrErr;
use crate::text::{parse_uint, parse_uint_str, ParseIntError};

verus! {

/// The value of a sysfs attribute as udev gives it: absent, present but
/// not UTF-8, or text.
#[derive(Debug, Clone, Copy)]
pub enum AttrValue<'a> {
    Missing,
    NotUtf8,
    Text(&'a str),
}

/// Why an attribute could not be read: it is absent, it is not UTF-8, or
/// its text could not be turned into the value asked for.
#[derive(Debug, Clone, PartialEq, Eq)]
pub enum Error<T> {
    AttributeNotFound,
    NotUtf8,
    CustomErr(T),
}

impl<T> Error<T> {
    /// The error of the attribute's text. Only for `CustomErr`.
    pub fn into_custom_err(self) -> (r: T)
        requires
            self is CustomErr,
        ensures
            self == Error::<T>::CustomErr(r),
    {
        match self {
            Error::CustomErr(err) => err,
            _ => unreached(),
        }
    }
}

/// What reading the text of an attribute gives.
pub open spec fn spec_sysattr_str<'a>(v: AttrValue<'a>) -> Result<Seq<char>, Error<()>> {
    match v {
        AttrValue::Missing => Err(Error::AttributeNotFound),
        AttrValue::NotUtf8 => Err(Error::NotUtf8),
        AttrValue::Text(s) => Ok(s@),
    }
}

/// The text of an attribute.
pub fn sysattr_str<'a>(v: AttrValue<'a>) -> (r: Result<&'a str, Error<()>>)
    ensures
        match spec_sysattr_str(v) {
            Ok(t) => r matches Ok(s) && s@ == t,
            Err(e) => r == Err::<&'a str, Error<()>>(e),
        },
{
    match v {
        AttrValue::Missing => Err(Error::AttributeNotFound),
        AttrValue::NotUtf8 => Err(Error::NotUtf8),
        AttrValue::Text(s) => Ok(s),
    }
}

/// What reading an attribute as a decimal number no greater than `max` gives.
pub open spec fn spec_sysattr_uint<'a>(v: AttrValue<'a>, max: u32) -> Result<u32, Error<ParseIntError>> {
    match v {
        AttrValue::Missing => Err(Error::AttributeNotFound),
        AttrValue::NotUtf8 => Err(Error::NotUtf8),
        AttrValue::Text(s) => match parse_uint(s@, max as int) {
            Ok(n) => Ok(n as u32),
            Err(k) => Err(Error::CustomErr(ParseIntError { kind: k })),
        },
    }
}

/// Reads an attribute as a decimal number no greater than `max`.
pub fn sysattr_uint<'a>(v: AttrValue<'a>, max: u32) -> (r: Result<u32, Error<ParseIntError>>)
    ensures
        r == spec_sysattr_uint(v, max),
        r matches Ok(n) ==> n <= max,
{
    match v {
        AttrValue::Missing => Err(Error::AttributeNotFound),
        AttrValue::NotUtf8 => Err(Error::NotUtf8),
        AttrValue::Text(s) => match parse_uint_str(s, max) {
            Ok(n) => Ok(n),
            Err(e) => Err(Error::CustomErr(e)),
        },
    }
}

/// Why the text of a device attribute could not be read.
#[derive(Debug, PartialEq, Eq)]
pub enum DeviceAttrError {
    /// A string attribute is not UTF-8 or does not fit.
    Str(TryFromStrErr),
    /// A number attribute is not a number of its type.
    Int(ParseIntError),
}

/// A number error of an attribute, as an error of a device attribute.
pub open spec fn lift_int(e: Error<ParseIntError>) -> Error<DeviceAttrError> {
    match e {
        Error::AttributeNotFound => Error::AttributeNotFound,
        Error::NotUtf8 => Error::NotUtf8,
        Error::CustomErr(p) => Error::CustomErr(DeviceAttrError::Int(p)),
    }
}

/// Turns a number error of an attribute into an error of a device attribute.
pub fn int_err(e: Error<ParseIntError>) -> (r: Error<DeviceAttrError>)
    ensures
        r == lift_int(e),
{
    match e {
        Error::AttributeNotFound => Error::AttributeNotFound,
        Error::NotUtf8 => Error::NotUtf8,
        Error::CustomErr(p) => Error::CustomErr(DeviceAttrError::Int(p)),
    }
}

/// What udev tells of a USB device: its sysfs path and name, as bytes, and
/// the attributes that a [`crate::UsbDevice`] is made of.
pub struct UdevDeviceAttrs<'a> {
    pub syspath: &'a [u8],
    pub sysname: &'a [u8],
    pub id_vendor: AttrValue<'a>,
    pub id_product: AttrValue<'a>,
    pub busnum: AttrValue<'a>,
    pub devnum: Option<u64>,
    pub speed: AttrValue<'a>,
    pub bcd_device: AttrValue<'a>,
    pub b_device_class: AttrValue<'a>,
    pub b_device_subclass: AttrValue<'a>,
    pub b_device_protocol: AttrValue<'a>,
    pub b_configuration_value: AttrValue<'a>,
    pub b_num_configurations: AttrValue<'a>,
    pub b_num_interfaces: AttrValue<'a>,
}

} // verus!
