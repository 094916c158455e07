//! What every platform knows of an imported device.
use vstd::prelude::*;

verus! {

/// The vendor, product and device id of an imported device.
#[derive(Debug, Clone, Copy, PartialEq, Eq, Structural)]
pub struct ImportedDevice {
    pub(crate) vendor: u16,
    pub(crate) product: u16,
    pub(crate) devid: u32,
}

impl ImportedDevice {
    pub fn new(vendor: u16, product: u16, devid: u32) -> (r: ImportedDevice)
        ensures
            r.spec_vendor() == vendor,
            r.spec_product() == product,
            r.spec_dev_id() == devid,
    {
        ImportedDevice { vendor, product, devid }
    }

    pub closed spec fn spec_vendor(&self) -> u16 {
        self.vendor
    }

    pub closed spec fn spec_product(&self) -> u16 {
        self.product
    }

    pub closed spec fn spec_dev_id(&self) -> u32 {
        self.devid
    }

    pub fn vendor(&self) -> (r: u16)
        ensures
            r == self.spec_vendor(),
    {
        self.vendor
    }

    pub fn dev_id(&self) -> (r: u32)
        ensures
            r == self.spec_dev_id(),
    {
        self.devid
    }

    pub fn product(&self) -> (r: u16)
        ensures
            r == self.spec_product(),
    {
        self.product
    }
}

} // verus!
