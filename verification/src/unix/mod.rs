//! The Linux side: sysfs attributes and the vhci driver's status files.
pub mod host;
pub mod udev_utils;
pub mod vhci2;
