//! Names and constants of the HID usage tables that the macOS backend
//! queries: the property keys a device is asked for, and the usage pages
//! and usages that classify its elements.
#![allow(nonstandard_style)]
use vstd::prelude::*;

verus! {

pub const kIOHIDOptionsTypeNone: u32 = 0x0;

pub const kHIDPage_GenericDesktop: u32 = 0x1;

pub const kHIDPage_Button: u32 = 0x09;

pub const kHIDPage_Consumer: u32 = 0x0C;

pub const kHIDUsage_GD_Joystick: u32 = 0x04;

pub const kHIDUsage_GD_GamePad: u32 = 0x05;

pub const kHIDUsage_GD_MultiAxisController: u32 = 0x08;

pub const kHIDUsage_GD_X: u32 = 0x30;

pub const kHIDUsage_GD_Y: u32 = 0x31;

pub const kHIDUsage_GD_Z: u32 = 0x32;

pub const kHIDUsage_GD_Rx: u32 = 0x33;

pub const kHIDUsage_GD_Ry: u32 = 0x34;

pub const kHIDUsage_GD_Rz: u32 = 0x35;

pub const kHIDUsage_GD_Slider: u32 = 0x36;

pub const kHIDUsage_GD_Dial: u32 = 0x37;

pub const kHIDUsage_GD_Wheel: u32 = 0x38;

pub const kHIDUsage_GD_Hatswitch: u32 = 0x39;

pub const kHIDUsage_GD_Start: u32 = 0x3D;

pub const kHIDUsage_GD_Select: u32 = 0x3E;

pub const kHIDUsage_GD_SystemMainMenu: u32 = 0x85;

pub const kHIDUsage_GD_DPadUp: u32 = 0x90;

pub const kHIDUsage_GD_DPadDown: u32 = 0x91;

pub const kHIDUsage_GD_DPadRight: u32 = 0x92;

pub const kHIDUsage_GD_DPadLeft: u32 = 0x93;

/// Property key under which a device reports its vendor id.
pub fn kIOHIDVendorIDKey() -> (r: &'static str)
    ensures
        r@ == "VendorID"@,
{
    "VendorID"
}

/// Property key under which a device reports its version number.
pub fn kIOHIDVersionNumberKey() -> (r: &'static str)
    ensures
        r@ == "VersionNumber"@,
{
    "VersionNumber"
}

/// Property key under which a device reports its product name.
pub fn kIOHIDProductKey() -> (r: &'static str)
    ensures
        r@ == "Product"@,
{
    "Product"
}

/// Property key under which a device reports its product id.
pub fn kIOHIDProductIDKey() -> (r: &'static str)
    ensures
        r@ == "ProductID"@,
{
    "ProductID"
}

/// Matching-dictionary key for a device usage.
pub fn kIOHIDDeviceUsageKey() -> (r: &'static str)
    ensures
        r@ == "DeviceUsage"@,
{
    "DeviceUsage"
}

/// Matching-dictionary key for a device usage page.
pub fn kIOHIDDeviceUsagePageKey() -> (r: &'static str)
    ensures
        r@ == "DeviceUsagePage"@,
{
    "DeviceUsagePage"
}

/// Property key under which a device reports its primary usage page.
pub fn kIOHIDPrimaryUsagePageKey() -> (r: &'static str)
    ensures
        r@ == "PrimaryUsagePage"@,
{
    "PrimaryUsagePage"
}

/// Property key under which a device reports its primary usage.
pub fn kIOHIDPrimaryUsageKey() -> (r: &'static str)
    ensures
        r@ == "PrimaryUsage"@,
{
    "PrimaryUsage"
}

} // verus!
