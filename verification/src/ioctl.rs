//! Encoding of evdev ioctl request numbers.
//!
//! A request number packs a direction, a type, a command number and an
//! argument size into one 32-bit word, widened to 64 bits for the call.
//! The field layout here is the generic one shared by the common
//! architectures.  The structures at the end mirror the kernel's ABI for
//! the requests the joystick backend issues; their sizes are part of that
//! ABI and appear as named constants.
use vstd::prelude::*;

verus! {

/// Bits of the command-number field.
pub const NRBITS: u32 = 8;

/// Bits of the type field.
pub const TYPEBITS: u32 = 8;

/// Bits of the size field.
pub const SIZEBITS: u32 = 14;

/// Bits of the direction field.
pub const DIRBITS: u32 = 2;

/// Direction value of a request with no associated data.
pub const NONE: u8 = 0;

/// Direction value of a request that reads.
pub const READ: u8 = 2;

/// Direction value of a request that writes.
pub const WRITE: u8 = 1;

/// Shift of the command-number field.
pub const NRSHIFT: u32 = 0;

/// Shift of the type field.
pub const TYPESHIFT: u32 = NRSHIFT + NRBITS;

/// Shift of the size field.
pub const SIZESHIFT: u32 = TYPESHIFT + TYPEBITS;

/// Shift of the direction field.
pub const DIRSHIFT: u32 = SIZESHIFT + SIZEBITS;

/// The packed 32-bit request word, widened: each argument is truncated to
/// 32 bits and shifted into its field.
pub open spec fn spec_ioc(dir: u64, ty: u64, nr: u64, sz: u64) -> u64 {
    ((((dir as u32) << DIRSHIFT) | ((ty as u32) << TYPESHIFT) | ((nr as u32) << NRSHIFT)
        | ((sz as u32) << SIZESHIFT)) as u64)
}

/// Encode an ioctl command.
pub fn ioc(dir: u64, ty: u64, nr: u64, sz: u64) -> (r: u64)
    ensures
        r == spec_ioc(dir, ty, nr, sz),
{
    (((dir as u32) << DIRSHIFT) | ((ty as u32) << TYPESHIFT) | ((nr as u32) << NRSHIFT)
        | ((sz as u32) << SIZESHIFT)) as u64
}

/// Encode an ioctl command that has no associated data.
pub fn io(ty: u64, nr: u64) -> (r: u64)
    ensures
        r == spec_ioc(NONE as u64, ty, nr, 0),
{
    ioc(NONE as u64, ty, nr, 0)
}

/// Encode an ioctl command that reads.
pub fn ior(ty: u64, nr: u64, sz: u64) -> (r: u64)
    ensures
        r == spec_ioc(READ as u64, ty, nr, sz),
{
    ioc(READ as u64, ty, nr, sz)
}

/// Encode an ioctl command that writes.
pub fn iow(ty: u64, nr: u64, sz: u64) -> (r: u64)
    ensures
        r == spec_ioc(WRITE as u64, ty, nr, sz),
{
    ioc(WRITE as u64, ty, nr, sz)
}

/// Encode an ioctl command that both reads and writes.
pub fn iorw(ty: u64, nr: u64, sz: u64) -> (r: u64)
    ensures
        r == spec_ioc((READ | WRITE) as u64, ty, nr, sz),
{
    ioc((READ | WRITE) as u64, ty, nr, sz)
}

/// Absolute-axis information as the kernel reports it.
#[derive(Debug, Clone, Copy, PartialEq, Eq, Structural)]
pub struct InputAbsInfo {
    pub value: i32,
    pub minimum: i32,
    pub maximum: i32,
    pub fuzz: i32,
    pub flat: i32,
    pub resolution: i32,
}

impl Default for InputAbsInfo {
    /// All fields zero.
    fn default() -> (r: Self)
        ensures
            r == (InputAbsInfo { value: 0, minimum: 0, maximum: 0, fuzz: 0, flat: 0,
                resolution: 0 }),
    {
        InputAbsInfo { value: 0, minimum: 0, maximum: 0, fuzz: 0, flat: 0, resolution: 0 }
    }
}

/// Device identity as the kernel reports it.
#[derive(Debug, Clone, Copy, PartialEq, Eq, Structural)]
pub struct InputId {
    pub bustype: u16,
    pub vendor: u16,
    pub product: u16,
    pub version: u16,
}

impl Default for InputId {
    /// All fields zero.
    fn default() -> (r: Self)
        ensures
            r == (InputId { bustype: 0, vendor: 0, product: 0, version: 0 }),
    {
        InputId { bustype: 0, vendor: 0, product: 0, version: 0 }
    }
}

/// Size in bytes of the kernel's identity structure (four 16-bit fields).
pub const INPUT_ID_SIZE: u64 = 8;

/// Size in bytes of the kernel's absolute-axis structure (six 32-bit
/// fields).
pub const INPUT_ABS_INFO_SIZE: u64 = 24;

/// The event type letter of the evdev protocol (ASCII `E`).
pub const EVDEV_TYPE: u64 = 69;

/// Request that reads the device identity.
pub fn eviocgid() -> (r: u64)
    ensures
        r == spec_ioc(READ as u64, EVDEV_TYPE, 0x02, INPUT_ID_SIZE),
{
    ior(EVDEV_TYPE, 0x02, INPUT_ID_SIZE)
}

/// Request that reads an event-type capability bitmap of `len` bytes.
pub fn eviocgbit(ev: u32, len: u32) -> (r: u64)
    ensures
        r == spec_ioc(READ as u64, EVDEV_TYPE, ((0x20 + ev as u64) as u64), len as u64),
{
    ioc(READ as u64, EVDEV_TYPE, 0x20 + (ev as u64), len as u64)
}

/// Request that reads the device name into `len` bytes.
pub fn eviocgname(len: u32) -> (r: u64)
    ensures
        r == spec_ioc(READ as u64, EVDEV_TYPE, 0x06, len as u64),
{
    ioc(READ as u64, EVDEV_TYPE, 0x06, len as u64)
}

/// Request that reads one absolute axis's information.
pub fn eviocgabs(abs: u32) -> (r: u64)
    ensures
        r == spec_ioc(READ as u64, EVDEV_TYPE, ((0x40 + abs as u64) as u64), INPUT_ABS_INFO_SIZE),
{
    ior(EVDEV_TYPE, 0x40 + (abs as u64), INPUT_ABS_INFO_SIZE)
}

/// Whether a capability bitmap has a bit set.
pub fn is_bit_set(bit: usize, arr: &[u8]) -> (r: bool)
    requires
        bit / 8 < arr@.len(),
    ensures
        r == ((arr@[bit as int / 8] >> ((bit % 8) as u8)) & 1 == 1),
{
    let byte = arr[bit / 8];
    let shifted = byte >> ((bit % 8) as u8);
    proof {
        assert((shifted & 1 != 0) == (shifted & 1 == 1)) by (bit_vector);
    }
    shifted & 1 != 0
}

} // verus!
