//! Encoding of Linux ioctl request numbers for the evdev and uinput
//! interfaces.
//!
//! A request packs a direction (2 bits, from bit 30), an argument size
//! (8 bits used here, from bit 16), a type byte (from bit 8) and a number
//! byte (from bit 0).
use vstd::prelude::*;

verus! {

/// Direction of an ioctl that passes no data.
pub const IOC_NONE: u32 = 0;

/// Direction of an ioctl that writes data to the kernel.
pub const IOC_WRITE: u32 = 1;

/// Direction of an ioctl that reads data from the kernel.
pub const IOC_READ: u32 = 2;

/// Type byte of evdev requests (`'E'`).
pub const EVDEV_TYPE: u8 = 0x45;

/// Type byte of uinput requests (`'U'`).
pub const UINPUT_TYPE: u8 = 0x55;

/// Size in bytes of `int` in the kernel ABI.
pub const INT_SIZE: u8 = 4;

/// Size in bytes of `struct input_id`.
pub const INPUT_ID_SIZE: u8 = 8;

/// Size in bytes of `struct input_absinfo`.
pub const INPUT_ABSINFO_SIZE: u8 = 24;

/// Size in bytes of `struct uinput_setup`.
pub const UINPUT_SETUP_SIZE: u8 = 92;

/// Size in bytes of `struct uinput_abs_setup`.
pub const UINPUT_ABS_SETUP_SIZE: u8 = 28;

/// The request number that packs the four fields, as the kernel's `_IOC`
/// macro writes it.
pub open spec fn ioc_spec(dir: u32, ty: u8, nr: u8, size: u8) -> u32 {
    (dir << 30u32) | ((ty as u32) << 8u32) | (nr as u32) | ((size as u32) << 16u32)
}

/// Packs an ioctl request number.
pub fn ioc(dir: u32, ty: u8, nr: u8, size: u8) -> (r: u32)
    ensures
        r == ioc_spec(dir, ty, nr, size),
        dir < 4 ==> r == dir * 0x4000_0000 + size * 0x1_0000 + ty * 0x100 + nr,
{
    let r: u32 = (dir << 30u32) | ((ty as u32) << 8u32) | (nr as u32) | ((size as u32) << 16u32);
    proof {
        lemma_ioc_arith(dir, ty, nr, size);
    }
    r
}

/// Request number of an ioctl without data (`_IO`).
pub fn io_u(ty: u8, nr: u8) -> (r: u32)
    ensures
        r == ioc_spec(IOC_NONE, ty, nr, 0),
{
    ioc(IOC_NONE, ty, nr, 0)
}

/// Request number of an ioctl that reads `size` bytes (`_IOR`).
pub fn ior(ty: u8, nr: u8, size: u8) -> (r: u32)
    ensures
        r == ioc_spec(IOC_READ, ty, nr, size),
{
    ioc(IOC_READ, ty, nr, size)
}

/// Request number of an ioctl that writes `size` bytes (`_IOW`).
pub fn iow(ty: u8, nr: u8, size: u8) -> (r: u32)
    ensures
        r == ioc_spec(IOC_WRITE, ty, nr, size),
{
    ioc(IOC_WRITE, ty, nr, size)
}

/// `EVIOCGBIT(ev, len)`: reads the bitmask of the codes of event type `ev`
/// that a device supports, `len` bytes of it. The number byte `0x20 + ev`
/// must fit in a byte.
pub fn eviocgbit(ev: u8, len: u8) -> (r: u32)
    requires
        ev <= 0xdf,
    ensures
        r == ioc_spec(IOC_READ, EVDEV_TYPE, (0x20 + ev) as u8, len),
{
    ioc(IOC_READ, EVDEV_TYPE, 0x20 + ev, len)
}

/// `EVIOCGABS(abs)`: reads the `input_absinfo` of absolute axis `abs`. The
/// number byte `0x40 + abs` must fit in a byte.
pub fn eviocgabs(abs: u8) -> (r: u32)
    requires
        abs <= 0xbf,
    ensures
        r == ioc_spec(IOC_READ, EVDEV_TYPE, (0x40 + abs) as u8, INPUT_ABSINFO_SIZE),
{
    ior(EVDEV_TYPE, 0x40 + abs, INPUT_ABSINFO_SIZE)
}

/// `EVIOCGID`: reads a device's `input_id`.
pub const EVIOCGID: u32 = 0x8008_4502;

/// `EVIOCGRAB`: grabs (argument 1) or releases (argument 0) a device.
pub const EVIOCGRAB: u32 = 0x4004_4590;

/// `UI_DEV_CREATE`: creates the configured uinput device.
pub const UI_DEV_CREATE: u32 = 0x5501;

/// `UI_DEV_DESTROY`: destroys the uinput device.
pub const UI_DEV_DESTROY: u32 = 0x5502;

/// `UI_DEV_SETUP`: sets the identity and name of a uinput device.
pub const UI_DEV_SETUP: u32 = 0x405c_5503;

/// `UI_ABS_SETUP`: sets the range of one absolute axis of a uinput device.
pub const UI_ABS_SETUP: u32 = 0x401c_5504;

/// `UI_SET_EVBIT`: enables an event type on a uinput device.
pub const UI_SET_EVBIT: u32 = 0x4004_5564;

/// `UI_SET_KEYBIT`: enables a key code on a uinput device.
pub const UI_SET_KEYBIT: u32 = 0x4004_5565;

/// `UI_SET_ABSBIT`: enables an absolute axis on a uinput device.
pub const UI_SET_ABSBIT: u32 = 0x4004_5567;

proof fn lemma_ioc_arith(dir: u32, ty: u8, nr: u8, size: u8)
    ensures
        dir < 4 ==> ioc_spec(dir, ty, nr, size) == dir * 0x4000_0000 + size * 0x1_0000 + ty
            * 0x100 + nr,
{
    let t = ty as u32;
    let n = nr as u32;
    let s = size as u32;
    assert(dir < 4 && t < 256 && n < 256 && s < 256 ==> (dir << 30u32) | (t << 8u32) | n | (s
        << 16u32) == dir * 0x4000_0000 + s * 0x1_0000 + t * 0x100 + n) by (bit_vector);
}

/// Unpacking a request number gives back the fields that were packed, for
/// every direction that fits in its two bits.
pub proof fn lemma_ioc_fields(dir: u32, ty: u8, nr: u8, size: u8)
    requires
        dir < 4,
    ensures
        ioc_spec(dir, ty, nr, size) >> 30u32 == dir,
        (ioc_spec(dir, ty, nr, size) >> 16u32) & 0xffu32 == size as u32,
        (ioc_spec(dir, ty, nr, size) >> 8u32) & 0xffu32 == ty as u32,
        ioc_spec(dir, ty, nr, size) & 0xffu32 == nr as u32,
{
    let t = ty as u32;
    let n = nr as u32;
    let s = size as u32;
    assert(t < 256 && n < 256 && s < 256 && dir < 4 ==> {
        let r: u32 = (dir << 30u32) | (t << 8u32) | n | (s << 16u32);
        &&& r >> 30u32 == dir
        &&& (r >> 16u32) & 0xffu32 == s
        &&& (r >> 8u32) & 0xffu32 == t
        &&& r & 0xffu32 == n
    }) by (bit_vector);
}

/// The request numbers in the constants above are the kernel's encodings of
/// the requests they name.
pub proof fn lemma_request_numbers()
    ensures
        EVIOCGID == ioc_spec(IOC_READ, EVDEV_TYPE, 0x02, INPUT_ID_SIZE),
        EVIOCGRAB == ioc_spec(IOC_WRITE, EVDEV_TYPE, 0x90, INT_SIZE),
        UI_DEV_CREATE == ioc_spec(IOC_NONE, UINPUT_TYPE, 1, 0),
        UI_DEV_DESTROY == ioc_spec(IOC_NONE, UINPUT_TYPE, 2, 0),
        UI_DEV_SETUP == ioc_spec(IOC_WRITE, UINPUT_TYPE, 3, UINPUT_SETUP_SIZE),
        UI_ABS_SETUP == ioc_spec(IOC_WRITE, UINPUT_TYPE, 4, UINPUT_ABS_SETUP_SIZE),
        UI_SET_EVBIT == ioc_spec(IOC_WRITE, UINPUT_TYPE, 100, INT_SIZE),
        UI_SET_KEYBIT == ioc_spec(IOC_WRITE, UINPUT_TYPE, 101, INT_SIZE),
        UI_SET_ABSBIT == ioc_spec(IOC_WRITE, UINPUT_TYPE, 103, INT_SIZE),
{
    lemma_ioc_arith(IOC_READ, EVDEV_TYPE, 0x02, INPUT_ID_SIZE);
    lemma_ioc_arith(IOC_WRITE, EVDEV_TYPE, 0x90, INT_SIZE);
    lemma_ioc_arith(IOC_NONE, UINPUT_TYPE, 1, 0);
    lemma_ioc_arith(IOC_NONE, UINPUT_TYPE, 2, 0);
    lemma_ioc_arith(IOC_WRITE, UINPUT_TYPE, 3, UINPUT_SETUP_SIZE);
    lemma_ioc_arith(IOC_WRITE, UINPUT_TYPE, 4, UINPUT_ABS_SETUP_SIZE);
    lemma_ioc_arith(IOC_WRITE, UINPUT_TYPE, 100, INT_SIZE);
    lemma_ioc_arith(IOC_WRITE, UINPUT_TYPE, 101, INT_SIZE);
    lemma_ioc_arith(IOC_WRITE, UINPUT_TYPE, 103, INT_SIZE);
}

} // verus!
