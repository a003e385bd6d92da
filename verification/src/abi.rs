//! The kernel's input records, as plain values, and the event codes that
//! the daemon reads and writes.
use vstd::prelude::*;

verus! {

/// Directory that holds the evdev nodes.
pub const INPUT_DIR: &'static str = "/dev/input";

/// Bytes reserved for a uinput device's name.
pub const UINPUT_MAX_NAME_SIZE: usize = 80;

/// Event type: synchronisation.
pub const EV_SYN: i32 = 0x00;

/// Event type: key or button.
pub const EV_KEY: i32 = 0x01;

/// Event type: absolute axis.
pub const EV_ABS: i32 = 0x03;

/// Synchronisation code that closes a report.
pub const SYN_REPORT: u32 = 0;

/// Left stick, horizontal.
pub const ABS_X: u32 = 0x00;

/// Left stick, vertical.
pub const ABS_Y: u32 = 0x01;

/// Left trigger.
pub const ABS_Z: u32 = 0x02;

/// Right stick, horizontal.
pub const ABS_RX: u32 = 0x03;

/// Right stick, vertical.
pub const ABS_RY: u32 = 0x04;

/// Right trigger.
pub const ABS_RZ: u32 = 0x05;

/// Number of key codes.
pub const KEY_CNT: usize = 768;

/// Number of absolute axis codes.
pub const ABS_CNT: usize = 0x40;

/// Bus type of a USB device.
pub const BUS_USB: u16 = 0x03;

/// Readiness flag: data to read.
pub const EPOLLIN: u32 = 0x001;

/// Readiness flag: hang-up.
pub const EPOLLHUP: u32 = 0x010;

/// Readiness flag: error.
pub const EPOLLERR: u32 = 0x008;

/// Error number of a read that would block.
pub const EAGAIN: i32 = 11;

/// A time stamp, seconds and microseconds.
#[derive(Clone, Copy, Debug, PartialEq, Eq)]
pub struct TimeVal {
    pub tv_sec: isize,
    pub tv_usec: isize,
}

impl Default for TimeVal {
    fn default() -> (r: Self)
        ensures
            r.tv_sec == 0,
            r.tv_usec == 0,
    {
        TimeVal { tv_sec: 0, tv_usec: 0 }
    }
}

/// One evdev event: a time stamp, a type, a code and a value.
#[derive(Clone, Copy, Debug, PartialEq, Eq)]
pub struct InputEvent {
    pub time: TimeVal,
    pub type_: u16,
    pub code: u16,
    pub value: i32,
}

impl Default for InputEvent {
    fn default() -> (r: Self)
        ensures
            r.time.tv_sec == 0,
            r.time.tv_usec == 0,
            r.type_ == 0,
            r.code == 0,
            r.value == 0,
    {
        InputEvent { time: TimeVal::default(), type_: 0, code: 0, value: 0 }
    }
}

/// The identity of an input device.
#[derive(Clone, Copy, Debug, PartialEq, Eq)]
pub struct InputId {
    pub bustype: u16,
    pub vendor: u16,
    pub product: u16,
    pub version: u16,
}

impl Default for InputId {
    fn default() -> (r: Self)
        ensures
            r.bustype == 0,
            r.vendor == 0,
            r.product == 0,
            r.version == 0,
    {
        InputId { bustype: 0, vendor: 0, product: 0, version: 0 }
    }
}

/// The state and range of an absolute axis.
#[derive(Clone, Copy, Debug, PartialEq, Eq)]
pub struct InputAbsInfo {
    pub value: i32,
    pub minimum: i32,
    pub maximum: i32,
    pub fuzz: i32,
    pub flat: i32,
    pub resolution: i32,
}

impl Default for InputAbsInfo {
    fn default() -> (r: Self)
        ensures
            r.value == 0,
            r.minimum == 0,
            r.maximum == 0,
            r.fuzz == 0,
            r.flat == 0,
            r.resolution == 0,
    {
        InputAbsInfo { value: 0, minimum: 0, maximum: 0, fuzz: 0, flat: 0, resolution: 0 }
    }
}

/// The setup of one absolute axis of a uinput device.
#[derive(Clone, Copy, Debug, PartialEq, Eq)]
pub struct UinputAbsSetup {
    pub code: u16,
    pub __pad: [u8; 2],
    pub absinfo: InputAbsInfo,
}

impl UinputAbsSetup {
    /// The setup of axis `code` with range and state `absinfo`.
    pub fn new(code: u16, absinfo: InputAbsInfo) -> (r: Self)
        ensures
            r.code == code,
            r.absinfo == absinfo,
    {
        UinputAbsSetup { code, __pad: [0u8, 0u8], absinfo }
    }
}

impl Default for UinputAbsSetup {
    fn default() -> (r: Self)
        ensures
            r.code == 0,
            r.absinfo.value == 0,
            r.absinfo.minimum == 0,
            r.absinfo.maximum == 0,
            r.absinfo.fuzz == 0,
            r.absinfo.flat == 0,
            r.absinfo.resolution == 0,
    {
        UinputAbsSetup::new(0, InputAbsInfo::default())
    }
}

/// The identity and name of a uinput device.
#[derive(Clone, Copy, Debug, PartialEq, Eq)]
pub struct UinputSetup {
    pub id: InputId,
    pub name: [u8; 80],
    pub ff_effects_max: u32,
}

impl Default for UinputSetup {
    fn default() -> (r: Self)
        ensures
            r.id.bustype == 0,
            r.id.vendor == 0,
            r.id.product == 0,
            r.id.version == 0,
            forall|i: int| 0 <= i < 80 ==> #[trigger] r.name@[i] == 0,
            r.ff_effects_max == 0,
    {
        UinputSetup { id: InputId::default(), name: [0u8; 80], ff_effects_max: 0 }
    }
}

/// One readiness report of an epoll instance.
#[derive(Clone, Copy, Debug, PartialEq, Eq)]
pub struct EpollEvent {
    pub events: u32,
    pub data: u64,
}

impl Default for EpollEvent {
    fn default() -> (r: Self)
        ensures
            r.events == 0,
            r.data == 0,
    {
        EpollEvent { events: 0, data: 0 }
    }
}

} // verus!
