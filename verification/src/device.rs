//! The physical device and the virtual one that mirrors it: which handles
//! are open, the last stick positions read, and how the virtual device's
//! capabilities and identity are derived from the physical one.
use vstd::prelude::*;
use crate::abi::{
    ABS_RX, ABS_RY, ABS_X, ABS_Y, BUS_USB, INPUT_DIR, InputAbsInfo, InputId, UinputAbsSetup,
    UinputSetup,
};
use crate::text::{has_prefix, str_starts_with};

verus! {

/// Product id of the virtual controller.
pub const VIRTUAL_PRODUCT: u16 = 0x02d1;

/// Version of the virtual controller.
pub const VIRTUAL_VERSION: u16 = 1;

/// Name of the virtual controller.
pub const VIRTUAL_NAME: &'static str = "KeyForge Virtual Controller";

/// Highest position of a virtual stick.
pub const STICK_RANGE: i32 = 32767;

/// Lowest position of a virtual stick.
pub const STICK_MIN: i32 = -32767;

/// Prefix of the names of evdev event nodes.
pub const EVENT_NODE_PREFIX: &'static str = "event";

/// The physical device, the virtual one, and the stick positions read
/// since the last report.
pub struct Device {
    /// Handle of the physical device, or -1.
    pub fd: i32,
    /// Handle of the uinput device, or -1.
    pub ufd: i32,
    pub lx: i32,
    pub ly: i32,
    pub rx: i32,
    pub ry: i32,
    /// Whether the left stick moved since the last report.
    pub ld: bool,
    /// Whether the right stick moved since the last report.
    pub rd: bool,
}

impl Device {
    /// A device with no handle open, sticks centred and unmoved.
    pub fn new() -> (r: Device)
        ensures
            r.fd == -1,
            r.ufd == -1,
            r.lx == 0,
            r.ly == 0,
            r.rx == 0,
            r.ry == 0,
            !r.ld,
            !r.rd,
    {
        Device { fd: -1, ufd: -1, lx: 0, ly: 0, rx: 0, ry: 0, ld: false, rd: false }
    }

    /// Forgets the open handles and gives them back, to be closed: first the
    /// uinput handle (whose device is to be destroyed), then the physical
    /// device's (which is to be released).
    pub fn take_handles(&mut self) -> (r: (Option<i32>, Option<i32>))
        ensures
            r.0 == (if old(self).ufd >= 0 {
                Some(old(self).ufd)
            } else {
                None
            }),
            r.1 == (if old(self).fd >= 0 {
                Some(old(self).fd)
            } else {
                None
            }),
            final(self).ufd == (if old(self).ufd >= 0 {
                -1i32
            } else {
                old(self).ufd
            }),
            final(self).fd == (if old(self).fd >= 0 {
                -1i32
            } else {
                old(self).fd
            }),
            final(self).lx == old(self).lx,
            final(self).ly == old(self).ly,
            final(self).rx == old(self).rx,
            final(self).ry == old(self).ry,
            final(self).ld == old(self).ld,
            final(self).rd == old(self).rd,
    {
        let u = if self.ufd >= 0 {
            let u: i32 = self.ufd;
            self.ufd = -1;
            Some(u)
        } else {
            None
        };
        let f = if self.fd >= 0 {
            let f: i32 = self.fd;
            self.fd = -1;
            Some(f)
        } else {
            None
        };
        (u, f)
    }
}

/// Bytes needed for a bitmask of `count` bits.
pub fn bitmask_len(count: usize) -> (r: usize)
    requires
        count + 7 <= usize::MAX,
    ensures
        r == (count + 7) / 8,
{
    (count + 7) / 8
}

/// Whether bit `k` of byte `b` is set.
pub open spec fn byte_bit(b: u8, k: u8) -> bool {
    (b >> k) & 1u8 != 0
}

/// Whether bit `i` of the bitmask `buf` is set, bit 0 being the lowest of
/// the first byte.
pub open spec fn mask_bit(buf: Seq<u8>, i: int) -> bool {
    byte_bit(buf[i / 8], (i % 8) as u8)
}

/// Whether bit `i` of the bitmask `buf` is set.
pub fn has_bit(buf: &Vec<u8>, i: u32) -> (r: bool)
    requires
        i < buf@.len() * 8,
    ensures
        r == mask_bit(buf@, i as int),
{
    let byte: u8 = buf[(i / 8) as usize];
    let shift: u8 = (i % 8) as u8;
    (byte >> shift) & 1u8 != 0
}

/// The codes `0` to `count - 1`, in order: the virtual controller exposes
/// every key code and every axis code.
pub fn code_range(count: u32) -> (r: Vec<u32>)
    ensures
        r@.len() == count,
        forall|i: int| 0 <= i < count ==> #[trigger] r@[i] == i,
{
    let mut r: Vec<u32> = Vec::new();
    let mut i: u32 = 0;
    while i < count
        invariant
            i <= count,
            r@.len() == i,
            forall|j: int| 0 <= j < i ==> #[trigger] r@[j] == j,
        decreases count - i,
    {
        r.push(i);
        i = i + 1;
    }
    r
}

/// Whether `code` is one of the four stick axes.
pub open spec fn is_stick_axis_spec(code: u32) -> bool {
    code == ABS_X || code == ABS_Y || code == ABS_RX || code == ABS_RY
}

/// Whether `code` is one of the four stick axes.
pub fn is_stick_axis(code: u32) -> (r: bool)
    ensures
        r == is_stick_axis_spec(code),
{
    code == ABS_X || code == ABS_Y || code == ABS_RX || code == ABS_RY
}

/// The range that the virtual device gives axis `code`, from the physical
/// device's: the sticks range over `STICK_MIN..=STICK_RANGE` with no
/// fuzz and no flat zone; every other axis keeps its range.
pub fn mirror_absinfo(code: u32, info: InputAbsInfo) -> (r: InputAbsInfo)
    ensures
        is_stick_axis_spec(code) ==> r == (InputAbsInfo {
            minimum: STICK_MIN,
            maximum: STICK_RANGE,
            flat: 0,
            fuzz: 0,
            ..info
        }),
        !is_stick_axis_spec(code) ==> r == info,
{
    let mut r = info;
    if is_stick_axis(code) {
        r.minimum = STICK_MIN;
        r.maximum = STICK_RANGE;
        r.flat = 0;
        r.fuzz = 0;
    }
    r
}

/// The setup of virtual axis `code`: mirroring the physical axis's range
/// when the device has the axis, and from an all-zero range when it has not
/// (a stick axis gets the stick range either way).
pub fn virtual_abs_setup(code: u16, physical: Option<InputAbsInfo>) -> (r: UinputAbsSetup)
    ensures
        r.code == code,
        r.absinfo == mirror_absinfo_spec(
            code as u32,
            match physical {
                Some(info) => info,
                None => InputAbsInfo { value: 0, minimum: 0, maximum: 0, fuzz: 0, flat: 0, resolution: 0 },
            },
        ),
        code as u32 == ABS_X || code as u32 == ABS_Y || code as u32 == ABS_RX || code as u32
            == ABS_RY ==> r.absinfo.minimum == STICK_MIN && r.absinfo.maximum == STICK_RANGE
            && r.absinfo.fuzz == 0 && r.absinfo.flat == 0,
        physical is Some ==> r.absinfo.value == physical->0.value && r.absinfo.resolution
            == physical->0.resolution,
        physical is Some && !(code as u32 == ABS_X || code as u32 == ABS_Y || code as u32 == ABS_RX
            || code as u32 == ABS_RY) ==> r.absinfo == physical->0,
        physical is None ==> r.absinfo.value == 0 && r.absinfo.resolution == 0,
        physical is None && !(code as u32 == ABS_X || code as u32 == ABS_Y || code as u32 == ABS_RX
            || code as u32 == ABS_RY) ==> r.absinfo.minimum == 0 && r.absinfo.maximum == 0
            && r.absinfo.fuzz == 0 && r.absinfo.flat == 0,
{
    let info = match physical {
        Some(info) => info,
        None => InputAbsInfo::default(),
    };
    mirror_abs_setup(code, info)
}

/// The setup of virtual axis `code` mirroring the physical axis's `info`.
pub fn mirror_abs_setup(code: u16, info: InputAbsInfo) -> (r: UinputAbsSetup)
    ensures
        r.code == code,
        r.absinfo == mirror_absinfo_spec(code as u32, info),
        code as u32 == ABS_X || code as u32 == ABS_Y || code as u32 == ABS_RX || code as u32
            == ABS_RY ==> r.absinfo.minimum == STICK_MIN && r.absinfo.maximum == STICK_RANGE
            && r.absinfo.fuzz == 0 && r.absinfo.flat == 0 && r.absinfo.value == info.value
            && r.absinfo.resolution == info.resolution,
        !(code as u32 == ABS_X || code as u32 == ABS_Y || code as u32 == ABS_RX || code as u32
            == ABS_RY) ==> r.absinfo == info,
{
    UinputAbsSetup::new(code, mirror_absinfo(code as u32, info))
}

/// Each of the four stick axes, left and right, gets the full stick range
/// with no fuzz and no flat zone, keeping its value and resolution; every
/// other axis keeps the physical device's record unchanged.
pub proof fn lemma_stick_axes_widened(code: u32, info: InputAbsInfo)
    ensures
        code == ABS_X || code == ABS_Y || code == ABS_RX || code == ABS_RY ==> {
            let r = mirror_absinfo_spec(code, info);
            &&& r.minimum == STICK_MIN
            &&& r.maximum == STICK_RANGE
            &&& r.fuzz == 0
            &&& r.flat == 0
            &&& r.value == info.value
            &&& r.resolution == info.resolution
        },
        !(code == ABS_X || code == ABS_Y || code == ABS_RX || code == ABS_RY) ==> mirror_absinfo_spec(
            code,
            info,
        ) == info,
{
}

/// The range that the virtual device gives axis `code`.
pub open spec fn mirror_absinfo_spec(code: u32, info: InputAbsInfo) -> InputAbsInfo {
    if is_stick_axis_spec(code) {
        InputAbsInfo { minimum: STICK_MIN, maximum: STICK_RANGE, flat: 0, fuzz: 0, ..info }
    } else {
        info
    }
}

/// The identity of the virtual controller: a USB device with the
/// physical device's vendor id, its own product id and version, and the name
/// `VIRTUAL_NAME`, padded with zero bytes.
pub fn virtual_setup(vid: u16) -> (r: UinputSetup)
    ensures
        r.id.bustype == BUS_USB,
        r.id.vendor == vid,
        r.id.product == VIRTUAL_PRODUCT,
        r.id.version == VIRTUAL_VERSION,
        r.ff_effects_max == 0,
        VIRTUAL_NAME@.len() < 80,
        forall|i: int| 0 <= i < VIRTUAL_NAME@.len() ==> #[trigger] r.name@[i] == VIRTUAL_NAME@[i] as u8,
        forall|i: int| VIRTUAL_NAME@.len() <= i < 80 ==> #[trigger] r.name@[i] == 0,
{
    proof {
        reveal_strlit("KeyForge Virtual Controller");
        vstd::string::is_ascii_spec_bytes(VIRTUAL_NAME);
    }
    let mut us = UinputSetup::default();
    us.id.bustype = BUS_USB;
    us.id.vendor = vid;
    us.id.product = VIRTUAL_PRODUCT;
    us.id.version = VIRTUAL_VERSION;
    let label = VIRTUAL_NAME.as_bytes();
    let mut i: usize = 0;
    while i < label.len()
        invariant
            label@.len() == VIRTUAL_NAME@.len(),
            label@.len() < 80,
            forall|j: int| 0 <= j < label@.len() ==> #[trigger] label@[j] == VIRTUAL_NAME@[j] as u8,
            i <= label@.len(),
            us.id.bustype == BUS_USB,
            us.id.vendor == vid,
            us.id.product == VIRTUAL_PRODUCT,
            us.id.version == VIRTUAL_VERSION,
            us.ff_effects_max == 0,
            forall|j: int| 0 <= j < i ==> #[trigger] us.name@[j] == VIRTUAL_NAME@[j] as u8,
            forall|j: int| i <= j < 80 ==> #[trigger] us.name@[j] == 0,
        decreases label@.len() - i,
    {
        us.name[i] = label[i];
        i = i + 1;
    }
    us
}

/// Whether a directory entry of `INPUT_DIR` is an event node.
pub fn is_event_node(name: &str) -> (r: bool)
    ensures
        r == has_prefix(name@, EVENT_NODE_PREFIX@),
{
    str_starts_with(name, EVENT_NODE_PREFIX)
}

/// The path of the entry `name` of `INPUT_DIR`.
pub fn event_node_path(name: &str) -> (r: String)
    ensures
        r@ == INPUT_DIR@ + seq!['/'] + name@,
{
    proof {
        reveal_strlit("/");
    }
    let mut path = String::from_str(INPUT_DIR);
    path.append("/");
    path.append(name);
    proof {
        assert("/"@ =~= seq!['/']);
    }
    path
}

/// Whether a device with identity `id` is the one looked for.
pub fn id_matches(id: &InputId, vid: u16, pid: u16) -> (r: bool)
    ensures
        r == (id.vendor == vid && id.product == pid),
{
    id.vendor == vid && id.product == pid
}

} // verus!
