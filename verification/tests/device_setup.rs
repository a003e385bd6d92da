use keyforge::abi::{InputAbsInfo, InputId, ABS_RX, ABS_RY, ABS_X, ABS_Y, ABS_Z, BUS_USB};
use keyforge::device::{
    event_node_path, id_matches, is_event_node, is_stick_axis, mirror_abs_setup, mirror_absinfo,
    code_range, has_bit, virtual_abs_setup, virtual_setup, Device, VIRTUAL_NAME, VIRTUAL_PRODUCT,
};

#[test]
fn new_device_has_no_handles() {
    let d = Device::new();
    assert_eq!((d.fd, d.ufd), (-1, -1));
    assert_eq!((d.lx, d.ly, d.rx, d.ry, d.ld, d.rd), (0, 0, 0, 0, false, false));
}

#[test]
fn take_handles_gives_open_ones_once() {
    let mut d = Device::new();
    d.fd = 7;
    d.ufd = 9;
    d.lx = 5;
    assert_eq!(d.take_handles(), (Some(9), Some(7)));
    assert_eq!((d.fd, d.ufd, d.lx), (-1, -1, 5));
    assert_eq!(d.take_handles(), (None, None));
    let mut e = Device::new();
    e.fd = 3;
    assert_eq!(e.take_handles(), (None, Some(3)));
}

#[test]
fn bits_of_a_mask() {
    let buf = vec![0b0000_0101u8, 0b1000_0000u8];
    let set: Vec<u32> = (0..16).filter(|i| has_bit(&buf, *i)).collect();
    assert_eq!(set, vec![0, 2, 15]);
    assert!(!has_bit(&vec![0u8; 4], 31));
    assert!(has_bit(&vec![0xffu8], 7));
}

#[test]
fn every_code_is_exposed() {
    assert_eq!(code_range(0), Vec::<u32>::new());
    assert_eq!(code_range(4), vec![0, 1, 2, 3]);
    let keys = code_range(768);
    assert_eq!(keys.len(), 768);
    assert_eq!(keys[767], 767);
}

#[test]
fn axes_the_device_lacks() {
    let info = InputAbsInfo { value: 1, minimum: 0, maximum: 255, fuzz: 0, flat: 0, resolution: 0 };
    assert_eq!(virtual_abs_setup(ABS_Z as u16, Some(info)).absinfo, info);
    assert_eq!(virtual_abs_setup(ABS_Z as u16, None).absinfo, InputAbsInfo::default());
    let s = virtual_abs_setup(ABS_X as u16, None);
    assert_eq!((s.code, s.absinfo.minimum, s.absinfo.maximum), (0, -32767, 32767));
}

#[test]
fn stick_axes_get_full_range() {
    let info = InputAbsInfo { value: 128, minimum: 0, maximum: 255, fuzz: 2, flat: 15, resolution: 1 };
    for code in [ABS_X, ABS_Y, ABS_RX, ABS_RY] {
        assert!(is_stick_axis(code));
        let m = mirror_absinfo(code, info);
        assert_eq!(m, InputAbsInfo { value: 128, minimum: -32767, maximum: 32767, fuzz: 0, flat: 0, resolution: 1 });
    }
    assert!(!is_stick_axis(ABS_Z));
    assert_eq!(mirror_absinfo(ABS_Z, info), info);
    let s = mirror_abs_setup(ABS_X as u16, info);
    assert_eq!(s.code, 0);
    assert_eq!(s.absinfo.maximum, 32767);
}

#[test]
fn virtual_identity() {
    let s = virtual_setup(0x045e);
    assert_eq!(s.id, InputId { bustype: BUS_USB, vendor: 0x045e, product: VIRTUAL_PRODUCT, version: 1 });
    assert_eq!(s.id.product, 0x02d1);
    let n = VIRTUAL_NAME.len();
    assert_eq!(&s.name[..n], b"KeyForge Virtual Controller");
    assert!(s.name[n..].iter().all(|b| *b == 0));
    assert_eq!(s.ff_effects_max, 0);
}

#[test]
fn event_nodes() {
    assert!(is_event_node("event0"));
    assert!(is_event_node("event12"));
    assert!(!is_event_node("mouse0"));
    assert!(!is_event_node("even"));
    assert_eq!(event_node_path("event3"), "/dev/input/event3");
}

#[test]
fn matching_ids() {
    let id = InputId { bustype: 3, vendor: 0x045e, product: 0x028e, version: 1 };
    assert!(id_matches(&id, 0x045e, 0x028e));
    assert!(!id_matches(&id, 0x045e, 0x028f));
    assert!(!id_matches(&id, 0x045f, 0x028e));
}
