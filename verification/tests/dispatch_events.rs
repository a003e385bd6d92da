use keyforge::abi::{
    EpollEvent, InputEvent, TimeVal, ABS_RX, ABS_RY, ABS_RZ, ABS_X, ABS_Y, ABS_Z, EAGAIN, EPOLLERR,
    EPOLLHUP, EPOLLIN, EV_ABS, EV_KEY, EV_SYN, SYN_REPORT,
};
use keyforge::device::Device;
use keyforge::dispatch::{
    button_actions, classify_read, config_check_due, emit_actions, emitted, process_input, route, scan_wakeups,
    stick_actions, trigger_actions, Action, PendingRelease, ReadOutcome, ReleaseQueue, Route,
    BUSY_POLL_MS, IDLE_POLL_MS,
};
use keyforge::pipeline::{Ctx, EmitEvent, Event, Pipeline, Processor, Side};
use keyforge::settings::Settings;

fn ev(t: i32, c: u32, v: i32) -> InputEvent {
    InputEvent { time: TimeVal { tv_sec: 1, tv_usec: 2 }, type_: t as u16, code: c as u16, value: v }
}

/// Halves positions, emits a held key 316 for every event.
struct HalfAndTap;

impl Processor for HalfAndTap {
    fn id(&self) -> &str {
        "half"
    }

    fn process(&self, event: &mut Event, ctx: &mut Ctx) {
        match event {
            Event::Stick { x, y, .. } => {
                *x /= 2;
                *y /= 2;
            }
            Event::Trigger { value, .. } => *value /= 2,
            Event::Button { pressed, .. } => *pressed = !*pressed,
        }
        ctx.push_emit(EmitEvent { ev_type: 1, code: 316, value: 1, hold_ms: Some(40) });
    }
}

/// Drops everything.
struct DropAll;

impl Processor for DropAll {
    fn id(&self) -> &str {
        "drop"
    }

    fn process(&self, _event: &mut Event, ctx: &mut Ctx) {
        ctx.mark_dropped();
    }
}

fn pipeline_of(p: Box<dyn Processor>) -> Pipeline<Box<dyn Processor>> {
    let mut pl = Pipeline::new();
    pl.add(p);
    pl
}

#[test]
fn routes() {
    assert_eq!(route(&ev(EV_ABS, ABS_X, 0)), Route::Axis);
    assert_eq!(route(&ev(EV_ABS, ABS_RY, 0)), Route::Axis);
    assert_eq!(route(&ev(EV_ABS, ABS_Z, 0)), Route::Trigger(Side::Left));
    assert_eq!(route(&ev(EV_ABS, ABS_RZ, 0)), Route::Trigger(Side::Right));
    assert_eq!(route(&ev(EV_ABS, 0x10, 0)), Route::Forward);
    assert_eq!(route(&ev(EV_KEY, 304, 1)), Route::Button);
    assert_eq!(route(&ev(EV_SYN, SYN_REPORT, 0)), Route::Report);
    assert_eq!(route(&ev(EV_SYN, 1, 0)), Route::Forward);
    assert_eq!(route(&ev(4, 4, 0)), Route::Forward);
}

#[test]
fn emitted_keeps_time() {
    let t = ev(EV_KEY, 1, 1);
    let e = EmitEvent { ev_type: 3, code: 9, value: -5, hold_ms: None };
    assert_eq!(emitted(&t, &e), InputEvent { time: t.time, type_: 3, code: 9, value: -5 });
}

#[test]
fn emit_actions_schedule_only_held_presses() {
    let t = ev(EV_KEY, 1, 1);
    let emits = vec![
        EmitEvent { ev_type: 1, code: 10, value: 1, hold_ms: Some(100) },
        EmitEvent { ev_type: 1, code: 11, value: 0, hold_ms: Some(100) },
        EmitEvent { ev_type: 3, code: 12, value: 1, hold_ms: Some(100) },
        EmitEvent { ev_type: 1, code: 13, value: 1, hold_ms: None },
    ];
    let a = emit_actions(&t, &emits);
    assert_eq!(
        a,
        vec![
            Action::Write(InputEvent { time: t.time, type_: 1, code: 10, value: 1 }),
            Action::ScheduleRelease { hold_ms: 100, ev_type: 1, code: 10 },
            Action::Write(InputEvent { time: t.time, type_: 1, code: 11, value: 0 }),
            Action::Write(InputEvent { time: t.time, type_: 3, code: 12, value: 1 }),
            Action::Write(InputEvent { time: t.time, type_: 1, code: 13, value: 1 }),
        ]
    );
}

#[test]
fn trigger_and_button_outputs() {
    let t = ev(EV_ABS, ABS_Z, 100);
    let out = Event::Trigger { value: 7, side: Side::Left };
    assert_eq!(trigger_actions(&t, &out, &vec![], false), vec![Action::Write(InputEvent { value: 7, ..t })]);
    assert_eq!(trigger_actions(&t, &out, &vec![], true), vec![]);
    let b = ev(EV_KEY, 304, 2);
    let pressed = Event::Button { code: 304, pressed: true };
    assert_eq!(button_actions(&b, &pressed, &vec![], false), vec![Action::Write(InputEvent { value: 1, ..b })]);
    let released = Event::Button { code: 304, pressed: false };
    assert_eq!(button_actions(&b, &released, &vec![], false), vec![Action::Write(InputEvent { value: 0, ..b })]);
    let e = EmitEvent { ev_type: 1, code: 5, value: 0, hold_ms: None };
    assert_eq!(
        button_actions(&b, &released, &vec![e], true),
        vec![Action::Write(InputEvent { time: b.time, type_: 1, code: 5, value: 0 })]
    );
}

#[test]
fn stick_outputs() {
    let r = ev(EV_SYN, SYN_REPORT, 0);
    let out = Event::Stick { x: 3, y: -3, side: Side::Right };
    let e = EmitEvent { ev_type: 1, code: 5, value: 1, hold_ms: None };
    assert_eq!(
        stick_actions(&r, Side::Right, &out, &vec![e], false),
        vec![
            Action::Write(InputEvent { time: r.time, type_: EV_ABS as u16, code: ABS_RX as u16, value: 3 }),
            Action::Write(InputEvent { time: r.time, type_: EV_ABS as u16, code: ABS_RY as u16, value: -3 }),
            Action::Write(InputEvent { time: r.time, type_: 1, code: 5, value: 1 }),
        ]
    );
    assert_eq!(
        stick_actions(&r, Side::Left, &out, &vec![e], true),
        vec![Action::Write(InputEvent { time: r.time, type_: 1, code: 5, value: 1 })]
    );
}

#[test]
fn axes_are_collected_until_the_report() {
    let p = pipeline_of(Box::new(HalfAndTap));
    let s = Settings::new();
    let mut d = Device::new();
    assert!(process_input(&mut d, &p, &s, ev(EV_ABS, ABS_X, 100)).is_empty());
    assert!(process_input(&mut d, &p, &s, ev(EV_ABS, ABS_Y, -50)).is_empty());
    assert_eq!((d.lx, d.ly, d.ld, d.rd), (100, -50, true, false));
    let report = ev(EV_SYN, SYN_REPORT, 0);
    let a = process_input(&mut d, &p, &s, report);
    assert_eq!(
        a,
        vec![
            Action::RecordRaw { lx: 100, ly: -50, rx: 0, ry: 0 },
            Action::Write(InputEvent { time: report.time, type_: EV_ABS as u16, code: ABS_X as u16, value: 50 }),
            Action::Write(InputEvent { time: report.time, type_: EV_ABS as u16, code: ABS_Y as u16, value: -25 }),
            Action::Write(InputEvent { time: report.time, type_: 1, code: 316, value: 1 }),
            Action::ScheduleRelease { hold_ms: 40, ev_type: 1, code: 316 },
            Action::Write(report),
        ]
    );
    assert!(!d.ld && !d.rd);
    // a report with no stick moved only publishes and passes on
    let a = process_input(&mut d, &p, &s, report);
    assert_eq!(a, vec![Action::RecordRaw { lx: 100, ly: -50, rx: 0, ry: 0 }, Action::Write(report)]);
}

#[test]
fn both_sticks_left_first() {
    let p = pipeline_of(Box::new(DropAll));
    let s = Settings::new();
    let mut d = Device::new();
    process_input(&mut d, &p, &s, ev(EV_ABS, ABS_RX, 8));
    process_input(&mut d, &p, &s, ev(EV_ABS, ABS_X, 4));
    let report = ev(EV_SYN, SYN_REPORT, 0);
    // dropped sticks write no axes
    assert_eq!(
        process_input(&mut d, &p, &s, report),
        vec![Action::RecordRaw { lx: 4, ly: 0, rx: 8, ry: 0 }, Action::Write(report)]
    );
}

#[test]
fn triggers_and_buttons_go_through_the_pipeline() {
    let p = pipeline_of(Box::new(HalfAndTap));
    let s = Settings::new();
    let mut d = Device::new();
    let t = ev(EV_ABS, ABS_RZ, 200);
    assert_eq!(
        process_input(&mut d, &p, &s, t),
        vec![
            Action::Write(InputEvent { time: t.time, type_: 1, code: 316, value: 1 }),
            Action::ScheduleRelease { hold_ms: 40, ev_type: 1, code: 316 },
            Action::Write(InputEvent { value: 100, ..t }),
        ]
    );
    let b = ev(EV_KEY, 304, 1);
    assert_eq!(
        process_input(&mut d, &p, &s, b),
        vec![
            Action::Write(InputEvent { time: b.time, type_: 1, code: 316, value: 1 }),
            Action::ScheduleRelease { hold_ms: 40, ev_type: 1, code: 316 },
            Action::Write(InputEvent { value: 0, ..b }),
        ]
    );
}

#[test]
fn dropped_events_are_not_written() {
    let p = pipeline_of(Box::new(DropAll));
    let s = Settings::new();
    let mut d = Device::new();
    assert!(process_input(&mut d, &p, &s, ev(EV_KEY, 304, 1)).is_empty());
    assert!(process_input(&mut d, &p, &s, ev(EV_ABS, ABS_Z, 9)).is_empty());
}

#[test]
fn other_events_pass_unchanged() {
    let p: Pipeline<Box<dyn Processor>> = Pipeline::new();
    let s = Settings::new();
    let mut d = Device::new();
    let e = ev(EV_ABS, 0x10, -1);
    assert_eq!(process_input(&mut d, &p, &s, e), vec![Action::Write(e)]);
    let m = ev(4, 4, 77);
    assert_eq!(process_input(&mut d, &p, &s, m), vec![Action::Write(m)]);
}

#[test]
fn empty_pipeline_passes_buttons_as_zero_or_one() {
    let p: Pipeline<Box<dyn Processor>> = Pipeline::new();
    let s = Settings::new();
    let mut d = Device::new();
    let repeat = ev(EV_KEY, 30, 2);
    assert_eq!(process_input(&mut d, &p, &s, repeat), vec![Action::Write(InputEvent { value: 1, ..repeat })]);
}

fn release_pair(t: u16, c: u16) -> Vec<InputEvent> {
    let z = TimeVal { tv_sec: 0, tv_usec: 0 };
    vec![
        InputEvent { time: z, type_: t, code: c, value: 0 },
        InputEvent { time: z, type_: EV_SYN as u16, code: SYN_REPORT as u16, value: 0 },
    ]
}

#[test]
fn releases_come_due_in_order() {
    let mut q = ReleaseQueue::new();
    assert!(q.is_empty());
    assert_eq!(q.poll_timeout(), IDLE_POLL_MS);
    q.schedule(1_000, 5, 1, 10); // due 6_000
    q.schedule(1_000, 1, 1, 11); // due 2_000
    q.schedule(2_000, 10, 1, 12); // due 12_000
    assert_eq!(q.len(), 3);
    assert_eq!(q.poll_timeout(), BUSY_POLL_MS);
    assert!(q.take_due(1_999).is_empty());
    assert_eq!(q.take_due(2_000), release_pair(1, 11));
    let mut both = release_pair(1, 10);
    both.extend(release_pair(1, 12));
    assert_eq!(q.take_due(u64::MAX), both);
    assert!(q.is_empty());
}

#[test]
fn release_time_saturates() {
    let mut q = ReleaseQueue::new();
    q.schedule(u64::MAX - 10, 1, 1, 1);
    q.schedule(0, u64::MAX, 1, 2);
    assert!(q.take_due(u64::MAX - 1).is_empty());
    let mut both = release_pair(1, 1);
    both.extend(release_pair(1, 2));
    assert_eq!(q.take_due(u64::MAX), both);
    let _ = PendingRelease { due_us: 0, ev_type: 1, code: 1 };
}

#[test]
fn wakeups() {
    let w = scan_wakeups(&[EpollEvent { events: EPOLLIN, data: 3 }, EpollEvent { events: EPOLLIN, data: 5 }], Some(3), Some(5));
    assert!(w.config_changed && w.device_ready && !w.device_hangup);
    assert!(w.should_read());
    let w = scan_wakeups(&[EpollEvent { events: EPOLLHUP, data: 5 }, EpollEvent::default()], Some(3), Some(5));
    assert!(!w.config_changed && w.device_ready && w.device_hangup);
    let w = scan_wakeups(&[EpollEvent { events: EPOLLERR, data: 5 }], None, None);
    assert!(!w.config_changed && !w.device_ready && !w.device_hangup);
    assert!(!w.should_read());
    // a watch and a device with the same key: the watch wins
    let w = scan_wakeups(&[EpollEvent { events: EPOLLIN, data: 4 }], Some(4), Some(4));
    assert!(w.config_changed && !w.device_ready);
}

#[test]
fn read_outcomes() {
    assert_eq!(classify_read(24, 24, 0, false), ReadOutcome::Event);
    assert_eq!(classify_read(24, 24, 0, true), ReadOutcome::Event);
    assert_eq!(classify_read(-1, 24, EAGAIN, false), ReadOutcome::Drained);
    assert_eq!(classify_read(-1, 24, 5, false), ReadOutcome::Disconnected);
    assert_eq!(classify_read(0, 24, 0, true), ReadOutcome::Disconnected);
    assert_eq!(classify_read(10, 24, 0, false), ReadOutcome::Drained);
}

#[test]
fn config_checks_come_due() {
    assert!(!config_check_due(0, false));
    assert!(!config_check_due(499, false));
    assert!(config_check_due(500, false));
    assert!(config_check_due(0, true));
}
