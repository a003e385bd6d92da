//! What the daemon does with each event it reads from the physical device,
//! with the key releases it has scheduled, and with the readiness reports
//! it waits for.
//!
//! Stick axes are collected until the report that closes them; triggers and
//! buttons go through the plugin pipeline at once; every other event is
//! passed on unchanged. Events that plugins emit are written before the
//! event they were emitted for; a plugin that drops an event keeps it from
//! being written.
use vstd::prelude::*;
use crate::abi::{
    ABS_RX, ABS_RY, ABS_RZ, ABS_X, ABS_Y, ABS_Z, EAGAIN, EPOLLERR, EPOLLHUP, EV_ABS, EV_KEY,
    EV_SYN, EpollEvent, InputEvent, SYN_REPORT, TimeVal,
};
use crate::device::Device;
use crate::pipeline::{
    EmitEvent, Event, Pipeline, Processor, Side, StepState, event_code, event_pressed, event_value,
    event_x, event_y, fresh_ctx, may_run, step_state,
};
use crate::settings::Settings;

verus! {

/// Something the daemon is to do for an event it read.
#[derive(Clone, Copy, Debug, PartialEq, Eq)]
pub enum Action {
    /// Write this event to the virtual device.
    Write(InputEvent),
    /// Release key `code` (of type `ev_type`) after `hold_ms` milliseconds.
    ScheduleRelease { hold_ms: u64, ev_type: u16, code: u16 },
    /// Publish the raw stick positions.
    RecordRaw { lx: i32, ly: i32, rx: i32, ry: i32 },
}

/// How an event read from the physical device is handled.
#[derive(Clone, Copy, Debug, PartialEq, Eq)]
pub enum Route {
    /// A stick axis: kept until the report that closes it.
    Axis,
    /// A trigger axis: goes through the pipeline.
    Trigger(Side),
    /// A key or button: goes through the pipeline.
    Button,
    /// The end of a report: the sticks that moved go through the pipeline.
    Report,
    /// Anything else: passed on.
    Forward,
}

/// How an event read from the physical device is handled.
pub open spec fn route_spec(iev: InputEvent) -> Route {
    if iev.type_ as int == EV_ABS as int {
        let c: int = iev.code as int;
        if c == ABS_X as int || c == ABS_Y as int || c == ABS_RX as int || c == ABS_RY as int {
            Route::Axis
        } else if c == ABS_Z as int {
            Route::Trigger(Side::Left)
        } else if c == ABS_RZ as int {
            Route::Trigger(Side::Right)
        } else {
            Route::Forward
        }
    } else if iev.type_ as int == EV_KEY as int {
        Route::Button
    } else if iev.type_ as int == EV_SYN as int && iev.code as int == SYN_REPORT as int {
        Route::Report
    } else {
        Route::Forward
    }
}

/// How an event read from the physical device is handled.
pub fn route(iev: &InputEvent) -> (r: Route)
    ensures
        r == route_spec(*iev),
{
    let t: i32 = iev.type_ as i32;
    let c: u32 = iev.code as u32;
    if t == EV_ABS {
        if c == ABS_X || c == ABS_Y || c == ABS_RX || c == ABS_RY {
            Route::Axis
        } else if c == ABS_Z {
            Route::Trigger(Side::Left)
        } else if c == ABS_RZ {
            Route::Trigger(Side::Right)
        } else {
            Route::Forward
        }
    } else if t == EV_KEY {
        Route::Button
    } else if t == EV_SYN && c == SYN_REPORT {
        Route::Report
    } else {
        Route::Forward
    }
}

/// The device after it read stick axis event `iev`.
pub open spec fn absorb_axis_spec(d: Device, iev: InputEvent) -> Device {
    let c: int = iev.code as int;
    let v: i32 = iev.value;
    if c == ABS_X as int {
        Device { lx: v, ld: true, ..d }
    } else if c == ABS_Y as int {
        Device { ly: v, ld: true, ..d }
    } else if c == ABS_RX as int {
        Device { rx: v, rd: true, ..d }
    } else if c == ABS_RY as int {
        Device { ry: v, rd: true, ..d }
    } else {
        d
    }
}

/// The pipeline event of a key or button event read from the device.
pub open spec fn button_event(iev: InputEvent) -> Event {
    Event::Button { code: iev.code, pressed: iev.value != 0 }
}

/// The event that `e` asks to write, with the time stamp of `template`.
pub open spec fn emitted_spec(template: InputEvent, e: EmitEvent) -> InputEvent {
    InputEvent { time: template.time, type_: e.ev_type, code: e.code, value: e.value }
}

/// Whether emitting `e` schedules a release: a key press (`EV_KEY`, value
/// 1) with a hold time.
pub open spec fn schedules_release(e: EmitEvent) -> bool {
    e.hold_ms is Some && e.value == 1 && e.ev_type == 1
}

/// What emitting `e` comes to: writing it, then scheduling its release if
/// it is a held key press.
pub open spec fn emit_action_spec(template: InputEvent, e: EmitEvent) -> Seq<Action> {
    let w = Action::Write(emitted_spec(template, e));
    if schedules_release(e) {
        seq![w, Action::ScheduleRelease { hold_ms: e.hold_ms->0, ev_type: e.ev_type, code: e.code }]
    } else {
        seq![w]
    }
}

/// What emitting `emits` in order comes to.
pub open spec fn emit_actions_spec(template: InputEvent, emits: Seq<EmitEvent>) -> Seq<Action>
    decreases emits.len(),
{
    if emits.len() == 0 {
        Seq::empty()
    } else {
        emit_actions_spec(template, emits.drop_last()) + emit_action_spec(template, emits.last())
    }
}

/// What a trigger event comes to once the pipeline left `out`, asked for
/// `emits` and suppressed the event or not: the emitted events, then the
/// trigger with its new position unless it was suppressed.
pub open spec fn trigger_actions_spec(
    iev: InputEvent,
    out: Event,
    emits: Seq<EmitEvent>,
    dropped: bool,
) -> Seq<Action> {
    emit_actions_spec(iev, emits) + if dropped {
        Seq::empty()
    } else {
        seq![Action::Write(InputEvent { value: event_value(out), ..iev })]
    }
}

/// What a button event comes to once the pipeline is done: the emitted
/// events, then the button as pressed (1) or released (0) unless it was
/// suppressed.
pub open spec fn button_actions_spec(
    iev: InputEvent,
    out: Event,
    emits: Seq<EmitEvent>,
    dropped: bool,
) -> Seq<Action> {
    emit_actions_spec(iev, emits) + if dropped {
        Seq::empty()
    } else {
        seq![
            Action::Write(
                InputEvent {
                    value: if event_pressed(out) {
                        1i32
                    } else {
                        0i32
                    },
                    ..iev
                },
            ),
        ]
    }
}

/// The axis event of a stick position, with the time stamp of `report`.
pub open spec fn axis_event(report: InputEvent, code: u32, value: i32) -> InputEvent {
    InputEvent { time: report.time, type_: EV_ABS as u16, code: code as u16, value }
}

/// What a stick that moved comes to at the end of a report once the
/// pipeline is done: its two axes unless it was suppressed, then the
/// emitted events.
pub open spec fn stick_actions_spec(
    report: InputEvent,
    side: Side,
    out: Event,
    emits: Seq<EmitEvent>,
    dropped: bool,
) -> Seq<Action> {
    let (cx, cy) = match side {
        Side::Left => (ABS_X, ABS_Y),
        Side::Right => (ABS_RX, ABS_RY),
    };
    if dropped {
        emit_actions_spec(report, emits)
    } else {
        seq![
            Action::Write(axis_event(report, cx, event_x(out))),
            Action::Write(axis_event(report, cy, event_y(out))),
        ] + emit_actions_spec(report, emits)
    }
}

/// What the end of a report comes to for device state `d`: the raw stick
/// positions are published, each stick that moved is processed (the left
/// one first, ending in `left`, then the right one, ending in `right`),
/// and the report is passed on.
pub open spec fn report_actions_spec(
    report: InputEvent,
    d: Device,
    left: StepState,
    right: StepState,
) -> Seq<Action> {
    seq![Action::RecordRaw { lx: d.lx, ly: d.ly, rx: d.rx, ry: d.ry }] + (if d.ld {
        stick_actions_spec(report, Side::Left, left.event, left.ctx.emits, left.ctx.dropped)
    } else {
        Seq::empty()
    }) + (if d.rd {
        stick_actions_spec(report, Side::Right, right.event, right.ctx.emits, right.ctx.dropped)
    } else {
        Seq::empty()
    }) + seq![Action::Write(report)]
}

/// The event that `e` asks to write, with the time stamp of `template`.
pub fn emitted(template: &InputEvent, e: &EmitEvent) -> (r: InputEvent)
    ensures
        r == emitted_spec(*template, *e),
{
    InputEvent { time: template.time, type_: e.ev_type, code: e.code, value: e.value }
}

/// What emitting `emits` in order comes to: each is written, and the
/// release of each held key press is scheduled right after it.
pub fn emit_actions(template: &InputEvent, emits: &Vec<EmitEvent>) -> (r: Vec<Action>)
    ensures
        r@ == emit_actions_spec(*template, emits@),
{
    let mut r: Vec<Action> = Vec::new();
    let mut i: usize = 0;
    while i < emits.len()
        invariant
            i <= emits@.len(),
            r@ == emit_actions_spec(*template, emits@.take(i as int)),
        decreases emits@.len() - i,
    {
        let e = emits[i];
        r.push(Action::Write(emitted(template, &e)));
        match e.hold_ms {
            Some(ms) => {
                if e.value == 1 && e.ev_type == 1 {
                    r.push(Action::ScheduleRelease { hold_ms: ms, ev_type: e.ev_type, code: e.code });
                }
            },
            None => {},
        }
        proof {
            let t = emits@.take(i + 1);
            assert(t.drop_last() =~= emits@.take(i as int));
            assert(t.last() == e);
            assert(r@ =~= emit_actions_spec(*template, emits@.take(i as int)) + emit_action_spec(
                *template,
                e,
            ));
        }
        i = i + 1;
    }
    proof {
        assert(emits@.take(emits@.len() as int) =~= emits@);
    }
    r
}

/// What a trigger event comes to once the pipeline left `out`, asked for
/// `emits` and suppressed the event (`dropped`) or not.
pub fn trigger_actions(iev: &InputEvent, out: &Event, emits: &Vec<EmitEvent>, dropped: bool) -> (r:
    Vec<Action>)
    ensures
        r@ == trigger_actions_spec(*iev, *out, emits@, dropped),
{
    let mut r = emit_actions(iev, emits);
    if !dropped {
        let mut w = *iev;
        w.value = out.value();
        r.push(Action::Write(w));
    }
    proof {
        if dropped {
            assert(r@ =~= trigger_actions_spec(*iev, *out, emits@, dropped));
        }
    }
    r
}

/// What a button event comes to once the pipeline left `out`, asked for
/// `emits` and suppressed the event (`dropped`) or not.
pub fn button_actions(iev: &InputEvent, out: &Event, emits: &Vec<EmitEvent>, dropped: bool) -> (r:
    Vec<Action>)
    ensures
        r@ == button_actions_spec(*iev, *out, emits@, dropped),
{
    let mut r = emit_actions(iev, emits);
    if !dropped {
        let mut w = *iev;
        w.value = if out.pressed() {
            1
        } else {
            0
        };
        r.push(Action::Write(w));
    }
    proof {
        if dropped {
            assert(r@ =~= button_actions_spec(*iev, *out, emits@, dropped));
        }
    }
    r
}

/// What a stick that moved comes to at the end of report `report` once the
/// pipeline left `out`, asked for `emits` and suppressed the stick
/// (`dropped`) or not.
pub fn stick_actions(
    report: &InputEvent,
    side: Side,
    out: &Event,
    emits: &Vec<EmitEvent>,
    dropped: bool,
) -> (r: Vec<Action>)
    ensures
        r@ == stick_actions_spec(*report, side, *out, emits@, dropped),
{
    let (cx, cy) = match side {
        Side::Left => (ABS_X, ABS_Y),
        Side::Right => (ABS_RX, ABS_RY),
    };
    let mut r: Vec<Action> = Vec::new();
    if !dropped {
        r.push(
            Action::Write(
                InputEvent { time: report.time, type_: EV_ABS as u16, code: cx as u16, value: out.x() },
            ),
        );
        r.push(
            Action::Write(
                InputEvent { time: report.time, type_: EV_ABS as u16, code: cy as u16, value: out.y() },
            ),
        );
    }
    let mut rest = emit_actions(report, emits);
    r.append(&mut rest);
    proof {
        assert(r@ =~= stick_actions_spec(*report, side, *out, emits@, dropped));
    }
    r
}

/// Handles one event read from the physical device, running the pipeline
/// where the event calls for it, and gives back what is to be done.
///
/// A stick axis only updates the device state. A trigger or a button goes
/// through the pipeline in a fresh context with `settings`. The end of a
/// report publishes the raw stick positions, runs each stick that moved
/// through the pipeline (left, then right), marks both as unmoved and
/// passes the report on. Anything else is passed on unchanged.
pub fn process_input<P: Processor>(
    dev: &mut Device,
    pipeline: &Pipeline<P>,
    settings: &Settings,
    iev: InputEvent,
) -> (r: Vec<Action>)
    ensures
        match route_spec(iev) {
            Route::Axis => *final(dev) == absorb_axis_spec(*old(dev), iev) && r@ == Seq::<
                Action,
            >::empty(),
            Route::Forward => *final(dev) == *old(dev) && r@ == seq![Action::Write(iev)],
            Route::Trigger(side) => *final(dev) == *old(dev) && exists|end: StepState|
                {
                    &&& #[trigger] may_run(
                        pipeline.steps(),
                        step_state(Event::Trigger { value: iev.value, side }, fresh_ctx(settings@)),
                        end,
                    )
                    &&& r@ == trigger_actions_spec(iev, end.event, end.ctx.emits, end.ctx.dropped)
                },
            Route::Button => *final(dev) == *old(dev) && exists|end: StepState|
                {
                    &&& #[trigger] may_run(
                        pipeline.steps(),
                        step_state(button_event(iev), fresh_ctx(settings@)),
                        end,
                    )
                    &&& r@ == button_actions_spec(iev, end.event, end.ctx.emits, end.ctx.dropped)
                },
            Route::Report => *final(dev) == (Device { ld: false, rd: false, ..*old(dev) }) && exists|
                left: StepState,
                right: StepState,
            |
                {
                    &&& old(dev).ld ==> may_run(
                        pipeline.steps(),
                        step_state(
                            Event::Stick { x: old(dev).lx, y: old(dev).ly, side: Side::Left },
                            fresh_ctx(settings@),
                        ),
                        left,
                    )
                    &&& old(dev).rd ==> may_run(
                        pipeline.steps(),
                        step_state(
                            Event::Stick { x: old(dev).rx, y: old(dev).ry, side: Side::Right },
                            fresh_ctx(settings@),
                        ),
                        right,
                    )
                    &&& r@ == #[trigger] report_actions_spec(iev, *old(dev), left, right)
                },
        },
{
    match route(&iev) {
        Route::Axis => {
            let c: u32 = iev.code as u32;
            if c == ABS_X {
                dev.lx = iev.value;
                dev.ld = true;
            } else if c == ABS_Y {
                dev.ly = iev.value;
                dev.ld = true;
            } else if c == ABS_RX {
                dev.rx = iev.value;
                dev.rd = true;
            } else if c == ABS_RY {
                dev.ry = iev.value;
                dev.rd = true;
            }
            Vec::new()
        },
        Route::Forward => {
            let mut r: Vec<Action> = Vec::new();
            r.push(Action::Write(iev));
            proof {
                assert(r@ =~= seq![Action::Write(iev)]);
            }
            r
        },
        Route::Trigger(side) => {
            let mut e = Event::Trigger { value: iev.value, side };
            let ghost start = step_state(e, fresh_ctx(settings@));
            let (emits, dropped) = pipeline.run(&mut e, settings);
            let r = trigger_actions(&iev, &e, &emits, dropped);
            proof {
                let end = choose|end: StepState|
                    {
                        &&& #[trigger] may_run(pipeline.steps(), start, end)
                        &&& e == end.event
                        &&& emits@ == end.ctx.emits
                        &&& dropped == end.ctx.dropped
                    };
                assert(may_run(pipeline.steps(), start, end));
            }
            r
        },
        Route::Button => {
            let mut e = Event::Button { code: iev.code, pressed: iev.value != 0 };
            let ghost start = step_state(e, fresh_ctx(settings@));
            let (emits, dropped) = pipeline.run(&mut e, settings);
            let r = button_actions(&iev, &e, &emits, dropped);
            proof {
                let end = choose|end: StepState|
                    {
                        &&& #[trigger] may_run(pipeline.steps(), start, end)
                        &&& e == end.event
                        &&& emits@ == end.ctx.emits
                        &&& dropped == end.ctx.dropped
                    };
                assert(may_run(pipeline.steps(), start, end));
                assert(start == step_state(button_event(iev), fresh_ctx(settings@)));
            }
            r
        },
        Route::Report => {
            let ghost d0 = *dev;
            let mut r: Vec<Action> = Vec::new();
            r.push(Action::RecordRaw { lx: dev.lx, ly: dev.ly, rx: dev.rx, ry: dev.ry });
            let ghost mut left = step_state(Event::Trigger { value: 0, side: Side::Left }, fresh_ctx(settings@));
            let ghost mut right = left;
            if dev.ld {
                let mut e = Event::Stick { x: dev.lx, y: dev.ly, side: Side::Left };
                let (emits, dropped) = pipeline.run(&mut e, settings);
                proof {
                    left = choose|end: StepState|
                        {
                            &&& #[trigger] may_run(
                                pipeline.steps(),
                                step_state(
                                    Event::Stick { x: d0.lx, y: d0.ly, side: Side::Left },
                                    fresh_ctx(settings@),
                                ),
                                end,
                            )
                            &&& e == end.event
                            &&& emits@ == end.ctx.emits
                            &&& dropped == end.ctx.dropped
                        };
                }
                let mut part = stick_actions(&iev, Side::Left, &e, &emits, dropped);
                r.append(&mut part);
                dev.ld = false;
            }
            if dev.rd {
                let mut e = Event::Stick { x: dev.rx, y: dev.ry, side: Side::Right };
                let (emits, dropped) = pipeline.run(&mut e, settings);
                proof {
                    right = choose|end: StepState|
                        {
                            &&& #[trigger] may_run(
                                pipeline.steps(),
                                step_state(
                                    Event::Stick { x: d0.rx, y: d0.ry, side: Side::Right },
                                    fresh_ctx(settings@),
                                ),
                                end,
                            )
                            &&& e == end.event
                            &&& emits@ == end.ctx.emits
                            &&& dropped == end.ctx.dropped
                        };
                }
                let mut part = stick_actions(&iev, Side::Right, &e, &emits, dropped);
                r.append(&mut part);
                dev.rd = false;
            }
            r.push(Action::Write(iev));
            proof {
                assert(r@ =~= report_actions_spec(iev, d0, left, right));
                assert(d0.ld ==> may_run(
                    pipeline.steps(),
                    step_state(Event::Stick { x: d0.lx, y: d0.ly, side: Side::Left }, fresh_ctx(settings@)),
                    left,
                ));
                assert(d0.rd ==> may_run(
                    pipeline.steps(),
                    step_state(Event::Stick { x: d0.rx, y: d0.ry, side: Side::Right }, fresh_ctx(settings@)),
                    right,
                ));
            }
            r
        },
    }
}

/// The events that release key `code` of type `ev_type`: the key at value 0,
/// then the end of a report, both with a zero time stamp.
pub open spec fn release_events_spec(ev_type: u16, code: u16) -> Seq<InputEvent> {
    seq![
        InputEvent { time: TimeVal { tv_sec: 0, tv_usec: 0 }, type_: ev_type, code, value: 0 },
        InputEvent {
            time: TimeVal { tv_sec: 0, tv_usec: 0 },
            type_: EV_SYN as u16,
            code: SYN_REPORT as u16,
            value: 0,
        },
    ]
}

/// A key release waiting for its time.
#[derive(Clone, Copy, Debug, PartialEq, Eq)]
pub struct PendingRelease {
    /// When the release is due, in microseconds on the daemon's clock.
    pub due_us: u64,
    pub ev_type: u16,
    pub code: u16,
}

/// When a release scheduled at `now_us` for `hold_ms` milliseconds is due;
/// the end of the clock when that lies beyond it.
pub open spec fn release_due_spec(now_us: u64, hold_ms: u64) -> u64 {
    if now_us + hold_ms * 1000 <= u64::MAX {
        (now_us + hold_ms * 1000) as u64
    } else {
        u64::MAX
    }
}

/// The releases of `q` that are due at `now_us`, as the events that perform
/// them, in order.
pub open spec fn due_events_spec(q: Seq<PendingRelease>, now_us: u64) -> Seq<InputEvent>
    decreases q.len(),
{
    if q.len() == 0 {
        Seq::empty()
    } else {
        due_events_spec(q.drop_last(), now_us) + if q.last().due_us <= now_us {
            release_events_spec(q.last().ev_type, q.last().code)
        } else {
            Seq::empty()
        }
    }
}

/// The releases of `q` that are not yet due at `now_us`, in order.
pub open spec fn not_due_spec(q: Seq<PendingRelease>, now_us: u64) -> Seq<PendingRelease>
    decreases q.len(),
{
    if q.len() == 0 {
        Seq::empty()
    } else {
        not_due_spec(q.drop_last(), now_us) + if q.last().due_us <= now_us {
            Seq::empty()
        } else {
            seq![q.last()]
        }
    }
}

/// How long to wait for input, in milliseconds, with no release pending.
pub const IDLE_POLL_MS: i32 = 500;

/// How long to wait for input, in milliseconds, while releases are pending.
pub const BUSY_POLL_MS: i32 = 50;

/// How often the configuration is read again, in milliseconds.
pub const CONFIG_CHECK_MS: u64 = 500;

/// Whether the configuration is to be read again: when `elapsed_ms` have
/// passed since it was last read reach `CONFIG_CHECK_MS`, or at once when
/// the watched directory changed (`forced`).
pub fn config_check_due(elapsed_ms: u64, forced: bool) -> (r: bool)
    ensures
        r == (forced || elapsed_ms >= CONFIG_CHECK_MS),
{
    forced || elapsed_ms >= CONFIG_CHECK_MS
}

/// The key releases scheduled by plugins, in the order they were scheduled.
pub struct ReleaseQueue {
    pending: Vec<PendingRelease>,
}

impl View for ReleaseQueue {
    type V = Seq<PendingRelease>;

    closed spec fn view(&self) -> Seq<PendingRelease> {
        self.pending@
    }
}

impl ReleaseQueue {
    /// No release pending.
    pub fn new() -> (r: ReleaseQueue)
        ensures
            r@ == Seq::<PendingRelease>::empty(),
    {
        ReleaseQueue { pending: Vec::new() }
    }

    /// Whether no release is pending.
    pub fn is_empty(&self) -> (r: bool)
        ensures
            r == (self@.len() == 0),
    {
        self.pending.len() == 0
    }

    /// How many releases are pending.
    pub fn len(&self) -> (r: usize)
        ensures
            r == self@.len(),
    {
        self.pending.len()
    }

    /// Schedules the release of key `code` of type `ev_type`, `hold_ms`
    /// milliseconds after `now_us`.
    pub fn schedule(&mut self, now_us: u64, hold_ms: u64, ev_type: u16, code: u16)
        ensures
            final(self)@ == old(self)@.push(
                PendingRelease { due_us: release_due_spec(now_us, hold_ms), ev_type, code },
            ),
    {
        let due: u64 = match hold_ms.checked_mul(1000) {
            Some(us) => now_us.saturating_add(us),
            None => u64::MAX,
        };
        self.pending.push(PendingRelease { due_us: due, ev_type, code });
    }

    /// Takes the releases due at `now_us` out of the queue and gives back the
    /// events that perform them, in the order they were scheduled; the
    /// others stay, in their order.
    pub fn take_due(&mut self, now_us: u64) -> (r: Vec<InputEvent>)
        ensures
            r@ == due_events_spec(old(self)@, now_us),
            final(self)@ == not_due_spec(old(self)@, now_us),
    {
        let mut out: Vec<InputEvent> = Vec::new();
        let mut keep: Vec<PendingRelease> = Vec::new();
        let mut i: usize = 0;
        while i < self.pending.len()
            invariant
                i <= self.pending@.len(),
                out@ == due_events_spec(self.pending@.take(i as int), now_us),
                keep@ == not_due_spec(self.pending@.take(i as int), now_us),
            decreases self.pending@.len() - i,
        {
            let p = self.pending[i];
            if p.due_us <= now_us {
                out.push(
                    InputEvent { time: TimeVal { tv_sec: 0, tv_usec: 0 }, type_: p.ev_type, code: p.code, value: 0 },
                );
                out.push(
                    InputEvent {
                        time: TimeVal { tv_sec: 0, tv_usec: 0 },
                        type_: EV_SYN as u16,
                        code: SYN_REPORT as u16,
                        value: 0,
                    },
                );
            } else {
                keep.push(p);
            }
            proof {
                let t = self.pending@.take(i + 1);
                assert(t.drop_last() =~= self.pending@.take(i as int));
                assert(t.last() == p);
                assert(out@ =~= due_events_spec(t, now_us));
                assert(keep@ =~= not_due_spec(t, now_us));
            }
            i = i + 1;
        }
        proof {
            assert(self.pending@.take(self.pending@.len() as int) =~= self.pending@);
        }
        self.pending = keep;
        out
    }

    /// How long to wait for input: briefly while releases are pending.
    pub fn poll_timeout(&self) -> (r: i32)
        ensures
            r == (if self@.len() == 0 {
                IDLE_POLL_MS
            } else {
                BUSY_POLL_MS
            }),
    {
        if self.pending.len() == 0 {
            IDLE_POLL_MS
        } else {
            BUSY_POLL_MS
        }
    }
}

/// Every scheduled release leaves the queue exactly once: what is due and
/// what is not due together are the queue, entry for entry (two events per
/// due release).
pub proof fn lemma_take_due_partitions(q: Seq<PendingRelease>, now_us: u64)
    ensures
        due_events_spec(q, now_us).len() + 2 * not_due_spec(q, now_us).len() == 2 * q.len(),
        forall|i: int|
            0 <= i < not_due_spec(q, now_us).len() ==> #[trigger] not_due_spec(q, now_us)[i].due_us
                > now_us,
    decreases q.len(),
{
    if q.len() > 0 {
        lemma_take_due_partitions(q.drop_last(), now_us);
        let nd = not_due_spec(q.drop_last(), now_us);
        if q.last().due_us > now_us {
            assert forall|i: int|
                0 <= i < not_due_spec(q, now_us).len() implies #[trigger] not_due_spec(
                q,
                now_us,
            )[i].due_us > now_us by {
                if i < nd.len() {
                    assert(not_due_spec(q, now_us)[i] == nd[i]);
                }
            }
        } else {
            assert(not_due_spec(q, now_us) =~= nd);
        }
    }
}

/// A release scheduled with a hold time comes due that many milliseconds
/// later, and not before: taking due releases earlier keeps it.
pub proof fn lemma_release_not_early(q: Seq<PendingRelease>, p: PendingRelease, now_us: u64)
    requires
        now_us < p.due_us,
    ensures
        not_due_spec(q.push(p), now_us) == not_due_spec(q, now_us).push(p),
        due_events_spec(q.push(p), now_us) == due_events_spec(q, now_us),
{
    assert(q.push(p).drop_last() =~= q);
    assert(due_events_spec(q.push(p), now_us) =~= due_events_spec(q, now_us));
}

/// What one wait for readiness reported.
#[derive(Clone, Copy, Debug, PartialEq, Eq)]
pub struct Wakeup {
    /// The watched input directory changed.
    pub config_changed: bool,
    /// The device has data, or hung up.
    pub device_ready: bool,
    /// The device hung up or failed.
    pub device_hangup: bool,
}

impl Wakeup {
    /// Whether the device is to be read.
    pub fn should_read(&self) -> (r: bool)
        ensures
            r == (self.device_ready || self.device_hangup),
    {
        self.device_ready || self.device_hangup
    }
}

/// Whether report `e` is for the watch with key `inotify`.
pub open spec fn is_watch_report(e: EpollEvent, inotify: Option<u64>) -> bool {
    inotify == Some(e.data)
}

/// Whether report `e` is for the device with key `device`.
pub open spec fn is_device_report(e: EpollEvent, inotify: Option<u64>, device: Option<u64>) -> bool {
    !is_watch_report(e, inotify) && device == Some(e.data)
}

/// Reads the readiness reports of one wait: `inotify` and `device` are the
/// keys the watch and the device were registered with, when they are.
pub fn scan_wakeups(events: &[EpollEvent], inotify: Option<u64>, device: Option<u64>) -> (r: Wakeup)
    ensures
        r.config_changed == exists|i: int|
            0 <= i < events@.len() && is_watch_report(#[trigger] events@[i], inotify),
        r.device_ready == exists|i: int|
            0 <= i < events@.len() && is_device_report(#[trigger] events@[i], inotify, device),
        r.device_hangup == exists|i: int|
            0 <= i < events@.len() && is_device_report(#[trigger] events@[i], inotify, device) && events@[i].events
                & (EPOLLHUP | EPOLLERR) != 0,
{
    let mut w = Wakeup { config_changed: false, device_ready: false, device_hangup: false };
    let mut i: usize = 0;
    while i < events.len()
        invariant
            i <= events@.len(),
            w.config_changed == exists|j: int|
                0 <= j < i && is_watch_report(#[trigger] events@[j], inotify),
            w.device_ready == exists|j: int|
                0 <= j < i && is_device_report(#[trigger] events@[j], inotify, device),
            w.device_hangup == exists|j: int|
                0 <= j < i && is_device_report(#[trigger] events@[j], inotify, device) && events@[j].events
                    & (EPOLLHUP | EPOLLERR) != 0,
        decreases events@.len() - i,
    {
        let e = events[i];
        let is_watch = match inotify {
            Some(k) => e.data == k,
            None => false,
        };
        let is_device = match device {
            Some(k) => e.data == k,
            None => false,
        };
        if is_watch {
            w.config_changed = true;
        } else if is_device {
            w.device_ready = true;
            if e.events & (EPOLLHUP | EPOLLERR) != 0 {
                w.device_hangup = true;
            }
        }
        proof {
            assert(events@[i as int] == e);
        }
        i = i + 1;
    }
    w
}

/// What one read of the device gave.
#[derive(Clone, Copy, Debug, PartialEq, Eq)]
pub enum ReadOutcome {
    /// A whole event was read.
    Event,
    /// Nothing more to read for now.
    Drained,
    /// The device is gone.
    Disconnected,
}

/// Judges one read of the device: `nread` bytes (negative on failure, with
/// error number `errno`) where an event takes `event_size`; `hangup` tells
/// whether the device reported a hang-up.
pub fn classify_read(nread: isize, event_size: usize, errno: i32, hangup: bool) -> (r: ReadOutcome)
    requires
        event_size <= isize::MAX,
    ensures
        nread == event_size ==> r == ReadOutcome::Event,
        nread != event_size && ((nread < 0 && errno != EAGAIN) || hangup) ==> r
            == ReadOutcome::Disconnected,
        nread != event_size && !((nread < 0 && errno != EAGAIN) || hangup) ==> r
            == ReadOutcome::Drained,
{
    if nread != event_size as isize {
        if (nread < 0 && errno != EAGAIN) || hangup {
            ReadOutcome::Disconnected
        } else {
            ReadOutcome::Drained
        }
    } else {
        ReadOutcome::Event
    }
}

} // verus!

verus! {

/// A key or button enters the pipeline as a button with the code of the
/// event read, pressed exactly when the event's value is not 0.
pub proof fn lemma_button_event_fields(iev: InputEvent)
    ensures
        button_event(iev) is Button,
        event_code(button_event(iev)) == iev.code,
        event_pressed(button_event(iev)) == (iev.value != 0),
{
}

/// A stick axis event stores its value in the position of its own axis and
/// marks its own stick as moved: `ABS_X` and `ABS_Y` the left stick,
/// `ABS_RX` and `ABS_RY` the right one; everything else stays as it was.
pub proof fn lemma_axis_marks_stick(d: Device, iev: InputEvent)
    ensures
        iev.code as int == ABS_X as int ==> {
            let n = absorb_axis_spec(d, iev);
            &&& n.lx == iev.value && n.ld
            &&& n.ly == d.ly && n.rx == d.rx && n.ry == d.ry && n.rd == d.rd
            &&& n.fd == d.fd && n.ufd == d.ufd
        },
        iev.code as int == ABS_Y as int ==> {
            let n = absorb_axis_spec(d, iev);
            &&& n.ly == iev.value && n.ld
            &&& n.lx == d.lx && n.rx == d.rx && n.ry == d.ry && n.rd == d.rd
            &&& n.fd == d.fd && n.ufd == d.ufd
        },
        iev.code as int == ABS_RX as int ==> {
            let n = absorb_axis_spec(d, iev);
            &&& n.rx == iev.value && n.rd
            &&& n.lx == d.lx && n.ly == d.ly && n.ry == d.ry && n.ld == d.ld
            &&& n.fd == d.fd && n.ufd == d.ufd
        },
        iev.code as int == ABS_RY as int ==> {
            let n = absorb_axis_spec(d, iev);
            &&& n.ry == iev.value && n.rd
            &&& n.lx == d.lx && n.ly == d.ly && n.rx == d.rx && n.ld == d.ld
            &&& n.fd == d.fd && n.ufd == d.ufd
        },
{
}

/// At the end of a report, a stick that moved and was not suppressed is
/// written on its own axes, with the report's time stamp and the position
/// the pipeline left: the left stick on `ABS_X` and `ABS_Y`, the right one
/// on `ABS_RX` and `ABS_RY`. When only one stick moved and the pipeline
/// emitted nothing for it, the report comes to the raw positions, that
/// stick's two axes and the report itself, in this order.
pub proof fn lemma_report_stick_axes(report: InputEvent, d: Device, left: StepState, right: StepState)
    ensures
        d.ld && !left.ctx.dropped ==> {
            let r = report_actions_spec(report, d, left, right);
            &&& r.contains(
                Action::Write(
                    InputEvent {
                        time: report.time,
                        type_: EV_ABS as u16,
                        code: ABS_X as u16,
                        value: event_x(left.event),
                    },
                ),
            )
            &&& r.contains(
                Action::Write(
                    InputEvent {
                        time: report.time,
                        type_: EV_ABS as u16,
                        code: ABS_Y as u16,
                        value: event_y(left.event),
                    },
                ),
            )
        },
        d.rd && !right.ctx.dropped ==> {
            let r = report_actions_spec(report, d, left, right);
            &&& r.contains(
                Action::Write(
                    InputEvent {
                        time: report.time,
                        type_: EV_ABS as u16,
                        code: ABS_RX as u16,
                        value: event_x(right.event),
                    },
                ),
            )
            &&& r.contains(
                Action::Write(
                    InputEvent {
                        time: report.time,
                        type_: EV_ABS as u16,
                        code: ABS_RY as u16,
                        value: event_y(right.event),
                    },
                ),
            )
        },
        d.ld && !d.rd && !left.ctx.dropped && left.ctx.emits.len() == 0 ==> report_actions_spec(
            report,
            d,
            left,
            right,
        ) == seq![
            Action::RecordRaw { lx: d.lx, ly: d.ly, rx: d.rx, ry: d.ry },
            Action::Write(
                InputEvent {
                    time: report.time,
                    type_: EV_ABS as u16,
                    code: ABS_X as u16,
                    value: event_x(left.event),
                },
            ),
            Action::Write(
                InputEvent {
                    time: report.time,
                    type_: EV_ABS as u16,
                    code: ABS_Y as u16,
                    value: event_y(left.event),
                },
            ),
            Action::Write(report),
        ],
        d.rd && !d.ld && !right.ctx.dropped && right.ctx.emits.len() == 0 ==> report_actions_spec(
            report,
            d,
            left,
            right,
        ) == seq![
            Action::RecordRaw { lx: d.lx, ly: d.ly, rx: d.rx, ry: d.ry },
            Action::Write(
                InputEvent {
                    time: report.time,
                    type_: EV_ABS as u16,
                    code: ABS_RX as u16,
                    value: event_x(right.event),
                },
            ),
            Action::Write(
                InputEvent {
                    time: report.time,
                    type_: EV_ABS as u16,
                    code: ABS_RY as u16,
                    value: event_y(right.event),
                },
            ),
            Action::Write(report),
        ],
{
    let raw = seq![Action::RecordRaw { lx: d.lx, ly: d.ly, rx: d.rx, ry: d.ry }];
    let (le, lc) = (left.event, left.ctx);
    let (re, rc) = (right.event, right.ctx);
    let ls = if d.ld {
        stick_actions_spec(report, Side::Left, le, lc.emits, lc.dropped)
    } else {
        Seq::empty()
    };
    let rs = if d.rd {
        stick_actions_spec(report, Side::Right, re, rc.emits, rc.dropped)
    } else {
        Seq::empty()
    };
    let r = report_actions_spec(report, d, left, right);
    assert(r == raw + ls + rs + seq![Action::Write(report)]);
    if d.ld && !left.ctx.dropped {
        assert(r[1] == ls[0]);
        assert(r[2] == ls[1]);
    }
    if d.rd && !right.ctx.dropped {
        assert(r[1 + ls.len() as int] == rs[0]);
        assert(r[2 + ls.len() as int] == rs[1]);
    }
    if d.ld && !d.rd && !left.ctx.dropped && left.ctx.emits.len() == 0 {
        assert(r =~= seq![r[0], ls[0], ls[1], Action::Write(report)]);
    }
    if d.rd && !d.ld && !right.ctx.dropped && right.ctx.emits.len() == 0 {
        assert(r =~= seq![r[0], rs[0], rs[1], Action::Write(report)]);
    }
}

/// Where an event read from the device goes, by its type and code: the four
/// stick axes are collected, `ABS_Z` is the left trigger and `ABS_RZ` the
/// right one, every key or button goes through the pipeline, and
/// `SYN_REPORT` closes a report.
pub proof fn lemma_route_cases(iev: InputEvent)
    ensures
        iev.type_ == EV_ABS as u16 && (iev.code == ABS_X as u16 || iev.code == ABS_Y as u16
            || iev.code == ABS_RX as u16 || iev.code == ABS_RY as u16) ==> route_spec(iev)
            == Route::Axis,
        iev.type_ == EV_ABS as u16 && iev.code == ABS_Z as u16 ==> route_spec(iev) == Route::Trigger(
            Side::Left,
        ),
        iev.type_ == EV_ABS as u16 && iev.code == ABS_RZ as u16 ==> route_spec(iev)
            == Route::Trigger(Side::Right),
        iev.type_ == EV_ABS as u16 && iev.code > ABS_RZ as u16 ==> route_spec(iev) == Route::Forward,
        iev.type_ == EV_KEY as u16 ==> route_spec(iev) == Route::Button,
        iev.type_ == EV_SYN as u16 && iev.code == SYN_REPORT as u16 ==> route_spec(iev)
            == Route::Report,
        iev.type_ == EV_SYN as u16 && iev.code != SYN_REPORT as u16 ==> route_spec(iev)
            == Route::Forward,
        iev.type_ != EV_ABS as u16 && iev.type_ != EV_KEY as u16 && iev.type_ != EV_SYN as u16
            ==> route_spec(iev) == Route::Forward,
{
}

/// An emitted event is written with the type, code and value the plugin
/// gave it and the time stamp of the event it was emitted for; its release
/// is scheduled, right after it, exactly when it is a key press
/// (`EV_KEY`, value 1) with a hold time.
pub proof fn lemma_emit_action_fields(template: InputEvent, e: EmitEvent)
    ensures
        ({
            let a = emit_action_spec(template, e);
            &&& a.len() >= 1
            &&& a[0] matches Action::Write(w) && w.time == template.time && w.type_ == e.ev_type
                && w.code == e.code && w.value == e.value
            &&& (a.len() == 2) == (e.ev_type == EV_KEY as u16 && e.value == 1 && e.hold_ms is Some)
            &&& a.len() <= 2
            &&& a.len() == 2 ==> a[1] == Action::ScheduleRelease {
                hold_ms: e.hold_ms->0,
                ev_type: e.ev_type,
                code: e.code,
            }
        }),
{
}

/// Unless it was suppressed, a trigger or button event is written last, with
/// the time stamp, type and code it was read with; a trigger carries the
/// value the pipeline left, a button 1 when the pipeline left it pressed and
/// 0 when not. A suppressed one is not written at all.
pub proof fn lemma_written_event_fields(iev: InputEvent, out: Event, emits: Seq<EmitEvent>, dropped: bool)
    ensures
        !dropped ==> {
            let t = trigger_actions_spec(iev, out, emits, dropped);
            &&& t.len() == emit_actions_spec(iev, emits).len() + 1
            &&& t.last() matches Action::Write(w) && w.time == iev.time && w.type_ == iev.type_
                && w.code == iev.code && w.value == event_value(out)
        },
        !dropped ==> {
            let b = button_actions_spec(iev, out, emits, dropped);
            &&& b.len() == emit_actions_spec(iev, emits).len() + 1
            &&& b.last() matches Action::Write(w) && w.time == iev.time && w.type_ == iev.type_
                && w.code == iev.code && (w.value == 1 || w.value == 0) && (w.value == 1)
                == event_pressed(out)
        },
        dropped ==> trigger_actions_spec(iev, out, emits, dropped).len() == emit_actions_spec(
            iev,
            emits,
        ).len(),
        dropped ==> button_actions_spec(iev, out, emits, dropped).len() == emit_actions_spec(
            iev,
            emits,
        ).len(),
{
}

/// A suppressed event is not written: only the events the plugins emitted
/// for it are.
pub proof fn lemma_dropped_event_not_written(
    iev: InputEvent,
    side: Side,
    out: Event,
    emits: Seq<EmitEvent>,
)
    ensures
        trigger_actions_spec(iev, out, emits, true) == emit_actions_spec(iev, emits),
        button_actions_spec(iev, out, emits, true) == emit_actions_spec(iev, emits),
        stick_actions_spec(iev, side, out, emits, true) == emit_actions_spec(iev, emits),
{
    assert(trigger_actions_spec(iev, out, emits, true) =~= emit_actions_spec(iev, emits));
    assert(button_actions_spec(iev, out, emits, true) =~= emit_actions_spec(iev, emits));
}

/// An event that leaves the pipeline as it entered it, with nothing emitted
/// and not suppressed, is written as it was read; a button is written as
/// pressed (1) or released (0).
pub proof fn lemma_untouched_event_passes(iev: InputEvent, side: Side)
    ensures
        trigger_actions_spec(iev, Event::Trigger { value: iev.value, side }, Seq::empty(), false)
            == seq![Action::Write(iev)],
        button_actions_spec(iev, button_event(iev), Seq::empty(), false) == seq![
            Action::Write(
                InputEvent {
                    value: if iev.value != 0 {
                        1i32
                    } else {
                        0i32
                    },
                    ..iev
                },
            ),
        ],
{
    assert(trigger_actions_spec(iev, Event::Trigger { value: iev.value, side }, Seq::empty(), false)
        =~= seq![Action::Write(iev)]);
    assert(button_actions_spec(iev, button_event(iev), Seq::empty(), false) =~= seq![
        Action::Write(
            InputEvent {
                value: if iev.value != 0 {
                    1i32
                } else {
                    0i32
                },
                ..iev
            },
        ),
    ]);
}

/// A release that is due leaves the queue with its two events, in the
/// order of scheduling.
pub proof fn lemma_due_release_taken(q: Seq<PendingRelease>, p: PendingRelease, now_us: u64)
    requires
        p.due_us <= now_us,
    ensures
        not_due_spec(q.push(p), now_us) == not_due_spec(q, now_us),
        due_events_spec(q.push(p), now_us) == due_events_spec(q, now_us) + release_events_spec(
            p.ev_type,
            p.code,
        ),
{
    assert(q.push(p).drop_last() =~= q);
    assert(not_due_spec(q.push(p), now_us) =~= not_due_spec(q, now_us));
}

} // verus!
