//! Input events, the plugin context, and the ordered pipeline of processing
//! steps that every event goes through.
use vstd::prelude::*;
use crate::settings::Settings;

verus! {

/// Version of the plugin interface, as plugins read it.
pub const API_VERSION: &'static str = "1.0.0";

/// Which stick or trigger an event comes from.
#[derive(Clone, Copy, Debug, PartialEq, Eq)]
pub enum Side {
    Left,
    Right,
}

/// The name of a side as plugins see it.
pub open spec fn side_name(side: Side) -> Seq<char> {
    match side {
        Side::Left => seq!['l', 'e', 'f', 't'],
        Side::Right => seq!['r', 'i', 'g', 'h', 't'],
    }
}

impl Side {
    /// The side named `name`: `"right"` names the right side, any other
    /// text the left.
    pub fn from_name(name: &str) -> (r: Side)
        ensures
            r == (if name@ == side_name(Side::Right) {
                Side::Right
            } else {
                Side::Left
            }),
    {
        proof {
            reveal_strlit("right");
            assert("right"@ =~= side_name(Side::Right));
        }
        if String::from_str(name) == String::from_str("right") {
            Side::Right
        } else {
            Side::Left
        }
    }

    /// `"left"` or `"right"`.
    pub fn as_str(&self) -> (r: &'static str)
        ensures
            r@ == side_name(*self),
    {
        proof {
            reveal_strlit("left");
            reveal_strlit("right");
        }
        match self {
            Side::Left => {
                assert("left"@ =~= side_name(Side::Left));
                "left"
            },
            Side::Right => {
                assert("right"@ =~= side_name(Side::Right));
                "right"
            },
        }
    }
}

/// An event as it goes through the plugin pipeline.
#[derive(Clone, Copy, Debug, PartialEq, Eq)]
pub enum Event {
    /// Analog stick position.
    Stick { x: i32, y: i32, side: Side },
    /// Trigger position (left: `ABS_Z`, right: `ABS_RZ`).
    Trigger { value: i32, side: Side },
    /// Key or button state.
    Button { code: u16, pressed: bool },
}

/// The name of an event's kind as plugins see it.
pub open spec fn kind_name_spec(e: Event) -> Seq<char> {
    match e {
        Event::Stick { .. } => seq!['s', 't', 'i', 'c', 'k'],
        Event::Trigger { .. } => seq!['t', 'r', 'i', 'g', 'g', 'e', 'r'],
        Event::Button { .. } => seq!['b', 'u', 't', 't', 'o', 'n'],
    }
}

/// The fields that a plugin may set on the event it gives back; a field it
/// leaves out is `None`.
#[derive(Clone, Copy, Debug, PartialEq, Eq, Default)]
pub struct EventFields {
    pub x: Option<i32>,
    pub y: Option<i32>,
    pub value: Option<i32>,
    pub side: Option<Side>,
    pub code: Option<u16>,
    pub pressed: Option<bool>,
}

/// `v` unless `o` holds a value.
pub open spec fn or_keep<T>(o: Option<T>, v: T) -> T {
    match o {
        Some(a) => a,
        None => v,
    }
}

/// The event after a plugin set `f` on it: each field of the event's kind
/// that `f` holds replaces the event's; the kind never changes.
pub open spec fn updated_spec(e: Event, f: EventFields) -> Event {
    match e {
        Event::Stick { x, y, side } => Event::Stick {
            x: or_keep(f.x, x),
            y: or_keep(f.y, y),
            side: or_keep(f.side, side),
        },
        Event::Trigger { value, side } => Event::Trigger {
            value: or_keep(f.value, value),
            side: or_keep(f.side, side),
        },
        Event::Button { code, pressed } => Event::Button {
            code: or_keep(f.code, code),
            pressed: or_keep(f.pressed, pressed),
        },
    }
}

/// The trigger position of an event; 0 for any other kind.
pub open spec fn event_value(e: Event) -> i32 {
    match e {
        Event::Trigger { value, .. } => value,
        _ => 0,
    }
}

/// The horizontal stick position of an event; 0 for any other kind.
pub open spec fn event_x(e: Event) -> i32 {
    match e {
        Event::Stick { x, .. } => x,
        _ => 0,
    }
}

/// The vertical stick position of an event; 0 for any other kind.
pub open spec fn event_y(e: Event) -> i32 {
    match e {
        Event::Stick { y, .. } => y,
        _ => 0,
    }
}

/// Whether an event is a pressed button; false for any other kind.
pub open spec fn event_pressed(e: Event) -> bool {
    match e {
        Event::Button { pressed, .. } => pressed,
        _ => false,
    }
}

/// The key or button code of an event; 0 for any other kind.
pub open spec fn event_code(e: Event) -> u16 {
    match e {
        Event::Button { code, .. } => code,
        _ => 0,
    }
}

/// The side of a stick or trigger event; `None` for a button.
pub open spec fn event_side(e: Event) -> Option<Side> {
    match e {
        Event::Stick { side, .. } => Some(side),
        Event::Trigger { side, .. } => Some(side),
        Event::Button { .. } => None,
    }
}

/// What a plugin sets is what the event holds afterwards, field by field:
/// the event keeps its kind; a stick takes the `x`, `y` and `side` that the
/// plugin set and keeps the others; a trigger takes `value` and `side`; a
/// button takes `code` and `pressed`; fields of other kinds are ignored.
pub proof fn lemma_updated_fields(e: Event, f: EventFields)
    ensures
        (updated_spec(e, f) is Stick) == (e is Stick),
        (updated_spec(e, f) is Trigger) == (e is Trigger),
        (updated_spec(e, f) is Button) == (e is Button),
        e is Stick ==> event_x(updated_spec(e, f)) == (if f.x is Some {
            f.x->0
        } else {
            event_x(e)
        }),
        e is Stick ==> event_y(updated_spec(e, f)) == (if f.y is Some {
            f.y->0
        } else {
            event_y(e)
        }),
        e is Trigger ==> event_value(updated_spec(e, f)) == (if f.value is Some {
            f.value->0
        } else {
            event_value(e)
        }),
        !(e is Button) ==> event_side(updated_spec(e, f)) == (if f.side is Some {
            f.side
        } else {
            event_side(e)
        }),
        e is Button ==> event_code(updated_spec(e, f)) == (if f.code is Some {
            f.code->0
        } else {
            event_code(e)
        }),
        e is Button ==> event_pressed(updated_spec(e, f)) == (if f.pressed is Some {
            f.pressed->0
        } else {
            event_pressed(e)
        }),
{
}

impl Event {
    /// `"stick"`, `"trigger"` or `"button"`.
    pub fn kind_name(&self) -> (r: &'static str)
        ensures
            r@ == kind_name_spec(*self),
    {
        proof {
            reveal_strlit("stick");
            reveal_strlit("trigger");
            reveal_strlit("button");
        }
        match self {
            Event::Stick { .. } => {
                assert("stick"@ =~= kind_name_spec(*self));
                "stick"
            },
            Event::Trigger { .. } => {
                assert("trigger"@ =~= kind_name_spec(*self));
                "trigger"
            },
            Event::Button { .. } => {
                assert("button"@ =~= kind_name_spec(*self));
                "button"
            },
        }
    }

    /// The event after a plugin set the fields `f` on it.
    pub fn updated(&self, f: &EventFields) -> (r: Event)
        ensures
            r == updated_spec(*self, *f),
            (r is Stick) == (*self is Stick),
            (r is Trigger) == (*self is Trigger),
            (r is Button) == (*self is Button),
            *self is Stick ==> event_x(r) == (if f.x is Some {
                f.x->0
            } else {
                event_x(*self)
            }),
            *self is Stick ==> event_y(r) == (if f.y is Some {
                f.y->0
            } else {
                event_y(*self)
            }),
            *self is Trigger ==> event_value(r) == (if f.value is Some {
                f.value->0
            } else {
                event_value(*self)
            }),
            !(*self is Button) ==> event_side(r) == (if f.side is Some {
                f.side
            } else {
                event_side(*self)
            }),
            *self is Button ==> event_code(r) == (if f.code is Some {
                f.code->0
            } else {
                event_code(*self)
            }),
            *self is Button ==> event_pressed(r) == (if f.pressed is Some {
                f.pressed->0
            } else {
                event_pressed(*self)
            }),
    {
        match *self {
            Event::Stick { x, y, side } => Event::Stick {
                x: match f.x {
                    Some(a) => a,
                    None => x,
                },
                y: match f.y {
                    Some(a) => a,
                    None => y,
                },
                side: match f.side {
                    Some(a) => a,
                    None => side,
                },
            },
            Event::Trigger { value, side } => Event::Trigger {
                value: match f.value {
                    Some(a) => a,
                    None => value,
                },
                side: match f.side {
                    Some(a) => a,
                    None => side,
                },
            },
            Event::Button { code, pressed } => Event::Button {
                code: match f.code {
                    Some(a) => a,
                    None => code,
                },
                pressed: match f.pressed {
                    Some(a) => a,
                    None => pressed,
                },
            },
        }
    }

    /// The trigger position; 0 for any other kind.
    pub fn value(&self) -> (r: i32)
        ensures
            r == event_value(*self),
    {
        match self {
            Event::Trigger { value, .. } => *value,
            _ => 0,
        }
    }

    /// The horizontal stick position; 0 for any other kind.
    pub fn x(&self) -> (r: i32)
        ensures
            r == event_x(*self),
    {
        match self {
            Event::Stick { x, .. } => *x,
            _ => 0,
        }
    }

    /// The vertical stick position; 0 for any other kind.
    pub fn y(&self) -> (r: i32)
        ensures
            r == event_y(*self),
    {
        match self {
            Event::Stick { y, .. } => *y,
            _ => 0,
        }
    }

    /// Whether the button is pressed; false for any other kind.
    pub fn pressed(&self) -> (r: bool)
        ensures
            r == event_pressed(*self),
    {
        match self {
            Event::Button { pressed, .. } => *pressed,
            _ => false,
        }
    }
}

/// An evdev event that a plugin asks to write.
#[derive(Clone, Copy, Debug, PartialEq, Eq)]
pub struct EmitEvent {
    /// `EV_ABS` or `EV_KEY`.
    pub ev_type: u16,
    pub code: u16,
    pub value: i32,
    /// When set on a key press (`EV_KEY`, value 1), the key is released
    /// after this many milliseconds.
    pub hold_ms: Option<u64>,
}

/// What the steps of a pipeline share while one event goes through it.
pub struct Ctx {
    /// The plugin settings.
    pub settings: Settings,
    /// The events that steps asked to write, in order.
    pub emits: Vec<EmitEvent>,
    /// Whether a step asked to suppress the event.
    pub drop_original: bool,
}

/// A context as plain values.
pub struct CtxModel {
    pub settings: Map<Seq<char>, Seq<char>>,
    pub emits: Seq<EmitEvent>,
    pub dropped: bool,
}

impl View for Ctx {
    type V = CtxModel;

    open spec fn view(&self) -> CtxModel {
        CtxModel { settings: self.settings@, emits: self.emits@, dropped: self.drop_original }
    }
}

/// The context in which an event enters the pipeline.
pub open spec fn fresh_ctx(settings: Map<Seq<char>, Seq<char>>) -> CtxModel {
    CtxModel { settings, emits: Seq::empty(), dropped: false }
}

impl Ctx {
    /// A context with the given settings, no events to write, and the
    /// event not suppressed.
    pub fn new(settings: &Settings) -> (r: Ctx)
        ensures
            r@ == fresh_ctx(settings@),
    {
        Ctx { settings: settings.duplicate(), emits: Vec::new(), drop_original: false }
    }

    /// Adds an event to write after those already asked for.
    pub fn push_emit(&mut self, e: EmitEvent)
        ensures
            final(self)@ == (CtxModel { emits: old(self)@.emits.push(e), ..old(self)@ }),
    {
        self.emits.push(e);
    }

    /// Suppresses the event that goes through the pipeline.
    pub fn mark_dropped(&mut self)
        ensures
            final(self)@ == (CtxModel { dropped: true, ..old(self)@ }),
    {
        self.drop_original = true;
    }
}

/// An event together with the context it is in.
pub struct StepState {
    pub event: Event,
    pub ctx: CtxModel,
}

/// The state of an event `e` in context `c`.
pub open spec fn step_state(e: Event, c: CtxModel) -> StepState {
    StepState { event: e, ctx: c }
}

/// A processing step of the pipeline: one plugin.
///
/// Implementations live with the plugin host. An implementation may define
/// `may_step`, the changes that one call of `process` may make to an event
/// and its context, and `may_be_id`, the ids it may give; by default they
/// allow anything. The pipeline's contracts speak of steps only through them.
pub trait Processor: Send + Sync {
    /// Whether `id` may be the step's id.
    open spec fn may_be_id(&self, id: Seq<char>) -> bool {
        true
    }

    /// Whether one call of `process` may take `before` to `after`.
    open spec fn may_step(&self, before: StepState, after: StepState) -> bool {
        true
    }

    /// The step's id.
    fn id(&self) -> (r: &str)
        ensures
            self.may_be_id(r@),
    ;

    /// Processes one event: may change it, and may add events to write or
    /// suppress it through the context.
    fn process(&self, event: &mut Event, ctx: &mut Ctx)
        ensures
            self.may_step(step_state(*old(event), old(ctx)@), step_state(*final(event), final(ctx)@)),
    ;
}

/// A boxed processor is a processor: it steps as the processor in the box.
impl Processor for Box<dyn Processor> {
    open spec fn may_be_id(&self, id: Seq<char>) -> bool {
        (**self).may_be_id(id)
    }

    open spec fn may_step(&self, before: StepState, after: StepState) -> bool {
        (**self).may_step(before, after)
    }

    fn id(&self) -> (r: &str) {
        (**self).id()
    }

    fn process(&self, event: &mut Event, ctx: &mut Ctx) {
        (**self).process(event, ctx)
    }
}

/// Whether `trace` is a run of `steps` from `start` to `end`: each step takes
/// the state the previous one left.
pub open spec fn is_trace<P: Processor>(
    steps: Seq<P>,
    trace: Seq<StepState>,
    start: StepState,
    end: StepState,
) -> bool {
    &&& trace.len() == steps.len() + 1
    &&& trace[0] == start
    &&& trace.last() == end
    &&& forall|i: int|
        #![trigger steps[i]]
        0 <= i < steps.len() ==> steps[i].may_step(trace[i], trace[i + 1])
}

/// Whether running `steps` in order may take `start` to `end`.
pub open spec fn may_run<P: Processor>(steps: Seq<P>, start: StepState, end: StepState) -> bool {
    exists|trace: Seq<StepState>| is_trace(steps, trace, start, end)
}

/// The ordered steps that every event goes through.
pub struct Pipeline<P: Processor> {
    steps: Vec<P>,
}

impl<P: Processor> Pipeline<P> {
    /// The steps, in order.
    pub closed spec fn steps(&self) -> Seq<P> {
        self.steps@
    }

    /// A pipeline without steps.
    pub fn new() -> (r: Pipeline<P>)
        ensures
            r.steps().len() == 0,
    {
        Pipeline { steps: Vec::new() }
    }

    /// Adds a step after the others.
    pub fn add(&mut self, p: P)
        ensures
            final(self).steps() == old(self).steps().push(p),
    {
        self.steps.push(p);
    }

    /// Runs `event` through every step in order, in a fresh context with a
    /// copy of `settings`, and gives back the events the steps asked to write
    /// and whether one asked to suppress the event. `event` is left as the
    /// last step left it.
    pub fn run(&self, event: &mut Event, settings: &Settings) -> (r: (Vec<EmitEvent>, bool))
        ensures
            exists|end: StepState|
                {
                    &&& #[trigger] may_run(
                        self.steps(),
                        step_state(*old(event), fresh_ctx(settings@)),
                        end,
                    )
                    &&& *final(event) == end.event
                    &&& r.0@ == end.ctx.emits
                    &&& r.1 == end.ctx.dropped
                },
    {
        let ghost start = step_state(*event, fresh_ctx(settings@));
        let mut ctx = Ctx::new(settings);
        let ghost mut trace: Seq<StepState> = seq![start];
        let mut i: usize = 0;
        while i < self.steps.len()
            invariant
                i <= self.steps@.len(),
                trace.len() == i + 1,
                trace[0] == start,
                trace.last() == step_state(*event, ctx@),
                forall|j: int|
                    #![trigger self.steps@[j]]
                    0 <= j < i ==> self.steps@[j].may_step(trace[j], trace[j + 1]),
            decreases self.steps@.len() - i,
        {
            self.steps[i].process(event, &mut ctx);
            proof {
                let old_trace = trace;
                trace = trace.push(step_state(*event, ctx@));
                assert forall|j: int|
                    #![trigger self.steps@[j]]
                    0 <= j < i + 1 implies self.steps@[j].may_step(trace[j], trace[j + 1]) by {
                    if j < i {
                        assert(trace[j] == old_trace[j]);
                        assert(trace[j + 1] == old_trace[j + 1]);
                    }
                }
            }
            i = i + 1;
        }
        let ghost end = step_state(*event, ctx@);
        assert(is_trace(self.steps@, trace, start, end));
        assert(may_run(self.steps(), start, end));
        (ctx.emits, ctx.drop_original)
    }

    /// The ids of the steps, in order.
    pub fn plugin_ids(&self) -> (r: Vec<String>)
        ensures
            r@.len() == self.steps().len(),
            forall|i: int| 0 <= i < r@.len() ==> #[trigger] self.steps()[i].may_be_id(r@[i]@),
    {
        let mut r: Vec<String> = Vec::new();
        let mut i: usize = 0;
        while i < self.steps.len()
            invariant
                i <= self.steps@.len(),
                r@.len() == i,
                forall|j: int| 0 <= j < i ==> #[trigger] self.steps@[j].may_be_id(r@[j]@),
            decreases self.steps@.len() - i,
        {
            let id = self.steps[i].id();
            r.push(String::from_str(id));
            i = i + 1;
        }
        r
    }
}

/// A pipeline without steps gives back the event and the context as they
/// entered it.
pub proof fn lemma_empty_pipeline_is_identity<P: Processor>(
    steps: Seq<P>,
    start: StepState,
    end: StepState,
)
    requires
        steps.len() == 0,
        may_run(steps, start, end),
    ensures
        end == start,
{
    let trace = choose|trace: Seq<StepState>| is_trace(steps, trace, start, end);
    assert(trace[0] == trace.last());
}

/// Steps run in the order they were added, each on what the one before it
/// left: running `steps` and then `p` is running `steps.push(p)`.
pub proof fn lemma_pipeline_runs_in_order<P: Processor>(
    steps: Seq<P>,
    p: P,
    start: StepState,
    end: StepState,
)
    ensures
        may_run(steps.push(p), start, end) <==> exists|mid: StepState|
            #[trigger] may_run(steps, start, mid) && p.may_step(mid, end),
{
    let all = steps.push(p);
    if may_run(all, start, end) {
        let trace = choose|trace: Seq<StepState>| is_trace(all, trace, start, end);
        let front = trace.drop_last();
        let mid = front.last();
        assert forall|i: int| #![trigger steps[i]] 0 <= i < steps.len() implies steps[i].may_step(
            front[i],
            front[i + 1],
        ) by {
            assert(all[i] == steps[i]);
        }
        assert(is_trace(steps, front, start, mid));
        assert(all[steps.len() as int] == p);
        assert(may_run(steps, start, mid) && p.may_step(mid, end));
    }
    if exists|mid: StepState| #[trigger] may_run(steps, start, mid) && p.may_step(mid, end) {
        let mid = choose|mid: StepState| #[trigger] may_run(steps, start, mid) && p.may_step(mid, end);
        let front = choose|trace: Seq<StepState>| is_trace(steps, trace, start, mid);
        let trace = front.push(end);
        assert forall|i: int| #![trigger all[i]] 0 <= i < all.len() implies all[i].may_step(
            trace[i],
            trace[i + 1],
        ) by {
            if i < steps.len() {
                assert(all[i] == steps[i]);
            } else {
                assert(all[i] == p);
            }
        }
        assert(is_trace(all, trace, start, end));
    }
}

} // verus!

verus! {

/// Whether step `p` gives one id only.
pub open spec fn pins_id<P: Processor>(p: P) -> bool {
    forall|a: Seq<char>, b: Seq<char>| #[trigger] p.may_be_id(a) && #[trigger] p.may_be_id(b) ==> a == b
}

/// Whether `ids` are ids that `steps` may give, one for each, in order, as
/// `plugin_ids` gives them back.
pub open spec fn ids_of<P: Processor>(steps: Seq<P>, ids: Seq<Seq<char>>) -> bool {
    &&& ids.len() == steps.len()
    &&& forall|i: int| 0 <= i < steps.len() ==> #[trigger] steps[i].may_be_id(ids[i])
}

/// Adding a step appends its id to the ids, and keeps the others in order,
/// for steps that each give one id only.
pub proof fn lemma_ids_after_add<P: Processor>(
    steps: Seq<P>,
    q: P,
    before: Seq<Seq<char>>,
    after: Seq<Seq<char>>,
    qid: Seq<char>,
)
    requires
        ids_of(steps, before),
        ids_of(steps.push(q), after),
        q.may_be_id(qid),
        forall|i: int| 0 <= i < steps.len() ==> pins_id(#[trigger] steps[i]),
        pins_id(q),
    ensures
        after == before.push(qid),
{
    let all = steps.push(q);
    assert forall|i: int| 0 <= i < after.len() implies #[trigger] after[i] == before.push(qid)[i] by {
        if i < steps.len() {
            assert(all[i] == steps[i]);
            assert(all[i].may_be_id(after[i]));
            assert(pins_id(steps[i]));
            assert(steps[i].may_be_id(before[i]));
        } else {
            assert(all[i] == q);
            assert(q.may_be_id(after[i]));
        }
    }
    assert(after =~= before.push(qid));
}

} // verus!
