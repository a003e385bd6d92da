use keyforge::pipeline::{Ctx, EmitEvent, Event, EventFields, Pipeline, Processor, Side};
use keyforge::settings::Settings;

/// Doubles stick and trigger positions.
struct Doubler;

impl Processor for Doubler {
    fn id(&self) -> &str {
        "double"
    }

    fn process(&self, event: &mut Event, _ctx: &mut Ctx) {
        match event {
            Event::Stick { x, y, .. } => {
                *x *= 2;
                *y *= 2;
            }
            Event::Trigger { value, .. } => *value *= 2,
            Event::Button { .. } => {}
        }
    }
}

/// Adds one to stick and trigger positions.
struct AddOne;

impl Processor for AddOne {
    fn id(&self) -> &str {
        "add_one"
    }

    fn process(&self, event: &mut Event, _ctx: &mut Ctx) {
        match event {
            Event::Stick { x, y, .. } => {
                *x += 1;
                *y += 1;
            }
            Event::Trigger { value, .. } => *value += 1,
            Event::Button { .. } => {}
        }
    }
}

/// Remaps button 304 to 305: emits 305 and drops the original.
struct Remap;

impl Processor for Remap {
    fn id(&self) -> &str {
        "remap"
    }

    fn process(&self, event: &mut Event, ctx: &mut Ctx) {
        if let Event::Button { code: 304, pressed } = *event {
            ctx.push_emit(EmitEvent { ev_type: 1, code: 305, value: if pressed { 1 } else { 0 }, hold_ms: None });
            ctx.mark_dropped();
        }
    }
}

/// Records the setting `mark` as an emitted event value, when it is set.
struct ReadsSettings;

impl Processor for ReadsSettings {
    fn id(&self) -> &str {
        "reads"
    }

    fn process(&self, _event: &mut Event, ctx: &mut Ctx) {
        let v = ctx.settings.get("mark").map(|s| s.len() as i32).unwrap_or(-1);
        ctx.push_emit(EmitEvent { ev_type: 3, code: 0, value: v, hold_ms: None });
    }
}

fn pipeline_of(steps: Vec<Box<dyn Processor>>) -> Pipeline<Box<dyn Processor>> {
    let mut p = Pipeline::new();
    for s in steps {
        p.add(s);
    }
    p
}

#[test]
fn empty_pipeline_leaves_event_alone() {
    let p: Pipeline<Box<dyn Processor>> = Pipeline::new();
    let mut e = Event::Stick { x: 5, y: -7, side: Side::Left };
    let (emits, dropped) = p.run(&mut e, &Settings::new());
    assert!(emits.is_empty());
    assert!(!dropped);
    assert_eq!(e, Event::Stick { x: 5, y: -7, side: Side::Left });
    assert!(p.plugin_ids().is_empty());
}

#[test]
fn steps_run_in_order_each_on_what_the_last_left() {
    let p = pipeline_of(vec![Box::new(Doubler), Box::new(AddOne)]);
    let mut e = Event::Trigger { value: 10, side: Side::Right };
    p.run(&mut e, &Settings::new());
    assert_eq!(e, Event::Trigger { value: 21, side: Side::Right });

    let q = pipeline_of(vec![Box::new(AddOne), Box::new(Doubler)]);
    let mut e = Event::Trigger { value: 10, side: Side::Right };
    q.run(&mut e, &Settings::new());
    assert_eq!(e, Event::Trigger { value: 22, side: Side::Right });
}

#[test]
fn plugin_ids_in_order() {
    let p = pipeline_of(vec![Box::new(Doubler), Box::new(Remap), Box::new(AddOne)]);
    assert_eq!(p.plugin_ids(), vec!["double".to_string(), "remap".to_string(), "add_one".to_string()]);
}

#[test]
fn emits_and_drop_come_back() {
    let p = pipeline_of(vec![Box::new(Remap)]);
    let mut e = Event::Button { code: 304, pressed: true };
    let (emits, dropped) = p.run(&mut e, &Settings::new());
    assert!(dropped);
    assert_eq!(emits, vec![EmitEvent { ev_type: 1, code: 305, value: 1, hold_ms: None }]);

    let mut other = Event::Button { code: 300, pressed: true };
    let (emits, dropped) = p.run(&mut other, &Settings::new());
    assert!(!dropped);
    assert!(emits.is_empty());
}

#[test]
fn each_run_starts_with_a_fresh_context() {
    let p = pipeline_of(vec![Box::new(Remap)]);
    let mut e = Event::Button { code: 304, pressed: false };
    let _ = p.run(&mut e, &Settings::new());
    let mut e = Event::Button { code: 1, pressed: false };
    let (emits, dropped) = p.run(&mut e, &Settings::new());
    assert!(emits.is_empty());
    assert!(!dropped);
}

#[test]
fn steps_see_the_settings() {
    let p = pipeline_of(vec![Box::new(ReadsSettings)]);
    let mut s = Settings::new();
    s.insert("mark".to_string(), "abc".to_string());
    let mut e = Event::Button { code: 1, pressed: true };
    let (emits, _) = p.run(&mut e, &s);
    assert_eq!(emits[0].value, 3);
    let (emits, _) = p.run(&mut e, &Settings::new());
    assert_eq!(emits[0].value, -1);
}

#[test]
fn side_names() {
    assert_eq!(Side::Left.as_str(), "left");
    assert_eq!(Side::Right.as_str(), "right");
}

#[test]
fn event_accessors() {
    let s = Event::Stick { x: 3, y: -4, side: Side::Left };
    let t = Event::Trigger { value: 200, side: Side::Right };
    let b = Event::Button { code: 304, pressed: true };
    assert_eq!((s.x(), s.y(), s.value(), s.pressed()), (3, -4, 0, false));
    assert_eq!((t.x(), t.y(), t.value(), t.pressed()), (0, 0, 200, false));
    assert_eq!((b.x(), b.y(), b.value(), b.pressed()), (0, 0, 0, true));
}

#[test]
fn ctx_starts_fresh_and_records() {
    let mut s = Settings::new();
    s.insert("k".to_string(), "v".to_string());
    let mut c = Ctx::new(&s);
    assert!(c.emits.is_empty());
    assert!(!c.drop_original);
    assert!(c.settings.same_as(&s));
    let e = EmitEvent { ev_type: 1, code: 2, value: 1, hold_ms: Some(30) };
    c.push_emit(e);
    c.mark_dropped();
    assert_eq!(c.emits, vec![e]);
    assert!(c.drop_original);
}

#[test]
fn ids_after_add_are_appended() {
    let mut p = pipeline_of(vec![Box::new(Doubler)]);
    let before = p.plugin_ids();
    p.add(Box::new(AddOne));
    let mut expected = before.clone();
    expected.push("add_one".to_string());
    assert_eq!(p.plugin_ids(), expected);
}

#[test]
fn side_from_name() {
    assert_eq!(Side::from_name("right"), Side::Right);
    assert_eq!(Side::from_name("left"), Side::Left);
    assert_eq!(Side::from_name("RIGHT"), Side::Left);
    assert_eq!(Side::from_name(""), Side::Left);
}

#[test]
fn kind_names() {
    assert_eq!(Event::Stick { x: 0, y: 0, side: Side::Left }.kind_name(), "stick");
    assert_eq!(Event::Trigger { value: 0, side: Side::Left }.kind_name(), "trigger");
    assert_eq!(Event::Button { code: 0, pressed: false }.kind_name(), "button");
}

#[test]
fn fields_set_by_a_plugin() {
    let s = Event::Stick { x: 1, y: 2, side: Side::Left };
    assert_eq!(s.updated(&EventFields::default()), s);
    let f = EventFields { x: Some(9), side: Some(Side::Right), value: Some(5), pressed: Some(true), ..Default::default() };
    assert_eq!(s.updated(&f), Event::Stick { x: 9, y: 2, side: Side::Right });
    let t = Event::Trigger { value: 3, side: Side::Left };
    assert_eq!(t.updated(&f), Event::Trigger { value: 5, side: Side::Right });
    let b = Event::Button { code: 304, pressed: false };
    assert_eq!(b.updated(&f), Event::Button { code: 304, pressed: true });
    let g = EventFields { code: Some(305), ..Default::default() };
    assert_eq!(b.updated(&g), Event::Button { code: 305, pressed: false });
}
