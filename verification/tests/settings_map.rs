use keyforge::settings::Settings;

fn s(x: &str) -> String {
    x.to_string()
}

#[test]
fn new_is_empty() {
    let m = Settings::new();
    assert!(m.get("a").is_none());
    assert!(m.entries().is_empty());
}

#[test]
fn insert_then_get() {
    let mut m = Settings::new();
    m.insert(s("a"), s("1"));
    m.insert(s("b"), s("2"));
    assert_eq!(m.get("a"), Some(&s("1")));
    assert_eq!(m.get("b"), Some(&s("2")));
    assert_eq!(m.get("c"), None);
}

#[test]
fn insert_replaces_and_keeps_first_position() {
    let mut m = Settings::new();
    m.insert(s("a"), s("1"));
    m.insert(s("b"), s("2"));
    m.insert(s("a"), s("3"));
    assert_eq!(m.get("a"), Some(&s("3")));
    assert_eq!(m.entries(), &vec![(s("a"), s("3")), (s("b"), s("2"))]);
}

#[test]
fn same_as_ignores_order() {
    let mut m = Settings::new();
    m.insert(s("a"), s("1"));
    m.insert(s("b"), s("2"));
    let mut n = Settings::new();
    n.insert(s("b"), s("2"));
    n.insert(s("a"), s("1"));
    assert!(m.same_as(&n));
    n.insert(s("a"), s("9"));
    assert!(!m.same_as(&n));
    let mut o = Settings::new();
    o.insert(s("a"), s("1"));
    assert!(!m.same_as(&o));
    assert!(!o.same_as(&m));
}

#[test]
fn duplicate_is_equal() {
    let mut m = Settings::new();
    m.insert(s("x"), s("y"));
    let d = m.duplicate();
    assert!(d.same_as(&m));
    assert_eq!(d.get("x"), Some(&s("y")));
}

#[test]
fn keys_are_exact() {
    let mut m = Settings::new();
    m.insert(s("Key"), s("1"));
    assert_eq!(m.get("key"), None);
    assert_eq!(m.get("Key"), Some(&s("1")));
}
