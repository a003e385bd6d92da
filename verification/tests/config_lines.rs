use keyforge::config::{
    config_path_from_args, parse_hex16, Config, ReloadPlan, DEFAULT_CONFIG_PATH, DEFAULT_PID,
    DEFAULT_PLUGIN_DIR, DEFAULT_VID,
};

fn lines(xs: &[&str]) -> Vec<String> {
    xs.iter().map(|x| x.to_string()).collect()
}

#[test]
fn hex_with_and_without_prefix() {
    assert_eq!(parse_hex16("0x045e"), 0x045e);
    assert_eq!(parse_hex16("045E"), 0x045e);
    assert_eq!(parse_hex16("ffff"), 0xffff);
    assert_eq!(parse_hex16("+ff"), 0xff);
    assert_eq!(parse_hex16("0x0000000001"), 1);
}

#[test]
fn hex_prefix_is_looked_for_after_trimming() {
    assert_eq!(parse_hex16("  0x28e  "), 0x028e);
    // without the prefix the untrimmed text is read, and white space is no digit
    assert_eq!(parse_hex16(" 28e"), 0);
}

#[test]
fn hex_errors_give_zero() {
    assert_eq!(parse_hex16(""), 0);
    assert_eq!(parse_hex16("0x"), 0);
    assert_eq!(parse_hex16("zz"), 0);
    assert_eq!(parse_hex16("0X12"), 0);
    assert_eq!(parse_hex16("10000"), 0);
    assert_eq!(parse_hex16("-1"), 0);
    assert_eq!(parse_hex16("+"), 0);
}

#[test]
fn defaults_without_lines() {
    let c = Config::from_lines(&Vec::new());
    assert_eq!(c.vid, DEFAULT_VID);
    assert_eq!(c.pid, DEFAULT_PID);
    assert_eq!(c.plugin_dir, DEFAULT_PLUGIN_DIR);
    assert_eq!(c.plugin_dir, "/sdcard/.keyforge/plugins");
    assert!(c.values.entries().is_empty());
    let d = Config::defaults();
    assert_eq!((d.vid, d.pid), (0x045e, 0x028e));
}

#[test]
fn ids_dir_and_settings() {
    let c = Config::from_lines(&lines(&[
        "vid=0x1234",
        "pid = 5678",
        "plugin_dir = /data/plugins ",
        "dz_left = 91",
    ]));
    assert_eq!(c.vid, 0x1234);
    assert_eq!(c.pid, 0x5678);
    assert_eq!(c.plugin_dir, "/data/plugins");
    assert_eq!(c.values.get("dz_left"), Some(&"91".to_string()));
    assert_eq!(c.values.get("vid"), None);
}

#[test]
fn comments_blank_and_bare_lines_are_skipped() {
    let c = Config::from_lines(&lines(&["# vid=0x1111", "", "   ", "  # x = 1", "novalue", "a=1"]));
    assert_eq!(c.vid, DEFAULT_VID);
    assert_eq!(c.values.entries(), &vec![("a".to_string(), "1".to_string())]);
}

#[test]
fn keys_are_lowercased_values_are_not() {
    let c = Config::from_lines(&lines(&["VID=0xABCD", "Mode = Fast", "PLUGIN_DIR=/X"]));
    assert_eq!(c.vid, 0xabcd);
    assert_eq!(c.values.get("mode"), Some(&"Fast".to_string()));
    assert_eq!(c.plugin_dir, "/X");
}

#[test]
fn split_at_first_equals() {
    let c = Config::from_lines(&lines(&["expr = a=b", "empty ="]));
    assert_eq!(c.values.get("expr"), Some(&"a=b".to_string()));
    assert_eq!(c.values.get("empty"), Some(&"".to_string()));
}

#[test]
fn later_lines_win() {
    let c = Config::from_lines(&lines(&["a=1", "vid=1", "a=2", "vid=2"]));
    assert_eq!(c.values.get("a"), Some(&"2".to_string()));
    assert_eq!(c.vid, 2);
}

#[test]
fn bad_id_gives_zero() {
    let c = Config::from_lines(&lines(&["vid=xyz"]));
    assert_eq!(c.vid, 0);
}

#[test]
fn apply_line_and_setting() {
    let mut c = Config::defaults();
    c.apply_line("  Foo = bar  ");
    assert_eq!(c.values.get("foo"), Some(&"bar".to_string()));
    c.apply_setting("pid".to_string(), "0x10".to_string());
    assert_eq!(c.pid, 0x10);
}

#[test]
fn reload_plan_cases() {
    let a = Config::from_lines(&lines(&["vid=1", "pid=2", "x=1", "y=2"]));
    let same = Config::from_lines(&lines(&["y=2", "x=1", "pid=2", "vid=1"]));
    assert_eq!(a.reload_plan(&same), ReloadPlan { reload: false, reconnect: false });
    let other_setting = Config::from_lines(&lines(&["vid=1", "pid=2", "x=9", "y=2"]));
    assert_eq!(a.reload_plan(&other_setting), ReloadPlan { reload: true, reconnect: false });
    let other_dir = Config::from_lines(&lines(&["vid=1", "pid=2", "x=1", "y=2", "plugin_dir=/p"]));
    assert_eq!(a.reload_plan(&other_dir), ReloadPlan { reload: true, reconnect: false });
    let other_pid = Config::from_lines(&lines(&["vid=1", "pid=3", "x=1", "y=2"]));
    assert_eq!(a.reload_plan(&other_pid), ReloadPlan { reload: true, reconnect: true });
}

#[test]
fn config_path_arguments() {
    assert_eq!(config_path_from_args(&Vec::new()), DEFAULT_CONFIG_PATH);
    assert_eq!(config_path_from_args(&lines(&["keyforge"])), DEFAULT_CONFIG_PATH);
    assert_eq!(config_path_from_args(&lines(&["keyforge", "--config", "/a.conf"])), "/a.conf");
    assert_eq!(
        config_path_from_args(&lines(&["keyforge", "--config", "/a", "--config", "/b"])),
        "/b"
    );
    assert_eq!(config_path_from_args(&lines(&["keyforge", "--config"])), DEFAULT_CONFIG_PATH);
    assert_eq!(config_path_from_args(&lines(&["--config", "/x"])), DEFAULT_CONFIG_PATH);
    assert_eq!(config_path_from_args(&lines(&["k", "-c", "/x"])), DEFAULT_CONFIG_PATH);
}

#[test]
fn reading_in_two_parts_is_reading_all() {
    let a = lines(&["vid=0x10", "x=1"]);
    let b = lines(&["x=2", "PID=20", "# c", "y=3"]);
    let mut all = a.clone();
    all.extend(b.clone());
    let whole = Config::from_lines(&all);
    let mut parts = Config::from_lines(&a);
    for l in &b {
        parts.apply_line(l);
    }
    assert_eq!((whole.vid, whole.pid), (parts.vid, parts.pid));
    assert_eq!(whole.plugin_dir, parts.plugin_dir);
    assert!(whole.values.same_as(&parts.values));
    assert_eq!(whole.values.get("x"), Some(&"2".to_string()));
}

#[test]
fn hex_formatting_round_trips() {
    for n in [0u16, 1, 9, 10, 15, 16, 0x045e, 0x028e, 0xabcd, 0xffff] {
        assert_eq!(parse_hex16(&format!("{:x}", n)), n);
        assert_eq!(parse_hex16(&format!("0x{:04X}", n)), n);
    }
}

#[test]
fn stored_keys_are_trimmed_lowercase_and_values_trimmed() {
    let c = Config::from_lines(&lines(&["  Dz_Left  =  91  ", "MODE=Fast", "  PLUGIN_DIR =  /p  "]));
    for (k, v) in c.values.entries() {
        assert_eq!(k, &k.trim().to_lowercase());
        assert!(!k.contains('='));
        assert_eq!(v, v.trim());
    }
    assert_eq!(c.values.get("dz_left"), Some(&"91".to_string()));
    assert_eq!(c.plugin_dir, "/p");
}

#[test]
fn device_released_only_on_reconnect_with_a_device() {
    let plan = ReloadPlan { reload: true, reconnect: true };
    assert!(plan.releases_device(true));
    assert!(!plan.releases_device(false));
    let plan = ReloadPlan { reload: true, reconnect: false };
    assert!(!plan.releases_device(true));
}

#[test]
fn ascii_keys_are_their_own_lower_case() {
    let c = Config::from_lines(&lines(&["  Mixed_CASE  = v", "A B = w"]));
    for (k, _) in c.values.entries() {
        assert_eq!(k, &k.to_lowercase());
        assert_eq!(k, k.trim());
    }
    assert_eq!(c.values.get("mixed_case"), Some(&"v".to_string()));
    assert_eq!(c.values.get("a b"), Some(&"w".to_string()));
}
