//! The daemon's configuration: `key = value` lines.
//!
//! Blank lines and lines that begin with `#` are skipped, as are lines
//! without `=`. Keys are compared in lower case; `vid` and `pid` take a
//! hexadecimal number (with or without `0x`), `plugin_dir` a path, and every
//! other key is kept as a plugin setting. A later line overrides an earlier
//! one.
use vstd::prelude::*;
use crate::settings::Settings;
use crate::text::{
    all_ascii, all_digits, ascii_lower_text, char_pos, digit_value, digits_value, is_white_space,
    unsigned_digits, has_prefix, lemma_char_pos, lemma_char_pos_none,
    lemma_trim_fixed, lemma_trim_idempotent, lemma_trim_is_piece, parse_u16_spec, str_lowercase,
    str_split_once, str_strip_prefix, str_to_lowercase, str_trim, trim_spec, u16_from_str_radix,
};

verus! {

/// Vendor id looked for when the configuration names none.
pub const DEFAULT_VID: u16 = 0x045e;

/// Product id looked for when the configuration names none.
pub const DEFAULT_PID: u16 = 0x028e;

/// Plugin directory used when the configuration names none.
pub const DEFAULT_PLUGIN_DIR: &'static str = "/sdcard/.keyforge/plugins";

/// Where the configuration is read from when no `--config` is given.
pub const DEFAULT_CONFIG_PATH: &'static str = "/sdcard/.keyforge/keyforge.conf";

/// The daemon's configuration.
pub struct Config {
    pub vid: u16,
    pub pid: u16,
    pub plugin_dir: String,
    pub values: Settings,
}

/// A configuration as plain values.
pub struct ConfigModel {
    pub vid: u16,
    pub pid: u16,
    pub plugin_dir: Seq<char>,
    pub values: Map<Seq<char>, Seq<char>>,
}

impl View for Config {
    type V = ConfigModel;

    open spec fn view(&self) -> ConfigModel {
        ConfigModel {
            vid: self.vid,
            pid: self.pid,
            plugin_dir: self.plugin_dir@,
            values: self.values@,
        }
    }
}

/// The text `vid`.
pub open spec fn vid_key() -> Seq<char> {
    seq!['v', 'i', 'd']
}

/// The text `pid`.
pub open spec fn pid_key() -> Seq<char> {
    seq!['p', 'i', 'd']
}

/// The text `plugin_dir`.
pub open spec fn plugin_dir_key() -> Seq<char> {
    seq!['p', 'l', 'u', 'g', 'i', 'n', '_', 'd', 'i', 'r']
}

/// The text `0x`.
pub open spec fn hex_prefix() -> Seq<char> {
    seq!['0', 'x']
}

/// The configuration in force when no line has been read.
pub open spec fn default_model() -> ConfigModel {
    ConfigModel {
        vid: DEFAULT_VID,
        pid: DEFAULT_PID,
        plugin_dir: DEFAULT_PLUGIN_DIR@,
        values: Map::empty(),
    }
}

/// The number that a `vid` or `pid` value stands for: the text, trimmed,
/// without a leading `0x`, read as a hexadecimal `u16`; 0 when it is none.
/// Without `0x` the untrimmed text is read.
pub open spec fn parse_hex16_spec(s: Seq<char>) -> u16 {
    let t = trim_spec(s);
    let digits = if has_prefix(t, hex_prefix()) {
        t.skip(2)
    } else {
        s
    };
    match parse_u16_spec(digits, 16) {
        Some(v) => v,
        None => 0,
    }
}

/// The key and the value that a line sets, before the key is put in lower
/// case, or `None` for a line that sets nothing.
pub open spec fn line_entry(line: Seq<char>) -> Option<(Seq<char>, Seq<char>)> {
    let t = trim_spec(line);
    if t.len() == 0 || t[0] == '#' {
        None
    } else {
        match char_pos(t, '=') {
            None => None,
            Some(i) => Some(
                (trim_spec(t.subrange(0, i as int)), trim_spec(t.subrange(i as int + 1, t.len() as int))),
            ),
        }
    }
}

/// The configuration after setting `key` (in lower case) to `val`.
pub open spec fn apply_setting_spec(m: ConfigModel, key: Seq<char>, val: Seq<char>) -> ConfigModel {
    if key == vid_key() {
        ConfigModel { vid: parse_hex16_spec(val), ..m }
    } else if key == pid_key() {
        ConfigModel { pid: parse_hex16_spec(val), ..m }
    } else if key == plugin_dir_key() {
        ConfigModel { plugin_dir: val, ..m }
    } else {
        ConfigModel { values: m.values.insert(key, val), ..m }
    }
}

/// A key in lower case: ASCII letters lowered one by one; any other text as
/// `str::to_lowercase` gives it.
pub open spec fn lower_key(k: Seq<char>) -> Seq<char> {
    if all_ascii(k) {
        ascii_lower_text(k)
    } else {
        str_lowercase(k)
    }
}

/// The configuration after reading `line`.
pub open spec fn apply_line_spec(m: ConfigModel, line: Seq<char>) -> ConfigModel {
    match line_entry(line) {
        None => m,
        Some((k, v)) => apply_setting_spec(m, lower_key(k), v),
    }
}

/// The configuration after reading `lines` in order from `m`.
pub open spec fn apply_lines_spec(m: ConfigModel, lines: Seq<Seq<char>>) -> ConfigModel
    decreases lines.len(),
{
    if lines.len() == 0 {
        m
    } else {
        apply_line_spec(apply_lines_spec(m, lines.drop_last()), lines.last())
    }
}

/// Whether `k` can be the key of a plugin setting: not one of the keys the
/// daemon reads itself, and the lower case of a key that a line gives, which
/// is trimmed and holds no `=`.
pub open spec fn stored_key(k: Seq<char>) -> bool {
    &&& k != vid_key()
    &&& k != pid_key()
    &&& k != plugin_dir_key()
    &&& exists|k0: Seq<char>|
        trim_spec(k0) == k0 && char_pos(k0, '=') is None && #[trigger] lower_key(k0) == k
}

/// Whether a configuration is one that reading lines can give: a trimmed
/// plugin directory, and settings whose keys are stored keys and whose values
/// are trimmed.
pub open spec fn config_well_formed(m: ConfigModel) -> bool {
    &&& trim_spec(m.plugin_dir) == m.plugin_dir
    &&& forall|k: Seq<char>| #[trigger]
        m.values.contains_key(k) ==> stored_key(k) && trim_spec(m.values[k]) == m.values[k]
}

/// Whether every key of the settings is ASCII, trimmed, without `=`, and
/// its own lower case.
pub open spec fn ascii_keys_settled(m: ConfigModel) -> bool {
    forall|k: Seq<char>| #[trigger]
        m.values.contains_key(k) ==> all_ascii(k) && trim_spec(k) == k && char_pos(k, '=') is None
            && lower_key(k) == k
}

/// Whether every line is ASCII.
pub open spec fn all_ascii_lines(lines: Seq<Seq<char>>) -> bool {
    forall|i: int| 0 <= i < lines.len() ==> all_ascii(#[trigger] lines[i])
}

/// The texts of a list of strings.
pub open spec fn string_views(v: Seq<String>) -> Seq<Seq<char>> {
    v.map_values(|s: String| s@)
}

/// Reads a `vid` or `pid` value: hexadecimal, with or without `0x`; 0 when
/// it is no number that fits in 16 bits.
pub fn parse_hex16(s: &str) -> (r: u16)
    ensures
        r == parse_hex16_spec(s@),
{
    proof {
        reveal_strlit("0x");
        assert("0x"@ =~= hex_prefix());
    }
    let digits = match str_strip_prefix(str_trim(s), "0x") {
        Some(rest) => rest,
        None => s,
    };
    match u16_from_str_radix(digits, 16) {
        Ok(v) => v,
        Err(_) => 0,
    }
}

/// What the daemon does when the configuration file has changed.
#[derive(Clone, Copy, Debug, PartialEq, Eq)]
pub struct ReloadPlan {
    /// Take the new configuration and rebuild the plugin pipeline.
    pub reload: bool,
    /// Release the device, to look for the newly named one.
    pub reconnect: bool,
}

impl ReloadPlan {
    /// Whether the device in use (if `have_device`) is to be released.
    pub fn releases_device(&self, have_device: bool) -> (r: bool)
        ensures
            r == (self.reconnect && have_device),
    {
        self.reconnect && have_device
    }
}

impl Config {
    /// The configuration in force when no line has been read.
    pub fn defaults() -> (r: Config)
        ensures
            r@ == default_model(),
    {
        Config {
            vid: DEFAULT_VID,
            pid: DEFAULT_PID,
            plugin_dir: String::from_str(DEFAULT_PLUGIN_DIR),
            values: Settings::new(),
        }
    }

    /// Sets `key`, already in lower case, to `val`.
    pub fn apply_setting(&mut self, key: String, val: String)
        ensures
            final(self)@ == apply_setting_spec(old(self)@, key@, val@),
    {
        proof {
            reveal_strlit("vid");
            reveal_strlit("pid");
            reveal_strlit("plugin_dir");
            assert("vid"@ =~= vid_key());
            assert("pid"@ =~= pid_key());
            assert("plugin_dir"@ =~= plugin_dir_key());
        }
        if key == String::from_str("vid") {
            self.vid = parse_hex16(val.as_str());
        } else if key == String::from_str("pid") {
            self.pid = parse_hex16(val.as_str());
        } else if key == String::from_str("plugin_dir") {
            self.plugin_dir = val;
        } else {
            self.values.insert(key, val);
        }
    }

    /// Reads one line of a configuration.
    pub fn apply_line(&mut self, line: &str)
        ensures
            final(self)@ == apply_line_spec(old(self)@, line@),
    {
        let t = str_trim(line);
        if t.is_empty() {
            return;
        }
        if t.get_char(0) == '#' {
            return;
        }
        match str_split_once(t, '=') {
            None => {},
            Some((k, v)) => {
                let key = str_to_lowercase(str_trim(k));
                let val = String::from_str(str_trim(v));
                self.apply_setting(key, val);
            },
        }
    }

    /// The configuration that `lines` give, read in order from the
    /// defaults.
    pub fn from_lines(lines: &Vec<String>) -> (r: Config)
        ensures
            r@ == apply_lines_spec(default_model(), string_views(lines@)),
            config_well_formed(r@),
            all_ascii_lines(string_views(lines@)) ==> ascii_keys_settled(r@),
    {
        let mut cfg = Config::defaults();
        let mut i: usize = 0;
        while i < lines.len()
            invariant
                i <= lines@.len(),
                cfg@ == apply_lines_spec(default_model(), string_views(lines@).take(i as int)),
            decreases lines@.len() - i,
        {
            let ghost before = string_views(lines@).take(i as int);
            cfg.apply_line(lines[i].as_str());
            proof {
                let after = string_views(lines@).take(i + 1);
                assert(after.drop_last() =~= before);
                assert(after.last() == lines@[i as int]@);
            }
            i = i + 1;
        }
        proof {
            assert(string_views(lines@).take(lines@.len() as int) =~= string_views(lines@));
            lemma_lines_well_formed(string_views(lines@));
            if all_ascii_lines(string_views(lines@)) {
                lemma_ascii_lines_settled(string_views(lines@));
            }
        }
        cfg
    }

    /// What to do when `fresh` has been read in place of `self`: reload when
    /// anything changed, and reconnect when the device ids changed.
    pub fn reload_plan(&self, fresh: &Config) -> (r: ReloadPlan)
        ensures
            r.reconnect == (fresh.vid != self.vid || fresh.pid != self.pid),
            r.reload == (r.reconnect || fresh@.values != self@.values || fresh@.plugin_dir
                != self@.plugin_dir),
    {
        let reconnect = fresh.vid != self.vid || fresh.pid != self.pid;
        let settings_changed = !fresh.values.same_as(&self.values) || fresh.plugin_dir
            != self.plugin_dir;
        ReloadPlan { reload: reconnect || settings_changed, reconnect }
    }
}

/// A line that is blank or begins with `#`, once trimmed, leaves the
/// configuration as it was.
pub proof fn lemma_comment_lines_ignored(m: ConfigModel, line: Seq<char>)
    requires
        trim_spec(line).len() == 0 || trim_spec(line)[0] == '#',
    ensures
        apply_line_spec(m, line) == m,
{
}

/// A line without `=` leaves the configuration as it was.
pub proof fn lemma_lines_without_equals_ignored(m: ConfigModel, line: Seq<char>)
    requires
        char_pos(trim_spec(line), '=') is None,
    ensures
        apply_line_spec(m, line) == m,
{
}

/// The last line that sets a plugin setting decides its value: after a line
/// `k = v` whose key is not `vid`, `pid` or `plugin_dir`, the settings hold
/// `v` for `k`, whatever came before, and lines that set other keys keep it.
pub proof fn lemma_last_setting_wins(m: ConfigModel, line: Seq<char>, k: Seq<char>, v: Seq<char>)
    requires
        line_entry(line) == Some((k, v)),
        lower_key(k) != vid_key(),
        lower_key(k) != pid_key(),
        lower_key(k) != plugin_dir_key(),
    ensures
        apply_line_spec(m, line).values == m.values.insert(lower_key(k), v),
        apply_line_spec(m, line).vid == m.vid,
        apply_line_spec(m, line).pid == m.pid,
        apply_line_spec(m, line).plugin_dir == m.plugin_dir,
{
}

/// Reading lines one after another is reading them together: the
/// configuration after `a` and then `b` is the one after `a + b`.
pub proof fn lemma_apply_lines_concat(m: ConfigModel, a: Seq<Seq<char>>, b: Seq<Seq<char>>)
    ensures
        apply_lines_spec(apply_lines_spec(m, a), b) == apply_lines_spec(m, a + b),
    decreases b.len(),
{
    if b.len() == 0 {
        assert(a + b =~= a);
    } else {
        lemma_apply_lines_concat(m, a, b.drop_last());
        assert((a + b).drop_last() =~= a + b.drop_last());
        assert((a + b).last() == b.last());
    }
}

} // verus!

verus! {

/// The text `--config`.
pub open spec fn config_flag() -> Seq<char> {
    seq!['-', '-', 'c', 'o', 'n', 'f', 'i', 'g']
}

/// The configuration path that the arguments from position `i` on choose,
/// `cur` being the one chosen before: each `--config` followed by a value
/// chooses that value, and the last such pair wins.
pub open spec fn config_path_spec(args: Seq<Seq<char>>, i: int, cur: Seq<char>) -> Seq<char>
    decreases args.len() - i,
{
    if i >= args.len() {
        cur
    } else if args[i] == config_flag() && i + 1 < args.len() {
        config_path_spec(args, i + 2, args[i + 1])
    } else {
        config_path_spec(args, i + 1, cur)
    }
}

/// The configuration path that the command line `args` (the program's name
/// first) chooses: the value after the last `--config`, or
/// `DEFAULT_CONFIG_PATH`.
pub fn config_path_from_args(args: &Vec<String>) -> (r: String)
    ensures
        r@ == config_path_spec(string_views(args@), 1, DEFAULT_CONFIG_PATH@),
{
    proof {
        reveal_strlit("--config");
        assert("--config"@ =~= config_flag());
    }
    let ghost views = string_views(args@);
    let flag = String::from_str("--config");
    let mut path = String::from_str(DEFAULT_CONFIG_PATH);
    let mut i: usize = 1;
    while i < args.len()
        invariant
            1 <= i,
            views == string_views(args@),
            flag@ == config_flag(),
            config_path_spec(views, 1, DEFAULT_CONFIG_PATH@) == config_path_spec(views, i as int, path@),
        decreases args@.len() - i,
    {
        if args[i] == flag && i + 1 < args.len() {
            i = i + 1;
            path = args[i].clone();
        }
        i = i + 1;
    }
    path
}

/// The defaults are well formed.
pub proof fn lemma_default_well_formed()
    ensures
        config_well_formed(default_model()),
{
    reveal_strlit("/sdcard/.keyforge/plugins");
    let d = DEFAULT_PLUGIN_DIR@;
    assert(d[0] == '/');
    assert(d.last() == 's');
    lemma_trim_fixed(d);
}

/// Reading a line keeps a configuration well formed.
pub proof fn lemma_line_keeps_well_formed(m: ConfigModel, line: Seq<char>)
    requires
        config_well_formed(m),
    ensures
        config_well_formed(apply_line_spec(m, line)),
{
    if let Some((k, v)) = line_entry(line) {
        let t = trim_spec(line);
        let i = char_pos(t, '=')->0;
        let head = t.subrange(0, i as int);
        let tail = t.subrange(i as int + 1, t.len() as int);
        assert(k == trim_spec(head));
        assert(v == trim_spec(tail));
        lemma_trim_idempotent(head);
        lemma_trim_idempotent(tail);
        lemma_char_pos(t, '=');
        lemma_trim_is_piece(head);
        let (a, b) = choose|a: int, b: int|
            0 <= a <= b <= head.len() && #[trigger] head.subrange(a, b) == trim_spec(head);
        assert forall|j: int| 0 <= j < k.len() implies #[trigger] k[j] != '=' by {
            assert(k[j] == head[a + j]);
            assert(head[a + j] == t[a + j]);
        }
        lemma_char_pos_none(k, '=');
        let n = apply_line_spec(m, line);
        let key = lower_key(k);
        if key != vid_key() && key != pid_key() && key != plugin_dir_key() {
            assert(stored_key(key));
            assert forall|q: Seq<char>| #[trigger]
                n.values.contains_key(q) implies stored_key(q) && trim_spec(n.values[q])
                == n.values[q] by {
                if q != key {
                    assert(m.values.contains_key(q));
                }
            }
        }
    }
}

/// Reading lines from the defaults gives a well-formed configuration: every
/// setting's key is a trimmed key without `=` put in lower case (and none of
/// `vid`, `pid`, `plugin_dir`), every value and the plugin directory are
/// trimmed.
pub proof fn lemma_lines_well_formed(lines: Seq<Seq<char>>)
    ensures
        config_well_formed(apply_lines_spec(default_model(), lines)),
    decreases lines.len(),
{
    if lines.len() == 0 {
        lemma_default_well_formed();
    } else {
        lemma_lines_well_formed(lines.drop_last());
        lemma_line_keeps_well_formed(apply_lines_spec(default_model(), lines.drop_last()), lines.last());
    }
}

/// A stored key that comes from an ASCII key holds no capital ASCII letter,
/// no `=`, and no white space at its ends.
pub proof fn lemma_ascii_stored_key(k0: Seq<char>)
    requires
        all_ascii(k0),
        trim_spec(k0) == k0,
        char_pos(k0, '=') is None,
    ensures
        lower_key(k0) == ascii_lower_text(k0),
        trim_spec(lower_key(k0)) == lower_key(k0),
        char_pos(lower_key(k0), '=') is None,
        forall|i: int|
            0 <= i < lower_key(k0).len() ==> !(0x41 <= #[trigger] lower_key(k0)[i] as int <= 0x5a),
{
    crate::text::lemma_ascii_lower_shape(k0);
}

/// The lowercase hexadecimal digit for `d` (0 to 15).
pub open spec fn hex_char(d: int) -> char {
    if d < 10 {
        (0x30 + d) as char
    } else {
        (0x61 + d - 10) as char
    }
}

/// The uppercase hexadecimal digit for `d` (0 to 15).
pub open spec fn hex_char_upper(d: int) -> char {
    if d < 10 {
        (0x30 + d) as char
    } else {
        (0x41 + d - 10) as char
    }
}

/// `n` in lowercase hexadecimal without leading zeros, as `{:x}` writes it.
pub open spec fn hex_text(n: nat) -> Seq<char>
    decreases n,
{
    if n < 16 {
        seq![hex_char(n as int)]
    } else {
        hex_text(n / 16).push(hex_char(n as int % 16))
    }
}

/// `n` in four uppercase hexadecimal digits, as `{:04X}` writes a `u16`.
pub open spec fn hex4_upper(n: u16) -> Seq<char> {
    seq![
        hex_char_upper(n as int / 4096),
        hex_char_upper(n as int / 256 % 16),
        hex_char_upper(n as int / 16 % 16),
        hex_char_upper(n as int % 16),
    ]
}

proof fn lemma_hex_char(d: int)
    requires
        0 <= d < 16,
    ensures
        digit_value(hex_char(d), 16) == Some(d),
        digit_value(hex_char_upper(d), 16) == Some(d),
        !is_white_space(hex_char(d)),
        !is_white_space(hex_char_upper(d)),
        hex_char(d) != '+',
        hex_char_upper(d) != '+',
        hex_char(d) != 'x',
{
}

proof fn lemma_hex_text(n: nat)
    ensures
        hex_text(n).len() > 0,
        all_digits(hex_text(n), 16),
        digits_value(hex_text(n), 16) == n,
        forall|i: int| 0 <= i < hex_text(n).len() ==> !is_white_space(#[trigger] hex_text(n)[i]) && hex_text(n)[i] != '+' && hex_text(n)[i] != 'x',
    decreases n,
{
    if n < 16 {
        lemma_hex_char(n as int);
        assert(hex_text(n).drop_last() =~= Seq::<char>::empty());
        assert(digits_value(hex_text(n).drop_last(), 16) == 0);
        assert(digits_value(hex_text(n), 16) == n);
    } else {
        lemma_hex_text(n / 16);
        lemma_hex_char(n as int % 16);
        let s = hex_text(n / 16);
        let t = hex_text(n);
        assert(t.drop_last() =~= s);
        assert(t.last() == hex_char(n as int % 16));
        assert(digits_value(t, 16) == digits_value(s, 16) * 16 + (n as int % 16));
        assert((n / 16) * 16 + n % 16 == n);
        assert(digits_value(s, 16) == (n / 16) as int);
        assert(digits_value(t, 16) == n);
        assert forall|i: int| 0 <= i < t.len() implies #[trigger] digit_value(t[i], 16) is Some by {
            if i < s.len() {
                assert(t[i] == s[i]);
            }
        }
        assert forall|i: int| 0 <= i < t.len() implies !is_white_space(#[trigger] t[i]) && t[i] != '+' && t[i] != 'x' by {
            if i < s.len() {
                assert(t[i] == s[i]);
            }
        }
    }
}

/// Reading back what `{:x}` writes for a `u16` gives the number: the vendor
/// and product ids round-trip through lowercase hexadecimal.
pub proof fn lemma_hex_round_trip(n: u16)
    ensures
        parse_hex16_spec(hex_text(n as nat)) == n,
{
    let s = hex_text(n as nat);
    lemma_hex_text(n as nat);
    lemma_trim_fixed(s);
    if has_prefix(s, hex_prefix()) {
        assert(s.subrange(0, 2)[1] == 'x');
        assert(s[1] == 'x');
    }
    assert(unsigned_digits(s) == s);
}

/// Reading back `0x` followed by what `{:04X}` writes for a `u16` gives the
/// number.
pub proof fn lemma_hex4_round_trip(n: u16)
    ensures
        parse_hex16_spec(hex_prefix() + hex4_upper(n)) == n,
{
    let d = hex4_upper(n);
    let s = hex_prefix() + d;
    let a = n as int / 4096;
    let b = n as int / 256 % 16;
    let c = n as int / 16 % 16;
    let e = n as int % 16;
    lemma_hex_char(a);
    lemma_hex_char(b);
    lemma_hex_char(c);
    lemma_hex_char(e);
    assert(s[0] == '0');
    assert(s.last() == hex_char_upper(e));
    lemma_trim_fixed(s);
    assert(s.subrange(0, 2) =~= hex_prefix());
    assert(s.skip(2) =~= d);
    assert(unsigned_digits(d) == d);
    assert(all_digits(d, 16));
    let d3 = d.drop_last();
    let d2 = d3.drop_last();
    let d1 = d2.drop_last();
    let d0 = d1.drop_last();
    assert(d0 =~= Seq::<char>::empty());
    assert(digits_value(d0, 16) == 0);
    assert(d1.last() == hex_char_upper(a));
    assert(digits_value(d1, 16) == a);
    assert(d2.last() == hex_char_upper(b));
    assert(digits_value(d2, 16) == a * 16 + b);
    assert(d3.last() == hex_char_upper(c));
    assert(digits_value(d3, 16) == (a * 16 + b) * 16 + c);
    assert(d.last() == hex_char_upper(e));
    assert(digits_value(d, 16) == ((a * 16 + b) * 16 + c) * 16 + e);
    lemma_hex4_arith(n as int);
}

proof fn lemma_hex4_arith(n: int)
    requires
        0 <= n < 65536,
    ensures
        (((n / 4096) * 16 + n / 256 % 16) * 16 + n / 16 % 16) * 16 + n % 16 == n,
{
    let m = n as u32;
    assert(m < 65536 ==> (((m / 4096) * 16 + m / 256 % 16) * 16 + m / 16 % 16) * 16 + m % 16 == m)
        by (bit_vector);
}

/// Reading an ASCII line keeps the keys settled: each is ASCII, trimmed,
/// without `=`, and its own lower case.
pub proof fn lemma_ascii_line_keeps_settled(m: ConfigModel, line: Seq<char>)
    requires
        ascii_keys_settled(m),
        all_ascii(line),
    ensures
        ascii_keys_settled(apply_line_spec(m, line)),
{
    if let Some((k, v)) = line_entry(line) {
        let t = trim_spec(line);
        let i = char_pos(t, '=')->0;
        let head = t.subrange(0, i as int);
        lemma_char_pos(t, '=');
        crate::text::lemma_ascii_trim(line);
        crate::text::lemma_ascii_piece(t, 0, i as int);
        crate::text::lemma_ascii_trim(head);
        lemma_trim_idempotent(head);
        lemma_trim_is_piece(head);
        let (a, b) = choose|a: int, b: int|
            0 <= a <= b <= head.len() && #[trigger] head.subrange(a, b) == trim_spec(head);
        assert forall|j: int| 0 <= j < k.len() implies #[trigger] k[j] != '=' by {
            assert(k[j] == head[a + j]);
            assert(head[a + j] == t[a + j]);
        }
        lemma_char_pos_none(k, '=');
        crate::text::lemma_ascii_lower_shape(k);
        let key = lower_key(k);
        assert(key == ascii_lower_text(k));
        assert(lower_key(key) == key);
        let n = apply_line_spec(m, line);
        assert forall|q: Seq<char>| #[trigger] n.values.contains_key(q) implies all_ascii(q)
            && trim_spec(q) == q && char_pos(q, '=') is None && lower_key(q) == q by {
            if q != key {
                assert(m.values.contains_key(q));
            }
        }
    }
}

/// In a configuration of ASCII lines every setting's key is trimmed, holds
/// no `=`, and is its own lower case.
pub proof fn lemma_ascii_lines_settled(lines: Seq<Seq<char>>)
    requires
        all_ascii_lines(lines),
    ensures
        ascii_keys_settled(apply_lines_spec(default_model(), lines)),
    decreases lines.len(),
{
    if lines.len() > 0 {
        let front = lines.drop_last();
        assert forall|i: int| 0 <= i < front.len() implies all_ascii(#[trigger] front[i]) by {
            assert(front[i] == lines[i]);
        }
        lemma_ascii_lines_settled(front);
        assert(all_ascii(lines[lines.len() - 1]));
        lemma_ascii_line_keeps_settled(apply_lines_spec(default_model(), front), lines.last());
    }
}

} // verus!
