//! The configuration file.

use vstd::prelude::*;
use vstd::string::StringExecFns;

use crate::text::begins_with;
use crate::text::divided;
use crate::text::joined;
use crate::text::lowered;
use crate::text::parse_number;
use crate::text::parsed_number;
use crate::text::same_text;
use crate::text::split_once;
use crate::text::split_parts;
use crate::text::split_text;
use crate::text::texts;
use crate::text::to_lower;
use crate::text::trim;
use crate::text::trimmed;

verus! {

/// The number of route workers where the file sets none.
pub const DEFAULT_CONCURRENCY: usize = 4;

/// The MTU of the TUN interface where the file sets none.
pub const DEFAULT_MTU: u16 = 1500;

/// How the connection to the server is disguised.
#[derive(Debug, Clone, Copy, PartialEq, Eq, Structural)]
pub enum ObfsMode {
    Disable,
    SimpleObfs,
    Xray,
}

/// The settings of the daemon.
#[derive(Debug, Clone)]
pub struct Config {
    // Network
    pub gateway: String,
    pub gateway6: String,
    pub interface: String,
    pub default_gateway: String,
    pub default_interface: String,
    pub concurrency: usize,
    pub mtu: u16,
    // Shadowsocks
    pub ss_enabled: bool,
    pub ss_server: String,
    pub ss_server_port: u16,
    pub ss_password: String,
    pub ss_method: String,
    // Obfuscation
    pub obfs_mode: ObfsMode,
    pub obfs_host: String,
    pub ss_plugin: String,
    pub ss_plugin_opts: String,
}

/// The settings as mathematical values.
#[verifier::ext_equal]
pub struct ConfigView {
    pub gateway: Seq<char>,
    pub gateway6: Seq<char>,
    pub interface: Seq<char>,
    pub default_gateway: Seq<char>,
    pub default_interface: Seq<char>,
    pub concurrency: usize,
    pub mtu: u16,
    pub ss_enabled: bool,
    pub ss_server: Seq<char>,
    pub ss_server_port: u16,
    pub ss_password: Seq<char>,
    pub ss_method: Seq<char>,
    pub obfs_mode: ObfsMode,
    pub obfs_host: Seq<char>,
    pub ss_plugin: Seq<char>,
    pub ss_plugin_opts: Seq<char>,
}

impl View for Config {
    type V = ConfigView;

    open spec fn view(&self) -> ConfigView {
        ConfigView {
            gateway: self.gateway@,
            gateway6: self.gateway6@,
            interface: self.interface@,
            default_gateway: self.default_gateway@,
            default_interface: self.default_interface@,
            concurrency: self.concurrency,
            mtu: self.mtu,
            ss_enabled: self.ss_enabled,
            ss_server: self.ss_server@,
            ss_server_port: self.ss_server_port,
            ss_password: self.ss_password@,
            ss_method: self.ss_method@,
            obfs_mode: self.obfs_mode,
            obfs_host: self.obfs_host@,
            ss_plugin: self.ss_plugin@,
            ss_plugin_opts: self.ss_plugin_opts@,
        }
    }
}

/// The settings before any line of a file is read.
pub open spec fn default_settings() -> ConfigView {
    ConfigView {
        gateway: Seq::empty(),
        gateway6: Seq::empty(),
        interface: Seq::empty(),
        default_gateway: Seq::empty(),
        default_interface: Seq::empty(),
        concurrency: DEFAULT_CONCURRENCY,
        mtu: 0,
        ss_enabled: false,
        ss_server: Seq::empty(),
        ss_server_port: 0,
        ss_password: Seq::empty(),
        ss_method: "aes-256-gcm"@,
        obfs_mode: ObfsMode::Disable,
        obfs_host: Seq::empty(),
        ss_plugin: Seq::empty(),
        ss_plugin_opts: Seq::empty(),
    }
}

impl Default for Config {
    fn default() -> (r: Self)
        ensures
            r@ == default_settings(),
    {
        Config {
            gateway: String::new(),
            gateway6: String::new(),
            interface: String::new(),
            default_gateway: String::new(),
            default_interface: String::new(),
            concurrency: DEFAULT_CONCURRENCY,
            mtu: 0,
            ss_enabled: false,
            ss_server: String::new(),
            ss_server_port: 0,
            ss_password: String::new(),
            ss_method: "aes-256-gcm".to_string(),
            obfs_mode: ObfsMode::Disable,
            obfs_host: String::new(),
            ss_plugin: String::new(),
            ss_plugin_opts: String::new(),
        }
    }
}

/// Which setting has a value that cannot be used.
#[derive(Debug, Clone, Copy, PartialEq, Eq, Structural)]
pub enum Setting {
    Boolean,
    Concurrency,
    Mtu,
    ServerPort,
    ObfsMode,
}

/// A value that cannot be used, and the setting that it was given for.
#[derive(Debug, Clone)]
pub struct ConfigError {
    pub setting: Setting,
    pub value: String,
}

impl View for ConfigError {
    type V = (Setting, Seq<char>);

    open spec fn view(&self) -> (Setting, Seq<char>) {
        (self.setting, self.value@)
    }
}

/// What is said of a value that cannot be used.
pub open spec fn error_text(setting: Setting, value: Seq<char>) -> Seq<char> {
    match setting {
        Setting::Boolean => "boolean value expected, got '"@ + value + "'"@,
        Setting::Concurrency => "invalid concurrency value '"@ + value + "'"@,
        Setting::Mtu => "invalid mtu value '"@ + value + "'"@,
        Setting::ServerPort => "invalid ss_server_port value '"@ + value + "'"@,
        Setting::ObfsMode => "unknown obfs_mode: "@ + value,
    }
}

impl ConfigError {
    fn new(setting: Setting, value: &str) -> (r: Self)
        ensures
            r@ == (setting, value@),
    {
        ConfigError { setting, value: value.to_string() }
    }

    /// What is said of the value.
    pub fn message(&self) -> (r: String)
        ensures
            r@ == error_text(self.setting, self.value@),
    {
        let value = self.value.as_str();
        match self.setting {
            Setting::Boolean => joined("boolean value expected, got '", value).concat("'"),
            Setting::Concurrency => joined("invalid concurrency value '", value).concat("'"),
            Setting::Mtu => joined("invalid mtu value '", value).concat("'"),
            Setting::ServerPort => joined("invalid ss_server_port value '", value).concat("'"),
            Setting::ObfsMode => joined("unknown obfs_mode: ", value),
        }
    }
}

/// The boolean that a text in small letters stands for.
pub open spec fn bool_of(lower: Seq<char>) -> Option<bool> {
    if lower == "true"@ || lower == "yes"@ || lower == "1"@ {
        Some(true)
    } else if lower == "false"@ || lower == "no"@ || lower == "0"@ {
        Some(false)
    } else {
        None
    }
}

/// The boolean that a text in small letters stands for.
pub fn bool_of_lower(lower: &str) -> (r: Option<bool>)
    ensures
        r == bool_of(lower@),
{
    if same_text(lower, "true") || same_text(lower, "yes") || same_text(lower, "1") {
        Some(true)
    } else if same_text(lower, "false") || same_text(lower, "no") || same_text(lower, "0") {
        Some(false)
    } else {
        None
    }
}

/// Parse a boolean string value.
/// Accepts: true/false, yes/no, 1/0 (case-insensitive).
/// Returns an error for unknown values to avoid silent misconfiguration.
pub fn parse_bool(s: &str) -> (r: Result<bool, ConfigError>)
    ensures
        match bool_of(lowered(s@)) {
            Some(b) => r == Ok::<bool, ConfigError>(b),
            None => r is Err && r->Err_0@ == (Setting::Boolean, s@),
        },
{
    let lower = to_lower(s);
    match bool_of_lower(lower.as_str()) {
        Some(b) => Ok(b),
        None => Err(ConfigError::new(Setting::Boolean, s)),
    }
}

/// The obfuscation mode that a value names.
pub open spec fn obfs_of(value: Seq<char>) -> Option<ObfsMode> {
    if value == "disable"@ || value == ""@ {
        Some(ObfsMode::Disable)
    } else if value == "simple-obfs"@ {
        Some(ObfsMode::SimpleObfs)
    } else if value == "v2ray"@ || value == "xray"@ {
        Some(ObfsMode::Xray)
    } else {
        None
    }
}

/// The obfuscation mode that a value names.
fn obfs_mode(value: &str) -> (r: Option<ObfsMode>)
    ensures
        r == obfs_of(value@),
{
    if same_text(value, "disable") || same_text(value, "") {
        Some(ObfsMode::Disable)
    } else if same_text(value, "simple-obfs") {
        Some(ObfsMode::SimpleObfs)
    } else if same_text(value, "v2ray") || same_text(value, "xray") {
        Some(ObfsMode::Xray)
    } else {
        None
    }
}

/// What a line assigns: a key and a value that is not blank. Blank lines,
/// comments and lines without an equals sign assign nothing.
pub open spec fn assignment(line: Seq<char>) -> Option<(Seq<char>, Seq<char>)> {
    let t = trimmed(line);
    if t.len() == 0 || t[0] == '#' {
        None
    } else {
        match divided(t, '=') {
            Some((key, value)) => if trimmed(value).len() == 0 {
                None
            } else {
                Some((trimmed(key), trimmed(value)))
            },
            None => None,
        }
    }
}

/// Settings, or the setting and the value that cannot be used.
pub type Outcome = Result<ConfigView, (Setting, Seq<char>)>;

/// The settings after a value is given to a key. A key that is not known
/// changes nothing.
pub open spec fn assigned(c: ConfigView, key: Seq<char>, value: Seq<char>) -> Outcome {
    if key == "gateway"@ {
        Ok(ConfigView { gateway: value, ..c })
    } else if key == "gateway6"@ {
        Ok(ConfigView { gateway6: value, ..c })
    } else if key == "interface"@ {
        Ok(ConfigView { interface: value, ..c })
    } else if key == "default_gw"@ {
        Ok(ConfigView { default_gateway: value, ..c })
    } else if key == "default_interface"@ {
        Ok(ConfigView { default_interface: value, ..c })
    } else if key == "goroutine_count"@ || key == "concurrency"@ {
        match parsed_number(value, usize::MAX as nat) {
            Some(n) => Ok(ConfigView { concurrency: n as usize, ..c }),
            None => Err((Setting::Concurrency, value)),
        }
    } else if key == "mtu"@ {
        match parsed_number(value, u16::MAX as nat) {
            Some(n) => Ok(ConfigView { mtu: n as u16, ..c }),
            None => Err((Setting::Mtu, value)),
        }
    } else if key == "ss_enabled"@ {
        match bool_of(lowered(value)) {
            Some(b) => Ok(ConfigView { ss_enabled: b, ..c }),
            None => Err((Setting::Boolean, value)),
        }
    } else if key == "ss_server"@ {
        Ok(ConfigView { ss_server: value, ..c })
    } else if key == "ss_server_port"@ {
        match parsed_number(value, u16::MAX as nat) {
            Some(n) => Ok(ConfigView { ss_server_port: n as u16, ..c }),
            None => Err((Setting::ServerPort, value)),
        }
    } else if key == "ss_password"@ {
        Ok(ConfigView { ss_password: value, ..c })
    } else if key == "ss_method"@ {
        Ok(ConfigView { ss_method: value, ..c })
    } else if key == "obfs_mode"@ {
        match obfs_of(value) {
            Some(m) => Ok(ConfigView { obfs_mode: m, ..c }),
            None => Err((Setting::ObfsMode, value)),
        }
    } else if key == "obfs_host"@ {
        Ok(ConfigView { obfs_host: value, ..c })
    } else if key == "ss_plugin"@ {
        Ok(ConfigView { ss_plugin: value, ..c })
    } else if key == "ss_plugin_opts"@ {
        Ok(ConfigView { ss_plugin_opts: value, ..c })
    } else {
        Ok(c)
    }
}

/// Whether a key is known.
pub open spec fn is_key(key: Seq<char>) -> bool {
    ||| key == "gateway"@
    ||| key == "gateway6"@
    ||| key == "interface"@
    ||| key == "default_gw"@
    ||| key == "default_interface"@
    ||| key == "goroutine_count"@
    ||| key == "concurrency"@
    ||| key == "mtu"@
    ||| key == "ss_enabled"@
    ||| key == "ss_server"@
    ||| key == "ss_server_port"@
    ||| key == "ss_password"@
    ||| key == "ss_method"@
    ||| key == "obfs_mode"@
    ||| key == "obfs_host"@
    ||| key == "ss_plugin"@
    ||| key == "ss_plugin_opts"@
}

/// The settings after a line is read.
pub open spec fn after_line(c: ConfigView, line: Seq<char>) -> Outcome {
    match assignment(line) {
        Some((key, value)) => assigned(c, key, value),
        None => Ok(c),
    }
}

/// The settings after lines are read in their order. The first value that
/// cannot be used ends the reading.
pub open spec fn after_lines(c: ConfigView, lines: Seq<Seq<char>>) -> Outcome
    decreases lines.len(),
{
    if lines.len() == 0 {
        Ok(c)
    } else {
        match after_line(c, lines[0]) {
            Ok(d) => after_lines(d, lines.skip(1)),
            Err(e) => Err(e),
        }
    }
}

/// The settings with the default MTU where none is set.
pub open spec fn with_mtu(c: ConfigView) -> ConfigView {
    if c.mtu == 0 {
        ConfigView { mtu: DEFAULT_MTU, ..c }
    } else {
        c
    }
}

/// The settings that a file sets.
pub open spec fn settings_of(text: Seq<char>) -> Outcome {
    match after_lines(default_settings(), split_parts(text, '\n')) {
        Ok(c) => Ok(with_mtu(c)),
        Err(e) => Err(e),
    }
}

/// Whether a result and the changed settings are what an outcome says.
pub open spec fn is_outcome(
    r: Result<(), ConfigError>,
    before: ConfigView,
    after: ConfigView,
    outcome: Outcome,
) -> bool {
    match outcome {
        Ok(c) => r is Ok && after == c,
        Err(e) => r is Err && r->Err_0@ == e && after == before,
    }
}

impl Config {
    /// Gives a value to a key. A key that is not known is ignored.
    pub fn assign(&mut self, key: &str, value: &str) -> (r: Result<(), ConfigError>)
        ensures
            is_outcome(r, old(self)@, final(self)@, assigned(old(self)@, key@, value@)),
    {
        if same_text(key, "gateway") {
            self.gateway = value.to_string();
        } else if same_text(key, "gateway6") {
            self.gateway6 = value.to_string();
        } else if same_text(key, "interface") {
            self.interface = value.to_string();
        } else if same_text(key, "default_gw") {
            self.default_gateway = value.to_string();
        } else if same_text(key, "default_interface") {
            self.default_interface = value.to_string();
        } else if same_text(key, "goroutine_count") || same_text(key, "concurrency") {
            match parse_number(value, usize::MAX as u64) {
                Some(n) => {
                    self.concurrency = n as usize;
                },
                None => {
                    return Err(ConfigError::new(Setting::Concurrency, value));
                },
            }
        } else if same_text(key, "mtu") {
            match parse_number(value, u16::MAX as u64) {
                Some(n) => {
                    self.mtu = n as u16;
                },
                None => {
                    return Err(ConfigError::new(Setting::Mtu, value));
                },
            }
        } else if same_text(key, "ss_enabled") {
            match parse_bool(value) {
                Ok(b) => {
                    self.ss_enabled = b;
                },
                Err(e) => {
                    return Err(e);
                },
            }
        } else if same_text(key, "ss_server") {
            self.ss_server = value.to_string();
        } else if same_text(key, "ss_server_port") {
            match parse_number(value, u16::MAX as u64) {
                Some(n) => {
                    self.ss_server_port = n as u16;
                },
                None => {
                    return Err(ConfigError::new(Setting::ServerPort, value));
                },
            }
        } else if same_text(key, "ss_password") {
            self.ss_password = value.to_string();
        } else if same_text(key, "ss_method") {
            self.ss_method = value.to_string();
        } else if same_text(key, "obfs_mode") {
            match obfs_mode(value) {
                Some(m) => {
                    self.obfs_mode = m;
                },
                None => {
                    return Err(ConfigError::new(Setting::ObfsMode, value));
                },
            }
        } else if same_text(key, "obfs_host") {
            self.obfs_host = value.to_string();
        } else if same_text(key, "ss_plugin") {
            self.ss_plugin = value.to_string();
        } else if same_text(key, "ss_plugin_opts") {
            self.ss_plugin_opts = value.to_string();
        }
        Ok(())
    }

    /// Reads one line.
    pub fn read_line(&mut self, line: &str) -> (r: Result<(), ConfigError>)
        ensures
            is_outcome(r, old(self)@, final(self)@, after_line(old(self)@, line@)),
    {
        let line = trim(line);
        proof {
            reveal_strlit("#");
            assert(line@.len() > 0 ==> line@.subrange(0, 1) =~= seq![line@[0]]);
            assert("#"@ =~= seq!['#']);
            assert(seq![line@[0]][0] == line@[0] && seq!['#'][0] == '#');
        }
        if line.is_empty() || begins_with(line, "#") {
            return Ok(());
        }
        match split_once(line, '=') {
            Some((key, value)) => {
                let value = trim(value);
                if value.is_empty() {
                    Ok(())
                } else {
                    self.assign(trim(key), value)
                }
            },
            None => Ok(()),
        }
    }
}

/// Reads the text of a configuration file.
pub fn read_config(text: &str) -> (r: Result<Config, ConfigError>)
    ensures
        match settings_of(text@) {
            Ok(c) => r is Ok && r->Ok_0@ == c,
            Err(e) => r is Err && r->Err_0@ == e,
        },
{
    let lines = split_text(text, '\n');
    let mut config = Config::default();
    let ghost parts = texts(lines@);
    let mut i: usize = 0;
    assert(parts.skip(0) =~= parts);
    while i < lines.len()
        invariant
            i <= lines.len(),
            parts == texts(lines@),
            parts == split_parts(text@, '\n'),
            after_lines(default_settings(), parts) == after_lines(config@, parts.skip(i as int)),
        decreases lines.len() - i,
    {
        assert(parts.skip(i as int)[0] == lines@[i as int]@);
        assert(parts.skip(i as int).skip(1) =~= parts.skip(i + 1));
        match config.read_line(lines[i].as_str()) {
            Ok(()) => {},
            Err(e) => {
                return Err(e);
            },
        }
        i = i + 1;
    }
    if config.mtu == 0 {
        config.mtu = DEFAULT_MTU;
    }
    Ok(config)
}

/// Lines may be read in portions.
pub proof fn law_lines_in_portions(c: ConfigView, a: Seq<Seq<char>>, b: Seq<Seq<char>>)
    ensures
        after_lines(c, a + b) == (match after_lines(c, a) {
            Ok(d) => after_lines(d, b),
            Err(e) => Err(e),
        }),
    decreases a.len(),
{
    if a.len() == 0 {
        assert(a + b =~= b);
    } else {
        assert((a + b)[0] == a[0]);
        assert((a + b).skip(1) =~= a.skip(1) + b);
        match after_line(c, a[0]) {
            Ok(d) => law_lines_in_portions(d, a.skip(1), b),
            Err(_) => {},
        }
    }
}

/// Blank lines, comments, lines without an equals sign, lines with a blank value
/// and lines with an unknown key change nothing, wherever they stand.
pub proof fn law_ignored_lines(
    c: ConfigView,
    before: Seq<Seq<char>>,
    line: Seq<char>,
    after: Seq<Seq<char>>,
)
    requires
        ({
            let t = trimmed(line);
            ||| t.len() == 0
            ||| t[0] == '#'
            ||| divided(t, '=') is None
            ||| trimmed(divided(t, '=').unwrap().1).len() == 0
            ||| !is_key(trimmed(divided(t, '=').unwrap().0))
        }),
    ensures
        after_lines(c, before + seq![line] + after) == after_lines(c, before + after),
{
    let one = seq![line];
    assert(before + one + after =~= before + (one + after));
    law_lines_in_portions(c, before, one + after);
    law_lines_in_portions(c, before, after);
    match after_lines(c, before) {
        Ok(d) => {
            law_lines_in_portions(d, one, after);
            assert(one.skip(1) =~= Seq::empty());
            assert(after_lines(d, one) == Ok::<ConfigView, (Setting, Seq<char>)>(d)) by {
                reveal_with_fuel(after_lines, 2);
            }
        },
        Err(_) => {},
    }
}

/// A value replaces one that the same key was given before.
pub proof fn law_last_value_wins(c: ConfigView, key: Seq<char>, first: Seq<char>, second: Seq<char>)
    requires
        assigned(c, key, first) is Ok,
    ensures
        assigned(assigned(c, key, first)->Ok_0, key, second) == assigned(c, key, second),
{
}

/// A value for one key leaves the settings of all other keys as they are.
pub proof fn law_other_settings_are_kept(c: ConfigView, key: Seq<char>, value: Seq<char>)
    requires
        assigned(c, key, value) is Ok,
    ensures
        ({
            let d = assigned(c, key, value)->Ok_0;
            &&& key != "gateway"@ ==> d.gateway == c.gateway
            &&& key != "gateway6"@ ==> d.gateway6 == c.gateway6
            &&& key != "interface"@ ==> d.interface == c.interface
            &&& key != "default_gw"@ ==> d.default_gateway == c.default_gateway
            &&& key != "default_interface"@ ==> d.default_interface == c.default_interface
            &&& key != "concurrency"@ && key != "goroutine_count"@ ==> d.concurrency
                == c.concurrency
            &&& key != "mtu"@ ==> d.mtu == c.mtu
            &&& key != "ss_enabled"@ ==> d.ss_enabled == c.ss_enabled
            &&& key != "ss_server"@ ==> d.ss_server == c.ss_server
            &&& key != "ss_server_port"@ ==> d.ss_server_port == c.ss_server_port
            &&& key != "ss_password"@ ==> d.ss_password == c.ss_password
            &&& key != "ss_method"@ ==> d.ss_method == c.ss_method
            &&& key != "obfs_mode"@ ==> d.obfs_mode == c.obfs_mode
            &&& key != "obfs_host"@ ==> d.obfs_host == c.obfs_host
            &&& key != "ss_plugin"@ ==> d.ss_plugin == c.ss_plugin
            &&& key != "ss_plugin_opts"@ ==> d.ss_plugin_opts == c.ss_plugin_opts
        }),
{
}

/// Settings that were read have an MTU.
pub proof fn law_mtu_is_set(text: Seq<char>)
    ensures
        settings_of(text) is Ok ==> settings_of(text)->Ok_0.mtu != 0,
{
}

/// Whether two keys name the same setting.
pub open spec fn same_setting(a: Seq<char>, b: Seq<char>) -> bool {
    a == b || ((a == "concurrency"@ || a == "goroutine_count"@) && (b == "concurrency"@ || b
        == "goroutine_count"@))
}

/// Whether two groups of settings are alike in the one that a key names.
pub open spec fn alike_in(c: ConfigView, d: ConfigView, key: Seq<char>) -> bool {
    if key == "gateway"@ {
        c.gateway == d.gateway
    } else if key == "gateway6"@ {
        c.gateway6 == d.gateway6
    } else if key == "interface"@ {
        c.interface == d.interface
    } else if key == "default_gw"@ {
        c.default_gateway == d.default_gateway
    } else if key == "default_interface"@ {
        c.default_interface == d.default_interface
    } else if key == "goroutine_count"@ || key == "concurrency"@ {
        c.concurrency == d.concurrency
    } else if key == "mtu"@ {
        c.mtu == d.mtu
    } else if key == "ss_enabled"@ {
        c.ss_enabled == d.ss_enabled
    } else if key == "ss_server"@ {
        c.ss_server == d.ss_server
    } else if key == "ss_server_port"@ {
        c.ss_server_port == d.ss_server_port
    } else if key == "ss_password"@ {
        c.ss_password == d.ss_password
    } else if key == "ss_method"@ {
        c.ss_method == d.ss_method
    } else if key == "obfs_mode"@ {
        c.obfs_mode == d.obfs_mode
    } else if key == "obfs_host"@ {
        c.obfs_host == d.obfs_host
    } else if key == "ss_plugin"@ {
        c.ss_plugin == d.ss_plugin
    } else if key == "ss_plugin_opts"@ {
        c.ss_plugin_opts == d.ss_plugin_opts
    } else {
        true
    }
}

/// Whether a line gives a value to the setting that a key names.
pub open spec fn sets(line: Seq<char>, key: Seq<char>) -> bool {
    assignment(line) matches Some((k, _)) && same_setting(k, key)
}

/// Lines that do not set a setting leave it as it is.
proof fn lemma_not_set(c: ConfigView, lines: Seq<Seq<char>>, key: Seq<char>)
    requires
        after_lines(c, lines) is Ok,
        forall|i: int| 0 <= i < lines.len() ==> !sets(#[trigger] lines[i], key),
    ensures
        alike_in(c, after_lines(c, lines)->Ok_0, key),
    decreases lines.len(),
{
    if lines.len() > 0 {
        assert(!sets(lines[0], key));
        let d = after_line(c, lines[0])->Ok_0;
        assert(alike_in(c, d, key));
        assert forall|i: int| 0 <= i < lines.skip(1).len() implies !sets(
            #[trigger] lines.skip(1)[i],
            key,
        ) by {
            assert(lines.skip(1)[i] == lines[i + 1]);
        }
        lemma_not_set(d, lines.skip(1), key);
    }
}

/// In a file that is accepted, the last line that sets a setting decides it, as if
/// it were the only line. An MTU of zero stands for the default.
pub proof fn law_last_line_wins(
    text: Seq<char>,
    before: Seq<Seq<char>>,
    line: Seq<char>,
    after: Seq<Seq<char>>,
    key: Seq<char>,
    value: Seq<char>,
)
    requires
        split_parts(text, '\n') == before + seq![line] + after,
        assignment(line) == Some((key, value)),
        forall|i: int| 0 <= i < after.len() ==> !sets(#[trigger] after[i], key),
        settings_of(text) is Ok,
    ensures
        assigned(default_settings(), key, value) is Ok,
        alike_in(
            settings_of(text)->Ok_0,
            with_mtu(assigned(default_settings(), key, value)->Ok_0),
            key,
        ),
{
    let start = default_settings();
    let one = seq![line];
    assert(before + one + after =~= before + (one + after));
    law_lines_in_portions(start, before, one + after);
    let c = after_lines(start, before)->Ok_0;
    law_lines_in_portions(c, one, after);
    assert(one.skip(1) =~= Seq::empty());
    assert(after_lines(c, one) == assigned(c, key, value)) by {
        reveal_with_fuel(after_lines, 2);
    }
    let d = assigned(c, key, value)->Ok_0;
    lemma_not_set(d, after, key);
    assert(alike_in(d, assigned(start, key, value)->Ok_0, key));
}

/// A setting that no line sets has its default.
pub proof fn law_default_where_not_set(text: Seq<char>, key: Seq<char>)
    requires
        settings_of(text) is Ok,
        forall|i: int|
            0 <= i < split_parts(text, '\n').len() ==> !sets(
                #[trigger] split_parts(text, '\n')[i],
                key,
            ),
    ensures
        alike_in(settings_of(text)->Ok_0, with_mtu(default_settings()), key),
{
    lemma_not_set(default_settings(), split_parts(text, '\n'), key);
}

/// Two names of one setting, and two names of one value, are as good as each
/// other: `goroutine_count` and `concurrency`, `v2ray` and `xray`.
pub proof fn law_aliases(c: ConfigView, value: Seq<char>)
    ensures
        assigned(c, "goroutine_count"@, value) == assigned(c, "concurrency"@, value),
        assigned(c, "obfs_mode"@, "v2ray"@) == assigned(c, "obfs_mode"@, "xray"@),
        obfs_of("v2ray"@) == Some(ObfsMode::Xray),
        obfs_of("xray"@) == Some(ObfsMode::Xray),
{
    reveal_strlit("goroutine_count");
    reveal_strlit("concurrency");
    reveal_strlit("gateway");
    reveal_strlit("gateway6");
    reveal_strlit("interface");
    reveal_strlit("default_gw");
    reveal_strlit("default_interface");
    reveal_strlit("mtu");
    reveal_strlit("ss_enabled");
    reveal_strlit("ss_server");
    reveal_strlit("ss_server_port");
    reveal_strlit("ss_password");
    reveal_strlit("ss_method");
    reveal_strlit("obfs_mode");
    reveal_strlit("v2ray");
    reveal_strlit("xray");
    reveal_strlit("disable");
    reveal_strlit("simple-obfs");
    reveal_strlit("");
    assert("goroutine_count"@.len() == 15 && "concurrency"@.len() == 11);
    assert("interface"@.len() == 9 && "default_interface"@.len() == 17);
    assert("gateway"@.len() == 7 && "gateway6"@.len() == 8 && "default_gw"@.len() == 10);
    assert("obfs_mode"@.len() == 9 && "obfs_mode"@[0] == 'o');
    assert("interface"@[0] == 'i' && "ss_server"@[0] == 's' && "ss_method"@[0] == 's');
    assert("mtu"@.len() == 3 && "ss_enabled"@.len() == 10 && "ss_server_port"@.len() == 14);
    assert("ss_password"@.len() == 11);
    assert("v2ray"@.len() == 5 && "xray"@.len() == 4 && "disable"@.len() == 7);
    assert("simple-obfs"@.len() == 11 && ""@.len() == 0);
}

/// Whether two lines assign the same, up to the names of one setting and of one
/// value.
pub open spec fn mean_the_same(a: Seq<char>, b: Seq<char>) -> bool {
    match (assignment(a), assignment(b)) {
        (Some((k, v)), Some((l, w))) => {
            ||| same_setting(k, l) && v == w
            ||| k == "obfs_mode"@ && l == "obfs_mode"@ && (v == "v2ray"@ || v == "xray"@) && (w
                == "v2ray"@ || w == "xray"@)
        },
        _ => false,
    }
}

/// A line may be replaced by one that means the same, wherever it stands.
pub proof fn law_aliases_in_files(
    text: Seq<char>,
    other: Seq<char>,
    before: Seq<Seq<char>>,
    a: Seq<char>,
    b: Seq<char>,
    after: Seq<Seq<char>>,
)
    requires
        split_parts(text, '\n') == before + seq![a] + after,
        split_parts(other, '\n') == before + seq![b] + after,
        mean_the_same(a, b),
    ensures
        match (settings_of(text), settings_of(other)) {
            (Ok(c), Ok(d)) => c == d,
            (Err(e), Err(f)) => e == f,
            _ => false,
        },
{
    let start = default_settings();
    assert(before + seq![a] + after =~= before + (seq![a] + after));
    assert(before + seq![b] + after =~= before + (seq![b] + after));
    law_lines_in_portions(start, before, seq![a] + after);
    law_lines_in_portions(start, before, seq![b] + after);
    if after_lines(start, before) is Ok {
        let c = after_lines(start, before)->Ok_0;
        let x = assignment(a)->0;
        law_aliases(c, x.1);
        assert(after_line(c, a) == after_line(c, b));
        assert((seq![a] + after).skip(1) =~= after);
        assert((seq![b] + after).skip(1) =~= after);
        assert(after_lines(c, seq![a] + after) == after_lines(c, seq![b] + after));
    }
}

} // verus!
