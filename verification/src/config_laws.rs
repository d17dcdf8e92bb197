//! What each line of a configuration file does.

use vstd::prelude::*;

use crate::config::after_line;
use crate::config::after_lines;
use crate::config::assigned;
use crate::config::assignment;
use crate::config::bool_of;
use crate::config::default_settings;
use crate::config::settings_of;
use crate::config::ConfigView;
use crate::config::ObfsMode;
use crate::config::Outcome;
use crate::config::Setting;
use crate::text::divided;
use crate::text::is_white;
use crate::text::lowered;
use crate::text::parsed_number;
use crate::text::split_parts;
use crate::text::trimmed;
use crate::text_laws::is_blank;
use crate::text_laws::is_trim;
use crate::text_laws::law_divided;
use crate::text_laws::law_trimmed;

verus! {

/// The keys are different texts.
proof fn lemma_keys()
    ensures
        "gateway"@.len() == 7,
        "gateway6"@.len() == 8,
        "interface"@.len() == 9 && "interface"@[0] == 'i',
        "default_gw"@.len() == 10 && "default_gw"@[0] == 'd',
        "default_interface"@.len() == 17,
        "goroutine_count"@.len() == 15,
        "concurrency"@.len() == 11 && "concurrency"@[0] == 'c',
        "mtu"@.len() == 3,
        "ss_enabled"@.len() == 10 && "ss_enabled"@[0] == 's',
        "ss_server"@.len() == 9 && "ss_server"@[0] == 's' && "ss_server"@[3] == 's',
        "ss_server_port"@.len() == 14 && "ss_server_port"@[3] == 's',
        "ss_password"@.len() == 11 && "ss_password"@[0] == 's',
        "ss_method"@.len() == 9 && "ss_method"@[0] == 's' && "ss_method"@[3] == 'm',
        "obfs_mode"@.len() == 9 && "obfs_mode"@[0] == 'o' && "obfs_mode"@[5] == 'm',
        "obfs_host"@.len() == 9 && "obfs_host"@[0] == 'o' && "obfs_host"@[5] == 'h',
        "ss_plugin"@.len() == 9 && "ss_plugin"@[0] == 's' && "ss_plugin"@[3] == 'p',
        "ss_plugin_opts"@.len() == 14 && "ss_plugin_opts"@[3] == 'p',
{
    reveal_strlit("gateway");
    reveal_strlit("gateway6");
    reveal_strlit("interface");
    reveal_strlit("default_gw");
    reveal_strlit("default_interface");
    reveal_strlit("goroutine_count");
    reveal_strlit("concurrency");
    reveal_strlit("mtu");
    reveal_strlit("ss_enabled");
    reveal_strlit("ss_server");
    reveal_strlit("ss_server_port");
    reveal_strlit("ss_password");
    reveal_strlit("ss_method");
    reveal_strlit("obfs_mode");
    reveal_strlit("obfs_host");
    reveal_strlit("ss_plugin");
    reveal_strlit("ss_plugin_opts");
}

/// The key of a text gives its setting the very value, whatever it is, and changes
/// nothing else.
pub proof fn law_texts_are_taken_as_they_are(c: ConfigView, value: Seq<char>)
    ensures
        assigned(c, "gateway"@, value) == Outcome::Ok(ConfigView { gateway: value, ..c }),
        assigned(c, "gateway6"@, value) == Outcome::Ok(ConfigView { gateway6: value, ..c }),
        assigned(c, "interface"@, value) == Outcome::Ok(ConfigView { interface: value, ..c }),
        assigned(c, "default_gw"@, value) == Outcome::Ok(
            ConfigView { default_gateway: value, ..c },
        ),
        assigned(c, "default_interface"@, value) == Outcome::Ok(
            ConfigView { default_interface: value, ..c },
        ),
        assigned(c, "ss_server"@, value) == Outcome::Ok(ConfigView { ss_server: value, ..c }),
        assigned(c, "ss_password"@, value) == Outcome::Ok(ConfigView { ss_password: value, ..c }),
        assigned(c, "ss_method"@, value) == Outcome::Ok(ConfigView { ss_method: value, ..c }),
        assigned(c, "obfs_host"@, value) == Outcome::Ok(ConfigView { obfs_host: value, ..c }),
        assigned(c, "ss_plugin"@, value) == Outcome::Ok(ConfigView { ss_plugin: value, ..c }),
        assigned(c, "ss_plugin_opts"@, value) == Outcome::Ok(
            ConfigView { ss_plugin_opts: value, ..c },
        ),
{
    lemma_keys();
}

/// The key of a number gives its setting the number that the value denotes, where
/// it fits, and is refused otherwise with its value.
pub proof fn law_numbers_are_read(c: ConfigView, value: Seq<char>)
    ensures
        assigned(c, "mtu"@, value) == (match parsed_number(value, 65535) {
            Some(n) => Outcome::Ok(ConfigView { mtu: n as u16, ..c }),
            None => Outcome::Err((Setting::Mtu, value)),
        }),
        assigned(c, "ss_server_port"@, value) == (match parsed_number(value, 65535) {
            Some(n) => Outcome::Ok(ConfigView { ss_server_port: n as u16, ..c }),
            None => Outcome::Err((Setting::ServerPort, value)),
        }),
        assigned(c, "concurrency"@, value) == (match parsed_number(value, usize::MAX as nat) {
            Some(n) => Outcome::Ok(ConfigView { concurrency: n as usize, ..c }),
            None => Outcome::Err((Setting::Concurrency, value)),
        }),
        assigned(c, "goroutine_count"@, value) == assigned(c, "concurrency"@, value),
{
    lemma_keys();
}

/// Shadowsocks is switched on by true, yes and 1, and off by false, no and 0, in
/// any letters. Any other value is refused.
pub proof fn law_switch(c: ConfigView, value: Seq<char>)
    ensures
        ({
            let v = lowered(value);
            let on = v == "true"@ || v == "yes"@ || v == "1"@;
            let off = v == "false"@ || v == "no"@ || v == "0"@;
            &&& on ==> assigned(c, "ss_enabled"@, value) == Outcome::Ok(
                ConfigView { ss_enabled: true, ..c },
            )
            &&& off ==> assigned(c, "ss_enabled"@, value) == Outcome::Ok(
                ConfigView { ss_enabled: false, ..c },
            )
            &&& !on && !off ==> assigned(c, "ss_enabled"@, value) == Outcome::Err(
                (Setting::Boolean, value),
            )
            &&& on ==> bool_of(v) == Some(true)
            &&& off ==> bool_of(v) == Some(false)
            &&& !on && !off ==> bool_of(v) is None
        }),
{
    lemma_keys();
    reveal_strlit("true");
    reveal_strlit("yes");
    reveal_strlit("1");
    reveal_strlit("false");
    reveal_strlit("no");
    reveal_strlit("0");
    assert("true"@.len() == 4 && "yes"@.len() == 3 && "1"@.len() == 1 && "1"@[0] == '1');
    assert("false"@.len() == 5 && "no"@.len() == 2 && "0"@.len() == 1 && "0"@[0] == '0');
}

/// The three ways of disguise by their names. Any other name is refused.
pub proof fn law_disguises(c: ConfigView, value: Seq<char>)
    ensures
        value == "disable"@ || value.len() == 0 ==> assigned(c, "obfs_mode"@, value)
            == Outcome::Ok(ConfigView { obfs_mode: ObfsMode::Disable, ..c }),
        value == "simple-obfs"@ ==> assigned(c, "obfs_mode"@, value) == Outcome::Ok(
            ConfigView { obfs_mode: ObfsMode::SimpleObfs, ..c },
        ),
        value == "xray"@ || value == "v2ray"@ ==> assigned(c, "obfs_mode"@, value) == Outcome::Ok(
            ConfigView { obfs_mode: ObfsMode::Xray, ..c },
        ),
        value != "disable"@ && value.len() > 0 && value != "simple-obfs"@ && value != "xray"@
            && value != "v2ray"@ ==> assigned(c, "obfs_mode"@, value) == Outcome::Err(
            (Setting::ObfsMode, value),
        ),
{
    lemma_keys();
    reveal_strlit("disable");
    reveal_strlit("simple-obfs");
    reveal_strlit("xray");
    reveal_strlit("v2ray");
    reveal_strlit("");
    assert("disable"@.len() == 7 && "simple-obfs"@.len() == 11);
    assert("xray"@.len() == 4 && "v2ray"@.len() == 5);
    if value.len() == 0 {
        assert(value =~= ""@);
    }
}

/// What a line assigns: with any white space round the key and the value, and with
/// further equal signs in the value, the key before the first equal sign and the
/// value behind it.
pub proof fn law_lines_that_assign(
    a: Seq<char>,
    key: Seq<char>,
    b: Seq<char>,
    c: Seq<char>,
    value: Seq<char>,
    d: Seq<char>,
)
    requires
        is_blank(a) && is_blank(b) && is_blank(c) && is_blank(d),
        is_trim(key) && key.len() > 0 && key[0] != '#' && !key.contains('='),
        is_trim(value) && value.len() > 0,
    ensures
        assignment(a + key + b + seq!['='] + c + value + d) == Some((key, value)),
{
    let line = a + key + b + seq!['='] + c + value + d;
    let inner = key + b + seq!['='] + c + value;
    assert(line =~= a + inner + d);
    assert(inner[0] == key[0] && inner.last() == value.last());
    law_trimmed(a, inner, d, ' ');
    let left = key + b;
    let right = c + value;
    assert(inner =~= left + seq!['='] + right);
    assert(!left.contains('=')) by {
        if left.contains('=') {
            let k = choose|k: int| 0 <= k < left.len() && left[k] == '=';
            if k < key.len() {
                assert(key[k] == '=');
            } else {
                assert(b[k - key.len()] == '=');
                assert(is_white(b[k - key.len()]));
            }
        }
    }
    law_divided(left, '=', right);
    let none = Seq::<char>::empty();
    assert(left =~= none + key + b);
    assert(right =~= c + value + none);
    law_trimmed(none, key, b, ' ');
    law_trimmed(c, value, none, ' ');
}

/// What a line without an assignment is: blank, a comment, without an equal sign, or
/// with nothing behind it. A line with an assignment gives its key the value.
pub proof fn law_lines_that_do_not(c: ConfigView, line: Seq<char>)
    ensures
        assignment(line) is None <==> ({
            let t = trimmed(line);
            ||| t.len() == 0
            ||| t[0] == '#'
            ||| divided(t, '=') is None
            ||| trimmed(divided(t, '=').unwrap().1).len() == 0
        }),
        assignment(line) is None ==> after_line(c, line) == Outcome::Ok(c),
        assignment(line) matches Some((key, value)) ==> after_line(c, line) == assigned(
            c,
            key,
            value,
        ),
{
}

/// The settings of a file are those after its lines, from the first to the last,
/// beginning with the defaults. Only an MTU of zero is replaced, by 1500.
pub proof fn law_settings_of_a_file(text: Seq<char>, line: Seq<char>, rest: Seq<Seq<char>>, c: ConfigView)
    ensures
        after_lines(c, Seq::empty()) == Outcome::Ok(c),
        after_lines(c, seq![line] + rest) == (match after_line(c, line) {
            Ok(d) => after_lines(d, rest),
            Err(e) => Outcome::Err(e),
        }),
        match after_lines(default_settings(), split_parts(text, '\n')) {
            Ok(d) => settings_of(text) == Outcome::Ok(
                if d.mtu == 0 {
                    ConfigView { mtu: 1500, ..d }
                } else {
                    d
                },
            ),
            Err(e) => settings_of(text) == Outcome::Err(e),
        },
{
    assert((seq![line] + rest).skip(1) =~= rest);
    assert((seq![line] + rest)[0] == line);
}

/// Without any line, there is no interface, gateway or server, the cipher is
/// aes-256-gcm, four routes are added at once, and nothing is switched on.
pub proof fn law_defaults()
    ensures
        ({
            let d = default_settings();
            &&& d.gateway.len() == 0 && d.gateway6.len() == 0 && d.interface.len() == 0
            &&& d.default_gateway.len() == 0 && d.default_interface.len() == 0
            &&& d.concurrency == 4 && d.mtu == 0
            &&& !d.ss_enabled
            &&& d.ss_server.len() == 0 && d.ss_server_port == 0 && d.ss_password.len() == 0
            &&& d.ss_method == "aes-256-gcm"@
            &&& d.obfs_mode is Disable
            &&& d.obfs_host.len() == 0 && d.ss_plugin.len() == 0 && d.ss_plugin_opts.len() == 0
        }),
{
}

} // verus!
