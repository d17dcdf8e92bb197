use ssroute::config::{parse_bool, read_config, ObfsMode, Setting, DEFAULT_MTU};

#[test]
fn test_parse_minimal_config() {
    let config = read_config("gateway=10.0.0.1\ninterface=tun2\n").unwrap();
    assert_eq!(config.gateway, "10.0.0.1");
    assert_eq!(config.interface, "tun2");
    assert_eq!(config.concurrency, 4);
    assert!(!config.ss_enabled);
    assert_eq!(config.mtu, DEFAULT_MTU);
}

#[test]
fn test_parse_full_config() {
    let config = read_config(
        "gateway=10.0.0.1\n\
         interface=tun2\n\
         default_gw=192.168.1.1\n\
         default_interface=eth0\n\
         concurrency=100\n\
         mtu=1400\n\
         ss_enabled=true\n\
         ss_server=1.2.3.4\n\
         ss_server_port=8388\n\
         ss_password=secret\n\
         ss_method=chacha20-ietf-poly1305\n\
         obfs_mode=xray\n\
         obfs_host=www.bing.com\n\
         ss_plugin=xray-plugin\n\
         ss_plugin_opts=server;tls;host=example.com\n",
    )
    .unwrap();
    assert_eq!(config.gateway, "10.0.0.1");
    assert_eq!(config.default_gateway, "192.168.1.1");
    assert_eq!(config.default_interface, "eth0");
    assert_eq!(config.concurrency, 100);
    assert_eq!(config.mtu, 1400);
    assert!(config.ss_enabled);
    assert_eq!(config.ss_server, "1.2.3.4");
    assert_eq!(config.ss_server_port, 8388);
    assert_eq!(config.ss_password, "secret");
    assert_eq!(config.ss_method, "chacha20-ietf-poly1305");
    assert_eq!(config.obfs_mode, ObfsMode::Xray);
    assert_eq!(config.obfs_host, "www.bing.com");
    assert_eq!(config.ss_plugin, "xray-plugin");
    assert_eq!(config.ss_plugin_opts, "server;tls;host=example.com");
}

#[test]
fn test_comments_and_blanks() {
    let config = read_config("# comment\n\ngateway=10.0.0.1\n  # another\n").unwrap();
    assert_eq!(config.gateway, "10.0.0.1");
}

#[test]
fn test_empty_values_skipped() {
    let config = read_config("gateway=\ninterface=tun0\n").unwrap();
    assert_eq!(config.gateway, ""); // default empty
    assert_eq!(config.interface, "tun0");
}

#[test]
fn test_ipv6_gateway() {
    let config =
        read_config("gateway=10.0.0.1\ngateway6=2001:db8::1\ninterface=tun2\n").unwrap();
    assert_eq!(config.gateway, "10.0.0.1");
    assert_eq!(config.gateway6, "2001:db8::1");
}

#[test]
fn test_ipv6_gateway6() {
    let config = read_config("gateway6=2001:db8::2\ninterface=tun2\n").unwrap();
    assert_eq!(config.gateway6, "2001:db8::2");
}

#[test]
fn test_ss_enabled_variants() {
    let test_cases = vec![
        ("true", true),
        ("false", false),
        ("True", true),
        ("FALSE", false),
        ("yes", true),
        ("no", false),
        ("Yes", true),
        ("No", false),
        ("1", true),
        ("0", false),
    ];
    for (input, expected) in test_cases {
        let text = format!("gateway=10.0.0.1\ninterface=tun2\nss_enabled={}\n", input);
        let config = read_config(&text).unwrap();
        assert_eq!(config.ss_enabled, expected, "ss_enabled={}", input);
    }
}

#[test]
fn test_ss_enabled_invalid_value() {
    let test_cases = vec!["tru", "ye", "Falsey", "1.0", "on", "off"];
    for input in test_cases {
        let text = format!("gateway=10.0.0.1\ninterface=tun2\nss_enabled={}\n", input);
        let result = read_config(&text);
        assert!(result.is_err(), "ss_enabled={} should fail", input);
    }
}

#[test]
fn defaults_without_any_line() {
    let config = read_config("").unwrap();
    assert_eq!(config.gateway, "");
    assert_eq!(config.ss_method, "aes-256-gcm");
    assert_eq!(config.obfs_mode, ObfsMode::Disable);
    assert_eq!(config.ss_server_port, 0);
    assert_eq!(config.mtu, 1500);
}

#[test]
fn mtu_zero_is_automatic() {
    assert_eq!(read_config("mtu=0\n").unwrap().mtu, 1500);
    assert_eq!(read_config("mtu=1350\n").unwrap().mtu, 1350);
}

#[test]
fn last_value_wins() {
    let config = read_config("interface=tun0\nmtu=1400\ninterface = tun1\n").unwrap();
    assert_eq!(config.interface, "tun1");
    assert_eq!(config.mtu, 1400);
}

#[test]
fn unknown_keys_and_lines_without_value_are_ignored() {
    let config = read_config("debug=true\nno assignment here\ngateway=10.0.0.1\r\n").unwrap();
    assert_eq!(config.gateway, "10.0.0.1");
}

#[test]
fn values_keep_further_equal_signs() {
    let config = read_config("ss_password=a=b=c\n").unwrap();
    assert_eq!(config.ss_password, "a=b=c");
}

#[test]
fn both_names_of_concurrency() {
    assert_eq!(read_config("goroutine_count=7\n").unwrap().concurrency, 7);
    assert_eq!(read_config("concurrency=+8\n").unwrap().concurrency, 8);
}

#[test]
fn both_names_of_the_plugin_mode() {
    assert_eq!(read_config("obfs_mode=v2ray\n").unwrap().obfs_mode, ObfsMode::Xray);
    assert_eq!(
        read_config("obfs_mode=simple-obfs\n").unwrap().obfs_mode,
        ObfsMode::SimpleObfs
    );
    assert_eq!(read_config("obfs_mode=disable\n").unwrap().obfs_mode, ObfsMode::Disable);
}

#[test]
fn each_setting_can_be_refused() {
    let cases = vec![
        ("ss_enabled=maybe\n", Setting::Boolean, "boolean value expected, got 'maybe'"),
        ("concurrency=-1\n", Setting::Concurrency, "invalid concurrency value '-1'"),
        ("mtu=65536\n", Setting::Mtu, "invalid mtu value '65536'"),
        ("ss_server_port=http\n", Setting::ServerPort, "invalid ss_server_port value 'http'"),
        ("obfs_mode=XRAY\n", Setting::ObfsMode, "unknown obfs_mode: XRAY"),
    ];
    for (text, setting, message) in cases {
        let e = read_config(text).err().unwrap();
        assert!(e.setting == setting);
        assert_eq!(e.message(), message);
    }
}

#[test]
fn the_first_refused_line_is_reported() {
    let e = read_config("mtu=x\nss_enabled=y\n").err().unwrap();
    assert_eq!(e.message(), "invalid mtu value 'x'");
}

#[test]
fn booleans_in_any_case() {
    assert_eq!(parse_bool("YES").unwrap(), true);
    assert_eq!(parse_bool("nO").unwrap(), false);
    assert_eq!(parse_bool(" yes").err().unwrap().message(), "boolean value expected, got ' yes'");
}

#[test]
fn the_last_line_of_a_setting_decides() {
    assert_eq!(read_config("mtu=1400\nmtu=0\n").unwrap().mtu, 1500);
    assert_eq!(read_config("mtu=0\ngateway=x\nmtu=1300\n").unwrap().mtu, 1300);
    let config = read_config("concurrency=2\ngoroutine_count=3\nunknown=9\n").unwrap();
    assert_eq!(config.concurrency, 3);
    assert_eq!(read_config("goroutine_count=3\nconcurrency=2\n").unwrap().concurrency, 2);
}
