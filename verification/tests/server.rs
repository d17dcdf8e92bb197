use ssroute::addr::IpAddr;
use ssroute::config::read_config;
use ssroute::server::{
    build_ss_config, dial_addr, join_host_port, on_session_event, resolve_server_addr, server_addr,
    settings_for, HostPort, ServerAddr, ServerError, SessionEvent, SessionStep, SocketEndpoint, SsProxy,
};
use ssroute::tunnel::Endpoint;

fn endpoint(ip: &str, port: u16) -> Endpoint {
    Endpoint { ip: IpAddr::parse(ip).unwrap(), port }
}

fn socket(ip: &str, port: u16, scope_id: u32) -> SocketEndpoint {
    SocketEndpoint { ip: IpAddr::parse(ip).unwrap(), port, scope_id }
}

fn refusal(r: Result<SsProxy, ServerError>) -> String {
    r.err().unwrap().message()
}

#[test]
fn servers_by_address() {
    let p = SsProxy::new("1.2.3.4:8388", "aes-256-gcm", "secret").unwrap();
    assert!(matches!(&p.settings.addr, ServerAddr::Socket(at) if *at == socket("1.2.3.4", 8388, 0)));
    assert_eq!(p.settings.method, "aes-256-gcm");
    assert_eq!(p.settings.password, "secret");
    assert!(p.settings.plugin.is_none());
    assert_eq!(resolve_server_addr(&p.settings.addr), socket("1.2.3.4", 8388, 0));

    let p = SsProxy::new("[2001:db8::1]:443", "none", "").unwrap();
    assert!(
        matches!(&p.settings.addr, ServerAddr::Socket(at) if *at == socket("2001:db8::1", 443, 0))
    );
}

#[test]
fn servers_by_name() {
    let p = SsProxy::new("example.com:8388", "Chacha20-IETF-Poly1305", "x").unwrap();
    assert!(
        matches!(&p.settings.addr, ServerAddr::Domain(h, port) if h == "example.com" && *port == 8388)
    );
    assert_eq!(resolve_server_addr(&p.settings.addr), socket("127.0.0.1", 8388, 0));
    // What stands behind the second colon is not looked at.
    let p = SsProxy::new("example.com:1:2", "aes-128-gcm", "x").unwrap();
    assert!(matches!(&p.settings.addr, ServerAddr::Domain(_, 1)));
}

#[test]
fn servers_that_are_refused() {
    assert_eq!(refusal(SsProxy::new("x", "rot13", "y")), "unknown cipher: rot13");
    assert_eq!(refusal(SsProxy::new("1.2.3.4:1", "", "y")), "unknown cipher: ");
    let message = |addr: &str| refusal(SsProxy::new(addr, "aes-256-gcm", "y"));
    assert_eq!(message("x"), "invalid SS server address 'x': ServerAddrError");
    assert_eq!(message(":80"), "invalid SS server address ':80': ServerAddrError");
    assert_eq!(message("x:65536"), "invalid SS server address 'x:65536': ServerAddrError");
    assert_eq!(
        ServerError::InvalidConfig("r".to_string()).message(),
        "invalid SS config: r"
    );
    assert_eq!(
        ServerError::InvalidServerConfig("r".to_string()).message(),
        "invalid SS server config: r"
    );
}

#[test]
fn settings_from_the_configuration() {
    let text = "ss_server=1.2.3.4\nss_server_port=8388\nss_password=secret\n";
    let config = read_config(text).unwrap();
    let s = build_ss_config(&config, Some(endpoint("127.0.0.1", 5555))).unwrap();
    assert!(matches!(&s.addr, ServerAddr::Socket(at) if *at == socket("1.2.3.4", 8388, 0)));
    assert_eq!(s.method, "aes-256-gcm");
    assert_eq!(s.password, "secret");
    assert_eq!(s.plugin, Some(endpoint("127.0.0.1", 5555)));

    let config = read_config("ss_server=::1\nss_server_port=1\n").unwrap();
    let e = build_ss_config(&config, None).err().unwrap();
    assert_eq!(e.message(), "invalid SS server address '::1:1': ServerAddrError");

    let config = read_config("ss_method=des\n").unwrap();
    let e = build_ss_config(&config, None).err().unwrap();
    assert_eq!(e.message(), "unknown cipher: des");
}

#[test]
fn settings_from_what_is_known() {
    let host = |host: &str, numeric: bool| HostPort { host: host.to_string(), port: 9, numeric };
    let at = SocketEndpoint { ip: IpAddr::V6(1), port: 9, scope_id: 4 };
    assert!(matches!(server_addr(host("::1", true), 4), ServerAddr::Socket(x) if x == at));
    assert!(matches!(server_addr(host("::1", false), 4), ServerAddr::Domain(h, 9) if h == "::1"));
    let e = settings_for("a", "m", "p", false, None).err().unwrap();
    assert_eq!(e.message(), "unknown cipher: m");
    let e = settings_for("a", "m", "p", true, None).err().unwrap();
    assert_eq!(e.message(), "invalid SS server address 'a': ServerAddrError");
    let s = settings_for("a", "m", "p", true, Some(host("h", false))).unwrap();
    assert_eq!((s.method.as_str(), s.password.as_str()), ("m", "p"));
    assert_eq!(join_host_port("h", 65535), "h:65535");
}

#[test]
fn udp_sessions() {
    assert_eq!(on_session_event(SessionEvent::Outgoing), SessionStep::Send);
    assert_eq!(on_session_event(SessionEvent::Received), SessionStep::Deliver);
    assert_eq!(on_session_event(SessionEvent::Sent(true)), SessionStep::Wait);
    assert_eq!(on_session_event(SessionEvent::Delivered(true)), SessionStep::Wait);
    assert_eq!(on_session_event(SessionEvent::Sent(false)), SessionStep::Stop);
    assert_eq!(on_session_event(SessionEvent::Delivered(false)), SessionStep::Stop);
    assert_eq!(on_session_event(SessionEvent::OutgoingClosed), SessionStep::Stop);
    assert_eq!(on_session_event(SessionEvent::ReceiveFailed), SessionStep::Stop);
}

#[test]
fn scope_identifiers_are_kept() {
    let p = SsProxy::new("[fe80::1%2]:8388", "none", "").unwrap();
    assert_eq!(resolve_server_addr(&p.settings.addr), socket("fe80::1", 8388, 2));
    let p = SsProxy::new("[fe80::1%4294967295]:1", "none", "").unwrap();
    assert_eq!(resolve_server_addr(&p.settings.addr), socket("fe80::1", 1, u32::MAX));
    assert!(SsProxy::new("[fe80::1%4294967296]:1", "none", "").is_err());
    assert!(SsProxy::new("[fe80::1%eth0]:1", "none", "").is_err());
}

#[test]
fn a_plugin_is_connected_to_instead_of_the_server() {
    let text = "ss_server=example.com\nss_server_port=8388\nss_password=secret\n";
    let config = read_config(text).unwrap();
    let s = build_ss_config(&config, Some(endpoint("127.0.0.1", 5555))).unwrap();
    assert!(matches!(dial_addr(&s), ServerAddr::Socket(at) if at == socket("127.0.0.1", 5555, 0)));
    let s = build_ss_config(&config, None).unwrap();
    assert!(
        matches!(dial_addr(&s), ServerAddr::Domain(h, 8388) if h == "example.com")
    );
    let p = SsProxy::new("[fe80::1%2]:8388", "none", "").unwrap();
    assert!(
        matches!(dial_addr(&p.settings), ServerAddr::Socket(at) if at == socket("fe80::1", 8388, 2))
    );
}
