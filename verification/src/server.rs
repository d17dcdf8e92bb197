//! The Shadowsocks server: its address, cipher and password.

use vstd::prelude::*;
use vstd::string::StringExecFns;

use crate::addr::IpAddr;
use crate::addr_laws::lemma_ipv4_chars;
use crate::addr_laws::lemma_ipv6_chars;
use crate::addr_text::ip_of;
use crate::addr_text::ipv4_of;
use crate::addr_text::ipv6_groups;
use crate::config::Config;
use crate::text::decimal;
use crate::text::divided;
use crate::text::is_digit;
use crate::text::joined;
use crate::text::law_decimal_reads_back;
use crate::text::lemma_decimal;
use crate::text::lemma_position_bounds;
use crate::text::lemma_position_of;
use crate::text::lemma_split_alone;
use crate::text::lemma_split_at;
use crate::text::lowered;
use crate::text::parse_number;
use crate::text::parsed_number;
use crate::text::position_of;
use crate::text::push_decimal;
use crate::text::split_once;
use crate::text::split_parts;
use crate::tunnel::Endpoint;

verus! {

/// An IP address and a port, with the scope identifier that an IPv6 address may
/// have. It is zero where there is none.
#[derive(Debug, Clone, Copy, PartialEq, Eq, Structural)]
pub struct SocketEndpoint {
    pub ip: IpAddr,
    pub port: u16,
    pub scope_id: u32,
}

/// Where a server is reached.
#[derive(Debug)]
pub enum ServerAddr {
    Socket(SocketEndpoint),
    /// A host name and a port.
    Domain(String, u16),
}

/// What a server's settings hold.
#[derive(Debug)]
pub struct ServerSettings {
    pub addr: ServerAddr,
    pub method: String,
    pub password: String,
    /// Where the plugin listens that stands between this program and the server.
    pub plugin: Option<Endpoint>,
}

/// Why a server's settings cannot be used.
#[derive(Debug)]
pub enum ServerError {
    UnknownCipher(String),
    InvalidAddress(String),
    /// With the reason.
    InvalidConfig(String),
    /// With the reason.
    InvalidServerConfig(String),
}

/// What is said of settings that cannot be used.
pub open spec fn server_error_text(e: ServerError) -> Seq<char> {
    match e {
        ServerError::UnknownCipher(method) => "unknown cipher: "@ + method@,
        ServerError::InvalidAddress(addr) => "invalid SS server address '"@ + addr@
            + "': ServerAddrError"@,
        ServerError::InvalidConfig(reason) => "invalid SS config: "@ + reason@,
        ServerError::InvalidServerConfig(reason) => "invalid SS server config: "@ + reason@,
    }
}

impl ServerError {
    /// What is said of the settings.
    pub fn message(&self) -> (r: String)
        ensures
            r@ == server_error_text(*self),
    {
        match self {
            ServerError::UnknownCipher(method) => joined("unknown cipher: ", method.as_str()),
            ServerError::InvalidAddress(addr) => joined(
                "invalid SS server address '",
                addr.as_str(),
            ).concat("': ServerAddrError"),
            ServerError::InvalidConfig(reason) => joined("invalid SS config: ", reason.as_str()),
            ServerError::InvalidServerConfig(reason) => joined(
                "invalid SS server config: ",
                reason.as_str(),
            ),
        }
    }
}

/// Whether a text in small letters names a cipher.
pub open spec fn is_cipher(lower: Seq<char>) -> bool {
    ||| lower == "aes-128-gcm"@
    ||| lower == "aes-256-gcm"@
    ||| lower == "chacha20-ietf-poly1305"@
    ||| lower == "plain"@
    ||| lower == "none"@
}

/// Calls `CipherKind::from_str` of `shadowsocks`. Taken on trust: a name is known
/// if, in small letters as `str::to_lowercase` makes them, it is one of the names
/// above, which are those that the crate has with its default features.
#[verifier::external_body]
fn knows_cipher(method: &str) -> (r: bool)
    ensures
        r == is_cipher(lowered(method@)),
{
    method.parse::<shadowsocks::crypto::CipherKind>().is_ok()
}

/// What `ServerAddr::from_str` of `shadowsocks` makes of a text: a host, a port,
/// and whether the host is an IP address.
pub uninterp spec fn server_addr_of(text: Seq<char>) -> Option<(Seq<char>, u16, bool)>;

/// The host name and the port in a text: what stands before the first colon, and
/// between it and the next.
pub open spec fn named_of(text: Seq<char>) -> Option<(Seq<char>, u16)> {
    let parts = split_parts(text, ':');
    if parts.len() >= 2 && parts[0].len() > 0 {
        match parsed_number(parts[1], 65535) {
            Some(port) => Some((parts[0], port as u16)),
            None => None,
        }
    } else {
        None
    }
}

/// Whether a text is an IPv4 address, a colon and a port.
pub open spec fn is_ipv4_endpoint(text: Seq<char>, ip: Seq<char>, port: u16) -> bool {
    text == ip + seq![':'] + decimal(port as nat) && ipv4_of(ip) is Some
}

/// A scope identifier behind a percent sign, where there is one.
pub open spec fn scope_text(scope: Option<u32>) -> Seq<char> {
    match scope {
        Some(n) => seq!['%'] + decimal(n as nat),
        None => Seq::empty(),
    }
}

/// Whether a text is an IPv6 address in brackets, with a scope identifier or
/// without, a colon and a port.
pub open spec fn is_ipv6_endpoint(
    text: Seq<char>,
    ip: Seq<char>,
    scope: Option<u32>,
    port: u16,
) -> bool {
    &&& text == seq!['['] + ip + scope_text(scope) + seq![']', ':'] + decimal(port as nat)
    &&& ipv6_groups(ip) is Some
}

/// The scope identifier in a text: the number between a percent sign and the next
/// closing bracket, or zero.
pub open spec fn scope_of(text: Seq<char>) -> u32 {
    match divided(text, '%') {
        Some((_, rest)) => match divided(rest, ']') {
            Some((digits, _)) => match parsed_number(digits, u32::MAX as nat) {
                Some(n) => n as u32,
                None => 0,
            },
            None => 0,
        },
        None => 0,
    }
}

/// The scope identifier in a text.
fn read_scope(text: &str) -> (r: u32)
    ensures
        r == scope_of(text@),
{
    match split_once(text, '%') {
        Some((_, rest)) => match split_once(rest, ']') {
            Some((digits, _)) => match parse_number(digits, u32::MAX as u64) {
                Some(n) => n as u32,
                None => 0,
            },
            None => 0,
        },
        None => 0,
    }
}

/// Whether a text begins as a socket address does: with a bracket, or with an
/// IPv4 address before a colon.
pub open spec fn begins_numeric(text: Seq<char>) -> bool {
    (text.len() > 0 && text[0] == '[') || ipv4_of(split_parts(text, ':')[0]) is Some
}

/// A host and a port, and whether the host is an IP address.
#[derive(Debug)]
pub struct HostPort {
    pub host: String,
    pub port: u16,
    pub numeric: bool,
}

/// The host, the port and the kind of the host.
pub open spec fn host_port(r: Option<HostPort>) -> Option<(Seq<char>, u16, bool)> {
    match r {
        Some(a) => Some((a.host@, a.port, a.numeric)),
        None => None,
    }
}

/// Calls `ServerAddr::from_str` of `shadowsocks`. Taken on trust: what it reads
/// depends on the text alone; the host of a socket address is an IP address;
/// what is no socket address is read as a host name and a port, or not at all;
/// a socket address begins with a bracket or an IPv4 address; and an IPv4
/// address with a port, or an IPv6 address in brackets with one, with or without
/// a scope identifier, is a socket address. Whether a text is one that has zeros
/// before its port or its scope identifier is left unsaid.
#[verifier::external_body]
fn split_server_addr(text: &str) -> (r: Option<HostPort>)
    ensures
        host_port(r) == server_addr_of(text@),
        r matches Some(a) ==> a.numeric ==> ip_of(a.host@) is Some,
        r matches Some(a) ==> !a.numeric ==> named_of(text@) == Some((a.host@, a.port)),
        r is None ==> named_of(text@) is None,
        r matches Some(a) ==> a.numeric ==> begins_numeric(text@),
        forall|ip: Seq<char>, scope: Option<u32>, port: u16| #[trigger]
            is_ipv6_endpoint(text@, ip, scope, port) ==> r is Some && r->0.numeric && r->0.port == port
                && ip_of(r->0.host@) == ip_of(ip),
        forall|ip: Seq<char>, port: u16| #[trigger]
            is_ipv4_endpoint(text@, ip, port) ==> r is Some && r->0.numeric && r->0.port == port
                && ip_of(r->0.host@) == ip_of(ip),
{
    match text.parse::<shadowsocks::ServerAddr>() {
        Ok(shadowsocks::ServerAddr::SocketAddr(sa)) => Some(
            HostPort { host: sa.ip().to_string(), port: sa.port(), numeric: true },
        ),
        Ok(shadowsocks::ServerAddr::DomainName(host, port)) => Some(
            HostPort { host, port, numeric: false },
        ),
        Err(_) => None,
    }
}

/// Calls `ServerConfig::new` of `shadowsocks`. Taken on trust: with a cipher that
/// the crate has with its default features, any password is accepted.
#[verifier::external_body]
fn try_server(addr: &str, method: &str, password: &str) -> (r: Result<(), String>)
    requires
        is_cipher(lowered(method@)),
        server_addr_of(addr@) is Some,
    ensures
        r is Ok,
{
    let cipher = method.parse::<shadowsocks::crypto::CipherKind>().unwrap();
    let addr = addr.parse::<shadowsocks::ServerAddr>().unwrap();
    match shadowsocks::config::ServerConfig::new(addr, password, cipher) {
        Ok(_) => Ok(()),
        Err(e) => Err(format!("{e:?}")),
    }
}

/// The address for a host, a port and the kind of the host, with the scope
/// identifier that a socket address has.
pub open spec fn is_addr(
    addr: ServerAddr,
    found: (Seq<char>, u16, bool),
    scope_id: u32,
) -> bool {
    let (host, port, numeric) = found;
    if numeric {
        match ip_of(host) {
            Some(ip) => addr == ServerAddr::Socket(SocketEndpoint { ip, port, scope_id }),
            None => false,
        }
    } else {
        addr is Domain && addr->Domain_0@ == host && addr->Domain_1 == port
    }
}

/// Turns a host and a port into an address. The host of a socket address must be
/// an IP address.
pub fn server_addr(found: HostPort, scope_id: u32) -> (r: ServerAddr)
    requires
        found.numeric ==> ip_of(found.host@) is Some,
    ensures
        is_addr(r, (found.host@, found.port, found.numeric), scope_id),
{
    if found.numeric {
        match IpAddr::parse(found.host.as_str()) {
            Some(ip) => {
                return ServerAddr::Socket(SocketEndpoint { ip, port: found.port, scope_id });
            },
            None => {},
        }
    }
    ServerAddr::Domain(found.host, found.port)
}

/// Whether a server can be used, and how it is reached, given what is known of
/// its cipher and its address. An unknown cipher is reported first.
pub open spec fn is_checked(
    addr: Seq<char>,
    method: Seq<char>,
    password: Seq<char>,
    known: bool,
    found: Option<(Seq<char>, u16, bool)>,
    r: Result<ServerSettings, ServerError>,
) -> bool {
    if !known {
        r matches Err(ServerError::UnknownCipher(m)) && m@ == method
    } else {
        match found {
            None => r matches Err(ServerError::InvalidAddress(a)) && a@ == addr,
            Some(f) => {
                &&& r is Ok
                &&& is_addr(r->Ok_0.addr, f, scope_of(addr))
                &&& r->Ok_0.method@ == method
                &&& r->Ok_0.password@ == password
                &&& r->Ok_0.plugin is None
            },
        }
    }
}

/// Decides on a server, given what is known of its cipher and its address.
pub fn settings_for(
    addr: &str,
    method: &str,
    password: &str,
    known: bool,
    found: Option<HostPort>,
) -> (r: Result<ServerSettings, ServerError>)
    requires
        found matches Some(a) ==> a.numeric ==> ip_of(a.host@) is Some,
    ensures
        is_checked(addr@, method@, password@, known, host_port(found), r),
{
    if !known {
        return Err(ServerError::UnknownCipher(method.to_string()));
    }
    match found {
        None => Err(ServerError::InvalidAddress(addr.to_string())),
        Some(f) => Ok(
            ServerSettings {
                addr: server_addr(f, read_scope(addr)),
                method: method.to_string(),
                password: password.to_string(),
                plugin: None,
            },
        ),
    }
}

/// What follows for servers whose address has one of the usual forms: it is the
/// socket address, or the host name and the port, that the text shows.
pub open spec fn is_plainly_read(
    addr: Seq<char>,
    known: bool,
    r: Result<ServerSettings, ServerError>,
) -> bool {
    &&& forall|ip: Seq<char>, port: u16| #[trigger]
        is_ipv4_endpoint(addr, ip, port) && known ==> r is Ok && r->Ok_0.addr
            == ServerAddr::Socket(SocketEndpoint { ip: ip_of(ip)->0, port, scope_id: 0 })
    &&& forall|ip: Seq<char>, scope: Option<u32>, port: u16| #[trigger]
        is_ipv6_endpoint(addr, ip, scope, port) && known ==> r is Ok && r->Ok_0.addr
            == ServerAddr::Socket(
            SocketEndpoint {
                ip: ip_of(ip)->0,
                port,
                scope_id: match scope {
                    Some(n) => n,
                    None => 0,
                },
            },
        )
    &&& !begins_numeric(addr) && known ==> match named_of(addr) {
        Some((host, port)) => r is Ok && is_addr(r->Ok_0.addr, (host, port, false), 0),
        None => r is Err,
    }
}

/// Checks a server. A refusal of the settings as a whole is handed on as
/// `InvalidConfig`.
fn check_server(addr: &str, method: &str, password: &str) -> (r: Result<
    ServerSettings,
    ServerError,
>)
    ensures
        is_checked(
            addr@,
            method@,
            password@,
            is_cipher(lowered(method@)),
            server_addr_of(addr@),
            r,
        ),
        is_plainly_read(addr@, is_cipher(lowered(method@)), r),
{
    let known = knows_cipher(method);
    let found = split_server_addr(addr);
    if known && found.is_some() {
        match try_server(addr, method, password) {
            Ok(()) => {},
            Err(reason) => {
                return Err(ServerError::InvalidConfig(reason));
            },
        }
    }
    proof {
        assert forall|ip: Seq<char>, port: u16| #[trigger]
            is_ipv4_endpoint(addr@, ip, port) implies scope_of(addr@) == 0 by {
            lemma_ipv4_has_no_scope(addr@, ip, port);
        }
        assert forall|ip: Seq<char>, scope: Option<u32>, port: u16| #[trigger]
            is_ipv6_endpoint(addr@, ip, scope, port) implies scope_of(addr@) == (match scope {
            Some(n) => n,
            None => 0,
        }) by {
            lemma_ipv6_scope(addr@, ip, scope, port);
        }
    }
    settings_for(addr, method, password, known, found)
}

/// A text without a percent sign has no scope identifier.
proof fn lemma_no_scope(text: Seq<char>)
    requires
        !text.contains('%'),
    ensures
        scope_of(text) == 0,
{
    lemma_position_bounds(text, '%');
    if position_of(text, '%') < text.len() {
        assert(text[position_of(text, '%')] == '%');
    }
}

/// An IPv4 address with a port has no scope identifier.
proof fn lemma_ipv4_has_no_scope(text: Seq<char>, ip: Seq<char>, port: u16)
    requires
        is_ipv4_endpoint(text, ip, port),
    ensures
        scope_of(text) == 0,
{
    lemma_ipv4_chars(ip);
    lemma_decimal(port as nat);
    assert forall|i: int| 0 <= i < text.len() implies text[i] != '%' by {
        if i < ip.len() {
            assert(text[i] == ip[i]);
        } else if i > ip.len() {
            let k = i - ip.len() - 1;
            assert(text[i] == decimal(port as nat)[k]);
            assert(is_digit(decimal(port as nat)[k]));
        }
    }
    lemma_no_scope(text);
}

/// The scope identifier of an IPv6 address is the one between its percent sign and
/// its bracket.
proof fn lemma_ipv6_scope(text: Seq<char>, ip: Seq<char>, scope: Option<u32>, port: u16)
    requires
        is_ipv6_endpoint(text, ip, scope, port),
    ensures
        scope_of(text) == (match scope {
            Some(n) => n,
            None => 0,
        }),
{
    let p = decimal(port as nat);
    lemma_ipv6_chars(ip);
    lemma_decimal(port as nat);
    match scope {
        None => {
            assert(text =~= seq!['['] + ip + seq![']', ':'] + p);
            assert forall|i: int| 0 <= i < text.len() implies text[i] != '%' by {
                if 1 <= i <= ip.len() {
                    assert(text[i] == ip[i - 1]);
                } else if i > ip.len() + 2 {
                    assert(text[i] == p[i - ip.len() - 3]);
                    assert(is_digit(p[i - ip.len() - 3]));
                }
            }
            lemma_no_scope(text);
        },
        Some(n) => {
            let d = decimal(n as nat);
            let front = seq!['['] + ip;
            let rest = d + seq![']', ':'] + p;
            lemma_decimal(n as nat);
            assert(text =~= front + seq!['%'] + rest);
            assert forall|i: int| 0 <= i < front.len() implies text[i] != '%' by {
                if i > 0 {
                    assert(text[i] == ip[i - 1]);
                }
            }
            lemma_position_of(text, '%', front.len() as int);
            assert(text.skip(front.len() as int + 1) =~= rest);
            assert forall|i: int| 0 <= i < d.len() implies rest[i] != ']' by {
                assert(rest[i] == d[i]);
                assert(is_digit(d[i]));
            }
            lemma_position_of(rest, ']', d.len() as int);
            assert(rest.take(d.len() as int) =~= d);
            law_decimal_reads_back(n as nat, u32::MAX as nat);
        },
    }
}

/// The text of a host and a port.
pub open spec fn host_port_text(host: Seq<char>, port: u16) -> Seq<char> {
    host + seq![':'] + decimal(port as nat)
}

/// The text of a host and a port.
pub fn join_host_port(host: &str, port: u16) -> (r: String)
    ensures
        r@ == host_port_text(host@, port),
{
    let mut out = joined(host, ":");
    proof {
        reveal_strlit(":");
        assert(":"@ =~= seq![':']);
    }
    push_decimal(&mut out, port as u64);
    out
}

/// Build the settings of the server from our app config.
/// If obfuscation is enabled, `plugin_local_addr` is where the plugin listens.
pub fn build_ss_config(config: &Config, plugin_local_addr: Option<Endpoint>) -> (r: Result<
    ServerSettings,
    ServerError,
>)
    ensures
        ({
            let addr = host_port_text(config.ss_server@, config.ss_server_port);
            let checked = match r {
                Ok(s) => Ok(ServerSettings { plugin: None, ..s }),
                Err(e) => Err(e),
            };
            &&& is_checked(
                addr,
                config.ss_method@,
                config.ss_password@,
                is_cipher(lowered(config.ss_method@)),
                server_addr_of(addr),
                checked,
            )
            &&& r matches Ok(s) ==> s.plugin == plugin_local_addr
        }),
        is_plainly_read(
            host_port_text(config.ss_server@, config.ss_server_port),
            is_cipher(lowered(config.ss_method@)),
            r,
        ),
{
    let addr = join_host_port(config.ss_server.as_str(), config.ss_server_port);
    match check_server(addr.as_str(), config.ss_method.as_str(), config.ss_password.as_str()) {
        Ok(s) => Ok(
            ServerSettings {
                addr: s.addr,
                method: s.method,
                password: s.password,
                plugin: plugin_local_addr,
            },
        ),
        Err(e) => Err(e),
    }
}

/// The Shadowsocks proxy for TCP and UDP connections: the settings of the server
/// that it goes through.
#[derive(Debug)]
pub struct SsProxy {
    pub settings: ServerSettings,
}

impl SsProxy {
    /// Create a new SS proxy.
    /// `addr` is "host:port" of the SS server (or plugin local address).
    /// `method` is the cipher name (e.g. "aes-256-gcm").
    pub fn new(addr: &str, method: &str, password: &str) -> (r: Result<Self, ServerError>)
        ensures
            is_checked(
                addr@,
                method@,
                password@,
                is_cipher(lowered(method@)),
                server_addr_of(addr@),
                match r {
                    Ok(p) => Ok(p.settings),
                    Err(e) => Err(e),
                },
            ),
            is_plainly_read(
                addr@,
                is_cipher(lowered(method@)),
                match r {
                    Ok(p) => Ok(p.settings),
                    Err(e) => Err(e),
                },
            ),
    {
        match check_server(addr, method, password) {
            Ok(settings) => Ok(SsProxy { settings }),
            Err(ServerError::InvalidConfig(reason)) => Err(
                ServerError::InvalidServerConfig(reason),
            ),
            Err(e) => Err(e),
        }
    }
}

/// The forms in which a server is usually named: an IPv4 address with a port, or
/// a host name with one, is a server's address as it is shown.
pub proof fn law_usual_addresses(host: Seq<char>, port: u16)
    requires
        host.len() > 0,
        !host.contains(':'),
    ensures
        ipv4_of(host) is Some ==> is_ipv4_endpoint(host_port_text(host, port), host, port),
        ipv4_of(host) is None && host[0] != '[' ==> {
            &&& !begins_numeric(host_port_text(host, port))
            &&& named_of(host_port_text(host, port)) == Some((host, port))
        },
{
    let digits = decimal(port as nat);
    lemma_decimal(port as nat);
    assert forall|i: int| 0 <= i < digits.len() implies digits[i] != ':' by {
        assert(is_digit(digits[i]));
    }
    lemma_split_alone(digits, ':');
    lemma_split_at(host, ':', digits);
    law_decimal_reads_back(port as nat, 65535);
}

/// Where UDP packets to a server are sent. A host name stands for the local host.
pub open spec fn resolved(addr: ServerAddr) -> SocketEndpoint {
    match addr {
        ServerAddr::Socket(at) => at,
        ServerAddr::Domain(_, port) => SocketEndpoint {
            ip: IpAddr::V4(0x7f00_0001),
            port,
            scope_id: 0,
        },
    }
}

/// Resolve the shadowsocks server UDP address to an address and a port.
///
/// A host name defaults to localhost: it is resolved when the socket connects.
pub fn resolve_server_addr(addr: &ServerAddr) -> (r: SocketEndpoint)
    ensures
        r == resolved(*addr),
{
    match addr {
        ServerAddr::Socket(at) => *at,
        ServerAddr::Domain(_, port) => SocketEndpoint {
            ip: IpAddr::V4(0x7f00_0001),
            port: *port,
            scope_id: 0,
        },
    }
}

/// Whether two addresses are the same.
pub open spec fn same_addr(a: ServerAddr, b: ServerAddr) -> bool {
    match (a, b) {
        (ServerAddr::Socket(x), ServerAddr::Socket(y)) => x == y,
        (ServerAddr::Domain(h, p), ServerAddr::Domain(i, q)) => h@ == i@ && p == q,
        _ => false,
    }
}

/// Whether `r` is where TCP streams to a server go: to the plugin where there is
/// one, and to the server itself where there is none.
pub open spec fn is_dial_addr(plugin: Option<Endpoint>, addr: ServerAddr, r: ServerAddr) -> bool {
    match plugin {
        Some(at) => r == ServerAddr::Socket(
            SocketEndpoint { ip: at.ip, port: at.port, scope_id: 0 },
        ),
        None => same_addr(r, addr),
    }
}

/// Where TCP streams to a server go. A plugin is connected to instead of the
/// server.
pub fn dial_addr(s: &ServerSettings) -> (r: ServerAddr)
    ensures
        is_dial_addr(s.plugin, s.addr, r),
{
    match s.plugin {
        Some(at) => ServerAddr::Socket(
            SocketEndpoint { ip: at.ip, port: at.port, scope_id: 0 },
        ),
        None => match &s.addr {
            ServerAddr::Socket(at) => ServerAddr::Socket(*at),
            ServerAddr::Domain(host, port) => ServerAddr::Domain(host.clone(), *port),
        },
    }
}

/// What happens in a UDP session.
#[derive(Debug, Clone, Copy, PartialEq, Eq, Structural)]
pub enum SessionEvent {
    /// There is a packet to send.
    Outgoing,
    /// There will be no more packets to send.
    OutgoingClosed,
    /// A packet was sent, or could not be.
    Sent(bool),
    /// A packet came in.
    Received,
    /// Nothing can be received.
    ReceiveFailed,
    /// A packet was handed on, or nobody takes it.
    Delivered(bool),
}

/// What an event of a UDP session calls for.
#[derive(Debug, Clone, Copy, PartialEq, Eq, Structural)]
pub enum SessionStep {
    /// Send the packet to the server.
    Send,
    /// Hand the packet on.
    Deliver,
    /// Wait for the next event.
    Wait,
    /// End the session.
    Stop,
}

/// What an event of a UDP session calls for.
pub open spec fn session_step(event: SessionEvent) -> SessionStep {
    match event {
        SessionEvent::Outgoing => SessionStep::Send,
        SessionEvent::Received => SessionStep::Deliver,
        SessionEvent::Sent(true) | SessionEvent::Delivered(true) => SessionStep::Wait,
        SessionEvent::OutgoingClosed | SessionEvent::ReceiveFailed | SessionEvent::Sent(false)
        | SessionEvent::Delivered(false) => SessionStep::Stop,
    }
}

/// Decides what an event of a UDP session calls for. Any failure ends the
/// session.
pub fn on_session_event(event: SessionEvent) -> (r: SessionStep)
    ensures
        r == session_step(event),
{
    match event {
        SessionEvent::Outgoing => SessionStep::Send,
        SessionEvent::Received => SessionStep::Deliver,
        SessionEvent::OutgoingClosed => SessionStep::Stop,
        SessionEvent::ReceiveFailed => SessionStep::Stop,
        SessionEvent::Sent(ok) => if ok {
            SessionStep::Wait
        } else {
            SessionStep::Stop
        },
        SessionEvent::Delivered(ok) => if ok {
            SessionStep::Wait
        } else {
            SessionStep::Stop
        },
    }
}

} // verus!
