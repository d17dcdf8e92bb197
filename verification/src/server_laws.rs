//! How the address of a server is read, and when a server is used.

use vstd::prelude::*;

use crate::addr_text::ip_of;
use crate::addr_text::ipv4_of;
use crate::addr_text::ipv6_groups;
use crate::server::is_addr;
use crate::server::is_checked;
use crate::server::is_ipv4_endpoint;
use crate::server::is_ipv6_endpoint;
use crate::server::is_plainly_read;
use crate::server::scope_of;
use crate::server::ServerAddr;
use crate::server::ServerError;
use crate::server::ServerSettings;
use crate::server::SocketEndpoint;
use crate::text::decimal;
use crate::text::law_decimal_reads_back;
use crate::text::lemma_position_bounds;
use crate::text::lemma_split_alone;
use crate::text::lemma_split_at;
use crate::text::position_of;
use crate::text_laws::law_decimal;
use crate::text_laws::law_divided;

verus! {

/// Whether a server is used, by its cipher and its address: a cipher that is not
/// known comes first, then an address that cannot be read; otherwise the settings
/// hold what was given, and the address that was read, and no plugin.
pub proof fn law_server_settings(
    addr: Seq<char>,
    method: Seq<char>,
    password: Seq<char>,
    known: bool,
    found: Option<(Seq<char>, u16, bool)>,
    r: Result<ServerSettings, ServerError>,
)
    requires
        is_checked(addr, method, password, known, found, r),
    ensures
        !known ==> r is Err && r->Err_0 is UnknownCipher && r->Err_0->UnknownCipher_0@ == method,
        known && found is None ==> r is Err && r->Err_0 is InvalidAddress
            && r->Err_0->InvalidAddress_0@ == addr,
        known && found is Some ==> {
            let (host, port, numeric) = found.unwrap();
            &&& r is Ok
            &&& r->Ok_0.method@ == method
            &&& r->Ok_0.password@ == password
            &&& r->Ok_0.plugin is None
            &&& numeric && ip_of(host) is Some ==> r->Ok_0.addr == ServerAddr::Socket(
                SocketEndpoint { ip: ip_of(host).unwrap(), port, scope_id: scope_of(addr) },
            )
            &&& !numeric ==> r->Ok_0.addr is Domain && r->Ok_0.addr->Domain_0@ == host
                && r->Ok_0.addr->Domain_1 == port
        },
{
    if known && found is Some {
        assert(is_addr(r->Ok_0.addr, found.unwrap(), scope_of(addr)));
    }
}

/// The scope identifier is the number between the first percent sign and the bracket
/// behind it, and zero where there is none.
pub proof fn law_scope(front: Seq<char>, n: u32, back: Seq<char>, text: Seq<char>)
    requires
        !front.contains('%'),
        !text.contains('%'),
    ensures
        scope_of(front + seq!['%'] + (decimal(n as nat) + seq![']'] + back)) == n,
        scope_of(text) == 0,
{
    let d = decimal(n as nat);
    law_decimal(n as nat);
    assert(!d.contains(']')) by {
        if d.contains(']') {
            let i = choose|i: int| 0 <= i < d.len() && d[i] == ']';
            assert('0' <= d[i] <= '9');
        }
    }
    law_divided(d, ']', back);
    law_divided(front, '%', d + seq![']'] + back);
    law_decimal_reads_back(n as nat, u32::MAX as nat);
    lemma_position_bounds(text, '%');
    if position_of(text, '%') < text.len() {
        assert(text[position_of(text, '%')] == '%');
    }
}

/// An IP address and a port, with a scope identifier where one is given, are read as
/// that address, port and scope identifier.
pub proof fn law_numeric_servers(
    ip: Seq<char>,
    n: u32,
    port: u16,
    addr: Seq<char>,
    r: Result<ServerSettings, ServerError>,
)
    requires
        is_plainly_read(addr, true, r),
    ensures
        addr == ip + seq![':'] + decimal(port as nat) && ipv4_of(ip) is Some ==> r is Ok
            && r->Ok_0.addr == ServerAddr::Socket(
            SocketEndpoint { ip: ip_of(ip).unwrap(), port, scope_id: 0 },
        ),
        addr == seq!['['] + ip + seq![']', ':'] + decimal(port as nat) && ipv6_groups(ip) is Some
            ==> r is Ok && r->Ok_0.addr == ServerAddr::Socket(
            SocketEndpoint { ip: ip_of(ip).unwrap(), port, scope_id: 0 },
        ),
        addr == seq!['['] + ip + (seq!['%'] + decimal(n as nat)) + seq![']', ':'] + decimal(
            port as nat,
        ) && ipv6_groups(ip) is Some ==> r is Ok && r->Ok_0.addr == ServerAddr::Socket(
            SocketEndpoint { ip: ip_of(ip).unwrap(), port, scope_id: n },
        ),
{
    if addr == ip + seq![':'] + decimal(port as nat) && ipv4_of(ip) is Some {
        assert(is_ipv4_endpoint(addr, ip, port));
    }
    if addr == seq!['['] + ip + seq![']', ':'] + decimal(port as nat) && ipv6_groups(ip) is Some {
        assert(seq!['['] + ip + Seq::empty() =~= seq!['['] + ip);
        assert(is_ipv6_endpoint(addr, ip, None, port));
    }
    if addr == seq!['['] + ip + (seq!['%'] + decimal(n as nat)) + seq![']', ':'] + decimal(
        port as nat,
    ) && ipv6_groups(ip) is Some {
        assert(is_ipv6_endpoint(addr, ip, Some(n), port));
    }
}

/// A host name and a port, with a colon between them, are read as that name and
/// port. A name without a colon is refused.
pub proof fn law_named_servers(
    host: Seq<char>,
    port: u16,
    addr: Seq<char>,
    r: Result<ServerSettings, ServerError>,
)
    requires
        host.len() > 0,
        host[0] != '[',
        !host.contains(':'),
        ipv4_of(host) is None,
        is_plainly_read(addr, true, r),
    ensures
        addr == host + seq![':'] + decimal(port as nat) ==> r is Ok && r->Ok_0.addr is Domain
            && r->Ok_0.addr->Domain_0@ == host && r->Ok_0.addr->Domain_1 == port,
        addr == host ==> r is Err,
{
    let d = decimal(port as nat);
    law_decimal(port as nat);
    assert(!d.contains(':')) by {
        if d.contains(':') {
            let i = choose|i: int| 0 <= i < d.len() && d[i] == ':';
            assert('0' <= d[i] <= '9');
        }
    }
    lemma_split_alone(d, ':');
    lemma_split_alone(host, ':');
    lemma_split_at(host, ':', d);
    law_decimal_reads_back(port as nat, 65535);
    if addr == host + seq![':'] + d {
        assert(addr[0] == host[0]);
    }
}

} // verus!
