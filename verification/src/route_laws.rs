//! Properties of routes.

use vstd::prelude::*;

use crate::addr::address_bits;
use crate::addr::same_family;
use crate::addr::IpAddr;
use crate::addr_text::groups_of;
use crate::addr_text::double_at;
use crate::addr_text::ip_of;
use crate::addr_text::ipv4_of;
use crate::addr_text::octet_of;
use crate::addr_text::side_of;
use crate::route::attempt_after_failure;
use crate::route::destination_of;
use crate::route::gateway_for;
use crate::route::interface_text;
use crate::route::ip_part;
use crate::route::is_route_file;
use crate::route::planned;
use crate::route::reports_exists;
use crate::route::request_of;
use crate::route::says_exists;
use crate::route::step_after_failure;
use crate::route::DestinationFault;
use crate::route::Gateways;
use crate::route::IoCause;
use crate::route::RouteAttempt;
use crate::route::RouteStep;
use crate::text::decimal;
use crate::text::divided;
use crate::text::is_digit;
use crate::text::law_decimal_reads_back;
use crate::text::lemma_position_bounds;
use crate::text::lemma_position_of;
use crate::text::lemma_split_alone;
use crate::text::lemma_split_keeps;
use crate::text::lowered;
use crate::text::occurs;
use crate::text::parsed_number;
use crate::text::position_of;
use crate::text::split_parts;
use crate::text_laws::law_divided;
use crate::text_laws::law_occurs;

verus! {

/// A destination's prefix length is at most the number of bits of its address.
pub proof fn law_prefix_fits(dest: Seq<char>)
    ensures
        destination_of(dest) matches Ok(d) ==> d.1 <= address_bits(d.0),
{
}

/// A bare address is the CIDR of that address alone: the two destinations are
/// the same.
pub proof fn law_bare_address(dest: Seq<char>, ip: IpAddr)
    requires
        ip_of(dest) == Some(ip),
        !dest.contains('/'),
    ensures
        destination_of(dest) is Ok,
        destination_of(dest) == destination_of(
            dest + seq!['/'] + decimal(address_bits(ip) as nat),
        ),
{
    let bits = decimal(address_bits(ip) as nat);
    let cidr = dest + seq!['/'] + bits;
    lemma_position_bounds(dest, '/');
    let at = position_of(dest, '/');
    assert(at == dest.len()) by {
        if at < dest.len() {
            assert(dest[at] == '/');
        }
    }
    lemma_position_of(cidr, '/', dest.len() as int);
    assert(cidr.take(dest.len() as int) =~= dest);
    assert(cidr.skip(dest.len() as int + 1) =~= bits);
    law_decimal_reads_back(address_bits(ip) as nat, 255);
}

/// A decimal octet has no colon.
proof fn lemma_octet_chars(s: Seq<char>)
    requires
        octet_of(s) is Some,
    ensures
        !s.contains(':'),
{
    assert forall|i: int| 0 <= i < s.len() implies s[i] != ':' by {
        assert(is_digit(s[i]));
    }
}

/// A text without a colon has no double colon.
proof fn lemma_no_double(s: Seq<char>)
    requires
        !s.contains(':'),
    ensures
        double_at(s) >= s.len(),
    decreases s.len(),
{
    if s.len() >= 2 {
        assert(s[0] != ':');
        assert forall|i: int| 0 <= i < s.skip(1).len() implies s.skip(1)[i] != ':' by {
            assert(s[i + 1] != ':');
        }
        lemma_no_double(s.skip(1));
    }
}

/// The family of an address shows in its text: an IPv6 address has a colon, and
/// an IPv4 address has none.
pub proof fn law_colon_tells_family(s: Seq<char>, ip: IpAddr)
    requires
        ip_of(s) == Some(ip),
    ensures
        s.contains(':') == (ip is V6),
{
    if ipv4_of(s) is Some {
        if s.contains(':') {
            let k = choose|k: int| 0 <= k < s.len() && s[k] == ':';
            lemma_split_keeps(s, '.', k);
            let parts = split_parts(s, '.');
            let i = choose|i: int| 0 <= i < parts.len() && (#[trigger] parts[i]).contains(s[k]);
            assert(octet_of(parts[i]) is Some);
            lemma_octet_chars(parts[i]);
        }
    } else if !s.contains(':') {
        lemma_no_double(s);
        lemma_split_alone(s, ':');
        let parts = split_parts(s, ':');
        assert(parts.drop_last() =~= Seq::empty());
        assert(groups_of(parts.drop_last(), false) == Some(Seq::<nat>::empty()));
    }
}

/// The first part of a destination is the text that its address is read from.
proof fn lemma_ip_part(dest: Seq<char>)
    ensures
        ip_part(dest) == (match divided(dest, '/') {
            Some((a, _)) => a,
            None => dest,
        }),
{
    lemma_position_bounds(dest, '/');
}

/// Where a destination can be parsed, the gateway that is chosen by its text fits
/// its address, unless `gateway6` itself is an IPv4 address. The request then
/// carries that very gateway.
pub proof fn law_gateway_fits(
    dest: Seq<char>,
    gateways: Gateways,
    iface_name: Seq<char>,
    iface_index: u32,
)
    requires
        destination_of(dest) is Ok,
        gateways.gw6 matches Some(g) ==> g is V6,
    ensures
        ({
            let d = destination_of(dest)->Ok_0;
            let gateway = gateway_for(dest, gateways, iface_name);
            let attempt = RouteAttempt {
                ip: d.0,
                prefix_len: d.1,
                gateway,
                iface_index,
                fallback: false,
            };
            &&& gateway matches Some(g) ==> same_family(g, d.0)
            &&& request_of(attempt).gateway == gateway
        }),
{
    let ip = destination_of(dest)->Ok_0.0;
    lemma_ip_part(dest);
    law_colon_tells_family(ip_part(dest), ip);
}

/// Destinations that can be parsed are never left out of a plan.
pub proof fn law_destinations_are_planned(
    dests: Seq<Seq<char>>,
    gateways: Gateways,
    iface_name: Seq<char>,
)
    requires
        forall|i: int| 0 <= i < dests.len() ==> destination_of(#[trigger] dests[i]) is Ok,
    ensures
        planned(dests, gateways, iface_name).len() == dests.len(),
        forall|i: int|
            0 <= i < dests.len() ==> #[trigger] planned(dests, gateways, iface_name)[i] == (
                dests[i],
                gateway_for(dests[i], gateways, iface_name),
            ),
    decreases dests.len(),
{
    if dests.len() > 0 {
        let dest = dests.last();
        assert(destination_of(dest) is Ok);
        lemma_ip_part(dest);
        if ip_part(dest).len() == 0 {
            lemma_no_empty_address(ip_part(dest));
        }
        assert forall|i: int| 0 <= i < dests.drop_last().len() implies destination_of(
            #[trigger] dests.drop_last()[i],
        ) is Ok by {
            assert(dests.drop_last()[i] == dests[i]);
        }
        law_destinations_are_planned(dests.drop_last(), gateways, iface_name);
    }
}

/// An empty text is no address.
proof fn lemma_no_empty_address(s: Seq<char>)
    requires
        s.len() == 0,
    ensures
        ip_of(s) is None,
{
    lemma_position_bounds(s, '.');
    assert(split_parts(s, '.').len() == 1);
    assert(side_of(s, true) == Some(Seq::<nat>::empty()));
}

/// A route is requested at most twice: the second time without a gateway, and
/// only where one was given. A route that is there already is a success.
pub proof fn law_route_is_tried_twice_at_most(a: RouteAttempt)
    ensures
        step_after_failure(a, true) == RouteStep::Done,
        step_after_failure(a, false) == RouteStep::Retry <==> a.gateway is Some && !a.fallback,
        ({
            let next = attempt_after_failure(a, false);
            step_after_failure(a, false) == RouteStep::Retry ==> {
                &&& request_of(next).gateway is None
                &&& request_of(next).ip == request_of(a).ip
                &&& request_of(next).prefix_len == request_of(a).prefix_len
                &&& request_of(next).iface_index == request_of(a).iface_index
                &&& step_after_failure(next, false) == RouteStep::Fail
            }
        }),
{
}

/// An address with a slash and a number is a destination with that prefix length, if
/// it is at most 32 for IPv4 and 128 for IPv6; the address alone is one with the
/// whole length.
pub proof fn law_destinations(text: Seq<char>, ip: IpAddr, n: u8)
    requires
        ip_of(text) == Some(ip),
        !text.contains('/'),
    ensures
        ({
            let bits: u8 = if ip is V4 {
                32
            } else {
                128
            };
            &&& destination_of(text) == Ok::<(IpAddr, u8), DestinationFault>((ip, bits))
            &&& destination_of(text + seq!['/'] + decimal(n as nat)) == (if n <= bits {
                Ok::<(IpAddr, u8), DestinationFault>((ip, n))
            } else {
                Err(DestinationFault::PrefixTooLong(n, bits))
            })
        }),
{
    law_divided(text, '/', decimal(n as nat));
    law_decimal_reads_back(n as nat, 255);
}

/// Which destinations are refused, and how: those without an address before the
/// slash, without a number up to 255 behind it, and without an address at all.
pub proof fn law_refused_destinations(text: Seq<char>, rest: Seq<char>)
    requires
        !text.contains('/'),
    ensures
        ip_of(text) is None ==> destination_of(text) == Err::<(IpAddr, u8), DestinationFault>(
            DestinationFault::InvalidIp,
        ),
        ip_of(text) is None ==> destination_of(text + seq!['/'] + rest) == Err::<
            (IpAddr, u8),
            DestinationFault,
        >(DestinationFault::InvalidCidrIp),
        ip_of(text) is Some && parsed_number(rest, 255) is None ==> destination_of(
            text + seq!['/'] + rest,
        ) == Err::<(IpAddr, u8), DestinationFault>(DestinationFault::InvalidCidrPrefix),
        ip_of(text) is Some && parsed_number(rest, 255) is Some ==> (destination_of(
            text + seq!['/'] + rest,
        ) is Ok <==> parsed_number(rest, 255).unwrap() <= (if ip_of(text).unwrap() is V4 {
            32int
        } else {
            128
        })),
{
    law_divided(text, '/', rest);
}

/// The gateway of a route by the family of its destination. An IPv4 route has the
/// gateway if that is an IPv4 address. An IPv6 route has none on an interface with
/// "tun" in its name; on any other it has the second gateway, or else the first if
/// that is an IPv6 address.
pub proof fn law_gateway_by_family(dest: Seq<char>, gateways: Gateways, iface_name: Seq<char>)
    requires
        destination_of(dest) is Ok,
    ensures
        ({
            let ip = destination_of(dest)->Ok_0.0;
            let r = gateway_for(dest, gateways, iface_name);
            let tun = exists|a: Seq<char>, b: Seq<char>| iface_name == #[trigger] (a + "tun"@ + b);
            let four = gateways.gw is Some && gateways.gw.unwrap() is V4;
            let six = gateways.gw is Some && gateways.gw.unwrap() is V6;
            &&& ip is V4 && four ==> r == gateways.gw
            &&& ip is V4 && !four ==> r is None
            &&& ip is V6 && tun ==> r is None
            &&& ip is V6 && !tun && gateways.gw6 is Some ==> r == gateways.gw6
            &&& ip is V6 && !tun && gateways.gw6 is None && six ==> r == gateways.gw
            &&& ip is V6 && !tun && gateways.gw6 is None && !six ==> r is None
        }),
{
    lemma_ip_part(dest);
    law_colon_tells_family(ip_part(dest), destination_of(dest)->Ok_0.0);
    law_occurs(iface_name, "tun"@);
}

/// A destination is left out of a plan if and only if it is empty or begins with a
/// slash; any other is planned with its gateway, and in its order.
pub proof fn law_plan(
    a: Seq<Seq<char>>,
    dest: Seq<char>,
    gateways: Gateways,
    iface_name: Seq<char>,
)
    ensures
        planned(Seq::empty(), gateways, iface_name).len() == 0,
        dest.len() == 0 || dest[0] == '/' ==> planned(a.push(dest), gateways, iface_name)
            == planned(a, gateways, iface_name),
        dest.len() > 0 && dest[0] != '/' ==> planned(a.push(dest), gateways, iface_name)
            == planned(a, gateways, iface_name).push(
            (dest, gateway_for(dest, gateways, iface_name)),
        ),
{
    assert(a.push(dest).drop_last() =~= a);
    lemma_ip_part(dest);
    lemma_position_bounds(dest, '/');
    if dest.len() > 0 {
        if dest[0] == '/' {
            lemma_position_of(dest, '/', 0);
        } else if position_of(dest, '/') == 0 {
            assert(dest[0] == '/');
        }
    }
}

/// A text that occurs brings its characters along.
proof fn lemma_occurring_char(s: Seq<char>, part: Seq<char>, i: int)
    requires
        occurs(s, part),
        0 <= i < part.len(),
    ensures
        s.contains(part[i]),
{
    let at = choose|at: int| crate::text::stands_at(s, at, part);
    assert(s.subrange(at, at + part.len())[i] == s[at + i]);
    assert(s[at + i] == part[i]);
}

/// When an error says that the route is there: one of its causes is of that kind or
/// has the number 17, or its message in small letters holds one of three texts. A
/// message with neither an x nor a 7 holds none of them.
pub proof fn law_what_says_exists(causes: Seq<IoCause>, message: Seq<char>)
    ensures
        reports_exists(causes, lowered(message)) <==> {
            ||| exists|i: int|
                0 <= i < causes.len() && ((#[trigger] causes[i]).already_exists
                    || causes[i].raw_os_error == Some(17i32))
            ||| occurs(lowered(message), "file exists"@)
            ||| occurs(lowered(message), "eexist"@)
            ||| occurs(lowered(message), "error 17"@)
        },
        !lowered(message).contains('x') && !lowered(message).contains('7') ==> {
            &&& !occurs(lowered(message), "file exists"@)
            &&& !occurs(lowered(message), "eexist"@)
            &&& !occurs(lowered(message), "error 17"@)
        },
{
    let lower = lowered(message);
    if exists|i: int|
        0 <= i < causes.len() && ((#[trigger] causes[i]).already_exists || causes[i].raw_os_error
            == Some(17i32)) {
        let i = choose|i: int|
            0 <= i < causes.len() && ((#[trigger] causes[i]).already_exists
                || causes[i].raw_os_error == Some(17i32));
        assert(says_exists(causes[i]));
    }
    reveal_strlit("file exists");
    reveal_strlit("eexist");
    reveal_strlit("error 17");
    assert("file exists"@[6] == 'x' && "eexist"@[2] == 'x' && "error 17"@[7] == '7');
    if occurs(lower, "file exists"@) {
        lemma_occurring_char(lower, "file exists"@, 6);
    }
    if occurs(lower, "eexist"@) {
        lemma_occurring_char(lower, "eexist"@, 2);
    }
    if occurs(lower, "error 17"@) {
        lemma_occurring_char(lower, "error 17"@, 7);
    }
}

/// A failure that does not say that the route is there, in its causes or in one of
/// the three texts, is never a success: the request is sent again where a gateway is
/// left to drop, and the route fails otherwise. A failure that says so is a success.
pub proof fn law_failures(a: RouteAttempt, causes: Seq<IoCause>, message: Seq<char>)
    ensures
        ({
            let step = step_after_failure(a, reports_exists(causes, lowered(message)));
            let said = exists|i: int|
                0 <= i < causes.len() && ((#[trigger] causes[i]).already_exists
                    || causes[i].raw_os_error == Some(17i32));
            let written = occurs(lowered(message), "file exists"@) || occurs(
                lowered(message),
                "eexist"@,
            ) || occurs(lowered(message), "error 17"@);
            &&& said || written ==> step == RouteStep::Done
            &&& !said && !written && a.gateway is Some && !a.fallback ==> step == RouteStep::Retry
            &&& !said && !written && !(a.gateway is Some && !a.fallback) ==> step
                == RouteStep::Fail
        }),
        ({
            let next = attempt_after_failure(a, reports_exists(causes, lowered(message)));
            &&& next.ip == a.ip && next.prefix_len == a.prefix_len && next.gateway == a.gateway
            &&& next.iface_index == a.iface_index
            &&& next.fallback == (a.fallback || step_after_failure(
                a,
                reports_exists(causes, lowered(message)),
            ) == RouteStep::Retry)
        }),
{
    law_what_says_exists(causes, message);
}

/// What is requested: the destination on the interface, with the gateway if it is of
/// the same family and not yet dropped.
pub proof fn law_requests(a: RouteAttempt)
    ensures
        request_of(a).ip == a.ip,
        request_of(a).prefix_len == a.prefix_len,
        request_of(a).iface_index == a.iface_index,
        request_of(a).gateway == (if a.gateway is Some && !a.fallback && (a.gateway.unwrap() is V4
            <==> a.ip is V4) {
            a.gateway
        } else {
            None
        }),
{
}

/// The files that list routes are those with a name before ".json".
pub proof fn law_route_files(name: Seq<char>, base: Seq<char>)
    ensures
        base.len() > 0 ==> is_route_file(base + ".json"@),
        is_route_file(name) ==> exists|b: Seq<char>| b.len() > 0 && name == #[trigger] (b + ".json"@),
        name.len() <= 5 ==> !is_route_file(name),
{
    reveal_strlit(".json");
    let whole = base + ".json"@;
    assert(whole.subrange(whole.len() - 5, whole.len() as int) =~= ".json"@);
    if is_route_file(name) {
        let b = name.take(name.len() - 5);
        assert(name =~= b + ".json"@);
    }
}

/// What is said of an interface that cannot be looked up: where the reason has "not
/// found" in it, which name does not exist, and the reason itself otherwise.
pub proof fn law_missing_interface(name: Seq<char>, a: Seq<char>, b: Seq<char>, reason: Seq<char>)
    ensures
        interface_text(name, a + "not found"@ + b) == "interface '"@ + name
            + "' does not exist — check 'interface' or 'default_interface' in config"@,
        !occurs(reason, "not found"@) ==> interface_text(name, reason) == reason,
{
    law_occurs(a + "not found"@ + b, "not found"@);
}

} // verus!
