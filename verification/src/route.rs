//! Routes: where they lead, which files list them, and how they are added.

use vstd::prelude::*;
use vstd::string::StringExecFns;

use crate::addr::address_bits;
use crate::addr::same_family;
use crate::addr::IpAddr;
use crate::addr_text::ip_of;
use crate::order::in_order;
use crate::order::sort_texts;
use crate::text::contains_char;
use crate::text::contains_text;
use crate::text::decimal;
use crate::text::divided;
use crate::text::ends_with;
use crate::text::joined;
use crate::text::lemma_position_bounds;
use crate::text::lowered;
use crate::text::occurs;
use crate::text::parse_number;
use crate::text::parsed_number;
use crate::text::push_decimal;
use crate::text::same_text;
use crate::text::split_once;
use crate::text::split_parts;
use crate::text::split_text;
use crate::text::stands_at;
use crate::text::texts;
use crate::text::to_lower;

verus! {

/// What is wrong with a destination.
#[derive(Debug, Clone, Copy, PartialEq, Eq, Structural)]
pub enum DestinationFault {
    InvalidCidrIp,
    InvalidCidrPrefix,
    /// The prefix length, and the longest that the address allows.
    PrefixTooLong(u8, u8),
    InvalidIp,
}

/// A destination that is none.
#[derive(Debug)]
pub struct DestinationError {
    pub fault: DestinationFault,
    pub dest: String,
}

/// What is said of a destination that is none.
pub open spec fn destination_text(fault: DestinationFault, dest: Seq<char>) -> Seq<char> {
    match fault {
        DestinationFault::InvalidCidrIp => "invalid IP in CIDR: "@ + dest,
        DestinationFault::InvalidCidrPrefix => "invalid prefix in CIDR: "@ + dest,
        DestinationFault::PrefixTooLong(prefix, max) => "prefix length "@ + decimal(prefix as nat)
            + " exceeds "@ + decimal(max as nat) + " in: "@ + dest,
        DestinationFault::InvalidIp => "invalid IP address: "@ + dest,
    }
}

impl DestinationError {
    /// What is said of the destination.
    pub fn message(&self) -> (r: String)
        ensures
            r@ == destination_text(self.fault, self.dest@),
    {
        let dest = self.dest.as_str();
        match self.fault {
            DestinationFault::InvalidCidrIp => joined("invalid IP in CIDR: ", dest),
            DestinationFault::InvalidCidrPrefix => joined("invalid prefix in CIDR: ", dest),
            DestinationFault::PrefixTooLong(prefix, max) => {
                let mut out = "prefix length ".to_string();
                push_decimal(&mut out, prefix as u64);
                out.append(" exceeds ");
                push_decimal(&mut out, max as u64);
                out.append(" in: ");
                out.append(dest);
                out
            },
            DestinationFault::InvalidIp => joined("invalid IP address: ", dest),
        }
    }
}

/// The address and the prefix length that a destination denotes: a CIDR, or a
/// bare address, which stands for itself alone.
pub open spec fn destination_of(dest: Seq<char>) -> Result<(IpAddr, u8), DestinationFault> {
    match divided(dest, '/') {
        Some((ip_text, prefix_text)) => match (ip_of(ip_text), parsed_number(prefix_text, 255)) {
            (None, _) => Err(DestinationFault::InvalidCidrIp),
            (Some(_), None) => Err(DestinationFault::InvalidCidrPrefix),
            (Some(ip), Some(prefix)) => if prefix <= address_bits(ip) {
                Ok((ip, prefix as u8))
            } else {
                Err(DestinationFault::PrefixTooLong(prefix as u8, address_bits(ip)))
            },
        },
        None => match ip_of(dest) {
            Some(ip) => Ok((ip, address_bits(ip))),
            None => Err(DestinationFault::InvalidIp),
        },
    }
}

/// Parse a destination string as either a CIDR or a bare IP (treated as /32 for IPv4 or /128 for IPv6).
pub fn parse_destination(dest: &str) -> (r: Result<(IpAddr, u8), DestinationError>)
    ensures
        match r {
            Ok(d) => destination_of(dest@) == Ok::<(IpAddr, u8), DestinationFault>(d),
            Err(e) => e.dest@ == dest@ && destination_of(dest@) == Err::<
                (IpAddr, u8),
                DestinationFault,
            >(e.fault),
        },
{
    let fault = match split_once(dest, '/') {
        Some((ip_text, prefix_text)) => match IpAddr::parse(ip_text) {
            None => DestinationFault::InvalidCidrIp,
            Some(ip) => match parse_number(prefix_text, 255) {
                None => DestinationFault::InvalidCidrPrefix,
                Some(n) => {
                    let prefix: u8 = n as u8;
                    let max: u8 = ip.bits();
                    if prefix <= max {
                        return Ok((ip, prefix));
                    }
                    DestinationFault::PrefixTooLong(prefix, max)
                },
            },
        },
        None => match IpAddr::parse(dest) {
            Some(ip) => {
                return Ok((ip, ip.bits()));
            },
            None => DestinationFault::InvalidIp,
        },
    };
    Err(DestinationError { fault, dest: dest.to_string() })
}

/// A gateway in the configuration that is no IP address.
#[derive(Debug)]
pub enum GatewayError {
    Gateway(String),
    Gateway6(String),
}

/// What is said of a gateway that is no IP address.
pub open spec fn gateway_text(e: GatewayError) -> Seq<char> {
    match e {
        GatewayError::Gateway(s) => "invalid gateway IP: "@ + s@,
        GatewayError::Gateway6(s) => "invalid gateway6 IP: "@ + s@,
    }
}

impl GatewayError {
    /// What is said of the gateway.
    pub fn message(&self) -> (r: String)
        ensures
            r@ == gateway_text(*self),
    {
        match self {
            GatewayError::Gateway(s) => joined("invalid gateway IP: ", s.as_str()),
            GatewayError::Gateway6(s) => joined("invalid gateway6 IP: ", s.as_str()),
        }
    }
}

/// The gateways of a set of routes. Either may be absent.
#[derive(Debug, Clone, Copy, PartialEq, Eq, Structural)]
pub struct Gateways {
    pub gw: Option<IpAddr>,
    pub gw6: Option<IpAddr>,
}

/// Whether `r` is what two texts say of gateways. An empty text stands for none.
pub open spec fn are_gateways(
    gateway: Seq<char>,
    gateway6: Seq<char>,
    r: Result<Gateways, GatewayError>,
) -> bool {
    match r {
        Ok(g) => {
            &&& if gateway.len() == 0 {
                g.gw is None
            } else {
                g.gw is Some && g.gw == ip_of(gateway)
            }
            &&& if gateway6.len() == 0 {
                g.gw6 is None
            } else {
                g.gw6 is Some && g.gw6 == ip_of(gateway6)
            }
        },
        Err(GatewayError::Gateway(s)) => {
            s@ == gateway && gateway.len() > 0 && ip_of(gateway) is None
        },
        Err(GatewayError::Gateway6(s)) => {
            &&& s@ == gateway6 && gateway6.len() > 0 && ip_of(gateway6) is None
            &&& gateway.len() == 0 || ip_of(gateway) is Some
        },
    }
}

/// Reads the gateways of a set of routes. An empty text stands for none.
pub fn read_gateways(gateway: &str, gateway6: &str) -> (r: Result<Gateways, GatewayError>)
    ensures
        are_gateways(gateway@, gateway6@, r),
{
    let gw = if gateway.is_empty() {
        None
    } else {
        match IpAddr::parse(gateway) {
            Some(ip) => Some(ip),
            None => {
                return Err(GatewayError::Gateway(gateway.to_string()));
            },
        }
    };
    let gw6 = if gateway6.is_empty() {
        None
    } else {
        match IpAddr::parse(gateway6) {
            Some(ip) => Some(ip),
            None => {
                return Err(GatewayError::Gateway6(gateway6.to_string()));
            },
        }
    };
    Ok(Gateways { gw, gw6 })
}

/// Whether a file lists routes: its extension is `json`, behind a name.
pub open spec fn is_route_file(name: Seq<char>) -> bool {
    name.len() > 5 && stands_at(name, name.len() - 5, ".json"@)
}

/// Whether a file lists routes.
pub fn lists_routes(name: &str) -> (r: bool)
    ensures
        r == is_route_file(name@),
{
    proof {
        reveal_strlit(".json");
        assert(name@.subrange(0, name@.len() as int) =~= name@);
    }
    ends_with(name, ".json") && !same_text(name, ".json")
}

/// The route files among the files of a directory, in order of their names.
pub fn route_files(names: &Vec<String>) -> (r: Vec<String>)
    ensures
        in_order(texts(r@)),
        texts(r@).to_multiset() == texts(names@).filter(
            |name: Seq<char>| is_route_file(name),
        ).to_multiset(),
{
    let mut out: Vec<String> = Vec::new();
    let mut i: usize = 0;
    let ghost listed = |name: Seq<char>| is_route_file(name);
    proof {
        reveal(Seq::filter);
        assert(texts(names@).take(0) =~= Seq::empty());
        assert(texts(out@) =~= texts(names@).take(0).filter(listed));
    }
    while i < names.len()
        invariant
            i <= names.len(),
            listed == (|name: Seq<char>| is_route_file(name)),
            texts(out@) == texts(names@).take(i as int).filter(listed),
        decreases names.len() - i,
    {
        proof {
            let t = texts(names@);
            reveal(Seq::filter);
            assert(t.take(i + 1).drop_last() =~= t.take(i as int));
            assert(t.take(i + 1).last() == names@[i as int]@);
        }
        let ghost before = texts(out@);
        if lists_routes(names[i].as_str()) {
            out.push(names[i].clone());
            assert(texts(out@) =~= before.push(names@[i as int]@));
        }
        i = i + 1;
    }
    assert(texts(names@).take(names@.len() as int) =~= texts(names@));
    sort_texts(out)
}

/// The part of a destination before the first slash.
pub open spec fn ip_part(dest: Seq<char>) -> Seq<char> {
    split_parts(dest, '/')[0]
}

/// The gateway that a destination is routed through. An IPv6 route on a TUN
/// interface has none.
pub open spec fn gateway_for(dest: Seq<char>, gateways: Gateways, iface_name: Seq<char>) -> Option<
    IpAddr,
> {
    if !ip_part(dest).contains(':') {
        match gateways.gw {
            Some(g) if g is V4 => Some(g),
            _ => None,
        }
    } else if occurs(iface_name, "tun"@) {
        None
    } else {
        match (gateways.gw6, gateways.gw) {
            (Some(g), _) => Some(g),
            (None, Some(g)) if g is V6 => Some(g),
            _ => None,
        }
    }
}

/// A route to be added.
#[derive(Debug)]
pub struct PlannedRoute {
    pub destination: String,
    pub gateway: Option<IpAddr>,
}

/// The route for a destination. A destination without an address has none.
pub fn plan_route(dest: &str, gateways: &Gateways, iface_name: &str) -> (r: Option<PlannedRoute>)
    ensures
        match r {
            Some(p) => {
                &&& ip_part(dest@).len() > 0
                &&& p.destination@ == dest@
                &&& p.gateway == gateway_for(dest@, *gateways, iface_name@)
            },
            None => ip_part(dest@).len() == 0,
        },
{
    let parts = split_text(dest, '/');
    proof {
        lemma_position_bounds(dest@, '/');
        assert(texts(parts@).len() > 0);
        assert(texts(parts@)[0] == parts@[0]@);
    }
    let part = parts[0].as_str();
    if part.is_empty() {
        return None;
    }
    let gateway = if !contains_char(part, ':') {
        match gateways.gw {
            Some(g) => if g.is_ipv4() {
                Some(g)
            } else {
                None
            },
            None => None,
        }
    } else if contains_text(iface_name, "tun") {
        None
    } else {
        match (gateways.gw6, gateways.gw) {
            (Some(g), _) => Some(g),
            (None, Some(g)) => if g.is_ipv6() {
                Some(g)
            } else {
                None
            },
            (None, None) => None,
        }
    };
    Some(PlannedRoute { destination: dest.to_string(), gateway })
}

/// The routes for destinations, as destinations and gateways.
pub open spec fn planned(
    dests: Seq<Seq<char>>,
    gateways: Gateways,
    iface_name: Seq<char>,
) -> Seq<(Seq<char>, Option<IpAddr>)>
    decreases dests.len(),
{
    if dests.len() == 0 {
        Seq::empty()
    } else {
        let before = planned(dests.drop_last(), gateways, iface_name);
        let dest = dests.last();
        if ip_part(dest).len() == 0 {
            before
        } else {
            before.push((dest, gateway_for(dest, gateways, iface_name)))
        }
    }
}

/// The destinations and gateways of routes.
pub open spec fn plan_view(routes: Seq<PlannedRoute>) -> Seq<(Seq<char>, Option<IpAddr>)> {
    routes.map_values(|p: PlannedRoute| (p.destination@, p.gateway))
}

/// The routes for destinations, in their order.
pub fn plan_routes(dests: &Vec<String>, gateways: &Gateways, iface_name: &str) -> (r: Vec<
    PlannedRoute,
>)
    ensures
        plan_view(r@) == planned(texts(dests@), *gateways, iface_name@),
{
    let mut out: Vec<PlannedRoute> = Vec::new();
    let mut i: usize = 0;
    assert(plan_view(out@) =~= planned(texts(dests@).take(0), *gateways, iface_name@));
    while i < dests.len()
        invariant
            i <= dests.len(),
            plan_view(out@) == planned(texts(dests@).take(i as int), *gateways, iface_name@),
        decreases dests.len() - i,
    {
        proof {
            let t = texts(dests@);
            assert(t.take(i + 1).drop_last() =~= t.take(i as int));
            assert(t.take(i + 1).last() == dests@[i as int]@);
        }
        let ghost before = plan_view(out@);
        match plan_route(dests[i].as_str(), gateways, iface_name) {
            Some(p) => {
                let ghost item = (p.destination@, p.gateway);
                out.push(p);
                assert(plan_view(out@) =~= before.push(item));
            },
            None => {},
        }
        i = i + 1;
    }
    assert(texts(dests@).take(dests@.len() as int) =~= texts(dests@));
    out
}

/// What is known of an I/O error among the causes of an error.
#[derive(Debug, Clone, Copy, PartialEq, Eq, Structural)]
pub struct IoCause {
    /// Whether its kind says that something already exists.
    pub already_exists: bool,
    pub raw_os_error: Option<i32>,
}

/// Numeric code for EEXIST on Unix-like systems.
pub const EEXIST: i32 = 17;

/// Whether an I/O error says that something already exists.
pub open spec fn says_exists(c: IoCause) -> bool {
    c.already_exists || c.raw_os_error == Some(EEXIST)
}

/// Whether a message in small letters says that something already exists.
pub open spec fn mentions_exists(lower: Seq<char>) -> bool {
    occurs(lower, "file exists"@) || occurs(lower, "eexist"@) || occurs(lower, "error 17"@)
}

/// Whether a message in small letters says that something already exists.
pub fn lower_mentions_exists(lower: &str) -> (r: bool)
    ensures
        r == mentions_exists(lower@),
{
    contains_text(lower, "file exists") || contains_text(lower, "eexist") || contains_text(
        lower,
        "error 17",
    )
}

/// An error, as its chain of causes and its message.
#[derive(Debug)]
pub struct ErrorReport {
    /// The I/O errors in the chain.
    pub causes: Vec<IoCause>,
    pub message: String,
}

/// Whether an error says that something already exists, given its message in
/// small letters.
pub open spec fn reports_exists(causes: Seq<IoCause>, lower: Seq<char>) -> bool {
    (exists|i: int| 0 <= i < causes.len() && says_exists(#[trigger] causes[i]))
        || mentions_exists(lower)
}

/// Check if error is "file already exists" (os error 17 / EEXIST).
///
/// Prefer structured inspection of the error chain
/// and only fall back to substring checks on the formatted message.
pub fn is_file_exists(e: &ErrorReport) -> (r: bool)
    ensures
        r == reports_exists(e.causes@, lowered(e.message@)),
{
    let mut i: usize = 0;
    while i < e.causes.len()
        invariant
            i <= e.causes.len(),
            forall|k: int| 0 <= k < i ==> !says_exists(#[trigger] e.causes@[k]),
        decreases e.causes.len() - i,
    {
        let c = e.causes[i];
        if c.already_exists {
            assert(says_exists(e.causes@[i as int]));
            return true;
        }
        match c.raw_os_error {
            Some(code) => {
                if code == EEXIST {
                    assert(says_exists(e.causes@[i as int]));
                    return true;
                }
            },
            None => {},
        }
        i = i + 1;
    }
    let lower = to_lower(e.message.as_str());
    lower_mentions_exists(lower.as_str())
}

/// A request to add a route.
#[derive(Debug, Clone, Copy, PartialEq, Eq, Structural)]
pub struct RouteRequest {
    pub ip: IpAddr,
    pub prefix_len: u8,
    /// Of the family of `ip`.
    pub gateway: Option<IpAddr>,
    pub iface_index: u32,
}

/// A route that is being added.
#[derive(Debug, Clone, Copy, PartialEq, Eq, Structural)]
pub struct RouteAttempt {
    pub ip: IpAddr,
    pub prefix_len: u8,
    pub gateway: Option<IpAddr>,
    pub iface_index: u32,
    /// Whether the route is tried without its gateway.
    pub fallback: bool,
}

/// What came of a request.
pub enum RouteReply {
    Added,
    Failed(ErrorReport),
}

/// What a reply calls for.
#[derive(Debug, Clone, Copy, PartialEq, Eq, Structural)]
pub enum RouteStep {
    /// Nothing: the route is there.
    Done,
    /// Send the request again, without the gateway.
    Retry,
    /// Give up.
    Fail,
}

/// What a failed request calls for.
pub open spec fn step_after_failure(a: RouteAttempt, exists: bool) -> RouteStep {
    if exists {
        RouteStep::Done
    } else if a.gateway is Some && !a.fallback {
        RouteStep::Retry
    } else {
        RouteStep::Fail
    }
}

/// The attempt after a failed request.
pub open spec fn attempt_after_failure(a: RouteAttempt, exists: bool) -> RouteAttempt {
    if step_after_failure(a, exists) == RouteStep::Retry {
        RouteAttempt { fallback: true, ..a }
    } else {
        a
    }
}

/// The request of an attempt. A gateway of the other family is left out.
pub open spec fn request_of(a: RouteAttempt) -> RouteRequest {
    RouteRequest {
        ip: a.ip,
        prefix_len: a.prefix_len,
        gateway: match a.gateway {
            Some(g) if !a.fallback && same_family(g, a.ip) => Some(g),
            _ => None,
        },
        iface_index: a.iface_index,
    }
}

impl RouteAttempt {
    /// Begins to add a route.
    pub fn new(destination: &str, gateway: Option<IpAddr>, iface_index: u32) -> (r: Result<
        RouteAttempt,
        DestinationError,
    >)
        ensures
            match r {
                Ok(a) => {
                    &&& destination_of(destination@) == Ok::<(IpAddr, u8), DestinationFault>(
                        (a.ip, a.prefix_len),
                    )
                    &&& a.gateway == gateway && a.iface_index == iface_index && !a.fallback
                },
                Err(e) => e.dest@ == destination@ && destination_of(destination@) == Err::<
                    (IpAddr, u8),
                    DestinationFault,
                >(e.fault),
            },
    {
        match parse_destination(destination) {
            Ok((ip, prefix_len)) => Ok(
                RouteAttempt { ip, prefix_len, gateway, iface_index, fallback: false },
            ),
            Err(e) => Err(e),
        }
    }

    /// The request to send.
    pub fn request(&self) -> (r: RouteRequest)
        ensures
            r == request_of(*self),
    {
        let gateway = match self.gateway {
            Some(g) => if !self.fallback && g.is_ipv4() == self.ip.is_ipv4() {
                Some(g)
            } else {
                None
            },
            None => None,
        };
        RouteRequest {
            ip: self.ip,
            prefix_len: self.prefix_len,
            gateway,
            iface_index: self.iface_index,
        }
    }

    /// Takes a failed request. `exists` says that the route was there already.
    pub fn on_failure(&mut self, exists: bool) -> (r: RouteStep)
        ensures
            r == step_after_failure(*old(self), exists),
            *final(self) == attempt_after_failure(*old(self), exists),
    {
        if exists {
            RouteStep::Done
        } else if self.gateway.is_some() && !self.fallback {
            self.fallback = true;
            RouteStep::Retry
        } else {
            RouteStep::Fail
        }
    }

    /// Takes the reply to a request.
    pub fn on_reply(&mut self, reply: &RouteReply) -> (r: RouteStep)
        ensures
            match *reply {
                RouteReply::Added => r == RouteStep::Done && *final(self) == *old(self),
                RouteReply::Failed(e) => {
                    let exists = reports_exists(e.causes@, lowered(e.message@));
                    &&& r == step_after_failure(*old(self), exists)
                    &&& *final(self) == attempt_after_failure(*old(self), exists)
                },
            },
    {
        match reply {
            RouteReply::Added => RouteStep::Done,
            RouteReply::Failed(e) => {
                let exists = is_file_exists(e);
                self.on_failure(exists)
            },
        }
    }
}

/// What is said when the interface of routes cannot be looked up.
pub open spec fn interface_text(iface_name: Seq<char>, reason: Seq<char>) -> Seq<char> {
    if occurs(reason, "not found"@) {
        "interface '"@ + iface_name
            + "' does not exist — check 'interface' or 'default_interface' in config"@
    } else {
        reason
    }
}

/// What is said when the interface of routes cannot be looked up: advice where
/// there is none of that name, and the reason otherwise.
pub fn interface_message(iface_name: &str, reason: &str) -> (r: String)
    ensures
        r@ == interface_text(iface_name@, reason@),
{
    if contains_text(reason, "not found") {
        joined("interface '", iface_name).concat(
            "' does not exist — check 'interface' or 'default_interface' in config",
        )
    } else {
        reason.to_string()
    }
}

} // verus!
