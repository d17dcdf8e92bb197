//! The TUN interface: what is asked of the kernel to create and configure it.

use vstd::prelude::*;
use vstd::string::{StringExecFns, StringSliceAdditionalSpecFns};

use crate::addr::IpAddr;
use crate::addr_text::ip_of;
use crate::bytes::push_all;
use crate::text::contains_text;
use crate::text::decimal;
use crate::text::joined;
use crate::text::occurs;
use crate::text::push_decimal;

verus! {

/// The flags of an interface without packet information: IFF_TUN and IFF_NO_PI.
pub const TUN_FLAGS: u16 = 0x1001;

/// The length of the name field, with at least one zero at its end.
pub const NAME_LEN: usize = 16;

/// A request for an interface.
#[derive(Debug)]
pub struct IfReq {
    /// The name, filled up with zeros.
    pub ifr_name: Vec<u8>,
    pub ifr_flags: u16,
}

/// An interface name that does not fit.
#[derive(Debug)]
pub struct NameTooLong {
    pub name: String,
}

impl NameTooLong {
    /// What is said of the name.
    pub fn message(&self) -> (r: String)
        ensures
            r@ == "interface name too long: "@ + self.name@,
    {
        joined("interface name too long: ", self.name.as_str())
    }
}

/// Whether the bytes of a name fit, with a zero behind them.
pub open spec fn fits_name(bytes: Seq<u8>) -> bool {
    bytes.len() < NAME_LEN
}

/// Whether a name field and flags request an interface with the given name.
pub open spec fn is_interface_request(bytes: Seq<u8>, name: Seq<u8>, flags: u16) -> bool {
    &&& fits_name(bytes)
    &&& flags == TUN_FLAGS
    &&& name == bytes + Seq::new((NAME_LEN - bytes.len()) as nat, |i: int| 0u8)
}

/// The request for an interface with the given name.
pub fn interface_request(name: &str) -> (r: Result<IfReq, NameTooLong>)
    ensures
        match r {
            Ok(req) => is_interface_request(name.spec_bytes(), req.ifr_name@, req.ifr_flags),
            Err(e) => !fits_name(name.spec_bytes()) && e.name@ == name@,
        },
{
    let bytes = name.as_bytes();
    let ghost b = name.spec_bytes();
    if bytes.len() >= NAME_LEN {
        return Err(NameTooLong { name: name.to_string() });
    }
    let mut ifr_name: Vec<u8> = Vec::new();
    push_all(&mut ifr_name, bytes);
    assert(ifr_name@ =~= b + Seq::new(0, |i: int| 0u8));
    while ifr_name.len() < NAME_LEN
        invariant
            b.len() <= ifr_name.len() <= NAME_LEN,
            ifr_name@ == b + Seq::new((ifr_name@.len() - b.len()) as nat, |i: int| 0u8),
        decreases NAME_LEN - ifr_name.len(),
    {
        ifr_name.push(0);
        assert(ifr_name@ =~= b + Seq::new((ifr_name@.len() - b.len()) as nat, |i: int| 0u8));
    }
    Ok(IfReq { ifr_name, ifr_flags: TUN_FLAGS })
}

/// Something to be done to the interface.
#[derive(Debug, Clone, Copy, PartialEq, Eq, Structural)]
pub enum TunOp {
    /// Add an address with a prefix length.
    AddAddress(IpAddr, u8),
    SetMtu(u16),
    BringUp,
}

/// Why the interface cannot be configured.
#[derive(Debug)]
pub enum TunError {
    InvalidGateway(String),
    NotIpv4(String),
    InvalidGateway6(String),
    NotIpv6(String),
}

/// What is said of a configuration that is none.
pub open spec fn tun_error_text(e: TunError) -> Seq<char> {
    match e {
        TunError::InvalidGateway(s) => "invalid gateway IP: "@ + s@,
        TunError::NotIpv4(s) => "gateway must be IPv4 address: "@ + s@,
        TunError::InvalidGateway6(s) => "invalid gateway6 IP: "@ + s@,
        TunError::NotIpv6(s) => "gateway6 must be IPv6 address: "@ + s@,
    }
}

impl TunError {
    /// What is said of the configuration.
    pub fn message(&self) -> (r: String)
        ensures
            r@ == tun_error_text(*self),
    {
        match self {
            TunError::InvalidGateway(s) => joined("invalid gateway IP: ", s.as_str()),
            TunError::NotIpv4(s) => joined("gateway must be IPv4 address: ", s.as_str()),
            TunError::InvalidGateway6(s) => joined("invalid gateway6 IP: ", s.as_str()),
            TunError::NotIpv6(s) => joined("gateway6 must be IPv6 address: ", s.as_str()),
        }
    }
}

/// What is to be done to an interface, in order, and what then stops the
/// configuration, if anything does.
pub struct TunPlan {
    pub ops: Vec<TunOp>,
    pub error: Option<TunError>,
}

/// The address of an optional gateway.
pub open spec fn gateway_op(ip: Option<IpAddr>, prefix: u8) -> Seq<TunOp> {
    match ip {
        Some(ip) => seq![TunOp::AddAddress(ip, prefix)],
        None => Seq::empty(),
    }
}

/// The steps behind the addresses.
pub open spec fn link_ops(mtu: u16) -> Seq<TunOp> {
    (if mtu > 0 {
        seq![TunOp::SetMtu(mtu)]
    } else {
        Seq::empty()
    }) + seq![TunOp::BringUp]
}

/// Whether a text is an optional address: empty, or one that is of the right
/// family.
pub open spec fn is_gateway(s: Seq<char>, v4: bool) -> bool {
    s.len() == 0 || (ip_of(s) is Some && (ip_of(s)->0 is V4) == v4)
}

/// The address of a text that is an optional address.
pub open spec fn gateway_ip(s: Seq<char>) -> Option<IpAddr> {
    if s.len() == 0 {
        None
    } else {
        ip_of(s)
    }
}

/// Whether `ops` and `error` are what is to be done to an interface. What stands
/// before a faulty gateway is done all the same.
pub open spec fn is_plan(
    gateway: Seq<char>,
    gateway6: Seq<char>,
    mtu: u16,
    ops: Seq<TunOp>,
    error: Option<TunError>,
) -> bool {
    let first = gateway_op(gateway_ip(gateway), 24);
    let second = gateway_op(gateway_ip(gateway6), 64);
    if !is_gateway(gateway, true) {
        &&& ops == Seq::<TunOp>::empty()
        &&& error is Some
        &&& if ip_of(gateway) is None {
            error->0 matches TunError::InvalidGateway(s) && s@ == gateway
        } else {
            error->0 matches TunError::NotIpv4(s) && s@ == gateway
        }
    } else if !is_gateway(gateway6, false) {
        &&& ops == first
        &&& error is Some
        &&& if ip_of(gateway6) is None {
            error->0 matches TunError::InvalidGateway6(s) && s@ == gateway6
        } else {
            error->0 matches TunError::NotIpv6(s) && s@ == gateway6
        }
    } else {
        &&& ops == first + second + link_ops(mtu)
        &&& error is None
    }
}

/// Plan the configuration of a TUN interface: assign IP addresses (gateway/24 and gateway6/64), set
/// MTU, bring up. What stands before a faulty gateway is done all the same.
pub fn plan_configuration(gateway: &str, gateway6: &str, mtu: u16) -> (r: TunPlan)
    ensures
        is_plan(gateway@, gateway6@, mtu, r.ops@, r.error),
{
    let mut ops: Vec<TunOp> = Vec::new();
    if !gateway.is_empty() {
        match IpAddr::parse(gateway) {
            None => {
                return TunPlan {
                    ops,
                    error: Some(TunError::InvalidGateway(gateway.to_string())),
                };
            },
            Some(ip) => {
                if !ip.is_ipv4() {
                    return TunPlan { ops, error: Some(TunError::NotIpv4(gateway.to_string())) };
                }
                ops.push(TunOp::AddAddress(ip, 24));
            },
        }
    }
    let ghost first = gateway_op(gateway_ip(gateway@), 24);
    assert(ops@ =~= first);
    if !gateway6.is_empty() {
        match IpAddr::parse(gateway6) {
            None => {
                return TunPlan {
                    ops,
                    error: Some(TunError::InvalidGateway6(gateway6.to_string())),
                };
            },
            Some(ip) => {
                if !ip.is_ipv6() {
                    return TunPlan { ops, error: Some(TunError::NotIpv6(gateway6.to_string())) };
                }
                ops.push(TunOp::AddAddress(ip, 64));
            },
        }
    }
    let ghost second = gateway_op(gateway_ip(gateway6@), 64);
    assert(ops@ =~= first + second);
    if mtu > 0 {
        ops.push(TunOp::SetMtu(mtu));
    }
    ops.push(TunOp::BringUp);
    assert(ops@ =~= first + second + link_ops(mtu));
    TunPlan { ops, error: None }
}

/// Whether a failure to add an address says that the interface has it already.
pub open spec fn has_address_already(message: Seq<char>) -> bool {
    occurs(message, "File exists"@) || occurs(message, "EEXIST"@)
}

/// What is said when a step fails; nothing, where the failure is passed over.
pub open spec fn op_failure_text(op: TunOp, name: Seq<char>, message: Seq<char>) -> Option<
    Seq<char>,
> {
    match op {
        TunOp::AddAddress(ip, _) => if has_address_already(message) {
            None
        } else if ip is V4 {
            Some("add IPv4 address to interface"@)
        } else {
            Some("add IPv6 address to interface"@)
        },
        TunOp::SetMtu(mtu) => Some(
            "set MTU "@ + decimal(mtu as nat) + " on interface "@ + name,
        ),
        TunOp::BringUp => Some("bring up interface "@ + name),
    }
}

/// Decides on a failed step: what is said where the configuration stops, and
/// nothing where it goes on, because the interface has the address already.
pub fn op_failure(op: &TunOp, name: &str, message: &str) -> (r: Option<String>)
    ensures
        match r {
            Some(s) => op_failure_text(*op, name@, message@) == Some(s@),
            None => op_failure_text(*op, name@, message@) is None,
        },
{
    match op {
        TunOp::AddAddress(ip, _) => {
            if contains_text(message, "File exists") || contains_text(message, "EEXIST") {
                None
            } else if ip.is_ipv4() {
                Some("add IPv4 address to interface".to_string())
            } else {
                Some("add IPv6 address to interface".to_string())
            }
        },
        TunOp::SetMtu(mtu) => {
            let mut out = "set MTU ".to_string();
            push_decimal(&mut out, *mtu as u64);
            out.append(" on interface ");
            out.append(name);
            Some(out)
        },
        TunOp::BringUp => Some(joined("bring up interface ", name)),
    }
}

/// A configuration without faults ends by bringing the interface up, gives it
/// one address of each family at most, and sets the MTU unless it is zero.
pub proof fn law_configuration_ends_up(gateway: Seq<char>, gateway6: Seq<char>, mtu: u16)
    requires
        is_gateway(gateway, true),
        is_gateway(gateway6, false),
    ensures
        ({
            let ops = gateway_op(gateway_ip(gateway), 24) + gateway_op(gateway_ip(gateway6), 64)
                + link_ops(mtu);
            &&& ops.last() == TunOp::BringUp
            &&& forall|i: int| 0 <= i < ops.len() - 1 ==> #[trigger] ops[i] != TunOp::BringUp
            &&& ops.contains(TunOp::SetMtu(mtu)) <==> mtu > 0
            &&& forall|i: int|
                0 <= i < ops.len() ==> ((#[trigger] ops[i]) matches TunOp::AddAddress(ip, prefix)
                    ==> prefix == (if ip is V4 {
                    24u8
                } else {
                    64
                }))
            &&& forall|i: int, j: int|
                0 <= i < j < ops.len() && (#[trigger] ops[i]) is AddAddress && (#[trigger] ops[j])
                    is AddAddress ==> ops[i]->AddAddress_0 is V4 && ops[j]->AddAddress_0 is V6
        }),
{
    let first = gateway_op(gateway_ip(gateway), 24);
    let second = gateway_op(gateway_ip(gateway6), 64);
    let ops = first + second + link_ops(mtu);
    if mtu > 0 {
        assert(ops[first.len() as int + second.len()] == TunOp::SetMtu(mtu));
    }
}

} // verus!
