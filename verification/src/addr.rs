//! IP addresses.

use vstd::prelude::*;

use crate::bytes::be_bytes;
use crate::bytes::push_be;

verus! {

/// An IP address of either family, as the number that its bytes encode.
#[derive(Debug, Clone, Copy, PartialEq, Eq, Structural, Hash)]
pub enum IpAddr {
    V4(u32),
    V6(u128),
}

/// The bytes of an address, in network order.
pub open spec fn octets(ip: IpAddr) -> Seq<u8> {
    match ip {
        IpAddr::V4(v) => be_bytes(v as nat, 4),
        IpAddr::V6(v) => be_bytes(v as nat, 16),
    }
}

/// Whether two addresses belong to the same family.
pub open spec fn same_family(a: IpAddr, b: IpAddr) -> bool {
    a is V4 == b is V4
}

/// The number of bits in an address of the family of `ip`.
pub open spec fn address_bits(ip: IpAddr) -> u8 {
    if ip is V4 {
        32
    } else {
        128
    }
}

impl IpAddr {
    /// Whether this is an IPv4 address.
    pub fn is_ipv4(&self) -> (r: bool)
        ensures
            r == (*self is V4),
    {
        match self {
            IpAddr::V4(_) => true,
            IpAddr::V6(_) => false,
        }
    }

    /// Whether this is an IPv6 address.
    pub fn is_ipv6(&self) -> (r: bool)
        ensures
            r == (*self is V6),
    {
        !self.is_ipv4()
    }

    /// The bytes of the address, in network order.
    pub fn octets(&self) -> (r: Vec<u8>)
        ensures
            r@ == octets(*self),
    {
        let mut out: Vec<u8> = Vec::new();
        match self {
            IpAddr::V4(v) => push_be(&mut out, *v as u128, 4),
            IpAddr::V6(v) => push_be(&mut out, *v, 16),
        }
        assert(out@ =~= octets(*self));
        out
    }

    /// The length in bits of an address of this family.
    pub fn bits(&self) -> (r: u8)
        ensures
            r == address_bits(*self),
    {
        if self.is_ipv4() {
            32
        } else {
            128
        }
    }
}

/// The number that an address encodes, whatever its family.
pub open spec fn ip_number(ip: IpAddr) -> u128 {
    match ip {
        IpAddr::V4(v) => v as u128,
        IpAddr::V6(v) => v,
    }
}

/// The number that an address encodes, whatever its family.
pub fn ip_to_u128(ip: IpAddr) -> (r: u128)
    ensures
        r == ip_number(ip),
{
    match ip {
        IpAddr::V4(v) => v as u128,
        IpAddr::V6(v) => v,
    }
}

} // verus!
