//! Parsing of IP packets that carry TCP or UDP, and the identity of their flows.

use vstd::prelude::*;
use vstd::slice::slice_subrange;

use crate::addr::ip_number;
use crate::addr::ip_to_u128;
use crate::addr::IpAddr;
use crate::bytes::be_value;
use crate::bytes::read_be;
use crate::bytes::read_u16;
use crate::bytes::read_u32;

verus! {

/// The TCP protocol number.
pub const TCP: u8 = 6;

/// The UDP protocol number.
pub const UDP: u8 = 17;

/// What the tunnel reads from the headers of a packet.
#[derive(Debug, Clone, Copy, PartialEq, Eq, Structural)]
pub struct IpHeader {
    pub version: u8,
    pub src: IpAddr,
    pub dst: IpAddr,
    /// 6=TCP, 17=UDP
    pub protocol: u8,
    pub header_len: u8,
    pub src_port: u16,
    pub dst_port: u16,
    /// Zero unless the protocol is TCP, like the two fields that follow.
    pub tcp_flags: u8,
    pub tcp_seq: u32,
    pub tcp_ack: u32,
}

/// The number in the `n` bytes of `s` that start at `at`.
pub open spec fn field(s: Seq<u8>, at: int, n: int) -> nat {
    be_value(s.subrange(at, at + n))
}

/// The length of the smallest transport header of a protocol.
pub open spec fn transport_len(protocol: u8) -> int {
    if protocol == TCP {
        20
    } else {
        8
    }
}

/// The header of a packet whose transport header starts at `th`.
pub open spec fn header_of(
    buf: Seq<u8>,
    version: u8,
    src: IpAddr,
    dst: IpAddr,
    protocol: u8,
    th: int,
) -> IpHeader {
    IpHeader {
        version,
        src,
        dst,
        protocol,
        header_len: th as u8,
        src_port: field(buf, th, 2) as u16,
        dst_port: field(buf, th + 2, 2) as u16,
        tcp_flags: if protocol == TCP {
            buf[th + 13]
        } else {
            0
        },
        tcp_seq: if protocol == TCP {
            field(buf, th + 4, 4) as u32
        } else {
            0
        },
        tcp_ack: if protocol == TCP {
            field(buf, th + 8, 4) as u32
        } else {
            0
        },
    }
}

/// Whether the tunnel carries a protocol.
pub open spec fn is_carried(protocol: u8) -> bool {
    protocol == TCP || protocol == UDP
}

/// The header of an IPv4 packet, where it is complete and carries TCP or UDP.
pub open spec fn parsed_v4(buf: Seq<u8>) -> Option<IpHeader> {
    let ihl = (buf[0] % 16) * 4;
    if 20 <= ihl <= buf.len() && is_carried(buf[9]) && ihl + transport_len(buf[9]) <= buf.len() {
        Some(
            header_of(
                buf,
                4,
                IpAddr::V4(field(buf, 12, 4) as u32),
                IpAddr::V4(field(buf, 16, 4) as u32),
                buf[9],
                ihl,
            ),
        )
    } else {
        None
    }
}

/// The header of an IPv6 packet, where it is complete and carries TCP or UDP.
/// The protocol is the byte at offset 4.
pub open spec fn parsed_v6(buf: Seq<u8>) -> Option<IpHeader> {
    if is_carried(buf[4]) && 40 + transport_len(buf[4]) <= buf.len() {
        Some(
            header_of(
                buf,
                6,
                IpAddr::V6(field(buf, 8, 16) as u128),
                IpAddr::V6(field(buf, 24, 16) as u128),
                buf[4],
                40,
            ),
        )
    } else {
        None
    }
}

/// The header of a raw packet.
pub open spec fn parsed(buf: Seq<u8>) -> Option<IpHeader> {
    if buf.len() == 0 {
        None
    } else if buf[0] / 16 == 4 {
        parsed_v4(buf)
    } else if buf[0] / 16 == 6 {
        parsed_v6(buf)
    } else {
        None
    }
}

/// Whether a packet is long enough for its protocol byte to be looked up: an
/// IPv6 packet holds at least five bytes.
pub open spec fn readable(buf: Seq<u8>) -> bool {
    buf.len() > 0 && buf[0] / 16 == 6 ==> buf.len() >= 5
}

/// Reads the transport header at `th`.
fn read_header(
    buf: &[u8],
    version: u8,
    src: IpAddr,
    dst: IpAddr,
    protocol: u8,
    th: u8,
) -> (r: IpHeader)
    requires
        th + transport_len(protocol) <= buf.len(),
    ensures
        r == header_of(buf@, version, src, dst, protocol, th as int),
{
    let at: usize = th as usize;
    let src_port: u16 = read_u16(buf, at);
    let dst_port: u16 = read_u16(buf, at + 2);
    let mut tcp_flags: u8 = 0;
    let mut tcp_seq: u32 = 0;
    let mut tcp_ack: u32 = 0;
    if protocol == TCP {
        tcp_seq = read_u32(buf, at + 4);
        tcp_ack = read_u32(buf, at + 8);
        tcp_flags = buf[at + 13];
    }
    IpHeader {
        version,
        src,
        dst,
        protocol,
        header_len: th,
        src_port,
        dst_port,
        tcp_flags,
        tcp_seq,
        tcp_ack,
    }
}

/// The IPv4 address in the first four of the given bytes.
pub fn ipv4_addr_from_bytes(bytes: &[u8]) -> (r: Option<IpAddr>)
    ensures
        r == (if bytes.len() < 4 {
            None
        } else {
            Some(IpAddr::V4(field(bytes@, 0, 4) as u32))
        }),
{
    if bytes.len() < 4 {
        return None;
    }
    Some(IpAddr::V4(read_u32(bytes, 0)))
}

/// The IPv6 address in the first sixteen of the given bytes.
pub fn ipv6_addr_from_bytes(bytes: &[u8]) -> (r: Option<IpAddr>)
    ensures
        r == (if bytes.len() < 16 {
            None
        } else {
            Some(IpAddr::V6(field(bytes@, 0, 16) as u128))
        }),
{
    if bytes.len() < 16 {
        return None;
    }
    Some(IpAddr::V6(read_be(bytes, 0, 16)))
}

/// Parse IP + TCP/UDP header from a raw packet.
pub fn parse_ip_packet(buf: &[u8]) -> (r: Option<IpHeader>)
    requires
        readable(buf@),
    ensures
        r == parsed(buf@),
{
    if buf.len() == 0 {
        return None;
    }
    let version: u8 = buf[0] / 16;
    if version == 4 {
        parse_ipv4(buf)
    } else if version == 6 {
        parse_ipv6(buf)
    } else {
        None
    }
}

/// Parse the headers of a packet as IPv4.
pub fn parse_ipv4(buf: &[u8]) -> (r: Option<IpHeader>)
    requires
        buf.len() > 0,
    ensures
        r == parsed_v4(buf@),
{
    let ihl: u8 = (buf[0] % 16) * 4;
    if ihl < 20 || ihl as usize > buf.len() {
        return None;
    }
    let protocol: u8 = buf[9];
    if protocol != TCP && protocol != UDP {
        return None;
    }
    let transport_needed: usize = if protocol == TCP {
        20
    } else {
        8
    };
    if buf.len() < ihl as usize + transport_needed {
        return None;
    }
    assert(buf@.subrange(12, 16).subrange(0, 4) =~= buf@.subrange(12, 16));
    assert(buf@.subrange(16, 20).subrange(0, 4) =~= buf@.subrange(16, 20));
    let src: IpAddr = ipv4_addr_from_bytes(slice_subrange(buf, 12, 16))?;
    let dst: IpAddr = ipv4_addr_from_bytes(slice_subrange(buf, 16, 20))?;
    Some(read_header(buf, 4, src, dst, protocol, ihl))
}

/// Parse the headers of a packet as IPv6.
pub fn parse_ipv6(buf: &[u8]) -> (r: Option<IpHeader>)
    requires
        buf.len() >= 5,
    ensures
        r == parsed_v6(buf@),
{
    let protocol: u8 = buf[4];
    if protocol != TCP && protocol != UDP {
        return None;
    }
    let transport_needed: usize = if protocol == TCP {
        20
    } else {
        8
    };
    if buf.len() < 40 + transport_needed {
        return None;
    }
    assert(buf@.subrange(8, 24).subrange(0, 16) =~= buf@.subrange(8, 24));
    assert(buf@.subrange(24, 40).subrange(0, 16) =~= buf@.subrange(24, 40));
    let src: IpAddr = ipv6_addr_from_bytes(slice_subrange(buf, 8, 24))?;
    let dst: IpAddr = ipv6_addr_from_bytes(slice_subrange(buf, 24, 40))?;
    Some(read_header(buf, 6, src, dst, protocol, 40))
}

/// The identity of a flow in one direction.
#[derive(Debug, Clone, Copy, PartialEq, Eq, Structural, Hash)]
pub struct ConnKey {
    pub version: u8,
    pub src_ip: u128,
    pub dst_ip: u128,
    pub sport: u16,
    pub dport: u16,
    pub proto: u8,
}

/// The key of a packet with the given ports.
pub open spec fn key_of(h: IpHeader, sport: u16, dport: u16) -> ConnKey {
    ConnKey {
        version: h.version,
        src_ip: ip_number(h.src),
        dst_ip: ip_number(h.dst),
        sport,
        dport,
        proto: h.protocol,
    }
}

/// The key of the opposite direction.
pub open spec fn reversed_key(k: ConnKey) -> ConnKey {
    ConnKey { src_ip: k.dst_ip, dst_ip: k.src_ip, sport: k.dport, dport: k.sport, ..k }
}

/// The key under which replies to a packet are sent.
pub open spec fn reply_key(h: IpHeader) -> ConnKey {
    reversed_key(key_of(h, h.src_port, h.dst_port))
}

impl ConnKey {
    /// The key of a packet with the given ports.
    pub fn from_ip(h: &IpHeader, sport: u16, dport: u16) -> (r: Self)
        ensures
            r == key_of(*h, sport, dport),
    {
        ConnKey {
            version: h.version,
            src_ip: ip_to_u128(h.src),
            dst_ip: ip_to_u128(h.dst),
            sport,
            dport,
            proto: h.protocol,
        }
    }

    /// The key of the opposite direction.
    pub fn reversed(&self) -> (r: Self)
        ensures
            r == reversed_key(*self),
    {
        ConnKey {
            version: self.version,
            src_ip: self.dst_ip,
            dst_ip: self.src_ip,
            sport: self.dport,
            dport: self.sport,
            proto: self.proto,
        }
    }
}

/// Reversing a key twice gives the key back, and reversing keeps the protocol
/// and the IP version.
pub proof fn law_reversed_twice(k: ConnKey)
    ensures
        reversed_key(reversed_key(k)) == k,
        reversed_key(k).version == k.version,
        reversed_key(k).proto == k.proto,
{
}

/// What is parsed is a TCP or UDP packet of IP version 4 or 6 with addresses of
/// that version, and its transport header lies inside the packet.
pub proof fn law_parsed_is_complete(buf: Seq<u8>)
    requires
        parsed(buf) is Some,
    ensures
        parsed(buf).unwrap().version == buf[0] / 16,
        is_carried(parsed(buf).unwrap().protocol),
        parsed(buf).unwrap().version == 4 ==> parsed(buf).unwrap().src is V4
            && parsed(buf).unwrap().dst is V4 && parsed(buf).unwrap().header_len >= 20,
        parsed(buf).unwrap().version == 6 ==> parsed(buf).unwrap().src is V6
            && parsed(buf).unwrap().dst is V6 && parsed(buf).unwrap().header_len == 40,
        parsed(buf).unwrap().version == 4 || parsed(buf).unwrap().version == 6,
        parsed(buf).unwrap().header_len + transport_len(parsed(buf).unwrap().protocol)
            <= buf.len(),
{
}

} // verus!
