//! Building of the IP packets that answer a client.

use vstd::prelude::*;
use vstd::slice::slice_subrange;

use crate::addr::octets;
use crate::addr::same_family;
use crate::addr::IpAddr;
use crate::bytes::be_bytes;
use crate::bytes::lemma_be_bytes_len;
use crate::bytes::length_field;
use crate::bytes::length_field_of_two;
use crate::bytes::push_all;
use crate::bytes::push_be;
use crate::bytes::put16;
use crate::bytes::set_u16;
use crate::checksum::add_word;
use crate::checksum::add_words;
use crate::checksum::complement;
use crate::checksum::complement_of;
use crate::checksum::internet_checksum;
use crate::checksum::lemma_fold_add;
use crate::checksum::word_sum;
use crate::packet::ConnKey;
use crate::packet::IpHeader;
use crate::packet::TCP;
use crate::packet::UDP;
use crate::text::decimal;
use crate::text::push_decimal;

verus! {

/// Why a response packet cannot be built.
#[derive(Debug, Clone, Copy, PartialEq, Eq, Structural)]
pub enum TunnelError {
    UnsupportedVersion(u8),
    UnsupportedProtocol(u8),
    ExpectedIpv4,
}

/// What is said when a response packet cannot be built.
pub open spec fn tunnel_error_text(e: TunnelError) -> Seq<char> {
    match e {
        TunnelError::UnsupportedVersion(v) => "unsupported IP version: "@ + decimal(v as nat),
        TunnelError::UnsupportedProtocol(v) => "unsupported protocol: "@ + decimal(v as nat),
        TunnelError::ExpectedIpv4 => "expected IPv4, got IPv6"@,
    }
}

impl TunnelError {
    /// What is said of it.
    pub fn message(&self) -> (r: String)
        ensures
            r@ == tunnel_error_text(*self),
    {
        match self {
            TunnelError::UnsupportedVersion(v) => {
                let mut out = "unsupported IP version: ".to_string();
                push_decimal(&mut out, *v as u64);
                out
            },
            TunnelError::UnsupportedProtocol(v) => {
                let mut out = "unsupported protocol: ".to_string();
                push_decimal(&mut out, *v as u64);
                out
            },
            TunnelError::ExpectedIpv4 => "expected IPv4, got IPv6".to_string(),
        }
    }
}

/// The sum that the TCP or UDP checksum complements: the pseudo-header, which
/// holds the addresses, a zero byte with the protocol, and the length, and then
/// the segment itself.
pub open spec fn segment_sum(src: IpAddr, dst: IpAddr, protocol: u8, data: Seq<u8>) -> nat {
    word_sum(octets(src)) + word_sum(octets(dst)) + protocol as nat + data.len() % 0x1_0000
        + word_sum(data)
}

/// Compute IPv4 header checksum.
pub fn ipv4_checksum(data: &[u8]) -> (r: u16)
    ensures
        r == complement(word_sum(data@)),
{
    internet_checksum(data)
}

/// Compute TCP/UDP checksum with pseudo-header.
pub fn tcp_checksum(src: &IpAddr, dst: &IpAddr, protocol: u8, data: &[u8]) -> (r: u16)
    requires
        same_family(*src, *dst),
    ensures
        r == complement(segment_sum(*src, *dst, protocol, data@)),
{
    let from: Vec<u8> = src.octets();
    let to: Vec<u8> = dst.octets();
    let len: u32 = length_field(data.len(), 0) as u32;
    let s1: u32 = add_words(0, from.as_slice());
    let s2: u32 = add_words(s1, to.as_slice());
    let s3: u32 = add_word(s2, protocol as u32);
    let s4: u32 = add_word(s3, len);
    let s5: u32 = add_words(s4, data);
    proof {
        let a = word_sum(octets(*src));
        let b = word_sum(octets(*dst));
        let p = protocol as nat;
        lemma_fold_add(a, b);
        lemma_fold_add(a + b, p);
        lemma_fold_add(a + b + p, len as nat);
        lemma_fold_add(a + b + p + len as nat, word_sum(data@));
    }
    complement_of(s5)
}

/// An IPv4 header without options whose checksum field is zero.
pub open spec fn blank_ipv4_header(total: u16, protocol: u8, src: u32, dst: u32) -> Seq<u8> {
    seq![0x45u8, 0, (total / 256) as u8, (total % 256) as u8, 0, 0, 0x40, 0, 64, protocol, 0, 0]
        + be_bytes(src as nat, 4) + be_bytes(dst as nat, 4)
}

/// An IPv4 header without options.
pub open spec fn ipv4_header(total: u16, protocol: u8, src: u32, dst: u32) -> Seq<u8> {
    let blank = blank_ipv4_header(total, protocol, src, dst);
    put16(blank, 10, complement(word_sum(blank)))
}

/// An IPv6 header.
pub open spec fn ipv6_header(len: u16, protocol: u8, src: u128, dst: u128) -> Seq<u8> {
    seq![0x60u8, 0, 0, 0, (len / 256) as u8, (len % 256) as u8, protocol, 64] + be_bytes(
        src as nat,
        16,
    ) + be_bytes(dst as nat, 16)
}

/// A TCP header whose checksum field is zero.
pub open spec fn tcp_header(rev: ConnKey, flags: u8, seq: u32, ack: u32) -> Seq<u8> {
    be_bytes(rev.sport as nat, 2) + be_bytes(rev.dport as nat, 2) + be_bytes(seq as nat, 4)
        + be_bytes(ack as nat, 4) + seq![0x50u8, flags, 0xff, 0xff, 0, 0, 0, 0]
}

/// A UDP header whose checksum field is zero.
pub open spec fn udp_header(rev: ConnKey, payload_len: nat) -> Seq<u8> {
    be_bytes(rev.sport as nat, 2) + be_bytes(rev.dport as nat, 2) + be_bytes(
        (payload_len + 8) % 0x1_0000,
        2,
    ) + seq![0u8, 0]
}

/// A TCP segment with its checksum.
pub open spec fn tcp_segment(
    payload: Seq<u8>,
    hdr: IpHeader,
    rev: ConnKey,
    flags: u8,
    seq: u32,
    ack: u32,
) -> Seq<u8> {
    let blank = tcp_header(rev, flags, seq, ack) + payload;
    put16(blank, 16, complement(segment_sum(hdr.src, hdr.dst, hdr.protocol, blank)))
}

/// The flags of a response: SYN+ACK where the client sent SYN, else PSH+ACK.
pub open spec fn response_flags(flags: u8) -> u8 {
    if (flags / 2) % 2 == 1 {
        0x12
    } else {
        0x18
    }
}

/// The IPv4 packet around a TCP segment that goes back to the client.
pub open spec fn tcp_ipv4_packet(
    payload: Seq<u8>,
    hdr: IpHeader,
    rev: ConnKey,
    transport_hdr_len: nat,
    flags: u8,
    seq: u32,
    ack: u32,
) -> Result<Seq<u8>, TunnelError> {
    match (hdr.src, hdr.dst) {
        (IpAddr::V4(src), IpAddr::V4(dst)) => Ok(
            ipv4_header(
                ((payload.len() + 20 + transport_hdr_len) % 0x1_0000) as u16,
                hdr.protocol,
                dst,
                src,
            ) + tcp_segment(payload, hdr, rev, flags, seq, ack),
        ),
        _ => Err(TunnelError::ExpectedIpv4),
    }
}

/// The IPv6 packet around a TCP segment that goes back to the client.
pub open spec fn tcp_ipv6_packet(
    payload: Seq<u8>,
    hdr: IpHeader,
    rev: ConnKey,
    transport_hdr_len: nat,
    flags: u8,
    seq: u32,
    ack: u32,
) -> Seq<u8> {
    ipv6_header(
        ((payload.len() + transport_hdr_len) % 0x1_0000) as u16,
        hdr.protocol,
        rev.src_ip,
        rev.dst_ip,
    ) + tcp_segment(payload, hdr, rev, flags, seq, ack)
}

/// A TCP response to the client of `hdr`.
pub open spec fn tcp_response(
    payload: Seq<u8>,
    hdr: IpHeader,
    rev: ConnKey,
    seq: u32,
    ack: u32,
) -> Result<Seq<u8>, TunnelError> {
    let flags = response_flags(hdr.tcp_flags);
    if hdr.version == 4 {
        tcp_ipv4_packet(payload, hdr, rev, 20, flags, seq, ack)
    } else if hdr.version == 6 {
        Ok(tcp_ipv6_packet(payload, hdr, rev, 20, flags, seq, ack))
    } else {
        Err(TunnelError::UnsupportedVersion(hdr.version))
    }
}

/// `buf` with a UDP packet over IPv4 behind it. The checksum is that of all
/// bytes from offset 20 on and stands at offset 26.
pub open spec fn with_udp_ipv4(
    buf: Seq<u8>,
    payload: Seq<u8>,
    hdr: IpHeader,
    rev: ConnKey,
    src: u32,
    dst: u32,
) -> Seq<u8> {
    let total = ((payload.len() + 28) % 0x1_0000) as u16;
    let blank = buf + ipv4_header(total, hdr.protocol, dst, src) + udp_header(rev, payload.len())
        + payload;
    put16(blank, 26, complement(segment_sum(hdr.src, hdr.dst, UDP, blank.skip(20))))
}

/// `buf` with a UDP packet over IPv6 behind it. The checksum is that of all
/// bytes from offset 40 on and stands at offset 46.
pub open spec fn with_udp_ipv6(
    buf: Seq<u8>,
    payload: Seq<u8>,
    hdr: IpHeader,
    rev: ConnKey,
) -> Seq<u8> {
    let len = ((payload.len() + 8) % 0x1_0000) as u16;
    let blank = buf + ipv6_header(len, hdr.protocol, rev.src_ip, rev.dst_ip) + udp_header(
        rev,
        payload.len(),
    ) + payload;
    put16(blank, 46, complement(segment_sum(hdr.src, hdr.dst, UDP, blank.skip(40))))
}

/// A UDP response to the client of `hdr`.
pub open spec fn udp_response(payload: Seq<u8>, hdr: IpHeader, rev: ConnKey) -> Result<
    Seq<u8>,
    TunnelError,
> {
    if hdr.version == 4 {
        match (hdr.src, hdr.dst) {
            (IpAddr::V4(src), IpAddr::V4(dst)) => Ok(
                with_udp_ipv4(Seq::empty(), payload, hdr, rev, src, dst),
            ),
            _ => Err(TunnelError::ExpectedIpv4),
        }
    } else if hdr.version == 6 {
        Ok(with_udp_ipv6(Seq::empty(), payload, hdr, rev))
    } else {
        Err(TunnelError::UnsupportedVersion(hdr.version))
    }
}

/// A response to the client of `hdr`.
pub open spec fn response(payload: Seq<u8>, hdr: IpHeader, rev: ConnKey) -> Result<
    Seq<u8>,
    TunnelError,
> {
    if hdr.protocol == TCP {
        tcp_response(payload, hdr, rev, 0, 0)
    } else if hdr.protocol == UDP {
        udp_response(payload, hdr, rev)
    } else {
        Err(TunnelError::UnsupportedProtocol(hdr.protocol))
    }
}

/// The bytes of a packet, or why there is none.
pub open spec fn packet_of(r: Result<Vec<u8>, TunnelError>) -> Result<Seq<u8>, TunnelError> {
    match r {
        Ok(v) => Ok(v@),
        Err(e) => Err(e),
    }
}

/// Write a TCP header with proper flags, seq/ack numbers and swapped ports.
pub fn extend_tcp_response_header(
    buf: &mut Vec<u8>,
    rev: &ConnKey,
    flags: u8,
    seq: u32,
    ack: u32,
)
    ensures
        final(buf)@ == old(buf)@ + tcp_header(*rev, flags, seq, ack),
{
    push_be(buf, rev.sport as u128, 2);
    push_be(buf, rev.dport as u128, 2);
    push_be(buf, seq as u128, 4);
    push_be(buf, ack as u128, 4);
    buf.push(0x50);
    buf.push(flags);
    buf.push(0xff);
    buf.push(0xff);
    push_be(buf, 0, 4);
    proof {
        reveal_with_fuel(be_bytes, 5);
        assert(be_bytes(0, 4) =~= seq![0u8, 0, 0, 0]);
        assert(buf@ =~= old(buf)@ + tcp_header(*rev, flags, seq, ack));
    }
}

/// Write UDP transport header with swapped ports.
pub fn extend_transport_header(buf: &mut Vec<u8>, rev: &ConnKey, payload_len: usize, protocol: u8)
    requires
        protocol == UDP,
    ensures
        final(buf)@ == old(buf)@ + udp_header(*rev, payload_len as nat),
{
    push_be(buf, rev.sport as u128, 2);
    push_be(buf, rev.dport as u128, 2);
    push_be(buf, length_field(payload_len, 8) as u128, 2);
    buf.push(0);
    buf.push(0);
    assert(buf@ =~= old(buf)@ + udp_header(*rev, payload_len as nat));
}

/// Writes an IPv4 header.
fn extend_ipv4_header(buf: &mut Vec<u8>, total: u16, protocol: u8, src: u32, dst: u32)
    ensures
        final(buf)@ == old(buf)@ + ipv4_header(total, protocol, src, dst),
{
    let mut data: Vec<u8> = Vec::new();
    data.push(0x45);  // version=4, IHL=5
    data.push(0x00);  // ToS
    data.push((total / 256) as u8);
    data.push((total % 256) as u8);
    data.push(0x00);  // identification
    data.push(0x00);
    data.push(0x40);  // DF flag
    data.push(0x00);
    data.push(64);  // TTL
    data.push(protocol);
    data.push(0x00);  // checksum placeholder
    data.push(0x00);
    push_be(&mut data, src as u128, 4);
    push_be(&mut data, dst as u128, 4);
    proof {
        lemma_be_bytes_len(src as nat, 4);
        lemma_be_bytes_len(dst as nat, 4);
        assert(data@ =~= blank_ipv4_header(total, protocol, src, dst));
    }
    let checksum: u16 = ipv4_checksum(data.as_slice());
    set_u16(&mut data, 10, checksum);
    push_all(buf, data.as_slice());
}

/// Writes an IPv6 header.
fn extend_ipv6_header(buf: &mut Vec<u8>, len: u16, protocol: u8, src: u128, dst: u128)
    ensures
        final(buf)@ == old(buf)@ + ipv6_header(len, protocol, src, dst),
{
    buf.push(0x60);
    buf.push(0x00);
    buf.push(0x00);
    buf.push(0x00);
    buf.push((len / 256) as u8);
    buf.push((len % 256) as u8);
    buf.push(protocol);
    buf.push(64);  // hop limit
    push_be(buf, src, 16);
    push_be(buf, dst, 16);
    assert(buf@ =~= old(buf)@ + ipv6_header(len, protocol, src, dst));
}

proof fn lemma_header_lens(
    total: u16,
    protocol: u8,
    src4: u32,
    dst4: u32,
    src6: u128,
    dst6: u128,
    rev: ConnKey,
    flags: u8,
    seq: u32,
    ack: u32,
    payload_len: nat,
)
    ensures
        ipv4_header(total, protocol, src4, dst4).len() == 20,
        ipv6_header(total, protocol, src6, dst6).len() == 40,
        tcp_header(rev, flags, seq, ack).len() == 20,
        udp_header(rev, payload_len).len() == 8,
{
    lemma_be_bytes_len(src4 as nat, 4);
    lemma_be_bytes_len(dst4 as nat, 4);
    lemma_be_bytes_len(src6 as nat, 16);
    lemma_be_bytes_len(dst6 as nat, 16);
    lemma_be_bytes_len(rev.sport as nat, 2);
    lemma_be_bytes_len(rev.dport as nat, 2);
    lemma_be_bytes_len(seq as nat, 4);
    lemma_be_bytes_len(ack as nat, 4);
    lemma_be_bytes_len((payload_len + 8) % 0x1_0000, 2);
}

/// Appends a TCP segment with its checksum.
fn extend_tcp_segment(
    buf: &mut Vec<u8>,
    payload: &[u8],
    hdr: &IpHeader,
    rev: &ConnKey,
    flags: u8,
    seq: u32,
    ack: u32,
)
    requires
        same_family(hdr.src, hdr.dst),
    ensures
        final(buf)@ == old(buf)@ + tcp_segment(payload@, *hdr, *rev, flags, seq, ack),
{
    let mut segment: Vec<u8> = Vec::new();
    extend_tcp_response_header(&mut segment, rev, flags, seq, ack);
    push_all(&mut segment, payload);
    let checksum: u16 = tcp_checksum(&hdr.src, &hdr.dst, hdr.protocol, segment.as_slice());
    proof {
        lemma_header_lens(0, 0, 0, 0, 0, 0, *rev, flags, seq, ack, 0);
        assert(segment@ =~= tcp_header(*rev, flags, seq, ack) + payload@);
    }
    set_u16(&mut segment, 16, checksum);
    push_all(buf, segment.as_slice());
}

/// Build a TCP packet over IPv4.
pub fn build_tcp_ipv4_packet(
    payload: &[u8],
    hdr: &IpHeader,
    rev: &ConnKey,
    transport_hdr_len: usize,
    tcp_flags: u8,
    seq: u32,
    ack: u32,
) -> (r: Result<Vec<u8>, TunnelError>)
    ensures
        packet_of(r) == tcp_ipv4_packet(
            payload@,
            *hdr,
            *rev,
            transport_hdr_len as nat,
            tcp_flags,
            seq,
            ack,
        ),
{
    match (hdr.src, hdr.dst) {
        (IpAddr::V4(src), IpAddr::V4(dst)) => {
            let total: u16 = length_field_of_two(payload.len(), transport_hdr_len, 20);
            let mut pkt: Vec<u8> = Vec::new();
            extend_ipv4_header(&mut pkt, total, hdr.protocol, dst, src);
            assert(pkt@ =~= ipv4_header(total, hdr.protocol, dst, src));
            extend_tcp_segment(&mut pkt, payload, hdr, rev, tcp_flags, seq, ack);
            Ok(pkt)
        },
        _ => Err(TunnelError::ExpectedIpv4),
    }
}

/// Build a TCP packet over IPv6.
pub fn build_tcp_ipv6_packet(
    payload: &[u8],
    hdr: &IpHeader,
    rev: &ConnKey,
    transport_hdr_len: usize,
    tcp_flags: u8,
    seq: u32,
    ack: u32,
) -> (r: Result<Vec<u8>, TunnelError>)
    requires
        same_family(hdr.src, hdr.dst),
    ensures
        packet_of(r) == Ok::<Seq<u8>, TunnelError>(
            tcp_ipv6_packet(
                payload@,
                *hdr,
                *rev,
                transport_hdr_len as nat,
                tcp_flags,
                seq,
                ack,
            ),
        ),
{
    let len: u16 = length_field_of_two(payload.len(), transport_hdr_len, 0);
    let mut pkt: Vec<u8> = Vec::new();
    extend_ipv6_header(&mut pkt, len, hdr.protocol, rev.src_ip, rev.dst_ip);
    assert(pkt@ =~= ipv6_header(len, hdr.protocol, rev.src_ip, rev.dst_ip));
    extend_tcp_segment(&mut pkt, payload, hdr, rev, tcp_flags, seq, ack);
    Ok(pkt)
}

/// Build a TCP response IP packet with explicit seq/ack numbers.
pub fn build_tcp_response_packet(
    payload: &[u8],
    original: &IpHeader,
    rev_key: &ConnKey,
    server_seq: u32,
    client_ack: u32,
) -> (r: Result<Vec<u8>, TunnelError>)
    requires
        original.version == 6 ==> same_family(original.src, original.dst),
    ensures
        packet_of(r) == tcp_response(payload@, *original, *rev_key, server_seq, client_ack),
{
    // Response flags: if SYN was set, SYN+ACK; otherwise PSH+ACK
    let flags: u8 = if (original.tcp_flags / 2) % 2 == 1 {
        0x12
    } else {
        0x18
    };
    if original.version == 4 {
        build_tcp_ipv4_packet(payload, original, rev_key, 20, flags, server_seq, client_ack)
    } else if original.version == 6 {
        build_tcp_ipv6_packet(payload, original, rev_key, 20, flags, server_seq, client_ack)
    } else {
        Err(TunnelError::UnsupportedVersion(original.version))
    }
}

/// Append a UDP packet over IPv4.
pub fn build_udp_ipv4(buf: &mut Vec<u8>, payload: &[u8], hdr: &IpHeader, rev: &ConnKey) -> (r:
    Result<(), TunnelError>)
    requires
        hdr.src is V4 && hdr.dst is V4 ==> hdr.protocol == UDP,
    ensures
        match (hdr.src, hdr.dst) {
            (IpAddr::V4(src), IpAddr::V4(dst)) => r is Ok && final(buf)@ == with_udp_ipv4(
                old(buf)@,
                payload@,
                *hdr,
                *rev,
                src,
                dst,
            ),
            _ => r == Err::<(), TunnelError>(TunnelError::ExpectedIpv4) && final(buf)@ == old(
                buf,
            )@,
        },
{
    match (hdr.src, hdr.dst) {
        (IpAddr::V4(src), IpAddr::V4(dst)) => {
            let total: u16 = length_field(payload.len(), 28);
            extend_ipv4_header(buf, total, hdr.protocol, dst, src);
            extend_transport_header(buf, rev, payload.len(), hdr.protocol);
            push_all(buf, payload);
            let ghost blank = buf@;
            proof {
                lemma_header_lens(total, hdr.protocol, dst, src, 0, 0, *rev, 0, 0, 0, payload@.len());
                assert(blank.subrange(20, blank.len() as int) =~= blank.skip(20));
            }
            let checksum: u16 = tcp_checksum(
                &hdr.src,
                &hdr.dst,
                UDP,
                slice_subrange(buf.as_slice(), 20, buf.len()),
            );
            set_u16(buf, 26, checksum);
            Ok(())
        },
        _ => Err(TunnelError::ExpectedIpv4),
    }
}

/// Append a UDP packet over IPv6.
pub fn build_udp_ipv6(buf: &mut Vec<u8>, payload: &[u8], hdr: &IpHeader, rev: &ConnKey) -> (r:
    Result<(), TunnelError>)
    requires
        hdr.protocol == UDP,
        same_family(hdr.src, hdr.dst),
    ensures
        r is Ok,
        final(buf)@ == with_udp_ipv6(old(buf)@, payload@, *hdr, *rev),
{
    let len: u16 = length_field(payload.len(), 8);
    extend_ipv6_header(buf, len, hdr.protocol, rev.src_ip, rev.dst_ip);
    extend_transport_header(buf, rev, payload.len(), hdr.protocol);
    push_all(buf, payload);
    let ghost blank = buf@;
    proof {
        lemma_header_lens(
            len,
            hdr.protocol,
            0,
            0,
            rev.src_ip,
            rev.dst_ip,
            *rev,
            0,
            0,
            0,
            payload@.len(),
        );
        assert(blank.subrange(40, blank.len() as int) =~= blank.skip(40));
    }
    let checksum: u16 = tcp_checksum(
        &hdr.src,
        &hdr.dst,
        UDP,
        slice_subrange(buf.as_slice(), 40, buf.len()),
    );
    set_u16(buf, 46, checksum);
    Ok(())
}

/// Whether a header is one that a UDP response can be tried for: where a packet
/// would be built, the protocol is UDP and, over IPv6, both addresses belong to
/// one family.
pub open spec fn udp_answerable(hdr: IpHeader) -> bool {
    &&& hdr.version == 4 && hdr.src is V4 && hdr.dst is V4 ==> hdr.protocol == UDP
    &&& hdr.version == 6 ==> hdr.protocol == UDP && same_family(hdr.src, hdr.dst)
}

/// Build a UDP response IP packet.
pub fn build_udp_response_packet(payload: &[u8], hdr: &IpHeader, rev: &ConnKey) -> (r: Result<
    Vec<u8>,
    TunnelError,
>)
    requires
        udp_answerable(*hdr),
    ensures
        packet_of(r) == udp_response(payload@, *hdr, *rev),
{
    let mut packet: Vec<u8> = Vec::new();
    if hdr.version == 4 {
        match build_udp_ipv4(&mut packet, payload, hdr, rev) {
            Ok(()) => Ok(packet),
            Err(e) => Err(e),
        }
    } else if hdr.version == 6 {
        match build_udp_ipv6(&mut packet, payload, hdr, rev) {
            Ok(()) => Ok(packet),
            Err(e) => Err(e),
        }
    } else {
        Err(TunnelError::UnsupportedVersion(hdr.version))
    }
}

/// Whether a header is one that a response can be tried for: a TCP or UDP
/// packet over IPv6 has both addresses in one family.
pub open spec fn answerable(hdr: IpHeader) -> bool {
    hdr.version == 6 && (hdr.protocol == TCP || hdr.protocol == UDP) ==> same_family(
        hdr.src,
        hdr.dst,
    )
}

/// Build a response IP packet by swapping src/dst addresses and ports.
pub fn build_response_packet(payload: &[u8], original: &IpHeader, rev_key: &ConnKey) -> (r: Result<
    Vec<u8>,
    TunnelError,
>)
    requires
        answerable(*original),
    ensures
        packet_of(r) == response(payload@, *original, *rev_key),
{
    if original.protocol == TCP {
        build_tcp_response_packet(payload, original, rev_key, 0, 0)
    } else if original.protocol == UDP {
        build_udp_response_packet(payload, original, rev_key)
    } else {
        Err(TunnelError::UnsupportedProtocol(original.protocol))
    }
}

} // verus!
