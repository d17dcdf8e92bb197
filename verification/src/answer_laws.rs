//! The bytes of every answer, one by one.

use vstd::prelude::*;

use crate::addr::octets;
use crate::addr::same_family;
use crate::addr::IpAddr;
use crate::bytes::be_bytes;
use crate::bytes::lemma_be_bytes_16;
use crate::bytes::lemma_be_bytes_len;
use crate::checksum::complement;
use crate::checksum::word_sum;
use crate::packet::ConnKey;
use crate::packet::IpHeader;
use crate::response::answerable;
use crate::response::blank_ipv4_header;
use crate::response::ipv4_header;
use crate::response::ipv6_header;
use crate::response::response;
use crate::response::response_flags;
use crate::response::segment_sum;
use crate::response::tcp_header;
use crate::response::tcp_ipv4_packet;
use crate::response::tcp_ipv6_packet;
use crate::response::tcp_response;
use crate::response::tcp_segment;
use crate::response::udp_answerable;
use crate::response::udp_header;
use crate::response::udp_response;
use crate::response::with_udp_ipv4;
use crate::response::with_udp_ipv6;
use crate::response::TunnelError;
use crate::wire_laws::law_address;
use crate::wire_laws::law_word_sum;
use crate::wire_laws::lemma_word_sum_concat;

verus! {

/// The number in two bytes.
pub open spec fn two_bytes(s: Seq<u8>, at: int) -> int {
    s[at] * 256 + s[at + 1]
}

/// `s` with the two bytes at `at` zero.
pub open spec fn blanked(s: Seq<u8>, at: int) -> Seq<u8> {
    s.update(at, 0).update(at + 1, 0)
}

/// The bytes behind the addresses of a pseudo-header: a zero byte, the protocol and
/// the length of the segment.
pub open spec fn pseudo_end(protocol: u8, len: nat) -> Seq<u8> {
    seq![0u8, protocol, ((len / 256) % 256) as u8, (len % 256) as u8]
}

/// A sum of two words.
proof fn lemma_two_words(a: u8, b: u8, c: u8, d: u8)
    ensures
        word_sum(seq![a, b, c, d]) == a * 256 + b + c * 256 + d,
{
    law_word_sum(a, b, seq![c, d]);
    law_word_sum(c, d, Seq::empty());
    assert(seq![a, b] + seq![c, d] =~= seq![a, b, c, d]);
    assert(seq![c, d] + Seq::<u8>::empty() =~= seq![c, d]);
}

/// The sum behind a TCP or UDP checksum is that of the words of the pseudo-header
/// and the segment. The order of the addresses makes no difference.
pub proof fn law_pseudo_header(src: IpAddr, dst: IpAddr, protocol: u8, data: Seq<u8>)
    ensures
        segment_sum(src, dst, protocol, data) == word_sum(
            octets(src) + octets(dst) + pseudo_end(protocol, data.len()) + data,
        ),
        segment_sum(src, dst, protocol, data) == word_sum(
            octets(dst) + octets(src) + pseudo_end(protocol, data.len()) + data,
        ),
{
    lemma_octets_even(src);
    lemma_octets_even(dst);
    let end = pseudo_end(protocol, data.len());
    let len = data.len();
    lemma_two_words(0, protocol, ((len / 256) % 256) as u8, (len % 256) as u8);
    assert(((len / 256) % 256) * 256 + len % 256 == len % 0x1_0000);
    lemma_word_sum_concat(octets(src), octets(dst));
    lemma_word_sum_concat(octets(dst), octets(src));
    lemma_word_sum_concat(octets(src) + octets(dst), end);
    lemma_word_sum_concat(octets(dst) + octets(src), end);
    lemma_word_sum_concat(octets(src) + octets(dst) + end, data);
    lemma_word_sum_concat(octets(dst) + octets(src) + end, data);
}

proof fn lemma_octets_even(ip: IpAddr)
    ensures
        octets(ip).len() % 2 == 0,
        ip is V4 ==> octets(ip).len() == 4,
        ip is V6 ==> octets(ip).len() == 16,
{
    match ip {
        IpAddr::V4(x) => law_address(x, 0),
        IpAddr::V6(x) => law_address(0, x),
    }
}

/// Whether `h` is an IPv4 header of 20 bytes with these fields and a checksum that
/// belongs to its other bytes.
pub open spec fn is_ipv4_header(
    h: Seq<u8>,
    total: nat,
    protocol: u8,
    src: Seq<u8>,
    dst: Seq<u8>,
) -> bool {
    &&& h.len() == 20
    &&& h[0] == 0x45
    &&& h[1] == 0
    &&& two_bytes(h, 2) == total % 0x1_0000
    &&& two_bytes(h, 4) == 0
    &&& two_bytes(h, 6) == 0x4000
    &&& h[8] == 64
    &&& h[9] == protocol
    &&& two_bytes(h, 10) == complement(word_sum(blanked(h, 10)))
    &&& h.subrange(12, 16) == src
    &&& h.subrange(16, 20) == dst
}

/// Whether `h` is an IPv6 header of 40 bytes with these fields.
pub open spec fn is_ipv6_header(
    h: Seq<u8>,
    len: nat,
    protocol: u8,
    src: Seq<u8>,
    dst: Seq<u8>,
) -> bool {
    &&& h.len() == 40
    &&& h[0] == 0x60
    &&& h[1] == 0 && h[2] == 0 && h[3] == 0
    &&& two_bytes(h, 4) == len % 0x1_0000
    &&& h[6] == protocol
    &&& h[7] == 64
    &&& h.subrange(8, 24) == src
    &&& h.subrange(24, 40) == dst
}

/// Whether `s` is a TCP segment with these fields and a checksum that belongs to
/// its other bytes and the given front of a pseudo-header. The data offset tells
/// where the payload starts.
pub open spec fn is_tcp_segment(
    s: Seq<u8>,
    sport: u16,
    dport: u16,
    seq: u32,
    ack: u32,
    flags: u8,
    payload: Seq<u8>,
    addresses: Seq<u8>,
    protocol: u8,
) -> bool {
    &&& s.len() == 20 + payload.len()
    &&& two_bytes(s, 0) == sport
    &&& two_bytes(s, 2) == dport
    &&& two_bytes(s, 4) * 0x1_0000 + two_bytes(s, 6) == seq
    &&& two_bytes(s, 8) * 0x1_0000 + two_bytes(s, 10) == ack
    &&& s[12] % 16 == 0
    &&& (s[12] / 16) * 4 == 20
    &&& s[13] == flags
    &&& two_bytes(s, 14) == 0xffff
    &&& two_bytes(s, 16) == complement(
        word_sum(addresses + pseudo_end(protocol, s.len()) + blanked(s, 16)),
    )
    &&& two_bytes(s, 18) == 0
    &&& s.skip((s[12] / 16) * 4) == payload
}

/// Whether `s` is a UDP datagram with these fields and a checksum that belongs to
/// its other bytes and the given front of a pseudo-header.
pub open spec fn is_udp_datagram(
    s: Seq<u8>,
    sport: u16,
    dport: u16,
    payload: Seq<u8>,
    addresses: Seq<u8>,
) -> bool {
    &&& s.len() == 8 + payload.len()
    &&& two_bytes(s, 0) == sport
    &&& two_bytes(s, 2) == dport
    &&& two_bytes(s, 4) == (8 + payload.len()) % 0x1_0000
    &&& two_bytes(s, 6) == complement(
        word_sum(addresses + pseudo_end(17, s.len()) + blanked(s, 6)),
    )
    &&& s.skip(8) == payload
}

/// A number of four bytes is one of two words.
proof fn lemma_words_of(x: u32)
    ensures
        be_bytes(x as nat, 4).len() == 4,
        two_bytes(be_bytes(x as nat, 4), 0) * 0x1_0000 + two_bytes(be_bytes(x as nat, 4), 2) == x,
{
    reveal_with_fuel(be_bytes, 5);
}

proof fn lemma_ipv4_header_bytes(total: u16, protocol: u8, src: u32, dst: u32)
    ensures
        is_ipv4_header(
            ipv4_header(total, protocol, src, dst),
            total as nat,
            protocol,
            octets(IpAddr::V4(src)),
            octets(IpAddr::V4(dst)),
        ),
{
    let b = blank_ipv4_header(total, protocol, src, dst);
    let h = ipv4_header(total, protocol, src, dst);
    lemma_be_bytes_len(src as nat, 4);
    lemma_be_bytes_len(dst as nat, 4);
    assert(blanked(h, 10) =~= b);
    assert(h.subrange(12, 16) =~= be_bytes(src as nat, 4));
    assert(h.subrange(16, 20) =~= be_bytes(dst as nat, 4));
}

proof fn lemma_ipv6_header_bytes(len: u16, protocol: u8, src: u128, dst: u128)
    ensures
        is_ipv6_header(
            ipv6_header(len, protocol, src, dst),
            len as nat,
            protocol,
            octets(IpAddr::V6(src)),
            octets(IpAddr::V6(dst)),
        ),
{
    let h = ipv6_header(len, protocol, src, dst);
    lemma_be_bytes_len(src as nat, 16);
    lemma_be_bytes_len(dst as nat, 16);
    assert(h.subrange(8, 24) =~= be_bytes(src as nat, 16));
    assert(h.subrange(24, 40) =~= be_bytes(dst as nat, 16));
}

proof fn lemma_tcp_segment_bytes(
    payload: Seq<u8>,
    hdr: IpHeader,
    rev: ConnKey,
    flags: u8,
    seq: u32,
    ack: u32,
)
    ensures
        is_tcp_segment(
            tcp_segment(payload, hdr, rev, flags, seq, ack),
            rev.sport,
            rev.dport,
            seq,
            ack,
            flags,
            payload,
            octets(hdr.dst) + octets(hdr.src),
            hdr.protocol,
        ),
{
    let h = tcp_header(rev, flags, seq, ack);
    let b = h + payload;
    let s = tcp_segment(payload, hdr, rev, flags, seq, ack);
    let sq = be_bytes(seq as nat, 4);
    let ak = be_bytes(ack as nat, 4);
    lemma_be_bytes_16(rev.sport);
    lemma_be_bytes_16(rev.dport);
    lemma_words_of(seq);
    lemma_words_of(ack);
    assert(s[4] == sq[0] && s[5] == sq[1] && s[6] == sq[2] && s[7] == sq[3]);
    assert(s[8] == ak[0] && s[9] == ak[1] && s[10] == ak[2] && s[11] == ak[3]);
    law_pseudo_header(hdr.src, hdr.dst, hdr.protocol, b);
    assert(blanked(s, 16) =~= b);
    assert(s.skip(20) =~= payload);
}

proof fn lemma_udp_datagram_bytes(
    s: Seq<u8>,
    src: IpAddr,
    dst: IpAddr,
    rev: ConnKey,
    payload: Seq<u8>,
)
    requires
        s == crate::bytes::put16(
            udp_header(rev, payload.len()) + payload,
            6,
            complement(segment_sum(src, dst, 17, udp_header(rev, payload.len()) + payload)),
        ),
    ensures
        is_udp_datagram(s, rev.sport, rev.dport, payload, octets(dst) + octets(src)),
{
    let b = udp_header(rev, payload.len()) + payload;
    let len = ((8 + payload.len()) % 0x1_0000) as u16;
    lemma_be_bytes_16(rev.sport);
    lemma_be_bytes_16(rev.dport);
    lemma_be_bytes_16(len);
    law_pseudo_header(src, dst, 17, b);
    assert(blanked(s, 6) =~= b);
    assert(s.skip(8) =~= payload);
}

/// The flags of a TCP answer: to a packet with SYN, which is the second lowest bit,
/// SYN and ACK, and to any other PSH and ACK.
pub proof fn law_answer_flags(flags: u8)
    ensures
        flags & 0x02 != 0 ==> response_flags(flags) == 0x02 | 0x10,
        flags & 0x02 == 0 ==> response_flags(flags) == 0x08 | 0x10,
{
    assert((flags / 2) % 2 == 1 <==> flags & 0x02 != 0) by (bit_vector);
    assert(0x02u8 | 0x10u8 == 0x12u8 && 0x08u8 | 0x10u8 == 0x18u8) by (bit_vector);
}

/// Every byte of a TCP answer over IPv4: it goes from the address that the client
/// sent to back to the client, in a header of 20 bytes, and carries a segment with
/// the ports of the key and the given numbers and payload.
pub proof fn law_tcp_answer_over_ipv4(
    payload: Seq<u8>,
    hdr: IpHeader,
    rev: ConnKey,
    seq: u32,
    ack: u32,
)
    requires
        hdr.version == 4,
        hdr.src is V4,
        hdr.dst is V4,
    ensures
        tcp_response(payload, hdr, rev, seq, ack) is Ok,
        ({
            let p = tcp_response(payload, hdr, rev, seq, ack)->Ok_0;
            &&& is_ipv4_header(
                p.take(20),
                payload.len() + 40,
                hdr.protocol,
                octets(hdr.dst),
                octets(hdr.src),
            )
            &&& is_tcp_segment(
                p.skip(20),
                rev.sport,
                rev.dport,
                seq,
                ack,
                response_flags(hdr.tcp_flags),
                payload,
                octets(hdr.dst) + octets(hdr.src),
                hdr.protocol,
            )
        }),
{
    let total = ((payload.len() + 40) % 0x1_0000) as u16;
    let src = hdr.src->V4_0;
    let dst = hdr.dst->V4_0;
    let flags = response_flags(hdr.tcp_flags);
    let p = tcp_response(payload, hdr, rev, seq, ack)->Ok_0;
    lemma_ipv4_header_bytes(total, hdr.protocol, dst, src);
    lemma_tcp_segment_bytes(payload, hdr, rev, flags, seq, ack);
    assert(p.take(20) =~= ipv4_header(total, hdr.protocol, dst, src));
    assert(p.skip(20) =~= tcp_segment(payload, hdr, rev, flags, seq, ack));
}

/// Every byte of a TCP answer over IPv6: it goes between the addresses of the key
/// and carries a segment with its ports and the given numbers and payload.
pub proof fn law_tcp_answer_over_ipv6(
    payload: Seq<u8>,
    hdr: IpHeader,
    rev: ConnKey,
    seq: u32,
    ack: u32,
)
    requires
        hdr.version == 6,
    ensures
        tcp_response(payload, hdr, rev, seq, ack) is Ok,
        ({
            let p = tcp_response(payload, hdr, rev, seq, ack)->Ok_0;
            &&& is_ipv6_header(
                p.take(40),
                payload.len() + 20,
                hdr.protocol,
                octets(IpAddr::V6(rev.src_ip)),
                octets(IpAddr::V6(rev.dst_ip)),
            )
            &&& is_tcp_segment(
                p.skip(40),
                rev.sport,
                rev.dport,
                seq,
                ack,
                response_flags(hdr.tcp_flags),
                payload,
                octets(hdr.dst) + octets(hdr.src),
                hdr.protocol,
            )
        }),
{
    let len = ((payload.len() + 20) % 0x1_0000) as u16;
    let flags = response_flags(hdr.tcp_flags);
    let p = tcp_response(payload, hdr, rev, seq, ack)->Ok_0;
    lemma_ipv6_header_bytes(len, hdr.protocol, rev.src_ip, rev.dst_ip);
    lemma_tcp_segment_bytes(payload, hdr, rev, flags, seq, ack);
    assert(p.take(40) =~= ipv6_header(len, hdr.protocol, rev.src_ip, rev.dst_ip));
    assert(p.skip(40) =~= tcp_segment(payload, hdr, rev, flags, seq, ack));
}

/// Every byte of a UDP answer over IPv4.
pub proof fn law_udp_answer_over_ipv4(payload: Seq<u8>, hdr: IpHeader, rev: ConnKey)
    requires
        hdr.version == 4,
        hdr.src is V4,
        hdr.dst is V4,
    ensures
        udp_response(payload, hdr, rev) is Ok,
        ({
            let p = udp_response(payload, hdr, rev)->Ok_0;
            &&& is_ipv4_header(
                p.take(20),
                payload.len() + 28,
                hdr.protocol,
                octets(hdr.dst),
                octets(hdr.src),
            )
            &&& is_udp_datagram(
                p.skip(20),
                rev.sport,
                rev.dport,
                payload,
                octets(hdr.dst) + octets(hdr.src),
            )
        }),
{
    let total = ((payload.len() + 28) % 0x1_0000) as u16;
    let src = hdr.src->V4_0;
    let dst = hdr.dst->V4_0;
    let ip = ipv4_header(total, hdr.protocol, dst, src);
    let seg = udp_header(rev, payload.len()) + payload;
    let p = udp_response(payload, hdr, rev)->Ok_0;
    lemma_ipv4_header_bytes(total, hdr.protocol, dst, src);
    lemma_be_bytes_16(rev.sport);
    lemma_be_bytes_16(rev.dport);
    lemma_be_bytes_16(((8 + payload.len()) % 0x1_0000) as u16);
    assert((Seq::<u8>::empty() + ip + udp_header(rev, payload.len()) + payload).skip(20) =~= seg);
    assert(p.take(20) =~= ip);
    assert(p.skip(20) =~= crate::bytes::put16(
        seg,
        6,
        complement(segment_sum(hdr.src, hdr.dst, 17, seg)),
    ));
    lemma_udp_datagram_bytes(p.skip(20), hdr.src, hdr.dst, rev, payload);
}

/// Every byte of a UDP answer over IPv6.
pub proof fn law_udp_answer_over_ipv6(payload: Seq<u8>, hdr: IpHeader, rev: ConnKey)
    requires
        hdr.version == 6,
    ensures
        udp_response(payload, hdr, rev) is Ok,
        ({
            let p = udp_response(payload, hdr, rev)->Ok_0;
            &&& is_ipv6_header(
                p.take(40),
                payload.len() + 8,
                hdr.protocol,
                octets(IpAddr::V6(rev.src_ip)),
                octets(IpAddr::V6(rev.dst_ip)),
            )
            &&& is_udp_datagram(
                p.skip(40),
                rev.sport,
                rev.dport,
                payload,
                octets(hdr.dst) + octets(hdr.src),
            )
        }),
{
    let len = ((payload.len() + 8) % 0x1_0000) as u16;
    let ip = ipv6_header(len, hdr.protocol, rev.src_ip, rev.dst_ip);
    let seg = udp_header(rev, payload.len()) + payload;
    let p = udp_response(payload, hdr, rev)->Ok_0;
    lemma_ipv6_header_bytes(len, hdr.protocol, rev.src_ip, rev.dst_ip);
    lemma_be_bytes_16(rev.sport);
    lemma_be_bytes_16(rev.dport);
    lemma_be_bytes_16(((8 + payload.len()) % 0x1_0000) as u16);
    assert((Seq::<u8>::empty() + ip + udp_header(rev, payload.len()) + payload).skip(40) =~= seg);
    assert(p.take(40) =~= ip);
    assert(p.skip(40) =~= crate::bytes::put16(
        seg,
        6,
        complement(segment_sum(hdr.src, hdr.dst, 17, seg)),
    ));
    lemma_udp_datagram_bytes(p.skip(40), hdr.src, hdr.dst, rev, payload);
}

/// Which answers there are: those of TCP, with both numbers zero, and those of UDP.
/// A version other than 4 and 6, an IPv6 address in an IPv4 packet and any other
/// protocol are refused, and nothing else is.
pub proof fn law_answers_by_protocol(payload: Seq<u8>, hdr: IpHeader, rev: ConnKey, seq: u32, ack: u32)
    ensures
        hdr.protocol == 6 ==> response(payload, hdr, rev) == tcp_response(payload, hdr, rev, 0, 0),
        hdr.protocol == 17 ==> response(payload, hdr, rev) == udp_response(payload, hdr, rev),
        hdr.protocol != 6 && hdr.protocol != 17 ==> response(payload, hdr, rev) == Err::<
            Seq<u8>,
            TunnelError,
        >(TunnelError::UnsupportedProtocol(hdr.protocol)),
        hdr.version != 4 && hdr.version != 6 ==> {
            let e = Err::<Seq<u8>, TunnelError>(TunnelError::UnsupportedVersion(hdr.version));
            tcp_response(payload, hdr, rev, seq, ack) == e && udp_response(payload, hdr, rev) == e
        },
        hdr.version == 4 && (hdr.src is V6 || hdr.dst is V6) ==> {
            let e = Err::<Seq<u8>, TunnelError>(TunnelError::ExpectedIpv4);
            tcp_response(payload, hdr, rev, seq, ack) == e && udp_response(payload, hdr, rev) == e
        },
        hdr.version == 6 || (hdr.version == 4 && hdr.src is V4 && hdr.dst is V4) ==> {
            tcp_response(payload, hdr, rev, seq, ack) is Ok && udp_response(payload, hdr, rev) is Ok
        },
{
}

/// Which headers an answer can be tried for: all but those of TCP and UDP packets
/// over IPv6 with addresses of two families. A UDP answer is tried for UDP packets.
pub proof fn law_what_is_answerable(hdr: IpHeader)
    ensures
        answerable(hdr) <==> hdr.version != 6 || (hdr.protocol != 6 && hdr.protocol != 17) || (
        hdr.src is V4 && hdr.dst is V4) || (hdr.src is V6 && hdr.dst is V6),
        answerable(hdr) && hdr.protocol == 17 ==> udp_answerable(hdr),
        hdr.version != 4 && hdr.version != 6 ==> udp_answerable(hdr),
        same_family(hdr.src, hdr.dst) <==> (hdr.src is V4 <==> hdr.dst is V4),
{
}

/// The length field of a TCP packet counts the header length that is given, and the
/// flags are those that are given. All else is as in the answer with 20 bytes.
pub proof fn law_given_header_length(
    payload: Seq<u8>,
    hdr: IpHeader,
    rev: ConnKey,
    n: nat,
    flags: u8,
    seq: u32,
    ack: u32,
)
    ensures
        hdr.src is V4 && hdr.dst is V4 ==> {
            let r = tcp_ipv4_packet(payload, hdr, rev, n, flags, seq, ack);
            &&& r is Ok
            &&& is_ipv4_header(
                r->Ok_0.take(20),
                payload.len() + 20 + n,
                hdr.protocol,
                octets(hdr.dst),
                octets(hdr.src),
            )
            &&& is_tcp_segment(
                r->Ok_0.skip(20),
                rev.sport,
                rev.dport,
                seq,
                ack,
                flags,
                payload,
                octets(hdr.dst) + octets(hdr.src),
                hdr.protocol,
            )
        },
        !(hdr.src is V4 && hdr.dst is V4) ==> tcp_ipv4_packet(
            payload,
            hdr,
            rev,
            n,
            flags,
            seq,
            ack,
        ) == Err::<Seq<u8>, TunnelError>(TunnelError::ExpectedIpv4),
        ({
            let p = tcp_ipv6_packet(payload, hdr, rev, n, flags, seq, ack);
            &&& is_ipv6_header(
                p.take(40),
                payload.len() + n,
                hdr.protocol,
                octets(IpAddr::V6(rev.src_ip)),
                octets(IpAddr::V6(rev.dst_ip)),
            )
            &&& is_tcp_segment(
                p.skip(40),
                rev.sport,
                rev.dport,
                seq,
                ack,
                flags,
                payload,
                octets(hdr.dst) + octets(hdr.src),
                hdr.protocol,
            )
        }),
{
    let seg = tcp_segment(payload, hdr, rev, flags, seq, ack);
    lemma_tcp_segment_bytes(payload, hdr, rev, flags, seq, ack);
    if hdr.src is V4 && hdr.dst is V4 {
        let total = ((payload.len() + 20 + n) % 0x1_0000) as u16;
        let ip = ipv4_header(total, hdr.protocol, hdr.dst->V4_0, hdr.src->V4_0);
        let p = tcp_ipv4_packet(payload, hdr, rev, n, flags, seq, ack)->Ok_0;
        lemma_ipv4_header_bytes(total, hdr.protocol, hdr.dst->V4_0, hdr.src->V4_0);
        assert(p.take(20) =~= ip);
        assert(p.skip(20) =~= seg);
    }
    let len = ((payload.len() + n) % 0x1_0000) as u16;
    let p = tcp_ipv6_packet(payload, hdr, rev, n, flags, seq, ack);
    lemma_ipv6_header_bytes(len, hdr.protocol, rev.src_ip, rev.dst_ip);
    assert(p.take(40) =~= ipv6_header(len, hdr.protocol, rev.src_ip, rev.dst_ip));
    assert(p.skip(40) =~= seg);
}

/// A UDP packet that is appended to a buffer leaves the buffer before it, but for
/// the two bytes of the checksum, which have their place in the whole.
pub proof fn law_udp_behind_a_buffer(
    buf: Seq<u8>,
    payload: Seq<u8>,
    hdr: IpHeader,
    rev: ConnKey,
    src: u32,
    dst: u32,
    i: int,
)
    requires
        hdr.src == IpAddr::V4(src),
        hdr.dst == IpAddr::V4(dst),
    ensures
        ({
            let alone = with_udp_ipv4(Seq::empty(), payload, hdr, rev, src, dst);
            let r = with_udp_ipv4(buf, payload, hdr, rev, src, dst);
            &&& r.len() == buf.len() + alone.len()
            &&& 0 <= i < buf.len() && i != 26 && i != 27 ==> r[i] == buf[i]
            &&& 0 <= i < alone.len() && i != 26 && i != 27 && buf.len() + i != 26 && buf.len() + i
                != 27 ==> r[buf.len() + i] == alone[i]
        }),
        ({
            let alone = with_udp_ipv6(Seq::empty(), payload, hdr, rev);
            let r = with_udp_ipv6(buf, payload, hdr, rev);
            &&& r.len() == buf.len() + alone.len()
            &&& 0 <= i < buf.len() && i != 46 && i != 47 ==> r[i] == buf[i]
            &&& 0 <= i < alone.len() && i != 46 && i != 47 && buf.len() + i != 46 && buf.len() + i
                != 47 ==> r[buf.len() + i] == alone[i]
        }),
{
    let total = ((payload.len() + 28) % 0x1_0000) as u16;
    let len = ((payload.len() + 8) % 0x1_0000) as u16;
    let four = ipv4_header(total, hdr.protocol, dst, src);
    let six = ipv6_header(len, hdr.protocol, rev.src_ip, rev.dst_ip);
    let udp = udp_header(rev, payload.len());
    lemma_ipv4_header_bytes(total, hdr.protocol, dst, src);
    lemma_ipv6_header_bytes(len, hdr.protocol, rev.src_ip, rev.dst_ip);
    lemma_be_bytes_16(rev.sport);
    lemma_be_bytes_16(rev.dport);
    lemma_be_bytes_16(len);
    assert(buf + four + udp + payload =~= buf + (Seq::<u8>::empty() + four + udp + payload));
    assert(buf + six + udp + payload =~= buf + (Seq::<u8>::empty() + six + udp + payload));
}

} // verus!
