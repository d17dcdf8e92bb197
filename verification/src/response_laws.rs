//! What holds of every response packet.

use vstd::prelude::*;

use crate::addr::octets;
use crate::bytes::be_bytes;
use crate::bytes::lemma_be_bytes_16;
use crate::bytes::lemma_be_bytes_len;
use crate::bytes::lemma_spans;
use crate::bytes::lemma_value_of_bytes;
use crate::bytes::put16;
use crate::checksum::complement;
use crate::checksum::lemma_complement_completes;
use crate::checksum::lemma_word_sum_put16;
use crate::checksum::word_sum;
use crate::packet::field;
use crate::packet::key_of;
use crate::packet::parsed;
use crate::packet::reply_key;
use crate::packet::ConnKey;
use crate::packet::IpHeader;
use crate::packet::TCP;
use crate::packet::UDP;
use crate::response::blank_ipv4_header;
use crate::response::ipv4_header;
use crate::response::ipv6_header;
use crate::response::response_flags;
use crate::response::segment_sum;
use crate::response::tcp_header;
use crate::response::tcp_response;
use crate::response::tcp_segment;
use crate::response::udp_header;
use crate::response::udp_response;

verus! {

proof fn lemma_blank_ipv4(total: u16, protocol: u8, src: u32, dst: u32)
    ensures
        ({
            let h = blank_ipv4_header(total, protocol, src, dst);
            &&& h.len() == 20
            &&& h[0] == 0x45
            &&& h[9] == protocol
            &&& h[10] == 0
            &&& h[11] == 0
            &&& h.subrange(2, 4) == be_bytes(total as nat, 2)
            &&& h.subrange(12, 16) == be_bytes(src as nat, 4)
            &&& h.subrange(16, 20) == be_bytes(dst as nat, 4)
        }),
{
    let h = blank_ipv4_header(total, protocol, src, dst);
    lemma_be_bytes_len(src as nat, 4);
    lemma_be_bytes_len(dst as nat, 4);
    lemma_be_bytes_16(total);
    assert(h.subrange(2, 4) =~= be_bytes(total as nat, 2));
    assert(h.subrange(12, 16) =~= be_bytes(src as nat, 4));
    assert(h.subrange(16, 20) =~= be_bytes(dst as nat, 4));
}

/// Where the fields of an IPv4 header stand. Its checksum verifies.
pub proof fn law_ipv4_header(total: u16, protocol: u8, src: u32, dst: u32)
    ensures
        ipv4_header(total, protocol, src, dst).len() == 20,
        ipv4_header(total, protocol, src, dst)[0] == 0x45,
        ipv4_header(total, protocol, src, dst)[9] == protocol,
        ipv4_header(total, protocol, src, dst).subrange(2, 4) == be_bytes(total as nat, 2),
        ipv4_header(total, protocol, src, dst).subrange(12, 16) == be_bytes(src as nat, 4),
        ipv4_header(total, protocol, src, dst).subrange(16, 20) == be_bytes(dst as nat, 4),
        complement(word_sum(ipv4_header(total, protocol, src, dst))) == 0,
{
    lemma_blank_ipv4(total, protocol, src, dst);
    let b = blank_ipv4_header(total, protocol, src, dst);
    let h = ipv4_header(total, protocol, src, dst);
    let sum = word_sum(b);
    assert(h.subrange(2, 4) =~= b.subrange(2, 4));
    assert(h.subrange(12, 16) =~= b.subrange(12, 16));
    assert(h.subrange(16, 20) =~= b.subrange(16, 20));
    lemma_word_sum_put16(b, 10, complement(sum));
    lemma_complement_completes(sum);
}

/// Where the fields of an IPv6 header stand.
pub proof fn law_ipv6_header(len: u16, protocol: u8, src: u128, dst: u128)
    ensures
        ipv6_header(len, protocol, src, dst).len() == 40,
        ipv6_header(len, protocol, src, dst)[0] == 0x60,
        ipv6_header(len, protocol, src, dst)[6] == protocol,
        ipv6_header(len, protocol, src, dst).subrange(4, 6) == be_bytes(len as nat, 2),
        ipv6_header(len, protocol, src, dst).subrange(8, 24) == be_bytes(src as nat, 16),
        ipv6_header(len, protocol, src, dst).subrange(24, 40) == be_bytes(dst as nat, 16),
{
    let h = ipv6_header(len, protocol, src, dst);
    lemma_be_bytes_len(src as nat, 16);
    lemma_be_bytes_len(dst as nat, 16);
    lemma_be_bytes_16(len);
    assert(h.subrange(4, 6) =~= be_bytes(len as nat, 2));
    assert(h.subrange(8, 24) =~= be_bytes(src as nat, 16));
    assert(h.subrange(24, 40) =~= be_bytes(dst as nat, 16));
}

proof fn lemma_tcp_header(rev: ConnKey, flags: u8, seq: u32, ack: u32)
    ensures
        ({
            let h = tcp_header(rev, flags, seq, ack);
            &&& h.len() == 20
            &&& h.subrange(0, 2) == be_bytes(rev.sport as nat, 2)
            &&& h.subrange(2, 4) == be_bytes(rev.dport as nat, 2)
            &&& h.subrange(4, 8) == be_bytes(seq as nat, 4)
            &&& h.subrange(8, 12) == be_bytes(ack as nat, 4)
            &&& h[13] == flags
            &&& h[16] == 0
            &&& h[17] == 0
        }),
{
    let h = tcp_header(rev, flags, seq, ack);
    lemma_be_bytes_len(rev.sport as nat, 2);
    lemma_be_bytes_len(rev.dport as nat, 2);
    lemma_be_bytes_len(seq as nat, 4);
    lemma_be_bytes_len(ack as nat, 4);
    assert(h.subrange(0, 2) =~= be_bytes(rev.sport as nat, 2));
    assert(h.subrange(2, 4) =~= be_bytes(rev.dport as nat, 2));
    assert(h.subrange(4, 8) =~= be_bytes(seq as nat, 4));
    assert(h.subrange(8, 12) =~= be_bytes(ack as nat, 4));
}

proof fn lemma_udp_header(rev: ConnKey, payload_len: nat)
    ensures
        ({
            let h = udp_header(rev, payload_len);
            &&& h.len() == 8
            &&& h.subrange(0, 2) == be_bytes(rev.sport as nat, 2)
            &&& h.subrange(2, 4) == be_bytes(rev.dport as nat, 2)
            &&& h.subrange(4, 6) == be_bytes((payload_len + 8) % 0x1_0000, 2)
            &&& h[6] == 0
            &&& h[7] == 0
        }),
{
    let h = udp_header(rev, payload_len);
    lemma_be_bytes_len(rev.sport as nat, 2);
    lemma_be_bytes_len(rev.dport as nat, 2);
    lemma_be_bytes_len((payload_len + 8) % 0x1_0000, 2);
    assert(h.subrange(0, 2) =~= be_bytes(rev.sport as nat, 2));
    assert(h.subrange(2, 4) =~= be_bytes(rev.dport as nat, 2));
    assert(h.subrange(4, 6) =~= be_bytes((payload_len + 8) % 0x1_0000, 2));
}

/// A TCP segment carries the reversed ports, the given numbers and flags and
/// the payload. Its checksum verifies.
pub proof fn law_tcp_segment(
    payload: Seq<u8>,
    hdr: IpHeader,
    rev: ConnKey,
    flags: u8,
    seq: u32,
    ack: u32,
)
    ensures
        tcp_segment(payload, hdr, rev, flags, seq, ack).len() == 20 + payload.len(),
        field(tcp_segment(payload, hdr, rev, flags, seq, ack), 0, 2) == rev.sport,
        field(tcp_segment(payload, hdr, rev, flags, seq, ack), 2, 2) == rev.dport,
        field(tcp_segment(payload, hdr, rev, flags, seq, ack), 4, 4) == seq,
        field(tcp_segment(payload, hdr, rev, flags, seq, ack), 8, 4) == ack,
        tcp_segment(payload, hdr, rev, flags, seq, ack)[13] == flags,
        tcp_segment(payload, hdr, rev, flags, seq, ack).skip(20) == payload,
        complement(
            segment_sum(
                hdr.src,
                hdr.dst,
                hdr.protocol,
                tcp_segment(payload, hdr, rev, flags, seq, ack),
            ),
        ) == 0,
{
    lemma_tcp_header(rev, flags, seq, ack);
    lemma_spans();
    lemma_value_of_bytes(rev.sport as nat, 2);
    lemma_value_of_bytes(rev.dport as nat, 2);
    lemma_value_of_bytes(seq as nat, 4);
    lemma_value_of_bytes(ack as nat, 4);
    let h = tcp_header(rev, flags, seq, ack);
    let b = h + payload;
    let s = tcp_segment(payload, hdr, rev, flags, seq, ack);
    assert(s.subrange(0, 2) =~= h.subrange(0, 2));
    assert(s.subrange(2, 4) =~= h.subrange(2, 4));
    assert(s.subrange(4, 8) =~= h.subrange(4, 8));
    assert(s.subrange(8, 12) =~= h.subrange(8, 12));
    assert(s.skip(20) =~= payload);
    let sum = segment_sum(hdr.src, hdr.dst, hdr.protocol, b);
    lemma_word_sum_put16(b, 16, complement(sum));
    lemma_complement_completes(sum);
}

/// The header that a client reads from a response over IPv4.
pub open spec fn answer_header(hdr: IpHeader, rev: ConnKey, flags: u8, seq: u32, ack: u32) -> IpHeader {
    IpHeader {
        version: 4,
        src: hdr.dst,
        dst: hdr.src,
        protocol: hdr.protocol,
        header_len: 20,
        src_port: rev.sport,
        dst_port: rev.dport,
        tcp_flags: flags,
        tcp_seq: seq,
        tcp_ack: ack,
    }
}

/// What a client reads from a TCP packet over IPv4 with the fields of an answer.
proof fn lemma_tcp_answer_parses(
    pkt: Seq<u8>,
    hdr: IpHeader,
    rev: ConnKey,
    flags: u8,
    seq: u32,
    ack: u32,
)
    requires
        hdr.protocol == TCP,
        hdr.src is V4,
        hdr.dst is V4,
        pkt.len() >= 40,
        pkt[0] == 0x45,
        pkt[9] == TCP,
        field(pkt, 12, 4) == hdr.dst->V4_0,
        field(pkt, 16, 4) == hdr.src->V4_0,
        field(pkt, 20, 2) == rev.sport,
        field(pkt, 22, 2) == rev.dport,
        field(pkt, 24, 4) == seq,
        field(pkt, 28, 4) == ack,
        pkt[33] == flags,
    ensures
        parsed(pkt) == Some(answer_header(hdr, rev, flags, seq, ack)),
{
}

/// A TCP response over IPv4 parses back: it comes from the address that the
/// client sent to, goes to the client, and carries the given ports, numbers and
/// flags. Its payload is the given one, both of its checksums verify, and the
/// length field tells its length where 16 bits can hold that.
pub proof fn law_tcp_ipv4_response(
    payload: Seq<u8>,
    hdr: IpHeader,
    rev: ConnKey,
    seq: u32,
    ack: u32,
)
    requires
        hdr.version == 4,
        hdr.protocol == TCP,
        hdr.src is V4,
        hdr.dst is V4,
    ensures
        tcp_response(payload, hdr, rev, seq, ack) is Ok,
        ({
            let pkt = tcp_response(payload, hdr, rev, seq, ack).unwrap();
            &&& parsed(pkt) == Some(
                answer_header(hdr, rev, response_flags(hdr.tcp_flags), seq, ack),
            )
            &&& pkt.len() == 40 + payload.len()
            &&& pkt.skip(40) == payload
            &&& pkt.len() < 0x1_0000 ==> field(pkt, 2, 2) == pkt.len()
            &&& complement(word_sum(pkt.take(20))) == 0
            &&& complement(segment_sum(hdr.src, hdr.dst, TCP, pkt.skip(20))) == 0
        }),
{
    let src = hdr.src->V4_0;
    let dst = hdr.dst->V4_0;
    let flags = response_flags(hdr.tcp_flags);
    let total = ((payload.len() + 40) % 0x1_0000) as u16;
    let ip = ipv4_header(total, TCP, dst, src);
    let seg = tcp_segment(payload, hdr, rev, flags, seq, ack);
    let pkt = tcp_response(payload, hdr, rev, seq, ack).unwrap();
    law_ipv4_header(total, TCP, dst, src);
    law_tcp_segment(payload, hdr, rev, flags, seq, ack);
    lemma_spans();
    lemma_value_of_bytes(total as nat, 2);
    lemma_value_of_bytes(src as nat, 4);
    lemma_value_of_bytes(dst as nat, 4);
    assert(pkt == ip + seg);
    assert(pkt.take(20) =~= ip);
    assert(pkt.skip(20) =~= seg);
    assert(pkt.skip(40) =~= seg.skip(20));
    assert(field(pkt, 2, 2) == total) by {
        assert(pkt.subrange(2, 4) =~= ip.subrange(2, 4));
    }
    assert(parsed(pkt) == Some(answer_header(hdr, rev, flags, seq, ack))) by {
        assert(pkt.subrange(12, 16) =~= ip.subrange(12, 16));
        assert(pkt.subrange(16, 20) =~= ip.subrange(16, 20));
        assert(pkt.subrange(20, 22) =~= seg.subrange(0, 2));
        assert(pkt.subrange(22, 24) =~= seg.subrange(2, 4));
        assert(pkt.subrange(24, 28) =~= seg.subrange(4, 8));
        assert(pkt.subrange(28, 32) =~= seg.subrange(8, 12));
        assert(pkt[0] == ip[0] && pkt[9] == ip[9] && pkt[33] == seg[13]);
        lemma_tcp_answer_parses(pkt, hdr, rev, flags, seq, ack);
    }
}

/// A UDP response over IPv4 parses back: it comes from the address that the
/// client sent to, goes to the client, and carries the given ports. Its payload
/// is the given one, both of its checksums verify, and both length fields tell
/// its length where 16 bits can hold that.
pub proof fn law_udp_ipv4_response(payload: Seq<u8>, hdr: IpHeader, rev: ConnKey)
    requires
        hdr.version == 4,
        hdr.protocol == UDP,
        hdr.src is V4,
        hdr.dst is V4,
    ensures
        udp_response(payload, hdr, rev) is Ok,
        ({
            let pkt = udp_response(payload, hdr, rev).unwrap();
            &&& parsed(pkt) == Some(answer_header(hdr, rev, 0, 0, 0))
            &&& pkt.len() == 28 + payload.len()
            &&& pkt.skip(28) == payload
            &&& pkt.len() < 0x1_0000 ==> field(pkt, 2, 2) == pkt.len() && field(pkt, 24, 2)
                == pkt.len() - 20
            &&& complement(word_sum(pkt.take(20))) == 0
            &&& complement(segment_sum(hdr.src, hdr.dst, UDP, pkt.skip(20))) == 0
        }),
{
    let src = hdr.src->V4_0;
    let dst = hdr.dst->V4_0;
    let total = ((payload.len() + 28) % 0x1_0000) as u16;
    let ip = ipv4_header(total, UDP, dst, src);
    let udp = udp_header(rev, payload.len());
    let blank = Seq::<u8>::empty() + ip + udp + payload;
    let seg = blank.skip(20);
    let sum = segment_sum(hdr.src, hdr.dst, UDP, seg);
    let pkt = udp_response(payload, hdr, rev).unwrap();
    law_ipv4_header(total, UDP, dst, src);
    lemma_udp_header(rev, payload.len());
    lemma_spans();
    lemma_value_of_bytes(total as nat, 2);
    lemma_value_of_bytes(src as nat, 4);
    lemma_value_of_bytes(dst as nat, 4);
    lemma_value_of_bytes(rev.sport as nat, 2);
    lemma_value_of_bytes(rev.dport as nat, 2);
    lemma_value_of_bytes((payload.len() + 8) % 0x1_0000, 2);
    assert(pkt == put16(blank, 26, complement(sum)));
    assert(pkt.skip(20) =~= put16(seg, 6, complement(sum)));
    assert(seg[6] == udp[6] && seg[7] == udp[7]);
    lemma_word_sum_put16(seg, 6, complement(sum));
    lemma_complement_completes(sum);
    assert(pkt.take(20) =~= ip);
    assert(pkt.skip(28) =~= payload);
    assert(pkt.subrange(2, 4) =~= ip.subrange(2, 4));
    assert(pkt.subrange(12, 16) =~= ip.subrange(12, 16));
    assert(pkt.subrange(16, 20) =~= ip.subrange(16, 20));
    assert(pkt.subrange(20, 22) =~= udp.subrange(0, 2));
    assert(pkt.subrange(22, 24) =~= udp.subrange(2, 4));
    assert(pkt.subrange(24, 26) =~= udp.subrange(4, 6));
    assert(pkt[0] == ip[0] && pkt[9] == ip[9]);
}

/// A TCP response over IPv6 to the flow of `hdr` goes from the address that the
/// client sent to back to the client, with the given payload. Its checksum
/// verifies, and the length field tells its length where 16 bits can hold that.
pub proof fn law_tcp_ipv6_response(payload: Seq<u8>, hdr: IpHeader, seq: u32, ack: u32)
    requires
        hdr.version == 6,
        hdr.src is V6,
        hdr.dst is V6,
    ensures
        tcp_response(payload, hdr, reply_key(hdr), seq, ack) is Ok,
        ({
            let pkt = tcp_response(payload, hdr, reply_key(hdr), seq, ack).unwrap();
            &&& pkt[0] == 0x60
            &&& pkt[6] == hdr.protocol
            &&& pkt.subrange(8, 24) == octets(hdr.dst)
            &&& pkt.subrange(24, 40) == octets(hdr.src)
            &&& field(pkt, 40, 2) == hdr.dst_port
            &&& field(pkt, 42, 2) == hdr.src_port
            &&& field(pkt, 44, 4) == seq
            &&& field(pkt, 48, 4) == ack
            &&& pkt[53] == response_flags(hdr.tcp_flags)
            &&& pkt.len() == 60 + payload.len()
            &&& pkt.skip(60) == payload
            &&& pkt.len() - 40 < 0x1_0000 ==> field(pkt, 4, 2) == pkt.len() - 40
            &&& complement(segment_sum(hdr.src, hdr.dst, hdr.protocol, pkt.skip(40))) == 0
        }),
{
    let rev = reply_key(hdr);
    let flags = response_flags(hdr.tcp_flags);
    let len = ((payload.len() + 20) % 0x1_0000) as u16;
    let ip = ipv6_header(len, hdr.protocol, rev.src_ip, rev.dst_ip);
    let seg = tcp_segment(payload, hdr, rev, flags, seq, ack);
    let pkt = tcp_response(payload, hdr, rev, seq, ack).unwrap();
    law_ipv6_header(len, hdr.protocol, rev.src_ip, rev.dst_ip);
    law_tcp_segment(payload, hdr, rev, flags, seq, ack);
    lemma_spans();
    lemma_value_of_bytes(len as nat, 2);
    assert(pkt == ip + seg);
    assert(pkt.skip(40) =~= seg);
    assert(pkt.skip(60) =~= seg.skip(20));
    assert(pkt.subrange(4, 6) =~= ip.subrange(4, 6));
    assert(pkt.subrange(8, 24) =~= ip.subrange(8, 24));
    assert(pkt.subrange(24, 40) =~= ip.subrange(24, 40));
    assert(pkt.subrange(40, 42) =~= seg.subrange(0, 2));
    assert(pkt.subrange(42, 44) =~= seg.subrange(2, 4));
    assert(pkt.subrange(44, 48) =~= seg.subrange(4, 8));
    assert(pkt.subrange(48, 52) =~= seg.subrange(8, 12));
}

/// A UDP response over IPv6 to the flow of `hdr` goes from the address that the
/// client sent to back to the client, with the given payload. Its checksum
/// verifies, and both length fields tell its length where 16 bits can hold that.
pub proof fn law_udp_ipv6_response(payload: Seq<u8>, hdr: IpHeader)
    requires
        hdr.version == 6,
        hdr.src is V6,
        hdr.dst is V6,
    ensures
        udp_response(payload, hdr, reply_key(hdr)) is Ok,
        ({
            let pkt = udp_response(payload, hdr, reply_key(hdr)).unwrap();
            &&& pkt[0] == 0x60
            &&& pkt[6] == hdr.protocol
            &&& pkt.subrange(8, 24) == octets(hdr.dst)
            &&& pkt.subrange(24, 40) == octets(hdr.src)
            &&& field(pkt, 40, 2) == hdr.dst_port
            &&& field(pkt, 42, 2) == hdr.src_port
            &&& pkt.len() == 48 + payload.len()
            &&& pkt.skip(48) == payload
            &&& pkt.len() - 40 < 0x1_0000 ==> field(pkt, 4, 2) == pkt.len() - 40 && field(
                pkt,
                44,
                2,
            ) == pkt.len() - 40
            &&& complement(segment_sum(hdr.src, hdr.dst, UDP, pkt.skip(40))) == 0
        }),
{
    let rev = reply_key(hdr);
    let len = ((payload.len() + 8) % 0x1_0000) as u16;
    let ip = ipv6_header(len, hdr.protocol, rev.src_ip, rev.dst_ip);
    let udp = udp_header(rev, payload.len());
    let blank = Seq::<u8>::empty() + ip + udp + payload;
    let seg = blank.skip(40);
    let sum = segment_sum(hdr.src, hdr.dst, UDP, seg);
    let pkt = udp_response(payload, hdr, rev).unwrap();
    law_ipv6_header(len, hdr.protocol, rev.src_ip, rev.dst_ip);
    lemma_udp_header(rev, payload.len());
    lemma_spans();
    lemma_value_of_bytes(len as nat, 2);
    lemma_value_of_bytes(rev.sport as nat, 2);
    lemma_value_of_bytes(rev.dport as nat, 2);
    assert(pkt == put16(blank, 46, complement(sum)));
    assert(pkt.skip(40) =~= put16(seg, 6, complement(sum)));
    assert(seg[6] == udp[6] && seg[7] == udp[7]);
    lemma_word_sum_put16(seg, 6, complement(sum));
    lemma_complement_completes(sum);
    assert(pkt.skip(48) =~= payload);
    assert(pkt.subrange(4, 6) =~= ip.subrange(4, 6));
    assert(pkt.subrange(8, 24) =~= ip.subrange(8, 24));
    assert(pkt.subrange(24, 40) =~= ip.subrange(24, 40));
    assert(pkt.subrange(40, 42) =~= udp.subrange(0, 2));
    assert(pkt.subrange(42, 44) =~= udp.subrange(2, 4));
    assert(pkt.subrange(44, 46) =~= udp.subrange(4, 6));
    assert(pkt[0] == ip[0] && pkt[6] == ip[6]);
}

/// A response over IPv4 under the reply key of a packet belongs to the flow that
/// this key names, and a packet that the client sends back on it belongs to the
/// client's own flow.
pub proof fn law_response_belongs_to_flow(hdr: IpHeader, flags: u8, seq: u32, ack: u32)
    requires
        hdr.version == 4,
        hdr.src is V4,
        hdr.dst is V4,
    ensures
        ({
            let answer = answer_header(hdr, reply_key(hdr), flags, seq, ack);
            &&& key_of(answer, answer.src_port, answer.dst_port) == reply_key(hdr)
            &&& reply_key(answer) == key_of(hdr, hdr.src_port, hdr.dst_port)
        }),
{
}

} // verus!
