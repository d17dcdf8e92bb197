//! What the bytes of a packet say, one by one.

use vstd::prelude::*;

use crate::addr::address_bits;
use crate::addr::ip_number;
use crate::addr::octets;
use crate::addr::IpAddr;
use crate::bytes::be_bytes;
use crate::bytes::be_value;
use crate::bytes::lemma_be_bytes_len;
use crate::bytes::lemma_be_value_bound;
use crate::bytes::lemma_spans;
use crate::bytes::put16;
use crate::bytes::span;
use crate::checksum::complement;
use crate::checksum::lemma_fold_range;
use crate::checksum::word_sum;
use crate::packet::field;
use crate::packet::key_of;
use crate::packet::parsed;
use crate::packet::reply_key;
use crate::packet::reversed_key;
use crate::packet::ConnKey;
use crate::packet::IpHeader;

verus! {

/// What two bytes encode.
proof fn lemma_value_2(s: Seq<u8>)
    requires
        s.len() == 2,
    ensures
        be_value(s) == s[0] * 0x100 + s[1],
{
    reveal_with_fuel(be_value, 3);
    assert(s.drop_last().drop_last() =~= Seq::empty());
}

/// What four bytes encode.
proof fn lemma_value_4(s: Seq<u8>)
    requires
        s.len() == 4,
    ensures
        be_value(s) == s[0] * 0x100_0000 + s[1] * 0x1_0000 + s[2] * 0x100 + s[3],
{
    let t = s.drop_last().drop_last();
    lemma_value_2(t);
    assert(be_value(s.drop_last()) == be_value(t) * 256 + s[2]);
    assert(be_value(s) == be_value(s.drop_last()) * 256 + s[3]);
}

/// Numbers are encoded with their most significant byte first: two and four bytes
/// weigh as their places say, and of any bytes, those in front weigh as much more
/// as those behind can hold.
pub proof fn law_big_endian(a: u8, b: u8, c: u8, d: u8, s: Seq<u8>, t: Seq<u8>)
    ensures
        be_value(seq![a]) == a,
        be_value(seq![a, b]) == a * 256 + b,
        be_value(seq![a, b, c, d]) == a * 0x100_0000 + b * 0x1_0000 + c * 0x100 + d,
        be_value(s + t) == be_value(s) * span(t.len()) + be_value(t),
        span(0) == 1,
        span(t.len() + 1) == span(t.len()) * 256,
    decreases t.len(),
{
    lemma_value_2(seq![a, b]);
    lemma_value_4(seq![a, b, c, d]);
    assert(be_value(seq![a]) == a) by {
        reveal_with_fuel(be_value, 2);
        assert(seq![a].drop_last() =~= Seq::empty());
    }
    if t.len() == 0 {
        assert(s + t =~= s);
        assert(be_value(s) * 1 == be_value(s));
    } else {
        let u = t.drop_last();
        law_big_endian(a, b, c, d, s, u);
        assert((s + t).drop_last() =~= s + u);
        let v = be_value(s);
        let w = span(u.len());
        assert((v * w + be_value(u)) * 256 == v * (w * 256) + be_value(u) * 256)
            by (nonlinear_arith);
        assert(span(t.len()) == w * 256);
        assert(be_value(s + t) == be_value(s + u) * 256 + t.last());
        assert(be_value(t) == be_value(u) * 256 + t.last());
    }
}

/// What bytes encode is written as the same bytes again.
pub proof fn law_bytes_read_back(s: Seq<u8>)
    ensures
        be_bytes(be_value(s), s.len()) == s,
        be_value(s) < span(s.len()),
    decreases s.len(),
{
    lemma_be_value_bound(s);
    if s.len() > 0 {
        law_bytes_read_back(s.drop_last());
        let v = be_value(s.drop_last());
        assert((v * 256 + s.last() as nat) / 256 == v);
        assert((v * 256 + s.last() as nat) % 256 == s.last());
        assert(be_bytes(be_value(s), s.len()) =~= s);
    } else {
        assert(be_bytes(be_value(s), 0) =~= s);
    }
}

/// Two bytes that are written say the number, and all others stay as they were.
pub proof fn law_put16(s: Seq<u8>, at: int, x: u16)
    requires
        0 <= at,
        at + 1 < s.len(),
    ensures
        put16(s, at, x).len() == s.len(),
        put16(s, at, x)[at] * 256 + put16(s, at, x)[at + 1] == x,
        forall|i: int|
            0 <= i < s.len() && i != at && i != at + 1 ==> #[trigger] put16(s, at, x)[i] == s[i],
{
}

/// The sum of words from the front: two bytes count as a word, a last single byte
/// as the high half of one, and nothing as nothing.
pub proof fn law_word_sum(a: u8, b: u8, s: Seq<u8>)
    ensures
        word_sum(Seq::empty()) == 0,
        word_sum(seq![a]) == a * 256,
        word_sum(seq![a, b] + s) == a * 256 + b + word_sum(s),
{
    assert(word_sum(seq![a]) == a * 256) by {
        reveal_with_fuel(word_sum, 2);
        assert(seq![a].drop_last() =~= Seq::empty());
    }
    assert(word_sum(seq![a, b]) == a * 256 + b) by {
        assert(seq![a, b].drop_last() =~= seq![a]);
    }
    lemma_word_sum_concat(seq![a, b], s);
}

/// The words of a concatenation are those of its parts, where the first part ends
/// with a whole word.
pub proof fn lemma_word_sum_concat(a: Seq<u8>, b: Seq<u8>)
    requires
        a.len() % 2 == 0,
    ensures
        word_sum(a + b) == word_sum(a) + word_sum(b),
    decreases b.len(),
{
    if b.len() == 0 {
        assert(a + b =~= a);
    } else {
        assert((a + b).drop_last() =~= a + b.drop_last());
        lemma_word_sum_concat(a, b.drop_last());
    }
}

/// A checksum completes its sum to a multiple of all ones, and is all ones itself
/// only for nothing. There is no other such number.
pub proof fn law_checksum_completes(sum: nat, other: u16)
    ensures
        (sum + complement(sum)) % 0xffff == 0,
        complement(sum) == 0xffff <==> sum == 0,
        (sum + other) % 0xffff == 0 && (other == 0xffff <==> sum == 0) ==> other == complement(sum),
{
    lemma_fold_range(sum);
    let c = complement(sum) as int;
    if sum > 0 {
        let k = (sum - 1) / 0xffff;
        assert(sum - 1 == 0xffff * k + (sum - 1) % 0xffff) by {
            vstd::arithmetic::div_mod::lemma_fundamental_div_mod(sum - 1, 0xffff);
        }
        assert(sum + c == 0xffff * (k + 1));
        vstd::arithmetic::div_mod::lemma_mod_multiples_basic(k + 1, 0xffff);
        if (sum + other) % 0xffff == 0 && other != 0xffff {
            let d = (other as int) - c;
            assert((sum + other) - (sum + c) == d);
            assert(d % 0xffff == 0) by {
                vstd::arithmetic::div_mod::lemma_sub_mod_noop(
                    (sum + other) as int,
                    sum + c,
                    0xffff,
                );
            }
            assert(-0xffff < d < 0xffff);
        }
    }
}

/// The bytes of an address, its number and its size.
pub proof fn law_address(v4: u32, v6: u128)
    ensures
        octets(IpAddr::V4(v4)).len() == 4,
        octets(IpAddr::V6(v6)).len() == 16,
        be_value(octets(IpAddr::V4(v4))) == v4,
        be_value(octets(IpAddr::V6(v6))) == v6,
        ip_number(IpAddr::V4(v4)) == v4,
        ip_number(IpAddr::V6(v6)) == v6,
        address_bits(IpAddr::V4(v4)) == 32,
        address_bits(IpAddr::V6(v6)) == 128,
{
    lemma_be_bytes_len(v4 as nat, 4);
    lemma_be_bytes_len(v6 as nat, 16);
    lemma_spans();
    crate::bytes::lemma_value_of_bytes(v4 as nat, 4);
    crate::bytes::lemma_value_of_bytes(v6 as nat, 16);
}

/// The bytes of the address that is read from bytes are these bytes.
proof fn lemma_octets_read(s: Seq<u8>)
    ensures
        s.len() == 4 ==> octets(IpAddr::V4(be_value(s) as u32)) == s,
        s.len() == 16 ==> octets(IpAddr::V6(be_value(s) as u128)) == s,
{
    lemma_spans();
    law_bytes_read_back(s);
}

/// Whether the fields of a transport header that starts at `th` are those of `h`:
/// the ports, and for TCP the sequence numbers and the flags.
pub open spec fn reads_transport(p: Seq<u8>, th: int, h: IpHeader) -> bool {
    &&& h.src_port == p[th] * 256 + p[th + 1]
    &&& h.dst_port == p[th + 2] * 256 + p[th + 3]
    &&& h.protocol == 6 ==> {
        &&& h.tcp_seq == p[th + 4] * 0x100_0000 + p[th + 5] * 0x1_0000 + p[th + 6] * 0x100 + p[th
            + 7]
        &&& h.tcp_ack == p[th + 8] * 0x100_0000 + p[th + 9] * 0x1_0000 + p[th + 10] * 0x100 + p[th
            + 11]
        &&& h.tcp_flags == p[th + 13]
    }
    &&& h.protocol != 6 ==> h.tcp_seq == 0 && h.tcp_ack == 0 && h.tcp_flags == 0
}

proof fn lemma_fields(p: Seq<u8>, th: int)
    requires
        0 <= th,
        th + 8 <= p.len(),
    ensures
        field(p, th, 2) == p[th] * 256 + p[th + 1],
        field(p, th + 2, 2) == p[th + 2] * 256 + p[th + 3],
        th + 20 <= p.len() ==> {
            &&& field(p, th + 4, 4) == p[th + 4] * 0x100_0000 + p[th + 5] * 0x1_0000 + p[th + 6]
                * 0x100 + p[th + 7]
            &&& field(p, th + 8, 4) == p[th + 8] * 0x100_0000 + p[th + 9] * 0x1_0000 + p[th + 10]
                * 0x100 + p[th + 11]
        },
{
    lemma_value_2(p.subrange(th, th + 2));
    lemma_value_2(p.subrange(th + 2, th + 4));
    if th + 20 <= p.len() {
        lemma_value_4(p.subrange(th + 4, th + 8));
        lemma_value_4(p.subrange(th + 8, th + 12));
    }
}

/// What is read from an IPv4 packet, and when: byte 9 is the protocol, the source
/// address stands at 12 and the destination at 16, and the transport header stands
/// behind as many words as byte 0 says. A packet is read if and only if it carries
/// TCP or UDP with a whole header.
pub proof fn law_ipv4_packet_is_read(p: Seq<u8>)
    requires
        p.len() > 0,
        p[0] / 16 == 4,
    ensures
        parsed(p) is Some <==> {
            let th = (p[0] % 16) * 4;
            th >= 20 && p.len() >= th && ((p[9] == 6 && p.len() >= th + 20) || (p[9] == 17
                && p.len() >= th + 8))
        },
        parsed(p) matches Some(h) ==> {
            &&& h.version == 4
            &&& h.src is V4 && octets(h.src) == p.subrange(12, 16)
            &&& h.dst is V4 && octets(h.dst) == p.subrange(16, 20)
            &&& h.protocol == p[9]
            &&& h.header_len == (p[0] % 16) * 4
            &&& reads_transport(p, (p[0] % 16) * 4, h)
        },
{
    if parsed(p) is Some {
        let th = (p[0] % 16) * 4;
        lemma_fields(p, th);
        lemma_octets_read(p.subrange(12, 16));
        lemma_octets_read(p.subrange(16, 20));
    }
}

/// What is read from an IPv6 packet, and when: byte 4 is the protocol, the source
/// address stands at 8 and the destination at 24, and the transport header at 40.
/// A packet is read if and only if it carries TCP or UDP with a whole header.
pub proof fn law_ipv6_packet_is_read(p: Seq<u8>)
    requires
        p.len() >= 5,
        p[0] / 16 == 6,
    ensures
        parsed(p) is Some <==> (p[4] == 6 && p.len() >= 60) || (p[4] == 17 && p.len() >= 48),
        parsed(p) matches Some(h) ==> {
            &&& h.version == 6
            &&& h.src is V6 && octets(h.src) == p.subrange(8, 24)
            &&& h.dst is V6 && octets(h.dst) == p.subrange(24, 40)
            &&& h.protocol == p[4]
            &&& h.header_len == 40
            &&& reads_transport(p, 40, h)
        },
{
    if parsed(p) is Some {
        lemma_fields(p, 40);
        lemma_octets_read(p.subrange(8, 24));
        lemma_octets_read(p.subrange(24, 40));
    }
}

/// Nothing is read from an empty packet or one of another version.
pub proof fn law_other_versions_are_not_read(p: Seq<u8>)
    requires
        p.len() == 0 || (p[0] / 16 != 4 && p[0] / 16 != 6),
    ensures
        parsed(p) is None,
{
}

/// The key of a packet holds its addresses as numbers, the given ports and its
/// protocol; the key of its replies holds them the other way round.
pub proof fn law_keys(h: IpHeader, sport: u16, dport: u16)
    ensures
        key_of(h, sport, dport) == (ConnKey {
            version: h.version,
            src_ip: be_value(octets(h.src)) as u128,
            dst_ip: be_value(octets(h.dst)) as u128,
            sport,
            dport,
            proto: h.protocol,
        }),
        reply_key(h) == (ConnKey {
            version: h.version,
            src_ip: be_value(octets(h.dst)) as u128,
            dst_ip: be_value(octets(h.src)) as u128,
            sport: h.dst_port,
            dport: h.src_port,
            proto: h.protocol,
        }),
{
    match h.src {
        IpAddr::V4(x) => law_address(x, 0),
        IpAddr::V6(x) => law_address(0, x),
    }
    match h.dst {
        IpAddr::V4(x) => law_address(x, 0),
        IpAddr::V6(x) => law_address(0, x),
    }
}

/// The opposite direction has the two addresses exchanged and the two ports.
pub proof fn law_opposite_direction(k: ConnKey)
    ensures
        reversed_key(k).src_ip == k.dst_ip && reversed_key(k).dst_ip == k.src_ip,
        reversed_key(k).sport == k.dport && reversed_key(k).dport == k.sport,
        reversed_key(k).version == k.version && reversed_key(k).proto == k.proto,
{
}

} // verus!
