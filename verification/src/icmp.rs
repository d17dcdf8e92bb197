//! Local answers to ICMP echo requests.

use vstd::prelude::*;
use vstd::slice::slice_subrange;
use vstd::slice::slice_to_vec;

use crate::bytes::put16;
use crate::bytes::set_u16;
use crate::checksum::add_word;
use crate::checksum::add_words;
use crate::checksum::complement;
use crate::checksum::complement_of;
use crate::checksum::fold;
use crate::checksum::internet_checksum;
use crate::checksum::lemma_complement_completes;
use crate::checksum::lemma_fold_add;
use crate::checksum::lemma_word_sum_put16;
use crate::checksum::word_sum;

verus! {

/// `s` without a last odd byte.
pub open spec fn even_part(s: Seq<u8>) -> Seq<u8> {
    s.take(s.len() - s.len() % 2)
}

/// The sum of the pseudo-header words of an ICMPv6 message of `len` bytes:
/// addresses, payload length and next header (58).
pub open spec fn echo6_pseudo(src: Seq<u8>, dst: Seq<u8>, len: nat) -> nat {
    let plen = len % 0x1_0000_0000;
    word_sum(even_part(src)) + word_sum(even_part(dst)) + plen / 0x1_0000 + plen % 0x1_0000 + 58
}

/// The sum that the ICMPv6 checksum complements: pseudo-header and message.
pub open spec fn echo6_sum(src: Seq<u8>, dst: Seq<u8>, data: Seq<u8>) -> nat {
    echo6_pseudo(src, dst, data.len()) + word_sum(data)
}

/// The length in bytes of the IPv4 header of `p`.
pub open spec fn ihl(p: Seq<u8>) -> int {
    (p[0] % 16) * 4
}

/// Whether `p`, read as an IPv4 packet, carries an ICMP echo request.
pub open spec fn is_echo_request_v4(p: Seq<u8>) -> bool {
    &&& p.len() >= 28
    &&& ihl(p) >= 20
    &&& p.len() >= ihl(p) + 8
    &&& p[9] == 1
    &&& p[ihl(p)] == 8
}

/// Whether `p`, read as an IPv6 packet, carries an ICMPv6 echo request.
pub open spec fn is_echo_request_v6(p: Seq<u8>) -> bool {
    &&& p.len() >= 48
    &&& p[6] == 58
    &&& p[40] == 128
}

/// `p` with the `n` bytes at `a` and the `n` bytes right behind them exchanged.
pub open spec fn exchanged(p: Seq<u8>, a: int, n: int) -> Seq<u8> {
    Seq::new(
        p.len(),
        |i: int|
            if a <= i < a + n {
                p[i + n]
            } else if a + n <= i < a + 2 * n {
                p[i - n]
            } else {
                p[i]
            },
    )
}

/// The reply before its checksums are filled in: addresses exchanged, type 0,
/// checksum fields zero.
pub open spec fn blank_reply_v4(p: Seq<u8>) -> Seq<u8> {
    put16(put16(exchanged(p, 12, 4), 10, 0).update(ihl(p), 0), ihl(p) + 2, 0)
}

/// The reply to the IPv4 echo request `p`.
pub open spec fn echo_reply_v4(p: Seq<u8>) -> Seq<u8> {
    let r = blank_reply_v4(p);
    let ip = complement(word_sum(r.take(ihl(p))));
    let message = complement(word_sum(r.skip(ihl(p))));
    put16(put16(r, 10, ip), ihl(p) + 2, message)
}

/// The reply before its checksum is filled in: addresses exchanged, type 129,
/// checksum field zero.
pub open spec fn blank_reply_v6(p: Seq<u8>) -> Seq<u8> {
    put16(exchanged(p, 8, 16).update(40, 129), 42, 0)
}

/// The reply to the IPv6 echo request `p`.
pub open spec fn echo_reply_v6(p: Seq<u8>) -> Seq<u8> {
    let r = blank_reply_v6(p);
    put16(r, 42, complement(echo6_sum(r.subrange(8, 24), r.subrange(24, 40), r.skip(40))))
}

/// The reply to `p`, where `p` is an echo request.
pub open spec fn echo_reply(p: Seq<u8>) -> Option<Seq<u8>> {
    if p.len() > 0 && p[0] / 16 == 4 && is_echo_request_v4(p) {
        Some(echo_reply_v4(p))
    } else if p.len() > 0 && p[0] / 16 == 6 && is_echo_request_v6(p) {
        Some(echo_reply_v6(p))
    } else {
        None
    }
}

/// The bytes of an optional packet.
pub open spec fn bytes_of(r: Option<Vec<u8>>) -> Option<Seq<u8>> {
    match r {
        Some(v) => Some(v@),
        None => None,
    }
}

/// Handle ICMP echo request by generating an echo reply.
/// Returns Some(reply_bytes) if the packet was an ICMP echo request, None otherwise.
/// This allows pings to TUN-routed IPs to respond instantly (<1ms) without proxying.
pub fn handle_icmp_echo(packet: &[u8]) -> (r: Option<Vec<u8>>)
    ensures
        bytes_of(r) == echo_reply(packet@),
{
    if packet.len() == 0 {
        return None;
    }
    let version: u8 = packet[0] / 16;
    if version == 4 {
        handle_icmpv4_echo(packet)
    } else if version == 6 {
        handle_icmpv6_echo(packet)
    } else {
        None
    }
}

/// Exchanges the `n` bytes at `a` and the `n` bytes right behind them.
fn exchange(buf: &mut Vec<u8>, a: usize, n: usize)
    requires
        a + 2 * n <= old(buf).len(),
    ensures
        final(buf)@ == exchanged(old(buf)@, a as int, n as int),
{
    let ghost start = buf@;
    let mut i: usize = 0;
    while i < n
        invariant
            i <= n,
            a + 2 * n <= start.len(),
            buf.len() == start.len(),
            forall|k: int|
                0 <= k < start.len() ==> buf@[k] == (if a <= k < a + i {
                    start[k + n]
                } else if a + n <= k < a + n + i {
                    start[k - n]
                } else {
                    start[k]
                }),
        decreases n - i,
    {
        let first: u8 = buf[a + i];
        let second: u8 = buf[a + n + i];
        buf.set(a + i, second);
        buf.set(a + n + i, first);
        i = i + 1;
    }
    assert(buf@ =~= exchanged(start, a as int, n as int));
}

/// Handle IPv4 ICMP echo request → echo reply.
pub fn handle_icmpv4_echo(pkt: &[u8]) -> (r: Option<Vec<u8>>)
    ensures
        bytes_of(r) == (if is_echo_request_v4(pkt@) {
            Some(echo_reply_v4(pkt@))
        } else {
            None
        }),
{
    // IPv4 header: minimum 20 bytes, ICMP header: 8 bytes
    if pkt.len() < 28 {
        return None;
    }
    let header_len: usize = header_length(pkt);
    if header_len < 20 || pkt.len() < header_len + 8 {
        return None;
    }
    // IP protocol field == ICMP (1), ICMP type == echo request (8)
    if pkt[9] != 1 || pkt[header_len] != 8 {
        return None;
    }
    let mut reply: Vec<u8> = slice_to_vec(pkt);
    exchange(&mut reply, 12, 4);
    set_u16(&mut reply, 10, 0);
    reply.set(header_len, 0);
    set_u16(&mut reply, header_len + 2, 0);
    assert(reply@ == blank_reply_v4(pkt@));
    let ip: u16 = internet_checksum(head(&reply, header_len));
    let message: u16 = internet_checksum(tail(&reply, header_len));
    set_u16(&mut reply, 10, ip);
    set_u16(&mut reply, header_len + 2, message);
    Some(reply)
}

/// Handle ICMPv6 echo request → echo reply.
pub fn handle_icmpv6_echo(pkt: &[u8]) -> (r: Option<Vec<u8>>)
    ensures
        bytes_of(r) == (if is_echo_request_v6(pkt@) {
            Some(echo_reply_v6(pkt@))
        } else {
            None
        }),
{
    // IPv6 header: 40 bytes, ICMPv6 header: 8 bytes minimum
    if pkt.len() < 48 {
        return None;
    }
    // Next Header == ICMPv6 (58), ICMPv6 type == echo request (128)
    if pkt[6] != 58 || pkt[40] != 128 {
        return None;
    }
    let mut reply: Vec<u8> = slice_to_vec(pkt);
    exchange(&mut reply, 8, 16);
    reply.set(40, 129);
    set_u16(&mut reply, 42, 0);
    assert(reply@ == blank_reply_v6(pkt@));
    let sum: u16 = icmpv6_checksum(
        slice_subrange(reply.as_slice(), 8, 24),
        slice_subrange(reply.as_slice(), 24, 40),
        tail(&reply, 40),
    );
    set_u16(&mut reply, 42, sum);
    Some(reply)
}

/// The length of the IPv4 header of a packet.
fn header_length(pkt: &[u8]) -> (r: usize)
    requires
        pkt.len() > 0,
    ensures
        r == ihl(pkt@),
        r <= 60,
{
    (pkt[0] % 16) as usize * 4
}

/// The first `n` bytes of a buffer.
fn head(buf: &Vec<u8>, n: usize) -> (r: &[u8])
    requires
        n <= buf.len(),
    ensures
        r@ == buf@.take(n as int),
{
    slice_subrange(buf.as_slice(), 0, n)
}

/// The bytes of a buffer from `n` on.
fn tail(buf: &Vec<u8>, n: usize) -> (r: &[u8])
    requires
        n <= buf.len(),
    ensures
        r@ == buf@.skip(n as int),
{
    slice_subrange(buf.as_slice(), n, buf.len())
}

/// The leading bytes of `s` that form whole words.
fn whole_words(s: &[u8]) -> (r: &[u8])
    ensures
        r@ == even_part(s@),
{
    slice_subrange(s, 0, s.len() - s.len() % 2)
}

/// The folded sum of the pseudo-header words.
fn pseudo_header_sum(src: &[u8], dst: &[u8], len: usize) -> (r: u32)
    ensures
        r <= 0xffff,
        r as nat == fold(echo6_pseudo(src@, dst@, len as nat)),
{
    let plen: u64 = len as u64 % 0x1_0000_0000;
    let high: u32 = (plen / 0x1_0000) as u32;
    let low: u32 = (plen % 0x1_0000) as u32;
    let s1: u32 = add_words(0, whole_words(src));
    let s2: u32 = add_words(s1, whole_words(dst));
    let s3: u32 = add_word(s2, high);
    let s4: u32 = add_word(s3, low);
    let s5: u32 = add_word(s4, 58);
    proof {
        let a = word_sum(even_part(src@));
        let b = word_sum(even_part(dst@));
        lemma_fold_add(a, b);
        lemma_fold_add(a + b, high as nat);
        lemma_fold_add(a + b + high as nat, low as nat);
        lemma_fold_add(a + b + high as nat + low as nat, 58);
    }
    s5
}

/// Compute ICMPv6 checksum with pseudo-header.
pub fn icmpv6_checksum(src_ip: &[u8], dst_ip: &[u8], icmp_data: &[u8]) -> (r: u16)
    ensures
        r == complement(echo6_sum(src_ip@, dst_ip@, icmp_data@)),
{
    let pseudo: u32 = pseudo_header_sum(src_ip, dst_ip, icmp_data.len());
    proof {
        lemma_fold_add(
            echo6_pseudo(src_ip@, dst_ip@, icmp_data@.len()),
            word_sum(icmp_data@),
        );
    }
    complement_of(add_words(pseudo, icmp_data))
}

/// The reply to an IPv4 echo request comes from the pinged address and goes to
/// the sender. Both of its checksums verify, the rest of the message is as it
/// was sent, and the reply itself is answered by nothing.
pub proof fn law_echo_reply_v4(p: Seq<u8>)
    requires
        p.len() > 0,
        p[0] / 16 == 4,
        is_echo_request_v4(p),
    ensures
        echo_reply(p) == Some(echo_reply_v4(p)),
        echo_reply_v4(p).len() == p.len(),
        ihl(echo_reply_v4(p)) == ihl(p),
        echo_reply_v4(p).subrange(12, 16) == p.subrange(16, 20),
        echo_reply_v4(p).subrange(16, 20) == p.subrange(12, 16),
        echo_reply_v4(p)[ihl(p)] == 0,
        complement(word_sum(echo_reply_v4(p).take(ihl(p)))) == 0,
        complement(word_sum(echo_reply_v4(p).skip(ihl(p)))) == 0,
        forall|i: int|
            0 <= i < p.len() && !(10 <= i < 20) && i != ihl(p) && !(ihl(p) + 2 <= i < ihl(p) + 4)
                ==> echo_reply_v4(p)[i] == p[i],
        echo_reply(echo_reply_v4(p)) is None,
{
    let h = ihl(p);
    let b = blank_reply_v4(p);
    let r = echo_reply_v4(p);
    let ip = complement(word_sum(b.take(h)));
    let message = complement(word_sum(b.skip(h)));
    assert(r.take(h) =~= put16(b.take(h), 10, ip));
    assert(r.skip(h) =~= put16(b.skip(h), 2, message));
    lemma_word_sum_put16(b.take(h), 10, ip);
    lemma_word_sum_put16(b.skip(h), 2, message);
    lemma_complement_completes(word_sum(b.take(h)));
    lemma_complement_completes(word_sum(b.skip(h)));
    assert(r.subrange(12, 16) =~= p.subrange(16, 20));
    assert(r.subrange(16, 20) =~= p.subrange(12, 16));
}

/// The reply to an IPv6 echo request comes from the pinged address and goes to
/// the sender. Its checksum verifies, the rest of the packet is as it was sent,
/// and the reply itself is answered by nothing.
pub proof fn law_echo_reply_v6(p: Seq<u8>)
    requires
        p.len() > 0,
        p[0] / 16 == 6,
        is_echo_request_v6(p),
    ensures
        echo_reply(p) == Some(echo_reply_v6(p)),
        echo_reply_v6(p).len() == p.len(),
        echo_reply_v6(p).subrange(8, 24) == p.subrange(24, 40),
        echo_reply_v6(p).subrange(24, 40) == p.subrange(8, 24),
        echo_reply_v6(p)[40] == 129,
        complement(
            echo6_sum(
                echo_reply_v6(p).subrange(8, 24),
                echo_reply_v6(p).subrange(24, 40),
                echo_reply_v6(p).skip(40),
            ),
        ) == 0,
        forall|i: int|
            0 <= i < p.len() && !(8 <= i < 41) && !(42 <= i < 44) ==> echo_reply_v6(p)[i] == p[i],
        echo_reply(echo_reply_v6(p)) is None,
{
    let b = blank_reply_v6(p);
    let r = echo_reply_v6(p);
    let sum = echo6_sum(b.subrange(8, 24), b.subrange(24, 40), b.skip(40));
    assert(r.skip(40) =~= put16(b.skip(40), 2, complement(sum)));
    assert(r.subrange(8, 24) =~= b.subrange(8, 24));
    assert(r.subrange(24, 40) =~= b.subrange(24, 40));
    lemma_word_sum_put16(b.skip(40), 2, complement(sum));
    lemma_complement_completes(sum);
    assert(r.subrange(8, 24) =~= p.subrange(24, 40));
    assert(r.subrange(24, 40) =~= p.subrange(8, 24));
}

} // verus!
