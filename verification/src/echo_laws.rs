//! Which echo requests are answered, and with which bytes.

use vstd::prelude::*;

use crate::answer_laws::blanked;
use crate::answer_laws::two_bytes;
use crate::checksum::complement;
use crate::checksum::word_sum;
use crate::icmp::blank_reply_v4;
use crate::icmp::blank_reply_v6;
use crate::icmp::echo6_sum;
use crate::icmp::echo_reply;
use crate::icmp::even_part;
use crate::packet::readable;
use crate::wire_laws::law_word_sum;
use crate::wire_laws::lemma_word_sum_concat;

verus! {

/// A packet is answered if and only if its bytes are those of an echo request.
/// Over IPv4: a header of at least 20 bytes, as byte 0 says, then a message of at
/// least 8 bytes, protocol 1 in byte 9 and type 8 in the first byte of the message.
/// Over IPv6: a header of 40 bytes, then a message of at least 8 bytes, next header
/// 58 in byte 6 and type 128 in the first byte of the message. No other byte counts.
pub proof fn law_which_packets_are_answered(p: Seq<u8>)
    ensures
        echo_reply(p) is Some <==> p.len() > 0 && ({
            let h = (p[0] % 16) * 4;
            ||| p[0] / 16 == 4 && h >= 20 && p.len() >= 28 && p.len() >= h + 8 && p[9] == 1 && p[h]
                == 8
            ||| p[0] / 16 == 6 && p.len() >= 48 && p[6] == 58 && p[40] == 128
        }),
{
}

/// The bytes of an echo reply over IPv4: the addresses are exchanged, the type is
/// zero, the checksums of the header and of the message belong to their bytes, and
/// every other byte is as it was sent.
pub proof fn law_echo_over_ipv4(p: Seq<u8>)
    requires
        p.len() >= 28,
        p[0] / 16 == 4,
        (p[0] % 16) * 4 >= 20,
        p.len() >= (p[0] % 16) * 4 + 8,
        p[9] == 1,
        p[(p[0] % 16) * 4] == 8,
    ensures
        echo_reply(p) is Some,
        ({
            let h = (p[0] % 16) * 4;
            let r = echo_reply(p)->0;
            &&& r.len() == p.len()
            &&& r.subrange(12, 16) == p.subrange(16, 20)
            &&& r.subrange(16, 20) == p.subrange(12, 16)
            &&& r[h] == 0
            &&& two_bytes(r, 10) == complement(word_sum(blanked(r.take(h), 10)))
            &&& two_bytes(r, h + 2) == complement(word_sum(blanked(r.skip(h), 2)))
            &&& forall|i: int|
                0 <= i < p.len() && !(10 <= i < 20) && i != h && i != h + 2 && i != h + 3
                    ==> #[trigger] r[i] == p[i]
        }),
{
    let h = (p[0] % 16) * 4;
    let r = echo_reply(p)->0;
    let b = blank_reply_v4(p);
    assert(blanked(r.take(h), 10) =~= b.take(h));
    assert(blanked(r.skip(h), 2) =~= b.skip(h));
    assert(r.subrange(12, 16) =~= p.subrange(16, 20));
    assert(r.subrange(16, 20) =~= p.subrange(12, 16));
}

/// The bytes of the length of a message and of its next header in a pseudo-header.
pub open spec fn pseudo_tail(len: nat) -> Seq<u8> {
    seq![
        ((len / 0x100_0000) % 256) as u8,
        ((len / 0x1_0000) % 256) as u8,
        ((len / 0x100) % 256) as u8,
        (len % 256) as u8,
        0u8,
        0u8,
        0u8,
        58u8,
    ]
}

proof fn lemma_halves(len: nat)
    ensures
        ((len / 0x100_0000) % 256) * 256 + (len / 0x1_0000) % 256 == (len % 0x1_0000_0000)
            / 0x1_0000,
        ((len / 0x100) % 256) * 256 + len % 256 == (len % 0x1_0000_0000) % 0x1_0000,
{
    let q = len / 0x1_0000;
    let r = len % 0x1_0000;
    assert(len / 0x100_0000 == q / 256);
    assert((q / 256 % 256) * 256 + q % 256 == q % 0x1_0000);
    assert((len % 0x1_0000_0000) / 0x1_0000 == q % 0x1_0000);
    assert((len % 0x1_0000_0000) % 0x1_0000 == r);
    assert((len / 0x100) % 256 == r / 256);
    assert(len % 256 == r % 256);
}

proof fn lemma_tail_sum(len: nat)
    ensures
        word_sum(pseudo_tail(len)) == (len % 0x1_0000_0000) / 0x1_0000 + (len % 0x1_0000_0000)
            % 0x1_0000 + 58,
{
    let t = pseudo_tail(len);
    let a = t[0];
    let b = t[1];
    let c = t[2];
    let d = t[3];
    law_word_sum(0, 58, Seq::empty());
    law_word_sum(0, 0, seq![0u8, 58]);
    law_word_sum(c, d, seq![0u8, 0, 0, 58]);
    law_word_sum(a, b, seq![c, d, 0u8, 0, 0, 58]);
    assert(seq![0u8, 58] + Seq::<u8>::empty() =~= seq![0u8, 58]);
    assert(seq![0u8, 0] + seq![0u8, 58] =~= seq![0u8, 0, 0, 58]);
    assert(seq![c, d] + seq![0u8, 0, 0, 58] =~= seq![c, d, 0u8, 0, 0, 58]);
    assert(seq![a, b] + seq![c, d, 0u8, 0, 0, 58] =~= t);
    lemma_halves(len);
}

/// The sum behind an ICMPv6 checksum is that of the words of the pseudo-header,
/// which are the addresses, the length and the next header, and of the message.
pub proof fn law_message_pseudo_header(src: Seq<u8>, dst: Seq<u8>, data: Seq<u8>)
    requires
        src.len() % 2 == 0,
        dst.len() % 2 == 0,
    ensures
        echo6_sum(src, dst, data) == word_sum(src + dst + pseudo_tail(data.len()) + data),
{
    assert(even_part(src) =~= src);
    assert(even_part(dst) =~= dst);
    lemma_tail_sum(data.len());
    lemma_word_sum_concat(src, dst);
    lemma_word_sum_concat(src + dst, pseudo_tail(data.len()));
    lemma_word_sum_concat(src + dst + pseudo_tail(data.len()), data);
}

/// The bytes of an echo reply over IPv6: the addresses are exchanged, the type is
/// 129, the checksum belongs to the pseudo-header and the message, and every other
/// byte is as it was sent.
pub proof fn law_echo_over_ipv6(p: Seq<u8>)
    requires
        p.len() >= 48,
        p[0] / 16 == 6,
        p[6] == 58,
        p[40] == 128,
    ensures
        echo_reply(p) is Some,
        ({
            let r = echo_reply(p)->0;
            &&& r.len() == p.len()
            &&& r.subrange(8, 24) == p.subrange(24, 40)
            &&& r.subrange(24, 40) == p.subrange(8, 24)
            &&& r[40] == 129
            &&& two_bytes(r, 42) == complement(
                word_sum(
                    r.subrange(8, 40) + pseudo_tail((p.len() - 40) as nat) + blanked(r.skip(40), 2),
                ),
            )
            &&& forall|i: int|
                0 <= i < p.len() && !(8 <= i < 41) && i != 42 && i != 43 ==> #[trigger] r[i] == p[i]
        }),
{
    let r = echo_reply(p)->0;
    let b = blank_reply_v6(p);
    law_message_pseudo_header(b.subrange(8, 24), b.subrange(24, 40), b.skip(40));
    assert(blanked(r.skip(40), 2) =~= b.skip(40));
    assert(r.subrange(8, 40) =~= b.subrange(8, 24) + b.subrange(24, 40));
    assert(r.subrange(8, 24) =~= p.subrange(24, 40));
    assert(r.subrange(24, 40) =~= p.subrange(8, 24));
}

/// A packet can be read unless it is an IPv6 packet of fewer than five bytes.
pub proof fn law_what_is_readable(p: Seq<u8>)
    ensures
        readable(p) <==> p.len() == 0 || p[0] / 16 != 6 || p.len() >= 5,
{
}

} // verus!
