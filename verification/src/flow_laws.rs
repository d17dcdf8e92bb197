//! What the tunnel does with each packet, stream and datagram.

use vstd::prelude::*;

use crate::addr::octets;
use crate::answer_laws::is_tcp_segment;
use crate::answer_laws::law_tcp_answer_over_ipv4;
use crate::answer_laws::law_tcp_answer_over_ipv6;
use crate::icmp::echo_reply;
use crate::packet::parsed;
use crate::packet::reply_key;
use crate::packet::ConnKey;
use crate::packet::IpHeader;
use crate::response::response;
use crate::response::response_flags;
use crate::response::tcp_response;
use crate::response::TunnelError;
use crate::tunnel::after_forward;
use crate::tunnel::all_answerable;
use crate::tunnel::connect_step;
use crate::tunnel::first_reader;
use crate::tunnel::first_write_step;
use crate::tunnel::is_oldest;
use crate::tunnel::is_read;
use crate::tunnel::is_reader_step;
use crate::tunnel::is_udp_answer;
use crate::tunnel::relay_step;
use crate::tunnel::seq_after;
use crate::tunnel::target_of;
use crate::tunnel::tcp_handled;
use crate::tunnel::udp_handled;
use crate::tunnel::with_connection;
use crate::tunnel::with_flow;
use crate::tunnel::ConnectOutcome;
use crate::tunnel::ConnectStep;
use crate::tunnel::DatagramSource;
use crate::tunnel::Endpoint;
use crate::tunnel::Incoming;
use crate::tunnel::ReaderStep;
use crate::tunnel::RelayStep;
use crate::tunnel::StreamRead;
use crate::tunnel::TcpAction;
use crate::tunnel::TcpConn;
use crate::tunnel::TcpReader;
use crate::tunnel::UdpAction;
use crate::tunnel::UdpConnMeta;

verus! {

/// What is forwarded of a packet: its header, the key of its replies, and all bytes
/// behind its IP header.
pub proof fn law_what_is_forwarded(packet: Seq<u8>, r: Incoming<'_>)
    requires
        echo_reply(packet) is None,
        parsed(packet) is Some,
        is_read(packet, r),
    ensures
        ({
            let h = parsed(packet)->0;
            &&& h.protocol == 6 ==> r is Tcp && r->Tcp_0.hdr == h && r->Tcp_0.rev_key == reply_key(
                h,
            ) && r->Tcp_0.payload@ == packet.skip(h.header_len as int)
            &&& h.protocol == 17 ==> r is Udp && r->Udp_0.hdr == h && r->Udp_0.rev_key == reply_key(
                h,
            ) && r->Udp_0.payload@ == packet.skip(h.header_len as int)
        }),
{
}

/// A packet goes to its destination address and port, if that address is of the
/// packet's version, and nowhere otherwise.
pub proof fn law_targets(hdr: IpHeader)
    ensures
        target_of(hdr) is Some <==> (hdr.version == 4 && hdr.dst is V4) || (hdr.version == 6
            && hdr.dst is V6),
        target_of(hdr) matches Some(at) ==> at.ip == hdr.dst && at.port == hdr.dst_port,
{
}

/// Sequence numbers count bytes and go on at zero behind the largest.
pub proof fn law_sequence_numbers(seq: u32, len: nat, more: nat)
    ensures
        seq + len < 0x1_0000_0000 ==> seq_after(seq, len) == seq + len,
        (seq + len - seq_after(seq, len)) % 0x1_0000_0000 == 0,
        seq_after(seq_after(seq, len), more) == seq_after(seq, len + more),
{
    let s = seq as int + len;
    assert((s % 0x1_0000_0000 + more) % 0x1_0000_0000 == (s + more) % 0x1_0000_0000);
    assert((s - s % 0x1_0000_0000) % 0x1_0000_0000 == 0);
}

/// A packet of an unknown TCP flow asks for a connection to its destination. Below
/// 4096 connections none is dropped; from there on one is, which was active no later
/// than any other. A packet without a target asks for nothing.
pub proof fn law_new_tcp_flow<W>(
    before: Map<ConnKey, TcpConn<W>>,
    after: Map<ConnKey, TcpConn<W>>,
    hdr: IpHeader,
    len: nat,
    rev_key: ConnKey,
    now: u64,
    action: TcpAction,
)
    requires
        !before.contains_key(rev_key),
        tcp_handled(before, after, hdr, len, rev_key, now, action),
    ensures
        target_of(hdr) is None ==> action == TcpAction::Ignore && after == before,
        target_of(hdr) is Some ==> action == TcpAction::Connect(
            Endpoint { ip: hdr.dst, port: hdr.dst_port },
        ),
        before.len() < 4096 ==> after == before,
        target_of(hdr) is Some && before.len() >= 4096 ==> exists|k: ConnKey|
            #![trigger before.contains_key(k)]
            before.contains_key(k) && after == before.remove(k) && forall|j: ConnKey| #[trigger]
                before.contains_key(j) ==> before[k].last_active <= before[j].last_active,
{
    if target_of(hdr) is Some && before.len() >= 4096 {
        let k = choose|k: ConnKey| #[trigger] is_oldest(before, k) && after == before.remove(k);
        assert(before.contains_key(k));
    }
}

/// A packet of a known TCP flow notes the time. With data it is forwarded, and the
/// number behind the data is noted too; without data nothing is done. No other flow
/// changes, and the stream is kept.
pub proof fn law_known_tcp_flow<W>(
    before: Map<ConnKey, TcpConn<W>>,
    after: Map<ConnKey, TcpConn<W>>,
    hdr: IpHeader,
    len: nat,
    rev_key: ConnKey,
    now: u64,
    action: TcpAction,
    j: ConnKey,
)
    requires
        before.contains_key(rev_key),
        tcp_handled(before, after, hdr, len, rev_key, now, action),
    ensures
        action == (if len > 0 {
            TcpAction::Forward
        } else {
            TcpAction::Idle
        }),
        after.contains_key(rev_key),
        after[rev_key].write_half == before[rev_key].write_half,
        after[rev_key].last_active == now,
        len == 0 ==> after[rev_key].client_seq == before[rev_key].client_seq,
        len > 0 ==> after[rev_key].client_seq == (hdr.tcp_seq + len) % 0x1_0000_0000,
        j != rev_key ==> (after.contains_key(j) <==> before.contains_key(j)),
        j != rev_key && before.contains_key(j) ==> after[j] == before[j],
{
}

/// After a write, the connection is kept if the write went well and dropped if not.
/// No other connection changes.
pub proof fn law_after_a_write<W>(
    m: Map<ConnKey, TcpConn<W>>,
    rev_key: ConnKey,
    written: bool,
    j: ConnKey,
)
    ensures
        written ==> after_forward(m, rev_key, written) == m,
        !written ==> !after_forward(m, rev_key, written).contains_key(rev_key),
        j != rev_key ==> (after_forward(m, rev_key, written).contains_key(j) <==> m.contains_key(j)),
        j != rev_key && m.contains_key(j) ==> after_forward(m, rev_key, written)[j] == m[j],
{
}

/// A connection that was made is kept: at once where there is nothing to write, and
/// otherwise when the first data was written. One that was not made, or not written
/// to, is not kept.
pub proof fn law_connections_made(outcome: ConnectOutcome, len: nat, written: bool)
    ensures
        outcome == ConnectOutcome::Connected && len == 0 ==> connect_step(outcome, len)
            == ConnectStep::Keep,
        outcome == ConnectOutcome::Connected && len > 0 ==> connect_step(outcome, len)
            == ConnectStep::WriteFirst,
        outcome != ConnectOutcome::Connected ==> connect_step(outcome, len) == ConnectStep::Drop,
        first_write_step(written) == ConnectStep::Keep <==> written,
        first_write_step(written) == ConnectStep::Drop <==> !written,
{
}

/// The relay socket is used once it is connected; a failed attempt is repeated once
/// and no more.
pub proof fn law_relay_attempts(outcome: ConnectOutcome, retried: bool)
    ensures
        relay_step(outcome, retried) == RelayStep::Use <==> outcome == ConnectOutcome::Connected,
        outcome != ConnectOutcome::Connected ==> (relay_step(outcome, retried) == RelayStep::Retry
            <==> !retried),
        outcome != ConnectOutcome::Connected ==> (relay_step(outcome, retried) == RelayStep::Fail
            <==> retried),
{
}

/// A connection that is kept is found under its key, with its stream, the time and
/// the client's number, and its reader begins with both numbers.
pub proof fn law_kept_connection<W>(
    m: Map<ConnKey, TcpConn<W>>,
    hdr: IpHeader,
    rev_key: ConnKey,
    write_half: W,
    now: u64,
    isn: u32,
    j: ConnKey,
)
    ensures
        ({
            let after = with_connection(m, hdr, rev_key, write_half, now);
            &&& after.contains_key(rev_key)
            &&& after[rev_key].write_half == write_half
            &&& after[rev_key].last_active == now
            &&& after[rev_key].client_seq == hdr.tcp_seq
            &&& j != rev_key ==> (after.contains_key(j) <==> m.contains_key(j))
            &&& j != rev_key && m.contains_key(j) ==> after[j] == m[j]
        }),
        first_reader(hdr, rev_key, isn).orig_hdr == hdr,
        first_reader(hdr, rev_key, isn).rev_key == rev_key,
        first_reader(hdr, rev_key, isn).client_seq == hdr.tcp_seq,
        first_reader(hdr, rev_key, isn).server_seq == isn,
{
}

/// Data from the server goes to the client in a segment with the reader's ports and
/// numbers, and moves the server's number by its length. The end of the stream and a
/// failure stop the reader and change nothing.
pub proof fn law_stream_to_client(
    before: TcpReader,
    after: TcpReader,
    data: &[u8],
    step: ReaderStep,
)
    requires
        is_reader_step(before, after, StreamRead::Data(data), step),
        before.orig_hdr.version == 6 || (before.orig_hdr.version == 4 && before.orig_hdr.src is V4
            && before.orig_hdr.dst is V4),
    ensures
        data@.len() == 0 ==> step is Stop && after == before,
        data@.len() > 0 ==> {
            let p = step->Write_0@;
            let start: int = if before.orig_hdr.version == 4 {
                20
            } else {
                40
            };
            let flags = response_flags(before.orig_hdr.tcp_flags);
            &&& step is Write
            &&& tcp_response(
                data@,
                before.orig_hdr,
                before.rev_key,
                before.server_seq,
                before.client_seq,
            ) == Ok::<Seq<u8>, TunnelError>(p)
            &&& is_tcp_segment(
                p.skip(start),
                before.rev_key.sport,
                before.rev_key.dport,
                before.server_seq,
                before.client_seq,
                flags,
                data@,
                octets(before.orig_hdr.dst) + octets(before.orig_hdr.src),
                before.orig_hdr.protocol,
            )
            &&& after.server_seq == (before.server_seq + data@.len()) % 0x1_0000_0000
            &&& after.client_seq == before.client_seq && after.rev_key == before.rev_key
            &&& after.orig_hdr == before.orig_hdr
        },
{
    if data@.len() > 0 {
        let h = before.orig_hdr;
        if h.version == 4 {
            law_tcp_answer_over_ipv4(
                data@,
                h,
                before.rev_key,
                before.server_seq,
                before.client_seq,
            );
        } else {
            law_tcp_answer_over_ipv6(
                data@,
                h,
                before.rev_key,
                before.server_seq,
                before.client_seq,
            );
        }
    }
}

/// A failed read stops the reader, and so does a header that no packet can be built
/// for. Packets can be tried unless a version 6 header has addresses of two families.
pub proof fn law_reader_stops(
    before: TcpReader,
    after: TcpReader,
    data: &[u8],
    failed: ReaderStep,
    refused: ReaderStep,
)
    ensures
        is_reader_step(before, after, StreamRead::Failed, failed) ==> failed is Stop && after
            == before,
        is_reader_step(before, after, StreamRead::Data(data), refused) && data@.len() > 0
            && before.orig_hdr.version != 4 && before.orig_hdr.version != 6 ==> refused is Refuse
            && after == before,
        before.wf() <==> before.orig_hdr.version != 6 || (before.orig_hdr.src is V4
            <==> before.orig_hdr.dst is V4),
{
}

/// The flow of a UDP packet is found under its key afterwards, with its header, and
/// no other flow changes.
pub proof fn law_udp_flow_is_noted(
    m: Map<ConnKey, UdpConnMeta>,
    hdr: IpHeader,
    rev_key: ConnKey,
    j: ConnKey,
)
    ensures
        with_flow(m, hdr, rev_key).contains_key(rev_key),
        with_flow(m, hdr, rev_key)[rev_key].hdr == hdr,
        with_flow(m, hdr, rev_key)[rev_key].rev_key == rev_key,
        j != rev_key ==> (with_flow(m, hdr, rev_key).contains_key(j) <==> m.contains_key(j)),
        j != rev_key && m.contains_key(j) ==> with_flow(m, hdr, rev_key)[j] == m[j],
{
}

/// A UDP packet with data goes to its destination; without data or a target it goes
/// nowhere. When flows and connections together are 4096 or more, one connection is
/// dropped for it, which was active no later than any other.
pub proof fn law_udp_packets<W>(
    before: Map<ConnKey, TcpConn<W>>,
    after: Map<ConnKey, TcpConn<W>>,
    flows: nat,
    hdr: IpHeader,
    len: nat,
    action: UdpAction,
)
    requires
        udp_handled(before, after, flows, hdr, len, action),
    ensures
        target_of(hdr) is Some && len > 0 ==> action == UdpAction::Send(
            Endpoint { ip: hdr.dst, port: hdr.dst_port },
        ),
        target_of(hdr) is None || len == 0 ==> action == UdpAction::Ignore && after == before,
        before.len() + flows < 4096 || before.len() == 0 ==> after == before,
        target_of(hdr) is Some && len > 0 && before.len() > 0 && before.len() + flows >= 4096
            ==> exists|k: ConnKey|
            #![trigger before.contains_key(k)]
            before.contains_key(k) && after == before.remove(k) && forall|j: ConnKey| #[trigger]
                before.contains_key(j) ==> before[k].last_active <= before[j].last_active,
{
    if target_of(hdr) is Some && len > 0 && before.len() > 0 && before.len() + flows >= 4096 {
        let k = choose|k: ConnKey| #[trigger] is_oldest(before, k) && after == before.remove(k);
        assert(before.contains_key(k));
    }
}

/// A datagram is answered with the packet of a flow whose destination is where it
/// comes from, if there is one. From a host name, or from elsewhere, it is skipped.
pub proof fn law_datagrams(
    m: Map<ConnKey, UdpConnMeta>,
    from: DatagramSource,
    payload: Seq<u8>,
    r: Option<Seq<u8>>,
)
    requires
        is_udp_answer(m, from, payload, r),
    ensures
        from is Domain ==> r is None,
        from matches DatagramSource::Address(at) ==> {
            let known = exists|k: ConnKey|
                #![trigger m.contains_key(k)]
                m.contains_key(k) && m[k].hdr.dst == at.ip && m[k].hdr.dst_port == at.port;
            &&& !known ==> r is None
            &&& known ==> exists|k: ConnKey|
                #![trigger m.contains_key(k)]
                {
                    &&& m.contains_key(k)
                    &&& m[k].hdr.dst == at.ip
                    &&& m[k].hdr.dst_port == at.port
                    &&& match response(payload, m[k].hdr, m[k].rev_key) {
                        Ok(pkt) => r == Some(pkt),
                        Err(_) => r is None,
                    }
                }
        },
{
}

/// All flows can be answered unless one over IPv6 has addresses of two families.
pub proof fn law_answerable_flows(m: Map<ConnKey, UdpConnMeta>)
    requires
        forall|k: ConnKey| #[trigger]
            m.contains_key(k) ==> (m[k].hdr.version != 6 || (m[k].hdr.src is V4
                <==> m[k].hdr.dst is V4)),
    ensures
        all_answerable(m),
{
}

} // verus!
