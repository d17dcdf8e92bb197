//! Properties of the tunnel's connection tracking.

use vstd::prelude::*;

use crate::icmp::echo_reply;
use crate::packet::law_parsed_is_complete;
use crate::packet::parsed;
use crate::packet::reply_key;
use crate::packet::ConnKey;
use crate::packet::IpHeader;
use crate::packet::TCP;
use crate::packet::UDP;
use crate::response::answerable;
use crate::response::response;
use crate::response_laws::law_udp_ipv4_response;
use crate::response_laws::law_udp_ipv6_response;
use crate::tunnel::all_answerable;
use crate::tunnel::comes_from;
use crate::tunnel::evicts_oldest;
use crate::tunnel::is_oldest;
use crate::tunnel::is_read;
use crate::tunnel::is_udp_answer;
use crate::tunnel::ok_of;
use crate::tunnel::seq_after;
use crate::tunnel::target_of;
use crate::tunnel::tcp_handled;
use crate::tunnel::udp_handled;
use crate::tunnel::DatagramSource;
use crate::tunnel::Endpoint;
use crate::tunnel::Incoming;
use crate::tunnel::TcpAction;
use crate::tunnel::TcpConn;
use crate::tunnel::TcpReader;
use crate::tunnel::UdpAction;
use crate::tunnel::UdpConnMeta;
use crate::tunnel::MAX_CONNECTIONS;

verus! {

/// Every packet that can be parsed has a target and can be answered.
pub proof fn law_parsed_is_routable(buf: Seq<u8>)
    requires
        parsed(buf) is Some,
    ensures
        target_of(parsed(buf).unwrap()) == Some(
            Endpoint { ip: parsed(buf).unwrap().dst, port: parsed(buf).unwrap().dst_port },
        ),
        answerable(parsed(buf).unwrap()),
{
    law_parsed_is_complete(buf);
}

/// Every echo request is answered, and none is forwarded.
pub proof fn law_echo_requests_are_answered(packet: Seq<u8>, r: Incoming<'_>)
    requires
        echo_reply(packet) is Some,
        is_read(packet, r),
    ensures
        r is Echo,
        r->Echo_0@ == echo_reply(packet).unwrap(),
{
}

/// A packet that is no echo request is forwarded by its protocol if it can be
/// parsed, under the key of its flow, and ignored if not.
pub proof fn law_flows_by_protocol(packet: Seq<u8>, r: Incoming<'_>)
    requires
        echo_reply(packet) is None,
        is_read(packet, r),
    ensures
        r is Tcp <==> parsed(packet) is Some && parsed(packet).unwrap().protocol == TCP,
        r is Udp <==> parsed(packet) is Some && parsed(packet).unwrap().protocol == UDP,
        r is Other <==> parsed(packet) is None,
        r is Tcp ==> r->Tcp_0.rev_key == reply_key(parsed(packet).unwrap()),
        r is Udp ==> r->Udp_0.rev_key == reply_key(parsed(packet).unwrap()),
{
}

/// The limit on connections is kept: by handling a packet, and by keeping the
/// connection that the packet asks for.
pub proof fn law_limit_is_kept<W>(
    before: Map<ConnKey, TcpConn<W>>,
    after: Map<ConnKey, TcpConn<W>>,
    hdr: IpHeader,
    len: nat,
    rev_key: ConnKey,
    now: u64,
    action: TcpAction,
    conn: TcpConn<W>,
)
    requires
        before.dom().finite(),
        before.len() <= MAX_CONNECTIONS,
        tcp_handled(before, after, hdr, len, rev_key, now, action),
    ensures
        after.dom().finite(),
        after.len() <= MAX_CONNECTIONS,
        action is Connect ==> after.insert(rev_key, conn).len() <= MAX_CONNECTIONS,
{
    if before.contains_key(rev_key) {
        assert(after.dom() =~= before.dom());
    } else if before.len() >= MAX_CONNECTIONS && action is Connect {
        lemma_eviction(before, after);
    }
}

/// An eviction takes one connection.
proof fn lemma_eviction<W>(before: Map<ConnKey, TcpConn<W>>, after: Map<ConnKey, TcpConn<W>>)
    requires
        before.dom().finite(),
        evicts_oldest(before, after),
    ensures
        after.dom().finite(),
        after.len() == before.len() - 1,
{
    let k = choose|k: ConnKey| #[trigger] is_oldest(before, k) && after == before.remove(k);
    assert(after.dom() =~= before.dom().remove(k));
}

/// A packet leaves every other flow as it was, except one that is evicted: that
/// happens only for a new flow at the limit, to one flow, and to none that was
/// active later than one that stays.
pub proof fn law_other_flows_are_kept<W>(
    before: Map<ConnKey, TcpConn<W>>,
    after: Map<ConnKey, TcpConn<W>>,
    hdr: IpHeader,
    len: nat,
    rev_key: ConnKey,
    now: u64,
    action: TcpAction,
    j: ConnKey,
)
    requires
        tcp_handled(before, after, hdr, len, rev_key, now, action),
        j != rev_key,
    ensures
        after.contains_key(j) ==> before.contains_key(j) && after[j] == before[j],
        before.contains_key(j) && !after.contains_key(j) ==> {
            &&& action is Connect
            &&& before.len() >= MAX_CONNECTIONS
            &&& after == before.remove(j)
            &&& forall|i: ConnKey| #[trigger]
                after.contains_key(i) ==> before[j].last_active <= after[i].last_active
        },
{
    if before.contains_key(j) && !after.contains_key(j) {
        let k = choose|k: ConnKey| #[trigger] is_oldest(before, k) && after == before.remove(k);
        assert(k == j);
        assert forall|i: ConnKey| #[trigger] after.contains_key(i) implies before[j].last_active
            <= after[i].last_active by {
            assert(before.contains_key(i));
        }
    }
}

/// A packet with data of a known flow is forwarded, keeps the stream of the flow
/// and moves its sequence number behind the data.
pub proof fn law_known_flow_is_forwarded<W>(
    before: Map<ConnKey, TcpConn<W>>,
    after: Map<ConnKey, TcpConn<W>>,
    hdr: IpHeader,
    len: nat,
    rev_key: ConnKey,
    now: u64,
    action: TcpAction,
)
    requires
        before.contains_key(rev_key),
        len > 0,
        tcp_handled(before, after, hdr, len, rev_key, now, action),
    ensures
        action is Forward,
        after.contains_key(rev_key),
        after.dom() == before.dom(),
        after[rev_key].write_half == before[rev_key].write_half,
        after[rev_key].last_active == now,
        after[rev_key].client_seq == seq_after(hdr.tcp_seq, len),
{
    assert(after.dom() =~= before.dom());
}

/// UDP packets never add a TCP connection, and take one away only when the
/// flows of both protocols have reached the limit.
pub proof fn law_udp_evicts_at_limit<W>(
    before: Map<ConnKey, TcpConn<W>>,
    after: Map<ConnKey, TcpConn<W>>,
    flows: nat,
    hdr: IpHeader,
    len: nat,
    action: UdpAction,
)
    requires
        before.dom().finite(),
        udp_handled(before, after, flows, hdr, len, action),
    ensures
        after.submap_of(before),
        after.len() == before.len() || (after.len() == before.len() - 1 && before.len() + flows
            >= MAX_CONNECTIONS),
{
    if after != before {
        lemma_eviction(before, after);
    }
}

/// Noting a flow that can be answered keeps all flows answerable.
pub proof fn law_flows_stay_answerable(
    m: Map<ConnKey, UdpConnMeta>,
    hdr: IpHeader,
    rev_key: ConnKey,
)
    requires
        all_answerable(m),
        answerable(hdr),
    ensures
        all_answerable(m.insert(rev_key, UdpConnMeta { hdr, rev_key })),
{
}

/// A datagram from where the packet of a flow went is answered with the response
/// packet of that flow, when no other flow goes there.
pub proof fn law_datagram_returns_to_flow(
    m: Map<ConnKey, UdpConnMeta>,
    hdr: IpHeader,
    target: Endpoint,
    payload: Seq<u8>,
    r: Option<Seq<u8>>,
)
    requires
        hdr.protocol == UDP,
        hdr.src is V4 == hdr.dst is V4,
        target_of(hdr) == Some(target),
        forall|k: ConnKey| #[trigger]
            m.contains_key(k) ==> k == reply_key(hdr) || !comes_from(m[k], target.ip, target.port),
        is_udp_answer(
            m.insert(reply_key(hdr), UdpConnMeta { hdr, rev_key: reply_key(hdr) }),
            DatagramSource::Address(target),
            payload,
            r,
        ),
    ensures
        response(payload, hdr, reply_key(hdr)) is Ok,
        r == Some(response(payload, hdr, reply_key(hdr))->Ok_0),
{
    let key = reply_key(hdr);
    let all = m.insert(key, UdpConnMeta { hdr, rev_key: key });
    assert(all.contains_key(key) && comes_from(all[key], target.ip, target.port));
    let k = choose|k: ConnKey| #[trigger]
        all.contains_key(k) && comes_from(all[k], target.ip, target.port) && r == ok_of(
            response(payload, all[k].hdr, all[k].rev_key),
        );
    assert(k == key);
    if hdr.version == 4 {
        law_udp_ipv4_response(payload, hdr, key);
    } else {
        law_udp_ipv6_response(payload, hdr);
    }
}

/// The number of bytes in all chunks.
pub open spec fn total_len(chunks: Seq<Seq<u8>>) -> nat
    decreases chunks.len(),
{
    if chunks.len() == 0 {
        0
    } else {
        total_len(chunks.drop_last()) + chunks.last().len()
    }
}

/// The reader after all chunks were sent on.
pub open spec fn reader_after(reader: TcpReader, chunks: Seq<Seq<u8>>) -> TcpReader
    decreases chunks.len(),
{
    if chunks.len() == 0 {
        reader
    } else {
        reader_after(reader, chunks.drop_last()).advanced(chunks.last().len())
    }
}

/// The packets of a stream are numbered without a gap: behind any chunks, the
/// next packet's sequence number is the first one plus the bytes sent so far,
/// and everything else of the reader stays as it was.
pub proof fn law_stream_is_contiguous(reader: TcpReader, chunks: Seq<Seq<u8>>)
    ensures
        reader_after(reader, chunks) == reader.advanced(total_len(chunks)),
    decreases chunks.len(),
{
    if chunks.len() == 0 {
        assert(seq_after(reader.server_seq, 0) == reader.server_seq);
    } else {
        law_stream_is_contiguous(reader, chunks.drop_last());
        let a = reader.server_seq as int + total_len(chunks.drop_last());
        let b = chunks.last().len() as int;
        assert((a % 0x1_0000_0000 + b) % 0x1_0000_0000 == (a + b) % 0x1_0000_0000);
    }
}

} // verus!
