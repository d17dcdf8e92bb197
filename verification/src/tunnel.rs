//! The decisions of the tunnel between the TUN interface and the server.
//!
//! Reading and writing packets, streams and datagrams is left to the caller,
//! who performs each action that is returned and reports what came of it.

use vstd::prelude::*;
use vstd::slice::slice_subrange;

use crate::addr::same_family;
use crate::addr::IpAddr;
use crate::conn::ConnTable;
use crate::icmp::echo_reply;
use crate::icmp::handle_icmp_echo;
use crate::packet::parse_ip_packet;
use crate::packet::parsed;
use crate::packet::readable;
use crate::packet::reply_key;
use crate::packet::ConnKey;
use crate::packet::IpHeader;
use crate::packet::TCP;
use crate::packet::UDP;
use crate::response::answerable;
use crate::response::build_response_packet;
use crate::response::build_tcp_response_packet;
use crate::response::response;
use crate::response::tcp_response;
use crate::response::TunnelError;

verus! {

/// Maximum concurrent connections before eviction.
pub const MAX_CONNECTIONS: usize = 4096;

/// An address and a port.
#[derive(Debug, Clone, Copy, PartialEq, Eq, Structural)]
pub struct Endpoint {
    pub ip: IpAddr,
    pub port: u16,
}

/// A packet of a TCP or UDP flow.
pub struct FlowPacket<'a> {
    pub hdr: IpHeader,
    /// The key under which replies are sent.
    pub rev_key: ConnKey,
    /// Everything behind the IP header.
    pub payload: &'a [u8],
}

/// Reads a packet of a TCP or UDP flow.
fn read_flow<'a>(packet: &'a [u8]) -> (r: Option<FlowPacket<'a>>)
    requires
        readable(packet@),
    ensures
        match parsed(packet@) {
            Some(h) => r is Some && is_flow_packet(r->0, h, packet@),
            None => r is None,
        },
{
    match parse_ip_packet(packet) {
        Some(hdr) => {
            let start: usize = hdr.header_len as usize;
            let payload = slice_subrange(packet, start, packet.len());
            assert(payload@ =~= packet@.skip(hdr.header_len as int));
            let rev_key = ConnKey::from_ip(&hdr, hdr.src_port, hdr.dst_port).reversed();
            Some(FlowPacket { hdr, rev_key, payload })
        },
        None => None,
    }
}

/// Whether `f` is what is read from a packet with the header `h`.
pub open spec fn is_flow_packet(f: FlowPacket<'_>, h: IpHeader, packet: Seq<u8>) -> bool {
    &&& f.hdr == h
    &&& f.rev_key == reply_key(h)
    &&& f.payload@ == packet.skip(h.header_len as int)
}

/// A packet from the client.
pub enum Incoming<'a> {
    /// A packet of a TCP flow, to be forwarded.
    Tcp(FlowPacket<'a>),
    /// A packet of a UDP flow, to be forwarded.
    Udp(FlowPacket<'a>),
    /// An echo request, to be answered with this packet.
    Echo(Vec<u8>),
    /// To be ignored.
    Other,
}

/// Whether `r` is what is read from a packet: echo requests are answered on the
/// spot, other packets are forwarded where they are TCP or UDP packets, and all
/// others are ignored.
pub open spec fn is_read(packet: Seq<u8>, r: Incoming<'_>) -> bool {
    match (echo_reply(packet), parsed(packet)) {
        (Some(reply), _) => r is Echo && r->Echo_0@ == reply,
        (None, Some(h)) => if h.protocol == TCP {
            r is Tcp && is_flow_packet(r->Tcp_0, h, packet)
        } else {
            h.protocol == UDP && r is Udp && is_flow_packet(r->Udp_0, h, packet)
        },
        (None, None) => r is Other,
    }
}

/// Reads a packet from the client. Echo requests are answered on the spot, TCP
/// and UDP packets are forwarded, and all others are ignored.
pub fn read_packet<'a>(packet: &'a [u8]) -> (r: Incoming<'a>)
    requires
        readable(packet@),
    ensures
        is_read(packet@, r),
{
    match handle_icmp_echo(packet) {
        Some(reply) => {
            return Incoming::Echo(reply);
        },
        None => {},
    }
    match read_flow(packet) {
        Some(f) => {
            if f.hdr.protocol == TCP {
                Incoming::Tcp(f)
            } else {
                Incoming::Udp(f)
            }
        },
        None => Incoming::Other,
    }
}

/// Where a packet is to be sent. Its addresses must be of its IP version.
pub open spec fn target_of(hdr: IpHeader) -> Option<Endpoint> {
    if (hdr.version == 4 && hdr.dst is V4) || (hdr.version == 6 && hdr.dst is V6) {
        Some(Endpoint { ip: hdr.dst, port: hdr.dst_port })
    } else {
        None
    }
}

/// Where a packet is to be sent.
pub fn target(hdr: &IpHeader) -> (r: Option<Endpoint>)
    ensures
        r == target_of(*hdr),
{
    if (hdr.version == 4 && hdr.dst.is_ipv4()) || (hdr.version == 6 && hdr.dst.is_ipv6()) {
        Some(Endpoint { ip: hdr.dst, port: hdr.dst_port })
    } else {
        None
    }
}

/// Active TCP connection.
pub struct TcpConn<W> {
    pub write_half: W,
    /// When the client was last heard, on a clock of the caller's.
    pub last_active: u64,
    /// Client's current sequence number (starts at ISN)
    pub client_seq: u32,
}

/// What a packet of a TCP flow calls for.
#[derive(Debug, Clone, Copy, PartialEq, Eq, Structural)]
pub enum TcpAction {
    /// Nothing: the packet names no usable target.
    Ignore,
    /// Nothing: the packet carries no data for its connection.
    Idle,
    /// Write the payload to the stream of the flow.
    Forward,
    /// Connect to the target through the server.
    Connect(Endpoint),
}

/// Whether no connection was active longer ago than that of `k`.
pub open spec fn is_oldest<W>(m: Map<ConnKey, TcpConn<W>>, k: ConnKey) -> bool {
    m.contains_key(k) && forall|j: ConnKey| #[trigger]
        m.contains_key(j) ==> m[k].last_active <= m[j].last_active
}

/// Whether `after` is `before` without one of its oldest connections.
pub open spec fn evicts_oldest<W>(
    before: Map<ConnKey, TcpConn<W>>,
    after: Map<ConnKey, TcpConn<W>>,
) -> bool {
    exists|k: ConnKey| #[trigger] is_oldest(before, k) && after == before.remove(k)
}

/// The sequence number behind `len` bytes that start at `seq`.
pub open spec fn seq_after(seq: u32, len: nat) -> u32 {
    ((seq + len) % 0x1_0000_0000) as u32
}

/// A connection after a packet with `len` bytes was heard.
pub open spec fn heard<W>(conn: TcpConn<W>, now: u64, seq: u32, len: nat) -> TcpConn<W> {
    TcpConn {
        last_active: now,
        client_seq: if len > 0 {
            seq_after(seq, len)
        } else {
            conn.client_seq
        },
        ..conn
    }
}

/// The sequence number behind `len` bytes that start at `seq`.
pub fn advance(seq: u32, len: usize) -> (r: u32)
    ensures
        r == seq_after(seq, len as nat),
{
    ((seq as u64 + len as u64 % 0x1_0000_0000) % 0x1_0000_0000) as u32
}

/// A connection that was active longest ago.
fn oldest<W>(table: &ConnTable<TcpConn<W>>) -> (r: Option<ConnKey>)
    requires
        table.wf(),
    ensures
        match r {
            Some(k) => is_oldest(table@, k),
            None => table@.len() == 0,
        },
{
    let n = table.len();
    if n == 0 {
        return None;
    }
    let (first, conn) = table.entry_at(0);
    let mut best: ConnKey = first;
    let mut best_time: u64 = conn.last_active;
    let mut i: usize = 1;
    while i < n
        invariant
            table.wf(),
            n == table@.len(),
            1 <= i <= n,
            table@.contains_key(best),
            table@[best].last_active == best_time,
            forall|j: int|
                0 <= j < i ==> best_time <= table@[#[trigger] table.key_at(j)].last_active,
        decreases n - i,
    {
        let (key, conn) = table.entry_at(i);
        if conn.last_active < best_time {
            best = key;
            best_time = conn.last_active;
        }
        i = i + 1;
    }
    proof {
        table.lemma_walk();
    }
    Some(best)
}

/// Drops a connection that was active longest ago.
fn evict<W>(table: &mut ConnTable<TcpConn<W>>)
    requires
        old(table).wf(),
        old(table)@.len() > 0,
    ensures
        final(table).wf(),
        evicts_oldest(old(table)@, final(table)@),
        final(table)@.len() == old(table)@.len() - 1,
{
    let _ = table.len();
    match oldest(table) {
        Some(k) => {
            table.remove(&k);
            assert(is_oldest(old(table)@, k));
        },
        None => {},
    }
}

/// Whether `after` and `action` are what a packet of a TCP flow with `len` bytes
/// makes of `before`.
pub open spec fn tcp_handled<W>(
    before: Map<ConnKey, TcpConn<W>>,
    after: Map<ConnKey, TcpConn<W>>,
    hdr: IpHeader,
    len: nat,
    rev_key: ConnKey,
    now: u64,
    action: TcpAction,
) -> bool {
    if before.contains_key(rev_key) {
        &&& after == before.insert(rev_key, heard(before[rev_key], now, hdr.tcp_seq, len))
        &&& action == (if len == 0 {
            TcpAction::Idle
        } else {
            TcpAction::Forward
        })
    } else {
        match target_of(hdr) {
            None => after == before && action == TcpAction::Ignore,
            Some(target) => {
                &&& action == TcpAction::Connect(target)
                &&& if before.len() < MAX_CONNECTIONS {
                    after == before
                } else {
                    evicts_oldest(before, after)
                }
            },
        }
    }
}

/// Handles a packet of a TCP flow. A packet of a known flow is noted; one of an
/// unknown flow asks for a connection, for which room is made.
pub fn handle_tcp_packet<W>(
    tcp_connections: &mut ConnTable<TcpConn<W>>,
    hdr: &IpHeader,
    payload: &[u8],
    rev_key: &ConnKey,
    now: u64,
) -> (r: TcpAction)
    requires
        old(tcp_connections).wf(),
    ensures
        final(tcp_connections).wf(),
        tcp_handled(
            old(tcp_connections)@,
            final(tcp_connections)@,
            *hdr,
            payload@.len(),
            *rev_key,
            now,
            r,
        ),
{
    match tcp_connections.get_mut(rev_key) {
        Some(conn) => {
            conn.last_active = now;
            if payload.len() > 0 {
                conn.client_seq = advance(hdr.tcp_seq, payload.len());
                return TcpAction::Forward;
            }
            return TcpAction::Idle;
        },
        None => {},
    }
    match target(hdr) {
        Some(target) => {
            if tcp_connections.len() >= MAX_CONNECTIONS {
                evict(tcp_connections);
            }
            TcpAction::Connect(target)
        },
        None => TcpAction::Ignore,
    }
}

/// What an attempt to connect the relay socket calls for.
#[derive(Debug, Clone, Copy, PartialEq, Eq, Structural)]
pub enum RelayStep {
    Use,
    Retry,
    Fail,
}

/// What follows an attempt to connect the relay socket for UDP.
pub open spec fn relay_step(outcome: ConnectOutcome, retried: bool) -> RelayStep {
    if outcome == ConnectOutcome::Connected {
        RelayStep::Use
    } else if retried {
        RelayStep::Fail
    } else {
        RelayStep::Retry
    }
}

/// Decides what follows an attempt to connect the relay socket for UDP. A
/// failed attempt is repeated once.
pub fn after_relay_connect(outcome: ConnectOutcome, retried: bool) -> (r: RelayStep)
    ensures
        r == relay_step(outcome, retried),
{
    match outcome {
        ConnectOutcome::Connected => RelayStep::Use,
        _ => {
            if retried {
                RelayStep::Fail
            } else {
                RelayStep::Retry
            }
        },
    }
}

/// The connections after a write to the stream of a flow: one that failed is gone.
pub open spec fn after_forward<W>(
    m: Map<ConnKey, TcpConn<W>>,
    rev_key: ConnKey,
    written: bool,
) -> Map<ConnKey, TcpConn<W>> {
    if written {
        m
    } else {
        m.remove(rev_key)
    }
}

/// Takes note of a write to the stream of a flow: a stream that fails is dropped.
pub fn finish_forward<W>(
    tcp_connections: &mut ConnTable<TcpConn<W>>,
    rev_key: &ConnKey,
    written: bool,
)
    requires
        old(tcp_connections).wf(),
    ensures
        final(tcp_connections).wf(),
        final(tcp_connections)@ == after_forward(old(tcp_connections)@, *rev_key, written),
{
    if !written {
        tcp_connections.remove(rev_key);
    }
}

/// What came of a connection attempt.
#[derive(Debug, Clone, Copy, PartialEq, Eq, Structural)]
pub enum ConnectOutcome {
    Connected,
    Failed,
    TimedOut,
}

/// What a connection attempt calls for.
#[derive(Debug, Clone, Copy, PartialEq, Eq, Structural)]
pub enum ConnectStep {
    /// Drop the flow.
    Drop,
    /// Write the payload that asked for the connection, then report.
    WriteFirst,
    /// Keep the connection.
    Keep,
}

/// What follows a connection attempt for a packet with `len` bytes.
pub open spec fn connect_step(outcome: ConnectOutcome, len: nat) -> ConnectStep {
    if outcome != ConnectOutcome::Connected {
        ConnectStep::Drop
    } else if len == 0 {
        ConnectStep::Keep
    } else {
        ConnectStep::WriteFirst
    }
}

/// Decides what follows a connection attempt. Data that came with the first
/// packet is written before the connection is kept.
pub fn after_connect(outcome: ConnectOutcome, payload: &[u8]) -> (r: ConnectStep)
    ensures
        r == connect_step(outcome, payload@.len()),
{
    match outcome {
        ConnectOutcome::Connected => {
            if payload.len() == 0 {
                ConnectStep::Keep
            } else {
                ConnectStep::WriteFirst
            }
        },
        ConnectOutcome::Failed => ConnectStep::Drop,
        ConnectOutcome::TimedOut => ConnectStep::Drop,
    }
}

/// What follows the first write.
pub open spec fn first_write_step(written: bool) -> ConnectStep {
    if written {
        ConnectStep::Keep
    } else {
        ConnectStep::Drop
    }
}

/// Decides what follows the first write.
pub fn after_first_write(written: bool) -> (r: ConnectStep)
    ensures
        r == first_write_step(written),
{
    if written {
        ConnectStep::Keep
    } else {
        ConnectStep::Drop
    }
}

/// The connections with one that was made for a packet.
pub open spec fn with_connection<W>(
    m: Map<ConnKey, TcpConn<W>>,
    hdr: IpHeader,
    rev_key: ConnKey,
    write_half: W,
    now: u64,
) -> Map<ConnKey, TcpConn<W>> {
    m.insert(rev_key, TcpConn { write_half, last_active: now, client_seq: hdr.tcp_seq })
}

/// The reader of a connection that was made for a packet.
pub open spec fn first_reader(hdr: IpHeader, rev_key: ConnKey, server_isn: u32) -> TcpReader {
    TcpReader { orig_hdr: hdr, rev_key, client_seq: hdr.tcp_seq, server_seq: server_isn }
}

/// Keeps a connection that was made for a packet, and starts its reader with
/// the server's first sequence number.
pub fn keep_connection<W>(
    tcp_connections: &mut ConnTable<TcpConn<W>>,
    hdr: &IpHeader,
    rev_key: &ConnKey,
    write_half: W,
    now: u64,
    server_isn: u32,
) -> (r: TcpReader)
    requires
        old(tcp_connections).wf(),
    ensures
        final(tcp_connections).wf(),
        final(tcp_connections)@ == with_connection(
            old(tcp_connections)@,
            *hdr,
            *rev_key,
            write_half,
            now,
        ),
        r == first_reader(*hdr, *rev_key, server_isn),
{
    tcp_connections.insert(
        *rev_key,
        TcpConn { write_half, last_active: now, client_seq: hdr.tcp_seq },
    );
    TcpReader {
        orig_hdr: *hdr,
        rev_key: *rev_key,
        client_seq: hdr.tcp_seq,
        server_seq: server_isn,
    }
}

/// State of the reader of a TCP connection, which turns what the server sends
/// into packets for the client.
#[derive(Debug, Clone, Copy, PartialEq, Eq, Structural)]
pub struct TcpReader {
    /// Original client packet for src/dst
    pub orig_hdr: IpHeader,
    pub rev_key: ConnKey,
    /// Client's current seq (for ACK in response)
    pub client_seq: u32,
    /// Server's current seq (incremented per response)
    pub server_seq: u32,
}

/// What came of reading from the server.
pub enum StreamRead<'a> {
    /// Data, or the end of the stream where there is none.
    Data(&'a [u8]),
    Failed,
}

/// What a read calls for.
pub enum ReaderStep {
    /// Write a packet to the interface, and read on.
    Write(Vec<u8>),
    /// Stop reading: the stream has ended or failed.
    Stop,
    /// Stop reading: no packet can be built.
    Refuse(TunnelError),
}

/// What a read calls for, and what becomes of the reader: data goes on in a packet
/// and moves the sequence number behind it, and all else stops the reader.
pub open spec fn is_reader_step(
    before: TcpReader,
    after: TcpReader,
    read: StreamRead<'_>,
    step: ReaderStep,
) -> bool {
    match read {
        StreamRead::Data(data) => if data@.len() == 0 {
            step is Stop && after == before
        } else {
            match before.packet(data@) {
                Ok(pkt) => {
                    &&& step is Write
                    &&& step->Write_0@ == pkt
                    &&& after == before.advanced(data@.len())
                },
                Err(e) => step is Refuse && step->Refuse_0 == e && after == before,
            }
        },
        StreamRead::Failed => step is Stop && after == before,
    }
}

impl TcpReader {
    /// Whether packets can be tried: over IPv6, both addresses are of one family.
    pub open spec fn wf(&self) -> bool {
        self.orig_hdr.version == 6 ==> same_family(self.orig_hdr.src, self.orig_hdr.dst)
    }

    /// The packet that carries `data` to the client.
    pub open spec fn packet(&self, data: Seq<u8>) -> Result<Seq<u8>, TunnelError> {
        tcp_response(data, self.orig_hdr, self.rev_key, self.server_seq, self.client_seq)
    }

    /// The reader after `len` bytes were sent on.
    pub open spec fn advanced(&self, len: nat) -> TcpReader {
        TcpReader { server_seq: seq_after(self.server_seq, len), ..*self }
    }

    /// Takes a read from the server.
    pub fn on_read(&mut self, read: StreamRead<'_>) -> (r: ReaderStep)
        requires
            old(self).wf(),
        ensures
            final(self).wf(),
            is_reader_step(*old(self), *final(self), read, r),
    {
        match read {
            StreamRead::Data(data) => {
                if data.len() == 0 {
                    return ReaderStep::Stop;
                }
                let built = build_tcp_response_packet(
                    data,
                    &self.orig_hdr,
                    &self.rev_key,
                    self.server_seq,
                    self.client_seq,
                );
                match built {
                    Ok(pkt) => {
                        self.server_seq = advance(self.server_seq, data.len());
                        ReaderStep::Write(pkt)
                    },
                    Err(e) => ReaderStep::Refuse(e),
                }
            },
            StreamRead::Failed => ReaderStep::Stop,
        }
    }
}

/// Metadata for a UDP connection (needed to build response packets).
#[derive(Debug, Clone, Copy, PartialEq, Eq, Structural)]
pub struct UdpConnMeta {
    pub hdr: IpHeader,
    pub rev_key: ConnKey,
}

/// Whether a response can be tried for every flow.
pub open spec fn all_answerable(m: Map<ConnKey, UdpConnMeta>) -> bool {
    forall|k: ConnKey| #[trigger] m.contains_key(k) ==> answerable(m[k].hdr)
}

/// What a packet of a UDP flow calls for.
#[derive(Debug, Clone, Copy, PartialEq, Eq, Structural)]
pub enum UdpAction {
    /// Nothing: there is no usable target or no data.
    Ignore,
    /// Send the payload to the target through the relay socket.
    Send(Endpoint),
}

/// Whether `after` and `action` are what a packet of a UDP flow with `len` bytes
/// makes of the TCP connections in `before`, with `flows` UDP flows.
pub open spec fn udp_handled<W>(
    before: Map<ConnKey, TcpConn<W>>,
    after: Map<ConnKey, TcpConn<W>>,
    flows: nat,
    hdr: IpHeader,
    len: nat,
    action: UdpAction,
) -> bool {
    match target_of(hdr) {
        Some(target) if len > 0 => {
            &&& action == UdpAction::Send(target)
            &&& if before.len() + flows >= MAX_CONNECTIONS && before.len() > 0 {
                evicts_oldest(before, after)
            } else {
                after == before
            }
        },
        _ => action == UdpAction::Ignore && after == before,
    }
}

/// The UDP flows with that of a packet.
pub open spec fn with_flow(
    m: Map<ConnKey, UdpConnMeta>,
    hdr: IpHeader,
    rev_key: ConnKey,
) -> Map<ConnKey, UdpConnMeta> {
    m.insert(rev_key, UdpConnMeta { hdr, rev_key })
}

/// Handles a packet of a UDP flow. The flow is noted whatever the packet holds.
/// Flows of both protocols count against the limit, but only TCP connections
/// are evicted.
pub fn handle_udp_packet<W>(
    udp_connections: &mut ConnTable<UdpConnMeta>,
    tcp_connections: &mut ConnTable<TcpConn<W>>,
    hdr: &IpHeader,
    payload: &[u8],
    rev_key: &ConnKey,
) -> (r: UdpAction)
    requires
        old(udp_connections).wf(),
        old(tcp_connections).wf(),
    ensures
        final(udp_connections).wf(),
        final(tcp_connections).wf(),
        final(udp_connections)@ == with_flow(old(udp_connections)@, *hdr, *rev_key),
        udp_handled(
            old(tcp_connections)@,
            final(tcp_connections)@,
            final(udp_connections)@.len(),
            *hdr,
            payload@.len(),
            r,
        ),
{
    udp_connections.insert(*rev_key, UdpConnMeta { hdr: *hdr, rev_key: *rev_key });
    match target(hdr) {
        Some(target) => {
            if payload.len() == 0 {
                return UdpAction::Ignore;
            }
            let tcp: usize = tcp_connections.len();
            let udp: usize = udp_connections.len();
            if (tcp >= MAX_CONNECTIONS || udp >= MAX_CONNECTIONS - tcp) && tcp > 0 {
                evict(tcp_connections);
            }
            UdpAction::Send(target)
        },
        None => UdpAction::Ignore,
    }
}

/// Whether a flow is one that datagrams from an address and a port belong to.
pub open spec fn comes_from(meta: UdpConnMeta, ip: IpAddr, port: u16) -> bool {
    meta.hdr.dst == ip && meta.hdr.dst_port == port
}

/// Finds a UDP flow by destination address. Where several match, any of them
/// is found.
pub fn find_udp_flow(udp_connections: &ConnTable<UdpConnMeta>, ip: IpAddr, port: u16) -> (r: Option<
    UdpConnMeta,
>)
    requires
        udp_connections.wf(),
    ensures
        match r {
            Some(meta) => comes_from(meta, ip, port) && exists|k: ConnKey| #[trigger]
                udp_connections@.contains_key(k) && udp_connections@[k] == meta,
            None => forall|k: ConnKey| #[trigger]
                udp_connections@.contains_key(k) ==> !comes_from(udp_connections@[k], ip, port),
        },
{
    let n: usize = udp_connections.len();
    let mut i: usize = 0;
    while i < n
        invariant
            udp_connections.wf(),
            n == udp_connections@.len(),
            i <= n,
            forall|j: int|
                0 <= j < i ==> !comes_from(
                    udp_connections@[#[trigger] udp_connections.key_at(j)],
                    ip,
                    port,
                ),
        decreases n - i,
    {
        let (_, meta) = udp_connections.entry_at(i);
        if meta.hdr.dst == ip && meta.hdr.dst_port == port {
            return Some(*meta);
        }
        i = i + 1;
    }
    proof {
        udp_connections.lemma_walk();
    }
    None
}

/// Where a datagram from the server comes from.
pub enum DatagramSource {
    Address(Endpoint),
    /// A host name and a port.
    Domain(String, u16),
}

/// Whether `r` answers a datagram: with a response packet of a flow that it
/// belongs to, where there is one that a packet can be built for.
pub open spec fn is_udp_answer(
    m: Map<ConnKey, UdpConnMeta>,
    from: DatagramSource,
    payload: Seq<u8>,
    r: Option<Seq<u8>>,
) -> bool {
    match from {
        DatagramSource::Address(at) => if exists|k: ConnKey| #[trigger]
            m.contains_key(k) && comes_from(m[k], at.ip, at.port) {
            exists|k: ConnKey| #[trigger]
                m.contains_key(k) && comes_from(m[k], at.ip, at.port) && r == ok_of(
                    response(payload, m[k].hdr, m[k].rev_key),
                )
        } else {
            r is None
        },
        DatagramSource::Domain(_, _) => r is None,
    }
}

/// The packet of a result, where it is one.
pub open spec fn ok_of(r: Result<Seq<u8>, TunnelError>) -> Option<Seq<u8>> {
    match r {
        Ok(pkt) => Some(pkt),
        Err(_) => None,
    }
}

/// Turns a datagram from the server into a packet for the client. Datagrams
/// from a host name, or of no known flow, are skipped.
pub fn answer_datagram(
    udp_connections: &ConnTable<UdpConnMeta>,
    from: &DatagramSource,
    payload: &[u8],
) -> (r: Option<Vec<u8>>)
    requires
        udp_connections.wf(),
        all_answerable(udp_connections@),
    ensures
        is_udp_answer(
            udp_connections@,
            *from,
            payload@,
            match r {
                Some(pkt) => Some(pkt@),
                None => None,
            },
        ),
{
    match from {
        DatagramSource::Address(at) => match find_udp_flow(udp_connections, at.ip, at.port) {
            Some(meta) => {
                match build_response_packet(payload, &meta.hdr, &meta.rev_key) {
                    Ok(pkt) => Some(pkt),
                    Err(_) => None,
                }
            },
            None => None,
        },
        DatagramSource::Domain(_, _) => None,
    }
}

} // verus!
