use ssroute::addr::IpAddr;
use ssroute::conn::ConnTable;
use ssroute::packet::{parse_ip_packet, ConnKey, IpHeader};
use ssroute::tunnel::{
    advance, after_connect, after_first_write, after_relay_connect, answer_datagram,
    find_udp_flow, finish_forward, handle_tcp_packet, handle_udp_packet, keep_connection,
    read_packet, target, ConnectOutcome, ConnectStep, DatagramSource, Endpoint, Incoming,
    ReaderStep, RelayStep, StreamRead, TcpAction, TcpConn, TcpReader, UdpAction, UdpConnMeta,
    MAX_CONNECTIONS,
};

fn header(src_port: u16, dst: &str, dst_port: u16, protocol: u8) -> IpHeader {
    let dst = IpAddr::parse(dst).unwrap();
    IpHeader {
        version: if dst.is_ipv4() { 4 } else { 6 },
        src: if dst.is_ipv4() { IpAddr::V4(0x0a00_0001) } else { IpAddr::V6(1) },
        dst,
        protocol,
        header_len: if dst.is_ipv4() { 20 } else { 40 },
        src_port,
        dst_port,
        tcp_flags: 0x18,
        tcp_seq: 1000,
        tcp_ack: 0,
    }
}

fn reply(hdr: &IpHeader) -> ConnKey {
    ConnKey::from_ip(hdr, hdr.src_port, hdr.dst_port).reversed()
}

fn endpoint(ip: &str, port: u16) -> Endpoint {
    Endpoint { ip: IpAddr::parse(ip).unwrap(), port }
}

#[test]
fn packets_are_told_apart() {
    let mut pkt = vec![0u8; 30];
    pkt[0] = 0x45;
    pkt[9] = 17;
    pkt[12..16].copy_from_slice(&[10, 0, 0, 1]);
    pkt[16..20].copy_from_slice(&[8, 8, 8, 8]);
    pkt[20..24].copy_from_slice(&[0xc3, 0x50, 0x00, 0x35]);
    pkt[28] = 0xaa;
    match read_packet(&pkt) {
        Incoming::Udp(f) => {
            assert_eq!(f.hdr, parse_ip_packet(&pkt).unwrap());
            assert_eq!(f.rev_key, reply(&f.hdr));
            assert_eq!(f.payload, &pkt[20..]);
            assert_eq!(target(&f.hdr), Some(endpoint("8.8.8.8", 53)));
        }
        _ => panic!("no flow"),
    }
    // An echo request.
    pkt[9] = 1;
    pkt[20] = 8;
    match read_packet(&pkt) {
        Incoming::Echo(r) => {
            assert_eq!(&r[12..20], &[8, 8, 8, 8, 10, 0, 0, 1]);
            assert_eq!(r[20], 0);
        }
        _ => panic!("no echo"),
    }
    // An echo reply.
    pkt[20] = 0;
    assert!(matches!(read_packet(&pkt), Incoming::Other));
    assert!(matches!(read_packet(&[]), Incoming::Other));
}

#[test]
fn targets_are_of_the_packet_version() {
    let mut hdr = header(1, "::5", 2, 6);
    assert_eq!(target(&hdr), Some(endpoint("::5", 2)));
    hdr.version = 4;
    assert_eq!(target(&hdr), None);
}

#[test]
fn a_new_flow_connects() {
    let mut table: ConnTable<TcpConn<&str>> = ConnTable::new();
    let hdr = header(1, "1.2.3.4", 443, 6);
    let key = reply(&hdr);
    let action = handle_tcp_packet(&mut table, &hdr, &[1, 2, 3], &key, 50);
    assert_eq!(action, TcpAction::Connect(endpoint("1.2.3.4", 443)));
    assert_eq!(table.len(), 0);

    let reader = keep_connection(&mut table, &hdr, &key, "stream", 51, 7);
    assert_eq!(reader, TcpReader { orig_hdr: hdr, rev_key: key, client_seq: 1000, server_seq: 7 });
    let conn = table.get(&key).unwrap();
    assert_eq!(conn.write_half, "stream");
    assert_eq!(conn.last_active, 51);
    assert_eq!(conn.client_seq, 1000);
}

#[test]
fn a_known_flow_forwards() {
    let mut table: ConnTable<TcpConn<&str>> = ConnTable::new();
    let mut hdr = header(1, "1.2.3.4", 443, 6);
    let key = reply(&hdr);
    keep_connection(&mut table, &hdr, &key, "stream", 0, 0);

    hdr.tcp_seq = u32::MAX;
    assert_eq!(handle_tcp_packet(&mut table, &hdr, &[1, 2, 3], &key, 9), TcpAction::Forward);
    assert_eq!(table.get(&key).unwrap().client_seq, 2);
    assert_eq!(table.get(&key).unwrap().last_active, 9);

    hdr.tcp_seq = 5;
    assert_eq!(handle_tcp_packet(&mut table, &hdr, &[], &key, 10), TcpAction::Idle);
    assert_eq!(table.get(&key).unwrap().client_seq, 2);
    assert_eq!(table.get(&key).unwrap().last_active, 10);

    finish_forward(&mut table, &key, true);
    assert!(table.contains(&key));
    finish_forward(&mut table, &key, false);
    assert!(!table.contains(&key));
}

#[test]
fn a_flow_without_target_is_ignored() {
    let mut table: ConnTable<TcpConn<&str>> = ConnTable::new();
    let mut hdr = header(1, "1.2.3.4", 443, 6);
    hdr.version = 6;
    let key = reply(&hdr);
    assert_eq!(handle_tcp_packet(&mut table, &hdr, &[1], &key, 0), TcpAction::Ignore);
}

#[test]
fn the_oldest_flow_makes_room() {
    let mut table: ConnTable<TcpConn<u16>> = ConnTable::new();
    for n in 0..MAX_CONNECTIONS as u16 {
        let hdr = header(n, "1.2.3.4", 443, 6);
        // The flow from port 100 is the oldest.
        let time = if n == 100 { 1 } else { 2 + n as u64 };
        keep_connection(&mut table, &hdr, &reply(&hdr), n, time, 0);
    }
    let known = header(5, "1.2.3.4", 443, 6);
    handle_tcp_packet(&mut table, &known, &[1], &reply(&known), 9999);
    assert_eq!(table.len(), MAX_CONNECTIONS);

    let hdr = header(60000, "1.2.3.4", 443, 6);
    let action = handle_tcp_packet(&mut table, &hdr, &[1], &reply(&hdr), 10_000);
    assert_eq!(action, TcpAction::Connect(endpoint("1.2.3.4", 443)));
    assert_eq!(table.len(), MAX_CONNECTIONS - 1);
    assert!(!table.contains(&reply(&header(100, "1.2.3.4", 443, 6))));
    keep_connection(&mut table, &hdr, &reply(&hdr), 60000, 10_001, 0);
    assert_eq!(table.len(), MAX_CONNECTIONS);

    // A UDP flow counts too, and takes the next oldest.
    let mut flows: ConnTable<UdpConnMeta> = ConnTable::new();
    let udp = header(7, "8.8.8.8", 53, 17);
    handle_udp_packet(&mut flows, &mut table, &udp, &[1], &reply(&udp));
    assert_eq!(table.len(), MAX_CONNECTIONS - 1);
    assert!(!table.contains(&reply(&header(0, "1.2.3.4", 443, 6))));
    // There is one of each again at the limit.
    handle_udp_packet(&mut flows, &mut table, &udp, &[1], &reply(&udp));
    assert_eq!(table.len(), MAX_CONNECTIONS - 2);
    handle_udp_packet(&mut flows, &mut table, &udp, &[1], &reply(&udp));
    assert_eq!(table.len(), MAX_CONNECTIONS - 2);
}

#[test]
fn udp_flows_are_noted() {
    let mut tcp: ConnTable<TcpConn<u16>> = ConnTable::new();
    let mut udp: ConnTable<UdpConnMeta> = ConnTable::new();
    let hdr = header(7, "8.8.8.8", 53, 17);
    let key = reply(&hdr);
    assert_eq!(handle_udp_packet(&mut udp, &mut tcp, &hdr, &[], &key), UdpAction::Ignore);
    assert_eq!(udp.get(&key), Some(&UdpConnMeta { hdr, rev_key: key }));
    assert_eq!(
        handle_udp_packet(&mut udp, &mut tcp, &hdr, &[1], &key),
        UdpAction::Send(endpoint("8.8.8.8", 53))
    );
    assert_eq!(udp.len(), 1);
    let mut odd = hdr;
    odd.version = 6;
    assert_eq!(handle_udp_packet(&mut udp, &mut tcp, &odd, &[1], &reply(&odd)), UdpAction::Ignore);
    assert_eq!(udp.len(), 2);
}

#[test]
fn datagrams_return_to_their_flow() {
    let mut tcp: ConnTable<TcpConn<u16>> = ConnTable::new();
    let mut udp: ConnTable<UdpConnMeta> = ConnTable::new();
    let dns = header(7, "8.8.8.8", 53, 17);
    let ntp = header(8, "2001:db8::1", 123, 17);
    handle_udp_packet(&mut udp, &mut tcp, &dns, &[1], &reply(&dns));
    handle_udp_packet(&mut udp, &mut tcp, &ntp, &[1], &reply(&ntp));

    let pkt = answer_datagram(&udp, &DatagramSource::Address(endpoint("8.8.8.8", 53)), &[5, 6])
        .unwrap();
    let back = parse_ip_packet(&pkt).unwrap();
    assert_eq!(back.src, dns.dst);
    assert_eq!(back.dst, dns.src);
    assert_eq!((back.src_port, back.dst_port), (53, 7));
    assert_eq!(&pkt[28..], &[5, 6]);

    let pkt =
        answer_datagram(&udp, &DatagramSource::Address(endpoint("2001:db8::1", 123)), &[5])
            .unwrap();
    assert_eq!(pkt[0], 0x60);
    assert_eq!(&pkt[40..44], &[0, 123, 0, 8]);

    assert!(find_udp_flow(&udp, IpAddr::V4(0x0808_0808), 54).is_none());
    assert!(answer_datagram(&udp, &DatagramSource::Address(endpoint("8.8.8.9", 53)), &[5])
        .is_none());
    assert!(answer_datagram(&udp, &DatagramSource::Domain("dns".to_string(), 53), &[5]).is_none());
}

#[test]
fn connection_attempts() {
    assert_eq!(after_connect(ConnectOutcome::Connected, &[1]), ConnectStep::WriteFirst);
    assert_eq!(after_connect(ConnectOutcome::Connected, &[]), ConnectStep::Keep);
    assert_eq!(after_connect(ConnectOutcome::Failed, &[1]), ConnectStep::Drop);
    assert_eq!(after_connect(ConnectOutcome::TimedOut, &[]), ConnectStep::Drop);
    assert_eq!(after_first_write(true), ConnectStep::Keep);
    assert_eq!(after_first_write(false), ConnectStep::Drop);
    assert_eq!(after_relay_connect(ConnectOutcome::Connected, false), RelayStep::Use);
    assert_eq!(after_relay_connect(ConnectOutcome::TimedOut, false), RelayStep::Retry);
    assert_eq!(after_relay_connect(ConnectOutcome::Failed, true), RelayStep::Fail);
}

#[test]
fn the_stream_is_numbered_without_a_gap() {
    let hdr = header(1, "1.2.3.4", 443, 6);
    let start = u32::MAX - 1;
    let mut reader =
        TcpReader { orig_hdr: hdr, rev_key: reply(&hdr), client_seq: 1000, server_seq: start };
    let mut sent: u32 = 0;
    for chunk in [&[1u8, 2, 3][..], &[4][..], &[5, 6][..]] {
        match reader.on_read(StreamRead::Data(chunk)) {
            ReaderStep::Write(pkt) => {
                let back = parse_ip_packet(&pkt).unwrap();
                assert_eq!(back.tcp_seq, start.wrapping_add(sent));
                assert_eq!(back.tcp_ack, 1000);
                assert_eq!(&pkt[40..], chunk);
            }
            _ => panic!("no packet"),
        }
        sent += chunk.len() as u32;
    }
    assert_eq!(reader.server_seq, start.wrapping_add(6));
    assert!(matches!(reader.on_read(StreamRead::Data(&[])), ReaderStep::Stop));
    assert!(matches!(reader.on_read(StreamRead::Failed), ReaderStep::Stop));
    assert_eq!(reader.server_seq, 4);
    reader.orig_hdr.version = 9;
    assert!(matches!(reader.on_read(StreamRead::Data(&[1])), ReaderStep::Refuse(_)));
    assert_eq!(advance(5, 0x1_0000_0001), 6);
}

#[test]
fn large_pings_are_answered() {
    for high in [6, 17] {
        let mut pkt = vec![0u8; 60];
        pkt[0] = 0x60;
        pkt[4] = high;
        pkt[6] = 58;
        pkt[23] = 1;
        pkt[39] = 2;
        pkt[40] = 128;
        assert!(parse_ip_packet(&pkt).is_some());
        match read_packet(&pkt) {
            Incoming::Echo(r) => {
                assert_eq!((r[23], r[39], r[40]), (2, 1, 129));
                assert_eq!(r.len(), 60);
            }
            _ => panic!("no echo"),
        }
        // Anything else with that byte is a flow.
        pkt[40] = 129;
        match read_packet(&pkt) {
            Incoming::Tcp(f) => assert_eq!((f.hdr.protocol, high), (6, 6)),
            Incoming::Udp(f) => assert_eq!((f.hdr.protocol, high), (17, 17)),
            _ => panic!("no flow"),
        }
    }
}
