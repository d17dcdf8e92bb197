use ssroute::addr::IpAddr;
use ssroute::packet::{
    ipv4_addr_from_bytes, ipv6_addr_from_bytes, parse_ip_packet, ConnKey, IpHeader,
};

#[test]
fn test_parse_ipv4_tcp_packet() {
    let mut pkt = vec![0u8; 40];
    pkt[0] = 0x45;
    pkt[9] = 6; // TCP
    // src: 10.0.0.1
    pkt[12..16].copy_from_slice(&[10, 0, 0, 1]);
    // dst: 1.2.3.4
    pkt[16..20].copy_from_slice(&[1, 2, 3, 4]);
    // src port: 12345
    pkt[20..22].copy_from_slice(&[0x30, 0x39]);
    // dst port: 443
    pkt[22..24].copy_from_slice(&[0x01, 0xbb]);

    let hdr = parse_ip_packet(&pkt).expect("parse IPv4 TCP");
    assert_eq!(hdr.version, 4);
    assert_eq!(hdr.protocol, 6);
    assert_eq!(hdr.header_len, 20);
    assert_eq!(hdr.src_port, 12345);
    assert_eq!(hdr.dst_port, 443);
}

#[test]
fn test_parse_ipv4_udp_packet() {
    let mut pkt = vec![0u8; 28];
    pkt[0] = 0x45;
    pkt[9] = 17; // UDP
    // src: 192.168.1.100
    pkt[12..16].copy_from_slice(&[192, 168, 1, 100]);
    // dst: 8.8.8.8
    pkt[16..20].copy_from_slice(&[8, 8, 8, 8]);
    // src port: 50000
    pkt[20..22].copy_from_slice(&[0xc3, 0x50]);
    // dst port: 53
    pkt[22..24].copy_from_slice(&[0x00, 0x35]);

    let hdr = parse_ip_packet(&pkt).expect("parse IPv4 UDP");
    assert_eq!(hdr.version, 4);
    assert_eq!(hdr.protocol, 17);
    assert_eq!(hdr.src_port, 50000);
    assert_eq!(hdr.dst_port, 53);
}

#[test]
fn test_parse_ipv6_tcp_packet() {
    let mut pkt = vec![0u8; 60];
    pkt[0] = 0x60; // version=6
    // src: 2001:df8::1
    pkt[8..24].copy_from_slice(&[
        0x20, 0x01, 0x0d, 0xf8, 0x00, 0x01, 0x00, 0x00, 0x00, 0x00, 0x00, 0x00, 0x00, 0x00, 0x00,
        0x01,
    ]);
    // dst: 2001:df8::2
    pkt[24..40].copy_from_slice(&[
        0x20, 0x01, 0x0d, 0xf8, 0x00, 0x02, 0x00, 0x00, 0x00, 0x00, 0x00, 0x00, 0x00, 0x00, 0x00,
        0x02,
    ]);
    pkt[4] = 6; // Next header = TCP
    // src port: 54321
    pkt[40..42].copy_from_slice(&[0xd4, 0x31]);
    // dst port: 443
    pkt[42..44].copy_from_slice(&[0x01, 0xbb]);

    let hdr = parse_ip_packet(&pkt).expect("parse IPv6 TCP");
    assert_eq!(hdr.version, 6);
    assert_eq!(hdr.protocol, 6);
    assert!(matches!(hdr.src, IpAddr::V6(_)));
    assert!(matches!(hdr.dst, IpAddr::V6(_)));
    assert_eq!(hdr.src_port, 54321);
    assert_eq!(hdr.dst_port, 443);
}

#[test]
fn test_parse_ipv6_udp_packet() {
    let mut pkt = vec![0u8; 48];
    pkt[0] = 0x60;
    // src: fe80::1
    pkt[8..24].copy_from_slice(&[
        0xfe, 0x80, 0x00, 0x00, 0x00, 0x00, 0x00, 0x00, 0x00, 0x00, 0x00, 0x00, 0x00, 0x00, 0x00,
        0x01,
    ]);
    // dst: 2001:df8::1
    pkt[24..40].copy_from_slice(&[
        0x20, 0x01, 0x0d, 0xf8, 0x00, 0x01, 0x00, 0x00, 0x00, 0x00, 0x00, 0x00, 0x00, 0x00, 0x00,
        0x01,
    ]);
    pkt[4] = 17; // Next header = UDP
    // src port: 50000
    pkt[40..42].copy_from_slice(&[0xc3, 0x50]);
    // dst port: 1234
    pkt[42..44].copy_from_slice(&[0x04, 0xd2]);

    let hdr = parse_ip_packet(&pkt).expect("parse IPv6 UDP");
    assert_eq!(hdr.version, 6);
    assert_eq!(hdr.protocol, 17);
    assert_eq!(hdr.src_port, 50000);
    assert_eq!(hdr.dst_port, 1234);
}

#[test]
fn test_parse_too_short_packet() {
    let pkt = vec![0u8; 39];
    assert!(parse_ip_packet(&pkt).is_none());
}

#[test]
fn test_parse_invalid_version() {
    let mut pkt = vec![0u8; 40];
    pkt[0] = 0x35; // version 3
    assert!(parse_ip_packet(&pkt).is_none());
}

#[test]
fn test_parse_null_protocol_ignored() {
    let mut pkt = vec![0u8; 40];
    pkt[0] = 0x45;
    pkt[9] = 1; // ICMP
    assert!(parse_ip_packet(&pkt).is_none());
}

#[test]
fn test_conn_key_reversed() {
    let hdr = IpHeader {
        version: 4,
        src: IpAddr::parse("10.0.0.1").unwrap(),
        dst: IpAddr::parse("1.2.3.4").unwrap(),
        protocol: 6,
        header_len: 20,
        src_port: 1234,
        dst_port: 5678,
        tcp_flags: 0,
        tcp_seq: 0,
        tcp_ack: 0,
    };
    let key = ConnKey::from_ip(&hdr, hdr.src_port, hdr.dst_port);
    let rev = key.reversed();

    assert_eq!(rev.src_ip, key.dst_ip);
    assert_eq!(rev.dst_ip, key.src_ip);
    assert_eq!(rev.sport, key.dport);
    assert_eq!(rev.dport, key.sport);
    assert_eq!(rev.proto, key.proto);
    assert_eq!(rev.version, key.version);
    assert_eq!(rev.reversed(), key);
}

#[test]
fn test_parse_ip_options_ignored() {
    // IHL > 5 means IP options, skip parsing (ihl >= 20 but > 40 bytes needed for TCP)
    let mut pkt = vec![0u8; 40];
    pkt[0] = 0x46; // IHL=6 (24 bytes IP header) — still less than 40
    // protocol is TCP but we need at least 40 bytes total with TCP header
    // With IHL=6, transport_start=24, TCP header at 24..44 but buf only has 40 bytes
    assert!(parse_ip_packet(&pkt).is_none());
}

#[test]
fn options_before_a_whole_header_are_skipped() {
    let mut pkt = vec![0u8; 44];
    pkt[0] = 0x46;
    pkt[9] = 6;
    pkt[24..28].copy_from_slice(&[0x00, 0x50, 0x1f, 0x90]);
    pkt[28..32].copy_from_slice(&[0, 0, 1, 2]);
    pkt[32..36].copy_from_slice(&[0, 3, 0, 0]);
    pkt[37] = 0x12;
    let hdr = parse_ip_packet(&pkt).unwrap();
    assert_eq!(hdr.header_len, 24);
    assert_eq!(hdr.src_port, 80);
    assert_eq!(hdr.dst_port, 8080);
    assert_eq!(hdr.tcp_seq, 0x102);
    assert_eq!(hdr.tcp_ack, 0x3_0000);
    assert_eq!(hdr.tcp_flags, 0x12);
}

#[test]
fn transport_header_must_be_whole() {
    let mut pkt = vec![0u8; 39];
    pkt[0] = 0x45;
    pkt[9] = 6;
    assert!(parse_ip_packet(&pkt).is_none());
    pkt[9] = 17;
    assert!(parse_ip_packet(&pkt).is_some());
    assert!(parse_ip_packet(&pkt[..27]).is_none());
}

#[test]
fn header_length_must_fit() {
    let mut pkt = vec![0u8; 60];
    pkt[9] = 17;
    pkt[0] = 0x44;
    assert!(parse_ip_packet(&pkt).is_none());
    pkt[0] = 0x4f;
    assert!(parse_ip_packet(&pkt).is_none());
    assert!(parse_ip_packet(&[]).is_none());
}

#[test]
fn addresses_from_bytes() {
    assert!(ipv4_addr_from_bytes(&[1, 2, 3]).is_none());
    assert_eq!(ipv4_addr_from_bytes(&[1, 2, 3, 4, 5]), Some(IpAddr::V4(0x0102_0304)));
    assert!(ipv6_addr_from_bytes(&[0; 15]).is_none());
    let mut bytes = [0u8; 16];
    bytes[15] = 9;
    assert_eq!(ipv6_addr_from_bytes(&bytes), Some(IpAddr::V6(9)));
}
