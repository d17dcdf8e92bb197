use ssroute::addr::IpAddr;
use ssroute::checksum::internet_checksum;
use ssroute::packet::{parse_ip_packet, ConnKey, IpHeader};
use ssroute::response::{
    build_response_packet, build_tcp_response_packet, ipv4_checksum, tcp_checksum, TunnelError,
};

fn header(version: u8, src: &str, dst: &str, src_port: u16, dst_port: u16) -> IpHeader {
    IpHeader {
        version,
        src: IpAddr::parse(src).unwrap(),
        dst: IpAddr::parse(dst).unwrap(),
        protocol: 17,
        header_len: if version == 4 { 20 } else { 40 },
        src_port,
        dst_port,
        tcp_flags: 0,
        tcp_seq: 0,
        tcp_ack: 0,
    }
}

fn reply(hdr: &IpHeader) -> ConnKey {
    ConnKey::from_ip(hdr, hdr.src_port, hdr.dst_port).reversed()
}

#[test]
fn test_ipv6_response_payload_length_100() {
    let original = header(6, "fe80::1", "2001:db8::1", 54321, 443);
    let rev = reply(&original);
    let payload = vec![0xab; 100];

    let pkt = build_response_packet(&payload, &original, &rev).expect("build IPv6 UDP");

    // IPv6 payload len = UDP header(8) + payload(100) = 108
    let ipv6_payload_len = u16::from_be_bytes([pkt[4], pkt[5]]);
    assert_eq!(ipv6_payload_len, 108);
}

#[test]
fn test_ipv6_udp_response_payload_length() {
    let original = header(6, "fe80::1", "2001:db8::1", 50000, 53);
    let rev = reply(&original);
    let payload = vec![0xde; 50];

    let pkt = build_response_packet(&payload, &original, &rev).expect("build IPv6 UDP");

    // IPv6 payload len = UDP header(8) + payload(50) = 58
    let ipv6_payload_len = u16::from_be_bytes([pkt[4], pkt[5]]);
    assert_eq!(ipv6_payload_len, 58);
}

#[test]
fn test_ipv4_response_total_length_200() {
    let original = header(4, "10.0.0.1", "1.2.3.4", 12345, 443);
    let rev = reply(&original);
    let payload = vec![0x42; 200];

    let pkt = build_response_packet(&payload, &original, &rev).expect("build IPv4 UDP");

    // Total IP len = IP(20) + UDP(8) + payload(200) = 228
    let total_len = u16::from_be_bytes([pkt[2], pkt[3]]);
    assert_eq!(total_len, 228);
}

#[test]
fn test_ipv4_udp_response_total_length() {
    let original = header(4, "10.0.0.1", "1.2.3.4", 50000, 53);
    let rev = reply(&original);
    let payload = vec![0x42; 100];

    let pkt = build_response_packet(&payload, &original, &rev).expect("build IPv4 UDP");

    // Total IP len = IP(20) + UDP(8) + payload(100) = 128
    let total_len = u16::from_be_bytes([pkt[2], pkt[3]]);
    assert_eq!(total_len, 128);
}

#[test]
fn test_ipv4_response_address_swap() {
    let original = header(4, "10.0.0.1", "1.2.3.4", 1234, 5678);
    let rev = reply(&original);
    let payload = vec![0x01, 0x02];

    let pkt = build_response_packet(&payload, &original, &rev).expect("build response");

    // Response src = original dst = 1.2.3.4 (swapped)
    assert_eq!(pkt[12..16], [1, 2, 3, 4]);
    // Response dst = original src = 10.0.0.1 (swapped)
    assert_eq!(pkt[16..20], [10, 0, 0, 1]);
    // Ports swapped: src=5678 (0x162e), dst=1234 (0x04d2)
    assert_eq!(&pkt[20..24], &[0x16, 0x2e, 0x04, 0xd2]);
}

#[test]
fn test_ipv6_response_address_swap() {
    let original = header(6, "2001:db8::1", "2001:db8::2", 5000, 53);
    let rev = reply(&original);
    let payload = vec![0xaa];

    let pkt = build_response_packet(&payload, &original, &rev).expect("build response");

    // Response src = original dst = 2001:db8::2 (swapped)
    assert_eq!(
        &pkt[8..24],
        &[
            0x20, 0x01, 0x0d, 0xb8, 0x00, 0x00, 0x00, 0x00, 0x00, 0x00, 0x00, 0x00, 0x00, 0x00,
            0x00, 0x02,
        ]
    );
    // Response dst = original src = 2001:db8::1 (swapped)
    assert_eq!(
        &pkt[24..40],
        &[
            0x20, 0x01, 0x0d, 0xb8, 0x00, 0x00, 0x00, 0x00, 0x00, 0x00, 0x00, 0x00, 0x00, 0x00,
            0x00, 0x01,
        ]
    );
}

#[test]
fn whole_udp_packet_over_ipv4() {
    let original = header(4, "10.0.0.1", "1.2.3.4", 1234, 5678);
    let pkt = build_response_packet(&[1, 2], &original, &reply(&original)).unwrap();
    assert_eq!(pkt.len(), 30);
    assert_eq!(&pkt[..10], &[0x45, 0, 0, 30, 0, 0, 0x40, 0, 64, 17]);
    // The header sums up to nothing.
    assert_eq!(ipv4_checksum(&pkt[..20]), 0);
    assert_eq!(&pkt[20..26], &[0x16, 0x2e, 0x04, 0xd2, 0, 10]);
    assert_eq!(&pkt[28..], &[1, 2]);
    // 0x0a00 + 0x0001 + 0x0102 + 0x0304 + 0x0011 + 10 + 0x162e + 0x04d2 + 10 + 0x0102
    let sum: u32 = 0x0a00 + 1 + 0x0102 + 0x0304 + 0x11 + 10 + 0x162e + 0x04d2 + 10 + 0x0102;
    assert_eq!(u16::from_be_bytes([pkt[26], pkt[27]]), !(sum as u16));
}

#[test]
fn whole_udp_packet_over_ipv6() {
    let original = header(6, "::1", "::2", 1, 2);
    let pkt = build_response_packet(&[0x10], &original, &reply(&original)).unwrap();
    assert_eq!(pkt.len(), 49);
    assert_eq!(&pkt[..8], &[0x60, 0, 0, 0, 0, 9, 17, 64]);
    assert_eq!(&pkt[40..46], &[0, 2, 0, 1, 0, 9]);
    let sum: u32 = 1 + 2 + 0x11 + 9 + 2 + 1 + 9 + 0x1000;
    assert_eq!(u16::from_be_bytes([pkt[46], pkt[47]]), !(sum as u16));
    assert_eq!(pkt[48], 0x10);
    // The datagram sums up to nothing together with its addresses.
    assert_eq!(tcp_checksum(&original.src, &original.dst, 17, &pkt[40..]), 0);
}

#[test]
fn pseudo_header_has_the_protocol_behind_a_zero_byte() {
    let zero = IpAddr::V4(0);
    assert_eq!(tcp_checksum(&zero, &zero, 6, &[]), 0xfff9);
    assert_eq!(tcp_checksum(&IpAddr::V6(0), &IpAddr::V6(0), 17, &[1]), !(17 + 1 + 0x100));
}

#[test]
fn whole_tcp_packet_over_ipv4() {
    let mut original = header(4, "10.0.0.1", "1.2.3.4", 1234, 5678);
    original.protocol = 6;
    original.tcp_flags = 0x18;
    let pkt =
        build_tcp_response_packet(&[9, 8, 7], &original, &reply(&original), 0x0102_0304, 77)
            .unwrap();
    assert_eq!(pkt.len(), 43);
    assert_eq!(ipv4_checksum(&pkt[..20]), 0);
    assert_eq!(&pkt[20..36], &[
        0x16, 0x2e, 0x04, 0xd2, 1, 2, 3, 4, 0, 0, 0, 77, 0x50, 0x18, 0xff, 0xff
    ]);
    assert_eq!(&pkt[40..], &[9, 8, 7]);
    // The segment sums up to nothing together with its addresses.
    assert_eq!(tcp_checksum(&original.src, &original.dst, 6, &pkt[20..]), 0);
    let back = parse_ip_packet(&pkt).unwrap();
    assert_eq!(back.src, original.dst);
    assert_eq!(back.dst, original.src);
    assert_eq!(back.tcp_seq, 0x0102_0304);
    assert_eq!(back.tcp_ack, 77);
    assert_eq!(ConnKey::from_ip(&back, back.src_port, back.dst_port), reply(&original));
}

#[test]
fn syn_is_answered_with_syn_and_ack() {
    let mut original = header(6, "fe80::1", "fe80::2", 1, 2);
    original.protocol = 6;
    original.tcp_flags = 0x02;
    let pkt = build_response_packet(&[], &original, &reply(&original)).unwrap();
    assert_eq!(pkt.len(), 60);
    assert_eq!(pkt[53], 0x12);
    assert_eq!(tcp_checksum(&original.src, &original.dst, 6, &pkt[40..]), 0);
}

#[test]
fn packets_that_cannot_be_built() {
    let mut original = header(4, "10.0.0.1", "1.2.3.4", 1, 2);
    original.protocol = 1;
    let rev = reply(&original);
    let e = build_response_packet(&[], &original, &rev).err().unwrap();
    assert_eq!(e, TunnelError::UnsupportedProtocol(1));
    assert_eq!(e.message(), "unsupported protocol: 1");

    original.protocol = 17;
    original.version = 5;
    let e = build_response_packet(&[], &original, &rev).err().unwrap();
    assert_eq!(e, TunnelError::UnsupportedVersion(5));
    assert_eq!(e.message(), "unsupported IP version: 5");

    original.version = 4;
    original.dst = IpAddr::V6(1);
    let e = build_response_packet(&[], &original, &rev).err().unwrap();
    assert_eq!(e, TunnelError::ExpectedIpv4);
    assert_eq!(e.message(), "expected IPv4, got IPv6");
}

#[test]
fn checksum_folds_all_carries() {
    assert_eq!(internet_checksum(&[]), 0xffff);
    assert_eq!(internet_checksum(&[0xff, 0xff, 0xff, 0xff]), 0);
    assert_eq!(internet_checksum(&[0x12, 0x34, 0x56]), !(0x1234u16 + 0x5600));
    // Addresses that add up past 32 bits.
    let a = IpAddr::parse("255.255.255.255").unwrap();
    let b = IpAddr::parse("255.255.255.254").unwrap();
    assert_eq!(tcp_checksum(&a, &b, 0, &[]), 1);
}
