use ssroute::checksum::internet_checksum;
use ssroute::icmp::handle_icmp_echo;
use ssroute::icmp::icmpv6_checksum;

#[test]
fn test_icmpv4_echo_reply() {
    // Minimal IPv4 ICMP echo request (20-byte IP header + 8-byte ICMP)
    let mut pkt = vec![0u8; 28];
    pkt[0] = 0x45; // version 4, IHL 5
    pkt[9] = 1; // protocol = ICMP
    // src IP: 10.0.0.2
    pkt[12..16].copy_from_slice(&[10, 0, 0, 2]);
    // dst IP: 8.8.8.8
    pkt[16..20].copy_from_slice(&[8, 8, 8, 8]);
    // ICMP type = 8 (echo request), code = 0
    pkt[20] = 8;
    pkt[21] = 0;
    // ICMP id = 1, seq = 1
    pkt[24] = 0;
    pkt[25] = 1;
    pkt[26] = 0;
    pkt[27] = 1;
    // Set valid checksums
    pkt[10] = 0;
    pkt[11] = 0;
    let ip_csum = internet_checksum(&pkt[..20]);
    pkt[10] = (ip_csum >> 8) as u8;
    pkt[11] = ip_csum as u8;
    pkt[22] = 0;
    pkt[23] = 0;
    let icmp_csum = internet_checksum(&pkt[20..]);
    pkt[22] = (icmp_csum >> 8) as u8;
    pkt[23] = icmp_csum as u8;

    let reply = handle_icmp_echo(&pkt).expect("should handle ICMP echo");
    // Check it's a reply
    assert_eq!(reply[20], 0, "ICMP type should be 0 (echo reply)");
    // Check IPs are swapped
    assert_eq!(&reply[12..16], &[8, 8, 8, 8], "src should be 8.8.8.8");
    assert_eq!(&reply[16..20], &[10, 0, 0, 2], "dst should be 10.0.0.2");
    // Verify checksums are valid
    assert_eq!(internet_checksum(&reply[..20]), 0, "IP checksum should be valid");
    assert_eq!(internet_checksum(&reply[20..]), 0, "ICMP checksum should be valid");
}

#[test]
fn test_non_icmp_ignored() {
    let mut pkt = vec![0u8; 28];
    pkt[0] = 0x45;
    pkt[9] = 6; // TCP, not ICMP
    assert!(handle_icmp_echo(&pkt).is_none());
}

#[test]
fn test_icmpv6_echo_reply() {
    // IPv6 header (40 bytes) + ICMPv6 echo request (8 bytes)
    let mut pkt = vec![0u8; 48];
    pkt[0] = 0x60; // version 6
    pkt[4] = 0; // payload length high
    pkt[5] = 8; // payload length low = 8
    pkt[6] = 58; // next header = ICMPv6
    pkt[7] = 64; // hop limit
    // src IPv6: ::1
    pkt[23] = 1;
    // dst IPv6: ::2
    pkt[39] = 2;
    // ICMPv6 type = 128 (echo request)
    pkt[40] = 128;
    pkt[41] = 0;
    // ID and seq
    pkt[44] = 0;
    pkt[45] = 1;
    pkt[46] = 0;
    pkt[47] = 1;
    // Calculate correct checksum
    pkt[42] = 0;
    pkt[43] = 0;
    let csum = icmpv6_checksum(&pkt[8..24], &pkt[24..40], &pkt[40..]);
    pkt[42] = (csum >> 8) as u8;
    pkt[43] = csum as u8;

    let reply = handle_icmp_echo(&pkt).expect("should handle ICMPv6 echo");
    assert_eq!(reply[40], 129, "ICMPv6 type should be 129 (echo reply)");
    // Check IPs are swapped: src should be ::2, dst should be ::1
    assert_eq!(reply[23], 2, "src should be ::2");
    assert_eq!(reply[39], 1, "dst should be ::1");
    // A valid checksum means computing over the data with the field set gives 0
    let verify = icmpv6_checksum(&reply[8..24], &reply[24..40], &reply[40..]);
    assert_eq!(verify, 0);
    let mut check_pkt = reply.clone();
    check_pkt[42] = 0;
    check_pkt[43] = 0;
    let recomputed = icmpv6_checksum(&check_pkt[8..24], &check_pkt[24..40], &check_pkt[40..]);
    assert_eq!(
        recomputed,
        (reply[42] as u16) << 8 | reply[43] as u16,
        "ICMPv6 checksum should be valid"
    );
}

#[test]
fn test_too_short_packet() {
    assert!(handle_icmp_echo(&[]).is_none());
    assert!(handle_icmp_echo(&[0x45]).is_none());
    assert!(handle_icmp_echo(&[0x60; 10]).is_none());
}
