use ssroute::addr::{ip_to_u128, IpAddr};

fn v4(s: &str) -> u32 {
    match IpAddr::parse(s) {
        Some(IpAddr::V4(x)) => x,
        other => panic!("{s} gives {other:?}"),
    }
}

fn v6(s: &str) -> u128 {
    match IpAddr::parse(s) {
        Some(IpAddr::V6(x)) => x,
        other => panic!("{s} gives {other:?}"),
    }
}

#[test]
fn dotted_addresses() {
    assert_eq!(v4("127.0.0.1"), 0x7f00_0001);
    assert_eq!(v4("0.0.0.0"), 0);
    assert_eq!(v4("255.255.255.255"), 0xffff_ffff);
    assert_eq!(v4("91.108.4.0"), 0x5b6c_0400);
}

#[test]
fn texts_that_are_no_dotted_address() {
    for s in [
        "", "1", "1.2.3", "1.2.3.4.5", "1.2.3.", ".1.2.3", "256.0.0.1", "01.2.3.4", "1.2.3.04",
        "1.2.3.4 ", " 1.2.3.4", "1.2.3.+4", "1.2.3.a", "1..2.3", "0000.0.0.0", "1.2.3.4/8",
    ] {
        assert_eq!(IpAddr::parse(s), None, "{s}");
    }
}

#[test]
fn colon_addresses() {
    assert_eq!(v6("::"), 0);
    assert_eq!(v6("::1"), 1);
    assert_eq!(v6("1::"), 1u128 << 112);
    assert_eq!(v6("2001:db8::1"), 0x2001_0db8_0000_0000_0000_0000_0000_0001);
    assert_eq!(v6("fe80::AbCd:1"), 0xfe80_0000_0000_0000_0000_0000_abcd_0001);
    assert_eq!(v6("1:2:3:4:5:6:7:8"), 0x0001_0002_0003_0004_0005_0006_0007_0008);
    assert_eq!(v6("1:2:3:4:5:6:7::"), 0x0001_0002_0003_0004_0005_0006_0007_0000);
    assert_eq!(v6("::2:3:4:5:6:7:8"), 0x0000_0002_0003_0004_0005_0006_0007_0008);
    assert_eq!(v6("0000:0001::"), 1u128 << 96);
}

#[test]
fn colon_addresses_with_a_dotted_end() {
    assert_eq!(v6("::ffff:1.2.3.4"), 0xffff_0102_0304);
    assert_eq!(v6("::1.2.3.4"), 0x0102_0304);
    assert_eq!(v6("1:2:3:4:5:6:1.2.3.4"), 0x0001_0002_0003_0004_0005_0006_0102_0304);
    assert_eq!(v6("1:2:3:4:5::1.2.3.4"), 0x0001_0002_0003_0004_0005_0000_0102_0304);
}

#[test]
fn texts_that_are_no_colon_address() {
    for s in [
        ":", ":::", "1:2", "1:2:3:4:5:6:7", "1:2:3:4:5:6:7:8:9", "1::2::3", "::g", "12345::",
        "1:2:3:4:5:6:7:8::", "::1:2:3:4:5:6:7:8", "1.2.3.4::", "::1.2.3.4:5", "1:2:3:4:5:6:7:1.2.3.4",
        "::1 ", ":1::2", "1::2:", "[::1]", "fe80::1%eth0", "::1.2.3", "1:2:3:4:5:6:7:",
    ] {
        assert_eq!(IpAddr::parse(s), None, "{s}");
    }
}

#[test]
fn families_bits_and_bytes() {
    let a = IpAddr::parse("10.0.0.1").unwrap();
    let b = IpAddr::parse("::a").unwrap();
    assert!(a.is_ipv4() && !a.is_ipv6());
    assert!(b.is_ipv6() && !b.is_ipv4());
    assert_eq!(a.bits(), 32);
    assert_eq!(b.bits(), 128);
    assert_eq!(a.octets(), vec![10, 0, 0, 1]);
    assert_eq!(b.octets()[15], 10);
    assert_eq!(b.octets().len(), 16);
    assert_eq!(ip_to_u128(a), 0x0a00_0001);
    assert_eq!(ip_to_u128(b), 10);
}
