use ssroute::addr::IpAddr;
use ssroute::tun::{interface_request, op_failure, plan_configuration, TunOp};

fn ip(s: &str) -> IpAddr {
    IpAddr::parse(s).unwrap()
}

#[test]
fn requests_for_an_interface() {
    let req = interface_request("tun2").unwrap();
    assert_eq!(req.ifr_name, b"tun2\0\0\0\0\0\0\0\0\0\0\0\0");
    assert_eq!(req.ifr_flags, 0x1001);
    assert_eq!(interface_request("").unwrap().ifr_name, vec![0; 16]);
    assert_eq!(interface_request("123456789012345").unwrap().ifr_name[14..], [b'5', 0]);
    let e = interface_request("1234567890123456").err().unwrap();
    assert_eq!(e.message(), "interface name too long: 1234567890123456");
    // The length counts bytes.
    assert!(interface_request("éééééééé").is_err());
    assert!(interface_request("ééééééé").is_ok());
}

#[test]
fn configuration_of_both_families() {
    let plan = plan_configuration("10.0.0.1", "2001:db8::1", 1400);
    assert!(plan.error.is_none());
    assert_eq!(
        plan.ops,
        vec![
            TunOp::AddAddress(ip("10.0.0.1"), 24),
            TunOp::AddAddress(ip("2001:db8::1"), 64),
            TunOp::SetMtu(1400),
            TunOp::BringUp,
        ]
    );
    assert_eq!(plan_configuration("", "", 0).ops, vec![TunOp::BringUp]);
}

#[test]
fn configurations_that_stop() {
    let message = |gateway: &str, gateway6: &str| {
        let plan = plan_configuration(gateway, gateway6, 1500);
        (plan.ops.len(), plan.error.unwrap().message())
    };
    assert_eq!(message("x", "y"), (0, "invalid gateway IP: x".to_string()));
    assert_eq!(message("::1", ""), (0, "gateway must be IPv4 address: ::1".to_string()));
    assert_eq!(message("10.0.0.1", "y"), (1, "invalid gateway6 IP: y".to_string()));
    assert_eq!(
        message("", "10.0.0.1"),
        (0, "gateway6 must be IPv6 address: 10.0.0.1".to_string())
    );
}

#[test]
fn failed_steps() {
    let four = TunOp::AddAddress(ip("10.0.0.1"), 24);
    let six = TunOp::AddAddress(ip("::1"), 64);
    assert_eq!(op_failure(&four, "tun2", "File exists (os error 17)"), None);
    assert_eq!(op_failure(&six, "tun2", "EEXIST"), None);
    assert_eq!(
        op_failure(&four, "tun2", "file exists").unwrap(),
        "add IPv4 address to interface"
    );
    assert_eq!(op_failure(&six, "tun2", "").unwrap(), "add IPv6 address to interface");
    assert_eq!(
        op_failure(&TunOp::SetMtu(1400), "tun2", "EEXIST").unwrap(),
        "set MTU 1400 on interface tun2"
    );
    assert_eq!(op_failure(&TunOp::BringUp, "tun2", "x").unwrap(), "bring up interface tun2");
}
