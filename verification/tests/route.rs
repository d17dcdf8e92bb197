use ssroute::addr::IpAddr;
use ssroute::route::{
    interface_message, is_file_exists, lists_routes, lower_mentions_exists, parse_destination,
    plan_routes, read_gateways, route_files, DestinationFault, ErrorReport, Gateways, IoCause,
    RouteAttempt, RouteReply, RouteRequest, RouteStep,
};
use ssroute::route_file::{plan_file, read_destinations};
use ssroute::route_loader::{LoadAction, LoadStep, RouteLoader};

fn ip(s: &str) -> IpAddr {
    IpAddr::parse(s).unwrap()
}

fn names(v: &[&str]) -> Vec<String> {
    v.iter().map(|s| s.to_string()).collect()
}

fn failure(message: &str) -> RouteReply {
    RouteReply::Failed(ErrorReport { causes: vec![], message: message.to_string() })
}

#[test]
fn destinations() {
    assert_eq!(parse_destination("91.108.4.0/22").unwrap(), (ip("91.108.4.0"), 22));
    assert_eq!(parse_destination("10.0.0.1").unwrap(), (ip("10.0.0.1"), 32));
    assert_eq!(parse_destination("10.0.0.1/32").unwrap(), (ip("10.0.0.1"), 32));
    assert_eq!(parse_destination("2001:db8::/32").unwrap(), (ip("2001:db8::"), 32));
    assert_eq!(parse_destination("::1").unwrap(), (ip("::1"), 128));
    assert_eq!(parse_destination("0.0.0.0/0").unwrap(), (ip("0.0.0.0"), 0));
}

#[test]
fn texts_that_are_no_destination() {
    let cases = vec![
        ("example/8", DestinationFault::InvalidCidrIp, "invalid IP in CIDR: example/8"),
        ("10.0.0.0/", DestinationFault::InvalidCidrPrefix, "invalid prefix in CIDR: 10.0.0.0/"),
        ("10.0.0.0/8/9", DestinationFault::InvalidCidrPrefix, "invalid prefix in CIDR: 10.0.0.0/8/9"),
        ("10.0.0.0/256", DestinationFault::InvalidCidrPrefix, "invalid prefix in CIDR: 10.0.0.0/256"),
        (
            "10.0.0.0/33",
            DestinationFault::PrefixTooLong(33, 32),
            "prefix length 33 exceeds 32 in: 10.0.0.0/33",
        ),
        (
            "::/129",
            DestinationFault::PrefixTooLong(129, 128),
            "prefix length 129 exceeds 128 in: ::/129",
        ),
        ("example", DestinationFault::InvalidIp, "invalid IP address: example"),
    ];
    for (dest, fault, message) in cases {
        let e = parse_destination(dest).err().unwrap();
        assert_eq!(e.fault, fault);
        assert_eq!(e.message(), message);
    }
}

#[test]
fn gateways() {
    assert_eq!(read_gateways("", "").unwrap(), Gateways { gw: None, gw6: None });
    assert_eq!(
        read_gateways("10.0.0.1", "2001:db8::1").unwrap(),
        Gateways { gw: Some(ip("10.0.0.1")), gw6: Some(ip("2001:db8::1")) }
    );
    assert_eq!(read_gateways("x", "y").err().unwrap().message(), "invalid gateway IP: x");
    assert_eq!(read_gateways("", "y").err().unwrap().message(), "invalid gateway6 IP: y");
}

#[test]
fn only_json_files_list_routes() {
    assert!(lists_routes("telegram.json"));
    assert!(lists_routes("a.b.json"));
    assert!(!lists_routes("example.json.notused"));
    assert!(!lists_routes(".json"));
    assert!(!lists_routes("json"));
    assert!(!lists_routes("a.JSON"));
    assert_eq!(
        route_files(&names(&["b.json", "x.txt", "a.json", ".json", "B.json"])),
        vec!["B.json", "a.json", "b.json"]
    );
}

#[test]
fn gateways_by_family_and_interface() {
    let dests = names(&["10.0.0.0/8", "2001:db8::/32", "/8", "", "1.2.3.4"]);
    let both = Gateways { gw: Some(ip("10.0.0.1")), gw6: Some(ip("fe80::1")) };
    let plan = plan_routes(&dests, &both, "eth0");
    assert_eq!(plan.len(), 3);
    assert_eq!(plan[0].destination, "10.0.0.0/8");
    assert_eq!(plan[0].gateway, Some(ip("10.0.0.1")));
    assert_eq!(plan[1].destination, "2001:db8::/32");
    assert_eq!(plan[1].gateway, Some(ip("fe80::1")));
    assert_eq!(plan[2].destination, "1.2.3.4");
    // An IPv6 route on a TUN interface leads to the interface alone.
    assert_eq!(plan_routes(&dests, &both, "tun2")[1].gateway, None);
    assert_eq!(plan_routes(&dests, &both, "tun2")[0].gateway, Some(ip("10.0.0.1")));
    // One gateway for both families.
    let six = Gateways { gw: Some(ip("fe80::2")), gw6: None };
    let plan = plan_routes(&dests, &six, "eth0");
    assert_eq!(plan[0].gateway, None);
    assert_eq!(plan[1].gateway, Some(ip("fe80::2")));
    let four = Gateways { gw: Some(ip("10.0.0.1")), gw6: None };
    assert_eq!(plan_routes(&dests, &four, "eth0")[1].gateway, None);
}

#[test]
fn files_of_routes() {
    let data = "[\n    \"91.108.4.0/22\",\n    \"149.154.160.0/20\"\n]\n";
    assert_eq!(read_destinations(data).unwrap(), vec!["91.108.4.0/22", "149.154.160.0/20"]);
    assert_eq!(read_destinations("[]").unwrap(), Vec::<String>::new());
    assert_eq!(read_destinations("[\"a\",\"b c\"]").unwrap(), vec!["a", "b c"]);
    assert!(read_destinations("[1]").is_err());
    assert!(read_destinations("{}").is_err());
    let e = read_destinations("[\"a\"").err().unwrap();
    assert_eq!(e.reason, "EOF while parsing a list at line 1 column 4");
    let none = Gateways { gw: None, gw6: None };
    let plan = plan_file("[\"10.0.0.0/8\",\"\"]", &none, "eth0").unwrap();
    assert_eq!(plan.len(), 1);
    assert_eq!(plan[0].destination, "10.0.0.0/8");
    assert!(plan_file("nothing", &none, "eth0").is_err());
}

#[test]
fn errors_that_say_it_exists() {
    let report = |causes: Vec<IoCause>, message: &str| ErrorReport {
        causes,
        message: message.to_string(),
    };
    let plain = IoCause { already_exists: false, raw_os_error: None };
    assert!(is_file_exists(&report(vec![plain, IoCause { already_exists: true, ..plain }], "")));
    assert!(is_file_exists(&report(vec![IoCause { raw_os_error: Some(17), ..plain }], "")));
    assert!(!is_file_exists(&report(vec![IoCause { raw_os_error: Some(1), ..plain }], "other")));
    assert!(is_file_exists(&report(vec![], "Received a netlink error message File Exists")));
    assert!(is_file_exists(&report(vec![], "EEXIST")));
    assert!(is_file_exists(&report(vec![], "os Error 17")));
    assert!(!is_file_exists(&report(vec![], "no such device")));
    assert!(lower_mentions_exists("error 17"));
    assert!(!lower_mentions_exists("ERROR 17"));
}

#[test]
fn a_route_is_tried_with_and_without_its_gateway() {
    let mut a = RouteAttempt::new("10.0.0.0/8", Some(ip("10.0.0.1")), 3).unwrap();
    let with = RouteRequest {
        ip: ip("10.0.0.0"),
        prefix_len: 8,
        gateway: Some(ip("10.0.0.1")),
        iface_index: 3,
    };
    assert_eq!(a.request(), with);
    assert_eq!(a.on_reply(&failure("Network is unreachable")), RouteStep::Retry);
    assert_eq!(a.request(), RouteRequest { gateway: None, ..with });
    assert_eq!(a.on_reply(&failure("Network is unreachable")), RouteStep::Fail);

    let mut b = RouteAttempt::new("10.0.0.0/8", None, 3).unwrap();
    assert_eq!(b.on_reply(&failure("x")), RouteStep::Fail);
    assert_eq!(b.on_reply(&failure("File exists")), RouteStep::Done);
    assert_eq!(b.on_reply(&RouteReply::Added), RouteStep::Done);

    // A gateway of the other family is not sent, but allows a second try.
    let mut c = RouteAttempt::new("10.0.0.0/8", Some(ip("fe80::1")), 3).unwrap();
    assert_eq!(c.request().gateway, None);
    assert_eq!(c.on_failure(false), RouteStep::Retry);
    assert_eq!(c.on_failure(true), RouteStep::Done);
    assert!(RouteAttempt::new("x", None, 3).is_err());
}

#[test]
fn interfaces_that_are_missing() {
    assert_eq!(
        interface_message("tun2", "interface not found: tun2"),
        "interface 'tun2' does not exist — check 'interface' or 'default_interface' in config"
    );
    assert_eq!(interface_message("tun2", "netlink get link"), "netlink get link");
}

#[test]
fn loading_a_directory() {
    let gateways = Gateways { gw: Some(ip("10.0.0.1")), gw6: None };
    let files = names(&["b.json", "README", "a.json", "c.json"]);
    let mut loader = RouteLoader::new(&files, gateways, "eth0", 3, 1);
    match loader.next() {
        LoadAction::ReadFile(name) => assert_eq!(name, "a.json"),
        _ => panic!("no file"),
    }
    // A file that cannot be read or parsed is passed over.
    match loader.next() {
        LoadAction::ReadFile(name) => assert_eq!(name, "b.json"),
        _ => panic!("no file"),
    }
    assert!(loader.on_file("no json").is_err());
    match loader.next() {
        LoadAction::ReadFile(name) => assert_eq!(name, "c.json"),
        _ => panic!("no file"),
    }
    loader.on_file("[\"10.0.0.0/8\",\"::1\",\"bad\"]").unwrap();
    match loader.next() {
        LoadAction::Request(0, r) => assert_eq!(r.gateway, Some(ip("10.0.0.1"))),
        _ => panic!("no request"),
    }
    assert_eq!(loader.route(0).destination, "10.0.0.0/8");
    assert_eq!(loader.route(0).gateway, Some(ip("10.0.0.1")));
    assert!(matches!(loader.next(), LoadAction::Wait));
    match loader.on_reply(0, &failure("unreachable")) {
        LoadStep::Retry(r) => assert_eq!((r.ip, r.gateway), (ip("10.0.0.0"), None)),
        _ => panic!("no second request"),
    }
    assert_eq!(loader.on_reply(0, &RouteReply::Added), LoadStep::Settled);
    match loader.next() {
        LoadAction::Request(1, r) => {
            assert_eq!((r.ip, r.prefix_len, r.iface_index), (ip("::1"), 128, 3))
        }
        _ => panic!("no request"),
    }
    assert_eq!(loader.on_reply(1, &failure("file exists")), LoadStep::Settled);
    match loader.next() {
        LoadAction::Abort(message) => {
            assert_eq!(message, "Failed to add route bad: invalid IP address: bad")
        }
        _ => panic!("no end"),
    }
}

#[test]
fn routes_under_way_are_limited() {
    let gateways = Gateways { gw: None, gw6: None };
    let mut loader = RouteLoader::new(&names(&["a.json"]), gateways, "eth0", 3, 2);
    assert!(matches!(loader.next(), LoadAction::ReadFile(_)));
    loader.on_file("[\"10.0.0.1\",\"10.0.0.2\",\"10.0.0.3\"]").unwrap();
    assert!(matches!(loader.next(), LoadAction::Request(0, _)));
    assert!(matches!(loader.next(), LoadAction::Request(1, _)));
    assert!(matches!(loader.next(), LoadAction::Wait));
    assert_eq!(loader.on_reply(1, &RouteReply::Added), LoadStep::Settled);
    assert!(matches!(loader.next(), LoadAction::Request(2, _)));
    assert!(matches!(loader.next(), LoadAction::Wait));
    assert_eq!(loader.on_reply(0, &RouteReply::Added), LoadStep::Settled);
    assert!(matches!(loader.next(), LoadAction::Wait));
    assert_eq!(loader.on_reply(2, &RouteReply::Added), LoadStep::Settled);
    assert!(matches!(loader.next(), LoadAction::Finish));
}

#[test]
fn an_empty_directory_is_loaded_at_once() {
    let gateways = Gateways { gw: None, gw6: None };
    let mut loader = RouteLoader::new(&names(&["x"]), gateways, "eth0", 1, 0);
    assert!(matches!(loader.next(), LoadAction::Finish));
}

#[test]
fn routes_before_a_bad_destination_are_tried_to_the_end() {
    let gateways = Gateways { gw: Some(ip("10.0.0.1")), gw6: None };
    let mut loader = RouteLoader::new(&names(&["a.json"]), gateways, "eth0", 3, 4);
    assert!(matches!(loader.next(), LoadAction::ReadFile(_)));
    loader.on_file("[\"10.0.0.0/8\",\"bad\",\"10.0.0.3\"]").unwrap();
    assert!(matches!(loader.next(), LoadAction::Request(0, _)));
    assert!(matches!(loader.next(), LoadAction::Wait));
    assert!(matches!(loader.on_reply(0, &failure("unreachable")), LoadStep::Retry(_)));
    assert!(matches!(loader.next(), LoadAction::Wait));
    assert_eq!(loader.on_reply(0, &RouteReply::Added), LoadStep::Settled);
    assert!(matches!(loader.next(), LoadAction::Abort(_)));
}

#[test]
fn the_first_refused_route_is_told() {
    let gateways = Gateways { gw: None, gw6: None };
    let mut loader = RouteLoader::new(&names(&["a.json", "b.json"]), gateways, "eth0", 3, 3);
    assert!(matches!(loader.next(), LoadAction::ReadFile(_)));
    loader
        .on_file("[\"10.0.0.1\",\"10.0.0.2\",\"10.0.0.3\",\"10.0.0.4\"]")
        .unwrap();
    for i in 0..3 {
        assert!(matches!(loader.next(), LoadAction::Request(k, _) if k == i));
    }
    assert_eq!(loader.on_reply(2, &failure("unreachable")), LoadStep::Settled);
    // No further route is begun, and the others come to an end first.
    assert!(matches!(loader.next(), LoadAction::Wait));
    assert_eq!(loader.on_reply(0, &RouteReply::Added), LoadStep::Settled);
    assert!(matches!(loader.next(), LoadAction::Wait));
    assert_eq!(loader.on_reply(1, &failure("unreachable")), LoadStep::Settled);
    assert!(matches!(loader.next(), LoadAction::Refuse(1, false)));
    assert_eq!(loader.route(1).destination, "10.0.0.2");
}

#[test]
fn a_route_refused_without_its_gateway() {
    let gateways = Gateways { gw: Some(ip("10.0.0.1")), gw6: None };
    let mut loader = RouteLoader::new(&names(&["a.json"]), gateways, "eth0", 3, 1);
    assert!(matches!(loader.next(), LoadAction::ReadFile(_)));
    loader.on_file("[\"10.0.0.0/8\"]").unwrap();
    assert!(matches!(loader.next(), LoadAction::Request(0, _)));
    assert!(matches!(loader.on_reply(0, &failure("x")), LoadStep::Retry(_)));
    assert_eq!(loader.on_reply(0, &failure("x")), LoadStep::Settled);
    assert!(matches!(loader.next(), LoadAction::Refuse(0, true)));
}
