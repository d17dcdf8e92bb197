use ssroute::addr::IpAddr;
use ssroute::plugin::{
    plugin_endpoint, plugin_env, plugin_local_addr, plugin_wait_step, stop_step,
    InvalidPluginHost, StopEvent, StopStep, WaitStep,
};
use ssroute::tunnel::Endpoint;

#[test]
fn variables_of_a_plugin() {
    let vars = |opts: &str| -> Vec<(String, String)> {
        plugin_env("203.0.113.50", 8388, 5555, opts)
            .into_iter()
            .map(|v| (v.name, v.value))
            .collect()
    };
    let pair = |a: &str, b: &str| (a.to_string(), b.to_string());
    let mut expected = vec![
        pair("SS_REMOTE_HOST", "203.0.113.50"),
        pair("SS_REMOTE_PORT", "8388"),
        pair("SS_LOCAL_HOST", "127.0.0.1"),
        pair("SS_LOCAL_PORT", "5555"),
    ];
    assert_eq!(vars(""), expected);
    expected.push(pair("SS_PLUGIN_OPTIONS", "server;tls;host=www.bing.com"));
    assert_eq!(vars("server;tls;host=www.bing.com"), expected);
}

#[test]
fn a_plugin_is_reached_where_it_listens() {
    for port in [0, 1, 5555, 65535] {
        let addr = plugin_local_addr(port);
        assert_eq!(addr, format!("127.0.0.1:{port}"));
        assert_eq!(
            plugin_endpoint(&addr, 8388),
            Ok(Some(Endpoint { ip: IpAddr::V4(0x7f00_0001), port }))
        );
    }
}

#[test]
fn local_addresses_of_other_shapes() {
    let at = |port| Ok(Some(Endpoint { ip: IpAddr::V4(0x7f00_0001), port }));
    assert_eq!(plugin_endpoint("127.0.0.1:x", 8388), at(8388));
    assert_eq!(plugin_endpoint("127.0.0.1:70000", 8388), at(8388));
    assert_eq!(plugin_endpoint("127.0.0.1", 8388), Ok(None));
    assert_eq!(plugin_endpoint("::1:5555", 8388), Ok(None));
    assert_eq!(plugin_endpoint("localhost:5555", 8388), Err(InvalidPluginHost));
    assert_eq!(InvalidPluginHost.message(), "invalid IP address syntax");
}

#[test]
fn stopping_a_plugin() {
    assert_eq!(stop_step(StopEvent::Begin(false)), StopStep::Done);
    assert_eq!(stop_step(StopEvent::Begin(true)), StopStep::Terminate);
    assert_eq!(stop_step(StopEvent::TermSent(false)), StopStep::Kill);
    assert_eq!(stop_step(StopEvent::TermSent(true)), StopStep::Wait);
    assert_eq!(stop_step(StopEvent::WaitEnded), StopStep::Done);
    assert_eq!(stop_step(StopEvent::WaitTimedOut), StopStep::KillAndWait);
}

#[test]
fn waiting_for_a_plugin() {
    assert_eq!(plugin_wait_step(0, true), WaitStep::Ready);
    assert_eq!(plugin_wait_step(9000, true), WaitStep::Ready);
    assert_eq!(plugin_wait_step(0, false), WaitStep::Sleep(100));
    assert_eq!(plugin_wait_step(4900, false), WaitStep::Sleep(100));
    assert_eq!(plugin_wait_step(4930, false), WaitStep::Sleep(70));
    assert_eq!(plugin_wait_step(5000, false), WaitStep::TimedOut);
    assert_eq!(plugin_wait_step(u64::MAX, false), WaitStep::TimedOut);
}
