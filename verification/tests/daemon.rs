use ssroute::config::{read_config, Config};
use ssroute::daemon::{
    after_exit, exit_error, is_fatal, manager_step, manager_timeout_message, networkd_content,
    networkd_update, plan_steps, route_jobs, DaemonError, ExitStep, ManagerEvent, ManagerStep, PollStep,
    Poller, Step, TunnelExit,
};

fn config(text: &str) -> Config {
    read_config(text).unwrap()
}

const SERVER: &str = "ss_enabled=yes\nss_server=1.2.3.4\nss_server_port=8388\nss_password=x\n";

#[test]
fn steps_of_the_oneshot_mode() {
    assert_eq!(
        plan_steps(&config("interface=tun2\n")),
        Ok(vec![Step::WriteNetworkd, Step::CreateTun(true), Step::ConfigureTun, Step::AddRoutes])
    );
}

#[test]
fn steps_of_the_daemon() {
    let mut steps = vec![
        Step::BuildServer,
        Step::WriteNetworkd,
        Step::CreateTun(false),
        Step::WaitForInterface,
        Step::LeaveUnmanaged,
        Step::ConfigureTun,
        Step::SetMtu,
        Step::AddRoutes,
        Step::RunTunnel,
    ];
    assert_eq!(plan_steps(&config(SERVER)), Ok(steps.clone()));
    let simple = format!("{SERVER}obfs_mode=simple-obfs\n");
    assert_eq!(plan_steps(&config(&simple)), Ok(steps.clone()));
    let mut c = config(&format!("{SERVER}obfs_mode=xray\nss_plugin=v2ray-plugin\n"));
    steps.insert(0, Step::StartPlugin);
    assert_eq!(plan_steps(&c), Ok(steps.clone()));
    c.mtu = 0;
    steps.remove(7);
    assert_eq!(plan_steps(&c), Ok(steps));
}

#[test]
fn daemons_that_cannot_start() {
    for missing in ["ss_server=", "ss_server_port=", "ss_password="] {
        let text: String = SERVER
            .lines()
            .filter(|l| !l.starts_with(missing))
            .map(|l| format!("{l}\n"))
            .collect();
        let e = plan_steps(&config(&text)).err().unwrap();
        assert_eq!(e, DaemonError::MissingServer);
        assert_eq!(
            e.message(),
            "Shadowsocks is enabled but ss_server, ss_server_port, or ss_password is not set"
        );
    }
    let e = plan_steps(&config(&format!("{SERVER}obfs_mode=xray\n"))).err().unwrap();
    assert_eq!(e, DaemonError::MissingPlugin);
    assert_eq!(e.message(), "obfs_mode=xray but ss_plugin is not set");
}

#[test]
fn failures_that_end_the_program() {
    for step in [Step::StartPlugin, Step::BuildServer, Step::CreateTun(false), Step::RunTunnel] {
        assert!(is_fatal(step, true));
    }
    for step in [Step::LeaveUnmanaged, Step::SetMtu, Step::AddRoutes, Step::ConfigureTun] {
        assert!(!is_fatal(step, true));
    }
    assert!(is_fatal(Step::ConfigureTun, false));
    assert!(!is_fatal(Step::AddRoutes, false));
}

#[test]
fn routes_of_both_directories() {
    let text = "interface=tun2\ngateway=10.0.0.1\ngateway6=fe80::1\nconcurrency=2\n\
                default_interface=eth0\ndefault_gw=192.168.1.1\n";
    let jobs = route_jobs(&config(text));
    assert_eq!(jobs.len(), 2);
    assert_eq!(jobs[0].dir, "data");
    assert_eq!(jobs[0].gateway, "10.0.0.1");
    assert_eq!(jobs[0].gateway6, "fe80::1");
    assert_eq!(jobs[0].interface, "tun2");
    assert_eq!(jobs[0].concurrency, 2);
    assert_eq!(jobs[1].dir, "default_route");
    assert_eq!(jobs[1].gateway, "192.168.1.1");
    assert_eq!(jobs[1].gateway6, "");
    assert_eq!(jobs[1].interface, "eth0");
    assert_eq!(route_jobs(&config("interface=tun2\n")).len(), 0);
    assert_eq!(route_jobs(&config("interface=tun2\ngateway6=fe80::1\n")).len(), 1);
    assert_eq!(route_jobs(&config("default_interface=eth0\n")).len(), 0);
}

#[test]
fn looking_twenty_times() {
    let mut poller = Poller::new();
    for _ in 0..19 {
        assert_eq!(poller.on_look(false), PollStep::Sleep);
    }
    assert_eq!(poller.on_look(false), PollStep::GiveUp);
    let mut poller = Poller::new();
    poller.on_look(false);
    assert_eq!(poller.on_look(true), PollStep::Found);
}

#[test]
fn the_file_for_networkd() {
    let content = "[Match]\nName=tun2\n\n[Network]\nKeepConfiguration=yes\n\
                   IgnoreCarrierLoss=yes\n\n[Link]\nUnmanaged=yes\n";
    assert_eq!(networkd_content("tun2"), content);
    assert_eq!(networkd_update("tun2", &None), Some(content.to_string()));
    assert_eq!(networkd_update("tun2", &Some("x".to_string())), Some(content.to_string()));
    assert_eq!(networkd_update("tun2", &Some(content.to_string())), None);
    assert_eq!(networkd_update("", &None), None);
}

#[test]
fn network_manager() {
    assert_eq!(manager_step(ManagerEvent::Bus(false)), ManagerStep::Skip);
    assert_eq!(manager_step(ManagerEvent::Bus(true)), ManagerStep::AskRunning);
    assert_eq!(manager_step(ManagerEvent::Running(false)), ManagerStep::Skip);
    assert_eq!(manager_step(ManagerEvent::Running(true)), ManagerStep::Look);
    assert_eq!(manager_step(ManagerEvent::Looked(PollStep::Found)), ManagerStep::Unmanage);
    assert_eq!(manager_step(ManagerEvent::Looked(PollStep::Sleep)), ManagerStep::Look);
    assert_eq!(manager_step(ManagerEvent::Looked(PollStep::GiveUp)), ManagerStep::TimedOut);
    assert_eq!(
        manager_timeout_message("tun2"),
        "Timeout: NM did not recognize tun2 within 3s"
    );
}

#[test]
fn ends_of_the_tunnel() {
    assert_eq!(exit_error(&TunnelExit::Signal), None);
    assert_eq!(exit_error(&TunnelExit::Finished), None);
    assert_eq!(exit_error(&TunnelExit::Failed("x".to_string())), Some("x".to_string()));
    assert_eq!(
        exit_error(&TunnelExit::Panicked("x".to_string())),
        Some("Proxy task panicked: x".to_string())
    );
}

#[test]
fn a_started_plugin_is_stopped_before_the_end() {
    let exits = vec![
        (TunnelExit::Signal, None),
        (TunnelExit::Finished, None),
        (TunnelExit::Failed("x".to_string()), Some("x".to_string())),
        (TunnelExit::Panicked("x".to_string()), Some("Proxy task panicked: x".to_string())),
    ];
    for (exit, error) in exits {
        let steps = after_exit(&exit, true);
        assert_eq!(steps.len(), 2);
        assert!(matches!(steps[0], ExitStep::StopPlugin));
        assert!(matches!(&steps[1], ExitStep::Return(e) if *e == error));
        let steps = after_exit(&exit, false);
        assert_eq!(steps.len(), 1);
        assert!(matches!(&steps[0], ExitStep::Return(e) if *e == error));
    }
}
