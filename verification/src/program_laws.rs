//! What the program does, from its command line to its end.

use vstd::prelude::*;

use crate::addr::IpAddr;
use crate::addr_text::ip_of;
use crate::cli::candidates;
use crate::cli::config_flag;
use crate::cli::is_found;
use crate::cli::request_in;
use crate::cli::ConfigNotFound;
use crate::cli::MissingPath;
use crate::cli::Request;
use crate::config::ConfigView;
use crate::daemon::daemon_steps;
use crate::daemon::default_job;
use crate::daemon::ends_program;
use crate::daemon::exit_error_text;
use crate::daemon::exit_steps;
use crate::daemon::manager_step_of;
use crate::daemon::networkd_change;
use crate::daemon::poll_step;
use crate::daemon::steps_of;
use crate::daemon::tunnel_job;
use crate::daemon::DaemonError;
use crate::daemon::ExitStepView;
use crate::daemon::ManagerEvent;
use crate::daemon::ManagerStep;
use crate::daemon::PollStep;
use crate::daemon::Step;
use crate::daemon::TunnelExit;
use crate::plugin::endpoint_of;
use crate::plugin::env_of;
use crate::plugin::stop_step_of;
use crate::plugin::wait_step_of;
use crate::plugin::InvalidPluginHost;
use crate::plugin::StopEvent;
use crate::plugin::StopStep;
use crate::plugin::WaitStep;
use crate::route::are_gateways;
use crate::route::GatewayError;
use crate::route::Gateways;
use crate::server::host_port_text;
use crate::server::is_cipher;
use crate::server::is_dial_addr;
use crate::server::resolved;
use crate::server::session_step;
use crate::server::ServerAddr;
use crate::server::SessionEvent;
use crate::server::SessionStep;
use crate::server::SocketEndpoint;
use crate::stats::error_kind;
use crate::stats::next;
use crate::stats::no_counts;
use crate::stats::sums_fit;
use crate::stats::with_error;
use crate::stats::with_existing;
use crate::stats::with_success;
use crate::stats::Stats;
use crate::text::decimal;
use crate::text::occurs;
use crate::text::parsed_number;
use crate::text::stands_at;
use crate::text_laws::law_split_undoes_join;
use crate::text_laws::rejoined;
use crate::tun::is_interface_request;
use crate::tun::is_plan;
use crate::tun::op_failure_text;
use crate::tun::TunError;
use crate::tun::TunOp;
use crate::tunnel::Endpoint;

verus! {

/// A flag for the version wins over one for help, and without either the program
/// runs.
pub proof fn law_what_is_requested(args: Seq<Seq<char>>)
    ensures
        args.contains("--version"@) || args.contains("-V"@) ==> request_in(args)
            == Request::Version,
        !args.contains("--version"@) && !args.contains("-V"@) && (args.contains("--help"@)
            || args.contains("-h"@)) ==> request_in(args) == Request::Help,
        !args.contains("--version"@) && !args.contains("-V"@) && !args.contains("--help"@)
            && !args.contains("-h"@) ==> request_in(args) == Request::Run,
{
    if args.contains("--version"@) {
        let i = choose|i: int| 0 <= i < args.len() && args[i] == "--version"@;
        assert(crate::cli::is_flag(args[i], "--version"@, "-V"@));
    }
    if args.contains("-V"@) {
        let i = choose|i: int| 0 <= i < args.len() && args[i] == "-V"@;
        assert(crate::cli::is_flag(args[i], "--version"@, "-V"@));
    }
    if args.contains("--help"@) {
        let i = choose|i: int| 0 <= i < args.len() && args[i] == "--help"@;
        assert(crate::cli::is_flag(args[i], "--help"@, "-h"@));
    }
    if args.contains("-h"@) {
        let i = choose|i: int| 0 <= i < args.len() && args[i] == "-h"@;
        assert(crate::cli::is_flag(args[i], "--help"@, "-h"@));
    }
}

/// Arguments that are no flag for the configuration are passed over; without such a
/// flag there is no path, and with one at the end its path is missing.
pub proof fn law_other_arguments(arg: Seq<char>, rest: Seq<Seq<char>>)
    ensures
        config_flag(Seq::empty()) == Ok::<Option<Seq<char>>, MissingPath>(None),
        config_flag(seq!["--config"@]) == Err::<Option<Seq<char>>, MissingPath>(MissingPath),
        arg != "--config"@ && !stands_at(arg, 0, "--config="@) ==> config_flag(seq![arg] + rest)
            == config_flag(rest),
{
    assert((seq![arg] + rest).skip(1) =~= rest);
    assert((seq![arg] + rest)[0] == arg);
}

/// A path that is named is the only one looked at; without one, the file in the
/// current directory is taken if it is there, and else that of the system.
pub proof fn law_search_for_configuration(
    path: Seq<char>,
    here: bool,
    there: bool,
    r: Result<String, ConfigNotFound>,
)
    ensures
        is_found(Some(path), seq![here], r) ==> (here ==> r is Ok && r->Ok_0@ == path) && (!here
            ==> r is Err && r->Err_0 is Named && r->Err_0->Named_0@ == path),
        is_found(None, seq![here, there], r) ==> {
            &&& here ==> r is Ok && r->Ok_0@ == "ssroute.conf"@
            &&& !here && there ==> r is Ok && r->Ok_0@ == "/etc/ssroute/ssroute.conf"@
            &&& !here && !there ==> r is Err && r->Err_0 is Searched
        },
        candidates(Some(path)).len() == 1,
        candidates(None).len() == 2,
{
    if is_found(Some(path), seq![here], r) {
        assert(seq![here][0] == here);
    }
    if is_found(None, seq![here, there], r) {
        assert(seq![here, there][0] == here && seq![here, there][1] == there);
    }
}

/// The program does not start as a daemon without a server, its port or its password,
/// nor with a disguise by plugin but no plugin; otherwise it starts.
pub proof fn law_what_starts(c: ConfigView)
    ensures
        ({
            let no_server = c.ss_server.len() == 0 || c.ss_server_port == 0 || c.ss_password.len()
                == 0;
            let no_plugin = c.obfs_mode is Xray && c.ss_plugin.len() == 0;
            &&& c.ss_enabled && no_server ==> steps_of(c) == Err::<Seq<Step>, DaemonError>(
                DaemonError::MissingServer,
            )
            &&& c.ss_enabled && !no_server && no_plugin ==> steps_of(c) == Err::<
                Seq<Step>,
                DaemonError,
            >(DaemonError::MissingPlugin)
            &&& !c.ss_enabled || (!no_server && !no_plugin) ==> steps_of(c) is Ok
        }),
{
}

/// The steps of each mode: which are taken, in which order, and none twice. The
/// server is checked before the interface is made, and the interface is there before
/// it is configured.
pub proof fn law_steps(c: ConfigView)
    requires
        steps_of(c) is Ok,
    ensures
        !c.ss_enabled ==> steps_of(c)->Ok_0 == seq![
            Step::WriteNetworkd,
            Step::CreateTun(true),
            Step::ConfigureTun,
            Step::AddRoutes,
        ],
        c.ss_enabled ==> {
            let steps = steps_of(c)->Ok_0;
            let n: int = if c.obfs_mode is Xray {
                1
            } else {
                0
            };
            let m: int = if c.mtu > 0 {
                1
            } else {
                0
            };
            &&& steps.len() == n + 6 + m + 2
            &&& n == 1 ==> steps[0] == Step::StartPlugin
            &&& steps[n] == Step::BuildServer
            &&& steps[n + 1] == Step::WriteNetworkd
            &&& steps[n + 2] == Step::CreateTun(false)
            &&& steps[n + 3] == Step::WaitForInterface
            &&& steps[n + 4] == Step::LeaveUnmanaged
            &&& steps[n + 5] == Step::ConfigureTun
            &&& m == 1 ==> steps[n + 6] == Step::SetMtu
            &&& steps[n + 6 + m] == Step::AddRoutes
            &&& steps[n + 7 + m] == Step::RunTunnel
        },
{
    if !c.ss_enabled {
        assert(steps_of(c)->Ok_0 =~= seq![
            Step::WriteNetworkd,
            Step::CreateTun(true),
            Step::ConfigureTun,
            Step::AddRoutes,
        ]);
    } else {
        assert(steps_of(c)->Ok_0 == daemon_steps(c));
    }
}

/// A plugin or a server that fails ends the program, and so do an interface that
/// cannot be made and a tunnel that fails; one that cannot be configured does so in
/// oneshot mode alone. All else is passed over.
pub proof fn law_fatal_steps(step: Step, daemon: bool)
    ensures
        ends_program(step, daemon) <==> step == Step::StartPlugin || step == Step::BuildServer
            || step is CreateTun || step == Step::RunTunnel || (step == Step::ConfigureTun
            && !daemon),
{
}

/// Which routes are added: those of the directory "data" on the interface, where it
/// has a name and a gateway, and those of "default_route" on the default interface,
/// where it has a name and a gateway.
pub proof fn law_route_jobs(c: ConfigView)
    ensures
        tunnel_job(c).len() == (if c.interface.len() > 0 && (c.gateway.len() > 0 || c.gateway6.len()
            > 0) {
            1int
        } else {
            0
        }),
        tunnel_job(c).len() == 1 ==> {
            let j = tunnel_job(c)[0];
            &&& j.dir == "data"@ && j.interface == c.interface
            &&& j.gateway == c.gateway && j.gateway6 == c.gateway6
            &&& j.concurrency == c.concurrency
        },
        default_job(c).len() == (if c.default_interface.len() > 0 && c.default_gateway.len() > 0 {
            1int
        } else {
            0
        }),
        default_job(c).len() == 1 ==> {
            let j = default_job(c)[0];
            &&& j.dir == "default_route"@ && j.interface == c.default_interface
            &&& j.gateway == c.default_gateway && j.gateway6.len() == 0
            &&& j.concurrency == c.concurrency
        },
{
}

/// Something is looked for twenty times and no more.
pub proof fn law_twenty_looks(tries: u32, found: bool)
    ensures
        found ==> poll_step(tries, found) == PollStep::Found,
        !found && tries < 19 ==> poll_step(tries, found) == PollStep::Sleep,
        !found && tries >= 19 ==> poll_step(tries, found) == PollStep::GiveUp,
{
}

/// The file for systemd-networkd names the interface and says that it is not managed.
/// It is written unless it is there as it should be, or there is no interface.
pub proof fn law_networkd(interface: Seq<char>, other: Seq<char>)
    ensures
        ({
            let content = "[Match]\nName="@ + interface
                + "\n\n[Network]\nKeepConfiguration=yes\nIgnoreCarrierLoss=yes\n\n[Link]\nUnmanaged=yes\n"@;
            &&& interface.len() > 0 ==> networkd_change(interface, None) == Some(content)
            &&& interface.len() > 0 && other != content ==> networkd_change(interface, Some(other))
                == Some(content)
            &&& networkd_change(interface, Some(content)) is None
            &&& interface.len() == 0 ==> networkd_change(interface, Some(other)) is None
                && networkd_change(interface, None) is None
        }),
{
}

/// NetworkManager is told to leave the device alone once it is found, and is asked
/// for nothing where it does not run or cannot be reached.
pub proof fn law_network_manager(event: ManagerEvent)
    ensures
        manager_step_of(event) == ManagerStep::Unmanage <==> event == ManagerEvent::Looked(
            PollStep::Found,
        ),
        manager_step_of(event) == ManagerStep::Skip <==> event == ManagerEvent::Bus(false) || event
            == ManagerEvent::Running(false),
        manager_step_of(event) == ManagerStep::AskRunning <==> event == ManagerEvent::Bus(true),
        manager_step_of(event) == ManagerStep::Look <==> event == ManagerEvent::Running(true)
            || event == ManagerEvent::Looked(PollStep::Sleep),
        manager_step_of(event) == ManagerStep::TimedOut <==> event == ManagerEvent::Looked(
            PollStep::GiveUp,
        ),
{
}

/// How the program ends: without an error after a signal or a normal end, and with
/// that of the tunnel otherwise. A plugin that was started is stopped first.
pub proof fn law_ends(exit: TunnelExit, started: bool)
    ensures
        exit is Signal || exit is Finished ==> exit_error_text(exit) is None,
        exit matches TunnelExit::Failed(e) ==> exit_error_text(exit) == Some(e@),
        exit matches TunnelExit::Panicked(e) ==> exit_error_text(exit) == Some(
            "Proxy task panicked: "@ + e@,
        ),
        started ==> exit_steps(exit, started) == seq![
            ExitStepView::StopPlugin,
            ExitStepView::Return(exit_error_text(exit)),
        ],
        !started ==> exit_steps(exit, started) == seq![
            ExitStepView::Return(exit_error_text(exit)),
        ],
{
    if started {
        assert(exit_steps(exit, started) =~= seq![
            ExitStepView::StopPlugin,
            ExitStepView::Return(exit_error_text(exit)),
        ]);
    } else {
        assert(exit_steps(exit, started) =~= seq![ExitStepView::Return(exit_error_text(exit))]);
    }
}

/// What a plugin is told, by the names of the variables: the server's host and port,
/// the local host and the port to listen on, and its options if it has any.
pub proof fn law_plugin_environment(
    host: Seq<char>,
    port: u16,
    local_port: u16,
    opts: Seq<char>,
    name: Seq<char>,
    value: Seq<char>,
)
    ensures
        ({
            let env = env_of(host, port, local_port, opts);
            &&& env.contains(("SS_REMOTE_HOST"@, host))
            &&& env.contains(("SS_REMOTE_PORT"@, decimal(port as nat)))
            &&& env.contains(("SS_LOCAL_HOST"@, "127.0.0.1"@))
            &&& env.contains(("SS_LOCAL_PORT"@, decimal(local_port as nat)))
            &&& opts.len() > 0 ==> env.contains(("SS_PLUGIN_OPTIONS"@, opts))
            &&& env.contains((name, value)) ==> {
                ||| name == "SS_REMOTE_HOST"@ && value == host
                ||| name == "SS_REMOTE_PORT"@ && value == decimal(port as nat)
                ||| name == "SS_LOCAL_HOST"@ && value == "127.0.0.1"@
                ||| name == "SS_LOCAL_PORT"@ && value == decimal(local_port as nat)
                ||| name == "SS_PLUGIN_OPTIONS"@ && value == opts && opts.len() > 0
            }
        }),
{
    let env = env_of(host, port, local_port, opts);
    assert(env[0] == ("SS_REMOTE_HOST"@, host));
    assert(env[1] == ("SS_REMOTE_PORT"@, decimal(port as nat)));
    assert(env[2] == ("SS_LOCAL_HOST"@, "127.0.0.1"@));
    assert(env[3] == ("SS_LOCAL_PORT"@, decimal(local_port as nat)));
    if opts.len() > 0 {
        assert(env[4] == ("SS_PLUGIN_OPTIONS"@, opts));
    }
}

/// Where a plugin is reached, by its local address: at the host before the colon and
/// the port behind it, or the server's port where that is none. A host that is no
/// address is refused, and a text with no colon or several names no place.
pub proof fn law_plugin_places(host: Seq<char>, port: Seq<char>, more: Seq<char>, server_port: u16)
    requires
        !host.contains(':'),
        !port.contains(':'),
        !more.contains(':'),
    ensures
        ({
            let r = endpoint_of(host + seq![':'] + port, server_port);
            &&& ip_of(host) is None ==> r == Err::<Option<Endpoint>, InvalidPluginHost>(
                InvalidPluginHost,
            )
            &&& ip_of(host) is Some ==> r == Ok::<Option<Endpoint>, InvalidPluginHost>(
                Some(
                    Endpoint {
                        ip: ip_of(host).unwrap(),
                        port: match parsed_number(port, 65535) {
                            Some(n) => n as u16,
                            None => server_port,
                        },
                    },
                ),
            )
        }),
        endpoint_of(host, server_port) == Ok::<Option<Endpoint>, InvalidPluginHost>(None),
        endpoint_of(host + seq![':'] + (port + seq![':'] + more), server_port) == Ok::<
            Option<Endpoint>,
            InvalidPluginHost,
        >(None),
{
    let one = seq![host];
    let two = seq![host, port];
    let three = seq![host, port, more];
    law_split_undoes_join(one, ':');
    law_split_undoes_join(two, ':');
    law_split_undoes_join(three, ':');
    assert(two.skip(1) =~= seq![port]);
    assert(rejoined(two, ':') == host + seq![':'] + port) by {
        assert(rejoined(seq![port], ':') == port);
    }
    assert(three.skip(1) =~= seq![port, more]);
    assert(seq![port, more].skip(1) =~= seq![more]);
    assert(rejoined(seq![more], ':') == more);
    assert(rejoined(seq![port, more], ':') == port + seq![':'] + more);
    assert(rejoined(three, ':') == host + seq![':'] + (port + seq![':'] + more));
}

/// A plugin is waited for 5000 milliseconds at most, with sleeps of 100 milliseconds
/// that end there.
pub proof fn law_plugin_wait(elapsed: u64)
    ensures
        wait_step_of(elapsed, true) == WaitStep::Ready,
        elapsed >= 5000 ==> wait_step_of(elapsed, false) == WaitStep::TimedOut,
        elapsed <= 4900 ==> wait_step_of(elapsed, false) == WaitStep::Sleep(100),
        4900 < elapsed < 5000 ==> wait_step_of(elapsed, false) == WaitStep::Sleep(
            (5000 - elapsed) as u64,
        ),
{
}

/// Stopping a plugin: SIGTERM to one that runs, then a wait, and SIGKILL only where
/// the first could not be sent or the wait was in vain.
pub proof fn law_plugin_stop(event: StopEvent)
    ensures
        stop_step_of(event) == StopStep::Terminate <==> event == StopEvent::Begin(true),
        stop_step_of(event) == StopStep::Wait <==> event == StopEvent::TermSent(true),
        stop_step_of(event) == StopStep::Kill <==> event == StopEvent::TermSent(false),
        stop_step_of(event) == StopStep::KillAndWait <==> event == StopEvent::WaitTimedOut,
        stop_step_of(event) == StopStep::Done <==> event == StopEvent::Begin(false) || event
            == StopEvent::WaitEnded,
{
}

/// The gateways of routes: an empty text is none, an address is itself, and any other
/// text is refused, the first gateway before the second.
pub proof fn law_gateway_texts(
    gateway: Seq<char>,
    gateway6: Seq<char>,
    r: Result<Gateways, GatewayError>,
)
    requires
        are_gateways(gateway, gateway6, r),
    ensures
        ({
            let bad = gateway.len() > 0 && ip_of(gateway) is None;
            let bad6 = gateway6.len() > 0 && ip_of(gateway6) is None;
            &&& bad ==> r is Err && r->Err_0 is Gateway && r->Err_0->Gateway_0@ == gateway
            &&& !bad && bad6 ==> r is Err && r->Err_0 is Gateway6 && r->Err_0->Gateway6_0@
                == gateway6
            &&& !bad && !bad6 ==> r is Ok && r->Ok_0.gw == (if gateway.len() == 0 {
                None
            } else {
                ip_of(gateway)
            }) && r->Ok_0.gw6 == (if gateway6.len() == 0 {
                None
            } else {
                ip_of(gateway6)
            })
        }),
{
}

/// The ciphers by their names.
pub proof fn law_ciphers(lower: Seq<char>)
    ensures
        is_cipher("aes-128-gcm"@),
        is_cipher("aes-256-gcm"@),
        is_cipher("chacha20-ietf-poly1305"@),
        is_cipher(lower) ==> lower == "aes-128-gcm"@ || lower == "aes-256-gcm"@ || lower
            == "chacha20-ietf-poly1305"@ || lower == "plain"@ || lower == "none"@,
{
}

/// Where a server's packets go. UDP packets go to its address, or to the local host
/// for a host name; TCP streams go to the plugin if there is one.
pub proof fn law_where_packets_go(
    addr: ServerAddr,
    plugin: Option<Endpoint>,
    dial: ServerAddr,
)
    requires
        is_dial_addr(plugin, addr, dial),
    ensures
        addr matches ServerAddr::Socket(at) ==> resolved(addr) == at,
        addr matches ServerAddr::Domain(_, port) ==> resolved(addr).port == port
            && resolved(addr).ip == IpAddr::V4(0x7f00_0001) && resolved(addr).scope_id == 0,
        plugin matches Some(at) ==> dial == ServerAddr::Socket(
            SocketEndpoint { ip: at.ip, port: at.port, scope_id: 0 },
        ),
        plugin is None && addr is Socket ==> dial == addr,
        plugin is None && addr is Domain ==> dial is Domain && dial->Domain_0@ == addr->Domain_0@
            && dial->Domain_1 == addr->Domain_1,
{
}

/// A host and a port, with a colon between them.
pub proof fn law_host_and_port(host: Seq<char>, port: u16)
    ensures
        host_port_text(host, port).take(host.len() as int) == host,
        host_port_text(host, port)[host.len() as int] == ':',
        host_port_text(host, port).skip(host.len() as int + 1) == decimal(port as nat),
{
    let s = host_port_text(host, port);
    assert(s.take(host.len() as int) =~= host);
    assert(s.skip(host.len() as int + 1) =~= decimal(port as nat));
}

/// What happens in a UDP session: packets are sent and delivered, and whatever fails
/// or closes ends it.
pub proof fn law_session(event: SessionEvent)
    ensures
        session_step(event) == SessionStep::Send <==> event == SessionEvent::Outgoing,
        session_step(event) == SessionStep::Deliver <==> event == SessionEvent::Received,
        session_step(event) == SessionStep::Wait <==> event == SessionEvent::Sent(true) || event
            == SessionEvent::Delivered(true),
        session_step(event) == SessionStep::Stop <==> event == SessionEvent::OutgoingClosed || event
            == SessionEvent::ReceiveFailed || event == SessionEvent::Sent(false) || event
            == SessionEvent::Delivered(false),
{
}

/// An interface is requested by the bytes of its name, of which there are 15 at most,
/// with zeros behind them up to 16, as one for packets without further information.
pub proof fn law_interface_request(bytes: Seq<u8>, name: Seq<u8>, flags: u16)
    requires
        is_interface_request(bytes, name, flags),
    ensures
        bytes.len() <= 15,
        name.len() == 16,
        name.take(bytes.len() as int) == bytes,
        forall|i: int| bytes.len() <= i < 16 ==> #[trigger] name[i] == 0,
        flags == 0x0001 + 0x1000,
{
    assert(name.take(bytes.len() as int) =~= bytes);
}

/// Which names fit.
pub proof fn law_names_that_fit(bytes: Seq<u8>)
    ensures
        crate::tun::fits_name(bytes) <==> bytes.len() <= 15,
{
}

/// What is done to the interface: it gets the gateways as addresses, IPv4 with a
/// prefix of 24 and IPv6 with one of 64, then the MTU unless it is zero, and is then
/// brought up. An empty gateway is passed over. A faulty one stops everything behind
/// it, with an error that says what is wrong with it.
pub proof fn law_interface_configuration(
    gateway: Seq<char>,
    gateway6: Seq<char>,
    mtu: u16,
    ops: Seq<TunOp>,
    error: Option<TunError>,
)
    requires
        is_plan(gateway, gateway6, mtu, ops, error),
    ensures
        ({
            let four = ip_of(gateway) is Some && ip_of(gateway).unwrap() is V4;
            let six = ip_of(gateway6) is Some && ip_of(gateway6).unwrap() is V6;
            let a: int = if gateway.len() > 0 {
                1
            } else {
                0
            };
            let b: int = if gateway6.len() > 0 {
                1
            } else {
                0
            };
            let m: int = if mtu > 0 {
                1
            } else {
                0
            };
            if a == 1 && !four {
                &&& ops.len() == 0
                &&& ip_of(gateway) is None ==> error is Some && error.unwrap() is InvalidGateway
                &&& ip_of(gateway) is Some ==> error is Some && error.unwrap() is NotIpv4
            } else if b == 1 && !six {
                &&& ops.len() == a
                &&& a == 1 ==> ops[0] == TunOp::AddAddress(ip_of(gateway).unwrap(), 24)
                &&& ip_of(gateway6) is None ==> error is Some && error.unwrap() is InvalidGateway6
                &&& ip_of(gateway6) is Some ==> error is Some && error.unwrap() is NotIpv6
            } else {
                &&& error is None
                &&& ops.len() == a + b + m + 1
                &&& a == 1 ==> ops[0] == TunOp::AddAddress(ip_of(gateway).unwrap(), 24)
                &&& b == 1 ==> ops[a] == TunOp::AddAddress(ip_of(gateway6).unwrap(), 64)
                &&& m == 1 ==> ops[a + b] == TunOp::SetMtu(mtu)
                &&& ops[a + b + m] == TunOp::BringUp
            }
        }),
{
}

/// The one failure that is passed over is that of an address which the interface has
/// already, as the message says.
pub proof fn law_failures_passed_over(op: TunOp, name: Seq<char>, message: Seq<char>)
    ensures
        op_failure_text(op, name, message) is None <==> op is AddAddress && (occurs(
            message,
            "File exists"@,
        ) || occurs(message, "EEXIST"@)),
{
}

/// The counters: each begins at zero and goes up by one for what it counts, and no
/// other changes.
pub proof fn law_counters(s: Stats, kind: Seq<char>)
    ensures
        no_counts().success == 0 && no_counts().already_exist == 0
            && no_counts().network_unreachable == 0 && no_counts().operation_not_permitted == 0
            && no_counts().invalid_argument == 0 && no_counts().no_route_to_host == 0
            && no_counts().unknown_error == 0,
        s.success < i64::MAX ==> next(s.success) == s.success + 1,
        with_success(s) == (Stats { success: next(s.success), ..s }),
        with_existing(s) == (Stats { already_exist: next(s.already_exist), ..s }),
        kind == "network_unreachable"@ ==> with_error(s, kind) == (Stats {
            network_unreachable: next(s.network_unreachable),
            ..s
        }),
        kind == "operation_not_permitted"@ ==> with_error(s, kind) == (Stats {
            operation_not_permitted: next(s.operation_not_permitted),
            ..s
        }),
        kind == "invalid_argument"@ ==> with_error(s, kind) == (Stats {
            invalid_argument: next(s.invalid_argument),
            ..s
        }),
        kind == "no_route_to_host"@ ==> with_error(s, kind) == (Stats {
            no_route_to_host: next(s.no_route_to_host),
            ..s
        }),
        kind != "network_unreachable"@ && kind != "operation_not_permitted"@ && kind
            != "invalid_argument"@ && kind != "no_route_to_host"@ ==> with_error(s, kind) == (
        Stats { unknown_error: next(s.unknown_error), ..s }),
{
    reveal_strlit("network_unreachable");
    reveal_strlit("operation_not_permitted");
    reveal_strlit("invalid_argument");
    reveal_strlit("no_route_to_host");
    assert("network_unreachable"@.len() == 19 && "operation_not_permitted"@.len() == 23);
    assert("invalid_argument"@.len() == 16 && "no_route_to_host"@.len() == 16);
    assert("invalid_argument"@[0] == 'i' && "no_route_to_host"@[0] == 'n');
}

/// What a message in small letters tells of, in the order in which the texts are
/// looked for.
pub proof fn law_kinds_of_errors(lower: Seq<char>)
    ensures
        ({
            let exists = occurs(lower, "file exists"@);
            let network = occurs(lower, "network is unreachable"@);
            let device = occurs(lower, "no such device"@);
            let permitted = occurs(lower, "operation not permitted"@);
            let argument = occurs(lower, "invalid argument"@);
            let host = occurs(lower, "no route to host"@);
            let none = !exists && !network && !device && !permitted && !argument && !host;
            &&& exists ==> error_kind(lower) == "file_exists"@
            &&& !exists && network ==> error_kind(lower) == "network_unreachable"@
            &&& !exists && !network && device ==> error_kind(lower) == "no_such_device"@
            &&& !exists && !network && !device && permitted ==> error_kind(lower)
                == "operation_not_permitted"@
            &&& !exists && !network && !device && !permitted && argument ==> error_kind(lower)
                == "invalid_argument"@
            &&& !exists && !network && !device && !permitted && !argument && host ==> error_kind(
                lower,
            ) == "no_route_to_host"@
            &&& none ==> error_kind(lower) == "unknown"@
        }),
{
}

/// The counters can be added up whenever none is negative and all together fit.
pub proof fn law_counters_fit(s: Stats)
    requires
        s.success >= 0 && s.already_exist >= 0 && s.network_unreachable >= 0
            && s.operation_not_permitted >= 0 && s.invalid_argument >= 0 && s.no_route_to_host >= 0
            && s.unknown_error >= 0,
        s.success + s.already_exist + s.network_unreachable + s.operation_not_permitted
            + s.invalid_argument + s.no_route_to_host + s.unknown_error <= i64::MAX,
    ensures
        sums_fit(s),
{
}

} // verus!
