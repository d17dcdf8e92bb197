//! What is said of each fault, and what the views of values hold.

use vstd::prelude::*;

use crate::cli::not_found_text;
use crate::cli::text_of;
use crate::cli::ConfigNotFound;
use crate::config::error_text;
use crate::config::is_outcome;
use crate::config::Config;
use crate::config::ConfigError;
use crate::config::ConfigView;
use crate::config::Outcome;
use crate::config::Setting;
use crate::daemon::daemon_error_text;
use crate::daemon::exit_views;
use crate::daemon::job_views;
use crate::daemon::text_option;
use crate::daemon::DaemonError;
use crate::daemon::ExitStep;
use crate::daemon::ExitStepView;
use crate::daemon::RouteJob;
use crate::icmp::bytes_of;
use crate::plugin::env_view;
use crate::plugin::EnvVar;
use crate::response::packet_of;
use crate::response::tunnel_error_text;
use crate::response::TunnelError;
use crate::route::destination_text;
use crate::route::gateway_text;
use crate::route::DestinationFault;
use crate::route::GatewayError;
use crate::route_loader::failure_text;
use crate::server::host_port;
use crate::server::server_error_text;
use crate::server::HostPort;
use crate::server::ServerError;
use crate::stats::report;
use crate::stats::Stats;
use crate::text::decimal;
use crate::text::halves_of;
use crate::text::nat_of;
use crate::text::signed_decimal;
use crate::text::stands_at;
use crate::tun::op_failure_text;
use crate::tun::tun_error_text;
use crate::tun::TunError;
use crate::tun::TunOp;

verus! {

/// Whether a text is made of a front and the value that it is about.
pub open spec fn tells_of(text: Seq<char>, front: Seq<char>, value: Seq<char>) -> bool {
    &&& text.len() == front.len() + value.len()
    &&& text.take(front.len() as int) == front
    &&& text.skip(front.len() as int) == value
}

proof fn lemma_tells_of(front: Seq<char>, value: Seq<char>)
    ensures
        tells_of(front + value, front, value),
{
    assert((front + value).take(front.len() as int) =~= front);
    assert((front + value).skip(front.len() as int) =~= value);
}

/// What is said of values in a configuration that are refused.
pub proof fn law_configuration_messages(value: Seq<char>)
    ensures
        error_text(Setting::Boolean, value) == "boolean value expected, got '"@ + value + "'"@,
        error_text(Setting::Concurrency, value) == "invalid concurrency value '"@ + value + "'"@,
        error_text(Setting::Mtu, value) == "invalid mtu value '"@ + value + "'"@,
        error_text(Setting::ServerPort, value) == "invalid ss_server_port value '"@ + value + "'"@,
        tells_of(error_text(Setting::ObfsMode, value), "unknown obfs_mode: "@, value),
{
    lemma_tells_of("unknown obfs_mode: "@, value);
}

/// What is said of destinations and gateways that are refused.
pub proof fn law_route_messages(dest: Seq<char>, prefix: u8, max: u8, e: GatewayError, reason: Seq<char>)
    ensures
        tells_of(
            destination_text(DestinationFault::InvalidCidrIp, dest),
            "invalid IP in CIDR: "@,
            dest,
        ),
        tells_of(
            destination_text(DestinationFault::InvalidCidrPrefix, dest),
            "invalid prefix in CIDR: "@,
            dest,
        ),
        tells_of(
            destination_text(DestinationFault::InvalidIp, dest),
            "invalid IP address: "@,
            dest,
        ),
        tells_of(
            destination_text(DestinationFault::PrefixTooLong(prefix, max), dest),
            "prefix length "@ + decimal(prefix as nat) + " exceeds "@ + decimal(max as nat)
                + " in: "@,
            dest,
        ),
        e matches GatewayError::Gateway(s) ==> tells_of(
            gateway_text(e),
            "invalid gateway IP: "@,
            s@,
        ),
        e matches GatewayError::Gateway6(s) ==> tells_of(
            gateway_text(e),
            "invalid gateway6 IP: "@,
            s@,
        ),
        tells_of(
            failure_text(dest, reason),
            "Failed to add route "@ + dest + ": "@,
            reason,
        ),
{
    lemma_tells_of("invalid IP in CIDR: "@, dest);
    lemma_tells_of("invalid prefix in CIDR: "@, dest);
    lemma_tells_of("invalid IP address: "@, dest);
    lemma_tells_of(
        "prefix length "@ + decimal(prefix as nat) + " exceeds "@ + decimal(max as nat) + " in: "@,
        dest,
    );
    lemma_tells_of("Failed to add route "@ + dest + ": "@, reason);
    match e {
        GatewayError::Gateway(s) => lemma_tells_of("invalid gateway IP: "@, s@),
        GatewayError::Gateway6(s) => lemma_tells_of("invalid gateway6 IP: "@, s@),
    }
}

/// What is said when the interface cannot be configured, or a step of that fails.
pub proof fn law_interface_messages(e: TunError, mtu: u16, name: Seq<char>, message: Seq<char>)
    ensures
        e matches TunError::InvalidGateway(s) ==> tells_of(
            tun_error_text(e),
            "invalid gateway IP: "@,
            s@,
        ),
        e matches TunError::NotIpv4(s) ==> tells_of(
            tun_error_text(e),
            "gateway must be IPv4 address: "@,
            s@,
        ),
        e matches TunError::InvalidGateway6(s) ==> tells_of(
            tun_error_text(e),
            "invalid gateway6 IP: "@,
            s@,
        ),
        e matches TunError::NotIpv6(s) ==> tells_of(
            tun_error_text(e),
            "gateway6 must be IPv6 address: "@,
            s@,
        ),
        op_failure_text(TunOp::BringUp, name, message) is Some,
        tells_of(
            op_failure_text(TunOp::BringUp, name, message).unwrap(),
            "bring up interface "@,
            name,
        ),
        op_failure_text(TunOp::SetMtu(mtu), name, message) is Some,
        tells_of(
            op_failure_text(TunOp::SetMtu(mtu), name, message).unwrap(),
            "set MTU "@ + decimal(mtu as nat) + " on interface "@,
            name,
        ),
{
    lemma_tells_of("bring up interface "@, name);
    lemma_tells_of("set MTU "@ + decimal(mtu as nat) + " on interface "@, name);
    match e {
        TunError::InvalidGateway(s) => lemma_tells_of("invalid gateway IP: "@, s@),
        TunError::NotIpv4(s) => lemma_tells_of("gateway must be IPv4 address: "@, s@),
        TunError::InvalidGateway6(s) => lemma_tells_of("invalid gateway6 IP: "@, s@),
        TunError::NotIpv6(s) => lemma_tells_of("gateway6 must be IPv6 address: "@, s@),
    }
}

/// What is said of a server that is refused, of a daemon that cannot start, of a
/// configuration that is missing and of a packet that cannot be built.
pub proof fn law_other_messages(e: ServerError, c: ConfigNotFound, v: u8)
    ensures
        e matches ServerError::UnknownCipher(s) ==> tells_of(
            server_error_text(e),
            "unknown cipher: "@,
            s@,
        ),
        e matches ServerError::InvalidAddress(s) ==> server_error_text(e)
            == "invalid SS server address '"@ + s@ + "': ServerAddrError"@,
        e matches ServerError::InvalidConfig(s) ==> tells_of(
            server_error_text(e),
            "invalid SS config: "@,
            s@,
        ),
        e matches ServerError::InvalidServerConfig(s) ==> tells_of(
            server_error_text(e),
            "invalid SS server config: "@,
            s@,
        ),
        c matches ConfigNotFound::Named(s) ==> tells_of(
            not_found_text(c),
            "config file not found: "@,
            s@,
        ),
        daemon_error_text(DaemonError::MissingServer)
            == "Shadowsocks is enabled but ss_server, ss_server_port, or ss_password is not set"@,
        daemon_error_text(DaemonError::MissingPlugin) == "obfs_mode=xray but ss_plugin is not set"@,
        tells_of(
            tunnel_error_text(TunnelError::UnsupportedVersion(v)),
            "unsupported IP version: "@,
            decimal(v as nat),
        ),
        tells_of(
            tunnel_error_text(TunnelError::UnsupportedProtocol(v)),
            "unsupported protocol: "@,
            decimal(v as nat),
        ),
{
    lemma_tells_of("unsupported IP version: "@, decimal(v as nat));
    lemma_tells_of("unsupported protocol: "@, decimal(v as nat));
    match e {
        ServerError::UnknownCipher(s) => lemma_tells_of("unknown cipher: "@, s@),
        ServerError::InvalidAddress(_) => {},
        ServerError::InvalidConfig(s) => lemma_tells_of("invalid SS config: "@, s@),
        ServerError::InvalidServerConfig(s) => lemma_tells_of("invalid SS server config: "@, s@),
    }
    match c {
        ConfigNotFound::Named(s) => lemma_tells_of("config file not found: "@, s@),
        ConfigNotFound::Searched => {},
    }
}

/// A line with a counter.
pub open spec fn line_of(label: Seq<char>, n: int) -> Seq<char> {
    label + signed_decimal(n) + "\n"@
}

/// A line with a counter that is shown only when it is positive.
pub open spec fn line_if(label: Seq<char>, n: int) -> Seq<char> {
    if n > 0 {
        line_of(label, n)
    } else {
        Seq::empty()
    }
}

/// The report shows the routes that were added and that were there, the kinds of
/// errors that occurred, and the number of all.
pub proof fn law_report(s: Stats)
    ensures
        report(s) == "\n========== Statistics ==========\n"@ + line_of(
            "Successfully added: "@,
            s.success as int,
        ) + line_of("Already existed (skipped): "@, s.already_exist as int) + line_if(
            "Network unreachable: "@,
            s.network_unreachable as int,
        ) + line_if("Operation not permitted: "@, s.operation_not_permitted as int) + line_if(
            "Invalid argument: "@,
            s.invalid_argument as int,
        ) + line_if("No route to host: "@, s.no_route_to_host as int) + line_if(
            "Unknown errors: "@,
            s.unknown_error as int,
        ) + line_of(
            "Total processed: "@,
            s.success + s.already_exist + s.network_unreachable + s.operation_not_permitted
                + s.invalid_argument + s.no_route_to_host + s.unknown_error,
        ) + "================================"@,
{
}

/// What stands at a place of a text has that much before it and the rest behind it.
pub proof fn law_stands_at(a: Seq<char>, part: Seq<char>, b: Seq<char>, s: Seq<char>, at: int)
    ensures
        stands_at(a + part + b, a.len() as int, part),
        stands_at(s, at, part) ==> exists|x: Seq<char>, y: Seq<char>|
            x.len() == at && s == #[trigger] (x + part + y),
{
    let whole = a + part + b;
    assert(whole.subrange(a.len() as int, a.len() as int + part.len()) =~= part);
    if stands_at(s, at, part) {
        let x = s.take(at);
        let y = s.skip(at + part.len());
        assert(s =~= x + part + y);
    }
}

/// The view of the settings holds each of them.
pub proof fn law_view_of_settings(c: Config, e: ConfigError)
    ensures
        c@.gateway == c.gateway@ && c@.gateway6 == c.gateway6@ && c@.interface == c.interface@,
        c@.default_gateway == c.default_gateway@ && c@.default_interface == c.default_interface@,
        c@.concurrency == c.concurrency && c@.mtu == c.mtu && c@.ss_enabled == c.ss_enabled,
        c@.ss_server == c.ss_server@ && c@.ss_server_port == c.ss_server_port,
        c@.ss_password == c.ss_password@ && c@.ss_method == c.ss_method@,
        c@.obfs_mode == c.obfs_mode && c@.obfs_host == c.obfs_host@,
        c@.ss_plugin == c.ss_plugin@ && c@.ss_plugin_opts == c.ss_plugin_opts@,
        e@ == (e.setting, e.value@),
{
}

/// An assignment that is accepted gives the settings that it should, and one that is
/// refused changes nothing and says which value of which setting it was.
pub proof fn law_outcomes(
    r: Result<(), ConfigError>,
    before: ConfigView,
    after: ConfigView,
    outcome: Outcome,
)
    requires
        is_outcome(r, before, after, outcome),
    ensures
        outcome matches Ok(c) ==> r is Ok && after == c,
        outcome matches Err(e) ==> r is Err && r->Err_0.setting == e.0 && r->Err_0.value@ == e.1
            && after == before,
{
}

/// The views of lists and of optional values leave nothing out.
pub proof fn law_views(
    vars: Seq<EnvVar>,
    jobs: Seq<RouteJob>,
    steps: Seq<ExitStep>,
    text: Option<String>,
    host: Option<HostPort>,
    i: int,
)
    ensures
        env_view(vars).len() == vars.len(),
        0 <= i < vars.len() ==> env_view(vars)[i] == (vars[i].name@, vars[i].value@),
        job_views(jobs).len() == jobs.len(),
        0 <= i < jobs.len() ==> {
            let j = job_views(jobs)[i];
            &&& j.dir == jobs[i].dir@ && j.interface == jobs[i].interface@
            &&& j.gateway == jobs[i].gateway@ && j.gateway6 == jobs[i].gateway6@
            &&& j.concurrency == jobs[i].concurrency
        },
        exit_views(steps).len() == steps.len(),
        0 <= i < steps.len() ==> {
            &&& steps[i] is StopPlugin <==> exit_views(steps)[i] == ExitStepView::StopPlugin
            &&& steps[i] matches ExitStep::Return(e) ==> exit_views(steps)[i]
                == ExitStepView::Return(text_option(e))
        },
        text matches Some(s) ==> text_of(text) == Some(s@) && text_option(text) == Some(s@),
        text is None ==> text_of(text) is None && text_option(text) is None,
        host matches Some(h) ==> host_port(host) == Some((h.host@, h.port, h.numeric)),
        host is None ==> host_port(host) is None,
{
}

/// The views of results leave nothing out.
pub proof fn law_views_of_results(
    packet: Result<Vec<u8>, TunnelError>,
    bytes: Option<Vec<u8>>,
    halves: Option<(&str, &str)>,
    number: Option<u64>,
)
    ensures
        packet matches Ok(v) ==> packet_of(packet) == Ok::<Seq<u8>, TunnelError>(v@),
        packet matches Err(e) ==> packet_of(packet) == Err::<Seq<u8>, TunnelError>(e),
        bytes matches Some(v) ==> bytes_of(bytes) == Some(v@),
        bytes is None ==> bytes_of(bytes) is None,
        halves matches Some((a, b)) ==> halves_of(halves) == Some((a@, b@)),
        halves is None ==> halves_of(halves) is None,
        number matches Some(n) ==> nat_of(number) == Some(n as nat),
        number is None ==> nat_of(number) is None,
{
}

} // verus!
