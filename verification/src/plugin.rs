//! SIP003 plugins, which stand between this program and the server.
//!
//! A plugin is told by environment variables where to listen and where to send
//! what it hears.

use vstd::prelude::*;

use crate::addr::IpAddr;
use crate::addr_laws::dotted;
use crate::addr_laws::law_dotted_reads_back;
use crate::addr_text::ip_of;
use crate::server::host_port_text;
use crate::server::is_dial_addr;
use crate::server::join_host_port;
use crate::server::ServerAddr;
use crate::server::SocketEndpoint;
use crate::text::decimal;
use crate::text::decimal_text;
use crate::text::is_digit;
use crate::text::law_decimal_reads_back;
use crate::text::lemma_decimal;
use crate::text::lemma_split_alone;
use crate::text::lemma_split_at;
use crate::text::parse_number;
use crate::text::parsed_number;
use crate::text::split_parts;
use crate::text::split_text;
use crate::text::texts;
use crate::tunnel::Endpoint;

verus! {

/// An environment variable.
#[derive(Debug)]
pub struct EnvVar {
    pub name: String,
    pub value: String,
}

/// The names and values of environment variables.
pub open spec fn env_view(vars: Seq<EnvVar>) -> Seq<(Seq<char>, Seq<char>)> {
    vars.map_values(|v: EnvVar| (v.name@, v.value@))
}

/// What a plugin is told. Options are left out where there are none.
pub open spec fn env_of(
    remote_host: Seq<char>,
    remote_port: u16,
    local_port: u16,
    plugin_opts: Seq<char>,
) -> Seq<(Seq<char>, Seq<char>)> {
    let vars = seq![
        ("SS_REMOTE_HOST"@, remote_host),
        ("SS_REMOTE_PORT"@, decimal(remote_port as nat)),
        ("SS_LOCAL_HOST"@, "127.0.0.1"@),
        ("SS_LOCAL_PORT"@, decimal(local_port as nat)),
    ];
    if plugin_opts.len() == 0 {
        vars
    } else {
        vars.push(("SS_PLUGIN_OPTIONS"@, plugin_opts))
    }
}

/// What a plugin is told.
pub fn plugin_env(remote_host: &str, remote_port: u16, local_port: u16, plugin_opts: &str) -> (r:
    Vec<EnvVar>)
    ensures
        env_view(r@) == env_of(remote_host@, remote_port, local_port, plugin_opts@),
{
    let mut vars: Vec<EnvVar> = Vec::new();
    vars.push(
        EnvVar { name: "SS_REMOTE_HOST".to_string(), value: remote_host.to_string() },
    );
    vars.push(
        EnvVar { name: "SS_REMOTE_PORT".to_string(), value: decimal_text(remote_port as u64) },
    );
    vars.push(EnvVar { name: "SS_LOCAL_HOST".to_string(), value: "127.0.0.1".to_string() });
    vars.push(
        EnvVar { name: "SS_LOCAL_PORT".to_string(), value: decimal_text(local_port as u64) },
    );
    if !plugin_opts.is_empty() {
        vars.push(
            EnvVar { name: "SS_PLUGIN_OPTIONS".to_string(), value: plugin_opts.to_string() },
        );
    }
    assert(env_view(vars@) =~= env_of(remote_host@, remote_port, local_port, plugin_opts@));
    vars
}

/// Where a plugin listens.
pub fn plugin_local_addr(local_port: u16) -> (r: String)
    ensures
        r@ == host_port_text("127.0.0.1"@, local_port),
{
    join_host_port("127.0.0.1", local_port)
}

/// The host that a plugin is said to listen on is no IP address.
#[derive(Debug, Clone, Copy, PartialEq, Eq, Structural)]
pub struct InvalidPluginHost;

impl InvalidPluginHost {
    /// What is said of it.
    pub fn message(&self) -> (r: String)
        ensures
            r@ == "invalid IP address syntax"@,
    {
        "invalid IP address syntax".to_string()
    }
}

/// Where a plugin with the given local address is reached. A port that cannot be
/// read stands for that of the server, and a text without exactly one colon for
/// no place at all.
pub open spec fn endpoint_of(local_addr: Seq<char>, ss_server_port: u16) -> Result<
    Option<Endpoint>,
    InvalidPluginHost,
> {
    let parts = split_parts(local_addr, ':');
    if parts.len() != 2 {
        Ok(None)
    } else {
        match ip_of(parts[0]) {
            Some(ip) => Ok(
                Some(
                    Endpoint {
                        ip,
                        port: match parsed_number(parts[1], 65535) {
                            Some(port) => port as u16,
                            None => ss_server_port,
                        },
                    },
                ),
            ),
            None => Err(InvalidPluginHost),
        }
    }
}

/// Where a plugin with the given local address is reached.
pub fn plugin_endpoint(local_addr: &str, ss_server_port: u16) -> (r: Result<
    Option<Endpoint>,
    InvalidPluginHost,
>)
    ensures
        r == endpoint_of(local_addr@, ss_server_port),
{
    let parts = split_text(local_addr, ':');
    let ghost p = split_parts(local_addr@, ':');
    assert(texts(parts@).len() == parts@.len());
    if parts.len() != 2 {
        return Ok(None);
    }
    assert(p[0] == parts@[0]@ && p[1] == parts@[1]@);
    match IpAddr::parse(parts[0].as_str()) {
        Some(ip) => {
            let port: u16 = match parse_number(parts[1].as_str(), 65535) {
                Some(port) => port as u16,
                None => ss_server_port,
            };
            Ok(Some(Endpoint { ip, port }))
        },
        None => Err(InvalidPluginHost),
    }
}

/// How long a plugin may take to become ready, in milliseconds.
pub const READY_LIMIT: u64 = 5000;

/// How long the program sleeps between two looks at a plugin, in milliseconds.
pub const READY_SLEEP: u64 = 100;

/// What is to be done while a plugin is waited for.
#[derive(Debug, Clone, Copy, PartialEq, Eq, Structural)]
pub enum WaitStep {
    /// Go on: the plugin is ready.
    Ready,
    /// Sleep for so many milliseconds, then look again.
    Sleep(u64),
    /// Go on without the plugin being ready.
    TimedOut,
}

/// What a look at a plugin calls for, so many milliseconds after it was started.
pub open spec fn wait_step_of(elapsed_ms: u64, ready: bool) -> WaitStep {
    if ready {
        WaitStep::Ready
    } else if elapsed_ms >= READY_LIMIT {
        WaitStep::TimedOut
    } else if READY_LIMIT - elapsed_ms < READY_SLEEP {
        WaitStep::Sleep((READY_LIMIT - elapsed_ms) as u64)
    } else {
        WaitStep::Sleep(READY_SLEEP)
    }
}

/// Decides on a look at a plugin. It is waited for up to 5 seconds.
pub fn plugin_wait_step(elapsed_ms: u64, ready: bool) -> (r: WaitStep)
    ensures
        r == wait_step_of(elapsed_ms, ready),
{
    if ready {
        WaitStep::Ready
    } else if elapsed_ms >= READY_LIMIT {
        WaitStep::TimedOut
    } else if READY_LIMIT - elapsed_ms < READY_SLEEP {
        WaitStep::Sleep(READY_LIMIT - elapsed_ms)
    } else {
        WaitStep::Sleep(READY_SLEEP)
    }
}

/// Waiting for a plugin ends: a sleep takes some time but none past the limit, and
/// from there on the program goes on whether the plugin is ready or not.
pub proof fn law_wait_is_bounded(elapsed_ms: u64, ready: bool)
    ensures
        wait_step_of(elapsed_ms, ready) matches WaitStep::Sleep(ms) ==> 0 < ms && elapsed_ms + ms
            <= READY_LIMIT,
        elapsed_ms >= READY_LIMIT ==> !(wait_step_of(elapsed_ms, ready) is Sleep),
{
}

/// What happens while a plugin is stopped.
#[derive(Debug, Clone, Copy, PartialEq, Eq, Structural)]
pub enum StopEvent {
    /// The plugin is to be stopped. Says whether it still runs.
    Begin(bool),
    /// SIGTERM was sent, or could not be.
    TermSent(bool),
    /// The plugin ended, or waiting for it failed.
    WaitEnded,
    /// The plugin did not end within five seconds.
    WaitTimedOut,
}

/// What is to be done next to stop a plugin.
#[derive(Debug, Clone, Copy, PartialEq, Eq, Structural)]
pub enum StopStep {
    /// Send SIGTERM.
    Terminate,
    /// Wait up to five seconds for the end of the plugin.
    Wait,
    /// Send SIGKILL.
    Kill,
    /// Send SIGKILL and wait for the end of the plugin.
    KillAndWait,
    /// Nothing.
    Done,
}

/// What an event calls for while a plugin is stopped.
pub open spec fn stop_step_of(event: StopEvent) -> StopStep {
    match event {
        StopEvent::Begin(runs) => if runs {
            StopStep::Terminate
        } else {
            StopStep::Done
        },
        StopEvent::TermSent(sent) => if sent {
            StopStep::Wait
        } else {
            StopStep::Kill
        },
        StopEvent::WaitEnded => StopStep::Done,
        StopEvent::WaitTimedOut => StopStep::KillAndWait,
    }
}

/// Gracefully stop a running plugin process.
/// Sends SIGTERM first, waits up to 5 seconds, then SIGKILL.
pub fn stop_step(event: StopEvent) -> (r: StopStep)
    ensures
        r == stop_step_of(event),
{
    match event {
        StopEvent::Begin(runs) => if runs {
            StopStep::Terminate
        } else {
            StopStep::Done
        },
        StopEvent::TermSent(sent) => if sent {
            StopStep::Wait
        } else {
            StopStep::Kill
        },
        StopEvent::WaitEnded => StopStep::Done,
        StopEvent::WaitTimedOut => StopStep::KillAndWait,
    }
}

/// SIGKILL is sent only where SIGTERM could not be sent or did not end the
/// plugin in time.
pub proof fn law_kill_is_last(event: StopEvent)
    ensures
        stop_step_of(event) == StopStep::Kill <==> event == StopEvent::TermSent(false),
        stop_step_of(event) == StopStep::KillAndWait <==> event == StopEvent::WaitTimedOut,
{
}

/// A plugin is reached where it was told to listen: the place that is read from
/// its local address is the local host, and the port that it was given.
pub proof fn law_plugin_is_reached(local_port: u16, ss_server_port: u16)
    ensures
        endpoint_of(host_port_text("127.0.0.1"@, local_port), ss_server_port) == Ok::<
            Option<Endpoint>,
            InvalidPluginHost,
        >(Some(Endpoint { ip: IpAddr::V4(0x7f00_0001), port: local_port })),
{
    let host = "127.0.0.1"@;
    let digits = decimal(local_port as nat);
    reveal_strlit("127.0.0.1");
    assert(host =~= dotted(127, 0, 0, 1)) by {
        reveal_with_fuel(decimal, 4);
    }
    law_dotted_reads_back(127, 0, 0, 1);
    lemma_decimal(local_port as nat);
    assert(!digits.contains(':')) by {
        assert forall|i: int| 0 <= i < digits.len() implies digits[i] != ':' by {
            assert(is_digit(digits[i]));
        }
    }
    lemma_split_alone(digits, ':');
    lemma_split_at(host, ':', digits);
    law_decimal_reads_back(local_port as nat, 65535);
}

/// With a plugin that was told to listen on a port, TCP streams go there and not to
/// the server.
pub proof fn law_streams_go_to_the_plugin(
    local_port: u16,
    ss_server_port: u16,
    addr: ServerAddr,
    r: ServerAddr,
)
    requires
        is_dial_addr(
            endpoint_of(host_port_text("127.0.0.1"@, local_port), ss_server_port)->Ok_0,
            addr,
            r,
        ),
    ensures
        r == ServerAddr::Socket(
            SocketEndpoint { ip: IpAddr::V4(0x7f00_0001), port: local_port, scope_id: 0 },
        ),
{
    law_plugin_is_reached(local_port, ss_server_port);
}

} // verus!
