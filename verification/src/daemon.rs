//! What the program does, in order, in each of its modes.

use vstd::prelude::*;
use vstd::string::StringExecFns;

use crate::config::Config;
use crate::config::ConfigView;
use crate::config::ObfsMode;
use crate::text::joined;
use crate::text::same_text;

verus! {

/// A step of the program.
#[derive(Debug, Clone, Copy, PartialEq, Eq, Structural)]
pub enum Step {
    /// Start the plugin, and find out where it is reached.
    StartPlugin,
    /// Check the settings of the server.
    BuildServer,
    /// Tell systemd-networkd to leave the interface alone.
    WriteNetworkd,
    /// Create the interface. Says whether it stays when the program ends.
    CreateTun(bool),
    /// Wait for the interface to appear.
    WaitForInterface,
    /// Tell NetworkManager to leave the interface alone.
    LeaveUnmanaged,
    /// Give the interface its addresses and its MTU, and bring it up.
    ConfigureTun,
    /// Set the MTU once more.
    SetMtu,
    /// Add the routes.
    AddRoutes,
    /// Forward packets until told to stop.
    RunTunnel,
}

/// Why the daemon cannot start.
#[derive(Debug, Clone, Copy, PartialEq, Eq, Structural)]
pub enum DaemonError {
    MissingServer,
    MissingPlugin,
}

/// What is said when the daemon cannot start.
pub open spec fn daemon_error_text(e: DaemonError) -> Seq<char> {
    match e {
        DaemonError::MissingServer =>
            "Shadowsocks is enabled but ss_server, ss_server_port, or ss_password is not set"@,
        DaemonError::MissingPlugin => "obfs_mode=xray but ss_plugin is not set"@,
    }
}

impl DaemonError {
    /// What is said of it.
    pub fn message(&self) -> (r: String)
        ensures
            r@ == daemon_error_text(*self),
    {
        match self {
            DaemonError::MissingServer =>
                "Shadowsocks is enabled but ss_server, ss_server_port, or ss_password is not set".to_string(),
            DaemonError::MissingPlugin => "obfs_mode=xray but ss_plugin is not set".to_string(),
        }
    }
}

/// The steps that set up the interface, with the packets forwarded by someone
/// else.
pub open spec fn oneshot_steps() -> Seq<Step> {
    seq![Step::WriteNetworkd, Step::CreateTun(true), Step::ConfigureTun, Step::AddRoutes]
}

/// The steps of the daemon.
pub open spec fn daemon_steps(c: ConfigView) -> Seq<Step> {
    (if c.obfs_mode is Xray {
        seq![Step::StartPlugin]
    } else {
        Seq::empty()
    }) + seq![
        Step::BuildServer,
        Step::WriteNetworkd,
        Step::CreateTun(false),
        Step::WaitForInterface,
        Step::LeaveUnmanaged,
        Step::ConfigureTun,
    ] + (if c.mtu > 0 {
        seq![Step::SetMtu]
    } else {
        Seq::empty()
    }) + seq![Step::AddRoutes, Step::RunTunnel]
}

/// The steps of the program, or why there are none.
pub open spec fn steps_of(c: ConfigView) -> Result<Seq<Step>, DaemonError> {
    if !c.ss_enabled {
        Ok(oneshot_steps())
    } else if c.ss_server.len() == 0 || c.ss_server_port == 0 || c.ss_password.len() == 0 {
        Err(DaemonError::MissingServer)
    } else if c.obfs_mode is Xray && c.ss_plugin.len() == 0 {
        Err(DaemonError::MissingPlugin)
    } else {
        Ok(daemon_steps(c))
    }
}

/// The steps of the oneshot mode: create persistent TUN, add routes, exit.
fn plan_oneshot() -> (r: Vec<Step>)
    ensures
        r@ == oneshot_steps(),
{
    let mut steps: Vec<Step> = Vec::new();
    steps.push(Step::WriteNetworkd);
    steps.push(Step::CreateTun(true));
    steps.push(Step::ConfigureTun);
    steps.push(Step::AddRoutes);
    assert(steps@ =~= oneshot_steps());
    steps
}

/// The steps of the daemon mode: start TUN-to-SS proxy, add routes, run forever.
fn plan_daemon(config: &Config) -> (r: Vec<Step>)
    ensures
        r@ == daemon_steps(config@),
{
    let mut steps: Vec<Step> = Vec::new();
    match config.obfs_mode {
        ObfsMode::Xray => steps.push(Step::StartPlugin),
        ObfsMode::SimpleObfs => {},
        ObfsMode::Disable => {},
    }
    steps.push(Step::BuildServer);
    steps.push(Step::WriteNetworkd);
    steps.push(Step::CreateTun(false));
    steps.push(Step::WaitForInterface);
    steps.push(Step::LeaveUnmanaged);
    steps.push(Step::ConfigureTun);
    if config.mtu > 0 {
        steps.push(Step::SetMtu);
    }
    steps.push(Step::AddRoutes);
    steps.push(Step::RunTunnel);
    assert(steps@ =~= daemon_steps(config@));
    steps
}

/// The steps of the program, or why there are none.
pub fn plan_steps(config: &Config) -> (r: Result<Vec<Step>, DaemonError>)
    ensures
        match r {
            Ok(steps) => steps_of(config@) == Ok::<Seq<Step>, DaemonError>(steps@),
            Err(e) => steps_of(config@) == Err::<Seq<Step>, DaemonError>(e),
        },
{
    if !config.ss_enabled {
        return Ok(plan_oneshot());
    }
    if config.ss_server.as_str().is_empty() || config.ss_server_port == 0 || config.ss_password.as_str().is_empty() {
        return Err(DaemonError::MissingServer);
    }
    let wants_plugin: bool = match config.obfs_mode {
        ObfsMode::Xray => true,
        ObfsMode::SimpleObfs => false,
        ObfsMode::Disable => false,
    };
    if wants_plugin && config.ss_plugin.as_str().is_empty() {
        return Err(DaemonError::MissingPlugin);
    }
    Ok(plan_daemon(config))
}

/// Whether a failed step ends the program. The daemon goes on with an interface
/// that could not be configured.
pub open spec fn ends_program(step: Step, daemon: bool) -> bool {
    match step {
        Step::StartPlugin | Step::BuildServer | Step::CreateTun(_) | Step::RunTunnel => true,
        Step::ConfigureTun => !daemon,
        Step::WriteNetworkd | Step::WaitForInterface | Step::LeaveUnmanaged | Step::SetMtu
        | Step::AddRoutes => false,
    }
}

/// Whether a failed step ends the program.
pub fn is_fatal(step: Step, daemon: bool) -> (r: bool)
    ensures
        r == ends_program(step, daemon),
{
    match step {
        Step::StartPlugin => true,
        Step::BuildServer => true,
        Step::CreateTun(_) => true,
        Step::RunTunnel => true,
        Step::ConfigureTun => !daemon,
        Step::WriteNetworkd => false,
        Step::WaitForInterface => false,
        Step::LeaveUnmanaged => false,
        Step::SetMtu => false,
        Step::AddRoutes => false,
    }
}

/// Whether every `a` among the steps stands before every `b`.
pub open spec fn goes_before(steps: Seq<Step>, a: Step, b: Step) -> bool {
    forall|i: int, j: int|
        0 <= i < steps.len() && 0 <= j < steps.len() && #[trigger] steps[i] == a
            && #[trigger] steps[j] == b ==> i < j
}

/// The interface stays behind in oneshot mode and goes with the daemon. It is
/// created before it is configured, and configured before routes lead to it;
/// packets are forwarded, by the daemon alone, when all else is done.
pub proof fn law_order_of_steps(c: ConfigView)
    requires
        steps_of(c) is Ok,
    ensures
        ({
            let steps = steps_of(c)->Ok_0;
            let create = Step::CreateTun(!c.ss_enabled);
            &&& steps.contains(create)
            &&& !steps.contains(Step::CreateTun(c.ss_enabled))
            &&& steps.contains(Step::AddRoutes)
            &&& goes_before(steps, create, Step::ConfigureTun)
            &&& goes_before(steps, Step::ConfigureTun, Step::AddRoutes)
            &&& goes_before(steps, Step::WriteNetworkd, create)
            &&& steps.contains(Step::RunTunnel) == c.ss_enabled
            &&& c.ss_enabled ==> steps.last() == Step::RunTunnel
            &&& steps.contains(Step::StartPlugin) == (c.ss_enabled && c.obfs_mode is Xray)
            &&& goes_before(steps, Step::StartPlugin, Step::BuildServer)
        }),
{
    let steps = steps_of(c)->Ok_0;
    if c.ss_enabled {
        let n: int = if c.obfs_mode is Xray {
            1
        } else {
            0
        };
        if c.obfs_mode is Xray {
            assert(steps[0] == Step::StartPlugin);
        }
        assert(steps[n + 2] == Step::CreateTun(false));
        assert(steps[steps.len() - 2] == Step::AddRoutes);
        assert(steps[steps.len() - 1] == Step::RunTunnel);
    } else {
        assert(steps[1] == Step::CreateTun(true));
        assert(steps[3] == Step::AddRoutes);
    }
}

/// Routes that are to be loaded from a directory.
#[derive(Debug)]
pub struct RouteJob {
    /// The directory, next to the configuration.
    pub dir: &'static str,
    pub gateway: String,
    pub gateway6: String,
    pub interface: String,
    pub concurrency: usize,
}

/// The directory, the gateways and the interface of routes.
pub struct RouteJobView {
    pub dir: Seq<char>,
    pub gateway: Seq<char>,
    pub gateway6: Seq<char>,
    pub interface: Seq<char>,
    pub concurrency: usize,
}

impl View for RouteJob {
    type V = RouteJobView;

    open spec fn view(&self) -> RouteJobView {
        RouteJobView {
            dir: self.dir@,
            gateway: self.gateway@,
            gateway6: self.gateway6@,
            interface: self.interface@,
            concurrency: self.concurrency,
        }
    }
}

/// Routes through the tunnel, where there is an interface and a gateway.
pub open spec fn tunnel_job(c: ConfigView) -> Seq<RouteJobView> {
    if c.interface.len() > 0 && (c.gateway.len() > 0 || c.gateway6.len() > 0) {
        seq![
            RouteJobView {
                dir: "data"@,
                gateway: c.gateway,
                gateway6: c.gateway6,
                interface: c.interface,
                concurrency: c.concurrency,
            },
        ]
    } else {
        Seq::empty()
    }
}

/// Routes past the tunnel, where there is an interface and a gateway for them.
pub open spec fn default_job(c: ConfigView) -> Seq<RouteJobView> {
    if c.default_interface.len() > 0 && c.default_gateway.len() > 0 {
        seq![
            RouteJobView {
                dir: "default_route"@,
                gateway: c.default_gateway,
                gateway6: Seq::empty(),
                interface: c.default_interface,
                concurrency: c.concurrency,
            },
        ]
    } else {
        Seq::empty()
    }
}

/// The views of jobs.
pub open spec fn job_views(jobs: Seq<RouteJob>) -> Seq<RouteJobView> {
    jobs.map_values(|j: RouteJob| j@)
}

/// The routes that are to be added: from data/ and default_route/, in this order.
pub fn route_jobs(config: &Config) -> (r: Vec<RouteJob>)
    ensures
        job_views(r@) == tunnel_job(config@) + default_job(config@),
{
    let mut jobs: Vec<RouteJob> = Vec::new();
    if !config.interface.as_str().is_empty() && (!config.gateway.as_str().is_empty() || !config.gateway6.as_str().is_empty()) {
        jobs.push(
            RouteJob {
                dir: "data",
                gateway: config.gateway.clone(),
                gateway6: config.gateway6.clone(),
                interface: config.interface.clone(),
                concurrency: config.concurrency,
            },
        );
    }
    assert(job_views(jobs@) =~= tunnel_job(config@));
    if !config.default_interface.as_str().is_empty() && !config.default_gateway.as_str().is_empty() {
        let gateway6 = String::new();
        assert(gateway6@ =~= Seq::<char>::empty());
        jobs.push(
            RouteJob {
                dir: "default_route",
                gateway: config.default_gateway.clone(),
                gateway6,
                interface: config.default_interface.clone(),
                concurrency: config.concurrency,
            },
        );
    }
    assert(job_views(jobs@) =~= tunnel_job(config@) + default_job(config@));
    jobs
}

/// How often something is looked for before it is given up.
pub const POLLS: u32 = 20;

/// Looks for something again and again.
#[derive(Debug, Clone, Copy, PartialEq, Eq, Structural)]
pub struct Poller {
    /// How often it was looked for.
    pub tries: u32,
}

/// What a look calls for.
#[derive(Debug, Clone, Copy, PartialEq, Eq, Structural)]
pub enum PollStep {
    /// Nothing: it is there.
    Found,
    /// Sleep, then look again.
    Sleep,
    /// Sleep, then give up.
    GiveUp,
}

/// What a look calls for, after so many others.
pub open spec fn poll_step(tries: u32, found: bool) -> PollStep {
    if found {
        PollStep::Found
    } else if tries + 1 < POLLS {
        PollStep::Sleep
    } else {
        PollStep::GiveUp
    }
}

impl Poller {
    /// Begins to look for something.
    pub fn new() -> (r: Self)
        ensures
            r.tries == 0,
    {
        Poller { tries: 0 }
    }

    /// Takes what came of a look.
    pub fn on_look(&mut self, found: bool) -> (r: PollStep)
        requires
            old(self).tries < POLLS,
        ensures
            final(self).tries == old(self).tries + 1,
            r == poll_step(old(self).tries, found),
            r == PollStep::Sleep ==> final(self).tries < POLLS,
    {
        self.tries = self.tries + 1;
        if found {
            PollStep::Found
        } else if self.tries < POLLS {
            PollStep::Sleep
        } else {
            PollStep::GiveUp
        }
    }
}

/// The file that tells systemd-networkd to leave an interface alone.
pub open spec fn networkd_text(interface: Seq<char>) -> Seq<char> {
    "[Match]\nName="@ + interface
        + "\n\n[Network]\nKeepConfiguration=yes\nIgnoreCarrierLoss=yes\n\n[Link]\nUnmanaged=yes\n"@
}

/// The file that tells systemd-networkd to leave an interface alone.
pub fn networkd_content(interface: &str) -> (r: String)
    ensures
        r@ == networkd_text(interface@),
{
    joined("[Match]\nName=", interface).concat(
        "\n\n[Network]\nKeepConfiguration=yes\nIgnoreCarrierLoss=yes\n\n[Link]\nUnmanaged=yes\n",
    )
}

/// The characters of an optional text.
pub open spec fn text_option(s: Option<String>) -> Option<Seq<char>> {
    match s {
        Some(t) => Some(t@),
        None => None,
    }
}

/// What is to be written for systemd-networkd.
pub open spec fn networkd_change(interface: Seq<char>, existing: Option<Seq<char>>) -> Option<
    Seq<char>,
> {
    if interface.len() == 0 || existing == Some(networkd_text(interface)) {
        None
    } else {
        Some(networkd_text(interface))
    }
}

/// What is to be written for systemd-networkd, given what stands there: nothing
/// without an interface, or where the file is as it should be.
pub fn networkd_update(interface: &str, existing: &Option<String>) -> (r: Option<String>)
    ensures
        text_option(r) == networkd_change(interface@, text_option(*existing)),
{
    if interface.is_empty() {
        return None;
    }
    let content = networkd_content(interface);
    match existing {
        Some(old) => {
            if same_text(old.as_str(), content.as_str()) {
                return None;
            }
        },
        None => {},
    }
    Some(content)
}

/// What is known of NetworkManager.
#[derive(Debug, Clone, Copy, PartialEq, Eq, Structural)]
pub enum ManagerEvent {
    /// Whether the system bus can be reached.
    Bus(bool),
    /// Whether NetworkManager runs.
    Running(bool),
    /// What came of looking for the device.
    Looked(PollStep),
}

/// What is to be done about NetworkManager.
#[derive(Debug, Clone, Copy, PartialEq, Eq, Structural)]
pub enum ManagerStep {
    /// Nothing: it does not manage the interface.
    Skip,
    /// Ask whether it runs.
    AskRunning,
    /// Look for the device, after a sleep where it was looked for before.
    Look,
    /// Tell it to leave the device alone.
    Unmanage,
    /// Give up, with a timeout.
    TimedOut,
}

/// What is to be done about NetworkManager.
pub open spec fn manager_step_of(event: ManagerEvent) -> ManagerStep {
    match event {
        ManagerEvent::Bus(true) => ManagerStep::AskRunning,
        ManagerEvent::Running(true) => ManagerStep::Look,
        ManagerEvent::Bus(false) | ManagerEvent::Running(false) => ManagerStep::Skip,
        ManagerEvent::Looked(PollStep::Found) => ManagerStep::Unmanage,
        ManagerEvent::Looked(PollStep::Sleep) => ManagerStep::Look,
        ManagerEvent::Looked(PollStep::GiveUp) => ManagerStep::TimedOut,
    }
}

/// Decides what is to be done about NetworkManager.
pub fn manager_step(event: ManagerEvent) -> (r: ManagerStep)
    ensures
        r == manager_step_of(event),
{
    match event {
        ManagerEvent::Bus(reached) => if reached {
            ManagerStep::AskRunning
        } else {
            ManagerStep::Skip
        },
        ManagerEvent::Running(runs) => if runs {
            ManagerStep::Look
        } else {
            ManagerStep::Skip
        },
        ManagerEvent::Looked(step) => match step {
            PollStep::Found => ManagerStep::Unmanage,
            PollStep::Sleep => ManagerStep::Look,
            PollStep::GiveUp => ManagerStep::TimedOut,
        },
    }
}

/// What is said when NetworkManager does not see the interface in time.
pub fn manager_timeout_message(iface_name: &str) -> (r: String)
    ensures
        r@ == "Timeout: NM did not recognize "@ + iface_name@ + " within 3s"@,
{
    joined("Timeout: NM did not recognize ", iface_name).concat(" within 3s")
}

/// How forwarding came to an end.
#[derive(Debug)]
pub enum TunnelExit {
    /// SIGINT or SIGTERM was received.
    Signal,
    Finished,
    /// With the error.
    Failed(String),
    /// With what the task said.
    Panicked(String),
}

/// The error that the program ends with, if any.
pub open spec fn exit_error_text(exit: TunnelExit) -> Option<Seq<char>> {
    match exit {
        TunnelExit::Signal | TunnelExit::Finished => None,
        TunnelExit::Failed(e) => Some(e@),
        TunnelExit::Panicked(e) => Some("Proxy task panicked: "@ + e@),
    }
}

/// The error that the program ends with, if any.
pub fn exit_error(exit: &TunnelExit) -> (r: Option<String>)
    ensures
        match r {
            Some(s) => exit_error_text(*exit) == Some(s@),
            None => exit_error_text(*exit) is None,
        },
{
    match exit {
        TunnelExit::Signal => None,
        TunnelExit::Finished => None,
        TunnelExit::Failed(e) => Some(e.clone()),
        TunnelExit::Panicked(e) => Some(joined("Proxy task panicked: ", e.as_str())),
    }
}

/// What is left to do when forwarding has come to an end.
#[derive(Debug)]
pub enum ExitStep {
    /// Stop the plugin, and wait until that is done.
    StopPlugin,
    /// End the program, with an error or without.
    Return(Option<String>),
}

/// What is left to do, with the error as a sequence of characters.
pub enum ExitStepView {
    StopPlugin,
    Return(Option<Seq<char>>),
}

impl View for ExitStep {
    type V = ExitStepView;

    open spec fn view(&self) -> ExitStepView {
        match *self {
            ExitStep::StopPlugin => ExitStepView::StopPlugin,
            ExitStep::Return(Some(e)) => ExitStepView::Return(Some(e@)),
            ExitStep::Return(None) => ExitStepView::Return(None),
        }
    }
}

/// The views of steps.
pub open spec fn exit_views(steps: Seq<ExitStep>) -> Seq<ExitStepView> {
    steps.map_values(|s: ExitStep| s@)
}

/// What is left to do when forwarding has come to an end: a plugin that was
/// started is stopped, and then the program ends.
pub open spec fn exit_steps(exit: TunnelExit, plugin_started: bool) -> Seq<ExitStepView> {
    (if plugin_started {
        seq![ExitStepView::StopPlugin]
    } else {
        Seq::empty()
    }) + seq![ExitStepView::Return(exit_error_text(exit))]
}

/// What is left to do when forwarding has come to an end, in order.
pub fn after_exit(exit: &TunnelExit, plugin_started: bool) -> (r: Vec<ExitStep>)
    ensures
        exit_views(r@) == exit_steps(*exit, plugin_started),
{
    let mut steps: Vec<ExitStep> = Vec::new();
    if plugin_started {
        steps.push(ExitStep::StopPlugin);
    }
    steps.push(ExitStep::Return(exit_error(exit)));
    assert(exit_views(steps@) =~= exit_steps(*exit, plugin_started));
    steps
}

/// However forwarding ended, a plugin that was started is stopped before the
/// program ends, which is the last step. A signal and a normal end leave no error.
pub proof fn law_started_plugin_is_stopped(exit: TunnelExit, plugin_started: bool)
    ensures
        ({
            let steps = exit_steps(exit, plugin_started);
            &&& steps.last() == ExitStepView::Return(exit_error_text(exit))
            &&& steps.drop_last().contains(ExitStepView::StopPlugin) == plugin_started
            &&& exit_error_text(exit) is None <==> exit is Signal || exit is Finished
        }),
{
    let steps = exit_steps(exit, plugin_started);
    if plugin_started {
        assert(steps.drop_last()[0] == ExitStepView::StopPlugin);
    }
}

} // verus!
