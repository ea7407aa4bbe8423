//! Planning of desktop operating-system proxy settings.
//!
//! Plans are deterministic: they list the external commands and the logical change that an
//! operation performs, so callers can offer dry runs before executing them.
use crate::platform::error::{PlatformError, PlatformResult};
use crate::text::{clone_strings, lit, views};
use vstd::prelude::*;

verus! {

/// Native proxy-settings backend to plan or execute.
#[derive(Clone, Copy, Debug, PartialEq, Eq, Structural)]
pub enum ProxyPlatform {
    /// macOS network services managed through `networksetup`.
    Macos,
    /// Current-user Windows Internet Settings registry values.
    Windows,
    /// Linux desktop settings managed through `gsettings` and environment guidance.
    Linux,
}

/// HTTP proxy endpoint written to native operating-system settings.
#[derive(Clone, Debug, PartialEq, Eq)]
pub struct ProxyTarget {
    /// Hostname or IP address stored without a URL scheme.
    pub host: String,
    /// TCP listener port.
    pub port: u16,
}

/// Optional target and platform-specific scope for a system-proxy operation.
#[derive(Clone, Debug, PartialEq, Eq)]
pub struct ProxyOptions {
    /// Proxy endpoint required by every mutating operation and included in change reports.
    pub target: Option<ProxyTarget>,
    /// Hosts or domains that should bypass the configured proxy.
    pub bypass: Option<Vec<String>>,
    /// Single macOS network service to mutate, when selected explicitly.
    pub service: Option<String>,
    /// Whether macOS mutations should cover every enabled network service.
    pub all_services: bool,
}

impl Default for ProxyOptions {
    fn default() -> (r: Self)
        ensures
            r.target is None,
            r.bypass is None,
            r.service is None,
            !r.all_services,
    {
        ProxyOptions { target: None, bypass: None, service: None, all_services: false }
    }
}

/// Read-only or mutating system-proxy operation.
#[derive(Clone, Copy, Debug, PartialEq, Eq, Structural)]
pub enum ProxyAction {
    /// Inspect native settings without changing them.
    Status,
    /// Configure and enable HTTP and HTTPS proxy routing.
    Enable,
    /// Disable proxy routing while retaining a target in the change report.
    Disable,
}

pub open spec fn action_enabled(action: ProxyAction) -> Option<bool> {
    match action {
        ProxyAction::Status => None,
        ProxyAction::Enable => Some(true),
        ProxyAction::Disable => Some(false),
    }
}

impl ProxyAction {
    /// `None` for a read-only status query, otherwise whether routing ends up enabled.
    pub fn enabled(self) -> (r: Option<bool>)
        ensures
            r == action_enabled(self),
    {
        match self {
            ProxyAction::Status => None,
            ProxyAction::Enable => Some(true),
            ProxyAction::Disable => Some(false),
        }
    }
}

/// Result of inspecting or mutating native system-proxy state.
#[derive(Clone, Debug, PartialEq, Eq)]
pub enum ProxyOutcome {
    /// Platform-specific settings observed without mutation.
    Status(ProxyStatus),
    /// Logical changes applied to the selected service or platform.
    Changed(Vec<ProxyChange>),
}

/// Reviewable sequence of external commands and logical changes for an operation.
#[derive(Clone, Debug, PartialEq, Eq)]
pub struct ProxyPlan {
    /// Backend for which the plan is valid.
    pub platform: ProxyPlatform,
    /// Ordered commands and resulting state changes.
    pub steps: Vec<ProxyPlanStep>,
}

impl ProxyPlan {
    pub fn new(platform: ProxyPlatform, steps: Vec<ProxyPlanStep>) -> (r: Self)
        ensures
            r.platform == platform,
            r.steps == steps,
    {
        ProxyPlan { platform, steps }
    }
}

/// One ordered element in a system-proxy dry-run plan.
#[derive(Clone, Debug, PartialEq, Eq)]
pub enum ProxyPlanStep {
    /// External platform command that would be executed.
    Command(ProxyCommand),
    /// Logical state change that the command sequence is expected to produce.
    Change(ProxyChange),
}

/// Which external tool a [`ProxyCommand`] addresses.
#[derive(Clone, Copy, Debug, PartialEq, Eq, Structural)]
pub enum ProxyCommandKind {
    MacosNetworkSetup,
    WindowsRegistry,
    LinuxGsettings,
    LinuxEnvironment,
}

/// Sanitized external command used by a native proxy backend.
#[derive(Clone, Debug, PartialEq, Eq)]
pub enum ProxyCommand {
    /// Invocation of the macOS `networksetup` utility.
    MacosNetworkSetup {
        /// Exact arguments passed after the executable name.
        args: Vec<String>,
    },
    /// Invocation of the Windows `reg` utility for current-user Internet Settings.
    WindowsRegistry {
        /// Exact arguments passed after the executable name.
        args: Vec<String>,
    },
    /// Invocation of Linux desktop `gsettings`.
    LinuxGsettings {
        /// Exact arguments passed after the executable name.
        args: Vec<String>,
    },
    /// Shell-independent description of Linux proxy environment assignments.
    LinuxEnvironment {
        /// Environment assignment tokens proposed for user-managed process startup.
        args: Vec<String>,
    },
}

impl View for ProxyCommand {
    type V = (ProxyCommandKind, Seq<Seq<char>>);

    open spec fn view(&self) -> (ProxyCommandKind, Seq<Seq<char>>) {
        match self {
            ProxyCommand::MacosNetworkSetup { args } => (ProxyCommandKind::MacosNetworkSetup, views(args@)),
            ProxyCommand::WindowsRegistry { args } => (ProxyCommandKind::WindowsRegistry, views(args@)),
            ProxyCommand::LinuxGsettings { args } => (ProxyCommandKind::LinuxGsettings, views(args@)),
            ProxyCommand::LinuxEnvironment { args } => (ProxyCommandKind::LinuxEnvironment, views(args@)),
        }
    }
}

/// Whether a plan step is the command `v`.
pub open spec fn is_command_step(step: ProxyPlanStep, v: (ProxyCommandKind, Seq<Seq<char>>)) -> bool {
    match step {
        ProxyPlanStep::Command(c) => c@ == v,
        ProxyPlanStep::Change(_) => false,
    }
}

/// Whether a plan step is the logical change described by the other arguments.
pub open spec fn is_change_step(
    step: ProxyPlanStep,
    platform: ProxyPlatform,
    enabled: bool,
    target: ProxyTarget,
    bypass: Option<Seq<Seq<char>>>,
    service: Option<Seq<char>>,
) -> bool {
    match step {
        ProxyPlanStep::Change(c) => {
            &&& c.platform == platform
            &&& c.enabled == enabled
            &&& c.target == target
            &&& opt_views(c.bypass) == bypass
            &&& match (c.service, service) {
                (Some(a), Some(b)) => a@ == b,
                (None, None) => true,
                _ => false,
            }
        },
        ProxyPlanStep::Command(_) => false,
    }
}

pub open spec fn opt_views(v: Option<Vec<String>>) -> Option<Seq<Seq<char>>> {
    match v {
        Some(d) => Some(views(d@)),
        None => None,
    }
}

pub fn clone_bypass(v: &Option<Vec<String>>) -> (r: Option<Vec<String>>)
    ensures
        opt_views(r) == opt_views(*v),
{
    match v {
        Some(d) => Some(clone_strings(d)),
        None => None,
    }
}

pub fn clone_target(t: &ProxyTarget) -> (r: ProxyTarget)
    ensures
        r == *t,
{
    ProxyTarget { host: t.host.clone(), port: t.port }
}

pub fn clone_command(c: &ProxyCommand) -> (r: ProxyCommand)
    ensures
        r@ == c@,
{
    match c {
        ProxyCommand::MacosNetworkSetup { args } => ProxyCommand::MacosNetworkSetup { args: clone_strings(args) },
        ProxyCommand::WindowsRegistry { args } => ProxyCommand::WindowsRegistry { args: clone_strings(args) },
        ProxyCommand::LinuxGsettings { args } => ProxyCommand::LinuxGsettings { args: clone_strings(args) },
        ProxyCommand::LinuxEnvironment { args } => ProxyCommand::LinuxEnvironment { args: clone_strings(args) },
    }
}

pub open spec fn command_views(commands: Seq<ProxyCommand>) -> Seq<(ProxyCommandKind, Seq<Seq<char>>)> {
    commands.map_values(|c: ProxyCommand| c@)
}

/// Normalized logical proxy mutation independent of the platform command syntax.
#[derive(Clone, Debug, PartialEq, Eq)]
pub struct ProxyChange {
    /// Backend that received the mutation.
    pub platform: ProxyPlatform,
    /// Whether proxy routing is enabled after the change.
    pub enabled: bool,
    /// Endpoint associated with the mutation.
    pub target: ProxyTarget,
    /// Bypass list written with the change, when one was supplied.
    pub bypass: Option<Vec<String>>,
    /// macOS network service affected by the change, if applicable.
    pub service: Option<String>,
}

/// Native settings returned by a read-only status operation.
#[derive(Clone, Debug, PartialEq, Eq)]
pub enum ProxyStatus {
    /// Per-network-service state reported by macOS.
    Macos {
        /// Selected services and their HTTP, HTTPS, and bypass settings.
        services: Vec<MacosServiceStatus>,
    },
    /// Current-user Internet Settings reported by Windows.
    Windows {
        /// Whether the native proxy-enable flag is set.
        enabled: bool,
        /// Raw proxy-server value, when configured.
        server: Option<String>,
        /// Raw bypass-list value, when configured.
        bypass: Option<String>,
    },
    /// Relevant GNOME settings reported by a Linux desktop.
    Linux {
        /// Schema/key/value triples in deterministic query order.
        settings: Vec<LinuxSettingStatus>,
    },
}

/// One Linux desktop setting returned by `gsettings get`.
#[derive(Clone, Debug, PartialEq, Eq)]
pub struct LinuxSettingStatus {
    /// GSettings schema queried.
    pub schema: String,
    /// Key queried within the schema.
    pub key: String,
    /// Raw textual value emitted by `gsettings`.
    pub value: String,
}

/// HTTP, HTTPS, and bypass state for one macOS network service.
#[derive(Clone, Debug, PartialEq, Eq)]
pub struct MacosServiceStatus {
    /// Human-readable network service name accepted by `networksetup`.
    pub service: String,
    /// Web proxy state reported for HTTP.
    pub http: MacosEndpointStatus,
    /// Secure web proxy state reported for HTTPS.
    pub https: MacosEndpointStatus,
    /// Bypass domains or the sanitized error returned by the bypass query.
    pub bypass: MacosBypassStatus,
}

/// Parsed endpoint state from one macOS proxy query.
#[derive(Clone, Debug, PartialEq, Eq)]
pub struct MacosEndpointStatus {
    /// Parsed `Enabled` state, defaulting to false when the field is absent.
    pub enabled: bool,
    /// Configured proxy server, when reported.
    pub server: Option<String>,
    /// Parsed proxy port, when numeric and reported.
    pub port: Option<u16>,
    /// Parsed authentication-required state.
    pub authenticated: bool,
    /// Raw `Enabled` value retained for diagnostics.
    pub reported_enabled: Option<String>,
    /// Raw `Port` value retained for diagnostics whether or not parsing succeeds.
    pub reported_port: Option<String>,
    /// Raw `Authenticated Proxy Enabled` value retained for diagnostics.
    pub reported_authenticated: Option<String>,
}

/// Result of querying bypass domains for a macOS network service.
#[derive(Clone, Debug, PartialEq, Eq)]
pub enum MacosBypassStatus {
    /// Bypass domains in the order reported by `networksetup`.
    Domains(Vec<String>),
    /// Sanitized query failure; endpoint status remains usable.
    QueryError(String),
}

/// The target a mutating operation requires.
pub fn required_target(options: &ProxyOptions) -> (r: PlatformResult<&ProxyTarget>)
    ensures
        match options.target {
            Some(t) => r == Ok::<&ProxyTarget, PlatformError>(&t),
            None => r matches Err(e) && e is InvalidState,
        },
{
    match &options.target {
        Some(target) => Ok(target),
        None => Err(PlatformError::InvalidState(lit("system proxy mutation requires a proxy target"))),
    }
}

} // verus!

verus! {

/// Rust's `Debug` rendering of a string: quoted, with quotes, backslashes and non-printable
/// characters escaped.
pub uninterp spec fn debug_quoted(s: Seq<char>) -> Seq<char>;

/// `format!("{:?}", s)` for a string.
#[verifier::external_body]
fn debug_quote(s: &str) -> (r: String)
    ensures
        r@ == debug_quoted(s@),
{
    format!("{s:?}")
}

/// Label form of one command argument: empty arguments as `""`, arguments containing
/// whitespace in `Debug` quoting, others verbatim.
pub open spec fn display_arg(a: Seq<char>) -> Seq<char> {
    if a.len() == 0 {
        "\"\""@
    } else if exists|i: int| 0 <= i < a.len() && crate::text::is_ws(a[i]) {
        debug_quoted(a)
    } else {
        a
    }
}

/// Human-readable rendering of an argument vector, used in command labels.
pub fn display_command_args(args: &Vec<String>) -> (r: String)
    ensures
        r@ == crate::text::join(views(args@).map_values(|a: Seq<char>| display_arg(a)), " "@),
{
    let ghost f = |a: Seq<char>| display_arg(a);
    let mut shown: Vec<String> = Vec::new();
    let mut i: usize = 0;
    while i < args.len()
        invariant
            i <= args@.len(),
            f == (|a: Seq<char>| display_arg(a)),
            views(shown@) == views(args@.take(i as int)).map_values(f),
        decreases args@.len() - i,
    {
        let a = args[i].as_str();
        let cs = crate::text::chars_of(a);
        let item = if cs.len() == 0 {
            lit("\"\"")
        } else if crate::text::any_whitespace(&cs) {
            debug_quote(a)
        } else {
            args[i].clone()
        };
        assert(item@ == f(args@[i as int]@));
        let ghost before = shown@;
        shown.push(item);
        proof {
            crate::text::lemma_views_take(args@, i as int);
            assert(views(shown@) =~= views(before).push(item@));
            assert(views(shown@) =~= views(args@.take(i + 1)).map_values(f));
        }
        i += 1;
    }
    assert(args@.take(args@.len() as int) == args@);
    crate::text::join_strings(&shown, " ")
}

/// Builds a deterministic dry-run plan without invoking commands that mutate settings.
///
/// For macOS, `discovered` carries the host's network-service list when the operation covers
/// every service (see [`crate::platform::proxy_macos::needs_service_discovery`]); without it
/// such an operation is reported as unsupported.
pub fn plan_system_proxy(
    backend: ProxyPlatform,
    action: ProxyAction,
    options: &ProxyOptions,
    discovered: &Option<Vec<String>>,
) -> (r: PlatformResult<ProxyPlan>)
    ensures
        match backend {
            ProxyPlatform::Macos => crate::platform::proxy_macos::macos_plan_spec(action, *options, *discovered, r),
            ProxyPlatform::Windows => crate::platform::proxy_windows::windows_plan_spec(action, *options, r),
            ProxyPlatform::Linux => crate::platform::proxy_linux::linux_plan_spec(action, *options, r),
        },
        r matches Ok(p) ==> p.platform == backend,
        action_enabled(action) is Some && options.target is None ==> r is Err,
        backend != ProxyPlatform::Macos && (action_enabled(action) is None || options.target is Some)
            ==> r is Ok,
        backend == ProxyPlatform::Macos && options.service is Some && (action_enabled(action) is None
            || options.target is Some) ==> r is Ok,
{
    let r = match backend {
        ProxyPlatform::Macos => crate::platform::proxy_macos::plan(action, options, discovered),
        ProxyPlatform::Windows => crate::platform::proxy_windows::plan(action, options),
        ProxyPlatform::Linux => crate::platform::proxy_linux::plan(action, options),
    };
    r
}

} // verus!
