//! Windows current-user Internet Settings managed through the `reg` utility.
use crate::platform::error::PlatformResult;
use crate::platform::system_proxy::{
    ProxyTarget,
    ProxyAction, ProxyChange, ProxyCommand, ProxyCommandKind, ProxyOptions, ProxyPlan,
    ProxyPlanStep, ProxyPlatform, action_enabled, clone_bypass, clone_command, clone_target,
    command_views, is_change_step, is_command_step, opt_views, required_target,
};
use crate::text::{
    append_str, ci_eq, ci_eq_str, clone_strings, decimal, decimal_text, join, join_strings, lit,
    push_char, strings, views,
};
use vstd::prelude::*;

verus! {

pub const INTERNET_SETTINGS_KEY: &'static str = "HKCU\\Software\\Microsoft\\Windows\\CurrentVersion\\Internet Settings";

/// Registry key holding the current user's proxy settings.
pub fn internet_settings_key() -> (r: &'static str)
    ensures
        r@ == INTERNET_SETTINGS_KEY@,
{
    INTERNET_SETTINGS_KEY
}

pub open spec fn registry(args: Seq<Seq<char>>) -> (ProxyCommandKind, Seq<Seq<char>>) {
    (ProxyCommandKind::WindowsRegistry, args)
}

pub open spec fn reg_add_spec(key: Seq<char>, value: Seq<char>, value_type: Seq<char>, data: Seq<char>) -> Seq<Seq<char>> {
    seq!["add"@, key, "/v"@, value, "/t"@, value_type, "/d"@, data, "/f"@]
}

pub open spec fn reg_delete_spec(key: Seq<char>, value: Seq<char>) -> Seq<Seq<char>> {
    seq!["delete"@, key, "/v"@, value, "/f"@]
}

/// `reg add` arguments that write one typed value.
pub fn reg_add_args(key: &str, name: &str, value_type: &str, data: &str) -> (r: Vec<String>)
    ensures
        views(r@) == reg_add_spec(key@, name@, value_type@, data@),
{
    let parts = ["add", key, "/v", name, "/t", value_type, "/d", data, "/f"];
    let r = strings(&parts);
    assert(views(r@) =~= reg_add_spec(key@, name@, value_type@, data@));
    r
}

/// `reg delete` arguments that remove one value.
pub fn reg_delete_args(key: &str, name: &str) -> (r: Vec<String>)
    ensures
        views(r@) == reg_delete_spec(key@, name@),
{
    let parts = ["delete", key, "/v", name, "/f"];
    let r = strings(&parts);
    assert(views(r@) =~= reg_delete_spec(key@, name@));
    r
}

pub fn reg_add_command(key: &str, value: &str, value_type: &str, data: &str) -> (r: ProxyCommand)
    ensures
        r@ == registry(reg_add_spec(key@, value@, value_type@, data@)),
{
    ProxyCommand::WindowsRegistry { args: reg_add_args(key, value, value_type, data) }
}

pub open spec fn bypass_value_spec(domains: Seq<Seq<char>>) -> Seq<char> {
    if domains.len() == 0 {
        "<local>"@
    } else {
        join(domains, ";"@)
    }
}

/// The `ProxyOverride` value: the domains separated by `;`, or `<local>` when none are given.
pub fn bypass_value(domains: &Vec<String>) -> (r: String)
    ensures
        r@ == bypass_value_spec(views(domains@)),
{
    if domains.len() == 0 {
        lit("<local>")
    } else {
        join_strings(domains, ";")
    }
}

pub open spec fn proxy_server_spec(host: Seq<char>, port: nat) -> Seq<char> {
    "http="@ + host + seq![':'] + decimal(port) + ";https="@ + host + seq![':'] + decimal(port)
}

pub open spec fn set_commands_spec(
    enabled: bool,
    host: Seq<char>,
    port: nat,
    bypass: Option<Seq<Seq<char>>>,
) -> Seq<(ProxyCommandKind, Seq<Seq<char>>)> {
    let key = INTERNET_SETTINGS_KEY@;
    if enabled {
        seq![
            registry(reg_add_spec(key, "ProxyEnable"@, "REG_DWORD"@, "1"@)),
            registry(reg_add_spec(key, "ProxyServer"@, "REG_SZ"@, proxy_server_spec(host, port))),
        ] + match bypass {
            Some(d) => seq![registry(reg_add_spec(key, "ProxyOverride"@, "REG_SZ"@, bypass_value_spec(d)))],
            None => seq![],
        }
    } else {
        seq![
            registry(reg_add_spec(key, "ProxyEnable"@, "REG_DWORD"@, "0"@)),
            registry(reg_delete_spec(key, "ProxyServer"@)),
            registry(reg_delete_spec(key, "ProxyOverride"@)),
        ]
    }
}

/// Registry commands that enable or disable the proxy.
pub fn proxy_set_plan_commands(
    enabled: bool,
    host: &str,
    port: u16,
    bypass: &Option<Vec<String>>,
) -> (r: Vec<ProxyCommand>)
    ensures
        command_views(r@) == set_commands_spec(enabled, host@, port as nat, opt_views(*bypass)),
{
    let key = internet_settings_key();
    let mut commands: Vec<ProxyCommand> = Vec::new();
    if enabled {
        let p = decimal_text(port as u64);
        let mut server = lit("http=");
        append_str(&mut server, host);
        push_char(&mut server, ':');
        append_str(&mut server, p.as_str());
        append_str(&mut server, ";https=");
        append_str(&mut server, host);
        push_char(&mut server, ':');
        append_str(&mut server, p.as_str());
        assert(server@ =~= proxy_server_spec(host@, port as nat));
        commands.push(reg_add_command(key, "ProxyEnable", "REG_DWORD", "1"));
        commands.push(reg_add_command(key, "ProxyServer", "REG_SZ", server.as_str()));
        match bypass {
            Some(domains) => {
                let value = bypass_value(domains);
                commands.push(reg_add_command(key, "ProxyOverride", "REG_SZ", value.as_str()));
            },
            None => {},
        }
    } else {
        commands.push(reg_add_command(key, "ProxyEnable", "REG_DWORD", "0"));
        commands.push(ProxyCommand::WindowsRegistry { args: reg_delete_args(key, "ProxyServer") });
        commands.push(ProxyCommand::WindowsRegistry { args: reg_delete_args(key, "ProxyOverride") });
    }
    assert(command_views(commands@) =~= set_commands_spec(enabled, host@, port as nat, opt_views(*bypass)));
    commands
}

pub open spec fn status_commands_spec() -> Seq<(ProxyCommandKind, Seq<Seq<char>>)> {
    let key = INTERNET_SETTINGS_KEY@;
    seq![
        registry(seq!["query"@, key, "/v"@, "ProxyEnable"@]),
        registry(seq!["query"@, key, "/v"@, "ProxyServer"@]),
        registry(seq!["query"@, key, "/v"@, "ProxyOverride"@]),
    ]
}

fn query_command(key: &str, name: &str) -> (r: ProxyCommand)
    ensures
        r@ == registry(seq!["query"@, key@, "/v"@, name@]),
{
    let parts = ["query", key, "/v", name];
    let args = strings(&parts);
    assert(views(args@) =~= seq!["query"@, key@, "/v"@, name@]);
    ProxyCommand::WindowsRegistry { args }
}

/// Registry queries that report the current proxy values.
pub fn proxy_status_plan_commands() -> (r: Vec<ProxyCommand>)
    ensures
        command_views(r@) == status_commands_spec(),
{
    let key = internet_settings_key();
    let mut commands: Vec<ProxyCommand> = Vec::new();
    commands.push(query_command(key, "ProxyEnable"));
    commands.push(query_command(key, "ProxyServer"));
    commands.push(query_command(key, "ProxyOverride"));
    assert(command_views(commands@) =~= status_commands_spec());
    commands
}

fn command_steps(commands: &Vec<ProxyCommand>) -> (r: Vec<ProxyPlanStep>)
    ensures
        r@.len() == commands@.len(),
        forall|i: int| 0 <= i < r@.len() ==> is_command_step(#[trigger] r@[i], commands@[i]@),
{
    let mut steps: Vec<ProxyPlanStep> = Vec::new();
    let mut i: usize = 0;
    while i < commands.len()
        invariant
            i <= commands@.len(),
            steps@.len() == i,
            forall|j: int| 0 <= j < i ==> is_command_step(#[trigger] steps@[j], commands@[j]@),
        decreases commands@.len() - i,
    {
        steps.push(ProxyPlanStep::Command(clone_command(&commands[i])));
        i += 1;
    }
    steps
}

/// Read-only plan listing the registry queries.
pub fn status_plan() -> (r: ProxyPlan)
    ensures
        r.platform == ProxyPlatform::Windows,
        r.steps@.len() == status_commands_spec().len(),
        forall|i: int|
            0 <= i < r.steps@.len() ==> is_command_step(#[trigger] r.steps@[i], status_commands_spec()[i]),
{
    let commands = proxy_status_plan_commands();
    let steps = command_steps(&commands);
    ProxyPlan::new(ProxyPlatform::Windows, steps)
}

/// Plan for enabling or disabling the proxy: the commands, then the logical change.
pub fn set_plan(options: &ProxyOptions, enabled: bool) -> (r: PlatformResult<ProxyPlan>)
    ensures
        options.target is None ==> (r matches Err(e) && e is InvalidState),
        options.target matches Some(t) ==> (r matches Ok(plan) && {
            let expected = set_commands_spec(enabled, t.host@, t.port as nat, opt_views(options.bypass));
            &&& plan.platform == ProxyPlatform::Windows
            &&& plan.steps@.len() == expected.len() + 1
            &&& forall|i: int|
                0 <= i < expected.len() ==> is_command_step(#[trigger] plan.steps@[i], expected[i])
            &&& is_change_step(plan.steps@.last(), ProxyPlatform::Windows, enabled, t, opt_views(options.bypass), None)
        }),
{
    let target = match required_target(options) {
        Ok(t) => t,
        Err(e) => return Err(e),
    };
    let commands = proxy_set_plan_commands(enabled, target.host.as_str(), target.port, &options.bypass);
    let mut steps = command_steps(&commands);
    steps.push(
        ProxyPlanStep::Change(
            ProxyChange {
                platform: ProxyPlatform::Windows,
                enabled,
                target: clone_target(target),
                bypass: clone_bypass(&options.bypass),
                service: None,
            },
        ),
    );
    Ok(ProxyPlan::new(ProxyPlatform::Windows, steps))
}

/// The steps of the Windows status plan: the registry queries, in order.
pub open spec fn windows_status_steps(steps: Seq<ProxyPlanStep>) -> bool {
    &&& steps.len() == status_commands_spec().len()
    &&& forall|i: int| 0 <= i < steps.len() ==> is_command_step(#[trigger] steps[i], status_commands_spec()[i])
}

/// The steps of a Windows enable or disable plan: the commands, then the logical change.
pub open spec fn windows_set_steps(
    steps: Seq<ProxyPlanStep>,
    enabled: bool,
    t: ProxyTarget,
    bypass: Option<Seq<Seq<char>>>,
) -> bool {
    let expected = set_commands_spec(enabled, t.host@, t.port as nat, bypass);
    &&& steps.len() == expected.len() + 1
    &&& forall|i: int| 0 <= i < expected.len() ==> is_command_step(#[trigger] steps[i], expected[i])
    &&& is_change_step(steps.last(), ProxyPlatform::Windows, enabled, t, bypass, None)
}

/// What planning a Windows operation gives: the status plan, or for enabling and disabling
/// the set plan for the target, and an invalid-state error without one.
pub open spec fn windows_plan_spec(action: ProxyAction, options: ProxyOptions, r: PlatformResult<ProxyPlan>) -> bool {
    match action_enabled(action) {
        None => r matches Ok(p) && p.platform == ProxyPlatform::Windows && windows_status_steps(p.steps@),
        Some(enabled) => match options.target {
            None => r matches Err(e) && e is InvalidState,
            Some(t) => r matches Ok(p) && p.platform == ProxyPlatform::Windows && windows_set_steps(
                p.steps@,
                enabled,
                t,
                opt_views(options.bypass),
            ),
        },
    }
}

/// Plan for one Windows system-proxy operation.
pub fn plan(action: ProxyAction, options: &ProxyOptions) -> (r: PlatformResult<ProxyPlan>)
    ensures
        windows_plan_spec(action, *options, r),
{
    match action.enabled() {
        None => Ok(status_plan()),
        Some(enabled) => set_plan(options, enabled),
    }
}

/// One value reported by `reg query`.
#[derive(Clone, Debug, PartialEq, Eq)]
pub struct WindowsRegistryValue {
    pub name: String,
    pub value_type: String,
    pub data: String,
}

pub open spec fn has_value_named(values: Seq<WindowsRegistryValue>, name: Seq<char>) -> bool {
    exists|i: int| 0 <= i < values.len() && ci_eq(values[i].name@, name)
}

/// Index of the first value whose name matches `name` ignoring ASCII case.
pub fn find_value(values: &Vec<WindowsRegistryValue>, name: &str) -> (r: Option<usize>)
    ensures
        match r {
            Some(i) => i < values@.len() && ci_eq(values@[i as int].name@, name@) && forall|j: int|
                0 <= j < i ==> !ci_eq(values@[j].name@, name@),
            None => !has_value_named(values@, name@),
        },
{
    let mut i: usize = 0;
    while i < values.len()
        invariant
            i <= values@.len(),
            forall|j: int| 0 <= j < i ==> !ci_eq(values@[j].name@, name@),
        decreases values@.len() - i,
    {
        if ci_eq_str(values[i].name.as_str(), name) {
            return Some(i);
        }
        i += 1;
    }
    None
}

/// Data of the first value named `name`, compared ignoring ASCII case.
pub fn value_data(values: &Vec<WindowsRegistryValue>, name: &str) -> (r: Option<String>)
    ensures
        r is Some <==> has_value_named(values@, name@),
        r matches Some(d) ==> exists|i: int|
            0 <= i < values@.len() && ci_eq(values@[i].name@, name@) && d == values@[i].data
                && forall|j: int| 0 <= j < i ==> !ci_eq(values@[j].name@, name@),
{
    match find_value(values, name) {
        Some(i) => Some(values[i].data.clone()),
        None => None,
    }
}

/// Whether a registry argument vector is kept when applying a plan: deletions only run for
/// values that exist beforehand.
pub open spec fn keep_registry_args(args: Seq<Seq<char>>, previous: Seq<WindowsRegistryValue>) -> bool {
    args.len() == 0 || args[0] != "delete"@ || (args.len() > 3 && has_value_named(previous, args[3]))
}

/// Argument vectors of the plan's registry commands, skipping deletions of values that do not
/// exist.
pub fn native_set_commands(
    enabled: bool,
    host: &str,
    port: u16,
    bypass: &Option<Vec<String>>,
    previous: &Vec<WindowsRegistryValue>,
) -> (r: Vec<Vec<String>>)
    ensures
        r@.map_values(|a: Vec<String>| views(a@)) == set_commands_spec(enabled, host@, port as nat, opt_views(*bypass))
            .map_values(|c: (ProxyCommandKind, Seq<Seq<char>>)| c.1)
            .filter(|a: Seq<Seq<char>>| keep_registry_args(a, previous@)),
{
    let commands = proxy_set_plan_commands(enabled, host, port, bypass);
    let ghost all = command_views(commands@).map_values(|c: (ProxyCommandKind, Seq<Seq<char>>)| c.1);
    let ghost keep = |a: Seq<Seq<char>>| keep_registry_args(a, previous@);
    let mut out: Vec<Vec<String>> = Vec::new();
    let mut i: usize = 0;
    while i < commands.len()
        invariant
            i <= commands@.len(),
            all == command_views(commands@).map_values(|c: (ProxyCommandKind, Seq<Seq<char>>)| c.1),
            keep == (|a: Seq<Seq<char>>| keep_registry_args(a, previous@)),
            out@.map_values(|a: Vec<String>| views(a@)) == all.take(i as int).filter(keep),
        decreases commands@.len() - i,
    {
        let args: &Vec<String> = match &commands[i] {
            ProxyCommand::MacosNetworkSetup { args } => args,
            ProxyCommand::WindowsRegistry { args } => args,
            ProxyCommand::LinuxGsettings { args } => args,
            ProxyCommand::LinuxEnvironment { args } => args,
        };
        assert(views(args@) == all[i as int]);
        let is_delete = args.len() > 0 && crate::text::str_eq(args[0].as_str(), "delete");
        let kept = if !is_delete {
            true
        } else if args.len() > 3 {
            match find_value(previous, args[3].as_str()) {
                Some(_) => true,
                None => false,
            }
        } else {
            false
        };
        assert(kept == keep(all[i as int]));
        let ghost before = out@;
        if kept {
            out.push(clone_strings(args));
        }
        proof {
            reveal_with_fuel(Seq::filter, 1);
            assert(all.take(i + 1).drop_last() == all.take(i as int));
            assert(out@.map_values(|a: Vec<String>| views(a@)) =~= all.take(i + 1).filter(keep));
        }
        i += 1;
    }
    assert(all.take(commands@.len() as int) == all);
    out
}

pub open spec fn restore_spec(previous: Seq<WindowsRegistryValue>, name: Seq<char>) -> Seq<Seq<char>> {
    if has_value_named(previous, name) {
        let i = choose|i: int|
            0 <= i < previous.len() && ci_eq(previous[i].name@, name) && forall|j: int|
                0 <= j < i ==> !ci_eq(previous[j].name@, name);
        reg_add_spec(INTERNET_SETTINGS_KEY@, name, previous[i].value_type@, previous[i].data@)
    } else {
        reg_delete_spec(INTERNET_SETTINGS_KEY@, name)
    }
}

fn restore_one(previous: &Vec<WindowsRegistryValue>, name: &str) -> (r: Vec<String>)
    ensures
        views(r@) == restore_spec(previous@, name@),
{
    let key = internet_settings_key();
    match find_value(previous, name) {
        Some(i) => {
            proof {
                let k = i as int;
                let w = choose|w: int|
                    0 <= w < previous@.len() && ci_eq(previous@[w].name@, name@) && forall|j: int|
                        0 <= j < w ==> !ci_eq(previous@[j].name@, name@);
                assert(0 <= k < previous@.len() && ci_eq(previous@[k].name@, name@));
                if w < k {
                } else if w > k {
                    assert(!ci_eq(previous@[k].name@, name@));
                }
            }
            reg_add_args(key, name, previous[i].value_type.as_str(), previous[i].data.as_str())
        },
        None => reg_delete_args(key, name),
    }
}

/// Registry commands that put back the values observed before a failed change: each value
/// that existed is rewritten, each that did not is deleted.
pub fn restore_commands(previous: &Vec<WindowsRegistryValue>) -> (r: Vec<Vec<String>>)
    ensures
        r@.map_values(|a: Vec<String>| views(a@)) == seq![
            restore_spec(previous@, "ProxyEnable"@),
            restore_spec(previous@, "ProxyServer"@),
            restore_spec(previous@, "ProxyOverride"@),
        ],
{
    let mut out: Vec<Vec<String>> = Vec::new();
    out.push(restore_one(previous, "ProxyEnable"));
    out.push(restore_one(previous, "ProxyServer"));
    out.push(restore_one(previous, "ProxyOverride"));
    assert(out@.map_values(|a: Vec<String>| views(a@)) =~= seq![
        restore_spec(previous@, "ProxyEnable"@),
        restore_spec(previous@, "ProxyServer"@),
        restore_spec(previous@, "ProxyOverride"@),
    ]);
    out
}

} // verus!
