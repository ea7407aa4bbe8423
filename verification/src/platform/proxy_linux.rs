//! Linux desktop proxy settings through GNOME `gsettings`, plus shell environment guidance.
use crate::platform::error::PlatformResult;
use crate::platform::system_proxy::{
    ProxyTarget,
    ProxyAction, ProxyChange, ProxyCommand, ProxyCommandKind, ProxyOptions, ProxyPlan,
    ProxyPlanStep, ProxyPlatform, action_enabled, command_views, is_change_step, is_command_step,
    clone_bypass, clone_command, clone_target, opt_views, required_target,
};
use crate::text::{
    append_str, chars_of, clone_strings, decimal, decimal_text, join, join_strings,
    lemma_views_take, lit, push_char, replace_char, replace_char_exec, strings, views,
};
use vstd::prelude::*;

verus! {

pub open spec fn gsettings(args: Seq<Seq<char>>) -> (ProxyCommandKind, Seq<Seq<char>>) {
    (ProxyCommandKind::LinuxGsettings, args)
}

pub open spec fn environment(args: Seq<Seq<char>>) -> (ProxyCommandKind, Seq<Seq<char>>) {
    (ProxyCommandKind::LinuxEnvironment, args)
}

/// One quoted entry of the GSettings `ignore-hosts` string array.
pub open spec fn ignore_host_entry(domain: Seq<char>) -> Seq<char> {
    seq!['\''] + replace_char(domain, '\'', "\\'"@) + seq!['\'']
}

pub open spec fn ignore_hosts_spec(domains: Seq<Seq<char>>) -> Seq<char> {
    if domains.len() == 0 {
        "[]"@
    } else {
        seq!['['] + join(domains.map_values(|d: Seq<char>| ignore_host_entry(d)), ", "@) + seq![']']
    }
}

/// GSettings array literal listing the bypass domains.
pub fn ignore_hosts_value(domains: &Vec<String>) -> (r: String)
    ensures
        r@ == ignore_hosts_spec(views(domains@)),
{
    if domains.len() == 0 {
        return lit("[]");
    }
    let ghost f = |d: Seq<char>| ignore_host_entry(d);
    let mut entries: Vec<String> = Vec::new();
    let mut i: usize = 0;
    while i < domains.len()
        invariant
            i <= domains@.len(),
            f == (|d: Seq<char>| ignore_host_entry(d)),
            views(entries@) == views(domains@.take(i as int)).map_values(f),
        decreases domains@.len() - i,
    {
        let cs = chars_of(domains[i].as_str());
        let escaped = replace_char_exec(&cs, '\'', "\\'");
        let mut entry = String::new();
        push_char(&mut entry, '\'');
        append_str(&mut entry, escaped.as_str());
        push_char(&mut entry, '\'');
        let ghost before = entries@;
        entries.push(entry);
        proof {
            lemma_views_take(domains@, i as int);
            assert(entry@ == f(domains@[i as int]@));
            assert(views(entries@) =~= views(before).push(entry@));
            assert(views(entries@) =~= views(domains@.take(i + 1)).map_values(f));
        }
        i += 1;
    }
    assert(domains@.take(domains@.len() as int) == domains@);
    let joined = join_strings(&entries, ", ");
    let mut out = String::new();
    push_char(&mut out, '[');
    append_str(&mut out, joined.as_str());
    push_char(&mut out, ']');
    out
}

pub open spec fn proxy_url(host: Seq<char>, port: nat) -> Seq<char> {
    "http://"@ + host + seq![':'] + decimal(port)
}

/// The commands that configure (or clear) the desktop proxy.
pub open spec fn set_commands_spec(
    enabled: bool,
    host: Seq<char>,
    port: nat,
    bypass: Option<Seq<Seq<char>>>,
) -> Seq<(ProxyCommandKind, Seq<Seq<char>>)> {
    if enabled {
        let p = decimal(port);
        seq![
            gsettings(seq!["set"@, "org.gnome.system.proxy"@, "mode"@, "manual"@]),
            gsettings(seq!["set"@, "org.gnome.system.proxy.http"@, "host"@, host]),
            gsettings(seq!["set"@, "org.gnome.system.proxy.http"@, "port"@, p]),
            gsettings(seq!["set"@, "org.gnome.system.proxy.https"@, "host"@, host]),
            gsettings(seq!["set"@, "org.gnome.system.proxy.https"@, "port"@, p]),
        ] + match bypass {
            Some(d) => seq![
                gsettings(seq!["set"@, "org.gnome.system.proxy"@, "ignore-hosts"@, ignore_hosts_spec(d)]),
            ],
            None => seq![],
        } + seq![
            environment(
                seq![
                    "export"@,
                    "http_proxy="@ + proxy_url(host, port),
                    "https_proxy="@ + proxy_url(host, port),
                    "all_proxy="@ + proxy_url(host, port),
                ],
            ),
        ]
    } else {
        seq![
            gsettings(seq!["set"@, "org.gnome.system.proxy"@, "mode"@, "none"@]),
            environment(
                seq![
                    "unset"@,
                    "http_proxy"@,
                    "https_proxy"@,
                    "all_proxy"@,
                    "HTTP_PROXY"@,
                    "HTTPS_PROXY"@,
                    "ALL_PROXY"@,
                ],
            ),
        ]
    }
}

/// Whether a command sets the GNOME proxy mode.
pub open spec fn sets_gnome_mode(c: (ProxyCommandKind, Seq<Seq<char>>)) -> bool {
    c.0 == ProxyCommandKind::LinuxGsettings && c.1.len() == 4 && c.1[0] == seq!['s', 'e', 't']
        && c.1[1] == "org.gnome.system.proxy"@ && c.1[2] == seq!['m', 'o', 'd', 'e']
}

/// The Linux plan turns the desktop proxy on or off through the GNOME proxy mode: its first
/// command sets the mode to `manual` when enabling and to `none` when disabling, and no other
/// command sets the mode. Enabling also points both the HTTP and HTTPS proxies at the host and
/// port; disabling points nothing anywhere.
pub proof fn law_linux_proxy_mode(enabled: bool, host: Seq<char>, port: nat, bypass: Option<Seq<Seq<char>>>)
    ensures
        ({
            let cs = set_commands_spec(enabled, host, port, bypass);
            &&& cs.len() > 0 && sets_gnome_mode(cs[0])
            &&& cs[0].1[3] == if enabled {
                seq!['m', 'a', 'n', 'u', 'a', 'l']
            } else {
                seq!['n', 'o', 'n', 'e']
            }
            &&& forall|i: int| 1 <= i < cs.len() ==> !sets_gnome_mode(#[trigger] cs[i])
            &&& enabled ==> cs.contains(gsettings(seq!["set"@, "org.gnome.system.proxy.http"@, "host"@, host]))
                && cs.contains(gsettings(seq!["set"@, "org.gnome.system.proxy.https"@, "host"@, host]))
                && cs.contains(gsettings(seq!["set"@, "org.gnome.system.proxy.http"@, "port"@, decimal(port)]))
                && cs.contains(gsettings(seq!["set"@, "org.gnome.system.proxy.https"@, "port"@, decimal(port)]))
            &&& !enabled ==> cs.len() == 2 && cs[1].0 == ProxyCommandKind::LinuxEnvironment && cs[1].1.len() > 0
                && cs[1].1[0] == seq!['u', 'n', 's', 'e', 't']
        }),
{
    reveal_strlit("set");
    reveal_strlit("mode");
    reveal_strlit("manual");
    reveal_strlit("none");
    reveal_strlit("org.gnome.system.proxy");
    reveal_strlit("org.gnome.system.proxy.http");
    reveal_strlit("org.gnome.system.proxy.https");
    reveal_strlit("host");
    reveal_strlit("port");
    reveal_strlit("ignore-hosts");
    reveal_strlit("export");
    reveal_strlit("unset");
    let cs = set_commands_spec(enabled, host, port, bypass);
    assert("set"@ =~= seq!['s', 'e', 't']);
    assert("mode"@ =~= seq!['m', 'o', 'd', 'e']);
    assert("manual"@ =~= seq!['m', 'a', 'n', 'u', 'a', 'l']);
    assert("none"@ =~= seq!['n', 'o', 'n', 'e']);
    assert("host"@ != seq!['m', 'o', 'd', 'e']);
    assert("port"@ != seq!['m', 'o', 'd', 'e']);
    assert("ignore-hosts"@ != seq!['m', 'o', 'd', 'e']);
    assert("unset"@ =~= seq!['u', 'n', 's', 'e', 't']);
    assert("org.gnome.system.proxy.http"@.len() != "org.gnome.system.proxy"@.len());
    assert("org.gnome.system.proxy.https"@.len() != "org.gnome.system.proxy"@.len());
    if enabled {
        assert(cs[1] == gsettings(seq!["set"@, "org.gnome.system.proxy.http"@, "host"@, host]));
        assert(cs[2] == gsettings(seq!["set"@, "org.gnome.system.proxy.http"@, "port"@, decimal(port)]));
        assert(cs[3] == gsettings(seq!["set"@, "org.gnome.system.proxy.https"@, "host"@, host]));
        assert(cs[4] == gsettings(seq!["set"@, "org.gnome.system.proxy.https"@, "port"@, decimal(port)]));
    }
}

fn gsettings_command(a: &str, b: &str, c: &str, d: &str) -> (r: ProxyCommand)
    ensures
        r@ == gsettings(seq![a@, b@, c@, d@]),
{
    let parts = [a, b, c, d];
    let args = strings(&parts);
    assert(views(args@) =~= seq![a@, b@, c@, d@]);
    ProxyCommand::LinuxGsettings { args }
}

fn env_assignment(name: &str, host: &str, port: &str) -> (r: String)
    ensures
        r@ == name@ + "http://"@ + host@ + seq![':'] + port@,
{
    let mut out = lit(name);
    append_str(&mut out, "http://");
    append_str(&mut out, host);
    push_char(&mut out, ':');
    append_str(&mut out, port);
    out
}

/// Commands that enable or disable the desktop proxy on Linux.
pub fn proxy_set_plan_commands(
    enabled: bool,
    host: &str,
    port: u16,
    bypass: &Option<Vec<String>>,
) -> (r: Vec<ProxyCommand>)
    ensures
        command_views(r@) == set_commands_spec(enabled, host@, port as nat, opt_views(*bypass)),
{
    if enabled {
        let p = decimal_text(port as u64);
        let mut commands: Vec<ProxyCommand> = Vec::new();
        commands.push(gsettings_command("set", "org.gnome.system.proxy", "mode", "manual"));
        commands.push(gsettings_command("set", "org.gnome.system.proxy.http", "host", host));
        commands.push(gsettings_command("set", "org.gnome.system.proxy.http", "port", p.as_str()));
        commands.push(gsettings_command("set", "org.gnome.system.proxy.https", "host", host));
        commands.push(gsettings_command("set", "org.gnome.system.proxy.https", "port", p.as_str()));
        let ghost base = command_views(commands@);
        match bypass {
            Some(domains) => {
                let ignore = ignore_hosts_value(domains);
                commands.push(
                    gsettings_command("set", "org.gnome.system.proxy", "ignore-hosts", ignore.as_str()),
                );
            },
            None => {},
        }
        let ghost middle = command_views(commands@);
        let mut args: Vec<String> = Vec::new();
        args.push(lit("export"));
        args.push(env_assignment("http_proxy=", host, p.as_str()));
        args.push(env_assignment("https_proxy=", host, p.as_str()));
        args.push(env_assignment("all_proxy=", host, p.as_str()));
        let env = ProxyCommand::LinuxEnvironment { args };
        proof {
            assert(args@[1]@ =~= "http_proxy="@ + proxy_url(host@, port as nat));
            assert(args@[2]@ =~= "https_proxy="@ + proxy_url(host@, port as nat));
            assert(args@[3]@ =~= "all_proxy="@ + proxy_url(host@, port as nat));
            assert(views(args@) =~= seq![
                "export"@,
                "http_proxy="@ + proxy_url(host@, port as nat),
                "https_proxy="@ + proxy_url(host@, port as nat),
                "all_proxy="@ + proxy_url(host@, port as nat),
            ]);
        }
        commands.push(env);
        proof {
            assert(command_views(commands@) =~= set_commands_spec(
                enabled,
                host@,
                port as nat,
                opt_views(*bypass),
            ));
        }
        commands
    } else {
        let mut commands: Vec<ProxyCommand> = Vec::new();
        commands.push(gsettings_command("set", "org.gnome.system.proxy", "mode", "none"));
        let names = [
            "unset",
            "http_proxy",
            "https_proxy",
            "all_proxy",
            "HTTP_PROXY",
            "HTTPS_PROXY",
            "ALL_PROXY",
        ];
        let args = strings(&names);
        proof {
            assert(views(args@) =~= seq![
                "unset"@,
                "http_proxy"@,
                "https_proxy"@,
                "all_proxy"@,
                "HTTP_PROXY"@,
                "HTTPS_PROXY"@,
                "ALL_PROXY"@,
            ]);
        }
        commands.push(ProxyCommand::LinuxEnvironment { args });
        proof {
            assert(command_views(commands@) =~= set_commands_spec(
                enabled,
                host@,
                port as nat,
                opt_views(*bypass),
            ));
        }
        commands
    }
}

pub open spec fn status_queries_spec() -> Seq<Seq<Seq<char>>> {
    seq![
        seq!["get"@, "org.gnome.system.proxy"@, "mode"@],
        seq!["get"@, "org.gnome.system.proxy.http"@, "host"@],
        seq!["get"@, "org.gnome.system.proxy.http"@, "port"@],
        seq!["get"@, "org.gnome.system.proxy.https"@, "host"@],
        seq!["get"@, "org.gnome.system.proxy.https"@, "port"@],
        seq!["get"@, "org.gnome.system.proxy"@, "ignore-hosts"@],
    ]
}

fn query(a: &str, b: &str) -> (r: Vec<String>)
    ensures
        views(r@) == seq!["get"@, a@, b@],
{
    let parts = ["get", a, b];
    let r = strings(&parts);
    assert(views(r@) =~= seq!["get"@, a@, b@]);
    r
}

/// The `gsettings get` argument vectors that report the current proxy configuration.
pub fn proxy_status_commands() -> (r: Vec<Vec<String>>)
    ensures
        r@.map_values(|c: Vec<String>| views(c@)) == status_queries_spec(),
{
    let mut out: Vec<Vec<String>> = Vec::new();
    out.push(query("org.gnome.system.proxy", "mode"));
    out.push(query("org.gnome.system.proxy.http", "host"));
    out.push(query("org.gnome.system.proxy.http", "port"));
    out.push(query("org.gnome.system.proxy.https", "host"));
    out.push(query("org.gnome.system.proxy.https", "port"));
    out.push(query("org.gnome.system.proxy", "ignore-hosts"));
    assert(out@.map_values(|c: Vec<String>| views(c@)) =~= status_queries_spec());
    out
}

/// Read-only plan listing the status queries.
pub fn status_plan() -> (r: ProxyPlan)
    ensures
        r.platform == ProxyPlatform::Linux,
        r.steps@.len() == status_queries_spec().len(),
        forall|i: int|
            0 <= i < r.steps@.len() ==> is_command_step(#[trigger] r.steps@[i], gsettings(status_queries_spec()[i])),
{
    let queries = proxy_status_commands();
    let mut steps: Vec<ProxyPlanStep> = Vec::new();
    let mut i: usize = 0;
    while i < queries.len()
        invariant
            i <= queries@.len(),
            queries@.map_values(|c: Vec<String>| views(c@)) == status_queries_spec(),
            steps@.len() == i,
            forall|j: int|
                0 <= j < i ==> is_command_step(#[trigger] steps@[j], gsettings(status_queries_spec()[j])),
        decreases queries@.len() - i,
    {
        let args = clone_strings(&queries[i]);
        assert(views(queries@[i as int]@) == status_queries_spec()[i as int]);
        steps.push(ProxyPlanStep::Command(ProxyCommand::LinuxGsettings { args }));
        i += 1;
    }
    ProxyPlan::new(ProxyPlatform::Linux, steps)
}

/// Plan for enabling or disabling the proxy: the commands, then the logical change.
pub fn set_plan(options: &ProxyOptions, enabled: bool) -> (r: PlatformResult<ProxyPlan>)
    ensures
        options.target is None ==> (r matches Err(e) && e is InvalidState),
        options.target matches Some(t) ==> (r matches Ok(plan) && {
            let expected = set_commands_spec(enabled, t.host@, t.port as nat, opt_views(options.bypass));
            &&& plan.platform == ProxyPlatform::Linux
            &&& plan.steps@.len() == expected.len() + 1
            &&& forall|i: int|
                0 <= i < expected.len() ==> is_command_step(#[trigger] plan.steps@[i], expected[i])
            &&& is_change_step(plan.steps@.last(), ProxyPlatform::Linux, enabled, t, opt_views(options.bypass), None)
        }),
{
    let target = match required_target(options) {
        Ok(t) => t,
        Err(e) => return Err(e),
    };
    let commands = proxy_set_plan_commands(enabled, target.host.as_str(), target.port, &options.bypass);
    let ghost expected = command_views(commands@);
    let mut steps: Vec<ProxyPlanStep> = Vec::new();
    let mut i: usize = 0;
    while i < commands.len()
        invariant
            i <= commands@.len(),
            expected == command_views(commands@),
            steps@.len() == i,
            forall|j: int|
                0 <= j < i ==> is_command_step(#[trigger] steps@[j], expected[j]),
        decreases commands@.len() - i,
    {
        steps.push(ProxyPlanStep::Command(clone_command(&commands[i])));
        i += 1;
    }
    steps.push(
        ProxyPlanStep::Change(
            ProxyChange {
                platform: ProxyPlatform::Linux,
                enabled,
                target: clone_target(target),
                bypass: clone_bypass(&options.bypass),
                service: None,
            },
        ),
    );
    Ok(ProxyPlan::new(ProxyPlatform::Linux, steps))
}

/// The steps of the Linux status plan: the status queries, in order.
pub open spec fn linux_status_steps(steps: Seq<ProxyPlanStep>) -> bool {
    &&& steps.len() == status_queries_spec().len()
    &&& forall|i: int|
        0 <= i < steps.len() ==> is_command_step(#[trigger] steps[i], gsettings(status_queries_spec()[i]))
}

/// The steps of a Linux enable or disable plan: the commands, then the logical change.
pub open spec fn linux_set_steps(
    steps: Seq<ProxyPlanStep>,
    enabled: bool,
    t: ProxyTarget,
    bypass: Option<Seq<Seq<char>>>,
) -> bool {
    let expected = set_commands_spec(enabled, t.host@, t.port as nat, bypass);
    &&& steps.len() == expected.len() + 1
    &&& forall|i: int| 0 <= i < expected.len() ==> is_command_step(#[trigger] steps[i], expected[i])
    &&& is_change_step(steps.last(), ProxyPlatform::Linux, enabled, t, bypass, None)
}

/// What planning a Linux operation gives: the status plan, or for enabling and disabling the
/// set plan for the target, and an invalid-state error without one.
pub open spec fn linux_plan_spec(action: ProxyAction, options: ProxyOptions, r: PlatformResult<ProxyPlan>) -> bool {
    match action_enabled(action) {
        None => r matches Ok(p) && p.platform == ProxyPlatform::Linux && linux_status_steps(p.steps@),
        Some(enabled) => match options.target {
            None => r matches Err(e) && e is InvalidState,
            Some(t) => r matches Ok(p) && p.platform == ProxyPlatform::Linux && linux_set_steps(
                p.steps@,
                enabled,
                t,
                opt_views(options.bypass),
            ),
        },
    }
}

/// Plan for one Linux system-proxy operation.
pub fn plan(action: ProxyAction, options: &ProxyOptions) -> (r: PlatformResult<ProxyPlan>)
    ensures
        linux_plan_spec(action, *options, r),
{
    match action.enabled() {
        None => Ok(status_plan()),
        Some(enabled) => set_plan(options, enabled),
    }
}

} // verus!
