//! macOS network-service proxy settings managed through `networksetup`.
use crate::platform::error::{PlatformError, PlatformResult};
use crate::platform::system_proxy::{
    MacosBypassStatus, MacosEndpointStatus, ProxyAction, ProxyChange, ProxyCommand,
    ProxyCommandKind, ProxyOptions, ProxyPlan, ProxyPlanStep, ProxyPlatform, ProxyTarget,
    action_enabled, clone_bypass, clone_target, is_change_step, is_command_step, opt_views,
    required_target,
};
use crate::text::{
    chars_eq, chars_of, ci_eq, ci_eq_chars, clone_strings, contains_seq, contains_str, decimal,
    decimal_text, first_some, has_prefix, lemma_first_some_none_take, lemma_first_some_take,
    lemma_views_take, lines, lines_of, lit, parse_u16, parse_unsigned_spec, split_once,
    split_once_exec, starts_with_str, string_of, strings, trim, trim_chars, views,
};
use vstd::prelude::*;

verus! {

pub open spec fn opt_text(o: Option<String>) -> Option<Seq<char>> {
    match o {
        Some(s) => Some(s@),
        None => None,
    }
}

// ---------------------------------------------------------------------------
// Service selection
// ---------------------------------------------------------------------------

/// Whether the operation applies to every network service, which must then be discovered by
/// listing the host's services.
pub open spec fn needs_discovery_spec(options: ProxyOptions, default_all: bool) -> bool {
    options.service is None && (options.all_services || default_all)
}

/// Whether an operation needs the host's network-service list before it can be planned.
pub fn needs_service_discovery(action: ProxyAction, options: &ProxyOptions) -> (r: bool)
    ensures
        r == needs_discovery_spec(*options, action_enabled(action) is None),
{
    options.service.is_none() && (options.all_services || action.enabled().is_none())
}

/// The services an operation applies to: the explicitly selected one, or every discovered
/// service when the operation covers all of them. `discovered` is the host's service list
/// when it could be listed.
pub fn services(options: &ProxyOptions, default_all: bool, discovered: &Option<Vec<String>>) -> (r: PlatformResult<Vec<String>>)
    ensures
        options.service matches Some(s) ==> (r matches Ok(v) && views(v@) == seq![s@]),
        needs_discovery_spec(*options, default_all) ==> match discovered {
            Some(d) => r matches Ok(v) && views(v@) == views(d@),
            None => r matches Err(e) && e is Unsupported,
        },
        options.service is None && !options.all_services && !default_all ==> (r matches Err(e)
            && e is InvalidState),
{
    match &options.service {
        Some(service) => {
            let mut v: Vec<String> = Vec::new();
            v.push(service.clone());
            assert(views(v@) =~= seq![service@]);
            return Ok(v);
        },
        None => {},
    }
    if options.all_services || default_all {
        return match discovered {
            Some(d) => Ok(clone_strings(d)),
            None => Err(
                PlatformError::Unsupported(
                    lit(
                        "system proxy management is only implemented for macOS networksetup in this build",
                    ),
                ),
            ),
        };
    }
    Err(
        PlatformError::InvalidState(
            lit("proxy on/off requires --service NAME or --all; use --dry-run to preview commands"),
        ),
    )
}

// ---------------------------------------------------------------------------
// Parsing `networksetup` output
// ---------------------------------------------------------------------------

pub open spec fn unstar(l: Seq<char>) -> Seq<char> {
    if l.len() > 0 && l[0] == '*' {
        l.drop_first()
    } else {
        l
    }
}

pub open spec fn service_line(l: Seq<char>) -> bool {
    !contains_seq(l, "An asterisk"@) && l.len() > 0
}

/// Service names listed by `networksetup -listallnetworkservices`: trimmed non-empty lines
/// other than the legend, without the `*` that marks a disabled service.
pub open spec fn network_services_spec(output: Seq<char>) -> Seq<Seq<char>> {
    lines(output).map_values(|l: Seq<char>| trim(l)).filter(|l: Seq<char>| service_line(l)).map_values(
        |l: Seq<char>| trim(unstar(l)),
    )
}

/// Parses the service list; an empty list is an error.
pub fn parse_network_services(output: &str) -> (r: PlatformResult<Vec<String>>)
    ensures
        network_services_spec(output@).len() == 0 ==> (r matches Err(e) && e is InvalidState),
        network_services_spec(output@).len() > 0 ==> (r matches Ok(v) && views(v@)
            == network_services_spec(output@)),
{
    let cs = chars_of(output);
    let ls = lines_of(&cs);
    let ghost trimmed = lines(output@).map_values(|l: Seq<char>| trim(l));
    let ghost keep = |l: Seq<char>| service_line(l);
    let ghost g = |l: Seq<char>| trim(unstar(l));
    let mut out: Vec<String> = Vec::new();
    let mut i: usize = 0;
    while i < ls.len()
        invariant
            i <= ls@.len(),
            ls@.map_values(|v: Vec<char>| v@) == lines(output@),
            trimmed == lines(output@).map_values(|l: Seq<char>| trim(l)),
            keep == (|l: Seq<char>| service_line(l)),
            g == (|l: Seq<char>| trim(unstar(l))),
            views(out@) == trimmed.take(i as int).filter(keep).map_values(g),
        decreases ls@.len() - i,
    {
        let line = trim_chars(&ls[i]);
        assert(line@ == trimmed[i as int]);
        let legend = contains_str(&line, "An asterisk");
        let ghost before = out@;
        if !legend && line.len() > 0 {
            let unstarred = if line[0] == '*' {
                crate::text::slice_vec(&line, 1, line.len())
            } else {
                crate::text::slice_vec(&line, 0, line.len())
            };
            assert(line@.subrange(0, line@.len() as int) == line@);
            assert(unstarred@ == unstar(line@));
            let name = trim_chars(&unstarred);
            let text = string_of(&name);
            assert(text@ == g(trimmed[i as int]));
            out.push(text);
            assert(views(out@) =~= views(before).push(g(trimmed[i as int])));
        } else {
            assert(!keep(trimmed[i as int]));
        }
        proof {
            reveal_with_fuel(Seq::filter, 1);
            assert(trimmed.take(i + 1).drop_last() == trimmed.take(i as int));
            assert(views(out@) =~= trimmed.take(i + 1).filter(keep).map_values(g));
        }
        i += 1;
    }
    assert(trimmed.take(ls@.len() as int) == trimmed);
    if out.len() == 0 {
        return Err(PlatformError::InvalidState(lit("networksetup did not report any network services")));
    }
    Ok(out)
}

/// Value of a `Key: value` line whose key matches `key` ignoring ASCII case.
pub open spec fn status_field(line: Seq<char>, key: Seq<char>) -> Option<Seq<char>> {
    match split_once(line, ':') {
        Some((k, v)) => if ci_eq(trim(k), key) {
            Some(trim(v))
        } else {
            None
        },
        None => None,
    }
}

pub open spec fn proxy_status_value_spec(text: Seq<char>, key: Seq<char>) -> Option<Seq<char>> {
    first_some(lines(text).map_values(|l: Seq<char>| status_field(l, key)))
}

/// Value of the first `Key: value` line of `networksetup` output whose key matches `key`.
pub fn proxy_status_value(text: &str, key: &str) -> (r: Option<String>)
    ensures
        opt_text(r) == proxy_status_value_spec(text@, key@),
{
    let cs = chars_of(text);
    let kc = chars_of(key);
    let ls = lines_of(&cs);
    let ghost fields = lines(text@).map_values(|l: Seq<char>| status_field(l, key@));
    let mut i: usize = 0;
    while i < ls.len()
        invariant
            i <= ls@.len(),
            kc@ == key@,
            ls@.map_values(|v: Vec<char>| v@) == lines(text@),
            fields == lines(text@).map_values(|l: Seq<char>| status_field(l, key@)),
            first_some(fields.take(i as int)) is None,
        decreases ls@.len() - i,
    {
        assert(ls@[i as int]@ == lines(text@)[i as int]);
        match split_once_exec(&ls[i], ':') {
            Some((k, v)) => {
                let kt = trim_chars(&k);
                if ci_eq_chars(&kt, &kc) {
                    let vt = trim_chars(&v);
                    proof {
                        lemma_first_some_take(fields, i as int);
                        assert(fields.take(ls@.len() as int) == fields);
                        assert(first_some(fields) == first_some(fields.take(i + 1)) || true);
                    }
                    proof {
                        lemma_first_some_prefix(fields, i + 1);
                    }
                    return Some(string_of(&vt));
                }
            },
            None => {},
        }
        proof {
            lemma_first_some_none_take(fields, i as int);
        }
        i += 1;
    }
    assert(fields.take(ls@.len() as int) == fields);
    None
}

/// Once a prefix holds a `Some`, extending the prefix does not change the first `Some`.
pub proof fn lemma_first_some_prefix<T>(s: Seq<Option<T>>, i: int)
    requires
        0 <= i <= s.len(),
        first_some(s.take(i)) is Some,
    ensures
        first_some(s) == first_some(s.take(i)),
    decreases i,
{
    assert(i > 0);
    if s[0] is Some {
        assert(s.take(i)[0] == s[0]);
    } else {
        assert(s.take(i)[0] == s[0]);
        assert(s.take(i).drop_first() == s.drop_first().take(i - 1));
        lemma_first_some_prefix(s.drop_first(), i - 1);
    }
}

pub open spec fn is_yes(o: Option<Seq<char>>) -> bool {
    o == Some("Yes"@)
}

/// Endpoint state reported by `networksetup -getwebproxy` or `-getsecurewebproxy`.
pub fn endpoint_status(text: &str) -> (r: MacosEndpointStatus)
    ensures
        opt_text(r.reported_enabled) == proxy_status_value_spec(text@, "Enabled"@),
        opt_text(r.reported_port) == proxy_status_value_spec(text@, "Port"@),
        opt_text(r.reported_authenticated) == proxy_status_value_spec(text@, "Authenticated Proxy Enabled"@),
        r.enabled == (proxy_status_value_spec(text@, "Enabled"@) == Some("Yes"@)),
        r.authenticated == (proxy_status_value_spec(text@, "Authenticated Proxy Enabled"@) == Some("1"@)),
        opt_text(r.server) == match proxy_status_value_spec(text@, "Server"@) {
            Some(s) => if s.len() > 0 { Some(s) } else { None },
            None => None,
        },
        match (r.port, proxy_status_value_spec(text@, "Port"@)) {
            (Some(p), Some(raw)) => parse_unsigned_spec(raw, 0xffff) == Some(p as nat),
            (None, Some(raw)) => parse_unsigned_spec(raw, 0xffff) is None,
            (None, None) => true,
            (Some(_), None) => false,
        },
{
    let reported_enabled = proxy_status_value(text, "Enabled");
    let server_raw = proxy_status_value(text, "Server");
    let reported_port = proxy_status_value(text, "Port");
    let reported_authenticated = proxy_status_value(text, "Authenticated Proxy Enabled");
    let server = match server_raw {
        Some(s) => if !s.as_str().is_empty() {
            Some(s)
        } else {
            None
        },
        None => None,
    };
    let enabled = match &reported_enabled {
        Some(v) => crate::text::str_eq(v.as_str(), "Yes"),
        None => false,
    };
    let authenticated = match &reported_authenticated {
        Some(v) => crate::text::str_eq(v.as_str(), "1"),
        None => false,
    };
    let port = match &reported_port {
        Some(v) => parse_u16(v.as_str()),
        None => None,
    };
    MacosEndpointStatus {
        enabled,
        server,
        port,
        authenticated,
        reported_enabled,
        reported_port,
        reported_authenticated,
    }
}

pub open spec fn bypass_domains_spec(text: Seq<char>) -> Seq<Seq<char>> {
    lines(text).map_values(|l: Seq<char>| trim(l)).filter(|l: Seq<char>| l.len() > 0)
}

pub open spec fn bypass_status_spec(text: Seq<char>) -> Seq<Seq<char>> {
    let d = bypass_domains_spec(text);
    if d.len() == 0 || exists|i: int| 0 <= i < d.len() && has_prefix(d[i], "There aren't"@) {
        seq![]
    } else {
        d
    }
}

/// Bypass domains reported by `networksetup -getproxybypassdomains`; the "There aren't any"
/// notice means none.
pub fn bypass_status(text: &str) -> (r: MacosBypassStatus)
    ensures
        r matches MacosBypassStatus::Domains(d) && views(d@) == bypass_status_spec(text@),
{
    let cs = chars_of(text);
    let ls = lines_of(&cs);
    let ghost trimmed = lines(text@).map_values(|l: Seq<char>| trim(l));
    let ghost keep = |l: Seq<char>| l.len() > 0;
    let mut domains: Vec<String> = Vec::new();
    let mut notice = false;
    let mut i: usize = 0;
    while i < ls.len()
        invariant
            i <= ls@.len(),
            ls@.map_values(|v: Vec<char>| v@) == lines(text@),
            trimmed == lines(text@).map_values(|l: Seq<char>| trim(l)),
            keep == (|l: Seq<char>| l.len() > 0),
            views(domains@) == trimmed.take(i as int).filter(keep),
            notice == exists|j: int| 0 <= j < domains@.len() && has_prefix(domains@[j]@, "There aren't"@),
        decreases ls@.len() - i,
    {
        let line = trim_chars(&ls[i]);
        assert(line@ == trimmed[i as int]);
        let ghost before = domains@;
        if line.len() > 0 {
            let starts = starts_with_str(&line, "There aren't");
            domains.push(string_of(&line));
            proof {
                assert(domains@[domains@.len() - 1]@ == line@);
                assert forall|j: int| 0 <= j < before.len() implies domains@[j] == before[j] by {}
            }
            notice = notice || starts;
        }
        proof {
            reveal_with_fuel(Seq::filter, 1);
            assert(trimmed.take(i + 1).drop_last() == trimmed.take(i as int));
            assert(views(domains@) =~= trimmed.take(i + 1).filter(keep));
        }
        i += 1;
    }
    assert(trimmed.take(ls@.len() as int) == trimmed);
    proof {
        let d = bypass_domains_spec(text@);
        assert(views(domains@) == d);
        assert(notice == exists|j: int| 0 <= j < d.len() && has_prefix(d[j], "There aren't"@)) by {
            if notice {
                let j = choose|j: int| 0 <= j < domains@.len() && has_prefix(domains@[j]@, "There aren't"@);
                assert(d[j] == domains@[j]@);
            }
            if exists|j: int| 0 <= j < d.len() && has_prefix(d[j], "There aren't"@) {
                let j = choose|j: int| 0 <= j < d.len() && has_prefix(d[j], "There aren't"@);
                assert(d[j] == domains@[j]@);
            }
        }
    }
    if domains.len() == 0 || notice {
        let empty: Vec<String> = Vec::new();
        assert(views(empty@) =~= seq![]);
        MacosBypassStatus::Domains(empty)
    } else {
        MacosBypassStatus::Domains(domains)
    }
}

// ---------------------------------------------------------------------------
// Planning
// ---------------------------------------------------------------------------

pub open spec fn mutation_commands_spec(
    service: Seq<char>,
    enabled: bool,
    target: ProxyTarget,
    bypass: Option<Seq<Seq<char>>>,
) -> Seq<Seq<Seq<char>>> {
    if !enabled {
        seq![
            seq!["-setwebproxystate"@, service, "off"@],
            seq!["-setsecurewebproxystate"@, service, "off"@],
        ]
    } else {
        let p = decimal(target.port as nat);
        seq![
            seq!["-setwebproxy"@, service, target.host@, p, "off"@, seq![], seq![]],
            seq!["-setsecurewebproxy"@, service, target.host@, p, "off"@, seq![], seq![]],
        ] + match bypass {
            Some(d) => seq![
                seq!["-setproxybypassdomains"@, service] + if d.len() == 0 {
                    seq!["Empty"@]
                } else {
                    d
                },
            ],
            None => seq![],
        }
    }
}

/// `networksetup` argument vectors that apply the change to one service.
pub fn mutation_commands(
    service: &str,
    enabled: bool,
    target: &ProxyTarget,
    bypass: &Option<Vec<String>>,
) -> (r: Vec<Vec<String>>)
    ensures
        r@.map_values(|a: Vec<String>| views(a@)) == mutation_commands_spec(service@, enabled, *target, opt_views(*bypass)),
{
    let mut commands: Vec<Vec<String>> = Vec::new();
    if !enabled {
        let a = ["-setwebproxystate", service, "off"];
        let b = ["-setsecurewebproxystate", service, "off"];
        let va = strings(&a);
        let vb = strings(&b);
        assert(views(va@) =~= seq!["-setwebproxystate"@, service@, "off"@]);
        assert(views(vb@) =~= seq!["-setsecurewebproxystate"@, service@, "off"@]);
        commands.push(va);
        commands.push(vb);
        assert(commands@.map_values(|a: Vec<String>| views(a@)) =~= mutation_commands_spec(
            service@,
            enabled,
            *target,
            opt_views(*bypass),
        ));
        return commands;
    }
    let p = decimal_text(target.port as u64);
    let a = ["-setwebproxy", service, target.host.as_str(), p.as_str(), "off", "", ""];
    let b = ["-setsecurewebproxy", service, target.host.as_str(), p.as_str(), "off", "", ""];
    let va = strings(&a);
    let vb = strings(&b);
    proof {
        reveal_strlit("");
        assert(""@ =~= Seq::<char>::empty());
        assert(views(va@) =~= seq!["-setwebproxy"@, service@, target.host@, decimal(target.port as nat), "off"@, seq![], seq![]]);
        assert(views(vb@) =~= seq!["-setsecurewebproxy"@, service@, target.host@, decimal(target.port as nat), "off"@, seq![], seq![]]);
    }
    commands.push(va);
    commands.push(vb);
    let ghost two = commands@.map_values(|a: Vec<String>| views(a@));
    match bypass {
        Some(domains) => {
            let head = ["-setproxybypassdomains", service];
            let mut cmd = strings(&head);
            assert(views(cmd@) =~= seq!["-setproxybypassdomains"@, service@]);
            let ghost h = views(cmd@);
            if domains.len() == 0 {
                cmd.push(lit("Empty"));
                assert(views(cmd@) =~= h + seq!["Empty"@]);
            } else {
                let mut i: usize = 0;
                while i < domains.len()
                    invariant
                        i <= domains@.len(),
                        views(cmd@) == h + views(domains@.take(i as int)),
                    decreases domains@.len() - i,
                {
                    let ghost before = cmd@;
                    cmd.push(domains[i].clone());
                    proof {
                        lemma_views_take(domains@, i as int);
                        assert(views(cmd@) =~= views(before).push(domains@[i as int]@));
                    }
                    i += 1;
                }
                assert(domains@.take(domains@.len() as int) == domains@);
            }
            let ghost c = views(cmd@);
            commands.push(cmd);
            assert(commands@.map_values(|a: Vec<String>| views(a@)) =~= two.push(c));
        },
        None => {},
    }
    assert(commands@.map_values(|a: Vec<String>| views(a@)) =~= mutation_commands_spec(
        service@,
        enabled,
        *target,
        opt_views(*bypass),
    ));
    commands
}

pub open spec fn setup(args: Seq<Seq<char>>) -> (ProxyCommandKind, Seq<Seq<char>>) {
    (ProxyCommandKind::MacosNetworkSetup, args)
}

/// The services an operation covers: the explicit one, else the discovered ones.
pub open spec fn selected_services(options: ProxyOptions, discovered: Option<Vec<String>>) -> Seq<Seq<char>> {
    match options.service {
        Some(s) => seq![s@],
        None => match discovered {
            Some(d) => views(d@),
            None => seq![],
        },
    }
}

/// The three status queries issued for one service.
pub open spec fn service_queries(service: Seq<char>) -> Seq<Seq<Seq<char>>> {
    seq![
        seq!["-getwebproxy"@, service],
        seq!["-getsecurewebproxy"@, service],
        seq!["-getproxybypassdomains"@, service],
    ]
}

fn push_command(steps: &mut Vec<ProxyPlanStep>, args: Vec<String>)
    ensures
        final(steps)@.len() == old(steps)@.len() + 1,
        forall|j: int| 0 <= j < old(steps)@.len() ==> final(steps)@[j] == old(steps)@[j],
        is_command_step(final(steps)@.last(), setup(views(args@))),
{
    steps.push(ProxyPlanStep::Command(ProxyCommand::MacosNetworkSetup { args }));
}

/// Read-only plan: the status queries for each selected service.
pub fn status_plan(options: &ProxyOptions, discovered: &Option<Vec<String>>) -> (r: PlatformResult<ProxyPlan>)
    ensures
        r matches Ok(plan) ==> plan.platform == ProxyPlatform::Macos && {
            let selected = selected_services(*options, *discovered);
            &&& plan.steps@.len() == 3 * selected.len()
            &&& forall|k: int, q: int|
                0 <= k < selected.len() && 0 <= q < 3 ==> is_command_step(
                    #[trigger] plan.steps@[3 * k + q],
                    setup(service_queries(selected[k])[q]),
                )
        },
        options.service is Some ==> r is Ok,
        options.service is None && discovered is Some ==> r is Ok,
        options.service is None && discovered is None ==> (r matches Err(e) && e is Unsupported),
{
    let selected = match services(options, true, discovered) {
        Ok(v) => v,
        Err(e) => return Err(e),
    };
    let mut steps: Vec<ProxyPlanStep> = Vec::new();
    let mut k: usize = 0;
    while k < selected.len()
        invariant
            k <= selected@.len(),
            steps@.len() == 3 * k,
            forall|m: int, q: int|
                0 <= m < k && 0 <= q < 3 ==> is_command_step(
                    #[trigger] steps@[3 * m + q],
                    setup(service_queries(selected@[m]@)[q]),
                ),
        decreases selected@.len() - k,
    {
        let service = selected[k].as_str();
        let a = ["-getwebproxy", service];
        let b = ["-getsecurewebproxy", service];
        let c = ["-getproxybypassdomains", service];
        let va = strings(&a);
        let vb = strings(&b);
        let vc = strings(&c);
        assert(views(va@) =~= service_queries(selected@[k as int]@)[0]);
        assert(views(vb@) =~= service_queries(selected@[k as int]@)[1]);
        assert(views(vc@) =~= service_queries(selected@[k as int]@)[2]);
        let ghost s0 = steps@;
        push_command(&mut steps, va);
        let ghost s1 = steps@;
        push_command(&mut steps, vb);
        let ghost s2 = steps@;
        push_command(&mut steps, vc);
        proof {
            assert forall|m: int, q: int|
                0 <= m < k + 1 && 0 <= q < 3 implies is_command_step(
                #[trigger] steps@[3 * m + q],
                setup(service_queries(selected@[m]@)[q]),
            ) by {
                if m < k {
                    assert(steps@[3 * m + q] == s0[3 * m + q]);
                } else {
                    assert(m == k);
                    if q == 0 {
                        assert(steps@[3 * m + q] == s1.last());
                    } else if q == 1 {
                        assert(steps@[3 * m + q] == s2.last());
                    }
                }
            }
        }
        k += 1;
    }
    Ok(ProxyPlan::new(ProxyPlatform::Macos, steps))
}

/// Plan for enabling or disabling the proxy on the selected services: for each service its
/// commands followed by its logical change.
pub fn set_plan(options: &ProxyOptions, enabled: bool, discovered: &Option<Vec<String>>) -> (r: PlatformResult<ProxyPlan>)
    ensures
        r matches Ok(plan) ==> plan.platform == ProxyPlatform::Macos && (options.target matches Some(t)
            && plan_steps_spec(plan.steps@, selected_services(*options, *discovered), enabled, t, opt_views(options.bypass))),
        options.service is None && !options.all_services ==> (r matches Err(e) && e is InvalidState),
        options.service is None && options.all_services && discovered is None ==> (r matches Err(e)
            && e is Unsupported),
        (options.service is Some || discovered is Some) && options.target is None ==> (r matches Err(e)
            && e is InvalidState),
        options.target is Some && options.service is Some ==> r is Ok,
        options.target is Some && options.service is None && options.all_services && discovered is Some
            ==> r is Ok,
{
    let selected = match services(options, false, discovered) {
        Ok(v) => v,
        Err(e) => return Err(e),
    };
    let target = match required_target(options) {
        Ok(t) => t,
        Err(e) => return Err(e),
    };
    let ghost tv = *target;
    let mut steps: Vec<ProxyPlanStep> = Vec::new();
    let mut k: usize = 0;
    while k < selected.len()
        invariant
            k <= selected@.len(),
            tv == *target,
            plan_steps_spec(steps@, views(selected@.take(k as int)), enabled, tv, opt_views(options.bypass)),
        decreases selected@.len() - k,
    {
        let service = selected[k].as_str();
        let commands = mutation_commands(service, enabled, target, &options.bypass);
        let ghost expected = mutation_commands_spec(service@, enabled, tv, opt_views(options.bypass));
        let ghost start = steps@;
        let mut j: usize = 0;
        while j < commands.len()
            invariant
                j <= commands@.len(),
                commands@.map_values(|a: Vec<String>| views(a@)) == expected,
                steps@.len() == start.len() + j,
                forall|m: int| 0 <= m < start.len() ==> steps@[m] == start[m],
                forall|m: int| 0 <= m < j ==> is_command_step(#[trigger] steps@[start.len() + m], setup(expected[m])),
            decreases commands@.len() - j,
        {
            assert(views(commands@[j as int]@) == expected[j as int]);
            push_command(&mut steps, clone_strings(&commands[j]));
            j += 1;
        }
        steps.push(
            ProxyPlanStep::Change(
                ProxyChange {
                    platform: ProxyPlatform::Macos,
                    enabled,
                    target: clone_target(target),
                    bypass: clone_bypass(&options.bypass),
                    service: Some(selected[k].clone()),
                },
            ),
        );
        proof {
            lemma_views_take(selected@, k as int);
            lemma_plan_steps_extend(start, steps@, views(selected@.take(k as int)), service@, enabled, tv, opt_views(options.bypass));
        }
        k += 1;
    }
    assert(selected@.take(selected@.len() as int) == selected@);
    Ok(ProxyPlan::new(ProxyPlatform::Macos, steps))
}

/// Steps for the given services, in order: each service's commands, then its change.
pub open spec fn plan_steps_spec(
    steps: Seq<ProxyPlanStep>,
    selected: Seq<Seq<char>>,
    enabled: bool,
    target: ProxyTarget,
    bypass: Option<Seq<Seq<char>>>,
) -> bool
    decreases selected.len(),
{
    if selected.len() == 0 {
        steps.len() == 0
    } else {
        let service = selected.last();
        let expected = mutation_commands_spec(service, enabled, target, bypass);
        let n = steps.len() - expected.len() - 1;
        &&& n >= 0
        &&& plan_steps_spec(steps.take(n), selected.drop_last(), enabled, target, bypass)
        &&& forall|m: int| 0 <= m < expected.len() ==> is_command_step(#[trigger] steps[n + m], setup(expected[m]))
        &&& is_change_step(steps.last(), ProxyPlatform::Macos, enabled, target, bypass, Some(service))
    }
}

proof fn lemma_plan_steps_extend(
    start: Seq<ProxyPlanStep>,
    steps: Seq<ProxyPlanStep>,
    selected: Seq<Seq<char>>,
    service: Seq<char>,
    enabled: bool,
    target: ProxyTarget,
    bypass: Option<Seq<Seq<char>>>,
)
    requires
        plan_steps_spec(start, selected, enabled, target, bypass),
        steps.len() == start.len() + mutation_commands_spec(service, enabled, target, bypass).len() + 1,
        forall|m: int| 0 <= m < start.len() ==> steps[m] == start[m],
        forall|m: int|
            0 <= m < mutation_commands_spec(service, enabled, target, bypass).len() ==> is_command_step(
                #[trigger] steps[start.len() + m],
                setup(mutation_commands_spec(service, enabled, target, bypass)[m]),
            ),
        is_change_step(steps.last(), ProxyPlatform::Macos, enabled, target, bypass, Some(service)),
    ensures
        plan_steps_spec(steps, selected.push(service), enabled, target, bypass),
{
    let s2 = selected.push(service);
    assert(s2.drop_last() == selected);
    assert(s2.last() == service);
    assert(steps.take(start.len() as int) == start);
}

/// The steps of the macOS status plan: the three status queries of each selected service.
pub open spec fn macos_status_steps(steps: Seq<ProxyPlanStep>, selected: Seq<Seq<char>>) -> bool {
    &&& steps.len() == 3 * selected.len()
    &&& forall|k: int, q: int|
        0 <= k < selected.len() && 0 <= q < 3 ==> is_command_step(
            #[trigger] steps[3 * k + q],
            setup(service_queries(selected[k])[q]),
        )
}

/// What planning a macOS operation gives. A status covers the explicit service, else every
/// discovered service. Enabling or disabling needs an explicit service or `all_services`
/// (an invalid-state error otherwise); covering every service needs the discovered list (an
/// unsupported error otherwise); then it needs a target (an invalid-state error otherwise)
/// and gives each selected service's commands and change.
pub open spec fn macos_plan_spec(
    action: ProxyAction,
    options: ProxyOptions,
    discovered: Option<Vec<String>>,
    r: PlatformResult<ProxyPlan>,
) -> bool {
    let selected = selected_services(options, discovered);
    match action_enabled(action) {
        None => if options.service is None && discovered is None {
            r matches Err(e) && e is Unsupported
        } else {
            r matches Ok(p) && p.platform == ProxyPlatform::Macos && macos_status_steps(p.steps@, selected)
        },
        Some(enabled) => if options.service is None && !options.all_services {
            r matches Err(e) && e is InvalidState
        } else if options.service is None && discovered is None {
            r matches Err(e) && e is Unsupported
        } else {
            match options.target {
                None => r matches Err(e) && e is InvalidState,
                Some(t) => r matches Ok(p) && p.platform == ProxyPlatform::Macos && plan_steps_spec(
                    p.steps@,
                    selected,
                    enabled,
                    t,
                    opt_views(options.bypass),
                ),
            }
        },
    }
}

/// Plan for one macOS system-proxy operation. `discovered` is the host's network-service
/// list when the operation needs it and it could be obtained.
pub fn plan(action: ProxyAction, options: &ProxyOptions, discovered: &Option<Vec<String>>) -> (r: PlatformResult<ProxyPlan>)
    ensures
        macos_plan_spec(action, *options, *discovered, r),
{
    match action.enabled() {
        None => status_plan(options, discovered),
        Some(enabled) => set_plan(options, enabled, discovered),
    }
}

} // verus!
