//! The fleet scan's decisions: what each host's replies make of it, which
//! issues they raise, and the report that the hosts' results add up to.
//!
//! The probing itself (connecting, running commands, waiting) is done by the
//! caller, which hands each host's replies back as a [`HostProbe`].
use crate::models::{
    container_views, host_views, log_views, service_views, status_views, Container,
    ContainerView, HostView, InventoryReport, LogEntry, LogView, PortView, Service, ServiceStatus,
    ServiceView, StatusView, Summary, VmHost, VmStatus, WebService,
};
use crate::ssh_client::{
    connect_message, containers_reported, logs_of, ports_of, reply_text, services_of,
    tunnel_of, CommandError, CommandReply, ConnectionError, SshClient,
};
use crate::text::{
    append_decimal, contains, contains_str, decimal, find_str, find_sub,
    rest_from, views,
};
use vstd::prelude::*;

verus! {

pub open spec fn string_views(v: Seq<String>) -> Seq<Seq<char>> {
    v.map_values(|s: String| s@)
}

// ------------------------------------------------------------ port conflicts

/// The ports that a service claims: those it declares when it is running,
/// none otherwise.
pub open spec fn claims_of(s: ServiceView) -> Seq<u16> {
    if s.status == ServiceStatus::Running {
        s.ports
    } else {
        seq![]
    }
}

/// All ports claimed in `svcs`, in order, repeats included.
pub open spec fn claims(svcs: Seq<ServiceView>) -> Seq<u16>
    decreases svcs.len(),
{
    if svcs.len() == 0 {
        seq![]
    } else {
        claims(svcs.drop_last()) + claims_of(svcs.last())
    }
}

/// The names of the running services that declare `port`, each service once,
/// in list order.
pub open spec fn claimants(svcs: Seq<ServiceView>, port: u16) -> Seq<Seq<char>>
    decreases svcs.len(),
{
    if svcs.len() == 0 {
        seq![]
    } else {
        let s = svcs.last();
        claimants(svcs.drop_last(), port) + if s.status == ServiceStatus::Running
            && s.ports.contains(port) {
            seq![s.name]
        } else {
            seq![]
        }
    }
}

/// Whether claim `i` is the first one of its port.
pub open spec fn first_claim(cl: Seq<u16>, i: int) -> bool {
    forall|j: int| 0 <= j < i ==> cl[j] != cl[i]
}

/// `["a", "b"]` without the brackets.
pub open spec fn quoted_list(names: Seq<Seq<char>>) -> Seq<char>
    decreases names.len(),
{
    if names.len() == 0 {
        seq![]
    } else if names.len() == 1 {
        "\""@ + names[0] + "\""@
    } else {
        quoted_list(names.drop_last()) + ", \""@ + names.last() + "\""@
    }
}

pub open spec fn conflict_text(host: Seq<char>, port: u16, names: Seq<Seq<char>>) -> Seq<char> {
    host + ": Port conflict on "@ + decimal(port as nat) + " - used by ["@ + quoted_list(names)
        + "]"@
}

/// The conflicts found at the first `k` claims `cl` of `svcs`: one at the
/// first claim of each port that two or more running services declare.
pub open spec fn conflicts_upto(
    host: Seq<char>,
    svcs: Seq<ServiceView>,
    cl: Seq<u16>,
    k: int,
) -> Seq<Seq<char>>
    decreases k,
{
    if k <= 0 {
        seq![]
    } else {
        conflicts_upto(host, svcs, cl, k - 1) + if first_claim(cl, k - 1) && claimants(
            svcs,
            cl[k - 1],
        ).len() > 1 {
            seq![conflict_text(host, cl[k - 1], claimants(svcs, cl[k - 1]))]
        } else {
            seq![]
        }
    }
}

/// One issue for each port that two or more running services declare, in
/// the order in which the ports are first claimed, naming each of those
/// services once, in list order.
pub open spec fn conflict_issues(host: Seq<char>, svcs: Seq<ServiceView>) -> Seq<Seq<char>> {
    conflicts_upto(host, svcs, claims(svcs), claims(svcs).len() as int)
}

fn collect_claims(services: &Vec<Service>) -> (r: Vec<u16>)
    ensures
        r@ == claims(service_views(services@)),
{
    let ghost sv = service_views(services@);
    let mut ports: Vec<u16> = Vec::new();
    let mut i: usize = 0;
    assert(sv.take(0) =~= Seq::<ServiceView>::empty());
    while i < services.len()
        invariant
            i <= services@.len(),
            sv == service_views(services@),
            ports@ == claims(sv.take(i as int)),
        decreases services@.len() - i,
    {
        assert(sv.take(i + 1).drop_last() =~= sv.take(i as int));
        assert(sv.take(i + 1).last() == services@[i as int]@);
        let s = &services[i];
        let ghost base = ports@;
        if s.status == ServiceStatus::Running {
            let mut k: usize = 0;
            assert(base + s.ports@.take(0) =~= base);
            while k < s.ports.len()
                invariant
                    k <= s.ports@.len(),
                    ports@ == base + s.ports@.take(k as int),
                decreases s.ports@.len() - k,
            {
                assert(base + s.ports@.take(k + 1) =~= (base + s.ports@.take(k as int)).push(
                    s.ports@[k as int],
                ));
                ports.push(s.ports[k]);
                k = k + 1;
            }
            assert(s.ports@.take(k as int) =~= s.ports@);
        } else {
            assert(base + claims_of(s@) =~= base);
        }
        i = i + 1;
    }
    assert(sv.take(i as int) =~= sv);
    ports
}

fn port_listed(ports: &Vec<u16>, p: u16) -> (r: bool)
    ensures
        r == ports@.contains(p),
{
    let mut i: usize = 0;
    while i < ports.len()
        invariant
            i <= ports@.len(),
            forall|j: int| 0 <= j < i ==> ports@[j] != p,
        decreases ports@.len() - i,
    {
        if ports[i] == p {
            return true;
        }
        i = i + 1;
    }
    false
}

fn claimant_names<'a>(services: &'a Vec<Service>, p: u16) -> (r: Vec<&'a str>)
    ensures
        views(r@) == claimants(service_views(services@), p),
{
    let ghost sv = service_views(services@);
    let mut who: Vec<&'a str> = Vec::new();
    let mut i: usize = 0;
    assert(sv.take(0) =~= Seq::<ServiceView>::empty());
    assert(views(who@) =~= Seq::<Seq<char>>::empty());
    while i < services.len()
        invariant
            i <= services@.len(),
            sv == service_views(services@),
            views(who@) == claimants(sv.take(i as int), p),
        decreases services@.len() - i,
    {
        assert(sv.take(i + 1).drop_last() =~= sv.take(i as int));
        assert(sv.take(i + 1).last() == services@[i as int]@);
        let s = &services[i];
        if s.status == ServiceStatus::Running && port_listed(&s.ports, p) {
            let nm = s.name.as_str();
            assert(views(who@.push(nm)) =~= views(who@).push(nm@));
            who.push(nm);
        } else {
            assert(views(who@) =~= views(who@) + Seq::<Seq<char>>::empty());
        }
        i = i + 1;
    }
    assert(sv.take(i as int) =~= sv);
    who
}

fn quote_names(names: &Vec<&str>) -> (r: String)
    ensures
        r@ == quoted_list(views(names@)),
{
    let ghost nv = views(names@);
    let mut out = String::new();
    let mut j: usize = 0;
    assert(nv.take(0) =~= Seq::<Seq<char>>::empty());
    while j < names.len()
        invariant
            j <= names@.len(),
            nv == views(names@),
            out@ == quoted_list(nv.take(j as int)),
        decreases names@.len() - j,
    {
        assert(nv.take(j + 1).drop_last() =~= nv.take(j as int));
        if j == 0 {
            out.append("\"");
        } else {
            out.append(", \"");
        }
        out.append(names[j]);
        out.append("\"");
        proof {
            lemma_quoted_step(nv, j as int);
        }
        j = j + 1;
    }
    assert(nv.take(j as int) =~= nv);
    out
}

proof fn lemma_quoted_step(nv: Seq<Seq<char>>, j: int)
    requires
        0 <= j < nv.len(),
    ensures
        quoted_list(nv.take(j + 1)) == if j == 0 {
            "\""@ + nv[j] + "\""@
        } else {
            quoted_list(nv.take(j)) + ", \""@ + nv[j] + "\""@
        },
{
    assert(nv.take(j + 1).drop_last() =~= nv.take(j));
}

fn conflict_message(host: &str, port: u16, names: &Vec<&str>) -> (r: String)
    ensures
        r@ == conflict_text(host@, port, views(names@)),
{
    let mut out = String::from_str(host);
    out.append(": Port conflict on ");
    append_decimal(&mut out, port);
    out.append(" - used by [");
    let q = quote_names(names);
    out.append(q.as_str());
    out.append("]");
    out
}

// --------------------------------------------------------- binding failures

/// Whether the message says `port` and, somewhere after it, `already`: the
/// pattern `port.*already` read as a regular expression over one line.
pub open spec fn port_then_already(m: Seq<char>) -> bool {
    match find_sub(m, "port"@) {
        Some(i) => contains(m.skip(i + "port"@.len() as int), "already"@),
        None => false,
    }
}

/// Whether a log message tells of a port that could not be bound.
pub open spec fn bind_failure(m: Seq<char>) -> bool {
    contains(m, "NT_STATUS_ADDRESS_ALREADY_ASSOCIATED"@) || contains(m, "Failed to bind"@)
        || port_then_already(m)
}

/// One issue for each log entry that tells of a binding failure, in order.
pub open spec fn bind_issues(host: Seq<char>, logs: Seq<LogView>) -> Seq<Seq<char>>
    decreases logs.len(),
{
    if logs.len() == 0 {
        seq![]
    } else {
        bind_issues(host, logs.drop_last()) + if bind_failure(logs.last().message) {
            seq![host + ": Port binding error - "@ + logs.last().message]
        } else {
            seq![]
        }
    }
}

fn is_bind_failure(m: &str) -> (r: bool)
    ensures
        r == bind_failure(m@),
{
    if contains_str(m, "NT_STATUS_ADDRESS_ALREADY_ASSOCIATED") || contains_str(
        m,
        "Failed to bind",
    ) {
        return true;
    }
    let w = "port".unicode_len();
    match find_str(m, "port") {
        Some(i) => contains_str(rest_from(m, i + w), "already"),
        None => false,
    }
}

// ------------------------------------------------------------------ summary

pub open spec fn running_in(svcs: Seq<ServiceView>) -> nat
    decreases svcs.len(),
{
    if svcs.len() == 0 {
        0
    } else {
        running_in(svcs.drop_last()) + if svcs.last().status == ServiceStatus::Running {
            1nat
        } else {
            0nat
        }
    }
}

pub open spec fn up_in(cs: Seq<ContainerView>) -> nat
    decreases cs.len(),
{
    if cs.len() == 0 {
        0
    } else {
        up_in(cs.drop_last()) + if contains(cs.last().status, "Up"@) {
            1nat
        } else {
            0nat
        }
    }
}

pub open spec fn reachable_count(vms: Seq<StatusView>) -> nat
    decreases vms.len(),
{
    if vms.len() == 0 {
        0
    } else {
        reachable_count(vms.drop_last()) + if vms.last().reachable {
            1nat
        } else {
            0nat
        }
    }
}

/// The number of services over all hosts.
pub open spec fn service_count(vms: Seq<StatusView>) -> nat
    decreases vms.len(),
{
    if vms.len() == 0 {
        0
    } else {
        service_count(vms.drop_last()) + vms.last().services.len()
    }
}

pub open spec fn running_count(vms: Seq<StatusView>) -> nat
    decreases vms.len(),
{
    if vms.len() == 0 {
        0
    } else {
        running_count(vms.drop_last()) + running_in(vms.last().services)
    }
}

/// The number of containers over all hosts.
pub open spec fn container_count(vms: Seq<StatusView>) -> nat
    decreases vms.len(),
{
    if vms.len() == 0 {
        0
    } else {
        container_count(vms.drop_last()) + vms.last().containers.len()
    }
}

pub open spec fn up_count(vms: Seq<StatusView>) -> nat
    decreases vms.len(),
{
    if vms.len() == 0 {
        0
    } else {
        up_count(vms.drop_last()) + up_in(vms.last().containers)
    }
}

/// Whether `s` holds the counters of `vms`.
pub open spec fn summarizes(s: Summary, vms: Seq<StatusView>) -> bool {
    &&& s.total_vms == vms.len()
    &&& s.reachable_vms == reachable_count(vms)
    &&& s.total_services == service_count(vms)
    &&& s.running_services == running_count(vms)
    &&& s.failed_services == service_count(vms) - running_count(vms)
    &&& s.total_containers == container_count(vms)
    &&& s.running_containers == up_count(vms)
}

/// Whether the service and container totals of `vms` fit in a `usize`.
pub open spec fn counts_fit(vms: Seq<StatusView>) -> bool {
    service_count(vms) <= usize::MAX && container_count(vms) <= usize::MAX
}

proof fn lemma_within_host(svcs: Seq<ServiceView>, cs: Seq<ContainerView>)
    ensures
        running_in(svcs) <= svcs.len(),
        up_in(cs) <= cs.len(),
    decreases svcs.len() + cs.len(),
{
    if svcs.len() > 0 {
        lemma_within_host(svcs.drop_last(), cs);
    }
    if cs.len() > 0 {
        lemma_within_host(svcs, cs.drop_last());
    }
}

proof fn lemma_counts_bounded(vms: Seq<StatusView>)
    ensures
        reachable_count(vms) <= vms.len(),
        running_count(vms) <= service_count(vms),
        up_count(vms) <= container_count(vms),
    decreases vms.len(),
{
    if vms.len() > 0 {
        lemma_counts_bounded(vms.drop_last());
        lemma_within_host(vms.last().services, vms.last().containers);
    }
}

proof fn lemma_prefix_counts(vms: Seq<StatusView>, i: int)
    requires
        0 <= i <= vms.len(),
    ensures
        service_count(vms.take(i)) <= service_count(vms),
        container_count(vms.take(i)) <= container_count(vms),
    decreases vms.len() - i,
{
    if i < vms.len() {
        lemma_prefix_counts(vms, i + 1);
        assert(vms.take(i + 1).drop_last() =~= vms.take(i));
    } else {
        assert(vms.take(i) =~= vms);
    }
}

fn count_running(svcs: &Vec<Service>) -> (r: usize)
    ensures
        r == running_in(service_views(svcs@)),
{
    let ghost sv = service_views(svcs@);
    let mut n: usize = 0;
    let mut i: usize = 0;
    assert(sv.take(0) =~= Seq::<ServiceView>::empty());
    while i < svcs.len()
        invariant
            i <= svcs@.len(),
            sv == service_views(svcs@),
            n == running_in(sv.take(i as int)),
            n <= i,
        decreases svcs@.len() - i,
    {
        assert(sv.take(i + 1).drop_last() =~= sv.take(i as int));
        if svcs[i].status == ServiceStatus::Running {
            n = n + 1;
        }
        i = i + 1;
    }
    assert(sv.take(i as int) =~= sv);
    n
}

fn count_up(cs: &Vec<Container>) -> (r: usize)
    ensures
        r == up_in(container_views(cs@)),
{
    let ghost cv = container_views(cs@);
    let mut n: usize = 0;
    let mut i: usize = 0;
    assert(cv.take(0) =~= Seq::<ContainerView>::empty());
    while i < cs.len()
        invariant
            i <= cs@.len(),
            cv == container_views(cs@),
            n == up_in(cv.take(i as int)),
            n <= i,
        decreases cs@.len() - i,
    {
        assert(cv.take(i + 1).drop_last() =~= cv.take(i as int));
        if contains_str(cs[i].status.as_str(), "Up") {
            n = n + 1;
        }
        i = i + 1;
    }
    assert(cv.take(i as int) =~= cv);
    n
}

/// The issues that one reached host's records raise, appended to
/// `critical_issues`: its port conflicts, then its binding failures.
pub fn check_critical_issues(
    host: &VmHost,
    services: &Vec<Service>,
    errors: &Vec<LogEntry>,
    critical_issues: &mut Vec<String>,
)
    ensures
        string_views(final(critical_issues)@) == string_views(old(critical_issues)@)
            + conflict_issues(host.name@, service_views(services@)) + bind_issues(
            host.name@,
            log_views(errors@),
        ),
{
    let ports = collect_claims(services);
    let ghost sv = service_views(services@);
    let ghost cl = ports@;
    let ghost base = string_views(critical_issues@);
    let ghost hn = host.name@;
    let mut k: usize = 0;
    while k < ports.len()
        invariant
            k <= ports@.len(),
            cl == ports@,
            sv == service_views(services@),
            cl == claims(sv),
            hn == host.name@,
            string_views(critical_issues@) == base + conflicts_upto(hn, sv, cl, k as int),
        decreases ports@.len() - k,
    {
        let mut first = true;
        let mut j: usize = 0;
        while j < k
            invariant
                j <= k < ports@.len(),
                first == (forall|q: int| 0 <= q < j ==> ports@[q] != ports@[k as int]),
            decreases k - j,
        {
            if ports[j] == ports[k] {
                first = false;
            }
            j = j + 1;
        }
        let ghost before = string_views(critical_issues@);
        if first {
            let p = ports[k];
            let who = claimant_names(services, p);
            if who.len() > 1 {
                let m = conflict_message(host.name.as_str(), p, &who);
                assert(string_views(critical_issues@.push(m)) =~= before.push(m@));
                critical_issues.push(m);
            }
        }
        assert(string_views(critical_issues@) =~= base + conflicts_upto(hn, sv, cl, k + 1));
        k = k + 1;
    }
    let ghost mid = string_views(critical_issues@);
    let ghost lv = log_views(errors@);
    let mut i: usize = 0;
    assert(lv.take(0) =~= Seq::<LogView>::empty());
    assert(mid + bind_issues(hn, lv.take(0)) =~= mid);
    while i < errors.len()
        invariant
            i <= errors@.len(),
            lv == log_views(errors@),
            hn == host.name@,
            string_views(critical_issues@) == mid + bind_issues(hn, lv.take(i as int)),
        decreases errors@.len() - i,
    {
        assert(lv.take(i + 1).drop_last() =~= lv.take(i as int));
        assert(lv.take(i + 1).last() == errors@[i as int]@);
        let ghost before = string_views(critical_issues@);
        if is_bind_failure(errors[i].message.as_str()) {
            let mut m = String::from_str(host.name.as_str());
            m.append(": Port binding error - ");
            m.append(errors[i].message.as_str());
            assert(string_views(critical_issues@.push(m)) =~= before.push(m@));
            critical_issues.push(m);
        }
        assert(string_views(critical_issues@) =~= mid + bind_issues(hn, lv.take(i + 1)));
        i = i + 1;
    }
    assert(lv.take(i as int) =~= lv);
}

/// The counters of `vms`.
pub fn generate_summary(vms: &Vec<VmStatus>) -> (r: Summary)
    requires
        counts_fit(status_views(vms@)),
    ensures
        summarizes(r, status_views(vms@)),
{
    let ghost sv = status_views(vms@);
    let mut reachable: usize = 0;
    let mut services: usize = 0;
    let mut running: usize = 0;
    let mut containers: usize = 0;
    let mut up: usize = 0;
    let mut i: usize = 0;
    assert(sv.take(0) =~= Seq::<StatusView>::empty());
    while i < vms.len()
        invariant
            i <= vms@.len(),
            sv == status_views(vms@),
            counts_fit(sv),
            reachable == reachable_count(sv.take(i as int)),
            services == service_count(sv.take(i as int)),
            running == running_count(sv.take(i as int)),
            containers == container_count(sv.take(i as int)),
            up == up_count(sv.take(i as int)),
            reachable <= i,
        decreases vms@.len() - i,
    {
        let ghost next = sv.take(i + 1);
        assert(next.drop_last() =~= sv.take(i as int));
        assert(next.last() == vms@[i as int]@);
        proof {
            lemma_prefix_counts(sv, i + 1);
            lemma_counts_bounded(next);
        }
        let v = &vms[i];
        if v.reachable {
            reachable = reachable + 1;
        }
        services = services + v.services.len();
        running = running + count_running(&v.services);
        containers = containers + v.containers.len();
        up = up + count_up(&v.containers);
        i = i + 1;
    }
    assert(sv.take(i as int) =~= sv);
    proof {
        lemma_counts_bounded(sv);
    }
    Summary {
        total_vms: vms.len(),
        reachable_vms: reachable,
        total_services: services,
        running_services: running,
        failed_services: services - running,
        total_containers: containers,
        running_containers: up,
    }
}

/// Whether the totals of `vms` fit in a `usize`, so that
/// [`generate_summary`] can count them.
pub fn summary_fits(vms: &Vec<VmStatus>) -> (r: bool)
    ensures
        r == counts_fit(status_views(vms@)),
{
    let ghost sv = status_views(vms@);
    let mut services: usize = 0;
    let mut containers: usize = 0;
    let mut i: usize = 0;
    assert(sv.take(0) =~= Seq::<StatusView>::empty());
    while i < vms.len()
        invariant
            i <= vms@.len(),
            sv == status_views(vms@),
            services == service_count(sv.take(i as int)),
            containers == container_count(sv.take(i as int)),
        decreases vms@.len() - i,
    {
        let ghost next = sv.take(i + 1);
        assert(next.drop_last() =~= sv.take(i as int));
        assert(next.last() == vms@[i as int]@);
        let v = &vms[i];
        match services.checked_add(v.services.len()) {
            Some(t) => {
                services = t;
            },
            None => {
                proof {
                    lemma_prefix_counts(sv, i + 1);
                }
                return false;
            },
        }
        match containers.checked_add(v.containers.len()) {
            Some(t) => {
                containers = t;
            },
            None => {
                proof {
                    lemma_prefix_counts(sv, i + 1);
                }
                return false;
            },
        }
        i = i + 1;
    }
    assert(sv.take(i as int) =~= sv);
    true
}

// ----------------------------------------------------------- host results

/// The replies of one reached host to the inventory commands.
pub struct HostReplies {
    /// Reply to `SERVICES_COMMAND`.
    pub services: CommandReply,
    /// Reply to `DOCKER_CHECK_COMMAND`.
    pub docker_check: CommandReply,
    /// Reply to the command that `SshClient::container_listing_command` chose.
    pub containers: CommandReply,
    /// Reply to `WIREGUARD_COMMAND`.
    pub wireguard: CommandReply,
    /// Reply to `PORTS_COMMAND`.
    pub ports: CommandReply,
    /// Reply to `ERRORS_COMMAND`.
    pub errors: CommandReply,
}

/// How the probe of one host ended.
pub enum HostProbe {
    /// The handshake failed.
    Refused(CommandError),
    /// The handshake succeeded and the inventory commands were run.
    Answered(HostReplies),
}

/// What a host's probe makes of it: unreachable and empty when refused;
/// reachable, with what each reply gives, when answered.
pub open spec fn reported_status(h: HostView, probe: HostProbe) -> StatusView {
    match probe {
        HostProbe::Refused(_) => StatusView {
            host: h,
            reachable: false,
            services: seq![],
            containers: seq![],
            wireguard: None,
            open_ports: seq![],
            recent_errors: seq![],
        },
        HostProbe::Answered(r) => StatusView {
            host: h,
            reachable: true,
            services: match reply_text(r.services) {
                Some(out) => services_of(out),
                None => seq![],
            },
            containers: containers_reported(r.docker_check, r.containers),
            wireguard: match reply_text(r.wireguard) {
                Some(out) => tunnel_of(out),
                None => None,
            },
            open_ports: match reply_text(r.ports) {
                Some(out) => ports_of(out),
                None => seq![],
            },
            recent_errors: match reply_text(r.errors) {
                Some(out) => logs_of(out),
                None => seq![],
            },
        },
    }
}

/// The critical issues that a host's probe raises: the connection failure
/// when refused; its port conflicts and binding failures when answered.
pub open spec fn reported_issues(h: HostView, probe: HostProbe) -> Seq<Seq<char>> {
    match probe {
        HostProbe::Refused(e) => seq![h.name + ": "@ + connect_message(e)],
        HostProbe::Answered(_) => {
            let st = reported_status(h, probe);
            conflict_issues(h.name, st.services) + bind_issues(h.name, st.recent_errors)
        },
    }
}

/// The result for `host` from its probe; its issues are appended to
/// `critical_issues`.
pub fn scan_host(host: &VmHost, probe: &HostProbe, critical_issues: &mut Vec<String>) -> (r:
    VmStatus)
    ensures
        r@ == reported_status(host@, *probe),
        string_views(final(critical_issues)@) == string_views(old(critical_issues)@)
            + reported_issues(host@, *probe),
{
    match probe {
        HostProbe::Refused(e) => {
            let m = ConnectionError::from_failure(host, e).to_text();
            assert(string_views(critical_issues@.push(m)) =~= string_views(critical_issues@)
                + seq![m@]);
            critical_issues.push(m);
            let r = VmStatus {
                host: host.duplicate(),
                reachable: false,
                services: Vec::new(),
                containers: Vec::new(),
                wireguard: None,
                open_ports: Vec::new(),
                recent_errors: Vec::new(),
            };
            assert(r@.services =~= Seq::<ServiceView>::empty());
            assert(r@.containers =~= Seq::<ContainerView>::empty());
            assert(r@.open_ports =~= Seq::<PortView>::empty());
            assert(r@.recent_errors =~= Seq::<LogView>::empty());
            r
        },
        HostProbe::Answered(replies) => {
            let services = SshClient::list_running_services(&replies.services);
            let containers = SshClient::list_containers(&replies.docker_check, &replies.containers);
            let wireguard = SshClient::get_wireguard_status(&replies.wireguard);
            let open_ports = SshClient::get_open_ports(&replies.ports);
            let recent_errors = SshClient::get_recent_errors(&replies.errors);
            check_critical_issues(host, &services, &recent_errors, critical_issues);
            let r = VmStatus {
                host: host.duplicate(),
                reachable: true,
                services,
                containers,
                wireguard,
                open_ports,
                recent_errors,
            };
            r
        },
    }
}

/// The results of the hosts `hs`, one for each probe of `ps`, in input order.
pub open spec fn statuses_of(hs: Seq<HostView>, ps: Seq<HostProbe>) -> Seq<StatusView> {
    Seq::new(hs.len(), |i: int| reported_status(hs[i], ps[i]))
}

/// The critical issues of the first `k` hosts, host by host.
pub open spec fn issues_upto(hs: Seq<HostView>, ps: Seq<HostProbe>, k: int) -> Seq<Seq<char>>
    decreases k,
{
    if k <= 0 {
        seq![]
    } else {
        issues_upto(hs, ps, k - 1) + reported_issues(hs[k - 1], ps[k - 1])
    }
}

/// Whether `rep` is the report of the hosts `hs`, probed as `ps`, with the
/// endpoint results `web`: the hosts' results and issues in input order, the
/// counters of those results, and no warnings.
pub open spec fn reports(
    rep: InventoryReport,
    hs: Seq<HostView>,
    ps: Seq<HostProbe>,
    web: Seq<WebService>,
) -> bool {
    &&& status_views(rep.vms@) == statuses_of(hs, ps)
    &&& string_views(rep.critical_issues@) == issues_upto(hs, ps, ps.len() as int)
    &&& summarizes(rep.summary, status_views(rep.vms@))
    &&& rep.web_services@ == web
    &&& rep.warnings@.len() == 0
}

/// Relies on `chrono::Utc::now` and `DateTime::timestamp`: the current
/// time in whole seconds since the Unix epoch. Nothing is promised of it.
/// `Utc::now` panics only when the system clock reads before 1970 or past
/// chrono's range; that depends on the clock, not on any argument.
#[verifier::external_body]
fn unix_now() -> i64 {
    chrono::Utc::now().timestamp()
}

/// The fleet scan over a fixed list of hosts.
pub struct InventoryScanner {
    hosts: Vec<VmHost>,
}

impl InventoryScanner {
    /// The hosts, in input order.
    pub closed spec fn spec_hosts(&self) -> Seq<HostView> {
        host_views(self.hosts@)
    }

    pub fn new(hosts: Vec<VmHost>) -> (r: Self)
        ensures
            r.spec_hosts() == host_views(hosts@),
    {
        InventoryScanner { hosts }
    }

    pub fn hosts(&self) -> (r: &Vec<VmHost>)
        ensures
            host_views(r@) == self.spec_hosts(),
    {
        &self.hosts
    }

    /// The report of a scan stamped with the current time; see [`Self::assemble`].
    pub fn finish(&self, probes: &Vec<HostProbe>, web_services: Vec<WebService>) -> (r: Option<
        InventoryReport,
    >)
        requires
            probes@.len() == self.spec_hosts().len(),
        ensures
            r is None <==> !counts_fit(statuses_of(self.spec_hosts(), probes@)),
            r matches Some(rep) ==> reports(rep, self.spec_hosts(), probes@, web_services@),
    {
        let now = unix_now();
        self.assemble(probes, web_services, now)
    }

    /// The report of a scan, from one probe for each host (in host order),
    /// the endpoint results and the time of the scan. There is none only
    /// when the service or container totals do not fit in a `usize`.
    pub fn assemble(
        &self,
        probes: &Vec<HostProbe>,
        web_services: Vec<WebService>,
        timestamp: i64,
    ) -> (r: Option<InventoryReport>)
        requires
            probes@.len() == self.spec_hosts().len(),
        ensures
            r is None <==> !counts_fit(statuses_of(self.spec_hosts(), probes@)),
            r matches Some(rep) ==> reports(rep, self.spec_hosts(), probes@, web_services@)
                && rep.timestamp == timestamp,
    {
        let ghost hs = self.spec_hosts();
        let mut vms: Vec<VmStatus> = Vec::new();
        let mut critical_issues: Vec<String> = Vec::new();
        let mut i: usize = 0;
        assert(string_views(critical_issues@) =~= Seq::<Seq<char>>::empty());
        while i < probes.len()
            invariant
                i <= probes@.len(),
                probes@.len() == self.hosts@.len(),
                hs == self.spec_hosts(),
                hs == host_views(self.hosts@),
                vms@.len() == i,
                forall|j: int| 0 <= j < i ==> #[trigger] vms@[j]@ == reported_status(hs[j], probes@[j]),
                string_views(critical_issues@) == issues_upto(hs, probes@, i as int),
            decreases probes@.len() - i,
        {
            let st = scan_host(&self.hosts[i], &probes[i], &mut critical_issues);
            vms.push(st);
            i = i + 1;
        }
        assert(status_views(vms@) =~= statuses_of(hs, probes@));
        if !summary_fits(&vms) {
            return None;
        }
        let summary = generate_summary(&vms);
        Some(
            InventoryReport {
                timestamp,
                vms,
                web_services,
                summary,
                critical_issues,
                warnings: Vec::new(),
            },
        )
    }
}

// --------------------------------------------------------------------- laws

/// The summary's counters agree with each other: failed services are the
/// services that do not run, and no count of a part exceeds its whole.
pub proof fn summary_is_consistent(s: Summary, vms: Seq<StatusView>)
    requires
        summarizes(s, vms),
    ensures
        s.total_services == service_count(vms),
        s.failed_services == s.total_services - s.running_services,
        s.running_services <= s.total_services,
        s.reachable_vms <= s.total_vms,
        s.running_containers <= s.total_containers,
{
    lemma_counts_bounded(vms);
}

/// A host that the scan marks unreachable has no records, and it raises
/// exactly one critical issue, which begins with its name.
pub proof fn unreachable_host_is_empty(hs: Seq<HostView>, ps: Seq<HostProbe>, i: int)
    requires
        hs.len() == ps.len(),
        0 <= i < hs.len(),
        !statuses_of(hs, ps)[i].reachable,
    ensures
        statuses_of(hs, ps)[i].services.len() == 0,
        statuses_of(hs, ps)[i].containers.len() == 0,
        statuses_of(hs, ps)[i].wireguard is None,
        statuses_of(hs, ps)[i].open_ports.len() == 0,
        statuses_of(hs, ps)[i].recent_errors.len() == 0,
        reported_issues(hs[i], ps[i]).len() == 1,
        reported_issues(hs[i], ps[i])[0].take(hs[i].name.len() as int) == hs[i].name,
{
    let m = reported_issues(hs[i], ps[i]);
    if let HostProbe::Refused(e) = ps[i] {
        assert(m[0].take(hs[i].name.len() as int) =~= hs[i].name);
    }
}

/// The report lists the hosts in input order, whatever order their probes
/// finished in.
pub proof fn hosts_keep_input_order(hs: Seq<HostView>, ps: Seq<HostProbe>, i: int)
    requires
        hs.len() == ps.len(),
        0 <= i < hs.len(),
    ensures
        statuses_of(hs, ps).len() == hs.len(),
        statuses_of(hs, ps)[i].host == hs[i],
{
}

proof fn lemma_no_conflicts_upto(host: Seq<char>, svcs: Seq<ServiceView>, cl: Seq<u16>, k: int)
    requires
        0 <= k <= cl.len(),
        forall|p: u16| #[trigger] claimants(svcs, p).len() <= 1,
    ensures
        conflicts_upto(host, svcs, cl, k).len() == 0,
    decreases k,
{
    if k > 0 {
        lemma_no_conflicts_upto(host, svcs, cl, k - 1);
        assert(claimants(svcs, cl[k - 1]).len() <= 1);
    }
}

/// When no port is declared by two running services, there is no
/// port-conflict issue.
pub proof fn distinct_ports_raise_no_conflict(host: Seq<char>, svcs: Seq<ServiceView>)
    requires
        forall|p: u16| #[trigger] claimants(svcs, p).len() <= 1,
    ensures
        conflict_issues(host, svcs).len() == 0,
{
    lemma_no_conflicts_upto(host, svcs, claims(svcs), claims(svcs).len() as int);
}

} // verus!
