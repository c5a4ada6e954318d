use fleet_inventory::models::{
    Container, LogEntry, Service, ServiceStatus, VmHost, VmStatus,
};
use fleet_inventory::scanner::{
    check_critical_issues, generate_summary, scan_host, summary_fits, HostProbe, HostReplies,
    InventoryScanner,
};
use fleet_inventory::ssh_client::{CommandError, SshClient};

fn host(name: &str) -> VmHost {
    VmHost {
        name: name.to_string(),
        ip: "192.0.2.1".to_string(),
        port: 22,
        user: "ops".to_string(),
        identity_file: "/keys/id".to_string(),
        vpn_ip: None,
    }
}

fn service(name: &str, status: ServiceStatus, ports: Vec<u16>) -> Service {
    Service { name: name.to_string(), status, ports }
}

fn log(message: &str) -> LogEntry {
    LogEntry {
        timestamp: "Oct".to_string(),
        service: "18".to_string(),
        level: "err".to_string(),
        message: message.to_string(),
    }
}

fn replies(services: &str, errors: &str) -> HostReplies {
    HostReplies {
        services: Ok(services.to_string()),
        docker_check: Ok("DOCKER_FOUND".to_string()),
        containers: Ok("NAMES STATUS PORTS\nweb Up 80/tcp\nold Exited none\n".to_string()),
        wireguard: Ok("WG_ERROR".to_string()),
        ports: Ok("tcp LISTEN 0 5 0.0.0.0:22 0.0.0.0:*\n".to_string()),
        errors: Ok(errors.to_string()),
    }
}

#[test]
fn port_conflict_names_both_services() {
    let services = vec![
        service("nginx", ServiceStatus::Running, vec![80, 443]),
        service("traefik", ServiceStatus::Running, vec![8080, 80]),
        service("redis", ServiceStatus::Running, vec![6379]),
    ];
    let mut issues = Vec::new();
    check_critical_issues(&host("edge"), &services, &Vec::new(), &mut issues);
    assert_eq!(issues, vec!["edge: Port conflict on 80 - used by [\"nginx\", \"traefik\"]".to_string()]);
}

#[test]
fn distinct_ports_give_no_conflict() {
    let services = vec![
        service("nginx", ServiceStatus::Running, vec![80, 443]),
        service("traefik", ServiceStatus::Running, vec![8080]),
        service("redis", ServiceStatus::Running, vec![6379]),
    ];
    let mut issues = Vec::new();
    check_critical_issues(&host("edge"), &services, &Vec::new(), &mut issues);
    assert!(issues.is_empty());
}

#[test]
fn one_service_listing_a_port_twice_is_no_conflict() {
    let services = vec![service("nginx", ServiceStatus::Running, vec![80, 80])];
    let mut issues = Vec::new();
    check_critical_issues(&host("h1"), &services, &Vec::new(), &mut issues);
    assert!(issues.is_empty());
}

#[test]
fn conflict_names_each_service_once() {
    let services = vec![
        service("nginx", ServiceStatus::Running, vec![80, 80]),
        service("apache", ServiceStatus::Running, vec![80]),
    ];
    let mut issues = Vec::new();
    check_critical_issues(&host("h1"), &services, &Vec::new(), &mut issues);
    assert_eq!(issues, vec!["h1: Port conflict on 80 - used by [\"nginx\", \"apache\"]".to_string()]);
}

#[test]
fn stopped_service_claims_no_port() {
    let services = vec![
        service("nginx", ServiceStatus::Running, vec![80]),
        service("apache", ServiceStatus::Stopped, vec![80]),
    ];
    let mut issues = vec!["earlier".to_string()];
    check_critical_issues(&host("edge"), &services, &Vec::new(), &mut issues);
    assert_eq!(issues, vec!["earlier".to_string()]);
}

#[test]
fn conflicts_follow_first_claim_order() {
    let services = vec![
        service("a", ServiceStatus::Running, vec![9, 5]),
        service("b", ServiceStatus::Running, vec![5, 9]),
        service("c", ServiceStatus::Running, vec![12345, 5]),
    ];
    let mut issues = Vec::new();
    check_critical_issues(&host("h"), &services, &Vec::new(), &mut issues);
    assert_eq!(
        issues,
        vec![
            "h: Port conflict on 9 - used by [\"a\", \"b\"]".to_string(),
            "h: Port conflict on 5 - used by [\"a\", \"b\", \"c\"]".to_string(),
        ]
    );
}

#[test]
fn binding_failures_are_critical() {
    let errors = vec![
        log("smbd: NT_STATUS_ADDRESS_ALREADY_ASSOCIATED on 445"),
        log("Failed to bind socket"),
        log("port 80 is already in use"),
        log("already listening on port 80"),
        log("all good"),
    ];
    let mut issues = Vec::new();
    check_critical_issues(&host("db"), &Vec::new(), &errors, &mut issues);
    assert_eq!(
        issues,
        vec![
            "db: Port binding error - smbd: NT_STATUS_ADDRESS_ALREADY_ASSOCIATED on 445".to_string(),
            "db: Port binding error - Failed to bind socket".to_string(),
            "db: Port binding error - port 80 is already in use".to_string(),
        ]
    );
}

fn status(name: &str, reachable: bool, services: Vec<Service>, containers: Vec<Container>) -> VmStatus {
    VmStatus {
        host: host(name),
        reachable,
        services,
        containers,
        wireguard: None,
        open_ports: Vec::new(),
        recent_errors: Vec::new(),
    }
}

fn container(status: &str) -> Container {
    Container { name: "c".to_string(), status: status.to_string(), ports: "p".to_string() }
}

#[test]
fn summary_counts_every_host() {
    let vms = vec![
        status(
            "a",
            true,
            vec![
                service("x", ServiceStatus::Running, vec![]),
                service("y", ServiceStatus::Failed, vec![]),
            ],
            vec![container("Up"), container("Exited"), container("Up(healthy)")],
        ),
        status("b", false, vec![], vec![]),
        status(
            "c",
            true,
            vec![service("z", ServiceStatus::Running, vec![]), service("w", ServiceStatus::NotFound, vec![])],
            vec![container("Created")],
        ),
    ];
    assert!(summary_fits(&vms));
    let s = generate_summary(&vms);
    assert_eq!(s.total_vms, 3);
    assert_eq!(s.reachable_vms, 2);
    assert_eq!(s.total_services, 4);
    assert_eq!(s.running_services, 2);
    assert_eq!(s.failed_services, 2);
    assert_eq!(s.total_containers, 4);
    assert_eq!(s.running_containers, 2);
}

#[test]
fn summary_of_no_hosts_is_zero() {
    let s = generate_summary(&Vec::new());
    assert_eq!(s.total_vms, 0);
    assert_eq!(s.total_services, 0);
    assert_eq!(s.failed_services, 0);
}

#[test]
fn refused_host_is_unreachable_and_empty() {
    let mut issues = Vec::new();
    let probe = HostProbe::Refused(CommandError::Failed("Permission denied".to_string()));
    let st = scan_host(&host("vault"), &probe, &mut issues);
    assert!(!st.reachable);
    assert_eq!(st.host.name, "vault");
    assert!(st.services.is_empty());
    assert!(st.containers.is_empty());
    assert!(st.wireguard.is_none());
    assert!(st.open_ports.is_empty());
    assert!(st.recent_errors.is_empty());
    assert_eq!(issues, vec!["vault: SSH authentication failed: Permission denied".to_string()]);
}

#[test]
fn answered_host_collects_every_probe() {
    let mut issues = Vec::new();
    let probe = HostProbe::Answered(replies(
        "nginx.service running\n",
        "Oct 18 10:00 nginx: Failed to bind 0.0.0.0:80\n",
    ));
    let st = scan_host(&host("web"), &probe, &mut issues);
    assert!(st.reachable);
    assert_eq!(st.services.len(), 1);
    assert_eq!(st.containers.len(), 2);
    assert!(st.wireguard.is_none());
    assert_eq!(st.open_ports.len(), 1);
    assert_eq!(st.recent_errors.len(), 1);
    assert_eq!(issues, vec!["web: Port binding error - 10:00 nginx: Failed to bind 0.0.0.0:80".to_string()]);
}

#[test]
fn report_keeps_host_order() {
    let scanner = InventoryScanner::new(vec![host("A"), host("B"), host("C")]);
    assert_eq!(scanner.hosts().len(), 3);
    let probes = vec![
        HostProbe::Answered(replies("docker.service running\n", "")),
        HostProbe::Refused(CommandError::Unavailable("timed out".to_string())),
        HostProbe::Answered(replies("", "")),
    ];
    let report = scanner.assemble(&probes, Vec::new(), 1_700_000_000).expect("a report");
    let names: Vec<&str> = report.vms.iter().map(|v| v.host.name.as_str()).collect();
    assert_eq!(names, vec!["A", "B", "C"]);
    assert_eq!(report.timestamp, 1_700_000_000);
    assert!(report.vms[0].reachable);
    assert!(!report.vms[1].reachable);
    assert!(report.vms[2].reachable);
    assert_eq!(report.critical_issues, vec!["B: Failed to execute SSH: timed out".to_string()]);
    assert!(report.warnings.is_empty());
    assert_eq!(report.summary.total_vms, 3);
    assert_eq!(report.summary.reachable_vms, 2);
    assert_eq!(report.summary.total_services, 1);
    assert_eq!(report.summary.running_services, 1);
    assert_eq!(report.summary.failed_services, 0);
    assert_eq!(report.summary.total_containers, 4);
    assert_eq!(report.summary.running_containers, 2);
}

#[test]
fn finished_report_is_stamped() {
    let scanner = InventoryScanner::new(vec![host("solo")]);
    let probes = vec![HostProbe::Answered(replies("", ""))];
    let report = scanner.finish(&probes, Vec::new()).expect("a report");
    assert!(report.timestamp > 1_600_000_000);
    assert_eq!(report.vms.len(), 1);
}

#[test]
fn connect_follows_the_handshake() {
    let client = SshClient::connect(host("a"), &Ok(String::new())).ok().expect("a session");
    assert_eq!(client.host().name, "a");
    let err = SshClient::connect(host("a"), &Err(CommandError::Failed("denied".to_string())))
        .err()
        .expect("an error");
    assert_eq!(err.host, "a");
    assert_eq!(err.message, "SSH authentication failed: denied");
    assert_eq!(err.to_text(), "a: SSH authentication failed: denied");
    let err = SshClient::connect(host("b"), &Err(CommandError::Unavailable("no ssh".to_string())))
        .err()
        .expect("an error");
    assert_eq!(err.to_text(), "b: Failed to execute SSH: no ssh");
}

#[test]
fn reachability_follows_the_reply() {
    assert!(SshClient::is_reachable(&Ok("host\n".to_string())));
    assert!(!SshClient::is_reachable(&Err(CommandError::Failed(String::new()))));
}

#[test]
fn host_copy_keeps_every_field() {
    let mut h = host("x");
    h.vpn_ip = Some("10.10.10.1".to_string());
    let c = h.duplicate();
    assert_eq!(c.name, "x");
    assert_eq!(c.ip, h.ip);
    assert_eq!(c.port, 22);
    assert_eq!(c.user, "ops");
    assert_eq!(c.identity_file, "/keys/id");
    assert_eq!(c.vpn_ip.as_deref(), Some("10.10.10.1"));
}
