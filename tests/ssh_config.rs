use fleet_inventory::ssh_config::parse_ssh_config;

const CONFIG: &str = "# fleet
Host kingu
    HostName 203.0.113.10
    Port 2222
    User admin
    IdentityFile ~/.ssh/id_kingu

Host kingu-bkp
    HostName 203.0.113.11

Host pirex
    HostName 34.0.0.1

Host sentinel
    HostName 203.0.113.20
    Port not-a-port
    User ops
";

#[test]
fn config_entries_become_hosts() {
    let hosts = parse_ssh_config(CONFIG);
    assert_eq!(hosts.len(), 2);
    assert_eq!(hosts[0].name, "kingu");
    assert_eq!(hosts[0].ip, "203.0.113.10");
    assert_eq!(hosts[0].port, 2222);
    assert_eq!(hosts[0].user, "admin");
    assert_eq!(hosts[0].identity_file, "~/.ssh/id_kingu");
    assert!(hosts[0].vpn_ip.is_none());
    assert_eq!(hosts[1].name, "sentinel");
    assert_eq!(hosts[1].ip, "203.0.113.20");
    assert_eq!(hosts[1].port, 22);
    assert_eq!(hosts[1].user, "ops");
    assert_eq!(hosts[1].identity_file, "");
}

#[test]
fn config_lines_before_any_host_are_ignored() {
    let hosts = parse_ssh_config("HostName 1.2.3.4\nUser nobody\n");
    assert!(hosts.is_empty());
    assert!(parse_ssh_config("").is_empty());
}
