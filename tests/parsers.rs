use fleet_inventory::models::ServiceStatus;
use fleet_inventory::ssh_client::{
    CommandError, CommandReply, SshClient, DOCKER_LIST_COMMAND, PODMAN_LIST_COMMAND,
};

fn ok(s: &str) -> CommandReply {
    Ok(s.to_string())
}

fn failed() -> CommandReply {
    Err(CommandError::Failed("boom".to_string()))
}

#[test]
fn services_match_fragments_case_insensitively() {
    let out = "nginx.service loaded active running A high performance web server\n\
               \n   \n\
               sshd.service loaded active running OpenSSH server\n\
               PostgreSQL.service loaded active running Database\n";
    let services = SshClient::list_running_services(&ok(out));
    assert_eq!(services.len(), 2);
    assert_eq!(
        services[0].name,
        "nginx.service loaded active running A high performance web server"
    );
    assert_eq!(services[1].name, "PostgreSQL.service loaded active running Database");
    for s in &services {
        assert_eq!(s.status, ServiceStatus::Running);
        assert!(s.ports.is_empty());
    }
}

#[test]
fn services_line_matching_two_fragments_gives_two_records() {
    let out = "  docker-podman-bridge.service loaded active running bridge  \r\n";
    let services = SshClient::list_running_services(&ok(out));
    assert_eq!(services.len(), 2);
    assert_eq!(services[0].name, "docker-podman-bridge.service loaded active running bridge");
    assert_eq!(services[1].name, services[0].name);
}

#[test]
fn services_failed_command_gives_none() {
    assert!(SshClient::list_running_services(&failed()).is_empty());
}

#[test]
fn containers_from_docker_table() {
    let check = ok("DOCKER_FOUND\n");
    assert_eq!(SshClient::container_listing_command(&check), DOCKER_LIST_COMMAND);
    let listing = ok("NAMES STATUS PORTS\nweb Up 0.0.0.0:80->80/tcp\nshort row\n\ndb Exited none extra\n");
    let cs = SshClient::list_containers(&check, &listing);
    assert_eq!(cs.len(), 2);
    assert_eq!(cs[0].name, "web");
    assert_eq!(cs[0].status, "Up");
    assert_eq!(cs[0].ports, "0.0.0.0:80->80/tcp");
    assert_eq!(cs[1].name, "db");
    assert_eq!(cs[1].status, "Exited");
    assert_eq!(cs[1].ports, "none");
}

#[test]
fn containers_fall_back_to_podman() {
    let check = failed();
    assert_eq!(SshClient::container_listing_command(&check), PODMAN_LIST_COMMAND);
    let check = ok("nothing here\n");
    assert_eq!(SshClient::container_listing_command(&check), PODMAN_LIST_COMMAND);
    let listing = ok("NAMES STATUS PORTS\napp Up 8080/tcp\n");
    let cs = SshClient::list_containers(&check, &listing);
    assert_eq!(cs.len(), 1);
    assert_eq!(cs[0].name, "app");
}

#[test]
fn containers_error_marker_or_blank_gives_none() {
    let docker = ok("DOCKER_FOUND");
    assert!(SshClient::list_containers(&docker, &ok("DOCKER_ERROR\n")).is_empty());
    assert!(SshClient::list_containers(&docker, &ok("  \n ")).is_empty());
    assert!(SshClient::list_containers(&docker, &failed()).is_empty());
    let podman = failed();
    assert!(SshClient::list_containers(&podman, &ok("PODMAN_ERROR")).is_empty());
    assert!(SshClient::list_containers(&podman, &ok("HEADER ONLY LINE\n")).is_empty());
}

const TUNNEL_REPORT: &str = "interface: wg0
  public key: SERVERKEY=
  private key: (hidden)
  listening port: 51820

peer: PEERONE=
  endpoint: 203.0.113.5:51820
  allowed ips: 10.10.10.2/32
  latest handshake: 1 minute, 2 seconds ago
  transfer: 1.21 KiB received, 3.40 KiB sent

peer: PEERTWO=
  endpoint: 198.51.100.7:51820
  allowed ips: 10.10.10.3/32
  latest handshake: 5 seconds ago
  transfer: 10 KiB received, 20 KiB sent
";

#[test]
fn tunnel_report_gives_both_peers() {
    let wg = SshClient::get_wireguard_status(&ok(TUNNEL_REPORT)).expect("a tunnel");
    assert_eq!(wg.interface, "wg0");
    assert_eq!(wg.public_key, "SERVERKEY=");
    assert_eq!(wg.listening_port, 51820);
    assert!(wg.error.is_none());
    assert_eq!(wg.peers.len(), 2);
    let p = &wg.peers[0];
    assert_eq!(p.public_key, "PEERONE=");
    assert_eq!(p.endpoint.as_deref(), Some("203.0.113.5:51820"));
    assert_eq!(p.allowed_ips, "10.10.10.2/32");
    assert_eq!(p.latest_handshake.as_deref(), Some("1 minute, 2 seconds ago"));
    assert_eq!(p.transfer.as_deref(), Some("1.21 KiB received, 3.40 KiB sent"));
    let q = &wg.peers[1];
    assert_eq!(q.public_key, "PEERTWO=");
    assert_eq!(q.endpoint.as_deref(), Some("198.51.100.7:51820"));
    assert_eq!(q.allowed_ips, "10.10.10.3/32");
    assert_eq!(q.latest_handshake.as_deref(), Some("5 seconds ago"));
    assert_eq!(q.transfer.as_deref(), Some("10 KiB received, 20 KiB sent"));
}

#[test]
fn tunnel_peer_without_fields_and_bad_port() {
    let out = "interface: wg1\nlistening port: notanumber\npeer: LONE=\n";
    let wg = SshClient::get_wireguard_status(&ok(out)).expect("a tunnel");
    assert_eq!(wg.interface, "wg1");
    assert_eq!(wg.public_key, "");
    assert_eq!(wg.listening_port, 0);
    assert_eq!(wg.peers.len(), 1);
    assert_eq!(wg.peers[0].public_key, "LONE=");
    assert!(wg.peers[0].endpoint.is_none());
    assert_eq!(wg.peers[0].allowed_ips, "");
}

#[test]
fn tunnel_absent_when_marker_blank_or_failed() {
    assert!(SshClient::get_wireguard_status(&ok("WG_ERROR\n")).is_none());
    assert!(SshClient::get_wireguard_status(&ok("")).is_none());
    assert!(SshClient::get_wireguard_status(&ok(" \n\t")).is_none());
    assert!(SshClient::get_wireguard_status(&failed()).is_none());
}

#[test]
fn tunnel_garbage_gives_none() {
    assert!(SshClient::get_wireguard_status(&ok("garbage\n!!!\n")).is_none());
    assert!(SshClient::get_wireguard_status(&ok("  endpoint: 1.2.3.4\n")).is_none());
}

#[test]
fn tunnel_header_alone_gives_default_state() {
    let wg = SshClient::get_wireguard_status(&ok("noise\n  listening port: 7\n")).expect("a tunnel");
    assert_eq!(wg.interface, "wg0");
    assert_eq!(wg.public_key, "");
    assert_eq!(wg.listening_port, 7);
    assert!(wg.peers.is_empty());
}

#[test]
fn ports_from_socket_listing() {
    let out = "tcp   LISTEN 0      4096         0.0.0.0:22        0.0.0.0:*    users:((\"sshd\",pid=812,fd=3))\n\
               udp   UNCONN 0      0            0.0.0.0:51820     0.0.0.0:*    users:(\"wg\",pid=9,fd=4)\n\
               tcp   LISTEN 0      511          [::]:80           [::]:*\n\
               no port here\n\
               tcp LISTEN 0 5 127.0.0.1:99999 0.0.0.0:*\n";
    let ports = SshClient::get_open_ports(&ok(out));
    assert_eq!(ports.len(), 2);
    assert_eq!(ports[0].port, 22);
    assert_eq!(ports[0].protocol, "tcp");
    assert_eq!(ports[0].process, "unknown");
    assert_eq!(ports[1].port, 51820);
    assert_eq!(ports[1].protocol, "udp");
    assert_eq!(ports[1].process, "wg");
}

#[test]
fn ports_are_capped() {
    let mut out = String::new();
    for i in 0..25 {
        out.push_str(&format!("tcp LISTEN 0 5 0.0.0.0:{} 0.0.0.0:*\n", 1000 + i));
    }
    let ports = SshClient::get_open_ports(&ok(&out));
    assert_eq!(ports.len(), 20);
    assert_eq!(ports[0].port, 1000);
    assert_eq!(ports[19].port, 1019);
}

#[test]
fn logs_split_into_fields() {
    let out = "Oct 18 12:00:01 host smbd[77]: bind failed\nshort line\nA B C D\n";
    let logs = SshClient::get_recent_errors(&ok(out));
    assert_eq!(logs.len(), 2);
    assert_eq!(logs[0].timestamp, "Oct");
    assert_eq!(logs[0].service, "18");
    assert_eq!(logs[0].level, "err");
    assert_eq!(logs[0].message, "12:00:01 host smbd[77]: bind failed");
    assert_eq!(logs[1].timestamp, "A");
    assert_eq!(logs[1].service, "B");
    assert_eq!(logs[1].message, "C D");
}

#[test]
fn logs_tool_notes_are_no_entries() {
    assert!(SshClient::get_recent_errors(&ok("-- No entries --\n")).is_empty());
    let out = "-- Logs begin at Mon 2024-01-01 --\nOct 18 12:00 unit: it broke\n";
    let logs = SshClient::get_recent_errors(&ok(out));
    assert_eq!(logs.len(), 1);
    assert_eq!(logs[0].message, "12:00 unit: it broke");
}

#[test]
fn logs_marker_blank_or_failed_give_none() {
    assert!(SshClient::get_recent_errors(&ok("x y z w\nJOURNALCTL_ERROR")).is_empty());
    assert!(SshClient::get_recent_errors(&ok("   ")).is_empty());
    assert!(SshClient::get_recent_errors(&failed()).is_empty());
}

#[test]
fn parsers_give_nothing_on_empty_output() {
    let empty = ok("");
    assert!(SshClient::list_running_services(&empty).is_empty());
    assert!(SshClient::list_containers(&ok("DOCKER_FOUND"), &empty).is_empty());
    assert!(SshClient::list_containers(&empty, &empty).is_empty());
    assert!(SshClient::get_wireguard_status(&empty).is_none());
    assert!(SshClient::get_open_ports(&empty).is_empty());
    assert!(SshClient::get_recent_errors(&empty).is_empty());
}

#[test]
fn parsers_give_nothing_on_garbage() {
    let junk = ok("@@##!!\n???\n");
    assert!(SshClient::list_running_services(&junk).is_empty());
    assert!(SshClient::list_containers(&ok("DOCKER_FOUND"), &junk).is_empty());
    assert!(SshClient::get_wireguard_status(&junk).is_none());
    assert!(SshClient::get_open_ports(&junk).is_empty());
    assert!(SshClient::get_recent_errors(&junk).is_empty());
}
