//! The inventory's data model, with a mathematical view of each record.
use vstd::prelude::*;

verus! {

/// The view of an optional string.
pub open spec fn opt_view(o: Option<String>) -> Option<Seq<char>> {
    match o {
        Some(s) => Some(s@),
        None => None,
    }
}

/// Connection details of one fleet member.
#[derive(Debug, Clone)]
pub struct VmHost {
    pub name: String,
    pub ip: String,
    pub port: u16,
    pub user: String,
    pub identity_file: String,
    pub vpn_ip: Option<String>,
}

pub struct HostView {
    pub name: Seq<char>,
    pub ip: Seq<char>,
    pub port: u16,
    pub user: Seq<char>,
    pub identity_file: Seq<char>,
    pub vpn_ip: Option<Seq<char>>,
}

impl View for VmHost {
    type V = HostView;

    open spec fn view(&self) -> HostView {
        HostView {
            name: self.name@,
            ip: self.ip@,
            port: self.port,
            user: self.user@,
            identity_file: self.identity_file@,
            vpn_ip: opt_view(self.vpn_ip),
        }
    }
}

pub open spec fn host_views(v: Seq<VmHost>) -> Seq<HostView> {
    v.map_values(|h: VmHost| h@)
}

fn copy_opt_string(o: &Option<String>) -> (r: Option<String>)
    ensures
        opt_view(r) == opt_view(*o),
{
    match o {
        Some(s) => Some(s.clone()),
        None => None,
    }
}

impl VmHost {
    /// A copy of the descriptor, field for field.
    pub fn duplicate(&self) -> (r: VmHost)
        ensures
            r@ == self@,
    {
        VmHost {
            name: self.name.clone(),
            ip: self.ip.clone(),
            port: self.port,
            user: self.user.clone(),
            identity_file: self.identity_file.clone(),
            vpn_ip: copy_opt_string(&self.vpn_ip),
        }
    }
}

#[derive(Debug, Clone, Copy, PartialEq, Eq, Structural)]
pub enum ServiceStatus {
    Running,
    Stopped,
    Failed,
    NotFound,
}

/// A service unit of interest on a host.
#[derive(Debug, Clone)]
pub struct Service {
    pub name: String,
    pub status: ServiceStatus,
    pub ports: Vec<u16>,
}

pub struct ServiceView {
    pub name: Seq<char>,
    pub status: ServiceStatus,
    pub ports: Seq<u16>,
}

impl View for Service {
    type V = ServiceView;

    open spec fn view(&self) -> ServiceView {
        ServiceView { name: self.name@, status: self.status, ports: self.ports@ }
    }
}

pub open spec fn service_views(v: Seq<Service>) -> Seq<ServiceView> {
    v.map_values(|s: Service| s@)
}

/// A container as the runtime lists it: name, status and ports, unparsed.
#[derive(Debug, Clone)]
pub struct Container {
    pub name: String,
    pub status: String,
    pub ports: String,
}

pub struct ContainerView {
    pub name: Seq<char>,
    pub status: Seq<char>,
    pub ports: Seq<char>,
}

impl View for Container {
    type V = ContainerView;

    open spec fn view(&self) -> ContainerView {
        ContainerView { name: self.name@, status: self.status@, ports: self.ports@ }
    }
}

pub open spec fn container_views(v: Seq<Container>) -> Seq<ContainerView> {
    v.map_values(|c: Container| c@)
}

/// The state of a tunnel interface and its peers.
#[derive(Debug, Clone)]
pub struct WireGuardStatus {
    pub interface: String,
    pub public_key: String,
    pub listening_port: u16,
    pub peers: Vec<WireGuardPeer>,
    pub error: Option<String>,
}

pub struct TunnelView {
    pub interface: Seq<char>,
    pub public_key: Seq<char>,
    pub listening_port: u16,
    pub peers: Seq<PeerView>,
    pub error: Option<Seq<char>>,
}

impl View for WireGuardStatus {
    type V = TunnelView;

    open spec fn view(&self) -> TunnelView {
        TunnelView {
            interface: self.interface@,
            public_key: self.public_key@,
            listening_port: self.listening_port,
            peers: peer_views(self.peers@),
            error: opt_view(self.error),
        }
    }
}

pub open spec fn tunnel_view(o: Option<WireGuardStatus>) -> Option<TunnelView> {
    match o {
        Some(w) => Some(w@),
        None => None,
    }
}

/// One peer of a tunnel interface.
#[derive(Debug, Clone)]
pub struct WireGuardPeer {
    pub public_key: String,
    pub endpoint: Option<String>,
    pub allowed_ips: String,
    pub latest_handshake: Option<String>,
    pub transfer: Option<String>,
}

pub struct PeerView {
    pub public_key: Seq<char>,
    pub endpoint: Option<Seq<char>>,
    pub allowed_ips: Seq<char>,
    pub latest_handshake: Option<Seq<char>>,
    pub transfer: Option<Seq<char>>,
}

impl View for WireGuardPeer {
    type V = PeerView;

    open spec fn view(&self) -> PeerView {
        PeerView {
            public_key: self.public_key@,
            endpoint: opt_view(self.endpoint),
            allowed_ips: self.allowed_ips@,
            latest_handshake: opt_view(self.latest_handshake),
            transfer: opt_view(self.transfer),
        }
    }
}

pub open spec fn peer_views(v: Seq<WireGuardPeer>) -> Seq<PeerView> {
    v.map_values(|p: WireGuardPeer| p@)
}

/// A listening socket: port, protocol and owning process.
#[derive(Debug, Clone)]
pub struct Port {
    pub port: u16,
    pub protocol: String,
    pub process: String,
}

pub struct PortView {
    pub port: u16,
    pub protocol: Seq<char>,
    pub process: Seq<char>,
}

impl View for Port {
    type V = PortView;

    open spec fn view(&self) -> PortView {
        PortView { port: self.port, protocol: self.protocol@, process: self.process@ }
    }
}

pub open spec fn port_views(v: Seq<Port>) -> Seq<PortView> {
    v.map_values(|p: Port| p@)
}

/// One line of the error log.
#[derive(Debug, Clone)]
pub struct LogEntry {
    pub timestamp: String,
    pub service: String,
    pub level: String,
    pub message: String,
}

pub struct LogView {
    pub timestamp: Seq<char>,
    pub service: Seq<char>,
    pub level: Seq<char>,
    pub message: Seq<char>,
}

impl View for LogEntry {
    type V = LogView;

    open spec fn view(&self) -> LogView {
        LogView {
            timestamp: self.timestamp@,
            service: self.service@,
            level: self.level@,
            message: self.message@,
        }
    }
}

pub open spec fn log_views(v: Seq<LogEntry>) -> Seq<LogView> {
    v.map_values(|e: LogEntry| e@)
}

/// What one scan found on one host.
#[derive(Debug, Clone)]
pub struct VmStatus {
    pub host: VmHost,
    pub reachable: bool,
    pub services: Vec<Service>,
    pub containers: Vec<Container>,
    pub wireguard: Option<WireGuardStatus>,
    pub open_ports: Vec<Port>,
    pub recent_errors: Vec<LogEntry>,
}

pub struct StatusView {
    pub host: HostView,
    pub reachable: bool,
    pub services: Seq<ServiceView>,
    pub containers: Seq<ContainerView>,
    pub wireguard: Option<TunnelView>,
    pub open_ports: Seq<PortView>,
    pub recent_errors: Seq<LogView>,
}

impl View for VmStatus {
    type V = StatusView;

    open spec fn view(&self) -> StatusView {
        StatusView {
            host: self.host@,
            reachable: self.reachable,
            services: service_views(self.services@),
            containers: container_views(self.containers@),
            wireguard: tunnel_view(self.wireguard),
            open_ports: port_views(self.open_ports@),
            recent_errors: log_views(self.recent_errors@),
        }
    }
}

pub open spec fn status_views(v: Seq<VmStatus>) -> Seq<StatusView> {
    v.map_values(|s: VmStatus| s@)
}

/// Counters derived from the host results.
#[derive(Debug, Clone, Copy, PartialEq, Eq, Structural)]
pub struct Summary {
    pub total_vms: usize,
    pub reachable_vms: usize,
    pub total_services: usize,
    pub running_services: usize,
    pub failed_services: usize,
    pub total_containers: usize,
    pub running_containers: usize,
}

/// The outcome of one probe of an outside web endpoint. The response time
/// is in microseconds.
#[derive(Debug, Clone)]
pub struct WebService {
    pub name: String,
    pub url: String,
    pub http_status: Option<u16>,
    pub response_time_micros: Option<u64>,
    pub error: Option<String>,
}

/// The full result of one scan. The timestamp is in seconds since the Unix
/// epoch, UTC.
#[derive(Debug, Clone)]
pub struct InventoryReport {
    pub timestamp: i64,
    pub vms: Vec<VmStatus>,
    pub web_services: Vec<WebService>,
    pub summary: Summary,
    pub critical_issues: Vec<String>,
    pub warnings: Vec<String>,
}

} // verus!
