//! One host's remote session: the commands it runs and the parsers that turn
//! their output into inventory records.
//!
//! The transport itself stays outside the library: it runs a command and
//! hands back a [`CommandReply`], which the functions here take as input.
use crate::models::{
    container_views, log_views, peer_views, port_views, service_views, tunnel_view,
    Container, ContainerView, LogEntry, LogView, PeerView, Port, PortView, Service,
    ServiceStatus, ServiceView, TunnelView, VmHost, WireGuardPeer, WireGuardStatus,
};
use crate::text::{
    contains, contains_str, find_char, find_str, find_sub, index_of,
    lemma_index_of_bound, parse_port, parse_u16, rest_from, split_lines, split_words, starts_with,
    starts_with_str, text_lines, trim, trim_str, views, words,
};
use vstd::prelude::*;

verus! {

/// Why a remote command gave no output.
#[derive(Debug, Clone)]
pub enum CommandError {
    /// The command ran and failed; the text is its standard error.
    Failed(String),
    /// The remote shell could not be started; the text says why.
    Unavailable(String),
}

/// What the transport hands back for one command: its standard output, or
/// why there is none.
pub type CommandReply = Result<String, CommandError>;

/// The output of a reply, or nothing when the command failed.
pub open spec fn reply_text(reply: CommandReply) -> Option<Seq<char>> {
    match reply {
        Ok(out) => Some(out@),
        Err(_) => None,
    }
}

/// A command that does nothing: it succeeds exactly when the host can be
/// reached and logged into.
pub const HANDSHAKE_COMMAND: &'static str = "true";

/// Prints the host's name.
pub const HOSTNAME_COMMAND: &'static str = "hostname";

/// Prints how long the host has been up, and its load.
pub const UPTIME_COMMAND: &'static str = "uptime";

/// Lists the running service units, one per line.
pub const SERVICES_COMMAND: &'static str =
    "systemctl list-units --type=service --state=running --no-legend --plain";

/// Prints `DOCKER_FOUND` when the first container runtime is installed.
pub const DOCKER_CHECK_COMMAND: &'static str =
    "command -v docker >/dev/null 2>&1 && echo 'DOCKER_FOUND'";

/// Lists the containers of the first runtime, or prints `DOCKER_ERROR`.
pub const DOCKER_LIST_COMMAND: &'static str =
    "sudo docker ps -a --format table name,status,ports 2>/dev/null || echo 'DOCKER_ERROR'";

/// Lists the containers of the second runtime, or prints `PODMAN_ERROR`.
pub const PODMAN_LIST_COMMAND: &'static str =
    "sudo podman ps -a --format table name,status,ports 2>/dev/null || echo 'PODMAN_ERROR'";

/// Prints the tunnel interfaces and their peers, or `WG_ERROR`.
pub const WIREGUARD_COMMAND: &'static str = "sudo wg show 2>/dev/null || echo 'WG_ERROR'";

/// Lists the listening sockets.
pub const PORTS_COMMAND: &'static str = "ss -tulpn | grep LISTEN | head -20";

/// Prints the last day's error-priority log lines, or `JOURNALCTL_ERROR`.
pub const ERRORS_COMMAND: &'static str =
    "journalctl --since '24 hours ago' --priority err --no-pager | tail -50 2>/dev/null || echo 'JOURNALCTL_ERROR'";

// ---------------------------------------------------------------- services

/// The lower-case form of a string, as `str::to_lowercase` gives it.
pub uninterp spec fn lower_of(s: Seq<char>) -> Seq<char>;

/// Relies on `str::to_lowercase`: the result depends on the characters alone.
#[verifier::external_body]
fn lowercase(s: &str) -> (r: String)
    ensures
        r@ == lower_of(s@),
{
    s.to_lowercase()
}

/// Name fragments that mark a service unit as one of interest.
pub open spec fn service_patterns() -> Seq<Seq<char>> {
    seq![
        "docker"@, "podman"@, "wireguard"@, "samba"@, "guacamole"@, "nginx"@, "traefik"@,
        "apache"@, "mysql"@, "postgres"@, "redis"@, "pdns"@, "powerdns"@, "n8n"@, "obsidian"@,
        "couchdb"@, "authelia"@,
    ]
}

fn service_pattern_list() -> (r: Vec<&'static str>)
    ensures
        views(r@) == service_patterns(),
{
    let r = vec![
        "docker", "podman", "wireguard", "samba", "guacamole", "nginx", "traefik", "apache",
        "mysql", "postgres", "redis", "pdns", "powerdns", "n8n", "obsidian", "couchdb",
        "authelia",
    ];
    assert(views(r@) =~= service_patterns());
    r
}

pub open spec fn running_service(name: Seq<char>) -> ServiceView {
    ServiceView { name, status: ServiceStatus::Running, ports: seq![] }
}

/// One running service named `name` for each fragment of `pats` that occurs in `folded`.
pub open spec fn pattern_hits(name: Seq<char>, folded: Seq<char>, pats: Seq<Seq<char>>) -> Seq<
    ServiceView,
>
    decreases pats.len(),
{
    if pats.len() == 0 {
        seq![]
    } else {
        pattern_hits(name, folded, pats.drop_last()) + if contains(folded, pats.last()) {
            seq![running_service(name)]
        } else {
            seq![]
        }
    }
}

/// The services that one listing line gives: the trimmed line, once per
/// fragment that its lower-case form contains.
pub open spec fn line_services(line: Seq<char>) -> Seq<ServiceView> {
    let t = trim(line);
    if t.len() == 0 {
        seq![]
    } else {
        pattern_hits(t, lower_of(t), service_patterns())
    }
}

pub open spec fn services_of_lines(ls: Seq<Seq<char>>) -> Seq<ServiceView>
    decreases ls.len(),
{
    if ls.len() == 0 {
        seq![]
    } else {
        services_of_lines(ls.drop_last()) + line_services(ls.last())
    }
}

/// The services that a unit listing gives.
pub open spec fn services_of(out: Seq<char>) -> Seq<ServiceView> {
    services_of_lines(text_lines(out))
}

/// The services that a listing line named `name` gives, `folded` being its
/// lower-case form.
pub fn services_for_line(name: &str, folded: &str) -> (r: Vec<Service>)
    ensures
        service_views(r@) == pattern_hits(name@, folded@, service_patterns()),
{
    let pats = service_pattern_list();
    let mut out: Vec<Service> = Vec::new();
    let mut i: usize = 0;
    assert(views(pats@).take(0) =~= Seq::<Seq<char>>::empty());
    while i < pats.len()
        invariant
            i <= pats@.len(),
            views(pats@) == service_patterns(),
            service_views(out@) == pattern_hits(name@, folded@, views(pats@).take(i as int)),
        decreases pats@.len() - i,
    {
        let ghost ps = views(pats@);
        assert(ps.take(i + 1).drop_last() =~= ps.take(i as int));
        assert(ps.take(i + 1).last() == pats@[i as int]@);
        if contains_str(folded, pats[i]) {
            let s = Service {
                name: String::from_str(name),
                status: ServiceStatus::Running,
                ports: Vec::new(),
            };
            assert(service_views(out@.push(s)) =~= service_views(out@).push(s@));
            assert(s@ == running_service(name@));
            out.push(s);
        }
        i = i + 1;
    }
    assert(views(pats@).take(pats@.len() as int) =~= views(pats@));
    out
}

// -------------------------------------------------------------- containers

/// A container row: at least three words, of which the first three are the
/// name, the status and the ports.
pub open spec fn container_line(line: Seq<char>) -> Seq<ContainerView> {
    let w = words(line);
    if w.len() >= 3 {
        seq![ContainerView { name: w[0], status: w[1], ports: w[2] }]
    } else {
        seq![]
    }
}

pub open spec fn containers_of_lines(ls: Seq<Seq<char>>) -> Seq<ContainerView>
    decreases ls.len(),
{
    if ls.len() == 0 {
        seq![]
    } else {
        containers_of_lines(ls.drop_last()) + container_line(ls.last())
    }
}

/// `ls` without its first line.
pub open spec fn after_header(ls: Seq<Seq<char>>) -> Seq<Seq<char>> {
    if ls.len() == 0 {
        ls
    } else {
        ls.drop_first()
    }
}

/// The containers that a runtime's table gives: none when the output holds
/// the runtime's error marker or is blank, else one for each row after the header.
pub open spec fn containers_of(out: Seq<char>, marker: Seq<char>) -> Seq<ContainerView> {
    if contains(out, marker) || trim(out).len() == 0 {
        seq![]
    } else {
        containers_of_lines(after_header(text_lines(out)))
    }
}

fn parse_container_table(out: &str, marker: &str) -> (r: Vec<Container>)
    ensures
        container_views(r@) == containers_of(out@, marker@),
{
    if contains_str(out, marker) || trim_str(out).unicode_len() == 0 {
        return Vec::new();
    }
    let lines = split_lines(out);
    let mut rows: Vec<Container> = Vec::new();
    if lines.len() == 0 {
        return rows;
    }
    let ghost ls = views(lines@).drop_first();
    assert(ls.take(0) =~= Seq::<Seq<char>>::empty());
    let mut i: usize = 1;
    while i < lines.len()
        invariant
            1 <= i <= lines@.len(),
            ls == views(lines@).drop_first(),
            container_views(rows@) == containers_of_lines(ls.take(i - 1)),
        decreases lines@.len() - i,
    {
        assert(ls.take(i as int).drop_last() =~= ls.take(i - 1));
        assert(ls.take(i as int).last() == lines@[i as int]@);
        let parts = split_words(lines[i]);
        if parts.len() >= 3 {
            let c = Container {
                name: String::from_str(parts[0]),
                status: String::from_str(parts[1]),
                ports: String::from_str(parts[2]),
            };
            assert(container_views(rows@.push(c)) =~= container_views(rows@).push(c@));
            rows.push(c);
        }
        i = i + 1;
    }
    assert(ls.take(i - 1) =~= ls);
    rows
}

/// Whether the runtime presence check found the first runtime.
pub open spec fn docker_found(check: CommandReply) -> bool {
    match check {
        Ok(out) => contains(out@, "DOCKER_FOUND"@),
        Err(_) => false,
    }
}

/// The error marker of the listing command that `docker_found` selects.
pub open spec fn container_marker(check: CommandReply) -> Seq<char> {
    if docker_found(check) {
        "DOCKER_ERROR"@
    } else {
        "PODMAN_ERROR"@
    }
}

/// The containers that a host reports, from the presence check's reply and
/// the reply of the listing command that it selected.
pub open spec fn containers_reported(check: CommandReply, listing: CommandReply) -> Seq<
    ContainerView,
> {
    match reply_text(listing) {
        Some(out) => containers_of(out, container_marker(check)),
        None => seq![],
    }
}

// -------------------------------------------------------------- error logs

/// Whether a log line is one of the log tool's own notes, such as
/// `-- No entries --` for an empty window, rather than a logged event.
pub open spec fn log_note(l: Seq<char>) -> bool {
    starts_with(l, "-- "@)
}

/// A log line that is no note and has at least three spaces: the text
/// before the first is the timestamp, the text between the first and second
/// is the unit, and all after the second is the message.
pub open spec fn log_line(l: Seq<char>) -> Seq<LogView> {
    let i1 = index_of(l, ' ');
    let r1 = l.skip(i1 + 1 as int);
    let i2 = index_of(r1, ' ');
    let r2 = r1.skip(i2 + 1 as int);
    if !log_note(l) && i1 < l.len() && i2 < r1.len() && index_of(r2, ' ') < r2.len() {
        seq![
            LogView {
                timestamp: l.take(i1 as int),
                service: r1.take(i2 as int),
                level: "err"@,
                message: r2,
            },
        ]
    } else {
        seq![]
    }
}

pub open spec fn logs_of_lines(ls: Seq<Seq<char>>) -> Seq<LogView>
    decreases ls.len(),
{
    if ls.len() == 0 {
        seq![]
    } else {
        logs_of_lines(ls.drop_last()) + log_line(ls.last())
    }
}

/// The entries that an error-log tail gives: none when it holds the error
/// marker or is blank, else one for each event line of four or more fields.
pub open spec fn logs_of(out: Seq<char>) -> Seq<LogView> {
    if contains(out, "JOURNALCTL_ERROR"@) || trim(out).len() == 0 {
        seq![]
    } else {
        logs_of_lines(text_lines(out))
    }
}

fn parse_log_line(l: &str) -> (r: Option<LogEntry>)
    ensures
        match r {
            Some(e) => log_line(l@) == seq![e@],
            None => log_line(l@) == Seq::<LogView>::empty(),
        },
{
    if starts_with_str(l, "-- ") {
        return None;
    }
    let n = l.unicode_len();
    let i1 = find_char(l, ' ');
    if i1 >= n {
        return None;
    }
    let r1 = rest_from(l, i1 + 1);
    let i2 = find_char(r1, ' ');
    if i2 >= r1.unicode_len() {
        return None;
    }
    let r2 = rest_from(r1, i2 + 1);
    let i3 = find_char(r2, ' ');
    if i3 >= r2.unicode_len() {
        return None;
    }
    Some(LogEntry {
        timestamp: String::from_str(l.substring_char(0, i1)),
        service: String::from_str(r1.substring_char(0, i2)),
        level: String::from_str("err"),
        message: String::from_str(r2),
    })
}

fn parse_log_lines(out: &str) -> (r: Vec<LogEntry>)
    ensures
        log_views(r@) == logs_of(out@),
{
    if contains_str(out, "JOURNALCTL_ERROR") || trim_str(out).unicode_len() == 0 {
        return Vec::new();
    }
    let lines = split_lines(out);
    let ghost ls = views(lines@);
    let mut entries: Vec<LogEntry> = Vec::new();
    let mut i: usize = 0;
    assert(ls.take(0) =~= Seq::<Seq<char>>::empty());
    while i < lines.len()
        invariant
            i <= lines@.len(),
            ls == views(lines@),
            log_views(entries@) == logs_of_lines(ls.take(i as int)),
        decreases lines@.len() - i,
    {
        assert(ls.take(i + 1).drop_last() =~= ls.take(i as int));
        assert(ls.take(i + 1).last() == lines@[i as int]@);
        match parse_log_line(lines[i]) {
            Some(e) => {
                assert(log_views(entries@.push(e)) =~= log_views(entries@) + seq![e@]);
                entries.push(e);
            },
            None => {
                assert(log_views(entries@) =~= log_views(entries@) + Seq::<LogView>::empty());
            },
        }
        i = i + 1;
    }
    assert(ls.take(i as int) =~= ls);
    entries
}

// ------------------------------------------------------------ open ports

/// The marker in front of the owning process's name.
pub open spec fn users_marker() -> Seq<char> {
    "users:(\""@
}

/// The owning process named in a socket line: the text after the first
/// `users:("`, up to the next `"` (and not past a second marker), or `unknown`.
pub open spec fn process_of(l: Seq<char>) -> Seq<char> {
    match find_sub(l, users_marker()) {
        None => "unknown"@,
        Some(i) => {
            let after = l.skip(i + users_marker().len() as int);
            let seg = match find_sub(after, users_marker()) {
                Some(j) => after.take(j as int),
                None => after,
            };
            seg.take(index_of(seg, '"') as int)
        },
    }
}

/// The protocol of a socket line: its first word, or `unknown`.
pub open spec fn protocol_of(l: Seq<char>) -> Seq<char> {
    if words(l).len() > 0 {
        words(l)[0]
    } else {
        "unknown"@
    }
}

/// The port that a socket line gives: the first word between its first and
/// second `:` (or its end), read as a `u16`.
pub open spec fn port_number_of(l: Seq<char>) -> Option<u16> {
    let c = index_of(l, ':');
    let rest = l.skip(c + 1 as int);
    let seg = rest.take(index_of(rest, ':') as int);
    if c < l.len() && words(seg).len() > 0 {
        parse_u16(words(seg)[0])
    } else {
        None
    }
}

pub open spec fn port_line(l: Seq<char>) -> Seq<PortView> {
    match port_number_of(l) {
        Some(port) => seq![PortView { port, protocol: protocol_of(l), process: process_of(l) }],
        None => seq![],
    }
}

pub open spec fn ports_of_lines(ls: Seq<Seq<char>>) -> Seq<PortView>
    decreases ls.len(),
{
    if ls.len() == 0 {
        seq![]
    } else {
        ports_of_lines(ls.drop_last()) + port_line(ls.last())
    }
}

/// The most socket records that one listing yields.
pub const MAX_PORTS: usize = 20;

/// The first `MAX_PORTS` records of `v`.
pub open spec fn capped(v: Seq<PortView>) -> Seq<PortView> {
    if v.len() > MAX_PORTS {
        v.take(MAX_PORTS as int)
    } else {
        v
    }
}

/// The sockets that a listening-socket listing gives, at most `MAX_PORTS`.
pub open spec fn ports_of(out: Seq<char>) -> Seq<PortView> {
    capped(ports_of_lines(text_lines(out)))
}

fn process_name(l: &str) -> (r: String)
    ensures
        r@ == process_of(l@),
{
    let marker = "users:(\"";
    let m = marker.unicode_len();
    match find_str(l, marker) {
        None => String::from_str("unknown"),
        Some(i) => {
            let after = rest_from(l, i + m);
            let seg = match find_str(after, marker) {
                Some(j) => after.substring_char(0, j),
                None => after,
            };
            let q = find_char(seg, '"');
            proof {
                lemma_index_of_bound(seg@, '"');
            }
            String::from_str(seg.substring_char(0, q))
        },
    }
}

fn parse_port_line(l: &str) -> (r: Option<Port>)
    ensures
        match r {
            Some(p) => port_line(l@) == seq![p@],
            None => port_line(l@) == Seq::<PortView>::empty(),
        },
{
    let n = l.unicode_len();
    let c = find_char(l, ':');
    if c >= n {
        return None;
    }
    let rest = rest_from(l, c + 1);
    let c2 = find_char(rest, ':');
    proof {
        lemma_index_of_bound(rest@, ':');
    }
    let seg = rest.substring_char(0, c2);
    let seg_words = split_words(seg);
    if seg_words.len() == 0 {
        return None;
    }
    match parse_port(seg_words[0]) {
        None => None,
        Some(port) => {
            let line_words = split_words(l);
            let protocol = if line_words.len() > 0 {
                String::from_str(line_words[0])
            } else {
                String::from_str("unknown")
            };
            let process = process_name(l);
            Some(Port { port, protocol, process })
        },
    }
}

fn parse_port_lines(out: &str) -> (r: Vec<Port>)
    ensures
        port_views(r@) == ports_of(out@),
{
    let lines = split_lines(out);
    let ghost ls = views(lines@);
    let mut ports: Vec<Port> = Vec::new();
    let mut i: usize = 0;
    assert(ls.take(0) =~= Seq::<Seq<char>>::empty());
    while i < lines.len()
        invariant
            i <= lines@.len(),
            ls == views(lines@),
            port_views(ports@) == capped(ports_of_lines(ls.take(i as int))),
            ports@.len() <= MAX_PORTS,
        decreases lines@.len() - i,
    {
        assert(ls.take(i + 1).drop_last() =~= ls.take(i as int));
        assert(ls.take(i + 1).last() == lines@[i as int]@);
        let ghost before = ports_of_lines(ls.take(i as int));
        match parse_port_line(lines[i]) {
            Some(p) => {
                assert(ports_of_lines(ls.take(i + 1)) == before.push(p@));
                if ports.len() < MAX_PORTS {
                    assert(port_views(ports@.push(p)) =~= port_views(ports@).push(p@));
                    ports.push(p);
                } else {
                    assert(before.push(p@).take(MAX_PORTS as int) =~= before.take(
                        MAX_PORTS as int,
                    ));
                }
            },
            None => {
                assert(ports_of_lines(ls.take(i + 1)) =~= before);
            },
        }
        i = i + 1;
    }
    assert(ls.take(i as int) =~= ls);
    ports
}

// ---------------------------------------------------------- tunnel status

/// The value of a `key: value` line: what follows its first `:`, trimmed.
pub open spec fn field_value(t: Seq<char>) -> Seq<char> {
    let c = index_of(t, ':');
    if c < t.len() {
        trim(t.skip(c + 1 as int))
    } else {
        seq![]
    }
}

/// What the tunnel report has given after some of its lines.
pub struct TunnelFold {
    pub interface: Seq<char>,
    pub public_key: Seq<char>,
    pub listening_port: u16,
    pub peers: Seq<PeerView>,
    pub current: Option<PeerView>,
}

pub open spec fn tunnel_start() -> TunnelFold {
    TunnelFold {
        interface: "wg0"@,
        public_key: seq![],
        listening_port: 0,
        peers: seq![],
        current: None,
    }
}

/// The finished peers, the one being read included.
pub open spec fn flushed(st: TunnelFold) -> Seq<PeerView> {
    match st.current {
        Some(p) => st.peers.push(p),
        None => st.peers,
    }
}

fn flush_peers(peers: Vec<WireGuardPeer>, current: Option<WireGuardPeer>) -> (r: Vec<
    WireGuardPeer,
>)
    ensures
        peer_views(r@) == match current {
            Some(p) => peer_views(peers@).push(p@),
            None => peer_views(peers@),
        },
{
    let mut peers = peers;
    match current {
        Some(p) => {
            assert(peer_views(peers@.push(p)) =~= peer_views(peers@).push(p@));
            peers.push(p);
        },
        None => {},
    }
    peers
}

pub open spec fn new_peer(key: Seq<char>) -> PeerView {
    PeerView {
        public_key: key,
        endpoint: None,
        allowed_ips: seq![],
        latest_handshake: None,
        transfer: None,
    }
}

/// The effect of one report line. Top-level keys are recognised on the
/// trimmed line; peer keys only on a line indented by two spaces, and only
/// while a peer is being read.
pub open spec fn tunnel_step(st: TunnelFold, raw: Seq<char>) -> TunnelFold {
    let t = trim(raw);
    let v = field_value(t);
    if starts_with(t, "interface:"@) {
        TunnelFold { interface: v, peers: flushed(st), current: None, ..st }
    } else if starts_with(t, "public key:"@) {
        TunnelFold { public_key: v, ..st }
    } else if starts_with(t, "listening port:"@) {
        TunnelFold {
            listening_port: match parse_u16(v) {
                Some(p) => p,
                None => 0,
            },
            ..st
        }
    } else if starts_with(t, "peer:"@) {
        TunnelFold { peers: flushed(st), current: Some(new_peer(v)), ..st }
    } else if starts_with(raw, "  endpoint:"@) {
        TunnelFold {
            current: match st.current {
                Some(p) => Some(PeerView { endpoint: Some(v), ..p }),
                None => None,
            },
            ..st
        }
    } else if starts_with(raw, "  allowed ips:"@) {
        TunnelFold {
            current: match st.current {
                Some(p) => Some(PeerView { allowed_ips: v, ..p }),
                None => None,
            },
            ..st
        }
    } else if starts_with(raw, "  latest handshake:"@) {
        TunnelFold {
            current: match st.current {
                Some(p) => Some(PeerView { latest_handshake: Some(v), ..p }),
                None => None,
            },
            ..st
        }
    } else if starts_with(raw, "  transfer:"@) {
        TunnelFold {
            current: match st.current {
                Some(p) => Some(PeerView { transfer: Some(v), ..p }),
                None => None,
            },
            ..st
        }
    } else {
        st
    }
}

pub open spec fn tunnel_fold(ls: Seq<Seq<char>>) -> TunnelFold
    decreases ls.len(),
{
    if ls.len() == 0 {
        tunnel_start()
    } else {
        tunnel_step(tunnel_fold(ls.drop_last()), ls.last())
    }
}

/// Whether a trimmed line is one of the report's header lines: an
/// interface, its key or port, or a peer.
pub open spec fn tunnel_key_line(t: Seq<char>) -> bool {
    starts_with(t, "interface:"@) || starts_with(t, "public key:"@) || starts_with(
        t,
        "listening port:"@,
    ) || starts_with(t, "peer:"@)
}

/// Whether any of `ls` is, once trimmed, a header line of a tunnel report.
pub open spec fn has_tunnel_line(ls: Seq<Seq<char>>) -> bool
    decreases ls.len(),
{
    if ls.len() == 0 {
        false
    } else {
        has_tunnel_line(ls.drop_last()) || tunnel_key_line(trim(ls.last()))
    }
}

/// The tunnel state that a status report gives: none when the report holds
/// the error marker or has no header line (blank or unrelated output).
pub open spec fn tunnel_of(out: Seq<char>) -> Option<TunnelView> {
    if contains(out, "WG_ERROR"@) || !has_tunnel_line(text_lines(out)) {
        None
    } else {
        let st = tunnel_fold(text_lines(out));
        Some(
            TunnelView {
                interface: st.interface,
                public_key: st.public_key,
                listening_port: st.listening_port,
                peers: flushed(st),
                error: None,
            },
        )
    }
}

/// The keys of the `peer:` lines among `ls`, in order.
pub open spec fn peer_keys(ls: Seq<Seq<char>>) -> Seq<Seq<char>>
    decreases ls.len(),
{
    if ls.len() == 0 {
        seq![]
    } else {
        let t = trim(ls.last());
        peer_keys(ls.drop_last()) + if starts_with(t, "peer:"@) {
            seq![field_value(t)]
        } else {
            seq![]
        }
    }
}

pub open spec fn keys_of(peers: Seq<PeerView>) -> Seq<Seq<char>> {
    peers.map_values(|p: PeerView| p.public_key)
}

proof fn lemma_fold_peers(ls: Seq<Seq<char>>)
    ensures
        keys_of(flushed(tunnel_fold(ls))) == peer_keys(ls),
    decreases ls.len(),
{
    if ls.len() > 0 {
        lemma_fold_peers(ls.drop_last());
        let st = tunnel_fold(ls.drop_last());
        let t = trim(ls.last());
        if starts_with(t, "peer:"@) {
            reveal_strlit("peer:");
            reveal_strlit("interface:");
            reveal_strlit("public key:");
            reveal_strlit("listening port:");
            assert(t[0] == t.take(5)[0]);
            assert(t[1] == t.take(5)[1]);
            if starts_with(t, "interface:"@) {
                assert(t[0] == t.take(10)[0]);
            }
            if starts_with(t, "public key:"@) {
                assert(t[1] == t.take(11)[1]);
            }
            if starts_with(t, "listening port:"@) {
                assert(t[0] == t.take(15)[0]);
            }
            assert(keys_of(flushed(st).push(new_peer(field_value(t)))) =~= keys_of(flushed(st)).push(
                field_value(t),
            ));
        }
        let nx = tunnel_fold(ls);
        assert(keys_of(flushed(nx)) =~= peer_keys(ls));
    }
}

/// Every `peer:` line of a tunnel report gives one peer, the last one
/// included, in order: the reported peers' keys are the keys on those lines.
pub proof fn every_peer_line_gives_a_peer(out: Seq<char>)
    requires
        tunnel_of(out) is Some,
    ensures
        keys_of(tunnel_of(out)->Some_0.peers) == peer_keys(text_lines(out)),
        tunnel_of(out)->Some_0.peers.len() == peer_keys(text_lines(out)).len(),
{
    lemma_fold_peers(text_lines(out));
}

/// Whether the trimmed `t` is a header line of a tunnel report.
fn is_tunnel_key_line(t: &str) -> (r: bool)
    ensures
        r == tunnel_key_line(t@),
{
    starts_with_str(t, "interface:") || starts_with_str(t, "public key:") || starts_with_str(
        t,
        "listening port:",
    ) || starts_with_str(t, "peer:")
}

fn field_value_str(t: &str) -> (r: &str)
    ensures
        r@ == field_value(t@),
{
    let n = t.unicode_len();
    let c = find_char(t, ':');
    if c < n {
        trim_str(rest_from(t, c + 1))
    } else {
        proof {
            reveal_strlit("");
        }
        assert(""@ =~= Seq::<char>::empty());
        ""
    }
}

/// The tunnel report read so far, as [`TunnelFold`] describes it.
struct TunnelScan {
    interface: String,
    public_key: String,
    listening_port: u16,
    peers: Vec<WireGuardPeer>,
    current: Option<WireGuardPeer>,
}

pub open spec fn peer_view_opt(o: Option<WireGuardPeer>) -> Option<PeerView> {
    match o {
        Some(p) => Some(p@),
        None => None,
    }
}

impl View for TunnelScan {
    type V = TunnelFold;

    closed spec fn view(&self) -> TunnelFold {
        TunnelFold {
            interface: self.interface@,
            public_key: self.public_key@,
            listening_port: self.listening_port,
            peers: peer_views(self.peers@),
            current: peer_view_opt(self.current),
        }
    }
}

impl TunnelScan {
    fn step(self, raw: &str) -> (r: TunnelScan)
        ensures
            r@ == tunnel_step(self@, raw@),
    {
        let t = trim_str(raw);
        let v = field_value_str(t);
        if starts_with_str(t, "interface:") {
            let peers = flush_peers(self.peers, self.current);
            TunnelScan {
                interface: String::from_str(v),
                public_key: self.public_key,
                listening_port: self.listening_port,
                peers,
                current: None,
            }
        } else if starts_with_str(t, "public key:") {
            TunnelScan { public_key: String::from_str(v), ..self }
        } else if starts_with_str(t, "listening port:") {
            let port = match parse_port(v) {
                Some(p) => p,
                None => 0,
            };
            TunnelScan { listening_port: port, ..self }
        } else if starts_with_str(t, "peer:") {
            let peers = flush_peers(self.peers, self.current);
            let peer = WireGuardPeer {
                public_key: String::from_str(v),
                endpoint: None,
                allowed_ips: String::new(),
                latest_handshake: None,
                transfer: None,
            };
            TunnelScan { peers, current: Some(peer), ..self }
        } else if starts_with_str(raw, "  endpoint:") {
            match self.current {
                Some(p) => {
                    let p = WireGuardPeer { endpoint: Some(String::from_str(v)), ..p };
                    TunnelScan { current: Some(p), ..self }
                },
                None => self,
            }
        } else if starts_with_str(raw, "  allowed ips:") {
            match self.current {
                Some(p) => {
                    let p = WireGuardPeer { allowed_ips: String::from_str(v), ..p };
                    TunnelScan { current: Some(p), ..self }
                },
                None => self,
            }
        } else if starts_with_str(raw, "  latest handshake:") {
            match self.current {
                Some(p) => {
                    let p = WireGuardPeer { latest_handshake: Some(String::from_str(v)), ..p };
                    TunnelScan { current: Some(p), ..self }
                },
                None => self,
            }
        } else if starts_with_str(raw, "  transfer:") {
            match self.current {
                Some(p) => {
                    let p = WireGuardPeer { transfer: Some(String::from_str(v)), ..p };
                    TunnelScan { current: Some(p), ..self }
                },
                None => self,
            }
        } else {
            self
        }
    }
}

fn parse_tunnel_report(out: &str) -> (r: Option<WireGuardStatus>)
    ensures
        tunnel_view(r) == tunnel_of(out@),
{
    if contains_str(out, "WG_ERROR") {
        return None;
    }
    let lines = split_lines(out);
    let ghost ls = views(lines@);
    let mut seen = false;
    let mut st = TunnelScan {
        interface: String::from_str("wg0"),
        public_key: String::new(),
        listening_port: 0,
        peers: Vec::new(),
        current: None,
    };
    assert(peer_views(st.peers@) =~= Seq::<PeerView>::empty());
    assert(ls.take(0) =~= Seq::<Seq<char>>::empty());
    let mut i: usize = 0;
    while i < lines.len()
        invariant
            i <= lines@.len(),
            ls == views(lines@),
            st@ == tunnel_fold(ls.take(i as int)),
            seen == has_tunnel_line(ls.take(i as int)),
        decreases lines@.len() - i,
    {
        assert(ls.take(i + 1).drop_last() =~= ls.take(i as int));
        assert(ls.take(i + 1).last() == lines@[i as int]@);
        seen = seen || is_tunnel_key_line(trim_str(lines[i]));
        st = st.step(lines[i]);
        i = i + 1;
    }
    assert(ls.take(i as int) =~= ls);
    if !seen {
        return None;
    }
    let peers = flush_peers(st.peers, st.current);
    Some(
        WireGuardStatus {
            interface: st.interface,
            public_key: st.public_key,
            listening_port: st.listening_port,
            peers,
            error: None,
        },
    )
}

/// Every parser is total, and gives nothing for empty output; the parsers
/// whose commands print an error marker give nothing for output that holds
/// it; and the tunnel parser gives nothing for output without a header line.
pub proof fn parsers_give_nothing_on_empty_or_marker(out: Seq<char>)
    ensures
        services_of(seq![]).len() == 0,
        containers_of(seq![], "DOCKER_ERROR"@).len() == 0,
        containers_of(seq![], "PODMAN_ERROR"@).len() == 0,
        tunnel_of(seq![]) is None,
        ports_of(seq![]).len() == 0,
        logs_of(seq![]).len() == 0,
        contains(out, "DOCKER_ERROR"@) ==> containers_of(out, "DOCKER_ERROR"@).len() == 0,
        contains(out, "PODMAN_ERROR"@) ==> containers_of(out, "PODMAN_ERROR"@).len() == 0,
        contains(out, "WG_ERROR"@) ==> tunnel_of(out) is None,
        !has_tunnel_line(text_lines(out)) ==> tunnel_of(out) is None,
        contains(out, "JOURNALCTL_ERROR"@) ==> logs_of(out).len() == 0,
{
    let e = Seq::<char>::empty();
    assert(text_lines(e) == Seq::<Seq<char>>::empty());
    assert(trim(e) == e);
}

// ------------------------------------------------------------- the session

/// What the transport said of a failed handshake.
pub open spec fn connect_message(e: CommandError) -> Seq<char> {
    match e {
        CommandError::Failed(m) => "SSH authentication failed: "@ + m@,
        CommandError::Unavailable(m) => "Failed to execute SSH: "@ + m@,
    }
}

/// A host that could not be reached or logged into: its name and why.
#[derive(Debug, Clone)]
pub struct ConnectionError {
    pub host: String,
    pub message: String,
}

impl ConnectionError {
    /// The error for `host`, whose handshake failed with `e`.
    pub fn from_failure(host: &VmHost, e: &CommandError) -> (r: ConnectionError)
        ensures
            r.host@ == host.name@,
            r.message@ == connect_message(*e),
    {
        let message = match e {
            CommandError::Failed(m) => String::from_str("SSH authentication failed: ").concat(
                m.as_str(),
            ),
            CommandError::Unavailable(m) => String::from_str("Failed to execute SSH: ").concat(
                m.as_str(),
            ),
        };
        ConnectionError { host: host.name.clone(), message }
    }

    /// The error as one line: `<host>: <message>`.
    pub fn to_text(&self) -> (r: String)
        ensures
            r@ == self.host@ + ": "@ + self.message@,
    {
        let mut r = self.host.clone();
        r.append(": ");
        r.append(self.message.as_str());
        r
    }
}

/// A host whose handshake command succeeded.
pub struct SshClient {
    host: VmHost,
}

impl SshClient {
    pub closed spec fn host_of(&self) -> crate::models::HostView {
        self.host@
    }

    /// A session with `host`, given the reply to `HANDSHAKE_COMMAND`: it
    /// exists exactly when that command succeeded; otherwise the error names
    /// the host and says what the transport reported.
    pub fn connect(host: VmHost, handshake: &CommandReply) -> (r: Result<
        SshClient,
        ConnectionError,
    >)
        ensures
            match handshake {
                Ok(_) => r matches Ok(c) && c.host_of() == host@,
                Err(e) => r matches Err(c) && c.host@ == host.name@ && c.message@
                    == connect_message(*e),
            },
    {
        match handshake {
            Ok(_) => Ok(SshClient { host }),
            Err(e) => Err(ConnectionError::from_failure(&host, e)),
        }
    }

    pub fn host(&self) -> (r: &VmHost)
        ensures
            r@ == self.host_of(),
    {
        &self.host
    }

    /// Whether the host answers: the trivial command's reply is a success.
    pub fn is_reachable(hostname_reply: &CommandReply) -> (r: bool)
        ensures
            r == hostname_reply is Ok,
    {
        hostname_reply.is_ok()
    }

    /// The services of interest in the reply to `SERVICES_COMMAND`; none when
    /// the command failed.
    pub fn list_running_services(reply: &CommandReply) -> (r: Vec<Service>)
        ensures
            service_views(r@) == match reply_text(*reply) {
                Some(out) => services_of(out),
                None => seq![],
            },
    {
        let out = match reply {
            Ok(out) => out.as_str(),
            Err(_) => {
                return Vec::new();
            },
        };
        let lines = split_lines(out);
        let ghost ls = views(lines@);
        let mut services: Vec<Service> = Vec::new();
        let mut i: usize = 0;
        assert(ls.take(0) =~= Seq::<Seq<char>>::empty());
        while i < lines.len()
            invariant
                i <= lines@.len(),
                ls == views(lines@),
                service_views(services@) == services_of_lines(ls.take(i as int)),
            decreases lines@.len() - i,
        {
            assert(ls.take(i + 1).drop_last() =~= ls.take(i as int));
            assert(ls.take(i + 1).last() == lines@[i as int]@);
            let t = trim_str(lines[i]);
            if t.unicode_len() > 0 {
                let folded = lowercase(t);
                let mut found = services_for_line(t, folded.as_str());
                assert(service_views(services@ + found@) =~= service_views(services@)
                    + service_views(found@));
                services.append(&mut found);
            } else {
                assert(service_views(services@) =~= service_views(services@) + Seq::<
                    ServiceView,
                >::empty());
            }
            i = i + 1;
        }
        assert(ls.take(i as int) =~= ls);
        services
    }

    /// The listing command to run after the runtime presence check.
    pub fn container_listing_command(docker_check: &CommandReply) -> (r: &'static str)
        ensures
            r@ == if docker_found(*docker_check) {
                DOCKER_LIST_COMMAND@
            } else {
                PODMAN_LIST_COMMAND@
            },
    {
        if SshClient::docker_present(docker_check) {
            DOCKER_LIST_COMMAND
        } else {
            PODMAN_LIST_COMMAND
        }
    }

    fn docker_present(docker_check: &CommandReply) -> (r: bool)
        ensures
            r == docker_found(*docker_check),
    {
        match docker_check {
            Ok(out) => contains_str(out.as_str(), "DOCKER_FOUND"),
            Err(_) => false,
        }
    }

    /// The containers in the reply to the listing command that the presence
    /// check selected; none when either command failed or the runtime reported
    /// an error.
    pub fn list_containers(docker_check: &CommandReply, listing: &CommandReply) -> (r: Vec<
        Container,
    >)
        ensures
            container_views(r@) == containers_reported(*docker_check, *listing),
    {
        if SshClient::docker_present(docker_check) {
            SshClient::list_docker_containers(listing)
        } else {
            SshClient::list_podman_containers(listing)
        }
    }

    fn list_docker_containers(listing: &CommandReply) -> (r: Vec<Container>)
        ensures
            container_views(r@) == match reply_text(*listing) {
                Some(out) => containers_of(out, "DOCKER_ERROR"@),
                None => seq![],
            },
    {
        match listing {
            Ok(out) => parse_container_table(out.as_str(), "DOCKER_ERROR"),
            Err(_) => Vec::new(),
        }
    }

    fn list_podman_containers(listing: &CommandReply) -> (r: Vec<Container>)
        ensures
            container_views(r@) == match reply_text(*listing) {
                Some(out) => containers_of(out, "PODMAN_ERROR"@),
                None => seq![],
            },
    {
        match listing {
            Ok(out) => parse_container_table(out.as_str(), "PODMAN_ERROR"),
            Err(_) => Vec::new(),
        }
    }

    /// The tunnel state in the reply to `WIREGUARD_COMMAND`; none when the
    /// command failed, reported an error or printed nothing.
    pub fn get_wireguard_status(reply: &CommandReply) -> (r: Option<WireGuardStatus>)
        ensures
            tunnel_view(r) == match reply_text(*reply) {
                Some(out) => tunnel_of(out),
                None => None,
            },
    {
        match reply {
            Ok(out) => parse_tunnel_report(out.as_str()),
            Err(_) => None,
        }
    }

    /// The listening sockets in the reply to `PORTS_COMMAND`.
    pub fn get_open_ports(reply: &CommandReply) -> (r: Vec<Port>)
        ensures
            port_views(r@) == match reply_text(*reply) {
                Some(out) => ports_of(out),
                None => seq![],
            },
    {
        match reply {
            Ok(out) => parse_port_lines(out.as_str()),
            Err(_) => Vec::new(),
        }
    }

    /// The error-log entries in the reply to `ERRORS_COMMAND`.
    pub fn get_recent_errors(reply: &CommandReply) -> (r: Vec<LogEntry>)
        ensures
            log_views(r@) == match reply_text(*reply) {
                Some(out) => logs_of(out),
                None => seq![],
            },
    {
        match reply {
            Ok(out) => parse_log_lines(out.as_str()),
            Err(_) => Vec::new(),
        }
    }
}

} // verus!
