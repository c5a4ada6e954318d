//! The host list, read from the text of an OpenSSH client configuration.
use crate::models::{host_views, HostView, VmHost};
use crate::text::{
    ends_with_str, parse_port, parse_u16, rest_from, split_lines, starts_with, starts_with_str,
    text_lines, trim, trim_str, views,
};
use vstd::prelude::*;

verus! {

/// Whether a `Host` entry is left out of the scan: backup aliases, and the
/// one host that is reached by another route.
pub open spec fn excluded(name: Seq<char>) -> bool {
    (4 <= name.len() && name.skip(name.len() - 4) == "-bkp"@) || name == "pirex"@
}

pub open spec fn new_host(name: Seq<char>) -> HostView {
    HostView { name, ip: seq![], port: 22, user: seq![], identity_file: seq![], vpn_ip: None }
}

/// The hosts read so far and the entry being read.
pub struct ConfigFold {
    pub hosts: Seq<HostView>,
    pub current: Option<HostView>,
}

pub open spec fn config_flushed(st: ConfigFold) -> Seq<HostView> {
    match st.current {
        Some(h) => st.hosts.push(h),
        None => st.hosts,
    }
}

/// The effect of one configuration line. `Host <name>` starts an entry
/// (none for an excluded name); `HostName`, `Port`, `User` and
/// `IdentityFile` set the entry's fields; other lines change nothing.
pub open spec fn config_step(st: ConfigFold, raw: Seq<char>) -> ConfigFold {
    let t = trim(raw);
    if starts_with(t, "Host "@) {
        let name = trim(t.skip(5));
        ConfigFold {
            hosts: config_flushed(st),
            current: if excluded(name) {
                None
            } else {
                Some(new_host(name))
            },
        }
    } else {
        match st.current {
            None => st,
            Some(h) => if starts_with(t, "HostName "@) {
                ConfigFold { current: Some(HostView { ip: trim(t.skip(9)), ..h }), ..st }
            } else if starts_with(t, "Port "@) {
                ConfigFold {
                    current: Some(
                        HostView {
                            port: match parse_u16(trim(t.skip(5))) {
                                Some(p) => p,
                                None => 22,
                            },
                            ..h
                        },
                    ),
                    ..st
                }
            } else if starts_with(t, "User "@) {
                ConfigFold { current: Some(HostView { user: trim(t.skip(5)), ..h }), ..st }
            } else if starts_with(t, "IdentityFile "@) {
                ConfigFold {
                    current: Some(HostView { identity_file: trim(t.skip(13)), ..h }),
                    ..st
                }
            } else {
                st
            },
        }
    }
}

pub open spec fn config_fold(ls: Seq<Seq<char>>) -> ConfigFold
    decreases ls.len(),
{
    if ls.len() == 0 {
        ConfigFold { hosts: seq![], current: None }
    } else {
        config_step(config_fold(ls.drop_last()), ls.last())
    }
}

/// The hosts that a configuration text declares, in order, the last entry included.
pub open spec fn hosts_of_config(text: Seq<char>) -> Seq<HostView> {
    config_flushed(config_fold(text_lines(text)))
}

pub open spec fn current_view(o: Option<VmHost>) -> Option<HostView> {
    match o {
        Some(h) => Some(h@),
        None => None,
    }
}

fn is_excluded(name: &str) -> (r: bool)
    ensures
        r == excluded(name@),
{
    proof {
        reveal_strlit("-bkp");
        reveal_strlit("pirex");
    }
    if ends_with_str(name, "-bkp") {
        return true;
    }
    let n = name.unicode_len();
    if n == 5 {
        assert(name@.take(5) =~= name@);
    }
    n == 5 && starts_with_str(name, "pirex")
}

fn flush_host(hosts: Vec<VmHost>, current: Option<VmHost>) -> (r: Vec<VmHost>)
    ensures
        host_views(r@) == match current {
            Some(h) => host_views(hosts@).push(h@),
            None => host_views(hosts@),
        },
{
    let mut hosts = hosts;
    match current {
        Some(h) => {
            assert(host_views(hosts@.push(h)) =~= host_views(hosts@).push(h@));
            hosts.push(h);
        },
        None => {},
    }
    hosts
}

fn value_after(t: &str, k: usize) -> (r: String)
    requires
        k <= t@.len(),
    ensures
        r@ == trim(t@.skip(k as int)),
{
    String::from_str(trim_str(rest_from(t, k)))
}

fn step(hosts: Vec<VmHost>, current: Option<VmHost>, raw: &str) -> (r: (
    Vec<VmHost>,
    Option<VmHost>,
))
    ensures
        config_step(ConfigFold { hosts: host_views(hosts@), current: current_view(current) }, raw@)
            == (ConfigFold { hosts: host_views(r.0@), current: current_view(r.1) }),
{
    proof {
        reveal_strlit("Host ");
        reveal_strlit("HostName ");
        reveal_strlit("Port ");
        reveal_strlit("User ");
        reveal_strlit("IdentityFile ");
    }
    let t = trim_str(raw);
    if starts_with_str(t, "Host ") {
        let hosts = flush_host(hosts, current);
        let name = trim_str(rest_from(t, 5));
        if is_excluded(name) {
            return (hosts, None);
        }
        let h = VmHost {
            name: String::from_str(name),
            ip: String::new(),
            port: 22,
            user: String::new(),
            identity_file: String::new(),
            vpn_ip: None,
        };
        return (hosts, Some(h));
    }
    match current {
        None => (hosts, None),
        Some(h) => if starts_with_str(t, "HostName ") {
            (hosts, Some(VmHost { ip: value_after(t, 9), ..h }))
        } else if starts_with_str(t, "Port ") {
            let v = trim_str(rest_from(t, 5));
            let port = match parse_port(v) {
                Some(p) => p,
                None => 22,
            };
            (hosts, Some(VmHost { port, ..h }))
        } else if starts_with_str(t, "User ") {
            (hosts, Some(VmHost { user: value_after(t, 5), ..h }))
        } else if starts_with_str(t, "IdentityFile ") {
            (hosts, Some(VmHost { identity_file: value_after(t, 13), ..h }))
        } else {
            (hosts, Some(h))
        },
    }
}

/// The hosts that the configuration text `text` declares: one for each
/// `Host` entry that is not excluded, with the fields its lines set, in order.
pub fn parse_ssh_config(text: &str) -> (r: Vec<VmHost>)
    ensures
        host_views(r@) == hosts_of_config(text@),
{
    let lines = split_lines(text);
    let ghost ls = views(lines@);
    let mut hosts: Vec<VmHost> = Vec::new();
    let mut current: Option<VmHost> = None;
    let mut i: usize = 0;
    assert(ls.take(0) =~= Seq::<Seq<char>>::empty());
    assert(host_views(hosts@) =~= Seq::<HostView>::empty());
    while i < lines.len()
        invariant
            i <= lines@.len(),
            ls == views(lines@),
            config_fold(ls.take(i as int)) == (ConfigFold {
                hosts: host_views(hosts@),
                current: current_view(current),
            }),
        decreases lines@.len() - i,
    {
        assert(ls.take(i + 1).drop_last() =~= ls.take(i as int));
        assert(ls.take(i + 1).last() == lines@[i as int]@);
        let (h, c) = step(hosts, current, lines[i]);
        hosts = h;
        current = c;
        i = i + 1;
    }
    assert(ls.take(i as int) =~= ls);
    flush_host(hosts, current)
}

} // verus!
