use vstd::prelude::*;

use crate::cell::address;
use crate::client::{env_from, find_env, EnvStatus};
use crate::dns::lemma_filter_keeps;
use crate::number::{
    decimal, decimal_of, is_digit, lemma_decimal_injective, lemma_decimal_value, parse_unsigned,
    unsigned_upto,
};
use crate::text::{
    contains, cut_once, holds, is_char, join, joined, lemma_cut_once, lemma_lines_clean,
    lemma_lines_joined, lemma_pieces_joined, lemma_views_push, lines, lines_of, occurs_at, opt_text,
    pieces, split, split_once, views, without_cr,
};

verus! {

// ---------------------------------------------------------------------
// Errors
// ---------------------------------------------------------------------

#[derive(Debug)]
pub enum TunnelError {
    BadPort { text: String },
    BadRange { text: String },
    NoPorts,
    Local,
    NoEnv { env: String },
    NoIp { env: String },
    NoLoopback { ip: String },
    Exit { status: String },
}

/// Why there is no tunnel.
pub enum TunnelErrorView {
    BadPort(Seq<char>),
    BadRange(Seq<char>),
    NoPorts,
    Local,
    NoEnv(Seq<char>),
    NoIp(Seq<char>),
    NoLoopback(Seq<char>),
    Exit(Seq<char>),
}

impl View for TunnelError {
    type V = TunnelErrorView;

    open spec fn view(&self) -> TunnelErrorView {
        match self {
            TunnelError::BadPort { text } => TunnelErrorView::BadPort(text@),
            TunnelError::BadRange { text } => TunnelErrorView::BadRange(text@),
            TunnelError::NoPorts => TunnelErrorView::NoPorts,
            TunnelError::Local => TunnelErrorView::Local,
            TunnelError::NoEnv { env } => TunnelErrorView::NoEnv(env@),
            TunnelError::NoIp { env } => TunnelErrorView::NoIp(env@),
            TunnelError::NoLoopback { ip } => TunnelErrorView::NoLoopback(ip@),
            TunnelError::Exit { status } => TunnelErrorView::Exit(status@),
        }
    }
}

impl TunnelError {
    pub fn message(&self) -> (r: String)
        ensures
            r@ == match self {
                TunnelError::BadPort { text } => "invalid port: "@ + text@,
                TunnelError::BadRange { text } => "invalid range: "@ + text@,
                TunnelError::NoPorts
                    => "no ports specified — use -p 5173 or add ports = [5173] to .vitro/config.toml"@,
                TunnelError::Local
                    => "tunnel is for remote hosts — ports are already accessible locally"@,
                TunnelError::NoEnv { env } => "env '"@ + env@ + "' not found on server"@,
                TunnelError::NoIp { env } => "env '"@ + env@ + "' has no IP (not running?)"@,
                TunnelError::NoLoopback { ip } => "cannot derive loopback from IP '"@ + ip@ + "'"@,
                TunnelError::Exit { status } => "autossh exited with "@ + status@,
            },
    {
        match self {
            TunnelError::BadPort { text } => {
                let mut s = "invalid port: ".to_string();
                s.append(text.as_str());
                s
            },
            TunnelError::BadRange { text } => {
                let mut s = "invalid range: ".to_string();
                s.append(text.as_str());
                s
            },
            TunnelError::NoPorts => {
                "no ports specified — use -p 5173 or add ports = [5173] to .vitro/config.toml".to_string()
            },
            TunnelError::Local => {
                "tunnel is for remote hosts — ports are already accessible locally".to_string()
            },
            TunnelError::NoEnv { env } => {
                let mut s = "env '".to_string();
                s.append(env.as_str());
                s.append("' not found on server");
                s
            },
            TunnelError::NoIp { env } => {
                let mut s = "env '".to_string();
                s.append(env.as_str());
                s.append("' has no IP (not running?)");
                s
            },
            TunnelError::NoLoopback { ip } => {
                let mut s = "cannot derive loopback from IP '".to_string();
                s.append(ip.as_str());
                s.append("'");
                s
            },
            TunnelError::Exit { status } => {
                let mut s = "autossh exited with ".to_string();
                s.append(status.as_str());
                s
            },
        }
    }
}

// ---------------------------------------------------------------------
// Ports
// ---------------------------------------------------------------------

/// The port that a text writes.
pub open spec fn port_of(text: Seq<char>) -> Option<nat> {
    unsigned_upto(text, u16::MAX as nat)
}

/// The ports from `s` to `e`, both among them.
pub open spec fn port_range(s: nat, e: nat) -> Seq<u16> {
    if s > e {
        Seq::empty()
    } else {
        Seq::new((e - s + 1) as nat, |i: int| (s + i) as u16)
    }
}

/// The ports that a text gives: one, or those from a first to a last one.
pub open spec fn ports_in(text: Seq<char>) -> Result<Seq<u16>, TunnelErrorView> {
    match cut_once(text, '-') {
        Some((a, b)) => match (port_of(a), port_of(b)) {
            (None, _) => Err(TunnelErrorView::BadPort(a)),
            (Some(_), None) => Err(TunnelErrorView::BadPort(b)),
            (Some(s), Some(e)) => if s > e {
                Err(TunnelErrorView::BadRange(text))
            } else {
                Ok(port_range(s, e))
            },
        },
        None => match port_of(text) {
            Some(p) => Ok(port_range(p, p)),
            None => Err(TunnelErrorView::BadPort(text)),
        },
    }
}

/// The ports that texts give, in order; the first text that gives none is the
/// one that is reported.
pub open spec fn all_ports(texts: Seq<Seq<char>>) -> Result<Seq<u16>, TunnelErrorView>
    decreases texts.len(),
{
    if texts.len() == 0 {
        Ok(Seq::empty())
    } else {
        match all_ports(texts.drop_last()) {
            Ok(front) => match ports_in(texts.last()) {
                Ok(more) => Ok(front + more),
                Err(e) => Err(e),
            },
            Err(e) => Err(e),
        }
    }
}

fn port(text: &str) -> (r: Option<u16>)
    ensures
        match port_of(text@) {
            Some(p) => r matches Some(q) && q == p,
            None => r is None,
        },
{
    match parse_unsigned(text, u16::MAX as u64) {
        Some(n) => Some(n as u16),
        None => None,
    }
}

fn push_range(ports: &mut Vec<u16>, s: u16, e: u16)
    requires
        s <= e,
    ensures
        final(ports)@ == old(ports)@ + port_range(s as nat, e as nat),
{
    let ghost before = ports@;
    let mut p: u16 = s;
    ports.push(p);
    proof {
        assert(ports@ =~= before + port_range(s as nat, p as nat));
    }
    while p < e
        invariant
            s <= p <= e,
            ports@ == before + port_range(s as nat, p as nat),
        decreases e - p,
    {
        p = p + 1;
        ports.push(p);
        proof {
            assert(port_range(s as nat, p as nat) =~= port_range(s as nat, (p - 1) as nat).push(p));
            assert(ports@ =~= before + port_range(s as nat, p as nat));
        }
    }
}

/// The ports that texts give: each is a port, or a range `first-last`.
pub fn parse_ports(specs: &Vec<String>) -> (r: Result<Vec<u16>, TunnelError>)
    ensures
        match all_ports(views(specs@)) {
            Ok(ps) => r matches Ok(v) && v@ == ps,
            Err(e) => r matches Err(x) && x@ == e,
        },
{
    let ghost all = views(specs@);
    let mut ports: Vec<u16> = Vec::new();
    proof {
        assert(all.take(0) =~= Seq::empty());
    }
    for i in 0..specs.len()
        invariant
            all == views(specs@),
            all_ports(all.take(i as int)) == Ok::<Seq<u16>, TunnelErrorView>(ports@),
    {
        let ghost upto = all.take(i + 1);
        proof {
            assert(upto.drop_last() =~= all.take(i as int));
            assert(upto.last() == specs@[i as int]@);
        }
        let spec_text = specs[i].as_str();
        let range: Result<(u16, u16), TunnelError> = match split_once(spec_text, '-') {
            Some((a, b)) => match (port(a), port(b)) {
                (None, _) => Err(TunnelError::BadPort { text: a.to_string() }),
                (Some(_), None) => Err(TunnelError::BadPort { text: b.to_string() }),
                (Some(s), Some(e)) => if s > e {
                    Err(TunnelError::BadRange { text: spec_text.to_string() })
                } else {
                    Ok((s, e))
                },
            },
            None => match port(spec_text) {
                Some(p) => Ok((p, p)),
                None => Err(TunnelError::BadPort { text: spec_text.to_string() }),
            },
        };
        match range {
            Ok((s, e)) => {
                push_range(&mut ports, s, e);
            },
            Err(x) => {
                proof {
                    lemma_ports_fail(all, i + 1);
                }
                return Err(x);
            },
        }
    }
    proof {
        assert(all.take(specs@.len() as int) =~= all);
    }
    Ok(ports)
}

/// What the first texts are refused for, all are.
proof fn lemma_ports_fail(texts: Seq<Seq<char>>, n: int)
    requires
        0 <= n <= texts.len(),
        all_ports(texts.take(n)) is Err,
    ensures
        all_ports(texts) == all_ports(texts.take(n)),
    decreases texts.len() - n,
{
    if n < texts.len() {
        assert(texts.take(n + 1).drop_last() =~= texts.take(n));
        lemma_ports_fail(texts, n + 1);
    } else {
        assert(texts.take(n) =~= texts);
    }
}

/// The ports to tunnel: those that were asked for, else those of the
/// configuration. There has to be one.
pub fn tunnel_ports(specs: &Vec<String>, configured: &Vec<u16>) -> (r: Result<Vec<u16>, TunnelError>)
    ensures
        match all_ports(views(specs@)) {
            Ok(ps) => {
                let chosen = if ps.len() > 0 {
                    ps
                } else {
                    configured@
                };
                if chosen.len() > 0 {
                    r matches Ok(v) && v@ == chosen
                } else {
                    r matches Err(x) && x is NoPorts
                }
            },
            Err(e) => r matches Err(x) && x@ == e,
        },
{
    match parse_ports(specs) {
        Ok(ps) => {
            if ps.len() > 0 {
                return Ok(ps);
            }
            if configured.len() == 0 {
                return Err(TunnelError::NoPorts);
            }
            let mut v: Vec<u16> = Vec::new();
            for i in 0..configured.len()
                invariant
                    v@ == configured@.take(i as int),
            {
                v.push(configured[i]);
            }
            proof {
                assert(configured@.take(configured@.len() as int) =~= configured@);
            }
            Ok(v)
        },
        Err(e) => Err(e),
    }
}

// ---------------------------------------------------------------------
// Where a tunnel ends
// ---------------------------------------------------------------------

/// The loopback address for a VM: its last two numbers behind `127.0`.
pub open spec fn loopback_of(ip: Seq<char>) -> Option<Seq<char>> {
    let p = pieces(ip, is_char('.'));
    if p.len() == 4 {
        Some("127.0."@ + p[2] + "."@ + p[3])
    } else {
        None
    }
}

/// The loopback address for a VM, where its address has four parts.
pub fn derive_loopback(vm_ip: &str) -> (r: Option<String>)
    ensures
        opt_text(r) == loopback_of(vm_ip@),
{
    let parts = split(vm_ip, '.');
    proof {
        assert(views(parts@).len() == parts@.len());
    }
    if parts.len() == 4 {
        proof {
            assert(views(parts@)[2] == parts@[2]@);
            assert(views(parts@)[3] == parts@[3]@);
        }
        let mut s = "127.0.".to_string();
        s.append(parts[2].as_str());
        s.append(".");
        s.append(parts[3].as_str());
        Some(s)
    } else {
        None
    }
}

/// The VM with host number `i` has the loopback address with the same number, so
/// two VMs never share one.
pub proof fn law_loopback_of_vm(i: nat, j: nat)
    ensures
        loopback_of(address(i)) == Some("127.0.83."@ + decimal_of(i)),
        loopback_of(address(i)) == loopback_of(address(j)) ==> i == j,
{
    lemma_loopback(i);
    lemma_loopback(j);
    let a = "127.0.83."@ + decimal_of(i);
    let b = "127.0.83."@ + decimal_of(j);
    if a == b {
        assert(a.skip("127.0.83."@.len() as int) =~= decimal_of(i));
        assert(b.skip("127.0.83."@.len() as int) =~= decimal_of(j));
        lemma_decimal_injective(i, j);
    }
}

proof fn lemma_loopback(i: nat)
    ensures
        loopback_of(address(i)) == Some("127.0.83."@ + decimal_of(i)),
{
    reveal_strlit("192.168.83.");
    reveal_strlit("192");
    reveal_strlit("168");
    reveal_strlit("83");
    reveal_strlit("127.0.83.");
    reveal_strlit("127.0.");
    reveal_strlit(".");
    let d = decimal_of(i);
    lemma_decimal_value(i);
    let ss = seq!["192"@, "168"@, "83"@, d];
    let sep = is_char('.');
    assert forall|a: int, k: int| 0 <= a < ss.len() && 0 <= k < ss[a].len() implies !sep(
        #[trigger] ss[a][k],
    ) by {
        if a == 3 {
            assert(is_digit(d[k]));
        } else {
            assert(k == 0 || k == 1 || k == 2);
        }
    }
    lemma_pieces_joined(ss, '.', sep);
    let dot = seq!['.'];
    reveal_with_fuel(joined, 4);
    assert(ss.drop_last() =~= seq!["192"@, "168"@, "83"@]);
    assert(ss.drop_last().drop_last() =~= seq!["192"@, "168"@]);
    assert(ss.drop_last().drop_last().drop_last() =~= seq!["192"@]);
    assert(joined(ss, dot) =~= "192"@ + dot + "168"@ + dot + "83"@ + dot + d);
    assert(address(i) =~= joined(ss, dot));
    assert("127.0."@ + "83"@ + "."@ + d =~= "127.0.83."@ + d);
}

/// Where a tunnel goes: to a server. The ports of an env on this machine need
/// none.
pub fn tunnel_target(target: Option<String>) -> (r: Result<String, TunnelError>)
    ensures
        match target {
            Some(t) => r matches Ok(x) && x@ == t@,
            None => r matches Err(e) && e is Local,
        },
{
    match target {
        Some(t) => Ok(t),
        None => Err(TunnelError::Local),
    }
}

/// The loopback address for an env that a server lists, or why it has none.
pub open spec fn env_loopback(envs: Seq<EnvStatus>, env: Seq<char>) -> Result<
    Seq<char>,
    TunnelErrorView,
> {
    match env_from(envs, env, 0) {
        Some(i) => match envs[i].ip {
            Some(ip) => match loopback_of(ip@) {
                Some(l) => Ok(l),
                None => Err(TunnelErrorView::NoLoopback(ip@)),
            },
            None => Err(TunnelErrorView::NoIp(env)),
        },
        None => Err(TunnelErrorView::NoEnv(env)),
    }
}

/// The loopback address for an env that a server lists.
pub fn tunnel_loopback(envs: &Vec<EnvStatus>, env: &str) -> (r: Result<String, TunnelError>)
    ensures
        match env_loopback(envs@, env@) {
            Ok(l) => r matches Ok(x) && x@ == l,
            Err(e) => r matches Err(x) && x@ == e,
        },
{
    match find_env(envs, env) {
        Some(found) => match &found.ip {
            Some(ip) => match derive_loopback(ip.as_str()) {
                Some(l) => Ok(l),
                None => Err(TunnelError::NoLoopback { ip: ip.clone() }),
            },
            None => Err(TunnelError::NoIp { env: env.to_string() }),
        },
        None => Err(TunnelError::NoEnv { env: env.to_string() }),
    }
}

/// How a tunnel ended.
pub fn tunnel_ended(success: bool, status: &str) -> (r: Result<(), TunnelError>)
    ensures
        match r {
            Ok(_) => success,
            Err(e) => !success && e@ == TunnelErrorView::Exit(status@),
        },
{
    if success {
        Ok(())
    } else {
        Err(TunnelError::Exit { status: status.to_string() })
    }
}

/// The arguments of the `sudo` call that gives the loopback interface an
/// address.
pub fn add_loopback(loopback: &str) -> (r: Vec<String>)
    ensures
        views(r@) == seq!["ip"@, "addr"@, "add"@, loopback@ + "/8"@, "dev"@, "lo"@],
{
    let mut net = loopback.to_string();
    net.append("/8");
    vec![
        "ip".to_string(),
        "addr".to_string(),
        "add".to_string(),
        net,
        "dev".to_string(),
        "lo".to_string(),
    ]
}

/// The arguments of the `sudo` call that takes it away again.
pub fn remove_loopback(loopback: &str) -> (r: Vec<String>)
    ensures
        views(r@) == seq!["ip"@, "addr"@, "del"@, loopback@ + "/8"@, "dev"@, "lo"@],
{
    let mut net = loopback.to_string();
    net.append("/8");
    vec![
        "ip".to_string(),
        "addr".to_string(),
        "del".to_string(),
        net,
        "dev".to_string(),
        "lo".to_string(),
    ]
}

/// The arguments of the `sudo` call by which `exe` gives a host name an address.
pub fn setup_tunnel_dns(exe: &str, loopback: &str, dns: &str) -> (r: Vec<String>)
    ensures
        views(r@) == seq![exe@, "util"@, "hosts"@, "add"@, loopback@, dns@],
{
    vec![
        exe.to_string(),
        "util".to_string(),
        "hosts".to_string(),
        "add".to_string(),
        loopback.to_string(),
        dns.to_string(),
    ]
}

/// The arguments of the `sudo` call by which `exe` takes it away again.
pub fn cleanup_tunnel_dns(exe: &str, dns: &str) -> (r: Vec<String>)
    ensures
        views(r@) == seq![exe@, "util"@, "hosts"@, "remove"@, dns@],
{
    vec![
        exe.to_string(),
        "util".to_string(),
        "hosts".to_string(),
        "remove".to_string(),
        dns.to_string(),
    ]
}

/// The address that a tunnel binds: the loopback address of its own, where it
/// has one.
pub open spec fn bind_of(has_dns: bool, loopback: Seq<char>) -> Seq<char> {
    if has_dns {
        loopback
    } else {
        "127.0.0.1"@
    }
}

/// One forwarded port.
pub open spec fn forward_of(bind: Seq<char>, port: u16, dns: Seq<char>) -> Seq<char> {
    bind + ":"@ + decimal_of(port as nat) + ":"@ + dns + ":"@ + decimal_of(port as nat)
}

/// The options that forward ports.
pub open spec fn forwards(bind: Seq<char>, ports: Seq<u16>, dns: Seq<char>) -> Seq<Seq<char>>
    decreases ports.len(),
{
    if ports.len() == 0 {
        Seq::empty()
    } else {
        forwards(bind, ports.drop_last(), dns) + seq!["-L"@, forward_of(bind, ports.last(), dns)]
    }
}

/// The options of every tunnel.
pub open spec fn tunnel_options() -> Seq<Seq<char>> {
    seq![
        "-M"@,
        "0"@,
        "-N"@,
        "-o"@,
        "LogLevel=ERROR"@,
        "-o"@,
        "ServerAliveInterval=30"@,
        "-o"@,
        "ServerAliveCountMax=3"@,
    ]
}

/// The ports, with commas between them.
pub open spec fn ports_list(ports: Seq<u16>) -> Seq<char> {
    joined(ports.map_values(|p: u16| decimal_of(p as nat)), ", "@)
}

/// A tunnel: the arguments of the `autossh` call that makes it, the URL of its
/// first port, and the ports as text.
pub struct Tunnel {
    pub args: Vec<String>,
    pub url: String,
    pub ports: String,
}

/// The tunnel of ports to an env on the server at `target`.
pub fn tunnel(ports: &Vec<u16>, has_dns: bool, loopback: &str, dns: &str, target: &str) -> (r:
    Tunnel)
    requires
        ports@.len() > 0,
    ensures
        views(r.args@) == tunnel_options() + forwards(bind_of(has_dns, loopback@), ports@, dns@)
            + seq![target@],
        r.url@ == "http://"@ + (if has_dns {
            dns@
        } else {
            "127.0.0.1"@
        }) + ":"@ + decimal_of(ports@[0] as nat),
        r.ports@ == ports_list(ports@),
{
    let bind = if has_dns {
        loopback
    } else {
        "127.0.0.1"
    };
    let mut args: Vec<String> = Vec::new();
    args.push("-M".to_string());
    args.push("0".to_string());
    args.push("-N".to_string());
    args.push("-o".to_string());
    args.push("LogLevel=ERROR".to_string());
    args.push("-o".to_string());
    args.push("ServerAliveInterval=30".to_string());
    args.push("-o".to_string());
    args.push("ServerAliveCountMax=3".to_string());
    let mut texts: Vec<String> = Vec::new();
    let ghost text_of_port = |p: u16| decimal_of(p as nat);
    proof {
        assert(views(args@) =~= tunnel_options() + forwards(bind@, ports@.take(0), dns@));
    }
    for i in 0..ports.len()
        invariant
            text_of_port == (|p: u16| decimal_of(p as nat)),
            views(args@) == tunnel_options() + forwards(bind@, ports@.take(i as int), dns@),
            views(texts@) =~= ports@.map_values(text_of_port).take(i as int),
    {
        proof {
            assert(ports@.take(i + 1).drop_last() =~= ports@.take(i as int));
        }
        let p = decimal(ports[i] as u64);
        let mut f = bind.to_string();
        f.append(":");
        f.append(p.as_str());
        f.append(":");
        f.append(dns);
        f.append(":");
        f.append(p.as_str());
        let ghost before = args@;
        args.push("-L".to_string());
        args.push(f);
        proof {
            lemma_views_push(texts@, p);
            assert(views(args@) =~= views(before) + seq!["-L"@, f@]);
            assert(views(args@) =~= tunnel_options() + forwards(bind@, ports@.take(i + 1), dns@));
        }
        texts.push(p);
    }
    let ghost before = args@;
    args.push(target.to_string());
    proof {
        assert(ports@.take(ports@.len() as int) =~= ports@);
        assert(ports@.map_values(text_of_port).take(ports@.len() as int) =~= ports@.map_values(
            text_of_port,
        ));
        assert(views(args@) =~= views(before) + seq![target@]);
    }
    let mut url = "http://".to_string();
    let host = if has_dns {
        dns
    } else {
        "127.0.0.1"
    };
    url.append(host);
    url.append(":");
    url.append(decimal(ports[0] as u64).as_str());
    Tunnel { args, url, ports: join(&texts, ", ") }
}

// ---------------------------------------------------------------------
// The hosts file of this machine
// ---------------------------------------------------------------------

/// What marks the lines of tunnels.
pub const HOSTS_MARKER: &'static str = "# vitro-tunnel";

/// A line is that of a tunnel to a host.
pub open spec fn is_tunnel_line(line: Seq<char>, hostname: Seq<char>) -> bool {
    holds(line, hostname) && holds(line, HOSTS_MARKER@)
}

/// The line of a tunnel.
pub open spec fn tunnel_line(ip: Seq<char>, hostname: Seq<char>) -> Seq<char> {
    ip + " "@ + hostname + " "@ + HOSTS_MARKER@
}

/// What is appended to the hosts so that a host name is found; nothing, where it
/// stands in them already.
pub fn hosts_add(hosts: &str, ip: &str, hostname: &str) -> (r: Option<String>)
    ensures
        match r {
            Some(t) => !holds(hosts@, hostname@) && t@ == tunnel_line(ip@, hostname@) + "\n"@,
            None => holds(hosts@, hostname@),
        },
{
    if contains(hosts, hostname) {
        None
    } else {
        let mut s = ip.to_string();
        s.append(" ");
        s.append(hostname);
        s.append(" ");
        s.append(HOSTS_MARKER);
        s.append("\n");
        Some(s)
    }
}

/// The lines that are not those of tunnels to a host.
pub open spec fn other_lines(hosts: Seq<char>, hostname: Seq<char>) -> Seq<Seq<char>> {
    lines_of(hosts).filter(|l: Seq<char>| !is_tunnel_line(l, hostname))
}

/// The hosts without the tunnels to a host.
pub open spec fn hosts_without(hosts: Seq<char>, hostname: Seq<char>) -> Seq<char> {
    joined(other_lines(hosts, hostname), "\n"@) + "\n"@
}

/// The hosts without the tunnels to a host.
pub fn hosts_remove(hosts: &str, hostname: &str) -> (r: String)
    ensures
        r@ == hosts_without(hosts@, hostname@),
{
    let ls = lines(hosts);
    let ghost all = lines_of(hosts@);
    let ghost keep = |l: Seq<char>| !is_tunnel_line(l, hostname@);
    let mut kept: Vec<String> = Vec::new();
    proof {
        reveal(Seq::filter);
        assert(all.take(0) =~= Seq::empty());
        assert(views(kept@) =~= all.take(0).filter(keep));
    }
    for i in 0..ls.len()
        invariant
            all == views(ls@),
            keep == (|l: Seq<char>| !is_tunnel_line(l, hostname@)),
            views(kept@) == all.take(i as int).filter(keep),
    {
        proof {
            reveal(Seq::filter);
            assert(all[i as int] == ls@[i as int]@);
            assert(all.take(i + 1).drop_last() =~= all.take(i as int));
        }
        if !(contains(ls[i].as_str(), hostname) && contains(ls[i].as_str(), HOSTS_MARKER)) {
            let l = ls[i].clone();
            proof {
                lemma_views_push(kept@, l);
            }
            kept.push(l);
        }
    }
    proof {
        assert(all.take(ls@.len() as int) =~= all);
    }
    let mut s = join(&kept, "\n");
    s.append("\n");
    s
}

proof fn lemma_hosts_without(hosts: Seq<char>, hostname: Seq<char>)
    ensures
        other_lines(hosts, hostname).len() > 0 ==> lines_of(hosts_without(hosts, hostname))
            == other_lines(hosts, hostname).map_values(|l: Seq<char>| without_cr(l)),
        other_lines(hosts, hostname).len() == 0 ==> lines_of(hosts_without(hosts, hostname))
            == seq![Seq::<char>::empty()],
        forall|i: int|
            0 <= i < other_lines(hosts, hostname).len() ==> !is_tunnel_line(
                #[trigger] other_lines(hosts, hostname)[i],
                hostname,
            ),
        forall|l: Seq<char>|
            lines_of(hosts).contains(l) && !is_tunnel_line(l, hostname) ==> #[trigger] other_lines(
                hosts,
                hostname,
            ).contains(l),
{
    reveal_strlit("\n");
    assert("\n"@ =~= seq!['\n']);
    let keep = |l: Seq<char>| !is_tunnel_line(l, hostname);
    let all = lines_of(hosts);
    let kept = other_lines(hosts, hostname);
    lemma_filter_keeps(all, keep);
    lemma_lines_clean(hosts);
    assert forall|i: int, k: int| 0 <= i < kept.len() && 0 <= k < kept[i].len() implies #[trigger]
        kept[i][k] != '\n' by {
        assert(all.contains(kept[i]));
        let m = all.index_of(kept[i]);
        assert(all[m][k] != '\n');
    }
    assert forall|i: int| 0 <= i < kept.len() implies !is_tunnel_line(
        #[trigger] kept[i],
        hostname,
    ) by {
        assert(keep(kept[i]));
    }
    assert forall|l: Seq<char>| all.contains(l) && !is_tunnel_line(l, hostname) implies #[trigger]
        kept.contains(l) by {
        assert(keep(l));
    }
    if kept.len() > 0 {
        lemma_lines_joined(kept);
    } else {
        let e = Seq::<char>::empty();
        lemma_lines_joined(seq![e]);
        assert(joined(seq![e], seq!['\n']) =~= e);
        assert(joined(kept, "\n"@) =~= e);
        assert(seq![e].map_values(|l: Seq<char>| without_cr(l)) =~= seq![e]);
    }
}

/// After a host name was taken out, no line is that of a tunnel to it.
pub proof fn law_removed_tunnel_is_gone(hosts: Seq<char>, hostname: Seq<char>, i: int)
    requires
        0 <= i < lines_of(hosts_without(hosts, hostname)).len(),
    ensures
        !is_tunnel_line(lines_of(hosts_without(hosts, hostname))[i], hostname),
{
    lemma_hosts_without(hosts, hostname);
    let kept = other_lines(hosts, hostname);
    let l = lines_of(hosts_without(hosts, hostname))[i];
    if kept.len() > 0 {
        assert(l == without_cr(kept[i]));
        if is_tunnel_line(l, hostname) {
            let k = choose|k: int| occurs_at(l, hostname, k);
            assert(kept[i].subrange(k, k + hostname.len()) =~= l.subrange(k, k + hostname.len()));
            assert(occurs_at(kept[i], hostname, k));
            let m = HOSTS_MARKER@;
            let j = choose|j: int| occurs_at(l, m, j);
            assert(kept[i].subrange(j, j + m.len()) =~= l.subrange(j, j + m.len()));
            assert(occurs_at(kept[i], m, j));
            assert(is_tunnel_line(kept[i], hostname));
        }
    } else {
        reveal_strlit("# vitro-tunnel");
        assert(l.len() == 0);
        if holds(l, HOSTS_MARKER@) {
            let j = choose|j: int| occurs_at(l, HOSTS_MARKER@, j);
            assert(occurs_at(l, HOSTS_MARKER@, j));
        }
    }
}

/// Taking a host name out leaves every line that is not that of a tunnel to it.
/// Carriage returns at the end of a line do not count.
pub proof fn law_remove_keeps_other_hosts(hosts: Seq<char>, hostname: Seq<char>, line: Seq<char>)
    requires
        lines_of(hosts).contains(line),
        !is_tunnel_line(line, hostname),
        line.len() > 0 ==> line.last() != '\r',
    ensures
        lines_of(hosts_without(hosts, hostname)).contains(line),
{
    lemma_hosts_without(hosts, hostname);
    let kept = other_lines(hosts, hostname);
    assert(kept.contains(line));
    let i = kept.index_of(line);
    let f = |l: Seq<char>| without_cr(l);
    assert(kept.map_values(f)[i] == without_cr(line));
}

/// A line that was added for a tunnel is one that is taken out again.
pub proof fn law_added_tunnel_is_found(ip: Seq<char>, hostname: Seq<char>)
    ensures
        is_tunnel_line(tunnel_line(ip, hostname), hostname),
{
    let l = tunnel_line(ip, hostname);
    reveal_strlit(" ");
    let m = HOSTS_MARKER@;
    let i = ip.len() + 1int;
    assert(l.subrange(i, i + hostname.len()) =~= hostname);
    assert(occurs_at(l, hostname, i));
    let j = i + hostname.len() + 1;
    assert(l.subrange(j, j + m.len()) =~= m);
    assert(occurs_at(l, m, j));
}

/// A first and a last port with a hyphen between them are all the ports from the
/// one to the other.
pub proof fn law_range_is_inclusive(s: u16, e: u16)
    requires
        s <= e,
    ensures
        ports_in(decimal_of(s as nat) + "-"@ + decimal_of(e as nat)) == Ok::<
            Seq<u16>,
            TunnelErrorView,
        >(port_range(s as nat, e as nat)),
        forall|p: u16| s <= p <= e <==> #[trigger] port_range(s as nat, e as nat).contains(p),
{
    reveal_strlit("-");
    assert("-"@ =~= seq!['-']);
    let a = decimal_of(s as nat);
    let b = decimal_of(e as nat);
    lemma_decimal_value(s as nat);
    lemma_decimal_value(e as nat);
    assert(!a.contains('-')) by {
        if a.contains('-') {
            let i = a.index_of('-');
            assert(is_digit(a[i]));
        }
    }
    lemma_cut_once(a, '-', b);
    assert(is_digit(a[0]) && is_digit(b[0]));
    let r = port_range(s as nat, e as nat);
    assert forall|p: u16| s <= p <= e <==> #[trigger] r.contains(p) by {
        if s <= p <= e {
            assert(r[p - s] == p);
        }
        if r.contains(p) {
            let i = r.index_of(p);
            assert(r[i] == (s + i) as u16);
        }
    }
}

} // verus!
