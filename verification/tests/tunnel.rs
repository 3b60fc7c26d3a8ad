use vitro::client::EnvStatus;
use vitro::tunnel::{
    add_loopback, cleanup_tunnel_dns, derive_loopback, hosts_add, hosts_remove, parse_ports,
    remove_loopback, setup_tunnel_dns, tunnel, tunnel_ended, tunnel_loopback, tunnel_ports,
    tunnel_target,
};

fn texts(v: &[&str]) -> Vec<String> {
    v.iter().map(|s| s.to_string()).collect()
}

#[test]
fn ports_and_ranges() {
    assert_eq!(parse_ports(&texts(&["5173", "8001-8004"])).unwrap(), vec![5173, 8001, 8002, 8003, 8004]);
    assert_eq!(parse_ports(&texts(&["65535-65535"])).unwrap(), vec![65535]);
    assert_eq!(parse_ports(&texts(&[])).unwrap(), Vec::<u16>::new());
    let bad = |v: &[&str]| parse_ports(&texts(v)).unwrap_err().message();
    assert_eq!(bad(&["1", "x", "y"]), "invalid port: x");
    assert_eq!(bad(&["70000"]), "invalid port: 70000");
    assert_eq!(bad(&["a-2"]), "invalid port: a");
    assert_eq!(bad(&["1-b"]), "invalid port: b");
    assert_eq!(bad(&["1-2-3"]), "invalid port: 2-3");
    assert_eq!(bad(&["9-8"]), "invalid range: 9-8");
}

#[test]
fn ports_fall_back_to_the_configuration() {
    assert_eq!(tunnel_ports(&texts(&["1"]), &vec![2]).unwrap(), vec![1]);
    assert_eq!(tunnel_ports(&texts(&[]), &vec![2, 3]).unwrap(), vec![2, 3]);
    assert_eq!(
        tunnel_ports(&texts(&[]), &vec![]).unwrap_err().message(),
        "no ports specified — use -p 5173 or add ports = [5173] to .vitro/config.toml"
    );
    assert_eq!(tunnel_ports(&texts(&["x"]), &vec![2]).unwrap_err().message(), "invalid port: x");
}

#[test]
fn loopbacks_follow_the_address() {
    assert_eq!(derive_loopback("192.168.83.42").as_deref(), Some("127.0.83.42"));
    assert_eq!(derive_loopback("192.168.83.11").as_deref(), Some("127.0.83.11"));
    assert_eq!(derive_loopback("10.0.0"), None);
    assert_eq!(derive_loopback("a.b.c.d.e"), None);
    assert_eq!(
        add_loopback("127.0.83.42"),
        texts(&["ip", "addr", "add", "127.0.83.42/8", "dev", "lo"])
    );
    assert_eq!(
        remove_loopback("127.0.83.42"),
        texts(&["ip", "addr", "del", "127.0.83.42/8", "dev", "lo"])
    );
    assert_eq!(
        setup_tunnel_dns("/bin/vitro", "127.0.83.42", "e.r.env"),
        texts(&["/bin/vitro", "util", "hosts", "add", "127.0.83.42", "e.r.env"])
    );
    assert_eq!(
        cleanup_tunnel_dns("/bin/vitro", "e.r.env"),
        texts(&["/bin/vitro", "util", "hosts", "remove", "e.r.env"])
    );
}

#[test]
fn tunnels_forward_every_port() {
    let t = tunnel(&vec![80, 443], true, "127.0.83.42", "e.r.env", "u@h");
    assert_eq!(
        t.args,
        texts(&[
            "-M",
            "0",
            "-N",
            "-o",
            "LogLevel=ERROR",
            "-o",
            "ServerAliveInterval=30",
            "-o",
            "ServerAliveCountMax=3",
            "-L",
            "127.0.83.42:80:e.r.env:80",
            "-L",
            "127.0.83.42:443:e.r.env:443",
            "u@h",
        ])
    );
    assert_eq!((t.url.as_str(), t.ports.as_str()), ("http://e.r.env:80", "80, 443"));
    let plain = tunnel(&vec![80], false, "127.0.83.42", "e.r.env", "u@h");
    assert_eq!(plain.args[10], "127.0.0.1:80:e.r.env:80");
    assert_eq!(plain.url, "http://127.0.0.1:80");
}

#[test]
fn hosts_entries_come_and_go() {
    let line = hosts_add("127.0.0.1 localhost\n", "127.0.83.42", "e.r.env").unwrap();
    assert_eq!(line, "127.0.83.42 e.r.env # vitro-tunnel\n");
    let hosts = format!("127.0.0.1 localhost\n{line}10.0.0.1 e.r.env\n");
    assert_eq!(hosts_add(&hosts, "127.0.83.42", "e.r.env"), None);
    assert_eq!(hosts_remove(&hosts, "e.r.env"), "127.0.0.1 localhost\n10.0.0.1 e.r.env\n");
    assert_eq!(hosts_remove(&hosts, "x.r.env"), hosts);
    assert_eq!(hosts_remove(&line, "e.r.env"), "\n");
}

#[test]
fn tunnels_lead_to_envs_of_servers() {
    assert_eq!(tunnel_target(Some("u@h".to_string())).unwrap(), "u@h");
    assert_eq!(
        tunnel_target(None).unwrap_err().message(),
        "tunnel is for remote hosts — ports are already accessible locally"
    );
    let env = |name: &str, ip: Option<&str>| EnvStatus {
        name: name.to_string(),
        status: "running".to_string(),
        ip: ip.map(str::to_string),
        repo: None,
    };
    let envs = vec![env("a", Some("192.168.83.11")), env("b", None), env("c", Some("x"))];
    assert_eq!(tunnel_loopback(&envs, "a").unwrap(), "127.0.83.11");
    let bad = |name: &str| tunnel_loopback(&envs, name).unwrap_err().message();
    assert_eq!(bad("b"), "env 'b' has no IP (not running?)");
    assert_eq!(bad("c"), "cannot derive loopback from IP 'x'");
    assert_eq!(bad("d"), "env 'd' not found on server");
    assert!(tunnel_ended(true, "exit status: 0").is_ok());
    assert_eq!(
        tunnel_ended(false, "exit status: 1").unwrap_err().message(),
        "autossh exited with exit status: 1"
    );
}
