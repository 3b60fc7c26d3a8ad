use vitro::client::{
    accepted, acp_ended, find_env, hex_text, make_dir_command, own_synced, secrets_pushed, shell_ended, sync_source,
    synced, up_result, vm_ip, Client, EnvStatus, UpResponse,
};
use vitro::config::{EnvConfig, HookConfig, PersistConfig, SessionConfig};
use vitro::http;
use vitro::json::parse_json;
use vitro::proxy::{control, done, Control};
use vitro::ssh::{
    auth_failed, key_paths, parse_user_host, read_response, ChannelEvent, ExecOutput, ReadNext,
    ResponseEvent,
};

fn texts(v: &[&str]) -> Vec<String> {
    v.iter().map(|s| s.to_string()).collect()
}

fn client() -> Client {
    Client::connect("u@h").unwrap().0
}

fn env(name: &str, ip: Option<&str>, repo: Option<&str>) -> EnvStatus {
    EnvStatus {
        name: name.to_string(),
        status: "running".to_string(),
        ip: ip.map(str::to_string),
        repo: repo.map(str::to_string),
    }
}

#[test]
fn clients_know_their_server() {
    let (c, user, host) = Client::connect("u@h@i").unwrap();
    assert_eq!((c.user_host(), user.as_str(), host.as_str()), ("u@h@i", "u", "h@i"));
    assert_eq!(
        Client::connect("host").unwrap_err().message(),
        "invalid SSH target: expected user@host, got 'host'"
    );
    assert_eq!(parse_user_host("a@b").unwrap(), ("a".to_string(), "b".to_string()));
    assert_eq!(
        key_paths(Some("/home/a")),
        texts(&["/home/a/.ssh/id_ed25519", "/home/a/.ssh/id_rsa", "/var/lib/vitro/ssh/id_ed25519"])
    );
    assert_eq!(key_paths(None)[0], "/root/.ssh/id_ed25519");
    assert_eq!(auth_failed("u@h"), "SSH authentication failed for u@h");
}

#[test]
fn requests_carry_the_configuration() {
    let mut config = EnvConfig::default();
    config.ports = vec![80];
    config.persist.push(PersistConfig { path: "/d".to_string(), purpose: None });
    config.session = Some(SessionConfig {
        command: texts(&["agent"]),
        hook: vec![HookConfig {
            on: "exit".to_string(),
            pattern: None,
            after: Some("1m".to_string()),
            run: "r".to_string(),
        }],
    });
    let r = client().prepare("e", "app", &config);
    assert_eq!((r.method, r.path), ("POST", "/prepare"));
    let body = r.body.unwrap();
    assert_eq!(
        body,
        r#"{"config":{"egress":{"credentials":[],"reads":null,"writes":null},"memory":"2G","persist":[{"path":"/d","purpose":null}],"ports":[80],"secrets":{"command":null,"keys":[]},"server":null,"session":{"command":["agent"],"hook":[{"after":"1m","on":"exit","pattern":null,"run":"r"}]},"vcpu":2},"name":"e","repo":"app"}"#
    );
    let up = client().up("e", "app", true, &EnvConfig::default());
    assert_eq!((up.method, up.path), ("POST", "/up"));
    let read = parse_json(up.body.as_deref().unwrap()).unwrap();
    assert_eq!(read.get("name").unwrap().as_text(), Some("e"));
    assert!(matches!(read.get("create").unwrap(), vitro::json::Json::Bool(true)));
    assert_eq!(client().down("e").body.as_deref(), Some(r#"{"name":"e"}"#));
    assert_eq!(client().down("e").path, "/down");
    assert_eq!(client().delete("e").path, "/delete");
    assert_eq!(client().delete("e").body.as_deref(), Some(r#"{"name":"e"}"#));
    let list = client().list();
    assert_eq!((list.method, list.path, list.body), ("GET", "/list", None));
}

#[test]
fn servers_understand_requests() {
    let send = |r: &vitro::client::Request| {
        control(&http::request(r.method, r.path, r.body.as_deref().unwrap_or("")))
    };
    let c = client();
    let config = EnvConfig::default();
    let prepare = c.prepare("e", "app", &config);
    assert!(matches!(send(&prepare), Control::Prepare { json } if Some(&json) == prepare.body.as_ref()));
    let up = c.up("e", "app", false, &config);
    assert!(matches!(send(&up), Control::Up { json } if Some(&json) == up.body.as_ref()));
    assert!(matches!(send(&c.down("e")), Control::Down { .. }));
    assert!(matches!(send(&c.delete("e")), Control::Delete { .. }));
    assert!(matches!(send(&c.list()), Control::List));
}

#[test]
fn answers_are_accepted_or_refused() {
    let ok = done(None);
    let response = http::response(ok.status, &ok.body);
    assert!(accepted(&http::response_body(&response)).is_ok());
    let failed = done(Some("no disk"));
    assert_eq!(
        accepted(&failed.body).unwrap_err().message(),
        "server error: {\"ok\":false,\"error\":\"no disk\"}"
    );
    let up = UpResponse { ok: true, ip: Some("10.0.0.1".to_string()), error: None };
    assert_eq!(up_result(up).unwrap().ip.as_deref(), Some("10.0.0.1"));
    let down = UpResponse { ok: false, ip: None, error: Some("x".to_string()) };
    assert_eq!(up_result(down).unwrap_err().message(), "server error: x");
    let silent = UpResponse { ok: false, ip: None, error: None };
    assert_eq!(up_result(silent).unwrap_err().message(), "server error: ");
    assert!(shell_ended(true, "0").is_ok());
    assert_eq!(shell_ended(false, "1").unwrap_err().message(), "shell exited with 1");
    assert!(acp_ended(true, "0").is_ok());
    assert_eq!(acp_ended(false, "1").unwrap_err().message(), "acp forward exited with 1");
    assert!(secrets_pushed(0, "o").is_ok());
    assert_eq!(
        secrets_pushed(255, "o").unwrap_err().message(),
        "push_secrets_env exited 255: o"
    );
}

#[test]
fn interactive_shells_jump() {
    let envs = vec![env("e", Some("10.0.0.1"), Some("app")), env("e", None, None)];
    assert_eq!(vm_ip(Some(&envs), "e").as_deref(), Some("10.0.0.1"));
    assert_eq!(vm_ip(Some(&envs), "x"), None);
    assert_eq!(vm_ip(None, "e"), None);
    assert!(find_env(&envs, "x").is_none());
    let jump = client().shell("e", None, None, Some("10.0.0.1"), &envs);
    assert_eq!(
        jump[..10],
        texts(&[
            "-t",
            "-A",
            "-o",
            "StrictHostKeyChecking=no",
            "-o",
            "UserKnownHostsFile=/dev/null",
            "-o",
            "ServerAliveInterval=30",
            "-o",
            "ServerAliveCountMax=3",
        ])[..]
    );
    assert_eq!(jump[10..13], texts(&["-J", "u@h", "agent@10.0.0.1"])[..]);
    assert!(jump[13].contains("/default.sock"));
    assert!(jump[13].ends_with("'cd '\\''/app'\\'' && exec $SHELL -l'"));
    let named = client().shell("x", None, Some("s"), Some("10.0.0.1"), &envs);
    assert!(named[13].contains("/s.sock") && named[13].contains("/x'"));
    let hop = client().shell("e", None, Some("s"), None, &envs);
    assert_eq!(hop[10..], texts(&["u@h", "vitro shell --server e --session 's'"])[..]);
    let cmd = client().shell("e", Some("ls"), None, Some("10.0.0.1"), &envs);
    assert_eq!(cmd[10..], texts(&["u@h", "vitro shell --server e -c 'ls'"])[..]);
    let captured = client().shell_capture("e", "ls");
    assert_eq!(captured[0], "-A");
    assert_eq!(captured[9..], texts(&["u@h", "vitro shell --server e -c 'ls'"])[..]);
    assert_eq!(client().acp_forward("e", "ls"), captured);
}

#[test]
fn secrets_travel_as_escapes() {
    assert_eq!(hex_text("A'\né"), "\\x41\\x27\\x0a\\xc3\\xa9");
    assert_eq!(hex_text(""), "");
    assert_eq!(
        client().push_secrets_env("e", "K"),
        "vitro shell --server e -c 'printf '\\''\\x4b'\\'' > /var/lib/vitro/secrets.env && chmod 600 /var/lib/vitro/secrets.env'"
    );
    assert_eq!(
        client().push_secrets(),
        "mkdir -p /var/lib/vitro && cat > /var/lib/vitro/secrets.env && chmod 600 /var/lib/vitro/secrets.env"
    );
}

#[test]
fn files_are_synced_below_the_home() {
    let s = client().sync_files("/home/a", "e", "~/.config/x.toml").unwrap();
    assert_eq!(s.source, "/home/a/.config/x.toml");
    assert_eq!(s.dest, "/var/lib/vitro/envs/e/sync/.config/x.toml");
    assert_eq!(s.make_dir.as_deref(), Some("mkdir -p '/var/lib/vitro/envs/e/sync/.config'"));
    assert_eq!(s.store, "cat > '/var/lib/vitro/envs/e/sync/.config/x.toml'");
    let abs = client().sync_files("/home/a", "e", "/home/a/y").unwrap();
    assert_eq!((abs.source.as_str(), abs.dest.as_str()), ("/home/a/y", "/var/lib/vitro/envs/e/sync/y"));
    assert!(client().sync_files("/home/a", "e", "/home/ab/y").is_none());
    assert!(client().sync_files("/home/a", "e", "/etc/passwd").is_none());
    assert_eq!(sync_source("/home/a", "/etc/x"), "/etc/x");
    assert_eq!(make_dir_command("/d"), "mkdir -p '/d'");
    assert_eq!(synced("s".to_string(), "e", "r").dest, "/var/lib/vitro/envs/e/sync/r");
    assert_eq!(own_synced("e"), "chown -R 1000:users /var/lib/vitro/envs/e/sync/ 2>/dev/null");
}

#[test]
fn channel_output_is_collected() {
    let mut out = ExecOutput::new();
    out.on(ChannelEvent::Data(b"ab".to_vec()));
    out.on(ChannelEvent::Other);
    out.on(ChannelEvent::Exit(3));
    out.on(ChannelEvent::Data(b"c".to_vec()));
    assert_eq!((out.stdout, out.exit_code), (b"abc".to_vec(), 3));
    let mut response = Vec::new();
    assert!(read_response(&mut response, ResponseEvent::Data(b"x".to_vec())) == ReadNext::More);
    assert!(read_response(&mut response, ResponseEvent::Other) == ReadNext::More);
    assert!(read_response(&mut response, ResponseEvent::TimedOut) == ReadNext::TimedOut);
    assert!(read_response(&mut response, ResponseEvent::End) == ReadNext::Done);
    assert_eq!(response, b"x".to_vec());
}
