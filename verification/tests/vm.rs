use vitro::config::{CredentialConfig, EnvConfig, EnvEgressRules, PersistConfig};
use vitro::json::parse_json;
use vitro::nix::{authorize, flake_text, host_config_nix, json_to_nix, read_host_config_user, FlakeFacts};
use vitro::dns::{deregister_dns, register_dns, sanitize_lowered};
use vitro::vm::{
    acp_ended, acp_forward, captured, delete, delete_error, deregister_proxy_rules, dns_hostname,
    generate_flake,
    guest_user, is_root, is_running, persist_dir, probe_args, register_proxy_rules,
    remove_command, repo_config_flake, run_command, run_privileged, runner, sanitize_dns,
    server_config_flake, shell, shell_capture, shell_ended, ssh_target, start, start_command,
    start_error, stop,
    stop_command, sync_args, sync_dir, vm_dir, wait_for_vm, workspace, DeleteEvent, DeleteNext,
    DeleteStep, Outcome, StartNext, StartStep, StopStep, VmError, Wait,
};

fn texts(v: &[&str]) -> Vec<String> {
    v.iter().map(|s| s.to_string()).collect()
}

// DNS sanitization

#[test]
fn sanitize_simple() {
    assert_eq!(sanitize_dns("feat"), "feat");
}

#[test]
fn sanitize_slashes() {
    assert_eq!(sanitize_dns("feature/auth-flow"), "feature-auth-flow");
}

#[test]
fn sanitize_uppercase() {
    assert_eq!(sanitize_dns("MyEnv"), "myenv");
}

#[test]
fn sanitize_consecutive_special() {
    assert_eq!(sanitize_dns("a//b--c"), "a-b-c");
}

#[test]
fn sanitize_leading_trailing() {
    assert_eq!(sanitize_dns("-leading-"), "leading");
    assert_eq!(sanitize_dns("//trailing//"), "trailing");
}

#[test]
fn dns_hostname_basic() {
    assert_eq!(dns_hostname("feat", "myapp"), "feat.myapp.env");
}

#[test]
fn dns_hostname_complex() {
    assert_eq!(dns_hostname("feature/auth", "my-app"), "feature-auth.my-app.env");
}

#[test]
fn a_label_is_its_own_label() {
    for s in ["", "--", "a", "A/b", "ÄB c", "Käse İ", "\u{212a}9", "x--y__z9"] {
        let once = sanitize_dns(s);
        assert_eq!(sanitize_dns(&once), once);
        assert!(!once.starts_with('-') && !once.ends_with('-') && !once.contains("--"));
    }
    assert_eq!(sanitize_lowered("AB_c"), "AB-c");
    assert_eq!(sanitize_dns("Straße"), "stra-e");
}

#[test]
fn dns_entries_come_and_go() {
    let one = register_dns("a.r.env", "10.0.0.1", "").unwrap();
    assert_eq!(one, "10.0.0.1 a.r.env\n");
    assert_eq!(register_dns("a.r.env", "10.0.0.1", &one), None);
    let two = register_dns("b.r.env", "10.0.0.2", &one).unwrap();
    assert_eq!(two, "10.0.0.1 a.r.env\n10.0.0.2 b.r.env\n");
    assert_eq!(deregister_dns("a.r.env", &two), "10.0.0.2 b.r.env\n");
    assert_eq!(deregister_dns("a.r.env", &one), "");
}

// nix

#[test]
fn json_becomes_nix() {
    let nix = |t: &str| json_to_nix(&parse_json(t).unwrap());
    assert_eq!(nix("null"), "null");
    assert_eq!(nix("true"), "true");
    assert_eq!(nix("false"), "false");
    assert_eq!(nix("-12"), "-12");
    assert_eq!(nix(r#""a\\b\"c""#), r#""a\\b\"c""#);
    assert_eq!(nix("[]"), "[  ]");
    assert_eq!(nix("[1, \"x\"]"), "[ 1 \"x\" ]");
    assert_eq!(nix("{}"), "{  }");
    assert_eq!(nix(r#"{"b": [true], "a": {"c": 1.5}}"#), "{ a = { c = 1.5; }; b = [ true ]; }");
}

#[test]
fn host_key_is_authorized_once() {
    let config = r#"{"user":{"name":"ada","authorizedKeys":["k1"]}}"#;
    let with = host_config_nix(Some(config), Some("k2\n")).unwrap();
    assert_eq!(with, "{ user = { authorizedKeys = [ \"k1\" \"k2\" ]; name = \"ada\"; }; }");
    let again = host_config_nix(Some(config), Some("k1\n")).unwrap();
    assert_eq!(again, "{ user = { authorizedKeys = [ \"k1\" ]; name = \"ada\"; }; }");
    let without = host_config_nix(Some(config), None).unwrap();
    assert_eq!(without, again);
    let no_list = host_config_nix(Some(r#"{"user":{"authorizedKeys":3}}"#), Some("k")).unwrap();
    assert_eq!(no_list, "{ user = { authorizedKeys = 3; }; }");
    let no_user = host_config_nix(Some("[1]"), Some("k")).unwrap();
    assert_eq!(no_user, "[ 1 ]");
    assert_eq!(host_config_nix(None, Some("k")).unwrap(), "{}");
    let bad = host_config_nix(Some("{"), None).unwrap_err();
    assert_eq!(bad.message(), "parsing host-config.json");
    let twice = authorize(authorize(parse_json(config).unwrap(), "k2"), "k2");
    assert_eq!(json_to_nix(&twice), with);
}

#[test]
fn host_user_is_read() {
    assert_eq!(read_host_config_user(Some(r#"{"user":{"name":"ada"}}"#)).as_deref(), Some("ada"));
    assert_eq!(read_host_config_user(Some(r#"{"user":{"name":1}}"#)), None);
    assert_eq!(read_host_config_user(Some(r#"{"user":{}}"#)), None);
    assert_eq!(read_host_config_user(Some("{}")), None);
    assert_eq!(read_host_config_user(Some("no")), None);
    assert_eq!(read_host_config_user(None), None);
}

fn facts(server: Option<&str>, repo: Option<&str>) -> FlakeFacts {
    FlakeFacts {
        name: "e".to_string(),
        ip: "10.0.0.1".to_string(),
        env_dir: "/envs/e".to_string(),
        repo: "app".to_string(),
        host_config: "{}".to_string(),
        server_config: server.map(str::to_string),
        repo_config: repo.map(str::to_string),
    }
}

#[test]
fn flake_names_its_parts() {
    let bare = flake_text(&facts(None, None), &vec![]);
    assert_eq!(
        bare,
        "{\n  inputs = {\n    nixpkgs.url = \"github:NixOS/nixpkgs/nixpkgs-unstable\";\n    vitro.url = \"github:ixxie/vitro\";\n    microvm = {\n      url = \"github:microvm-nix/microvm.nix\";\n      inputs.nixpkgs.follows = \"nixpkgs\";\n    };\n  };\n\n  outputs = { nixpkgs, vitro, microvm, ... } @ inputs:\n    vitro.lib.mkEnv { inherit vitro nixpkgs microvm; } {\n      name = \"e\";\n      ip = \"10.0.0.1\";\n      envDir = \"/envs/e\";\n      repo = \"app\";\n      hostConfig = {};\n    };\n}\n"
    );
    let persist = vec![
        PersistConfig { path: "/data".to_string(), purpose: None },
        PersistConfig { path: "/a\"b".to_string(), purpose: Some("x".to_string()) },
    ];
    let full = flake_text(&facts(Some("/s"), Some("/r")), &persist);
    assert!(full.contains("    };\n    serverConfig.url = \"path:/s\";\n    repoConfig.url = \"path:/r\";\n  };\n"));
    assert!(full.contains(
        "hostConfig = {};\n      modules = [ inputs.serverConfig.nixosModule inputs.repoConfig.nixosModule ];      persist = [ { path = \"/data\"; } { path = \"/a\\\"b\"; } ];\n    };\n}\n"
    ));
    let one = flake_text(&facts(Some("/s"), None), &vec![]);
    assert!(one.contains("      modules = [ inputs.serverConfig.nixosModule ];    };\n}\n"));
    let other = flake_text(&facts(None, Some("/r")), &vec![]);
    assert!(other.contains("      modules = [ inputs.repoConfig.nixosModule ];    };\n}\n"));
}

#[test]
fn flake_of_an_env() {
    let f = generate_flake("e", "10.0.0.1", "app", &EnvConfig::default(), "{}".to_string(), true, true);
    assert_eq!(f.dir, "/var/lib/vitro/envs/e/flake");
    assert_eq!(f.file, "/var/lib/vitro/envs/e/flake/flake.nix");
    assert!(f.text.contains("serverConfig.url = \"path:/var/lib/vitro/vm-config\";"));
    assert!(f.text.contains("repoConfig.url = \"path:/var/lib/vitro/envs/e/repo/.vitro\";"));
    assert!(f.text.contains("envDir = \"/var/lib/vitro/envs/e\";"));
    assert_eq!(
        f.update,
        texts(&[
            "--extra-experimental-features",
            "nix-command flakes",
            "flake",
            "update",
            "--flake",
            "/var/lib/vitro/envs/e/flake",
        ])
    );
    assert_eq!(server_config_flake(), "/var/lib/vitro/vm-config/flake.nix");
    assert_eq!(repo_config_flake("e"), "/var/lib/vitro/envs/e/repo/.vitro/flake.nix");
}

// privileges and targets

#[test]
fn root_needs_no_sudo() {
    assert!(is_root(Some("root")));
    assert!(!is_root(Some("ada")));
    assert!(!is_root(None));
    assert_eq!(run_privileged(true, texts(&["rm", "x"])), texts(&["rm", "x"]));
    assert_eq!(run_privileged(false, texts(&["rm", "x"])), texts(&["sudo", "rm", "x"]));
}

#[test]
fn targets_come_from_the_runtime_files() {
    let (ip, target) = ssh_target(Some("10.0.0.1\n"), Some("ada\n")).unwrap();
    assert_eq!((ip.as_str(), target.as_str()), ("10.0.0.1", "ada@10.0.0.1"));
    assert_eq!(ssh_target(Some("10.0.0.1"), None).unwrap().1, "10.0.0.1");
    assert_eq!(ssh_target(Some("10.0.0.1"), Some(" \n")).unwrap().1, "10.0.0.1");
    assert_eq!(ssh_target(None, Some("ada")).unwrap_err().message(), "VM not running (no ip file)");
    assert_eq!(is_running("e", true), Some(texts(&["is-active", "microvm@e"])));
    assert_eq!(is_running("e", false), None);
}

#[test]
fn errors_say_what_failed() {
    let start = |step| start_error(step, "e", "x").unwrap().message();
    assert_eq!(start(StartStep::WriteFlake), "failed to update flake inputs for env 'e'");
    assert_eq!(start(StartStep::Build), "failed to build env VM 'e': x");
    assert_eq!(start(StartStep::StartVm), "failed to start VM for env 'e'");
    assert!(start_error(StartStep::Link, "e", "x").is_none());
    let delete = |step| delete_error(step, "e").unwrap().message();
    assert_eq!(
        delete(DeleteStep::RemoveEnvDir),
        "failed to remove env dir at /var/lib/vitro/envs/e"
    );
    assert_eq!(
        delete(DeleteStep::RemoveVmDir),
        "failed to remove microvm dir at /var/lib/microvms/e"
    );
    assert!(delete_error(DeleteStep::ReleaseIp, "e").is_none());
    assert_eq!(VmError::Unreachable.message(), "VM did not become reachable within 60s");
    assert!(acp_ended(true, "0").is_ok());
    assert_eq!(acp_ended(false, "1").unwrap_err().message(), "acp forward exited with 1");
    assert!(shell_ended(true, "0").is_ok());
    assert_eq!(shell_ended(false, "1").unwrap_err().message(), "ssh exited with 1");
    assert_eq!(runner(" /nix/store/r\n"), "/nix/store/r");
}

// starting

fn steps(run: impl Fn(StartStep) -> Outcome) -> (Vec<StartStep>, StartNext) {
    let mut step = StartStep::CreateRuntime;
    let mut seen = vec![step];
    loop {
        match start(step, run(step)) {
            StartNext::Step(next) => {
                step = next;
                seen.push(step);
            }
            end => return (seen, end),
        }
    }
}

#[test]
fn a_start_runs_through() {
    let (seen, end) = steps(|_| Outcome::Success);
    assert_eq!(seen.len(), 16);
    assert!(end == StartNext::Done);
    let (seen, end) = steps(|s| match s {
        StartStep::MakeVmDir | StartStep::DropLink | StartStep::Link => Outcome::Unsuccessful,
        StartStep::RegisterDns => Outcome::Failed,
        _ => Outcome::Success,
    });
    assert_eq!(seen.len(), 16);
    assert!(end == StartNext::Done);
}

#[test]
fn a_failed_build_gives_the_address_back() {
    for bad in [StartStep::Build, StartStep::StartVm] {
        let (seen, end) =
            steps(|s| if s == bad { Outcome::Unsuccessful } else { Outcome::Success });
        assert!(*seen.last().unwrap() == bad);
        assert!(end == StartNext::Fail { release_ip: true });
        let (_, end) = steps(|s| if s == bad { Outcome::Failed } else { Outcome::Success });
        assert!(end == StartNext::Fail { release_ip: false });
    }
    let (seen, end) = steps(|s| {
        if s == StartStep::CreatePersist { Outcome::Failed } else { Outcome::Success }
    });
    assert!(!seen.contains(&StartStep::Build));
    assert!(end == StartNext::Fail { release_ip: false });
    let (_, end) = steps(|s| {
        if s == StartStep::WriteFlake { Outcome::Unsuccessful } else { Outcome::Success }
    });
    assert!(end == StartNext::Fail { release_ip: false });
}

#[test]
fn start_commands() {
    let cmd = |s| start_command(s, "e", "/nix/store/r");
    assert_eq!(
        cmd(StartStep::Build),
        texts(&[
            "nix",
            "--extra-experimental-features",
            "nix-command flakes",
            "build",
            "path:/var/lib/vitro/envs/e/flake#nixosConfigurations.e.config.microvm.declaredRunner",
            "--no-link",
            "--print-out-paths",
        ])
    );
    assert_eq!(cmd(StartStep::MakeVmDir), texts(&["mkdir", "-p", "/var/lib/microvms/e"]));
    assert_eq!(cmd(StartStep::OwnVmDir), texts(&["chown", "microvm:kvm", "/var/lib/microvms/e"]));
    assert_eq!(cmd(StartStep::DropLink), texts(&["rm", "-f", "/var/lib/microvms/e/current"]));
    assert_eq!(
        cmd(StartStep::Link),
        texts(&["ln", "-sf", "/nix/store/r", "/var/lib/microvms/e/current"])
    );
    assert_eq!(
        cmd(StartStep::OwnLink),
        texts(&["chown", "-h", "microvm:kvm", "/var/lib/microvms/e/current"])
    );
    assert_eq!(cmd(StartStep::StartVm), texts(&["systemctl", "start", "microvm@e"]));
    assert!(cmd(StartStep::SaveIp).is_empty());
    assert_eq!(vm_dir("e"), "/var/lib/microvms/e");
}

#[test]
fn persistent_directories_lie_in_the_env() {
    let dir = |p: &str| persist_dir("e", &PersistConfig { path: p.to_string(), purpose: None });
    assert_eq!(dir("/data/x"), "/var/lib/vitro/envs/e/persist/data/x");
    assert_eq!(dir("//data"), "/var/lib/vitro/envs/e/persist/data");
    assert_eq!(dir("data"), "/var/lib/vitro/envs/e/persist/data");
    assert_eq!(dir("/"), "/var/lib/vitro/envs/e/persist/");
}

#[test]
fn guest_users() {
    assert_eq!(guest_user(Some("ada".to_string()), Some("bob")).as_deref(), Some("ada"));
    assert_eq!(guest_user(None, Some("bob")).as_deref(), Some("bob"));
    assert_eq!(guest_user(None, None), None);
    assert_eq!(guest_user(Some(String::new()), Some("bob")), None);
}

// stopping and deleting

fn stop_names(plan: &[StopStep]) -> Vec<String> {
    plan.iter()
        .map(|s| match s {
            StopStep::DeregisterProxy { ip } => format!("proxy {ip}"),
            StopStep::DeregisterDns { repo } => format!("dns {repo}"),
            StopStep::StopVm => "stop".to_string(),
            StopStep::RemoveIpFile => "unmark".to_string(),
        })
        .collect()
}

#[test]
fn a_stop_leaves_the_proxy_and_dns() {
    let full = stop(true, Some("10.0.0.1\n"), Some("app\n"));
    assert_eq!(stop_names(&full), ["proxy 10.0.0.1", "dns app", "stop", "unmark"]);
    assert_eq!(stop_names(&stop(true, None, None)), ["stop", "unmark"]);
    assert_eq!(stop_names(&stop(true, Some(" "), Some("app"))), ["dns app", "stop", "unmark"]);
    assert!(stop(false, Some("10.0.0.1"), Some("app")).is_empty());
    assert_eq!(stop_command("e"), texts(&["systemctl", "stop", "microvm@e"]));
}

fn deletes(run: impl Fn(DeleteStep) -> DeleteEvent) -> (Vec<DeleteStep>, DeleteNext) {
    let mut step = DeleteStep::AskRunning;
    let mut seen = vec![step];
    loop {
        match delete(step, run(step)) {
            DeleteNext::Step(next) => {
                step = next;
                seen.push(step);
            }
            end => return (seen, end),
        }
    }
}

#[test]
fn the_address_goes_after_the_directories() {
    let (seen, end) = deletes(|_| DeleteEvent::Yes);
    assert_eq!(seen.len(), 8);
    assert!(end == DeleteNext::Done);
    let (seen, end) = deletes(|_| DeleteEvent::No);
    assert_eq!(seen.len(), 5);
    assert!(end == DeleteNext::Done);
    for bad in [DeleteStep::RemoveEnvDir, DeleteStep::RemoveVmDir] {
        for e in [DeleteEvent::No, DeleteEvent::Failed] {
            let (seen, end) = deletes(|s| if s == bad { e } else { DeleteEvent::Yes });
            assert!(!seen.contains(&DeleteStep::ReleaseIp));
            assert!(end == DeleteNext::Fail);
        }
    }
    let (_, end) = deletes(|_| DeleteEvent::Failed);
    assert!(end == DeleteNext::Fail);
    let (_, end) = deletes(|s| match s {
        DeleteStep::Stop => DeleteEvent::Failed,
        _ => DeleteEvent::Yes,
    });
    assert!(end == DeleteNext::Fail);
    assert_eq!(remove_command("/x"), texts(&["sudo", "rm", "-rf", "/x"]));
}

// commands

#[test]
fn a_vm_is_awaited_sixty_times() {
    let mut tried = 0;
    let mut probes = 0;
    loop {
        probes += 1;
        match wait_for_vm(tried, false) {
            Wait::Again(next) => tried = next,
            Wait::GiveUp => break,
            Wait::Ready => panic!("nothing answered"),
        }
    }
    assert_eq!(probes, 60);
    assert!(wait_for_vm(59, true) == Wait::Ready);
    assert_eq!(
        probe_args("t", "/app"),
        texts(&[
            "-o",
            "StrictHostKeyChecking=no",
            "-o",
            "UserKnownHostsFile=/dev/null",
            "-o",
            "LogLevel=ERROR",
            "-o",
            "ConnectTimeout=1",
            "t",
            "test -d /app",
        ])
    );
}

#[test]
fn commands_run_in_the_workspace() {
    assert_eq!(workspace(Some("app\n")), "/app");
    assert_eq!(workspace(None), "/env");
    assert_eq!(run_command("/app", "ls"), "sh -c 'cd '\\''/app'\\'' && ls'");
    let args = shell_capture("t", Some("app"), "ls");
    assert_eq!(
        args,
        texts(&[
            "-A",
            "-o",
            "StrictHostKeyChecking=no",
            "-o",
            "UserKnownHostsFile=/dev/null",
            "-o",
            "LogLevel=ERROR",
            "-o",
            "ServerAliveInterval=30",
            "-o",
            "ServerAliveCountMax=3",
            "t",
            "sh -c 'cd '\\''/app'\\'' && ls'",
        ])
    );
    assert_eq!(acp_forward("t", Some("app"), "ls"), args);
    let c = captured(None, "o".to_string(), "e".to_string(), 7);
    assert_eq!((c.exit_code, c.duration_ms), (-1, 7));
    assert_eq!(captured(Some(3), String::new(), String::new(), 0).exit_code, 3);
}

#[test]
fn shells_take_sessions() {
    let one = shell("e", "t", Some("app"), Some("ls"), None);
    assert_eq!(one[0], "-A");
    assert_eq!(one.last().unwrap(), "sh -c 'cd '\\''/app'\\'' && ls'");
    let login = shell("e", "t", Some("app"), None, None);
    assert_eq!(login[0], "-t");
    assert_eq!(
        login.last().unwrap(),
        "mkdir -p '/var/lib/vitro/sessions/e' && dtach -A '/var/lib/vitro/sessions/e/default.sock' \
         -r winch -z sh -c 'cd '\\''/app'\\'' && exec $SHELL -l'"
    );
    let named = shell("e", "t", Some("app"), None, Some("s"));
    assert!(named.last().unwrap().contains("/s.sock"));
    assert!(named.last().unwrap().contains("exec $SHELL -l"));
    let both = shell("e", "t", Some("app"), Some("ls"), Some("s"));
    assert_eq!(both[0], "-t");
    assert!(both.last().unwrap().ends_with(" && ls'"));
}

#[test]
fn synced_files_are_copied_home() {
    assert_eq!(sync_dir("e"), "/var/lib/vitro/envs/e/sync");
    let args = sync_args("e", "t");
    assert_eq!(args[0], "-r");
    assert_eq!(args[7], "/var/lib/vitro/envs/e/sync/.");
    assert_eq!(args[8], "t:~/");
}

// the proxy

#[test]
fn rules_are_registered_as_json() {
    let mut config = EnvConfig::default();
    let body = |c: &EnvConfig| register_proxy_rules("10.0.0.1", "e", c)[6].clone();
    assert_eq!(body(&config), r#"{"envId":"e","envIp":"10.0.0.1"}"#);
    config.egress.writes =
        Some(EnvEgressRules { allowed: Some(texts(&["api.x.com"])), denied: None });
    assert_eq!(
        body(&config),
        r#"{"egress":{"additive":true,"writes":{"allowed":["api.x.com"],"denied":null}},"envId":"e","envIp":"10.0.0.1"}"#
    );
    config.egress.reads = Some(EnvEgressRules { allowed: None, denied: Some(texts(&["y"])) });
    config.egress.credentials.push(CredentialConfig {
        host: "h".to_string(),
        header: "H".to_string(),
        env_var: "V".to_string(),
    });
    assert_eq!(
        body(&config),
        r#"{"egress":{"additive":true,"credentials":[{"envVar":"V","header":"H","host":"h"}],"reads":{"allowed":null,"denied":["y"]},"writes":{"allowed":["api.x.com"],"denied":null}},"envId":"e","envIp":"10.0.0.1"}"#
    );
    let args = register_proxy_rules("10.0.0.1", "e", &config);
    assert_eq!(
        args[..6],
        texts(&["-sf", "-X", "POST", "-H", "Content-Type: application/json", "-d"])[..]
    );
    assert_eq!(args[7], "http://127.0.0.1:8082/envs");
    assert_eq!(
        deregister_proxy_rules("10.0.0.1"),
        texts(&["-sf", "-X", "DELETE", "http://127.0.0.1:8082/envs/10.0.0.1"])
    );
}
