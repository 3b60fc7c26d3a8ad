use vitro::cli::{
    age_text, captured_json, collect_env_rows, connect_remote, duration_fits, env_label,
    find_env_server, found_server, gc_action, gc_summary, gc_threshold, git_state, init_files,
    interpret, list_text, list_to_json, local_status, may_read_log, may_send, pad, parse_duration,
    remote_status, remove_steps, resolve_env, server_column, shell_plan, status_to_json,
    stop_choice, tail_args, CliError, Defaults, EnvRow, Find, FindError, GcAction, Known, LocalFacts,
    RemoveStep, ServerEnvs, ShellPlan, ShellRequest, StopChoice,
};
use vitro::client::EnvStatus;
use vitro::json::{render_json, Json};
use vitro::server::{registry_of, ActiveServer, ServerEntry};
use vitro::vm::CapturedShell;

fn row(name: &str, status: &str, server: &str) -> EnvRow {
    EnvRow {
        name: name.to_string(),
        status: status.to_string(),
        server: server.to_string(),
        repo: Some("vitro".to_string()),
        ip: Some("192.168.83.42".to_string()),
    }
}

fn items(j: &Json) -> &Vec<Json> {
    match j {
        Json::Array(v) => v,
        _ => panic!("not an array"),
    }
}

#[test]
fn list_json_shape() {
    let rows = vec![row("feat-x", "running", "prod")];
    let v = list_to_json(&rows);
    let envs = items(v.get("envs").unwrap());
    assert_eq!(envs.len(), 1);
    let e = &envs[0];
    for k in &["name", "server", "status", "ip", "repo", "started_at"] {
        assert!(e.get(k).is_some(), "list JSON missing key: {k}");
    }
    assert_eq!(e.get("name").unwrap().as_text(), Some("feat-x"));
    assert_eq!(e.get("server").unwrap().as_text(), Some("prod"));
    assert_eq!(e.get("status").unwrap().as_text(), Some("running"));
}

#[test]
fn list_json_empty_emits_empty_array() {
    let v = list_to_json(&vec![]);
    assert_eq!(items(v.get("envs").unwrap()).len(), 0);
}

#[test]
fn list_json_unknown_fields_are_null() {
    let mut r = row("feat-x", "running", "prod");
    r.ip = None;
    let v = list_to_json(&vec![r]);
    let e = &items(v.get("envs").unwrap())[0];
    assert!(matches!(e.get("ip").unwrap(), Json::Null));
    assert!(matches!(e.get("started_at").unwrap(), Json::Null));
}

#[test]
fn parse_duration_bare_number_is_seconds() {
    assert_eq!(parse_duration("42"), Some(42));
}

#[test]
fn parse_duration_seconds_suffix() {
    assert_eq!(parse_duration("30s"), Some(30));
}

#[test]
fn parse_duration_minutes() {
    assert_eq!(parse_duration("5m"), Some(300));
}

#[test]
fn parse_duration_hours() {
    assert_eq!(parse_duration("2h"), Some(7200));
}

#[test]
fn parse_duration_days() {
    assert_eq!(parse_duration("7d"), Some(604_800));
}

#[test]
fn parse_duration_zero() {
    assert_eq!(parse_duration("0d"), Some(0));
}

#[test]
fn parse_duration_unknown_suffix_rejected() {
    assert_eq!(parse_duration("5y"), None);
    assert_eq!(parse_duration("5w"), None);
}

#[test]
fn parse_duration_garbage_rejected() {
    assert_eq!(parse_duration(""), None);
    assert_eq!(parse_duration("abc"), None);
    assert_eq!(parse_duration("5.5h"), None);
    assert_eq!(parse_duration("h"), None);
}

#[test]
fn durations_that_cannot_be_counted() {
    assert!(duration_fits("7d"));
    assert!(duration_fits("abc"));
    assert!(duration_fits("213503982334601d"));
    assert!(!duration_fits("213503982334602d"));
    assert!(duration_fits("18446744073709551615"));
    assert!(duration_fits("18446744073709551616"));
    assert_eq!(parse_duration("18446744073709551616"), None);
    assert_eq!(parse_duration("+3m"), Some(180));
}

#[test]
fn list_text_is_json() {
    assert_eq!(
        list_text(&vec![row("a", "stopped", "localhost")]),
        r#"{"envs":[{"ip":"192.168.83.42","name":"a","repo":"vitro","server":"localhost","started_at":null,"status":"stopped"}]}"#
    );
}

// finding a server

fn status(name: &str) -> EnvStatus {
    EnvStatus {
        name: name.to_string(),
        status: "stopped".to_string(),
        ip: Some("10.0.0.9".to_string()),
        repo: None,
    }
}

fn known() -> Known {
    Known { bound: None, local: vec![], servers: None, answers: vec![], defaults: None }
}

fn say(f: Find) -> String {
    match f {
        Find::Named(n) => format!("named {n}"),
        Find::Localhost => "localhost".to_string(),
        Find::Remote { name } => format!("remote {name}"),
        Find::NeedServers => "servers?".to_string(),
        Find::Ask(i) => format!("ask {i}"),
        Find::NeedDefaults => "defaults?".to_string(),
        Find::Nowhere => "nowhere".to_string(),
    }
}

#[test]
fn a_server_is_found_in_order() {
    let mut k = known();
    assert_eq!(say(find_env_server("e", &k)), "servers?");
    k.servers = Some(vec!["a".to_string(), "b".to_string()]);
    assert_eq!(say(find_env_server("e", &k)), "ask 0");
    k.answers.push(None);
    assert_eq!(say(find_env_server("e", &k)), "ask 1");
    k.answers.push(Some(vec![status("x")]));
    assert_eq!(say(find_env_server("e", &k)), "defaults?");
    assert_eq!(say(find_env_server("x", &k)), "remote b");
    k.defaults = Some(Defaults { repo: None, client: None });
    assert_eq!(say(find_env_server("e", &k)), "nowhere");
    k.defaults = Some(Defaults { repo: None, client: Some("c".to_string()) });
    assert_eq!(say(find_env_server("e", &k)), "named c");
    k.defaults = Some(Defaults { repo: Some("r".to_string()), client: Some("c".to_string()) });
    assert_eq!(say(find_env_server("e", &k)), "named r");
    k.local.push("e".to_string());
    assert_eq!(say(find_env_server("e", &k)), "localhost");
    assert_eq!(say(find_env_server("x", &k)), "remote b");
    k.bound = Some("s".to_string());
    assert_eq!(say(find_env_server("e", &k)), "named s");
}

#[test]
fn the_first_server_that_lists_an_env_has_it() {
    let mut k = known();
    k.servers = Some(vec!["a".to_string(), "b".to_string(), "c".to_string()]);
    k.answers = vec![Some(vec![]), Some(vec![status("e")]), Some(vec![status("e")])];
    assert_eq!(say(find_env_server("e", &k)), "remote b");
}

#[test]
fn found_names_have_to_be_known() {
    let reg = registry_of(vec![(
        "prod".to_string(),
        ServerEntry { target: "u@h".to_string() },
    )]);
    let ok = |f: Find| found_server("e", &f, &reg).unwrap();
    assert!(matches!(ok(Find::Named("localhost".to_string())), ActiveServer::Localhost));
    assert!(matches!(ok(Find::Localhost), ActiveServer::Localhost));
    match ok(Find::Named("prod".to_string())) {
        ActiveServer::Remote { name } => assert_eq!(name, "prod"),
        ActiveServer::Localhost => panic!("not here"),
    }
    match ok(Find::Remote { name: "x".to_string() }) {
        ActiveServer::Remote { name } => assert_eq!(name, "x"),
        ActiveServer::Localhost => panic!("not here"),
    }
    let unknown = found_server("e", &Find::Named("no".to_string()), &reg).unwrap_err();
    assert!(matches!(unknown, FindError::Server(_)));
    assert_eq!(
        unknown.message(),
        "server 'no' not in registry.\n  NixOS:  set vitro.client.servers.no = \"<ssh-target>\";\n  else:   add to ~/.config/vitro/servers.toml as [no] target = \"<ssh-target>\""
    );
    let nowhere = found_server("e", &Find::Nowhere, &reg).unwrap_err();
    assert_eq!(
        nowhere.message(),
        "no server bound for env 'e' — pass --server, set [server] in .vitro/config.toml, or recreate with `vitro create e --server <name>`"
    );
    assert_eq!(connect_remote(Some("u@h".to_string())).unwrap(), "u@h");
    assert_eq!(connect_remote(None).unwrap_err().message(), "server has no target");
}

// lifecycle

#[test]
fn init_writes_a_first_configuration() {
    let (dir, file, content) = init_files("/r", false);
    assert_eq!((dir.as_str(), file.as_str()), ("/r/.vitro", "/r/.vitro/config.toml"));
    assert_eq!(content, Some("memory = \"2G\"\nvcpu = 2\n"));
    assert_eq!(init_files("/r", true).2, None);
}

#[test]
fn removing_and_stopping() {
    let here = ActiveServer::Localhost;
    let there = ActiveServer::Remote { name: "s".to_string() };
    assert!(remove_steps(None, true) == vec![RemoveStep::ForgetServer]);
    assert!(
        remove_steps(Some(&there), true) == vec![RemoveStep::DeleteRemote, RemoveStep::ForgetServer]
    );
    assert!(
        remove_steps(Some(&here), true)
            == vec![RemoveStep::Stop, RemoveStep::Delete, RemoveStep::ForgetServer]
    );
    assert!(
        remove_steps(Some(&here), false) == vec![RemoveStep::Delete, RemoveStep::ForgetServer]
    );
    assert!(stop_choice(&there, false) == StopChoice::Down);
    assert!(stop_choice(&here, true) == StopChoice::StopVm);
    assert!(stop_choice(&here, false) == StopChoice::NotRunning);
}

#[test]
fn columns_are_padded() {
    assert_eq!(pad("ab", 4), "ab  ");
    assert_eq!(pad("abcd", 4), "abcd");
    assert_eq!(pad("äbcde", 4), "äbcde");
    assert_eq!(server_column("prod"), "  prod                 ");
}

#[test]
fn stale_envs() {
    let real = |running, last, now, t| gc_action(false, running, last, now, t);
    assert_eq!(real(false, 99, 700, 600), GcAction::Delete(601));
    assert_eq!(real(false, 100, 700, 600), GcAction::Keep);
    assert_eq!(real(false, 101, 700, 600), GcAction::Keep);
    assert_eq!(real(true, 100, 7000, 600), GcAction::Keep);
    assert_eq!(real(false, 0, 7000, 600), GcAction::Keep);
    assert_eq!(real(false, 699, 700, 0), GcAction::Delete(1));
    assert_eq!(real(false, 700, 700, 0), GcAction::Keep);
    assert_eq!(real(false, 800, 700, 0), GcAction::Keep);
    assert_eq!(gc_action(true, false, 99, 700, 600), GcAction::WouldDelete(601));
    assert_eq!(gc_action(true, false, 100, 700, 600), GcAction::Keep);
    assert_eq!(gc_action(true, true, 99, 700, 600), GcAction::Keep);
    assert_eq!(age_text(86400 * 3 + 5), "3d");
    assert_eq!(age_text(86399), "23h");
    assert_eq!(age_text(3599), "59m");
    assert_eq!(age_text(59), "0m");
    assert_eq!(gc_summary(true, 4), "dry run — no envs deleted");
    assert_eq!(gc_summary(false, 0), "no stale envs to clean up");
    assert_eq!(gc_summary(false, 1), "cleaned up 1 env");
    assert_eq!(gc_summary(false, 2), "cleaned up 2 envs");
    assert_eq!(gc_threshold("7d").unwrap(), 604_800);
    assert_eq!(
        gc_threshold("x").unwrap_err().message(),
        "invalid duration 'x' — use e.g. 7d, 24h, 1h"
    );
}

fn facts(name: &str, running: bool, repo: Option<&str>, ip: Option<&str>) -> LocalFacts {
    LocalFacts {
        name: name.to_string(),
        running,
        repo_file: repo.map(str::to_string),
        ip_file: ip.map(str::to_string),
    }
}

#[test]
fn the_first_running_env_is_resolved() {
    let envs = vec![
        facts("a", false, Some("app"), None),
        facts("b", true, None, None),
        facts("c", true, Some("app\n"), None),
    ];
    assert_eq!(resolve_env(&envs, None).as_deref(), Some("/var/lib/vitro/envs/b/repo"));
    assert_eq!(resolve_env(&envs, Some("app")).as_deref(), Some("/var/lib/vitro/envs/c/repo"));
    assert_eq!(resolve_env(&envs, Some("")).as_deref(), Some("/var/lib/vitro/envs/b/repo"));
    assert_eq!(resolve_env(&envs, Some("x")), None);
    assert_eq!(resolve_env(&vec![], None), None);
}

fn request() -> ShellRequest {
    ShellRequest {
        list_sessions: false,
        kill_session: None,
        json: false,
        command: None,
        session: None,
    }
}

#[test]
fn shells_are_planned() {
    let name = |r: &ShellRequest| match shell_plan(r) {
        ShellPlan::ListSessions => "list".to_string(),
        ShellPlan::KillSession(n) => format!("kill {n}"),
        ShellPlan::Capture(c) => format!("capture {c}"),
        ShellPlan::NeedsCommand => "needs".to_string(),
        ShellPlan::Enter { announce } => format!("enter {announce}"),
    };
    let mut r = request();
    assert_eq!(name(&r), "enter true");
    r.session = Some("s".to_string());
    assert_eq!(name(&r), "enter false");
    r.json = true;
    assert_eq!(name(&r), "needs");
    r.command = Some("ls".to_string());
    assert_eq!(name(&r), "capture ls");
    r.kill_session = Some("k".to_string());
    assert_eq!(name(&r), "kill k");
    r.list_sessions = true;
    assert_eq!(name(&r), "list");
    assert_eq!(CliError::NeedsCommand.message(), "--json requires -c <command>");
}

#[test]
fn captured_output_is_json() {
    let c = CapturedShell {
        exit_code: -1,
        stdout: "a\n".to_string(),
        stderr: "\"".to_string(),
        duration_ms: 12,
    };
    assert_eq!(
        captured_json(&c),
        r#"{"duration_ms":12,"exit_code":-1,"stderr":"\"","stdout":"a\n"}"#
    );
}

// lists

#[test]
fn rows_of_all_envs() {
    let rows = collect_env_rows(
        &vec![
            facts("a", true, Some("app\n"), Some("10.0.0.1\n")),
            facts("b", false, None, Some("10.0.0.2")),
            facts("c", true, None, Some(" ")),
        ],
        &vec![
            ServerEnvs { name: "down".to_string(), envs: None },
            ServerEnvs { name: "prod".to_string(), envs: Some(vec![status("x"), status("y")]) },
        ],
    );
    let say: Vec<String> = rows
        .iter()
        .map(|r| format!("{} {} {} {:?} {:?}", r.name, r.status, r.server, r.repo, r.ip))
        .collect();
    assert_eq!(
        say,
        [
            "a running localhost Some(\"app\") Some(\"10.0.0.1\")",
            "b stopped localhost None None",
            "c running localhost None None",
            "x stopped prod None Some(\"10.0.0.9\")",
            "y stopped prod None Some(\"10.0.0.9\")",
        ]
    );
}

#[test]
fn labels_leave_out_the_current_repo() {
    let mut r = row("e", "running", "s");
    assert_eq!(env_label(&r, Some("vitro")), "e");
    assert_eq!(env_label(&r, Some("app")), "vitro/e");
    assert_eq!(env_label(&r, None), "vitro/e");
    r.repo = None;
    assert_eq!(env_label(&r, Some("vitro")), "e");
}

#[test]
fn statuses() {
    assert_eq!(
        status_to_json("e", "running", &Some("10.0.0.1".to_string()), &None),
        r#"{"git":{"head":null},"ip":"10.0.0.1","name":"e","process":{"pid":null,"running":true,"started_at":null},"status":"running"}"#
    );
    assert_eq!(
        status_to_json("e", "stopped", &None, &Some("abc".to_string())),
        r#"{"git":{"head":"abc"},"ip":null,"name":"e","process":{"pid":null,"running":false,"started_at":null},"status":"stopped"}"#
    );
    assert_eq!(render_json(&git_state(&Some("abc".to_string()))), r#"{"head":"abc"}"#);
    assert_eq!(
        local_status(true, Some("10.0.0.1\n")),
        ("running".to_string(), Some("10.0.0.1".to_string()))
    );
    assert_eq!(local_status(true, Some("\n")).1, None);
    assert_eq!(local_status(false, Some("10.0.0.1")), ("stopped".to_string(), None));
    let envs = vec![status("x")];
    assert_eq!(remote_status(&envs, "x").unwrap().1.as_deref(), Some("10.0.0.9"));
    assert_eq!(remote_status(&envs, "y").unwrap_err().message(), "env 'y' not found");
}

// sessions

#[test]
fn sessions_are_for_this_machine() {
    let here = ActiveServer::Localhost;
    let there = ActiveServer::Remote { name: "s".to_string() };
    assert!(may_send(&here).is_ok());
    assert!(may_read_log(&here).is_ok());
    assert_eq!(
        may_send(&there).unwrap_err().message(),
        "session send on remote envs not yet supported — shell in and use dtach directly"
    );
    assert_eq!(
        may_read_log(&there).unwrap_err().message(),
        "session log on remote envs not yet supported"
    );
    assert_eq!(interpret("a\\nb\\rc\\"), "a\nb\rc\\");
    assert_eq!(interpret("\\\\n"), "\\\n");
    assert_eq!(tail_args("/l", true), vec!["-f".to_string(), "/l".to_string()]);
    assert_eq!(tail_args("/l", false), vec!["/l".to_string()]);
}
