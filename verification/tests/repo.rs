use vitro::cell::{
    cell_dir, cell_flake_dir, cell_repo_dir, list_cells, runtime_candidates, runtime_dir, DirItem,
    PoolExhausted,
};
use vitro::config::{config_path, default_memory, default_vcpu, EnvConfig};
use vitro::env_state;
use vitro::git::{
    ensure_gitignore_entry, init_clone_server, install_chown_hook, server_clone_path, LocalEnv,
    RemoteAdded, Repo,
};
use vitro::json::{parse_json, render_json, Json};
use vitro::remote::{
    cell_path, helper, parse_url, remote_url, resolved_path, service_command, url_argument,
    CellPath, Helper, RemoteError, Target,
};
use vitro::secrets::{
    age_identity_paths, command_content, decrypt, decrypt_after, decrypt_args, decrypt_content,
    decrypt_error, decrypt_to_env, edit, edit_after, editor, editor_ended, encrypt, encrypted, keep_existing, resolve_local,
    secrets_age_path, secrets_env_path, DecryptNext, EditNext, EditStep, Source,
};
use vitro::transport::{
    build_run_cmd, cell_url, push_args, pushed, repo_name, CellFacts, EnsureEvent, EnsureNext, EnsureStep,
    LocalTransport, RemoteTransport, RunCommand, Transport, TransportError,
};
use vitro::vm::Outcome;
use vitro::worktree::{add, detect_context, remove, resolve_cell, tree_path, trees_dir, TreeError};

fn texts(v: &[&str]) -> Vec<String> {
    v.iter().map(|s| s.to_string()).collect()
}

fn repo() -> Repo {
    Repo::from_root("/r/app".to_string())
}

// git

#[test]
fn repos_are_opened_by_what_git_prints() {
    let r = Repo::open("/r/app\n");
    assert_eq!(r.root(), "/r/app");
    assert_eq!(r.current_branch("main\n"), "main");
    assert_eq!(r.rev_parse("HEAD", true, "abc\n").unwrap(), "abc");
    assert_eq!(
        r.rev_parse("HEAD", false, "").unwrap_err().message(),
        "rev-parse failed for HEAD"
    );
    assert_eq!(r.ahead_behind(true, "2\t5\n"), (5, 2));
    assert_eq!(r.ahead_behind(true, "x 5"), (5, 0));
    assert_eq!(r.ahead_behind(true, "5"), (0, 0));
    assert_eq!(r.ahead_behind(false, "2 5"), (0, 0));
    assert_eq!(r.ahead_behind(true, "4294967296 4294967295"), (4294967295, 0));
    assert_eq!(r.push_to_vitro(), texts(&["push", "--force", "vitro", "HEAD:main"]));
}

#[test]
fn a_remote_that_is_there_is_set() {
    let r = repo();
    assert!(matches!(r.add_vitro_remote(true, ""), Ok(RemoteAdded::Done)));
    assert!(matches!(
        r.add_vitro_remote(false, "error: remote vitro already exists."),
        Ok(RemoteAdded::SetUrl)
    ));
    assert_eq!(
        r.add_vitro_remote(false, "no").unwrap_err().message(),
        "failed to add vitro remote: no"
    );
    assert!(r.remote_set(true).is_ok());
    assert_eq!(
        r.remote_set(false).unwrap_err().message(),
        "failed to update vitro remote URL"
    );
    assert!(r.pushed_to_vitro(true).is_ok());
    assert_eq!(
        r.pushed_to_vitro(false).unwrap_err().message(),
        "git push to vitro remote failed"
    );
    assert_eq!(r.add_remote_args("u"), texts(&["remote", "add", "vitro", "u"]));
    assert_eq!(r.set_url_args("u"), texts(&["remote", "set-url", "vitro", "u"]));
    assert_eq!(r.rev_parse_args("HEAD"), texts(&["rev-parse", "--short", "HEAD"]));
    assert_eq!(
        r.ahead_behind_args("feat", "main"),
        texts(&["rev-list", "--left-right", "--count", "main...feat"])
    );
}

#[test]
fn the_first_running_env_has_the_path() {
    let e = |n: &str, running| LocalEnv { name: n.to_string(), running };
    assert_eq!(
        repo().resolve_env_path(&vec![e("a", false), e("b", true), e("c", true)]).unwrap(),
        "/var/lib/vitro/envs/b/repo"
    );
    assert_eq!(
        repo().resolve_env_path(&vec![e("a", false), e("b", false)]).unwrap(),
        "/var/lib/vitro/envs/a/repo"
    );
    assert_eq!(
        repo().resolve_env_path(&vec![]).unwrap_err().message(),
        "no active env — use 'vitro create' first"
    );
}

#[test]
fn clones_are_set_up_once() {
    assert_eq!(server_clone_path("e"), "/var/lib/vitro/envs/e/repo");
    assert!(init_clone_server("e", true).is_none());
    let c = init_clone_server("e", false).unwrap();
    let dir = "/var/lib/vitro/envs/e/repo";
    assert_eq!(c.clone, dir);
    assert_eq!(c.git_calls[0], texts(&["init", "-b", "main", dir]));
    assert_eq!(
        c.git_calls[1],
        texts(&["-C", dir, "config", "receive.denyCurrentBranch", "updateInstead"])
    );
    assert_eq!(c.chown, texts(&["-R", "1000:users", "/var/lib/vitro/envs/e"]));
    assert_eq!(c.hook, install_chown_hook(dir));
    assert_eq!(
        install_chown_hook("/c"),
        "#!/bin/sh\ngit --work-tree=\"/c\" --git-dir=\"/c/.git\" checkout -f HEAD\nchown -R 1000:users \"/c\"\n"
    );
}

#[test]
fn ignore_entries_are_added_once() {
    assert_eq!(ensure_gitignore_entry("", "x/").as_deref(), Some("x/\n"));
    assert_eq!(ensure_gitignore_entry("a\n", "x/").as_deref(), Some("x/\n"));
    assert_eq!(ensure_gitignore_entry("a", "x/").as_deref(), Some("\nx/\n"));
    assert_eq!(ensure_gitignore_entry("a\n  x/ \n", "x/"), None);
    let once = format!("a{}", ensure_gitignore_entry("a", "x/").unwrap());
    assert_eq!(ensure_gitignore_entry(&once, "x/"), None);
}

// worktrees

#[test]
fn contexts_are_detected() {
    assert_eq!(trees_dir("/r/app"), "/r/app/.vitro/trees");
    let tree = tree_path("/r/app", "feat");
    assert_eq!(tree, "/r/app/.vitro/trees/feat");
    let at = |s: &str| detect_context(s);
    assert_eq!(at(&tree), Some(("/r/app".to_string(), "feat".to_string())));
    assert_eq!(at(&format!("{tree}/src/x")), Some(("/r/app".to_string(), "feat".to_string())));
    assert_eq!(at("/r/app/.vitro/trees/"), None);
    assert_eq!(at("/r/app/.vitro/trees"), None);
    assert_eq!(at("/r/app"), None);
}

#[test]
fn cells_are_resolved() {
    let tree = "/r/app/.vitro/trees/feat";
    let c = resolve_cell(None, tree).unwrap();
    assert_eq!((c.repo.unwrap().root(), c.cell.as_str()), ("/r/app", "feat"));
    let c = resolve_cell(Some("x"), tree).unwrap();
    assert_eq!((c.repo.unwrap().root(), c.cell.as_str()), ("/r/app", "x"));
    let c = resolve_cell(Some("x"), "/tmp").unwrap();
    assert!(c.repo.is_none());
    assert_eq!(
        resolve_cell(None, "/tmp").err().unwrap().message(),
        "not in a vitro worktree — specify a branch name or cd into .vitro/trees/<branch>"
    );
}

#[test]
fn trees_are_added_and_removed() {
    let t = add(&repo(), "feat", false).ok().unwrap();
    assert_eq!(t.path, "/r/app/.vitro/trees/feat");
    assert_eq!((t.ignore.as_str(), t.trees.as_str()), (".vitro/trees/", "/r/app/.vitro/trees"));
    let e: TreeError = add(&repo(), "feat", true).err().unwrap();
    assert_eq!(e.message(), "worktree already exists at /r/app/.vitro/trees/feat");
    assert_eq!(remove(&repo(), "feat", true).unwrap(), "/r/app/.vitro/trees/feat");
    assert_eq!(
        remove(&repo(), "feat", false).unwrap_err().message(),
        "no worktree for branch 'feat'"
    );
}

#[test]
fn servers_are_remembered() {
    let b = env_state::set_server("/r/app", "e", "prod");
    assert_eq!(env_state::get_server(Some(&b.text)).as_deref(), Some("prod"));
    let padded = env_state::set_server("/r/app", "e", " prod\t");
    assert_eq!(env_state::get_server(Some(&padded.text)).as_deref(), Some("prod"));
    let blank = env_state::set_server("/r/app", "e", "  ");
    assert_eq!(env_state::get_server(Some(&blank.text)), None);
    assert_eq!(env_state::get_server(Some(" \n")), None);
    assert_eq!(env_state::get_server(None), None);
    assert_eq!(b.file, format!("{}/server", b.dir));
    assert_eq!(b.dir, "/r/app/.vitro/state/e");
    assert_eq!(b.ignore, ".vitro/state/");
    assert_eq!(env_state::clear("/r/app", "e"), b.dir);
    let c = vitro::cell_state::set_server("/r/app", "e", "prod");
    assert_eq!(c.file, b.file);
}

#[test]
fn cells_have_their_places() {
    assert_eq!(cell_dir("c"), "/var/lib/vitro/cells/c");
    assert_eq!(cell_repo_dir("c"), "/var/lib/vitro/cells/c/repo");
    assert_eq!(cell_flake_dir("c"), "/var/lib/vitro/cells/c/flake");
    let item = |n: Option<&str>, is_dir| DirItem { name: n.map(str::to_string), is_dir };
    let items = vec![item(Some("b"), true), item(Some("f"), false), item(None, true), item(Some("a"), true)];
    assert_eq!(list_cells(&items), texts(&["a", "b"]));
    let (first, second) = runtime_candidates(Some("/run/user/1"), "c");
    assert_eq!(runtime_dir(Some("/run/user/1"), "c", true, true), first);
    assert_eq!(runtime_dir(Some("/run/user/1"), "c", false, true), second);
    assert_eq!(runtime_dir(Some("/run/user/1"), "c", false, false), first);
    assert_eq!(PoolExhausted.message(), "IP pool exhausted (244 cells max)");
}

#[test]
fn configurations_have_defaults() {
    let c = EnvConfig::default();
    assert_eq!((c.memory.as_str(), c.vcpu), ("2G", 2));
    assert!(c.ports.is_empty() && c.server.is_none() && c.session.is_none());
    assert!(c.persist.is_empty() && c.secrets.keys.is_empty() && c.egress.credentials.is_empty());
    assert_eq!((default_memory(), default_vcpu()), ("2G".to_string(), 2));
    assert_eq!(config_path("/r"), "/r/.vitro/config.toml");
}

// JSON

#[test]
fn json_reads_back() {
    for t in ["null", "true", "[1,-2,\"x\"]", "{\"a\":{},\"b\":[[]]}", "18446744073709551615"] {
        assert_eq!(render_json(&parse_json(t).unwrap()), t);
    }
    assert_eq!(render_json(&parse_json("{\"b\":1,\"a\":\"\\u0041\"}").unwrap()), "{\"a\":\"A\",\"b\":1}");
    assert!(parse_json("{").is_none());
    assert!(matches!(parse_json("2.50").unwrap(), Json::Number(n) if n == "2.5"));
}

// the remote helper

#[test]
fn urls_are_read() {
    let read = |u: &str| match parse_url(u) {
        (Target::Local, c) => ("local".to_string(), c),
        (Target::Remote(h), c) => (h, c),
    };
    for u in ["vitro://localhost", "vitro://local", "vitro://", "localhost", ""] {
        assert_eq!(read(u), ("local".to_string(), None));
    }
    assert_eq!(read("vitro://u@h"), ("u@h".to_string(), None));
    assert_eq!(read(&remote_url("u@h", "a/b")), ("u@h".to_string(), Some("a/b".to_string())));
    assert_eq!(remote_url("u@h", "c"), "vitro://u@h/c");
    assert_eq!(url_argument(&texts(&["p", "origin", "vitro://x"])), "vitro://x");
    assert_eq!(url_argument(&texts(&["p"])), "vitro://localhost");
}

#[test]
fn cell_paths_are_known_or_asked_for() {
    let remote = Target::Remote("u@h".to_string());
    assert!(matches!(cell_path(&Target::Local, &None, ""), CellPath::Local));
    match cell_path(&remote, &Some("c".to_string()), "") {
        CellPath::Known(p) => assert_eq!(p, "/var/lib/vitro/cells/c/repo"),
        _ => panic!("known"),
    }
    match cell_path(&remote, &None, "app") {
        CellPath::Ask(a) => {
            assert_eq!(a, texts(&["u@h", "vitro", "util", "resolve-env", "--repo", "app"]))
        }
        _ => panic!("asked"),
    }
    match cell_path(&remote, &None, "") {
        CellPath::Ask(a) => assert_eq!(a, texts(&["u@h", "vitro", "util", "resolve-env"])),
        _ => panic!("asked"),
    }
    assert_eq!(resolved_path(true, "/p\n", "").unwrap(), "/p");
    assert_eq!(
        resolved_path(false, "", "x").unwrap_err().message(),
        "remote cell resolution failed: x"
    );
    assert_eq!(
        service_command(&remote, "git-upload-pack", "/p"),
        texts(&["ssh", "u@h", "git-upload-pack", "/p"])
    );
    assert_eq!(
        service_command(&Target::Local, "git-upload-pack", "/p"),
        texts(&["git-upload-pack", "/p"])
    );
}

#[test]
fn the_helper_connects() {
    assert!(matches!(helper(" \n"), Helper::Skip));
    assert!(matches!(helper("capabilities\n"), Helper::Say(t) if t == "connect\n\n"));
    assert!(matches!(
        helper("connect git-upload-pack\n"),
        Helper::Connect { say, service } if say == "\n" && service == "git-upload-pack"
    ));
    match helper("fetch x") {
        Helper::Unexpected(e) => assert_eq!(e.message(), "unexpected command: fetch x"),
        _ => panic!("unexpected"),
    }
    assert_eq!(
        RemoteError::Exec { service: "s".to_string(), error: "e".to_string() }.message(),
        "failed to exec s: e"
    );
}

// secrets

#[test]
fn identities_in_order() {
    let all = age_identity_paths(Some("/home/a"), Some("/sops"), Some("/age"));
    assert_eq!(
        all,
        texts(&[
            "/age",
            "/sops",
            "/home/a/.config/sops/age/keys.txt",
            "/home/a/.config/age/keys.txt",
            "/home/a/.ssh/id_ed25519",
            "/home/a/.ssh/id_rsa",
            "/var/lib/vitro/ssh/id_ed25519",
        ])
    );
    let bare = age_identity_paths(None, None, None);
    assert_eq!(bare.len(), 5);
    assert_eq!(bare[0], "/root/.config/sops/age/keys.txt");
    assert_eq!(
        keep_existing(&bare, &vec![false, true, false, false, true]),
        texts(&["/root/.config/age/keys.txt", "/var/lib/vitro/ssh/id_ed25519"])
    );
}

#[test]
fn identities_are_tried_in_turn() {
    assert!(decrypt(0) == DecryptNext::NoIdentity);
    assert!(decrypt(2) == DecryptNext::Try(0));
    assert!(decrypt_after(0, 2, false) == DecryptNext::Try(1));
    assert!(decrypt_after(1, 2, false) == DecryptNext::NoMatch);
    assert!(decrypt_after(0, 2, true) == DecryptNext::Done);
    assert_eq!(decrypt_args("/k", "/f"), texts(&["-d", "-i", "/k", "/f"]));
    assert_eq!(
        decrypt_error(decrypt(0)).unwrap().message(),
        "no SSH keys found for decryption"
    );
    assert_eq!(
        decrypt_error(decrypt_after(0, 1, false)).unwrap().message(),
        "age decryption failed — no key matched any recipient"
    );
    assert!(decrypt_error(DecryptNext::Done).is_none());
    assert!(decrypt_error(DecryptNext::Try(0)).is_none());
}

#[test]
fn secrets_have_a_source() {
    match decrypt_content("/r", Some("pass show x"), true) {
        Source::Command(a) => assert_eq!(a, texts(&["-c", "pass show x"])),
        _ => panic!("command"),
    }
    match decrypt_content("/r", None, true) {
        Source::AgeFile(p) => assert_eq!(p, "/r/.vitro/secrets.age"),
        _ => panic!("file"),
    }
    assert!(matches!(decrypt_content("/r", None, false), Source::Nothing));
    assert_eq!(command_content(true, "S".to_string(), "").unwrap(), "S");
    assert_eq!(
        command_content(false, String::new(), "no").unwrap_err().message(),
        "secrets command failed: no"
    );
    let f = resolve_local(Some("S".to_string())).unwrap();
    assert_eq!((f.path.as_str(), f.content.as_str(), f.mode), ("/var/lib/vitro/secrets.env", "S", 0o600));
    assert!(resolve_local(None).is_none());
}

#[test]
fn secrets_are_encrypted_for_all_keys() {
    assert_eq!(secrets_age_path("/r"), "/r/.vitro/secrets.age");
    assert_eq!(secrets_env_path("/r"), "/r/.vitro/secrets.env");
    assert_eq!(
        encrypt("/r", &texts(&["k1", "k2"]), true).unwrap(),
        texts(&["-r", "k1", "-r", "k2", "-o", "/r/.vitro/secrets.age", "/r/.vitro/secrets.env"])
    );
    assert_eq!(
        encrypt("/r", &vec![], true).unwrap_err().message(),
        "no keys configured — add secrets.keys in .vitro/config.toml"
    );
    assert_eq!(
        encrypt("/r", &texts(&["k"]), false).unwrap_err().message(),
        ".vitro/secrets.env not found — create it first"
    );
    assert!(encrypted(true, "").is_ok());
    assert_eq!(encrypted(false, "x").unwrap_err().message(), "age encryption failed: x");
    assert_eq!(decrypt_to_env("/r", true).unwrap().1, "/r/.vitro/secrets.env");
    assert_eq!(
        decrypt_to_env("/r", false).unwrap_err().message(),
        ".vitro/secrets.age not found"
    );
}

#[test]
fn edits_keep_the_plaintext_until_it_is_encrypted() {
    assert!(edit(&vec![], true).is_err());
    let first = edit(&texts(&["k"]), false).unwrap();
    assert!(first == EditStep::WritePlaintext);
    let mut step = edit(&texts(&["k"]), true).unwrap();
    assert!(step == EditStep::Decrypt);
    let mut seen = 1;
    while let EditNext::Step(next) = edit_after(step, Outcome::Success) {
        step = next;
        seen += 1;
    }
    assert_eq!(seen, 5);
    assert!(step == EditStep::RemovePlaintext);
    for bad in [EditStep::Decrypt, EditStep::WritePlaintext, EditStep::OpenEditor, EditStep::Encrypt] {
        assert!(edit_after(bad, Outcome::Failed) == EditNext::Fail);
        assert!(edit_after(bad, Outcome::Unsuccessful) == EditNext::Fail);
    }
    assert!(edit_after(EditStep::RemovePlaintext, Outcome::Failed) == EditNext::Done);
    assert_eq!((editor(Some("nano")), editor(None)), ("nano".to_string(), "vi".to_string()));
    assert!(editor_ended(true, "0").is_ok());
    assert_eq!(editor_ended(false, "1").unwrap_err().message(), "editor exited with 1");
}

// transports

fn remote() -> RemoteTransport {
    RemoteTransport { client: vitro::client::Client::connect("u@h").unwrap().0 }
}

fn facts() -> CellFacts {
    CellFacts {
        unit_active: true,
        target: "t".to_string(),
        repo_file: Some("app".to_string()),
        envs: vec![vitro::client::EnvStatus {
            name: "c".to_string(),
            status: "running".to_string(),
            ip: None,
            repo: None,
        }],
        vm_ip: None,
    }
}

fn ensure<T: Transport>(t: &T, go: impl Fn(EnsureStep) -> EnsureEvent) -> (Vec<EnsureStep>, EnsureNext) {
    let mut state = t.begin();
    let mut seen = vec![state.step];
    loop {
        match t.ensure_running(state, go(state.step)) {
            EnsureNext::Go(next) => {
                state = next;
                seen.push(state.step);
            }
            end => return (seen, end),
        }
    }
}

#[test]
fn remote_cells_are_pushed_before_they_start() {
    let cold = |s| if s == EnsureStep::AskRunning { EnsureEvent::No } else { EnsureEvent::Yes };
    let (seen, end) = ensure(&remote(), cold);
    assert!(seen == vec![EnsureStep::AskBranch, EnsureStep::AskRunning, EnsureStep::Secrets, EnsureStep::Prepare, EnsureStep::AddRemote, EnsureStep::Push, EnsureStep::Up, EnsureStep::Sync]);
    assert!(end == EnsureNext::Done);
    let (seen, end) = ensure(&remote(), |_| EnsureEvent::Yes);
    assert!(*seen.last().unwrap() == EnsureStep::Push);
    assert!(end == EnsureNext::Done);
    let stale = |s| match s {
        EnsureStep::AskRunning | EnsureStep::Push => EnsureEvent::No,
        _ => EnsureEvent::Yes,
    };
    let (seen, end) = ensure(&remote(), stale);
    assert!(!seen.contains(&EnsureStep::Up));
    assert!(end == EnsureNext::Fail);
    let (_, end) = ensure(&remote(), |s| if s == EnsureStep::AskBranch { EnsureEvent::No } else { EnsureEvent::Yes });
    assert!(end == EnsureNext::NoBranch);
    let ignored = |s| match s {
        EnsureStep::AddRemote => EnsureEvent::Failed,
        _ => EnsureEvent::Yes,
    };
    assert!(ensure(&remote(), ignored).1 == EnsureNext::Done);
}

#[test]
fn local_cells_start_once() {
    let (seen, end) = ensure(&LocalTransport, |_| EnsureEvent::Yes);
    assert!(seen == vec![EnsureStep::AskRunning] && end == EnsureNext::Done);
    let cold = |s| if s == EnsureStep::AskRunning { EnsureEvent::No } else { EnsureEvent::Yes };
    let (seen, end) = ensure(&LocalTransport, cold);
    assert!(seen == vec![EnsureStep::AskRunning, EnsureStep::AskBranch, EnsureStep::Secrets, EnsureStep::Clone, EnsureStep::Start]);
    assert!(end == EnsureNext::Done);
    let (_, end) = ensure(&LocalTransport, |_| EnsureEvent::No);
    assert!(end == EnsureNext::NoBranch);
    let (_, end) = ensure(&LocalTransport, |_| EnsureEvent::Failed);
    assert!(end == EnsureNext::Fail);
    for bad in [EnsureStep::Secrets, EnsureStep::Clone, EnsureStep::Start] {
        let go = |s| match s {
            EnsureStep::AskRunning => EnsureEvent::No,
            _ if s == bad => EnsureEvent::Failed,
            _ => EnsureEvent::Yes,
        };
        assert!(ensure(&LocalTransport, go).1 == EnsureNext::Fail);
    }
}

#[test]
fn transports_reach_cells() {
    let f = facts();
    assert!(LocalTransport.is_running("x", &f));
    assert!(remote().is_running("c", &f));
    assert!(!remote().is_running("x", &f));
    assert_eq!(LocalTransport.shell_capture("c", "ls", &f)[11], "t");
    assert_eq!(
        LocalTransport.acp_forward("c", "ls", &f),
        LocalTransport.shell_capture("c", "ls", &f)
    );
    assert_eq!(LocalTransport.shell("c", None, None, &f)[0], "-t");
    assert_eq!(remote().shell_capture("c", "ls", &f)[10], "vitro shell --server c -c 'ls'");
    assert_eq!(
        remote().acp_forward("c", "ls", &f),
        remote().shell_capture("c", "ls", &f)
    );
    assert_eq!(remote().shell("c", None, None, &f)[11], "vitro shell --server c");
    assert_eq!(cell_url(&remote(), "c"), "vitro://u@h/c");
    assert_eq!(push_args("c"), texts(&["push", "vitro", "c"]));
    assert_eq!(repo_name("/r/app"), "app");
    assert_eq!(repo_name("/"), "unknown");
}

#[test]
fn scripts_run_with_an_environment() {
    let env = vec![
        ("A".to_string(), "x y".to_string()),
        ("B".to_string(), "it's".to_string()),
    ];
    let line = "chmod +x '/s' && A='x y' B='it'\\''s' '/s'";
    match build_run_cmd("/s", &env, true) {
        RunCommand::Attached { inner } => assert_eq!(inner, line),
        RunCommand::Detached { .. } => panic!("attached"),
    }
    match LocalTransport.run_start("/s", &env, false) {
        RunCommand::Detached { inner, log } => {
            assert_eq!((inner.as_str(), log), (line, "/tmp/vitro/run.log"))
        }
        RunCommand::Attached { .. } => panic!("detached"),
    }
    assert_eq!(
        remote().run_logs(true),
        "tail -f /tmp/vitro/run.log 2>/dev/null || echo 'no run log yet'"
    );
    assert_eq!(
        LocalTransport.run_logs(false),
        "tail -100 /tmp/vitro/run.log 2>/dev/null || echo 'no run log yet'"
    );
}

#[test]
fn transport_errors() {
    assert_eq!(
        TransportError::NoBranch { cell: "c".to_string() }.message(),
        "branch 'c' does not exist — use 'vitro create c' first"
    );
    assert!(pushed("c", true, "").is_ok());
    assert_eq!(
        pushed("c", false, " no\n").unwrap_err().message(),
        "git push vitro c failed — cell would run with stale code.\nstderr: no"
    );
}
