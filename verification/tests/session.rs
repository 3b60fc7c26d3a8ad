use vitro::session::{
    dtach_attach, kill, list, log_path_host, send, socket_dir, socket_path,
};

#[test]
fn socket_path_format() {
    let p = socket_path("my-env", "default");
    assert_eq!(p, "/var/lib/vitro/sessions/my-env/default.sock");
}

#[test]
fn dtach_attach_includes_flags() {
    let s = dtach_attach("c", "s", "echo hi");
    assert!(s.contains("dtach -A"));
    assert!(s.contains("-r winch"));
    assert!(s.contains("-z"));
    assert!(s.contains("s.sock"));
}

#[test]
fn dtach_escapes_inner_quotes() {
    let s = dtach_attach("c", "s", "echo 'hi'");
    assert!(s.contains("echo '\\''hi'\\'''"));
}

#[test]
fn attach_is_mkdir_and_dtach() {
    assert_eq!(
        dtach_attach("c", "s", "x y"),
        "mkdir -p '/var/lib/vitro/sessions/c' && dtach -A \
         '/var/lib/vitro/sessions/c/s.sock' -r winch -z sh -c 'x y'"
    );
}

#[test]
fn sockets_are_listed_by_name() {
    let files: Vec<String> = ["b.sock", "notes.txt", "a.sock", ".sock"]
        .iter()
        .map(|s| s.to_string())
        .collect();
    assert_eq!(list(&files), vec!["".to_string(), "a".to_string(), "b".to_string()]);
    assert_eq!(list(&Vec::new()), Vec::<String>::new());
}

#[test]
fn killing_takes_the_socket() {
    assert_eq!(socket_dir("e"), "/var/lib/vitro/sessions/e");
    assert_eq!(kill("e", "s"), "/var/lib/vitro/sessions/e/s.sock");
}

#[test]
fn text_is_fed_to_the_socket() {
    let args = send("e", "s", "it's", "u@h");
    assert_eq!(args.len(), 8);
    assert_eq!(args[6], "u@h");
    assert_eq!(
        args[7],
        "printf 'it'\\''s' | dtach -a '/var/lib/vitro/sessions/e/s.sock' -r none"
    );
}

#[test]
fn host_log_lies_in_the_persistent_part() {
    assert_eq!(
        log_path_host("/var/lib/vitro/envs/e", "agent"),
        "/var/lib/vitro/envs/e/persist/var/log/vitro/sessions/agent.log"
    );
}
