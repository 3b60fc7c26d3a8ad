use vitro::shell::{shell_escape, vitro_hop, vitro_hop_head};

#[test]
fn escape_simple() {
    assert_eq!(shell_escape("hello"), "'hello'");
}

#[test]
fn escape_single_quotes() {
    assert_eq!(shell_escape("it's"), "'it'\\''s'");
}

#[test]
fn escape_empty() {
    assert_eq!(shell_escape(""), "''");
}

#[test]
fn escape_special_chars() {
    assert_eq!(shell_escape("a > b & c"), "'a > b & c'");
}

#[test]
fn vitro_hop_with_session() {
    let s = vitro_hop("my-env", "ls -la", Some("agent"));
    assert!(s.contains("--server my-env"));
    assert!(s.contains("--session 'agent'"));
    assert!(s.contains("-c 'ls -la'"));
}

#[test]
fn vitro_hop_without_session() {
    let s = vitro_hop("my-env", "ls -la", None);
    assert_eq!(s, "vitro shell --server my-env -c 'ls -la'");
}

#[test]
fn vitro_hop_escapes_quotes() {
    let s = vitro_hop("env", "echo 'hi'", None);
    assert!(s.contains("-c 'echo '\\''hi'\\'''"));
}

#[test]
fn vitro_hop_escapes_redirects() {
    let s = vitro_hop("env", "ls > /tmp/out", None);
    assert_eq!(s, "vitro shell --server env -c 'ls > /tmp/out'");
}

#[test]
fn hop_head_stops_before_the_command() {
    assert_eq!(vitro_hop_head("e", None), "vitro shell --server e");
    assert_eq!(vitro_hop_head("e", Some("a b")), "vitro shell --server e --session 'a b'");
}
