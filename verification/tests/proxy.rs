use std::collections::HashMap;
use vitro::client::EnvStatus;
use vitro::http;
use vitro::json::{parse_json, write_json, Json, Member};
use vitro::proxy::{
    control, deregistration, done, down_next, env_status, envs_reply, git_credential_answer,
    git_credential_lookup, git_credential_peer, git_credential_request, is_registered_env_ip,
    list_reply, listeners, normalize_peer_ip, parse_delete_envs_path, parse_git_credential_host,
    prepare_next, registered_in, registration, reload_ip, remove_env, repo_or_unknown, understood, up_ip, up_next,
    up_reply, upsert_env, Control, CredentialRule, CredentialStep, DownNext, DownStep,
    EgressConfig, EgressRules, EnvEgress, EnvEgressRules, EnvRules, PeerAddr, PrepareNext,
    PrepareStep, ProxyConfig, UpEvent, UpNext, UpStep,
};
use vitro::registered::{env_json, envs_json, envs_text};

fn rule(ip: &str, env_id: &str) -> EnvRules {
    EnvRules { env_ip: ip.to_string(), env_id: env_id.to_string(), egress: None }
}

#[test]
fn upsert_adds_new() {
    let envs = upsert_env(vec![], rule("10.0.0.5", "feat"));
    assert_eq!(envs.len(), 1);
    assert_eq!(envs[0].env_ip, "10.0.0.5");
}

#[test]
fn upsert_replaces_existing_by_ip() {
    let envs = vec![rule("10.0.0.5", "old")];
    let envs = upsert_env(envs, rule("10.0.0.5", "new"));
    assert_eq!(envs.len(), 1);
    assert_eq!(envs[0].env_id, "new");
}

#[test]
fn upsert_keeps_other_envs() {
    let envs = vec![rule("10.0.0.5", "a"), rule("10.0.0.6", "b")];
    let envs = upsert_env(envs, rule("10.0.0.5", "a-new"));
    assert_eq!(envs.len(), 2);
    let by_ip: HashMap<_, _> =
        envs.iter().map(|e| (e.env_ip.clone(), e.env_id.clone())).collect();
    assert_eq!(by_ip["10.0.0.5"], "a-new");
    assert_eq!(by_ip["10.0.0.6"], "b");
}

#[test]
fn remove_strips_matching_ip() {
    let envs = vec![rule("10.0.0.5", "a"), rule("10.0.0.6", "b")];
    let envs = remove_env(envs, "10.0.0.5");
    assert_eq!(envs.len(), 1);
    assert_eq!(envs[0].env_ip, "10.0.0.6");
}

#[test]
fn remove_unknown_ip_is_noop() {
    let envs = vec![rule("10.0.0.5", "a")];
    let envs = remove_env(envs, "10.0.0.99");
    assert_eq!(envs.len(), 1);
}

#[test]
fn parse_delete_path_basic() {
    assert_eq!(parse_delete_envs_path("DELETE /envs/10.0.0.5 HTTP/1.1"), Some("10.0.0.5"));
}

#[test]
fn parse_delete_path_missing_ip_rejected() {
    assert_eq!(parse_delete_envs_path("DELETE /envs/ HTTP/1.1"), None);
}

#[test]
fn parse_delete_path_garbage_rejected() {
    assert_eq!(parse_delete_envs_path(""), None);
    assert_eq!(parse_delete_envs_path("GET / HTTP/1.1"), None);
}

#[test]
fn parse_git_credential_extracts_host() {
    let req = "POST /git-credential HTTP/1.1\r\ncontent-type: text/plain\r\n\r\nprotocol=https\nhost=github.com\n";
    assert_eq!(parse_git_credential_host(req).as_deref(), Some("github.com"));
}

#[test]
fn parse_git_credential_no_body_returns_none() {
    let req = "POST /git-credential HTTP/1.1\r\nNo-Body: yes";
    assert!(parse_git_credential_host(req).is_none());
}

#[test]
fn parse_git_credential_no_host_returns_none() {
    let req = "POST /git-credential HTTP/1.1\r\n\r\nprotocol=https\n";
    assert!(parse_git_credential_host(req).is_none());
}

#[test]
fn git_credential_lookup_known_hosts() {
    assert_eq!(git_credential_lookup("github.com"), Some(("x-access-token", "GITHUB_TOKEN")));
    assert_eq!(git_credential_lookup("gitlab.com"), Some(("oauth2", "GITLAB_TOKEN")));
    assert_eq!(git_credential_lookup("bitbucket.org"), Some(("x-token-auth", "BITBUCKET_TOKEN")));
}

#[test]
fn git_credential_lookup_unknown_returns_none() {
    assert!(git_credential_lookup("evil.com").is_none());
    assert!(git_credential_lookup("").is_none());
    // important: substring of a known host must not match
    assert!(git_credential_lookup("evil.github.com").is_none());
}

#[test]
fn one_rule_for_an_address() {
    let envs = upsert_env(vec![], rule("10.0.0.5", "a"));
    let envs = upsert_env(envs, rule("10.0.0.6", "b"));
    let envs = upsert_env(envs, rule("10.0.0.5", "c"));
    let ids: Vec<&str> = envs.iter().map(|e| e.env_id.as_str()).collect();
    assert_eq!(ids, vec!["b", "c"]);
    let envs = remove_env(envs, "10.0.0.5");
    let ids: Vec<&str> = envs.iter().map(|e| e.env_id.as_str()).collect();
    assert_eq!(ids, vec!["b"]);
}

#[test]
fn delete_path_takes_the_second_word() {
    assert_eq!(parse_delete_envs_path("  DELETE\t/envs/a/b  x"), Some("a/b"));
    assert_eq!(parse_delete_envs_path("/envs/10.0.0.5"), None);
}

#[test]
fn credential_host_is_trimmed() {
    let req = "POST /git-credential\r\n\r\nnothing\r\n host = gitlab.com \r\nhost=x\r\n";
    assert_eq!(parse_git_credential_host(req).as_deref(), Some("gitlab.com"));
}

#[test]
fn peer_addresses_are_normalized() {
    assert_eq!(normalize_peer_ip(PeerAddr::V4("10.0.0.5".to_string())), "10.0.0.5");
    assert_eq!(
        normalize_peer_ip(PeerAddr::V6 {
            text: "::ffff:10.0.0.5".to_string(),
            mapped: Some("10.0.0.5".to_string()),
        }),
        "10.0.0.5"
    );
    assert_eq!(
        normalize_peer_ip(PeerAddr::V6 { text: "::ffff:10.0.0.5".to_string(), mapped: None }),
        "10.0.0.5"
    );
    assert_eq!(
        normalize_peer_ip(PeerAddr::V6 { text: "fe80::1".to_string(), mapped: None }),
        "fe80::1"
    );
}

#[test]
fn only_registered_addresses_are_known() {
    let envs = r#"[{"envIp":"10.0.0.5","envId":"a"},{"envId":"b"},7,{"envIp":8}]"#;
    assert!(is_registered_env_ip(Some(envs), "10.0.0.5"));
    assert!(!is_registered_env_ip(Some(envs), "10.0.0.6"));
    assert!(!is_registered_env_ip(Some(envs), "8"));
    assert!(!is_registered_env_ip(Some("{\"envIp\":\"10.0.0.5\"}"), "10.0.0.5"));
    assert!(!is_registered_env_ip(Some("not json"), "10.0.0.5"));
    assert!(!is_registered_env_ip(None, "10.0.0.5"));
}

#[test]
fn unknown_peer_is_refused() {
    assert_eq!(git_credential_peer(false).as_deref(), Some("HTTP/1.1 403 Forbidden\r\n\r\n"));
    assert!(git_credential_peer(true).is_none());
}

#[test]
fn requests_are_answered_or_name_a_token() {
    let answer = |req: &str| match git_credential_request(req) {
        CredentialStep::Answer(a) => a,
        CredentialStep::Token { username, env_var } => format!("{username} {env_var}"),
    };
    assert_eq!(answer("GET /git-credential"), "HTTP/1.1 404 Not Found\r\n\r\n");
    assert_eq!(answer("POST /other"), "HTTP/1.1 404 Not Found\r\n\r\n");
    assert_eq!(answer("POST /git-credential\r\n\r\n"), "HTTP/1.1 403 Forbidden\r\n\r\n");
    assert_eq!(
        answer("POST /git-credential\r\n\r\nhost=evil.github.com\n"),
        "HTTP/1.1 403 Forbidden\r\n\r\n"
    );
    assert_eq!(
        answer("POST /git-credential\r\n\r\nhost=github.com\n"),
        "x-access-token GITHUB_TOKEN"
    );
}

#[test]
fn tokens_are_handed_out_with_their_length() {
    assert_eq!(
        git_credential_answer("oauth2", Some("tök")),
        "HTTP/1.1 200 OK\r\ncontent-type: text/plain\r\ncontent-length: 30\r\n\r\n\
         username=oauth2\npassword=tök\n"
    );
    assert_eq!(git_credential_answer("oauth2", None), "HTTP/1.1 500 Error\r\n\r\n");
}

fn name_of(req: &str) -> String {
    match control(req) {
        Control::Answer(r) => format!("{} {}", r.status, r.body),
        Control::Register { json } => format!("register {json}"),
        Control::Deregister { ip } => format!("deregister {ip}"),
        Control::Envs => "envs".to_string(),
        Control::Prepare { json } => format!("prepare {json}"),
        Control::Up { json } => format!("up {json}"),
        Control::Down { json } => format!("down {json}"),
        Control::Delete { json } => format!("delete {json}"),
        Control::List => "list".to_string(),
    }
}

#[test]
fn control_requests_are_routed() {
    assert_eq!(name_of("POST /envs HTTP/1.0\r\n\r\n{}"), "register {}");
    assert_eq!(name_of("POST /envs HTTP/1.0\r\n"), "400 Bad Request missing body");
    assert_eq!(name_of("DELETE /envs/10.0.0.5 HTTP/1.0\r\n\r\n"), "deregister 10.0.0.5");
    assert_eq!(name_of("DELETE /envs/ HTTP/1.0\r\n\r\n"), "400 Bad Request missing ip");
    assert_eq!(name_of("GET /envs HTTP/1.0\r\n\r\n"), "envs");
    assert_eq!(name_of("POST /prepare\r\n\r\na"), "prepare a");
    assert_eq!(name_of("POST /prepare"), "400 Bad Request missing body");
    assert_eq!(name_of("POST /up\r\n\r\nb"), "up b");
    assert_eq!(name_of("POST /up"), "400 Bad Request missing body");
    assert_eq!(name_of("POST /down\r\n\r\nc"), "down c");
    assert_eq!(name_of("POST /down"), "400 Bad Request missing body");
    assert_eq!(name_of("POST /delete\r\n\r\nd"), "delete d");
    assert_eq!(name_of("POST /delete"), "400 Bad Request missing body");
    assert_eq!(name_of("GET /list HTTP/1.0\r\n\r\n"), "list");
    assert_eq!(name_of("PUT /envs"), "404 Not Found not found");
}

#[test]
fn replies_say_how_it_went() {
    let ok = done(None);
    assert_eq!((ok.status, ok.body.as_str()), ("200 OK", "{\"ok\":true}"));
    let failed = done(Some("no"));
    assert_eq!(
        (failed.status, failed.body.as_str()),
        ("500 Internal Server Error", "{\"ok\":false,\"error\":\"no\"}")
    );
    let up = up_reply(Ok("10.0.0.5".to_string()));
    assert_eq!((up.status, up.body.as_str()), ("200 OK", "{\"ok\":true,\"ip\":\"10.0.0.5\"}"));
    let down = up_reply(Err("a \"b\"".to_string()));
    assert_eq!(
        (down.status, down.body.as_str()),
        ("500 Internal Server Error", "{\"ok\":false,\"error\":\"a \\\"b\\\"\"}")
    );
    let none = envs_reply(&vec![]);
    assert_eq!((none.status, none.body.as_str()), ("200 OK", "[]"));
    let listed = envs_reply(&vec![rule("10.0.0.5", "a"), rule("10.0.0.6", "b")]);
    assert_eq!(
        listed.body,
        "[{\"envIp\":\"10.0.0.5\",\"envId\":\"a\"},{\"envIp\":\"10.0.0.6\",\"envId\":\"b\"}]"
    );
}

#[test]
fn registrations_are_written_and_answered() {
    let (envs, reply) = registration(
        vec![rule("10.0.0.5", "a"), rule("10.0.0.6", "b")],
        Ok(rule("10.0.0.5", "c")),
    );
    let ids: Vec<String> = envs.unwrap().into_iter().map(|e| e.env_id).collect();
    assert_eq!(ids, vec!["b", "c"]);
    assert_eq!((reply.status, reply.body.as_str()), ("200 OK", "ok"));

    let (envs, reply) = registration(vec![rule("10.0.0.5", "a")], Err("eof".to_string()));
    assert!(envs.is_none());
    assert_eq!((reply.status, reply.body.as_str()), ("400 Bad Request", "bad request: eof"));

    let (envs, reply) = deregistration(vec![rule("10.0.0.5", "a")], "10.0.0.5");
    assert!(envs.is_empty());
    assert_eq!((reply.status, reply.body.as_str()), ("200 OK", "ok"));
}

#[test]
fn what_is_not_understood_is_answered() {
    assert!(matches!(understood::<u8>(Ok(7)), Ok(7)));
    match understood::<u8>(Err("eof".to_string())) {
        Err(r) => assert_eq!((r.status, r.body.as_str()), ("400 Bad Request", "bad request: eof")),
        Ok(_) => panic!("a body that was not read is not carried out"),
    }
}

#[test]
fn only_a_stopped_env_is_started() {
    assert_eq!(up_next(UpStep::Clone, UpEvent::Yes), UpNext::Step(UpStep::AskRunning));
    assert_eq!(up_next(UpStep::Clone, UpEvent::Failed), UpNext::Fail);
    assert_eq!(up_next(UpStep::AskRunning, UpEvent::Yes), UpNext::Done);
    assert_eq!(up_next(UpStep::AskRunning, UpEvent::No), UpNext::Step(UpStep::Start));
    assert_eq!(up_next(UpStep::AskRunning, UpEvent::Failed), UpNext::Fail);
    assert_eq!(up_next(UpStep::Start, UpEvent::Yes), UpNext::Done);
    assert_eq!(up_next(UpStep::Start, UpEvent::Failed), UpNext::Fail);
}

#[test]
fn only_a_running_env_is_stopped() {
    assert_eq!(down_next(DownStep::AskRunning, UpEvent::Yes), DownNext::Step(DownStep::Stop));
    assert_eq!(down_next(DownStep::AskRunning, UpEvent::No), DownNext::Done);
    assert_eq!(down_next(DownStep::AskRunning, UpEvent::Failed), DownNext::Fail);
    assert_eq!(down_next(DownStep::Stop, UpEvent::Yes), DownNext::Done);
    assert_eq!(down_next(DownStep::Stop, UpEvent::Failed), DownNext::Fail);
}

#[test]
fn a_running_env_gets_its_rules_anew() {
    let step = |s: PrepareStep, e: UpEvent| prepare_next(s, e);
    let (ask, register) = (PrepareStep::AskReload, PrepareStep::Register);
    assert_eq!(step(PrepareStep::Clone, UpEvent::Yes), PrepareNext::Step(ask));
    assert_eq!(step(PrepareStep::Clone, UpEvent::Failed), PrepareNext::Fail);
    assert_eq!(step(ask, UpEvent::Yes), PrepareNext::Step(register));
    assert_eq!(step(ask, UpEvent::No), PrepareNext::Done);
    assert_eq!(step(register, UpEvent::Yes), PrepareNext::Done);
    assert_eq!(step(register, UpEvent::Failed), PrepareNext::Fail);
}

#[test]
fn registered_envs_are_written_as_json() {
    assert_eq!(envs_text(&vec![]), "[]");
    let full = EnvRules {
        env_ip: "10.0.0.5".to_string(),
        env_id: "a \"b\"".to_string(),
        egress: Some(EnvEgress {
            additive: true,
            reads: Some(EnvEgressRules {
                allowed: Some(vec!["x".to_string(), "y".to_string()]),
                denied: None,
            }),
            writes: Some(EnvEgressRules { allowed: None, denied: Some(vec![]) }),
            credentials: vec![CredentialRule {
                host: "h".to_string(),
                header: "k".to_string(),
                env_var: "V".to_string(),
            }],
        }),
    };
    let envs = vec![full, rule("10.0.0.6", "c")];
    assert_eq!(
        envs_text(&envs),
        r#"[
  {
    "envIp": "10.0.0.5",
    "envId": "a \"b\"",
    "egress": {
      "additive": true,
      "reads": {
        "allowed": [
          "x",
          "y"
        ]
      },
      "writes": {
        "denied": []
      },
      "credentials": [
        {
          "host": "h",
          "header": "k",
          "envVar": "V"
        }
      ]
    }
  },
  {
    "envIp": "10.0.0.6",
    "envId": "c"
  }
]"#
    );
    let read = parse_json(&envs_text(&envs)).unwrap();
    assert!(registered_in(&read, "10.0.0.5") && registered_in(&read, "10.0.0.6"));
}

#[test]
fn rules_without_lists_are_empty() {
    let envs = vec![EnvRules {
        env_ip: "1".to_string(),
        env_id: "2".to_string(),
        egress: Some(EnvEgress {
            additive: false,
            reads: Some(EnvEgressRules { allowed: None, denied: None }),
            writes: None,
            credentials: vec![],
        }),
    }];
    assert_eq!(
        envs_reply(&envs).body,
        "[{\"envIp\":\"1\",\"envId\":\"2\",\"egress\":{\"additive\":false,\"reads\":{}}}]"
    );
}

#[test]
fn env_rules_json_roundtrip_minimal() {
    let r = rule("10.0.0.5", "feat");
    let json = write_json(&env_json(&r), None);
    // shape the addon expects
    assert!(json.contains("\"envIp\":\"10.0.0.5\""));
    assert!(json.contains("\"envId\":\"feat\""));
    let back = parse_json(&json).unwrap();
    assert_eq!(back.get("envIp").and_then(|v| v.as_text()), Some("10.0.0.5"));
    assert_eq!(back.get("envId").and_then(|v| v.as_text()), Some("feat"));
}

#[test]
fn env_rules_json_roundtrip_with_egress() {
    let json = r#"{"envIp":"10.0.0.5","envId":"feat","egress":{"additive":true,"writes":{"allowed":["api.x.com"]}}}"#;
    let r = parse_json(json).unwrap();
    let eg = r.get("egress").unwrap();
    assert!(matches!(eg.get("additive"), Some(Json::Bool(true))));
    let writes = eg.get("writes").unwrap();
    match writes.get("allowed") {
        Some(Json::Array(hosts)) => {
            let hosts: Vec<Option<&str>> = hosts.iter().map(|h| h.as_text()).collect();
            assert_eq!(hosts, vec![Some("api.x.com")]);
        }
        _ => panic!("the hosts are a list"),
    }
    let rules = EnvRules {
        env_ip: "10.0.0.5".to_string(),
        env_id: "feat".to_string(),
        egress: Some(EnvEgress {
            additive: true,
            reads: None,
            writes: Some(EnvEgressRules {
                allowed: Some(vec!["api.x.com".to_string()]),
                denied: None,
            }),
            credentials: vec![],
        }),
    };
    assert_eq!(write_json(&env_json(&rules), None), json);
}

#[test]
fn values_are_written_as_they_stand() {
    let value = Json::Object(vec![
        Member { key: "z\n".to_string(), value: Json::Null },
        Member { key: "a".to_string(), value: Json::Array(vec![]) },
        Member {
            key: "m".to_string(),
            value: Json::Array(vec![Json::Bool(false), Json::Number("-7".to_string())]),
        },
        Member { key: "e".to_string(), value: Json::Object(vec![]) },
    ]);
    assert_eq!(
        write_json(&value, None),
        "{\"z\\n\":null,\"a\":[],\"m\":[false,-7],\"e\":{}}"
    );
    assert_eq!(
        write_json(&value, Some("")),
        "{\n  \"z\\n\": null,\n  \"a\": [],\n  \"m\": [\n    false,\n    -7\n  ],\n  \"e\": {}\n}"
    );
}

#[test]
fn what_was_registered_is_known() {
    let (envs, _) = registration(vec![rule("10.0.0.6", "b")], Ok(rule("10.0.0.5", "a")));
    let envs = envs.unwrap();
    assert!(is_registered_env_ip(Some(&envs_text(&envs)), "10.0.0.5"));
    assert!(is_registered_env_ip(Some(&envs_text(&envs)), "10.0.0.6"));
    assert!(!is_registered_env_ip(Some(&envs_text(&envs)), "10.0.0.7"));
    let (envs, _) = deregistration(envs, "10.0.0.5");
    assert!(!is_registered_env_ip(Some(&envs_text(&envs)), "10.0.0.5"));
    assert!(is_registered_env_ip(Some(&envs_text(&envs)), "10.0.0.6"));
}

#[test]
fn an_env_is_an_object_with_its_address() {
    let value = env_json(&rule("10.0.0.5", "a"));
    match value {
        Json::Object(ms) => {
            let keys: Vec<&str> = ms.iter().map(|m| m.key.as_str()).collect();
            assert_eq!(keys, vec!["envIp", "envId"]);
        }
        _ => panic!("an env is an object"),
    }
    match envs_json(&vec![rule("10.0.0.5", "a"), rule("10.0.0.6", "b")]) {
        Json::Array(items) => assert_eq!(items.len(), 2),
        _ => panic!("the envs are a list"),
    }
}

#[test]
fn list_reply_leaves_out_what_is_missing() {
    let envs = vec![
        env_status("a".to_string(), true, Some("10.0.0.5\n"), Some("app\n")),
        env_status("b".to_string(), false, Some("10.0.0.6\n"), None),
    ];
    assert_eq!(envs[1].ip, None);
    let r = list_reply(&Ok(envs));
    assert_eq!(r.status, "200 OK");
    assert_eq!(
        r.body,
        "[{\"name\":\"a\",\"status\":\"running\",\"ip\":\"10.0.0.5\",\"repo\":\"app\"},\
         {\"name\":\"b\",\"status\":\"stopped\"}]"
    );
    let none: Result<Vec<EnvStatus>, String> = Ok(vec![]);
    assert_eq!(list_reply(&none).body, "[]");
    let failed = list_reply(&Err("no".to_string()));
    assert_eq!(
        (failed.status, failed.body.as_str()),
        ("500 Internal Server Error", "{\"error\":\"no\"}")
    );
}

#[test]
fn running_envs_are_reloaded() {
    assert_eq!(reload_ip(true, Some("10.0.0.5\n")).as_deref(), Some("10.0.0.5"));
    assert_eq!(reload_ip(false, Some("10.0.0.5\n")), None);
    assert_eq!(reload_ip(true, Some(" \n")), None);
    assert_eq!(reload_ip(true, None), None);
    assert_eq!(up_ip(Some("10.0.0.5\n")), "10.0.0.5");
    assert_eq!(up_ip(None), "");
    assert_eq!(repo_or_unknown(Some("app")), "app");
    assert_eq!(repo_or_unknown(None), "unknown");
}

#[test]
fn services_listen_on_the_bridge() {
    let rules = || EgressRules {
        methods: vec![],
        allowed: Json::Null,
        denied: Json::Null,
    };
    let config = ProxyConfig {
        envs: vec![],
        egress: EgressConfig { reads: rules(), writes: rules(), credentials: vec![] },
        http_port: 8080,
        git_credential_port: 8081,
        control_port: 8082,
        log_file: "/var/log/x".to_string(),
        bind_address: "192.168.83.1".to_string(),
    };
    let l = listeners(&config);
    assert_eq!(l.git, "192.168.83.1:8081");
    assert_eq!(l.control_local, "127.0.0.1:8082");
    assert_eq!(l.control_bridge, "192.168.83.1:8082");
}

#[test]
fn bodies_are_read_back() {
    assert_eq!(
        http::request("POST", "/up", "{}"),
        "POST /up HTTP/1.0\r\nHost: localhost\r\nContent-Length: 2\r\n\r\n{}"
    );
    assert_eq!(http::response("200 OK", "é"), "HTTP/1.1 200 OK\r\ncontent-length: 2\r\n\r\né");
    assert_eq!(http::body(&http::request("POST", "/up", "a\r\n\r\nb")), Some("a\r\n\r\nb"));
    assert_eq!(http::response_body(&http::response("200 OK", "ok")), "ok");
    assert_eq!(http::response_body("no head"), "no head");
}
