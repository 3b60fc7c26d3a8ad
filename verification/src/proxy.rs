use vstd::prelude::*;

use crate::client::{says_ok, EnvStatus, UpResponse};
use crate::http::{
    body, body_in, byte_count, byte_length, law_request_body, law_response_body, lemma_one_line,
    request_of, response_of,
};
use crate::json::{
    compact, field, parse_json, quoted, text_holds, text_in, write_json, written, Json, JsonView,
};
use crate::number::{decimal, decimal_of};
use crate::registered::{
    envs_json, envs_kept, envs_view, has_address, lemma_envs_kept, lemma_known_when_read,
};
use crate::text::{
    begins, behind, contains, cut_once, holds, join, joined, lemma_views_push, lines, lines_of,
    nth_word, occurs_at, opt_text, opt_view, same, split_once, starts_with, strip_prefix, trim, trimmed, views,
    words_of,
};

verus! {

// ---------------------------------------------------------------------
// Configuration, shared with the filtering addon
// ---------------------------------------------------------------------

pub struct ProxyConfig {
    pub envs: Vec<EnvRules>,
    pub egress: EgressConfig,
    pub http_port: u16,
    pub git_credential_port: u16,
    pub control_port: u16,
    pub log_file: String,
    pub bind_address: String,
}

pub struct EgressConfig {
    pub reads: EgressRules,
    pub writes: EgressRules,
    pub credentials: Vec<CredentialRule>,
}

pub struct EgressRules {
    pub methods: Vec<String>,
    pub allowed: Json,
    pub denied: Json,
}

/// The rules of one env, by the address of its VM.
#[derive(Debug)]
pub struct EnvRules {
    pub env_ip: String,
    pub env_id: String,
    pub egress: Option<EnvEgress>,
}

#[derive(Debug)]
pub struct EnvEgress {
    pub additive: bool,
    pub reads: Option<EnvEgressRules>,
    pub writes: Option<EnvEgressRules>,
    /// The credentials of this env, which the addon puts into requests beside
    /// the ones that hold for every env.
    pub credentials: Vec<CredentialRule>,
}

#[derive(Debug)]
pub struct EnvEgressRules {
    pub allowed: Option<Vec<String>>,
    pub denied: Option<Vec<String>>,
}

#[derive(Debug)]
pub struct CredentialRule {
    pub host: String,
    pub header: String,
    pub env_var: String,
}

/// Where the registered envs are kept.
pub const DYNAMIC_ENVS: &'static str = "/var/lib/vitro/envs.json";

// ---------------------------------------------------------------------
// The registered envs
// ---------------------------------------------------------------------

/// The rules of the other envs than the one at `ip`, in their order.
pub open spec fn others(envs: Seq<EnvRules>, ip: Seq<char>) -> Seq<EnvRules> {
    envs.filter(|e: EnvRules| e.env_ip@ != ip)
}

/// The registered envs after `rule` came in.
pub open spec fn upserted(envs: Seq<EnvRules>, rule: EnvRules) -> Seq<EnvRules> {
    others(envs, rule.env_ip@).push(rule)
}

/// No two rules are for one address.
pub open spec fn one_rule_per_ip(envs: Seq<EnvRules>) -> bool {
    forall|i: int, j: int|
        0 <= i < j < envs.len() ==> (#[trigger] envs[i]).env_ip@ != (#[trigger] envs[j]).env_ip@
}

/// Put in the rules of an env, in the place of what was there for its address.
pub fn upsert_env(envs: Vec<EnvRules>, rule: EnvRules) -> (r: Vec<EnvRules>)
    ensures
        r@ == upserted(envs@, rule),
{
    let mut r = remove_env(envs, rule.env_ip.as_str());
    r.push(rule);
    r
}

/// Take out the rules of the env at `ip`.
pub fn remove_env(envs: Vec<EnvRules>, ip: &str) -> (r: Vec<EnvRules>)
    ensures
        r@ == others(envs@, ip@),
{
    let ghost all = envs@;
    let ghost mut k: int = 0;
    let mut rest = envs;
    let mut out: Vec<EnvRules> = Vec::new();
    proof {
        reveal(Seq::filter);
        assert(all.take(0) =~= Seq::empty());
        assert(out@ =~= others(all.take(0), ip@));
        assert(rest@ =~= all.skip(0));
    }
    while rest.len() > 0
        invariant
            0 <= k <= all.len(),
            rest@ == all.skip(k),
            out@ == others(all.take(k), ip@),
        decreases rest@.len(),
    {
        let e = rest.remove(0);
        proof {
            reveal(Seq::filter);
            assert(e == all[k]);
            assert(all.take(k + 1).drop_last() =~= all.take(k));
            assert(rest@ =~= all.skip(k + 1));
            k = k + 1;
        }
        if !same(e.env_ip.as_str(), ip) {
            out.push(e);
        }
    }
    proof {
        assert(all.take(k) =~= all);
    }
    out
}

pub proof fn lemma_others(envs: Seq<EnvRules>, ip: Seq<char>)
    ensures
        forall|i: int|
            0 <= i < others(envs, ip).len() ==> (#[trigger] others(envs, ip)[i]).env_ip@ != ip
                && envs.contains(others(envs, ip)[i]),
        forall|e: EnvRules|
            envs.contains(e) && e.env_ip@ != ip ==> #[trigger] others(envs, ip).contains(e),
        one_rule_per_ip(envs) ==> one_rule_per_ip(others(envs, ip)),
    decreases envs.len(),
{
    reveal(Seq::filter);
    if envs.len() > 0 {
        let d = envs.drop_last();
        let l = envs.last();
        lemma_others(d, ip);
        let o = others(envs, ip);
        let od = others(d, ip);
        assert(o == if l.env_ip@ != ip {
            od.push(l)
        } else {
            od
        });
        assert forall|i: int| 0 <= i < o.len() implies (#[trigger] o[i]).env_ip@ != ip
            && envs.contains(o[i]) by {
            if i < od.len() {
                assert(d.contains(od[i]));
                let j = d.index_of(od[i]);
                assert(envs[j] == od[i]);
            } else {
                assert(envs[envs.len() - 1] == l);
            }
        }
        assert forall|e: EnvRules| envs.contains(e) && e.env_ip@ != ip implies #[trigger] o.contains(
            e,
        ) by {
            let j = envs.index_of(e);
            if j < d.len() {
                assert(d[j] == e);
                assert(od.contains(e));
                let m = od.index_of(e);
                assert(o[m] == e);
            } else {
                assert(o[o.len() - 1] == e);
            }
        }
        if one_rule_per_ip(envs) {
            assert(one_rule_per_ip(d)) by {
                assert forall|i: int, j: int| 0 <= i < j < d.len() implies (#[trigger] d[i]).env_ip@
                    != (#[trigger] d[j]).env_ip@ by {
                    assert(envs[i] == d[i] && envs[j] == d[j]);
                }
            }
            assert forall|i: int, j: int| 0 <= i < j < o.len() implies (#[trigger] o[i]).env_ip@ != (
            #[trigger] o[j]).env_ip@ by {
                if j == od.len() {
                    assert(d.contains(od[i]));
                    let k = d.index_of(od[i]);
                    assert(envs[k] == od[i]);
                    assert(envs[envs.len() - 1] == l);
                }
            }
        }
    }
}

/// A registration leaves one rule for its address, and no two rules for any
/// address where there were none.
pub proof fn law_one_rule_per_ip(envs: Seq<EnvRules>, rule: EnvRules)
    requires
        one_rule_per_ip(envs),
    ensures
        one_rule_per_ip(upserted(envs, rule)),
        one_rule_per_ip(others(envs, rule.env_ip@)),
{
    lemma_others(envs, rule.env_ip@);
}

/// A registration touches no rule of another address.
pub proof fn law_upsert_keeps_others(envs: Seq<EnvRules>, rule: EnvRules, other: EnvRules)
    requires
        other.env_ip@ != rule.env_ip@,
    ensures
        upserted(envs, rule).contains(other) <==> envs.contains(other),
{
    lemma_others(envs, rule.env_ip@);
    let o = others(envs, rule.env_ip@);
    let u = upserted(envs, rule);
    if envs.contains(other) {
        assert(o.contains(other));
        let i = o.index_of(other);
        assert(u[i] == other);
    }
    if u.contains(other) {
        let i = u.index_of(other);
        assert(o[i] == other);
    }
}

proof fn lemma_others_twice(envs: Seq<EnvRules>, ip: Seq<char>)
    ensures
        others(others(envs, ip), ip) == others(envs, ip),
    decreases envs.len(),
{
    reveal(Seq::filter);
    if envs.len() > 0 {
        lemma_others_twice(envs.drop_last(), ip);
        let od = others(envs.drop_last(), ip);
        if envs.last().env_ip@ != ip {
            assert(od.push(envs.last()).drop_last() =~= od);
        }
    }
}

/// The last registration for an address stands, whatever came before it.
pub proof fn law_last_registration_stands(envs: Seq<EnvRules>, first: EnvRules, second: EnvRules)
    requires
        first.env_ip@ == second.env_ip@,
    ensures
        upserted(upserted(envs, first), second) == upserted(envs, second),
{
    let ip = first.env_ip@;
    lemma_others_twice(envs, ip);
    reveal(Seq::filter);
    assert(others(envs, ip).push(first).drop_last() =~= others(envs, ip));
}

/// Taking an env out undoes its registration, and leaves no rule for its
/// address.
pub proof fn law_remove_undoes_upsert(envs: Seq<EnvRules>, rule: EnvRules)
    ensures
        others(upserted(envs, rule), rule.env_ip@) == others(envs, rule.env_ip@),
        forall|i: int|
            0 <= i < others(envs, rule.env_ip@).len() ==> (#[trigger] others(
                envs,
                rule.env_ip@,
            )[i]).env_ip@ != rule.env_ip@,
{
    let ip = rule.env_ip@;
    lemma_others_twice(envs, ip);
    lemma_others(envs, ip);
    reveal(Seq::filter);
    assert(others(envs, ip).push(rule).drop_last() =~= others(envs, ip));
}

/// The address in the request line of a `DELETE /envs/<ip>`.
pub open spec fn delete_ip(line: Seq<char>) -> Option<Seq<char>> {
    let w = words_of(line);
    if w.len() < 2 {
        None
    } else {
        match behind(w[1], "/envs/"@) {
            Some(ip) => if ip.len() == 0 {
                None
            } else {
                Some(ip)
            },
            None => None,
        }
    }
}

/// The address in the request line of a `DELETE /envs/<ip>`.
pub fn parse_delete_envs_path(first_line: &str) -> (r: Option<&str>)
    ensures
        opt_view(r) == delete_ip(first_line@),
{
    match nth_word(first_line, 1) {
        Some(path) => match strip_prefix(path, "/envs/") {
            Some(ip) => if ip.is_empty() {
                None
            } else {
                Some(ip)
            },
            None => None,
        },
        None => None,
    }
}

// ---------------------------------------------------------------------
// Git credentials
// ---------------------------------------------------------------------

/// The host in the first line that gives one.
pub open spec fn host_in(lines: Seq<Seq<char>>) -> Option<Seq<char>>
    decreases lines.len(),
{
    if lines.len() == 0 {
        None
    } else {
        match cut_once(lines[0], '=') {
            Some((k, v)) => if trimmed(k) == "host"@ {
                Some(trimmed(v))
            } else {
                host_in(lines.skip(1))
            },
            None => host_in(lines.skip(1)),
        }
    }
}

/// The host that a git credential request asks for.
pub open spec fn credential_host(req: Seq<char>) -> Option<Seq<char>> {
    match body_in(req) {
        Some(b) => host_in(lines_of(b)),
        None => None,
    }
}

/// The host that the body of a git credential request gives as `host=...`.
pub fn parse_git_credential_host(req: &str) -> (r: Option<String>)
    ensures
        opt_text(r) == credential_host(req@),
{
    let b = match body(req) {
        Some(b) => b,
        None => {
            return None;
        },
    };
    let ls = lines(b);
    let ghost all = lines_of(b@);
    proof {
        assert(all.skip(0) =~= all);
    }
    for i in 0..ls.len()
        invariant
            all == views(ls@),
            host_in(all.skip(i as int)) == host_in(all),
            credential_host(req@) == host_in(all),
    {
        proof {
            assert(all[i as int] == ls@[i as int]@);
            assert(all.skip(i as int).skip(1) =~= all.skip(i + 1));
        }
        match split_once(ls[i].as_str(), '=') {
            Some((k, v)) => {
                if same(trim(k), "host") {
                    return Some(trim(v).to_string());
                }
            },
            None => {},
        }
    }
    None
}

/// The account for a git host: the user name, and the variable that holds the
/// token.
pub open spec fn account(host: Seq<char>) -> Option<(Seq<char>, Seq<char>)> {
    if host == "github.com"@ {
        Some(("x-access-token"@, "GITHUB_TOKEN"@))
    } else if host == "gitlab.com"@ {
        Some(("oauth2"@, "GITLAB_TOKEN"@))
    } else if host == "bitbucket.org"@ {
        Some(("x-token-auth"@, "BITBUCKET_TOKEN"@))
    } else {
        None
    }
}

/// The account for a git host: the user name, and the variable that holds the
/// token.
pub fn git_credential_lookup(host: &str) -> (r: Option<(&'static str, &'static str)>)
    ensures
        match account(host@) {
            Some((user, var)) => r matches Some(p) && p.0@ == user && p.1@ == var,
            None => r is None,
        },
{
    if same(host, "github.com") {
        Some(("x-access-token", "GITHUB_TOKEN"))
    } else if same(host, "gitlab.com") {
        Some(("oauth2", "GITLAB_TOKEN"))
    } else if same(host, "bitbucket.org") {
        Some(("x-token-auth", "BITBUCKET_TOKEN"))
    } else {
        None
    }
}

/// The address of a peer, as text. That of an IPv6 peer comes with the IPv4
/// address that it maps, if it maps one.
pub enum PeerAddr {
    V4(String),
    V6 { text: String, mapped: Option<String> },
}

pub open spec fn peer_text(addr: PeerAddr) -> Seq<char> {
    match addr {
        PeerAddr::V4(s) => s@,
        PeerAddr::V6 { text, mapped: Some(v4) } => v4@,
        PeerAddr::V6 { text, mapped: None } => text@,
    }
}

/// The address of a peer without the prefix of an IPv4 address that is mapped
/// into IPv6.
pub open spec fn peer_ip(addr: PeerAddr) -> Seq<char> {
    match behind(peer_text(addr), "::ffff:"@) {
        Some(v4) => v4,
        None => peer_text(addr),
    }
}

/// The address of a peer without the prefix of an IPv4 address that is mapped
/// into IPv6.
pub fn normalize_peer_ip(addr: PeerAddr) -> (r: String)
    ensures
        r@ == peer_ip(addr),
{
    let ip = match addr {
        PeerAddr::V4(s) => s,
        PeerAddr::V6 { text, mapped } => match mapped {
            Some(v4) => v4,
            None => text,
        },
    };
    match strip_prefix(ip.as_str(), "::ffff:") {
        Some(v4) => v4.to_string(),
        None => ip,
    }
}

/// `ip` is the address of an env in this list of envs.
pub open spec fn registered(envs: JsonView, ip: Seq<char>) -> bool {
    match envs {
        JsonView::Array(items) => exists|i: int|
            0 <= i < items.len() && text_in(field(#[trigger] items[i], "envIp"@)) == Some(ip),
        _ => false,
    }
}

/// Whether `ip` is the address of an env in this list of envs.
pub fn registered_in(envs: &Json, ip: &str) -> (r: bool)
    ensures
        r == registered(envs@, ip@),
{
    match envs {
        Json::Array(items) => {
            for i in 0..items.len()
                invariant
                    envs == &Json::Array(*items),
                    forall|k: int|
                        0 <= k < i ==> text_in(field((#[trigger] items@[k])@, "envIp"@)) != Some(
                            ip@,
                        ),
            {
                proof {
                    assert(envs@->Array_0[i as int] == items@[i as int]@);
                }
                match items[i].get("envIp") {
                    Some(v) => match v.as_text() {
                        Some(t) => {
                            if same(t, ip) {
                                return true;
                            }
                        },
                        None => {},
                    },
                    None => {},
                }
            }
            proof {
                assert forall|i: int| 0 <= i < envs@->Array_0.len() implies text_in(
                    field(#[trigger] envs@->Array_0[i], "envIp"@),
                ) != Some(ip@) by {
                    assert(envs@->Array_0[i] == items@[i]@);
                }
            }
            false
        },
        _ => false,
    }
}

/// Whether `ip` is the address of a registered env, by the content of the file
/// that keeps them; without the file, or with one that is no JSON, it is not. In a
/// file that was written for some envs, the addresses of these are known, and no
/// other.
pub fn is_registered_env_ip(content: Option<&str>, ip: &str) -> (r: bool)
    ensures
        r == match content {
            Some(c) => match text_holds(c@) {
                Some(envs) => registered(envs, ip@),
                None => false,
            },
            None => false,
        },
        forall|envs: Seq<EnvRules>|
            #![trigger envs_kept(envs)]
            opt_view(content) == Some(envs_kept(envs)) ==> r == has_address(envs, ip@),
{
    match content {
        Some(c) => {
            let read = parse_json(c);
            proof {
                assert forall|envs: Seq<EnvRules>| c@ == #[trigger] envs_kept(envs) implies (
                read matches Some(h) && registered(h@, ip@) == has_address(envs, ip@)) by {
                    lemma_envs_kept(envs);
                    lemma_known_when_read(envs, read->Some_0@, ip@);
                }
            }
            match read {
                Some(envs) => registered_in(&envs, ip),
                None => false,
            }
        },
        None => false,
    }
}

pub const FORBIDDEN: &'static str = "HTTP/1.1 403 Forbidden\r\n\r\n";

pub const NOT_FOUND: &'static str = "HTTP/1.1 404 Not Found\r\n\r\n";

pub const SERVER_ERROR: &'static str = "HTTP/1.1 500 Error\r\n\r\n";

/// A request for a git credential.
pub open spec fn asks_credential(req: Seq<char>) -> bool {
    holds(req, "POST"@) && holds(req, "/git-credential"@)
}

/// The host that a request asks for, or no host.
pub open spec fn asked_host(req: Seq<char>) -> Seq<char> {
    match credential_host(req) {
        Some(h) => h,
        None => ""@,
    }
}

/// The answer that hands out a token.
pub open spec fn token_answer(username: Seq<char>, token: Seq<char>) -> Seq<char> {
    let b = "username="@ + username + "\npassword="@ + token + "\n"@;
    "HTTP/1.1 200 OK\r\ncontent-type: text/plain\r\ncontent-length: "@ + decimal_of(byte_count(b))
        + "\r\n\r\n"@ + b
}

/// The answer to a request for the account `username`, whose token may be
/// missing.
pub open spec fn account_answer(username: Seq<char>, token: Option<Seq<char>>) -> Seq<char> {
    match token {
        Some(t) => token_answer(username, t),
        None => SERVER_ERROR@,
    }
}

/// The token in the variable `var`.
pub open spec fn token_in(tokens: Map<Seq<char>, Seq<char>>, var: Seq<char>) -> Option<Seq<char>> {
    if tokens.contains_key(var) {
        Some(tokens[var])
    } else {
        None
    }
}

/// What the git credential service answers to a peer, given the variables that
/// hold tokens.
pub open spec fn credential_answer(
    known_peer: bool,
    req: Seq<char>,
    tokens: Map<Seq<char>, Seq<char>>,
) -> Seq<char> {
    if !known_peer {
        FORBIDDEN@
    } else if !asks_credential(req) {
        NOT_FOUND@
    } else {
        match account(asked_host(req)) {
            Some((user, var)) => account_answer(user, token_in(tokens, var)),
            None => FORBIDDEN@,
        }
    }
}

/// The answer to a peer that is not the VM of a registered env; one that is may
/// send its request.
pub fn git_credential_peer(known_peer: bool) -> (r: Option<String>)
    ensures
        match r {
            Some(a) => forall|req: Seq<char>, tokens: Map<Seq<char>, Seq<char>>|
                a@ == #[trigger] credential_answer(known_peer, req, tokens),
            None => known_peer,
        },
        r is Some <==> !known_peer,
{
    if known_peer {
        None
    } else {
        Some(FORBIDDEN.to_string())
    }
}

/// What a request for a git credential comes to.
pub enum CredentialStep {
    /// It is answered.
    Answer(String),
    /// It is answered with the token in a variable.
    Token { username: &'static str, env_var: &'static str },
}

/// What the request of a known peer comes to.
pub fn git_credential_request(req: &str) -> (r: CredentialStep)
    ensures
        forall|tokens: Map<Seq<char>, Seq<char>>| #[trigger]
            credential_answer(true, req@, tokens) == match r {
                CredentialStep::Answer(a) => a@,
                CredentialStep::Token { username, env_var } => account_answer(
                    username@,
                    token_in(tokens, env_var@),
                ),
            },
        r is Token <==> asks_credential(req@) && account(asked_host(req@)) is Some,
        r matches CredentialStep::Token { username, env_var } ==> account(asked_host(req@)) == Some(
            (username@, env_var@),
        ),
{
    if !contains(req, "POST") || !contains(req, "/git-credential") {
        return CredentialStep::Answer(NOT_FOUND.to_string());
    }
    let host = match parse_git_credential_host(req) {
        Some(h) => h,
        None => "".to_string(),
    };
    match git_credential_lookup(host.as_str()) {
        Some((username, env_var)) => CredentialStep::Token { username, env_var },
        None => CredentialStep::Answer(FORBIDDEN.to_string()),
    }
}

/// The answer to a request for the account `username`, whose token may be
/// missing.
pub fn git_credential_answer(username: &str, token: Option<&str>) -> (r: String)
    ensures
        r@ == account_answer(username@, opt_view(token)),
{
    match token {
        Some(t) => {
            let mut b = "username=".to_string();
            b.append(username);
            b.append("\npassword=");
            b.append(t);
            b.append("\n");
            let mut s = "HTTP/1.1 200 OK\r\ncontent-type: text/plain\r\ncontent-length: ".to_string();
            s.append(byte_length(b.as_str()).as_str());
            s.append("\r\n\r\n");
            s.append(b.as_str());
            s
        },
        None => SERVER_ERROR.to_string(),
    }
}

/// A peer that is not the VM of a registered env is refused, whatever it sends.
pub proof fn law_unknown_peer_is_refused(req: Seq<char>, tokens: Map<Seq<char>, Seq<char>>)
    ensures
        credential_answer(false, req, tokens) == FORBIDDEN@,
{
}

/// A request learns nothing of a token but that of the host that it asks for:
/// with any other tokens changed, the answer is the same.
pub proof fn law_only_the_asked_token(
    known_peer: bool,
    req: Seq<char>,
    tokens: Map<Seq<char>, Seq<char>>,
    changed: Map<Seq<char>, Seq<char>>,
)
    requires
        account(asked_host(req)) matches Some(a) ==> token_in(tokens, a.1) == token_in(
            changed,
            a.1,
        ),
    ensures
        credential_answer(known_peer, req, tokens) == credential_answer(known_peer, req, changed),
{
}

// ---------------------------------------------------------------------
// The control API
// ---------------------------------------------------------------------

/// The status and the body of an answer of the control API.
pub struct Reply {
    pub status: &'static str,
    pub body: String,
}

/// What a reply says.
pub struct ReplyView {
    pub status: Seq<char>,
    pub body: Seq<char>,
}

impl View for Reply {
    type V = ReplyView;

    open spec fn view(&self) -> ReplyView {
        ReplyView { status: self.status@, body: self.body@ }
    }
}

pub const OK: &'static str = "200 OK";

pub const BAD_REQUEST: &'static str = "400 Bad Request";

pub const MISSING: &'static str = "404 Not Found";

pub const FAILED: &'static str = "500 Internal Server Error";

/// What a request to the control API asks for. The JSON text of its body is
/// read where it is carried out.
pub enum Control {
    Answer(Reply),
    Register { json: String },
    Deregister { ip: String },
    Envs,
    Prepare { json: String },
    Up { json: String },
    Down { json: String },
    Delete { json: String },
    List,
}

/// What a request to the control API asks for.
pub enum ControlView {
    Answer(ReplyView),
    Register(Seq<char>),
    Deregister(Seq<char>),
    Envs,
    Prepare(Seq<char>),
    Up(Seq<char>),
    Down(Seq<char>),
    Delete(Seq<char>),
    List,
}

impl View for Control {
    type V = ControlView;

    open spec fn view(&self) -> ControlView {
        match self {
            Control::Answer(r) => ControlView::Answer(r@),
            Control::Register { json } => ControlView::Register(json@),
            Control::Deregister { ip } => ControlView::Deregister(ip@),
            Control::Envs => ControlView::Envs,
            Control::Prepare { json } => ControlView::Prepare(json@),
            Control::Up { json } => ControlView::Up(json@),
            Control::Down { json } => ControlView::Down(json@),
            Control::Delete { json } => ControlView::Delete(json@),
            Control::List => ControlView::List,
        }
    }
}

/// A refusal of a request that lacks something.
pub open spec fn lacks(what: Seq<char>) -> ControlView {
    ControlView::Answer(ReplyView { status: BAD_REQUEST@, body: what })
}

/// The first line of a message.
pub open spec fn first_line(req: Seq<char>) -> Seq<char> {
    if lines_of(req).len() > 0 {
        lines_of(req)[0]
    } else {
        ""@
    }
}

/// What a request to the control API asks for.
pub open spec fn control_of(req: Seq<char>) -> ControlView {
    if begins(req, "POST /envs"@) {
        match body_in(req) {
            Some(b) => ControlView::Register(b),
            None => lacks("missing body"@),
        }
    } else if begins(req, "DELETE /envs/"@) {
        match delete_ip(first_line(req)) {
            Some(ip) => ControlView::Deregister(ip),
            None => lacks("missing ip"@),
        }
    } else if begins(req, "GET /envs"@) {
        ControlView::Envs
    } else if begins(req, "POST /prepare"@) {
        match body_in(req) {
            Some(b) => ControlView::Prepare(b),
            None => lacks("missing body"@),
        }
    } else if begins(req, "POST /up"@) {
        match body_in(req) {
            Some(b) => ControlView::Up(b),
            None => lacks("missing body"@),
        }
    } else if begins(req, "POST /down"@) {
        match body_in(req) {
            Some(b) => ControlView::Down(b),
            None => lacks("missing body"@),
        }
    } else if begins(req, "POST /delete"@) {
        match body_in(req) {
            Some(b) => ControlView::Delete(b),
            None => lacks("missing body"@),
        }
    } else if begins(req, "GET /list"@) {
        ControlView::List
    } else {
        ControlView::Answer(ReplyView { status: MISSING@, body: "not found"@ })
    }
}

fn missing(what: &str) -> (r: Control)
    ensures
        r@ == lacks(what@),
{
    Control::Answer(Reply { status: BAD_REQUEST, body: what.to_string() })
}

/// What a request to the control API asks for.
pub fn control(req: &str) -> (r: Control)
    ensures
        r@ == control_of(req@),
{
    let json = body(req);
    if starts_with(req, "POST /envs") {
        match json {
            Some(b) => Control::Register { json: b.to_string() },
            None => missing("missing body"),
        }
    } else if starts_with(req, "DELETE /envs/") {
        let ls = lines(req);
        proof {
            assert(views(ls@).len() == ls@.len());
            assert(ls@.len() > 0 ==> views(ls@)[0] == ls@[0]@);
        }
        let line = if ls.len() > 0 {
            ls[0].as_str()
        } else {
            ""
        };
        match parse_delete_envs_path(line) {
            Some(ip) => Control::Deregister { ip: ip.to_string() },
            None => missing("missing ip"),
        }
    } else if starts_with(req, "GET /envs") {
        Control::Envs
    } else if starts_with(req, "POST /prepare") {
        match json {
            Some(b) => Control::Prepare { json: b.to_string() },
            None => missing("missing body"),
        }
    } else if starts_with(req, "POST /up") {
        match json {
            Some(b) => Control::Up { json: b.to_string() },
            None => missing("missing body"),
        }
    } else if starts_with(req, "POST /down") {
        match json {
            Some(b) => Control::Down { json: b.to_string() },
            None => missing("missing body"),
        }
    } else if starts_with(req, "POST /delete") {
        match json {
            Some(b) => Control::Delete { json: b.to_string() },
            None => missing("missing body"),
        }
    } else if starts_with(req, "GET /list") {
        Control::List
    } else {
        Control::Answer(Reply { status: MISSING, body: "not found".to_string() })
    }
}

/// The reply to a registration or a deregistration that was carried out.
fn plain_ok() -> (r: Reply)
    ensures
        r@ == (ReplyView { status: OK@, body: "ok"@ }),
{
    Reply { status: OK, body: "ok".to_string() }
}

/// The reply to a request whose body could not be read.
fn bad_request(error: &str) -> (r: Reply)
    ensures
        r@ == (ReplyView { status: BAD_REQUEST@, body: "bad request: "@ + error@ }),
{
    let mut s = "bad request: ".to_string();
    s.append(error);
    Reply { status: BAD_REQUEST, body: s }
}

/// What a registration comes to, from what its body was read as: the registered
/// envs to write, where there is anything to write, and the reply. A rule that
/// was read is put in; a body that was not read changes nothing.
pub fn registration(envs: Vec<EnvRules>, parsed: Result<EnvRules, String>) -> (r: (
    Option<Vec<EnvRules>>,
    Reply,
))
    ensures
        match parsed {
            Ok(rule) => (r.0 matches Some(w) && w@ == upserted(envs@, rule)) && r.1@ == (
            ReplyView { status: OK@, body: "ok"@ }),
            Err(e) => r.0 is None && r.1@ == (ReplyView {
                status: BAD_REQUEST@,
                body: "bad request: "@ + e@,
            }),
        },
{
    match parsed {
        Ok(rule) => (Some(upsert_env(envs, rule)), plain_ok()),
        Err(e) => (None, bad_request(e.as_str())),
    }
}

/// What a deregistration comes to: the registered envs to write, and the reply.
pub fn deregistration(envs: Vec<EnvRules>, ip: &str) -> (r: (Vec<EnvRules>, Reply))
    ensures
        r.0@ == others(envs@, ip@),
        r.1@ == (ReplyView { status: OK@, body: "ok"@ }),
{
    (remove_env(envs, ip), plain_ok())
}

/// What follows from reading the body of a request: it is carried out where the
/// body was read, else it is only answered.
pub fn understood<T>(parsed: Result<T, String>) -> (r: Result<T, Reply>)
    ensures
        match parsed {
            Ok(request) => r == Ok::<T, Reply>(request),
            Err(e) => r matches Err(reply) && reply@ == (ReplyView {
                status: BAD_REQUEST@,
                body: "bad request: "@ + e@,
            }),
        },
{
    match parsed {
        Ok(request) => Ok(request),
        Err(e) => Err(bad_request(e.as_str())),
    }
}

/// The reply to a question for the registered envs: all of them, on one line.
pub fn envs_reply(envs: &Vec<EnvRules>) -> (r: Reply)
    ensures
        r@ == (ReplyView { status: OK@, body: written(envs_view(envs@), None) }),
{
    Reply { status: OK, body: write_json(&envs_json(envs), None) }
}

/// How a request that has nothing to hand back went.
pub open spec fn done_reply(error: Option<Seq<char>>) -> ReplyView {
    match error {
        None => ReplyView { status: OK@, body: "{\"ok\":true}"@ },
        Some(e) => ReplyView { status: FAILED@, body: "{\"ok\":false,\"error\":\""@ + e + "\"}"@ },
    }
}

/// The reply to a `prepare`, a `down` or a `delete`.
pub fn done(error: Option<&str>) -> (r: Reply)
    ensures
        r@ == done_reply(opt_view(error)),
{
    match error {
        None => Reply { status: OK, body: "{\"ok\":true}".to_string() },
        Some(e) => {
            let mut s = "{\"ok\":false,\"error\":\"".to_string();
            s.append(e);
            s.append("\"}");
            Reply { status: FAILED, body: s }
        },
    }
}

/// The JSON text of an answer to an `up`.
pub open spec fn up_json(ok: bool, ip: Option<Seq<char>>, error: Option<Seq<char>>) -> Seq<char> {
    (if ok {
        "{\"ok\":true"@
    } else {
        "{\"ok\":false"@
    }) + (match ip {
        Some(t) => ",\"ip\":"@ + compact(JsonView::Text(t)),
        None => ""@,
    }) + (match error {
        Some(t) => ",\"error\":"@ + compact(JsonView::Text(t)),
        None => ""@,
    }) + "}"@
}

/// The JSON text of an answer to an `up`; what it does not have is left out.
pub fn up_text(up: &UpResponse) -> (r: String)
    ensures
        r@ == up_json(up.ok, opt_text(up.ip), opt_text(up.error)),
{
    let mut s = if up.ok {
        "{\"ok\":true".to_string()
    } else {
        "{\"ok\":false".to_string()
    };
    let mut part = "".to_string();
    match &up.ip {
        Some(t) => {
            part = ",\"ip\":".to_string();
            part.append(quoted(t.as_str()).as_str());
        },
        None => {},
    }
    s.append(part.as_str());
    part = "".to_string();
    match &up.error {
        Some(t) => {
            part = ",\"error\":".to_string();
            part.append(quoted(t.as_str()).as_str());
        },
        None => {},
    }
    s.append(part.as_str());
    s.append("}");
    s
}

/// The reply to an `up`: the address of the VM, or why there is none.
pub fn up_reply(result: Result<String, String>) -> (r: Reply)
    ensures
        r@ == match result {
            Ok(ip) => (ReplyView { status: OK@, body: up_json(true, Some(ip@), None) }),
            Err(e) => (ReplyView { status: FAILED@, body: up_json(false, None, Some(e@)) }),
        },
{
    match result {
        Ok(ip) => Reply {
            status: OK,
            body: up_text(&UpResponse { ok: true, ip: Some(ip), error: None }),
        },
        Err(e) => Reply {
            status: FAILED,
            body: up_text(&UpResponse { ok: false, ip: None, error: Some(e) }),
        },
    }
}

/// The JSON text of the status of an env.
pub open spec fn status_json(e: EnvStatus) -> Seq<char> {
    "{\"name\":"@ + compact(JsonView::Text(e.name@)) + ",\"status\":"@ + compact(
        JsonView::Text(e.status@),
    ) + (match e.ip {
        Some(t) => ",\"ip\":"@ + compact(JsonView::Text(t@)),
        None => ""@,
    }) + (match e.repo {
        Some(t) => ",\"repo\":"@ + compact(JsonView::Text(t@)),
        None => ""@,
    }) + "}"@
}

/// The JSON text of the status of an env; what it does not have is left out.
pub fn status_text(e: &EnvStatus) -> (r: String)
    ensures
        r@ == status_json(*e),
{
    let mut s = "{\"name\":".to_string();
    s.append(quoted(e.name.as_str()).as_str());
    s.append(",\"status\":");
    s.append(quoted(e.status.as_str()).as_str());
    let mut part = "".to_string();
    match &e.ip {
        Some(t) => {
            part = ",\"ip\":".to_string();
            part.append(quoted(t.as_str()).as_str());
        },
        None => {},
    }
    s.append(part.as_str());
    part = "".to_string();
    match &e.repo {
        Some(t) => {
            part = ",\"repo\":".to_string();
            part.append(quoted(t.as_str()).as_str());
        },
        None => {},
    }
    s.append(part.as_str());
    s.append("}");
    s
}

/// The JSON text of a list of envs.
pub open spec fn statuses_json(envs: Seq<EnvStatus>) -> Seq<char> {
    "["@ + joined(envs.map_values(|e: EnvStatus| status_json(e)), ","@) + "]"@
}

/// How a `list` is answered.
pub open spec fn list_answer(result: Result<Seq<EnvStatus>, Seq<char>>) -> ReplyView {
    match result {
        Ok(envs) => ReplyView { status: OK@, body: statuses_json(envs) },
        Err(e) => ReplyView { status: FAILED@, body: "{\"error\":\""@ + e + "\"}"@ },
    }
}

/// The reply to a `list`: the envs, or why there is no list.
pub fn list_reply(result: &Result<Vec<EnvStatus>, String>) -> (r: Reply)
    ensures
        r@ == list_answer(
            match result {
                Ok(envs) => Ok(envs@),
                Err(e) => Err(e@),
            },
        ),
{
    match result {
        Ok(envs) => {
            let mut parts: Vec<String> = Vec::new();
            for i in 0..envs.len()
                invariant
                    views(parts@) == envs@.take(i as int).map_values(
                        |e: EnvStatus| status_json(e),
                    ),
            {
                let t = status_text(&envs[i]);
                proof {
                    lemma_views_push(parts@, t);
                    assert(envs@.take(i + 1).map_values(|e: EnvStatus| status_json(e))
                        =~= envs@.take(i as int).map_values(|e: EnvStatus| status_json(e)).push(
                        t@,
                    ));
                }
                parts.push(t);
            }
            proof {
                assert(envs@.take(envs@.len() as int) =~= envs@);
            }
            let mut s = "[".to_string();
            s.append(join(&parts, ",").as_str());
            s.append("]");
            Reply { status: OK, body: s }
        },
        Err(e) => {
            let mut s = "{\"error\":\"".to_string();
            s.append(e.as_str());
            s.append("\"}");
            Reply { status: FAILED, body: s }
        },
    }
}

/// The status of an env, from whether it runs and the files in its runtime
/// directory, where they can be read.
pub fn env_status(name: String, running: bool, ip: Option<&str>, repo: Option<&str>) -> (r:
    EnvStatus)
    ensures
        r.name@ == name@,
        r.status@ == if running {
            "running"@
        } else {
            "stopped"@
        },
        opt_text(r.ip) == match ip {
            Some(t) => if running {
                Some(trimmed(t@))
            } else {
                None
            },
            None => None,
        },
        opt_text(r.repo) == match repo {
            Some(t) => Some(trimmed(t@)),
            None => None,
        },
{
    let status = if running {
        "running".to_string()
    } else {
        "stopped".to_string()
    };
    let ip = match ip {
        Some(t) => if running {
            Some(trim(t).to_string())
        } else {
            None
        },
        None => None,
    };
    let repo = match repo {
        Some(t) => Some(trim(t).to_string()),
        None => None,
    };
    EnvStatus { name, status, ip, repo }
}

/// The address that an `up` answers with: what the file of the env says.
pub fn up_ip(ip_file: Option<&str>) -> (r: String)
    ensures
        r@ == match ip_file {
            Some(t) => trimmed(t@),
            None => ""@,
        },
{
    match ip_file {
        Some(t) => trim(t).to_string(),
        None => "".to_string(),
    }
}

// ---------------------------------------------------------------------
// Preparing an env, bringing it up and taking it down
// ---------------------------------------------------------------------

/// The steps in which an env is brought up.
#[derive(Debug, Clone, Copy, PartialEq, Eq, Structural)]
pub enum UpStep {
    Clone,
    AskRunning,
    Start,
}

/// How a step went: what a question was answered, and whether an action was
/// successful.
#[derive(Debug, Clone, Copy, PartialEq, Eq, Structural)]
pub enum UpEvent {
    Yes,
    No,
    Failed,
}

/// What follows.
#[derive(Debug, Clone, Copy, PartialEq, Eq, Structural)]
pub enum UpNext {
    Step(UpStep),
    Done,
    Fail,
}

/// How an env is brought up: its clone is set up first, each time; only an env
/// that does not run is then started.
pub open spec fn up_after(step: UpStep, event: UpEvent) -> UpNext {
    match step {
        UpStep::Clone => if event == UpEvent::Yes {
            UpNext::Step(UpStep::AskRunning)
        } else {
            UpNext::Fail
        },
        UpStep::AskRunning => match event {
            UpEvent::Yes => UpNext::Done,
            UpEvent::No => UpNext::Step(UpStep::Start),
            UpEvent::Failed => UpNext::Fail,
        },
        UpStep::Start => if event == UpEvent::Yes {
            UpNext::Done
        } else {
            UpNext::Fail
        },
    }
}

/// What follows a step of bringing an env up.
pub fn up_next(step: UpStep, event: UpEvent) -> (r: UpNext)
    ensures
        r == up_after(step, event),
{
    match (step, event) {
        (UpStep::Clone, UpEvent::Yes) => UpNext::Step(UpStep::AskRunning),
        (UpStep::AskRunning, UpEvent::Yes) => UpNext::Done,
        (UpStep::AskRunning, UpEvent::No) => UpNext::Step(UpStep::Start),
        (UpStep::Start, UpEvent::Yes) => UpNext::Done,
        _ => UpNext::Fail,
    }
}

/// The step that bringing an env up comes to after `n` others, when the steps go
/// as `run` says.
pub open spec fn up_at(run: spec_fn(UpStep) -> UpEvent, n: nat) -> Option<UpStep>
    decreases n,
{
    if n == 0 {
        Some(UpStep::Clone)
    } else {
        match up_at(run, (n - 1) as nat) {
            Some(step) => match up_after(step, run(step)) {
                UpNext::Step(next) => Some(next),
                _ => None,
            },
            None => None,
        }
    }
}

/// An env is started only once its clone is set up, and only where it was found
/// not to run.
pub proof fn law_up_starts_only_stopped(run: spec_fn(UpStep) -> UpEvent, n: nat)
    ensures
        up_at(run, n) == Some(UpStep::AskRunning) ==> run(UpStep::Clone) == UpEvent::Yes,
        up_at(run, n) == Some(UpStep::Start) ==> run(UpStep::Clone) == UpEvent::Yes && run(
            UpStep::AskRunning,
        ) == UpEvent::No,
    decreases n,
{
    if n > 0 {
        law_up_starts_only_stopped(run, (n - 1) as nat);
    }
}

/// The steps in which an env is taken down.
#[derive(Debug, Clone, Copy, PartialEq, Eq, Structural)]
pub enum DownStep {
    AskRunning,
    Stop,
}

/// What follows a step of taking an env down.
#[derive(Debug, Clone, Copy, PartialEq, Eq, Structural)]
pub enum DownNext {
    Step(DownStep),
    Done,
    Fail,
}

/// How an env is taken down: only one that runs is stopped.
pub open spec fn down_after(step: DownStep, event: UpEvent) -> DownNext {
    match step {
        DownStep::AskRunning => match event {
            UpEvent::Yes => DownNext::Step(DownStep::Stop),
            UpEvent::No => DownNext::Done,
            UpEvent::Failed => DownNext::Fail,
        },
        DownStep::Stop => if event == UpEvent::Yes {
            DownNext::Done
        } else {
            DownNext::Fail
        },
    }
}

/// What follows a step of taking an env down.
pub fn down_next(step: DownStep, event: UpEvent) -> (r: DownNext)
    ensures
        r == down_after(step, event),
{
    match (step, event) {
        (DownStep::AskRunning, UpEvent::Yes) => DownNext::Step(DownStep::Stop),
        (DownStep::AskRunning, UpEvent::No) => DownNext::Done,
        (DownStep::Stop, UpEvent::Yes) => DownNext::Done,
        _ => DownNext::Fail,
    }
}

/// The step that taking an env down comes to after `n` others, when the steps go
/// as `run` says.
pub open spec fn down_at(run: spec_fn(DownStep) -> UpEvent, n: nat) -> Option<DownStep>
    decreases n,
{
    if n == 0 {
        Some(DownStep::AskRunning)
    } else {
        match down_at(run, (n - 1) as nat) {
            Some(step) => match down_after(step, run(step)) {
                DownNext::Step(next) => Some(next),
                _ => None,
            },
            None => None,
        }
    }
}

/// An env is stopped only where it was found to run.
pub proof fn law_down_stops_only_running(run: spec_fn(DownStep) -> UpEvent, n: nat)
    ensures
        down_at(run, n) == Some(DownStep::Stop) ==> run(DownStep::AskRunning) == UpEvent::Yes,
    decreases n,
{
    if n > 0 {
        law_down_stops_only_running(run, (n - 1) as nat);
    }
}

/// The steps in which an env is prepared.
#[derive(Debug, Clone, Copy, PartialEq, Eq, Structural)]
pub enum PrepareStep {
    Clone,
    /// Whether the env runs at an address that is known.
    AskReload,
    Register,
}

/// What follows a step of preparing an env.
#[derive(Debug, Clone, Copy, PartialEq, Eq, Structural)]
pub enum PrepareNext {
    Step(PrepareStep),
    Done,
    Fail,
}

/// How an env is prepared: its clone is set up first, each time; one that runs
/// gets its rules anew, so that they follow its configuration without a restart.
pub open spec fn prepare_after(step: PrepareStep, event: UpEvent) -> PrepareNext {
    match step {
        PrepareStep::Clone => if event == UpEvent::Yes {
            PrepareNext::Step(PrepareStep::AskReload)
        } else {
            PrepareNext::Fail
        },
        PrepareStep::AskReload => if event == UpEvent::Yes {
            PrepareNext::Step(PrepareStep::Register)
        } else {
            PrepareNext::Done
        },
        PrepareStep::Register => if event == UpEvent::Yes {
            PrepareNext::Done
        } else {
            PrepareNext::Fail
        },
    }
}

/// What follows a step of preparing an env.
pub fn prepare_next(step: PrepareStep, event: UpEvent) -> (r: PrepareNext)
    ensures
        r == prepare_after(step, event),
{
    match (step, event) {
        (PrepareStep::Clone, UpEvent::Yes) => PrepareNext::Step(PrepareStep::AskReload),
        (PrepareStep::AskReload, UpEvent::Yes) => PrepareNext::Step(PrepareStep::Register),
        (PrepareStep::AskReload, _) => PrepareNext::Done,
        (PrepareStep::Register, UpEvent::Yes) => PrepareNext::Done,
        _ => PrepareNext::Fail,
    }
}

/// The address under which a `prepare` pushes the rules of an env again: that
/// in the file of a running env, unless it is blank.
pub fn reload_ip(active: bool, ip_file: Option<&str>) -> (r: Option<String>)
    ensures
        opt_text(r) == match ip_file {
            Some(t) => if active && trimmed(t@).len() > 0 {
                Some(trimmed(t@))
            } else {
                None
            },
            None => None,
        },
{
    match ip_file {
        Some(t) => {
            let ip = trim(t);
            if active && !ip.is_empty() {
                Some(ip.to_string())
            } else {
                None
            }
        },
        None => None,
    }
}

/// The repo that an `up` starts an env for.
pub fn repo_or_unknown(repo: Option<&str>) -> (r: String)
    ensures
        r@ == match repo {
            Some(n) => n@,
            None => "unknown"@,
        },
{
    match repo {
        Some(n) => n.to_string(),
        None => "unknown".to_string(),
    }
}

/// The addresses that the services listen on: the git credential service on the
/// bridge, the control API on the loopback and on the bridge.
pub struct Listeners {
    pub git: String,
    pub control_local: String,
    pub control_bridge: String,
}

pub open spec fn socket_text(host: Seq<char>, port: u16) -> Seq<char> {
    host + ":"@ + decimal_of(port as nat)
}

fn socket_of(host: &str, port: u16) -> (r: String)
    ensures
        r@ == socket_text(host@, port),
{
    let mut s = host.to_string();
    s.append(":");
    s.append(decimal(port as u64).as_str());
    s
}

pub fn listeners(config: &ProxyConfig) -> (r: Listeners)
    ensures
        r.git@ == socket_text(config.bind_address@, config.git_credential_port),
        r.control_local@ == socket_text("127.0.0.1"@, config.control_port),
        r.control_bridge@ == socket_text(config.bind_address@, config.control_port),
{
    Listeners {
        git: socket_of(config.bind_address.as_str(), config.git_credential_port),
        control_local: socket_of("127.0.0.1", config.control_port),
        control_bridge: socket_of(config.bind_address.as_str(), config.control_port),
    }
}

// ---------------------------------------------------------------------
// What client and server say to each other
// ---------------------------------------------------------------------

/// A request begins with its method and its path.
proof fn lemma_request_begins(method: Seq<char>, path: Seq<char>, body: Seq<char>, i: int)
    requires
        0 <= i < method.len() + 1 + path.len(),
    ensures
        request_of(method, path, body).len() > method.len() + 1 + path.len(),
        request_of(method, path, body)[i] == (method + " "@ + path)[i],
{
    reveal_strlit(" ");
    reveal_strlit(" HTTP/1.0\r\nHost: localhost\r\nContent-Length: ");
}

proof fn lemma_begins_not(s: Seq<char>, pat: Seq<char>, i: int)
    requires
        0 <= i < pat.len(),
        i < s.len(),
        s[i] != pat[i],
    ensures
        !begins(s, pat),
{
    if begins(s, pat) {
        assert(s.take(pat.len() as int)[i] == s[i]);
    }
}

proof fn lemma_request_begins_with(method: Seq<char>, path: Seq<char>, body: Seq<char>)
    ensures
        begins(request_of(method, path, body), method + " "@ + path),
{
    reveal_strlit(" ");
    let s = request_of(method, path, body);
    let p = method + " "@ + path;
    assert(s.take(p.len() as int) =~= p);
}

/// What a client asks for is what the server takes it for, with the body that
/// was sent.
pub proof fn law_requests_are_understood(body: Seq<char>)
    ensures
        control_of(request_of("POST"@, "/prepare"@, body)) == ControlView::Prepare(body),
        control_of(request_of("POST"@, "/up"@, body)) == ControlView::Up(body),
        control_of(request_of("POST"@, "/down"@, body)) == ControlView::Down(body),
        control_of(request_of("POST"@, "/delete"@, body)) == ControlView::Delete(body),
        control_of(request_of("GET"@, "/list"@, body)) == ControlView::List,
{
    reveal_strlit(" ");
    reveal_strlit("POST");
    reveal_strlit("GET");
    reveal_strlit("/prepare");
    reveal_strlit("/up");
    reveal_strlit("/down");
    reveal_strlit("/delete");
    reveal_strlit("/list");
    reveal_strlit("POST /envs");
    reveal_strlit("DELETE /envs/");
    reveal_strlit("GET /envs");
    reveal_strlit("POST /prepare");
    reveal_strlit("POST /up");
    reveal_strlit("POST /down");
    reveal_strlit("POST /delete");
    reveal_strlit("GET /list");
    lemma_understood("/prepare"@, "POST /prepare"@, body);
    lemma_understood("/up"@, "POST /up"@, body);
    lemma_understood("/down"@, "POST /down"@, body);
    lemma_understood("/delete"@, "POST /delete"@, body);
    let s = request_of("GET"@, "/list"@, body);
    lemma_request_begins_with("GET"@, "/list"@, body);
    assert("GET"@ + " "@ + "/list"@ =~= "GET /list"@);
    lemma_request_begins("GET"@, "/list"@, body, 0);
    lemma_request_begins("GET"@, "/list"@, body, 5);
    lemma_begins_not(s, "POST /envs"@, 0);
    lemma_begins_not(s, "DELETE /envs/"@, 0);
    lemma_begins_not(s, "GET /envs"@, 5);
    lemma_begins_not(s, "POST /prepare"@, 0);
    lemma_begins_not(s, "POST /up"@, 0);
    lemma_begins_not(s, "POST /down"@, 0);
    lemma_begins_not(s, "POST /delete"@, 0);
}

proof fn lemma_understood(path: Seq<char>, line: Seq<char>, body: Seq<char>)
    requires
        path == "/prepare"@ && line == "POST /prepare"@ || path == "/up"@ && line == "POST /up"@
            || path == "/down"@ && line == "POST /down"@ || path == "/delete"@ && line
            == "POST /delete"@,
    ensures
        control_of(request_of("POST"@, path, body)) == if path == "/prepare"@ {
            ControlView::Prepare(body)
        } else if path == "/up"@ {
            ControlView::Up(body)
        } else if path == "/down"@ {
            ControlView::Down(body)
        } else {
            ControlView::Delete(body)
        },
{
    reveal_strlit(" ");
    reveal_strlit("POST");
    reveal_strlit("/prepare");
    reveal_strlit("/up");
    reveal_strlit("/down");
    reveal_strlit("/delete");
    reveal_strlit("POST /envs");
    reveal_strlit("DELETE /envs/");
    reveal_strlit("GET /envs");
    reveal_strlit("POST /prepare");
    reveal_strlit("POST /up");
    reveal_strlit("POST /down");
    reveal_strlit("POST /delete");
    let s = request_of("POST"@, path, body);
    assert(!"POST"@.contains('\r'));
    assert(!path.contains('\r'));
    lemma_one_line("POST"@);
    lemma_one_line(path);
    law_request_body("POST"@, path, body);
    lemma_request_begins_with("POST"@, path, body);
    assert("POST"@ + " "@ + path =~= line);
    lemma_request_begins("POST"@, path, body, 0);
    lemma_request_begins("POST"@, path, body, 6);
    lemma_request_begins("POST"@, path, body, 7);
    lemma_begins_not(s, "POST /envs"@, if path == "/prepare"@ || path == "/up"@ || path == "/down"@ {
        6
    } else {
        7
    });
    lemma_begins_not(s, "DELETE /envs/"@, 0);
    lemma_begins_not(s, "GET /envs"@, 0);
    if path != "/prepare"@ {
        lemma_begins_not(s, "POST /prepare"@, 6);
    }
    if path != "/up"@ {
        lemma_begins_not(s, "POST /up"@, 6);
    }
    if path == "/delete"@ {
        lemma_begins_not(s, "POST /down"@, 7);
    }
}

/// What a client takes for the body of a reply that the server sends.
pub open spec fn heard(reply: ReplyView) -> Seq<char> {
    let response = response_of(reply.status, reply.body);
    match body_in(response) {
        Some(b) => b,
        None => response,
    }
}

proof fn lemma_heard(error: Option<Seq<char>>)
    ensures
        heard(done_reply(error)) == done_reply(error).body,
{
    reveal_strlit("200 OK");
    reveal_strlit("500 Internal Server Error");
    let reply = done_reply(error);
    assert(!reply.status.contains('\r'));
    lemma_one_line(reply.status);
    law_response_body(reply.status, reply.body);
}

/// A client takes a success of the server for one.
pub proof fn law_success_is_accepted()
    ensures
        says_ok(heard(done_reply(None))),
{
    lemma_heard(None);
    reveal_strlit("{\"ok\":true}");
    reveal_strlit("\"ok\":true");
    let b = done_reply(None).body;
    assert(b.subrange(1, 10) =~= "\"ok\":true"@);
    assert(occurs_at(b, "\"ok\":true"@, 1));
}

/// A client takes a failure of the server for one, unless what is reported, with
/// the quote before it, says `"ok":true`.
pub proof fn law_failure_is_refused(error: Seq<char>)
    requires
        !holds("\""@ + error, "\"ok\":true"@),
    ensures
        !says_ok(heard(done_reply(Some(error)))),
{
    lemma_heard(Some(error));
    reveal_strlit("{\"ok\":false,\"error\":\"");
    reveal_strlit("\"}");
    reveal_strlit("\"");
    reveal_strlit("\"ok\":true");
    let pre = "{\"ok\":false,\"error\":\""@;
    let p = "\"ok\":true"@;
    let b = done_reply(Some(error)).body;
    if holds(b, p) {
        let i = choose|i: int| occurs_at(b, p, i);
        let m = b.subrange(i, i + 9);
        assert(m[0] == b[i] && m[1] == b[i + 1] && m[8] == b[i + 8] && m[5] == b[i + 5] && m[6]
            == b[i + 6]);
        let n = pre.len() as int;
        let e = n + error.len();
        assert(i + 9 <= e) by {
            if i + 8 >= e {
                assert(b[i + 8] == "\"}"@[i + 8 - e]);
            }
        }
        if i + 1 < n {
            assert(b[i] == pre[i] && b[i + 1] == pre[i + 1]);
            assert(i == 0 || i == 1 || i == 2 || i == 3 || i == 4 || i == 5 || i == 6 || i == 7 || i
                == 8 || i == 9 || i == 10 || i == 11 || i == 12 || i == 13 || i == 14 || i == 15
                || i == 16 || i == 17 || i == 18 || i == 19);
            assert(i == 1);
            assert(b[i + 6] == pre[7]);
        } else {
            let t = "\""@ + error;
            let k = i + 1 - n;
            assert(b.subrange(n - 1, e) =~= t);
            assert(t.subrange(k, k + 9) =~= m) by {
                assert forall|x: int| 0 <= x < 9 implies #[trigger] t.subrange(k, k + 9)[x]
                    == m[x] by {
                    assert(b.subrange(n - 1, e)[k + x] == b[i + x]);
                }
            }
            assert(occurs_at(t, p, k));
        }
    }
}

} // verus!
