use vstd::prelude::*;
use vstd::utf8::encode_utf8;

use crate::config::EnvConfig;
use crate::json::{compact, text_holds};
use crate::number::{decimal, decimal_of};
use crate::payload::{name_body, name_view, prepare_body, prepare_view, up_body, up_view};
use crate::session::{attach_line, dtach_attach};
use crate::shell::{
    escaped, hop, hop_head, law_line_words, line_of, plain_word, shell_escape, shell_words,
    vitro_hop, vitro_hop_head, writes,
};
use crate::ssh::{parse_user_host, BadTarget};
use crate::text::{
    behind, contains, cut_once, holds, opt_text, opt_view, replaced, same, strip_prefix, views,
};
use crate::vm::{script_of, LOGIN};

verus! {

/// The port of the control API.
pub const CONTROL_PORT: u32 = 8082;

/// The answer of a server to an `up`.
#[derive(Debug)]
pub struct UpResponse {
    pub ok: bool,
    pub ip: Option<String>,
    pub error: Option<String>,
}

/// An env of a server.
#[derive(Debug)]
pub struct EnvStatus {
    pub name: String,
    pub status: String,
    pub ip: Option<String>,
    pub repo: Option<String>,
}

/// A request to the control API.
pub struct Request {
    pub method: &'static str,
    pub path: &'static str,
    pub body: Option<String>,
}

/// Why a server's answer is no success.
#[derive(Debug)]
pub enum ClientError {
    Server { error: String },
    ShellExit { status: String },
    AcpExit { status: String },
    SecretsExit { exit_code: String, stdout: String },
}

impl ClientError {
    pub fn message(&self) -> (r: String)
        ensures
            r@ == match self {
                ClientError::Server { error } => "server error: "@ + error@,
                ClientError::ShellExit { status } => "shell exited with "@ + status@,
                ClientError::AcpExit { status } => "acp forward exited with "@ + status@,
                ClientError::SecretsExit { exit_code, stdout } => "push_secrets_env exited "@
                    + exit_code@ + ": "@ + stdout@,
            },
    {
        match self {
            ClientError::Server { error } => {
                let mut s = "server error: ".to_string();
                s.append(error.as_str());
                s
            },
            ClientError::ShellExit { status } => {
                let mut s = "shell exited with ".to_string();
                s.append(status.as_str());
                s
            },
            ClientError::AcpExit { status } => {
                let mut s = "acp forward exited with ".to_string();
                s.append(status.as_str());
                s
            },
            ClientError::SecretsExit { exit_code, stdout } => {
                let mut s = "push_secrets_env exited ".to_string();
                s.append(exit_code.as_str());
                s.append(": ");
                s.append(stdout.as_str());
                s
            },
        }
    }
}

/// An answer says that all went well.
pub open spec fn says_ok(response: Seq<char>) -> bool {
    holds(response, "\"ok\":true"@)
}

/// Whether an answer to a `prepare`, a `down` or a `delete` says that all went
/// well.
pub fn accepted(response: &str) -> (r: Result<(), ClientError>)
    ensures
        match r {
            Ok(_) => says_ok(response@),
            Err(e) => !says_ok(response@) && (e matches ClientError::Server { error } && error@
                == response@),
        },
{
    if contains(response, "\"ok\":true") {
        Ok(())
    } else {
        Err(ClientError::Server { error: response.to_string() })
    }
}

/// The answer to an `up`, where it says that the env is up.
pub fn up_result(up: UpResponse) -> (r: Result<UpResponse, ClientError>)
    ensures
        match r {
            Ok(u) => up.ok && u == up,
            Err(e) => !up.ok && (e matches ClientError::Server { error } && error@
                == match up.error {
                Some(t) => t@,
                None => ""@,
            }),
        },
{
    if up.ok {
        Ok(up)
    } else {
        let error = match up.error {
            Some(t) => t,
            None => "".to_string(),
        };
        Err(ClientError::Server { error })
    }
}

/// How a shell on a server ended.
pub fn shell_ended(success: bool, status: &str) -> (r: Result<(), ClientError>)
    ensures
        match r {
            Ok(_) => success,
            Err(e) => !success && (e matches ClientError::ShellExit { status: s } && s@
                == status@),
        },
{
    if success {
        Ok(())
    } else {
        Err(ClientError::ShellExit { status: status.to_string() })
    }
}

/// How a command that was joined to the standard streams ended.
pub fn acp_ended(success: bool, status: &str) -> (r: Result<(), ClientError>)
    ensures
        match r {
            Ok(_) => success,
            Err(e) => !success && (e matches ClientError::AcpExit { status: s } && s@ == status@),
        },
{
    if success {
        Ok(())
    } else {
        Err(ClientError::AcpExit { status: status.to_string() })
    }
}

/// Whether secrets reached an env, from how the command that brings them ended.
pub fn secrets_pushed(exit_code: u32, stdout: &str) -> (r: Result<(), ClientError>)
    ensures
        match r {
            Ok(_) => exit_code == 0,
            Err(e) => exit_code != 0 && (e matches ClientError::SecretsExit {
                exit_code: c,
                stdout: o,
            } && c@ == decimal_of(exit_code as nat) && o@ == stdout@),
        },
{
    if exit_code == 0 {
        Ok(())
    } else {
        Err(
            ClientError::SecretsExit {
                exit_code: decimal(exit_code as u64),
                stdout: stdout.to_string(),
            },
        )
    }
}

// ---------------------------------------------------------------------
// Envs in a list
// ---------------------------------------------------------------------

/// The place of the first env of this name.
pub open spec fn env_from(envs: Seq<EnvStatus>, name: Seq<char>, from: int) -> Option<int>
    decreases envs.len() - from,
{
    if from < 0 || from >= envs.len() {
        None
    } else if envs[from].name@ == name {
        Some(from)
    } else {
        env_from(envs, name, from + 1)
    }
}

/// The address of the first env of this name, where it has one.
pub open spec fn ip_in(envs: Seq<EnvStatus>, name: Seq<char>) -> Option<Seq<char>> {
    match env_from(envs, name, 0) {
        Some(i) => opt_text(envs[i].ip),
        None => None,
    }
}

/// The repo of the first env of this name; the name, where it has none.
pub open spec fn repo_in(envs: Seq<EnvStatus>, name: Seq<char>) -> Seq<char> {
    match env_from(envs, name, 0) {
        Some(i) => match envs[i].repo {
            Some(r) => r@,
            None => name,
        },
        None => name,
    }
}

/// The first env of this name.
pub fn find_env<'a>(envs: &'a Vec<EnvStatus>, name: &str) -> (r: Option<&'a EnvStatus>)
    ensures
        match env_from(envs@, name@, 0) {
            Some(i) => r matches Some(e) && 0 <= i < envs@.len() && *e == envs@[i],
            None => r is None,
        },
{
    for i in 0..envs.len()
        invariant
            env_from(envs@, name@, 0) == env_from(envs@, name@, i as int),
    {
        if same(envs[i].name.as_str(), name) {
            return Some(&envs[i]);
        }
    }
    None
}

/// The address of an env, from the list of a server; none, where there is no
/// list.
pub fn vm_ip(envs: Option<&Vec<EnvStatus>>, name: &str) -> (r: Option<String>)
    ensures
        opt_text(r) == match envs {
            Some(l) => ip_in(l@, name@),
            None => None,
        },
{
    match envs {
        Some(l) => match find_env(l, name) {
            Some(e) => match &e.ip {
                Some(ip) => Some(ip.clone()),
                None => None,
            },
            None => None,
        },
        None => None,
    }
}

// ---------------------------------------------------------------------
// The client of a server
// ---------------------------------------------------------------------

/// The options of every `ssh` call to a server.
pub open spec fn hop_options() -> Seq<Seq<char>> {
    seq![
        "-A"@,
        "-o"@,
        "StrictHostKeyChecking=no"@,
        "-o"@,
        "UserKnownHostsFile=/dev/null"@,
        "-o"@,
        "ServerAliveInterval=30"@,
        "-o"@,
        "ServerAliveCountMax=3"@,
    ]
}

fn push_options(v: &mut Vec<String>)
    ensures
        views(final(v)@) == views(old(v)@) + hop_options(),
{
    let ghost before = v@;
    v.push("-A".to_string());
    v.push("-o".to_string());
    v.push("StrictHostKeyChecking=no".to_string());
    v.push("-o".to_string());
    v.push("UserKnownHostsFile=/dev/null".to_string());
    v.push("-o".to_string());
    v.push("ServerAliveInterval=30".to_string());
    v.push("-o".to_string());
    v.push("ServerAliveCountMax=3".to_string());
    proof {
        assert(views(v@) =~= views(before) + hop_options());
    }
}

/// What `ssh` runs in a VM that it reaches through a server: a login shell in
/// the workspace, in a session.
pub open spec fn jump_line(
    name: Seq<char>,
    session: Option<Seq<char>>,
    repo: Seq<char>,
) -> Seq<char> {
    attach_line(
        name,
        match session {
            Some(s) => s,
            None => "default"@,
        },
        script_of("/"@ + repo, LOGIN@),
    )
}

/// What `ssh` runs on a server to enter one of its envs.
pub open spec fn enter_line(
    name: Seq<char>,
    command: Option<Seq<char>>,
    session: Option<Seq<char>>,
) -> Seq<char> {
    match command {
        Some(c) => hop(name, c, session),
        None => hop_head(name, session),
    }
}

/// The arguments of the `ssh` call for a shell in an env of a server. An
/// interactive one reaches the VM in one hop through the server, where the
/// address is known; any other runs by the server's own `vitro`.
pub open spec fn client_shell(
    server: Seq<char>,
    name: Seq<char>,
    command: Option<Seq<char>>,
    session: Option<Seq<char>>,
    vm_ip: Option<Seq<char>>,
    repo: Seq<char>,
) -> Seq<Seq<char>> {
    match (command, vm_ip) {
        (None, Some(ip)) => seq!["-t"@] + hop_options() + seq![
            "-J"@,
            server,
            "agent@"@ + ip,
            jump_line(name, session, repo),
        ],
        _ => seq!["-t"@] + hop_options() + seq![server, enter_line(name, command, session)],
    }
}

/// The client of a server.
#[derive(Debug)]
pub struct Client {
    user_host: String,
}

impl Client {
    /// The SSH target of the server.
    pub closed spec fn server(&self) -> Seq<char> {
        self.user_host@
    }

    /// The client of the server at `user_host`, together with the user and the
    /// host to connect to.
    pub fn connect(user_host: &str) -> (r: Result<(Client, String, String), BadTarget>)
        ensures
            match cut_once(user_host@, '@') {
                Some((user, host)) => r matches Ok(p) && p.0.server() == user_host@ && p.1@ == user
                    && p.2@ == host,
                None => r matches Err(e) && e.target@ == user_host@,
            },
    {
        match parse_user_host(user_host) {
            Ok((user, host)) => Ok((Client { user_host: user_host.to_string() }, user, host)),
            Err(e) => Err(e),
        }
    }

    pub fn user_host(&self) -> (r: &str)
        ensures
            r@ == self.server(),
    {
        self.user_host.as_str()
    }

    /// The request that prepares an env.
    pub fn prepare(&self, name: &str, repo: &str, config: &EnvConfig) -> (r: Request)
        ensures
            r.method@ == "POST"@,
            r.path@ == "/prepare"@,
            opt_text(r.body) == Some(compact(prepare_view(name@, repo@, *config))),
            text_holds(opt_text(r.body)->0) == Some(prepare_view(name@, repo@, *config)),
    {
        Request { method: "POST", path: "/prepare", body: Some(prepare_body(name, repo, config)) }
    }

    /// The request that brings an env up.
    pub fn up(&self, name: &str, repo: &str, create: bool, config: &EnvConfig) -> (r: Request)
        ensures
            r.method@ == "POST"@,
            r.path@ == "/up"@,
            opt_text(r.body) == Some(compact(up_view(name@, repo@, create, *config))),
            text_holds(opt_text(r.body)->0) == Some(up_view(name@, repo@, create, *config)),
    {
        Request { method: "POST", path: "/up", body: Some(up_body(name, repo, create, config)) }
    }

    /// The request that takes an env down.
    pub fn down(&self, name: &str) -> (r: Request)
        ensures
            r.method@ == "POST"@,
            r.path@ == "/down"@,
            opt_text(r.body) == Some(compact(name_view(name@))),
            text_holds(opt_text(r.body)->0) == Some(name_view(name@)),
    {
        Request { method: "POST", path: "/down", body: Some(name_body(name)) }
    }

    /// The request that deletes an env.
    pub fn delete(&self, name: &str) -> (r: Request)
        ensures
            r.method@ == "POST"@,
            r.path@ == "/delete"@,
            opt_text(r.body) == Some(compact(name_view(name@))),
            text_holds(opt_text(r.body)->0) == Some(name_view(name@)),
    {
        Request { method: "POST", path: "/delete", body: Some(name_body(name)) }
    }

    /// The request for the list of envs.
    pub fn list(&self) -> (r: Request)
        ensures
            r.method@ == "GET"@,
            r.path@ == "/list"@,
            r.body is None,
    {
        Request { method: "GET", path: "/list", body: None }
    }

    /// The arguments of the `ssh` call for a shell in an env. The address is the
    /// one that a first list gave; the repo is looked up in a second one.
    pub fn shell(
        &self,
        name: &str,
        command: Option<&str>,
        session: Option<&str>,
        vm_ip: Option<&str>,
        envs: &Vec<EnvStatus>,
    ) -> (r: Vec<String>)
        ensures
            views(r@) == client_shell(
                self.server(),
                name@,
                opt_view(command),
                opt_view(session),
                opt_view(vm_ip),
                repo_in(envs@, name@),
            ),
    {
        let mut args: Vec<String> = Vec::new();
        args.push("-t".to_string());
        proof {
            assert(views(args@) =~= seq!["-t"@]);
        }
        push_options(&mut args);
        let ghost opts = seq!["-t"@] + hop_options();
        match (command, vm_ip) {
            (None, Some(ip)) => {
                let sess = match session {
                    Some(s) => s,
                    None => "default",
                };
                let mut ws = "/".to_string();
                match find_env(envs, name) {
                    Some(e) => match &e.repo {
                        Some(repo) => {
                            ws.append(repo.as_str());
                        },
                        None => {
                            ws.append(name);
                        },
                    },
                    None => {
                        ws.append(name);
                    },
                }
                let mut inner = "cd ".to_string();
                inner.append(shell_escape(ws.as_str()).as_str());
                inner.append(" && ");
                inner.append(LOGIN);
                let mut target = "agent@".to_string();
                target.append(ip);
                args.push("-J".to_string());
                args.push(self.user_host.clone());
                args.push(target);
                args.push(dtach_attach(name, sess, inner.as_str()));
                proof {
                    assert(views(args@) =~= opts + seq![
                        "-J"@,
                        self.server(),
                        "agent@"@ + ip@,
                        jump_line(name@, opt_view(session), repo_in(envs@, name@)),
                    ]);
                }
            },
            _ => {
                let line = match command {
                    Some(c) => vitro_hop(name, c, session),
                    None => vitro_hop_head(name, session),
                };
                args.push(self.user_host.clone());
                args.push(line);
                proof {
                    assert(views(args@) =~= opts + seq![
                        self.server(),
                        enter_line(name@, opt_view(command), opt_view(session)),
                    ]);
                }
            },
        }
        args
    }

    /// The arguments of the `ssh` call that runs one command in an env.
    pub fn shell_capture(&self, name: &str, command: &str) -> (r: Vec<String>)
        ensures
            views(r@) == hop_options() + seq![self.server(), hop(name@, command@, None)],
    {
        let mut args: Vec<String> = Vec::new();
        push_options(&mut args);
        args.push(self.user_host.clone());
        args.push(vitro_hop(name, command, None));
        proof {
            assert(views(args@) =~= hop_options() + seq![self.server(), hop(name@, command@, None)]);
        }
        args
    }

    /// The arguments of the `ssh` call that joins the standard streams to a
    /// command in an env. It has no terminal, which would change what passes
    /// through.
    pub fn acp_forward(&self, name: &str, command: &str) -> (r: Vec<String>)
        ensures
            views(r@) == hop_options() + seq![self.server(), hop(name@, command@, None)],
    {
        self.shell_capture(name, command)
    }

    /// The command that stores on the server the secrets that it is fed.
    pub fn push_secrets(&self) -> (r: &'static str)
        ensures
            r@
                == "mkdir -p /var/lib/vitro && cat > /var/lib/vitro/secrets.env && chmod 600 /var/lib/vitro/secrets.env"@,
    {
        "mkdir -p /var/lib/vitro && cat > /var/lib/vitro/secrets.env && chmod 600 /var/lib/vitro/secrets.env"
    }

    /// The command that stores secrets in an env, by way of the server's own
    /// `vitro`.
    pub fn push_secrets_env(&self, name: &str, content: &str) -> (r: String)
        ensures
            r@ == hop(name@, store_line(encode_utf8(content@)), None),
    {
        let mut cmd = "printf '".to_string();
        cmd.append(hex_text(content).as_str());
        cmd.append("' > /var/lib/vitro/secrets.env && chmod 600 /var/lib/vitro/secrets.env");
        vitro_hop(name, cmd.as_str(), None)
    }

    /// The file that is synced for a path, and the commands that bring it to an
    /// env; nothing, where the path lies outside the home. The path is looked at
    /// only where its source exists.
    pub fn sync_files(&self, home: &str, name: &str, path: &str) -> (r: Option<Synced>)
        ensures
            match synced_as(home@, path@) {
                Some(rel) => r matches Some(s) && s.source@ == sync_source_of(home@, path@)
                    && s.dest@ == sync_dest(name@, rel),
                None => r is None,
            },
            r matches Some(s) ==> {
                &&& opt_text(s.make_dir) == match parent_of(s.dest@) {
                    Some(p) => Some("mkdir -p '"@ + p + "'"@),
                    None => None,
                }
                &&& s.store@ == "cat > '"@ + s.dest@ + "'"@
            },
    {
        let source = sync_source(home, path);
        let rel = match strip_prefix(path, "~/") {
            Some(rel) => rel.to_string(),
            None => match path_behind(source.as_str(), home) {
                Some(rel) => rel,
                None => {
                    return None;
                },
            },
        };
        Some(synced(source, name, rel.as_str()))
    }
}

// ---------------------------------------------------------------------
// Secrets as text that no shell touches
// ---------------------------------------------------------------------

/// The character of a hexadecimal digit.
pub open spec fn hex_digit(d: nat) -> char {
    if d < 10 {
        (48 + d) as char
    } else {
        (87 + d) as char
    }
}

/// A byte as an escape.
pub open spec fn hex_escape(b: u8) -> Seq<char> {
    seq!['\\', 'x', hex_digit((b / 16) as nat), hex_digit((b % 16) as nat)]
}

/// Bytes as escapes.
pub open spec fn hex_of(bytes: Seq<u8>) -> Seq<char>
    decreases bytes.len(),
{
    if bytes.len() == 0 {
        Seq::empty()
    } else {
        hex_of(bytes.drop_last()) + hex_escape(bytes.last())
    }
}

/// The command that stores bytes as the secrets of an env.
pub open spec fn store_line(bytes: Seq<u8>) -> Seq<char> {
    "printf '"@ + hex_of(bytes)
        + "' > /var/lib/vitro/secrets.env && chmod 600 /var/lib/vitro/secrets.env"@
}

fn hex_char(d: u8) -> (c: char)
    requires
        d < 16,
    ensures
        c == hex_digit(d as nat),
{
    if d < 10 {
        (48 + d) as char
    } else {
        (87 + d) as char
    }
}

/// The bytes of a text as escapes.
pub fn hex_text(content: &str) -> (r: String)
    ensures
        r@ == hex_of(encode_utf8(content@)),
{
    let bytes = content.as_bytes();
    let mut s = String::new();
    for i in 0..bytes.len()
        invariant
            s@ == hex_of(bytes@.take(i as int)),
    {
        let ghost before = s@;
        proof {
            assert(bytes@.take(i + 1).drop_last() =~= bytes@.take(i as int));
        }
        s.push('\\');
        s.push('x');
        s.push(hex_char(bytes[i] / 16));
        s.push(hex_char(bytes[i] % 16));
        proof {
            assert(s@ =~= before + hex_escape(bytes@[i as int]));
        }
    }
    proof {
        assert(bytes@.take(bytes@.len() as int) =~= bytes@);
    }
    s
}

/// The number that a hexadecimal digit stands for.
pub open spec fn hex_value(c: char) -> Option<nat> {
    if '0' <= c <= '9' {
        Some((c as int - 48) as nat)
    } else if 'a' <= c <= 'f' {
        Some((c as int - 87) as nat)
    } else {
        None
    }
}

/// The bytes that `printf` makes of escapes.
pub open spec fn hex_reads(t: Seq<char>) -> Option<Seq<u8>>
    decreases t.len(),
{
    if t.len() == 0 {
        Some(Seq::empty())
    } else if t.len() < 4 {
        None
    } else {
        let n = t.len() as int;
        match (hex_reads(t.take(n - 4)), hex_value(t[n - 2]), hex_value(t[n - 1])) {
            (Some(front), Some(h), Some(l)) => if t[n - 4] == '\\' && t[n - 3] == 'x' {
                Some(front.push((h * 16 + l) as u8))
            } else {
                None
            },
            _ => None,
        }
    }
}

/// Secrets arrive as they were: the escapes say the bytes that they were made
/// from, whatever these are.
pub proof fn law_secrets_are_read_back(bytes: Seq<u8>)
    ensures
        hex_reads(hex_of(bytes)) == Some(bytes),
    decreases bytes.len(),
{
    let t = hex_of(bytes);
    if bytes.len() == 0 {
        assert(bytes =~= Seq::<u8>::empty());
    } else {
        let b = bytes.last();
        law_secrets_are_read_back(bytes.drop_last());
        let n = t.len() as int;
        assert(t.take(n - 4) =~= hex_of(bytes.drop_last()));
        assert(t[n - 4] == hex_escape(b)[0] && t[n - 3] == hex_escape(b)[1] && t[n - 2]
            == hex_escape(b)[2] && t[n - 1] == hex_escape(b)[3]);
        let h = (b / 16) as nat;
        let l = (b % 16) as nat;
        assert(h < 16 && l < 16 && h * 16 + l == b);
        assert(hex_value(hex_digit(h)) == Some(h));
        assert(hex_value(hex_digit(l)) == Some(l));
        assert(bytes.drop_last().push(b) =~= bytes);
    }
}

proof fn lemma_hex_chars(bytes: Seq<u8>)
    ensures
        forall|i: int| 0 <= i < hex_of(bytes).len() ==> #[trigger] hex_of(bytes)[i] != '\'',
    decreases bytes.len(),
{
    if bytes.len() > 0 {
        lemma_hex_chars(bytes.drop_last());
        let front = hex_of(bytes.drop_last());
        let e = hex_escape(bytes.last());
        assert forall|i: int| 0 <= i < hex_of(bytes).len() implies #[trigger] hex_of(bytes)[i]
            != '\'' by {
            if i < front.len() {
                assert(hex_of(bytes)[i] == front[i]);
            } else {
                assert(hex_of(bytes)[i] == e[i - front.len()]);
            }
        }
    }
}

proof fn lemma_not_replaced(s: Seq<char>, c: char, with: Seq<char>)
    requires
        forall|i: int| 0 <= i < s.len() ==> #[trigger] s[i] != c,
    ensures
        replaced(s, c, with) == s,
    decreases s.len(),
{
    if s.len() > 0 {
        let d = s.drop_last();
        assert forall|i: int| 0 <= i < d.len() implies #[trigger] d[i] != c by {
            assert(d[i] == s[i]);
        }
        lemma_not_replaced(d, c, with);
        assert(s[s.len() - 1] != c);
        assert(d + seq![s.last()] =~= s);
    }
}

/// No secret can leave its quotes: the shell hands the escapes to `printf` as one
/// word.
pub proof fn law_secrets_are_one_word(bytes: Seq<u8>)
    ensures
        shell_words("printf '"@ + hex_of(bytes) + "'"@) == Some(seq!["printf"@, hex_of(bytes)]),
{
    reveal_strlit("printf '");
    reveal_strlit("printf");
    reveal_strlit("'");
    reveal_strlit(" ");
    reveal_strlit("'\\''");
    let h = hex_of(bytes);
    lemma_hex_chars(bytes);
    lemma_not_replaced(h, '\'', "'\\''"@);
    let ws = seq!["printf"@, h];
    let wr = seq!["printf"@, escaped(h)];
    assert(plain_word("printf"@));
    assert(writes(ws[0], wr[0]) && writes(ws[1], wr[1]));
    reveal_with_fuel(line_of, 2);
    assert("printf '"@ =~= "printf"@ + " "@ + "'"@);
    assert("printf '"@ + h + "'"@ =~= line_of(wr));
    law_line_words(ws, wr);
}

// ---------------------------------------------------------------------
// Synced files
// ---------------------------------------------------------------------

/// A file that is brought to an env: where it is read, where it goes, the
/// command that makes the directory for it, and the one that stores what it is
/// fed.
pub struct Synced {
    pub source: String,
    pub dest: String,
    pub make_dir: Option<String>,
    pub store: String,
}

/// What `std::path::Path::strip_prefix` leaves of a path; nothing, where it does
/// not begin with the base.
pub uninterp spec fn stripped_path(path: Seq<char>, base: Seq<char>) -> Option<Seq<char>>;

/// The path without its last component, as `std::path::Path::parent` gives it.
pub uninterp spec fn parent_of(path: Seq<char>) -> Option<Seq<char>>;

/// `std::path::Path::strip_prefix`: the rest of a path that begins with `base`,
/// component by component.
#[verifier::external_body]
fn path_behind(path: &str, base: &str) -> (r: Option<String>)
    ensures
        opt_text(r) == stripped_path(path@, base@),
{
    std::path::Path::new(path).strip_prefix(base).ok().and_then(|p| p.to_str()).map(str::to_string)
}

/// `std::path::Path::parent`: the path without its last component; none for a
/// root or for nothing.
#[verifier::external_body]
fn path_parent(path: &str) -> (r: Option<String>)
    ensures
        opt_text(r) == parent_of(path@),
{
    std::path::Path::new(path).parent().and_then(|p| p.to_str()).map(str::to_string)
}

/// Where a path is read: `~/` stands for the home.
pub open spec fn sync_source_of(home: Seq<char>, path: Seq<char>) -> Seq<char> {
    match behind(path, "~/"@) {
        Some(rel) => home + "/"@ + rel,
        None => path,
    }
}

/// What a path is called below the home; nothing, where it lies outside.
pub open spec fn synced_as(home: Seq<char>, path: Seq<char>) -> Option<Seq<char>> {
    match behind(path, "~/"@) {
        Some(rel) => Some(rel),
        None => stripped_path(path, home),
    }
}

/// Where a file waits for an env.
pub open spec fn sync_dest(name: Seq<char>, rel: Seq<char>) -> Seq<char> {
    "/var/lib/vitro/envs/"@ + name + "/sync/"@ + rel
}

/// Where a path is read: `~/` stands for the home.
pub fn sync_source(home: &str, path: &str) -> (r: String)
    ensures
        r@ == sync_source_of(home@, path@),
{
    match strip_prefix(path, "~/") {
        Some(rel) => {
            let mut s = home.to_string();
            s.append("/");
            s.append(rel);
            s
        },
        None => path.to_string(),
    }
}

/// The command that makes a directory for a file that is brought to an env.
pub fn make_dir_command(dir: &str) -> (r: String)
    ensures
        r@ == "mkdir -p '"@ + dir@ + "'"@,
{
    let mut s = "mkdir -p '".to_string();
    s.append(dir);
    s.append("'");
    s
}

/// How a file that is called `rel` below the home is brought to an env.
pub fn synced(source: String, name: &str, rel: &str) -> (r: Synced)
    ensures
        r.source@ == source@,
        r.dest@ == sync_dest(name@, rel@),
        opt_text(r.make_dir) == match parent_of(r.dest@) {
            Some(p) => Some("mkdir -p '"@ + p + "'"@),
            None => None,
        },
        r.store@ == "cat > '"@ + r.dest@ + "'"@,
{
    let mut dest = "/var/lib/vitro/envs/".to_string();
    dest.append(name);
    dest.append("/sync/");
    dest.append(rel);
    let make_dir = match path_parent(dest.as_str()) {
        Some(p) => Some(make_dir_command(p.as_str())),
        None => None,
    };
    let mut store = "cat > '".to_string();
    store.append(dest.as_str());
    store.append("'");
    Synced { source, dest, make_dir, store }
}

/// The command that hands the synced files to the user of an env.
pub fn own_synced(name: &str) -> (r: String)
    ensures
        r@ == "chown -R 1000:users /var/lib/vitro/envs/"@ + name@ + "/sync/ 2>/dev/null"@,
{
    let mut s = "chown -R 1000:users /var/lib/vitro/envs/".to_string();
    s.append(name);
    s.append("/sync/ 2>/dev/null");
    s
}

} // verus!
