use vstd::prelude::*;

use crate::client::{Client, EnvStatus};
use crate::laws::lemma_views;
use crate::path::below;
use crate::session::{
    dtach_attach, kill, law_attach_words, list, log_path_host, send, session_names, socket_dir,
    socket_path,
};
use crate::shell::{
    escaped, hop_head, law_escaped_is_one_word, law_hop_words, law_line_words, line_of, plain_word,
    shell_words, writes,
};
use crate::text::{ends, opt_view, trimmed, views};
use crate::transport::{CellFacts, LocalTransport, RemoteTransport, Transport};
use crate::vm::{
    acp_forward, law_run_words, script_of, shell, shell_capture, shell_line, ssh_target, sync_args,
    workspace, workspace_of, VmError,
};

verus! {

// ---------------------------------------------------------------------
// Sessions
// ---------------------------------------------------------------------

/// The socket of a session of an env.
pub open spec fn socket_for(env: Seq<char>, session: Seq<char>) -> Seq<char> {
    below(below("/var/lib/vitro/sessions"@, env), session + ".sock"@)
}

/// Every operation on a session of an env uses one and the same socket: it lies in
/// the directory of the env, and is the one that goes when the session is killed.
pub proof fn law_one_socket(env: &str, session: &str, dir: String, sock: String, killed: String)
    requires
        call_ensures(socket_dir, (env,), dir),
        call_ensures(socket_path, (env, session), sock),
        call_ensures(kill, (env, session), killed),
    ensures
        dir@ == below("/var/lib/vitro/sessions"@, env@),
        sock@ == socket_for(env@, session@),
        killed@ == sock@,
{
}

/// Two sessions of an env have two sockets.
pub proof fn law_sockets_differ(env: &str, one: &str, other: &str, a: String, b: String)
    requires
        call_ensures(socket_path, (env, one), a),
        call_ensures(socket_path, (env, other), b),
        one@ != other@,
        one@.len() > 0 ==> one@[0] != '/',
        other@.len() > 0 ==> other@[0] != '/',
    ensures
        a@ != b@,
{
    lemma_sockets_differ(env@, one@, other@);
}

proof fn lemma_sockets_differ(env: Seq<char>, one: Seq<char>, other: Seq<char>)
    requires
        one != other,
        one.len() > 0 ==> one[0] != '/',
        other.len() > 0 ==> other[0] != '/',
    ensures
        socket_for(env, one) != socket_for(env, other),
{
    reveal_strlit(".sock");
    let dir = below("/var/lib/vitro/sessions"@, env);
    let p = if dir.len() == 0 || dir.last() == '/' {
        dir
    } else {
        dir + "/"@
    };
    let a = socket_for(env, one);
    let b = socket_for(env, other);
    assert(a =~= p + one + ".sock"@);
    assert(b =~= p + other + ".sock"@);
    if a == b {
        assert(one.len() == other.len());
        assert forall|i: int| 0 <= i < one.len() implies one[i] == other[i] by {
            assert(a[p.len() + i] == one[i]);
            assert(b[p.len() + i] == other[i]);
        }
        assert(one =~= other);
    }
}

/// A line attaches to the session of an env, or starts a script in it: the shell
/// makes the directory of the sockets, and then runs `dtach` on the socket, with
/// the script as one word.
pub open spec fn attaches(line: Seq<char>, env: Seq<char>, session: Seq<char>, script: Seq<char>) -> bool {
    exists|mkdir: Seq<char>, dtach: Seq<char>|
        {
            &&& line == mkdir + " && "@ + dtach
            &&& #[trigger] shell_words(mkdir) == Some(
                seq!["mkdir"@, "-p"@, below("/var/lib/vitro/sessions"@, env)],
            )
            &&& #[trigger] shell_words(dtach) == Some(
                seq![
                    "dtach"@,
                    "-A"@,
                    socket_for(env, session),
                    "-r"@,
                    "winch"@,
                    "-z"@,
                    "sh"@,
                    "-c"@,
                    script,
                ],
            )
        }
}

/// A script changes to a directory, which the shell reads as one word, and then
/// runs a command.
pub open spec fn runs_in(script: Seq<char>, dir: Seq<char>, command: Seq<char>) -> bool {
    exists|word: Seq<char>|
        script == "cd "@ + word + " && "@ + command && #[trigger] shell_words(word) == Some(
            seq![dir],
        )
}

proof fn lemma_runs_in(dir: Seq<char>, command: Seq<char>)
    ensures
        runs_in(script_of(dir, command), dir, command),
{
    law_escaped_is_one_word(dir);
    assert(shell_words(escaped(dir)) == Some(seq![dir]));
}

/// The command that attaches to a session attaches to that session.
pub proof fn law_attach(env: &str, session: &str, script: &str, line: String)
    requires
        call_ensures(dtach_attach, (env, session, script), line),
    ensures
        attaches(line@, env@, session@, script@),
{
    law_attach_words(env@, session@, script@);
}

/// What is sent to a session goes, unchanged, to the socket of that session in the
/// VM that is reached at the target.
pub proof fn law_sent_to_session(
    env: &str,
    session: &str,
    text: &str,
    target: &str,
    r: Vec<String>,
)
    requires
        call_ensures(send, (env, session, text, target), r),
    ensures
        r@.len() > 1,
        r@[r@.len() - 2]@ == target@,
        exists|print: Seq<char>, dtach: Seq<char>|
            {
                &&& r@[r@.len() - 1]@ == print + " | "@ + dtach
                &&& #[trigger] shell_words(print) == Some(seq!["printf"@, text@])
                &&& #[trigger] shell_words(dtach) == Some(
                    seq!["dtach"@, "-a"@, socket_for(env@, session@), "-r"@, "none"@],
                )
            },
{
    lemma_views(r@);
    let sock = socket_for(env@, session@);
    let b = " "@;
    reveal_strlit("printf ");
    reveal_strlit("printf");
    reveal_strlit(" ");
    reveal_strlit(" | dtach -a ");
    reveal_strlit(" | ");
    reveal_strlit("dtach");
    reveal_strlit("-a");
    reveal_strlit(" -r none");
    reveal_strlit("-r");
    reveal_strlit("none");
    let print = "printf"@ + b + escaped(text@);
    let dtach = "dtach"@ + b + "-a"@ + b + escaped(sock) + b + "-r"@ + b + "none"@;
    let pw = seq!["printf"@, text@];
    let pr = seq!["printf"@, escaped(text@)];
    assert(plain_word("printf"@) && plain_word("dtach"@) && plain_word("-a"@) && plain_word("-r"@)
        && plain_word("none"@));
    assert(writes(pw[0], pr[0]) && writes(pw[1], pr[1]));
    reveal_with_fuel(line_of, 6);
    assert(print =~= line_of(pr));
    law_line_words(pw, pr);
    let dw = seq!["dtach"@, "-a"@, sock, "-r"@, "none"@];
    let dr = seq!["dtach"@, "-a"@, escaped(sock), "-r"@, "none"@];
    assert forall|i: int| 0 <= i < dw.len() implies writes(#[trigger] dw[i], dr[i]) by {
        assert(i == 0 || i == 1 || i == 2 || i == 3 || i == 4);
    }
    assert(dtach =~= line_of(dr));
    law_line_words(dw, dr);
    assert("printf "@ =~= "printf"@ + b);
    assert(" | dtach -a "@ =~= " | "@ + "dtach"@ + b + "-a"@ + b);
    assert(" -r none"@ =~= b + "-r"@ + b + "none"@);
    assert(r@[r@.len() - 1]@ =~= print + " | "@ + dtach);
    assert(shell_words(print) == Some(pw) && shell_words(dtach) == Some(dw));
}

/// A file that is no socket names no session.
pub proof fn law_only_sockets_are_listed(files: Seq<Seq<char>>, file: Seq<char>)
    requires
        !ends(file, ".sock"@),
    ensures
        session_names(files.push(file)) == session_names(files),
        session_names(Seq::<Seq<char>>::empty()).len() == 0,
{
    assert(files.push(file).drop_last() =~= files);
}

/// Every session whose socket is there is listed, and nothing else is.
pub proof fn law_listed_sessions(files: &Vec<String>, r: Vec<String>, name: Seq<char>)
    requires
        call_ensures(list, (files,), r),
    ensures
        views(r@).contains(name) <==> views(files@).contains(name + ".sock"@),
{
    let names = session_names(views(files@));
    lemma_session_names(views(files@), name);
    broadcast use vstd::seq_lib::group_to_multiset_ensures;

    assert(views(r@).to_multiset().count(name) == names.to_multiset().count(name));
}

proof fn lemma_session_names(files: Seq<Seq<char>>, name: Seq<char>)
    ensures
        session_names(files).contains(name) <==> files.contains(name + ".sock"@),
    decreases files.len(),
{
    reveal_strlit(".sock");
    let want = name + ".sock"@;
    if files.len() > 0 {
        let front = files.drop_last();
        let f = files.last();
        lemma_session_names(front, name);
        assert(files =~= front.push(f));
        if ends(f, ".sock"@) {
            let t = f.take(f.len() - 5);
            assert(f =~= t + ".sock"@);
            assert(want.take(want.len() - 5) =~= name);
            assert((t == name) <==> (f == want));
            lemma_contains_push(session_names(front), t, name);
        } else {
            assert(want.skip(want.len() - 5) =~= ".sock"@);
            assert(f != want);
        }
        lemma_contains_push(front, f, want);
    }
}

proof fn lemma_contains_push(s: Seq<Seq<char>>, x: Seq<char>, y: Seq<char>)
    ensures
        s.push(x).contains(y) <==> s.contains(y) || x == y,
{
    if s.contains(y) {
        let i = choose|i: int| 0 <= i < s.len() && s[i] == y;
        assert(s.push(x)[i] == y);
    }
    if x == y {
        assert(s.push(x)[s.len() as int] == y);
    }
    if s.push(x).contains(y) && x != y {
        let i = choose|i: int| 0 <= i < s.push(x).len() && s.push(x)[i] == y;
        assert(s[i] == y);
    }
}

/// The log of a session is named after it, and lies where its env keeps the logs.
pub proof fn law_log_of_session(dir: &str, session: &str, r: String)
    requires
        call_ensures(log_path_host, (dir, session), r),
    ensures
        r@ == below(below(dir@, "persist/var/log/vitro/sessions"@), session@ + ".log"@),
{
}

// ---------------------------------------------------------------------
// Shells on this machine
// ---------------------------------------------------------------------

/// The workspace of an env is named after its repo.
pub open spec fn works_in(repo_file: Option<Seq<char>>) -> Seq<char> {
    "/"@ + match repo_file {
        Some(t) => trimmed(t),
        None => "env"@,
    }
}

/// A line runs a command in a directory, in a shell of its own.
pub open spec fn runs_alone(line: Seq<char>, dir: Seq<char>, command: Seq<char>) -> bool {
    exists|script: Seq<char>| #[trigger]
        runs_in(script, dir, command) && shell_words(line) == Some(seq!["sh"@, "-c"@, script])
}

/// A line runs a command in a directory, in a session of an env.
pub open spec fn runs_attached(
    line: Seq<char>,
    env: Seq<char>,
    session: Seq<char>,
    dir: Seq<char>,
    command: Seq<char>,
) -> bool {
    exists|script: Seq<char>| #[trigger]
        runs_in(script, dir, command) && attaches(line, env, session, script)
}

/// A call of `ssh` enters a VM at a target. A command without a session runs by
/// itself, without a terminal. All else takes a terminal and attaches to the
/// session that is named, to `default` where none is, and runs the command there,
/// or a login shell where there is none. All of it happens in the workspace.
pub open spec fn enters(
    r: Seq<Seq<char>>,
    name: Seq<char>,
    target: Seq<char>,
    repo_file: Option<Seq<char>>,
    command: Option<Seq<char>>,
    session: Option<Seq<char>>,
) -> bool {
    let n = r.len() as int;
    let line = r[n - 1];
    let cmd = match command {
        Some(c) => c,
        None => "exec $SHELL -l"@,
    };
    &&& n > 2
    &&& r[n - 2] == target
    &&& r.contains("-A"@)
    &&& r[0] == "-t"@ <==> !(command is Some && session is None)
    &&& if command is Some && session is None {
        runs_alone(line, works_in(repo_file), cmd)
    } else {
        runs_attached(
            line,
            name,
            match session {
                Some(s) => s,
                None => "default"@,
            },
            works_in(repo_file),
            cmd,
        )
    }
}

proof fn lemma_enters(
    name: Seq<char>,
    target: Seq<char>,
    repo_file: Option<Seq<char>>,
    command: Option<Seq<char>>,
    session: Option<Seq<char>>,
)
    ensures
        enters(
            crate::vm::vm_ssh(
                crate::vm::takes_pty(command, session),
                target,
                shell_line(name, workspace_of(repo_file), command, session),
            ),
            name,
            target,
            repo_file,
            command,
            session,
        ),
{
    reveal_strlit("-t");
    reveal_strlit("-A");
    assert("-t"@[1] != "-A"@[1]);
    let ws = workspace_of(repo_file);
    let cmd = match command {
        Some(c) => c,
        None => "exec $SHELL -l"@,
    };
    let script = script_of(ws, cmd);
    lemma_runs_in(ws, cmd);
    let sess = match session {
        Some(s) => s,
        None => "default"@,
    };
    law_attach_words(name, sess, script);
    law_run_words(ws, cmd);
    let r = crate::vm::vm_ssh(
        crate::vm::takes_pty(command, session),
        target,
        shell_line(name, ws, command, session),
    );
    if command is Some && session is None {
        assert(r[0] == "-A"@);
    } else {
        assert(r[1] == "-A"@);
    }
    let line = r[r.len() - 1];
    assert(works_in(repo_file) == ws);
    if command is Some && session is None {
        assert(runs_alone(line, ws, cmd));
    } else {
        assert(runs_attached(line, name, sess, ws, cmd));
    }
}

/// A shell enters the VM at the target, in the session that is named, whether or
/// not there is a command.
pub proof fn law_shell_enters(
    name: &str,
    target: &str,
    repo_file: Option<&str>,
    command: Option<&str>,
    session: Option<&str>,
    r: Vec<String>,
)
    requires
        call_ensures(shell, (name, target, repo_file, command, session), r),
    ensures
        enters(
            views(r@),
            name@,
            target@,
            opt_view(repo_file),
            opt_view(command),
            opt_view(session),
        ),
{
    lemma_enters(name@, target@, opt_view(repo_file), opt_view(command), opt_view(session));
}

/// The same by way of the transport.
pub proof fn law_local_shell_enters(
    t: &LocalTransport,
    cell: &str,
    command: Option<&str>,
    session: Option<&str>,
    facts: &CellFacts,
    r: Vec<String>,
)
    requires
        call_ensures(LocalTransport::shell, (t, cell, command, session, facts), r),
    ensures
        enters(
            views(r@),
            cell@,
            facts.target@,
            match facts.repo_file {
                Some(f) => Some(f@),
                None => None,
            },
            opt_view(command),
            opt_view(session),
        ),
{
    lemma_enters(
        cell@,
        facts.target@,
        match facts.repo_file {
            Some(f) => Some(f@),
            None => None,
        },
        opt_view(command),
        opt_view(session),
    );
}

/// Two shells in sessions with different names never attach to one socket.
pub proof fn law_shells_keep_apart(
    env: Seq<char>,
    one: Seq<char>,
    other: Seq<char>,
    a: Seq<char>,
    b: Seq<char>,
    x: Seq<char>,
    y: Seq<char>,
)
    requires
        attaches(a, env, one, x),
        attaches(b, env, other, y),
        one != other,
        one.len() > 0 ==> one[0] != '/',
        other.len() > 0 ==> other[0] != '/',
    ensures
        socket_for(env, one) != socket_for(env, other),
{
    lemma_sockets_differ(env, one, other);
}

/// A command that is captured, and one that is joined to the standard streams, run
/// by themselves in the workspace of the VM at the target.
pub proof fn law_captured_runs_alone(
    target: &str,
    repo_file: Option<&str>,
    command: &str,
    captured: Vec<String>,
    joined: Vec<String>,
)
    requires
        call_ensures(shell_capture, (target, repo_file, command), captured),
        call_ensures(acp_forward, (target, repo_file, command), joined),
    ensures
        enters(
            views(captured@),
            Seq::empty(),
            target@,
            opt_view(repo_file),
            Some(command@),
            None,
        ),
        views(joined@) == views(captured@),
{
    lemma_enters(Seq::empty(), target@, opt_view(repo_file), Some(command@), None);
}

/// A VM is reached at its address, as the user that its file names; without the
/// file with its address it is not running, and is not reached.
pub proof fn law_reached_at_its_address(
    ip_file: Option<&str>,
    user_file: Option<&str>,
    r: Result<(String, String), VmError>,
)
    requires
        call_ensures(ssh_target, (ip_file, user_file), r),
    ensures
        r is Ok <==> ip_file is Some,
        r matches Err(e) ==> e is NotRunning,
        r matches Ok(p) ==> p.0@ == trimmed(ip_file->0@) && (match user_file {
            Some(u) => if trimmed(u@).len() > 0 {
                p.1@ == trimmed(u@) + "@"@ + p.0@
            } else {
                p.1@ == p.0@
            },
            None => p.1@ == p.0@,
        }),
{
    reveal_strlit("");
}

/// The files that wait for an env are copied to the home of its VM.
pub proof fn law_sync_goes_home(name: &str, target: &str, r: Vec<String>)
    requires
        call_ensures(sync_args, (name, target), r),
    ensures
        r@.len() > 2 && r@[0]@ == "-r"@,
        r@[r@.len() - 2]@ == "/var/lib/vitro/envs/"@ + name@ + "/sync"@ + "/."@,
        r@[r@.len() - 1]@ == target@ + ":~/"@,
{
    lemma_views(r@);
}

// ---------------------------------------------------------------------
// Shells by way of a server
// ---------------------------------------------------------------------

/// The words of a call of the server's own `vitro` that enters an env.
pub open spec fn hop_calls(
    name: Seq<char>,
    command: Option<Seq<char>>,
    session: Option<Seq<char>>,
) -> Seq<Seq<char>> {
    seq!["vitro"@, "shell"@, "--server"@, name] + (match session {
        Some(s) => seq!["--session"@, s],
        None => Seq::empty(),
    }) + (match command {
        Some(c) => seq!["-c"@, c],
        None => Seq::empty(),
    })
}

proof fn lemma_head_words(name: Seq<char>, session: Option<Seq<char>>)
    requires
        plain_word(name),
    ensures
        shell_words(hop_head(name, session)) == Some(hop_calls(name, None, session)),
{
    reveal_strlit("vitro shell --server ");
    reveal_strlit(" --session ");
    reveal_strlit("vitro");
    reveal_strlit("shell");
    reveal_strlit("--server");
    reveal_strlit("--session");
    reveal_strlit(" ");
    assert(plain_word("vitro"@) && plain_word("shell"@) && plain_word("--server"@) && plain_word(
        "--session"@,
    ));
    let b = " "@;
    assert("vitro shell --server "@ =~= "vitro"@ + b + "shell"@ + b + "--server"@ + b);
    assert(" --session "@ =~= b + "--session"@ + b);
    reveal_with_fuel(line_of, 7);
    match session {
        Some(s) => {
            let ws = seq!["vitro"@, "shell"@, "--server"@, name, "--session"@, s];
            let wr = seq!["vitro"@, "shell"@, "--server"@, name, "--session"@, escaped(s)];
            assert(hop_head(name, session) =~= line_of(wr));
            law_line_words(ws, wr);
            assert(ws =~= hop_calls(name, None, session));
        },
        None => {
            let ws = seq!["vitro"@, "shell"@, "--server"@, name];
            assert(hop_head(name, session) =~= line_of(ws));
            law_line_words(ws, ws);
            assert(ws =~= hop_calls(name, None, session));
        },
    }
}

/// A call of `ssh` enters an env of a server. An interactive one goes through the
/// server to the VM, where its address is known, and attaches to the session that
/// is named, else to `default`, with a login shell in the workspace of the repo.
/// Any other is handed to the server's own `vitro`, with its command and its
/// session.
pub open spec fn enters_by(
    r: Seq<Seq<char>>,
    server: Seq<char>,
    name: Seq<char>,
    command: Option<Seq<char>>,
    session: Option<Seq<char>>,
    vm_ip: Option<Seq<char>>,
    repo: Seq<char>,
) -> bool {
    let n = r.len() as int;
    &&& n > 4
    &&& r[0] == "-t"@
    &&& r[1] == "-A"@
    &&& if command is None && vm_ip is Some {
        &&& r[n - 4] == "-J"@
        &&& r[n - 3] == server
        &&& r[n - 2] == "agent@"@ + vm_ip->0
        &&& runs_attached(
            r[n - 1],
            name,
            match session {
                Some(s) => s,
                None => "default"@,
            },
            "/"@ + repo,
            "exec $SHELL -l"@,
        )
    } else {
        &&& r[n - 2] == server
        &&& plain_word(name) ==> shell_words(r[n - 1]) == Some(hop_calls(name, command, session))
    }
}

/// The repo of an env in a list: that of the first env of its name, where that has
/// one; else it is called as the env is.
pub open spec fn repo_listed(envs: Seq<EnvStatus>, name: Seq<char>, repo: Seq<char>) -> bool {
    ||| exists|i: int|
        0 <= i < envs.len() && (#[trigger] envs[i]).name@ == name && (forall|k: int|
            0 <= k < i ==> (#[trigger] envs[k]).name@ != name) && repo == (match envs[i].repo {
            Some(x) => x@,
            None => name,
        })
    ||| (forall|k: int| 0 <= k < envs.len() ==> (#[trigger] envs[k]).name@ != name) && repo == name
}

proof fn lemma_repo_listed(envs: Seq<EnvStatus>, name: Seq<char>, from: int)
    requires
        0 <= from <= envs.len(),
        forall|k: int| 0 <= k < from ==> (#[trigger] envs[k]).name@ != name,
        crate::client::env_from(envs, name, 0) == crate::client::env_from(envs, name, from),
    ensures
        repo_listed(envs, name, crate::client::repo_in(envs, name)),
    decreases envs.len() - from,
{
    if from < envs.len() {
        if envs[from].name@ != name {
            lemma_repo_listed(envs, name, from + 1);
        } else {
            assert(envs[from].name@ == name);
        }
    }
}

/// A shell in an env of a server enters that env, in the session that is named.
pub proof fn law_client_shell_enters(
    c: &Client,
    name: &str,
    command: Option<&str>,
    session: Option<&str>,
    vm_ip: Option<&str>,
    envs: &Vec<EnvStatus>,
    r: Vec<String>,
)
    requires
        call_ensures(Client::shell, (c, name, command, session, vm_ip, envs), r),
    ensures
        exists|repo: Seq<char>| #[trigger]
            repo_listed(envs@, name@, repo) && enters_by(
                views(r@),
                c.server(),
                name@,
                opt_view(command),
                opt_view(session),
                opt_view(vm_ip),
                repo,
            ),
{
    let repo = crate::client::repo_in(envs@, name@);
    lemma_repo_listed(envs@, name@, 0);
    lemma_client_shell(
        c.server(),
        name@,
        opt_view(command),
        opt_view(session),
        opt_view(vm_ip),
        repo,
    );
}

proof fn lemma_client_shell(
    server: Seq<char>,
    name: Seq<char>,
    command: Option<Seq<char>>,
    session: Option<Seq<char>>,
    vm_ip: Option<Seq<char>>,
    repo: Seq<char>,
)
    ensures
        enters_by(
            crate::client::client_shell(server, name, command, session, vm_ip, repo),
            server,
            name,
            command,
            session,
            vm_ip,
            repo,
        ),
{
    let ws = "/"@ + repo;
    let script = script_of(ws, "exec $SHELL -l"@);
    lemma_runs_in(ws, "exec $SHELL -l"@);
    let sess = match session {
        Some(s) => s,
        None => "default"@,
    };
    law_attach_words(name, sess, script);
    if plain_word(name) {
        match command {
            Some(c) => {
                law_hop_words(name, c, session);
            },
            None => {
                lemma_head_words(name, session);
            },
        }
    }
    assert(runs_in(script, "/"@ + repo, "exec $SHELL -l"@));
    assert(runs_attached(
        crate::session::attach_line(name, sess, script),
        name,
        sess,
        "/"@ + repo,
        "exec $SHELL -l"@,
    ));
}

/// The same by way of the transport.
pub proof fn law_remote_shell_enters(
    t: &RemoteTransport,
    cell: &str,
    command: Option<&str>,
    session: Option<&str>,
    facts: &CellFacts,
    r: Vec<String>,
)
    requires
        call_ensures(RemoteTransport::shell, (t, cell, command, session, facts), r),
    ensures
        exists|repo: Seq<char>| #[trigger]
            repo_listed(facts.envs@, cell@, repo) && enters_by(
                views(r@),
                t.client.server(),
                cell@,
                opt_view(command),
                opt_view(session),
                match facts.vm_ip {
                    Some(ip) => Some(ip@),
                    None => None,
                },
                repo,
            ),
{
    let repo = crate::client::repo_in(facts.envs@, cell@);
    lemma_repo_listed(facts.envs@, cell@, 0);
    lemma_client_shell(
        t.client.server(),
        cell@,
        opt_view(command),
        opt_view(session),
        match facts.vm_ip {
            Some(ip) => Some(ip@),
            None => None,
        },
        repo,
    );
}

/// A command that is captured in an env of a server, and one that is joined to the
/// standard streams, are handed to the server's own `vitro` as they are, without a
/// terminal.
pub proof fn law_client_captures(c: &Client, name: &str, command: &str, captured: Vec<String>, joined: Vec<String>)
    requires
        call_ensures(Client::shell_capture, (c, name, command), captured),
        call_ensures(Client::acp_forward, (c, name, command), joined),
        plain_word(name@),
    ensures
        captured@.len() > 2,
        captured@[0]@ == "-A"@,
        captured@[captured@.len() - 2]@ == c.server(),
        shell_words(captured@[captured@.len() - 1]@) == Some(
            hop_calls(name@, Some(command@), None),
        ),
        views(joined@) == views(captured@),
{
    lemma_views(captured@);
    law_hop_words(name@, command@, None);
}

} // verus!
