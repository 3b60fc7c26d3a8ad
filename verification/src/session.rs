use vstd::prelude::*;

use crate::order::{ascending, sorted};
use crate::path::{below, join_path};
use crate::shell::{
    escaped, law_line_words, line_of, plain_word, shell_escape, shell_words, writes,
};
use crate::text::{chars_of, ends, ends_with, lemma_views_push, text_of, views};

verus! {

/// Where the sockets of the sessions live.
pub const SESSIONS_DIR: &'static str = "/var/lib/vitro/sessions";

pub open spec fn sockets_at(env: Seq<char>) -> Seq<char> {
    below(SESSIONS_DIR@, env)
}

pub open spec fn socket_at(env: Seq<char>, name: Seq<char>) -> Seq<char> {
    below(sockets_at(env), name + ".sock"@)
}

pub fn socket_dir(env: &str) -> (r: String)
    ensures
        r@ == sockets_at(env@),
{
    join_path(SESSIONS_DIR, env)
}

pub fn socket_path(env: &str, name: &str) -> (r: String)
    ensures
        r@ == socket_at(env@, name@),
{
    let mut file = name.to_string();
    file.append(".sock");
    join_path(socket_dir(env).as_str(), file.as_str())
}

/// The command that makes the directory `dir`.
pub open spec fn mkdir_line(dir: Seq<char>) -> Seq<char> {
    "mkdir -p "@ + escaped(dir)
}

/// The command that attaches to the session at `sock`, or starts `inner` in it.
pub open spec fn dtach_line(sock: Seq<char>, inner: Seq<char>) -> Seq<char> {
    " && dtach -A "@ + escaped(sock) + " -r winch -z sh -c "@ + escaped(inner)
}

pub open spec fn attach_line(env: Seq<char>, name: Seq<char>, inner: Seq<char>) -> Seq<char> {
    mkdir_line(sockets_at(env)) + dtach_line(socket_at(env, name), inner)
}

/// A dtach command that attaches to a session, or creates it with `inner` where
/// there is none. It suits interactive shells.
pub fn dtach_attach(env: &str, name: &str, inner: &str) -> (r: String)
    ensures
        r@ == attach_line(env@, name@, inner@),
{
    let mut r = "mkdir -p ".to_string();
    r.append(shell_escape(socket_dir(env).as_str()).as_str());
    let mut tail = " && dtach -A ".to_string();
    tail.append(shell_escape(socket_path(env, name).as_str()).as_str());
    tail.append(" -r winch -z sh -c ");
    tail.append(shell_escape(inner).as_str());
    r.append(tail.as_str());
    r
}

/// An attach command is a `mkdir` of the session directory and then a `dtach`
/// of the socket; its shell gets the inner command as one word, unchanged.
pub proof fn law_attach_words(env: Seq<char>, name: Seq<char>, inner: Seq<char>)
    ensures
        exists|mkdir: Seq<char>, dtach: Seq<char>|
            attach_line(env, name, inner) == mkdir + " && "@ + dtach && #[trigger] shell_words(mkdir)
                == Some(seq!["mkdir"@, "-p"@, sockets_at(env)]) && #[trigger] shell_words(dtach)
                == Some(
                seq![
                    "dtach"@,
                    "-A"@,
                    socket_at(env, name),
                    "-r"@,
                    "winch"@,
                    "-z"@,
                    "sh"@,
                    "-c"@,
                    inner,
                ],
            ),
{
    reveal_strlit("mkdir -p ");
    reveal_strlit("mkdir");
    reveal_strlit("-p");
    reveal_strlit(" && dtach -A ");
    reveal_strlit(" && ");
    reveal_strlit("dtach");
    reveal_strlit("-A");
    reveal_strlit(" -r winch -z sh -c ");
    reveal_strlit("-r");
    reveal_strlit("winch");
    reveal_strlit("-z");
    reveal_strlit("sh");
    reveal_strlit("-c");
    reveal_strlit(" ");
    let dir = sockets_at(env);
    let sock = socket_at(env, name);
    let b = " "@;
    let mkdir = mkdir_line(dir);
    let dtach = "dtach"@ + b + "-A"@ + b + escaped(sock) + b + "-r"@ + b + "winch"@ + b + "-z"@ + b
        + "sh"@ + b + "-c"@ + b + escaped(inner);
    assert("mkdir -p "@ =~= "mkdir"@ + b + "-p"@ + b);
    let mw = seq!["mkdir"@, "-p"@, dir];
    let mr = seq!["mkdir"@, "-p"@, escaped(dir)];
    assert(plain_word("mkdir"@) && plain_word("-p"@));
    assert(writes(mw[0], mr[0]) && writes(mw[1], mr[1]) && writes(mw[2], mr[2]));
    reveal_with_fuel(line_of, 3);
    assert(mkdir =~= line_of(mr));
    law_line_words(mw, mr);
    let dw = seq!["dtach"@, "-A"@, sock, "-r"@, "winch"@, "-z"@, "sh"@, "-c"@, inner];
    let dr = seq![
        "dtach"@,
        "-A"@,
        escaped(sock),
        "-r"@,
        "winch"@,
        "-z"@,
        "sh"@,
        "-c"@,
        escaped(inner),
    ];
    assert(plain_word("dtach"@) && plain_word("-A"@) && plain_word("-r"@) && plain_word("winch"@)
        && plain_word("-z"@) && plain_word("sh"@) && plain_word("-c"@));
    assert forall|i: int| 0 <= i < dw.len() implies writes(#[trigger] dw[i], dr[i]) by {
        assert(i == 0 || i == 1 || i == 2 || i == 3 || i == 4 || i == 5 || i == 6 || i == 7 || i
            == 8);
    }
    lemma_line_of_9(dr);
    law_line_words(dw, dr);
    assert(" && dtach -A "@ =~= " && "@ + "dtach"@ + b + "-A"@ + b);
    assert(" -r winch -z sh -c "@ =~= b + "-r"@ + b + "winch"@ + b + "-z"@ + b + "sh"@ + b + "-c"@
        + b);
    assert(attach_line(env, name, inner) =~= mkdir + " && "@ + dtach);
    assert(shell_words(mkdir) == Some(mw) && shell_words(dtach) == Some(dw));
}

proof fn lemma_line_of_9(w: Seq<Seq<char>>)
    requires
        w.len() == 9,
    ensures
        line_of(w) == w[0] + " "@ + w[1] + " "@ + w[2] + " "@ + w[3] + " "@ + w[4] + " "@ + w[5]
            + " "@ + w[6] + " "@ + w[7] + " "@ + w[8],
{
    reveal_with_fuel(line_of, 9);
}

/// The names of the sessions whose sockets are among `files`.
pub open spec fn session_names(files: Seq<Seq<char>>) -> Seq<Seq<char>>
    decreases files.len(),
{
    if files.len() == 0 {
        Seq::empty()
    } else {
        let front = session_names(files.drop_last());
        let f = files.last();
        if ends(f, ".sock"@) {
            front.push(f.take(f.len() - 5))
        } else {
            front
        }
    }
}

/// The names of the sessions whose sockets are among `files`, in ascending order.
pub fn list(files: &Vec<String>) -> (r: Vec<String>)
    ensures
        ascending(views(r@)),
        views(r@).to_multiset() == session_names(views(files@)).to_multiset(),
{
    let mut names: Vec<String> = Vec::new();
    let ghost all = views(files@);
    proof {
        reveal_strlit(".sock");
        assert(views(names@) =~= session_names(all.take(0)));
    }
    for i in 0..files.len()
        invariant
            ".sock"@.len() == 5,
            all == views(files@),
            views(names@) == session_names(all.take(i as int)),
    {
        proof {
            assert(all.take(i + 1).drop_last() =~= all.take(i as int));
        }
        if ends_with(files[i].as_str(), ".sock") {
            let v = chars_of(files[i].as_str());
            let n = text_of(&v, 0, v.len() - 5);
            proof {
                assert(n@ =~= v@.take(v@.len() - 5));
                lemma_views_push(names@, n);
            }
            names.push(n);
        }
    }
    proof {
        assert(all.take(files@.len() as int) =~= all);
    }
    sorted(&names)
}

/// The socket that goes when a session is killed.
pub fn kill(env: &str, name: &str) -> (r: String)
    ensures
        r@ == socket_at(env@, name@),
{
    socket_path(env, name)
}

/// The command that feeds `text` to the session at `sock`.
pub open spec fn feed_line(sock: Seq<char>, text: Seq<char>) -> Seq<char> {
    "printf "@ + escaped(text) + " | dtach -a "@ + escaped(sock) + " -r none"@
}

/// The arguments of `ssh` that reach a VM whose host key is not kept.
pub open spec fn quiet_ssh() -> Seq<Seq<char>> {
    seq![
        "-o"@,
        "StrictHostKeyChecking=no"@,
        "-o"@,
        "UserKnownHostsFile=/dev/null"@,
        "-o"@,
        "LogLevel=ERROR"@,
    ]
}

/// The arguments of the `ssh` call that sends `text` to a session of an env.
/// dtach forwards its input to the session and detaches when the input closes.
pub fn send(env: &str, session_name: &str, text: &str, ssh_target: &str) -> (r: Vec<String>)
    ensures
        views(r@) == quiet_ssh() + seq![
            ssh_target@,
            feed_line(socket_at(env@, session_name@), text@),
        ],
{
    let mut cmd = "printf ".to_string();
    cmd.append(shell_escape(text).as_str());
    cmd.append(" | dtach -a ");
    cmd.append(shell_escape(socket_path(env, session_name).as_str()).as_str());
    cmd.append(" -r none");
    let r = vec![
        "-o".to_string(),
        "StrictHostKeyChecking=no".to_string(),
        "-o".to_string(),
        "UserKnownHostsFile=/dev/null".to_string(),
        "-o".to_string(),
        "LogLevel=ERROR".to_string(),
        ssh_target.to_string(),
        cmd,
    ];
    proof {
        assert(views(r@) =~= quiet_ssh() + seq![
            ssh_target@,
            feed_line(socket_at(env@, session_name@), text@),
        ]);
    }
    r
}

/// The log of a session of the env at `env_dir`, which the host sees in the
/// env's persistent part.
pub fn log_path_host(env_dir: &str, session_name: &str) -> (r: String)
    ensures
        r@ == below(below(env_dir@, "persist/var/log/vitro/sessions"@), session_name@ + ".log"@),
{
    let mut file = session_name.to_string();
    file.append(".log");
    join_path(join_path(env_dir, "persist/var/log/vitro/sessions").as_str(), file.as_str())
}

/// A session whose socket is made is listed by its name, after the ones that
/// were.
pub proof fn law_socket_is_listed(files: Seq<Seq<char>>, name: Seq<char>)
    ensures
        session_names(files.push(name + ".sock"@)) == session_names(files).push(name),
{
    reveal_strlit(".sock");
    let f = name + ".sock"@;
    let more = files.push(f);
    assert(more.drop_last() =~= files);
    assert(f.skip(f.len() - 5) =~= ".sock"@);
    assert(f.take(f.len() - 5) =~= name);
}

} // verus!
