use vstd::prelude::*;

use crate::path::{below, join_path};
use crate::text::{lemma_trimmed_newline, opt_view, trim, trimmed};

verus! {

/// Where a repo keeps the state of its envs, which git ignores.
pub const STATE_DIR: &'static str = ".vitro/state";

/// The entry that makes git ignore it.
pub const STATE_IGNORE: &'static str = ".vitro/state/";

pub open spec fn state_at(repo_root: Seq<char>, env: Seq<char>) -> Seq<char> {
    below(below(repo_root, STATE_DIR@), env)
}

/// The directory with the state of `env`.
pub fn env_dir(repo_root: &str, env: &str) -> (r: String)
    ensures
        r@ == state_at(repo_root@, env@),
{
    join_path(join_path(repo_root, STATE_DIR).as_str(), env)
}

/// The file that names the server of `env`.
pub fn server_file(repo_root: &str, env: &str) -> (r: String)
    ensures
        r@ == below(state_at(repo_root@, env@), "server"@),
{
    join_path(env_dir(repo_root, env).as_str(), "server")
}

/// What binds an env to a server: a directory to create, an entry that git is
/// to ignore, and a file with its text.
pub struct Binding {
    pub dir: String,
    pub ignore: String,
    pub file: String,
    pub text: String,
}

/// Bind `env` to `server`.
pub fn set_server(repo_root: &str, env: &str, server: &str) -> (r: Binding)
    ensures
        r.dir@ == state_at(repo_root@, env@),
        r.ignore@ == STATE_IGNORE@,
        r.file@ == below(state_at(repo_root@, env@), "server"@),
        r.text@ == server@ + "\n"@,
{
    let mut text = server.to_string();
    text.append("\n");
    Binding {
        dir: env_dir(repo_root, env),
        ignore: STATE_IGNORE.to_string(),
        file: server_file(repo_root, env),
        text,
    }
}

/// The server that the text of a server file names, if it names one.
pub open spec fn server_in(text: Option<Seq<char>>) -> Option<Seq<char>> {
    match text {
        Some(t) => if trimmed(t).len() == 0 {
            None
        } else {
            Some(trimmed(t))
        },
        None => None,
    }
}

/// The server that an env is bound to, from the text of its server file, if
/// there is one.
pub fn get_server(text: Option<&str>) -> (r: Option<String>)
    ensures
        match server_in(opt_view(text)) {
            Some(s) => r matches Some(x) && x@ == s,
            None => r is None,
        },
{
    match text {
        Some(t) => {
            let s = trim(t);
            if s.is_empty() {
                None
            } else {
                Some(s.to_string())
            }
        },
        None => None,
    }
}

/// The directory that goes when the state of `env` is cleared.
pub fn clear(repo_root: &str, env: &str) -> (r: String)
    ensures
        r@ == state_at(repo_root@, env@),
{
    env_dir(repo_root, env)
}

/// The server that an env was bound to is the one read back, without white space
/// around it; none is, where nothing else is left.
pub proof fn law_server_is_read_back(server: Seq<char>)
    ensures
        server_in(Some(server + "\n"@)) == (if trimmed(server).len() == 0 {
            None
        } else {
            Some(trimmed(server))
        }),
{
    reveal_strlit("\n");
    assert("\n"@ =~= seq!['\n']);
    lemma_trimmed_newline(server);
}

} // verus!
