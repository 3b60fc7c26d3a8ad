use vstd::prelude::*;

use crate::env::{env_at, env_dir, env_repo_dir};
use crate::number::{parse_unsigned, unsigned_upto};
use crate::path::below;
use crate::text::{
    contains, ends_with, holds, is_white, lemma_lines_one_more, lemma_trimmed_self, lines, lines_of,
    same, trim, trimmed, views, without_cr, words, words_of,
};

verus! {

/// A git repository, by the directory that is its root.
#[derive(Debug)]
pub struct Repo {
    root: String,
}

impl View for Repo {
    type V = Seq<char>;

    closed spec fn view(&self) -> Seq<char> {
        self.root@
    }
}

/// Why a git operation cannot go on.
#[derive(Debug)]
pub enum GitError {
    RevParse { refname: String },
    AddRemote { stderr: String },
    SetUrl,
    Push,
    NoActiveEnv,
}

impl GitError {
    pub fn message(&self) -> (r: String)
        ensures
            r@ == match self {
                GitError::RevParse { refname } => "rev-parse failed for "@ + refname@,
                GitError::AddRemote { stderr } => "failed to add vitro remote: "@ + stderr@,
                GitError::SetUrl => "failed to update vitro remote URL"@,
                GitError::Push => "git push to vitro remote failed"@,
                GitError::NoActiveEnv => "no active env — use 'vitro create' first"@,
            },
    {
        match self {
            GitError::RevParse { refname } => {
                let mut s = "rev-parse failed for ".to_string();
                s.append(refname.as_str());
                s
            },
            GitError::AddRemote { stderr } => {
                let mut s = "failed to add vitro remote: ".to_string();
                s.append(stderr.as_str());
                s
            },
            GitError::SetUrl => "failed to update vitro remote URL".to_string(),
            GitError::Push => "git push to vitro remote failed".to_string(),
            GitError::NoActiveEnv => "no active env — use 'vitro create' first".to_string(),
        }
    }
}

/// How `git remote add` went on.
#[derive(Debug)]
pub enum RemoteAdded {
    /// The remote is there.
    Done,
    /// The remote was there before: its URL is to be set.
    SetUrl,
}

/// An env of this machine, and whether it runs.
pub struct LocalEnv {
    pub name: String,
    pub running: bool,
}

/// The first running env.
pub open spec fn first_running(envs: Seq<LocalEnv>) -> Option<Seq<char>>
    decreases envs.len(),
{
    if envs.len() == 0 {
        None
    } else if envs[0].running {
        Some(envs[0].name@)
    } else {
        first_running(envs.skip(1))
    }
}

impl Repo {
    /// The repo at the directory that `git rev-parse --show-toplevel` printed.
    pub fn open(output: &str) -> (r: Repo)
        ensures
            r@ == trimmed(output@),
    {
        Repo { root: trim(output).to_string() }
    }

    /// The repo at a directory.
    pub fn from_root(root: String) -> (r: Repo)
        ensures
            r@ == root@,
    {
        Repo { root }
    }

    pub fn root(&self) -> (r: &str)
        ensures
            r@ == self@,
    {
        self.root.as_str()
    }

    /// The branch that `git branch --show-current` printed.
    pub fn current_branch(&self, output: &str) -> (r: String)
        ensures
            r@ == trimmed(output@),
    {
        trim(output).to_string()
    }

    /// The arguments of the `git` call that prints a short hash.
    pub fn rev_parse_args(&self, refname: &str) -> (r: Vec<String>)
        ensures
            views(r@) == seq!["rev-parse"@, "--short"@, refname@],
    {
        vec!["rev-parse".to_string(), "--short".to_string(), refname.to_string()]
    }

    /// The short hash that `git rev-parse --short <refname>` printed, where it
    /// succeeded.
    pub fn rev_parse(&self, refname: &str, success: bool, output: &str) -> (r: Result<
        String,
        GitError,
    >)
        ensures
            match r {
                Ok(hash) => success && hash@ == trimmed(output@),
                Err(e) => !success && (e matches GitError::RevParse { refname: n } && n@ == refname@),
            },
    {
        if success {
            Ok(trim(output).to_string())
        } else {
            Err(GitError::RevParse { refname: refname.to_string() })
        }
    }

    /// The arguments of the `git` call that counts the commits on only one of two
    /// branches: those of the base first.
    pub fn ahead_behind_args(&self, branch: &str, base: &str) -> (r: Vec<String>)
        ensures
            views(r@) == seq![
                "rev-list"@,
                "--left-right"@,
                "--count"@,
                base@ + "..."@ + branch@,
            ],
    {
        let mut range = base.to_string();
        range.append("...");
        range.append(branch);
        vec!["rev-list".to_string(), "--left-right".to_string(), "--count".to_string(), range]
    }

    /// How many commits a branch is ahead of its base, and how many behind,
    /// from what `git rev-list --left-right --count base...branch` printed. It
    /// is (0, 0) where git failed or printed anything but two words; a word that
    /// is no number counts as 0.
    pub fn ahead_behind(&self, success: bool, output: &str) -> (r: (u32, u32))
        ensures
            r.0 == counts_of(success, output@).0,
            r.1 == counts_of(success, output@).1,
    {
        if !success {
            return (0, 0);
        }
        let parts = words(output);
        proof {
            assert(views(parts@).len() == parts@.len());
        }
        if parts.len() != 2 {
            return (0, 0);
        }
        proof {
            assert(views(parts@)[0] == parts@[0]@);
            assert(views(parts@)[1] == parts@[1]@);
        }
        let behind: u32 = match parse_unsigned(parts[0].as_str(), u32::MAX as u64) {
            Some(n) => n as u32,
            None => 0,
        };
        let ahead: u32 = match parse_unsigned(parts[1].as_str(), u32::MAX as u64) {
            Some(n) => n as u32,
            None => 0,
        };
        (ahead, behind)
    }

    /// The arguments of the `git` call that adds the vitro remote.
    pub fn add_remote_args(&self, url: &str) -> (r: Vec<String>)
        ensures
            views(r@) == seq!["remote"@, "add"@, "vitro"@, url@],
    {
        vec!["remote".to_string(), "add".to_string(), "vitro".to_string(), url.to_string()]
    }

    /// The arguments of the `git` call that sets the URL of the vitro remote.
    pub fn set_url_args(&self, url: &str) -> (r: Vec<String>)
        ensures
            views(r@) == seq!["remote"@, "set-url"@, "vitro"@, url@],
    {
        vec!["remote".to_string(), "set-url".to_string(), "vitro".to_string(), url.to_string()]
    }

    /// What to do after `git remote add vitro <url>`.
    pub fn add_vitro_remote(&self, success: bool, stderr: &str) -> (r: Result<
        RemoteAdded,
        GitError,
    >)
        ensures
            match r {
                Ok(RemoteAdded::Done) => success,
                Ok(RemoteAdded::SetUrl) => !success && holds(stderr@, "already exists"@),
                Err(e) => !success && !holds(stderr@, "already exists"@)
                    && (e matches GitError::AddRemote { stderr: t } && t@ == stderr@),
            },
    {
        if success {
            Ok(RemoteAdded::Done)
        } else if contains(stderr, "already exists") {
            Ok(RemoteAdded::SetUrl)
        } else {
            Err(GitError::AddRemote { stderr: stderr.to_string() })
        }
    }

    /// Whether the URL of a vitro remote that was there could be set.
    pub fn remote_set(&self, success: bool) -> (r: Result<(), GitError>)
        ensures
            match r {
                Ok(_) => success,
                Err(e) => !success && e is SetUrl,
            },
    {
        if success {
            Ok(())
        } else {
            Err(GitError::SetUrl)
        }
    }

    /// Whether a push to the vitro remote arrived.
    pub fn pushed_to_vitro(&self, success: bool) -> (r: Result<(), GitError>)
        ensures
            match r {
                Ok(_) => success,
                Err(e) => !success && e is Push,
            },
    {
        if success {
            Ok(())
        } else {
            Err(GitError::Push)
        }
    }

    /// The arguments of the `git` call that pushes to the vitro remote.
    pub fn push_to_vitro(&self) -> (r: Vec<String>)
        ensures
            views(r@) == seq!["push"@, "--force"@, "vitro"@, "HEAD:main"@],
    {
        vec![
            "push".to_string(),
            "--force".to_string(),
            "vitro".to_string(),
            "HEAD:main".to_string(),
        ]
    }

    /// The repo path of an env on this machine, for the remote helper: that of
    /// the first one that runs, else that of the first one. It is an error where
    /// there is none.
    pub fn resolve_env_path(&self, envs: &Vec<LocalEnv>) -> (r: Result<String, GitError>)
        ensures
            match first_running(envs@) {
                Some(name) => r matches Ok(p) && p@ == below(env_at(name), "repo"@),
                None => if envs@.len() > 0 {
                    r matches Ok(p) && p@ == below(env_at(envs@[0].name@), "repo"@)
                } else {
                    r == Err::<String, GitError>(GitError::NoActiveEnv)
                },
            },
    {
        proof {
            assert(envs@.skip(0) =~= envs@);
        }
        for i in 0..envs.len()
            invariant
                first_running(envs@.skip(i as int)) == first_running(envs@),
        {
            proof {
                assert(envs@.skip(i as int).skip(1) =~= envs@.skip(i + 1));
            }
            if envs[i].running {
                return Ok(env_repo_dir(envs[i].name.as_str()));
            }
        }
        if envs.len() > 0 {
            Ok(env_repo_dir(envs[0].name.as_str()))
        } else {
            Err(GitError::NoActiveEnv)
        }
    }
}

pub open spec fn count_in(word: Seq<char>) -> nat {
    match unsigned_upto(word, u32::MAX as nat) {
        Some(n) => n,
        None => 0,
    }
}

/// The counts ahead and behind in the output of `git rev-list`.
pub open spec fn counts_of(success: bool, output: Seq<char>) -> (nat, nat) {
    let w = words_of(output);
    if success && w.len() == 2 {
        (count_in(w[1]), count_in(w[0]))
    } else {
        (0, 0)
    }
}

/// The clone of an env on its server lies in the env's directory.
pub fn server_clone_path(name: &str) -> (r: String)
    ensures
        r@ == below(env_at(name@), "repo"@),
{
    env_repo_dir(name)
}

/// What a server does for the clone of an env that has none: the directories to
/// create, the `git` calls to make, and the owner to set.
pub struct NewClone {
    pub clone: String,
    pub env_dir: String,
    pub git_calls: Vec<Vec<String>>,
    pub hook: String,
    pub chown: Vec<String>,
}

pub open spec fn hook_of(repo_dir: Seq<char>) -> Seq<char> {
    "#!/bin/sh\ngit --work-tree=\""@ + repo_dir + "\" --git-dir=\""@ + repo_dir
        + "/.git\" checkout -f HEAD\nchown -R 1000:users \""@ + repo_dir + "\"\n"@
}

/// The hook that checks out what was pushed to a clone and hands it to the env's
/// user.
pub fn install_chown_hook(clone: &str) -> (r: String)
    ensures
        r@ == hook_of(clone@),
{
    let mut s = "#!/bin/sh\ngit --work-tree=\"".to_string();
    s.append(clone);
    s.append("\" --git-dir=\"");
    s.append(clone);
    s.append("/.git\" checkout -f HEAD\nchown -R 1000:users \"");
    s.append(clone);
    s.append("\"\n");
    s
}

/// The clone of an env on its server: nothing to do where it has a `.git`,
/// else what sets it up.
pub fn init_clone_server(name: &str, has_git: bool) -> (r: Option<NewClone>)
    ensures
        r is None <==> has_git,
        r matches Some(c) ==> {
            let clone = below(env_at(name@), "repo"@);
            &&& c.clone@ == clone
            &&& c.env_dir@ == env_at(name@)
            &&& c.git_calls@.len() == 2
            &&& views(c.git_calls@[0]@) == seq!["init"@, "-b"@, "main"@, clone]
            &&& views(c.git_calls@[1]@) == seq![
                "-C"@,
                clone,
                "config"@,
                "receive.denyCurrentBranch"@,
                "updateInstead"@,
            ]
            &&& c.hook@ == hook_of(clone)
            &&& views(c.chown@) == seq!["-R"@, "1000:users"@, env_at(name@)]
        },
{
    if has_git {
        return None;
    }
    let clone = server_clone_path(name);
    let init = vec!["init".to_string(), "-b".to_string(), "main".to_string(), clone.clone()];
    let config = vec![
        "-C".to_string(),
        clone.clone(),
        "config".to_string(),
        "receive.denyCurrentBranch".to_string(),
        "updateInstead".to_string(),
    ];
    let hook = install_chown_hook(clone.as_str());
    let chown = vec!["-R".to_string(), "1000:users".to_string(), env_dir(name)];
    let git_calls = vec![init, config];
    Some(NewClone { clone, env_dir: env_dir(name), git_calls, hook, chown })
}

/// A line of `content` says `entry`, white space around it aside.
pub open spec fn ignores(content: Seq<char>, entry: Seq<char>) -> bool {
    exists|i: int|
        0 <= i < lines_of(content).len() && trimmed(#[trigger] lines_of(content)[i]) == entry
}

/// What is appended to `.gitignore` so that it has `entry`.
pub open spec fn ignore_tail(content: Seq<char>, entry: Seq<char>) -> Seq<char> {
    (if content.len() > 0 && content.last() != '\n' {
        "\n"@
    } else {
        ""@
    }) + entry + "\n"@
}

/// What to append to the `.gitignore` with this content so that it has `entry`;
/// nothing, where it has it.
pub fn ensure_gitignore_entry(content: &str, entry: &str) -> (r: Option<String>)
    ensures
        match r {
            Some(tail) => !ignores(content@, entry@) && tail@ == ignore_tail(content@, entry@),
            None => ignores(content@, entry@),
        },
{
    let ls = lines(content);
    for i in 0..ls.len()
        invariant
            views(ls@) == lines_of(content@),
            forall|j: int| 0 <= j < i ==> trimmed(#[trigger] views(ls@)[j]) != entry@,
    {
        proof {
            assert(views(ls@)[i as int] == ls@[i as int]@);
        }
        if same(trim(ls[i].as_str()), entry) {
            return None;
        }
    }
    proof {
        reveal_strlit("\n");
        assert(content@.len() > 0 ==> content@.skip(content@.len() - 1) =~= seq![content@.last()]);
        assert("\n"@ =~= seq!['\n']);
    }
    let mut s = if !content.is_empty() && !ends_with(content, "\n") {
        "\n".to_string()
    } else {
        "".to_string()
    };
    proof {
        if content@.len() > 0 && content@.last() != '\n' {
            assert(content@.skip(content@.len() - 1)[0] != "\n"@[0]);
        }
    }
    s.append(entry);
    s.append("\n");
    Some(s)
}

/// An entry that was appended is found: asking for it again changes nothing.
pub proof fn law_ignored_once(content: Seq<char>, entry: Seq<char>)
    requires
        !entry.contains('\n'),
        entry.len() > 0 ==> !is_white(entry[0]) && !is_white(entry.last()),
    ensures
        ignores(content + ignore_tail(content, entry), entry),
{
    reveal_strlit("\n");
    reveal_strlit("");
    let nl = seq!['\n'];
    assert("\n"@ =~= nl);
    let base = if content.len() > 0 && content.last() != '\n' {
        content + nl
    } else {
        content
    };
    let new = content + ignore_tail(content, entry);
    assert(new =~= base + entry + nl);
    lemma_lines_one_more(base, entry);
    let ls = lines_of(new);
    assert(without_cr(entry) == entry);
    lemma_trimmed_self(entry);
    assert(trimmed(ls[ls.len() - 1]) == entry);
}

} // verus!
