use vstd::prelude::*;

use crate::env_state::{clear, env_dir, get_server, server_file, set_server, Binding};
use crate::git::{
    ensure_gitignore_entry, first_running, init_clone_server, install_chown_hook, law_ignored_once,
    server_clone_path, GitError, LocalEnv, NewClone, RemoteAdded, Repo,
};
use crate::laws::lemma_views;
use crate::number::unsigned_upto;
use crate::path::below;
use crate::remote::{
    cell_path, helper, law_url_is_read_back, parse_url, remote_url, resolved_path, service_command,
    url_argument, CellPath, Helper, RemoteError, Target,
};
use crate::server::{
    client_config_path, list, registry_of, registry_path, resolve, target_of, ActiveServer,
    Registry, ServerEntry, ServerError,
};
use crate::table::lemma_pairs_map;
use crate::text::{
    begins, holds, is_white, lemma_char_from, lemma_find_from, lemma_trimmed_newline, lines_of,
    trimmed, views, words_of,
};
use crate::worktree::{
    add, detect_context, law_context_of_tree, remove, resolve_cell, tree_path, trees_dir,
    CellChoice, NewTree, NotInWorktree, TreeError,
};

verus! {

// ---------------------------------------------------------------------
// The server of an env
// ---------------------------------------------------------------------

/// The server that an env is bound to is read back from the file that binds it, in
/// the directory that goes when the env's state is cleared; without the file it is
/// bound to none.
pub proof fn law_bound_server(
    root: &str,
    env: &str,
    server: &str,
    b: Binding,
    text: &str,
    dir: String,
    file: String,
    cleared: String,
    got: Option<String>,
    none: Option<String>,
)
    requires
        call_ensures(set_server, (root, env, server), b),
        text@ == b.text@,
        call_ensures(get_server, (Some(text),), got),
        call_ensures(get_server, (None::<&str>,), none),
        call_ensures(env_dir, (root, env), dir),
        call_ensures(server_file, (root, env), file),
        call_ensures(clear, (root, env), cleared),
    ensures
        dir@ == below(below(root@, ".vitro/state"@), env@),
        b.dir@ == dir@,
        cleared@ == dir@,
        file@ == below(dir@, "server"@),
        b.file@ == file@,
        b.ignore@ == ".vitro/state/"@,
        text@ == server@ + "\n"@,
        got is Some <==> trimmed(server@).len() > 0,
        got matches Some(s) ==> s@ == trimmed(server@),
        none is None,
{
    reveal_strlit("\n");
    assert("\n"@ =~= seq!['\n']);
    lemma_trimmed_newline(server@);
}

// ---------------------------------------------------------------------
// The servers of a user
// ---------------------------------------------------------------------

/// The files of a user lie in the home, which is that of root where it is not known.
pub proof fn law_user_files(home: Option<&str>, config: String, registry: String)
    requires
        call_ensures(client_config_path, (home,), config),
        call_ensures(registry_path, (home,), registry),
    ensures
        home matches Some(h) ==> config@ == below(h@, ".config/vitro/config.toml"@) && registry@
            == below(h@, ".config/vitro/servers.toml"@),
        home is None ==> config@ == below("/root"@, ".config/vitro/config.toml"@) && registry@
            == below("/root"@, ".config/vitro/servers.toml"@),
{
}

/// `localhost` is this machine, which has no target, even where a server has that
/// name. Any other name is that of a server, and its target the registered one; a
/// name that is not registered is refused.
pub proof fn law_server_by_name(
    name: &str,
    registry: &Registry,
    server: Result<ActiveServer, ServerError>,
    target: Result<Option<String>, ServerError>,
)
    requires
        registry.wf(),
        call_ensures(resolve, (name, registry), server),
        call_ensures(target_of, (name, registry), target),
    ensures
        server is Ok <==> name@ == "localhost"@ || registry@.contains_key(name@),
        target is Ok <==> server is Ok,
        server matches Ok(s) ==> (s is Localhost <==> name@ == "localhost"@),
        server matches Ok(ActiveServer::Remote { name: n }) ==> n@ == name@,
        server matches Ok(s) ==> (target->Ok_0 is None <==> s is Localhost),
        target matches Ok(Some(t)) ==> t@ == registry@[name@],
        server matches Err(e) ==> (e matches ServerError::Unknown { name: n } && n@ == name@),
        target matches Err(e) ==> (e matches ServerError::Unknown { name: n } && n@ == name@),
{
}

/// The server that was found by its name has the target that is registered.
pub proof fn law_found_has_target(
    name: &str,
    registry: &Registry,
    server: ActiveServer,
    target: Result<Option<String>, ServerError>,
    remote: bool,
)
    requires
        registry.wf(),
        call_ensures(resolve, (name, registry), Ok::<ActiveServer, ServerError>(server)),
        call_ensures(ActiveServer::target, (&server, registry), target),
        call_ensures(ActiveServer::is_server, (&server,), remote),
    ensures
        target is Ok,
        remote <==> name@ != "localhost"@,
        target->Ok_0 is Some <==> remote,
        remote ==> (target->Ok_0)->0@ == registry@[name@],
{
}

/// All servers are listed, each once, with its target.
pub proof fn law_servers_listed(registry: &Registry, r: Vec<(String, String)>, i: int, name: Seq<char>)
    requires
        registry.wf(),
        call_ensures(list, (registry,), r),
    ensures
        0 <= i < r@.len() ==> registry@.contains_key(r@[i].0@) && registry@[r@[i].0@] == r@[i].1@,
        registry@.contains_key(name) ==> exists|k: int|
            0 <= k < r@.len() && #[trigger] r@[k].0@ == name,
        forall|k: int, l: int| 0 <= k < l < r@.len() ==> #[trigger] r@[k].0@ != #[trigger] r@[l].0@,
{
    lemma_pairs_map(r@);
}

/// A server that a user names once is known by its name and its target.
pub proof fn law_known_servers(entries: Vec<(String, ServerEntry)>, registry: Registry, i: int)
    requires
        call_ensures(registry_of, (entries,), registry),
        forall|k: int, l: int|
            0 <= k < l < entries@.len() ==> #[trigger] entries@[k].0@ != #[trigger] entries@[l].0@,
        0 <= i < entries@.len(),
    ensures
        registry.wf(),
        registry@.contains_key(entries@[i].0@),
        registry@[entries@[i].0@] == entries@[i].1.target@,
{
    let pairs = entries@.map_values(|e: (String, ServerEntry)| (e.0, e.1.target));
    assert forall|k: int, l: int| 0 <= k < l < pairs.len() implies #[trigger] pairs[k].0@
        != #[trigger] pairs[l].0@ by {
        assert(entries@[k].0@ != entries@[l].0@);
    }
    lemma_pairs_map(pairs);
    assert(pairs[i].0@ == entries@[i].0@);
    assert(pairs[i].1@ == entries@[i].1.target@);
}

// ---------------------------------------------------------------------
// Worktrees
// ---------------------------------------------------------------------

/// Where a worktree was added, and anywhere below it, a command is about that repo
/// and that branch; a name that is given takes the place of the branch, not of the
/// repo.
pub proof fn law_tree_is_found(
    root: &str,
    branch: &str,
    path: String,
    rest: Seq<char>,
    cwd: &str,
    found: Option<(String, String)>,
    name: &str,
    unnamed: Result<CellChoice, NotInWorktree>,
    named: Result<CellChoice, NotInWorktree>,
)
    requires
        root@.len() > 0,
        root@.last() != '/',
        !holds(root@ + "/"@, "/.vitro/trees/"@),
        branch@.len() > 0,
        !branch@.contains('/'),
        rest.len() == 0 || rest[0] == '/',
        call_ensures(tree_path, (root, branch), path),
        cwd@ == path@ + rest,
        call_ensures(detect_context, (cwd,), found),
        call_ensures(resolve_cell, (None::<&str>, cwd), unnamed),
        call_ensures(resolve_cell, (Some(name), cwd), named),
    ensures
        found matches Some(p) && p.0@ == root@ && p.1@ == branch@,
        unnamed matches Ok(c) && c.cell@ == branch@ && c.repo is Some && c.repo->0@ == root@,
        named matches Ok(c) && c.cell@ == name@ && c.repo is Some && c.repo->0@ == root@,
{
    law_context_of_tree(root@, branch@, rest);
}

/// Outside of all worktrees a name has to be given, and says nothing of the repo.
pub proof fn law_outside_of_trees(
    cwd: &str,
    found: Option<(String, String)>,
    name: &str,
    unnamed: Result<CellChoice, NotInWorktree>,
    named: Result<CellChoice, NotInWorktree>,
)
    requires
        !holds(cwd@, "/.vitro/trees/"@),
        call_ensures(detect_context, (cwd,), found),
        call_ensures(resolve_cell, (None::<&str>, cwd), unnamed),
        call_ensures(resolve_cell, (Some(name), cwd), named),
    ensures
        found is None,
        unnamed is Err,
        named matches Ok(c) && c.cell@ == name@ && c.repo is None,
{
    lemma_find_from(cwd@, "/.vitro/trees/"@, 0);
}

/// A worktree is added where there is none, and removed where there is one: the
/// two concern the same path, below the directory that git is to ignore.
pub proof fn law_trees_come_and_go(
    repo: &Repo,
    root: &str,
    branch: &str,
    exists: bool,
    path: String,
    dir: String,
    added: Result<NewTree, TreeError>,
    removed: Result<String, TreeError>,
)
    requires
        root@ == repo@,
        call_ensures(tree_path, (root, branch), path),
        call_ensures(trees_dir, (root,), dir),
        call_ensures(add, (repo, branch, exists), added),
        call_ensures(remove, (repo, branch, exists), removed),
    ensures
        dir@ == below(root@, ".vitro/trees"@),
        path@ == below(dir@, branch@),
        added is Ok <==> !exists,
        removed is Ok <==> exists,
        added matches Ok(t) ==> t.path@ == path@ && t.trees@ == dir@ && t.ignore@
            == ".vitro/trees/"@,
        added matches Err(e) ==> (e matches TreeError::Exists { path: p } && p@ == path@),
        removed matches Ok(p) ==> p@ == path@,
        removed matches Err(e) ==> (e matches TreeError::Missing { branch: b } && b@ == branch@),
{
}

// ---------------------------------------------------------------------
// Git
// ---------------------------------------------------------------------

/// What git prints of a repo is taken without the white space around it; a hash is
/// taken only where git found one.
pub proof fn law_printed_by_git(
    output: &str,
    repo: Repo,
    root: &str,
    branch: String,
    refname: &str,
    success: bool,
    args: Vec<String>,
    hash: Result<String, GitError>,
)
    requires
        call_ensures(Repo::open, (output,), repo),
        call_ensures(Repo::root, (&repo,), root),
        call_ensures(Repo::current_branch, (&repo, output), branch),
        call_ensures(Repo::rev_parse_args, (&repo, refname), args),
        call_ensures(Repo::rev_parse, (&repo, refname, success, output), hash),
    ensures
        root@ == trimmed(output@),
        branch@ == trimmed(output@),
        args@.len() == 3 && args@[0]@ == "rev-parse"@ && args@[1]@ == "--short"@ && args@[2]@
            == refname@,
        hash is Ok <==> success,
        hash matches Ok(h) ==> h@ == trimmed(output@),
        hash matches Err(e) ==> (e matches GitError::RevParse { refname: n } && n@ == refname@),
{
    lemma_views(args@);
}

/// The commits of the branch are those ahead, those of the base the ones behind:
/// git is asked with the base on the left, and prints the left count first. Where
/// the two change places, so do the counts.
pub proof fn law_ahead_and_behind(
    repo: &Repo,
    branch: &str,
    base: &str,
    args: Vec<String>,
    out: &str,
    swapped: &str,
    r: (u32, u32),
    s: (u32, u32),
    failed: (u32, u32),
)
    requires
        call_ensures(Repo::ahead_behind_args, (repo, branch, base), args),
        words_of(out@).len() == 2,
        words_of(swapped@) == seq![words_of(out@)[1], words_of(out@)[0]],
        call_ensures(Repo::ahead_behind, (repo, true, out), r),
        call_ensures(Repo::ahead_behind, (repo, true, swapped), s),
        call_ensures(Repo::ahead_behind, (repo, false, out), failed),
    ensures
        args@.len() == 4 && args@[0]@ == "rev-list"@ && args@[1]@ == "--left-right"@ && args@[2]@
            == "--count"@ && args@[3]@ == base@ + "..."@ + branch@,
        unsigned_upto(words_of(out@)[1], u32::MAX as nat) matches Some(n) ==> r.0 == n,
        unsigned_upto(words_of(out@)[0], u32::MAX as nat) matches Some(n) ==> r.1 == n,
        unsigned_upto(words_of(out@)[1], u32::MAX as nat) is None ==> r.0 == 0,
        unsigned_upto(words_of(out@)[0], u32::MAX as nat) is None ==> r.1 == 0,
        s.0 == r.1 && s.1 == r.0,
        failed.0 == 0 && failed.1 == 0,
{
    lemma_views(args@);
}

/// The remote is added, or its URL set where it was there before; either way it is
/// the one named `vitro`, to which what is checked out is pushed as `main`. What
/// else went wrong is reported.
pub proof fn law_vitro_remote(
    repo: &Repo,
    url: &str,
    success: bool,
    stderr: &str,
    adds: Vec<String>,
    sets: Vec<String>,
    pushes: Vec<String>,
    added: Result<RemoteAdded, GitError>,
    set: Result<(), GitError>,
    pushed: Result<(), GitError>,
)
    requires
        call_ensures(Repo::add_remote_args, (repo, url), adds),
        call_ensures(Repo::set_url_args, (repo, url), sets),
        call_ensures(Repo::push_to_vitro, (repo,), pushes),
        call_ensures(Repo::add_vitro_remote, (repo, success, stderr), added),
        call_ensures(Repo::remote_set, (repo, success), set),
        call_ensures(Repo::pushed_to_vitro, (repo, success), pushed),
    ensures
        adds@.len() == 4 && adds@[0]@ == "remote"@ && adds@[1]@ == "add"@ && adds@[2]@ == "vitro"@
            && adds@[3]@ == url@,
        sets@.len() == 4 && sets@[0]@ == "remote"@ && sets@[1]@ == "set-url"@ && sets@[2]@
            == "vitro"@ && sets@[3]@ == url@,
        pushes@.len() == 4 && pushes@[0]@ == "push"@ && pushes@[1]@ == "--force"@ && pushes@[2]@
            == "vitro"@ && pushes@[3]@ == "HEAD:main"@,
        success ==> added matches Ok(RemoteAdded::Done),
        !success && holds(stderr@, "already exists"@) ==> added matches Ok(RemoteAdded::SetUrl),
        !success && !holds(stderr@, "already exists"@) ==> (added matches Err(
            GitError::AddRemote { stderr: t },
        ) && t@ == stderr@),
        set is Ok <==> success,
        set matches Err(e) ==> e is SetUrl,
        pushed is Ok <==> success,
        pushed matches Err(e) ==> e is Push,
{
    lemma_views(adds@);
    lemma_views(sets@);
    lemma_views(pushes@);
}

/// Git reaches the repo of the first env that runs; where none does, that of the
/// first env; and none where there is no env.
pub proof fn law_env_that_git_reaches(
    repo: &Repo,
    envs: &Vec<LocalEnv>,
    r: Result<String, GitError>,
    i: int,
)
    requires
        call_ensures(Repo::resolve_env_path, (repo, envs), r),
        0 <= i < envs@.len(),
        envs@[i].running || forall|j: int| 0 <= j < envs@.len() ==> !#[trigger] envs@[j].running,
        forall|j: int| 0 <= j < i ==> !#[trigger] envs@[j].running,
        !envs@[i].running ==> i == 0,
    ensures
        r matches Ok(p) && p@ == below(below("/var/lib/vitro/envs"@, envs@[i].name@), "repo"@),
{
    lemma_first_running(envs@, i);
}

/// Where there is no env, there is nothing for git to reach.
pub proof fn law_no_env_to_reach(repo: &Repo, envs: &Vec<LocalEnv>, r: Result<String, GitError>)
    requires
        call_ensures(Repo::resolve_env_path, (repo, envs), r),
        envs@.len() == 0,
    ensures
        r matches Err(e) && e is NoActiveEnv,
{
}

proof fn lemma_first_running(envs: Seq<LocalEnv>, i: int)
    requires
        0 <= i < envs.len(),
        forall|j: int| 0 <= j < i ==> !#[trigger] envs[j].running,
    ensures
        envs[i].running ==> first_running(envs) == Some(envs[i].name@),
        (forall|j: int| 0 <= j < envs.len() ==> !#[trigger] envs[j].running) ==> first_running(envs)
            is None,
    decreases envs.len(),
{
    let tail = envs.skip(1);
    assert forall|j: int| 0 <= j < tail.len() implies #[trigger] tail[j] == envs[j + 1] by {}
    if i > 0 {
        assert(!envs[0].running);
        lemma_first_running(tail, i - 1);
    } else if !envs[0].running && envs.len() > 1 {
        lemma_first_running(tail, 0);
    }
}

/// A clone is set up once: where there is no `.git` yet, with the branch to which
/// is pushed, to take what is pushed, and for the user of the env.
pub proof fn law_clone_is_set_up(
    name: &str,
    has_git: bool,
    path: String,
    r: Option<NewClone>,
    clone: &str,
    hook: String,
)
    requires
        call_ensures(server_clone_path, (name,), path),
        call_ensures(init_clone_server, (name, has_git), r),
        clone@ == path@,
        call_ensures(install_chown_hook, (clone,), hook),
    ensures
        path@ == below(below("/var/lib/vitro/envs"@, name@), "repo"@),
        r is None <==> has_git,
        r matches Some(c) ==> {
            &&& c.clone@ == path@
            &&& c.env_dir@ == below("/var/lib/vitro/envs"@, name@)
            &&& c.git_calls@.len() == 2
            &&& views(c.git_calls@[0]@) == seq!["init"@, "-b"@, "main"@, path@]
            &&& views(c.git_calls@[1]@) == seq![
                "-C"@,
                path@,
                "config"@,
                "receive.denyCurrentBranch"@,
                "updateInstead"@,
            ]
            &&& c.hook@ == hook@
            &&& views(c.chown@) == seq!["-R"@, "1000:users"@, c.env_dir@]
        },
        hook@ == "#!/bin/sh\ngit --work-tree=\""@ + path@ + "\" --git-dir=\""@ + path@
            + "/.git\" checkout -f HEAD\nchown -R 1000:users \""@ + path@ + "\"\n"@,
{
}

/// An entry is appended where no line has it, on a line of its own, and never a
/// second time; where a line has it, nothing is appended.
pub proof fn law_ignored(
    content: &str,
    entry: &str,
    r: Option<String>,
    after: &str,
    again: Option<String>,
)
    requires
        !entry@.contains('\n'),
        entry@.len() > 0 ==> !is_white(entry@[0]) && !is_white(entry@.last()),
        call_ensures(ensure_gitignore_entry, (content, entry), r),
        r matches Some(tail) ==> after@ == content@ + tail@,
        call_ensures(ensure_gitignore_entry, (after, entry), again),
    ensures
        r is None <==> exists|i: int|
            0 <= i < lines_of(content@).len() && trimmed(#[trigger] lines_of(content@)[i])
                == entry@,
        r matches Some(tail) ==> again is None && (tail@ == entry@ + "\n"@ || (tail@ == "\n"@
            + entry@ + "\n"@ && content@.len() > 0 && content@.last() != '\n')),
        r is Some && content@.len() > 0 && content@.last() != '\n' ==> r->0@ == "\n"@ + entry@
            + "\n"@,
{
    reveal_strlit("");
    if r is Some {
        law_ignored_once(content@, entry@);
        assert(""@ + entry@ =~= entry@);
    }
}

// ---------------------------------------------------------------------
// Remotes
// ---------------------------------------------------------------------

/// The server and the cell of a remote are read back from its URL.
pub proof fn law_remote_is_read_back(
    user_host: &str,
    cell: &str,
    made: String,
    url: &str,
    r: (Target, Option<String>),
)
    requires
        !user_host@.contains('/'),
        call_ensures(remote_url, (user_host, cell), made),
        url@ == made@,
        call_ensures(parse_url, (url,), r),
    ensures
        url@ == "vitro://"@ + user_host@ + "/"@ + cell@,
        r.0 matches Target::Remote(h) && h@ == user_host@,
        r.1 matches Some(c) && c@ == cell@,
{
    law_url_is_read_back(user_host@, cell@);
}

/// `localhost`, `local` and nothing are this machine; any other text without a
/// slash is a server, with no cell. The scheme may be missing.
pub proof fn law_url_without_cell(
    rest: Seq<char>,
    with: &str,
    without: &str,
    r: (Target, Option<String>),
    s: (Target, Option<String>),
)
    requires
        !rest.contains('/'),
        with@ == "vitro://"@ + rest,
        without@ == rest,
        call_ensures(parse_url, (with,), r),
        call_ensures(parse_url, (without,), s),
    ensures
        r.0@ == s.0@,
        r.1 is None && s.1 is None,
        r.0 is Local <==> rest == "localhost"@ || rest == "local"@ || rest.len() == 0,
        r.0 matches Target::Remote(h) ==> h@ == rest,
{
    reveal_strlit("vitro://");
    assert(with@.take(8) =~= "vitro://"@);
    assert(with@.skip(8) =~= rest);
    if begins(rest, "vitro://"@) {
        assert(rest.take(8)[6] == '/');
        assert(rest.contains(rest[6]));
    }
    lemma_char_from(rest, '/', 0);
}

/// A cell that the URL names has its place; else the server is asked, for the repo
/// where it is known. On this machine nobody is asked.
pub proof fn law_cell_path(target: &Target, cell: &Option<String>, repo: &str, r: CellPath)
    requires
        call_ensures(cell_path, (target, cell, repo), r),
    ensures
        r is Local <==> target is Local,
        target is Remote ==> (r is Known <==> cell is Some),
        r matches CellPath::Known(p) ==> p@ == "/var/lib/vitro/cells/"@ + cell->0@ + "/repo"@,
        r matches CellPath::Ask(args) ==> {
            &&& args@.len() == if repo@.len() > 0 {
                6int
            } else {
                4int
            }
            &&& args@[0]@ == (target->Remote_0)@
            &&& args@[1]@ == "vitro"@ && args@[2]@ == "util"@ && args@[3]@ == "resolve-env"@
            &&& repo@.len() > 0 ==> args@[4]@ == "--repo"@ && args@[5]@ == repo@
        },
{
    if r is Ask {
        lemma_views((r->Ask_0)@);
    }
}

/// The helper takes the URL that git hands it, and this machine where it hands none.
pub proof fn law_url_argument(args: &Vec<String>, r: &str)
    requires
        call_ensures(url_argument, (args,), r),
    ensures
        args@.len() > 2 ==> r@ == args@[2]@,
        args@.len() <= 2 ==> r@ == "vitro://localhost"@,
{
}

/// The path that a server answers is taken without the white space around it, and
/// only where the call succeeded.
pub proof fn law_resolved_path(
    success: bool,
    stdout: &str,
    stderr: &str,
    r: Result<String, RemoteError>,
)
    requires
        call_ensures(resolved_path, (success, stdout, stderr), r),
    ensures
        r is Ok <==> success,
        r matches Ok(p) ==> p@ == trimmed(stdout@),
        r matches Err(e) ==> (e matches RemoteError::Resolution { stderr: t } && t@ == stderr@),
{
}

/// Git hears that the helper can connect, and is connected with the service it asks
/// for; a blank line is skipped, and any other line refused.
pub proof fn law_helper(line: &str, r: Helper, service: Seq<char>)
    requires
        call_ensures(helper, (line,), r),
    ensures
        r is Skip <==> trimmed(line@).len() == 0,
        r is Say <==> trimmed(line@) == "capabilities"@,
        r matches Helper::Say(t) ==> t@ == "connect\n\n"@,
        trimmed(line@) == "connect "@ + service ==> (r matches Helper::Connect { say, service: s }
            && say@ == "\n"@ && s@ == service),
        r is Connect ==> begins(trimmed(line@), "connect "@),
        r is Unexpected ==> (r->Unexpected_0 matches RemoteError::Unexpected { line: l } && l@
            == trimmed(line@)),
{
    reveal_strlit("connect ");
    reveal_strlit("capabilities");
    let l = trimmed(line@);
    if l == "connect "@ + service {
        assert(l.take(8) =~= "connect "@);
        assert(l.skip(8) =~= service);
        assert(l[1] == 'o' && "capabilities"@[1] == 'a');
    }
}

/// A service runs on the path of the cell, and for a server over `ssh` to it.
pub proof fn law_service(
    host: String,
    service: &str,
    path: &str,
    here: Vec<String>,
    there: Vec<String>,
)
    requires
        call_ensures(service_command, (&Target::Local, service, path), here),
        call_ensures(service_command, (&Target::Remote(host), service, path), there),
    ensures
        here@.len() == 2 && here@[0]@ == service@ && here@[1]@ == path@,
        there@.len() == 4 && there@[0]@ == "ssh"@ && there@[1]@ == host@,
        there@[2]@ == here@[0]@ && there@[3]@ == here@[1]@,
{
    lemma_views(here@);
    lemma_views(there@);
}

} // verus!
