use vstd::prelude::*;

use crate::cli::{
    age_text, captured_json, captured_view, collect_env_rows, connect_remote, duration_fits,
    env_label, find_env_server, found_server, gc_action, gc_summary, gc_threshold, init_files,
    law_duration_of_unit, lemma_captured_fits, lemma_list_fits, lemma_status_fits, list_json,
    list_text, local_status, may_read_log, may_send, parse_duration, remote_status, remove_steps,
    resolve_env, row_views, server_rows, shell_plan, status_to_json, status_view, stop_choice,
    tail_args, CliError, EnvRow, Find, FindError, GcAction, Known, LocalFacts, RemoveStep, RowView,
    ServerEnvs, ShellPlan, ShellRequest, StopChoice,
};
use crate::client::EnvStatus;
use crate::json::{field, field_in, text_holds, text_in, JsonView};
use crate::laws::asking::{is_text_or_null, lemma_field_at};
use crate::laws::lemma_views;
use crate::number::decimal_of;
use crate::path::below;
use crate::server::{ActiveServer, Registry};
use crate::text::{trimmed, views};
use crate::vm::CapturedShell;

verus! {

// ---------------------------------------------------------------------
// Which server has an env
// ---------------------------------------------------------------------

/// A server answered with a list that has an env of this name.
pub open spec fn has_listed(answer: Option<Vec<EnvStatus>>, env: Seq<char>) -> bool {
    answer matches Some(envs) && exists|i: int|
        0 <= i < envs@.len() && (#[trigger] envs@[i]).name@ == env
}

/// This machine has an env of this name.
pub open spec fn is_here(k: Known, env: Seq<char>) -> bool {
    exists|i: int| 0 <= i < k.local@.len() && (#[trigger] k.local@[i])@ == env
}

proof fn lemma_env_from(envs: Seq<EnvStatus>, name: Seq<char>, from: int)
    requires
        0 <= from,
    ensures
        match crate::client::env_from(envs, name, from) {
            Some(i) => from <= i < envs.len() && envs[i].name@ == name && forall|k: int|
                from <= k < i ==> (#[trigger] envs[k]).name@ != name,
            None => forall|k: int| from <= k < envs.len() ==> (#[trigger] envs[k]).name@ != name,
        },
    decreases envs.len() - from,
{
    if from < envs.len() && envs[from].name@ != name {
        lemma_env_from(envs, name, from + 1);
    }
}

proof fn lemma_lists(answer: Option<Vec<EnvStatus>>, env: Seq<char>)
    ensures
        crate::cli::lists(answer, env) == has_listed(answer, env),
{
    match answer {
        Some(envs) => {
            lemma_env_from(envs@, env, 0);
        },
        None => {},
    }
}

proof fn lemma_searched(
    env: Seq<char>,
    servers: Seq<Seq<char>>,
    answers: Seq<Option<Vec<EnvStatus>>>,
    from: int,
)
    requires
        0 <= from <= answers.len(),
    ensures
        match crate::cli::search(env, servers, answers, from) {
            Some(crate::cli::FindView::Remote(name)) => exists|i: int|
                from <= i < servers.len() && i < answers.len() && name == servers[i] && has_listed(
                    #[trigger] answers[i],
                    env,
                ) && forall|j: int| from <= j < i ==> !has_listed(#[trigger] answers[j], env),
            Some(crate::cli::FindView::Ask(i)) => i == answers.len() && i < servers.len()
                && forall|j: int| from <= j < i ==> !has_listed(#[trigger] answers[j], env),
            Some(_) => false,
            None => servers.len() <= answers.len() || from >= servers.len(),
        },
        crate::cli::search(env, servers, answers, from) is None ==> forall|j: int|
            from <= j < servers.len() && j < answers.len() ==> !has_listed(
                #[trigger] answers[j],
                env,
            ),
    decreases servers.len() - from,
{
    if from < servers.len() && from < answers.len() {
        lemma_lists(answers[from], env);
        if !has_listed(answers[from], env) {
            lemma_searched(env, servers, answers, from + 1);
            match crate::cli::search(env, servers, answers, from + 1) {
                Some(crate::cli::FindView::Remote(name)) => {
                    let i = choose|i: int|
                        from + 1 <= i < servers.len() && i < answers.len() && name == servers[i]
                            && has_listed(#[trigger] answers[i], env) && forall|j: int|
                            from + 1 <= j < i ==> !has_listed(#[trigger] answers[j], env);
                    assert(has_listed(answers[i], env));
                },
                _ => {},
            }
        }
    }
}

/// Where an env is. The server that it was bound to comes before all else, and this
/// machine, where it has the env, before every server. Servers are asked one after
/// the other, each once, and the first that lists the env has it. Only when none of
/// them does, a configuration decides, the repo's before the client's; and where
/// none says anything, the env is nowhere, and never here.
pub proof fn law_where_an_env_is(env: &str, k: &Known, r: Find)
    requires
        call_ensures(find_env_server, (env, k), r),
    ensures
        k.bound matches Some(s) ==> (r matches Find::Named(n) && n@ == s@),
        k.bound is None && is_here(*k, env@) ==> r is Localhost,
        r is Localhost ==> k.bound is None && is_here(*k, env@),
        k.bound is None && !is_here(*k, env@) && k.servers is None ==> r is NeedServers,
        r is NeedServers ==> k.servers is None,
        r matches Find::Remote { name } ==> exists|i: int|
            0 <= i < k.servers->0@.len() && i < k.answers@.len() && name@ == k.servers->0@[i]@
                && has_listed(#[trigger] k.answers@[i], env@) && forall|j: int|
                0 <= j < i ==> !has_listed(#[trigger] k.answers@[j], env@),
        r matches Find::Ask(i) ==> i == k.answers@.len() && i < k.servers->0@.len() && forall|j: int|
            0 <= j < i ==> !has_listed(#[trigger] k.answers@[j], env@),
        k.bound is None && !is_here(*k, env@) && k.servers is Some && k.servers->0@.len()
            <= k.answers@.len() && (forall|j: int|
            0 <= j < k.servers->0@.len() ==> !has_listed(#[trigger] k.answers@[j], env@)) ==> match k.defaults {
            None => r is NeedDefaults,
            Some(d) => match d.repo {
                Some(s) => r matches Find::Named(n) && n@ == s@,
                None => match d.client {
                    Some(s) => r matches Find::Named(n) && n@ == s@,
                    None => r is Nowhere,
                },
            },
        },
        k.bound is None && !is_here(*k, env@) && k.servers is Some && (exists|j: int|
            0 <= j < k.servers->0@.len() && j < k.answers@.len() && has_listed(
                #[trigger] k.answers@[j],
                env@,
            )) ==> r is Remote,
{
    let local = views(k.local@);
    assert(local.contains(env@) <==> is_here(*k, env@)) by {
        if local.contains(env@) {
            let i = choose|i: int| 0 <= i < local.len() && local[i] == env@;
            assert(k.local@[i]@ == env@);
        }
        if is_here(*k, env@) {
            let i = choose|i: int| 0 <= i < k.local@.len() && (#[trigger] k.local@[i])@ == env@;
            assert(local[i] == env@);
        }
    }
    match k.servers {
        Some(servers) => {
            let names = views(servers@);
            assert(names.len() == servers@.len());
            lemma_searched(env@, names, k.answers@, 0);
            match crate::cli::search(env@, names, k.answers@, 0) {
                Some(crate::cli::FindView::Remote(name)) => {
                    let i = choose|i: int|
                        0 <= i < names.len() && i < k.answers@.len() && name == names[i]
                            && has_listed(#[trigger] k.answers@[i], env@) && forall|j: int|
                            0 <= j < i ==> !has_listed(#[trigger] k.answers@[j], env@);
                    assert(names[i] == servers@[i]@);
                    assert(has_listed(k.answers@[i], env@));
                },
                _ => {},
            }
        },
        None => {},
    }
}

/// A server that was named has to be a known one, or this machine; an env that is
/// nowhere is not taken to be anywhere.
pub proof fn law_found_server(env: &str, found: &Find, registry: &Registry, r: Result<ActiveServer, FindError>)
    requires
        call_ensures(found_server, (env, found, registry), r),
    ensures
        found matches Find::Named(n) ==> {
            &&& n@ == "localhost"@ ==> r is Ok && r->Ok_0 is Localhost
            &&& n@ != "localhost"@ && registry@.contains_key(n@) ==> r is Ok && r->Ok_0 is Remote
                && r->Ok_0->name@ == n@
            &&& n@ != "localhost"@ && !registry@.contains_key(n@) ==> r is Err
        },
        found is Localhost ==> r is Ok && r->Ok_0 is Localhost,
        found matches Find::Remote { name } ==> r is Ok && r->Ok_0 is Remote && r->Ok_0->name@
            == name@,
        found is Nowhere ==> r is Err,
{
}

// ---------------------------------------------------------------------
// Removing, stopping, cleaning up
// ---------------------------------------------------------------------

/// An env that is removed is always forgotten, last of all. One on a server is
/// deleted there, and nothing is touched here; one here is deleted here, and
/// stopped before that if it runs. One that was not found is only forgotten.
pub proof fn law_removed_where_it_is(server: Option<&ActiveServer>, running: bool, r: Vec<RemoveStep>)
    requires
        call_ensures(remove_steps, (server, running), r),
    ensures
        r@.len() > 0 && r@.last() == RemoveStep::ForgetServer,
        r@.contains(RemoveStep::DeleteRemote) <==> server is Some && server->0 is Remote,
        r@.contains(RemoveStep::Delete) <==> server is Some && server->0 is Localhost,
        r@.contains(RemoveStep::Stop) <==> server is Some && server->0 is Localhost && running,
        forall|i: int, j: int|
            0 <= i < j < r@.len() ==> #[trigger] r@[j] != RemoveStep::Stop && #[trigger] r@[i]
                != RemoveStep::ForgetServer,
{
    let n = r@.len() as int;
    if server is Some && server->0 is Localhost {
        assert(r@[n - 2] == RemoveStep::Delete);
        if running {
            assert(r@[0] == RemoveStep::Stop);
        }
    }
    if server is Some && server->0 is Remote {
        assert(r@[0] == RemoveStep::DeleteRemote);
    }
}

/// An env on a server is taken down by it; one here is stopped where it runs.
pub proof fn law_stopped_where_it_is(server: &ActiveServer, running: bool, r: StopChoice)
    requires
        call_ensures(stop_choice, (server, running), r),
    ensures
        r == StopChoice::Down <==> server is Remote,
        r == StopChoice::StopVm <==> server is Localhost && running,
        r == StopChoice::NotRunning <==> server is Localhost && !running,
{
}

/// A clean-up deletes an env exactly where it does not run, was last active at a
/// known time, and has been idle for longer than the threshold; and not at all in a
/// dry run, which only says so. It says for how long the env was idle.
pub proof fn law_clean_up(
    dry_run: bool,
    running: bool,
    last_active: u64,
    now: u64,
    threshold: u64,
    r: GcAction,
)
    requires
        call_ensures(gc_action, (dry_run, running, last_active, now, threshold), r),
    ensures
        ({
            let stale = !running && last_active != 0 && now - last_active > threshold;
            &&& r is Delete <==> stale && !dry_run
            &&& r is WouldDelete <==> stale && dry_run
            &&& r is Keep <==> !stale
            &&& r matches GcAction::Delete(a) ==> a == now - last_active
            &&& r matches GcAction::WouldDelete(a) ==> a == now - last_active
        }),
{
}

/// A duration is a number of seconds, or of the unit behind it.
pub proof fn law_durations(
    n: nat,
    s: &str,
    fits: bool,
    r: Option<u64>,
    t: Result<u64, CliError>,
)
    requires
        call_ensures(duration_fits, (s,), fits),
        call_ensures(parse_duration, (s,), r),
        call_ensures(gc_threshold, (s,), t),
        n <= u64::MAX,
    ensures
        s@ == decimal_of(n) ==> r == Some(n as u64),
        s@ == decimal_of(n).push('s') ==> r == Some(n as u64),
        s@ == decimal_of(n).push('m') && n * 60 <= u64::MAX ==> r == Some((n * 60) as u64),
        s@ == decimal_of(n).push('h') && n * 3600 <= u64::MAX ==> r == Some((n * 3600) as u64),
        s@ == decimal_of(n).push('d') && n * 86400 <= u64::MAX ==> r == Some((n * 86400) as u64),
        s@.len() == 0 ==> r is None,
        s@.len() > 1 && !('0' <= s@.last() <= '9') && s@.last() != 's' && s@.last() != 'm'
            && s@.last() != 'h' && s@.last() != 'd' ==> r is None,
        s@ == decimal_of(n) || s@ == decimal_of(n).push('s') ==> fits,
        s@ == decimal_of(n).push('m') ==> (fits <==> n * 60 <= u64::MAX),
        s@ == decimal_of(n).push('h') ==> (fits <==> n * 3600 <= u64::MAX),
        s@ == decimal_of(n).push('d') ==> (fits <==> n * 86400 <= u64::MAX),
        t is Ok <==> r is Some,
        t is Ok ==> t->Ok_0 == r->0,
        t matches Err(e) ==> e is BadDuration && e->text@ == s@,
{
    law_duration_of_unit(n, 's');
    law_duration_of_unit(n, 'm');
    law_duration_of_unit(n, 'h');
    law_duration_of_unit(n, 'd');
    if s@.len() > 1 && !('0' <= s@.last() <= '9') {
        let u = if s@[0] == '+' {
            s@.skip(1)
        } else {
            s@
        };
        assert(u.last() == s@.last());
    }
}

/// An age is told in its largest whole unit.
pub proof fn law_ages(age: u64, r: String)
    requires
        call_ensures(age_text, (age,), r),
    ensures
        86400 <= age ==> r@ == decimal_of((age / 86400) as nat) + "d"@,
        3600 <= age < 86400 ==> r@ == decimal_of((age / 3600) as nat) + "h"@,
        age < 3600 ==> r@ == decimal_of((age / 60) as nat) + "m"@,
{
}

/// A dry run says that nothing was deleted; a clean-up says how much was.
pub proof fn law_clean_up_says(dry_run: bool, deleted: u64, r: String)
    requires
        call_ensures(gc_summary, (dry_run, deleted), r),
    ensures
        dry_run ==> r@ == "dry run — no envs deleted"@,
        !dry_run && deleted == 0 ==> r@ == "no stale envs to clean up"@,
        !dry_run && deleted > 0 ==> crate::text::begins(
            r@,
            "cleaned up "@ + decimal_of(deleted as nat) + " env"@,
        ),
{
    if !dry_run && deleted > 0 {
        let p = "cleaned up "@ + decimal_of(deleted as nat) + " env"@;
        assert(r@.take(p.len() as int) =~= p);
    }
}

// ---------------------------------------------------------------------
// Envs on this machine
// ---------------------------------------------------------------------

/// An env serves a repo: it runs, and is for that repo where one is asked for.
pub open spec fn is_for(f: LocalFacts, repo: Option<&str>) -> bool {
    f.running && (repo is Some ==> (match f.repo_file {
        Some(t) => trimmed(t@),
        None => Seq::empty(),
    }) == repo->0@)
}

/// The env that serves a repo is the first one that runs and is for it; where none
/// does, none serves it.
pub proof fn law_env_for_repo(envs: &Vec<LocalFacts>, repo: Option<&str>, r: Option<String>)
    requires
        call_ensures(resolve_env, (envs, repo), r),
    ensures
        r matches Some(p) ==> exists|i: int|
            0 <= i < envs@.len() && is_for(#[trigger] envs@[i], repo) && p@ == below(
                below("/var/lib/vitro/envs"@, envs@[i].name@),
                "repo"@,
            ) && forall|k: int| 0 <= k < i ==> !is_for(#[trigger] envs@[k], repo),
        r is None ==> forall|k: int| 0 <= k < envs@.len() ==> !is_for(#[trigger] envs@[k], repo),
{
    assert(envs@.skip(0) =~= envs@);
    lemma_first_serving(envs@, repo, 0);
}

proof fn lemma_first_serving(envs: Seq<LocalFacts>, repo: Option<&str>, from: int)
    requires
        0 <= from <= envs.len(),
        forall|k: int| 0 <= k < from ==> !is_for(#[trigger] envs[k], repo),
    ensures
        match crate::cli::first_serving(envs.skip(from), crate::text::opt_view(repo)) {
            Some(n) => exists|i: int|
                0 <= i < envs.len() && is_for(#[trigger] envs[i], repo) && n == envs[i].name@
                    && forall|k: int| 0 <= k < i ==> !is_for(#[trigger] envs[k], repo),
            None => forall|k: int| 0 <= k < envs.len() ==> !is_for(#[trigger] envs[k], repo),
        },
    decreases envs.len() - from,
{
    reveal_strlit("");
    assert(""@ =~= Seq::<char>::empty());
    if from < envs.len() {
        let s = envs.skip(from);
        assert(s[0] == envs[from]);
        assert(s.skip(1) =~= envs.skip(from + 1));
        if !is_for(envs[from], repo) {
            lemma_first_serving(envs, repo, from + 1);
        }
    }
}

// ---------------------------------------------------------------------
// Lists and states
// ---------------------------------------------------------------------

/// A row tells an env on this machine. Only one that runs has an address.
pub open spec fn tells_local(r: EnvRow, f: LocalFacts) -> bool {
    &&& r.name@ == f.name@
    &&& r.server@ == "localhost"@
    &&& r.status@ == (if f.running {
        "running"@
    } else {
        "stopped"@
    })
    &&& r.repo is Some <==> f.repo_file is Some
    &&& r.repo is Some ==> r.repo->0@ == trimmed(f.repo_file->0@)
    &&& r.ip is Some <==> f.running && f.ip_file is Some && trimmed(f.ip_file->0@).len() > 0
    &&& r.ip is Some ==> r.ip->0@ == trimmed(f.ip_file->0@)
}

/// A row tells an env of a server.
pub open spec fn tells_remote(r: EnvRow, server: Seq<char>, e: EnvStatus) -> bool {
    &&& r.name@ == e.name@
    &&& r.server@ == server
    &&& r.status@ == e.status@
    &&& r.repo is Some <==> e.repo is Some
    &&& r.repo is Some ==> r.repo->0@ == e.repo->0@
    &&& r.ip is Some <==> e.ip is Some
    &&& r.ip is Some ==> r.ip->0@ == e.ip->0@
}

proof fn lemma_remote_rows_have(servers: Seq<ServerEnvs>, s: int, e: int)
    requires
        0 <= s < servers.len(),
        servers[s].envs is Some,
        0 <= e < servers[s].envs->0@.len(),
    ensures
        exists|i: int|
            0 <= i < crate::cli::remote_rows(servers).len() && #[trigger] crate::cli::remote_rows(
                servers,
            )[i] == crate::cli::remote_row(servers[s].name@, servers[s].envs->0@[e]),
    decreases servers.len(),
{
    let front = crate::cli::remote_rows(servers.drop_last());
    let mine = server_rows(servers.last());
    let all = crate::cli::remote_rows(servers);
    let want = crate::cli::remote_row(servers[s].name@, servers[s].envs->0@[e]);
    if s < servers.len() - 1 {
        lemma_remote_rows_have(servers.drop_last(), s, e);
        let i = choose|i: int| 0 <= i < front.len() && #[trigger] front[i] == want;
        assert(all[i] == want);
    } else {
        assert(mine[e] == want);
        assert(all[front.len() + e] == want);
    }
}

proof fn lemma_remote_rows_from(servers: Seq<ServerEnvs>, i: int)
    requires
        0 <= i < crate::cli::remote_rows(servers).len(),
    ensures
        exists|s: int, e: int|
            0 <= s < servers.len() && (#[trigger] servers[s]).envs is Some && 0 <= e
                < servers[s].envs->0@.len() && crate::cli::remote_rows(servers)[i]
                == crate::cli::remote_row(servers[s].name@, #[trigger] servers[s].envs->0@[e]),
    decreases servers.len(),
{
    let front = crate::cli::remote_rows(servers.drop_last());
    let n = servers.len() - 1;
    if i < front.len() {
        lemma_remote_rows_from(servers.drop_last(), i);
        let d = servers.drop_last();
        let (s, e) = choose|s: int, e: int|
            0 <= s < d.len() && (#[trigger] d[s]).envs is Some && 0 <= e < d[s].envs->0@.len()
                && front[i] == crate::cli::remote_row(d[s].name@, #[trigger] d[s].envs->0@[e]);
        assert(servers[s] == d[s]);
        assert(servers[s].envs->0@[e] == d[s].envs->0@[e]);
    } else {
        let e = i - front.len();
        assert(servers[n] == servers.last());
        assert(servers[n].envs->0@[e] == servers.last().envs->0@[e]);
    }
}

/// Some row from `from` on tells this env of a server.
pub open spec fn told(rows: Seq<EnvRow>, from: int, server: Seq<char>, e: EnvStatus) -> bool {
    exists|i: int| from <= i < rows.len() && tells_remote(#[trigger] rows[i], server, e)
}

/// The row tells an env that some server lists.
pub open spec fn told_by(row: EnvRow, servers: Seq<ServerEnvs>) -> bool {
    exists|s: int, e: int|
        0 <= s < servers.len() && servers[s].envs is Some && 0 <= e < servers[s].envs->0@.len()
            && tells_remote(row, servers[s].name@, #[trigger] servers[s].envs->0@[e])
}

/// A list of envs has every env of this machine, in order, and then every env of
/// every server that answers; and it has no other.
pub proof fn law_list_has_all(locals: &Vec<LocalFacts>, servers: &Vec<ServerEnvs>, r: Vec<EnvRow>)
    requires
        call_ensures(collect_env_rows, (locals, servers), r),
    ensures
        r@.len() >= locals@.len(),
        forall|i: int| 0 <= i < locals@.len() ==> tells_local(r@[i], #[trigger] locals@[i]),
        forall|s: int, e: int|
            0 <= s < servers@.len() && servers@[s].envs is Some && 0 <= e
                < servers@[s].envs->0@.len() ==> told(
                r@,
                locals@.len() as int,
                servers@[s].name@,
                #[trigger] servers@[s].envs->0@[e],
            ),
        forall|i: int| locals@.len() <= i < r@.len() ==> told_by(#[trigger] r@[i], servers@),
{
    let v = row_views(r@);
    let n = locals@.len() as int;
    assert(v.len() == r@.len());
    assert forall|i: int| 0 <= i < v.len() implies #[trigger] v[i] == r@[i]@ by {}
    let there = crate::cli::remote_rows(servers@);
    assert forall|i: int| 0 <= i < locals@.len() implies tells_local(
        r@[i],
        #[trigger] locals@[i],
    ) by {
        assert(v[i] == crate::cli::local_row(locals@[i]));
        assert(r@[i]@ == v[i]);
    }
    assert forall|s: int, e: int|
        0 <= s < servers@.len() && servers@[s].envs is Some && 0 <= e
            < servers@[s].envs->0@.len() implies told(
        r@,
        locals@.len() as int,
        servers@[s].name@,
        #[trigger] servers@[s].envs->0@[e],
    ) by {
        lemma_remote_rows_have(servers@, s, e);
        let want = crate::cli::remote_row(servers@[s].name@, servers@[s].envs->0@[e]);
        let i = choose|i: int| 0 <= i < there.len() && #[trigger] there[i] == want;
        assert(v[n + i] == want);
        assert(r@[n + i]@ == want);
        assert(tells_remote(r@[n + i], servers@[s].name@, servers@[s].envs->0@[e]));
    }
    assert forall|i: int| locals@.len() <= i < r@.len() implies told_by(
        #[trigger] r@[i],
        servers@,
    ) by {
        assert(v[i] == there[i - n]);
        assert(r@[i]@ == v[i]);
        lemma_remote_rows_from(servers@, i - n);
        let (s, e) = choose|s: int, e: int|
            0 <= s < servers@.len() && (#[trigger] servers@[s]).envs is Some && 0 <= e
                < servers@[s].envs->0@.len() && there[i - n] == crate::cli::remote_row(
                servers@[s].name@,
                #[trigger] servers@[s].envs->0@[e],
            );
        assert(tells_remote(r@[i], servers@[s].name@, servers@[s].envs->0@[e]));
    }
}

/// The JSON text of a list is read back as it: every row, in order, with its name,
/// its server, its status, its repo and its address.
pub proof fn law_list_is_read_back(rows: &Vec<EnvRow>, r: String)
    requires
        call_ensures(list_text, (rows,), r),
    ensures
        text_holds(r@) matches Some(j) && (field(j, "envs"@) matches Some(JsonView::Array(items))
            && items.len() == rows@.len() && forall|i: int|
            0 <= i < rows@.len() ==> {
                &&& text_in(field(items[i], "name"@)) == Some((#[trigger] rows@[i]).name@)
                &&& text_in(field(items[i], "server"@)) == Some(rows@[i].server@)
                &&& text_in(field(items[i], "status"@)) == Some(rows@[i].status@)
                &&& is_text_or_null(field(items[i], "repo"@), rows@[i].repo)
                &&& is_text_or_null(field(items[i], "ip"@), rows@[i].ip)
                &&& field(items[i], "started_at"@) == Some(JsonView::Null)
            }),
{
    let v = row_views(rows@);
    lemma_list_fits(v);
    let j = list_json(v);
    lemma_field_at(j->Object_0, 0);
    let items = v.map_values(|r: RowView| crate::cli::row_json(r));
    assert(j->Object_0[0].value == JsonView::Array(items));
    assert(crate::json::plain(j->Object_0[0].value));
    assert forall|i: int| 0 <= i < rows@.len() implies {
        &&& text_in(field(items[i], "name"@)) == Some((#[trigger] rows@[i]).name@)
        &&& text_in(field(items[i], "server"@)) == Some(rows@[i].server@)
        &&& text_in(field(items[i], "status"@)) == Some(rows@[i].status@)
        &&& is_text_or_null(field(items[i], "repo"@), rows@[i].repo)
        &&& is_text_or_null(field(items[i], "ip"@), rows@[i].ip)
        &&& field(items[i], "started_at"@) == Some(JsonView::Null)
    } by {
        assert(v[i] == rows@[i]@);
        assert(crate::json::plain(items[i]));
        let ms = items[i]->Object_0;
        lemma_field_at(ms, 0);
        lemma_field_at(ms, 1);
        lemma_field_at(ms, 2);
        lemma_field_at(ms, 3);
        lemma_field_at(ms, 5);
        lemma_field_at(ms, 4);
    }
}

/// The JSON text of a status is read back as it, and says that the env runs exactly
/// where its status does.
pub proof fn law_status_is_read_back(
    name: &str,
    status: &str,
    ip: &Option<String>,
    head: &Option<String>,
    r: String,
)
    requires
        call_ensures(status_to_json, (name, status, ip, head), r),
    ensures
        text_holds(r@) matches Some(j) && {
            &&& text_in(field(j, "name"@)) == Some(name@)
            &&& text_in(field(j, "status"@)) == Some(status@)
            &&& is_text_or_null(field(j, "ip"@), *ip)
            &&& is_text_or_null(field_in(field(j, "git"@), "head"@), *head)
            &&& field_in(field(j, "process"@), "running"@) == Some(
                JsonView::Bool(status@ == "running"@),
            )
            &&& field_in(field(j, "process"@), "pid"@) == Some(JsonView::Null)
            &&& field_in(field(j, "process"@), "started_at"@) == Some(JsonView::Null)
        },
{
    let i = crate::text::opt_text(*ip);
    let h = crate::text::opt_text(*head);
    lemma_status_fits(name@, status@, i, h);
    let j = status_view(name@, status@, i, h);
    let ms = j->Object_0;
    lemma_field_at(ms, 0);
    lemma_field_at(ms, 1);
    lemma_field_at(ms, 2);
    lemma_field_at(ms, 3);
    lemma_field_at(ms, 4);
    assert(crate::json::plain(ms[0].value) && crate::json::plain(ms[3].value));
    lemma_field_at(ms[0].value->Object_0, 0);
    lemma_field_at(ms[3].value->Object_0, 0);
    lemma_field_at(ms[3].value->Object_0, 1);
    lemma_field_at(ms[3].value->Object_0, 2);
}

/// The JSON text of a captured command is read back as what it printed, and how it
/// ended.
pub proof fn law_captured_is_read_back(c: &CapturedShell, r: String)
    requires
        call_ensures(captured_json, (c,), r),
    ensures
        text_holds(r@) matches Some(j) && {
            &&& text_in(field(j, "stdout"@)) == Some(c.stdout@)
            &&& text_in(field(j, "stderr"@)) == Some(c.stderr@)
            &&& field(j, "duration_ms"@) == Some(
                JsonView::Number(decimal_of(c.duration_ms as nat)),
            )
            &&& field(j, "exit_code"@) == Some(
                JsonView::Number(
                    if c.exit_code < 0 {
                        "-"@ + decimal_of((-c.exit_code) as nat)
                    } else {
                        decimal_of(c.exit_code as nat)
                    },
                ),
            )
        },
{
    lemma_captured_fits(*c);
    let ms = captured_view(*c)->Object_0;
    lemma_field_at(ms, 0);
    lemma_field_at(ms, 1);
    lemma_field_at(ms, 2);
    lemma_field_at(ms, 3);
}

/// What a command printed, and how it ended, is kept as it is; one that was killed
/// counts as failed.
pub proof fn law_captured_as_printed(
    code: Option<i32>,
    stdout: String,
    stderr: String,
    duration: u64,
    r: CapturedShell,
)
    requires
        call_ensures(crate::vm::captured, (code, stdout, stderr, duration), r),
    ensures
        code matches Some(c) ==> r.exit_code == c,
        code is None ==> r.exit_code == -1,
        r.stdout@ == stdout@,
        r.stderr@ == stderr@,
        r.duration_ms == duration,
{
}

/// The status of an env is that of the first env of its name that the server lists;
/// one that it does not list is not found.
pub proof fn law_remote_status(
    envs: &Vec<EnvStatus>,
    name: &str,
    r: Result<(String, Option<String>), CliError>,
)
    requires
        call_ensures(remote_status, (envs, name), r),
    ensures
        r matches Ok(p) ==> exists|i: int|
            0 <= i < envs@.len() && (#[trigger] envs@[i]).name@ == name@ && (forall|k: int|
                0 <= k < i ==> (#[trigger] envs@[k]).name@ != name@) && p.0@ == envs@[i].status@
                && (p.1 is Some <==> envs@[i].ip is Some) && (p.1 is Some ==> p.1->0@
                == envs@[i].ip->0@),
        r is Err <==> forall|k: int| 0 <= k < envs@.len() ==> (#[trigger] envs@[k]).name@ != name@,
        r matches Err(e) ==> e is NotFound,
{
    lemma_env_from(envs@, name@, 0);
}

/// An env here is running or stopped, and has an address only where it runs.
pub proof fn law_local_status(running: bool, ip_file: Option<&str>, r: (String, Option<String>))
    requires
        call_ensures(local_status, (running, ip_file), r),
    ensures
        r.0@ == (if running {
            "running"@
        } else {
            "stopped"@
        }),
        r.1 is Some <==> running && ip_file is Some && trimmed(ip_file->0@).len() > 0,
        r.1 is Some ==> r.1->0@ == trimmed(ip_file->0@),
{
}

/// An env of another repo is called with its repo before it.
pub proof fn law_labels(row: &EnvRow, current: Option<&str>, r: String)
    requires
        call_ensures(env_label, (row, current), r),
    ensures
        row.repo is None ==> r@ == row.name@,
        row.repo is Some && current is Some && current->0@ == row.repo->0@ ==> r@ == row.name@,
        row.repo is Some && !(current is Some && current->0@ == row.repo->0@) ==> r@
            == row.repo->0@ + "/"@ + row.name@,
{
}

// ---------------------------------------------------------------------
// Shells and the rest
// ---------------------------------------------------------------------

/// What a shell comes to: sessions are listed before all else, then one is killed;
/// output is captured where that was asked for, and only with a command; all else
/// enters the env.
pub proof fn law_shell_plan(q: &ShellRequest, r: ShellPlan)
    requires
        call_ensures(shell_plan, (q,), r),
    ensures
        r is ListSessions <==> q.list_sessions,
        r is KillSession <==> !q.list_sessions && q.kill_session is Some,
        r matches ShellPlan::KillSession(n) ==> n@ == q.kill_session->0@,
        r is Capture <==> !q.list_sessions && q.kill_session is None && q.json && q.command is Some,
        r matches ShellPlan::Capture(c) ==> c@ == q.command->0@,
        r is NeedsCommand <==> !q.list_sessions && q.kill_session is None && q.json
            && q.command is None,
        r matches ShellPlan::Enter { announce } ==> (announce <==> q.command is None
            && q.session is None),
{
}

/// Sessions are reached, and their logs read, only on this machine; a log is
/// followed where that was asked for.
pub proof fn law_sessions_are_local(
    server: &ActiveServer,
    send: Result<(), CliError>,
    read: Result<(), CliError>,
    log: &str,
    follow: bool,
    args: Vec<String>,
)
    requires
        call_ensures(may_send, (server,), send),
        call_ensures(may_read_log, (server,), read),
        call_ensures(tail_args, (log, follow), args),
    ensures
        send is Ok <==> server is Localhost,
        read is Ok <==> server is Localhost,
        args@.len() > 0 && args@.last()@ == log@,
        follow <==> args@.len() == 2 && args@[0]@ == "-f"@,
        !follow <==> args@.len() == 1,
{
    lemma_views(args@);
}

/// A repo is set up with a first configuration, unless it has one; a server without
/// a target cannot be connected to.
pub proof fn law_first_files(
    root: &str,
    has_config: bool,
    r: (String, String, Option<&'static str>),
    target: Option<String>,
    c: Result<String, CliError>,
)
    requires
        call_ensures(init_files, (root, has_config), r),
        call_ensures(connect_remote, (target,), c),
    ensures
        r.0@ == below(root@, ".vitro"@),
        r.1@ == below(r.0@, "config.toml"@),
        r.2 is None <==> has_config,
        r.2 is Some ==> r.2->0@ == "memory = \"2G\"\nvcpu = 2\n"@,
        c is Ok <==> target is Some,
        c is Ok ==> c->Ok_0@ == target->0@,
{
}

} // verus!
