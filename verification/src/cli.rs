use vstd::prelude::*;

use crate::client::{env_from, find_env, EnvStatus};
use crate::env::{env_at, env_repo_dir};
use crate::json::{
    array, compact, entry, fits, is_whole, json_views, lemma_array_fits, lemma_fits_more,
    lemma_leaf_fits, lemma_object_fits, member, member_views, object, render_json, text,
    text_holds, text_or_null, whole, Json, JsonView,
};
use crate::number::{
    decimal, decimal_of, is_digit, lemma_decimal_value, parse_unsigned, unsigned_upto,
};
use crate::order::lemma_before_at;
use crate::path::below;
use crate::server::{resolve, ActiveServer, Registry, ServerError};
use crate::text::{
    chars_of, opt_text, opt_view, replace, same, substituted, text_of, trim, trimmed, views,
};
use crate::vm::CapturedShell;

verus! {

// ---------------------------------------------------------------------
// Durations
// ---------------------------------------------------------------------

/// The seconds in a unit of time.
pub open spec fn unit_seconds(c: char) -> Option<nat> {
    if c == 's' {
        Some(1)
    } else if c == 'm' {
        Some(60)
    } else if c == 'h' {
        Some(3600)
    } else if c == 'd' {
        Some(86400)
    } else {
        None
    }
}

/// The seconds that a duration stands for: a number of seconds, or of the unit
/// behind it.
pub open spec fn duration_of(s: Seq<char>) -> Option<nat> {
    match unsigned_upto(s, u64::MAX as nat) {
        Some(n) => Some(n),
        None => if s.len() == 0 {
            None
        } else {
            match (unit_seconds(s.last()), unsigned_upto(s.drop_last(), u64::MAX as nat)) {
                (Some(u), Some(n)) => Some(n * u),
                _ => None,
            }
        },
    }
}

fn unit_of_time(c: char) -> (r: Option<u64>)
    ensures
        match unit_seconds(c) {
            Some(u) => r matches Some(x) && x == u && 0 < u <= 86400,
            None => r is None,
        },
{
    if c == 's' {
        Some(1)
    } else if c == 'm' {
        Some(60)
    } else if c == 'h' {
        Some(3600)
    } else if c == 'd' {
        Some(86400)
    } else {
        None
    }
}

/// The number and the unit of a duration that has one.
fn duration_parts(s: &str) -> (r: Option<(u64, u64)>)
    ensures
        match duration_of(s@) {
            Some(d) => r matches Some(p) && p.0 as nat * p.1 as nat == d && 0 < p.1 <= 86400,
            None => r is None,
        },
{
    match parse_unsigned(s, u64::MAX) {
        Some(n) => {
            return Some((n, 1));
        },
        None => {},
    }
    let v = chars_of(s);
    let n: usize = v.len();
    if n == 0 {
        return None;
    }
    let num = text_of(&v, 0, n - 1);
    proof {
        assert(num@ =~= s@.drop_last());
    }
    match unit_of_time(v[n - 1]) {
        Some(u) => match parse_unsigned(num.as_str(), u64::MAX) {
            Some(k) => Some((k, u)),
            None => None,
        },
        None => None,
    }
}

/// Whether the seconds of a duration can be counted; one that stands for none
/// has nothing to count.
pub fn duration_fits(s: &str) -> (r: bool)
    ensures
        r == (duration_of(s@) matches Some(d) ==> d <= u64::MAX),
{
    match duration_parts(s) {
        Some((k, u)) => {
            let most: u64 = u64::MAX / u;
            proof {
                let ki = k as int;
                let ui = u as int;
                let m = most as int;
                assert(m == 0xffff_ffff_ffff_ffffint / ui);
                if ki <= m {
                    assert(ki * ui <= 0xffff_ffff_ffff_ffffint) by (nonlinear_arith)
                        requires
                            0 <= ki <= m,
                            0 < ui,
                            m == 0xffff_ffff_ffff_ffffint / ui,
                    ;
                } else {
                    assert(ki * ui > 0xffff_ffff_ffff_ffffint) by (nonlinear_arith)
                        requires
                            ki > m,
                            0 < ui,
                            m == 0xffff_ffff_ffff_ffffint / ui,
                    ;
                }
            }
            k <= most
        },
        None => true,
    }
}

/// The seconds that a duration stands for, such as `7d`, `24h`, `5m`, `30s` or
/// `42`.
pub fn parse_duration(s: &str) -> (r: Option<u64>)
    requires
        duration_of(s@) matches Some(d) ==> d <= u64::MAX,
    ensures
        match duration_of(s@) {
            Some(d) => r matches Some(n) && n == d,
            None => r is None,
        },
{
    match duration_parts(s) {
        Some((k, u)) => Some(k * u),
        None => None,
    }
}

// ---------------------------------------------------------------------
// Errors
// ---------------------------------------------------------------------

#[derive(Debug)]
pub enum CliError {
    BadDuration { text: String },
    NotBound { env: String },
    NoTarget,
    NeedsCommand,
    NotFound { env: String },
    RemoteSend,
    RemoteLog,
}

impl CliError {
    /// What is reported.
    pub open spec fn says(&self) -> Seq<char> {
        match self {
            CliError::BadDuration { text } => "invalid duration '"@ + text@
                + "' — use e.g. 7d, 24h, 1h"@,
            CliError::NotBound { env } => "no server bound for env '"@ + env@
                + "' — pass --server, set [server] in .vitro/config.toml, or recreate with `vitro create "@
                + env@ + " --server <name>`"@,
            CliError::NoTarget => "server has no target"@,
            CliError::NeedsCommand => "--json requires -c <command>"@,
            CliError::NotFound { env } => "env '"@ + env@ + "' not found"@,
            CliError::RemoteSend
                => "session send on remote envs not yet supported — shell in and use dtach directly"@,
            CliError::RemoteLog => "session log on remote envs not yet supported"@,
        }
    }

    pub fn message(&self) -> (r: String)
        ensures
            r@ == self.says(),
    {
        match self {
            CliError::BadDuration { text } => {
                let mut s = "invalid duration '".to_string();
                s.append(text.as_str());
                s.append("' — use e.g. 7d, 24h, 1h");
                s
            },
            CliError::NotBound { env } => {
                let mut s = "no server bound for env '".to_string();
                s.append(env.as_str());
                s.append(
                    "' — pass --server, set [server] in .vitro/config.toml, or recreate with `vitro create ",
                );
                s.append(env.as_str());
                s.append(" --server <name>`");
                s
            },
            CliError::NoTarget => "server has no target".to_string(),
            CliError::NeedsCommand => "--json requires -c <command>".to_string(),
            CliError::NotFound { env } => {
                let mut s = "env '".to_string();
                s.append(env.as_str());
                s.append("' not found");
                s
            },
            CliError::RemoteSend => {
                "session send on remote envs not yet supported — shell in and use dtach directly".to_string()
            },
            CliError::RemoteLog => "session log on remote envs not yet supported".to_string(),
        }
    }
}

// ---------------------------------------------------------------------
// Which server has an env
// ---------------------------------------------------------------------

/// The servers that the configurations name when nothing else is known.
pub struct Defaults {
    pub repo: Option<String>,
    pub client: Option<String>,
}

/// What is known so far of where an env is.
pub struct Known {
    /// The server that the env was created on, as recorded here.
    pub bound: Option<String>,
    /// The envs on this machine.
    pub local: Vec<String>,
    /// The names of the servers to ask, in order.
    pub servers: Option<Vec<String>>,
    /// What the servers asked so far list; nothing for one that does not answer.
    pub answers: Vec<Option<Vec<EnvStatus>>>,
    pub defaults: Option<Defaults>,
}

/// Where an env is, or what has to be found out first.
#[derive(Debug)]
pub enum Find {
    /// On the server with this name.
    Named(String),
    /// On this machine.
    Localhost,
    /// On the server with this name, which lists it.
    Remote { name: String },
    NeedServers,
    /// The server at this place has to be asked.
    Ask(usize),
    NeedDefaults,
    /// Nowhere that is known.
    Nowhere,
}

/// Where an env is, or what has to be found out first.
pub enum FindView {
    Named(Seq<char>),
    Localhost,
    Remote(Seq<char>),
    NeedServers,
    Ask(nat),
    NeedDefaults,
    Nowhere,
}

impl View for Find {
    type V = FindView;

    open spec fn view(&self) -> FindView {
        match self {
            Find::Named(n) => FindView::Named(n@),
            Find::Localhost => FindView::Localhost,
            Find::Remote { name } => FindView::Remote(name@),
            Find::NeedServers => FindView::NeedServers,
            Find::Ask(i) => FindView::Ask(*i as nat),
            Find::NeedDefaults => FindView::NeedDefaults,
            Find::Nowhere => FindView::Nowhere,
        }
    }
}

/// A server lists an env, running or not.
pub open spec fn lists(answer: Option<Vec<EnvStatus>>, env: Seq<char>) -> bool {
    answer matches Some(envs) && env_from(envs@, env, 0) is Some
}

/// What asking the servers from `from` on comes to: the first one that lists the
/// env, or the first one that was not asked yet.
pub open spec fn search(
    env: Seq<char>,
    servers: Seq<Seq<char>>,
    answers: Seq<Option<Vec<EnvStatus>>>,
    from: int,
) -> Option<FindView>
    decreases servers.len() - from,
{
    if from < 0 || from >= servers.len() {
        None
    } else if from >= answers.len() {
        Some(FindView::Ask(from as nat))
    } else if lists(answers[from], env) {
        Some(FindView::Remote(servers[from]))
    } else {
        search(env, servers, answers, from + 1)
    }
}

/// The server that a configuration names: the repo's before the client's.
pub open spec fn default_server(d: Defaults) -> Option<Seq<char>> {
    match d.repo {
        Some(s) => Some(s@),
        None => opt_text(d.client),
    }
}

/// Where an env is: on the server that it was bound to; else here, where it is
/// listed; else on the first server that lists it; else where a configuration
/// says. It is never taken to be here for want of anything better.
pub open spec fn find_of(env: Seq<char>, k: Known) -> FindView {
    match k.bound {
        Some(s) => FindView::Named(s@),
        None => if views(k.local@).contains(env) {
            FindView::Localhost
        } else {
            match k.servers {
                None => FindView::NeedServers,
                Some(servers) => match search(env, views(servers@), k.answers@, 0) {
                    Some(f) => f,
                    None => match k.defaults {
                        None => FindView::NeedDefaults,
                        Some(d) => match default_server(d) {
                            Some(s) => FindView::Named(s),
                            None => FindView::Nowhere,
                        },
                    },
                },
            }
        },
    }
}

/// Where an env is, or what has to be found out first.
pub fn find_env_server(env: &str, known: &Known) -> (r: Find)
    ensures
        r@ == find_of(env@, *known),
{
    match &known.bound {
        Some(s) => {
            return Find::Named(s.clone());
        },
        None => {},
    }
    let ghost local = views(known.local@);
    for i in 0..known.local.len()
        invariant
            local == views(known.local@),
            known.bound is None,
            forall|j: int| 0 <= j < i ==> #[trigger] local[j] != env@,
    {
        proof {
            assert(local[i as int] == known.local@[i as int]@);
        }
        if same(known.local[i].as_str(), env) {
            return Find::Localhost;
        }
    }
    proof {
        assert(!local.contains(env@));
    }
    let servers = match &known.servers {
        Some(s) => s,
        None => {
            return Find::NeedServers;
        },
    };
    let ghost names = views(servers@);
    for i in 0..servers.len()
        invariant
            names == views(servers@),
            known.bound is None,
            !views(known.local@).contains(env@),
            known.servers == Some(*servers),
            search(env@, names, known.answers@, 0) == search(
                env@,
                names,
                known.answers@,
                i as int,
            ),
    {
        if i >= known.answers.len() {
            return Find::Ask(i);
        }
        match &known.answers[i] {
            Some(envs) => {
                if find_env(envs, env).is_some() {
                    proof {
                        assert(lists(known.answers@[i as int], env@));
                        assert(names[i as int] == servers@[i as int]@);
                    }
                    return Find::Remote { name: servers[i].clone() };
                }
            },
            None => {},
        }
    }
    match &known.defaults {
        None => Find::NeedDefaults,
        Some(d) => match &d.repo {
            Some(s) => Find::Named(s.clone()),
            None => match &d.client {
                Some(s) => Find::Named(s.clone()),
                None => Find::Nowhere,
            },
        },
    }
}

/// The server that was found; a name has to be one of a known server.
pub fn found_server(env: &str, found: &Find, registry: &Registry) -> (r: Result<
    ActiveServer,
    FindError,
>)
    requires
        registry.wf(),
        found is Named || found is Localhost || found is Remote || found is Nowhere,
    ensures
        match found {
            Find::Named(n) => if n@ == "localhost"@ {
                r matches Ok(s) && s is Localhost
            } else if registry@.contains_key(n@) {
                r matches Ok(ActiveServer::Remote { name }) && name@ == n@
            } else {
                r matches Err(FindError::Server(ServerError::Unknown { name })) && name@ == n@
            },
            Find::Localhost => r matches Ok(s) && s is Localhost,
            Find::Remote { name: n } => r matches Ok(ActiveServer::Remote { name }) && name@ == n@,
            _ => r matches Err(FindError::Cli(CliError::NotBound { env: e })) && e@ == env@,
        },
{
    match found {
        Find::Named(n) => match resolve(n.as_str(), registry) {
            Ok(s) => Ok(s),
            Err(e) => Err(FindError::Server(e)),
        },
        Find::Localhost => Ok(ActiveServer::Localhost),
        Find::Remote { name } => Ok(ActiveServer::Remote { name: name.clone() }),
        _ => Err(FindError::Cli(CliError::NotBound { env: env.to_string() })),
    }
}

/// Why no server was found.
#[derive(Debug)]
pub enum FindError {
    Server(ServerError),
    Cli(CliError),
}

impl FindError {
    pub fn message(&self) -> (r: String)
        ensures
            r@ == match self {
                FindError::Server(e) => e.says(),
                FindError::Cli(e) => e.says(),
            },
    {
        match self {
            FindError::Server(e) => e.message(),
            FindError::Cli(e) => e.message(),
        }
    }
}

/// The server that an env was bound to is the one that is taken, whatever else is
/// known.
pub proof fn law_binding_comes_first(env: Seq<char>, k: Known)
    ensures
        k.bound matches Some(s) ==> find_of(env, k) == FindView::Named(s@),
{
}

/// The server at place `i` lists an env, and none from `from` on before it does.
pub open spec fn lists_first(
    env: Seq<char>,
    answers: Seq<Option<Vec<EnvStatus>>>,
    from: int,
    i: int,
) -> bool {
    &&& from <= i < answers.len()
    &&& lists(answers[i], env)
    &&& forall|j: int| from <= j < i ==> !lists(#[trigger] answers[j], env)
}

proof fn lemma_search(
    env: Seq<char>,
    servers: Seq<Seq<char>>,
    answers: Seq<Option<Vec<EnvStatus>>>,
    from: int,
)
    requires
        0 <= from,
    ensures
        match search(env, servers, answers, from) {
            Some(FindView::Ask(_)) => true,
            Some(FindView::Remote(name)) => exists|i: int|
                i < servers.len() && name == servers[i] && #[trigger] lists_first(
                    env,
                    answers,
                    from,
                    i,
                ),
            Some(_) => false,
            None => true,
        },
    decreases servers.len() - from,
{
    if from < servers.len() && from < answers.len() {
        if lists(answers[from], env) {
            assert(lists_first(env, answers, from, from));
        } else {
            lemma_search(env, servers, answers, from + 1);
            match search(env, servers, answers, from + 1) {
                Some(FindView::Remote(name)) => {
                    let i = choose|i: int|
                        i < servers.len() && name == servers[i] && #[trigger] lists_first(
                            env,
                            answers,
                            from + 1,
                            i,
                        );
                    assert(lists_first(env, answers, from, i));
                },
                _ => {},
            }
        }
    }
}

/// An env is taken to be on this machine only where this machine lists it: there
/// is no silent fallback.
pub proof fn law_no_silent_localhost(env: Seq<char>, k: Known)
    ensures
        find_of(env, k) == FindView::Localhost ==> views(k.local@).contains(env),
{
    match k.servers {
        Some(servers) => {
            lemma_search(env, views(servers@), k.answers@, 0);
        },
        None => {},
    }
}

/// An env is taken to be on a server only where that server lists it, and no
/// server before it does.
pub proof fn law_first_server_that_lists(env: Seq<char>, k: Known, name: Seq<char>)
    requires
        find_of(env, k) == FindView::Remote(name),
    ensures
        exists|i: int|
            i < k.servers->0@.len() && name == k.servers->0@[i]@ && #[trigger] lists_first(
                env,
                k.answers@,
                0,
                i,
            ),
{
    let names = views(k.servers->0@);
    lemma_search(env, names, k.answers@, 0);
    let i = choose|i: int|
        i < names.len() && name == names[i] && #[trigger] lists_first(env, k.answers@, 0, i);
    assert(names[i] == k.servers->0@[i]@);
}

/// The SSH target of a server to connect to; this machine has none.
pub fn connect_remote(target: Option<String>) -> (r: Result<String, CliError>)
    ensures
        match target {
            Some(t) => r matches Ok(s) && s@ == t@,
            None => r matches Err(e) && e is NoTarget,
        },
{
    match target {
        Some(t) => Ok(t),
        None => Err(CliError::NoTarget),
    }
}

// ---------------------------------------------------------------------
// Setting up, removing, stopping
// ---------------------------------------------------------------------

/// The configuration that a repo begins with.
pub const FIRST_CONFIG: &'static str = "memory = \"2G\"\nvcpu = 2\n";

/// The remote that a repo begins with.
pub const FIRST_REMOTE: &'static str = "vitro://localhost";

/// The directory and the configuration file of a repo, and what is written there
/// unless it has one.
pub fn init_files(repo_root: &str, has_config: bool) -> (r: (String, String, Option<&'static str>))
    ensures
        r.0@ == below(repo_root@, ".vitro"@),
        r.1@ == below(below(repo_root@, ".vitro"@), "config.toml"@),
        opt_view(r.2) == if has_config {
            None
        } else {
            Some(FIRST_CONFIG@)
        },
{
    let dir = crate::path::join_path(repo_root, ".vitro");
    let file = crate::path::join_path(dir.as_str(), "config.toml");
    let content = if has_config {
        None
    } else {
        Some(FIRST_CONFIG)
    };
    (dir, file, content)
}

/// The steps in which an env is removed. A deletion that fails does not stop it;
/// a stop that fails does.
#[derive(Clone, Copy, PartialEq, Eq, Structural)]
pub enum RemoveStep {
    DeleteRemote,
    Stop,
    Delete,
    ForgetServer,
}

/// How an env is removed: from the server that has it, or from this machine,
/// where it is stopped first if it runs. An env that is found nowhere is only
/// forgotten.
pub open spec fn remove_plan(found: bool, remote: bool, running: bool) -> Seq<RemoveStep> {
    if !found {
        seq![RemoveStep::ForgetServer]
    } else if remote {
        seq![RemoveStep::DeleteRemote, RemoveStep::ForgetServer]
    } else if running {
        seq![RemoveStep::Stop, RemoveStep::Delete, RemoveStep::ForgetServer]
    } else {
        seq![RemoveStep::Delete, RemoveStep::ForgetServer]
    }
}

/// How an env is removed. Whether it runs matters only for one that is here.
pub fn remove_steps(server: Option<&ActiveServer>, running: bool) -> (r: Vec<RemoveStep>)
    ensures
        r@ == remove_plan(
            server is Some,
            server matches Some(s) && s is Remote,
            running,
        ),
{
    match server {
        None => vec![RemoveStep::ForgetServer],
        Some(s) => if s.is_server() {
            vec![RemoveStep::DeleteRemote, RemoveStep::ForgetServer]
        } else if running {
            vec![RemoveStep::Stop, RemoveStep::Delete, RemoveStep::ForgetServer]
        } else {
            vec![RemoveStep::Delete, RemoveStep::ForgetServer]
        },
    }
}

/// How an env is stopped.
#[derive(Clone, Copy, PartialEq, Eq, Structural)]
pub enum StopChoice {
    /// Its server takes it down.
    Down,
    /// Its VM on this machine stops.
    StopVm,
    /// It does not run.
    NotRunning,
}

/// How an env is stopped. Whether it runs matters only for one that is here.
pub fn stop_choice(server: &ActiveServer, running: bool) -> (r: StopChoice)
    ensures
        r == if server is Remote {
            StopChoice::Down
        } else if running {
            StopChoice::StopVm
        } else {
            StopChoice::NotRunning
        },
{
    if server.is_server() {
        StopChoice::Down
    } else if running {
        StopChoice::StopVm
    } else {
        StopChoice::NotRunning
    }
}

/// A text filled up with blanks to a width.
pub open spec fn padded(s: Seq<char>, width: nat) -> Seq<char> {
    if s.len() >= width {
        s
    } else {
        s + Seq::new((width - s.len()) as nat, |i: int| ' ')
    }
}

/// A text filled up with blanks to a width.
pub fn pad(s: &str, width: usize) -> (r: String)
    ensures
        r@ == padded(s@, width as nat),
{
    let mut out = s.to_string();
    let mut n: usize = s.unicode_len();
    proof {
        assert(out@ =~= s@ + Seq::new(0nat, |i: int| ' '));
    }
    while n < width
        invariant
            n >= s@.len(),
            n == s@.len() || n <= width,
            out@ == s@ + Seq::new((n - s@.len()) as nat, |i: int| ' '),
        decreases width - n,
    {
        out.push(' ');
        n = n + 1;
        proof {
            assert(out@ =~= s@ + Seq::new((n - s@.len()) as nat, |i: int| ' '));
        }
    }
    out
}

/// The beginning of a row in the list of servers.
pub fn server_column(name: &str) -> (r: String)
    ensures
        r@ == "  "@ + padded(name@, 20) + " "@,
{
    let mut s = "  ".to_string();
    s.append(pad(name, 20).as_str());
    s.append(" ");
    s
}

// ---------------------------------------------------------------------
// Cleaning up
// ---------------------------------------------------------------------

/// The threshold of a clean-up.
pub fn gc_threshold(older_than: &str) -> (r: Result<u64, CliError>)
    requires
        duration_of(older_than@) matches Some(d) ==> d <= u64::MAX,
    ensures
        match duration_of(older_than@) {
            Some(d) => r matches Ok(n) && n == d,
            None => r matches Err(CliError::BadDuration { text }) && text@ == older_than@,
        },
{
    match parse_duration(older_than) {
        Some(n) => Ok(n),
        None => Err(CliError::BadDuration { text: older_than.to_string() }),
    }
}

/// How long an env has been idle; a clock that was set back counts as no time.
pub open spec fn idle_of(now: u64, last_active: u64) -> u64 {
    if now >= last_active {
        (now - last_active) as u64
    } else {
        0
    }
}

/// An env is stale: it does not run, it is known when it was last active, and
/// that was longer ago than the threshold.
pub open spec fn is_stale(running: bool, last_active: u64, now: u64, threshold: u64) -> bool {
    !running && last_active != 0 && idle_of(now, last_active) > threshold
}

/// What a clean-up does with an env.
#[derive(Debug, Clone, Copy, PartialEq, Eq, Structural)]
pub enum GcAction {
    Keep,
    /// It is said that the env, idle for this long, would be deleted.
    WouldDelete(u64),
    /// The env, idle for this long, is deleted.
    Delete(u64),
}

/// What a clean-up does with an env: one that is stale is deleted, but not in a
/// dry run; any other stays.
pub fn gc_action(
    dry_run: bool,
    running: bool,
    last_active: u64,
    now: u64,
    threshold: u64,
) -> (r: GcAction)
    ensures
        match r {
            GcAction::Keep => !is_stale(running, last_active, now, threshold),
            GcAction::WouldDelete(a) => dry_run && is_stale(running, last_active, now, threshold)
                && a == idle_of(now, last_active),
            GcAction::Delete(a) => !dry_run && is_stale(running, last_active, now, threshold) && a
                == idle_of(now, last_active),
        },
{
    if running || last_active == 0 || now < last_active {
        return GcAction::Keep;
    }
    let age: u64 = now - last_active;
    if age <= threshold {
        GcAction::Keep
    } else if dry_run {
        GcAction::WouldDelete(age)
    } else {
        GcAction::Delete(age)
    }
}

/// A clean-up never takes an env that runs, nor one of which it is not known when
/// it was last active, nor one that has not been idle for longer than the
/// threshold.
pub proof fn law_clean_up_spares(running: bool, last_active: u64, now: u64, threshold: u64)
    ensures
        running ==> !is_stale(running, last_active, now, threshold),
        last_active == 0 ==> !is_stale(running, last_active, now, threshold),
        now <= last_active + threshold ==> !is_stale(running, last_active, now, threshold),
{
}

/// An age in its largest whole unit: days, hours or minutes.
pub open spec fn age_of(age: u64) -> Seq<char> {
    if age >= 86400 {
        decimal_of((age / 86400) as nat) + "d"@
    } else if age >= 3600 {
        decimal_of((age / 3600) as nat) + "h"@
    } else {
        decimal_of((age / 60) as nat) + "m"@
    }
}

/// An age in its largest whole unit: days, hours or minutes.
pub fn age_text(age: u64) -> (r: String)
    ensures
        r@ == age_of(age),
{
    if age >= 86400 {
        let mut s = decimal(age / 86400);
        s.append("d");
        s
    } else if age >= 3600 {
        let mut s = decimal(age / 3600);
        s.append("h");
        s
    } else {
        let mut s = decimal(age / 60);
        s.append("m");
        s
    }
}

/// What a clean-up comes to.
pub fn gc_summary(dry_run: bool, deleted: u64) -> (r: String)
    ensures
        r@ == if dry_run {
            "dry run — no envs deleted"@
        } else if deleted == 0 {
            "no stale envs to clean up"@
        } else {
            "cleaned up "@ + decimal_of(deleted as nat) + " env"@ + (if deleted == 1 {
                ""@
            } else {
                "s"@
            })
        },
{
    if dry_run {
        "dry run — no envs deleted".to_string()
    } else if deleted == 0 {
        "no stale envs to clean up".to_string()
    } else {
        let mut s = "cleaned up ".to_string();
        s.append(decimal(deleted).as_str());
        s.append(" env");
        let plural = if deleted == 1 {
            ""
        } else {
            "s"
        };
        s.append(plural);
        s
    }
}

// ---------------------------------------------------------------------
// Envs on this machine
// ---------------------------------------------------------------------

/// What is known of an env on this machine: whether it runs, and the files in
/// its runtime directory that can be read.
pub struct LocalFacts {
    pub name: String,
    pub running: bool,
    pub repo_file: Option<String>,
    pub ip_file: Option<String>,
}

/// The repo that a file names; nothing, where it cannot be read.
pub open spec fn repo_in_file(file: Option<String>) -> Seq<char> {
    match file {
        Some(t) => trimmed(t@),
        None => ""@,
    }
}

/// An env runs, and is for the repo that is asked for, if one is.
pub open spec fn serves(f: LocalFacts, repo: Option<Seq<char>>) -> bool {
    f.running && (repo matches Some(r) ==> repo_in_file(f.repo_file) == r)
}

/// The first env that runs and is for the repo.
pub open spec fn first_serving(envs: Seq<LocalFacts>, repo: Option<Seq<char>>) -> Option<Seq<char>>
    decreases envs.len(),
{
    if envs.len() == 0 {
        None
    } else if serves(envs[0], repo) {
        Some(envs[0].name@)
    } else {
        first_serving(envs.skip(1), repo)
    }
}

/// The repo path of the first env that runs, and is for the repo if one is asked
/// for.
pub fn resolve_env(envs: &Vec<LocalFacts>, repo: Option<&str>) -> (r: Option<String>)
    ensures
        opt_text(r) == match first_serving(envs@, opt_view(repo)) {
            Some(n) => Some(below(env_at(n), "repo"@)),
            None => None,
        },
{
    proof {
        assert(envs@.skip(0) =~= envs@);
    }
    for i in 0..envs.len()
        invariant
            first_serving(envs@.skip(i as int), opt_view(repo)) == first_serving(
                envs@,
                opt_view(repo),
            ),
    {
        proof {
            assert(envs@.skip(i as int).skip(1) =~= envs@.skip(i + 1));
        }
        if envs[i].running {
            let fits_repo = match repo {
                Some(want) => {
                    let has = match &envs[i].repo_file {
                        Some(t) => trim(t.as_str()),
                        None => "",
                    };
                    same(has, want)
                },
                None => true,
            };
            if fits_repo {
                return Some(env_repo_dir(envs[i].name.as_str()));
            }
        }
    }
    None
}

// ---------------------------------------------------------------------
// Shells
// ---------------------------------------------------------------------

/// What is asked of a shell.
pub struct ShellRequest {
    pub list_sessions: bool,
    pub kill_session: Option<String>,
    pub json: bool,
    pub command: Option<String>,
    pub session: Option<String>,
}

/// What a shell comes to. The last three bring the env up first.
pub enum ShellPlan {
    ListSessions,
    KillSession(String),
    /// The command is run, and what it prints is captured.
    Capture(String),
    /// There is nothing to capture.
    NeedsCommand,
    /// The env is entered; this is said where it is interactive.
    Enter { announce: bool },
}

/// What a shell comes to: a list of sessions before all else, then a session that
/// is killed.
pub fn shell_plan(request: &ShellRequest) -> (r: ShellPlan)
    ensures
        if request.list_sessions {
            r is ListSessions
        } else {
            match request.kill_session {
                Some(k) => r matches ShellPlan::KillSession(n) && n@ == k@,
                None => if request.json {
                    match request.command {
                        Some(c) => r matches ShellPlan::Capture(d) && d@ == c@,
                        None => r is NeedsCommand,
                    }
                } else {
                    r matches ShellPlan::Enter { announce } && announce == (request.command is None
                        && request.session is None)
                },
            }
        },
{
    if request.list_sessions {
        return ShellPlan::ListSessions;
    }
    match &request.kill_session {
        Some(k) => {
            return ShellPlan::KillSession(k.clone());
        },
        None => {},
    }
    if request.json {
        return match &request.command {
            Some(c) => ShellPlan::Capture(c.clone()),
            None => ShellPlan::NeedsCommand,
        };
    }
    ShellPlan::Enter { announce: request.command.is_none() && request.session.is_none() }
}

/// A whole number as JSON writes it.
pub open spec fn signed_of(n: int) -> Seq<char> {
    if n < 0 {
        "-"@ + decimal_of((-n) as nat)
    } else {
        decimal_of(n as nat)
    }
}

fn signed(n: i32) -> (j: Json)
    ensures
        j@ == JsonView::Number(signed_of(n as int)),
{
    if n < 0 {
        let k: i64 = -(n as i64);
        let mut s = "-".to_string();
        s.append(decimal(k as u64).as_str());
        Json::Number(s)
    } else {
        Json::Number(decimal(n as u64))
    }
}

/// What a captured command printed, as JSON.
pub open spec fn captured_view(c: CapturedShell) -> JsonView {
    JsonView::Object(
        seq![
            entry("duration_ms"@, JsonView::Number(decimal_of(c.duration_ms as nat))),
            entry("exit_code"@, JsonView::Number(signed_of(c.exit_code as int))),
            entry("stderr"@, JsonView::Text(c.stderr@)),
            entry("stdout"@, JsonView::Text(c.stdout@)),
        ],
    )
}

pub proof fn lemma_captured_fits(c: CapturedShell)
    ensures
        fits(captured_view(c), 127),
{
    reveal_strlit("duration_ms");
    reveal_strlit("exit_code");
    reveal_strlit("stderr");
    reveal_strlit("stdout");
    lemma_before_at("duration_ms"@, "exit_code"@, 0);
    lemma_before_at("exit_code"@, "stderr"@, 0);
    lemma_before_at("stderr"@, "stdout"@, 3);
    lemma_leaf_fits(126);
    let n = c.exit_code as int;
    if n < 0 {
        let k = (-n) as nat;
        assert(signed_of(n) == "-"@ + decimal_of(k));
        assert(0 < k <= 0x8000_0000_0000_0000);
        assert(is_whole(signed_of(n)));
        assert(fits(JsonView::Number(signed_of(n)), 126));
    } else {
        assert(fits(JsonView::Number(decimal_of(n as nat)), 126));
    }
    assert(fits(JsonView::Number(decimal_of(c.duration_ms as nat)), 126));
    lemma_object_fits(captured_view(c)->Object_0, 126);
}

/// What a captured command printed, as a JSON text, which reads back as that.
pub fn captured_json(c: &CapturedShell) -> (r: String)
    ensures
        r@ == compact(captured_view(*c)),
        text_holds(r@) == Some(captured_view(*c)),
{
    let ms = vec![
        member("duration_ms", whole(c.duration_ms)),
        member("exit_code", signed(c.exit_code)),
        member("stderr", text(c.stderr.as_str())),
        member("stdout", text(c.stdout.as_str())),
    ];
    proof {
        assert(member_views(ms@) =~= captured_view(*c)->Object_0);
        lemma_captured_fits(*c);
    }
    render_json(&object(ms))
}

// ---------------------------------------------------------------------
// Lists
// ---------------------------------------------------------------------

/// An env in a list.
#[derive(Debug)]
pub struct EnvRow {
    pub name: String,
    pub status: String,
    pub server: String,
    pub repo: Option<String>,
    pub ip: Option<String>,
}

/// An env in a list.
#[verifier::ext_equal]
pub struct RowView {
    pub name: Seq<char>,
    pub status: Seq<char>,
    pub server: Seq<char>,
    pub repo: Option<Seq<char>>,
    pub ip: Option<Seq<char>>,
}

impl View for EnvRow {
    type V = RowView;

    open spec fn view(&self) -> RowView {
        RowView {
            name: self.name@,
            status: self.status@,
            server: self.server@,
            repo: opt_text(self.repo),
            ip: opt_text(self.ip),
        }
    }
}

/// The status of an env that runs or not.
pub open spec fn status_of(running: bool) -> Seq<char> {
    if running {
        "running"@
    } else {
        "stopped"@
    }
}

/// The address in a file, unless it is blank.
pub open spec fn address_in(file: Option<Seq<char>>) -> Option<Seq<char>> {
    match file {
        Some(t) => if trimmed(t).len() > 0 {
            Some(trimmed(t))
        } else {
            None
        },
        None => None,
    }
}

/// The row of an env on this machine. Only one that runs has an address.
pub open spec fn local_row(f: LocalFacts) -> RowView {
    RowView {
        name: f.name@,
        status: status_of(f.running),
        server: "localhost"@,
        repo: match f.repo_file {
            Some(t) => Some(trimmed(t@)),
            None => None,
        },
        ip: if f.running {
            address_in(opt_text(f.ip_file))
        } else {
            None
        },
    }
}

/// The row of an env on a server.
pub open spec fn remote_row(server: Seq<char>, e: EnvStatus) -> RowView {
    RowView {
        name: e.name@,
        status: e.status@,
        server,
        repo: opt_text(e.repo),
        ip: opt_text(e.ip),
    }
}

/// A server and the envs that it lists; nothing, where it does not answer.
pub struct ServerEnvs {
    pub name: String,
    pub envs: Option<Vec<EnvStatus>>,
}

/// The rows of the envs of one server.
pub open spec fn server_rows(s: ServerEnvs) -> Seq<RowView> {
    match s.envs {
        Some(l) => l@.map_values(|e: EnvStatus| remote_row(s.name@, e)),
        None => Seq::empty(),
    }
}

/// The rows of the envs of all servers.
pub open spec fn remote_rows(servers: Seq<ServerEnvs>) -> Seq<RowView>
    decreases servers.len(),
{
    if servers.len() == 0 {
        Seq::empty()
    } else {
        remote_rows(servers.drop_last()) + server_rows(servers.last())
    }
}

/// The rows of all envs: those of this machine, then those of the servers, in
/// order.
pub open spec fn all_rows(locals: Seq<LocalFacts>, servers: Seq<ServerEnvs>) -> Seq<RowView> {
    locals.map_values(|f: LocalFacts| local_row(f)) + remote_rows(servers)
}

/// What rows say.
pub open spec fn row_views(rows: Seq<EnvRow>) -> Seq<RowView> {
    rows.map_values(|r: EnvRow| r@)
}

/// The status and the address of an env on this machine.
pub fn local_status(running: bool, ip_file: Option<&str>) -> (r: (String, Option<String>))
    ensures
        r.0@ == status_of(running),
        opt_text(r.1) == if running {
            address_in(opt_view(ip_file))
        } else {
            None
        },
{
    if !running {
        return ("stopped".to_string(), None);
    }
    let ip = match ip_file {
        Some(t) => {
            let a = trim(t);
            if a.is_empty() {
                None
            } else {
                Some(a.to_string())
            }
        },
        None => None,
    };
    ("running".to_string(), ip)
}

fn copied(t: &Option<String>) -> (r: Option<String>)
    ensures
        opt_text(r) == opt_text(*t),
{
    match t {
        Some(s) => Some(s.clone()),
        None => None,
    }
}

fn row_of(f: &LocalFacts) -> (r: EnvRow)
    ensures
        r@ == local_row(*f),
{
    let ip_file = match &f.ip_file {
        Some(t) => Some(t.as_str()),
        None => None,
    };
    let (status, ip) = local_status(f.running, ip_file);
    let repo = match &f.repo_file {
        Some(t) => Some(trim(t.as_str()).to_string()),
        None => None,
    };
    EnvRow { name: f.name.clone(), status, server: "localhost".to_string(), repo, ip }
}

/// The rows of all envs: those of this machine, then those of the servers that
/// answer, in order.
pub fn collect_env_rows(locals: &Vec<LocalFacts>, servers: &Vec<ServerEnvs>) -> (r: Vec<EnvRow>)
    ensures
        row_views(r@) == all_rows(locals@, servers@),
{
    let ghost here = locals@.map_values(|f: LocalFacts| local_row(f));
    let mut rows: Vec<EnvRow> = Vec::new();
    for i in 0..locals.len()
        invariant
            here == locals@.map_values(|f: LocalFacts| local_row(f)),
            row_views(rows@) =~= here.take(i as int),
    {
        let row = row_of(&locals[i]);
        let ghost before = rows@;
        rows.push(row);
        proof {
            assert(row_views(rows@) =~= row_views(before).push(row@));
        }
    }
    proof {
        assert(here.take(locals@.len() as int) =~= here);
        assert(servers@.take(0) =~= Seq::empty());
        assert(row_views(rows@) =~= here + remote_rows(servers@.take(0)));
    }
    for i in 0..servers.len()
        invariant
            row_views(rows@) == here + remote_rows(servers@.take(i as int)),
    {
        let ghost there = remote_rows(servers@.take(i as int));
        let ghost mine = server_rows(servers@[i as int]);
        proof {
            assert(servers@.take(i + 1).drop_last() =~= servers@.take(i as int));
        }
        match &servers[i].envs {
            Some(l) => {
                proof {
                    assert(row_views(rows@) =~= here + there + mine.take(0));
                }
                for k in 0..l.len()
                    invariant
                        i < servers@.len(),
                        servers@[i as int].envs == Some(*l),
                        mine == server_rows(servers@[i as int]),
                        row_views(rows@) == here + there + mine.take(k as int),
                {
                    let e = &l[k];
                    let row = EnvRow {
                        name: e.name.clone(),
                        status: e.status.clone(),
                        server: servers[i].name.clone(),
                        repo: copied(&e.repo),
                        ip: copied(&e.ip),
                    };
                    let ghost before = rows@;
                    rows.push(row);
                    proof {
                        assert(mine[k as int] == remote_row(servers@[i as int].name@, *e));
                        assert(row_views(rows@) =~= row_views(before).push(row@));
                        assert(row_views(rows@) =~= here + there + mine.take(k + 1));
                    }
                }
                proof {
                    assert(mine.take(l@.len() as int) =~= mine);
                    assert(here + there + mine =~= here + (there + mine));
                }
            },
            None => {
                proof {
                    assert(here + there =~= here + (there + mine));
                }
            },
        }
    }
    proof {
        assert(servers@.take(servers@.len() as int) =~= servers@);
    }
    rows
}

/// A row as JSON. It is not known when an env was started.
pub open spec fn row_json(r: RowView) -> JsonView {
    JsonView::Object(
        seq![
            entry("ip"@, text_or_null(r.ip)),
            entry("name"@, JsonView::Text(r.name)),
            entry("repo"@, text_or_null(r.repo)),
            entry("server"@, JsonView::Text(r.server)),
            entry("started_at"@, JsonView::Null),
            entry("status"@, JsonView::Text(r.status)),
        ],
    )
}

/// A list as JSON.
pub open spec fn list_json(rows: Seq<RowView>) -> JsonView {
    JsonView::Object(
        seq![entry("envs"@, JsonView::Array(rows.map_values(|r: RowView| row_json(r))))],
    )
}

fn maybe(t: &Option<String>) -> (j: Json)
    ensures
        j@ == text_or_null(opt_text(*t)),
{
    crate::json::maybe_text(t)
}

/// A list as JSON: `{ "envs": [...] }`.
pub fn list_to_json(rows: &Vec<EnvRow>) -> (j: Json)
    ensures
        j@ == list_json(row_views(rows@)),
{
    let mut items: Vec<Json> = Vec::new();
    for i in 0..rows.len()
        invariant
            items@.len() == i,
            forall|k: int| 0 <= k < i ==> (#[trigger] items@[k])@ == row_json(rows@[k]@),
    {
        let row = &rows[i];
        let ms = vec![
            member("ip", maybe(&row.ip)),
            member("name", text(row.name.as_str())),
            member("repo", maybe(&row.repo)),
            member("server", text(row.server.as_str())),
            member("started_at", Json::Null),
            member("status", text(row.status.as_str())),
        ];
        proof {
            assert(member_views(ms@) =~= row_json(row@)->Object_0);
        }
        items.push(object(ms));
    }
    proof {
        assert(json_views(items@) =~= row_views(rows@).map_values(|r: RowView| row_json(r)));
    }
    let ms = vec![member("envs", array(items))];
    proof {
        assert(member_views(ms@) =~= list_json(row_views(rows@))->Object_0);
    }
    object(ms)
}

pub proof fn lemma_list_fits(rows: Seq<RowView>)
    ensures
        fits(list_json(rows), 127),
{
    reveal_strlit("ip");
    reveal_strlit("name");
    reveal_strlit("repo");
    reveal_strlit("server");
    reveal_strlit("started_at");
    reveal_strlit("status");
    lemma_before_at("ip"@, "name"@, 0);
    lemma_before_at("name"@, "repo"@, 0);
    lemma_before_at("repo"@, "server"@, 0);
    lemma_before_at("server"@, "started_at"@, 1);
    assert("started_at"@.len() == 10 && "status"@.len() == 6);
    lemma_before_at("started_at"@, "status"@, 3);
    lemma_leaf_fits(0);
    let items = rows.map_values(|r: RowView| row_json(r));
    assert forall|i: int| 0 <= i < items.len() implies fits(#[trigger] items[i], 1) by {
        lemma_object_fits(row_json(rows[i])->Object_0, 0);
    }
    lemma_array_fits(items, 1);
    lemma_object_fits(list_json(rows)->Object_0, 2);
    lemma_fits_more(list_json(rows), 3, 127);
}

/// A list as a JSON text, which reads back as the list.
pub fn list_text(rows: &Vec<EnvRow>) -> (r: String)
    ensures
        r@ == compact(list_json(row_views(rows@))),
        text_holds(r@) == Some(list_json(row_views(rows@))),
{
    proof {
        lemma_list_fits(row_views(rows@));
    }
    render_json(&list_to_json(rows))
}

/// How an env is called in a list: with its repo, unless that is the current one.
pub open spec fn label_of(
    name: Seq<char>,
    repo: Option<Seq<char>>,
    current: Option<Seq<char>>,
) -> Seq<char> {
    match repo {
        Some(r) => if current == Some(r) {
            name
        } else {
            r + "/"@ + name
        },
        None => name,
    }
}

/// How an env is called in a list: with its repo, unless that is the current one.
pub fn env_label(row: &EnvRow, current_repo: Option<&str>) -> (r: String)
    ensures
        r@ == label_of(row.name@, opt_text(row.repo), opt_view(current_repo)),
{
    match &row.repo {
        Some(repo) => {
            let current = match current_repo {
                Some(c) => same(repo.as_str(), c),
                None => false,
            };
            if current {
                row.name.clone()
            } else {
                let mut s = repo.clone();
                s.append("/");
                s.append(row.name.as_str());
                s
            }
        },
        None => row.name.clone(),
    }
}

// ---------------------------------------------------------------------
// Status
// ---------------------------------------------------------------------

/// The state of a repo, as JSON.
pub open spec fn git_view(head: Option<Seq<char>>) -> JsonView {
    JsonView::Object(seq![entry("head"@, text_or_null(head))])
}

/// The state of a repo, as JSON.
pub fn git_state(head: &Option<String>) -> (j: Json)
    ensures
        j@ == git_view(opt_text(*head)),
{
    let ms = vec![member("head", maybe(head))];
    proof {
        assert(member_views(ms@) =~= git_view(opt_text(*head))->Object_0);
    }
    object(ms)
}

/// Whether the env runs, as JSON.
pub open spec fn process_view(running: bool) -> JsonView {
    JsonView::Object(
        seq![
            entry("pid"@, JsonView::Null),
            entry("running"@, JsonView::Bool(running)),
            entry("started_at"@, JsonView::Null),
        ],
    )
}

/// The status of an env, as JSON.
pub open spec fn status_view(
    name: Seq<char>,
    status: Seq<char>,
    ip: Option<Seq<char>>,
    head: Option<Seq<char>>,
) -> JsonView {
    JsonView::Object(
        seq![
            entry("git"@, git_view(head)),
            entry("ip"@, text_or_null(ip)),
            entry("name"@, JsonView::Text(name)),
            entry("process"@, process_view(status == "running"@)),
            entry("status"@, JsonView::Text(status)),
        ],
    )
}

pub proof fn lemma_status_fits(
    name: Seq<char>,
    status: Seq<char>,
    ip: Option<Seq<char>>,
    head: Option<Seq<char>>,
)
    ensures
        fits(status_view(name, status, ip, head), 127),
{
    reveal_strlit("git");
    reveal_strlit("ip");
    reveal_strlit("name");
    reveal_strlit("process");
    reveal_strlit("status");
    reveal_strlit("pid");
    reveal_strlit("running");
    reveal_strlit("started_at");
    lemma_before_at("git"@, "ip"@, 0);
    lemma_before_at("ip"@, "name"@, 0);
    lemma_before_at("name"@, "process"@, 0);
    lemma_before_at("process"@, "status"@, 0);
    lemma_before_at("pid"@, "running"@, 0);
    lemma_before_at("running"@, "started_at"@, 0);
    lemma_leaf_fits(0);
    lemma_leaf_fits(1);
    lemma_object_fits(git_view(head)->Object_0, 0);
    lemma_object_fits(process_view(status == "running"@)->Object_0, 0);
    lemma_object_fits(status_view(name, status, ip, head)->Object_0, 1);
    lemma_fits_more(status_view(name, status, ip, head), 2, 127);
}

/// The status of an env, as a JSON text, which reads back as that.
pub fn status_to_json(name: &str, status: &str, ip: &Option<String>, head: &Option<String>) -> (r:
    String)
    ensures
        r@ == compact(status_view(name@, status@, opt_text(*ip), opt_text(*head))),
        text_holds(r@) == Some(status_view(name@, status@, opt_text(*ip), opt_text(*head))),
{
    let ps = vec![
        member("pid", Json::Null),
        member("running", Json::Bool(same(status, "running"))),
        member("started_at", Json::Null),
    ];
    proof {
        assert(member_views(ps@) =~= process_view(status@ == "running"@)->Object_0);
    }
    let ms = vec![
        member("git", git_state(head)),
        member("ip", maybe(ip)),
        member("name", text(name)),
        member("process", object(ps)),
        member("status", text(status)),
    ];
    proof {
        assert(member_views(ms@) =~= status_view(
            name@,
            status@,
            opt_text(*ip),
            opt_text(*head),
        )->Object_0);
        lemma_status_fits(name@, status@, opt_text(*ip), opt_text(*head));
    }
    render_json(&object(ms))
}

/// The status and the address that a server gives for an env.
pub fn remote_status(envs: &Vec<EnvStatus>, name: &str) -> (r: Result<
    (String, Option<String>),
    CliError,
>)
    ensures
        match env_from(envs@, name@, 0) {
            Some(i) => r matches Ok(p) && p.0@ == envs@[i].status@ && opt_text(p.1) == opt_text(
                envs@[i].ip,
            ),
            None => r matches Err(CliError::NotFound { env }) && env@ == name@,
        },
{
    match find_env(envs, name) {
        Some(e) => Ok((e.status.clone(), copied(&e.ip))),
        None => Err(CliError::NotFound { env: name.to_string() }),
    }
}

// ---------------------------------------------------------------------
// Sessions
// ---------------------------------------------------------------------

/// What a text to send stands for: `\n` and `\r` are a line feed and a carriage
/// return.
pub open spec fn interpreted(text: Seq<char>) -> Seq<char> {
    substituted(substituted(text, "\\n"@, "\n"@), "\\r"@, "\r"@)
}

/// What a text to send stands for.
pub fn interpret(text: &str) -> (r: String)
    ensures
        r@ == interpreted(text@),
{
    proof {
        reveal_strlit("\\n");
        reveal_strlit("\\r");
    }
    replace(replace(text, "\\n", "\n").as_str(), "\\r", "\r")
}

/// Sessions are sent text only on this machine.
pub fn may_send(server: &ActiveServer) -> (r: Result<(), CliError>)
    ensures
        match r {
            Ok(_) => server is Localhost,
            Err(e) => server is Remote && e is RemoteSend,
        },
{
    if server.is_server() {
        Err(CliError::RemoteSend)
    } else {
        Ok(())
    }
}

/// The logs of sessions are read only on this machine.
pub fn may_read_log(server: &ActiveServer) -> (r: Result<(), CliError>)
    ensures
        match r {
            Ok(_) => server is Localhost,
            Err(e) => server is Remote && e is RemoteLog,
        },
{
    if server.is_server() {
        Err(CliError::RemoteLog)
    } else {
        Ok(())
    }
}

/// The arguments of the `tail` call that shows a log.
pub fn tail_args(log: &str, follow: bool) -> (r: Vec<String>)
    ensures
        views(r@) == if follow {
            seq!["-f"@, log@]
        } else {
            seq![log@]
        },
{
    if follow {
        vec!["-f".to_string(), log.to_string()]
    } else {
        vec![log.to_string()]
    }
}

/// A number with a unit behind it is that many of the unit, and a number alone
/// is seconds.
pub proof fn law_duration_of_unit(n: nat, unit: char)
    requires
        n <= u64::MAX,
        unit_seconds(unit) is Some,
    ensures
        duration_of(decimal_of(n)) == Some(n),
        duration_of(decimal_of(n).push(unit)) == Some(n * unit_seconds(unit)->0),
{
    let d = decimal_of(n);
    let s = d.push(unit);
    lemma_decimal_value(n);
    assert(is_digit(d[0]));
    assert(s[0] == d[0]);
    assert(s.drop_last() =~= d);
    assert(!is_digit(unit));
}

} // verus!
