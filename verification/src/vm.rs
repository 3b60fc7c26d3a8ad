use vstd::prelude::*;

use crate::config::{EnvConfig, PersistConfig};
use crate::env::{env_at, env_dir, env_flake_dir, env_repo_dir};
use crate::json::{compact, render_json, text_holds};
use crate::nix::{flake_of, flake_text, FlakeFacts, FlakeView};
use crate::path::{below, join_path};
use crate::rules::{lemma_registration_fits, registration, registration_view};
use crate::session::{attach_line, dtach_attach, quiet_ssh};
use crate::shell::{
    escaped, law_line_words, line_of, plain_word, shell_escape, shell_words, writes,
};
use crate::text::{begins, chars_of, opt_text, opt_view, same, text_of, trim, trimmed, views};

pub use crate::dns::{dns_hostname, sanitize_dns};

verus! {

/// Where the control API of the proxy listens.
pub const PROXY_CONTROL: &'static str = "http://127.0.0.1:8082";

/// Where a server keeps its own configuration of VMs.
pub const SERVER_VM_CONFIG: &'static str = "/var/lib/vitro/vm-config";

/// The configuration of the host.
pub const HOST_CONFIG: &'static str = "/etc/vitro/host-config.json";

/// The key with which the host reaches its VMs.
pub const HOST_PUBKEY: &'static str = "/var/lib/vitro/ssh/id_ed25519.pub";

/// Where the VMs are kept.
pub const MICROVMS: &'static str = "/var/lib/microvms/";

/// How often a VM that does not answer is asked again.
pub const WAIT_TRIES: u32 = 60;

// ---------------------------------------------------------------------
// Errors
// ---------------------------------------------------------------------

#[derive(Debug)]
pub enum VmError {
    NotRunning,
    FlakeUpdate { name: String },
    Build { name: String, stderr: String },
    Start { name: String },
    RemoveEnvDir { path: String },
    RemoveVmDir { path: String },
    Unreachable,
    AcpExit { status: String },
    ShellExit { status: String },
}

impl VmError {
    pub fn message(&self) -> (r: String)
        ensures
            r@ == match self {
                VmError::NotRunning => "VM not running (no ip file)"@,
                VmError::FlakeUpdate { name } => "failed to update flake inputs for env '"@ + name@
                    + "'"@,
                VmError::Build { name, stderr } => "failed to build env VM '"@ + name@ + "': "@
                    + stderr@,
                VmError::Start { name } => "failed to start VM for env '"@ + name@ + "'"@,
                VmError::RemoveEnvDir { path } => "failed to remove env dir at "@ + path@,
                VmError::RemoveVmDir { path } => "failed to remove microvm dir at "@ + path@,
                VmError::Unreachable => "VM did not become reachable within 60s"@,
                VmError::AcpExit { status } => "acp forward exited with "@ + status@,
                VmError::ShellExit { status } => "ssh exited with "@ + status@,
            },
    {
        match self {
            VmError::NotRunning => "VM not running (no ip file)".to_string(),
            VmError::FlakeUpdate { name } => {
                let mut s = "failed to update flake inputs for env '".to_string();
                s.append(name.as_str());
                s.append("'");
                s
            },
            VmError::Build { name, stderr } => {
                let mut s = "failed to build env VM '".to_string();
                s.append(name.as_str());
                s.append("': ");
                s.append(stderr.as_str());
                s
            },
            VmError::Start { name } => {
                let mut s = "failed to start VM for env '".to_string();
                s.append(name.as_str());
                s.append("'");
                s
            },
            VmError::RemoveEnvDir { path } => {
                let mut s = "failed to remove env dir at ".to_string();
                s.append(path.as_str());
                s
            },
            VmError::RemoveVmDir { path } => {
                let mut s = "failed to remove microvm dir at ".to_string();
                s.append(path.as_str());
                s
            },
            VmError::Unreachable => "VM did not become reachable within 60s".to_string(),
            VmError::AcpExit { status } => {
                let mut s = "acp forward exited with ".to_string();
                s.append(status.as_str());
                s
            },
            VmError::ShellExit { status } => {
                let mut s = "ssh exited with ".to_string();
                s.append(status.as_str());
                s
            },
        }
    }
}

// ---------------------------------------------------------------------
// Privileges
// ---------------------------------------------------------------------

/// Whether the user of this name is root; no name is not.
pub fn is_root(user: Option<&str>) -> (r: bool)
    ensures
        r == (opt_view(user) == Some("root"@)),
{
    match user {
        Some(u) => same(u, "root"),
        None => false,
    }
}

/// A command line that runs with privileges: as it is for root, else behind
/// `sudo`.
pub fn run_privileged(root: bool, args: Vec<String>) -> (r: Vec<String>)
    requires
        args@.len() > 0,
    ensures
        views(r@) == if root {
            views(args@)
        } else {
            seq!["sudo"@] + views(args@)
        },
{
    if root {
        args
    } else {
        let ghost a = views(args@);
        let mut r = args;
        r.insert(0, "sudo".to_string());
        proof {
            assert(views(r@) =~= seq!["sudo"@] + a);
        }
        r
    }
}

// ---------------------------------------------------------------------
// The flake of an env
// ---------------------------------------------------------------------

/// The flake that tells that a server has a configuration of its own.
pub fn server_config_flake() -> (r: String)
    ensures
        r@ == below(SERVER_VM_CONFIG@, "flake.nix"@),
{
    join_path(SERVER_VM_CONFIG, "flake.nix")
}

/// The flake that tells that the repo of an env has a configuration.
pub fn repo_config_flake(name: &str) -> (r: String)
    ensures
        r@ == below(below(env_at(name@), "repo"@), ".vitro/flake.nix"@),
{
    join_path(env_repo_dir(name).as_str(), ".vitro/flake.nix")
}

/// The flake of an env: the directory that is made anew for it, the file and its
/// text, and the arguments of the `nix` call that updates its inputs.
pub struct Flake {
    pub dir: String,
    pub file: String,
    pub text: String,
    pub update: Vec<String>,
}

pub open spec fn flake_dir_of(name: Seq<char>) -> Seq<char> {
    below(env_at(name), "flake"@)
}

/// The flake of an env, which builds its VM from the configurations of the host,
/// the server and the repo.
pub fn generate_flake(
    name: &str,
    ip: &str,
    repo_name: &str,
    config: &EnvConfig,
    host_config: String,
    has_server_config: bool,
    has_repo_config: bool,
) -> (r: Flake)
    ensures
        r.dir@ == flake_dir_of(name@),
        r.file@ == below(flake_dir_of(name@), "flake.nix"@),
        r.text@ == flake_of(
            (FlakeView {
                name: name@,
                ip: ip@,
                env_dir: env_at(name@),
                repo: repo_name@,
                host_config: host_config@,
                server_config: if has_server_config {
                    Some(SERVER_VM_CONFIG@)
                } else {
                    None
                },
                repo_config: if has_repo_config {
                    Some(below(below(env_at(name@), "repo"@), ".vitro"@))
                } else {
                    None
                },
            }),
            config.persist@,
        ),
        views(r.update@) == seq![
            "--extra-experimental-features"@,
            "nix-command flakes"@,
            "flake"@,
            "update"@,
            "--flake"@,
            flake_dir_of(name@),
        ],
{
    let dir = env_flake_dir(name);
    let facts = FlakeFacts {
        name: name.to_string(),
        ip: ip.to_string(),
        env_dir: env_dir(name),
        repo: repo_name.to_string(),
        host_config,
        server_config: if has_server_config {
            Some(SERVER_VM_CONFIG.to_string())
        } else {
            None
        },
        repo_config: if has_repo_config {
            Some(join_path(env_repo_dir(name).as_str(), ".vitro"))
        } else {
            None
        },
    };
    let text = flake_text(&facts, &config.persist);
    let update = vec![
        "--extra-experimental-features".to_string(),
        "nix-command flakes".to_string(),
        "flake".to_string(),
        "update".to_string(),
        "--flake".to_string(),
        dir.clone(),
    ];
    Flake { file: join_path(dir.as_str(), "flake.nix"), dir, text, update }
}

// ---------------------------------------------------------------------
// Reaching a VM
// ---------------------------------------------------------------------

/// Where a VM is reached with `ssh`.
pub open spec fn target_of(ip: Seq<char>, user: Seq<char>) -> Seq<char> {
    if user.len() == 0 {
        ip
    } else {
        user + "@"@ + ip
    }
}

/// The user that the user file names; nobody, where it cannot be read.
pub open spec fn user_in(file: Option<Seq<char>>) -> Seq<char> {
    match file {
        Some(t) => trimmed(t),
        None => ""@,
    }
}

/// The address of a VM, and where it is reached with `ssh`, from the files in
/// its runtime directory. Without the file with its address it does not run.
pub fn ssh_target(ip_file: Option<&str>, user_file: Option<&str>) -> (r: Result<
    (String, String),
    VmError,
>)
    ensures
        match ip_file {
            Some(t) => r matches Ok(p) && p.0@ == trimmed(t@) && p.1@ == target_of(
                trimmed(t@),
                user_in(opt_view(user_file)),
            ),
            None => r matches Err(e) && e is NotRunning,
        },
{
    match ip_file {
        Some(t) => {
            let ip = trim(t).to_string();
            let user = match user_file {
                Some(u) => trim(u),
                None => "",
            };
            let target = if user.is_empty() {
                ip.clone()
            } else {
                let mut s = user.to_string();
                s.append("@");
                s.append(ip.as_str());
                s
            };
            Ok((ip, target))
        },
        None => Err(VmError::NotRunning),
    }
}

/// The unit of systemd that runs the VM of an env.
pub open spec fn unit_of(name: Seq<char>) -> Seq<char> {
    "microvm@"@ + name
}

fn unit(name: &str) -> (r: String)
    ensures
        r@ == unit_of(name@),
{
    let mut s = "microvm@".to_string();
    s.append(name);
    s
}

/// The arguments of the `systemctl` call that tells whether a VM runs; an env
/// without the file with its address does not, and is not asked for.
pub fn is_running(name: &str, has_ip_file: bool) -> (r: Option<Vec<String>>)
    ensures
        match r {
            Some(args) => has_ip_file && views(args@) == seq!["is-active"@, unit_of(name@)],
            None => !has_ip_file,
        },
{
    if has_ip_file {
        Some(vec!["is-active".to_string(), unit(name)])
    } else {
        None
    }
}

// ---------------------------------------------------------------------
// Starting
// ---------------------------------------------------------------------

/// How a step went. One that ran may still report that it was not successful.
#[derive(Clone, Copy, PartialEq, Eq, Structural)]
pub enum Outcome {
    Failed,
    Unsuccessful,
    Success,
}

/// The steps in which an env is started.
#[derive(Clone, Copy, PartialEq, Eq, Structural)]
pub enum StartStep {
    CreateRuntime,
    AllocateIp,
    CreatePersist,
    WriteFlake,
    Build,
    MakeVmDir,
    OwnVmDir,
    DropLink,
    Link,
    OwnLink,
    StartVm,
    RegisterProxy,
    RegisterDns,
    SaveIp,
    SaveRepo,
    SaveUser,
}

/// What follows a step of a start.
#[derive(Clone, Copy, PartialEq, Eq, Structural)]
pub enum StartNext {
    Step(StartStep),
    Done,
    /// The start fails; the address is given back where it says so.
    Fail { release_ip: bool },
}

/// What follows a step that has to be successful, and leaves the address with
/// the env where it is not.
pub open spec fn if_done(o: Outcome, next: StartStep) -> StartNext {
    if o == Outcome::Success {
        StartNext::Step(next)
    } else {
        StartNext::Fail { release_ip: false }
    }
}

/// What follows a command that goes on as long as it could be run.
pub open spec fn unless_failed(o: Outcome, next: StartStep) -> StartNext {
    if o == Outcome::Failed {
        StartNext::Fail { release_ip: false }
    } else {
        StartNext::Step(next)
    }
}

/// What follows a command that has to be successful: the address is given back
/// where it ran and was not.
pub open spec fn if_successful(o: Outcome, next: StartStep) -> StartNext {
    match o {
        Outcome::Failed => StartNext::Fail { release_ip: false },
        Outcome::Unsuccessful => StartNext::Fail { release_ip: true },
        Outcome::Success => StartNext::Step(next),
    }
}

/// What follows a step of a start. A link that is not there need not be
/// dropped, and DNS does not stop a start.
pub open spec fn start_next(step: StartStep, o: Outcome) -> StartNext {
    match step {
        StartStep::CreateRuntime => if_done(o, StartStep::AllocateIp),
        StartStep::AllocateIp => if_done(o, StartStep::CreatePersist),
        StartStep::CreatePersist => if_done(o, StartStep::WriteFlake),
        StartStep::WriteFlake => if_done(o, StartStep::Build),
        StartStep::Build => if_successful(o, StartStep::MakeVmDir),
        StartStep::MakeVmDir => unless_failed(o, StartStep::OwnVmDir),
        StartStep::OwnVmDir => unless_failed(o, StartStep::DropLink),
        StartStep::DropLink => StartNext::Step(StartStep::Link),
        StartStep::Link => unless_failed(o, StartStep::OwnLink),
        StartStep::OwnLink => unless_failed(o, StartStep::StartVm),
        StartStep::StartVm => if_successful(o, StartStep::RegisterProxy),
        StartStep::RegisterProxy => unless_failed(o, StartStep::RegisterDns),
        StartStep::RegisterDns => StartNext::Step(StartStep::SaveIp),
        StartStep::SaveIp => if_done(o, StartStep::SaveRepo),
        StartStep::SaveRepo => if_done(o, StartStep::SaveUser),
        StartStep::SaveUser => if o == Outcome::Success {
            StartNext::Done
        } else {
            StartNext::Fail { release_ip: false }
        },
    }
}

fn go_on_done(o: Outcome, next: StartStep) -> (r: StartNext)
    ensures
        r == if_done(o, next),
{
    if o == Outcome::Success {
        StartNext::Step(next)
    } else {
        StartNext::Fail { release_ip: false }
    }
}

fn go_on(o: Outcome, next: StartStep) -> (r: StartNext)
    ensures
        r == unless_failed(o, next),
{
    if o == Outcome::Failed {
        StartNext::Fail { release_ip: false }
    } else {
        StartNext::Step(next)
    }
}

fn go_on_if(o: Outcome, next: StartStep) -> (r: StartNext)
    ensures
        r == if_successful(o, next),
{
    match o {
        Outcome::Failed => StartNext::Fail { release_ip: false },
        Outcome::Unsuccessful => StartNext::Fail { release_ip: true },
        Outcome::Success => StartNext::Step(next),
    }
}

/// What follows a step of a start.
pub fn start(step: StartStep, outcome: Outcome) -> (r: StartNext)
    ensures
        r == start_next(step, outcome),
{
    match step {
        StartStep::CreateRuntime => go_on_done(outcome, StartStep::AllocateIp),
        StartStep::AllocateIp => go_on_done(outcome, StartStep::CreatePersist),
        StartStep::CreatePersist => go_on_done(outcome, StartStep::WriteFlake),
        StartStep::WriteFlake => go_on_done(outcome, StartStep::Build),
        StartStep::Build => go_on_if(outcome, StartStep::MakeVmDir),
        StartStep::MakeVmDir => go_on(outcome, StartStep::OwnVmDir),
        StartStep::OwnVmDir => go_on(outcome, StartStep::DropLink),
        StartStep::DropLink => StartNext::Step(StartStep::Link),
        StartStep::Link => go_on(outcome, StartStep::OwnLink),
        StartStep::OwnLink => go_on(outcome, StartStep::StartVm),
        StartStep::StartVm => go_on_if(outcome, StartStep::RegisterProxy),
        StartStep::RegisterProxy => go_on(outcome, StartStep::RegisterDns),
        StartStep::RegisterDns => StartNext::Step(StartStep::SaveIp),
        StartStep::SaveIp => go_on_done(outcome, StartStep::SaveRepo),
        StartStep::SaveRepo => go_on_done(outcome, StartStep::SaveUser),
        StartStep::SaveUser => match outcome {
            Outcome::Success => StartNext::Done,
            _ => StartNext::Fail { release_ip: false },
        },
    }
}

/// Why a start ends with a command that ran and was not successful; `stderr` is
/// what the command had to say.
pub fn start_error(step: StartStep, name: &str, stderr: &str) -> (r: Option<VmError>)
    ensures
        match step {
            StartStep::WriteFlake => r matches Some(VmError::FlakeUpdate { name: n }) && n@
                == name@,
            StartStep::Build => r matches Some(VmError::Build { name: n, stderr: e }) && n@
                == name@ && e@ == stderr@,
            StartStep::StartVm => r matches Some(VmError::Start { name: n }) && n@ == name@,
            _ => r is None,
        },
{
    match step {
        StartStep::WriteFlake => Some(VmError::FlakeUpdate { name: name.to_string() }),
        StartStep::Build => Some(
            VmError::Build { name: name.to_string(), stderr: stderr.to_string() },
        ),
        StartStep::StartVm => Some(VmError::Start { name: name.to_string() }),
        _ => None,
    }
}

/// What runs a VM, from what its build printed.
pub fn runner(stdout: &str) -> (r: String)
    ensures
        r@ == trimmed(stdout@),
{
    trim(stdout).to_string()
}

/// The place of a step in a start.
pub open spec fn start_place(step: StartStep) -> nat {
    match step {
        StartStep::CreateRuntime => 0,
        StartStep::AllocateIp => 1,
        StartStep::CreatePersist => 2,
        StartStep::WriteFlake => 3,
        StartStep::Build => 4,
        StartStep::MakeVmDir => 5,
        StartStep::OwnVmDir => 6,
        StartStep::DropLink => 7,
        StartStep::Link => 8,
        StartStep::OwnLink => 9,
        StartStep::StartVm => 10,
        StartStep::RegisterProxy => 11,
        StartStep::RegisterDns => 12,
        StartStep::SaveIp => 13,
        StartStep::SaveRepo => 14,
        StartStep::SaveUser => 15,
    }
}

/// A start in which the steps go as `run` says comes to `step` after `n` steps.
pub open spec fn start_at(run: spec_fn(StartStep) -> Outcome, n: nat) -> Option<StartStep>
    decreases n,
{
    if n == 0 {
        Some(StartStep::CreateRuntime)
    } else {
        match start_at(run, (n - 1) as nat) {
            Some(step) => match start_next(step, run(step)) {
                StartNext::Step(next) => Some(next),
                _ => None,
            },
            None => None,
        }
    }
}

/// The steps come in their order, each at most once: the step after `n` others is
/// the one whose place is `n`, so a start ends.
pub proof fn law_start_order(run: spec_fn(StartStep) -> Outcome, n: nat)
    ensures
        start_at(run, n) matches Some(step) ==> start_place(step) == n,
    decreases n,
{
    if n > 0 {
        law_start_order(run, (n - 1) as nat);
    }
}

proof fn lemma_start_before(run: spec_fn(StartStep) -> Outcome, m: nat, n: nat)
    requires
        m < n,
        start_at(run, n) is Some,
    ensures
        start_at(run, m) matches Some(step) && start_next(step, run(step)) is Step,
    decreases n - m,
{
    if m + 1 < n {
        lemma_start_before(run, m + 1, n);
        assert(start_at(run, m + 1) is Some);
    }
    assert(start_at(run, (m + 1) as nat) is Some);
}

/// A VM is started only once it was built, and the state of an env is saved only
/// once its VM was started.
pub proof fn law_started_after_built(run: spec_fn(StartStep) -> Outcome, n: nat)
    ensures
        start_at(run, n) == Some(StartStep::StartVm) ==> run(StartStep::Build) == Outcome::Success,
        start_at(run, n) matches Some(step) && start_place(step) > start_place(StartStep::StartVm)
            ==> run(StartStep::Build) == Outcome::Success && run(StartStep::StartVm)
            == Outcome::Success,
{
    law_start_order(run, n);
    match start_at(run, n) {
        Some(step) => {
            if start_place(step) >= 10 {
                lemma_start_before(run, 4, n);
                law_start_order(run, 4);
            }
            if start_place(step) > 10 {
                lemma_start_before(run, 10, n);
                law_start_order(run, 10);
            }
        },
        None => {},
    }
}

/// The address of an env is given back exactly where its VM could not be built,
/// or not be started.
pub proof fn law_address_given_back(step: StartStep, o: Outcome)
    ensures
        start_next(step, o) == (StartNext::Fail { release_ip: true }) <==> o
            == Outcome::Unsuccessful && (step == StartStep::Build || step == StartStep::StartVm),
{
}

/// A path without the slashes in front.
pub open spec fn without_slashes(s: Seq<char>) -> Seq<char>
    decreases s.len(),
{
    if s.len() > 0 && s[0] == '/' {
        without_slashes(s.skip(1))
    } else {
        s
    }
}

/// Where the host keeps a persistent directory of an env.
pub open spec fn persist_at(name: Seq<char>, path: Seq<char>) -> Seq<char> {
    below(below(env_at(name), "persist"@), without_slashes(path))
}

/// Where the host keeps a persistent directory of an env.
pub fn persist_dir(name: &str, persist: &PersistConfig) -> (r: String)
    ensures
        r@ == persist_at(name@, persist.path@),
{
    let v = chars_of(persist.path.as_str());
    let n: usize = v.len();
    let mut i: usize = 0;
    proof {
        assert(v@.skip(0) =~= v@);
    }
    while i < n && v[i] == '/'
        invariant
            n == v@.len(),
            i <= n,
            without_slashes(v@.skip(i as int)) == without_slashes(v@),
        decreases n - i,
    {
        proof {
            assert(v@.skip(i as int).skip(1) =~= v@.skip(i + 1));
        }
        i = i + 1;
    }
    let stripped = text_of(&v, i, n);
    proof {
        assert(v@.subrange(i as int, n as int) =~= v@.skip(i as int));
    }
    join_path(join_path(env_dir(name).as_str(), "persist").as_str(), stripped.as_str())
}

proof fn lemma_without_slashes(s: Seq<char>)
    ensures
        without_slashes(s).len() > 0 ==> without_slashes(s)[0] != '/',
    decreases s.len(),
{
    if s.len() > 0 && s[0] == '/' {
        lemma_without_slashes(s.skip(1));
    }
}

/// The path of what an env keeps begins with that of the persistent part of the
/// env, whether or not it is given as one from the root.
pub proof fn law_persist_stays_below(name: Seq<char>, path: Seq<char>)
    ensures
        begins(persist_at(name, path), below(env_at(name), "persist"@)),
{
    lemma_without_slashes(path);
    let base = below(env_at(name), "persist"@);
    assert(persist_at(name, path).take(base.len() as int) =~= base);
}

/// The attribute of an env's flake that runs its VM.
pub open spec fn runner_of(name: Seq<char>) -> Seq<char> {
    "path:"@ + flake_dir_of(name) + "#nixosConfigurations."@ + name
        + ".config.microvm.declaredRunner"@
}

pub open spec fn vm_dir_of(name: Seq<char>) -> Seq<char> {
    MICROVMS@ + name
}

pub open spec fn vm_link_of(name: Seq<char>) -> Seq<char> {
    vm_dir_of(name) + "/current"@
}

/// The directory of an env's VM.
pub fn vm_dir(name: &str) -> (r: String)
    ensures
        r@ == vm_dir_of(name@),
{
    let mut s = MICROVMS.to_string();
    s.append(name);
    s
}

/// The command line of a step of a start; nothing, where the step is none.
/// Those behind the build run with privileges.
pub open spec fn start_command_of(
    step: StartStep,
    name: Seq<char>,
    runner: Seq<char>,
) -> Seq<Seq<char>> {
    match step {
        StartStep::Build => seq![
            "nix"@,
            "--extra-experimental-features"@,
            "nix-command flakes"@,
            "build"@,
            runner_of(name),
            "--no-link"@,
            "--print-out-paths"@,
        ],
        StartStep::MakeVmDir => seq!["mkdir"@, "-p"@, vm_dir_of(name)],
        StartStep::OwnVmDir => seq!["chown"@, "microvm:kvm"@, vm_dir_of(name)],
        StartStep::DropLink => seq!["rm"@, "-f"@, vm_link_of(name)],
        StartStep::Link => seq!["ln"@, "-sf"@, runner, vm_link_of(name)],
        StartStep::OwnLink => seq!["chown"@, "-h"@, "microvm:kvm"@, vm_link_of(name)],
        StartStep::StartVm => seq!["systemctl"@, "start"@, unit_of(name)],
        _ => Seq::empty(),
    }
}

/// The command line of a step of a start; nothing, where the step is none. The
/// runner is what the build printed.
pub fn start_command(step: StartStep, name: &str, runner: &str) -> (r: Vec<String>)
    ensures
        views(r@) == start_command_of(step, name@, runner@),
{
    let dir = vm_dir(name);
    let mut link = vm_dir(name);
    link.append("/current");
    match step {
        StartStep::Build => {
            let mut attr = "path:".to_string();
            attr.append(env_flake_dir(name).as_str());
            attr.append("#nixosConfigurations.");
            attr.append(name);
            attr.append(".config.microvm.declaredRunner");
            vec![
                "nix".to_string(),
                "--extra-experimental-features".to_string(),
                "nix-command flakes".to_string(),
                "build".to_string(),
                attr,
                "--no-link".to_string(),
                "--print-out-paths".to_string(),
            ]
        },
        StartStep::MakeVmDir => vec!["mkdir".to_string(), "-p".to_string(), dir],
        StartStep::OwnVmDir => vec!["chown".to_string(), "microvm:kvm".to_string(), dir],
        StartStep::DropLink => vec!["rm".to_string(), "-f".to_string(), link],
        StartStep::Link => vec!["ln".to_string(), "-sf".to_string(), runner.to_string(), link],
        StartStep::OwnLink => vec![
            "chown".to_string(),
            "-h".to_string(),
            "microvm:kvm".to_string(),
            link,
        ],
        StartStep::StartVm => vec!["systemctl".to_string(), "start".to_string(), unit(name)],
        _ => {
            let r: Vec<String> = Vec::new();
            proof {
                assert(views(r@) =~= Seq::empty());
            }
            r
        },
    }
}

/// The user of a VM: the one of the host configuration, else the one who starts
/// it; nobody, where that is not known either.
pub fn guest_user(configured: Option<String>, user: Option<&str>) -> (r: Option<String>)
    ensures
        ({
            let name = match configured {
                Some(u) => u@,
                None => match user {
                    Some(u) => u@,
                    None => ""@,
                },
            };
            opt_text(r) == if name.len() == 0 {
                None
            } else {
                Some(name)
            }
        }),
{
    let name = match configured {
        Some(u) => u,
        None => match user {
            Some(u) => u.to_string(),
            None => "".to_string(),
        },
    };
    proof {
        reveal_strlit("");
    }
    if name.as_str().is_empty() {
        None
    } else {
        Some(name)
    }
}

// ---------------------------------------------------------------------
// Stopping and deleting
// ---------------------------------------------------------------------

/// The steps in which an env is stopped.
pub enum StopStep {
    DeregisterProxy { ip: String },
    DeregisterDns { repo: String },
    StopVm,
    RemoveIpFile,
}

/// The steps in which an env is stopped.
pub enum StopView {
    DeregisterProxy(Seq<char>),
    DeregisterDns(Seq<char>),
    StopVm,
    RemoveIpFile,
}

impl View for StopStep {
    type V = StopView;

    open spec fn view(&self) -> StopView {
        match self {
            StopStep::DeregisterProxy { ip } => StopView::DeregisterProxy(ip@),
            StopStep::DeregisterDns { repo } => StopView::DeregisterDns(repo@),
            StopStep::StopVm => StopView::StopVm,
            StopStep::RemoveIpFile => StopView::RemoveIpFile,
        }
    }
}

/// The text of a file without white space around it; nothing, where the file
/// cannot be read.
pub open spec fn trimmed_file(file: Option<Seq<char>>) -> Seq<char> {
    match file {
        Some(t) => trimmed(t),
        None => ""@,
    }
}

/// How an env is stopped: it leaves the proxy, where its address is known, and
/// DNS, where its repo is; then its VM stops. Its directory and its address stay.
/// An env without the file with its address is not running.
pub open spec fn stop_plan(
    has_ip_file: bool,
    ip_file: Option<Seq<char>>,
    repo_file: Option<Seq<char>>,
) -> Seq<StopView> {
    if !has_ip_file {
        Seq::empty()
    } else {
        (if trimmed_file(ip_file).len() > 0 {
            seq![StopView::DeregisterProxy(trimmed_file(ip_file))]
        } else {
            Seq::empty()
        }) + (if trimmed_file(repo_file).len() > 0 {
            seq![StopView::DeregisterDns(trimmed_file(repo_file))]
        } else {
            Seq::empty()
        }) + seq![StopView::StopVm, StopView::RemoveIpFile]
    }
}

fn trimmed_or_empty(file: Option<&str>) -> (r: String)
    ensures
        r@ == trimmed_file(opt_view(file)),
{
    match file {
        Some(t) => trim(t).to_string(),
        None => "".to_string(),
    }
}

/// How an env is stopped.
pub fn stop(has_ip_file: bool, ip_file: Option<&str>, repo_file: Option<&str>) -> (r: Vec<StopStep>)
    ensures
        r@.map_values(|s: StopStep| s@) == stop_plan(
            has_ip_file,
            opt_view(ip_file),
            opt_view(repo_file),
        ),
{
    let mut r: Vec<StopStep> = Vec::new();
    if has_ip_file {
        let ip = trimmed_or_empty(ip_file);
        let repo = trimmed_or_empty(repo_file);
        if !ip.as_str().is_empty() {
            r.push(StopStep::DeregisterProxy { ip });
        }
        if !repo.as_str().is_empty() {
            r.push(StopStep::DeregisterDns { repo });
        }
        r.push(StopStep::StopVm);
        r.push(StopStep::RemoveIpFile);
    }
    proof {
        assert(r@.map_values(|s: StopStep| s@) =~= stop_plan(
            has_ip_file,
            opt_view(ip_file),
            opt_view(repo_file),
        ));
    }
    r
}

/// The command line that stops a VM.
pub fn stop_command(name: &str) -> (r: Vec<String>)
    ensures
        views(r@) == seq!["systemctl"@, "stop"@, unit_of(name@)],
{
    vec!["systemctl".to_string(), "stop".to_string(), unit(name)]
}

/// A stop never gives the address of an env back, nor removes its directory: it
/// has no such step. It ends with the VM stopped and the env marked as not
/// running.
pub proof fn law_stop_ends_stopped(ip_file: Option<Seq<char>>, repo_file: Option<Seq<char>>)
    ensures
        ({
            let p = stop_plan(true, ip_file, repo_file);
            &&& p.len() >= 2
            &&& p[p.len() - 2] == StopView::StopVm
            &&& p[p.len() - 1] == StopView::RemoveIpFile
        }),
        stop_plan(false, ip_file, repo_file).len() == 0,
{
}

/// The steps in which an env is deleted. The first of each pair asks whether
/// the second has anything to do.
#[derive(Clone, Copy, PartialEq, Eq, Structural)]
pub enum DeleteStep {
    AskRunning,
    Stop,
    AskEnvDir,
    RemoveEnvDir,
    AskVmDir,
    RemoveVmDir,
    ReleaseIp,
    RemoveRuntime,
}

/// How a step of a delete went: what a question was answered, and whether an
/// action was successful.
#[derive(Clone, Copy, PartialEq, Eq, Structural)]
pub enum DeleteEvent {
    Yes,
    No,
    Failed,
}

/// What follows a step of a delete.
#[derive(Clone, Copy, PartialEq, Eq, Structural)]
pub enum DeleteNext {
    Step(DeleteStep),
    Done,
    Fail,
}

/// What follows a step of a delete. The VM's own directory goes too: its disk
/// would be taken over by the next env of that name.
pub open spec fn delete_next(step: DeleteStep, e: DeleteEvent) -> DeleteNext {
    match step {
        DeleteStep::AskRunning => match e {
            DeleteEvent::Yes => DeleteNext::Step(DeleteStep::Stop),
            DeleteEvent::No => DeleteNext::Step(DeleteStep::AskEnvDir),
            DeleteEvent::Failed => DeleteNext::Fail,
        },
        DeleteStep::Stop => if e == DeleteEvent::Failed {
            DeleteNext::Fail
        } else {
            DeleteNext::Step(DeleteStep::AskEnvDir)
        },
        DeleteStep::AskEnvDir => if e == DeleteEvent::Yes {
            DeleteNext::Step(DeleteStep::RemoveEnvDir)
        } else {
            DeleteNext::Step(DeleteStep::AskVmDir)
        },
        DeleteStep::RemoveEnvDir => if e == DeleteEvent::Yes {
            DeleteNext::Step(DeleteStep::AskVmDir)
        } else {
            DeleteNext::Fail
        },
        DeleteStep::AskVmDir => if e == DeleteEvent::Yes {
            DeleteNext::Step(DeleteStep::RemoveVmDir)
        } else {
            DeleteNext::Step(DeleteStep::ReleaseIp)
        },
        DeleteStep::RemoveVmDir => if e == DeleteEvent::Yes {
            DeleteNext::Step(DeleteStep::ReleaseIp)
        } else {
            DeleteNext::Fail
        },
        DeleteStep::ReleaseIp => DeleteNext::Step(DeleteStep::RemoveRuntime),
        DeleteStep::RemoveRuntime => DeleteNext::Done,
    }
}

/// What follows a step of a delete.
pub fn delete(step: DeleteStep, event: DeleteEvent) -> (r: DeleteNext)
    ensures
        r == delete_next(step, event),
{
    match step {
        DeleteStep::AskRunning => match event {
            DeleteEvent::Yes => DeleteNext::Step(DeleteStep::Stop),
            DeleteEvent::No => DeleteNext::Step(DeleteStep::AskEnvDir),
            DeleteEvent::Failed => DeleteNext::Fail,
        },
        DeleteStep::Stop => match event {
            DeleteEvent::Failed => DeleteNext::Fail,
            _ => DeleteNext::Step(DeleteStep::AskEnvDir),
        },
        DeleteStep::AskEnvDir => match event {
            DeleteEvent::Yes => DeleteNext::Step(DeleteStep::RemoveEnvDir),
            _ => DeleteNext::Step(DeleteStep::AskVmDir),
        },
        DeleteStep::RemoveEnvDir => match event {
            DeleteEvent::Yes => DeleteNext::Step(DeleteStep::AskVmDir),
            _ => DeleteNext::Fail,
        },
        DeleteStep::AskVmDir => match event {
            DeleteEvent::Yes => DeleteNext::Step(DeleteStep::RemoveVmDir),
            _ => DeleteNext::Step(DeleteStep::ReleaseIp),
        },
        DeleteStep::RemoveVmDir => match event {
            DeleteEvent::Yes => DeleteNext::Step(DeleteStep::ReleaseIp),
            _ => DeleteNext::Fail,
        },
        DeleteStep::ReleaseIp => DeleteNext::Step(DeleteStep::RemoveRuntime),
        DeleteStep::RemoveRuntime => DeleteNext::Done,
    }
}

/// A delete in which the steps go as `run` says comes to `step` after `n` steps.
pub open spec fn delete_at(run: spec_fn(DeleteStep) -> DeleteEvent, n: nat) -> Option<DeleteStep>
    decreases n,
{
    if n == 0 {
        Some(DeleteStep::AskRunning)
    } else {
        match delete_at(run, (n - 1) as nat) {
            Some(step) => match delete_next(step, run(step)) {
                DeleteNext::Step(next) => Some(next),
                _ => None,
            },
            None => None,
        }
    }
}

/// What a delete has behind it when it comes to `step`.
pub open spec fn delete_has(run: spec_fn(DeleteStep) -> DeleteEvent, step: DeleteStep) -> bool {
    let env_gone = run(DeleteStep::AskEnvDir) != DeleteEvent::Yes || run(DeleteStep::RemoveEnvDir)
        == DeleteEvent::Yes;
    let vm_gone = run(DeleteStep::AskVmDir) != DeleteEvent::Yes || run(DeleteStep::RemoveVmDir)
        == DeleteEvent::Yes;
    match step {
        DeleteStep::AskVmDir | DeleteStep::RemoveVmDir => env_gone,
        DeleteStep::ReleaseIp | DeleteStep::RemoveRuntime => env_gone && vm_gone,
        _ => true,
    }
}

/// The address of an env is given back only once its directory and that of its
/// VM are gone.
pub proof fn law_released_after_removed(run: spec_fn(DeleteStep) -> DeleteEvent, n: nat)
    ensures
        delete_at(run, n) matches Some(step) ==> delete_has(run, step),
    decreases n,
{
    if n > 0 {
        law_released_after_removed(run, (n - 1) as nat);
    }
}

/// Why a delete ends with a step that was not successful.
pub fn delete_error(step: DeleteStep, name: &str) -> (r: Option<VmError>)
    ensures
        match step {
            DeleteStep::RemoveEnvDir => r matches Some(VmError::RemoveEnvDir { path }) && path@
                == env_at(name@),
            DeleteStep::RemoveVmDir => r matches Some(VmError::RemoveVmDir { path }) && path@
                == vm_dir_of(name@),
            _ => r is None,
        },
{
    match step {
        DeleteStep::RemoveEnvDir => Some(VmError::RemoveEnvDir { path: env_dir(name) }),
        DeleteStep::RemoveVmDir => Some(VmError::RemoveVmDir { path: vm_dir(name) }),
        _ => None,
    }
}

/// The command line that removes a directory.
pub fn remove_command(dir: &str) -> (r: Vec<String>)
    ensures
        views(r@) == seq!["sudo"@, "rm"@, "-rf"@, dir@],
{
    vec!["sudo".to_string(), "rm".to_string(), "-rf".to_string(), dir.to_string()]
}

// ---------------------------------------------------------------------
// Commands in a VM
// ---------------------------------------------------------------------

/// What follows a probe of a VM.
#[derive(Clone, Copy, PartialEq, Eq, Structural)]
pub enum Wait {
    Ready,
    /// Not yet: after a second it is asked again, for the time that is given.
    Again(u32),
    GiveUp,
}

/// What follows a probe with `tried` ones before it.
pub open spec fn wait_next(tried: u32, reached: bool) -> Wait {
    if reached {
        Wait::Ready
    } else if tried + 1 >= WAIT_TRIES {
        Wait::GiveUp
    } else {
        Wait::Again((tried + 1) as u32)
    }
}

/// What follows a probe with `tried` ones before it.
pub fn wait_for_vm(tried: u32, reached: bool) -> (r: Wait)
    ensures
        r == wait_next(tried, reached),
{
    if reached {
        Wait::Ready
    } else if tried >= WAIT_TRIES - 1 {
        Wait::GiveUp
    } else {
        Wait::Again(tried + 1)
    }
}

/// What waiting comes to when the probes from the one with `tried` before it on
/// are answered as `probes` says.
pub open spec fn waited(tried: u32, probes: spec_fn(u32) -> bool) -> bool
    decreases WAIT_TRIES - tried,
{
    match wait_next(tried, probes(tried)) {
        Wait::Ready => true,
        Wait::Again(next) => if next < WAIT_TRIES {
            waited(next, probes)
        } else {
            false
        },
        Wait::GiveUp => false,
    }
}

/// Waiting ends well exactly where one of the 60 probes is answered.
pub proof fn law_waited_sixty_times(tried: u32, probes: spec_fn(u32) -> bool)
    requires
        tried < WAIT_TRIES,
    ensures
        waited(tried, probes) <==> exists|i: u32| tried <= i < 60 && #[trigger] probes(i),
    decreases WAIT_TRIES - tried,
{
    if !probes(tried) {
        if tried + 1 < WAIT_TRIES {
            law_waited_sixty_times((tried + 1) as u32, probes);
        }
        if exists|i: u32| tried <= i < 60 && #[trigger] probes(i) {
            let i = choose|i: u32| tried <= i < 60 && #[trigger] probes(i);
            assert(i != tried);
            assert(tried + 1 <= i < 60 && probes(i));
        }
    }
}

/// The arguments of the `ssh` call that probes a VM: it is up once its workspace
/// is mounted.
pub fn probe_args(target: &str, workspace: &str) -> (r: Vec<String>)
    ensures
        views(r@) == quiet_ssh() + seq![
            "-o"@,
            "ConnectTimeout=1"@,
            target@,
            "test -d "@ + workspace@,
        ],
{
    let mut probe = "test -d ".to_string();
    probe.append(workspace);
    let r = vec![
        "-o".to_string(),
        "StrictHostKeyChecking=no".to_string(),
        "-o".to_string(),
        "UserKnownHostsFile=/dev/null".to_string(),
        "-o".to_string(),
        "LogLevel=ERROR".to_string(),
        "-o".to_string(),
        "ConnectTimeout=1".to_string(),
        target.to_string(),
        probe,
    ];
    proof {
        assert(views(r@) =~= quiet_ssh() + seq![
            "-o"@,
            "ConnectTimeout=1"@,
            target@,
            "test -d "@ + workspace@,
        ]);
    }
    r
}

/// The workspace of an env: the directory named after its repo.
pub open spec fn workspace_of(repo_file: Option<Seq<char>>) -> Seq<char> {
    "/"@ + match repo_file {
        Some(t) => trimmed(t),
        None => "env"@,
    }
}

pub fn workspace(repo_file: Option<&str>) -> (r: String)
    ensures
        r@ == workspace_of(opt_view(repo_file)),
{
    let mut s = "/".to_string();
    match repo_file {
        Some(t) => {
            s.append(trim(t));
        },
        None => {
            s.append("env");
        },
    }
    s
}

/// A script that runs a command in a workspace.
pub open spec fn script_of(workspace: Seq<char>, command: Seq<char>) -> Seq<char> {
    "cd "@ + escaped(workspace) + " && "@ + command
}

/// The command of `ssh` that runs a command in a workspace.
pub open spec fn run_line(workspace: Seq<char>, command: Seq<char>) -> Seq<char> {
    "sh -c "@ + escaped(script_of(workspace, command))
}

fn script(workspace: &str, command: &str) -> (r: String)
    ensures
        r@ == script_of(workspace@, command@),
{
    let mut s = "cd ".to_string();
    s.append(shell_escape(workspace).as_str());
    s.append(" && ");
    s.append(command);
    s
}

/// The command of `ssh` that runs a command in a workspace.
pub fn run_command(workspace: &str, command: &str) -> (r: String)
    ensures
        r@ == run_line(workspace@, command@),
{
    let mut s = "sh -c ".to_string();
    s.append(shell_escape(script(workspace, command).as_str()).as_str());
    s
}

/// Whatever the command holds, the shell of the VM starts one `sh` with the
/// whole script as one word.
pub proof fn law_run_words(workspace: Seq<char>, command: Seq<char>)
    ensures
        shell_words(run_line(workspace, command)) == Some(
            seq!["sh"@, "-c"@, script_of(workspace, command)],
        ),
{
    reveal_strlit("sh -c ");
    reveal_strlit("sh");
    reveal_strlit("-c");
    reveal_strlit(" ");
    let s = script_of(workspace, command);
    let ws = seq!["sh"@, "-c"@, s];
    let wr = seq!["sh"@, "-c"@, escaped(s)];
    assert(plain_word("sh"@) && plain_word("-c"@));
    assert(writes(ws[0], wr[0]) && writes(ws[1], wr[1]) && writes(ws[2], wr[2]));
    reveal_with_fuel(line_of, 3);
    assert("sh -c "@ =~= "sh"@ + " "@ + "-c"@ + " "@);
    assert(run_line(workspace, command) =~= line_of(wr));
    law_line_words(ws, wr);
}

/// The arguments of an `ssh` call into a VM, with a terminal or without.
pub open spec fn vm_ssh(pty: bool, target: Seq<char>, cmd: Seq<char>) -> Seq<Seq<char>> {
    (if pty {
        seq!["-t"@]
    } else {
        Seq::empty()
    }) + seq!["-A"@] + quiet_ssh() + seq![
        "-o"@,
        "ServerAliveInterval=30"@,
        "-o"@,
        "ServerAliveCountMax=3"@,
        target,
        cmd,
    ]
}

/// The arguments of an `ssh` call into a VM, with a terminal or without.
pub fn vm_ssh_args(pty: bool, target: &str, cmd: &str) -> (r: Vec<String>)
    ensures
        views(r@) == vm_ssh(pty, target@, cmd@),
{
    let mut r: Vec<String> = Vec::new();
    if pty {
        r.push("-t".to_string());
    }
    r.push("-A".to_string());
    r.push("-o".to_string());
    r.push("StrictHostKeyChecking=no".to_string());
    r.push("-o".to_string());
    r.push("UserKnownHostsFile=/dev/null".to_string());
    r.push("-o".to_string());
    r.push("LogLevel=ERROR".to_string());
    r.push("-o".to_string());
    r.push("ServerAliveInterval=30".to_string());
    r.push("-o".to_string());
    r.push("ServerAliveCountMax=3".to_string());
    r.push(target.to_string());
    r.push(cmd.to_string());
    proof {
        assert(views(r@) =~= vm_ssh(pty, target@, cmd@));
    }
    r
}

/// What a command in an env printed, and how it ended.
#[derive(Debug)]
pub struct CapturedShell {
    pub exit_code: i32,
    pub stdout: String,
    pub stderr: String,
    pub duration_ms: u64,
}

/// The arguments of the `ssh` call that runs one command in an env.
pub fn shell_capture(target: &str, repo_file: Option<&str>, command: &str) -> (r: Vec<String>)
    ensures
        views(r@) == vm_ssh(false, target@, run_line(workspace_of(opt_view(repo_file)), command@)),
{
    vm_ssh_args(false, target, run_command(workspace(repo_file).as_str(), command).as_str())
}

/// What a captured command comes to; one that was killed has no exit code.
pub fn captured(code: Option<i32>, stdout: String, stderr: String, duration_ms: u64) -> (r:
    CapturedShell)
    ensures
        r.exit_code == match code {
            Some(c) => c as int,
            None => -1,
        },
        r.stdout@ == stdout@,
        r.stderr@ == stderr@,
        r.duration_ms == duration_ms,
{
    let exit_code: i32 = match code {
        Some(c) => c,
        None => -1,
    };
    CapturedShell { exit_code, stdout, stderr, duration_ms }
}

/// The arguments of the `ssh` call that joins the standard streams to a command
/// in an env. It has no terminal, which would change what passes through.
pub fn acp_forward(target: &str, repo_file: Option<&str>, command: &str) -> (r: Vec<String>)
    ensures
        views(r@) == vm_ssh(false, target@, run_line(workspace_of(opt_view(repo_file)), command@)),
{
    vm_ssh_args(false, target, run_command(workspace(repo_file).as_str(), command).as_str())
}

/// A login shell.
pub const LOGIN: &'static str = "exec $SHELL -l";

/// Whether a shell takes a terminal: all do, but for a single command without a
/// session.
pub open spec fn takes_pty(command: Option<Seq<char>>, session: Option<Seq<char>>) -> bool {
    command is None || session is Some
}

/// The command of `ssh` for a shell in an env. A command without a session runs
/// by itself; all else runs in a session, the one named `default` where none is
/// given, and is a login shell without a command.
pub open spec fn shell_line(
    name: Seq<char>,
    workspace: Seq<char>,
    command: Option<Seq<char>>,
    session: Option<Seq<char>>,
) -> Seq<char> {
    match (command, session) {
        (None, None) => attach_line(name, "default"@, script_of(workspace, LOGIN@)),
        (Some(c), None) => run_line(workspace, c),
        (Some(c), Some(s)) => attach_line(name, s, script_of(workspace, c)),
        (None, Some(s)) => attach_line(name, s, script_of(workspace, LOGIN@)),
    }
}

/// The arguments of the `ssh` call for a shell in an env.
pub fn shell(
    name: &str,
    target: &str,
    repo_file: Option<&str>,
    command: Option<&str>,
    session: Option<&str>,
) -> (r: Vec<String>)
    ensures
        views(r@) == vm_ssh(
            takes_pty(opt_view(command), opt_view(session)),
            target@,
            shell_line(
                name@,
                workspace_of(opt_view(repo_file)),
                opt_view(command),
                opt_view(session),
            ),
        ),
{
    let ws = workspace(repo_file);
    let (pty, cmd) = match (command, session) {
        (None, None) => (true, dtach_attach(name, "default", script(ws.as_str(), LOGIN).as_str())),
        (Some(c), None) => (false, run_command(ws.as_str(), c)),
        (_, Some(s)) => {
            let inner = match command {
                Some(c) => script(ws.as_str(), c),
                None => script(ws.as_str(), LOGIN),
            };
            (true, dtach_attach(name, s, inner.as_str()))
        },
    };
    vm_ssh_args(pty, target, cmd.as_str())
}

pub open spec fn sync_at(name: Seq<char>) -> Seq<char> {
    "/var/lib/vitro/envs/"@ + name + "/sync"@
}

/// Where the files wait that are copied into an env when it is entered.
pub fn sync_dir(name: &str) -> (r: String)
    ensures
        r@ == sync_at(name@),
{
    let mut s = "/var/lib/vitro/envs/".to_string();
    s.append(name);
    s.append("/sync");
    s
}

/// The arguments of the `scp` call that copies the synced files to the home
/// directory in a VM.
pub fn sync_args(name: &str, target: &str) -> (r: Vec<String>)
    ensures
        views(r@) == seq!["-r"@] + quiet_ssh() + seq![sync_at(name@) + "/."@, target@ + ":~/"@],
{
    let mut from = sync_dir(name);
    from.append("/.");
    let mut to = target.to_string();
    to.append(":~/");
    let r = vec![
        "-r".to_string(),
        "-o".to_string(),
        "StrictHostKeyChecking=no".to_string(),
        "-o".to_string(),
        "UserKnownHostsFile=/dev/null".to_string(),
        "-o".to_string(),
        "LogLevel=ERROR".to_string(),
        from,
        to,
    ];
    proof {
        assert(views(r@) =~= seq!["-r"@] + quiet_ssh() + seq![
            sync_at(name@) + "/."@,
            target@ + ":~/"@,
        ]);
    }
    r
}

/// How a command that was joined to the standard streams ended.
pub fn acp_ended(success: bool, status: &str) -> (r: Result<(), VmError>)
    ensures
        match r {
            Ok(_) => success,
            Err(e) => !success && (e matches VmError::AcpExit { status: s } && s@ == status@),
        },
{
    if success {
        Ok(())
    } else {
        Err(VmError::AcpExit { status: status.to_string() })
    }
}

/// How a shell in a VM ended.
pub fn shell_ended(success: bool, status: &str) -> (r: Result<(), VmError>)
    ensures
        match r {
            Ok(_) => success,
            Err(e) => !success && (e matches VmError::ShellExit { status: s } && s@ == status@),
        },
{
    if success {
        Ok(())
    } else {
        Err(VmError::ShellExit { status: status.to_string() })
    }
}

// ---------------------------------------------------------------------
// Rules of the proxy
// ---------------------------------------------------------------------

/// The arguments of the `curl` call that registers the rules of an env with the
/// proxy. What it sends is JSON that reads back as the rules.
pub fn register_proxy_rules(ip: &str, env_name: &str, config: &EnvConfig) -> (r: Vec<String>)
    ensures
        views(r@) == seq![
            "-sf"@,
            "-X"@,
            "POST"@,
            "-H"@,
            "Content-Type: application/json"@,
            "-d"@,
            compact(registration_view(ip@, env_name@, config.egress)),
            PROXY_CONTROL@ + "/envs"@,
        ],
        text_holds(views(r@)[6]) == Some(registration_view(ip@, env_name@, config.egress)),
{
    proof {
        lemma_registration_fits(ip@, env_name@, config.egress);
    }
    let body = render_json(&registration(ip, env_name, &config.egress));
    let mut url = PROXY_CONTROL.to_string();
    url.append("/envs");
    let r = vec![
        "-sf".to_string(),
        "-X".to_string(),
        "POST".to_string(),
        "-H".to_string(),
        "Content-Type: application/json".to_string(),
        "-d".to_string(),
        body,
        url,
    ];
    proof {
        assert(views(r@)[6] == body@);
    }
    r
}

/// The arguments of the `curl` call that takes the rules of an env out.
pub fn deregister_proxy_rules(ip: &str) -> (r: Vec<String>)
    ensures
        views(r@) == seq!["-sf"@, "-X"@, "DELETE"@, PROXY_CONTROL@ + "/envs/"@ + ip@],
{
    let mut url = PROXY_CONTROL.to_string();
    url.append("/envs/");
    url.append(ip);
    vec!["-sf".to_string(), "-X".to_string(), "DELETE".to_string(), url]
}

} // verus!
