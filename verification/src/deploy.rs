use vstd::prelude::*;

use crate::json::{field, field_in, parse_json, text_holds, text_in, Json, JsonView};
use crate::path::{file_name, last_component};
use crate::server::Registry;
use crate::text::{
    find, first_at, is_char, lemma_pieces_nonempty, opt_text, pieces, split, trim, trimmed, views,
};

verus! {

/// What can install NixOS on a server.
#[derive(Clone, Copy, PartialEq, Eq, Structural)]
pub enum Runner {
    Nix,
    Docker,
    Podman,
}

/// What installs NixOS: the first of `nix`, `docker` and `podman` that is there.
pub fn find_runner(nix: bool, docker: bool, podman: bool) -> (r: Option<Runner>)
    ensures
        r == if nix {
            Some(Runner::Nix)
        } else if docker {
            Some(Runner::Docker)
        } else if podman {
            Some(Runner::Podman)
        } else {
            None
        },
{
    if nix {
        return Some(Runner::Nix);
    }
    if docker {
        return Some(Runner::Docker);
    }
    if podman {
        return Some(Runner::Podman);
    }
    None
}

/// The arguments of the `ssh` call that tells whether a server runs NixOS for
/// good: not from an installer, whose root is in memory.
pub fn is_nixos(target: &str) -> (r: Vec<String>)
    ensures
        views(r@) == seq![
            "-o"@,
            "StrictHostKeyChecking=accept-new"@,
            "-o"@,
            "ConnectTimeout=10"@,
            target@,
            "test -e /etc/NIXOS && test \"$(stat -f -c %T / 2>/dev/null)\" != tmpfs"@,
        ],
{
    vec![
        "-o".to_string(),
        "StrictHostKeyChecking=accept-new".to_string(),
        "-o".to_string(),
        "ConnectTimeout=10".to_string(),
        target.to_string(),
        "test -e /etc/NIXOS && test \"$(stat -f -c %T / 2>/dev/null)\" != tmpfs".to_string(),
    ]
}

// ---------------------------------------------------------------------
// Errors
// ---------------------------------------------------------------------

#[derive(Debug)]
pub enum DeployError {
    NoRunner,
    RsyncFlakeSrc,
    CopyVmConfig,
    Rebuild { target: String },
    Install,
    InstallVia { runner: String },
    NoFlakeHere,
    NoFlakeAt { dir: String },
    NoName,
    NoTarget { name: String },
    UpdateInputs,
}

impl DeployError {
    pub fn message(&self) -> (r: String)
        ensures
            r@ == match self {
                DeployError::NoRunner
                    => "bootstrap requires nix, docker, or podman.\nInstall one of these and try again."@,
                DeployError::RsyncFlakeSrc => "rsync vitro flake-src failed"@,
                DeployError::CopyVmConfig => "failed to copy vm-config to remote"@,
                DeployError::Rebuild { target } => "nixos-rebuild failed for "@ + target@,
                DeployError::Install => "nixos-anywhere failed"@,
                DeployError::InstallVia { runner } => "nixos-anywhere (via "@ + runner@
                    + ") failed"@,
                DeployError::NoFlakeHere
                    => "no flake.nix in current directory — run vitro deploy from a server config directory"@,
                DeployError::NoFlakeAt { dir } => "no flake.nix at "@ + dir@,
                DeployError::NoName => "cannot determine server name"@,
                DeployError::NoTarget { name } => "no target file and server '"@ + name@
                    + "' not in registry. Add with: vitro server add "@ + name@ + " <target>"@,
                DeployError::UpdateInputs => "failed to update flake inputs"@,
            },
    {
        match self {
            DeployError::NoRunner => {
                "bootstrap requires nix, docker, or podman.\nInstall one of these and try again.".to_string()
            },
            DeployError::RsyncFlakeSrc => "rsync vitro flake-src failed".to_string(),
            DeployError::CopyVmConfig => "failed to copy vm-config to remote".to_string(),
            DeployError::Rebuild { target } => {
                let mut s = "nixos-rebuild failed for ".to_string();
                s.append(target.as_str());
                s
            },
            DeployError::Install => "nixos-anywhere failed".to_string(),
            DeployError::InstallVia { runner } => {
                let mut s = "nixos-anywhere (via ".to_string();
                s.append(runner.as_str());
                s.append(") failed");
                s
            },
            DeployError::NoFlakeHere => {
                "no flake.nix in current directory — run vitro deploy from a server config directory".to_string()
            },
            DeployError::NoFlakeAt { dir } => {
                let mut s = "no flake.nix at ".to_string();
                s.append(dir.as_str());
                s
            },
            DeployError::NoName => "cannot determine server name".to_string(),
            DeployError::NoTarget { name } => {
                let mut s = "no target file and server '".to_string();
                s.append(name.as_str());
                s.append("' not in registry. Add with: vitro server add ");
                s.append(name.as_str());
                s.append(" <target>");
                s
            },
            DeployError::UpdateInputs => "failed to update flake inputs".to_string(),
        }
    }
}

// ---------------------------------------------------------------------
// What goes to a server beside its system
// ---------------------------------------------------------------------

/// The path of the vitro sources in a lock file.
pub open spec fn locked_path(lock: JsonView) -> Option<Seq<char>> {
    text_in(
        field_in(field_in(field_in(field(lock, "nodes"@), "vitro"@), "locked"@), "path"@),
    )
}

/// The path of the vitro sources in a lock file.
pub fn locked_src(lock: &Json) -> (r: Option<String>)
    ensures
        opt_text(r) == locked_path(lock@),
{
    let nodes = match lock.get("nodes") {
        Some(v) => v,
        None => {
            return None;
        },
    };
    let vitro = match nodes.get("vitro") {
        Some(v) => v,
        None => {
            return None;
        },
    };
    let locked = match vitro.get("locked") {
        Some(v) => v,
        None => {
            return None;
        },
    };
    match locked.get("path") {
        Some(v) => match v.as_text() {
            Some(t) => Some(t.to_string()),
            None => None,
        },
        None => None,
    }
}

/// The path of the vitro sources that a server's flake is locked to, from the
/// text of its lock file; none, where there is no such file, or it says none.
pub fn vitro_src_from_lock(lock: Option<&str>) -> (r: Option<String>)
    ensures
        opt_text(r) == match lock {
            Some(t) => match text_holds(t@) {
                Some(j) => locked_path(j),
                None => None,
            },
            None => None,
        },
{
    match lock {
        Some(t) => match parse_json(t) {
            Some(j) => locked_src(&j),
            None => None,
        },
        None => None,
    }
}

/// The arguments of the `rsync` call that brings the vitro sources to a server.
pub fn deploy_flake_src(target: &str, src: &str) -> (r: Vec<String>)
    ensures
        views(r@) == seq![
            "-a"@,
            "--delete"@,
            "--exclude=target/"@,
            "--exclude=.git/"@,
            src@ + "/"@,
            target@ + ":/var/lib/vitro/flake-src/"@,
        ],
{
    let mut from = src.to_string();
    from.append("/");
    let mut to = target.to_string();
    to.append(":/var/lib/vitro/flake-src/");
    vec![
        "-a".to_string(),
        "--delete".to_string(),
        "--exclude=target/".to_string(),
        "--exclude=.git/".to_string(),
        from,
        to,
    ]
}

/// The arguments of the `ssh` call that drops a server's old VM configuration,
/// and those of the `scp` call that brings the new one.
pub fn deploy_vm_config(target: &str, vm_dir: &str) -> (r: (Vec<String>, Vec<String>))
    ensures
        views(r.0@) == seq![target@, "rm"@, "-rf"@, "/var/lib/vitro/vm-config"@],
        views(r.1@) == seq!["-r"@, vm_dir@, target@ + ":/var/lib/vitro/vm-config"@],
{
    let mut to = target.to_string();
    to.append(":/var/lib/vitro/vm-config");
    let drop = vec![
        target.to_string(),
        "rm".to_string(),
        "-rf".to_string(),
        "/var/lib/vitro/vm-config".to_string(),
    ];
    (drop, vec!["-r".to_string(), vm_dir.to_string(), to])
}

// ---------------------------------------------------------------------
// Updating and installing
// ---------------------------------------------------------------------

/// The system of a server, as a flake names it.
pub open spec fn system_of(host_dir: Seq<char>, name: Seq<char>) -> Seq<char> {
    host_dir + "#"@ + name
}

fn system(host_dir: &str, name: &str) -> (r: String)
    ensures
        r@ == system_of(host_dir@, name@),
{
    let mut s = host_dir.to_string();
    s.append("#");
    s.append(name);
    s
}

/// How a new system is activated: now, or at the next boot.
pub fn mode(boot: bool) -> (r: &'static str)
    ensures
        r@ == if boot {
            "boot"@
        } else {
            "switch"@
        },
{
    if boot {
        "boot"
    } else {
        "switch"
    }
}

/// The arguments of the `nixos-rebuild` call that updates a server. The system
/// is built here, where the paths that its flake names exist, and pushed.
pub fn update(target: &str, name: &str, host_dir: &str, boot: bool) -> (r: Vec<String>)
    ensures
        views(r@) == seq![
            (if boot {
                "boot"@
            } else {
                "switch"@
            }),
            "--flake"@,
            system_of(host_dir@, name@),
            "--target-host"@,
            target@,
            "--use-substitutes"@,
        ],
{
    vec![
        mode(boot).to_string(),
        "--flake".to_string(),
        system(host_dir, name),
        "--target-host".to_string(),
        target.to_string(),
        "--use-substitutes".to_string(),
    ]
}

/// Whether an updated server is rebooted: only one whose system waits for it.
pub fn reboots(boot: bool, reboot: bool) -> (r: bool)
    ensures
        r == (boot && reboot),
{
    boot && reboot
}

/// The command line that installs NixOS on a server.
pub open spec fn install_line(
    runner: Runner,
    target: Seq<char>,
    name: Seq<char>,
    host_dir: Seq<char>,
    home: Seq<char>,
    ssh_auth_sock: Seq<char>,
) -> Seq<Seq<char>> {
    match runner {
        Runner::Nix => seq![
            "nix"@,
            "run"@,
            "github:nix-community/nixos-anywhere"@,
            "--"@,
            "--flake"@,
            system_of(host_dir, name),
            "--target-host"@,
            target,
        ],
        _ => seq![
            (if runner == Runner::Docker {
                "docker"@
            } else {
                "podman"@
            }),
            "run"@,
            "--rm"@,
            "-it"@,
            "-v"@,
            host_dir + ":/flake"@,
            "-v"@,
            home + "/.ssh:/root/.ssh:ro"@,
        ] + (if ssh_auth_sock.len() > 0 {
            seq![
                "-v"@,
                ssh_auth_sock + ":/tmp/ssh-agent.sock"@,
                "-e"@,
                "SSH_AUTH_SOCK=/tmp/ssh-agent.sock"@,
            ]
        } else {
            Seq::empty()
        }) + seq![
            "nixos/nix"@,
            "sh"@,
            "-c"@,
            "nix run github:nix-community/nixos-anywhere -- --flake /flake#"@ + name
                + " --target-host "@ + target,
        ],
    }
}

/// The command line that installs NixOS on a server: by `nix` itself, or by a
/// container that has it, which is given the flake, the keys, and the key agent
/// where there is one.
pub fn bootstrap(
    runner: Runner,
    target: &str,
    name: &str,
    host_dir: &str,
    home: Option<&str>,
    ssh_auth_sock: Option<&str>,
) -> (r: Vec<String>)
    ensures
        views(r@) == install_line(
            runner,
            target@,
            name@,
            host_dir@,
            match home {
                Some(h) => h@,
                None => "/root"@,
            },
            match ssh_auth_sock {
                Some(s) => s@,
                None => ""@,
            },
        ),
{
    let h = match home {
        Some(h) => h,
        None => "/root",
    };
    let sock = match ssh_auth_sock {
        Some(s) => s,
        None => "",
    };
    let mut r: Vec<String> = Vec::new();
    match runner {
        Runner::Nix => {
            r.push("nix".to_string());
            r.push("run".to_string());
            r.push("github:nix-community/nixos-anywhere".to_string());
            r.push("--".to_string());
            r.push("--flake".to_string());
            r.push(system(host_dir, name));
            r.push("--target-host".to_string());
            r.push(target.to_string());
        },
        _ => {
            let program = match runner {
                Runner::Docker => "docker",
                _ => "podman",
            };
            let mut flake = host_dir.to_string();
            flake.append(":/flake");
            let mut keys = h.to_string();
            keys.append("/.ssh:/root/.ssh:ro");
            r.push(program.to_string());
            r.push("run".to_string());
            r.push("--rm".to_string());
            r.push("-it".to_string());
            r.push("-v".to_string());
            r.push(flake);
            r.push("-v".to_string());
            r.push(keys);
            if !sock.is_empty() {
                let mut agent = sock.to_string();
                agent.append(":/tmp/ssh-agent.sock");
                r.push("-v".to_string());
                r.push(agent);
                r.push("-e".to_string());
                r.push("SSH_AUTH_SOCK=/tmp/ssh-agent.sock".to_string());
            }
            let mut line =
                "nix run github:nix-community/nixos-anywhere -- --flake /flake#".to_string();
            line.append(name);
            line.append(" --target-host ");
            line.append(target);
            r.push("nixos/nix".to_string());
            r.push("sh".to_string());
            r.push("-c".to_string());
            r.push(line);
        },
    }
    proof {
        assert(views(r@) =~= install_line(runner, target@, name@, host_dir@, h@, sock@));
    }
    r
}

/// How an install that was not successful is reported.
fn install_failed(runner: Runner) -> (r: DeployError)
    ensures
        match runner {
            Runner::Nix => r is Install,
            Runner::Docker => r matches DeployError::InstallVia { runner: n } && n@ == "docker"@,
            Runner::Podman => r matches DeployError::InstallVia { runner: n } && n@ == "podman"@,
        },
{
    match runner {
        Runner::Nix => DeployError::Install,
        Runner::Docker => DeployError::InstallVia { runner: "docker".to_string() },
        Runner::Podman => DeployError::InstallVia { runner: "podman".to_string() },
    }
}

// ---------------------------------------------------------------------
// Which server
// ---------------------------------------------------------------------

/// The directory to deploy from: the one that is given, else the current one.
/// It has to hold a flake.
pub fn find_server_dir(explicit: Option<String>, cwd: String, has_flake: bool) -> (r: Result<
    String,
    DeployError,
>)
    ensures
        match explicit {
            Some(d) => if has_flake {
                r matches Ok(p) && p@ == d@
            } else {
                r matches Err(DeployError::NoFlakeAt { dir }) && dir@ == d@
            },
            None => if has_flake {
                r matches Ok(p) && p@ == cwd@
            } else {
                r matches Err(e) && e is NoFlakeHere
            },
        },
{
    match explicit {
        Some(d) => if has_flake {
            Ok(d)
        } else {
            Err(DeployError::NoFlakeAt { dir: d })
        },
        None => if has_flake {
            Ok(cwd)
        } else {
            Err(DeployError::NoFlakeHere)
        },
    }
}

/// What stands before a server's name in its flake.
pub const NAME_MARK: &'static str = "name = \"";

/// The first name that a flake gives: what follows the first mark, up to the next
/// quote or the next mark.
pub open spec fn flake_name(flake: Seq<char>) -> Option<Seq<char>> {
    match first_at(flake, NAME_MARK@) {
        Some(i) => {
            let rest = flake.skip(i + NAME_MARK@.len());
            let piece = match first_at(rest, NAME_MARK@) {
                Some(k) => rest.take(k),
                None => rest,
            };
            Some(pieces(piece, is_char('"'))[0])
        },
        None => None,
    }
}

fn name_in(flake: &str) -> (r: Option<String>)
    ensures
        opt_text(r) == flake_name(flake@),
{
    match find(flake, NAME_MARK) {
        Some(i) => {
            let n = flake.unicode_len();
            let k = NAME_MARK.unicode_len();
            let rest = flake.substring_char(i + k, n);
            proof {
                assert(rest@ =~= flake@.skip(i + NAME_MARK@.len()));
            }
            let piece = match find(rest, NAME_MARK) {
                Some(j) => rest.substring_char(0, j),
                None => rest,
            };
            proof {
                lemma_pieces_nonempty(piece@, is_char('"'));
                match first_at(rest@, NAME_MARK@) {
                    Some(j) => {
                        assert(piece@ =~= rest@.take(j));
                    },
                    None => {},
                }
            }
            let parts = split(piece, '"');
            proof {
                assert(views(parts@)[0] == parts@[0]@);
            }
            Some(parts[0].clone())
        },
        None => None,
    }
}

/// The name of a server: the first one in its flake, else that of its directory.
pub fn detect_server_name(flake: &str, host_dir: &str) -> (r: Result<String, DeployError>)
    ensures
        match flake_name(flake@) {
            Some(n) => r matches Ok(s) && s@ == n,
            None => match last_component(host_dir@) {
                Some(n) => r matches Ok(s) && s@ == n,
                None => r matches Err(e) && e is NoName,
            },
        },
{
    match name_in(flake) {
        Some(n) => Ok(n),
        None => match file_name(host_dir) {
            Some(n) => Ok(n),
            None => Err(DeployError::NoName),
        },
    }
}

/// The SSH target of a server: the one in its target file, where it has one, else
/// the one that the user knows.
pub fn detect_target(target_file: Option<&str>, name: &str, registry: &Registry) -> (r: Result<
    String,
    DeployError,
>)
    requires
        registry.wf(),
    ensures
        match target_file {
            Some(t) => r matches Ok(s) && s@ == trimmed(t@),
            None => if registry@.contains_key(name@) {
                r matches Ok(s) && s@ == registry@[name@]
            } else {
                r matches Err(DeployError::NoTarget { name: n }) && n@ == name@
            },
        },
{
    match target_file {
        Some(t) => Ok(trim(t).to_string()),
        None => match registry.get(name) {
            Some(t) => Ok(t),
            None => Err(DeployError::NoTarget { name: name.to_string() }),
        },
    }
}

/// The arguments of the `nix` call that updates the inputs of a server's flake.
pub fn update_inputs(host_dir: &str) -> (r: Vec<String>)
    ensures
        views(r@) == seq!["flake"@, "update"@, "--flake"@, host_dir@],
{
    vec!["flake".to_string(), "update".to_string(), "--flake".to_string(), host_dir.to_string()]
}

// ---------------------------------------------------------------------
// The order of a deploy
// ---------------------------------------------------------------------

/// The steps of a deploy.
#[derive(Clone, Copy, PartialEq, Eq, Structural)]
pub enum DeployStep {
    UpdateInputs,
    AskNixos,
    Rebuild,
    Install,
    VmConfig,
    FlakeSrc,
    Reboot,
}

/// How a step of a deploy went: what a question was answered, and whether an
/// action was successful.
#[derive(Clone, Copy, PartialEq, Eq, Structural)]
pub enum DeployEvent {
    Yes,
    No,
    Failed,
}

/// What follows a step of a deploy.
#[derive(Clone, Copy, PartialEq, Eq, Structural)]
pub enum DeployNext {
    Step(DeployStep),
    Done,
    Fail,
}

/// What follows a step of a deploy. A server that runs NixOS is updated; any
/// other is installed anew. A reboot, where one is due, comes last.
pub open spec fn deploy_next(
    step: DeployStep,
    e: DeployEvent,
    nixos: bool,
    reboot: bool,
) -> DeployNext {
    match step {
        DeployStep::UpdateInputs => if e == DeployEvent::Yes {
            DeployNext::Step(DeployStep::AskNixos)
        } else {
            DeployNext::Fail
        },
        DeployStep::AskNixos => match e {
            DeployEvent::Yes => DeployNext::Step(DeployStep::Rebuild),
            DeployEvent::No => DeployNext::Step(DeployStep::Install),
            DeployEvent::Failed => DeployNext::Fail,
        },
        DeployStep::Rebuild | DeployStep::Install => if e == DeployEvent::Yes {
            DeployNext::Step(DeployStep::VmConfig)
        } else {
            DeployNext::Fail
        },
        DeployStep::VmConfig => if e == DeployEvent::Yes {
            DeployNext::Step(DeployStep::FlakeSrc)
        } else {
            DeployNext::Fail
        },
        DeployStep::FlakeSrc => if e != DeployEvent::Yes {
            DeployNext::Fail
        } else if nixos && reboot {
            DeployNext::Step(DeployStep::Reboot)
        } else {
            DeployNext::Done
        },
        DeployStep::Reboot => DeployNext::Done,
    }
}

/// What follows a step of a deploy; `nixos` is what the server was found to
/// run.
pub fn run(step: DeployStep, event: DeployEvent, nixos: bool, reboot: bool) -> (r: DeployNext)
    ensures
        r == deploy_next(step, event, nixos, reboot),
{
    match (step, event) {
        (DeployStep::UpdateInputs, DeployEvent::Yes) => DeployNext::Step(DeployStep::AskNixos),
        (DeployStep::AskNixos, DeployEvent::Yes) => DeployNext::Step(DeployStep::Rebuild),
        (DeployStep::AskNixos, DeployEvent::No) => DeployNext::Step(DeployStep::Install),
        (DeployStep::Rebuild, DeployEvent::Yes) => DeployNext::Step(DeployStep::VmConfig),
        (DeployStep::Install, DeployEvent::Yes) => DeployNext::Step(DeployStep::VmConfig),
        (DeployStep::VmConfig, DeployEvent::Yes) => DeployNext::Step(DeployStep::FlakeSrc),
        (DeployStep::FlakeSrc, DeployEvent::Yes) => if nixos && reboot {
            DeployNext::Step(DeployStep::Reboot)
        } else {
            DeployNext::Done
        },
        (DeployStep::Reboot, _) => DeployNext::Done,
        _ => DeployNext::Fail,
    }
}

/// Why a deploy ends with a step that was not successful; an install that found
/// nothing to run with has no runner.
pub fn step_error(step: DeployStep, target: &str, runner: Option<Runner>) -> (r: Option<
    DeployError,
>)
    ensures
        match step {
            DeployStep::UpdateInputs => r matches Some(e) && e is UpdateInputs,
            DeployStep::Rebuild => r matches Some(DeployError::Rebuild { target: t }) && t@
                == target@,
            DeployStep::Install => match runner {
                None => r matches Some(e) && e is NoRunner,
                Some(Runner::Nix) => r matches Some(e) && e is Install,
                Some(Runner::Docker) => r matches Some(DeployError::InstallVia { runner: n })
                    && n@ == "docker"@,
                Some(Runner::Podman) => r matches Some(DeployError::InstallVia { runner: n })
                    && n@ == "podman"@,
            },
            DeployStep::VmConfig => r matches Some(e) && e is CopyVmConfig,
            DeployStep::FlakeSrc => r matches Some(e) && e is RsyncFlakeSrc,
            DeployStep::AskNixos | DeployStep::Reboot => r is None,
        },
{
    match step {
        DeployStep::UpdateInputs => Some(DeployError::UpdateInputs),
        DeployStep::Rebuild => Some(DeployError::Rebuild { target: target.to_string() }),
        DeployStep::Install => match runner {
            None => Some(DeployError::NoRunner),
            Some(r) => Some(install_failed(r)),
        },
        DeployStep::VmConfig => Some(DeployError::CopyVmConfig),
        DeployStep::FlakeSrc => Some(DeployError::RsyncFlakeSrc),
        DeployStep::AskNixos | DeployStep::Reboot => None,
    }
}

/// The step that a deploy comes to after `n` others, when the steps go as `go`
/// says.
pub open spec fn deploy_at(
    go: spec_fn(DeployStep) -> DeployEvent,
    reboot: bool,
    n: nat,
) -> Option<DeployStep>
    decreases n,
{
    if n == 0 {
        Some(DeployStep::UpdateInputs)
    } else {
        match deploy_at(go, reboot, (n - 1) as nat) {
            Some(step) => match deploy_next(
                step,
                go(step),
                go(DeployStep::AskNixos) == DeployEvent::Yes,
                reboot,
            ) {
                DeployNext::Step(next) => Some(next),
                _ => None,
            },
            None => None,
        }
    }
}

/// The system of a server is in place: it was updated, or installed.
pub open spec fn system_in_place(go: spec_fn(DeployStep) -> DeployEvent) -> bool {
    if go(DeployStep::AskNixos) == DeployEvent::Yes {
        go(DeployStep::Rebuild) == DeployEvent::Yes
    } else {
        go(DeployStep::Install) == DeployEvent::Yes
    }
}

/// A server that was found to run NixOS is never installed anew, and one that was
/// not is never updated. What goes beside the system follows the system, and a
/// reboot follows only an update that brought all of it.
pub proof fn law_deploy_order(go: spec_fn(DeployStep) -> DeployEvent, reboot: bool, n: nat)
    ensures
        match deploy_at(go, reboot, n) {
            Some(DeployStep::Install) => go(DeployStep::AskNixos) == DeployEvent::No,
            Some(DeployStep::Rebuild) => go(DeployStep::AskNixos) == DeployEvent::Yes,
            Some(DeployStep::VmConfig) => system_in_place(go),
            Some(DeployStep::FlakeSrc) => system_in_place(go) && go(DeployStep::VmConfig)
                == DeployEvent::Yes,
            Some(DeployStep::Reboot) => reboot && go(DeployStep::AskNixos) == DeployEvent::Yes
                && system_in_place(go) && go(DeployStep::VmConfig) == DeployEvent::Yes && go(
                DeployStep::FlakeSrc,
            ) == DeployEvent::Yes,
            _ => true,
        },
    decreases n,
{
    if n > 0 {
        law_deploy_order(go, reboot, (n - 1) as nat);
    }
}

} // verus!
