use vstd::prelude::*;

use crate::cell::PoolExhausted;
use crate::cli::{CliError, FindError};
use crate::client::ClientError;
use crate::deploy::DeployError;
use crate::git::GitError;
use crate::remote::RemoteError;
use crate::secrets::SecretsError;
use crate::server::ServerError;
use crate::server_init::InitError;
use crate::ssh::BadTarget;
use crate::text::trimmed;
use crate::transport::TransportError;
use crate::tunnel::TunnelError;
use crate::vm::VmError;
use crate::worktree::TreeError;

verus! {

/// What a server reports, and how a command on it ended, reaches the user in full.
pub proof fn law_client_reports(e: &ClientError, r: String)
    requires
        call_ensures(ClientError::message, (e,), r),
    ensures
        e matches ClientError::Server { error } ==> r@ == "server error: "@ + error@,
        e matches ClientError::ShellExit { status } ==> r@ == "shell exited with "@ + status@,
        e matches ClientError::AcpExit { status } ==> r@ == "acp forward exited with "@ + status@,
        e matches ClientError::SecretsExit { exit_code, stdout } ==> r@
            == "push_secrets_env exited "@ + exit_code@ + ": "@ + stdout@,
{
}

/// A deploy that fails says what failed, and where.
pub proof fn law_deploy_reports(e: &DeployError, r: String)
    requires
        call_ensures(DeployError::message, (e,), r),
    ensures
        e matches DeployError::Rebuild { target } ==> r@ == "nixos-rebuild failed for "@ + target@,
        e matches DeployError::InstallVia { runner } ==> r@ == "nixos-anywhere (via "@ + runner@
            + ") failed"@,
        e matches DeployError::NoFlakeAt { dir } ==> r@ == "no flake.nix at "@ + dir@,
        e matches DeployError::NoTarget { name } ==> r@ == "no target file and server '"@ + name@
            + "' not in registry. Add with: vitro server add "@ + name@ + " <target>"@,
        e is Install ==> r@ == "nixos-anywhere failed"@,
        e is RsyncFlakeSrc ==> r@ == "rsync vitro flake-src failed"@,
        e is CopyVmConfig ==> r@ == "failed to copy vm-config to remote"@,
        e is NoName ==> r@ == "cannot determine server name"@,
        e is UpdateInputs ==> r@ == "failed to update flake inputs"@,
{
}

/// Secrets that cannot be had, kept or edited are reported with the reason.
pub proof fn law_secrets_report(e: &SecretsError, r: String)
    requires
        call_ensures(SecretsError::message, (e,), r),
    ensures
        e matches SecretsError::Command { stderr } ==> r@ == "secrets command failed: "@ + stderr@,
        e matches SecretsError::Encryption { stderr } ==> r@ == "age encryption failed: "@
            + stderr@,
        e matches SecretsError::Editor { status } ==> r@ == "editor exited with "@ + status@,
        e is NoIdentity ==> r@ == "no SSH keys found for decryption"@,
        e is NoMatch ==> r@ == "age decryption failed — no key matched any recipient"@,
        e is NoKeys ==> r@ == "no keys configured — add secrets.keys in .vitro/config.toml"@,
        e is NoPlaintext ==> r@ == ".vitro/secrets.env not found — create it first"@,
        e is NoCiphertext ==> r@ == ".vitro/secrets.age not found"@,
{
}

/// A tunnel that cannot be made names the port, the env or the address at fault.
pub proof fn law_tunnel_reports(e: &TunnelError, r: String)
    requires
        call_ensures(TunnelError::message, (e,), r),
    ensures
        e matches TunnelError::BadPort { text } ==> r@ == "invalid port: "@ + text@,
        e matches TunnelError::BadRange { text } ==> r@ == "invalid range: "@ + text@,
        e matches TunnelError::NoEnv { env } ==> r@ == "env '"@ + env@ + "' not found on server"@,
        e matches TunnelError::NoIp { env } ==> r@ == "env '"@ + env@
            + "' has no IP (not running?)"@,
        e matches TunnelError::NoLoopback { ip } ==> r@ == "cannot derive loopback from IP '"@
            + ip@ + "'"@,
        e matches TunnelError::Exit { status } ==> r@ == "autossh exited with "@ + status@,
{
}

/// What goes wrong with the VM of an env is reported with the env, or the directory.
pub proof fn law_vm_reports(e: &VmError, r: String)
    requires
        call_ensures(VmError::message, (e,), r),
    ensures
        e matches VmError::FlakeUpdate { name } ==> r@
            == "failed to update flake inputs for env '"@ + name@ + "'"@,
        e matches VmError::Build { name, stderr } ==> r@ == "failed to build env VM '"@ + name@
            + "': "@ + stderr@,
        e matches VmError::Start { name } ==> r@ == "failed to start VM for env '"@ + name@ + "'"@,
        e matches VmError::RemoveEnvDir { path } ==> r@ == "failed to remove env dir at "@ + path@,
        e matches VmError::RemoveVmDir { path } ==> r@ == "failed to remove microvm dir at "@
            + path@,
        e matches VmError::AcpExit { status } ==> r@ == "acp forward exited with "@ + status@,
        e matches VmError::ShellExit { status } ==> r@ == "ssh exited with "@ + status@,
        e is NotRunning ==> r@ == "VM not running (no ip file)"@,
        e is Unreachable ==> r@ == "VM did not become reachable within 60s"@,
{
}

/// A branch that is not there, or could not be pushed, is named, with what git said.
pub proof fn law_transport_reports(e: &TransportError, r: String)
    requires
        call_ensures(TransportError::message, (e,), r),
    ensures
        e matches TransportError::NoBranch { cell } ==> r@ == "branch '"@ + cell@
            + "' does not exist — use 'vitro create "@ + cell@ + "' first"@,
        e matches TransportError::Push { cell, stderr } ==> r@ == "git push vitro "@ + cell@
            + " failed — cell would run with stale code.\nstderr: "@ + trimmed(stderr@),
{
}

/// What git and the remote helper could not do is named.
pub proof fn law_git_reports(
    e: &GitError,
    r: String,
    f: &RemoteError,
    s: String,
    g: &TreeError,
    t: String,
)
    requires
        call_ensures(GitError::message, (e,), r),
        call_ensures(RemoteError::message, (f,), s),
        call_ensures(TreeError::message, (g,), t),
    ensures
        e matches GitError::RevParse { refname } ==> r@ == "rev-parse failed for "@ + refname@,
        e matches GitError::AddRemote { stderr } ==> r@ == "failed to add vitro remote: "@
            + stderr@,
        e is SetUrl ==> r@ == "failed to update vitro remote URL"@,
        e is Push ==> r@ == "git push to vitro remote failed"@,
        f matches RemoteError::Resolution { stderr } ==> s@ == "remote cell resolution failed: "@
            + stderr@,
        f matches RemoteError::Unexpected { line } ==> s@ == "unexpected command: "@ + line@,
        f matches RemoteError::Exec { service, error } ==> s@ == "failed to exec "@ + service@
            + ": "@ + error@,
        g matches TreeError::Exists { path } ==> t@ == "worktree already exists at "@ + path@,
        g matches TreeError::Missing { branch } ==> t@ == "no worktree for branch '"@ + branch@
            + "'"@,
{
}

/// A server that is not known, or cannot be set up, is named.
pub proof fn law_server_reports(
    e: &ServerError,
    r: String,
    f: &InitError,
    s: String,
    g: &BadTarget,
    t: String,
)
    requires
        call_ensures(ServerError::message, (e,), r),
        call_ensures(InitError::message, (f,), s),
        call_ensures(BadTarget::message, (g,), t),
    ensures
        e matches ServerError::NotInRegistry { name } ==> r@ == "server '"@ + name@
            + "' not in registry"@,
        e matches ServerError::Unknown { name } ==> r@ == "server '"@ + name@
            + "' not in registry.\n  NixOS:  set vitro.client.servers."@ + name@
            + " = \"<ssh-target>\";\n  else:   add to ~/"@ + ".config/vitro/servers.toml"@
            + " as ["@ + name@ + "] target = \"<ssh-target>\""@,
        f is EmptyName ==> s@ == "server name cannot be empty"@,
        f matches InitError::BadName { name } ==> s@ == "invalid server name '"@ + name@
            + "': use ascii letters, digits, '-', '_'"@,
        f matches InitError::DirExists { name } ==> s@ == "hosts/"@ + name@
            + "/ already exists — remove it or choose a different name"@,
        f matches InitError::Registered { name } ==> s@ == "server '"@ + name@
            + "' is already in ~/.config/vitro/servers.toml"@,
        f matches InitError::IncompleteProbe { stdout } ==> s@
            == "probe returned incomplete output (firmware/disk/disk_by_id missing):\n"@ + stdout@,
        f matches InitError::EmptyKey { path } ==> s@ == "SSH pubkey file "@ + path@
            + " is empty"@,
        f matches InitError::SshExit { code, stderr } ==> s@ == "ssh exit "@ + code@ + ":\n"@
            + stderr@,
        t@ == "invalid SSH target: expected user@host, got '"@ + g.target@ + "'"@,
{
}

/// What is refused on the command line is named, by whomever it is refused.
pub proof fn law_cli_reports(
    e: &CliError,
    r: String,
    f: &FindError,
    s: String,
    g: &PoolExhausted,
    t: String,
    inner: &ServerError,
    told: String,
)
    requires
        call_ensures(CliError::message, (e,), r),
        call_ensures(FindError::message, (f,), s),
        call_ensures(PoolExhausted::message, (g,), t),
        call_ensures(ServerError::message, (inner,), told),
    ensures
        e matches CliError::BadDuration { text } ==> r@ == "invalid duration '"@ + text@
            + "' — use e.g. 7d, 24h, 1h"@,
        e matches CliError::NotBound { env } ==> r@ == "no server bound for env '"@ + env@
            + "' — pass --server, set [server] in .vitro/config.toml, or recreate with `vitro create "@
            + env@ + " --server <name>`"@,
        e matches CliError::NotFound { env } ==> r@ == "env '"@ + env@ + "' not found"@,
        e is NoTarget ==> r@ == "server has no target"@,
        e is NeedsCommand ==> r@ == "--json requires -c <command>"@,
        f matches FindError::Cli(x) ==> (*e == x ==> s@ == r@),
        f matches FindError::Server(x) ==> (*inner == x ==> s@ == told@),
        t@ == "IP pool exhausted (244 cells max)"@,
{
}

} // verus!
