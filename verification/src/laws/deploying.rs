use vstd::prelude::*;

use crate::deploy::{
    bootstrap, deploy_flake_src, deploy_vm_config, is_nixos, reboots, run, update, update_inputs,
    DeployEvent, DeployNext, DeployStep, Runner,
};

verus! {

/// A server is being deployed: each step follows the one before it. What the
/// server was found to run is what the second step was answered.
pub open spec fn deploy_run(
    steps: Seq<DeployStep>,
    events: Seq<DeployEvent>,
    nexts: Seq<DeployNext>,
    nixos: bool,
    reboot: bool,
) -> bool {
    &&& steps.len() > 0 && events.len() == steps.len() && nexts.len() == steps.len()
    &&& steps[0] == DeployStep::UpdateInputs
    &&& steps.len() > 1 ==> nixos == (events[1] == DeployEvent::Yes)
    &&& forall|i: int|
        0 <= i < steps.len() ==> call_ensures(
            run,
            (steps[i], events[i], nixos, reboot),
            #[trigger] nexts[i],
        )
    &&& forall|i: int| 0 <= i < steps.len() - 1 ==> #[trigger] nexts[i] == DeployNext::Step(
        steps[i + 1],
    )
}

proof fn lemma_deploy_run(
    steps: Seq<DeployStep>,
    events: Seq<DeployEvent>,
    nexts: Seq<DeployNext>,
    nixos: bool,
    reboot: bool,
    i: int,
)
    requires
        deploy_run(steps, events, nexts, nixos, reboot),
        0 <= i < steps.len(),
    ensures
        i < 6,
        steps[i] == seq![
            DeployStep::UpdateInputs,
            DeployStep::AskNixos,
            (if nixos {
                DeployStep::Rebuild
            } else {
                DeployStep::Install
            }),
            DeployStep::VmConfig,
            DeployStep::FlakeSrc,
            DeployStep::Reboot,
        ][i],
        i == 5 ==> nixos && reboot,
    decreases i,
{
    assert(call_ensures(run, (steps[i], events[i], nixos, reboot), nexts[i]));
    if i > 0 {
        lemma_deploy_run(steps, events, nexts, nixos, reboot, i - 1);
        assert(call_ensures(run, (steps[i - 1], events[i - 1], nixos, reboot), nexts[i - 1]));
        assert(nexts[i - 1] == DeployNext::Step(steps[i]));
    }
}

/// How a server is deployed. Its inputs are updated, and it is asked what it runs:
/// one with NixOS is rebuilt, any other is installed. Its VM configuration and the
/// sources follow in either case. A deploy is done only when all of that went
/// well; a reboot, where one is due, comes last and only behind a rebuild. It goes
/// on behind every step that went well, and behind no other.
pub proof fn law_deploy_does_all(
    steps: Seq<DeployStep>,
    events: Seq<DeployEvent>,
    nexts: Seq<DeployNext>,
    nixos: bool,
    reboot: bool,
)
    requires
        deploy_run(steps, events, nexts, nixos, reboot),
    ensures
        steps.len() <= 6,
        forall|i: int|
            0 <= i < steps.len() ==> #[trigger] steps[i] == seq![
                DeployStep::UpdateInputs,
                DeployStep::AskNixos,
                (if nixos {
                    DeployStep::Rebuild
                } else {
                    DeployStep::Install
                }),
                DeployStep::VmConfig,
                DeployStep::FlakeSrc,
                DeployStep::Reboot,
            ][i],
        forall|i: int|
            0 <= i < steps.len() - 1 && i != 1 ==> #[trigger] events[i] == DeployEvent::Yes,
        steps.len() > 2 ==> events[1] != DeployEvent::Failed,
        nexts.last() == DeployNext::Done ==> steps.len() == (if nixos && reboot {
            6nat
        } else {
            5nat
        }) && events[2] == DeployEvent::Yes && events[3] == DeployEvent::Yes && events[4]
            == DeployEvent::Yes,
        nexts.last() == DeployNext::Fail <==> steps.len() < 6 && events.last() != DeployEvent::Yes
            && !(steps.len() == 2 && events[1] == DeployEvent::No),
{
    let n = steps.len() as int;
    assert forall|i: int| 0 <= i < steps.len() implies #[trigger] steps[i] == seq![
        DeployStep::UpdateInputs,
        DeployStep::AskNixos,
        (if nixos {
            DeployStep::Rebuild
        } else {
            DeployStep::Install
        }),
        DeployStep::VmConfig,
        DeployStep::FlakeSrc,
        DeployStep::Reboot,
    ][i] by {
        lemma_deploy_run(steps, events, nexts, nixos, reboot, i);
    }
    assert forall|i: int| 0 <= i < steps.len() - 1 implies #[trigger] events[i] == DeployEvent::Yes
        || (i == 1 && events[1] == DeployEvent::No) by {
        lemma_deploy_run(steps, events, nexts, nixos, reboot, i);
        assert(call_ensures(run, (steps[i], events[i], nixos, reboot), nexts[i]));
        assert(nexts[i] is Step);
    }
    lemma_deploy_run(steps, events, nexts, nixos, reboot, n - 1);
    assert(call_ensures(run, (steps[n - 1], events[n - 1], nixos, reboot), nexts[n - 1]));
    if n > 2 {
        assert(events[1] == DeployEvent::Yes || events[1] == DeployEvent::No);
    }
    if n > 4 {
        assert(events[2] == DeployEvent::Yes);
        assert(events[3] == DeployEvent::Yes);
    }
    if n > 5 {
        assert(events[4] == DeployEvent::Yes);
    }
}

/// The calls of a deploy all go to one server: the one that is asked what it runs
/// is the one that is rebuilt from its own system, and that the configuration and
/// the sources are brought to. What is dropped there is what comes anew.
pub proof fn law_deploy_calls(
    target: &str,
    name: &str,
    dir: &str,
    vm_dir: &str,
    src: &str,
    boot: bool,
    inputs: Vec<String>,
    ask: Vec<String>,
    rebuild: Vec<String>,
    config: (Vec<String>, Vec<String>),
    sources: Vec<String>,
)
    requires
        call_ensures(update_inputs, (dir,), inputs),
        call_ensures(is_nixos, (target,), ask),
        call_ensures(update, (target, name, dir, boot), rebuild),
        call_ensures(deploy_vm_config, (target, vm_dir), config),
        call_ensures(deploy_flake_src, (target, src), sources),
    ensures
        inputs@.len() == 4 && inputs@[0]@ == "flake"@ && inputs@[1]@ == "update"@ && inputs@[3]@
            == dir@,
        ask@.len() > 1 && ask@[ask@.len() - 2]@ == target@,
        rebuild@.len() == 6 && rebuild@[0]@ == (if boot {
            "boot"@
        } else {
            "switch"@
        }) && rebuild@[1]@ == "--flake"@ && rebuild@[2]@ == dir@ + "#"@ + name@ && rebuild@[3]@
            == "--target-host"@ && rebuild@[4]@ == target@,
        config.0@.len() == 4 && config.0@[0]@ == target@ && config.0@[1]@ == "rm"@ && config.0@[2]@
            == "-rf"@ && config.0@[3]@ == "/var/lib/vitro/vm-config"@,
        config.1@.len() == 3 && config.1@[0]@ == "-r"@ && config.1@[1]@ == vm_dir@ && config.1@[2]@
            == target@ + ":/var/lib/vitro/vm-config"@,
        sources@.len() == 6 && sources@[1]@ == "--delete"@ && sources@[4]@ == src@ + "/"@
            && sources@[5]@ == target@ + ":/var/lib/vitro/flake-src/"@,
{
    crate::laws::lemma_views(inputs@);
    crate::laws::lemma_views(ask@);
    crate::laws::lemma_views(rebuild@);
    crate::laws::lemma_views(config.0@);
    crate::laws::lemma_views(config.1@);
    crate::laws::lemma_views(sources@);
}

/// Whatever installs NixOS, it installs the system of the server on the server:
/// `nix` from the flake in its directory, a container from that directory where it
/// finds it, with the keys of the user, and with the key agent where there is one.
pub proof fn law_install_calls(
    runner: Runner,
    target: &str,
    name: &str,
    dir: &str,
    home: Option<&str>,
    agent: Option<&str>,
    r: Vec<String>,
)
    requires
        call_ensures(bootstrap, (runner, target, name, dir, home, agent), r),
    ensures
        runner is Nix ==> r@.len() == 8 && r@[0]@ == "nix"@ && r@[2]@
            == "github:nix-community/nixos-anywhere"@ && r@[4]@ == "--flake"@ && r@[5]@ == dir@
            + "#"@ + name@ && r@[6]@ == "--target-host"@ && r@[7]@ == target@,
        !(runner is Nix) ==> {
            let n = r@.len() as int;
            let has_agent = agent is Some && agent->0@.len() > 0;
            &&& n == (if has_agent {
                16int
            } else {
                12int
            })
            &&& r@[0]@ == (if runner is Docker {
                "docker"@
            } else {
                "podman"@
            })
            &&& r@[4]@ == "-v"@ && r@[5]@ == dir@ + ":/flake"@
            &&& r@[6]@ == "-v"@ && r@[7]@ == (match home {
                Some(h) => h@,
                None => "/root"@,
            }) + "/.ssh:/root/.ssh:ro"@
            &&& has_agent ==> r@[8]@ == "-v"@ && r@[9]@ == agent->0@ + ":/tmp/ssh-agent.sock"@
                && r@[10]@ == "-e"@ && r@[11]@ == "SSH_AUTH_SOCK=/tmp/ssh-agent.sock"@
            &&& r@[n - 4]@ == "nixos/nix"@ && r@[n - 3]@ == "sh"@ && r@[n - 2]@ == "-c"@
            &&& r@[n - 1]@
                == "nix run github:nix-community/nixos-anywhere -- --flake /flake#"@ + name@
                + " --target-host "@ + target@
        },
{
    reveal_strlit("");
    crate::laws::lemma_views(r@);
}

/// A server is rebooted only where that was asked for, and only where its new
/// system waits for it.
pub proof fn law_reboots(boot: bool, reboot: bool, r: bool)
    requires
        call_ensures(reboots, (boot, reboot), r),
    ensures
        r ==> boot && reboot,
        boot && reboot ==> r,
{
}

} // verus!
