use vitro::deploy::{
    bootstrap, deploy_flake_src, deploy_vm_config, detect_server_name, detect_target,
    find_runner, find_server_dir, is_nixos, mode, reboots, run, step_error, update, update_inputs,
    vitro_src_from_lock, DeployEvent, DeployNext, DeployStep, Runner,
};
use vitro::log::log_dir;
use vitro::server::{
    client_config_path, list, registry_of, registry_path, resolve, target_of, ActiveServer,
    ClientConfig, Registry, ServerEntry,
};
use vitro::server_init::{
    append_registry, bios_disk_nix, config_nix, disk_nix, farewell, flake_nix, host_dir,
    may_set_up, previewable, probe, probe_output, pubkey_path, pubkey_preview, read_pubkey, registry_has,
    report, scaffold, ssh_exec, uefi_disk_nix, validate_name, wiring_snippet, InitError,
    PROBE_SCRIPT,
};

fn texts(v: &[&str]) -> Vec<String> {
    v.iter().map(|s| s.to_string()).collect()
}

fn registry(pairs: &[(&str, &str)]) -> Registry {
    registry_of(
        pairs
            .iter()
            .map(|(n, t)| (n.to_string(), ServerEntry { target: t.to_string() }))
            .collect(),
    )
}

#[test]
fn servers_are_listed_by_name() {
    let reg = registry(&[("b", "u@b"), ("a", "u@a"), ("c", "u@c")]);
    let l = list(&reg);
    let names: Vec<&str> = l.iter().map(|p| p.0.as_str()).collect();
    assert_eq!(names, ["a", "b", "c"]);
    assert_eq!(l[1].1, "u@b");
    assert!(list(&registry(&[])).is_empty());
}

#[test]
fn names_are_resolved() {
    let reg = registry(&[("prod", "u@h")]);
    assert!(matches!(resolve("localhost", &reg).unwrap(), ActiveServer::Localhost));
    let s = resolve("prod", &reg).unwrap();
    assert!(s.is_server());
    assert_eq!(s.target(&reg).unwrap().as_deref(), Some("u@h"));
    assert!(!ActiveServer::Localhost.is_server());
    assert_eq!(ActiveServer::Localhost.target(&reg).unwrap(), None);
    assert_eq!(
        s.target(&registry(&[])).unwrap_err().message(),
        "server 'prod' not in registry"
    );
    assert_eq!(target_of("prod", &reg).unwrap().as_deref(), Some("u@h"));
    assert_eq!(target_of("localhost", &reg).unwrap(), None);
    assert!(target_of("x", &reg).unwrap_err().message().starts_with("server 'x' not in registry.\n"));
    assert_eq!(registry_path(Some("/home/a")), "/home/a/.config/vitro/servers.toml");
    assert_eq!(registry_path(None), "/root/.config/vitro/servers.toml");
    assert_eq!(client_config_path(None), "/root/.config/vitro/config.toml");
    let c = ClientConfig::default();
    assert!(c.sync.is_empty() && c.server.is_none());
}

#[test]
fn logs_go_to_the_server_or_the_home() {
    assert_eq!(log_dir(true, Some("/home/a")), "/var/log/vitro");
    assert_eq!(log_dir(false, Some("/home/a")), "/home/a/.local/share/vitro");
    assert_eq!(log_dir(false, None), "/tmp/.local/share/vitro");
}

// deploying

#[test]
fn runners_in_order() {
    assert!(find_runner(true, true, true) == Some(Runner::Nix));
    assert!(find_runner(false, true, true) == Some(Runner::Docker));
    assert!(find_runner(false, false, true) == Some(Runner::Podman));
    assert!(find_runner(false, false, false).is_none());
}

#[test]
fn the_lock_names_the_sources() {
    let lock = r#"{"nodes":{"vitro":{"locked":{"path":"/src/vitro"}}}}"#;
    assert_eq!(vitro_src_from_lock(Some(lock)).as_deref(), Some("/src/vitro"));
    for other in [
        "{}",
        "no",
        r#"{"nodes":{}}"#,
        r#"{"nodes":{"vitro":{}}}"#,
        r#"{"nodes":{"vitro":{"locked":{}}}}"#,
        r#"{"nodes":{"vitro":{"locked":{"path":1}}}}"#,
    ] {
        assert_eq!(vitro_src_from_lock(Some(other)), None);
    }
    assert_eq!(vitro_src_from_lock(None), None);
    assert_eq!(
        deploy_flake_src("u@h", "/src"),
        texts(&[
            "-a",
            "--delete",
            "--exclude=target/",
            "--exclude=.git/",
            "/src/",
            "u@h:/var/lib/vitro/flake-src/",
        ])
    );
    let (drop, copy) = deploy_vm_config("u@h", "/d/vm");
    assert_eq!(drop, texts(&["u@h", "rm", "-rf", "/var/lib/vitro/vm-config"]));
    assert_eq!(copy, texts(&["-r", "/d/vm", "u@h:/var/lib/vitro/vm-config"]));
}

#[test]
fn systems_are_built_or_installed() {
    assert_eq!(
        update("u@h", "n", "/d", false),
        texts(&["switch", "--flake", "/d#n", "--target-host", "u@h", "--use-substitutes"])
    );
    assert_eq!(update("u@h", "n", "/d", true)[0], "boot");
    assert_eq!((mode(true), mode(false)), ("boot", "switch"));
    assert!(reboots(true, true) && !reboots(true, false) && !reboots(false, true));
    assert_eq!(
        bootstrap(Runner::Nix, "u@h", "n", "/d", None, None),
        texts(&[
            "nix",
            "run",
            "github:nix-community/nixos-anywhere",
            "--",
            "--flake",
            "/d#n",
            "--target-host",
            "u@h",
        ])
    );
    let docker = bootstrap(Runner::Docker, "u@h", "n", "/d", Some("/home/a"), Some("/tmp/s"));
    assert_eq!(
        docker,
        texts(&[
            "docker",
            "run",
            "--rm",
            "-it",
            "-v",
            "/d:/flake",
            "-v",
            "/home/a/.ssh:/root/.ssh:ro",
            "-v",
            "/tmp/s:/tmp/ssh-agent.sock",
            "-e",
            "SSH_AUTH_SOCK=/tmp/ssh-agent.sock",
            "nixos/nix",
            "sh",
            "-c",
            "nix run github:nix-community/nixos-anywhere -- --flake /flake#n --target-host u@h",
        ])
    );
    let podman = bootstrap(Runner::Podman, "u@h", "n", "/d", None, None);
    assert_eq!(podman.len(), 12);
    assert_eq!((podman[0].as_str(), podman[7].as_str()), ("podman", "/root/.ssh:/root/.ssh:ro"));
    assert_eq!(is_nixos("u@h")[4], "u@h");
    assert_eq!(is_nixos("u@h").len(), 6);
    assert_eq!(update_inputs("/d"), texts(&["flake", "update", "--flake", "/d"]));
}

#[test]
fn servers_are_detected() {
    let flake = "mkHost {} { name = \"prod\"; other.name = \"x\"; }";
    assert_eq!(detect_server_name(flake, "/hosts/dir").unwrap(), "prod");
    assert_eq!(detect_server_name("{}", "/hosts/dir").unwrap(), "dir");
    assert_eq!(detect_server_name("name = \"open", "/d").unwrap(), "open");
    assert_eq!(detect_server_name("name = \"a name = \"b\"", "/d").unwrap(), "a ");
    assert_eq!(detect_server_name("{}", "/").unwrap_err().message(), "cannot determine server name");
    let reg = registry(&[("prod", "u@h")]);
    assert_eq!(detect_target(Some("u@t\n"), "prod", &reg).unwrap(), "u@t");
    assert_eq!(detect_target(None, "prod", &reg).unwrap(), "u@h");
    assert_eq!(
        detect_target(None, "x", &reg).unwrap_err().message(),
        "no target file and server 'x' not in registry. Add with: vitro server add x <target>"
    );
    let cwd = || "/cwd".to_string();
    assert_eq!(find_server_dir(Some("/d".to_string()), cwd(), true).unwrap(), "/d");
    assert_eq!(find_server_dir(None, cwd(), true).unwrap(), "/cwd");
    assert_eq!(
        find_server_dir(Some("/d".to_string()), cwd(), false).unwrap_err().message(),
        "no flake.nix at /d"
    );
    assert_eq!(
        find_server_dir(None, cwd(), false).unwrap_err().message(),
        "no flake.nix in current directory — run vitro deploy from a server config directory"
    );
}

#[test]
fn deploy_errors() {
    let say = |step, runner| step_error(step, "u@h", runner).unwrap().message();
    assert_eq!(say(DeployStep::UpdateInputs, None), "failed to update flake inputs");
    assert_eq!(say(DeployStep::Rebuild, None), "nixos-rebuild failed for u@h");
    assert_eq!(
        say(DeployStep::Install, None),
        "bootstrap requires nix, docker, or podman.\nInstall one of these and try again."
    );
    assert_eq!(say(DeployStep::Install, Some(Runner::Nix)), "nixos-anywhere failed");
    assert_eq!(
        say(DeployStep::Install, Some(Runner::Docker)),
        "nixos-anywhere (via docker) failed"
    );
    assert_eq!(
        say(DeployStep::Install, Some(Runner::Podman)),
        "nixos-anywhere (via podman) failed"
    );
    assert_eq!(say(DeployStep::VmConfig, None), "failed to copy vm-config to remote");
    assert_eq!(say(DeployStep::FlakeSrc, None), "rsync vitro flake-src failed");
    assert!(step_error(DeployStep::AskNixos, "u@h", None).is_none());
    assert!(step_error(DeployStep::Reboot, "u@h", None).is_none());
}

fn deployed(go: impl Fn(DeployStep) -> DeployEvent, reboot: bool) -> (Vec<DeployStep>, DeployNext) {
    let nixos = go(DeployStep::AskNixos) == DeployEvent::Yes;
    let mut step = DeployStep::UpdateInputs;
    let mut seen = vec![step];
    loop {
        match run(step, go(step), nixos, reboot) {
            DeployNext::Step(next) => {
                step = next;
                seen.push(step);
            }
            end => return (seen, end),
        }
    }
}

#[test]
fn nixos_is_updated_and_others_installed() {
    let (seen, end) = deployed(|_| DeployEvent::Yes, true);
    assert!(end == DeployNext::Done);
    assert!(seen.contains(&DeployStep::Rebuild) && !seen.contains(&DeployStep::Install));
    assert!(*seen.last().unwrap() == DeployStep::Reboot);
    let other = |s| if s == DeployStep::AskNixos { DeployEvent::No } else { DeployEvent::Yes };
    let (seen, end) = deployed(other, true);
    assert!(end == DeployNext::Done);
    assert!(seen.contains(&DeployStep::Install) && !seen.contains(&DeployStep::Rebuild));
    assert!(!seen.contains(&DeployStep::Reboot));
    for bad in [
        DeployStep::UpdateInputs,
        DeployStep::AskNixos,
        DeployStep::Rebuild,
        DeployStep::VmConfig,
        DeployStep::FlakeSrc,
    ] {
        let go = |s| if s == bad { DeployEvent::Failed } else { DeployEvent::Yes };
        let (seen, end) = deployed(go, true);
        assert!(end == DeployNext::Fail);
        assert!(!seen.contains(&DeployStep::Reboot));
    }
    let (seen, _) = deployed(|_| DeployEvent::Yes, false);
    assert!(!seen.contains(&DeployStep::Reboot));
}

// setting up

#[test]
fn server_names() {
    assert!(validate_name("prod-1_a").is_ok());
    assert_eq!(validate_name("").unwrap_err().message(), "server name cannot be empty");
    assert_eq!(
        validate_name("a b").unwrap_err().message(),
        "invalid server name 'a b': use ascii letters, digits, '-', '_'"
    );
    let reg = registry(&[("prod", "u@h")]);
    assert!(may_set_up("new", false, &reg).is_ok());
    assert!(matches!(may_set_up("", true, &reg), Err(InitError::EmptyName)));
    assert!(matches!(may_set_up("ä", true, &reg), Err(InitError::BadName { .. })));
    assert_eq!(
        may_set_up("prod", true, &reg).unwrap_err().message(),
        "hosts/prod/ already exists — remove it or choose a different name"
    );
    assert_eq!(
        may_set_up("prod", false, &reg).unwrap_err().message(),
        "server 'prod' is already in ~/.config/vitro/servers.toml"
    );
    assert!(registry_has("prod", &reg) && !registry_has("x", &reg));
    assert_eq!(host_dir("/w", "prod"), "/w/hosts/prod");
}

const OUTPUT: &str = "firmware=uefi\ndisk=/dev/sda\ndisk_size=10G\ndisk_by_id=/dev/disk/by-id/x=y\nos=debian\nnoise\n";

#[test]
fn probes_are_read() {
    let p = probe(OUTPUT).unwrap();
    assert_eq!(p.firmware, "uefi");
    assert_eq!(p.disk, "/dev/sda");
    assert_eq!(p.disk_size, "10G");
    assert_eq!(p.disk_by_id, "/dev/disk/by-id/x=y");
    assert_eq!(p.os, "debian");
    let twice = probe("firmware=a\ndisk=b\ndisk_by_id=c\nfirmware=d\n").unwrap();
    assert_eq!((twice.firmware.as_str(), twice.os.as_str()), ("d", ""));
    assert_eq!(
        probe("firmware=uefi\n").unwrap_err().message(),
        "probe returned incomplete output (firmware/disk/disk_by_id missing):\nfirmware=uefi\n"
    );
    assert_eq!(
        ssh_exec("u@h", Some("/k")),
        texts(&[
            "-o",
            "StrictHostKeyChecking=accept-new",
            "-o",
            "ConnectTimeout=15",
            "-o",
            "BatchMode=yes",
            "-i",
            "/k",
            "u@h",
            "bash",
            "-s",
        ])
    );
    assert_eq!(ssh_exec("u@h", None).len(), 9);
    assert!(PROBE_SCRIPT.starts_with("set -e\nif [ -d /sys/firmware/efi ]; then"));
    assert!(PROBE_SCRIPT.contains("awk '$2==\"disk\" {print $1; exit}'"));
    assert!(PROBE_SCRIPT.ends_with("else echo \"os=unknown\"; fi\n"));
    let printed = |success| probe_output(success, "Some(1)", "out".to_string(), "x");
    assert_eq!(printed(true).unwrap(), "out");
    assert_eq!(printed(false).unwrap_err().message(), "ssh exit Some(1):\nx");
}

#[test]
fn keys_are_read_and_shown() {
    assert_eq!(pubkey_path(Some("/k/id"), "/home/a"), "/k/id.pub");
    assert_eq!(pubkey_path(Some("/k/id.pub"), "/home/a"), "/k/id.pub");
    assert_eq!(pubkey_path(Some("/k/.pub"), "/home/a"), "/k/.pub.pub");
    assert_eq!(pubkey_path(Some("/k/id.pub/"), "/home/a"), "/k/id.pub/");
    assert_eq!(pubkey_path(None, "/home/a"), "/home/a/.ssh/id_ed25519.pub");
    assert_eq!(read_pubkey("/k", " ssh-ed25519 AAAA\n").unwrap(), "ssh-ed25519 AAAA");
    assert_eq!(read_pubkey("/k", " \n").unwrap_err().message(), "SSH pubkey file /k is empty");
    let key = "ssh-ed25519 0123456789abcdefXYZ me@x";
    assert!(previewable(key));
    assert_eq!(pubkey_preview(key), "ssh-ed25519 0123456789abcdef…");
    assert_eq!(pubkey_preview("rsa short"), "rsa short…");
    assert_eq!(pubkey_preview(""), " …");
    assert!(!previewable("rsa 012345678901234éé"));
    assert!(previewable("rsa 01234567890123éé"));
}

#[test]
fn servers_are_scaffolded() {
    let p = probe(OUTPUT).unwrap();
    let fresh = scaffold("/w", "prod", &p, "K", false);
    assert_eq!(fresh.dir, "/w/hosts/prod");
    let paths: Vec<&str> = fresh.files.iter().map(|f| f.path.as_str()).collect();
    assert_eq!(paths, ["/w/hosts/prod/disk.nix", "/w/hosts/prod/config.nix", "/w/flake.nix"]);
    assert_eq!(fresh.files[0].text, uefi_disk_nix("/dev/disk/by-id/x=y"));
    assert_eq!(fresh.files[1].text, config_nix("K"));
    assert_eq!(fresh.files[2].text, flake_nix("prod", "K"));
    assert_eq!(
        fresh.says,
        "wrote flake.nix\nwrote hosts/prod/disk.nix\nwrote hosts/prod/config.nix\n"
    );
    let again = scaffold("/w", "prod", &p, "K", true);
    assert_eq!(again.files.len(), 2);
    assert_eq!(
        again.says,
        format!(
            "wrote hosts/prod/disk.nix\nwrote hosts/prod/config.nix\n\n{}",
            wiring_snippet("prod", "K")
        )
    );
    let bios = probe("firmware=bios\ndisk=d\ndisk_by_id=d\nos=nixos\n").unwrap();
    assert_eq!(disk_nix(&bios), bios_disk_nix("d"));
}

#[test]
fn nix_texts() {
    let uefi = uefi_disk_nix("/dev/x");
    assert!(uefi.starts_with("{\n  boot.loader.systemd-boot.enable = true;\n"));
    assert!(uefi.contains("    device = \"/dev/x\";\n    content = {\n      type = \"gpt\";\n"));
    assert!(uefi.ends_with("      };\n    };\n  };\n}\n"));
    assert!(bios_disk_nix("/dev/x").contains("          type = \"EF02\";\n"));
    assert_eq!(
        config_nix("K"),
        "{pkgs, lib, ...}: {\n  vitro.server = {\n    enable = true;\n    user.authorizedKeys = [\n      \"K\"\n    ];\n    gc.enable = true;\n  };\n}\n"
    );
    let flake = flake_nix("prod", "K");
    assert!(flake.starts_with("{\n  description = \"prod — vitro server host\";\n"));
    assert!(flake.ends_with(
        "      name = \"prod\";\n      disk = ./hosts/prod/disk.nix;\n      sshPubkey = \"K\";\n      config = ./hosts/prod/config.nix;\n    };\n}\n"
    ));
    let wiring = wiring_snippet("prod", "K");
    assert!(wiring.starts_with("flake.nix already exists. Add these inputs (if not already present):\n\n"));
    assert!(wiring.ends_with(
        "    nixosConfigurations.prod =\n      (vitro.lib.mkHost {inherit vitro nixpkgs disko;}) {\n        name = \"prod\";\n        disk = ./hosts/prod/disk.nix;\n        sshPubkey = \"K\";\n        config = ./hosts/prod/config.nix;\n      };\n"
    ));
}

#[test]
fn reports_warn() {
    let p = probe(OUTPUT).unwrap();
    assert_eq!(
        report(&p, "K…"),
        "  firmware: uefi\n  disk:     /dev/disk/by-id/x=y (10G)\n  os:       debian\n  ssh key:  K…\n\n⚠ this host is NOT running NixOS (detected: debian).\n  `vitro server deploy` will use nixos-anywhere to install NixOS.\n  The existing root disk WILL BE WIPED.\n\n"
    );
    let nixos = probe("firmware=bios\ndisk=d\ndisk_by_id=d\nos=nixos\n").unwrap();
    assert_eq!(
        report(&nixos, "K…"),
        "  firmware: bios\n  disk:     d ()\n            (no /dev/disk/by-id symlink; path may be unstable)\n  os:       nixos\n  ssh key:  K…\n"
    );
    assert_eq!(
        farewell("prod", "u@h", &nixos),
        "\nregistered 'prod' → u@h in ~/.config/vitro/servers.toml\n\nnext: vitro server deploy\n"
    );
    assert!(farewell("prod", "u@h", &p).ends_with(
        "next: vitro server deploy  (will reinstall the target as NixOS)\n"
    ));
}

#[test]
fn the_registry_grows_by_sections() {
    let one = append_registry("", "a", "u@a");
    assert_eq!(one, "[a]\ntarget = \"u@a\"\n");
    assert_eq!(append_registry(&one, "b", "u@b"), "[a]\ntarget = \"u@a\"\n[b]\ntarget = \"u@b\"\n");
    assert_eq!(append_registry("# x", "a", "t"), "# x\n[a]\ntarget = \"t\"\n");
}
