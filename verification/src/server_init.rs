use vstd::prelude::*;
use vstd::utf8::{decode_utf8, encode_utf8, is_char_boundary};

use crate::dns::is_alnum;
use crate::http::byte_count;
use crate::path::{below, extension, extension_of, join_path};
use crate::server::Registry;
use crate::text::{
    chars_of, cut_once, ends_with, lemma_lines_one_more, lines, lines_of, nth_word, same,
    split_once, trim, trimmed, views, without_cr, words_of,
};

verus! {

/// The script that tells what a server is like.
pub const PROBE_SCRIPT: &'static str = "set -e\nif [ -d /sys/firmware/efi ]; then echo \"firmware=uefi\"; else echo \"firmware=bios\"; fi\nROOT_DEV=$(lsblk -dn -o NAME,TYPE 2>/dev/null | awk '$2==\"disk\" {print $1; exit}')\nif [ -z \"$ROOT_DEV\" ]; then echo \"ERROR: no disk candidate found via lsblk\" >&2; exit 1; fi\necho \"disk=/dev/$ROOT_DEV\"\nSIZE=$(lsblk -dn -o SIZE \"/dev/$ROOT_DEV\" 2>/dev/null | tr -d ' ')\necho \"disk_size=${SIZE:-unknown}\"\nBY_ID=\"\"\nfor prefix in nvme- ata- scsi- wwn-; do\n  for f in /dev/disk/by-id/${prefix}*; do\n    [ -e \"$f\" ] || continue\n    case \"$f\" in *-part*) continue;; esac\n    if [ \"$(readlink -f \"$f\")\" = \"/dev/$ROOT_DEV\" ]; then\n      BY_ID=\"$f\"\n      break 2\n    fi\n  done\ndone\nif [ -z \"$BY_ID\" ]; then BY_ID=\"/dev/$ROOT_DEV\"; fi\necho \"disk_by_id=$BY_ID\"\nif [ -f /etc/os-release ]; then . /etc/os-release; echo \"os=${ID:-unknown}\"; else echo \"os=unknown\"; fi\n";

/// What a server is like.
#[derive(Debug)]
pub struct Probe {
    pub firmware: String,
    pub disk: String,
    pub disk_by_id: String,
    pub disk_size: String,
    pub os: String,
}

// ---------------------------------------------------------------------
// Errors
// ---------------------------------------------------------------------

#[derive(Debug)]
pub enum InitError {
    EmptyName,
    BadName { name: String },
    DirExists { name: String },
    Registered { name: String },
    IncompleteProbe { stdout: String },
    EmptyKey { path: String },
    SshExit { code: String, stderr: String },
}

impl InitError {
    pub fn message(&self) -> (r: String)
        ensures
            r@ == match self {
                InitError::EmptyName => "server name cannot be empty"@,
                InitError::BadName { name } => "invalid server name '"@ + name@
                    + "': use ascii letters, digits, '-', '_'"@,
                InitError::DirExists { name } => "hosts/"@ + name@
                    + "/ already exists — remove it or choose a different name"@,
                InitError::Registered { name } => "server '"@ + name@
                    + "' is already in ~/.config/vitro/servers.toml"@,
                InitError::IncompleteProbe { stdout }
                    => "probe returned incomplete output (firmware/disk/disk_by_id missing):\n"@
                    + stdout@,
                InitError::EmptyKey { path } => "SSH pubkey file "@ + path@ + " is empty"@,
                InitError::SshExit { code, stderr } => "ssh exit "@ + code@ + ":\n"@ + stderr@,
            },
    {
        match self {
            InitError::EmptyName => "server name cannot be empty".to_string(),
            InitError::BadName { name } => {
                let mut s = "invalid server name '".to_string();
                s.append(name.as_str());
                s.append("': use ascii letters, digits, '-', '_'");
                s
            },
            InitError::DirExists { name } => {
                let mut s = "hosts/".to_string();
                s.append(name.as_str());
                s.append("/ already exists — remove it or choose a different name");
                s
            },
            InitError::Registered { name } => {
                let mut s = "server '".to_string();
                s.append(name.as_str());
                s.append("' is already in ~/.config/vitro/servers.toml");
                s
            },
            InitError::IncompleteProbe { stdout } => {
                let mut s =
                    "probe returned incomplete output (firmware/disk/disk_by_id missing):\n".to_string();
                s.append(stdout.as_str());
                s
            },
            InitError::EmptyKey { path } => {
                let mut s = "SSH pubkey file ".to_string();
                s.append(path.as_str());
                s.append(" is empty");
                s
            },
            InitError::SshExit { code, stderr } => {
                let mut s = "ssh exit ".to_string();
                s.append(code.as_str());
                s.append(":\n");
                s.append(stderr.as_str());
                s
            },
        }
    }
}

// ---------------------------------------------------------------------
// Names
// ---------------------------------------------------------------------

/// A name that a server can have: letters, digits, hyphens and underscores.
pub open spec fn good_name(name: Seq<char>) -> bool {
    name.len() > 0 && forall|i: int|
        0 <= i < name.len() ==> is_alnum(#[trigger] name[i]) || name[i] == '-' || name[i] == '_'
}

/// Whether a server can have this name.
pub fn validate_name(name: &str) -> (r: Result<(), InitError>)
    ensures
        match r {
            Ok(_) => good_name(name@),
            Err(InitError::EmptyName) => name@.len() == 0,
            Err(e) => name@.len() > 0 && !good_name(name@) && (e matches InitError::BadName {
                name: n,
            } && n@ == name@),
        },
{
    if name.is_empty() {
        return Err(InitError::EmptyName);
    }
    let v = chars_of(name);
    for i in 0..v.len()
        invariant
            v@ == name@,
            name@.len() > 0,
            forall|k: int|
                0 <= k < i ==> is_alnum(#[trigger] v@[k]) || v@[k] == '-' || v@[k] == '_',
    {
        let c = v[i];
        let good = ('0' <= c && c <= '9') || ('a' <= c && c <= 'z') || ('A' <= c && c <= 'Z') || c
            == '-' || c == '_';
        if !good {
            proof {
                assert(!is_alnum(name@[i as int]));
            }
            return Err(InitError::BadName { name: name.to_string() });
        }
    }
    Ok(())
}

/// The directory of a server's configuration.
pub open spec fn host_dir_of(cwd: Seq<char>, name: Seq<char>) -> Seq<char> {
    below(below(cwd, "hosts"@), name)
}

/// The directory of a server's configuration.
pub fn host_dir(cwd: &str, name: &str) -> (r: String)
    ensures
        r@ == host_dir_of(cwd@, name@),
{
    join_path(join_path(cwd, "hosts").as_str(), name)
}

/// Whether a server is known by this name.
pub fn registry_has(name: &str, registry: &Registry) -> (r: bool)
    requires
        registry.wf(),
    ensures
        r == registry@.contains_key(name@),
{
    registry.get(name).is_some()
}

/// Whether a new server can be set up under this name: the name is good, no
/// directory has it, and no known server.
pub fn may_set_up(name: &str, dir_exists: bool, registry: &Registry) -> (r: Result<(), InitError>)
    requires
        registry.wf(),
    ensures
        match r {
            Ok(_) => good_name(name@) && !dir_exists && !registry@.contains_key(name@),
            Err(InitError::EmptyName) => name@.len() == 0,
            Err(InitError::BadName { name: n }) => name@.len() > 0 && !good_name(name@) && n@
                == name@,
            Err(InitError::DirExists { name: n }) => good_name(name@) && dir_exists && n@ == name@,
            Err(InitError::Registered { name: n }) => good_name(name@) && !dir_exists
                && registry@.contains_key(name@) && n@ == name@,
            Err(_) => false,
        },
{
    match validate_name(name) {
        Ok(_) => {},
        Err(e) => {
            return Err(e);
        },
    }
    if dir_exists {
        return Err(InitError::DirExists { name: name.to_string() });
    }
    if registry_has(name, registry) {
        return Err(InitError::Registered { name: name.to_string() });
    }
    Ok(())
}

// ---------------------------------------------------------------------
// The probe
// ---------------------------------------------------------------------

/// The last value that a line gives for a key; nothing, where none does.
pub open spec fn value_in(lines: Seq<Seq<char>>, key: Seq<char>) -> Seq<char>
    decreases lines.len(),
{
    if lines.len() == 0 {
        ""@
    } else {
        match cut_once(lines.last(), '=') {
            Some((k, v)) => if k == key {
                v
            } else {
                value_in(lines.drop_last(), key)
            },
            None => value_in(lines.drop_last(), key),
        }
    }
}

/// What a probe has to tell.
pub open spec fn probe_complete(stdout: Seq<char>) -> bool {
    let l = lines_of(stdout);
    value_in(l, "firmware"@).len() > 0 && value_in(l, "disk"@).len() > 0 && value_in(
        l,
        "disk_by_id"@,
    ).len() > 0
}

/// What a server is like, from what the probe printed there.
pub fn probe(stdout: &str) -> (r: Result<Probe, InitError>)
    ensures
        match r {
            Ok(p) => {
                let l = lines_of(stdout@);
                &&& probe_complete(stdout@)
                &&& p.firmware@ == value_in(l, "firmware"@)
                &&& p.disk@ == value_in(l, "disk"@)
                &&& p.disk_by_id@ == value_in(l, "disk_by_id"@)
                &&& p.disk_size@ == value_in(l, "disk_size"@)
                &&& p.os@ == value_in(l, "os"@)
            },
            Err(e) => !probe_complete(stdout@) && (e matches InitError::IncompleteProbe {
                stdout: t,
            } && t@ == stdout@),
        },
{
    let ls = lines(stdout);
    let ghost all = lines_of(stdout@);
    let mut p = Probe {
        firmware: "".to_string(),
        disk: "".to_string(),
        disk_by_id: "".to_string(),
        disk_size: "".to_string(),
        os: "".to_string(),
    };
    for i in 0..ls.len()
        invariant
            all == views(ls@),
            p.firmware@ == value_in(all.take(i as int), "firmware"@),
            p.disk@ == value_in(all.take(i as int), "disk"@),
            p.disk_by_id@ == value_in(all.take(i as int), "disk_by_id"@),
            p.disk_size@ == value_in(all.take(i as int), "disk_size"@),
            p.os@ == value_in(all.take(i as int), "os"@),
    {
        proof {
            assert(all[i as int] == ls@[i as int]@);
            assert(all.take(i + 1).drop_last() =~= all.take(i as int));
            reveal_strlit("firmware");
            reveal_strlit("disk");
            reveal_strlit("disk_by_id");
            reveal_strlit("disk_size");
            reveal_strlit("os");
            assert("firmware"@.len() == 8 && "disk"@.len() == 4 && "disk_by_id"@.len() == 10);
            assert("disk_size"@.len() == 9 && "os"@.len() == 2);
        }
        match split_once(ls[i].as_str(), '=') {
            Some((k, v)) => {
                if same(k, "firmware") {
                    p.firmware = v.to_string();
                } else if same(k, "disk") {
                    p.disk = v.to_string();
                } else if same(k, "disk_by_id") {
                    p.disk_by_id = v.to_string();
                } else if same(k, "disk_size") {
                    p.disk_size = v.to_string();
                } else if same(k, "os") {
                    p.os = v.to_string();
                }
            },
            None => {},
        }
    }
    proof {
        assert(all.take(ls@.len() as int) =~= all);
    }
    if p.firmware.as_str().is_empty() || p.disk.as_str().is_empty()
        || p.disk_by_id.as_str().is_empty() {
        return Err(InitError::IncompleteProbe { stdout: stdout.to_string() });
    }
    Ok(p)
}

/// The arguments of the `ssh` call that runs a script, which it is fed, on a
/// server.
pub fn ssh_exec(target: &str, ssh_key: Option<&str>) -> (r: Vec<String>)
    ensures
        views(r@) == seq![
            "-o"@,
            "StrictHostKeyChecking=accept-new"@,
            "-o"@,
            "ConnectTimeout=15"@,
            "-o"@,
            "BatchMode=yes"@,
        ] + (match ssh_key {
            Some(k) => seq!["-i"@, k@],
            None => Seq::empty(),
        }) + seq![target@, "bash"@, "-s"@],
{
    let mut r: Vec<String> = Vec::new();
    r.push("-o".to_string());
    r.push("StrictHostKeyChecking=accept-new".to_string());
    r.push("-o".to_string());
    r.push("ConnectTimeout=15".to_string());
    r.push("-o".to_string());
    r.push("BatchMode=yes".to_string());
    match ssh_key {
        Some(k) => {
            r.push("-i".to_string());
            r.push(k.to_string());
        },
        None => {},
    }
    r.push(target.to_string());
    r.push("bash".to_string());
    r.push("-s".to_string());
    proof {
        assert(views(r@) =~= seq![
            "-o"@,
            "StrictHostKeyChecking=accept-new"@,
            "-o"@,
            "ConnectTimeout=15"@,
            "-o"@,
            "BatchMode=yes"@,
        ] + (match ssh_key {
            Some(k) => seq!["-i"@, k@],
            None => Seq::empty(),
        }) + seq![target@, "bash"@, "-s"@]);
    }
    r
}

/// What the probe printed, where it ran through; `code` is its exit code.
pub fn probe_output(success: bool, code: &str, stdout: String, stderr: &str) -> (r: Result<
    String,
    InitError,
>)
    ensures
        match r {
            Ok(t) => success && t@ == stdout@,
            Err(e) => !success && (e matches InitError::SshExit { code: c, stderr: t } && c@
                == code@ && t@ == stderr@),
        },
{
    if success {
        Ok(stdout)
    } else {
        Err(InitError::SshExit { code: code.to_string(), stderr: stderr.to_string() })
    }
}

// ---------------------------------------------------------------------
// The key
// ---------------------------------------------------------------------

/// The public key to take: the one beside the key that is given, or that itself
/// where it is a public one; else the user's own.
pub fn pubkey_path(ssh_key: Option<&str>, home: &str) -> (r: String)
    ensures
        r@ == match ssh_key {
            Some(k) => if extension_of(k@) == Some("pub"@) {
                k@
            } else {
                k@ + ".pub"@
            },
            None => below(home@, ".ssh/id_ed25519.pub"@),
        },
{
    match ssh_key {
        Some(k) => {
            let is_pub = match extension(k) {
                Some(e) => same(e.as_str(), "pub"),
                None => false,
            };
            let mut s = k.to_string();
            if !is_pub {
                s.append(".pub");
            }
            s
        },
        None => join_path(home, ".ssh/id_ed25519.pub"),
    }
}

/// The key in a public key file, unless the file is blank.
pub fn read_pubkey(path: &str, content: &str) -> (r: Result<String, InitError>)
    ensures
        match r {
            Ok(k) => trimmed(content@).len() > 0 && k@ == trimmed(content@),
            Err(e) => trimmed(content@).len() == 0 && (e matches InitError::EmptyKey { path: p }
                && p@ == path@),
        },
{
    let key = trim(content);
    if key.is_empty() {
        Err(InitError::EmptyKey { path: path.to_string() })
    } else {
        Ok(key.to_string())
    }
}

/// The word at this place, or nothing.
pub open spec fn word_at(s: Seq<char>, n: int) -> Seq<char> {
    if n < words_of(s).len() {
        words_of(s)[n]
    } else {
        ""@
    }
}

/// The first 16 bytes of a text that has more, else the text.
pub open spec fn first_bytes(s: Seq<char>) -> Seq<char> {
    if byte_count(s) > 16 {
        decode_utf8(encode_utf8(s).subrange(0, 16))
    } else {
        s
    }
}

/// A text can be cut behind its first 16 bytes.
pub open spec fn cuts_at_16(s: Seq<char>) -> bool {
    byte_count(s) > 16 ==> is_char_boundary(encode_utf8(s), 16)
}

/// Whether a key can be shown in short: the cut falls between two characters.
pub fn previewable(pubkey: &str) -> (r: bool)
    ensures
        r == cuts_at_16(word_at(pubkey@, 1)),
{
    let body = match nth_word(pubkey, 1) {
        Some(w) => w,
        None => "",
    };
    body.len() <= 16 || body.is_char_boundary(16)
}

/// A key in short: its kind, and how it begins.
pub fn pubkey_preview(pubkey: &str) -> (r: String)
    requires
        cuts_at_16(word_at(pubkey@, 1)),
    ensures
        r@ == word_at(pubkey@, 0) + " "@ + first_bytes(word_at(pubkey@, 1)) + "…"@,
{
    let kind = match nth_word(pubkey, 0) {
        Some(w) => w,
        None => "",
    };
    let body = match nth_word(pubkey, 1) {
        Some(w) => w,
        None => "",
    };
    let short = if body.len() > 16 {
        let cut = body.split_at(16);
        proof {
            vstd::utf8::encode_utf8_decode_utf8(cut.0@);
        }
        cut.0
    } else {
        body
    };
    let mut s = kind.to_string();
    s.append(" ");
    s.append(short);
    s.append("…");
    s
}

// ---------------------------------------------------------------------
// The files of a server
// ---------------------------------------------------------------------

pub open spec fn uefi_disk_of(device: Seq<char>) -> Seq<char> {
    "{\n  boot.loader.systemd-boot.enable = true;\n  boot.loader.efi.canTouchEfiVariables = true;\n\n  disko.devices.disk.main = {\n    type = \"disk\";\n    device = \""@
        + device
        + "\";\n    content = {\n      type = \"gpt\";\n      partitions = {\n        boot = {\n          size = \"512M\";\n          type = \"EF00\";\n          content = {\n            type = \"filesystem\";\n            format = \"vfat\";\n            mountpoint = \"/boot\";\n          };\n        };\n        root = {\n          size = \"100%\";\n          content = {\n            type = \"filesystem\";\n            format = \"ext4\";\n            mountpoint = \"/\";\n          };\n        };\n      };\n    };\n  };\n}\n"@
}

/// The disk of a server that boots by UEFI.
pub fn uefi_disk_nix(device: &str) -> (r: String)
    ensures
        r@ == uefi_disk_of(device@),
{
    let mut s = "{\n  boot.loader.systemd-boot.enable = true;\n  boot.loader.efi.canTouchEfiVariables = true;\n\n  disko.devices.disk.main = {\n    type = \"disk\";\n    device = \"".to_string();
    s.append(device);
    s.append("\";\n    content = {\n      type = \"gpt\";\n      partitions = {\n        boot = {\n          size = \"512M\";\n          type = \"EF00\";\n          content = {\n            type = \"filesystem\";\n            format = \"vfat\";\n            mountpoint = \"/boot\";\n          };\n        };\n        root = {\n          size = \"100%\";\n          content = {\n            type = \"filesystem\";\n            format = \"ext4\";\n            mountpoint = \"/\";\n          };\n        };\n      };\n    };\n  };\n}\n");
    s
}

pub open spec fn bios_disk_of(device: Seq<char>) -> Seq<char> {
    "{\n  boot.loader.grub.enable = true;\n\n  disko.devices.disk.main = {\n    type = \"disk\";\n    device = \""@
        + device
        + "\";\n    content = {\n      type = \"gpt\";\n      partitions = {\n        bios = {\n          size = \"1M\";\n          type = \"EF02\";\n        };\n        root = {\n          size = \"100%\";\n          content = {\n            type = \"filesystem\";\n            format = \"ext4\";\n            mountpoint = \"/\";\n          };\n        };\n      };\n    };\n  };\n}\n"@
}

/// The disk of a server that boots by BIOS.
pub fn bios_disk_nix(device: &str) -> (r: String)
    ensures
        r@ == bios_disk_of(device@),
{
    let mut s = "{\n  boot.loader.grub.enable = true;\n\n  disko.devices.disk.main = {\n    type = \"disk\";\n    device = \"".to_string();
    s.append(device);
    s.append("\";\n    content = {\n      type = \"gpt\";\n      partitions = {\n        bios = {\n          size = \"1M\";\n          type = \"EF02\";\n        };\n        root = {\n          size = \"100%\";\n          content = {\n            type = \"filesystem\";\n            format = \"ext4\";\n            mountpoint = \"/\";\n          };\n        };\n      };\n    };\n  };\n}\n");
    s
}

/// The disk of a server.
pub fn disk_nix(probe: &Probe) -> (r: String)
    ensures
        r@ == if probe.firmware@ == "uefi"@ {
            uefi_disk_of(probe.disk_by_id@)
        } else {
            bios_disk_of(probe.disk_by_id@)
        },
{
    if same(probe.firmware.as_str(), "uefi") {
        uefi_disk_nix(probe.disk_by_id.as_str())
    } else {
        bios_disk_nix(probe.disk_by_id.as_str())
    }
}

pub open spec fn config_of(pubkey: Seq<char>) -> Seq<char> {
    "{pkgs, lib, ...}: {\n  vitro.server = {\n    enable = true;\n    user.authorizedKeys = [\n      \""@
        + pubkey
        + "\"\n    ];\n    gc.enable = true;\n  };\n}\n"@
}

/// The configuration of a server, which its first user reaches with a key.
pub fn config_nix(pubkey: &str) -> (r: String)
    ensures
        r@ == config_of(pubkey@),
{
    let mut s = "{pkgs, lib, ...}: {\n  vitro.server = {\n    enable = true;\n    user.authorizedKeys = [\n      \"".to_string();
    s.append(pubkey);
    s.append("\"\n    ];\n    gc.enable = true;\n  };\n}\n");
    s
}

pub open spec fn server_flake_of(name: Seq<char>, pubkey: Seq<char>) -> Seq<char> {
    "{\n  description = \""@
        + name
        + " — vitro server host\";\n\n  inputs = {\n    nixpkgs.url = \"github:NixOS/nixpkgs/nixpkgs-unstable\";\n    disko = {\n      url = \"github:nix-community/disko\";\n      inputs.nixpkgs.follows = \"nixpkgs\";\n    };\n    vitro.url = \"github:ixxie/vitro\";\n  };\n\n  outputs = {\n    self,\n    nixpkgs,\n    disko,\n    vitro,\n  }:\n    (vitro.lib.mkHost {inherit vitro nixpkgs disko;}) {\n      name = \""@
        + name
        + "\";\n      disk = ./hosts/"@
        + name
        + "/disk.nix;\n      sshPubkey = \""@
        + pubkey
        + "\";\n      config = ./hosts/"@
        + name
        + "/config.nix;\n    };\n}\n"@
}

/// The flake of a server.
pub fn flake_nix(name: &str, pubkey: &str) -> (r: String)
    ensures
        r@ == server_flake_of(name@, pubkey@),
{
    let mut s = "{\n  description = \"".to_string();
    s.append(name);
    s.append(" — vitro server host\";\n\n  inputs = {\n    nixpkgs.url = \"github:NixOS/nixpkgs/nixpkgs-unstable\";\n    disko = {\n      url = \"github:nix-community/disko\";\n      inputs.nixpkgs.follows = \"nixpkgs\";\n    };\n    vitro.url = \"github:ixxie/vitro\";\n  };\n\n  outputs = {\n    self,\n    nixpkgs,\n    disko,\n    vitro,\n  }:\n    (vitro.lib.mkHost {inherit vitro nixpkgs disko;}) {\n      name = \"");
    s.append(name);
    s.append("\";\n      disk = ./hosts/");
    s.append(name);
    s.append("/disk.nix;\n      sshPubkey = \"");
    s.append(pubkey);
    s.append("\";\n      config = ./hosts/");
    s.append(name);
    s.append("/config.nix;\n    };\n}\n");
    s
}

pub open spec fn wiring_of(name: Seq<char>, pubkey: Seq<char>) -> Seq<char> {
    "flake.nix already exists. Add these inputs (if not already present):\n\n    disko.url = \"github:nix-community/disko\";\n    disko.inputs.nixpkgs.follows = \"nixpkgs\";\n    vitro.url = \"github:ixxie/vitro\";\n\nAnd in outputs, alongside your existing nixosConfigurations:\n\n    nixosConfigurations."@
        + name
        + " =\n      (vitro.lib.mkHost {inherit vitro nixpkgs disko;}) {\n        name = \""@
        + name
        + "\";\n        disk = ./hosts/"@
        + name
        + "/disk.nix;\n        sshPubkey = \""@
        + pubkey
        + "\";\n        config = ./hosts/"@
        + name
        + "/config.nix;\n      };\n"@
}

/// What to add to a flake that is there already.
pub fn wiring_snippet(name: &str, pubkey: &str) -> (r: String)
    ensures
        r@ == wiring_of(name@, pubkey@),
{
    let mut s = "flake.nix already exists. Add these inputs (if not already present):\n\n    disko.url = \"github:nix-community/disko\";\n    disko.inputs.nixpkgs.follows = \"nixpkgs\";\n    vitro.url = \"github:ixxie/vitro\";\n\nAnd in outputs, alongside your existing nixosConfigurations:\n\n    nixosConfigurations.".to_string();
    s.append(name);
    s.append(" =\n      (vitro.lib.mkHost {inherit vitro nixpkgs disko;}) {\n        name = \"");
    s.append(name);
    s.append("\";\n        disk = ./hosts/");
    s.append(name);
    s.append("/disk.nix;\n        sshPubkey = \"");
    s.append(pubkey);
    s.append("\";\n        config = ./hosts/");
    s.append(name);
    s.append("/config.nix;\n      };\n");
    s
}

/// A file to write.
pub struct NewFile {
    pub path: String,
    pub text: String,
}

/// What setting up a server writes, in order, and what it says then.
pub struct Scaffold {
    pub dir: String,
    pub files: Vec<NewFile>,
    pub says: String,
}

/// What is said of the files of a server that has no flake yet.
pub open spec fn wrote_of(name: Seq<char>) -> Seq<char> {
    "wrote hosts/"@ + name + "/disk.nix\nwrote hosts/"@ + name + "/config.nix\n"@
}

/// What setting up a server writes: its disk and its configuration, and a flake
/// where there is none; a flake that is there is left alone, and it is said what
/// to add to it.
pub fn scaffold(cwd: &str, name: &str, probe: &Probe, pubkey: &str, has_flake: bool) -> (r:
    Scaffold)
    ensures
        r.dir@ == host_dir_of(cwd@, name@),
        r.files@.len() == if has_flake {
            2int
        } else {
            3int
        },
        r.files@[0].path@ == below(host_dir_of(cwd@, name@), "disk.nix"@),
        r.files@[0].text@ == if probe.firmware@ == "uefi"@ {
            uefi_disk_of(probe.disk_by_id@)
        } else {
            bios_disk_of(probe.disk_by_id@)
        },
        r.files@[1].path@ == below(host_dir_of(cwd@, name@), "config.nix"@),
        r.files@[1].text@ == config_of(pubkey@),
        !has_flake ==> r.files@[2].path@ == below(cwd@, "flake.nix"@) && r.files@[2].text@
            == server_flake_of(name@, pubkey@),
        r.says@ == if has_flake {
            wrote_of(name@) + "\n"@ + wiring_of(name@, pubkey@)
        } else {
            "wrote flake.nix\n"@ + wrote_of(name@)
        },
{
    let dir = host_dir(cwd, name);
    let mut files: Vec<NewFile> = Vec::new();
    files.push(NewFile { path: join_path(dir.as_str(), "disk.nix"), text: disk_nix(probe) });
    files.push(NewFile { path: join_path(dir.as_str(), "config.nix"), text: config_nix(pubkey) });
    let mut wrote = "wrote hosts/".to_string();
    wrote.append(name);
    wrote.append("/disk.nix\nwrote hosts/");
    wrote.append(name);
    wrote.append("/config.nix\n");
    let says = if has_flake {
        wrote.append("\n");
        wrote.append(wiring_snippet(name, pubkey).as_str());
        wrote
    } else {
        files.push(NewFile { path: join_path(cwd, "flake.nix"), text: flake_nix(name, pubkey) });
        let mut s = "wrote flake.nix\n".to_string();
        s.append(wrote.as_str());
        s
    };
    Scaffold { dir, files, says }
}

// ---------------------------------------------------------------------
// What is said
// ---------------------------------------------------------------------

/// What is said of a server that was probed.
pub open spec fn report_of(p: Probe, preview: Seq<char>) -> Seq<char> {
    "  firmware: "@ + p.firmware@ + "\n  disk:     "@ + p.disk_by_id@ + " ("@ + p.disk_size@ + ")\n"@
        + (if p.disk_by_id@ == p.disk@ {
        "            (no /dev/disk/by-id symlink; path may be unstable)\n"@
    } else {
        ""@
    }) + "  os:       "@ + p.os@ + "\n  ssh key:  "@ + preview + "\n"@ + (if p.os@ != "nixos"@ {
        "\n⚠ this host is NOT running NixOS (detected: "@ + p.os@
            + ").\n  `vitro server deploy` will use nixos-anywhere to install NixOS.\n  The existing root disk WILL BE WIPED.\n\n"@
    } else {
        ""@
    })
}

/// What is said of a server that was probed: a disk path that may change, and a
/// disk that an install will wipe, are warned of.
pub fn report(p: &Probe, preview: &str) -> (r: String)
    ensures
        r@ == report_of(*p, preview@),
{
    let mut s = "  firmware: ".to_string();
    s.append(p.firmware.as_str());
    s.append("\n  disk:     ");
    s.append(p.disk_by_id.as_str());
    s.append(" (");
    s.append(p.disk_size.as_str());
    s.append(")\n");
    let unstable = if same(p.disk_by_id.as_str(), p.disk.as_str()) {
        "            (no /dev/disk/by-id symlink; path may be unstable)\n"
    } else {
        ""
    };
    s.append(unstable);
    s.append("  os:       ");
    s.append(p.os.as_str());
    s.append("\n  ssh key:  ");
    s.append(preview);
    s.append("\n");
    let mut wiped = "".to_string();
    if !same(p.os.as_str(), "nixos") {
        wiped = "\n⚠ this host is NOT running NixOS (detected: ".to_string();
        wiped.append(p.os.as_str());
        wiped.append(
            ").\n  `vitro server deploy` will use nixos-anywhere to install NixOS.\n  The existing root disk WILL BE WIPED.\n\n",
        );
    }
    s.append(wiped.as_str());
    s
}

/// What is said once a server is set up.
pub open spec fn farewell_of(name: Seq<char>, target: Seq<char>, os: Seq<char>) -> Seq<char> {
    "\nregistered '"@ + name + "' → "@ + target + " in ~/.config/vitro/servers.toml\n\n"@ + (if os
        == "nixos"@ {
        "next: vitro server deploy\n"@
    } else {
        "next: vitro server deploy  (will reinstall the target as NixOS)\n"@
    })
}

/// What is said once a server is set up.
pub fn farewell(name: &str, target: &str, probe: &Probe) -> (r: String)
    ensures
        r@ == farewell_of(name@, target@, probe.os@),
{
    let mut s = "\nregistered '".to_string();
    s.append(name);
    s.append("' → ");
    s.append(target);
    s.append(" in ~/.config/vitro/servers.toml\n\n");
    let next = if same(probe.os.as_str(), "nixos") {
        "next: vitro server deploy\n"
    } else {
        "next: vitro server deploy  (will reinstall the target as NixOS)\n"
    };
    s.append(next);
    s
}

// ---------------------------------------------------------------------
// The registry
// ---------------------------------------------------------------------

/// The registry with a server more.
pub open spec fn registry_with(existing: Seq<char>, name: Seq<char>, target: Seq<char>) -> Seq<char> {
    existing + (if existing.len() == 0 || existing.last() == '\n' {
        ""@
    } else {
        "\n"@
    }) + "["@ + name + "]\ntarget = \""@ + target + "\"\n"@
}

/// The registry with a server more, in a section of its own.
pub fn append_registry(existing: &str, name: &str, target: &str) -> (r: String)
    ensures
        r@ == registry_with(existing@, name@, target@),
{
    proof {
        reveal_strlit("\n");
        assert("\n"@ =~= seq!['\n']);
        assert(existing@.len() > 0 ==> existing@.skip(existing@.len() - 1) =~= seq![existing@.last()]);
        if existing@.len() > 0 && existing@.last() != '\n' {
            assert(existing@.skip(existing@.len() - 1)[0] != "\n"@[0]);
        }
    }
    let mut s = existing.to_string();
    let sep = if existing.is_empty() || ends_with(existing, "\n") {
        ""
    } else {
        "\n"
    };
    s.append(sep);
    s.append("[");
    s.append(name);
    s.append("]\ntarget = \"");
    s.append(target);
    s.append("\"\n");
    s
}

/// A server that is registered adds two lines, its section and its target, behind
/// all the lines that were there.
pub proof fn law_registered_in_a_section(existing: Seq<char>, name: Seq<char>, target: Seq<char>)
    requires
        !name.contains('\n'),
        !target.contains('\n'),
        existing.len() > 0 && existing.last() != '\n' ==> existing.last() != '\r',
    ensures
        lines_of(registry_with(existing, name, target)) == lines_of(existing) + seq![
            "["@ + name + "]"@,
            "target = \""@ + target + "\""@,
        ],
{
    reveal_strlit("\n");
    reveal_strlit("");
    reveal_strlit("[");
    reveal_strlit("]");
    reveal_strlit("]\ntarget = \"");
    reveal_strlit("target = \"");
    reveal_strlit("\"");
    reveal_strlit("\"\n");
    let nl = seq!['\n'];
    let a = "["@ + name + "]"@;
    let b = "target = \""@ + target + "\""@;
    assert("]\ntarget = \""@ =~= "]"@ + nl + "target = \""@);
    assert("\"\n"@ =~= "\""@ + nl);
    let base = if existing.len() == 0 || existing.last() == '\n' {
        existing
    } else {
        existing + nl
    };
    assert forall|i: int| 0 <= i < a.len() implies #[trigger] a[i] != '\n' by {
        if 0 < i && i < a.len() - 1 {
            assert(a[i] == name[i - 1]);
            assert(name.contains(name[i - 1]));
        }
    }
    assert forall|i: int| 0 <= i < b.len() implies #[trigger] b[i] != '\n' by {
        if i < 10 {
            assert(b[i] == "target = \""@[i]);
            assert(i == 0 || i == 1 || i == 2 || i == 3 || i == 4 || i == 5 || i == 6 || i == 7 || i
                == 8 || i == 9);
        } else if i < b.len() - 1 {
            assert(b[i] == target[i - 10]);
            assert(target.contains(target[i - 10]));
        }
    }
    assert(registry_with(existing, name, target) =~= base + a + nl + b + nl);
    lemma_lines_one_more(base, a);
    lemma_lines_one_more(base + a + nl, b);
    assert(without_cr(a) == a);
    assert(without_cr(b) == b);
    if base != existing {
        lemma_closing_newline(existing);
    }
    assert(lines_of(existing).push(a).push(b) =~= lines_of(existing) + seq![a, b]);
}

/// Ending the last line changes no line.
proof fn lemma_closing_newline(s: Seq<char>)
    requires
        s.len() > 0,
        s.last() != '\n',
        s.last() != '\r',
    ensures
        lines_of(s + seq!['\n']) == lines_of(s),
{
    let sep = crate::text::is_char('\n');
    let nl = seq!['\n'];
    let t = s + nl;
    let p = crate::text::pieces(s, sep);
    let pt = crate::text::pieces(t, sep);
    let e = Seq::<char>::empty();
    let f = |l: Seq<char>| without_cr(l);
    crate::text::lemma_pieces_nonempty(s, sep);
    crate::text::lemma_pieces_nonempty(s.drop_last(), sep);
    assert(t.drop_last() =~= s);
    assert(t.last() == '\n');
    assert(pt == p.push(e));
    assert(pt.drop_last() =~= p);
    let front = crate::text::pieces(s.drop_last(), sep);
    assert(p.last() == front.last().push(s.last()));
    assert(p.last().last() == s.last());
    assert(without_cr(p.last()) == p.last());
    assert(lines_of(t) =~= p.map_values(f));
    assert(p.map_values(f) =~= p.drop_last().map_values(f) + seq![p.last()]);
}

} // verus!
