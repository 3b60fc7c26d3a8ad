use vstd::prelude::*;

use vstd::utf8::{encode_utf8, is_ascii_chars};

use crate::laws::lemma_views;
use crate::path::{below, extension_of};
use crate::server::Registry;
use crate::server_init::{
    append_registry, bios_disk_nix, config_nix, disk_nix, farewell, flake_nix, host_dir,
    law_registered_in_a_section, may_set_up, previewable, probe, probe_output, pubkey_path,
    pubkey_preview, read_pubkey, registry_has, report, scaffold, ssh_exec, uefi_disk_nix,
    validate_name, value_in, wiring_snippet, InitError, Probe, Scaffold,
};
use crate::text::{
    begins, cut_once, ends, holds, lemma_char_from, lemma_cut_once, lines_of, occurs_at, trimmed,
    words_of,
};

verus! {

// ---------------------------------------------------------------------
// Texts
// ---------------------------------------------------------------------

/// What stands where one text ends and another begins.
pub proof fn lemma_spliced(a: Seq<char>, v: Seq<char>, b: Seq<char>, s: Seq<char>, t: Seq<char>)
    requires
        ends(a, s),
        begins(b, t),
    ensures
        holds(a + v + b, s + v + t),
{
    let all = a + v + b;
    let i = a.len() - s.len();
    assert(a.skip(i) =~= s);
    assert(b.take(t.len() as int) =~= t);
    assert(all.subrange(i, i + (s + v + t).len()) =~= s + v + t);
    assert(occurs_at(all, s + v + t, i));
}

/// A text holds what its beginning holds.
pub proof fn lemma_holds_more(a: Seq<char>, b: Seq<char>, s: Seq<char>)
    requires
        holds(a, s),
    ensures
        holds(a + b, s),
{
    let i = choose|i: int| #[trigger] occurs_at(a, s, i);
    assert((a + b).subrange(i, i + s.len()) =~= a.subrange(i, i + s.len()));
    assert(occurs_at(a + b, s, i));
}

/// A text ends as its last part does.
pub proof fn lemma_ends_more(a: Seq<char>, b: Seq<char>, s: Seq<char>)
    requires
        ends(b, s),
    ensures
        ends(a + b, s),
{
    assert((a + b).skip((a + b).len() - s.len()) =~= b.skip(b.len() - s.len()));
}

// ---------------------------------------------------------------------
// Names
// ---------------------------------------------------------------------

/// A server can have a name of letters, digits, hyphens and underscores, and no
/// other. It is set up under the name where nothing has it yet: no directory, and
/// no known server.
pub proof fn law_names_of_servers(
    name: &str,
    dir: bool,
    registry: &Registry,
    valid: Result<(), InitError>,
    known: bool,
    r: Result<(), InitError>,
)
    requires
        registry.wf(),
        call_ensures(validate_name, (name,), valid),
        call_ensures(registry_has, (name, registry), known),
        call_ensures(may_set_up, (name, dir, registry), r),
    ensures
        valid is Ok <==> name@.len() > 0 && forall|i: int|
            0 <= i < name@.len() ==> 'a' <= #[trigger] name@[i] <= 'z' || 'A' <= name@[i] <= 'Z'
                || '0' <= name@[i] <= '9' || name@[i] == '-' || name@[i] == '_',
        known <==> registry@.contains_key(name@),
        r is Ok <==> valid is Ok && !dir && !known,
        valid is Err && name@.len() == 0 ==> valid->Err_0 is EmptyName && r->Err_0 is EmptyName,
        valid is Err && name@.len() > 0 ==> (valid->Err_0 matches InitError::BadName { name: n }
            && n@ == name@) && (r->Err_0 matches InitError::BadName { name: n } && n@ == name@),
        valid is Ok && dir ==> (r matches Err(InitError::DirExists { name: n }) && n@ == name@),
        valid is Ok && !dir && known ==> (r matches Err(InitError::Registered { name: n }) && n@
            == name@),
{
}

// ---------------------------------------------------------------------
// The probe
// ---------------------------------------------------------------------

/// The last of the lines that begin with the key and `=` goes on with this value.
pub open spec fn tells(lines: Seq<Seq<char>>, key: Seq<char>, value: Seq<char>) -> bool {
    exists|i: int|
        0 <= i < lines.len() && #[trigger] lines[i] == key + seq!['='] + value && forall|j: int|
            i < j < lines.len() ==> !begins(#[trigger] lines[j], key + seq!['='])
}

/// No line begins with the key and `=`.
pub open spec fn silent(lines: Seq<Seq<char>>, key: Seq<char>) -> bool {
    forall|j: int| 0 <= j < lines.len() ==> !begins(#[trigger] lines[j], key + seq!['='])
}

proof fn lemma_line(line: Seq<char>, key: Seq<char>)
    requires
        !key.contains('='),
    ensures
        begins(line, key + seq!['=']) <==> (cut_once(line, '=') matches Some((k, _)) && k == key),
        begins(line, key + seq!['=']) ==> line == key + seq!['='] + line.skip(key.len() as int + 1)
            && cut_once(line, '=') == Some((key, line.skip(key.len() as int + 1))),
{
    if begins(line, key + seq!['=']) {
        let v = line.skip(key.len() as int + 1);
        assert(line.take(key.len() as int + 1) =~= key + seq!['=']);
        assert(line =~= key + seq!['='] + v);
        lemma_cut_once(key, '=', v);
    } else if cut_once(line, '=') is Some {
        lemma_char_from(line, '=', 0);
        let (k, v) = cut_once(line, '=')->0;
        if k == key {
            assert(line.take(key.len() as int + 1) =~= key + seq!['=']);
        }
    }
}

proof fn lemma_value_in(lines: Seq<Seq<char>>, key: Seq<char>, value: Seq<char>)
    requires
        !key.contains('='),
    ensures
        tells(lines, key, value) ==> value_in(lines, key) == value,
        silent(lines, key) ==> value_in(lines, key) == ""@,
    decreases lines.len(),
{
    if lines.len() > 0 {
        let front = lines.drop_last();
        lemma_line(lines.last(), key);
        if silent(lines, key) {
            assert(!begins(lines[lines.len() - 1], key + seq!['=']));
            assert forall|j: int| 0 <= j < front.len() implies !begins(
                #[trigger] front[j],
                key + seq!['='],
            ) by {
                assert(front[j] == lines[j]);
            }
            lemma_value_in(front, key, value);
        }
        if tells(lines, key, value) {
            let i = choose|i: int|
                0 <= i < lines.len() && #[trigger] lines[i] == key + seq!['='] + value && forall|
                    j: int,
                |
                    i < j < lines.len() ==> !begins(#[trigger] lines[j], key + seq!['=']);
            let line = lines[i];
            assert(line.take(key.len() as int + 1) =~= key + seq!['=']);
            assert(line.skip(key.len() as int + 1) =~= value);
            if i < front.len() {
                assert(!begins(lines[lines.len() - 1], key + seq!['=']));
                assert(front[i] == lines[i]);
                assert forall|j: int| i < j < front.len() implies !begins(
                    #[trigger] front[j],
                    key + seq!['='],
                ) by {
                    assert(front[j] == lines[j]);
                }
                assert(tells(front, key, value));
                lemma_value_in(front, key, value);
            }
        }
    }
}

/// Each thing that the probe tells is found under its own key, the last one that
/// is told. Without the firmware, the disk and its stable path, the probe is
/// incomplete; the size and the system may be missing.
pub proof fn law_probe_is_read(
    stdout: &str,
    r: Result<Probe, InitError>,
    firmware: Seq<char>,
    disk: Seq<char>,
    by_id: Seq<char>,
    size: Seq<char>,
    os: Seq<char>,
)
    requires
        call_ensures(probe, (stdout,), r),
        tells(lines_of(stdout@), "firmware"@, firmware),
        tells(lines_of(stdout@), "disk"@, disk),
        tells(lines_of(stdout@), "disk_by_id"@, by_id),
    ensures
        r is Ok <==> firmware.len() > 0 && disk.len() > 0 && by_id.len() > 0,
        r matches Ok(p) ==> {
            &&& p.firmware@ == firmware
            &&& p.disk@ == disk
            &&& p.disk_by_id@ == by_id
            &&& tells(lines_of(stdout@), "disk_size"@, size) ==> p.disk_size@ == size
            &&& tells(lines_of(stdout@), "os"@, os) ==> p.os@ == os
            &&& silent(lines_of(stdout@), "disk_size"@) ==> p.disk_size@ == ""@
            &&& silent(lines_of(stdout@), "os"@) ==> p.os@ == ""@
        },
        r matches Err(e) ==> (e matches InitError::IncompleteProbe { stdout: t } && t@ == stdout@),
{
    lemma_keys();
    let l = lines_of(stdout@);
    lemma_value_in(l, "firmware"@, firmware);
    lemma_value_in(l, "disk"@, disk);
    lemma_value_in(l, "disk_by_id"@, by_id);
    lemma_value_in(l, "disk_size"@, size);
    lemma_value_in(l, "os"@, os);
}

/// A probe that tells nothing of the firmware, the disk or its path is incomplete.
pub proof fn law_probe_is_complete(stdout: &str, r: Result<Probe, InitError>)
    requires
        call_ensures(probe, (stdout,), r),
        silent(lines_of(stdout@), "firmware"@) || silent(lines_of(stdout@), "disk"@) || silent(
            lines_of(stdout@),
            "disk_by_id"@,
        ),
    ensures
        r matches Err(InitError::IncompleteProbe { stdout: t }) && t@ == stdout@,
{
    lemma_keys();
    reveal_strlit("");
    let l = lines_of(stdout@);
    lemma_value_in(l, "firmware"@, ""@);
    lemma_value_in(l, "disk"@, ""@);
    lemma_value_in(l, "disk_by_id"@, ""@);
}

proof fn lemma_keys()
    ensures
        !"firmware"@.contains('='),
        !"disk"@.contains('='),
        !"disk_by_id"@.contains('='),
        !"disk_size"@.contains('='),
        !"os"@.contains('='),
{
    reveal_strlit("firmware");
    reveal_strlit("disk");
    reveal_strlit("disk_by_id");
    reveal_strlit("disk_size");
    reveal_strlit("os");
    assert("firmware"@ =~= seq!['f', 'i', 'r', 'm', 'w', 'a', 'r', 'e']);
    assert("disk"@ =~= seq!['d', 'i', 's', 'k']);
    assert("disk_by_id"@ =~= seq!['d', 'i', 's', 'k', '_', 'b', 'y', '_', 'i', 'd']);
    assert("disk_size"@ =~= seq!['d', 'i', 's', 'k', '_', 's', 'i', 'z', 'e']);
    assert("os"@ =~= seq!['o', 's']);
}

/// The script is fed to a shell on the target, with the key that is given; nobody is
/// asked for anything. What it prints is taken only where it ran through.
pub proof fn law_probe_runs(
    target: &str,
    key: Option<&str>,
    args: Vec<String>,
    success: bool,
    code: &str,
    stdout: String,
    stderr: &str,
    r: Result<String, InitError>,
)
    requires
        call_ensures(ssh_exec, (target, key), args),
        call_ensures(probe_output, (success, code, stdout, stderr), r),
    ensures
        ({
            let n = args@.len() as int;
            &&& n == if key is Some {
                11int
            } else {
                9int
            }
            &&& args@[0]@ == "-o"@ && args@[1]@ == "StrictHostKeyChecking=accept-new"@
            &&& args@[2]@ == "-o"@ && args@[3]@ == "ConnectTimeout=15"@
            &&& args@[4]@ == "-o"@ && args@[5]@ == "BatchMode=yes"@
            &&& key matches Some(k) ==> args@[6]@ == "-i"@ && args@[7]@ == k@
            &&& args@[n - 3]@ == target@
            &&& args@[n - 2]@ == "bash"@ && args@[n - 1]@ == "-s"@
        }),
        r is Ok <==> success,
        r matches Ok(t) ==> t@ == stdout@,
        r matches Err(e) ==> (e matches InitError::SshExit { code: c, stderr: t } && c@ == code@
            && t@ == stderr@),
{
    lemma_views(args@);
}

// ---------------------------------------------------------------------
// The key
// ---------------------------------------------------------------------

/// The key that is given decides which public key is taken: the one beside it, or
/// itself where it is public. Only without one it is that of the home. A file
/// without a key is refused.
pub proof fn law_public_key(
    key: Option<&str>,
    home: &str,
    path: String,
    content: &str,
    file: &str,
    r: Result<String, InitError>,
)
    requires
        call_ensures(pubkey_path, (key, home), path),
        call_ensures(read_pubkey, (file, content), r),
    ensures
        key is None ==> path@ == below(home@, ".ssh/id_ed25519.pub"@),
        key matches Some(k) ==> path@ == k@ || path@ == k@ + ".pub"@,
        key matches Some(k) ==> (path@ == k@ <==> extension_of(k@) == Some("pub"@)),
        r is Ok <==> trimmed(content@).len() > 0,
        r matches Ok(k) ==> k@ == trimmed(content@),
        r matches Err(e) ==> (e matches InitError::EmptyKey { path: p } && p@ == file@),
{
    reveal_strlit(".pub");
    if key is Some {
        assert((key->0@ + ".pub"@).len() == key->0@.len() + 4);
    }
}

/// A key is shown by its kind and at most the first sixteen characters of what
/// follows it.
pub proof fn law_key_in_short(
    key: &str,
    kind: Seq<char>,
    body: Seq<char>,
    rest: Seq<Seq<char>>,
    can: bool,
    r: String,
)
    requires
        words_of(key@) == seq![kind, body] + rest,
        is_ascii_chars(body),
        body.len() <= usize::MAX,
        call_ensures(previewable, (key,), can),
        call_ensures(pubkey_preview, (key,), r),
    ensures
        body.len() <= 16 ==> can,
        r@ == kind + " "@ + (if body.len() > 16 {
            body.take(16)
        } else {
            body
        }) + "…"@,
{
    vstd::utf8::is_ascii_chars_encode_utf8(body);
    assert(words_of(key@)[0] == kind && words_of(key@)[1] == body);
    if body.len() > 16 {
        let short = body.take(16);
        assert(is_ascii_chars(short)) by {
            assert forall|i: int| 0 <= i < short.len() implies '\0' <= #[trigger] short[i]
                <= '\u{7f}' by {
                assert(short[i] == body[i]);
            }
        }
        vstd::utf8::is_ascii_chars_encode_utf8(short);
        assert(encode_utf8(short) =~= encode_utf8(body).subrange(0, 16));
        vstd::utf8::encode_utf8_decode_utf8(short);
    }
}

// ---------------------------------------------------------------------
// The files
// ---------------------------------------------------------------------

/// A server that boots by UEFI gets the loader for it, any other the one for BIOS,
/// and both the disk that the probe found, under its stable path.
pub proof fn law_disk_of_server(
    p: &Probe,
    device: &str,
    text: String,
    uefi: String,
    bios: String,
)
    requires
        device@ == p.disk_by_id@,
        call_ensures(disk_nix, (p,), text),
        call_ensures(uefi_disk_nix, (device,), uefi),
        call_ensures(bios_disk_nix, (device,), bios),
    ensures
        p.firmware@ == "uefi"@ ==> text@ == uefi@,
        p.firmware@ != "uefi"@ ==> text@ == bios@,
        begins(uefi@, "{\n  boot.loader.systemd-boot.enable = true;\n"@),
        begins(bios@, "{\n  boot.loader.grub.enable = true;\n"@),
        holds(uefi@, "    device = \""@ + device@ + "\";\n"@),
        holds(bios@, "    device = \""@ + device@ + "\";\n"@),
{
    lemma_uefi(device@, uefi@);
    lemma_bios(device@, bios@);
}

proof fn lemma_uefi(device: Seq<char>, text: Seq<char>)
    requires
        text == "{\n  boot.loader.systemd-boot.enable = true;\n  boot.loader.efi.canTouchEfiVariables = true;\n\n  disko.devices.disk.main = {\n    type = \"disk\";\n    device = \""@ + device + "\";\n    content = {\n      type = \"gpt\";\n      partitions = {\n        boot = {\n          size = \"512M\";\n          type = \"EF00\";\n          content = {\n            type = \"filesystem\";\n            format = \"vfat\";\n            mountpoint = \"/boot\";\n          };\n        };\n        root = {\n          size = \"100%\";\n          content = {\n            type = \"filesystem\";\n            format = \"ext4\";\n            mountpoint = \"/\";\n          };\n        };\n      };\n    };\n  };\n}\n"@,
    ensures
        begins(text, "{\n  boot.loader.systemd-boot.enable = true;\n"@),
        holds(text, "    device = \""@ + device + "\";\n"@),
{
    reveal_strlit("{\n  boot.loader.systemd-boot.enable = true;\n  boot.loader.efi.canTouchEfiVariables = true;\n\n  disko.devices.disk.main = {\n    type = \"disk\";\n    device = \"");
    reveal_strlit("\";\n    content = {\n      type = \"gpt\";\n      partitions = {\n        boot = {\n          size = \"512M\";\n          type = \"EF00\";\n          content = {\n            type = \"filesystem\";\n            format = \"vfat\";\n            mountpoint = \"/boot\";\n          };\n        };\n        root = {\n          size = \"100%\";\n          content = {\n            type = \"filesystem\";\n            format = \"ext4\";\n            mountpoint = \"/\";\n          };\n        };\n      };\n    };\n  };\n}\n");
    reveal_strlit("{\n  boot.loader.systemd-boot.enable = true;\n");
    reveal_strlit("    device = \"");
    reveal_strlit("\";\n");
    assert("{\n  boot.loader.systemd-boot.enable = true;\n  boot.loader.efi.canTouchEfiVariables = true;\n\n  disko.devices.disk.main = {\n    type = \"disk\";\n    device = \""@.skip(141) =~= "    device = \""@);
    assert("\";\n    content = {\n      type = \"gpt\";\n      partitions = {\n        boot = {\n          size = \"512M\";\n          type = \"EF00\";\n          content = {\n            type = \"filesystem\";\n            format = \"vfat\";\n            mountpoint = \"/boot\";\n          };\n        };\n        root = {\n          size = \"100%\";\n          content = {\n            type = \"filesystem\";\n            format = \"ext4\";\n            mountpoint = \"/\";\n          };\n        };\n      };\n    };\n  };\n}\n"@.take(3) =~= "\";\n"@);
    assert("{\n  boot.loader.systemd-boot.enable = true;\n  boot.loader.efi.canTouchEfiVariables = true;\n\n  disko.devices.disk.main = {\n    type = \"disk\";\n    device = \""@.take(44) =~= "{\n  boot.loader.systemd-boot.enable = true;\n"@);
    assert(text.take(44) =~= "{\n  boot.loader.systemd-boot.enable = true;\n"@);
    lemma_spliced("{\n  boot.loader.systemd-boot.enable = true;\n  boot.loader.efi.canTouchEfiVariables = true;\n\n  disko.devices.disk.main = {\n    type = \"disk\";\n    device = \""@, device, "\";\n    content = {\n      type = \"gpt\";\n      partitions = {\n        boot = {\n          size = \"512M\";\n          type = \"EF00\";\n          content = {\n            type = \"filesystem\";\n            format = \"vfat\";\n            mountpoint = \"/boot\";\n          };\n        };\n        root = {\n          size = \"100%\";\n          content = {\n            type = \"filesystem\";\n            format = \"ext4\";\n            mountpoint = \"/\";\n          };\n        };\n      };\n    };\n  };\n}\n"@, "    device = \""@, "\";\n"@);
}

proof fn lemma_bios(device: Seq<char>, text: Seq<char>)
    requires
        text == "{\n  boot.loader.grub.enable = true;\n\n  disko.devices.disk.main = {\n    type = \"disk\";\n    device = \""@ + device + "\";\n    content = {\n      type = \"gpt\";\n      partitions = {\n        bios = {\n          size = \"1M\";\n          type = \"EF02\";\n        };\n        root = {\n          size = \"100%\";\n          content = {\n            type = \"filesystem\";\n            format = \"ext4\";\n            mountpoint = \"/\";\n          };\n        };\n      };\n    };\n  };\n}\n"@,
    ensures
        begins(text, "{\n  boot.loader.grub.enable = true;\n"@),
        holds(text, "    device = \""@ + device + "\";\n"@),
{
    reveal_strlit("{\n  boot.loader.grub.enable = true;\n\n  disko.devices.disk.main = {\n    type = \"disk\";\n    device = \"");
    reveal_strlit("\";\n    content = {\n      type = \"gpt\";\n      partitions = {\n        bios = {\n          size = \"1M\";\n          type = \"EF02\";\n        };\n        root = {\n          size = \"100%\";\n          content = {\n            type = \"filesystem\";\n            format = \"ext4\";\n            mountpoint = \"/\";\n          };\n        };\n      };\n    };\n  };\n}\n");
    reveal_strlit("{\n  boot.loader.grub.enable = true;\n");
    reveal_strlit("    device = \"");
    reveal_strlit("\";\n");
    assert("{\n  boot.loader.grub.enable = true;\n\n  disko.devices.disk.main = {\n    type = \"disk\";\n    device = \""@.skip(86) =~= "    device = \""@);
    assert("\";\n    content = {\n      type = \"gpt\";\n      partitions = {\n        bios = {\n          size = \"1M\";\n          type = \"EF02\";\n        };\n        root = {\n          size = \"100%\";\n          content = {\n            type = \"filesystem\";\n            format = \"ext4\";\n            mountpoint = \"/\";\n          };\n        };\n      };\n    };\n  };\n}\n"@.take(3) =~= "\";\n"@);
    assert("{\n  boot.loader.grub.enable = true;\n\n  disko.devices.disk.main = {\n    type = \"disk\";\n    device = \""@.take(36) =~= "{\n  boot.loader.grub.enable = true;\n"@);
    assert(text.take(36) =~= "{\n  boot.loader.grub.enable = true;\n"@);
    lemma_spliced("{\n  boot.loader.grub.enable = true;\n\n  disko.devices.disk.main = {\n    type = \"disk\";\n    device = \""@, device, "\";\n    content = {\n      type = \"gpt\";\n      partitions = {\n        bios = {\n          size = \"1M\";\n          type = \"EF02\";\n        };\n        root = {\n          size = \"100%\";\n          content = {\n            type = \"filesystem\";\n            format = \"ext4\";\n            mountpoint = \"/\";\n          };\n        };\n      };\n    };\n  };\n}\n"@, "    device = \""@, "\";\n"@);
}

/// The key is the one with which the server lets its user in.
pub proof fn law_key_lets_in(key: &str, text: String)
    requires
        call_ensures(config_nix, (key,), text),
    ensures
        holds(text@, "user.authorizedKeys = [\n      \""@ + key@ + "\"\n    ];\n"@),
{
    reveal_strlit("{pkgs, lib, ...}: {\n  vitro.server = {\n    enable = true;\n    user.authorizedKeys = [\n      \"");
    reveal_strlit("\"\n    ];\n    gc.enable = true;\n  };\n}\n");
    reveal_strlit("user.authorizedKeys = [\n      \"");
    reveal_strlit("\"\n    ];\n");
    assert("{pkgs, lib, ...}: {\n  vitro.server = {\n    enable = true;\n    user.authorizedKeys = [\n      \""@.skip(62) =~= "user.authorizedKeys = [\n      \""@);
    assert("\"\n    ];\n    gc.enable = true;\n  };\n}\n"@.take(9) =~= "\"\n    ];\n"@);
    lemma_spliced("{pkgs, lib, ...}: {\n  vitro.server = {\n    enable = true;\n    user.authorizedKeys = [\n      \""@, key@, "\"\n    ];\n    gc.enable = true;\n  };\n}\n"@, "user.authorizedKeys = [\n      \""@, "\"\n    ];\n"@);
}

/// The flake of a server names it, its key, and the two files that are written for
/// it.
pub proof fn law_flake_of_server(name: &str, key: &str, text: String)
    requires
        call_ensures(flake_nix, (name, key), text),
    ensures
        holds(text@, "      name = \""@ + name@ + "\";\n"@),
        holds(text@, "      disk = ./hosts/"@ + name@ + "/disk.nix;\n"@),
        holds(text@, "      sshPubkey = \""@ + key@ + "\";\n"@),
        holds(text@, "      config = ./hosts/"@ + name@ + "/config.nix;\n"@),
{
    reveal_strlit("      name = \"");
    reveal_strlit("\";\n");
    reveal_strlit("      disk = ./hosts/");
    reveal_strlit("/disk.nix;\n");
    reveal_strlit("      sshPubkey = \"");
    reveal_strlit("      config = ./hosts/");
    reveal_strlit("/config.nix;\n");
    reveal_strlit("{\n  description = \"");
    reveal_strlit(" — vitro server host\";\n\n  inputs = {\n    nixpkgs.url = \"github:NixOS/nixpkgs/nixpkgs-unstable\";\n    disko = {\n      url = \"github:nix-community/disko\";\n      inputs.nixpkgs.follows = \"nixpkgs\";\n    };\n    vitro.url = \"github:ixxie/vitro\";\n  };\n\n  outputs = {\n    self,\n    nixpkgs,\n    disko,\n    vitro,\n  }:\n    (vitro.lib.mkHost {inherit vitro nixpkgs disko;}) {\n      name = \"");
    reveal_strlit("\";\n      disk = ./hosts/");
    reveal_strlit("/disk.nix;\n      sshPubkey = \"");
    reveal_strlit("\";\n      config = ./hosts/");
    reveal_strlit("/config.nix;\n    };\n}\n");
    assert(" — vitro server host\";\n\n  inputs = {\n    nixpkgs.url = \"github:NixOS/nixpkgs/nixpkgs-unstable\";\n    disko = {\n      url = \"github:nix-community/disko\";\n      inputs.nixpkgs.follows = \"nixpkgs\";\n    };\n    vitro.url = \"github:ixxie/vitro\";\n  };\n\n  outputs = {\n    self,\n    nixpkgs,\n    disko,\n    vitro,\n  }:\n    (vitro.lib.mkHost {inherit vitro nixpkgs disko;}) {\n      name = \""@.skip(365) =~= "      name = \""@);
    assert("\";\n      disk = ./hosts/"@.take(3) =~= "\";\n"@);
    assert("\";\n      disk = ./hosts/"@.skip(3) =~= "      disk = ./hosts/"@);
    assert("/disk.nix;\n      sshPubkey = \""@.take(11) =~= "/disk.nix;\n"@);
    assert("/disk.nix;\n      sshPubkey = \""@.skip(11) =~= "      sshPubkey = \""@);
    assert("\";\n      config = ./hosts/"@.take(3) =~= "\";\n"@);
    assert("\";\n      config = ./hosts/"@.skip(3) =~= "      config = ./hosts/"@);
    assert("/config.nix;\n    };\n}\n"@.take(13) =~= "/config.nix;\n"@);
    let t0 = "{\n  description = \""@;
    let t1 = t0 + name@ + " — vitro server host\";\n\n  inputs = {\n    nixpkgs.url = \"github:NixOS/nixpkgs/nixpkgs-unstable\";\n    disko = {\n      url = \"github:nix-community/disko\";\n      inputs.nixpkgs.follows = \"nixpkgs\";\n    };\n    vitro.url = \"github:ixxie/vitro\";\n  };\n\n  outputs = {\n    self,\n    nixpkgs,\n    disko,\n    vitro,\n  }:\n    (vitro.lib.mkHost {inherit vitro nixpkgs disko;}) {\n      name = \""@;
    let t2 = t1 + name@ + "\";\n      disk = ./hosts/"@;
    lemma_ends_more(t0 + name@, " — vitro server host\";\n\n  inputs = {\n    nixpkgs.url = \"github:NixOS/nixpkgs/nixpkgs-unstable\";\n    disko = {\n      url = \"github:nix-community/disko\";\n      inputs.nixpkgs.follows = \"nixpkgs\";\n    };\n    vitro.url = \"github:ixxie/vitro\";\n  };\n\n  outputs = {\n    self,\n    nixpkgs,\n    disko,\n    vitro,\n  }:\n    (vitro.lib.mkHost {inherit vitro nixpkgs disko;}) {\n      name = \""@, "      name = \""@);
    lemma_spliced(t1, name@, "\";\n      disk = ./hosts/"@, "      name = \""@, "\";\n"@);
    let t3 = t2 + name@ + "/disk.nix;\n      sshPubkey = \""@;
    lemma_ends_more(t1 + name@, "\";\n      disk = ./hosts/"@, "      disk = ./hosts/"@);
    lemma_spliced(t2, name@, "/disk.nix;\n      sshPubkey = \""@, "      disk = ./hosts/"@, "/disk.nix;\n"@);
    let t4 = t3 + key@ + "\";\n      config = ./hosts/"@;
    lemma_ends_more(t2 + name@, "/disk.nix;\n      sshPubkey = \""@, "      sshPubkey = \""@);
    lemma_spliced(t3, key@, "\";\n      config = ./hosts/"@, "      sshPubkey = \""@, "\";\n"@);
    let t5 = t4 + name@ + "/config.nix;\n    };\n}\n"@;
    lemma_ends_more(t3 + key@, "\";\n      config = ./hosts/"@, "      config = ./hosts/"@);
    lemma_spliced(t4, name@, "/config.nix;\n    };\n}\n"@, "      config = ./hosts/"@, "/config.nix;\n"@);
    lemma_holds_more(t2, name@, "      name = \""@ + name@ + "\";\n"@);
    lemma_holds_more(t2 + name@, "/disk.nix;\n      sshPubkey = \""@, "      name = \""@ + name@ + "\";\n"@);
    lemma_holds_more(t3, key@, "      name = \""@ + name@ + "\";\n"@);
    lemma_holds_more(t3 + key@, "\";\n      config = ./hosts/"@, "      name = \""@ + name@ + "\";\n"@);
    lemma_holds_more(t4, name@, "      name = \""@ + name@ + "\";\n"@);
    lemma_holds_more(t4 + name@, "/config.nix;\n    };\n}\n"@, "      name = \""@ + name@ + "\";\n"@);
    lemma_holds_more(t3, key@, "      disk = ./hosts/"@ + name@ + "/disk.nix;\n"@);
    lemma_holds_more(t3 + key@, "\";\n      config = ./hosts/"@, "      disk = ./hosts/"@ + name@ + "/disk.nix;\n"@);
    lemma_holds_more(t4, name@, "      disk = ./hosts/"@ + name@ + "/disk.nix;\n"@);
    lemma_holds_more(t4 + name@, "/config.nix;\n    };\n}\n"@, "      disk = ./hosts/"@ + name@ + "/disk.nix;\n"@);
    lemma_holds_more(t4, name@, "      sshPubkey = \""@ + key@ + "\";\n"@);
    lemma_holds_more(t4 + name@, "/config.nix;\n    };\n}\n"@, "      sshPubkey = \""@ + key@ + "\";\n"@);
}

/// What is to be added to a flake that is there names the server, its key and its
/// files as its own flake would.
pub proof fn law_wiring_of_server(name: &str, key: &str, text: String)
    requires
        call_ensures(wiring_snippet, (name, key), text),
    ensures
        holds(text@, "    nixosConfigurations."@ + name@ + " =\n"@),
        holds(text@, "        name = \""@ + name@ + "\";\n"@),
        holds(text@, "        disk = ./hosts/"@ + name@ + "/disk.nix;\n"@),
        holds(text@, "        sshPubkey = \""@ + key@ + "\";\n"@),
        holds(text@, "        config = ./hosts/"@ + name@ + "/config.nix;\n"@),
{
    reveal_strlit("    nixosConfigurations.");
    reveal_strlit(" =\n");
    reveal_strlit("        name = \"");
    reveal_strlit("\";\n");
    reveal_strlit("        disk = ./hosts/");
    reveal_strlit("/disk.nix;\n");
    reveal_strlit("        sshPubkey = \"");
    reveal_strlit("        config = ./hosts/");
    reveal_strlit("/config.nix;\n");
    reveal_strlit("flake.nix already exists. Add these inputs (if not already present):\n\n    disko.url = \"github:nix-community/disko\";\n    disko.inputs.nixpkgs.follows = \"nixpkgs\";\n    vitro.url = \"github:ixxie/vitro\";\n\nAnd in outputs, alongside your existing nixosConfigurations:\n\n    nixosConfigurations.");
    reveal_strlit(" =\n      (vitro.lib.mkHost {inherit vitro nixpkgs disko;}) {\n        name = \"");
    reveal_strlit("\";\n        disk = ./hosts/");
    reveal_strlit("/disk.nix;\n        sshPubkey = \"");
    reveal_strlit("\";\n        config = ./hosts/");
    reveal_strlit("/config.nix;\n      };\n");
    assert("flake.nix already exists. Add these inputs (if not already present):\n\n    disko.url = \"github:nix-community/disko\";\n    disko.inputs.nixpkgs.follows = \"nixpkgs\";\n    vitro.url = \"github:ixxie/vitro\";\n\nAnd in outputs, alongside your existing nixosConfigurations:\n\n    nixosConfigurations."@.skip(263) =~= "    nixosConfigurations."@);
    assert(" =\n      (vitro.lib.mkHost {inherit vitro nixpkgs disko;}) {\n        name = \""@.take(3) =~= " =\n"@);
    assert(" =\n      (vitro.lib.mkHost {inherit vitro nixpkgs disko;}) {\n        name = \""@.skip(61) =~= "        name = \""@);
    assert("\";\n        disk = ./hosts/"@.take(3) =~= "\";\n"@);
    assert("\";\n        disk = ./hosts/"@.skip(3) =~= "        disk = ./hosts/"@);
    assert("/disk.nix;\n        sshPubkey = \""@.take(11) =~= "/disk.nix;\n"@);
    assert("/disk.nix;\n        sshPubkey = \""@.skip(11) =~= "        sshPubkey = \""@);
    assert("\";\n        config = ./hosts/"@.take(3) =~= "\";\n"@);
    assert("\";\n        config = ./hosts/"@.skip(3) =~= "        config = ./hosts/"@);
    assert("/config.nix;\n      };\n"@.take(13) =~= "/config.nix;\n"@);
    let t0 = "flake.nix already exists. Add these inputs (if not already present):\n\n    disko.url = \"github:nix-community/disko\";\n    disko.inputs.nixpkgs.follows = \"nixpkgs\";\n    vitro.url = \"github:ixxie/vitro\";\n\nAnd in outputs, alongside your existing nixosConfigurations:\n\n    nixosConfigurations."@;
    let t1 = t0 + name@ + " =\n      (vitro.lib.mkHost {inherit vitro nixpkgs disko;}) {\n        name = \""@;
    lemma_spliced(t0, name@, " =\n      (vitro.lib.mkHost {inherit vitro nixpkgs disko;}) {\n        name = \""@, "    nixosConfigurations."@, " =\n"@);
    let t2 = t1 + name@ + "\";\n        disk = ./hosts/"@;
    lemma_ends_more(t0 + name@, " =\n      (vitro.lib.mkHost {inherit vitro nixpkgs disko;}) {\n        name = \""@, "        name = \""@);
    lemma_spliced(t1, name@, "\";\n        disk = ./hosts/"@, "        name = \""@, "\";\n"@);
    let t3 = t2 + name@ + "/disk.nix;\n        sshPubkey = \""@;
    lemma_ends_more(t1 + name@, "\";\n        disk = ./hosts/"@, "        disk = ./hosts/"@);
    lemma_spliced(t2, name@, "/disk.nix;\n        sshPubkey = \""@, "        disk = ./hosts/"@, "/disk.nix;\n"@);
    let t4 = t3 + key@ + "\";\n        config = ./hosts/"@;
    lemma_ends_more(t2 + name@, "/disk.nix;\n        sshPubkey = \""@, "        sshPubkey = \""@);
    lemma_spliced(t3, key@, "\";\n        config = ./hosts/"@, "        sshPubkey = \""@, "\";\n"@);
    let t5 = t4 + name@ + "/config.nix;\n      };\n"@;
    lemma_ends_more(t3 + key@, "\";\n        config = ./hosts/"@, "        config = ./hosts/"@);
    lemma_spliced(t4, name@, "/config.nix;\n      };\n"@, "        config = ./hosts/"@, "/config.nix;\n"@);
    lemma_holds_more(t1, name@, "    nixosConfigurations."@ + name@ + " =\n"@);
    lemma_holds_more(t1 + name@, "\";\n        disk = ./hosts/"@, "    nixosConfigurations."@ + name@ + " =\n"@);
    lemma_holds_more(t2, name@, "    nixosConfigurations."@ + name@ + " =\n"@);
    lemma_holds_more(t2 + name@, "/disk.nix;\n        sshPubkey = \""@, "    nixosConfigurations."@ + name@ + " =\n"@);
    lemma_holds_more(t3, key@, "    nixosConfigurations."@ + name@ + " =\n"@);
    lemma_holds_more(t3 + key@, "\";\n        config = ./hosts/"@, "    nixosConfigurations."@ + name@ + " =\n"@);
    lemma_holds_more(t4, name@, "    nixosConfigurations."@ + name@ + " =\n"@);
    lemma_holds_more(t4 + name@, "/config.nix;\n      };\n"@, "    nixosConfigurations."@ + name@ + " =\n"@);
    lemma_holds_more(t2, name@, "        name = \""@ + name@ + "\";\n"@);
    lemma_holds_more(t2 + name@, "/disk.nix;\n        sshPubkey = \""@, "        name = \""@ + name@ + "\";\n"@);
    lemma_holds_more(t3, key@, "        name = \""@ + name@ + "\";\n"@);
    lemma_holds_more(t3 + key@, "\";\n        config = ./hosts/"@, "        name = \""@ + name@ + "\";\n"@);
    lemma_holds_more(t4, name@, "        name = \""@ + name@ + "\";\n"@);
    lemma_holds_more(t4 + name@, "/config.nix;\n      };\n"@, "        name = \""@ + name@ + "\";\n"@);
    lemma_holds_more(t3, key@, "        disk = ./hosts/"@ + name@ + "/disk.nix;\n"@);
    lemma_holds_more(t3 + key@, "\";\n        config = ./hosts/"@, "        disk = ./hosts/"@ + name@ + "/disk.nix;\n"@);
    lemma_holds_more(t4, name@, "        disk = ./hosts/"@ + name@ + "/disk.nix;\n"@);
    lemma_holds_more(t4 + name@, "/config.nix;\n      };\n"@, "        disk = ./hosts/"@ + name@ + "/disk.nix;\n"@);
    lemma_holds_more(t4, name@, "        sshPubkey = \""@ + key@ + "\";\n"@);
    lemma_holds_more(t4 + name@, "/config.nix;\n      };\n"@, "        sshPubkey = \""@ + key@ + "\";\n"@);
}

/// Setting up a server writes its disk and its configuration, in the directory that
/// has its name, and a flake only where there is none: a flake that is there is not
/// touched, and what to add to it is said instead.
pub proof fn law_set_up_writes(
    cwd: &str,
    name: &str,
    p: &Probe,
    key: &str,
    has_flake: bool,
    r: Scaffold,
    dir: String,
    disk: String,
    config: String,
    flake: String,
    wiring: String,
)
    requires
        call_ensures(scaffold, (cwd, name, p, key, has_flake), r),
        call_ensures(host_dir, (cwd, name), dir),
        call_ensures(disk_nix, (p,), disk),
        call_ensures(config_nix, (key,), config),
        call_ensures(flake_nix, (name, key), flake),
        call_ensures(wiring_snippet, (name, key), wiring),
    ensures
        dir@ == below(below(cwd@, "hosts"@), name@),
        r.dir@ == dir@,
        r.files@.len() == if has_flake {
            2int
        } else {
            3int
        },
        r.files@[0].path@ == below(dir@, "disk.nix"@) && r.files@[0].text@ == disk@,
        r.files@[1].path@ == below(dir@, "config.nix"@) && r.files@[1].text@ == config@,
        !has_flake ==> r.files@[2].path@ == below(cwd@, "flake.nix"@) && r.files@[2].text@
            == flake@,
        has_flake ==> r.says@ == "wrote hosts/"@ + name@ + "/disk.nix\nwrote hosts/"@ + name@
            + "/config.nix\n"@ + "\n"@ + wiring@,
        !has_flake ==> r.says@ == "wrote flake.nix\n"@ + ("wrote hosts/"@ + name@
            + "/disk.nix\nwrote hosts/"@ + name@ + "/config.nix\n"@),
{
}

// ---------------------------------------------------------------------
// What is said
// ---------------------------------------------------------------------

/// What the probe found is said. A disk without a stable path is warned of, and,
/// last, a disk that an install would wipe: that of any system but NixOS.
pub proof fn law_probe_is_reported(p: &Probe, preview: &str, r: String)
    requires
        call_ensures(report, (p, preview), r),
    ensures
        ({
            let head = "  firmware: "@ + p.firmware@ + "\n  disk:     "@ + p.disk_by_id@ + " ("@
                + p.disk_size@ + ")\n"@;
            let rest = "  os:       "@ + p.os@ + "\n  ssh key:  "@ + preview@ + "\n"@;
            let unstable = "            (no /dev/disk/by-id symlink; path may be unstable)\n"@;
            let wiped = "\n⚠ this host is NOT running NixOS (detected: "@ + p.os@
                + ").\n  `vitro server deploy` will use nixos-anywhere to install NixOS.\n  The existing root disk WILL BE WIPED.\n\n"@;
            &&& p.os@ == "nixos"@ && p.disk_by_id@ != p.disk@ ==> r@ == head + rest
            &&& p.os@ == "nixos"@ && p.disk_by_id@ == p.disk@ ==> r@ == head + unstable + rest
            &&& p.os@ != "nixos"@ && p.disk_by_id@ != p.disk@ ==> r@ == head + rest + wiped
            &&& p.os@ != "nixos"@ && p.disk_by_id@ == p.disk@ ==> r@ == head + unstable + rest
                + wiped
        }),
{
    reveal_strlit("");
    let head = "  firmware: "@ + p.firmware@ + "\n  disk:     "@ + p.disk_by_id@ + " ("@
        + p.disk_size@ + ")\n"@;
    let rest = "  os:       "@ + p.os@ + "\n  ssh key:  "@ + preview@ + "\n"@;
    let unstable = if p.disk_by_id@ == p.disk@ {
        "            (no /dev/disk/by-id symlink; path may be unstable)\n"@
    } else {
        ""@
    };
    let front = head + unstable;
    assert(front + "  os:       "@ + p.os@ + "\n  ssh key:  "@ + preview@ + "\n"@ =~= front + rest);
    assert(head + ""@ =~= head);
    assert(front + rest + ""@ =~= front + rest);
}

/// A server that is set up is said to be registered, with its target, and what is
/// to be done next; that an install follows is said of any system but NixOS.
pub proof fn law_farewell(name: &str, target: &str, p: &Probe, r: String)
    requires
        call_ensures(farewell, (name, target, p), r),
    ensures
        p.os@ == "nixos"@ ==> r@ == "\nregistered '"@ + name@ + "' → "@ + target@
            + " in ~/.config/vitro/servers.toml\n\n"@ + "next: vitro server deploy\n"@,
        p.os@ != "nixos"@ ==> r@ == "\nregistered '"@ + name@ + "' → "@ + target@
            + " in ~/.config/vitro/servers.toml\n\n"@
            + "next: vitro server deploy  (will reinstall the target as NixOS)\n"@,
{
}

/// A server that is registered stands in a section of its own, behind all the lines
/// that were there, which stay.
pub proof fn law_registered(existing: &str, name: &str, target: &str, r: String)
    requires
        call_ensures(append_registry, (existing, name, target), r),
        !name@.contains('\n'),
        !target@.contains('\n'),
        existing@.len() > 0 && existing@.last() != '\n' ==> existing@.last() != '\r',
    ensures
        lines_of(r@) == lines_of(existing@) + seq![
            "["@ + name@ + "]"@,
            "target = \""@ + target@ + "\""@,
        ],
        begins(r@, existing@),
{
    law_registered_in_a_section(existing@, name@, target@);
    assert(r@.take(existing@.len() as int) =~= existing@);
}

} // verus!
