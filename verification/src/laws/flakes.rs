use vstd::prelude::*;

use crate::config::{EnvConfig, PersistConfig};
use crate::nix::{flake_of, flake_text, FlakeFacts, FlakeView};
use crate::path::below;
use crate::text::{begins, ends, joined, replaced};
use crate::vm::{generate_flake, Flake};

verus! {

/// The texts are the entries of the directories that an env keeps, one for each,
/// in order.
pub open spec fn are_entries(entries: Seq<Seq<char>>, persist: Seq<PersistConfig>) -> bool {
    &&& entries.len() == persist.len()
    &&& forall|i: int|
        0 <= i < entries.len() ==> #[trigger] entries[i] == "{ path = \""@ + replaced(
            persist[i].path@,
            '"',
            "\\\""@,
        ) + "\"; }"@
}

/// A flake with configurations and kept directories is the one without them, with
/// four parts put in: the inputs of the configurations among the inputs, and
/// behind the other attributes their modules and the list of the directories. A
/// part is put in whether or not the others are.
pub open spec fn fills(
    bare: Seq<char>,
    full: Seq<char>,
    server: Option<Seq<char>>,
    repo: Option<Seq<char>>,
    entries: Seq<Seq<char>>,
) -> bool {
    exists|a: Seq<char>, b: Seq<char>|
        {
            &&& bare == #[trigger] (a + b) + "    };\n}\n"@
            &&& ends(a, "      inputs.nixpkgs.follows = \"nixpkgs\";\n    };\n"@)
            &&& begins(b, "  };\n\n  outputs = { nixpkgs, vitro, microvm, ... } @ inputs:\n"@)
            &&& ends(b, ";\n"@)
            &&& full == a + (match server {
                Some(d) => "    serverConfig.url = \"path:"@ + d + "\";\n"@,
                None => Seq::empty(),
            }) + (match repo {
                Some(d) => "    repoConfig.url = \"path:"@ + d + "\";\n"@,
                None => Seq::empty(),
            }) + b + (match (server, repo) {
                (
                    Some(_),
                    Some(_),
                ) => "      modules = [ inputs.serverConfig.nixosModule inputs.repoConfig.nixosModule ];"@,
                (Some(_), None) => "      modules = [ inputs.serverConfig.nixosModule ];"@,
                (None, Some(_)) => "      modules = [ inputs.repoConfig.nixosModule ];"@,
                (None, None) => Seq::empty(),
            }) + (if entries.len() > 0 {
                "      persist = [ "@ + joined(entries, " "@) + " ];\n"@
            } else {
                Seq::empty()
            }) + "    };\n}\n"@
        }
}

/// A flake hands the name, the address, the directory, the repo and the host
/// configuration of its env to `mkEnv`, each under its own attribute.
pub open spec fn hands_over(
    flake: Seq<char>,
    name: Seq<char>,
    ip: Seq<char>,
    dir: Seq<char>,
    repo: Seq<char>,
    host: Seq<char>,
) -> bool {
    exists|a: Seq<char>, b: Seq<char>|
        flake == #[trigger] (a + b) && ends(
            a,
            "    vitro.lib.mkEnv { inherit vitro nixpkgs microvm; } {\n"@,
        ) && begins(
            b,
            "      name = \""@ + name + "\";\n      ip = \""@ + ip + "\";\n      envDir = \""@ + dir
                + "\";\n      repo = \""@ + repo + "\";\n      hostConfig = "@ + host + ";\n"@,
        )
}

/// Every configuration that an env has, and every directory that it keeps, gets
/// into its flake, whatever the others are; nothing else changes with them.
pub proof fn law_flake_has_all(f: FlakeView, persist: Seq<PersistConfig>, entries: Seq<Seq<char>>)
    requires
        are_entries(entries, persist),
    ensures
        fills(
            flake_of(
                FlakeView { server_config: None, repo_config: None, ..f },
                Seq::<PersistConfig>::empty(),
            ),
            flake_of(f, persist),
            f.server_config,
            f.repo_config,
            entries,
        ),
{
    let bare = FlakeView { server_config: None, repo_config: None, ..f };
    let none = Seq::<PersistConfig>::empty();
    let a =
        "{\n  inputs = {\n    nixpkgs.url = \"github:NixOS/nixpkgs/nixpkgs-unstable\";\n    vitro.url = \"github:ixxie/vitro\";\n    microvm = {\n      url = \"github:microvm-nix/microvm.nix\";\n      inputs.nixpkgs.follows = \"nixpkgs\";\n    };\n"@;
    let b = said_of(f);
    let end = "    };\n}\n"@;
    let nothing = Seq::<char>::empty();
    lemma_flake_parts(bare, none);
    lemma_flake_parts(f, persist);
    lemma_input("serverConfig"@, None);
    lemma_input("repoConfig"@, None);
    lemma_input("serverConfig"@, f.server_config);
    lemma_input("repoConfig"@, f.repo_config);
    lemma_input_marks();
    lemma_kept(persist, entries);
    lemma_kept(none, Seq::empty());
    lemma_modules(None, None);
    lemma_modules(f.server_config, f.repo_config);
    assert(nothing + nothing =~= nothing);
    assert(a + nothing =~= a);
    assert((a + b) + nothing =~= a + b);
    assert(flake_of(bare, none) == (a + b) + end);
    let server = match f.server_config {
        Some(d) => "    serverConfig.url = \"path:"@ + d + "\";\n"@,
        None => nothing,
    };
    let repo = match f.repo_config {
        Some(d) => "    repoConfig.url = \"path:"@ + d + "\";\n"@,
        None => nothing,
    };
    lemma_assoc(a, server, repo);
    lemma_head_ends();
    lemma_said_ends(f);
}

/// What a flake says between its inputs and its modules.
spec fn said_of(f: FlakeView) -> Seq<char> {
    "  };\n\n  outputs = { nixpkgs, vitro, microvm, ... } @ inputs:\n    vitro.lib.mkEnv { inherit vitro nixpkgs microvm; } {\n      name = \""@
        + f.name + "\";\n      ip = \""@ + f.ip + "\";\n      envDir = \""@ + f.env_dir
        + "\";\n      repo = \""@ + f.repo + "\";\n      hostConfig = "@ + f.host_config + ";\n"@
}

proof fn lemma_said_ends(f: FlakeView)
    ensures
        begins(said_of(f), "  };\n\n  outputs = { nixpkgs, vitro, microvm, ... } @ inputs:\n"@),
        ends(said_of(f), ";\n"@),
{
    let o =
        "  };\n\n  outputs = { nixpkgs, vitro, microvm, ... } @ inputs:\n    vitro.lib.mkEnv { inherit vitro nixpkgs microvm; } {\n      name = \""@;
    let p = "  };\n\n  outputs = { nixpkgs, vitro, microvm, ... } @ inputs:\n"@;
    let b = said_of(f);
    lemma_outputs_begin();
    assert(b.take(p.len() as int) =~= o.take(p.len() as int));
    assert(b.skip(b.len() - ";\n"@.len()) =~= ";\n"@);
}

proof fn lemma_assoc(a: Seq<char>, b: Seq<char>, c: Seq<char>)
    ensures
        (a + b) + c == a + (b + c),
{
    assert((a + b) + c =~= a + (b + c));
}

/// A flake is its head, its inputs, what it says, its modules and what it keeps.
proof fn lemma_flake_parts(f: FlakeView, persist: Seq<PersistConfig>)
    ensures
        flake_of(f, persist)
            == "{\n  inputs = {\n    nixpkgs.url = \"github:NixOS/nixpkgs/nixpkgs-unstable\";\n    vitro.url = \"github:ixxie/vitro\";\n    microvm = {\n      url = \"github:microvm-nix/microvm.nix\";\n      inputs.nixpkgs.follows = \"nixpkgs\";\n    };\n"@
            + (crate::nix::extra_input("serverConfig"@, f.server_config) + crate::nix::extra_input(
            "repoConfig"@,
            f.repo_config,
        )) + said_of(f) + crate::nix::modules_nix(f.server_config is Some, f.repo_config is Some)
            + crate::nix::persist_nix(persist) + "    };\n}\n"@,
{
    let x =
        "{\n  inputs = {\n    nixpkgs.url = \"github:NixOS/nixpkgs/nixpkgs-unstable\";\n    vitro.url = \"github:ixxie/vitro\";\n    microvm = {\n      url = \"github:microvm-nix/microvm.nix\";\n      inputs.nixpkgs.follows = \"nixpkgs\";\n    };\n"@
        + (crate::nix::extra_input("serverConfig"@, f.server_config) + crate::nix::extra_input(
        "repoConfig"@,
        f.repo_config,
    ));
    let s0 =
        "  };\n\n  outputs = { nixpkgs, vitro, microvm, ... } @ inputs:\n    vitro.lib.mkEnv { inherit vitro nixpkgs microvm; } {\n      name = \""@;
    let s1 = s0 + f.name;
    let s2 = s1 + "\";\n      ip = \""@;
    let s3 = s2 + f.ip;
    let s4 = s3 + "\";\n      envDir = \""@;
    let s5 = s4 + f.env_dir;
    let s6 = s5 + "\";\n      repo = \""@;
    let s7 = s6 + f.repo;
    let s8 = s7 + "\";\n      hostConfig = "@;
    let s9 = s8 + f.host_config;
    lemma_assoc(x, s0, f.name);
    lemma_assoc(x, s1, "\";\n      ip = \""@);
    lemma_assoc(x, s2, f.ip);
    lemma_assoc(x, s3, "\";\n      envDir = \""@);
    lemma_assoc(x, s4, f.env_dir);
    lemma_assoc(x, s5, "\";\n      repo = \""@);
    lemma_assoc(x, s6, f.repo);
    lemma_assoc(x, s7, "\";\n      hostConfig = "@);
    lemma_assoc(x, s8, f.host_config);
    lemma_assoc(x, s9, ";\n"@);
}

proof fn lemma_kept(persist: Seq<PersistConfig>, entries: Seq<Seq<char>>)
    requires
        are_entries(entries, persist),
    ensures
        crate::nix::persist_nix(persist) == (if entries.len() > 0 {
            "      persist = [ "@ + joined(entries, " "@) + " ];\n"@
        } else {
            Seq::empty()
        }),
{
    reveal_strlit("");
    assert(""@ =~= Seq::<char>::empty());
    assert(persist.map_values(|p: PersistConfig| crate::nix::persist_entry(p.path@)) =~= entries);
}

proof fn lemma_modules(server: Option<Seq<char>>, repo: Option<Seq<char>>)
    ensures
        crate::nix::modules_nix(server is Some, repo is Some) == (match (server, repo) {
            (
                Some(_),
                Some(_),
            ) => "      modules = [ inputs.serverConfig.nixosModule inputs.repoConfig.nixosModule ];"@,
            (Some(_), None) => "      modules = [ inputs.serverConfig.nixosModule ];"@,
            (None, Some(_)) => "      modules = [ inputs.repoConfig.nixosModule ];"@,
            (None, None) => Seq::empty(),
        }),
{
    reveal_strlit("");
    assert(""@ =~= Seq::<char>::empty());
}

proof fn lemma_head_ends()
    ensures
        ends(
            "{\n  inputs = {\n    nixpkgs.url = \"github:NixOS/nixpkgs/nixpkgs-unstable\";\n    vitro.url = \"github:ixxie/vitro\";\n    microvm = {\n      url = \"github:microvm-nix/microvm.nix\";\n      inputs.nixpkgs.follows = \"nixpkgs\";\n    };\n"@,
            "      inputs.nixpkgs.follows = \"nixpkgs\";\n    };\n"@,
        ),
{
    reveal_strlit(
        "{\n  inputs = {\n    nixpkgs.url = \"github:NixOS/nixpkgs/nixpkgs-unstable\";\n    vitro.url = \"github:ixxie/vitro\";\n    microvm = {\n      url = \"github:microvm-nix/microvm.nix\";\n      inputs.nixpkgs.follows = \"nixpkgs\";\n    };\n",
    );
    reveal_strlit("      inputs.nixpkgs.follows = \"nixpkgs\";\n    };\n");
    let a =
        "{\n  inputs = {\n    nixpkgs.url = \"github:NixOS/nixpkgs/nixpkgs-unstable\";\n    vitro.url = \"github:ixxie/vitro\";\n    microvm = {\n      url = \"github:microvm-nix/microvm.nix\";\n      inputs.nixpkgs.follows = \"nixpkgs\";\n    };\n"@;
    let e = "      inputs.nixpkgs.follows = \"nixpkgs\";\n    };\n"@;
    assert(a.skip(a.len() - e.len()) =~= e);
}

proof fn lemma_outputs_begin()
    ensures
        begins(
            "  };\n\n  outputs = { nixpkgs, vitro, microvm, ... } @ inputs:\n    vitro.lib.mkEnv { inherit vitro nixpkgs microvm; } {\n      name = \""@,
            "  };\n\n  outputs = { nixpkgs, vitro, microvm, ... } @ inputs:\n"@,
        ),
{
    reveal_strlit(
        "  };\n\n  outputs = { nixpkgs, vitro, microvm, ... } @ inputs:\n    vitro.lib.mkEnv { inherit vitro nixpkgs microvm; } {\n      name = \"",
    );
    reveal_strlit("  };\n\n  outputs = { nixpkgs, vitro, microvm, ... } @ inputs:\n");
    let o =
        "  };\n\n  outputs = { nixpkgs, vitro, microvm, ... } @ inputs:\n    vitro.lib.mkEnv { inherit vitro nixpkgs microvm; } {\n      name = \""@;
    let p = "  };\n\n  outputs = { nixpkgs, vitro, microvm, ... } @ inputs:\n"@;
    assert(o.take(p.len() as int) =~= p);
}

proof fn lemma_input(name: Seq<char>, dir: Option<Seq<char>>)
    ensures
        crate::nix::extra_input(name, dir) == (match dir {
            Some(d) => ("    "@ + name + ".url = \"path:"@) + d + "\";\n"@,
            None => Seq::empty(),
        }),
{
    reveal_strlit("");
    assert(""@ =~= Seq::<char>::empty());
}

proof fn lemma_input_marks()
    ensures
        "    serverConfig.url = \"path:"@ == "    "@ + "serverConfig"@ + ".url = \"path:"@,
        "    repoConfig.url = \"path:"@ == "    "@ + "repoConfig"@ + ".url = \"path:"@,
{
    reveal_strlit("    serverConfig.url = \"path:");
    reveal_strlit("    repoConfig.url = \"path:");
    reveal_strlit("    ");
    reveal_strlit("serverConfig");
    reveal_strlit("repoConfig");
    reveal_strlit(".url = \"path:");
    assert("    serverConfig.url = \"path:"@ =~= "    "@ + "serverConfig"@ + ".url = \"path:"@);
    assert("    repoConfig.url = \"path:"@ =~= "    "@ + "repoConfig"@ + ".url = \"path:"@);
}

/// A flake hands over what its env is.
pub proof fn law_flake_says_what_env_is(f: FlakeView, persist: Seq<PersistConfig>)
    ensures
        hands_over(flake_of(f, persist), f.name, f.ip, f.env_dir, f.repo, f.host_config),
{
    let o =
        "  };\n\n  outputs = { nixpkgs, vitro, microvm, ... } @ inputs:\n    vitro.lib.mkEnv { inherit vitro nixpkgs microvm; } {\n      name = \""@;
    let h =
        "  };\n\n  outputs = { nixpkgs, vitro, microvm, ... } @ inputs:\n    vitro.lib.mkEnv { inherit vitro nixpkgs microvm; } {\n"@;
    let n = "      name = \""@;
    lemma_outputs_parts();
    let x =
        "{\n  inputs = {\n    nixpkgs.url = \"github:NixOS/nixpkgs/nixpkgs-unstable\";\n    vitro.url = \"github:ixxie/vitro\";\n    microvm = {\n      url = \"github:microvm-nix/microvm.nix\";\n      inputs.nixpkgs.follows = \"nixpkgs\";\n    };\n"@
        + (crate::nix::extra_input("serverConfig"@, f.server_config) + crate::nix::extra_input(
        "repoConfig"@,
        f.repo_config,
    ));
    let mark = "    vitro.lib.mkEnv { inherit vitro nixpkgs microvm; } {\n"@;
    let a = x + h;
    let said = n + f.name + "\";\n      ip = \""@ + f.ip + "\";\n      envDir = \""@ + f.env_dir
        + "\";\n      repo = \""@ + f.repo + "\";\n      hostConfig = "@ + f.host_config + ";\n"@;
    let tail = crate::nix::modules_nix(f.server_config is Some, f.repo_config is Some)
        + crate::nix::persist_nix(persist) + "    };\n}\n"@;
    let b = said + tail;
    assert(flake_of(f, persist) =~= a + b);
    assert(a.skip(a.len() - mark.len()) =~= mark) by {
        assert(a.skip(a.len() - mark.len()) =~= h.skip(h.len() - mark.len()));
    }
    assert(b.take(said.len() as int) =~= said);
}

proof fn lemma_outputs_parts()
    ensures
        "  };\n\n  outputs = { nixpkgs, vitro, microvm, ... } @ inputs:\n    vitro.lib.mkEnv { inherit vitro nixpkgs microvm; } {\n      name = \""@
            == "  };\n\n  outputs = { nixpkgs, vitro, microvm, ... } @ inputs:\n    vitro.lib.mkEnv { inherit vitro nixpkgs microvm; } {\n"@
            + "      name = \""@,
        ends(
            "  };\n\n  outputs = { nixpkgs, vitro, microvm, ... } @ inputs:\n    vitro.lib.mkEnv { inherit vitro nixpkgs microvm; } {\n"@,
            "    vitro.lib.mkEnv { inherit vitro nixpkgs microvm; } {\n"@,
        ),
{
    reveal_strlit(
        "  };\n\n  outputs = { nixpkgs, vitro, microvm, ... } @ inputs:\n    vitro.lib.mkEnv { inherit vitro nixpkgs microvm; } {\n      name = \"",
    );
    reveal_strlit(
        "  };\n\n  outputs = { nixpkgs, vitro, microvm, ... } @ inputs:\n    vitro.lib.mkEnv { inherit vitro nixpkgs microvm; } {\n",
    );
    reveal_strlit("      name = \"");
    reveal_strlit("    vitro.lib.mkEnv { inherit vitro nixpkgs microvm; } {\n");
    let h =
        "  };\n\n  outputs = { nixpkgs, vitro, microvm, ... } @ inputs:\n    vitro.lib.mkEnv { inherit vitro nixpkgs microvm; } {\n"@;
    let mark = "    vitro.lib.mkEnv { inherit vitro nixpkgs microvm; } {\n"@;
    assert(h.skip(h.len() - mark.len()) =~= mark);
    assert("  };\n\n  outputs = { nixpkgs, vitro, microvm, ... } @ inputs:\n    vitro.lib.mkEnv { inherit vitro nixpkgs microvm; } {\n      name = \""@
        =~= h + "      name = \""@);
}

/// The text that is made for an env has all that the env has, and says what the
/// env is.
pub proof fn law_flake_text(
    f: &FlakeFacts,
    bare: &FlakeFacts,
    persist: &Vec<PersistConfig>,
    nothing: &Vec<PersistConfig>,
    text: String,
    bare_text: String,
    entries: Seq<Seq<char>>,
)
    requires
        call_ensures(flake_text, (f, persist), text),
        call_ensures(flake_text, (bare, nothing), bare_text),
        bare.name@ == f.name@,
        bare.ip@ == f.ip@,
        bare.env_dir@ == f.env_dir@,
        bare.repo@ == f.repo@,
        bare.host_config@ == f.host_config@,
        bare.server_config is None,
        bare.repo_config is None,
        nothing@.len() == 0,
        are_entries(entries, persist@),
    ensures
        fills(
            bare_text@,
            text@,
            match f.server_config {
                Some(d) => Some(d@),
                None => None,
            },
            match f.repo_config {
                Some(d) => Some(d@),
                None => None,
            },
            entries,
        ),
        hands_over(text@, f.name@, f.ip@, f.env_dir@, f.repo@, f.host_config@),
{
    assert(nothing@ =~= Seq::<PersistConfig>::empty());
    law_flake_has_all(f@, persist@, entries);
    law_flake_says_what_env_is(f@, persist@);
}

/// The flake of an env is made for its name, its address and its repo. It takes
/// the configurations that are there from their places, and keeps every directory
/// that the configuration lists, whether or not there are configurations.
pub proof fn law_generated_flake(
    name: &str,
    ip: &str,
    repo: &str,
    config: &EnvConfig,
    host: String,
    server_config: bool,
    repo_config: bool,
    flake: Flake,
    plain: &EnvConfig,
    bare: Flake,
    entries: Seq<Seq<char>>,
)
    requires
        call_ensures(
            generate_flake,
            (name, ip, repo, config, host, server_config, repo_config),
            flake,
        ),
        call_ensures(generate_flake, (name, ip, repo, plain, host, false, false), bare),
        plain.persist@.len() == 0,
        are_entries(entries, config.persist@),
    ensures
        fills(
            bare.text@,
            flake.text@,
            if server_config {
                Some("/var/lib/vitro/vm-config"@)
            } else {
                None
            },
            if repo_config {
                Some(below(below(below("/var/lib/vitro/envs"@, name@), "repo"@), ".vitro"@))
            } else {
                None
            },
            entries,
        ),
        hands_over(
            flake.text@,
            name@,
            ip@,
            below("/var/lib/vitro/envs"@, name@),
            repo@,
            host@,
        ),
        flake.dir@ == below(below("/var/lib/vitro/envs"@, name@), "flake"@),
        flake.file@ == below(flake.dir@, "flake.nix"@),
        flake.update@.len() > 0 && flake.update@.last()@ == flake.dir@,
{
    assert(plain.persist@ =~= Seq::<PersistConfig>::empty());
    let f = FlakeView {
        name: name@,
        ip: ip@,
        env_dir: below("/var/lib/vitro/envs"@, name@),
        repo: repo@,
        host_config: host@,
        server_config: if server_config {
            Some("/var/lib/vitro/vm-config"@)
        } else {
            None
        },
        repo_config: if repo_config {
            Some(below(below(below("/var/lib/vitro/envs"@, name@), "repo"@), ".vitro"@))
        } else {
            None
        },
    };
    law_flake_has_all(f, config.persist@, entries);
    law_flake_says_what_env_is(f, config.persist@);
    let u = crate::text::views(flake.update@);
    assert(u.len() == flake.update@.len() && u[5] == flake.update@[5]@);
}

} // verus!
