use vstd::prelude::*;

use vstd::utf8::encode_utf8;

use crate::cell::{cell_dir, cell_flake_dir, cell_repo_dir};
use crate::client::{
    accepted, acp_ended, env_from, find_env, hex_of, hex_text, own_synced, parent_of,
    secrets_pushed, shell_ended, store_line, sync_source, up_result, vm_ip, Client, ClientError,
    EnvStatus, Synced, UpResponse,
};
use crate::config::{config_path, default_memory, default_vcpu};
use crate::deploy::{
    deploy_flake_src, deploy_vm_config, detect_server_name, detect_target, find_runner,
    find_server_dir, is_nixos, mode, step_error, update_inputs, vitro_src_from_lock, DeployError,
    DeployStep, Runner,
};
use crate::env::{env_flake_dir, env_repo_dir};
use crate::json::{field, text_holds, JsonView};
use crate::laws::lemma_views;
use crate::log::log_dir;
use crate::number::decimal_of;
use crate::path::{below, last_component};
use crate::server::Registry;
use crate::shell::{
    escaped, law_escaped_is_one_word, law_hop_words, plain_word, shell_escape, shell_words,
    vitro_hop,
};
use crate::ssh::{
    auth_failed, exec_output, key_paths, law_target_is_read_back, parse_user_host, BadTarget,
    ChannelEvent,
};
use crate::text::{
    first_at, holds, is_char, lemma_first_at, lemma_pieces_concat, lemma_pieces_whole, occurs_at,
    pieces, trimmed, views,
};
use crate::transport::{
    assignments, build_run_cmd, cell_url, push_args, pushed, repo_name, LocalTransport,
    RemoteTransport, RunCommand, Transport, TransportError,
};
use crate::tunnel::{tunnel_ended, TunnelError};
use crate::vm::{
    captured, is_root, probe_args, repo_config_flake, server_config_flake, wait_for_vm,
    CapturedShell, Wait,
};

verus! {

// ---------------------------------------------------------------------
// SSH
// ---------------------------------------------------------------------

/// A user and a host are read back from the target that they make, and the client
/// goes to that target.
pub proof fn law_target_reaches(
    user: Seq<char>,
    host: Seq<char>,
    target: &str,
    r: Result<(String, String), BadTarget>,
    c: Result<(Client, String, String), BadTarget>,
)
    requires
        !user.contains('@'),
        target@ == user + "@"@ + host,
        call_ensures(parse_user_host, (target,), r),
        call_ensures(Client::connect, (target,), c),
    ensures
        r matches Ok(p) && p.0@ == user && p.1@ == host,
        c matches Ok(p) && p.0.server() == target@ && p.1@ == user && p.2@ == host,
{
    law_target_is_read_back(user, host);
}

/// A target without `@` is refused, and named.
pub proof fn law_target_refused(
    target: &str,
    r: Result<(String, String), BadTarget>,
    c: Result<(Client, String, String), BadTarget>,
)
    requires
        !target@.contains('@'),
        call_ensures(parse_user_host, (target,), r),
        call_ensures(Client::connect, (target,), c),
    ensures
        r matches Err(e) && e.target@ == target@,
        c matches Err(e) && e.target@ == target@,
{
    crate::text::lemma_char_from(target@, '@', 0);
}

/// The keys of the user are tried first, then that of the server.
pub proof fn law_keys_to_try(home: Option<&str>, r: Vec<String>, target: &str, failed: String)
    requires
        call_ensures(key_paths, (home,), r),
        call_ensures(auth_failed, (target,), failed),
    ensures
        r@.len() == 3,
        home matches Some(h) ==> r@[0]@ == h@ + "/.ssh/id_ed25519"@ && r@[1]@ == h@
            + "/.ssh/id_rsa"@,
        home is None ==> r@[0]@ == "/root"@ + "/.ssh/id_ed25519"@ && r@[1]@ == "/root"@
            + "/.ssh/id_rsa"@,
        r@[2]@ == "/var/lib/vitro/ssh/id_ed25519"@,
        failed@ == "SSH authentication failed for "@ + target@,
{
    lemma_views(r@);
}

/// A command printed all that came out of its channel, in order: what the first
/// events bring stands before what the others do.
pub proof fn law_output_in_order(a: Seq<ChannelEvent>, b: Seq<ChannelEvent>)
    ensures
        exec_output(a + b).0 == exec_output(a).0 + exec_output(b).0,
    decreases b.len(),
{
    if b.len() == 0 {
        assert(a + b =~= a);
        assert(exec_output(a).0 + exec_output(b).0 =~= exec_output(a).0);
    } else {
        law_output_in_order(a, b.drop_last());
        assert((a + b).drop_last() =~= a + b.drop_last());
        assert((a + b).last() == b.last());
        assert(exec_output(a + b).0 =~= exec_output(a).0 + exec_output(b).0);
    }
}

/// Data is what is printed, and nothing else is.
pub proof fn law_output_is_data(event: ChannelEvent)
    ensures
        exec_output(seq![event]).0 == match event {
            ChannelEvent::Data(d) => d@,
            _ => Seq::empty(),
        },
{
    let one = seq![event];
    assert(one.drop_last() =~= Seq::<ChannelEvent>::empty());
    assert(one.last() == event);
    assert(exec_output(one.drop_last()).0 =~= Seq::<u8>::empty());
    match event {
        ChannelEvent::Data(d) => {
            assert(Seq::<u8>::empty() + d@ =~= d@);
        },
        _ => {},
    }
}

/// The last exit code counts, whatever is printed behind it; without one a command
/// ended well.
pub proof fn law_last_exit_code(a: Seq<ChannelEvent>, code: u32, b: Seq<ChannelEvent>)
    requires
        forall|i: int| 0 <= i < b.len() ==> !((#[trigger] b[i]) is Exit),
    ensures
        exec_output(b).1 == 0,
        exec_output(a.push(ChannelEvent::Exit(code)) + b).1 == code,
    decreases b.len(),
{
    let all = a.push(ChannelEvent::Exit(code));
    if b.len() == 0 {
        assert(all + b =~= all);
        assert(all.last() == ChannelEvent::Exit(code));
    } else {
        assert forall|i: int| 0 <= i < b.drop_last().len() implies !((#[trigger] b.drop_last()[i])
            is Exit) by {
            assert(b.drop_last()[i] == b[i]);
        }
        law_last_exit_code(a, code, b.drop_last());
        assert((all + b).drop_last() =~= all + b.drop_last());
        assert((all + b).last() == b.last());
        assert(!(b[b.len() - 1] is Exit));
    }
}

// ---------------------------------------------------------------------
// Answers
// ---------------------------------------------------------------------

/// What a server refuses is reported in its own words; what it says went well is
/// taken as it is.
pub proof fn law_answers_of_server(
    response: &str,
    a: Result<(), ClientError>,
    up: UpResponse,
    u: Result<UpResponse, ClientError>,
)
    requires
        call_ensures(accepted, (response,), a),
        call_ensures(up_result, (up,), u),
    ensures
        a is Ok <==> holds(response@, "\"ok\":true"@),
        a matches Err(e) ==> (e matches ClientError::Server { error } && error@ == response@),
        u is Ok <==> up.ok,
        u matches Ok(x) ==> x == up,
        u matches Err(e) ==> (e matches ClientError::Server { error } && error@ == (match up.error {
            Some(t) => t@,
            None => ""@,
        })),
{
}

/// A shell, a joined command and a delivery of secrets that end badly are reported,
/// with how they ended; those that end well are not.
pub proof fn law_endings(
    success: bool,
    status: &str,
    shell: Result<(), ClientError>,
    acp: Result<(), ClientError>,
    code: u32,
    stdout: &str,
    secrets: Result<(), ClientError>,
)
    requires
        call_ensures(shell_ended, (success, status), shell),
        call_ensures(acp_ended, (success, status), acp),
        call_ensures(secrets_pushed, (code, stdout), secrets),
    ensures
        shell is Ok <==> success,
        acp is Ok <==> success,
        secrets is Ok <==> code == 0,
        shell matches Err(e) ==> (e matches ClientError::ShellExit { status: s } && s@ == status@),
        acp matches Err(e) ==> (e matches ClientError::AcpExit { status: s } && s@ == status@),
        secrets matches Err(e) ==> (e matches ClientError::SecretsExit { exit_code, stdout: o }
            && exit_code@ == decimal_of(code as nat) && o@ == stdout@),
{
}

/// The env of a name is the first that has it, with its address; where none has it,
/// or there is no list, there is no env and no address.
pub proof fn law_env_of_name<'a>(
    envs: &'a Vec<EnvStatus>,
    name: &str,
    r: Option<&'a EnvStatus>,
    ip: Option<String>,
    none: Option<String>,
)
    requires
        call_ensures(find_env, (envs, name), r),
        call_ensures(vm_ip, (Some(envs), name), ip),
        call_ensures(vm_ip, (None::<&Vec<EnvStatus>>, name), none),
    ensures
        none is None,
        r is Some <==> exists|i: int| 0 <= i < envs@.len() && #[trigger] envs@[i].name@ == name@,
        r matches Some(e) ==> e.name@ == name@ && exists|i: int|
            0 <= i < envs@.len() && *e == #[trigger] envs@[i] && forall|j: int|
                0 <= j < i ==> #[trigger] envs@[j].name@ != name@,
        ip is Some <==> r is Some && (r->0).ip is Some,
        ip matches Some(t) ==> t@ == (r->0).ip->0@,
{
    lemma_env_from(envs@, name@, 0);
}

proof fn lemma_env_from(envs: Seq<EnvStatus>, name: Seq<char>, from: int)
    requires
        0 <= from <= envs.len(),
    ensures
        match env_from(envs, name, from) {
            Some(i) => from <= i < envs.len() && envs[i].name@ == name && forall|j: int|
                from <= j < i ==> #[trigger] envs[j].name@ != name,
            None => forall|j: int| from <= j < envs.len() ==> #[trigger] envs[j].name@ != name,
        },
    decreases envs.len() - from,
{
    if from < envs.len() && envs[from].name@ != name {
        lemma_env_from(envs, name, from + 1);
    }
}

// ---------------------------------------------------------------------
// Secrets and files
// ---------------------------------------------------------------------

/// A text is written as the escapes of its bytes: four characters for each, the
/// last two its hexadecimal digits.
pub proof fn law_escapes(content: &str, r: String, i: int)
    requires
        call_ensures(hex_text, (content,), r),
        0 <= i < encode_utf8(content@).len(),
    ensures
        r@.len() == 4 * encode_utf8(content@).len(),
        r@[4 * i] == '\\',
        r@[4 * i + 1] == 'x',
        r@[4 * i + 2] == "0123456789abcdef"@[encode_utf8(content@)[i] as int / 16],
        r@[4 * i + 3] == "0123456789abcdef"@[encode_utf8(content@)[i] as int % 16],
{
    lemma_hex_at(encode_utf8(content@), i);
}

proof fn lemma_hex_len(bytes: Seq<u8>)
    ensures
        hex_of(bytes).len() == 4 * bytes.len(),
    decreases bytes.len(),
{
    if bytes.len() > 0 {
        lemma_hex_len(bytes.drop_last());
    }
}

proof fn lemma_hex_at(bytes: Seq<u8>, i: int)
    requires
        0 <= i < bytes.len(),
    ensures
        hex_of(bytes).len() == 4 * bytes.len(),
        hex_of(bytes)[4 * i] == '\\',
        hex_of(bytes)[4 * i + 1] == 'x',
        hex_of(bytes)[4 * i + 2] == "0123456789abcdef"@[bytes[i] as int / 16],
        hex_of(bytes)[4 * i + 3] == "0123456789abcdef"@[bytes[i] as int % 16],
    decreases bytes.len(),
{
    let front = bytes.drop_last();
    lemma_hex_len(front);
    if i < front.len() {
        lemma_hex_at(front, i);
        assert(front[i] == bytes[i]);
    } else {
        let b = bytes.last();
        lemma_digits((b / 16) as nat);
        lemma_digits((b % 16) as nat);
    }
}

proof fn lemma_digits(d: nat)
    requires
        d < 16,
    ensures
        crate::client::hex_digit(d) == "0123456789abcdef"@[d as int],
{
    reveal_strlit("0123456789abcdef");
    assert(d == 0 || d == 1 || d == 2 || d == 3 || d == 4 || d == 5 || d == 6 || d == 7 || d == 8
        || d == 9 || d == 10 || d == 11 || d == 12 || d == 13 || d == 14 || d == 15);
    assert(48u8 as char == '0' && 57u8 as char == '9' && 97u8 as char == 'a' && 102u8 as char
        == 'f');
}

/// The secrets of a server are stored in the file that its envs take, and so are
/// those of one env, in that env: its escapes, and nothing else, are what is
/// printed there. Nobody but the owner may read either.
pub proof fn law_secrets_are_stored(
    c: &Client,
    name: &str,
    content: &str,
    r: String,
    escapes: String,
    server: &'static str,
)
    requires
        plain_word(name@),
        call_ensures(Client::push_secrets_env, (c, name, content), r),
        call_ensures(hex_text, (content,), escapes),
        call_ensures(Client::push_secrets, (c,), server),
    ensures
        shell_words(r@) == Some(
            seq![
                "vitro"@,
                "shell"@,
                "--server"@,
                name@,
                "-c"@,
                "printf '"@ + escapes@
                    + "' > /var/lib/vitro/secrets.env && chmod 600 /var/lib/vitro/secrets.env"@,
            ],
        ),
        server@
            == "mkdir -p /var/lib/vitro && cat > /var/lib/vitro/secrets.env && chmod 600 /var/lib/vitro/secrets.env"@,
{
    let line = store_line(encode_utf8(content@));
    law_hop_words(name@, line, None);
    assert(seq!["vitro"@, "shell"@, "--server"@, name@] + Seq::empty() + seq!["-c"@, line] =~= seq![
        "vitro"@,
        "shell"@,
        "--server"@,
        name@,
        "-c"@,
        line,
    ]);
}

/// A path below `~` is read in the home, and waits for the env under its own name,
/// from where it is copied; any other is read where it is.
pub proof fn law_synced_from_home(
    c: &Client,
    home: &str,
    name: &str,
    rel: Seq<char>,
    path: &str,
    r: Option<Synced>,
    source: String,
    owns: String,
)
    requires
        path@ == "~/"@ + rel,
        call_ensures(Client::sync_files, (c, home, name, path), r),
        call_ensures(sync_source, (home, path), source),
        call_ensures(own_synced, (name,), owns),
    ensures
        source@ == home@ + "/"@ + rel,
        r matches Some(s) && s.source@ == source@ && s.dest@ == "/var/lib/vitro/envs/"@ + name@
            + "/sync/"@ + rel && s.store@ == "cat > '"@ + s.dest@ + "'"@ && (s.make_dir is Some
            <==> parent_of(s.dest@) is Some) && (s.make_dir is Some ==> s.make_dir->0@
            == "mkdir -p '"@ + parent_of(s.dest@)->0 + "'"@),
        owns@ == "chown -R 1000:users /var/lib/vitro/envs/"@ + name@ + "/sync/ 2>/dev/null"@,
{
    reveal_strlit("~/");
    assert(path@.take(2) =~= "~/"@);
    assert(path@.skip(2) =~= rel);
}

/// A path that does not begin with `~/` is read where it is. Where it is brought,
/// it waits where the other files of the env do.
pub proof fn law_synced_as_it_is(
    c: &Client,
    home: &str,
    name: &str,
    path: &str,
    r: Option<Synced>,
    source: String,
)
    requires
        !crate::text::begins(path@, "~/"@),
        call_ensures(Client::sync_files, (c, home, name, path), r),
        call_ensures(sync_source, (home, path), source),
    ensures
        source@ == path@,
        r matches Some(s) ==> s.source@ == path@ && crate::text::begins(
            s.dest@,
            "/var/lib/vitro/envs/"@ + name@ + "/sync/"@,
        ) && s.store@ == "cat > '"@ + s.dest@ + "'"@,
{
    if r is Some {
        let s = r->0;
        let p = "/var/lib/vitro/envs/"@ + name@ + "/sync/"@;
        assert(s.dest@.take(p.len() as int) =~= p);
    }
}

// ---------------------------------------------------------------------
// Deploys
// ---------------------------------------------------------------------

/// What is there installs, `nix` before `docker` before `podman`, and nothing that
/// is not there.
pub proof fn law_runner(nix: bool, docker: bool, podman: bool, r: Option<Runner>)
    requires
        call_ensures(find_runner, (nix, docker, podman), r),
    ensures
        r is None <==> !nix && !docker && !podman,
        r == Some(Runner::Nix) ==> nix,
        r == Some(Runner::Docker) ==> docker && !nix,
        r == Some(Runner::Podman) ==> podman && !docker && !nix,
{
}

/// Whether a server runs NixOS, its sources, its VM configuration and its inputs:
/// each call goes to the server, or to the directory, that it is given.
pub proof fn law_deploy_words(
    target: &str,
    dir: &str,
    asks: Vec<String>,
    src: Vec<String>,
    vm: (Vec<String>, Vec<String>),
    inputs: Vec<String>,
)
    requires
        call_ensures(is_nixos, (target,), asks),
        call_ensures(deploy_flake_src, (target, dir), src),
        call_ensures(deploy_vm_config, (target, dir), vm),
        call_ensures(update_inputs, (dir,), inputs),
    ensures
        views(asks@) == seq![
            "-o"@,
            "StrictHostKeyChecking=accept-new"@,
            "-o"@,
            "ConnectTimeout=10"@,
            target@,
            "test -e /etc/NIXOS && test \"$(stat -f -c %T / 2>/dev/null)\" != tmpfs"@,
        ],
        views(src@) == seq![
            "-a"@,
            "--delete"@,
            "--exclude=target/"@,
            "--exclude=.git/"@,
            dir@ + "/"@,
            target@ + ":/var/lib/vitro/flake-src/"@,
        ],
        views(vm.0@) == seq![target@, "rm"@, "-rf"@, "/var/lib/vitro/vm-config"@],
        views(vm.1@) == seq!["-r"@, dir@, target@ + ":/var/lib/vitro/vm-config"@],
        views(inputs@) == seq!["flake"@, "update"@, "--flake"@, dir@],
{
}

/// A system is activated at the next boot where that is asked for, else now.
pub proof fn law_activated(boot: &'static str, now: &'static str)
    requires
        call_ensures(mode, (true,), boot),
        call_ensures(mode, (false,), now),
    ensures
        boot@ == "boot"@,
        now@ == "switch"@,
{
}

/// The sources that a flake is locked to are found where its lock file says them;
/// without the file, or without such a path in it, there are none.
pub proof fn law_locked_sources(
    lock: &str,
    r: Option<String>,
    none: Option<String>,
    path: Seq<char>,
)
    requires
        call_ensures(vitro_src_from_lock, (Some(lock),), r),
        call_ensures(vitro_src_from_lock, (None::<&str>,), none),
    ensures
        none is None,
        text_holds(lock@) is None ==> r is None,
        ({
            &&& text_holds(lock@) is Some
            &&& field(text_holds(lock@)->0, "nodes"@) matches Some(nodes)
            &&& field(nodes, "vitro"@) matches Some(vitro)
            &&& field(vitro, "locked"@) matches Some(locked)
            &&& field(locked, "path"@) == Some(JsonView::Text(path))
        }) ==> (r matches Some(t) && t@ == path),
{
}

/// What is deployed from is the directory that is given, else the current one, and
/// only where it holds a flake.
pub proof fn law_deployed_from(
    explicit: Option<String>,
    cwd: String,
    flake: bool,
    r: Result<String, DeployError>,
)
    requires
        call_ensures(find_server_dir, (explicit, cwd, flake), r),
    ensures
        r is Ok <==> flake,
        flake && explicit is Some ==> r->Ok_0@ == explicit->0@,
        flake && explicit is None ==> r->Ok_0@ == cwd@,
        !flake && explicit is Some ==> (r->Err_0 matches DeployError::NoFlakeAt { dir } && dir@
            == explicit->0@),
        !flake && explicit is None ==> r->Err_0 is NoFlakeHere,
{
}

/// The name of a server is the first one that its flake gives, between quotes.
pub proof fn law_name_in_flake(
    a: Seq<char>,
    name: Seq<char>,
    b: Seq<char>,
    flake: &str,
    dir: &str,
    r: Result<String, DeployError>,
)
    requires
        flake@ == a + "name = \""@ + name + "\""@ + b,
        !holds(a, "name = \""@),
        !name.contains('"'),
        !holds(name + "\""@, "name = \""@),
        call_ensures(detect_server_name, (flake, dir), r),
    ensures
        r matches Ok(n) && n@ == name,
{
    reveal_strlit("name = \"");
    reveal_strlit("\"");
    let mark = "name = \""@;
    let q = seq!['"'];
    assert("\""@ =~= q);
    let f = flake@;
    let n = a.len() as int;
    assert(mark[0] == 'n' && mark[1] == 'a' && mark[2] == 'm' && mark[3] == 'e' && mark[4] == ' '
        && mark[5] == '=' && mark[6] == ' ' && mark[7] == '"');
    assert(f.subrange(n, n + 8) =~= mark);
    assert forall|j: int| 0 <= j < n implies !#[trigger] occurs_at(f, mark, j) by {
        if occurs_at(f, mark, j) {
            let sub = f.subrange(j, j + 8);
            if j + 8 <= n {
                assert(a.subrange(j, j + 8) =~= sub);
                assert(occurs_at(a, mark, j));
            } else {
                let d = j + 7 - n;
                assert(sub[7] == f[j + 7]);
                assert(f[n + d] == mark[d]);
                assert(d == 0 || d == 1 || d == 2 || d == 3 || d == 4 || d == 5 || d == 6);
            }
        }
    }
    assert(occurs_at(f, mark, n));
    lemma_first_at(f, mark, n);
    let rest = f.skip(n + 8);
    assert(rest =~= name + q + b);
    let m = name.len() as int;
    let piece = match first_at(rest, mark) {
        Some(k) => rest.take(k),
        None => rest,
    };
    crate::text::lemma_find_from(rest, mark, 0);
    assert(piece.len() > m && piece =~= name + q + piece.skip(m + 1)) by {
        if let Some(k) = first_at(rest, mark) {
            assert(occurs_at(rest, mark, k));
            let sub = rest.subrange(k, k + 8);
            assert(sub == mark);
            if k <= m {
                if k + 7 < m {
                    assert(sub[7] == rest[k + 7] && rest[k + 7] == name[k + 7]);
                    assert(name.contains(name[k + 7]));
                } else if k + 7 == m {
                    assert((name + q).subrange(k, k + 8) =~= sub);
                    assert(occurs_at(name + q, mark, k));
                } else {
                    let d = m - k;
                    assert(sub[d] == rest[m] && rest[m] == '"');
                    assert(d == 0 || d == 1 || d == 2 || d == 3 || d == 4 || d == 5 || d == 6);
                }
            }
        }
    }
    assert forall|i: int| 0 <= i < name.len() implies !is_char('"')(#[trigger] name[i]) by {
        assert(name.contains(name[i]));
    }
    lemma_pieces_whole(name, is_char('"'));
    lemma_pieces_concat(name, '"', piece.skip(m + 1), is_char('"'));
    assert(pieces(piece, is_char('"'))[0] == name);
}

/// Where a flake gives no name, the server is named after the directory.
pub proof fn law_name_of_dir(flake: &str, dir: &str, r: Result<String, DeployError>)
    requires
        !holds(flake@, "name = \""@),
        call_ensures(detect_server_name, (flake, dir), r),
    ensures
        last_component(dir@) matches Some(n) ==> (r matches Ok(s) && s@ == n),
        last_component(dir@) is None ==> (r matches Err(e) && e is NoName),
{
    crate::text::lemma_find_from(flake@, "name = \""@, 0);
}

/// A target file comes before the registry; where neither says one, there is none.
pub proof fn law_target_of_server(
    file: Option<&str>,
    name: &str,
    registry: &Registry,
    r: Result<String, DeployError>,
)
    requires
        registry.wf(),
        call_ensures(detect_target, (file, name, registry), r),
    ensures
        r is Ok <==> file is Some || registry@.contains_key(name@),
        file matches Some(t) ==> r->Ok_0@ == trimmed(t@),
        file is None && r is Ok ==> r->Ok_0@ == registry@[name@],
        r matches Err(e) ==> (e matches DeployError::NoTarget { name: n } && n@ == name@),
{
}

/// Every step that can end a deploy says why in its own way.
pub proof fn law_deploy_error_says(
    target: &str,
    runner: Option<Runner>,
    inputs: Option<DeployError>,
    asks: Option<DeployError>,
    rebuild: Option<DeployError>,
    install: Option<DeployError>,
    vm: Option<DeployError>,
    src: Option<DeployError>,
    reboot: Option<DeployError>,
)
    requires
        call_ensures(step_error, (DeployStep::UpdateInputs, target, runner), inputs),
        call_ensures(step_error, (DeployStep::AskNixos, target, runner), asks),
        call_ensures(step_error, (DeployStep::Rebuild, target, runner), rebuild),
        call_ensures(step_error, (DeployStep::Install, target, runner), install),
        call_ensures(step_error, (DeployStep::VmConfig, target, runner), vm),
        call_ensures(step_error, (DeployStep::FlakeSrc, target, runner), src),
        call_ensures(step_error, (DeployStep::Reboot, target, runner), reboot),
    ensures
        inputs matches Some(e) && e is UpdateInputs,
        rebuild matches Some(DeployError::Rebuild { target: t }) && t@ == target@,
        runner is None ==> (install matches Some(e) && e is NoRunner),
        runner == Some(Runner::Nix) ==> (install matches Some(e) && e is Install),
        runner == Some(Runner::Docker) ==> (install matches Some(
            DeployError::InstallVia { runner: n },
        ) && n@ == "docker"@),
        runner == Some(Runner::Podman) ==> (install matches Some(
            DeployError::InstallVia { runner: n },
        ) && n@ == "podman"@),
        vm matches Some(e) && e is CopyVmConfig,
        src matches Some(e) && e is RsyncFlakeSrc,
        asks is None && reboot is None,
{
}

// ---------------------------------------------------------------------
// Cells
// ---------------------------------------------------------------------

/// A script is run as one word, with every variable set to its value, as one word
/// too, in their order; only a script that runs by itself has a log.
pub proof fn law_script_runs(
    script: &str,
    env: &Vec<(String, String)>,
    attached: bool,
    r: RunCommand,
)
    requires
        call_ensures(build_run_cmd, (script, env, attached), r),
    ensures
        r is Attached <==> attached,
        ({
            let inner = match r {
                RunCommand::Attached { inner } => inner@,
                RunCommand::Detached { inner, .. } => inner@,
            };
            &&& env@.len() == 0 ==> inner == "chmod +x "@ + escaped(script@) + " && "@ + escaped(
                script@,
            )
            &&& inner == "chmod +x "@ + escaped(script@) + " && "@ + assignments(env@) + escaped(
                script@,
            )
        }),
        r matches RunCommand::Detached { log, .. } ==> log@ == "/tmp/vitro/run.log"@,
{
    if env@.len() == 0 {
        reveal_strlit("");
        let p = "chmod +x "@ + escaped(script@) + " && "@;
        assert(p + assignments(env@) =~= p);
    }
}

/// Each variable of a script is set before those behind it.
pub proof fn law_variables_are_set(env: Seq<(String, String)>, more: Seq<(String, String)>, one: (String, String))
    ensures
        assignments(env + more) == assignments(env) + assignments(more),
        assignments(seq![one]) == one.0@ + "="@ + escaped(one.1@) + " "@,
    decreases more.len(),
{
    reveal_strlit("");
    let s = seq![one];
    assert(s.drop_last() =~= Seq::empty());
    assert(s.last() == one);
    assert(assignments(s.drop_last()).len() == 0);
    assert(assignments(seq![one]) =~= one.0@ + "="@ + escaped(one.1@) + " "@);
    if more.len() == 0 {
        assert(env + more =~= env);
        assert(assignments(env) + assignments(more) =~= assignments(env));
    } else {
        law_variables_are_set(env, more.drop_last(), one);
        assert((env + more).drop_last() =~= env + more.drop_last());
        assert((env + more).last() == more.last());
        assert(assignments(env + more) =~= assignments(env) + assignments(more));
    }
}

/// The branch of a cell is pushed to the remote of its server, and a push that fails
/// is reported.
pub proof fn law_branch_is_pushed(
    t: &RemoteTransport,
    cell: &str,
    url: String,
    args: Vec<String>,
    success: bool,
    stderr: &str,
    r: Result<(), TransportError>,
)
    requires
        call_ensures(cell_url, (t, cell), url),
        call_ensures(push_args, (cell,), args),
        call_ensures(pushed, (cell, success, stderr), r),
    ensures
        url@ == "vitro://"@ + t.client.server() + "/"@ + cell@,
        views(args@) == seq!["push"@, "vitro"@, cell@],
        r is Ok <==> success,
        r matches Err(e) ==> (e matches TransportError::Push { cell: c, stderr: s } && c@ == cell@
            && s@ == stderr@),
{
}

/// A repo is named after its root.
pub proof fn law_repo_is_named(root: &str, r: String)
    requires
        call_ensures(repo_name, (root,), r),
    ensures
        last_component(root@) matches Some(n) ==> r@ == n,
        last_component(root@) is None ==> r@ == "unknown"@,
{
}

/// A VM that does not answer is probed again, sixty times in all, and one that
/// answers is not.
pub proof fn law_waits(tried: u32, reached: bool, r: Wait)
    requires
        call_ensures(wait_for_vm, (tried, reached), r),
    ensures
        r is Ready <==> reached,
        !reached && tried < 59 ==> r == Wait::Again((tried + 1) as u32),
        !reached && tried >= 59 ==> r is GiveUp,
{
}

/// A VM is probed for its workspace, at its address, without asking anybody.
pub proof fn law_vm_is_probed(target: &str, workspace: &str, r: Vec<String>)
    requires
        call_ensures(probe_args, (target, workspace), r),
    ensures
        r@.len() == 10,
        r@[0]@ == "-o"@ && r@[1]@ == "StrictHostKeyChecking=no"@,
        r@[2]@ == "-o"@ && r@[3]@ == "UserKnownHostsFile=/dev/null"@,
        r@[4]@ == "-o"@ && r@[5]@ == "LogLevel=ERROR"@,
        r@[6]@ == "-o"@,
        r@[7]@ == "ConnectTimeout=1"@,
        r@[8]@ == target@,
        r@[9]@ == "test -d "@ + workspace@,
{
    lemma_views(r@);
}

/// What a command printed and how it ended is kept as it is; one that was killed
/// ended with -1.
pub proof fn law_captured(
    code: Option<i32>,
    stdout: String,
    stderr: String,
    ms: u64,
    r: CapturedShell,
)
    requires
        call_ensures(captured, (code, stdout, stderr, ms), r),
    ensures
        code matches Some(c) ==> r.exit_code == c,
        code is None ==> r.exit_code == -1,
        r.stdout@ == stdout@,
        r.stderr@ == stderr@,
        r.duration_ms == ms,
{
}

/// A log is written on a server where it can be, else in the home.
pub proof fn law_log_dir(writable: bool, home: Option<&str>, r: String)
    requires
        call_ensures(log_dir, (writable, home), r),
    ensures
        writable ==> r@ == "/var/log/vitro"@,
        !writable && home is Some ==> r@ == below(home->0@, ".local/share/vitro"@),
        !writable && home is None ==> r@ == below("/tmp"@, ".local/share/vitro"@),
{
}

/// An env whose repo says nothing of them has two gigabytes and two CPUs.
pub proof fn law_defaults(root: &str, path: String, memory: String, vcpu: u32)
    requires
        call_ensures(config_path, (root,), path),
        call_ensures(default_memory, (), memory),
        call_ensures(default_vcpu, (), vcpu),
    ensures
        path@ == below(root@, ".vitro/config.toml"@),
        memory@ == "2G"@,
        vcpu == 2,
{
}

/// Both ways to a cell run a script with the command that was built for it, and show
/// its log, all that comes where it is followed.
pub proof fn law_script_and_log(
    local: &LocalTransport,
    remote: &RemoteTransport,
    script: &str,
    env: &Vec<(String, String)>,
    attached: bool,
    built: RunCommand,
    here: RunCommand,
    there: RunCommand,
    shown: String,
    followed: String,
    far: String,
)
    requires
        call_ensures(build_run_cmd, (script, env, attached), built),
        call_ensures(LocalTransport::run_start, (local, script, env, attached), here),
        call_ensures(RemoteTransport::run_start, (remote, script, env, attached), there),
        call_ensures(LocalTransport::run_logs, (local, false), shown),
        call_ensures(LocalTransport::run_logs, (local, true), followed),
        call_ensures(RemoteTransport::run_logs, (remote, true), far),
    ensures
        line_in(here) == line_in(built),
        line_in(there) == line_in(built),
        here is Attached <==> attached,
        there is Attached <==> attached,
        shown@ == "tail -100 "@ + "/tmp/vitro/run.log"@
            + " 2>/dev/null || echo 'no run log yet'"@,
        followed@ == "tail -f "@ + "/tmp/vitro/run.log"@
            + " 2>/dev/null || echo 'no run log yet'"@,
        far@ == followed@,
{
}

/// The command line of a script.
pub open spec fn line_in(c: RunCommand) -> Seq<char> {
    match c {
        RunCommand::Attached { inner } => inner@,
        RunCommand::Detached { inner, .. } => inner@,
    }
}

// ---------------------------------------------------------------------
// Words of a shell, and where things lie
// ---------------------------------------------------------------------

/// Whatever a text holds, a shell takes it for one word, that text; and a hop for
/// one command of one env, in the session that is named.
pub proof fn law_words_of_hop(
    text: &str,
    word: String,
    env: &str,
    cmd: &str,
    session: &str,
    hop: String,
    in_session: String,
)
    requires
        plain_word(env@),
        call_ensures(shell_escape, (text,), word),
        call_ensures(vitro_hop, (env, cmd, None::<&str>), hop),
        call_ensures(vitro_hop, (env, cmd, Some(session)), in_session),
    ensures
        shell_words(word@) == Some(seq![text@]),
        shell_words(hop@) == Some(seq!["vitro"@, "shell"@, "--server"@, env@, "-c"@, cmd@]),
        shell_words(in_session@) == Some(
            seq![
                "vitro"@,
                "shell"@,
                "--server"@,
                env@,
                "--session"@,
                session@,
                "-c"@,
                cmd@,
            ],
        ),
{
    law_escaped_is_one_word(text@);
    law_hop_words(env@, cmd@, None);
    law_hop_words(env@, cmd@, Some(session@));
    assert(seq!["vitro"@, "shell"@, "--server"@, env@] + Seq::empty() + seq!["-c"@, cmd@] =~= seq![
        "vitro"@,
        "shell"@,
        "--server"@,
        env@,
        "-c"@,
        cmd@,
    ]);
    assert(seq!["vitro"@, "shell"@, "--server"@, env@] + seq!["--session"@, session@] + seq![
        "-c"@,
        cmd@,
    ] =~= seq![
        "vitro"@,
        "shell"@,
        "--server"@,
        env@,
        "--session"@,
        session@,
        "-c"@,
        cmd@,
    ]);
}

/// Each env and each cell has a directory of its own, with its repo and its flake;
/// the repo's configuration of its VM lies in the repo, the server's in its own
/// place.
pub proof fn law_where_things_lie(
    name: &str,
    env: String,
    env_repo: String,
    env_flake: String,
    cell: String,
    cell_repo: String,
    cell_flake: String,
    server: String,
    own: String,
)
    requires
        call_ensures(crate::env::env_dir, (name,), env),
        call_ensures(env_repo_dir, (name,), env_repo),
        call_ensures(env_flake_dir, (name,), env_flake),
        call_ensures(cell_dir, (name,), cell),
        call_ensures(cell_repo_dir, (name,), cell_repo),
        call_ensures(cell_flake_dir, (name,), cell_flake),
        call_ensures(server_config_flake, (), server),
        call_ensures(repo_config_flake, (name,), own),
    ensures
        env@ == below("/var/lib/vitro/envs"@, name@),
        env_repo@ == below(env@, "repo"@),
        env_flake@ == below(env@, "flake"@),
        cell@ == below("/var/lib/vitro/cells"@, name@),
        cell_repo@ == below(cell@, "repo"@),
        cell_flake@ == below(cell@, "flake"@),
        server@ == below("/var/lib/vitro/vm-config"@, "flake.nix"@),
        own@ == below(env_repo@, ".vitro/flake.nix"@),
{
}

/// Only root is root.
pub proof fn law_root(user: Option<&str>, r: bool)
    requires
        call_ensures(is_root, (user,), r),
    ensures
        r <==> user is Some && user->0@ == "root"@,
{
}

/// A tunnel that ends badly is reported with how it ended.
pub proof fn law_tunnel_ended(success: bool, status: &str, r: Result<(), TunnelError>)
    requires
        call_ensures(tunnel_ended, (success, status), r),
    ensures
        r is Ok <==> success,
        r matches Err(e) ==> (e matches TunnelError::Exit { status: s } && s@ == status@),
{
}

} // verus!
