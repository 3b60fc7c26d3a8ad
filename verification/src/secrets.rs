use vstd::prelude::*;

use crate::path::{below, join_path};
use crate::server::home_of;
use crate::text::{lemma_views_push, opt_view, views};
use crate::vm::Outcome;

verus! {

/// Where the secrets of a host lie.
pub const SECRETS_FILE: &'static str = "/var/lib/vitro/secrets.env";

/// Only the owner may read a file of secrets.
pub const SECRETS_MODE: u32 = 0o600;

pub fn secrets_age_path(repo_root: &str) -> (r: String)
    ensures
        r@ == below(repo_root@, ".vitro/secrets.age"@),
{
    join_path(repo_root, ".vitro/secrets.age")
}

pub fn secrets_env_path(repo_root: &str) -> (r: String)
    ensures
        r@ == below(repo_root@, ".vitro/secrets.env"@),
{
    join_path(repo_root, ".vitro/secrets.env")
}

// ---------------------------------------------------------------------
// Errors
// ---------------------------------------------------------------------

#[derive(Debug)]
pub enum SecretsError {
    NoIdentity,
    NoMatch,
    Command { stderr: String },
    NoKeys,
    NoPlaintext,
    NoCiphertext,
    Encryption { stderr: String },
    Editor { status: String },
}

impl SecretsError {
    pub fn message(&self) -> (r: String)
        ensures
            r@ == match self {
                SecretsError::NoIdentity => "no SSH keys found for decryption"@,
                SecretsError::NoMatch => "age decryption failed — no key matched any recipient"@,
                SecretsError::Command { stderr } => "secrets command failed: "@ + stderr@,
                SecretsError::NoKeys
                    => "no keys configured — add secrets.keys in .vitro/config.toml"@,
                SecretsError::NoPlaintext => ".vitro/secrets.env not found — create it first"@,
                SecretsError::NoCiphertext => ".vitro/secrets.age not found"@,
                SecretsError::Encryption { stderr } => "age encryption failed: "@ + stderr@,
                SecretsError::Editor { status } => "editor exited with "@ + status@,
            },
    {
        match self {
            SecretsError::NoIdentity => "no SSH keys found for decryption".to_string(),
            SecretsError::NoMatch => {
                "age decryption failed — no key matched any recipient".to_string()
            },
            SecretsError::Command { stderr } => {
                let mut s = "secrets command failed: ".to_string();
                s.append(stderr.as_str());
                s
            },
            SecretsError::NoKeys => {
                "no keys configured — add secrets.keys in .vitro/config.toml".to_string()
            },
            SecretsError::NoPlaintext => {
                ".vitro/secrets.env not found — create it first".to_string()
            },
            SecretsError::NoCiphertext => ".vitro/secrets.age not found".to_string(),
            SecretsError::Encryption { stderr } => {
                let mut s = "age encryption failed: ".to_string();
                s.append(stderr.as_str());
                s
            },
            SecretsError::Editor { status } => {
                let mut s = "editor exited with ".to_string();
                s.append(status.as_str());
                s
            },
        }
    }
}

// ---------------------------------------------------------------------
// Decrypting
// ---------------------------------------------------------------------

/// The text that is there, as a sequence of none or one.
pub open spec fn at_most_one(t: Option<Seq<char>>) -> Seq<Seq<char>> {
    match t {
        Some(s) => seq![s],
        None => Seq::empty(),
    }
}

/// The identities to look for, in the order in which they are tried. Those that
/// the environment names come first.
pub open spec fn identities(
    home: Option<Seq<char>>,
    sops_key_file: Option<Seq<char>>,
    age_identity_file: Option<Seq<char>>,
) -> Seq<Seq<char>> {
    at_most_one(age_identity_file) + at_most_one(sops_key_file) + seq![
        below(home_of(home), ".config/sops/age/keys.txt"@),
        below(home_of(home), ".config/age/keys.txt"@),
        below(home_of(home), ".ssh/id_ed25519"@),
        below(home_of(home), ".ssh/id_rsa"@),
        "/var/lib/vitro/ssh/id_ed25519"@,
    ]
}

/// The identities to look for, in the order in which they are tried.
pub fn age_identity_paths(
    home: Option<&str>,
    sops_key_file: Option<&str>,
    age_identity_file: Option<&str>,
) -> (r: Vec<String>)
    ensures
        views(r@) == identities(opt_view(home), opt_view(sops_key_file), opt_view(age_identity_file)),
{
    let h = match home {
        Some(h) => h,
        None => "/root",
    };
    let mut r: Vec<String> = Vec::new();
    match age_identity_file {
        Some(p) => {
            r.push(p.to_string());
        },
        None => {},
    }
    match sops_key_file {
        Some(p) => {
            r.push(p.to_string());
        },
        None => {},
    }
    r.push(join_path(h, ".config/sops/age/keys.txt"));
    r.push(join_path(h, ".config/age/keys.txt"));
    r.push(join_path(h, ".ssh/id_ed25519"));
    r.push(join_path(h, ".ssh/id_rsa"));
    r.push("/var/lib/vitro/ssh/id_ed25519".to_string());
    proof {
        assert(views(r@) =~= identities(
            opt_view(home),
            opt_view(sops_key_file),
            opt_view(age_identity_file),
        ));
    }
    r
}

/// The paths that are there, in their order.
pub open spec fn there(paths: Seq<Seq<char>>, exists: Seq<bool>) -> Seq<Seq<char>>
    decreases paths.len(),
{
    if paths.len() == 0 || paths.len() != exists.len() {
        Seq::empty()
    } else {
        let front = there(paths.drop_last(), exists.drop_last());
        if exists.last() {
            front.push(paths.last())
        } else {
            front
        }
    }
}

/// The paths that are there, in their order.
pub fn keep_existing(paths: &Vec<String>, exists: &Vec<bool>) -> (r: Vec<String>)
    requires
        paths@.len() == exists@.len(),
    ensures
        views(r@) == there(views(paths@), exists@),
{
    let ghost all = views(paths@);
    let mut r: Vec<String> = Vec::new();
    for i in 0..paths.len()
        invariant
            all == views(paths@),
            paths@.len() == exists@.len(),
            views(r@) =~= there(all.take(i as int), exists@.take(i as int)),
    {
        proof {
            assert(all.take(i + 1).drop_last() =~= all.take(i as int));
            assert(exists@.take(i + 1).drop_last() =~= exists@.take(i as int));
        }
        if exists[i] {
            let p = paths[i].clone();
            proof {
                lemma_views_push(r@, p);
            }
            r.push(p);
        }
    }
    proof {
        assert(all.take(paths@.len() as int) =~= all);
        assert(exists@.take(paths@.len() as int) =~= exists@);
    }
    r
}

/// The arguments of the `age` call that decrypts with one identity.
pub fn decrypt_args(key: &str, age_file: &str) -> (r: Vec<String>)
    ensures
        views(r@) == seq!["-d"@, "-i"@, key@, age_file@],
{
    vec!["-d".to_string(), "-i".to_string(), key.to_string(), age_file.to_string()]
}

/// What follows a try to decrypt.
#[derive(Clone, Copy, PartialEq, Eq, Structural)]
pub enum DecryptNext {
    /// The identity at this place is tried.
    Try(usize),
    /// What the last one printed is the plaintext.
    Done,
    NoIdentity,
    NoMatch,
}

/// How decrypting with `keys` identities begins.
pub fn decrypt(keys: usize) -> (r: DecryptNext)
    ensures
        r == if keys == 0 {
            DecryptNext::NoIdentity
        } else {
            DecryptNext::Try(0)
        },
{
    if keys == 0 {
        DecryptNext::NoIdentity
    } else {
        DecryptNext::Try(0)
    }
}

/// What follows a try with the identity at place `i` of `keys`.
pub open spec fn decrypt_next(i: usize, keys: usize, fits: bool) -> DecryptNext {
    if fits {
        DecryptNext::Done
    } else if i + 1 < keys {
        DecryptNext::Try((i + 1) as usize)
    } else {
        DecryptNext::NoMatch
    }
}

/// What follows a try with the identity at place `i` of `keys`.
pub fn decrypt_after(i: usize, keys: usize, fits: bool) -> (r: DecryptNext)
    requires
        i < keys,
    ensures
        r == decrypt_next(i, keys, fits),
{
    if fits {
        DecryptNext::Done
    } else if i + 1 < keys {
        DecryptNext::Try(i + 1)
    } else {
        DecryptNext::NoMatch
    }
}

/// Why decrypting ends where no identity is left to try.
pub fn decrypt_error(next: DecryptNext) -> (r: Option<SecretsError>)
    ensures
        match next {
            DecryptNext::NoIdentity => r matches Some(e) && e is NoIdentity,
            DecryptNext::NoMatch => r matches Some(e) && e is NoMatch,
            _ => r is None,
        },
{
    match next {
        DecryptNext::NoIdentity => Some(SecretsError::NoIdentity),
        DecryptNext::NoMatch => Some(SecretsError::NoMatch),
        _ => None,
    }
}

/// The place of the identity that decrypts, when the one at `i` is tried.
pub open spec fn decrypted_by(fits: spec_fn(usize) -> bool, keys: usize, i: usize) -> Option<usize>
    decreases keys - i,
{
    match decrypt_next(i, keys, fits(i)) {
        DecryptNext::Done => Some(i),
        DecryptNext::Try(next) => if i < next < keys {
            decrypted_by(fits, keys, next)
        } else {
            None
        },
        _ => None,
    }
}

/// The first identity that fits decrypts; where none fits, nothing does.
pub proof fn law_first_identity_decrypts(fits: spec_fn(usize) -> bool, keys: usize, i: usize)
    requires
        i < keys,
    ensures
        match decrypted_by(fits, keys, i) {
            Some(k) => i <= k < keys && fits(k) && forall|j: usize|
                i <= j < k ==> !#[trigger] fits(j),
            None => forall|j: usize| i <= j < keys ==> !#[trigger] fits(j),
        },
    decreases keys - i,
{
    if !fits(i) && i + 1 < keys {
        law_first_identity_decrypts(fits, keys, (i + 1) as usize);
    }
}

/// Where the secrets of a repo come from.
pub enum Source {
    /// From a command of `sh` with these arguments.
    Command(Vec<String>),
    /// From a file that is decrypted.
    AgeFile(String),
    /// There are none.
    Nothing,
}

/// Where the secrets of a repo come from: the command that it configures, else
/// its encrypted file, where there is one. They are decrypted where the repo is;
/// a server gets only the plaintext.
pub fn decrypt_content(repo_root: &str, command: Option<&str>, age_exists: bool) -> (r: Source)
    ensures
        match command {
            Some(c) => r matches Source::Command(args) && views(args@) == seq!["-c"@, c@],
            None => if age_exists {
                r matches Source::AgeFile(p) && p@ == below(repo_root@, ".vitro/secrets.age"@)
            } else {
                r is Nothing
            },
        },
{
    match command {
        Some(c) => Source::Command(vec!["-c".to_string(), c.to_string()]),
        None => if age_exists {
            Source::AgeFile(secrets_age_path(repo_root))
        } else {
            Source::Nothing
        },
    }
}

/// What the secrets command printed, where it was successful.
pub fn command_content(success: bool, stdout: String, stderr: &str) -> (r: Result<
    String,
    SecretsError,
>)
    ensures
        match r {
            Ok(c) => success && c@ == stdout@,
            Err(e) => !success && (e matches SecretsError::Command { stderr: t } && t@ == stderr@),
        },
{
    if success {
        Ok(stdout)
    } else {
        Err(SecretsError::Command { stderr: stderr.to_string() })
    }
}

/// A file to write, with its permissions.
pub struct SecretsFile {
    pub path: String,
    pub content: String,
    pub mode: u32,
}

/// The file that gives the secrets to a host that is this machine.
pub fn resolve_local(content: Option<String>) -> (r: Option<SecretsFile>)
    ensures
        match content {
            Some(c) => r matches Some(f) && f.path@ == SECRETS_FILE@ && f.content@ == c@ && f.mode
                == SECRETS_MODE,
            None => r is None,
        },
{
    match content {
        Some(content) => Some(
            SecretsFile { path: SECRETS_FILE.to_string(), content, mode: SECRETS_MODE },
        ),
        None => None,
    }
}

// ---------------------------------------------------------------------
// Encrypting
// ---------------------------------------------------------------------

/// The options that name the recipients.
pub open spec fn recipients(keys: Seq<Seq<char>>) -> Seq<Seq<char>>
    decreases keys.len(),
{
    if keys.len() == 0 {
        Seq::empty()
    } else {
        recipients(keys.drop_last()) + seq!["-r"@, keys.last()]
    }
}

/// The arguments of the `age` call that encrypts the secrets of a repo for all
/// keys.
pub fn encrypt(repo_root: &str, keys: &Vec<String>, env_exists: bool) -> (r: Result<
    Vec<String>,
    SecretsError,
>)
    ensures
        match r {
            Ok(args) => keys@.len() > 0 && env_exists && views(args@) == recipients(views(keys@))
                + seq![
                "-o"@,
                below(repo_root@, ".vitro/secrets.age"@),
                below(repo_root@, ".vitro/secrets.env"@),
            ],
            Err(SecretsError::NoKeys) => keys@.len() == 0,
            Err(e) => keys@.len() > 0 && !env_exists && e is NoPlaintext,
        },
{
    if keys.len() == 0 {
        return Err(SecretsError::NoKeys);
    }
    if !env_exists {
        return Err(SecretsError::NoPlaintext);
    }
    let ghost all = views(keys@);
    let mut args: Vec<String> = Vec::new();
    for i in 0..keys.len()
        invariant
            all == views(keys@),
            views(args@) =~= recipients(all.take(i as int)),
    {
        proof {
            assert(all.take(i + 1).drop_last() =~= all.take(i as int));
        }
        let ghost before = args@;
        args.push("-r".to_string());
        args.push(keys[i].clone());
        proof {
            assert(views(args@) =~= views(before) + seq!["-r"@, keys@[i as int]@]);
        }
    }
    let ghost before = args@;
    args.push("-o".to_string());
    args.push(secrets_age_path(repo_root));
    args.push(secrets_env_path(repo_root));
    proof {
        assert(all.take(keys@.len() as int) =~= all);
        assert(views(args@) =~= views(before) + seq![
            "-o"@,
            below(repo_root@, ".vitro/secrets.age"@),
            below(repo_root@, ".vitro/secrets.env"@),
        ]);
    }
    Ok(args)
}

/// How an encryption went.
pub fn encrypted(success: bool, stderr: &str) -> (r: Result<(), SecretsError>)
    ensures
        match r {
            Ok(_) => success,
            Err(e) => !success && (e matches SecretsError::Encryption { stderr: t } && t@
                == stderr@),
        },
{
    if success {
        Ok(())
    } else {
        Err(SecretsError::Encryption { stderr: stderr.to_string() })
    }
}

/// The encrypted file and the plaintext file of a repo that has the first.
pub fn decrypt_to_env(repo_root: &str, age_exists: bool) -> (r: Result<
    (String, String),
    SecretsError,
>)
    ensures
        match r {
            Ok(p) => age_exists && p.0@ == below(repo_root@, ".vitro/secrets.age"@) && p.1@
                == below(repo_root@, ".vitro/secrets.env"@),
            Err(e) => !age_exists && e is NoCiphertext,
        },
{
    if age_exists {
        Ok((secrets_age_path(repo_root), secrets_env_path(repo_root)))
    } else {
        Err(SecretsError::NoCiphertext)
    }
}

// ---------------------------------------------------------------------
// Editing
// ---------------------------------------------------------------------

/// The steps in which secrets are edited.
#[derive(Clone, Copy, PartialEq, Eq, Structural)]
pub enum EditStep {
    Decrypt,
    WritePlaintext,
    OpenEditor,
    Encrypt,
    RemovePlaintext,
}

/// What follows a step of an edit.
#[derive(Clone, Copy, PartialEq, Eq, Structural)]
pub enum EditNext {
    Step(EditStep),
    Done,
    Fail,
}

/// How an edit begins: what is encrypted is decrypted first. It is refused
/// without keys, for which it could not be encrypted again.
pub fn edit(keys: &Vec<String>, age_exists: bool) -> (r: Result<EditStep, SecretsError>)
    ensures
        match r {
            Ok(step) => keys@.len() > 0 && step == if age_exists {
                EditStep::Decrypt
            } else {
                EditStep::WritePlaintext
            },
            Err(e) => keys@.len() == 0 && e is NoKeys,
        },
{
    if keys.len() == 0 {
        Err(SecretsError::NoKeys)
    } else if age_exists {
        Ok(EditStep::Decrypt)
    } else {
        Ok(EditStep::WritePlaintext)
    }
}

/// What follows a step of an edit. All have to be successful but the last: a
/// plaintext that cannot be removed is only warned of.
pub open spec fn edit_next(step: EditStep, o: Outcome) -> EditNext {
    match step {
        EditStep::RemovePlaintext => EditNext::Done,
        _ => if o != Outcome::Success {
            EditNext::Fail
        } else {
            match step {
                EditStep::Decrypt => EditNext::Step(EditStep::WritePlaintext),
                EditStep::WritePlaintext => EditNext::Step(EditStep::OpenEditor),
                EditStep::OpenEditor => EditNext::Step(EditStep::Encrypt),
                _ => EditNext::Step(EditStep::RemovePlaintext),
            }
        },
    }
}

/// What follows a step of an edit.
pub fn edit_after(step: EditStep, outcome: Outcome) -> (r: EditNext)
    ensures
        r == edit_next(step, outcome),
{
    match (step, outcome) {
        (EditStep::RemovePlaintext, _) => EditNext::Done,
        (EditStep::Decrypt, Outcome::Success) => EditNext::Step(EditStep::WritePlaintext),
        (EditStep::WritePlaintext, Outcome::Success) => EditNext::Step(EditStep::OpenEditor),
        (EditStep::OpenEditor, Outcome::Success) => EditNext::Step(EditStep::Encrypt),
        (EditStep::Encrypt, Outcome::Success) => EditNext::Step(EditStep::RemovePlaintext),
        _ => EditNext::Fail,
    }
}

/// An edit that begins with `first`, and whose steps go as `run` says, comes to
/// this step after `n` others.
pub open spec fn edit_at(
    first: EditStep,
    run: spec_fn(EditStep) -> Outcome,
    n: nat,
) -> Option<EditStep>
    decreases n,
{
    if n == 0 {
        Some(first)
    } else {
        match edit_at(first, run, (n - 1) as nat) {
            Some(step) => match edit_next(step, run(step)) {
                EditNext::Step(next) => Some(next),
                _ => None,
            },
            None => None,
        }
    }
}

/// The plaintext is removed only once it was encrypted, after the editor ended
/// well: no edit loses what was written.
pub proof fn law_removed_after_encrypted(
    first: EditStep,
    run: spec_fn(EditStep) -> Outcome,
    n: nat,
)
    requires
        first == EditStep::Decrypt || first == EditStep::WritePlaintext,
    ensures
        edit_at(first, run, n) == Some(EditStep::RemovePlaintext) ==> run(EditStep::Encrypt)
            == Outcome::Success && run(EditStep::OpenEditor) == Outcome::Success,
        edit_at(first, run, n) == Some(EditStep::Encrypt) ==> run(EditStep::OpenEditor)
            == Outcome::Success,
    decreases n,
{
    if n > 0 {
        law_removed_after_encrypted(first, run, (n - 1) as nat);
    }
}

/// How the editor ended.
pub fn editor_ended(success: bool, status: &str) -> (r: Result<(), SecretsError>)
    ensures
        match r {
            Ok(_) => success,
            Err(e) => !success && (e matches SecretsError::Editor { status: s } && s@
                == status@),
        },
{
    if success {
        Ok(())
    } else {
        Err(SecretsError::Editor { status: status.to_string() })
    }
}

/// The editor to open: the one that the environment names, else `vi`.
pub fn editor(named: Option<&str>) -> (r: String)
    ensures
        r@ == match named {
            Some(e) => e@,
            None => "vi"@,
        },
{
    match named {
        Some(e) => e.to_string(),
        None => "vi".to_string(),
    }
}

} // verus!
