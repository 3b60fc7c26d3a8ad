use vstd::prelude::*;

use crate::laws::lemma_views;
use crate::path::below;
use crate::secrets::{
    age_identity_paths, command_content, decrypt, decrypt_after, decrypt_args, decrypt_content,
    decrypt_error, decrypt_to_env, edit, edit_after, editor, editor_ended, encrypt, encrypted,
    keep_existing, recipients, resolve_local, secrets_age_path, secrets_env_path, there,
    DecryptNext, EditNext, EditStep, SecretsError, SecretsFile, Source,
};
use crate::text::views;
use crate::vm::Outcome;

verus! {

// ---------------------------------------------------------------------
// Identities
// ---------------------------------------------------------------------

/// The identities that the environment names come first, then those of the home,
/// and the one of the host last.
pub proof fn law_identities(
    home: Option<&str>,
    sops: Option<&str>,
    age: Option<&str>,
    r: Vec<String>,
)
    requires
        call_ensures(age_identity_paths, (home, sops, age), r),
    ensures
        ({
            let a: int = if age is Some {
                1
            } else {
                0
            };
            let n: int = if sops is Some {
                a + 1
            } else {
                a
            };
            let h = match home {
                Some(h) => h@,
                None => "/root"@,
            };
            &&& r@.len() == n + 5
            &&& age matches Some(p) ==> r@[0]@ == p@
            &&& sops matches Some(p) ==> r@[a]@ == p@
            &&& r@[n]@ == below(h, ".config/sops/age/keys.txt"@)
            &&& r@[n + 1]@ == below(h, ".config/age/keys.txt"@)
            &&& r@[n + 2]@ == below(h, ".ssh/id_ed25519"@)
            &&& r@[n + 3]@ == below(h, ".ssh/id_rsa"@)
            &&& r@[n + 4]@ == "/var/lib/vitro/ssh/id_ed25519"@
        }),
{
    lemma_views(r@);
}

/// `at` gives for each kept path the place it had, in ascending order.
pub open spec fn kept_at(
    paths: Seq<Seq<char>>,
    exists: Seq<bool>,
    kept: Seq<Seq<char>>,
    at: Seq<int>,
) -> bool {
    &&& at.len() == kept.len()
    &&& forall|k: int|
        0 <= k < at.len() ==> 0 <= #[trigger] at[k] < paths.len() && exists[at[k]] && kept[k]
            == paths[at[k]]
    &&& forall|k: int, l: int| 0 <= k < l < at.len() ==> #[trigger] at[k] < #[trigger] at[l]
    &&& forall|j: int| 0 <= j < paths.len() && #[trigger] exists[j] ==> at.contains(j)
}

/// The paths that are there are kept, all of them and no others, in their order.
pub proof fn law_kept_are_there(paths: &Vec<String>, exists: &Vec<bool>, r: Vec<String>)
    requires
        paths@.len() == exists@.len(),
        call_ensures(keep_existing, (paths, exists), r),
    ensures
        exists|at: Seq<int>| kept_at(views(paths@), exists@, views(r@), at),
{
    let at = lemma_there_at(views(paths@), exists@);
    assert(kept_at(views(paths@), exists@, views(r@), at));
}

proof fn lemma_there_at(paths: Seq<Seq<char>>, exists: Seq<bool>) -> (at: Seq<int>)
    requires
        paths.len() == exists.len(),
    ensures
        kept_at(paths, exists, there(paths, exists), at),
    decreases paths.len(),
{
    if paths.len() == 0 {
        Seq::empty()
    } else {
        let n = paths.len() - 1;
        let p = paths.drop_last();
        let e = exists.drop_last();
        let before = lemma_there_at(p, e);
        let at = if exists.last() {
            before.push(n)
        } else {
            before
        };
        assert forall|j: int| 0 <= j < paths.len() && #[trigger] exists[j] implies at.contains(
            j,
        ) by {
            if j < n {
                assert(e[j]);
                assert(before.contains(j));
                let k = before.index_of(j);
                assert(at[k] == j);
            } else {
                assert(at[at.len() - 1] == j);
            }
        }
        assert forall|k: int| 0 <= k < at.len() implies 0 <= #[trigger] at[k] < paths.len()
            && exists[at[k]] && there(paths, exists)[k] == paths[at[k]] by {
            if k < before.len() {
                assert(at[k] == before[k]);
                assert(p[before[k]] == paths[before[k]]);
                assert(e[before[k]] == exists[before[k]]);
            }
        }
        assert forall|k: int, l: int| 0 <= k < l < at.len() implies #[trigger] at[k]
            < #[trigger] at[l] by {
            assert(at[k] == before[k]);
            if l < before.len() {
                assert(at[l] == before[l]);
            }
        }
        at
    }
}

// ---------------------------------------------------------------------
// Decrypting
// ---------------------------------------------------------------------

/// What follows what, when `keys` identities are at hand and `fits` says which of
/// them decrypt.
pub open spec fn decrypt_run(keys: usize, fits: spec_fn(usize) -> bool, nexts: Seq<DecryptNext>) -> bool {
    &&& nexts.len() > 0
    &&& call_ensures(decrypt, (keys,), nexts[0])
    &&& forall|i: int|
        0 <= i < nexts.len() - 1 ==> {
            &&& (#[trigger] nexts[i]) is Try
            &&& call_ensures(
                decrypt_after,
                (nexts[i]->Try_0, keys, fits(nexts[i]->Try_0)),
                nexts[i + 1],
            )
        }
}

/// The identities are tried one after the other, each once, until one fits; it is
/// given up only once none is left.
pub proof fn law_identities_in_turn(
    keys: usize,
    fits: spec_fn(usize) -> bool,
    nexts: Seq<DecryptNext>,
    i: int,
)
    requires
        decrypt_run(keys, fits, nexts),
        0 <= i < nexts.len(),
    ensures
        match nexts[i] {
            DecryptNext::Try(k) => k == i && k < keys && forall|j: usize|
                j < k ==> !#[trigger] fits(j),
            DecryptNext::Done => 0 < i <= keys && fits((i - 1) as usize) && forall|j: usize|
                j < i - 1 ==> !#[trigger] fits(j),
            DecryptNext::NoIdentity => keys == 0 && i == 0,
            DecryptNext::NoMatch => 0 < keys && i == keys && forall|j: usize|
                j < keys ==> !#[trigger] fits(j),
        },
    decreases i,
{
    if i > 0 {
        law_identities_in_turn(keys, fits, nexts, i - 1);
        let before = nexts[i - 1];
        assert(before is Try);
        assert(nexts[i - 1 + 1] == nexts[i]);
    }
}

/// Decrypting fails where there is no identity, or none that fits, and says which;
/// while there is another to try, or one that did fit, it does not.
pub proof fn law_why_not_decrypted(next: DecryptNext, r: Option<SecretsError>)
    requires
        call_ensures(decrypt_error, (next,), r),
    ensures
        r is Some <==> next is NoIdentity || next is NoMatch,
        next is NoIdentity ==> r->0 is NoIdentity,
        next is NoMatch ==> r->0 is NoMatch,
{
}

/// One identity and one file are handed to `age`, to decrypt.
pub proof fn law_decrypt_words(key: &str, file: &str, r: Vec<String>)
    requires
        call_ensures(decrypt_args, (key, file), r),
    ensures
        r@.len() == 4,
        r@[0]@ == "-d"@,
        r@[1]@ == "-i"@ && r@[2]@ == key@,
        r@[3]@ == file@,
{
    lemma_views(r@);
}

/// A command that is configured comes before the encrypted file of the repo. What
/// it prints, to the letter, is what the host gets, in a file that its owner alone
/// may read; where it fails, nothing is written, and what it complained of is
/// reported.
pub proof fn law_secrets_arrive(
    root: &str,
    command: Option<&str>,
    age: bool,
    source: Source,
    success: bool,
    stdout: String,
    stderr: &str,
    content: Result<String, SecretsError>,
    file: Option<SecretsFile>,
)
    requires
        call_ensures(decrypt_content, (root, command, age), source),
        call_ensures(command_content, (success, stdout, stderr), content),
        content is Ok ==> call_ensures(resolve_local, (Some(content->Ok_0),), file),
    ensures
        command matches Some(c) ==> (source matches Source::Command(args) && args@.len() == 2
            && args@[0]@ == "-c"@ && args@[1]@ == c@),
        command is None && age ==> (source matches Source::AgeFile(p) && p@ == below(
            root@,
            ".vitro/secrets.age"@,
        )),
        source is Nothing <==> command is None && !age,
        success ==> content is Ok && (file matches Some(f) && f.path@
            == "/var/lib/vitro/secrets.env"@ && f.content@ == stdout@ && f.mode == 0o600),
        !success ==> (content matches Err(SecretsError::Command { stderr: t }) && t@ == stderr@),
{
    if source is Command {
        lemma_views((source->Command_0)@);
    }
}

/// A host without secrets gets no file.
pub proof fn law_no_secrets_no_file(file: Option<SecretsFile>)
    requires
        call_ensures(resolve_local, (None::<String>,), file),
    ensures
        file is None,
{
}

// ---------------------------------------------------------------------
// Encrypting
// ---------------------------------------------------------------------

/// The encrypted file and the plaintext file of a repo are two: what is encrypted
/// is read from the second and written to the first, and what is decrypted goes
/// the other way.
pub proof fn law_one_pair_of_files(
    root: &str,
    keys: &Vec<String>,
    env: bool,
    age: bool,
    a: String,
    e: String,
    there: Result<Vec<String>, SecretsError>,
    back: Result<(String, String), SecretsError>,
)
    requires
        call_ensures(secrets_age_path, (root,), a),
        call_ensures(secrets_env_path, (root,), e),
        call_ensures(encrypt, (root, keys, env), there),
        call_ensures(decrypt_to_env, (root, age), back),
    ensures
        a@ == below(root@, ".vitro/secrets.age"@),
        e@ == below(root@, ".vitro/secrets.env"@),
        there is Ok <==> keys@.len() > 0 && env,
        there matches Ok(args) ==> {
            let n = args@.len() as int;
            &&& n == 2 * keys@.len() + 3
            &&& args@[n - 3]@ == "-o"@
            &&& args@[n - 2]@ == a@
            &&& args@[n - 1]@ == e@
        },
        keys@.len() == 0 ==> there->Err_0 is NoKeys,
        keys@.len() > 0 && !env ==> there->Err_0 is NoPlaintext,
        age ==> (back matches Ok(p) && p.0@ == a@ && p.1@ == e@),
        !age ==> (back matches Err(x) && x is NoCiphertext),
{
    if there is Ok {
        lemma_views((there->Ok_0)@);
        lemma_recipients_len(views(keys@));
    }
}

/// All keys are recipients, each behind its own option.
pub proof fn law_encrypted_for_all(
    root: &str,
    keys: &Vec<String>,
    args: Vec<String>,
    i: int,
)
    requires
        call_ensures(encrypt, (root, keys, true), Ok::<Vec<String>, SecretsError>(args)),
        0 <= i < keys@.len(),
    ensures
        args@[2 * i]@ == "-r"@,
        args@[2 * i + 1]@ == keys@[i]@,
{
    lemma_views(args@);
    lemma_recipients(views(keys@), i);
    assert(recipients(views(keys@))[2 * i] == views(args@)[2 * i]);
    assert(recipients(views(keys@))[2 * i + 1] == views(args@)[2 * i + 1]);
    assert(views(keys@)[i] == keys@[i]@);
}

proof fn lemma_recipients_len(keys: Seq<Seq<char>>)
    ensures
        recipients(keys).len() == 2 * keys.len(),
    decreases keys.len(),
{
    if keys.len() > 0 {
        lemma_recipients_len(keys.drop_last());
    }
}

proof fn lemma_recipients(keys: Seq<Seq<char>>, i: int)
    requires
        0 <= i < keys.len(),
    ensures
        recipients(keys).len() == 2 * keys.len(),
        recipients(keys)[2 * i] == "-r"@,
        recipients(keys)[2 * i + 1] == keys[i],
    decreases keys.len(),
{
    let front = keys.drop_last();
    lemma_recipients_len(front);
    if i < front.len() {
        lemma_recipients(front, i);
        assert(front[i] == keys[i]);
    }
}

/// An encryption and an editor that fail are reported with what they said.
pub proof fn law_failures_are_told(
    success: bool,
    said: &str,
    a: Result<(), SecretsError>,
    b: Result<(), SecretsError>,
)
    requires
        call_ensures(encrypted, (success, said), a),
        call_ensures(editor_ended, (success, said), b),
    ensures
        a is Ok <==> success,
        b is Ok <==> success,
        !success ==> (a matches Err(SecretsError::Encryption { stderr }) && stderr@ == said@),
        !success ==> (b matches Err(SecretsError::Editor { status }) && status@ == said@),
{
}

// ---------------------------------------------------------------------
// Editing
// ---------------------------------------------------------------------

/// An edit: its steps, how each went, and what followed each.
pub open spec fn edit_run(
    keys: &Vec<String>,
    age: bool,
    steps: Seq<EditStep>,
    outcomes: Seq<Outcome>,
    nexts: Seq<EditNext>,
) -> bool {
    &&& steps.len() > 0
    &&& steps.len() == outcomes.len() == nexts.len()
    &&& call_ensures(edit, (keys, age), Ok::<EditStep, SecretsError>(steps[0]))
    &&& forall|i: int|
        0 <= i < steps.len() ==> call_ensures(
            edit_after,
            (steps[i], outcomes[i]),
            #[trigger] nexts[i],
        )
    &&& forall|i: int|
        0 <= i < steps.len() - 1 ==> #[trigger] nexts[i] == EditNext::Step(steps[i + 1])
}

proof fn lemma_edit_run(
    keys: &Vec<String>,
    age: bool,
    steps: Seq<EditStep>,
    outcomes: Seq<Outcome>,
    nexts: Seq<EditNext>,
    i: int,
)
    requires
        edit_run(keys, age, steps, outcomes, nexts),
        0 <= i < steps.len(),
    ensures
        ({
            let all = seq![
                EditStep::Decrypt,
                EditStep::WritePlaintext,
                EditStep::OpenEditor,
                EditStep::Encrypt,
                EditStep::RemovePlaintext,
            ];
            let k: int = if age {
                i
            } else {
                i + 1
            };
            k < 5 && steps[i] == all[k]
        }),
        forall|j: int| 0 <= j < i ==> #[trigger] outcomes[j] == Outcome::Success,
        keys@.len() > 0,
    decreases i,
{
    if i > 0 {
        lemma_edit_run(keys, age, steps, outcomes, nexts, i - 1);
        assert(nexts[i - 1] == EditNext::Step(steps[i - 1 + 1]));
    }
}

/// An edit that is done decrypted what was encrypted, wrote the plaintext, opened
/// the editor, encrypted and removed the plaintext, in this order, and all went
/// well but perhaps the last. One that fails does so at the step that failed, which
/// is never the last. So no plaintext is removed that was not encrypted.
pub proof fn law_edit_does_all(
    keys: &Vec<String>,
    age: bool,
    steps: Seq<EditStep>,
    outcomes: Seq<Outcome>,
    nexts: Seq<EditNext>,
)
    requires
        edit_run(keys, age, steps, outcomes, nexts),
    ensures
        keys@.len() > 0,
        forall|i: int| 0 <= i < steps.len() - 1 ==> #[trigger] outcomes[i] == Outcome::Success,
        nexts.last() is Done ==> steps == if age {
            seq![
                EditStep::Decrypt,
                EditStep::WritePlaintext,
                EditStep::OpenEditor,
                EditStep::Encrypt,
                EditStep::RemovePlaintext,
            ]
        } else {
            seq![
                EditStep::WritePlaintext,
                EditStep::OpenEditor,
                EditStep::Encrypt,
                EditStep::RemovePlaintext,
            ]
        },
        nexts.last() is Fail <==> outcomes.last() != Outcome::Success && steps.last()
            != EditStep::RemovePlaintext,
        nexts.last() is Done <==> steps.last() == EditStep::RemovePlaintext,
{
    let n = steps.len() - 1;
    lemma_edit_run(keys, age, steps, outcomes, nexts, n);
    assert(nexts[n] == nexts.last());
    assert forall|i: int| 0 <= i <= n implies #[trigger] steps[i] == seq![
        EditStep::Decrypt,
        EditStep::WritePlaintext,
        EditStep::OpenEditor,
        EditStep::Encrypt,
        EditStep::RemovePlaintext,
    ][if age {
        i
    } else {
        i + 1
    }] by {
        lemma_edit_run(keys, age, steps, outcomes, nexts, i);
    }
    if nexts.last() is Done {
        if age {
            assert(n == 4);
            assert(steps =~= seq![
                EditStep::Decrypt,
                EditStep::WritePlaintext,
                EditStep::OpenEditor,
                EditStep::Encrypt,
                EditStep::RemovePlaintext,
            ]);
        } else {
            assert(n == 3);
            assert(steps =~= seq![
                EditStep::WritePlaintext,
                EditStep::OpenEditor,
                EditStep::Encrypt,
                EditStep::RemovePlaintext,
            ]);
        }
    }
}

/// What could not be encrypted again is not edited.
pub proof fn law_no_edit_without_keys(keys: &Vec<String>, age: bool, r: Result<EditStep, SecretsError>)
    requires
        call_ensures(edit, (keys, age), r),
    ensures
        r is Err <==> keys@.len() == 0,
        r matches Err(e) ==> e is NoKeys,
{
}

/// The editor that is named is opened, and `vi` where none is.
pub proof fn law_editor(named: Option<&str>, r: String)
    requires
        call_ensures(editor, (named,), r),
    ensures
        named matches Some(e) ==> r@ == e@,
        named is None ==> r@ == "vi"@,
{
}

} // verus!
