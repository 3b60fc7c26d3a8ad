use vstd::prelude::*;

use crate::config::PersistConfig;
use crate::laws::lemma_views;
use crate::path::below;
use crate::proxy::{
    down_next, prepare_next, reload_ip, up_next, DownNext, DownStep, PrepareNext, PrepareStep,
    UpEvent, UpNext, UpStep,
};
use crate::text::trimmed;
use crate::vm::{
    delete, delete_error, guest_user, is_running, persist_dir, remove_command, run_privileged,
    runner, start, start_command, start_error, stop, stop_command, vm_dir, DeleteEvent, DeleteNext,
    DeleteStep, Outcome, StartNext, StartStep, StopStep, VmError,
};

verus! {

// ---------------------------------------------------------------------
// Starting
// ---------------------------------------------------------------------

/// The steps of a start, in their order.
pub open spec fn start_steps() -> Seq<StartStep> {
    seq![
        StartStep::CreateRuntime,
        StartStep::AllocateIp,
        StartStep::CreatePersist,
        StartStep::WriteFlake,
        StartStep::Build,
        StartStep::MakeVmDir,
        StartStep::OwnVmDir,
        StartStep::DropLink,
        StartStep::Link,
        StartStep::OwnLink,
        StartStep::StartVm,
        StartStep::RegisterProxy,
        StartStep::RegisterDns,
        StartStep::SaveIp,
        StartStep::SaveRepo,
        StartStep::SaveUser,
    ]
}

/// A start goes on behind a step that went so. A link that is not there need not
/// be dropped, and DNS does not count. Commands that prepare the place of the VM,
/// and the proxy, have to run; all else has to be successful.
pub open spec fn start_goes_on(step: StartStep, o: Outcome) -> bool {
    match step {
        StartStep::DropLink | StartStep::RegisterDns => true,
        StartStep::MakeVmDir | StartStep::OwnVmDir | StartStep::Link | StartStep::OwnLink
        | StartStep::RegisterProxy => o != Outcome::Failed,
        _ => o == Outcome::Success,
    }
}

/// An env is being started: each step follows the one before it.
pub open spec fn start_run(steps: Seq<StartStep>, went: Seq<Outcome>, nexts: Seq<StartNext>) -> bool {
    &&& steps.len() > 0 && went.len() == steps.len() && nexts.len() == steps.len()
    &&& steps[0] == StartStep::CreateRuntime
    &&& forall|i: int|
        0 <= i < steps.len() ==> call_ensures(start, (steps[i], went[i]), #[trigger] nexts[i])
    &&& forall|i: int|
        0 <= i < steps.len() - 1 ==> #[trigger] nexts[i] == StartNext::Step(steps[i + 1])
}

proof fn lemma_start_run(
    steps: Seq<StartStep>,
    went: Seq<Outcome>,
    nexts: Seq<StartNext>,
    i: int,
)
    requires
        start_run(steps, went, nexts),
        0 <= i < steps.len(),
    ensures
        i < 16,
        steps[i] == start_steps()[i],
    decreases i,
{
    assert(call_ensures(start, (steps[i], went[i]), nexts[i]));
    if i > 0 {
        lemma_start_run(steps, went, nexts, i - 1);
        assert(call_ensures(start, (steps[i - 1], went[i - 1]), nexts[i - 1]));
        assert(nexts[i - 1] == StartNext::Step(steps[i]));
    }
}

/// How an env is started: step by step in one order, leaving none out. The start
/// is done only when it came to the last step, so the VM was built and started,
/// the env has its rules, and its address, its repo and its user are saved. It
/// ends otherwise only with a step that did not go as it has to, and gives the
/// address back exactly where the build or the VM ran and was not successful.
pub proof fn law_start_does_all(steps: Seq<StartStep>, went: Seq<Outcome>, nexts: Seq<StartNext>)
    requires
        start_run(steps, went, nexts),
    ensures
        steps.len() <= 16,
        forall|i: int| 0 <= i < steps.len() ==> #[trigger] steps[i] == start_steps()[i],
        forall|i: int| 0 <= i < steps.len() - 1 ==> start_goes_on(#[trigger] steps[i], went[i]),
        nexts.last() == StartNext::Done <==> steps.len() == 16 && went.last() == Outcome::Success,
        nexts.last() is Fail <==> !start_goes_on(steps.last(), went.last()),
        nexts.last() == (StartNext::Fail { release_ip: true }) <==> went.last()
            == Outcome::Unsuccessful && (steps.last() == StartStep::Build || steps.last()
            == StartStep::StartVm),
{
    let n = steps.len() as int;
    assert forall|i: int| 0 <= i < steps.len() implies #[trigger] steps[i] == start_steps()[i] by {
        lemma_start_run(steps, went, nexts, i);
    }
    assert forall|i: int| 0 <= i < steps.len() - 1 implies start_goes_on(
        #[trigger] steps[i],
        went[i],
    ) by {
        assert(call_ensures(start, (steps[i], went[i]), nexts[i]));
        assert(nexts[i] is Step);
    }
    lemma_start_run(steps, went, nexts, n - 1);
    assert(call_ensures(start, (steps[n - 1], went[n - 1]), nexts[n - 1]));
}

/// A start that failed says with what: the flake, the build or the VM of that very
/// env.
pub proof fn law_start_error_says(step: StartStep, name: &str, stderr: &str, r: Option<VmError>)
    requires
        call_ensures(start_error, (step, name, stderr), r),
    ensures
        r is Some <==> step == StartStep::WriteFlake || step == StartStep::Build || step
            == StartStep::StartVm,
        step == StartStep::WriteFlake ==> r->0 is FlakeUpdate && r->0->FlakeUpdate_name@ == name@,
        step == StartStep::Build ==> r->0 is Build && r->0->Build_name@ == name@ && r->0->stderr@
            == stderr@,
        step == StartStep::StartVm ==> r->0 is Start && r->0->Start_name@ == name@,
{
}

/// The commands of a start work on one VM: the runner that was built from the
/// env's own flake is linked into the VM's own directory, which is made for it and
/// handed to the user that runs it, and the unit that is started is the one that is
/// asked for and stopped later.
pub proof fn law_start_commands(
    name: &str,
    built: &str,
    dir: String,
    build: Vec<String>,
    make: Vec<String>,
    own: Vec<String>,
    unlink: Vec<String>,
    link: Vec<String>,
    own_link: Vec<String>,
    begin: Vec<String>,
    end: Vec<String>,
    ask: Option<Vec<String>>,
)
    requires
        call_ensures(vm_dir, (name,), dir),
        call_ensures(start_command, (StartStep::Build, name, built), build),
        call_ensures(start_command, (StartStep::MakeVmDir, name, built), make),
        call_ensures(start_command, (StartStep::OwnVmDir, name, built), own),
        call_ensures(start_command, (StartStep::DropLink, name, built), unlink),
        call_ensures(start_command, (StartStep::Link, name, built), link),
        call_ensures(start_command, (StartStep::OwnLink, name, built), own_link),
        call_ensures(start_command, (StartStep::StartVm, name, built), begin),
        call_ensures(stop_command, (name,), end),
        call_ensures(is_running, (name, true), ask),
    ensures
        dir@ == "/var/lib/microvms/"@ + name@,
        build@.len() == 7 && build@[0]@ == "nix"@ && build@[3]@ == "build"@ && build@[4]@
            == "path:"@ + below(below("/var/lib/vitro/envs"@, name@), "flake"@)
            + "#nixosConfigurations."@ + name@ + ".config.microvm.declaredRunner"@ && build@[6]@
            == "--print-out-paths"@,
        build@[1]@ == "--extra-experimental-features"@ && build@[2]@ == "nix-command flakes"@
            && build@[5]@ == "--no-link"@,
        make@.len() == 3 && make@[0]@ == "mkdir"@ && make@[1]@ == "-p"@ && make@[2]@ == dir@,
        own@.len() == 3 && own@[0]@ == "chown"@ && own@[1]@ == "microvm:kvm"@ && own@[2]@ == dir@,
        unlink@.len() == 3 && unlink@[0]@ == "rm"@ && unlink@[1]@ == "-f"@ && unlink@[2]@ == dir@
            + "/current"@,
        link@.len() == 4 && link@[0]@ == "ln"@ && link@[1]@ == "-sf"@ && link@[2]@ == built@
            && link@[3]@ == dir@ + "/current"@,
        own_link@.len() == 4 && own_link@[0]@ == "chown"@ && own_link@[1]@ == "-h"@ && own_link@[2]@
            == "microvm:kvm"@ && own_link@[3]@ == dir@ + "/current"@,
        begin@.len() == 3 && begin@[0]@ == "systemctl"@ && begin@[1]@ == "start"@ && begin@[2]@
            == "microvm@"@ + name@,
        end@.len() == 3 && end@[0]@ == "systemctl"@ && end@[1]@ == "stop"@ && end@[2]@
            == begin@[2]@,
        ask is Some && ask->0@.len() == 2 && ask->0@[0]@ == "is-active"@ && ask->0@[1]@
            == begin@[2]@,
{
    lemma_views(build@);
    lemma_views(make@);
    lemma_views(own@);
    lemma_views(unlink@);
    lemma_views(link@);
    lemma_views(own_link@);
    lemma_views(begin@);
    lemma_views(end@);
    lemma_views(ask->0@);
}

/// An env without the file with its address is not asked for: it does not run.
pub proof fn law_no_address_no_question(name: &str, has_ip: bool, r: Option<Vec<String>>)
    requires
        call_ensures(is_running, (name, has_ip), r),
    ensures
        r is Some <==> has_ip,
{
}

/// What runs with privileges is the same command, behind `sudo` unless the user is
/// root.
pub proof fn law_privileged_is_same(root: bool, args: Vec<String>, r: Vec<String>)
    requires
        call_ensures(run_privileged, (root, args), r),
    ensures
        root ==> r@.len() == args@.len() && forall|i: int|
            0 <= i < r@.len() ==> (#[trigger] r@[i])@ == args@[i]@,
        !root ==> r@.len() == args@.len() + 1 && r@[0]@ == "sudo"@ && forall|i: int|
            0 < i < r@.len() ==> (#[trigger] r@[i])@ == args@[i - 1]@,
{
    lemma_views(r@);
    lemma_views(args@);
}

/// What a build printed is the runner, without white space around it.
pub proof fn law_runner_is_what_was_built(printed: &str, r: String)
    requires
        call_ensures(runner, (printed,), r),
    ensures
        r@ == trimmed(printed@),
{
}

/// The user of a VM is the one that is configured, else the one who starts it.
pub proof fn law_guest_user(configured: Option<String>, user: Option<&str>, r: Option<String>)
    requires
        call_ensures(guest_user, (configured, user), r),
    ensures
        configured is Some && configured->0@.len() > 0 ==> r is Some && r->0@ == configured->0@,
        configured is None && user is Some && user->0@.len() > 0 ==> r is Some && r->0@ == user->0@,
        configured is None && user is None ==> r is None,
        r is Some ==> r->0@.len() > 0,
{
    reveal_strlit("");
}

/// Two directories that an env keeps lie in two places, unless their paths differ
/// only in the slashes in front.
pub proof fn law_kept_apart(name: &str, one: &PersistConfig, other: &PersistConfig, a: String, b: String)
    requires
        call_ensures(persist_dir, (name, one), a),
        call_ensures(persist_dir, (name, other), b),
        one.path@.len() > 1 && one.path@[0] == '/' && one.path@[1] != '/',
        other.path@.len() > 1 && other.path@[0] == '/' && other.path@[1] != '/',
    ensures
        a@ == below(below("/var/lib/vitro/envs"@, name@), "persist"@) + one.path@,
        a@ == b@ <==> one.path@ == other.path@,
{
    lemma_kept_at(name@, one.path@);
    lemma_kept_at(name@, other.path@);
    let base = below(below("/var/lib/vitro/envs"@, name@), "persist"@);
    if a@ == b@ {
        assert(one.path@ =~= (base + one.path@).skip(base.len() as int));
        assert(other.path@ =~= (base + other.path@).skip(base.len() as int));
    }
}

proof fn lemma_kept_at(name: Seq<char>, path: Seq<char>)
    requires
        path.len() > 1 && path[0] == '/' && path[1] != '/',
    ensures
        crate::vm::persist_at(name, path) == below(
            below("/var/lib/vitro/envs"@, name),
            "persist"@,
        ) + path,
{
    reveal_strlit("persist");
    reveal_strlit("/");
    let base = below(below("/var/lib/vitro/envs"@, name), "persist"@);
    reveal_with_fuel(crate::vm::without_slashes, 2);
    assert(path.skip(1)[0] == path[1]);
    assert(base.last() == 't');
    assert(base + path =~= base + "/"@ + path.skip(1));
}

// ---------------------------------------------------------------------
// Stopping
// ---------------------------------------------------------------------

/// How an env is stopped. One that does not run is left alone. Any other leaves
/// the proxy under its address, where that is known, and DNS under its repo, where
/// that is; then its VM is stopped, and last the file goes that marks it as
/// running.
pub proof fn law_stop_leaves_everything(
    has_ip: bool,
    ip_file: Option<&str>,
    repo_file: Option<&str>,
    r: Vec<StopStep>,
)
    requires
        call_ensures(stop, (has_ip, ip_file, repo_file), r),
    ensures
        !has_ip ==> r@.len() == 0,
        has_ip ==> {
            let n = r@.len() as int;
            let ip = ip_file is Some && trimmed(ip_file->0@).len() > 0;
            let repo = repo_file is Some && trimmed(repo_file->0@).len() > 0;
            &&& n == 2 + (if ip {
                1int
            } else {
                0
            }) + (if repo {
                1int
            } else {
                0
            })
            &&& r@[n - 1] is RemoveIpFile
            &&& r@[n - 2] is StopVm
            &&& ip ==> r@[0] is DeregisterProxy && r@[0]->ip@ == trimmed(ip_file->0@)
            &&& repo ==> r@[n - 3] is DeregisterDns && r@[n - 3]->repo@ == trimmed(repo_file->0@)
        },
{
    reveal_strlit("");
    let v = r@.map_values(|s: StopStep| s@);
    assert(v.len() == r@.len());
    assert forall|i: int| 0 <= i < v.len() implies #[trigger] v[i] == r@[i]@ by {}
    if has_ip {
        let n = r@.len() as int;
        assert(v[n - 1] == r@[n - 1]@);
        assert(v[n - 2] == r@[n - 2]@);
        assert(v[0] == r@[0]@);
        if n > 2 {
            assert(v[n - 3] == r@[n - 3]@);
        }
    }
}

// ---------------------------------------------------------------------
// Deleting
// ---------------------------------------------------------------------

/// An env is being deleted: each step follows the one before it.
pub open spec fn delete_run(
    steps: Seq<DeleteStep>,
    events: Seq<DeleteEvent>,
    nexts: Seq<DeleteNext>,
) -> bool {
    &&& steps.len() > 0 && events.len() == steps.len() && nexts.len() == steps.len()
    &&& steps[0] == DeleteStep::AskRunning
    &&& forall|i: int|
        0 <= i < steps.len() ==> call_ensures(delete, (steps[i], events[i]), #[trigger] nexts[i])
    &&& forall|i: int|
        0 <= i < steps.len() - 1 ==> #[trigger] nexts[i] == DeleteNext::Step(steps[i + 1])
}

/// The place of a step in a delete.
spec fn delete_place(step: DeleteStep) -> int {
    match step {
        DeleteStep::AskRunning => 0,
        DeleteStep::Stop => 1,
        DeleteStep::AskEnvDir => 2,
        DeleteStep::RemoveEnvDir => 3,
        DeleteStep::AskVmDir => 4,
        DeleteStep::RemoveVmDir => 5,
        DeleteStep::ReleaseIp => 6,
        DeleteStep::RemoveRuntime => 7,
    }
}

/// The steps up to the one at `i` that every delete has are there.
proof fn lemma_delete_run(
    steps: Seq<DeleteStep>,
    events: Seq<DeleteEvent>,
    nexts: Seq<DeleteNext>,
    i: int,
)
    requires
        delete_run(steps, events, nexts),
        0 <= i < steps.len(),
    ensures
        i <= delete_place(steps[i]),
        steps.take(i + 1).contains(DeleteStep::AskRunning),
        delete_place(steps[i]) >= 2 ==> steps.take(i + 1).contains(DeleteStep::AskEnvDir),
        delete_place(steps[i]) >= 4 ==> steps.take(i + 1).contains(DeleteStep::AskVmDir),
        delete_place(steps[i]) >= 6 ==> steps.take(i + 1).contains(DeleteStep::ReleaseIp),
        delete_place(steps[i]) >= 7 ==> steps.take(i + 1).contains(DeleteStep::RemoveRuntime),
    decreases i,
{
    let t = steps.take(i + 1);
    assert(t[i] == steps[i]);
    assert(call_ensures(delete, (steps[i], events[i]), nexts[i]));
    if i > 0 {
        lemma_delete_run(steps, events, nexts, i - 1);
        assert(call_ensures(delete, (steps[i - 1], events[i - 1]), nexts[i - 1]));
        assert(nexts[i - 1] == DeleteNext::Step(steps[i]));
        let f = steps.take(i);
        assert forall|s: DeleteStep| #[trigger] f.contains(s) implies t.contains(s) by {
            let k = choose|k: int| 0 <= k < f.len() && f[k] == s;
            assert(t[k] == s);
        }
    }
}

/// How the steps of a delete follow one another. An env that runs is stopped;
/// what is there is removed, and what could not be ends the delete. Nothing else
/// does but a question, or a stop, that failed.
pub proof fn law_delete_steps(step: DeleteStep, event: DeleteEvent, next: DeleteNext)
    requires
        call_ensures(delete, (step, event), next),
    ensures
        next == DeleteNext::Fail <==> match step {
            DeleteStep::AskRunning | DeleteStep::Stop => event == DeleteEvent::Failed,
            DeleteStep::RemoveEnvDir | DeleteStep::RemoveVmDir => event != DeleteEvent::Yes,
            _ => false,
        },
        step == DeleteStep::AskRunning && event == DeleteEvent::Yes <==> next == DeleteNext::Step(
            DeleteStep::Stop,
        ),
        step == DeleteStep::AskEnvDir && event == DeleteEvent::Yes <==> next == DeleteNext::Step(
            DeleteStep::RemoveEnvDir,
        ),
        step == DeleteStep::AskVmDir && event == DeleteEvent::Yes <==> next == DeleteNext::Step(
            DeleteStep::RemoveVmDir,
        ),
        next == DeleteNext::Done <==> step == DeleteStep::RemoveRuntime,
        next == DeleteNext::Step(DeleteStep::ReleaseIp) ==> step == DeleteStep::AskVmDir || step
            == DeleteStep::RemoveVmDir,
{
}

/// A delete that is done asked whether the env runs, whether its directory is there
/// and whether that of its VM is, in this order, and then gave its address back and
/// removed what it left at run time. It takes no step twice.
pub proof fn law_delete_does_all(
    steps: Seq<DeleteStep>,
    events: Seq<DeleteEvent>,
    nexts: Seq<DeleteNext>,
)
    requires
        delete_run(steps, events, nexts),
    ensures
        steps.len() <= 8,
        nexts.last() == DeleteNext::Done ==> {
            &&& steps.contains(DeleteStep::AskRunning)
            &&& steps.contains(DeleteStep::AskEnvDir)
            &&& steps.contains(DeleteStep::AskVmDir)
            &&& steps.contains(DeleteStep::ReleaseIp)
            &&& steps.last() == DeleteStep::RemoveRuntime
        },
        forall|i: int, k: int|
            0 <= i < k < steps.len() ==> delete_comes_before(#[trigger] steps[i], #[trigger] steps[k]),
{
    let n = steps.len() as int;
    lemma_delete_run(steps, events, nexts, n - 1);
    assert(steps.take(n) =~= steps);
    assert(call_ensures(delete, (steps[n - 1], events[n - 1]), nexts[n - 1]));
    assert forall|i: int, k: int| 0 <= i < k < n implies delete_comes_before(
        #[trigger] steps[i],
        #[trigger] steps[k],
    ) by {
        lemma_delete_grows(steps, events, nexts, i, k);
    }
}

/// In a delete, one step comes before another.
pub open spec fn delete_comes_before(a: DeleteStep, b: DeleteStep) -> bool {
    match b {
        DeleteStep::AskRunning => false,
        DeleteStep::Stop => a == DeleteStep::AskRunning,
        DeleteStep::AskEnvDir => a == DeleteStep::AskRunning || a == DeleteStep::Stop,
        DeleteStep::RemoveEnvDir => a == DeleteStep::AskRunning || a == DeleteStep::Stop || a
            == DeleteStep::AskEnvDir,
        DeleteStep::AskVmDir => a == DeleteStep::AskRunning || a == DeleteStep::Stop || a
            == DeleteStep::AskEnvDir || a == DeleteStep::RemoveEnvDir,
        DeleteStep::RemoveVmDir => !(a == DeleteStep::RemoveVmDir || a == DeleteStep::ReleaseIp || a
            == DeleteStep::RemoveRuntime),
        DeleteStep::ReleaseIp => !(a == DeleteStep::ReleaseIp || a == DeleteStep::RemoveRuntime),
        DeleteStep::RemoveRuntime => a != DeleteStep::RemoveRuntime,
    }
}

proof fn lemma_delete_grows(
    steps: Seq<DeleteStep>,
    events: Seq<DeleteEvent>,
    nexts: Seq<DeleteNext>,
    i: int,
    k: int,
)
    requires
        delete_run(steps, events, nexts),
        0 <= i < k < steps.len(),
    ensures
        delete_place(steps[i]) < delete_place(steps[k]),
    decreases k - i,
{
    assert(call_ensures(delete, (steps[k - 1], events[k - 1]), nexts[k - 1]));
    assert(nexts[k - 1] == DeleteNext::Step(steps[k]));
    if i < k - 1 {
        lemma_delete_grows(steps, events, nexts, i, k - 1);
    }
}

/// What a delete removes, and what it says it could not remove, are the directory
/// of the env and that of its VM.
pub proof fn law_delete_removes(name: &str, dir: &str, line: Vec<String>, env: Option<VmError>, vm: Option<VmError>)
    requires
        call_ensures(remove_command, (dir,), line),
        call_ensures(delete_error, (DeleteStep::RemoveEnvDir, name), env),
        call_ensures(delete_error, (DeleteStep::RemoveVmDir, name), vm),
    ensures
        line@.len() == 4 && line@[0]@ == "sudo"@ && line@[1]@ == "rm"@ && line@[2]@ == "-rf"@
            && line@[3]@ == dir@,
        env is Some && env->0 is RemoveEnvDir && env->0->RemoveEnvDir_path@ == below(
            "/var/lib/vitro/envs"@,
            name@,
        ),
        vm is Some && vm->0 is RemoveVmDir && vm->0->RemoveVmDir_path@ == "/var/lib/microvms/"@
            + name@,
{
    lemma_views(line@);
}

// ---------------------------------------------------------------------
// On a server
// ---------------------------------------------------------------------

/// How a server brings an env up, whatever went before: the clone is set up, then
/// it is asked whether the env runs, and only one that does not is started. It is
/// done exactly where the env was found running, or was started.
pub proof fn law_up_steps(clone: UpEvent, ask: UpEvent, go: UpEvent, a: UpNext, b: UpNext, c: UpNext)
    requires
        call_ensures(up_next, (UpStep::Clone, clone), a),
        call_ensures(up_next, (UpStep::AskRunning, ask), b),
        call_ensures(up_next, (UpStep::Start, go), c),
    ensures
        a == (if clone == UpEvent::Yes {
            UpNext::Step(UpStep::AskRunning)
        } else {
            UpNext::Fail
        }),
        b == UpNext::Done <==> ask == UpEvent::Yes,
        b == UpNext::Step(UpStep::Start) <==> ask == UpEvent::No,
        b == UpNext::Fail <==> ask == UpEvent::Failed,
        c == (if go == UpEvent::Yes {
            UpNext::Done
        } else {
            UpNext::Fail
        }),
{
}

/// How a server takes an env down: only one that runs is stopped, and one that
/// does not is down already.
pub proof fn law_down_steps(ask: UpEvent, end: UpEvent, a: DownNext, b: DownNext)
    requires
        call_ensures(down_next, (DownStep::AskRunning, ask), a),
        call_ensures(down_next, (DownStep::Stop, end), b),
    ensures
        a == DownNext::Step(DownStep::Stop) <==> ask == UpEvent::Yes,
        a == DownNext::Done <==> ask == UpEvent::No,
        a == DownNext::Fail <==> ask == UpEvent::Failed,
        b == (if end == UpEvent::Yes {
            DownNext::Done
        } else {
            DownNext::Fail
        }),
{
}

/// How a server prepares an env: the clone is set up; then an env that runs at a
/// known address gets its rules anew, under that address, and any other gets none.
pub proof fn law_prepare_steps(
    clone: UpEvent,
    ask: UpEvent,
    register: UpEvent,
    active: bool,
    ip_file: Option<&str>,
    a: PrepareNext,
    b: PrepareNext,
    c: PrepareNext,
    ip: Option<String>,
)
    requires
        call_ensures(prepare_next, (PrepareStep::Clone, clone), a),
        call_ensures(prepare_next, (PrepareStep::AskReload, ask), b),
        call_ensures(prepare_next, (PrepareStep::Register, register), c),
        call_ensures(reload_ip, (active, ip_file), ip),
    ensures
        a == (if clone == UpEvent::Yes {
            PrepareNext::Step(PrepareStep::AskReload)
        } else {
            PrepareNext::Fail
        }),
        b == (if ask == UpEvent::Yes {
            PrepareNext::Step(PrepareStep::Register)
        } else {
            PrepareNext::Done
        }),
        c == (if register == UpEvent::Yes {
            PrepareNext::Done
        } else {
            PrepareNext::Fail
        }),
        ip is Some <==> active && ip_file is Some && trimmed(ip_file->0@).len() > 0,
        ip is Some ==> ip->0@ == trimmed(ip_file->0@),
{
}

} // verus!
