use vstd::prelude::*;

use crate::client::EnvStatus;
use crate::proxy::env_status;
use crate::transport::{
    CellFacts, EnsureEvent, EnsureNext, EnsureState, EnsureStep, LocalTransport, RemoteTransport,
    Transport,
};

verus! {

/// A cell on a server is taken to run exactly where the server lists an env of
/// that name as running: one of that name with any other status does not count,
/// nor does one of another name.
pub proof fn law_runs_only_if_listed_running(
    t: &RemoteTransport,
    cell: &str,
    facts: &CellFacts,
    r: bool,
)
    requires
        call_ensures(RemoteTransport::is_running, (t, cell, facts), r),
    ensures
        r <==> exists|i: int|
            0 <= i < facts.envs@.len() && (#[trigger] facts.envs@[i]).name@ == cell@
                && facts.envs@[i].status@ == "running"@,
        facts.envs@.len() == 0 ==> !r,
        (forall|i: int|
            0 <= i < facts.envs@.len() && (#[trigger] facts.envs@[i]).name@ == cell@
                ==> facts.envs@[i].status@ != "running"@) ==> !r,
{
}

/// What a client takes for running is what runs on the server: where the server
/// told of each env whether it runs, a cell is taken to run exactly where an env
/// of its name does.
pub proof fn law_runs_as_the_server_says(
    t: &RemoteTransport,
    cell: &str,
    facts: &CellFacts,
    names: Seq<String>,
    running: Seq<bool>,
    ips: Seq<Option<&str>>,
    repos: Seq<Option<&str>>,
    r: bool,
)
    requires
        call_ensures(RemoteTransport::is_running, (t, cell, facts), r),
        names.len() == facts.envs@.len(),
        running.len() == facts.envs@.len(),
        ips.len() == facts.envs@.len(),
        repos.len() == facts.envs@.len(),
        forall|i: int|
            0 <= i < facts.envs@.len() ==> call_ensures(
                env_status,
                (names[i], running[i], ips[i], repos[i]),
                #[trigger] facts.envs@[i],
            ),
    ensures
        r <==> exists|i: int| 0 <= i < names.len() && (#[trigger] names[i])@ == cell@ && running[i],
{
    reveal_strlit("running");
    reveal_strlit("stopped");
    assert("running"@[0] != "stopped"@[0]);
    assert forall|i: int| 0 <= i < facts.envs@.len() implies (#[trigger] facts.envs@[i]).name@
        == names[i]@ && (facts.envs@[i].status@ == "running"@ <==> running[i]) by {
        assert(call_ensures(
            env_status,
            (names[i], running[i], ips[i], repos[i]),
            facts.envs@[i],
        ));
    }
    law_runs_only_if_listed_running(t, cell, facts, r);
    if r {
        let i = choose|i: int|
            0 <= i < facts.envs@.len() && (#[trigger] facts.envs@[i]).name@ == cell@
                && facts.envs@[i].status@ == "running"@;
        assert(names[i]@ == cell@ && running[i]);
    }
    if exists|i: int| 0 <= i < names.len() && (#[trigger] names[i])@ == cell@ && running[i] {
        let i = choose|i: int| 0 <= i < names.len() && (#[trigger] names[i])@ == cell@ && running[i];
        assert(facts.envs@[i].name@ == cell@ && facts.envs@[i].status@ == "running"@);
    }
}

/// A cell on this machine runs where its unit is active.
pub proof fn law_runs_if_active(t: &LocalTransport, cell: &str, facts: &CellFacts, r: bool)
    requires
        call_ensures(LocalTransport::is_running, (t, cell, facts), r),
    ensures
        r == facts.unit_active,
{
}

/// The status of an env tells whether it runs; only one that does has an address.
pub proof fn law_status_tells(
    name: String,
    running: bool,
    ip: Option<&str>,
    repo: Option<&str>,
    r: EnvStatus,
)
    requires
        call_ensures(env_status, (name, running, ip, repo), r),
    ensures
        r.name@ == name@,
        running <==> r.status@ == "running"@,
        !running <==> r.status@ == "stopped"@,
        r.ip is Some <==> running && ip is Some,
        r.repo is Some <==> repo is Some,
{
    reveal_strlit("running");
    reveal_strlit("stopped");
    assert("running"@[0] != "stopped"@[0]);
}

/// A cell on a server is being brought up: each state follows the one before it.
pub open spec fn remote_run(
    t: &RemoteTransport,
    states: Seq<EnsureState>,
    events: Seq<EnsureEvent>,
    nexts: Seq<EnsureNext>,
) -> bool {
    &&& states.len() > 0 && events.len() == states.len() && nexts.len() == states.len()
    &&& call_ensures(RemoteTransport::begin, (t,), states[0])
    &&& forall|i: int|
        0 <= i < states.len() ==> call_ensures(
            RemoteTransport::ensure_running,
            (t, states[i], events[i]),
            #[trigger] nexts[i],
        )
    &&& forall|i: int|
        0 <= i < states.len() - 1 ==> #[trigger] nexts[i] == EnsureNext::Go(states[i + 1])
}

proof fn lemma_remote_run(
    t: &RemoteTransport,
    states: Seq<EnsureState>,
    events: Seq<EnsureEvent>,
    nexts: Seq<EnsureNext>,
    i: int,
)
    requires
        remote_run(t, states, events, nexts),
        0 <= i < states.len(),
    ensures
        i < 8,
        states[i].step == seq![
            EnsureStep::AskBranch,
            EnsureStep::AskRunning,
            EnsureStep::Secrets,
            EnsureStep::Prepare,
            EnsureStep::AddRemote,
            EnsureStep::Push,
            EnsureStep::Up,
            EnsureStep::Sync,
        ][i],
        i > 1 ==> states[i].running == (events[1] == EnsureEvent::Yes),
        i > 5 ==> events[1] == EnsureEvent::No,
    decreases i,
{
    assert(call_ensures(RemoteTransport::ensure_running, (t, states[i], events[i]), nexts[i]));
    if i > 0 {
        lemma_remote_run(t, states, events, nexts, i - 1);
        assert(call_ensures(
            RemoteTransport::ensure_running,
            (t, states[i - 1], events[i - 1]),
            nexts[i - 1],
        ));
        assert(nexts[i - 1] == EnsureNext::Go(states[i]));
    }
    if i > 2 {
        lemma_remote_run(t, states, events, nexts, 2);
    }
    if i > 1 {
        assert(call_ensures(RemoteTransport::ensure_running, (t, states[1], events[1]), nexts[1]));
        assert(nexts[1] == EnsureNext::Go(states[2]));
        lemma_remote_run(t, states, events, nexts, 1);
    }
}

/// How a cell on a server is brought up. Its branch is asked for, and whether it
/// runs; its secrets, its clone and its code are brought each time, in this order.
/// That ends well for a cell that runs once its code is there, and for any other
/// only once it was started and its files are there. Nothing but a step that did
/// not go well ends it otherwise, and it never goes on behind one, but for the
/// remote, which may be there already.
pub proof fn law_remote_brought_up(
    t: &RemoteTransport,
    states: Seq<EnsureState>,
    events: Seq<EnsureEvent>,
    nexts: Seq<EnsureNext>,
)
    requires
        remote_run(t, states, events, nexts),
    ensures
        states.len() <= 8,
        forall|i: int|
            0 <= i < states.len() ==> (#[trigger] states[i]).step == seq![
                EnsureStep::AskBranch,
                EnsureStep::AskRunning,
                EnsureStep::Secrets,
                EnsureStep::Prepare,
                EnsureStep::AddRemote,
                EnsureStep::Push,
                EnsureStep::Up,
                EnsureStep::Sync,
            ][i],
        forall|i: int|
            0 <= i < states.len() - 1 && i != 1 && i != 4 ==> #[trigger] events[i]
                == EnsureEvent::Yes,
        states.len() > 2 ==> events[1] != EnsureEvent::Failed,
        states.len() > 6 ==> events[1] == EnsureEvent::No,
        nexts.last() == EnsureNext::Done ==> events.last() == EnsureEvent::Yes && (if events[1]
            == EnsureEvent::Yes {
            states.len() == 6
        } else {
            states.len() == 8
        }),
        nexts.last() == EnsureNext::NoBranch <==> states.len() == 1 && events[0]
            != EnsureEvent::Yes,
        nexts.last() == EnsureNext::Fail ==> events.last() != EnsureEvent::Yes,
        events.last() != EnsureEvent::Yes && states.len() > 2 && states.len() != 5 ==> nexts.last()
            == EnsureNext::Fail,
        states.len() == 2 && events[1] == EnsureEvent::Failed ==> nexts.last() == EnsureNext::Fail,
        states.len() == 2 && events[1] == EnsureEvent::No ==> nexts.last() is Go,
        states.len() == 5 ==> nexts.last() is Go,
{
    let n = states.len() as int;
    assert forall|i: int| 0 <= i < states.len() implies (#[trigger] states[i]).step == seq![
        EnsureStep::AskBranch,
        EnsureStep::AskRunning,
        EnsureStep::Secrets,
        EnsureStep::Prepare,
        EnsureStep::AddRemote,
        EnsureStep::Push,
        EnsureStep::Up,
        EnsureStep::Sync,
    ][i] by {
        lemma_remote_run(t, states, events, nexts, i);
    }
    assert forall|i: int| 0 <= i < states.len() - 1 && i != 1 && i != 4 implies #[trigger] events[i]
        == EnsureEvent::Yes by {
        lemma_remote_run(t, states, events, nexts, i);
        assert(call_ensures(RemoteTransport::ensure_running, (t, states[i], events[i]), nexts[i]));
        assert(nexts[i] is Go);
    }
    lemma_remote_run(t, states, events, nexts, n - 1);
    assert(call_ensures(
        RemoteTransport::ensure_running,
        (t, states[n - 1], events[n - 1]),
        nexts[n - 1],
    ));
    if n > 1 {
        assert(call_ensures(RemoteTransport::ensure_running, (t, states[1], events[1]), nexts[1]));
        lemma_remote_run(t, states, events, nexts, 1);
        if n > 2 {
            assert(nexts[1] is Go);
        }
    }
}

/// A cell on this machine is being brought up: each state follows the one before
/// it.
pub open spec fn local_run(
    t: &LocalTransport,
    states: Seq<EnsureState>,
    events: Seq<EnsureEvent>,
    nexts: Seq<EnsureNext>,
) -> bool {
    &&& states.len() > 0 && events.len() == states.len() && nexts.len() == states.len()
    &&& call_ensures(LocalTransport::begin, (t,), states[0])
    &&& forall|i: int|
        0 <= i < states.len() ==> call_ensures(
            LocalTransport::ensure_running,
            (t, states[i], events[i]),
            #[trigger] nexts[i],
        )
    &&& forall|i: int|
        0 <= i < states.len() - 1 ==> #[trigger] nexts[i] == EnsureNext::Go(states[i + 1])
}

proof fn lemma_local_run(
    t: &LocalTransport,
    states: Seq<EnsureState>,
    events: Seq<EnsureEvent>,
    nexts: Seq<EnsureNext>,
    i: int,
)
    requires
        local_run(t, states, events, nexts),
        0 <= i < states.len(),
    ensures
        i < 5,
        states[i].step == seq![
            EnsureStep::AskRunning,
            EnsureStep::AskBranch,
            EnsureStep::Secrets,
            EnsureStep::Clone,
            EnsureStep::Start,
        ][i],
    decreases i,
{
    assert(call_ensures(LocalTransport::ensure_running, (t, states[i], events[i]), nexts[i]));
    if i > 0 {
        lemma_local_run(t, states, events, nexts, i - 1);
        assert(call_ensures(
            LocalTransport::ensure_running,
            (t, states[i - 1], events[i - 1]),
            nexts[i - 1],
        ));
        assert(nexts[i - 1] == EnsureNext::Go(states[i]));
    }
}

/// How a cell on this machine is brought up. One that runs is left alone; any
/// other has to have a branch, gets its secrets and its clone, and is then
/// started. That ends well for one that does not run only once it was started.
pub proof fn law_local_brought_up(
    t: &LocalTransport,
    states: Seq<EnsureState>,
    events: Seq<EnsureEvent>,
    nexts: Seq<EnsureNext>,
)
    requires
        local_run(t, states, events, nexts),
    ensures
        states.len() <= 5,
        forall|i: int|
            0 <= i < states.len() ==> (#[trigger] states[i]).step == seq![
                EnsureStep::AskRunning,
                EnsureStep::AskBranch,
                EnsureStep::Secrets,
                EnsureStep::Clone,
                EnsureStep::Start,
            ][i],
        states.len() > 1 ==> events[0] == EnsureEvent::No,
        forall|i: int| 0 < i < states.len() - 1 ==> #[trigger] events[i] == EnsureEvent::Yes,
        nexts.last() == EnsureNext::Done <==> events.last() == EnsureEvent::Yes && (states.len()
            == 1 || states.len() == 5),
        nexts.last() == EnsureNext::NoBranch <==> states.len() == 2 && events[1]
            != EnsureEvent::Yes,
        nexts.last() == EnsureNext::Fail <==> (states.len() == 1 && events[0]
            == EnsureEvent::Failed) || (states.len() > 2 && events.last() != EnsureEvent::Yes),
{
    let n = states.len() as int;
    assert forall|i: int| 0 <= i < states.len() implies (#[trigger] states[i]).step == seq![
        EnsureStep::AskRunning,
        EnsureStep::AskBranch,
        EnsureStep::Secrets,
        EnsureStep::Clone,
        EnsureStep::Start,
    ][i] by {
        lemma_local_run(t, states, events, nexts, i);
    }
    assert forall|i: int| 0 <= i < states.len() - 1 implies #[trigger] events[i] == (if i == 0 {
        EnsureEvent::No
    } else {
        EnsureEvent::Yes
    }) by {
        lemma_local_run(t, states, events, nexts, i);
        assert(call_ensures(LocalTransport::ensure_running, (t, states[i], events[i]), nexts[i]));
        assert(nexts[i] is Go);
    }
    if n > 1 {
        assert(events[0] == EnsureEvent::No);
    }
    lemma_local_run(t, states, events, nexts, n - 1);
    assert(call_ensures(
        LocalTransport::ensure_running,
        (t, states[n - 1], events[n - 1]),
        nexts[n - 1],
    ));
}

} // verus!
