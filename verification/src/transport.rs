use vstd::prelude::*;

use crate::client::{client_shell, hop_options, repo_in, Client, EnvStatus};
use crate::path::{file_name, last_component};
use crate::remote::{remote_url, url_of};
use crate::shell::{escaped, hop, shell_escape};
use crate::text::{opt_text, opt_view, same, trim, trimmed, views};
use crate::vm::{
    acp_forward, run_line, shell, shell_capture, shell_line, takes_pty, vm_ssh, workspace_of,
};

verus! {

/// The log of a script that runs by itself.
pub const RUN_LOG: &'static str = "/tmp/vitro/run.log";

// ---------------------------------------------------------------------
// Running a script
// ---------------------------------------------------------------------

/// The assignments before a command.
pub open spec fn assignments(env: Seq<(String, String)>) -> Seq<char>
    decreases env.len(),
{
    if env.len() == 0 {
        ""@
    } else {
        assignments(env.drop_last()) + (env.last().0@ + "="@ + escaped(env.last().1@) + " "@)
    }
}

/// The command that makes a script executable and runs it with an environment.
pub open spec fn run_script_line(script: Seq<char>, env: Seq<(String, String)>) -> Seq<char> {
    "chmod +x "@ + escaped(script) + " && "@ + assignments(env) + escaped(script)
}

/// How a script is run in a cell.
pub enum RunCommand {
    /// The command waits for it.
    Attached { inner: String },
    /// It runs by itself and writes a log.
    Detached { inner: String, log: &'static str },
}

/// The command that starts a script in a cell.
pub fn build_run_cmd(script_path: &str, env: &Vec<(String, String)>, attached: bool) -> (r:
    RunCommand)
    ensures
        match r {
            RunCommand::Attached { inner } => attached && inner@ == run_script_line(
                script_path@,
                env@,
            ),
            RunCommand::Detached { inner, log } => !attached && inner@ == run_script_line(
                script_path@,
                env@,
            ) && log@ == RUN_LOG@,
        },
{
    let mut prefix = "".to_string();
    for i in 0..env.len()
        invariant
            prefix@ == assignments(env@.take(i as int)),
    {
        proof {
            assert(env@.take(i + 1).drop_last() =~= env@.take(i as int));
        }
        let mut one = env[i].0.clone();
        one.append("=");
        one.append(shell_escape(env[i].1.as_str()).as_str());
        one.append(" ");
        prefix.append(one.as_str());
    }
    proof {
        assert(env@.take(env@.len() as int) =~= env@);
    }
    let mut inner = "chmod +x ".to_string();
    inner.append(shell_escape(script_path).as_str());
    inner.append(" && ");
    inner.append(prefix.as_str());
    inner.append(shell_escape(script_path).as_str());
    if attached {
        RunCommand::Attached { inner }
    } else {
        RunCommand::Detached { inner, log: RUN_LOG }
    }
}

/// The command that shows the log of a script.
pub open spec fn logs_line(follow: bool) -> Seq<char> {
    (if follow {
        "tail -f "@
    } else {
        "tail -100 "@
    }) + RUN_LOG@ + " 2>/dev/null || echo 'no run log yet'"@
}

// ---------------------------------------------------------------------
// Errors
// ---------------------------------------------------------------------

#[derive(Debug)]
pub enum TransportError {
    NoBranch { cell: String },
    Push { cell: String, stderr: String },
}

impl TransportError {
    pub fn message(&self) -> (r: String)
        ensures
            r@ == match self {
                TransportError::NoBranch { cell } => "branch '"@ + cell@
                    + "' does not exist — use 'vitro create "@ + cell@ + "' first"@,
                TransportError::Push { cell, stderr } => "git push vitro "@ + cell@
                    + " failed — cell would run with stale code.\nstderr: "@ + trimmed(stderr@),
            },
    {
        match self {
            TransportError::NoBranch { cell } => {
                let mut s = "branch '".to_string();
                s.append(cell.as_str());
                s.append("' does not exist — use 'vitro create ");
                s.append(cell.as_str());
                s.append("' first");
                s
            },
            TransportError::Push { cell, stderr } => {
                let mut s = "git push vitro ".to_string();
                s.append(cell.as_str());
                s.append(" failed — cell would run with stale code.\nstderr: ");
                s.append(trim(stderr.as_str()));
                s
            },
        }
    }
}

// ---------------------------------------------------------------------
// Bringing a cell up
// ---------------------------------------------------------------------

/// The steps in which a cell is brought up. The first two ask, the others act.
#[derive(Clone, Copy, PartialEq, Eq, Structural)]
pub enum EnsureStep {
    AskRunning,
    AskBranch,
    Secrets,
    Clone,
    Start,
    Prepare,
    AddRemote,
    Push,
    Up,
    Sync,
}

/// Where bringing a cell up stands: the step, and whether the cell was found
/// running.
#[derive(Clone, Copy, PartialEq, Eq, Structural)]
pub struct EnsureState {
    pub step: EnsureStep,
    pub running: bool,
}

/// How a step went: what a question was answered, and whether an action was
/// successful.
#[derive(Clone, Copy, PartialEq, Eq, Structural)]
pub enum EnsureEvent {
    Yes,
    No,
    Failed,
}

/// What follows.
#[derive(Clone, Copy, PartialEq, Eq, Structural)]
pub enum EnsureNext {
    Go(EnsureState),
    Done,
    /// The cell has no branch.
    NoBranch,
    /// What the step was for could not be done.
    Fail,
}

/// The next step of an action that has to be successful.
pub open spec fn on_success(s: EnsureState, e: EnsureEvent, next: EnsureStep) -> EnsureNext {
    if e == EnsureEvent::Yes {
        EnsureNext::Go(EnsureState { step: next, running: s.running })
    } else {
        EnsureNext::Fail
    }
}

/// How a cell on this machine is brought up: one that runs is left alone, and
/// one without a branch is refused. The secrets, the clone and the VM follow.
pub open spec fn local_next(s: EnsureState, e: EnsureEvent) -> EnsureNext {
    match s.step {
        EnsureStep::AskRunning => match e {
            EnsureEvent::Yes => EnsureNext::Done,
            EnsureEvent::No => EnsureNext::Go(
                EnsureState { step: EnsureStep::AskBranch, running: false },
            ),
            EnsureEvent::Failed => EnsureNext::Fail,
        },
        EnsureStep::AskBranch => if e == EnsureEvent::Yes {
            EnsureNext::Go(EnsureState { step: EnsureStep::Secrets, running: s.running })
        } else {
            EnsureNext::NoBranch
        },
        EnsureStep::Secrets => on_success(s, e, EnsureStep::Clone),
        EnsureStep::Clone => on_success(s, e, EnsureStep::Start),
        _ => if e == EnsureEvent::Yes {
            EnsureNext::Done
        } else {
            EnsureNext::Fail
        },
    }
}

/// How a cell on a server is brought up: one without a branch is refused. The
/// secrets, the clone and the code are brought to the server each time, also for
/// a cell that runs; only one that does not is then started, and given the
/// user's files. It does not matter whether the remote could be added.
pub open spec fn remote_next(s: EnsureState, e: EnsureEvent) -> EnsureNext {
    match s.step {
        EnsureStep::AskBranch => if e == EnsureEvent::Yes {
            EnsureNext::Go(EnsureState { step: EnsureStep::AskRunning, running: s.running })
        } else {
            EnsureNext::NoBranch
        },
        EnsureStep::AskRunning => match e {
            EnsureEvent::Yes => EnsureNext::Go(
                EnsureState { step: EnsureStep::Secrets, running: true },
            ),
            EnsureEvent::No => EnsureNext::Go(
                EnsureState { step: EnsureStep::Secrets, running: false },
            ),
            EnsureEvent::Failed => EnsureNext::Fail,
        },
        EnsureStep::Secrets => on_success(s, e, EnsureStep::Prepare),
        EnsureStep::Prepare => on_success(s, e, EnsureStep::AddRemote),
        EnsureStep::AddRemote => EnsureNext::Go(
            EnsureState { step: EnsureStep::Push, running: s.running },
        ),
        EnsureStep::Push => if e != EnsureEvent::Yes {
            EnsureNext::Fail
        } else if s.running {
            EnsureNext::Done
        } else {
            EnsureNext::Go(EnsureState { step: EnsureStep::Up, running: s.running })
        },
        EnsureStep::Up => on_success(s, e, EnsureStep::Sync),
        _ => if e == EnsureEvent::Yes {
            EnsureNext::Done
        } else {
            EnsureNext::Fail
        },
    }
}

fn go_on_success(s: EnsureState, e: EnsureEvent, next: EnsureStep) -> (r: EnsureNext)
    ensures
        r == on_success(s, e, next),
{
    match e {
        EnsureEvent::Yes => EnsureNext::Go(EnsureState { step: next, running: s.running }),
        _ => EnsureNext::Fail,
    }
}

// ---------------------------------------------------------------------
// Transports
// ---------------------------------------------------------------------

/// What a transport learns of a cell before it acts on it. One that goes to a
/// server does not look at the first three, one on this machine not at the
/// others.
pub struct CellFacts {
    /// Whether the unit of the VM is active.
    pub unit_active: bool,
    /// Where the VM is reached with `ssh`.
    pub target: String,
    /// The file that names the repo of the VM.
    pub repo_file: Option<String>,
    /// The envs that the server lists.
    pub envs: Vec<EnvStatus>,
    /// The address that the server gave for the cell.
    pub vm_ip: Option<String>,
}

/// The way to a cell: on this machine, or on a server.
pub trait Transport {
    /// How bringing a cell up begins.
    spec fn first_step(&self) -> EnsureStep;

    /// What follows a step of bringing a cell up.
    spec fn next(&self, s: EnsureState, e: EnsureEvent) -> EnsureNext;

    /// A cell runs.
    spec fn runs(&self, cell: Seq<char>, facts: CellFacts) -> bool;

    /// The arguments of the `ssh` call for a shell in a cell.
    spec fn shell_args(
        &self,
        cell: Seq<char>,
        command: Option<Seq<char>>,
        session: Option<Seq<char>>,
        facts: CellFacts,
    ) -> Seq<Seq<char>>;

    /// The arguments of the `ssh` call that runs one command in a cell.
    spec fn command_args(&self, cell: Seq<char>, command: Seq<char>, facts: CellFacts) -> Seq<
        Seq<char>,
    >;

    fn is_running(&self, cell: &str, facts: &CellFacts) -> (r: bool)
        ensures
            r == self.runs(cell@, *facts),
    ;

    fn begin(&self) -> (r: EnsureState)
        ensures
            r == (EnsureState { step: self.first_step(), running: false }),
    ;

    fn ensure_running(&self, state: EnsureState, event: EnsureEvent) -> (r: EnsureNext)
        ensures
            r == self.next(state, event),
    ;

    fn shell(
        &self,
        cell: &str,
        command: Option<&str>,
        session: Option<&str>,
        facts: &CellFacts,
    ) -> (r: Vec<String>)
        ensures
            views(r@) == self.shell_args(cell@, opt_view(command), opt_view(session), *facts),
    ;

    /// Run a single command and capture what it prints.
    fn shell_capture(&self, cell: &str, command: &str, facts: &CellFacts) -> (r: Vec<String>)
        ensures
            views(r@) == self.command_args(cell@, command@, *facts),
    ;

    /// Join the standard streams to a command in the cell, without a terminal.
    fn acp_forward(&self, cell: &str, command: &str, facts: &CellFacts) -> (r: Vec<String>)
        ensures
            views(r@) == self.command_args(cell@, command@, *facts),
    ;

    fn run_start(&self, script_path: &str, env: &Vec<(String, String)>, attached: bool) -> (r:
        RunCommand)
        ensures
            match r {
                RunCommand::Attached { inner } => attached && inner@ == run_script_line(
                    script_path@,
                    env@,
                ),
                RunCommand::Detached { inner, log } => !attached && inner@ == run_script_line(
                    script_path@,
                    env@,
                ) && log@ == RUN_LOG@,
            },
    {
        build_run_cmd(script_path, env, attached)
    }

    fn run_logs(&self, follow: bool) -> (r: String)
        ensures
            r@ == logs_line(follow),
    {
        let mut s = if follow {
            "tail -f ".to_string()
        } else {
            "tail -100 ".to_string()
        };
        s.append(RUN_LOG);
        s.append(" 2>/dev/null || echo 'no run log yet'");
        s
    }
}

/// The way to a cell on this machine.
pub struct LocalTransport;

fn file_text(file: &Option<String>) -> (r: Option<&str>)
    ensures
        opt_view(r) == opt_text(*file),
{
    match file {
        Some(s) => Some(s.as_str()),
        None => None,
    }
}

impl Transport for LocalTransport {
    open spec fn first_step(&self) -> EnsureStep {
        EnsureStep::AskRunning
    }

    open spec fn next(&self, s: EnsureState, e: EnsureEvent) -> EnsureNext {
        local_next(s, e)
    }

    open spec fn runs(&self, cell: Seq<char>, facts: CellFacts) -> bool {
        facts.unit_active
    }

    open spec fn shell_args(
        &self,
        cell: Seq<char>,
        command: Option<Seq<char>>,
        session: Option<Seq<char>>,
        facts: CellFacts,
    ) -> Seq<Seq<char>> {
        vm_ssh(
            takes_pty(command, session),
            facts.target@,
            shell_line(cell, workspace_of(opt_text(facts.repo_file)), command, session),
        )
    }

    open spec fn command_args(&self, cell: Seq<char>, command: Seq<char>, facts: CellFacts) -> Seq<
        Seq<char>,
    > {
        vm_ssh(
            false,
            facts.target@,
            run_line(workspace_of(opt_text(facts.repo_file)), command),
        )
    }

    fn is_running(&self, cell: &str, facts: &CellFacts) -> (r: bool) {
        facts.unit_active
    }

    fn begin(&self) -> (r: EnsureState) {
        EnsureState { step: EnsureStep::AskRunning, running: false }
    }

    fn ensure_running(&self, state: EnsureState, event: EnsureEvent) -> (r: EnsureNext) {
        match state.step {
            EnsureStep::AskRunning => match event {
                EnsureEvent::Yes => EnsureNext::Done,
                EnsureEvent::No => EnsureNext::Go(
                    EnsureState { step: EnsureStep::AskBranch, running: false },
                ),
                EnsureEvent::Failed => EnsureNext::Fail,
            },
            EnsureStep::AskBranch => match event {
                EnsureEvent::Yes => EnsureNext::Go(
                    EnsureState { step: EnsureStep::Secrets, running: state.running },
                ),
                _ => EnsureNext::NoBranch,
            },
            EnsureStep::Secrets => go_on_success(state, event, EnsureStep::Clone),
            EnsureStep::Clone => go_on_success(state, event, EnsureStep::Start),
            _ => match event {
                EnsureEvent::Yes => EnsureNext::Done,
                _ => EnsureNext::Fail,
            },
        }
    }

    fn shell(
        &self,
        cell: &str,
        command: Option<&str>,
        session: Option<&str>,
        facts: &CellFacts,
    ) -> (r: Vec<String>) {
        shell(cell, facts.target.as_str(), file_text(&facts.repo_file), command, session)
    }

    fn shell_capture(&self, cell: &str, command: &str, facts: &CellFacts) -> (r: Vec<String>) {
        shell_capture(facts.target.as_str(), file_text(&facts.repo_file), command)
    }

    fn acp_forward(&self, cell: &str, command: &str, facts: &CellFacts) -> (r: Vec<String>) {
        acp_forward(facts.target.as_str(), file_text(&facts.repo_file), command)
    }
}

/// The way to a cell on a server.
pub struct RemoteTransport {
    pub client: Client,
}

/// A server lists a cell as running.
pub open spec fn listed_running(envs: Seq<EnvStatus>, cell: Seq<char>) -> bool {
    exists|i: int|
        0 <= i < envs.len() && (#[trigger] envs[i]).name@ == cell && envs[i].status@ == "running"@
}

impl Transport for RemoteTransport {
    open spec fn first_step(&self) -> EnsureStep {
        EnsureStep::AskBranch
    }

    open spec fn next(&self, s: EnsureState, e: EnsureEvent) -> EnsureNext {
        remote_next(s, e)
    }

    open spec fn runs(&self, cell: Seq<char>, facts: CellFacts) -> bool {
        listed_running(facts.envs@, cell)
    }

    open spec fn shell_args(
        &self,
        cell: Seq<char>,
        command: Option<Seq<char>>,
        session: Option<Seq<char>>,
        facts: CellFacts,
    ) -> Seq<Seq<char>> {
        client_shell(
            self.client.server(),
            cell,
            command,
            session,
            opt_text(facts.vm_ip),
            repo_in(facts.envs@, cell),
        )
    }

    open spec fn command_args(&self, cell: Seq<char>, command: Seq<char>, facts: CellFacts) -> Seq<
        Seq<char>,
    > {
        hop_options() + seq![self.client.server(), hop(cell, command, None)]
    }

    fn is_running(&self, cell: &str, facts: &CellFacts) -> (r: bool) {
        for i in 0..facts.envs.len()
            invariant
                forall|k: int|
                    0 <= k < i ==> !((#[trigger] facts.envs@[k]).name@ == cell@
                        && facts.envs@[k].status@ == "running"@),
        {
            if same(facts.envs[i].name.as_str(), cell) && same(
                facts.envs[i].status.as_str(),
                "running",
            ) {
                return true;
            }
        }
        false
    }

    fn begin(&self) -> (r: EnsureState) {
        EnsureState { step: EnsureStep::AskBranch, running: false }
    }

    fn ensure_running(&self, state: EnsureState, event: EnsureEvent) -> (r: EnsureNext) {
        match state.step {
            EnsureStep::AskBranch => match event {
                EnsureEvent::Yes => EnsureNext::Go(
                    EnsureState { step: EnsureStep::AskRunning, running: state.running },
                ),
                _ => EnsureNext::NoBranch,
            },
            EnsureStep::AskRunning => match event {
                EnsureEvent::Yes => EnsureNext::Go(
                    EnsureState { step: EnsureStep::Secrets, running: true },
                ),
                EnsureEvent::No => EnsureNext::Go(
                    EnsureState { step: EnsureStep::Secrets, running: false },
                ),
                EnsureEvent::Failed => EnsureNext::Fail,
            },
            EnsureStep::Secrets => go_on_success(state, event, EnsureStep::Prepare),
            EnsureStep::Prepare => go_on_success(state, event, EnsureStep::AddRemote),
            EnsureStep::AddRemote => EnsureNext::Go(
                EnsureState { step: EnsureStep::Push, running: state.running },
            ),
            EnsureStep::Push => match event {
                EnsureEvent::Yes => if state.running {
                    EnsureNext::Done
                } else {
                    EnsureNext::Go(EnsureState { step: EnsureStep::Up, running: state.running })
                },
                _ => EnsureNext::Fail,
            },
            EnsureStep::Up => go_on_success(state, event, EnsureStep::Sync),
            _ => match event {
                EnsureEvent::Yes => EnsureNext::Done,
                _ => EnsureNext::Fail,
            },
        }
    }

    fn shell(
        &self,
        cell: &str,
        command: Option<&str>,
        session: Option<&str>,
        facts: &CellFacts,
    ) -> (r: Vec<String>) {
        self.client.shell(cell, command, session, file_text(&facts.vm_ip), &facts.envs)
    }

    fn shell_capture(&self, cell: &str, command: &str, facts: &CellFacts) -> (r: Vec<String>) {
        self.client.shell_capture(cell, command)
    }

    fn acp_forward(&self, cell: &str, command: &str, facts: &CellFacts) -> (r: Vec<String>) {
        self.client.acp_forward(cell, command)
    }
}

/// The URL under which a repo reaches a cell on a server.
pub fn cell_url(transport: &RemoteTransport, cell: &str) -> (r: String)
    ensures
        r@ == url_of(transport.client.server(), cell@),
{
    remote_url(transport.client.user_host(), cell)
}

/// Whether the branch of a cell reached the server: a cell is not run with code
/// that is stale.
pub fn pushed(cell: &str, success: bool, stderr: &str) -> (r: Result<(), TransportError>)
    ensures
        match r {
            Ok(_) => success,
            Err(e) => !success && (e matches TransportError::Push { cell: c, stderr: t } && c@
                == cell@ && t@ == stderr@),
        },
{
    if success {
        Ok(())
    } else {
        Err(TransportError::Push { cell: cell.to_string(), stderr: stderr.to_string() })
    }
}

/// The arguments of the `git` call that pushes a cell's branch.
pub fn push_args(cell: &str) -> (r: Vec<String>)
    ensures
        views(r@) == seq!["push"@, "vitro"@, cell@],
{
    vec!["push".to_string(), "vitro".to_string(), cell.to_string()]
}

/// The name of a repo: the last component of its root.
pub open spec fn repo_name_of(root: Seq<char>) -> Seq<char> {
    match last_component(root) {
        Some(n) => n,
        None => "unknown"@,
    }
}

/// The name of a repo: the last component of its root.
pub fn repo_name(root: &str) -> (r: String)
    ensures
        r@ == repo_name_of(root@),
{
    match file_name(root) {
        Some(n) => n,
        None => "unknown".to_string(),
    }
}

// ---------------------------------------------------------------------
// What bringing a cell up promises
// ---------------------------------------------------------------------

/// Where bringing a cell up stands after `n` steps that go as `go` says.
pub open spec fn ensure_at<T: Transport>(
    t: T,
    go: spec_fn(EnsureStep) -> EnsureEvent,
    n: nat,
) -> Option<EnsureState>
    decreases n,
{
    if n == 0 {
        Some(EnsureState { step: t.first_step(), running: false })
    } else {
        match ensure_at(t, go, (n - 1) as nat) {
            Some(s) => match t.next(s, go(s.step)) {
                EnsureNext::Go(next) => Some(next),
                _ => None,
            },
            None => None,
        }
    }
}

/// What has been done for a cell on a server when a step is reached.
pub open spec fn remote_has(go: spec_fn(EnsureStep) -> EnsureEvent, s: EnsureState) -> bool {
    let branch = go(EnsureStep::AskBranch) == EnsureEvent::Yes;
    let asked = branch && s.running == (go(EnsureStep::AskRunning) == EnsureEvent::Yes);
    let secrets = asked && go(EnsureStep::Secrets) == EnsureEvent::Yes;
    let prepared = secrets && go(EnsureStep::Prepare) == EnsureEvent::Yes;
    let pushed = prepared && go(EnsureStep::Push) == EnsureEvent::Yes && !s.running;
    match s.step {
        EnsureStep::AskBranch => true,
        EnsureStep::AskRunning => branch,
        EnsureStep::Secrets => asked,
        EnsureStep::Prepare => secrets,
        EnsureStep::AddRemote | EnsureStep::Push => prepared,
        EnsureStep::Up => pushed,
        EnsureStep::Sync => pushed && go(EnsureStep::Up) == EnsureEvent::Yes,
        _ => false,
    }
}

/// A cell on a server is started only once its code was pushed, and only where it
/// was found not to run. Each step follows the ones that it needs.
pub proof fn law_remote_started_after_push(
    t: RemoteTransport,
    go: spec_fn(EnsureStep) -> EnsureEvent,
    n: nat,
)
    ensures
        ensure_at(t, go, n) matches Some(s) ==> remote_has(go, s),
    decreases n,
{
    if n > 0 {
        law_remote_started_after_push(t, go, (n - 1) as nat);
    }
}

/// A cell on a server is never brought up with stale code: wherever that ends
/// well, also for one that was running, its code was pushed.
pub proof fn law_remote_never_stale(
    t: RemoteTransport,
    go: spec_fn(EnsureStep) -> EnsureEvent,
    n: nat,
)
    ensures
        ensure_at(t, go, n) matches Some(s) && t.next(s, go(s.step)) == EnsureNext::Done ==> go(
            EnsureStep::Push,
        ) == EnsureEvent::Yes,
{
    law_remote_started_after_push(t, go, n);
}

/// What has been done for a cell on this machine when a step is reached.
pub open spec fn local_has(go: spec_fn(EnsureStep) -> EnsureEvent, s: EnsureState) -> bool {
    let idle = go(EnsureStep::AskRunning) == EnsureEvent::No;
    let branch = idle && go(EnsureStep::AskBranch) == EnsureEvent::Yes;
    match s.step {
        EnsureStep::AskRunning => true,
        EnsureStep::AskBranch => idle,
        EnsureStep::Secrets => branch,
        EnsureStep::Clone => branch && go(EnsureStep::Secrets) == EnsureEvent::Yes,
        EnsureStep::Start => branch && go(EnsureStep::Secrets) == EnsureEvent::Yes && go(
            EnsureStep::Clone,
        ) == EnsureEvent::Yes,
        _ => false,
    }
}

/// A cell on this machine is started only where it did not run and has a branch,
/// after its secrets and its clone are in place.
pub proof fn law_local_start_order(
    t: LocalTransport,
    go: spec_fn(EnsureStep) -> EnsureEvent,
    n: nat,
)
    ensures
        ensure_at(t, go, n) matches Some(s) ==> local_has(go, s),
    decreases n,
{
    if n > 0 {
        law_local_start_order(t, go, (n - 1) as nat);
    }
}

} // verus!
