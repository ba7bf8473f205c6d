use vstd::prelude::*;

verus! {

/// How a process's log file is prepared at each start.
#[derive(Clone, Copy, Debug, PartialEq, Eq, Structural)]
pub enum LogsMode {
    Override,
    Append,
}

/// When the lifecycle controller respawns a child that exited.
#[derive(Clone, Copy, Debug, PartialEq, Eq, Structural)]
pub enum RestartMode {
    OnError,
    Always,
    Never,
}

/// The lifecycle state of a supervised process.
#[derive(Clone, Copy, Debug, PartialEq, Eq, Structural)]
pub enum ProcessStatus {
    Initialized,
    Started,
    Starting,
    Paused,
    Pausing,
    Error,
    NotFound,
}

/// An instruction delivered to a process's lifecycle controller.
#[derive(Clone, Copy, Debug, PartialEq, Eq, Structural)]
pub enum ControlSignal {
    Restart,
    Stop,
}

/// The restart policy in force: `Always` when the configuration names none.
pub open spec fn effective_mode(mode: Option<RestartMode>) -> RestartMode {
    match mode {
        Some(m) => m,
        None => RestartMode::Always,
    }
}

/// What the exit-status watcher emits when a child ends.
pub open spec fn spec_exit_signal(mode: Option<RestartMode>, exited_cleanly: bool) -> ControlSignal {
    match effective_mode(mode) {
        RestartMode::Always => ControlSignal::Restart,
        RestartMode::OnError => if exited_cleanly {
            ControlSignal::Stop
        } else {
            ControlSignal::Restart
        },
        RestartMode::Never => ControlSignal::Stop,
    }
}

/// The signal the exit-status watcher sends once the child has ended;
/// `exited_cleanly` is true when the child exited with status 0.
pub fn exit_signal(mode: Option<RestartMode>, exited_cleanly: bool) -> (r: ControlSignal)
    ensures
        r == spec_exit_signal(mode, exited_cleanly),
        effective_mode(mode) == RestartMode::Always ==> r == ControlSignal::Restart,
        effective_mode(mode) == RestartMode::Never ==> r == ControlSignal::Stop,
        effective_mode(mode) == RestartMode::OnError ==> (r == ControlSignal::Restart
            <==> !exited_cleanly),
{
    let m = match mode {
        Some(m) => m,
        None => RestartMode::Always,
    };
    match m {
        RestartMode::Always => ControlSignal::Restart,
        RestartMode::OnError => if exited_cleanly {
            ControlSignal::Stop
        } else {
            ControlSignal::Restart
        },
        RestartMode::Never => ControlSignal::Stop,
    }
}


/// The line that opens a new session in a log file kept in `Append` mode;
/// `time` is the start time as the daemon writes it.
pub fn session_header(time: &String) -> (r: String)
    ensures
        r@ == "=====STARTED ON "@ + time@ + "====="@,
{
    let mut r = String::from_str("=====STARTED ON ");
    r.append(time.as_str());
    r.append("=====");
    r
}

/// Declarative configuration of one supervised program.
#[derive(Clone, Debug)]
pub struct Ecosystem {
    pub title: String,
    pub start: String,
    pub shell: String,
    pub description: Option<String>,
    pub restart: Option<RestartMode>,
    pub logs: Option<String>,
    pub logs_mode: Option<LogsMode>,
    pub watch: Option<Vec<String>>,
}

fn copy_text(s: &Option<String>) -> (r: Option<String>)
    ensures
        r == *s,
{
    match s {
        Some(t) => Some(t.clone()),
        None => None,
    }
}

fn copy_list(v: &Vec<String>) -> (r: Vec<String>)
    ensures
        r@ == v@,
{
    let mut r: Vec<String> = Vec::new();
    let mut i: usize = 0;
    while i < v.len()
        invariant
            i <= v.len(),
            r@ == v@.subrange(0, i as int),
        decreases v.len() - i,
    {
        r.push(v[i].clone());
        i = i + 1;
    }
    assert(r@ =~= v@);
    r
}

/// The watch list as a sequence.
pub open spec fn watch_view(e: Ecosystem) -> Option<Seq<String>> {
    match e.watch {
        Some(w) => Some(w@),
        None => None,
    }
}

/// Two configurations agree on every field.
pub open spec fn same_config(a: Ecosystem, b: Ecosystem) -> bool {
    &&& a.title == b.title
    &&& a.start == b.start
    &&& a.shell == b.shell
    &&& a.description == b.description
    &&& a.restart == b.restart
    &&& a.logs == b.logs
    &&& a.logs_mode == b.logs_mode
    &&& watch_view(a) == watch_view(b)
}

impl Ecosystem {
    /// A field-for-field copy.
    pub fn duplicate(&self) -> (r: Ecosystem)
        ensures
            same_config(r, *self),
    {
        let watch = match &self.watch {
            Some(w) => Some(copy_list(w)),
            None => None,
        };
        Ecosystem {
            title: self.title.clone(),
            start: self.start.clone(),
            shell: self.shell.clone(),
            description: copy_text(&self.description),
            restart: self.restart,
            logs: copy_text(&self.logs),
            logs_mode: self.logs_mode,
            watch,
        }
    }
}

/// The mutable runtime state of one supervised process.
#[derive(Clone, Copy, Debug, PartialEq, Eq, Structural)]
pub struct ProcessState {
    pub status: ProcessStatus,
    pub ram_usage: u32,
    /// The OS process id of the tracked child, if any.
    pub uid: Option<u32>,
    /// The desired-stop flag: set by a stop request, kept across daemon restarts.
    pub should_stop: bool,
}

/// The state the controller is left in after handling `signal`, and
/// whether it spawns again.
pub open spec fn spec_after_control(s: ProcessState, signal: ControlSignal) -> (ProcessState, bool) {
    match signal {
        ControlSignal::Restart => (s, true),
        ControlSignal::Stop => (ProcessState { status: ProcessStatus::Paused, uid: None, ..s }, false),
    }
}

/// What the controller does next.
#[derive(Clone, Copy, Debug, PartialEq, Eq, Structural)]
pub enum ControlAction {
    /// Run the kill sequence on the live child, then take the step again.
    KillFirst,
    /// Spawn the child again.
    Respawn,
    /// End the controller.
    End,
}

/// The controller's guard: it does not spawn when a stop is wanted, when
/// its last spawn failed, or when a live child is tracked.
pub open spec fn spec_skip_run(s: ProcessState, os_process_alive: bool) -> bool {
    s.should_stop || s.status == ProcessStatus::Error || (s.uid.is_some() && os_process_alive)
}

pub open spec fn spec_spawn_failed(s: ProcessState) -> ProcessState {
    ProcessState { status: ProcessStatus::Error, uid: None, ..s }
}

/// The controller's step on `signal`, and the state it leaves.
pub open spec fn spec_control_step(
    s: ProcessState,
    signal: ControlSignal,
    os_process_alive: bool,
    kill_done: bool,
) -> (ProcessState, ControlAction) {
    if s.uid.is_some() && os_process_alive && !kill_done {
        (s, ControlAction::KillFirst)
    } else {
        let (t, respawn) = spec_after_control(s, signal);
        (t, if respawn { ControlAction::Respawn } else { ControlAction::End })
    }
}

/// A failed spawn ends the controller, and its guard then refuses to spawn
/// again: there is exactly one attempt and no respawn.
pub proof fn lemma_spawn_failure_ends(s: ProcessState, os_process_alive: bool)
    ensures
        spec_skip_run(spec_spawn_failed(s), os_process_alive),
        spec_spawn_failed(s).uid.is_none(),
        spec_spawn_failed(s).status != ProcessStatus::Started,
{
}

/// Under `OnError`, a child that exits with status 0 is not respawned and
/// one that exits otherwise is.
pub proof fn lemma_on_error_respawns_only_failures(s: ProcessState, exited_cleanly: bool)
    ensures
        spec_after_control(s, spec_exit_signal(Some(RestartMode::OnError), exited_cleanly)).1
            == !exited_cleanly,
{
}

/// Under `Always`, and where no policy is configured, every exit is
/// followed by a respawn.
pub proof fn lemma_always_respawns(s: ProcessState, mode: Option<RestartMode>, exited_cleanly: bool)
    requires
        mode == Some(RestartMode::Always) || mode.is_none(),
    ensures
        spec_after_control(s, spec_exit_signal(mode, exited_cleanly)).1,
{
}

/// Under `Never`, an exit settles the process in `Paused`, with nothing
/// tracked and no respawn.
pub proof fn lemma_never_settles_paused(s: ProcessState, exited_cleanly: bool)
    ensures
        !spec_after_control(s, spec_exit_signal(Some(RestartMode::Never), exited_cleanly)).1,
        spec_after_control(s, spec_exit_signal(Some(RestartMode::Never), exited_cleanly)).0.status
            == ProcessStatus::Paused,
        spec_after_control(s, spec_exit_signal(Some(RestartMode::Never), exited_cleanly)).0.uid.is_none(),
{
}

/// The first half of a stop request.
pub open spec fn spec_begin_stop(s: ProcessState) -> ProcessState {
    ProcessState { status: ProcessStatus::Pausing, should_stop: true, ..s }
}

/// The state a stop request leaves once its kill sequence has ended.
pub open spec fn spec_stopped(s: ProcessState) -> ProcessState {
    ProcessState { status: ProcessStatus::Paused, should_stop: true, ..s }
}

/// Number of liveness probes made after the termination signal before a
/// forceful kill; probes are 100 ms apart, a budget of about 3 s.
pub const POLL_ATTEMPTS: u32 = 30;

/// One step of the kill sequence, as handed to the code that drives it.
#[derive(Clone, Copy, Debug, PartialEq, Eq, Structural)]
pub enum KillStep {
    /// Send the termination signal to this OS process id.
    Terminate(u32),
    /// Probe whether the OS process is still alive; `attempt` probes came before.
    Probe { pid: u32, attempt: u32 },
    /// Send the forceful kill signal to this OS process id.
    ForceKill(u32),
    /// The sequence is over and the process is `Paused`.
    Finished,
}

/// The step after `step`, given its outcome: for `Terminate`, whether the
/// signal was delivered; for `Probe`, whether the process is still alive.
pub open spec fn spec_kill_next(step: KillStep, outcome: bool) -> KillStep {
    match step {
        KillStep::Terminate(pid) => if outcome {
            KillStep::Probe { pid, attempt: 0 }
        } else {
            KillStep::ForceKill(pid)
        },
        KillStep::Probe { pid, attempt } => if !outcome {
            KillStep::Finished
        } else if attempt + 1 < POLL_ATTEMPTS {
            KillStep::Probe { pid, attempt: (attempt + 1) as u32 }
        } else {
            KillStep::ForceKill(pid)
        },
        KillStep::ForceKill(_) => KillStep::Finished,
        KillStep::Finished => KillStep::Finished,
    }
}

/// Opening the kill sequence: the state it leaves and the first step.
pub open spec fn spec_begin_kill(s: ProcessState) -> (ProcessState, KillStep) {
    match s.uid {
        Some(pid) => (s, KillStep::Terminate(pid)),
        None => (ProcessState { status: ProcessStatus::Paused, ..s }, KillStep::Finished),
    }
}

/// One step of the kill sequence: the state it leaves and the next step.
pub open spec fn spec_advance_kill(s: ProcessState, step: KillStep, outcome: bool) -> (
    ProcessState,
    KillStep,
) {
    let next = spec_kill_next(step, outcome);
    if next == KillStep::Finished {
        (ProcessState { status: ProcessStatus::Paused, ..s }, next)
    } else {
        (s, next)
    }
}

/// A step of the kill sequence that can occur.
pub open spec fn kill_step_valid(step: KillStep) -> bool {
    match step {
        KillStep::Probe { attempt, .. } => attempt < POLL_ATTEMPTS,
        _ => true,
    }
}

impl ProcessState {
    pub fn new(status: ProcessStatus, ram_usage: u32, uid: Option<u32>, should_stop: bool) -> (r:
        ProcessState)
        ensures
            r == (ProcessState { status, ram_usage, uid, should_stop }),
    {
        ProcessState { status, ram_usage, uid, should_stop }
    }

    /// A freshly created process: `Initialized`, nothing tracked, no stop wanted.
    pub fn default() -> (r: ProcessState)
        ensures
            r == (ProcessState {
                status: ProcessStatus::Initialized,
                ram_usage: 0,
                uid: None,
                should_stop: false,
            }),
    {
        ProcessState::new(ProcessStatus::Initialized, 0, None, false)
    }

    /// Whether a child is tracked and alive, given whether its OS process
    /// still exists.
    pub fn is_running(&self, os_process_alive: bool) -> (r: bool)
        ensures
            r == (self.uid.is_some() && os_process_alive),
    {
        self.uid.is_some() && os_process_alive
    }

    /// The idempotency guard of the lifecycle controller: true when it must
    /// return without spawning. A process whose spawn failed is not retried.
    pub fn should_skip_run(&self, os_process_alive: bool) -> (r: bool)
        ensures
            r == spec_skip_run(*self, os_process_alive),
    {
        self.should_stop || self.status == ProcessStatus::Error || self.is_running(os_process_alive)
    }

    /// The controller begins its work.
    pub fn begin_run(&mut self)
        ensures
            *final(self) == (ProcessState { status: ProcessStatus::Starting, ..*old(self) }),
    {
        self.status = ProcessStatus::Starting;
    }

    /// A child was spawned with the given OS process id.
    pub fn record_spawn(&mut self, pid: Option<u32>)
        ensures
            *final(self) == (ProcessState {
                status: ProcessStatus::Started,
                uid: pid,
                ..*old(self)
            }),
    {
        self.uid = pid;
        self.status = ProcessStatus::Started;
    }

    /// The child could not be spawned: the process is marked `Error` and
    /// the controller ends.
    pub fn spawn_failed(&mut self) -> (r: ControlAction)
        ensures
            r == ControlAction::End,
            *final(self) == spec_spawn_failed(*old(self)),
    {
        self.status = ProcessStatus::Error;
        self.uid = None;
        ControlAction::End
    }

    /// The controller's step on a control signal. `os_process_alive` tells
    /// whether the tracked OS process still exists, `kill_done` whether the
    /// kill sequence has run for this signal. A live child is killed first;
    /// then a restart spawns again and a stop ends the controller.
    pub fn control_step(&mut self, signal: ControlSignal, os_process_alive: bool, kill_done: bool) -> (r:
        ControlAction)
        ensures
            (*final(self), r) == spec_control_step(*old(self), signal, os_process_alive, kill_done),
    {
        if self.is_running(os_process_alive) && !kill_done {
            return ControlAction::KillFirst;
        }
        match signal {
            ControlSignal::Restart => ControlAction::Respawn,
            ControlSignal::Stop => {
                self.uid = None;
                self.status = ProcessStatus::Paused;
                ControlAction::End
            },
        }
    }

    /// First half of a stop request: returns the signal to broadcast, after
    /// which the kill sequence runs.
    pub fn begin_stop(&mut self) -> (r: ControlSignal)
        ensures
            r == ControlSignal::Stop,
            *final(self) == spec_begin_stop(*old(self)),
    {
        self.status = ProcessStatus::Pausing;
        self.should_stop = true;
        ControlSignal::Stop
    }

    /// Last half of a restart request, after the kill sequence: returns the
    /// signal to broadcast.
    pub fn finish_restart(&mut self) -> (r: ControlSignal)
        ensures
            r == ControlSignal::Restart,
            *final(self) == (ProcessState {
                status: ProcessStatus::Pausing,
                should_stop: false,
                ..*old(self)
            }),
    {
        self.status = ProcessStatus::Pausing;
        self.should_stop = false;
        ControlSignal::Restart
    }

    /// Opens the kill sequence: with no tracked child no signal is sent,
    /// the process is `Paused` and the sequence is over at once.
    pub fn begin_kill(&mut self) -> (r: KillStep)
        ensures
            (*final(self), r) == spec_begin_kill(*old(self)),
            old(self).uid.is_none() ==> r == KillStep::Finished && *final(self) == (ProcessState {
                status: ProcessStatus::Paused,
                ..*old(self)
            }),
            old(self).uid matches Some(pid) ==> r == KillStep::Terminate(pid) && *final(self)
                == *old(self),
    {
        match self.uid {
            Some(pid) => KillStep::Terminate(pid),
            None => {
                self.status = ProcessStatus::Paused;
                KillStep::Finished
            },
        }
    }

    /// Takes the kill sequence one step on; when it reaches `Finished` the
    /// process is `Paused`, and nothing else changes.
    pub fn advance_kill(&mut self, step: KillStep, outcome: bool) -> (r: KillStep)
        requires
            kill_step_valid(step),
        ensures
            (*final(self), r) == spec_advance_kill(*old(self), step, outcome),
            r == spec_kill_next(step, outcome),
            kill_step_valid(r),
            r == KillStep::Finished ==> *final(self) == (ProcessState {
                status: ProcessStatus::Paused,
                ..*old(self)
            }),
            r != KillStep::Finished ==> *final(self) == *old(self),
    {
        let next = match step {
            KillStep::Terminate(pid) => if outcome {
                KillStep::Probe { pid, attempt: 0 }
            } else {
                KillStep::ForceKill(pid)
            },
            KillStep::Probe { pid, attempt } => if !outcome {
                KillStep::Finished
            } else if attempt + 1 < POLL_ATTEMPTS {
                KillStep::Probe { pid, attempt: attempt + 1 }
            } else {
                KillStep::ForceKill(pid)
            },
            KillStep::ForceKill(_) => KillStep::Finished,
            KillStep::Finished => KillStep::Finished,
        };
        if let KillStep::Finished = next {
            self.status = ProcessStatus::Paused;
        }
        next
    }
}


/// The step the kill sequence has reached from `step` once the outcomes in
/// `outcomes` have come in, one per step.
pub open spec fn kill_run(step: KillStep, outcomes: Seq<bool>) -> KillStep
    decreases outcomes.len(),
{
    if outcomes.len() == 0 || step == KillStep::Finished {
        step
    } else {
        kill_run(spec_kill_next(step, outcomes[0]), outcomes.drop_first())
    }
}

/// `n` probes that each find the process still alive.
pub open spec fn alive_probes(n: nat) -> Seq<bool> {
    Seq::new(n, |i: int| true)
}

/// Whether the kill sequence from `step` passes through the forceful kill
/// once the outcomes in `outcomes` have come in.
pub open spec fn passes_force_kill(step: KillStep, outcomes: Seq<bool>) -> bool
    decreases outcomes.len(),
{
    if step is ForceKill {
        true
    } else if outcomes.len() == 0 || step == KillStep::Finished {
        false
    } else {
        passes_force_kill(spec_kill_next(step, outcomes[0]), outcomes.drop_first())
    }
}

/// A child that ends while it is being probed is never forcefully killed:
/// the sequence is finished right after the probe that finds it gone.
pub proof fn lemma_cooperative_child_finishes(pid: u32, attempt: u32, alive_before: nat)
    requires
        attempt + alive_before < POLL_ATTEMPTS,
    ensures
        kill_run(KillStep::Probe { pid, attempt }, alive_probes(alive_before).push(false))
            == KillStep::Finished,
        !passes_force_kill(KillStep::Probe { pid, attempt }, alive_probes(alive_before).push(false)),
    decreases alive_before,
{
    let outs = alive_probes(alive_before).push(false);
    let start = KillStep::Probe { pid, attempt };
    assert(kill_run(start, outs) == kill_run(spec_kill_next(start, outs[0]), outs.drop_first()));
    assert(passes_force_kill(start, outs) == passes_force_kill(
        spec_kill_next(start, outs[0]),
        outs.drop_first(),
    ));
    if alive_before > 0 {
        assert(outs[0]);
        assert(outs.drop_first() =~= alive_probes((alive_before - 1) as nat).push(false));
        lemma_cooperative_child_finishes(pid, (attempt + 1) as u32, (alive_before - 1) as nat);
    } else {
        assert(!outs[0]);
        assert(!passes_force_kill(KillStep::Finished, outs.drop_first()));
    }
}

/// A child still alive at every probe meets the forceful kill once the
/// probe budget is spent.
pub proof fn lemma_uncooperative_child_is_forced(pid: u32, attempt: u32)
    requires
        attempt < POLL_ATTEMPTS,
    ensures
        kill_run(KillStep::Probe { pid, attempt }, alive_probes((POLL_ATTEMPTS - attempt) as nat))
            == KillStep::ForceKill(pid),
    decreases POLL_ATTEMPTS - attempt,
{
    let outs = alive_probes((POLL_ATTEMPTS - attempt) as nat);
    let start = KillStep::Probe { pid, attempt };
    assert(outs[0]);
    assert(kill_run(start, outs) == kill_run(spec_kill_next(start, outs[0]), outs.drop_first()));
    if attempt + 1 < POLL_ATTEMPTS {
        assert(outs.drop_first() =~= alive_probes((POLL_ATTEMPTS - (attempt + 1)) as nat));
        lemma_uncooperative_child_is_forced(pid, (attempt + 1) as u32);
    } else {
        assert(outs.drop_first().len() == 0);
    }
}

/// Whatever the outcomes, the kill sequence opened on a tracked child is
/// finished, and the process `Paused`, after the termination signal, at
/// most the probe budget, and the forceful kill.
pub proof fn lemma_kill_sequence_finishes(pid: u32, outcomes: Seq<bool>)
    requires
        outcomes.len() >= POLL_ATTEMPTS + 2,
    ensures
        kill_run(KillStep::Terminate(pid), outcomes) == KillStep::Finished,
{
    let start = KillStep::Terminate(pid);
    let rest = outcomes.drop_first();
    assert(kill_run(start, outcomes) == kill_run(spec_kill_next(start, outcomes[0]), rest));
    if outcomes[0] {
        lemma_probes_finish(pid, 0, rest);
    } else {
        assert(kill_run(KillStep::ForceKill(pid), rest) == kill_run(
            KillStep::Finished,
            rest.drop_first(),
        ));
    }
}

proof fn lemma_probes_finish(pid: u32, attempt: u32, outcomes: Seq<bool>)
    requires
        attempt < POLL_ATTEMPTS,
        outcomes.len() >= POLL_ATTEMPTS - attempt + 1,
    ensures
        kill_run(KillStep::Probe { pid, attempt }, outcomes) == KillStep::Finished,
    decreases POLL_ATTEMPTS - attempt,
{
    let start = KillStep::Probe { pid, attempt };
    let rest = outcomes.drop_first();
    assert(kill_run(start, outcomes) == kill_run(spec_kill_next(start, outcomes[0]), rest));
    if outcomes[0] && attempt + 1 < POLL_ATTEMPTS {
        lemma_probes_finish(pid, (attempt + 1) as u32, rest);
    } else if outcomes[0] {
        assert(kill_run(KillStep::ForceKill(pid), rest) == kill_run(
            KillStep::Finished,
            rest.drop_first(),
        ));
    }
}

/// The state and step the kill sequence reaches from `s` at `step` once
/// the outcomes in `outcomes` have come in, one per step.
pub open spec fn kill_states(s: ProcessState, step: KillStep, outcomes: Seq<bool>) -> (
    ProcessState,
    KillStep,
)
    decreases outcomes.len(),
{
    if outcomes.len() == 0 || step == KillStep::Finished {
        (s, step)
    } else {
        let (t, next) = spec_advance_kill(s, step, outcomes[0]);
        kill_states(t, next, outcomes.drop_first())
    }
}

proof fn lemma_kill_states(s: ProcessState, step: KillStep, outcomes: Seq<bool>)
    ensures
        kill_states(s, step, outcomes) == (
            if step != KillStep::Finished && kill_run(step, outcomes) == KillStep::Finished {
                ProcessState { status: ProcessStatus::Paused, ..s }
            } else {
                s
            },
            kill_run(step, outcomes),
        ),
    decreases outcomes.len(),
{
    if outcomes.len() > 0 && step != KillStep::Finished {
        let rest = outcomes.drop_first();
        let (t, next) = spec_advance_kill(s, step, outcomes[0]);
        assert(kill_run(step, outcomes) == kill_run(next, rest));
        assert(kill_states(s, step, outcomes) == kill_states(t, next, rest));
        lemma_kill_states(t, next, rest);
        if next == KillStep::Finished {
            assert(kill_run(next, rest) == KillStep::Finished);
        }
    }
}

/// A stop request, followed by its kill sequence whatever the outcomes of
/// the signals and probes, leaves the process `Paused` with its stop flag
/// set and nothing else changed.
pub proof fn lemma_stop_reaches_stopped(s: ProcessState, outcomes: Seq<bool>)
    requires
        outcomes.len() >= POLL_ATTEMPTS + 2,
    ensures
        kill_states(
            spec_begin_kill(spec_begin_stop(s)).0,
            spec_begin_kill(spec_begin_stop(s)).1,
            outcomes,
        ) == (spec_stopped(s), KillStep::Finished),
{
    let s1 = spec_begin_stop(s);
    match s1.uid {
        Some(pid) => {
            lemma_kill_sequence_finishes(pid, outcomes);
            lemma_kill_states(s1, KillStep::Terminate(pid), outcomes);
        },
        None => {
            assert(spec_begin_kill(s1).0 == spec_stopped(s));
        },
    }
}

/// A second stop request against a process that a first one has stopped
/// leaves it exactly as the first left it, `Paused` with its stop flag set;
/// where the controller has cleared the tracked child, it sends no signal.
pub proof fn lemma_second_stop_harmless(s: ProcessState, first: Seq<bool>, second: Seq<bool>)
    requires
        first.len() >= POLL_ATTEMPTS + 2,
        second.len() >= POLL_ATTEMPTS + 2,
    ensures
        ({
            let once = kill_states(
                spec_begin_kill(spec_begin_stop(s)).0,
                spec_begin_kill(spec_begin_stop(s)).1,
                first,
            ).0;
            &&& once == spec_stopped(s)
            &&& kill_states(
                spec_begin_kill(spec_begin_stop(once)).0,
                spec_begin_kill(spec_begin_stop(once)).1,
                second,
            ) == (once, KillStep::Finished)
            &&& once.status == ProcessStatus::Paused
            &&& once.should_stop
        }),
        s.uid.is_none() ==> spec_begin_kill(spec_begin_stop(spec_stopped(s))).1 == KillStep::Finished,
{
    lemma_stop_reaches_stopped(s, first);
    lemma_stop_reaches_stopped(spec_stopped(s), second);
    assert(spec_stopped(spec_stopped(s)) == spec_stopped(s));
}

/// Whether `path` ends with the components of `suffix`.
pub open spec fn ends_with_components(path: Seq<String>, suffix: Seq<String>) -> bool {
    &&& suffix.len() <= path.len()
    &&& forall|i: int|
        0 <= i < suffix.len() ==> #[trigger] path[path.len() - suffix.len() + i]@ == suffix[i]@
}

/// Whether `path`, given by its components, ends with the components of `suffix`.
pub fn path_ends_with(path: &Vec<String>, suffix: &Vec<String>) -> (r: bool)
    ensures
        r == ends_with_components(path@, suffix@),
{
    if suffix.len() > path.len() {
        return false;
    }
    let off: usize = path.len() - suffix.len();
    let mut i: usize = 0;
    while i < suffix.len()
        invariant
            off == path@.len() - suffix@.len(),
            off + suffix.len() == path.len(),
            i <= suffix.len(),
            forall|j: int| 0 <= j < i ==> #[trigger] path@[off + j]@ == suffix@[j]@,
        decreases suffix.len() - i,
    {
        if path[off + i] != suffix[i] {
            return false;
        }
        i = i + 1;
    }
    true
}

/// Whether a change at `changed` emits a restart signal: every change does
/// but one at the configured log file.
pub open spec fn spec_change_restarts(log: Option<Seq<String>>, changed: Seq<String>) -> bool {
    match log {
        Some(l) => !ends_with_components(changed, l),
        None => true,
    }
}

/// The file-watch trigger's decision for one changed path; the log file and
/// the path are given by their components.
pub fn change_restarts(log: &Option<Vec<String>>, changed: &Vec<String>) -> (r: bool)
    ensures
        r == spec_change_restarts(
            match log {
                Some(l) => Some(l@),
                None => None,
            },
            changed@,
        ),
        log.is_none() ==> r,
        log.is_some() ==> (r <==> !ends_with_components(changed@, log.unwrap()@)),
{
    match log {
        Some(l) => !path_ends_with(changed, l),
        None => true,
    }
}

} // verus!
