use crate::executor::ExecutorError;
use crate::logger::LogLevel;
use crate::network::NetworkError;
use crate::opt::{host_list, trimmed, words, Opt};
use vstd::prelude::*;

verus! {

/// Milliseconds between two ticks of the supervision loop.
pub const CHECK_MS: usize = 100;

/// Why the supervisor stopped, or could not start.
#[derive(Debug, Clone, Copy, PartialEq, Eq, Structural)]
pub enum PingkeeperError {
    NoHostsToPing,
    TooManyErrors,
    InvalidTimeout,
}

/// What the supervisor asks its caller to do next.
#[derive(Debug, Clone, Copy, PartialEq, Eq, Structural)]
pub enum Action {
    /// Report whether the child is alive, as `Event::Liveness`.
    QueryLiveness,
    /// Check the network, and report the outcome as `Event::Network`.
    CheckNetwork,
    /// Report the pid of the child if it is alive, as `Event::Pid`.
    QueryPid,
    /// End the child with this pid and wait for it, then report as `Event::Terminated`.
    Terminate(u32),
    /// Spawn the command, then report the new child's pid if it is alive, as `Event::Spawned`.
    Spawn,
    /// Sleep this many milliseconds, then report `Event::Slept`.
    Sleep(usize),
    /// Stop supervising, with this error.
    Stop(PingkeeperError),
}

/// What the caller observed while doing what the supervisor asked.
#[derive(Debug, Clone, Copy)]
pub enum Event {
    Liveness(Result<bool, ExecutorError>),
    Network(Result<(), NetworkError>),
    Pid(Option<u32>),
    Terminated(Result<(), ExecutorError>),
    Spawned(Option<u32>),
    Slept,
}

impl Event {
    /// A network check found the network unreachable.
    pub open spec fn found_unreachable(self) -> bool {
        self matches Event::Network(outcome) && outcome is Err
    }

    /// Asking whether the child is alive failed.
    pub open spec fn liveness_failed(self) -> bool {
        self matches Event::Liveness(outcome) && outcome is Err
    }
}

/// Something worth logging that happened during a step.
#[derive(Debug, Clone, Copy, PartialEq, Eq, Structural)]
pub enum Note {
    ChildDead,
    CommandError(ExecutorError),
    NetworkReachable,
    NetworkUnreachable,
    ShouldSpawn,
    KillDone(u32),
    KillFailed(u32),
    ChildStarted(u32),
    DeadOnBoot,
}

impl Note {
    /// The level that the note is logged at.
    pub open spec fn spec_level(self) -> LogLevel {
        match self {
            Note::ChildDead => LogLevel::WARN,
            Note::CommandError(_) => LogLevel::ERROR,
            Note::NetworkReachable => LogLevel::DEBUG,
            Note::NetworkUnreachable => LogLevel::WARN,
            Note::ShouldSpawn => LogLevel::DEBUG,
            Note::KillDone(_) => LogLevel::INFO,
            Note::KillFailed(_) => LogLevel::ERROR,
            Note::ChildStarted(_) => LogLevel::INFO,
            Note::DeadOnBoot => LogLevel::ERROR,
        }
    }

    /// The level that the note is logged at.
    pub fn level(&self) -> (r: LogLevel)
        ensures
            r == self.spec_level(),
    {
        match self {
            Note::ChildDead => LogLevel::WARN,
            Note::CommandError(_) => LogLevel::ERROR,
            Note::NetworkReachable => LogLevel::DEBUG,
            Note::NetworkUnreachable => LogLevel::WARN,
            Note::ShouldSpawn => LogLevel::DEBUG,
            Note::KillDone(_) => LogLevel::INFO,
            Note::KillFailed(_) => LogLevel::ERROR,
            Note::ChildStarted(_) => LogLevel::INFO,
            Note::DeadOnBoot => LogLevel::ERROR,
        }
    }
}

/// The fixed part of a supervisor's configuration.
#[derive(Debug, Clone, Copy, PartialEq, Eq, Structural)]
pub struct Settings {
    pub keep_alive: bool,
    pub max_errors: usize,
    pub wait_after_exec: usize,
    pub network_every: usize,
}

/// The state of a supervisor: its settings, whether a child was started since
/// the last check, the milliseconds since that check, the errors in a row,
/// and the action it waits on.
pub struct SupervisorView {
    pub settings: Settings,
    pub is_executing: bool,
    pub time_since_last_check: usize,
    pub errors_in_a_row: usize,
    pub pending: Action,
}

/// A supervisor's next state, the action it asks for, and what it notes.
pub struct Transition {
    pub state: SupervisorView,
    pub action: Action,
    pub notes: Seq<Note>,
}

impl SupervisorView {
    /// Seconds of the window that governs the next check: the boot window
    /// right after a spawn, the check window otherwise.
    pub open spec fn window(self) -> usize {
        if self.is_executing {
            self.settings.wait_after_exec
        } else {
            self.settings.network_every
        }
    }

    /// The active window has elapsed since the last check.
    pub open spec fn window_elapsed(self) -> bool {
        self.time_since_last_check >= 1000 * self.window()
    }

    /// Ask for `action` and wait on it.
    pub open spec fn ask(self, action: Action, notes: Seq<Note>) -> Transition {
        Transition { state: SupervisorView { pending: action, ..self }, action, notes }
    }

    /// Go to sleep until the next tick.
    pub open spec fn sleep(self, notes: Seq<Note>) -> Transition {
        self.ask(Action::Sleep(CHECK_MS), notes)
    }

    /// No restart this tick; a check window that has elapsed starts over.
    pub open spec fn settle(self, notes: Seq<Note>) -> Transition {
        let time = if !self.is_executing && self.time_since_last_check >= 1000
            * self.settings.network_every {
            0
        } else {
            self.time_since_last_check
        };
        SupervisorView { time_since_last_check: time, ..self }.sleep(notes)
    }

    /// Restart: the check timer starts over and the caller is asked whether a
    /// child is running, to end it, or else to spawn one.
    pub open spec fn restart(self, notes: Seq<Note>) -> Transition {
        SupervisorView { time_since_last_check: 0, ..self }.ask(
            Action::QueryPid,
            notes.push(Note::ShouldSpawn),
        )
    }

    /// An error in a row, then a restart; with a ceiling set, the error that
    /// would take the count past it stops the supervisor instead.
    pub open spec fn count_error(self, notes: Seq<Note>) -> Transition {
        if self.settings.max_errors == 0 {
            self.restart(notes)
        } else if self.errors_in_a_row + 1 > self.settings.max_errors {
            self.ask(Action::Stop(PingkeeperError::TooManyErrors), notes)
        } else {
            SupervisorView { errors_in_a_row: (self.errors_in_a_row + 1) as usize, ..self }.restart(
                notes,
            )
        }
    }

    /// The supervisor's step on `event`. An event that does not answer the
    /// pending action changes nothing, and the action is asked again.
    pub open spec fn next(self, event: Event) -> Transition {
        match (self.pending, event) {
            (Action::QueryLiveness, Event::Liveness(Ok(alive))) => {
                if self.settings.keep_alive && !alive {
                    self.count_error(seq![Note::ChildDead])
                } else {
                    let s = if self.settings.max_errors > 0 {
                        SupervisorView { errors_in_a_row: 0, ..self }
                    } else {
                        self
                    };
                    if s.window_elapsed() {
                        SupervisorView { is_executing: false, ..s }.ask(
                            Action::CheckNetwork,
                            seq![],
                        )
                    } else {
                        s.settle(seq![])
                    }
                }
            },
            (Action::QueryLiveness, Event::Liveness(Err(e))) => self.count_error(
                seq![Note::CommandError(e)],
            ),
            (Action::CheckNetwork, Event::Network(outcome)) => {
                let s = SupervisorView { time_since_last_check: 0, ..self };
                if outcome is Ok {
                    s.settle(seq![Note::NetworkReachable])
                } else {
                    s.restart(seq![Note::NetworkUnreachable])
                }
            },
            (Action::QueryPid, Event::Pid(Some(pid))) => self.ask(Action::Terminate(pid), seq![]),
            (Action::QueryPid, Event::Pid(None)) => self.ask(Action::Spawn, seq![]),
            (Action::Terminate(pid), Event::Terminated(outcome)) => self.sleep(
                seq![
                    if outcome is Ok {
                        Note::KillDone(pid)
                    } else {
                        Note::KillFailed(pid)
                    },
                ],
            ),
            (Action::Spawn, Event::Spawned(Some(pid))) => SupervisorView {
                is_executing: true,
                ..self
            }.sleep(seq![Note::ChildStarted(pid)]),
            (Action::Spawn, Event::Spawned(None)) => self.sleep(seq![Note::DeadOnBoot]),
            (Action::Sleep(_), Event::Slept) => SupervisorView {
                time_since_last_check: self.time_since_last_check.saturating_add(CHECK_MS),
                ..self
            }.ask(Action::QueryLiveness, seq![]),
            _ => self.ask(self.pending, seq![]),
        }
    }
}

impl SupervisorView {
    /// The state once the supervisor has taken `events` in turn.
    pub open spec fn run(self, events: Seq<Event>) -> SupervisorView
        decreases events.len(),
    {
        if events.len() == 0 {
            self
        } else {
            self.next(events[0]).state.run(events.drop_first())
        }
    }

    /// How many steps of the run on `events` newly ask for an action that
    /// `wanted` picks: the action asked for is one, the one waited on was not.
    pub open spec fn asks(self, events: Seq<Event>, wanted: spec_fn(Action) -> bool) -> nat
        decreases events.len(),
    {
        if events.len() == 0 {
            0
        } else {
            let t = self.next(events[0]);
            (if !wanted(self.pending) && wanted(t.action) {
                1nat
            } else {
                0nat
            }) + t.state.asks(events.drop_first(), wanted)
        }
    }

    /// How many checks of the run on `events` found the network unreachable.
    pub open spec fn detections(self, events: Seq<Event>) -> nat
        decreases events.len(),
    {
        if events.len() == 0 {
            0
        } else {
            (if self.pending == Action::CheckNetwork && events[0].found_unreachable() {
                1nat
            } else {
                0nat
            }) + self.next(events[0]).state.detections(events.drop_first())
        }
    }

    /// How many liveness queries of the run on `events` were answered.
    pub open spec fn liveness_answers(self, events: Seq<Event>) -> nat
        decreases events.len(),
    {
        if events.len() == 0 {
            0
        } else {
            (if self.pending == Action::QueryLiveness && events[0] is Liveness {
                1nat
            } else {
                0nat
            }) + self.next(events[0]).state.liveness_answers(events.drop_first())
        }
    }

    /// The supervisor only queries, checks or sleeps.
    pub open spec fn is_steady(self) -> bool {
        ||| self.pending == Action::QueryLiveness
        ||| self.pending == Action::CheckNetwork
        ||| self.pending == Action::Sleep(CHECK_MS)
    }
}

/// The action is a spawn.
pub open spec fn is_spawn(a: Action) -> bool {
    a == Action::Spawn
}

/// The action ends a child.
pub open spec fn is_termination(a: Action) -> bool {
    a is Terminate
}

/// The action is a restart decision.
pub open spec fn is_restart(a: Action) -> bool {
    a == Action::QueryPid
}

/// The settings that `opt` gives.
pub open spec fn settings_of(opt: &Opt) -> Settings {
    Settings {
        keep_alive: opt.keep_alive,
        max_errors: opt.max_errors,
        wait_after_exec: opt.wait_after_exec,
        network_every: opt.network_every,
    }
}

/// Keeps a command alive while the network is unreachable, as a state machine
/// driven by its caller: each step takes what the caller observed and returns
/// the next action.
pub struct Supervisor {
    settings: Settings,
    is_executing: bool,
    time_since_last_check: usize,
    errors_in_a_row: usize,
    pending: Action,
}

impl View for Supervisor {
    type V = SupervisorView;

    closed spec fn view(&self) -> SupervisorView {
        SupervisorView {
            settings: self.settings,
            is_executing: self.is_executing,
            time_since_last_check: self.time_since_last_check,
            errors_in_a_row: self.errors_in_a_row,
            pending: self.pending,
        }
    }
}

impl Supervisor {
    /// Starts supervising as `opt` says: refused when it lists no host or sets
    /// a zero timeout; the first action asks whether the child is alive.
    pub fn new(opt: &Opt) -> (r: Result<Supervisor, PingkeeperError>)
        ensures
            words(trimmed(opt.hosts@)).len() == 0 <==> r == Err::<Supervisor, PingkeeperError>(
                PingkeeperError::NoHostsToPing,
            ),
            words(trimmed(opt.hosts@)).len() > 0 && opt.timeout == 0 <==> r == Err::<
                Supervisor,
                PingkeeperError,
            >(PingkeeperError::InvalidTimeout),
            opt.hosts@.len() == 0 ==> r == Err::<Supervisor, PingkeeperError>(
                PingkeeperError::NoHostsToPing,
            ),
            r matches Ok(s) ==> s@ == (SupervisorView {
                settings: settings_of(opt),
                is_executing: false,
                time_since_last_check: 0,
                errors_in_a_row: 0,
                pending: Action::QueryLiveness,
            }),
    {
        let hosts = host_list(opt.hosts.as_str());
        assert(hosts@.map_values(|h: String| h@).len() == hosts@.len());
        if hosts.len() == 0 {
            return Err(PingkeeperError::NoHostsToPing);
        }
        if opt.timeout == 0 {
            return Err(PingkeeperError::InvalidTimeout);
        }
        Ok(
            Supervisor {
                settings: Settings {
                    keep_alive: opt.keep_alive,
                    max_errors: opt.max_errors,
                    wait_after_exec: opt.wait_after_exec,
                    network_every: opt.network_every,
                },
                is_executing: false,
                time_since_last_check: 0,
                errors_in_a_row: 0,
                pending: Action::QueryLiveness,
            },
        )
    }

    /// The action that the supervisor waits on.
    pub fn pending(&self) -> (r: Action)
        ensures
            r == self@.pending,
    {
        self.pending
    }

    /// Errors in a row so far.
    pub fn errors_in_a_row(&self) -> (r: usize)
        ensures
            r == self@.errors_in_a_row,
    {
        self.errors_in_a_row
    }

    /// Whether a child was started since the last check.
    pub fn is_executing(&self) -> (r: bool)
        ensures
            r == self@.is_executing,
    {
        self.is_executing
    }

    /// Milliseconds since the last check.
    pub fn time_since_last_check(&self) -> (r: usize)
        ensures
            r == self@.time_since_last_check,
    {
        self.time_since_last_check
    }

    fn ask(&mut self, action: Action) -> (r: Action)
        ensures
            r == action,
            final(self)@ == (SupervisorView { pending: action, ..old(self)@ }),
    {
        self.pending = action;
        action
    }

    fn window_elapsed(&self) -> (r: bool)
        ensures
            r == self@.window_elapsed(),
    {
        let secs = if self.is_executing {
            self.settings.wait_after_exec
        } else {
            self.settings.network_every
        };
        at_least_seconds(self.time_since_last_check, secs)
    }

    fn settle(&mut self, notes: Vec<Note>) -> (r: (Action, Vec<Note>))
        ensures
            final(self)@ == old(self)@.settle(notes@).state,
            r.0 == old(self)@.settle(notes@).action,
            r.1@ == old(self)@.settle(notes@).notes,
    {
        if !self.is_executing && at_least_seconds(
            self.time_since_last_check,
            self.settings.network_every,
        ) {
            self.time_since_last_check = 0;
        }
        (self.ask(Action::Sleep(CHECK_MS)), notes)
    }

    fn restart(&mut self, notes: Vec<Note>) -> (r: (Action, Vec<Note>))
        ensures
            final(self)@ == old(self)@.restart(notes@).state,
            r.0 == old(self)@.restart(notes@).action,
            r.1@ == old(self)@.restart(notes@).notes,
    {
        let mut notes = notes;
        self.time_since_last_check = 0;
        notes.push(Note::ShouldSpawn);
        (self.ask(Action::QueryPid), notes)
    }

    fn count_error(&mut self, notes: Vec<Note>) -> (r: (Action, Vec<Note>))
        ensures
            final(self)@ == old(self)@.count_error(notes@).state,
            r.0 == old(self)@.count_error(notes@).action,
            r.1@ == old(self)@.count_error(notes@).notes,
    {
        if self.settings.max_errors == 0 {
            self.restart(notes)
        } else if self.errors_in_a_row >= self.settings.max_errors {
            (self.ask(Action::Stop(PingkeeperError::TooManyErrors)), notes)
        } else {
            self.errors_in_a_row = self.errors_in_a_row + 1;
            self.restart(notes)
        }
    }

    /// Takes what the caller observed while doing the pending action, and
    /// returns the next action with the notes to log.
    pub fn step(&mut self, event: Event) -> (r: (Action, Vec<Note>))
        ensures
            final(self)@ == old(self)@.next(event).state,
            r.0 == old(self)@.next(event).action,
            r.1@ == old(self)@.next(event).notes,
    {
        match (self.pending, event) {
            (Action::QueryLiveness, Event::Liveness(Ok(alive))) => {
                if self.settings.keep_alive && !alive {
                    self.count_error(vec![Note::ChildDead])
                } else {
                    if self.settings.max_errors > 0 {
                        self.errors_in_a_row = 0;
                    }
                    if self.window_elapsed() {
                        self.is_executing = false;
                        (self.ask(Action::CheckNetwork), Vec::new())
                    } else {
                        self.settle(Vec::new())
                    }
                }
            },
            (Action::QueryLiveness, Event::Liveness(Err(e))) => self.count_error(
                vec![Note::CommandError(e)],
            ),
            (Action::CheckNetwork, Event::Network(outcome)) => {
                self.time_since_last_check = 0;
                if outcome.is_ok() {
                    self.settle(vec![Note::NetworkReachable])
                } else {
                    self.restart(vec![Note::NetworkUnreachable])
                }
            },
            (Action::QueryPid, Event::Pid(Some(pid))) => (
                self.ask(Action::Terminate(pid)),
                Vec::new(),
            ),
            (Action::QueryPid, Event::Pid(None)) => (self.ask(Action::Spawn), Vec::new()),
            (Action::Terminate(pid), Event::Terminated(outcome)) => {
                let note = if outcome.is_ok() {
                    Note::KillDone(pid)
                } else {
                    Note::KillFailed(pid)
                };
                (self.ask(Action::Sleep(CHECK_MS)), vec![note])
            },
            (Action::Spawn, Event::Spawned(Some(pid))) => {
                self.is_executing = true;
                (self.ask(Action::Sleep(CHECK_MS)), vec![Note::ChildStarted(pid)])
            },
            (Action::Spawn, Event::Spawned(None)) => (
                self.ask(Action::Sleep(CHECK_MS)),
                vec![Note::DeadOnBoot],
            ),
            (Action::Sleep(_), Event::Slept) => {
                self.time_since_last_check = self.time_since_last_check.saturating_add(CHECK_MS);
                (self.ask(Action::QueryLiveness), Vec::new())
            },
            _ => (self.pending, Vec::new()),
        }
    }
}

/// A step asks for a new spawn only right after the caller reported that no
/// child is alive: there is never a second child beside a live one.
pub proof fn lemma_spawn_only_without_child(s: SupervisorView, e: Event)
    requires
        s.pending != Action::Spawn,
        s.next(e).action == Action::Spawn,
    ensures
        s.pending == Action::QueryPid,
        e == Event::Pid(None),
{
}

/// A restart decision spawns at most once: once the spawn is reported, the
/// supervisor sleeps until the next tick.
pub proof fn lemma_one_spawn_per_restart(s: SupervisorView, e: Event)
    requires
        s.pending == Action::Spawn,
        e is Spawned,
    ensures
        s.next(e).action == Action::Sleep(CHECK_MS),
        s.next(e).state.pending == Action::Sleep(CHECK_MS),
{
}

/// With keep-alive off, a restart is decided only when a network check found
/// the network unreachable, or when asking whether the child is alive failed.
pub proof fn lemma_restart_only_when_unreachable(s: SupervisorView, e: Event)
    requires
        !s.settings.keep_alive,
        s.pending != Action::QueryPid,
        s.next(e).action == Action::QueryPid,
    ensures
        (s.pending == Action::CheckNetwork && e.found_unreachable()) || (s.pending
            == Action::QueryLiveness && e.liveness_failed()),
{
}

/// With keep-alive off, while the child's liveness can be read and every
/// check finds the network reachable, the supervisor only queries, checks and
/// sleeps: it never ends or spawns a child, and never stops.
pub proof fn lemma_steady_while_reachable(s: SupervisorView, e: Event)
    requires
        !s.settings.keep_alive,
        s.pending == Action::QueryLiveness || s.pending == Action::CheckNetwork || s.pending
            == Action::Sleep(CHECK_MS),
        !e.liveness_failed(),
        !e.found_unreachable(),
    ensures
        s.next(e).state.pending == Action::QueryLiveness || s.next(e).state.pending
            == Action::CheckNetwork || s.next(e).state.pending == Action::Sleep(CHECK_MS),
        s.next(e).action == s.next(e).state.pending,
{
}

/// The count of errors in a row never passes the ceiling, and stays put when
/// no ceiling is set.
pub proof fn lemma_errors_bounded(s: SupervisorView, e: Event)
    requires
        s.settings.max_errors > 0 ==> s.errors_in_a_row <= s.settings.max_errors,
    ensures
        s.settings.max_errors > 0 ==> s.next(e).state.errors_in_a_row <= s.settings.max_errors,
        s.settings.max_errors == 0 ==> s.next(e).state.errors_in_a_row == s.errors_in_a_row,
        s.next(e).state.settings == s.settings,
{
}

/// A stopped supervisor stays stopped, and answers no liveness query.
pub proof fn lemma_stop_absorbs(s: SupervisorView, events: Seq<Event>)
    requires
        s.pending is Stop,
    ensures
        s.run(events) == s,
        s.liveness_answers(events) == 0,
    decreases events.len(),
{
    if events.len() > 0 {
        assert(s.next(events[0]).state == s);
        lemma_stop_absorbs(s, events.drop_first());
    }
}

/// With keep-alive on and a ceiling set, as long as no liveness query finds
/// the child alive, each answered query counts one more error: after more
/// answers than the ceiling leaves room for, the supervisor has stopped with
/// `TooManyErrors`.
pub proof fn lemma_dead_children_stop(s: SupervisorView, events: Seq<Event>)
    requires
        s.settings.keep_alive,
        s.settings.max_errors > 0,
        s.errors_in_a_row <= s.settings.max_errors,
        s.pending !is Stop,
        forall|i: int| 0 <= i < events.len() ==> events[i] != Event::Liveness(Ok(true)),
    ensures
        s.run(events).pending == Action::Stop(PingkeeperError::TooManyErrors) || (
        s.run(events).errors_in_a_row == s.errors_in_a_row + s.liveness_answers(events)
            && s.run(events).pending !is Stop),
        s.liveness_answers(events) > s.settings.max_errors - s.errors_in_a_row ==> s.run(
            events,
        ).pending == Action::Stop(PingkeeperError::TooManyErrors),
    decreases events.len(),
{
    if events.len() > 0 {
        let t = s.next(events[0]).state;
        let rest = events.drop_first();
        assert forall|i: int| 0 <= i < rest.len() implies rest[i] != Event::Liveness(Ok(true)) by {
            assert(rest[i] == events[i + 1]);
        }
        lemma_errors_bounded(s, events[0]);
        if t.pending is Stop {
            lemma_stop_absorbs(t, rest);
        } else {
            lemma_dead_children_stop(t, rest);
        }
    }
}

/// With keep-alive off, while the child's liveness can be read and every
/// check finds the network reachable, a run never decides a restart, never
/// ends or spawns a child, and never stops.
pub proof fn lemma_steady_run(s: SupervisorView, events: Seq<Event>)
    requires
        !s.settings.keep_alive,
        s.is_steady(),
        forall|i: int|
            0 <= i < events.len() ==> !(#[trigger] events[i]).liveness_failed()
                && !events[i].found_unreachable(),
    ensures
        s.run(events).is_steady(),
        s.asks(events, |a: Action| is_restart(a)) == 0,
        s.asks(events, |a: Action| is_termination(a)) == 0,
        s.asks(events, |a: Action| is_spawn(a)) == 0,
    decreases events.len(),
{
    if events.len() > 0 {
        let rest = events.drop_first();
        assert(!events[0].liveness_failed() && !events[0].found_unreachable());
        lemma_steady_while_reachable(s, events[0]);
        assert forall|i: int| 0 <= i < rest.len() implies !(#[trigger] rest[i]).liveness_failed()
            && !rest[i].found_unreachable() by {
            assert(rest[i] == events[i + 1]);
        }
        lemma_steady_run(s.next(events[0]).state, rest);
    }
}

/// With keep-alive off and the child's liveness readable, a run spawns at
/// most once per check that found the network unreachable: each such check
/// decides one restart, and a restart either ends the running child or
/// spawns one, never both.
pub proof fn lemma_spawns_per_detection(s: SupervisorView, events: Seq<Event>)
    requires
        !s.settings.keep_alive,
        forall|i: int| 0 <= i < events.len() ==> !(#[trigger] events[i]).liveness_failed(),
    ensures
        s.asks(events, |a: Action| is_spawn(a)) + (if s.run(events).pending == Action::QueryPid {
            1int
        } else {
            0int
        }) <= s.detections(events) + (if s.pending == Action::QueryPid {
            1int
        } else {
            0int
        }),
    decreases events.len(),
{
    if events.len() > 0 {
        let e = events[0];
        let t = s.next(e);
        let rest = events.drop_first();
        assert(!e.liveness_failed());
        assert forall|i: int| 0 <= i < rest.len() implies !(#[trigger] rest[i]).liveness_failed() by {
            assert(rest[i] == events[i + 1]);
        }
        lemma_spawns_per_detection(t.state, rest);
        if s.pending != Action::QueryPid && t.action == Action::QueryPid {
            lemma_restart_only_when_unreachable(s, e);
        }
        if s.pending != Action::Spawn && t.action == Action::Spawn {
            lemma_spawn_only_without_child(s, e);
        }
    }
}

/// Whether `time_ms` milliseconds reach `secs` seconds.
fn at_least_seconds(time_ms: usize, secs: usize) -> (r: bool)
    ensures
        r == (time_ms >= 1000 * secs),
{
    match secs.checked_mul(1000) {
        Some(window) => time_ms >= window,
        None => false,
    }
}

} // verus!
