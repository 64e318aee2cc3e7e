use nix::errno::Errno;
use nix::sys::signal::Signal;
use std::str::FromStr;
use vstd::prelude::*;

verus! {

#[verifier::external_type_specification]
#[verifier::external_body]
pub struct ExSignal(Signal);

#[verifier::external_type_specification]
#[verifier::external_body]
pub struct ExErrno(Errno);

/// The number of the signal that `name` names on the target system, if any.
pub uninterp spec fn signal_named(name: Seq<char>) -> Option<i32>;

/// Relies on nix's `Signal::from_str`: it accepts exactly the names of the
/// target's signals, "SIGINT" among them, and refuses any other text; the
/// signal is handed back as its number.
#[verifier::external_body]
fn parse_signal(name: &str) -> (r: Option<i32>)
    ensures
        r == signal_named(name@),
        name@ == "SIGINT"@ ==> r is Some,
{
    Signal::from_str(name).ok().map(|s| s as i32)
}

/// Relies on nix's `Signal::try_from`: the signal that a number stands for,
/// if it stands for one.
#[verifier::external_body]
fn signal_of(number: i32) -> (r: Option<Signal>) {
    Signal::try_from(number).ok()
}

/// Relies on nix's `kill`: it asks kill(2) to deliver `signal` to the process `pid`.
#[verifier::external_body]
fn send_signal(pid: i32, signal: Signal) -> (r: Result<(), Errno>)
    requires
        pid > 0,
{
    nix::sys::signal::kill(nix::unistd::Pid::from_raw(pid), signal)
}

/// Why an executor could not do what it was asked.
#[derive(Debug, Clone, Copy, PartialEq, Eq, Structural)]
pub enum ExecutorError {
    NoStatus,
    SignalNotSent,
}

/// What a non-blocking wait on the held child reported.
#[derive(Debug, Clone, Copy, PartialEq, Eq, Structural)]
pub enum ChildStatus {
    /// The child has not exited yet.
    Running,
    /// The child has exited.
    Exited,
    /// The wait itself failed.
    Unknown,
}

/// What an executor holds: its command, the number of the signal it ends the
/// child with, the pid of the child it holds, and the error of the last failed
/// spawn.
pub struct ExecutorView {
    pub command: Seq<char>,
    pub signal: Option<i32>,
    pub child: Option<u32>,
    pub error: Option<Seq<char>>,
}

impl ExecutorView {
    /// The executor after spawning its command gave `outcome`: the new child's
    /// pid, or the error that the spawn failed with.
    pub open spec fn spawned(self, outcome: Result<u32, Seq<char>>) -> ExecutorView {
        match outcome {
            Ok(pid) => ExecutorView { child: Some(pid), error: None, ..self },
            Err(e) => ExecutorView { child: None, error: Some(e), ..self },
        }
    }

    /// The executor once its child is gone.
    pub open spec fn released(self) -> ExecutorView {
        ExecutorView { child: None, ..self }
    }

    /// The pid and signal number that ending the child sends, when a child is
    /// held, a signal is set and the pid names one process.
    pub open spec fn signal_request(self) -> Option<(i32, i32)> {
        match (self.child, self.signal) {
            (Some(pid), Some(signal)) => if is_signal_target(pid) {
                Some((pid as i32, signal))
            } else {
                None
            },
            _ => None,
        }
    }
}

/// Whether `pid` names one process that a signal can be sent to.
pub open spec fn is_signal_target(pid: u32) -> bool {
    0 < pid <= i32::MAX
}

/// Owns at most one child process running a shell command.
///
/// The process itself is spawned, waited on and reaped by the caller; the
/// executor keeps track of it by its pid and delivers the termination signal.
pub struct Executor {
    command: String,
    signal: Option<i32>,
    child: Option<u32>,
    error: Option<String>,
}

impl View for Executor {
    type V = ExecutorView;

    closed spec fn view(&self) -> ExecutorView {
        ExecutorView {
            command: self.command@,
            signal: self.signal,
            child: self.child,
            error: match self.error {
                Some(e) => Some(e@),
                None => None,
            },
        }
    }
}

impl Executor {
    /// Makes an executor of `command` that holds no child and ends a child
    /// with `SIGINT`.
    pub fn new(command: String) -> (r: Self)
        ensures
            r@.command == command@,
            r@.signal == signal_named("SIGINT"@),
            r@.signal is Some,
            r@.child is None,
            r@.error is None,
    {
        let signal = parse_signal("SIGINT");
        Self { command, signal, child: None, error: None }
    }

    /// The command that the child runs.
    pub fn command(&self) -> (r: &String)
        ensures
            r@ == self@.command,
    {
        &self.command
    }

    /// The pid of the held child, alive or not.
    pub fn child(&self) -> (r: Option<u32>)
        ensures
            r == self@.child,
    {
        self.child
    }

    /// The error that the last spawn failed with, if it failed.
    pub fn error(&self) -> (r: Option<String>)
        ensures
            r matches Some(e) ==> self@.error == Some(e@),
            r is None ==> self@.error is None,
    {
        match &self.error {
            Some(e) => Some(e.clone()),
            None => None,
        }
    }

    /// Records the outcome of spawning the command through the shell: the
    /// child's pid, which the executor then holds in place of any earlier one,
    /// or the error. Returns whether the spawn succeeded.
    pub fn execute(&mut self, spawned: Result<u32, String>) -> (r: bool)
        ensures
            r == spawned is Ok,
            final(self)@ == old(self)@.spawned(
                match spawned {
                    Ok(pid) => Ok(pid),
                    Err(e) => Err(e@),
                },
            ),
    {
        match spawned {
            Ok(pid) => {
                self.child = Some(pid);
                self.error = None;
                true
            },
            Err(error) => {
                self.error = Some(error);
                self.child = None;
                false
            },
        }
    }

    /// The pid and signal number that ending the child sends, if it can be sent.
    pub fn signal_request(&self) -> (r: Option<(i32, i32)>)
        ensures
            r == self@.signal_request(),
    {
        match (self.child, self.signal) {
            (Some(pid), Some(signal)) => {
                if 0 < pid && pid <= i32::MAX as u32 {
                    Some((pid as i32, signal))
                } else {
                    None
                }
            },
            _ => None,
        }
    }

    /// Records whether the termination signal reached the held child: when it
    /// did, the child is let go; when it did not, the child is kept for
    /// another try.
    pub fn record_delivery(&mut self, delivered: bool) -> (r: Result<(), ExecutorError>)
        ensures
            old(self)@.child is None ==> r is Ok && final(self)@ == old(self)@,
            old(self)@.child is Some && delivered ==> r is Ok && final(self)@ == old(
                self,
            )@.released(),
            old(self)@.child is Some && !delivered ==> r == Err::<(), ExecutorError>(
                ExecutorError::SignalNotSent,
            ) && final(self)@ == old(self)@,
    {
        if self.child.is_none() || delivered {
            self.child = None;
            Ok(())
        } else {
            Err(ExecutorError::SignalNotSent)
        }
    }

    /// Sends the termination signal to the held child, if any, and lets it go;
    /// the caller then waits for the process to end. Fails, keeping the child,
    /// when no signal is set, when the pid cannot be signalled alone, or when
    /// the delivery fails. What is sent is `signal_request`, and the outcome
    /// of the delivery goes to `record_delivery`.
    pub fn kill(&mut self) -> (r: Result<(), ExecutorError>)
        ensures
            old(self)@.child is None ==> r is Ok && final(self)@ == old(self)@,
            old(self)@.child is Some && old(self)@.signal_request() is None ==> r == Err::<
                (),
                ExecutorError,
            >(ExecutorError::SignalNotSent) && final(self)@ == old(self)@,
            r is Ok ==> final(self)@ == old(self)@.released(),
            r is Err ==> r == Err::<(), ExecutorError>(ExecutorError::SignalNotSent) && final(self)@
                == old(self)@,
    {
        if self.child.is_none() {
            return Ok(());
        }
        match self.signal_request() {
            None => Err(ExecutorError::SignalNotSent),
            Some((pid, number)) => {
                let delivered = match signal_of(number) {
                    Some(signal) => send_signal(pid, signal).is_ok(),
                    None => false,
                };
                self.record_delivery(delivered)
            },
        }
    }

    /// Whether the held child is alive, from what a non-blocking wait on it
    /// reported: with no child, false; a child that exited is let go.
    pub fn is_alive(&mut self, status: ChildStatus) -> (r: Result<bool, ExecutorError>)
        ensures
            old(self)@.child is None ==> r == Ok::<bool, ExecutorError>(false) && final(self)@
                == old(self)@,
            old(self)@.child is Some ==> match status {
                ChildStatus::Running => r == Ok::<bool, ExecutorError>(true) && final(self)@
                    == old(self)@,
                ChildStatus::Exited => r == Ok::<bool, ExecutorError>(false) && final(self)@
                    == old(self)@.released(),
                ChildStatus::Unknown => r == Err::<bool, ExecutorError>(ExecutorError::NoStatus)
                    && final(self)@ == old(self)@,
            },
    {
        if self.child.is_none() {
            return Ok(false);
        }
        match status {
            ChildStatus::Running => Ok(true),
            ChildStatus::Exited => {
                self.child = None;
                Ok(false)
            },
            ChildStatus::Unknown => Err(ExecutorError::NoStatus),
        }
    }

    /// The pid of the held child when it is alive, from what a non-blocking
    /// wait on it reported; a child that exited is let go.
    pub fn get_pid(&mut self, status: ChildStatus) -> (r: Option<u32>)
        ensures
            r == (if old(self)@.child is Some && status == ChildStatus::Running {
                old(self)@.child
            } else {
                None
            }),
            final(self)@ == (if old(self)@.child is Some && status == ChildStatus::Exited {
                old(self)@.released()
            } else {
                old(self)@
            }),
    {
        match self.is_alive(status) {
            Ok(true) => self.child,
            _ => None,
        }
    }

    /// Sets the termination signal by its name, such as "SIGTERM"; a name that
    /// is no signal leaves no signal set, so that ending a child then fails.
    pub fn set_signal(&mut self, name: &str)
        ensures
            final(self)@ == (ExecutorView { signal: signal_named(name@), ..old(self)@ }),
    {
        self.signal = parse_signal(name);
    }
}

/// After a spawn, a termination and another spawn, the executor holds the pid
/// of the last spawn and nothing of the first child: each spawn is tracked by
/// the identity it reported, whatever the operating system reuses.
pub proof fn lemma_spawn_kill_spawn(
    e0: ExecutorView,
    first: u32,
    e1: ExecutorView,
    e2: ExecutorView,
    second: u32,
    e3: ExecutorView,
)
    requires
        e1 == e0.spawned(Ok(first)),
        e2 == e1.released(),
        e3 == e2.spawned(Ok(second)),
    ensures
        e1.child == Some(first),
        e2.child is None,
        e3.child == Some(second),
        e3 == e0.spawned(Ok(second)),
{
}

} // verus!
