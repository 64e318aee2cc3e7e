use pingkeeper::{ChildStatus, Executor, ExecutorError};

/// The pid of this test process, which ignores `SIGWINCH` and `SIGURG`.
fn own_pid() -> u32 {
    nix::unistd::getpid().as_raw() as u32
}

/// A pid past any that the system hands out.
const NO_SUCH_PID: u32 = i32::MAX as u32;

#[test]
fn executor_new() {
    let executor = Executor::new(String::from("echo"));
    assert_eq!(executor.command(), "echo");
    assert_eq!(executor.child(), None);
    assert_eq!(executor.error(), None);
}

#[test]
fn execute() {
    let mut executor = Executor::new(String::from("echo"));
    assert!(executor.execute(Ok(4321)));
    assert_eq!(executor.child(), Some(4321));
    assert_eq!(executor.error(), None);
}

#[test]
fn execute_failure_records_error() {
    let mut executor = Executor::new(String::from("echo"));
    assert!(executor.execute(Ok(4321)));
    assert!(!executor.execute(Err(String::from("No such file or directory"))));
    assert_eq!(executor.child(), None);
    assert_eq!(executor.error(), Some(String::from("No such file or directory")));
    assert!(executor.execute(Ok(77)));
    assert_eq!(executor.error(), None);
}

#[test]
fn is_alive() {
    // A command that never ends
    let mut executor = Executor::new(String::from("cat"));
    assert!(executor.execute(Ok(1000)));
    assert!(executor.is_alive(ChildStatus::Running).is_ok());
    assert!(executor.is_alive(ChildStatus::Running).unwrap());
    // A command that ends
    let mut executor = Executor::new(String::from("echo"));
    assert!(executor.execute(Ok(1001)));
    assert!(executor.is_alive(ChildStatus::Exited).is_ok());
    assert_eq!(executor.child(), None);
    assert!(!executor.is_alive(ChildStatus::Running).unwrap());
    // A wait that fails
    let mut executor = Executor::new(String::from("echo"));
    assert!(executor.execute(Ok(1002)));
    assert_eq!(executor.is_alive(ChildStatus::Unknown), Err(ExecutorError::NoStatus));
    assert_eq!(executor.child(), Some(1002));
    // No child at all
    let mut executor = Executor::new(String::from("echo"));
    assert_eq!(executor.is_alive(ChildStatus::Running), Ok(false));
}

#[test]
fn kill() {
    // A command that never ends
    let mut executor = Executor::new(String::from("cat"));
    executor.set_signal("SIGWINCH");
    assert!(executor.execute(Ok(own_pid())));
    assert!(executor.is_alive(ChildStatus::Running).unwrap());
    assert!(executor.kill().is_ok());
    assert_eq!(executor.child(), None);
    assert!(!executor.is_alive(ChildStatus::Running).unwrap());
}

#[test]
fn kill_of_a_missing_process_fails() {
    let mut executor = Executor::new(String::from("cat"));
    assert!(executor.execute(Ok(NO_SUCH_PID)));
    assert_eq!(executor.kill(), Err(ExecutorError::SignalNotSent));
    assert_eq!(executor.child(), Some(NO_SUCH_PID));
}

#[test]
fn get_pid() {
    let mut executor = Executor::new(String::from("cat"));
    assert!(executor.execute(Ok(2000)));
    assert_eq!(executor.get_pid(ChildStatus::Running), Some(2000));
    assert_eq!(executor.get_pid(ChildStatus::Unknown), None);
    assert_eq!(executor.child(), Some(2000));
    assert_eq!(executor.get_pid(ChildStatus::Exited), None);
    assert_eq!(executor.child(), None);
    assert_eq!(executor.get_pid(ChildStatus::Running), None);
}

#[test]
fn set_signal() {
    let mut executor = Executor::new(String::from("echo"));
    executor.set_signal("SIGTERM");
    assert_eq!(executor.command(), "echo");
}

#[test]
fn unknown_signal_fails_termination() {
    let mut executor = Executor::new(String::from("cat"));
    executor.set_signal("SIGNOTHING");
    assert!(executor.execute(Ok(own_pid())));
    assert_eq!(executor.kill(), Err(ExecutorError::SignalNotSent));
    // the child is kept for another try
    assert_eq!(executor.child(), Some(own_pid()));
    executor.set_signal("SIGURG");
    assert_eq!(executor.kill(), Ok(()));
    assert_eq!(executor.child(), None);
}

#[test]
fn terminate_without_child_is_idempotent() {
    let mut executor = Executor::new(String::from("cat"));
    assert_eq!(executor.kill(), Ok(()));
    assert_eq!(executor.kill(), Ok(()));
    assert_eq!(executor.child(), None);
    assert_eq!(executor.error(), None);
}

#[test]
fn pid_zero_is_never_signalled() {
    let mut executor = Executor::new(String::from("cat"));
    assert!(executor.execute(Ok(0)));
    assert_eq!(executor.kill(), Err(ExecutorError::SignalNotSent));
    assert_eq!(executor.child(), Some(0));
}

#[test]
fn spawn_terminate_spawn_tracks_each_pid() {
    let mut executor = Executor::new(String::from("cat"));
    executor.set_signal("SIGWINCH");
    assert!(executor.execute(Ok(own_pid())));
    assert_eq!(executor.get_pid(ChildStatus::Running), Some(own_pid()));
    assert_eq!(executor.kill(), Ok(()));
    assert_eq!(executor.get_pid(ChildStatus::Running), None);
    assert!(executor.execute(Ok(NO_SUCH_PID)));
    assert_eq!(executor.get_pid(ChildStatus::Running), Some(NO_SUCH_PID));
}

#[test]
fn signal_request_names_pid_and_signal() {
    let mut executor = Executor::new(String::from("cat"));
    assert_eq!(executor.signal_request(), None);
    assert!(executor.execute(Ok(4321)));
    assert_eq!(executor.signal_request(), Some((4321, 2)));
    executor.set_signal("SIGTERM");
    assert_eq!(executor.signal_request(), Some((4321, 15)));
    executor.set_signal("SIGKILL");
    assert_eq!(executor.signal_request(), Some((4321, 9)));
    executor.set_signal("TERM");
    assert_eq!(executor.signal_request(), None);
    executor.set_signal("SIGINT");
    assert!(executor.execute(Ok(0)));
    assert_eq!(executor.signal_request(), None);
    assert!(executor.execute(Ok(NO_SUCH_PID + 1)));
    assert_eq!(executor.signal_request(), None);
}

#[test]
fn record_delivery_releases_or_keeps() {
    let mut executor = Executor::new(String::from("cat"));
    assert_eq!(executor.record_delivery(false), Ok(()));
    assert!(executor.execute(Ok(55)));
    assert_eq!(executor.record_delivery(false), Err(ExecutorError::SignalNotSent));
    assert_eq!(executor.child(), Some(55));
    assert_eq!(executor.record_delivery(true), Ok(()));
    assert_eq!(executor.child(), None);
}
