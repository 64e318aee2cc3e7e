use pingkeeper::{
    host_list, split_hosts, Action, Event, ExecutorError, LogLevel, NetworkError, Note, Opt,
    PingkeeperError, Supervisor, CHECK_MS,
};

fn opt(command: &str, hosts: &str) -> Opt {
    Opt {
        command: String::from(command),
        hosts: String::from(hosts),
        keep_alive: false,
        max_errors: 0,
        network_every: 5,
        ping_opt: String::from("-c1"),
        port: 53,
        quiet: true,
        signal: String::from("SIGINT"),
        use_ping: false,
        verbose: 0,
        wait_after_exec: 5,
        timeout: 2,
        check_cmd: None,
    }
}

/// A world where the network is reachable or not, and where a spawned child
/// lives or dies at once.
struct World {
    reachable: bool,
    child_lives: bool,
    child: Option<u32>,
    next_pid: u32,
    spawns: usize,
    kills: usize,
    checks: usize,
}

impl World {
    fn new(reachable: bool, child_lives: bool) -> World {
        World { reachable, child_lives, child: None, next_pid: 100, spawns: 0, kills: 0, checks: 0 }
    }

    fn perform(&mut self, action: Action) -> Event {
        match action {
            Action::QueryLiveness => Event::Liveness(Ok(self.child.is_some())),
            Action::CheckNetwork => {
                self.checks += 1;
                Event::Network(if self.reachable { Ok(()) } else { Err(NetworkError::NetworkUnreachable) })
            }
            Action::QueryPid => Event::Pid(self.child),
            Action::Terminate(pid) => {
                assert_eq!(self.child, Some(pid));
                self.kills += 1;
                self.child = None;
                Event::Terminated(Ok(()))
            }
            Action::Spawn => {
                assert!(self.child.is_none(), "a second child beside a live one");
                self.spawns += 1;
                self.next_pid += 1;
                if self.child_lives {
                    self.child = Some(self.next_pid);
                }
                Event::Spawned(self.child)
            }
            Action::Sleep(ms) => {
                assert_eq!(ms, CHECK_MS);
                Event::Slept
            }
            Action::Stop(e) => panic!("stopped with {:?}", e),
        }
    }
}

/// Runs the supervisor for at most `steps` steps; returns its error if it stopped.
fn run(s: &mut Supervisor, world: &mut World, steps: usize) -> Option<PingkeeperError> {
    let mut action = s.pending();
    for _ in 0..steps {
        if let Action::Stop(e) = action {
            return Some(e);
        }
        let event = world.perform(action);
        action = s.step(event).0;
    }
    None
}

#[test]
fn without_hosts() {
    let error = Supervisor::new(&opt("echo", ""));
    assert!(error.is_err());
    assert_eq!(error.err(), Some(PingkeeperError::NoHostsToPing));
    assert_eq!(Supervisor::new(&opt("echo", "   ")).err(), Some(PingkeeperError::NoHostsToPing));
}

#[test]
fn zero_timeout_is_refused() {
    let mut o = opt("echo", "1.1.1.1");
    o.timeout = 0;
    assert_eq!(Supervisor::new(&o).err(), Some(PingkeeperError::InvalidTimeout));
}

#[test]
fn max_errors() {
    let mut o = opt("__pingkeeper__test__command__", "0.0.0.0");
    o.keep_alive = true;
    o.max_errors = 2;
    o.wait_after_exec = 1;
    let mut s = Supervisor::new(&o).ok().expect("a valid configuration");
    let mut world = World::new(false, false);
    let error = run(&mut s, &mut world, 1000);
    assert!(error.is_some());
    assert_eq!(error, Some(PingkeeperError::TooManyErrors));
    assert_eq!(world.spawns, 2);
    assert_eq!(s.errors_in_a_row(), 2);
}

#[test]
fn spawn_controller_test() {
    let mut o = opt("cat", "1.1.1.1");
    o.keep_alive = true;
    let mut s = Supervisor::new(&o).ok().unwrap();
    // Should spawn
    let (a, notes) = s.step(Event::Liveness(Ok(false)));
    assert_eq!(a, Action::QueryPid);
    assert_eq!(notes, vec![Note::ChildDead, Note::ShouldSpawn]);
    assert_eq!(s.step(Event::Pid(None)).0, Action::Spawn);
    let (a, notes) = s.step(Event::Spawned(Some(41)));
    assert_eq!(a, Action::Sleep(CHECK_MS));
    assert_eq!(notes, vec![Note::ChildStarted(41)]);
    assert!(s.is_executing());
    assert_eq!(s.step(Event::Slept).0, Action::QueryLiveness);
    // Should kill
    assert_eq!(s.step(Event::Liveness(Err(ExecutorError::NoStatus))).0, Action::QueryPid);
    assert_eq!(s.step(Event::Pid(Some(41))).0, Action::Terminate(41));
    let (a, notes) = s.step(Event::Terminated(Ok(())));
    assert_eq!(a, Action::Sleep(CHECK_MS));
    assert_eq!(notes, vec![Note::KillDone(41)]);
    assert_eq!(s.step(Event::Slept).0, Action::QueryLiveness);
    // Should spawn
    assert_eq!(s.step(Event::Liveness(Ok(false))).0, Action::QueryPid);
    assert_eq!(s.step(Event::Pid(None)).0, Action::Spawn);
    assert_eq!(s.step(Event::Spawned(Some(42))).1, vec![Note::ChildStarted(42)]);
}

#[test]
fn reachable_network_never_spawns() {
    let mut s = Supervisor::new(&opt("sleep 100", "1.1.1.1")).ok().unwrap();
    let mut world = World::new(true, true);
    // five minutes of ticks
    assert_eq!(run(&mut s, &mut world, 3 * 10 * 60 * 5), None);
    assert_eq!(world.spawns, 0);
    assert_eq!(world.kills, 0);
    assert!(world.checks >= 50);
}

#[test]
fn unreachable_network_spawns_once_per_detection() {
    let mut o = opt("sleep 100", "192.0.2.1");
    o.network_every = 1;
    o.wait_after_exec = 2;
    let mut s = Supervisor::new(&o).ok().unwrap();
    let mut world = World::new(false, true);
    let mut action = s.pending();
    let mut detections = 0;
    for _ in 0..5000 {
        let event = world.perform(action);
        if let Event::Network(Err(_)) = event {
            detections += 1;
        }
        action = s.step(event).0;
    }
    assert!(detections > 3);
    // a detection with a live child ends it, the next one spawns again
    assert!(world.spawns + world.kills <= detections);
    assert!(world.spawns + world.kills + 1 >= detections);
    assert!(world.spawns >= 2);
}

#[test]
fn check_waits_for_the_window() {
    let mut o = opt("cat", "1.1.1.1");
    o.network_every = 1;
    let mut s = Supervisor::new(&o).ok().unwrap();
    let mut checks_at = Vec::new();
    let mut action = s.pending();
    for tick in 0..35 {
        loop {
            let event = match action {
                Action::QueryLiveness => Event::Liveness(Ok(false)),
                Action::CheckNetwork => {
                    checks_at.push(tick);
                    Event::Network(Ok(()))
                }
                Action::Sleep(_) => break,
                other => panic!("unexpected {:?}", other),
            };
            action = s.step(event).0;
        }
        action = s.step(Event::Slept).0;
    }
    // one second is ten ticks
    assert_eq!(checks_at, vec![10, 20, 30]);
}

#[test]
fn boot_window_follows_a_spawn() {
    let mut o = opt("cat", "1.1.1.1");
    o.network_every = 1;
    o.wait_after_exec = 3;
    let mut s = Supervisor::new(&o).ok().unwrap();
    for _ in 0..10 {
        assert_eq!(s.step(Event::Liveness(Ok(true))).0, Action::Sleep(CHECK_MS));
        assert_eq!(s.step(Event::Slept).0, Action::QueryLiveness);
    }
    assert_eq!(s.time_since_last_check(), 1000);
    assert_eq!(s.step(Event::Liveness(Ok(true))).0, Action::CheckNetwork);
    assert_eq!(s.step(Event::Network(Err(NetworkError::NetworkUnreachable))).0, Action::QueryPid);
    assert_eq!(s.time_since_last_check(), 0);
    assert_eq!(s.step(Event::Pid(None)).0, Action::Spawn);
    assert_eq!(s.step(Event::Spawned(Some(9))).0, Action::Sleep(CHECK_MS));
    let mut ticks = 0;
    loop {
        assert_eq!(s.step(Event::Slept).0, Action::QueryLiveness);
        ticks += 1;
        if s.step(Event::Liveness(Ok(true))).0 == Action::CheckNetwork {
            break;
        }
    }
    assert_eq!(ticks, 30);
    assert!(!s.is_executing());
}

#[test]
fn errors_reset_when_child_is_alive() {
    let mut o = opt("cat", "1.1.1.1");
    o.keep_alive = true;
    o.max_errors = 3;
    let mut s = Supervisor::new(&o).ok().unwrap();
    assert_eq!(s.step(Event::Liveness(Ok(false))).0, Action::QueryPid);
    assert_eq!(s.errors_in_a_row(), 1);
    s.step(Event::Pid(None));
    s.step(Event::Spawned(Some(5)));
    s.step(Event::Slept);
    assert_eq!(s.step(Event::Liveness(Ok(true))).0, Action::Sleep(CHECK_MS));
    assert_eq!(s.errors_in_a_row(), 0);
}

#[test]
fn signal_failure_does_not_count() {
    let mut o = opt("cat", "1.1.1.1");
    o.max_errors = 1;
    o.network_every = 0;
    let mut s = Supervisor::new(&o).ok().unwrap();
    assert_eq!(s.step(Event::Liveness(Ok(true))).0, Action::CheckNetwork);
    assert_eq!(s.step(Event::Network(Err(NetworkError::NetworkUnreachable))).0, Action::QueryPid);
    assert_eq!(s.step(Event::Pid(Some(8))).0, Action::Terminate(8));
    let (a, notes) = s.step(Event::Terminated(Err(ExecutorError::SignalNotSent)));
    assert_eq!(a, Action::Sleep(CHECK_MS));
    assert_eq!(notes, vec![Note::KillFailed(8)]);
    assert_eq!(s.errors_in_a_row(), 0);
}

#[test]
fn liveness_errors_stop_past_the_ceiling() {
    let mut o = opt("cat", "1.1.1.1");
    o.max_errors = 1;
    let mut s = Supervisor::new(&o).ok().unwrap();
    let (a, notes) = s.step(Event::Liveness(Err(ExecutorError::NoStatus)));
    assert_eq!(a, Action::QueryPid);
    assert_eq!(notes, vec![Note::CommandError(ExecutorError::NoStatus), Note::ShouldSpawn]);
    s.step(Event::Pid(None));
    s.step(Event::Spawned(None));
    s.step(Event::Slept);
    let (a, notes) = s.step(Event::Liveness(Err(ExecutorError::NoStatus)));
    assert_eq!(a, Action::Stop(PingkeeperError::TooManyErrors));
    assert_eq!(notes, vec![Note::CommandError(ExecutorError::NoStatus)]);
    // once stopped, it stays stopped
    assert_eq!(s.step(Event::Slept).0, Action::Stop(PingkeeperError::TooManyErrors));
}

#[test]
fn no_ceiling_never_stops() {
    let mut o = opt("cat", "1.1.1.1");
    o.keep_alive = true;
    let mut s = Supervisor::new(&o).ok().unwrap();
    let mut world = World::new(true, false);
    assert_eq!(run(&mut s, &mut world, 10000), None);
    assert_eq!(s.errors_in_a_row(), 0);
    assert!(world.spawns > 100);
}

#[test]
fn mismatched_event_repeats_the_action() {
    let mut s = Supervisor::new(&opt("cat", "1.1.1.1")).ok().unwrap();
    assert_eq!(s.step(Event::Slept), (Action::QueryLiveness, vec![]));
    assert_eq!(s.step(Event::Pid(Some(3))), (Action::QueryLiveness, vec![]));
}

#[test]
fn note_levels() {
    assert_eq!(Note::ChildDead.level(), LogLevel::WARN);
    assert_eq!(Note::NetworkReachable.level(), LogLevel::DEBUG);
    assert_eq!(Note::NetworkUnreachable.level(), LogLevel::WARN);
    assert_eq!(Note::KillDone(1).level(), LogLevel::INFO);
    assert_eq!(Note::KillFailed(1).level(), LogLevel::ERROR);
    assert_eq!(Note::ChildStarted(1).level(), LogLevel::INFO);
    assert_eq!(Note::DeadOnBoot.level(), LogLevel::ERROR);
    assert_eq!(Note::CommandError(ExecutorError::NoStatus).level(), LogLevel::ERROR);
    assert_eq!(Note::ShouldSpawn.level(), LogLevel::DEBUG);
}

#[test]
fn log_levels() {
    assert_eq!(LogLevel::from(0), LogLevel::QUIET);
    assert_eq!(LogLevel::from(1), LogLevel::ERROR);
    assert_eq!(LogLevel::from(3), LogLevel::INFO);
    assert_eq!(LogLevel::from(9), LogLevel::DEBUG);
    assert!(LogLevel::WARN.shows(LogLevel::ERROR));
    assert!(LogLevel::WARN.shows(LogLevel::WARN));
    assert!(!LogLevel::WARN.shows(LogLevel::INFO));
    assert!(!LogLevel::DEBUG.shows(LogLevel::QUIET));
    assert!(!LogLevel::QUIET.shows(LogLevel::ERROR));
    let mut o = opt("cat", "1.1.1.1");
    assert_eq!(o.log_level(), LogLevel::QUIET);
    o.quiet = false;
    assert_eq!(o.log_level(), LogLevel::ERROR);
    o.verbose = u32::MAX;
    assert_eq!(o.log_level(), LogLevel::DEBUG);
}

#[test]
fn hosts_are_split_on_spaces() {
    assert_eq!(split_hosts("8.8.8.8 1.1.1.1"), vec!["8.8.8.8", "1.1.1.1"]);
    assert_eq!(split_hosts("  a   b "), vec!["a", "b"]);
    assert_eq!(split_hosts(""), Vec::<String>::new());
    assert_eq!(split_hosts("   "), Vec::<String>::new());
    assert_eq!(host_list("\t8.8.8.8 1.0.0.1\n"), vec!["8.8.8.8", "1.0.0.1"]);
    assert_eq!(host_list(" \n "), Vec::<String>::new());
    assert_eq!(host_list("\u{a0}0.0.0.0\u{3000}"), vec!["0.0.0.0"]);
    assert!(Supervisor::new(&opt("echo", "0.0.0.0")).is_ok());
}
