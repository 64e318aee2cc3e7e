//! A supervisor that keeps a command alive while the network is unreachable.
//!
//! The library holds the decisions: which probe checks the network and how a
//! round of probes is raced, how the managed child is tracked and signalled,
//! and the state machine of the supervision loop. Spawning processes, opening
//! connections and sleeping are the caller's part: it performs the actions
//! that the state machine asks for and reports what it observed.

mod executor;
mod logger;
mod network;
mod opt;
mod ping;
mod prober;
mod supervisor;

pub use executor::{
    is_signal_target, signal_named, lemma_spawn_kill_spawn, ChildStatus, Executor, ExecutorError,
    ExecutorView,
};
pub use logger::LogLevel;
pub use network::{
    connect_always, connect_outcome, custom_outcome, hosts_to_addresses, join_hosts, joined_hosts,
    ping_outcome, resolved_addresses, Address, IpAddress, MonitorView, NetworkError,
    NetworkMonitor, DEFAULT_TIMEOUT,
};
pub use opt::{host_list, is_white_space, split_hosts, trim_end, trim_start, trimmed, words, Opt};
pub use ping::{Ping, PingError};
pub use prober::{
    can_connect_some, can_ping_some, first_success, is_ping_of, lemma_answer_ignores_order, ping_always, ping_answered,
    ping_command, ping_in_random_order, ping_line, ping_some_outcome, ShellCommand,
};
pub use supervisor::{
    is_restart, is_spawn, is_termination, lemma_dead_children_stop, lemma_errors_bounded,
    lemma_one_spawn_per_restart, lemma_restart_only_when_unreachable, lemma_spawn_only_without_child,
    lemma_spawns_per_detection, lemma_steady_run, lemma_steady_while_reachable, lemma_stop_absorbs,
    settings_of, Action, Event,
    Note, PingkeeperError, Settings, Supervisor, SupervisorView, Transition, CHECK_MS,
};
