use crate::prober::{ping_always, ping_answered, ping_in_random_order, ShellCommand};
use vstd::prelude::*;

verus! {

/// Why a ping check did not succeed.
#[derive(Debug, PartialEq, Eq, Structural)]
pub enum PingError {
    NetworkUnreachable,
    NoHostsToPing,
}

/// Checks the network by pinging a set of hosts.
pub struct Ping {
    ping_opt: String,
    hosts: Vec<String>,
}

impl Ping {
    /// Hosts to ping, as their text.
    pub closed spec fn hosts(&self) -> Seq<Seq<char>> {
        self.hosts@.map_values(|h: String| h@)
    }

    /// Options that `ping` is run with.
    pub closed spec fn options(&self) -> Seq<char> {
        self.ping_opt@
    }

    /// Makes a checker that pings `hosts` with `ping_opt`.
    pub fn new(hosts: Vec<String>, ping_opt: String) -> (r: Self)
        ensures
            r.hosts() == hosts@.map_values(|h: String| h@),
            r.options() == ping_opt@,
    {
        Self { ping_opt, hosts }
    }

    /// Pings the hosts in a random order; succeeds when some host answers.
    pub fn is_network_reachable<S>(&self, shell: S) -> (r: Result<(), PingError>) where
        S: Fn(ShellCommand) -> bool + Send + Sync + 'static,

        requires
            forall|c: ShellCommand| shell.requires((c,)),
        ensures
            self.hosts().len() == 0 <==> r == Err::<(), PingError>(PingError::NoHostsToPing),
            r is Ok ==> exists|i: int|
                0 <= i < self.hosts().len() && ping_answered(
                    shell,
                    self.options(),
                    #[trigger] self.hosts()[i],
                    true,
                ),
            self.hosts().len() > 0 && r is Err ==> r == Err::<(), PingError>(
                PingError::NetworkUnreachable,
            ) && forall|i: int|
                0 <= i < self.hosts().len() ==> ping_answered(
                    shell,
                    self.options(),
                    #[trigger] self.hosts()[i],
                    false,
                ),
            (exists|i: int|
                0 <= i < self.hosts().len() && ping_always(
                    shell,
                    self.options(),
                    #[trigger] self.hosts()[i],
                    true,
                )) ==> r is Ok,
            self.hosts().len() > 0 && (forall|i: int|
                0 <= i < self.hosts().len() ==> ping_always(
                    shell,
                    self.options(),
                    #[trigger] self.hosts()[i],
                    false,
                )) ==> r == Err::<(), PingError>(PingError::NetworkUnreachable),
    {
        if self.hosts.len() == 0 {
            return Err(PingError::NoHostsToPing);
        }
        let reachable = ping_in_random_order(&self.hosts, self.ping_opt.clone(), shell);
        proof {
            let hosts = self.hosts();
            if reachable {
                let i = choose|i: int|
                    0 <= i < self.hosts@.len() && ping_answered(
                        shell,
                        self.options(),
                        #[trigger] self.hosts@[i]@,
                        true,
                    );
                assert(hosts[i] == self.hosts@[i]@);
            } else {
                assert forall|i: int| 0 <= i < hosts.len() implies ping_answered(
                    shell,
                    self.options(),
                    #[trigger] hosts[i],
                    false,
                ) by {
                    assert(hosts[i] == self.hosts@[i]@);
                }
            }
        }
        if reachable {
            Ok(())
        } else {
            Err(PingError::NetworkUnreachable)
        }
    }
}

} // verus!
