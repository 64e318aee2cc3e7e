use crate::prober::{
    can_connect_some, lemma_same_items, ping_always, ping_answered, ping_in_random_order, shuffle,
    ShellCommand,
};
use vstd::prelude::*;

verus! {

/// Seconds that a connection may take when no timeout was set.
pub const DEFAULT_TIMEOUT: u64 = 2;

/// An IP address: version 4 as its 32 bits, version 6 as its 128 bits.
#[derive(Debug, Clone, Copy, PartialEq, Eq, Structural)]
pub enum IpAddress {
    V4(u32),
    V6(u128),
}

/// A host resolved to an IP address and a port.
#[derive(Debug, Clone, Copy, PartialEq, Eq, Structural)]
pub struct Address {
    pub ip: IpAddress,
    pub port: u16,
}

/// Why a network check did not succeed.
#[derive(Debug, Clone, Copy, PartialEq, Eq, Structural)]
pub enum NetworkError {
    NetworkUnreachable,
    NoHostsToCheck,
    InvalidTimeout,
}

/// The addresses among `resolved`, in order, leaving out the hosts that did not resolve.
pub open spec fn resolved_addresses(resolved: Seq<Option<Address>>) -> Seq<Address>
    decreases resolved.len(),
{
    if resolved.len() == 0 {
        seq![]
    } else {
        let init = resolved_addresses(resolved.drop_last());
        match resolved.last() {
            Some(a) => init.push(a),
            None => init,
        }
    }
}

/// No more addresses resolve than there are hosts.
proof fn lemma_resolved_no_more(resolved: Seq<Option<Address>>)
    ensures
        resolved_addresses(resolved).len() <= resolved.len(),
    decreases resolved.len(),
{
    if resolved.len() > 0 {
        lemma_resolved_no_more(resolved.drop_last());
    }
}

/// Gets the addresses of the hosts that resolved, one entry of `resolved` per
/// host; a host that did not resolve is never probed.
pub fn hosts_to_addresses(resolved: Vec<Option<Address>>) -> (r: Vec<Address>)
    ensures
        r@ == resolved_addresses(resolved@),
{
    let mut r: Vec<Address> = Vec::new();
    let mut i: usize = 0;
    while i < resolved.len()
        invariant
            i <= resolved@.len(),
            r@ == resolved_addresses(resolved@.subrange(0, i as int)),
        decreases resolved@.len() - i,
    {
        assert(resolved@.subrange(0, i + 1).drop_last() =~= resolved@.subrange(0, i as int));
        if let Some(a) = resolved[i] {
            r.push(a);
        }
        i = i + 1;
    }
    assert(resolved@.subrange(0, i as int) =~= resolved@);
    r
}

/// What a monitor is made of: the hosts, the addresses they resolved to, the
/// ping options and the connection timeout in seconds.
pub struct MonitorView {
    pub hosts: Seq<Seq<char>>,
    pub addresses: Seq<Address>,
    pub ping_opt: Seq<char>,
    pub timeout: u64,
}

/// Checks whether the network is reachable, with one of three probes.
pub struct NetworkMonitor {
    hosts: Vec<String>,
    addresses: Vec<Address>,
    ping_opt: Option<String>,
    timeout: u64,
}

impl View for NetworkMonitor {
    type V = MonitorView;

    closed spec fn view(&self) -> MonitorView {
        MonitorView {
            hosts: self.hosts@.map_values(|h: String| h@),
            addresses: self.addresses@,
            ping_opt: match self.ping_opt {
                Some(o) => o@,
                None => seq![],
            },
            timeout: self.timeout,
        }
    }
}

/// `r` is an outcome of the custom probe `cmd` run through `shell` for hosts `v`.
pub open spec fn custom_outcome<S: Fn(ShellCommand) -> bool>(
    v: MonitorView,
    cmd: Seq<char>,
    shell: S,
    r: Result<(), NetworkError>,
) -> bool {
    &&& v.hosts.len() == 0 <==> r == Err::<(), NetworkError>(NetworkError::NoHostsToCheck)
    &&& v.hosts.len() > 0 ==> exists|c: ShellCommand, b: bool|
        {
            &&& c.line@ == cmd
            &&& c.hosts_var matches Some(h) && h@ == joined_hosts(v.hosts)
            &&& shell.ensures((c,), b)
            &&& r == if b {
                Ok(())
            } else {
                Err(NetworkError::NetworkUnreachable)
            }
        }
}

/// The hosts joined by single spaces.
pub open spec fn joined_hosts(hosts: Seq<Seq<char>>) -> Seq<char>
    decreases hosts.len(),
{
    if hosts.len() == 0 {
        seq![]
    } else if hosts.len() == 1 {
        hosts[0]
    } else {
        joined_hosts(hosts.drop_last()) + " "@ + hosts.last()
    }
}

/// `r` is an outcome of pinging the hosts of `v` through `shell`.
pub open spec fn ping_outcome<S: Fn(ShellCommand) -> bool>(
    v: MonitorView,
    shell: S,
    r: Result<(), NetworkError>,
) -> bool {
    &&& v.hosts.len() == 0 <==> r == Err::<(), NetworkError>(NetworkError::NoHostsToCheck)
    &&& r is Ok ==> exists|i: int|
        0 <= i < v.hosts.len() && ping_answered(shell, v.ping_opt, #[trigger] v.hosts[i], true)
    &&& v.hosts.len() > 0 && r is Err ==> {
        &&& r == Err::<(), NetworkError>(NetworkError::NetworkUnreachable)
        &&& forall|i: int|
            0 <= i < v.hosts.len() ==> ping_answered(shell, v.ping_opt, #[trigger] v.hosts[i], false)
    }
}

/// `r` is an outcome of connecting to the addresses of `v` through `connect`.
pub open spec fn connect_outcome<K: Fn((Address, u64)) -> bool>(
    v: MonitorView,
    connect: K,
    r: Result<(), NetworkError>,
) -> bool {
    &&& v.addresses.len() == 0 <==> r == Err::<(), NetworkError>(NetworkError::NoHostsToCheck)
    &&& r is Ok ==> exists|i: int|
        0 <= i < v.addresses.len() && connect.ensures(((v.addresses[i], v.timeout),), true)
    &&& v.addresses.len() > 0 && r is Err ==> {
        &&& r == Err::<(), NetworkError>(NetworkError::NetworkUnreachable)
        &&& forall|i: int|
            0 <= i < v.addresses.len() ==> connect.ensures(((v.addresses[i], v.timeout),), false)
    }
}

/// Every connection attempt to `a` through `connect` within `timeout` reports `outcome`.
pub open spec fn connect_always<K: Fn((Address, u64)) -> bool>(
    connect: K,
    a: Address,
    timeout: u64,
    outcome: bool,
) -> bool {
    forall|b: bool| #[trigger] connect.ensures(((a, timeout),), b) ==> b == outcome
}

impl NetworkMonitor {
    /// Makes a monitor of `hosts`, with no ping options and the default
    /// timeout; `resolved` holds what each host resolved to, and the hosts
    /// that did not resolve are never connected to.
    pub fn new(hosts: Vec<String>, resolved: Vec<Option<Address>>) -> (r: Self)
        requires
            resolved@.len() == hosts@.len(),
        ensures
            r@.addresses.len() <= r@.hosts.len(),
            r@.hosts == hosts@.map_values(|h: String| h@),
            r@.addresses == resolved_addresses(resolved@),
            r@.ping_opt == Seq::<char>::empty(),
            r@.timeout == DEFAULT_TIMEOUT,
    {
        let ghost all = resolved@;
        let addresses = hosts_to_addresses(resolved);
        proof {
            lemma_resolved_no_more(all);
        }
        NetworkMonitor { hosts, addresses, ping_opt: None, timeout: DEFAULT_TIMEOUT }
    }

    /// Timeout of a connection, in seconds.
    pub fn timeout(&self) -> (r: u64)
        ensures
            r == self@.timeout,
    {
        self.timeout
    }

    /// Sets the options that `ping` is run with.
    pub fn set_ping_opt(&mut self, ping_opt: String)
        ensures
            final(self)@ == (MonitorView { ping_opt: ping_opt@, ..old(self)@ }),
    {
        self.ping_opt = Some(ping_opt);
    }

    /// Sets the timeout of a connection; zero seconds is refused.
    pub fn set_timeout(&mut self, secs: u64) -> (r: Result<(), NetworkError>)
        ensures
            secs > 0 ==> r is Ok && final(self)@ == (MonitorView { timeout: secs, ..old(self)@ }),
            secs == 0 ==> r == Err::<(), NetworkError>(NetworkError::InvalidTimeout) && final(self)@
                == old(self)@,
    {
        if secs > 0 {
            self.timeout = secs;
            Ok(())
        } else {
            Err(NetworkError::InvalidTimeout)
        }
    }

    /// Pings the hosts in a random order; succeeds when some host answers.
    pub fn is_ping_pong<S>(&self, shell: S) -> (r: Result<(), NetworkError>) where
        S: Fn(ShellCommand) -> bool + Send + Sync + 'static,

        requires
            forall|c: ShellCommand| shell.requires((c,)),
        ensures
            ping_outcome(self@, shell, r),
            (exists|i: int|
                0 <= i < self@.hosts.len() && ping_always(
                    shell,
                    self@.ping_opt,
                    #[trigger] self@.hosts[i],
                    true,
                )) ==> r is Ok,
            self@.hosts.len() > 0 && (forall|i: int|
                0 <= i < self@.hosts.len() ==> ping_always(
                    shell,
                    self@.ping_opt,
                    #[trigger] self@.hosts[i],
                    false,
                )) ==> r == Err::<(), NetworkError>(NetworkError::NetworkUnreachable),
    {
        if self.hosts.len() == 0 {
            return Err(NetworkError::NoHostsToCheck);
        }
        let ping_opt = match &self.ping_opt {
            Some(o) => o.clone(),
            None => String::new(),
        };
        assert(self.hosts@.map_values(|h: String| h@) == self@.hosts);
        let reachable = ping_in_random_order(&self.hosts, ping_opt, shell);
        proof {
            let v = self@;
            if reachable {
                let i = choose|i: int|
                    0 <= i < self.hosts@.len() && ping_answered(
                        shell,
                        v.ping_opt,
                        #[trigger] self.hosts@[i]@,
                        true,
                    );
                assert(v.hosts[i] == self.hosts@[i]@);
            } else {
                assert forall|i: int| 0 <= i < v.hosts.len() implies ping_answered(
                    shell,
                    v.ping_opt,
                    #[trigger] v.hosts[i],
                    false,
                ) by {
                    assert(v.hosts[i] == self.hosts@[i]@);
                }
            }
        }
        if reachable {
            Ok(())
        } else {
            Err(NetworkError::NetworkUnreachable)
        }
    }

    /// Connects to the addresses in a random order; succeeds when some
    /// connection opens within the timeout.
    pub fn is_network_reachable<K>(&self, connect: K) -> (r: Result<(), NetworkError>) where
        K: Fn((Address, u64)) -> bool + Send + Sync + 'static,

        requires
            forall|a: (Address, u64)| connect.requires((a,)),
        ensures
            connect_outcome(self@, connect, r),
            (exists|i: int|
                0 <= i < self@.addresses.len() && connect_always(
                    connect,
                    #[trigger] self@.addresses[i],
                    self@.timeout,
                    true,
                )) ==> r is Ok,
            self@.addresses.len() > 0 && (forall|i: int|
                0 <= i < self@.addresses.len() ==> connect_always(
                    connect,
                    #[trigger] self@.addresses[i],
                    self@.timeout,
                    false,
                )) ==> r == Err::<(), NetworkError>(NetworkError::NetworkUnreachable),
    {
        if self.addresses.len() == 0 {
            return Err(NetworkError::NoHostsToCheck);
        }
        let mut addresses = self.addresses.clone();
        assert(addresses@ =~= self.addresses@);
        shuffle(&mut addresses);
        let ghost shuffled = addresses@;
        let reachable = can_connect_some(addresses, self.timeout, connect);
        proof {
            let v = self@;
            if reachable {
                let j = choose|j: int|
                    0 <= j < shuffled.len() && connect.ensures(((shuffled[j], v.timeout),), true);
                lemma_same_items(shuffled, v.addresses, j);
            } else {
                assert forall|i: int| 0 <= i < v.addresses.len() implies connect.ensures(
                    ((v.addresses[i], v.timeout),),
                    false,
                ) by {
                    lemma_same_items(v.addresses, shuffled, i);
                }
            }
        }
        if reachable {
            Ok(())
        } else {
            Err(NetworkError::NetworkUnreachable)
        }
    }

    /// Runs `cmd` once through `shell`, with every host in the hosts variable;
    /// succeeds when the command does. With no host, nothing is run.
    pub fn check_custom_cmd<S>(&self, cmd: &str, shell: S) -> (r: Result<(), NetworkError>) where
        S: Fn(ShellCommand) -> bool,

        requires
            forall|c: ShellCommand| shell.requires((c,)),
        ensures
            custom_outcome(self@, cmd@, shell, r),
    {
        if self.hosts.len() == 0 {
            return Err(NetworkError::NoHostsToCheck);
        }
        let c = ShellCommand { line: String::from_str(cmd), hosts_var: Some(join_hosts(&self.hosts)) };
        let ghost probe = c;
        let success = shell(c);
        assert(probe.hosts_var matches Some(h) && h@ == joined_hosts(self@.hosts));
        if success {
            Ok(())
        } else {
            Err(NetworkError::NetworkUnreachable)
        }
    }

    /// Checks the network with the custom command when there is one, else with
    /// ping when `use_ping`, else by connecting to the addresses. With no host,
    /// no probe runs.
    pub fn check<S, K>(&self, check_cmd: &Option<String>, use_ping: bool, shell: S, connect: K) -> (r:
        Result<(), NetworkError>) where
        S: Fn(ShellCommand) -> bool + Send + Sync + 'static,
        K: Fn((Address, u64)) -> bool + Send + Sync + 'static,

        requires
            self@.addresses.len() <= self@.hosts.len(),
            forall|c: ShellCommand| shell.requires((c,)),
            forall|a: (Address, u64)| connect.requires((a,)),
        ensures
            check_cmd matches Some(cmd) ==> custom_outcome(self@, cmd@, shell, r),
            check_cmd is None && use_ping ==> ping_outcome(self@, shell, r),
            check_cmd is None && !use_ping ==> connect_outcome(self@, connect, r),
            self@.hosts.len() == 0 ==> r == Err::<(), NetworkError>(NetworkError::NoHostsToCheck),
    {
        if self.hosts.len() == 0 {
            return Err(NetworkError::NoHostsToCheck);
        }
        match check_cmd {
            Some(cmd) => self.check_custom_cmd(cmd.as_str(), shell),
            None => {
                if use_ping {
                    self.is_ping_pong(shell)
                } else {
                    self.is_network_reachable(connect)
                }
            },
        }
    }
}

/// The hosts joined by single spaces, as the custom probe sees them.
pub fn join_hosts(hosts: &Vec<String>) -> (r: String)
    ensures
        r@ == joined_hosts(hosts@.map_values(|h: String| h@)),
{
    let mut r = String::new();
    let mut i: usize = 0;
    while i < hosts.len()
        invariant
            i <= hosts@.len(),
            r@ == joined_hosts(hosts@.subrange(0, i as int).map_values(|h: String| h@)),
        decreases hosts@.len() - i,
    {
        let ghost before = hosts@.subrange(0, i as int).map_values(|h: String| h@);
        let ghost after = hosts@.subrange(0, i + 1).map_values(|h: String| h@);
        assert(after.drop_last() =~= before);
        assert(after.last() == hosts@[i as int]@);
        if i > 0 {
            r.append(" ");
        } else {
            assert(after =~= seq![hosts@[0]@]);
        }
        r.append(hosts[i].as_str());
        i = i + 1;
    }
    assert(hosts@.subrange(0, i as int) =~= hosts@);
    r
}

} // verus!
