use rand::seq::SliceRandom;
use pipeliner::Pipeline;
use crate::network::Address;
use vstd::multiset::Multiset;
use vstd::prelude::*;

verus! {

/// A command line handed to `/bin/sh -c`, with the value of the hosts
/// environment variable when the probe sets it.
pub struct ShellCommand {
    pub line: String,
    pub hosts_var: Option<String>,
}

/// Command line that pings `host` with `options`: `ping <options> <host>`.
pub open spec fn ping_line(options: Seq<char>, host: Seq<char>) -> Seq<char> {
    "ping "@ + options + " "@ + host
}

/// `c` is the probe that pings `host` with `options`.
pub open spec fn is_ping_of(c: ShellCommand, options: Seq<char>, host: Seq<char>) -> bool {
    &&& c.line@ == ping_line(options, host)
    &&& c.hosts_var is None
}

/// Some run of the ping probe of `host` through `shell` reported `outcome`.
pub open spec fn ping_answered<S: Fn(ShellCommand) -> bool>(
    shell: S,
    options: Seq<char>,
    host: Seq<char>,
    outcome: bool,
) -> bool {
    exists|c: ShellCommand| is_ping_of(c, options, host) && #[trigger] shell.ensures((c,), outcome)
}

/// `r` is an outcome of pinging `hosts`: true only when some host answered,
/// false only when every host failed to.
pub open spec fn ping_some_outcome<S: Fn(ShellCommand) -> bool>(
    shell: S,
    options: Seq<char>,
    hosts: Seq<Seq<char>>,
    r: bool,
) -> bool {
    &&& r ==> exists|i: int|
        0 <= i < hosts.len() && ping_answered(shell, options, #[trigger] hosts[i], true)
    &&& !r ==> forall|i: int|
        0 <= i < hosts.len() ==> ping_answered(shell, options, #[trigger] hosts[i], false)
}

/// Every run of the ping probe of `host` through `shell` reports `outcome`.
pub open spec fn ping_always<S: Fn(ShellCommand) -> bool>(
    shell: S,
    options: Seq<char>,
    host: Seq<char>,
    outcome: bool,
) -> bool {
    forall|c: ShellCommand, b: bool|
        is_ping_of(c, options, host) && #[trigger] shell.ensures((c,), b) ==> b == outcome
}

/// Builds the ping probe of `host` with `options`.
pub fn ping_command(options: &String, host: &String) -> (r: ShellCommand)
    ensures
        is_ping_of(r, options@, host@),
{
    let mut line = String::from_str("ping ");
    line.append(options.as_str());
    line.append(" ");
    line.append(host.as_str());
    ShellCommand { line, hosts_var: None }
}

/// Outcomes of probes that run concurrently, handed out as they complete.
///
/// pipeliner hands its iterator out as an `impl Iterator`, a type that cannot
/// be named, so it is held boxed here and known only by what is `pending`.
#[verifier::external_body]
pub struct Outcomes {
    results: Box<dyn Iterator<Item = bool>>,
}

/// The outcomes that have not been handed out yet.
pub uninterp spec fn pending(o: Outcomes) -> Multiset<bool>;

/// `outcomes` holds one result of `probe` for each of `targets`.
pub open spec fn outcomes_of<T, F: Fn(T) -> bool>(
    outcomes: Multiset<bool>,
    targets: Seq<T>,
    probe: F,
) -> bool {
    exists|s: Seq<bool>|
        {
            &&& s.len() == targets.len()
            &&& forall|i: int| 0 <= i < s.len() ==> probe.ensures((targets[i],), s[i])
            &&& outcomes == s.to_multiset()
        }
}

/// Relies on pipeliner's `with_threads(threads).map(probe)`: each target is
/// handed to `probe` exactly once, on one of the worker threads, and every
/// result is sent to the returned iterator.
#[verifier::external_body]
fn fan_out<T, F>(targets: Vec<T>, threads: usize, probe: F) -> (r: Outcomes) where
    T: Send + 'static,
    F: Fn(T) -> bool + Send + Sync + 'static,

    requires
        forall|t: T| probe.requires((t,)),
    ensures
        outcomes_of(pending(r), targets@, probe),
{
    Outcomes { results: Box::new(targets.with_threads(threads).map(probe)) }
}

/// Relies on the pipeline iterator's `next`: it hands out one result that a
/// worker has sent, and returns `None` only once every worker has finished and
/// every result was handed out (a worker that panicked panics the reader).
#[verifier::external_body]
fn next_outcome(o: &mut Outcomes) -> (r: Option<bool>)
    ensures
        r matches Some(b) ==> pending(*old(o)).count(b) > 0 && pending(*final(o)) == pending(
            *old(o),
        ).remove(b),
        r is None ==> pending(*old(o)).len() == 0,
{
    o.results.next()
}

/// Relies on rand's `SliceRandom::shuffle` with the thread-local generator: it
/// swaps items in place, so the vector keeps the same items in some order.
#[verifier::external_body]
pub(crate) fn shuffle<T>(v: &mut Vec<T>)
    ensures
        final(v)@.to_multiset() == old(v)@.to_multiset(),
        final(v)@.len() == old(v)@.len(),
{
    v.shuffle(&mut rand::thread_rng());
}

/// Races `probe` over `targets`: the first target is probed on its own, and if it
/// fails the others are probed concurrently, the first success settling the
/// round. Probes that lose the race are left to finish on their own.
pub fn first_success<T, F>(targets: Vec<T>, probe: F) -> (r: bool) where
    T: Send + 'static,
    F: Fn(T) -> bool + Send + Sync + 'static,

    requires
        targets@.len() > 0,
        forall|t: T| probe.requires((t,)),
    ensures
        r ==> exists|i: int| 0 <= i < targets@.len() && probe.ensures((targets@[i],), true),
        !r ==> forall|i: int| 0 <= i < targets@.len() ==> probe.ensures((targets@[i],), false),
{
    let ghost all = targets@;
    let mut rest = targets;
    let first = rest.remove(0);
    if probe(first) {
        return true;
    }
    let ghost tail = rest@;
    assert(tail =~= all.subrange(1, all.len() as int));
    let threads = rest.len();
    let mut outcomes = fan_out(rest, threads, probe);
    let ghost s = choose|s: Seq<bool>|
        {
            &&& s.len() == tail.len()
            &&& forall|i: int| 0 <= i < s.len() ==> probe.ensures((tail[i],), s[i])
            &&& pending(outcomes) == s.to_multiset()
        };
    loop
        invariant
            s.len() == tail.len(),
            forall|i: int| 0 <= i < s.len() ==> probe.ensures((tail[i],), s[i]),
            pending(outcomes).count(true) == s.to_multiset().count(true),
            all == targets@,
            all.len() == tail.len() + 1,
            tail =~= all.subrange(1, all.len() as int),
            probe.ensures((all[0],), false),
        decreases pending(outcomes).len(),
    {
        let ghost before = pending(outcomes);
        match next_outcome(&mut outcomes) {
            Some(true) => {
                proof {
                    broadcast use vstd::seq_lib::to_multiset_contains;

                    assert(s.contains(true));
                    let j = choose|j: int| 0 <= j < s.len() && s[j] == true;
                    assert(all[j + 1] == tail[j]);
                    assert(probe.ensures((all[j + 1],), true));
                }
                return true;
            },
            Some(false) => {
                assert(pending(outcomes).count(true) == before.count(true));
            },
            None => {
                proof {
                    broadcast use vstd::seq_lib::to_multiset_contains;
                    broadcast use vstd::multiset::lemma_multiset_empty_len;

                    assert(before =~= Multiset::empty());
                    assert(!s.contains(true));
                    assert forall|i: int| 0 <= i < all.len() implies probe.ensures(
                        (all[i],),
                        false,
                    ) by {
                        if i > 0 {
                            assert(all[i] == tail[i - 1]);
                            assert(s[i - 1] == false);
                            assert(probe.ensures((tail[i - 1],), s[i - 1]));
                        }
                    }
                }
                return false;
            },
        }
    }
}

/// Whether some host answers a ping: the hosts are pinged in the order given,
/// the first on its own and the others concurrently.
pub fn can_ping_some<S>(hosts: Vec<String>, ping_opt: String, shell: S) -> (r: bool) where
    S: Fn(ShellCommand) -> bool + Send + Sync + 'static,

    requires
        hosts@.len() > 0,
        forall|c: ShellCommand| shell.requires((c,)),
    ensures
        r ==> exists|i: int|
            0 <= i < hosts@.len() && ping_answered(shell, ping_opt@, #[trigger] hosts@[i]@, true),
        !r ==> forall|i: int|
            0 <= i < hosts@.len() ==> ping_answered(shell, ping_opt@, #[trigger] hosts@[i]@, false),
        ping_some_outcome(shell, ping_opt@, hosts@.map_values(|h: String| h@), r),
{
    let mut targets: Vec<ShellCommand> = Vec::new();
    let mut i: usize = 0;
    while i < hosts.len()
        invariant
            i <= hosts@.len(),
            targets@.len() == i,
            forall|j: int| 0 <= j < i ==> is_ping_of(#[trigger] targets@[j], ping_opt@, hosts@[j]@),
        decreases hosts@.len() - i,
    {
        targets.push(ping_command(&ping_opt, &hosts[i]));
        i = i + 1;
    }
    let ghost t = targets@;
    let r = first_success(targets, shell);
    assert forall|i: int| 0 <= i < hosts@.len() && !r implies ping_answered(
        shell,
        ping_opt@,
        #[trigger] hosts@[i]@,
        false,
    ) by {
        assert(is_ping_of(t[i], ping_opt@, hosts@[i]@));
    }
    let ghost views = hosts@.map_values(|h: String| h@);
    if r {
        let ghost i = choose|i: int| 0 <= i < t.len() && shell.ensures((t[i],), true);
        assert(ping_answered(shell, ping_opt@, hosts@[i]@, true));
        assert(views[i] == hosts@[i]@);
    } else {
        assert forall|i: int| 0 <= i < views.len() implies ping_answered(
            shell,
            ping_opt@,
            #[trigger] views[i],
            false,
        ) by {
            assert(views[i] == hosts@[i]@);
        }
    }
    r
}

/// Whether a connection opens to some address within `timeout` seconds: the
/// addresses are tried in the order given, the first on its own and the others
/// concurrently.
pub fn can_connect_some<K>(addresses: Vec<Address>, timeout: u64, connect: K) -> (r: bool) where
    K: Fn((Address, u64)) -> bool + Send + Sync + 'static,

    requires
        addresses@.len() > 0,
        forall|a: (Address, u64)| connect.requires((a,)),
    ensures
        r ==> exists|i: int|
            0 <= i < addresses@.len() && connect.ensures(((addresses@[i], timeout),), true),
        !r ==> forall|i: int|
            0 <= i < addresses@.len() ==> connect.ensures(((addresses@[i], timeout),), false),
{
    let mut targets: Vec<(Address, u64)> = Vec::new();
    let mut i: usize = 0;
    while i < addresses.len()
        invariant
            i <= addresses@.len(),
            targets@.len() == i,
            forall|j: int| 0 <= j < i ==> #[trigger] targets@[j] == (addresses@[j], timeout),
        decreases addresses@.len() - i,
    {
        targets.push((addresses[i], timeout));
        i = i + 1;
    }
    let ghost t = targets@;
    let r = first_success(targets, connect);
    assert forall|i: int| 0 <= i < addresses@.len() && !r implies connect.ensures(
        ((addresses@[i], timeout),),
        false,
    ) by {
        assert(t[i] == (addresses@[i], timeout));
    }
    r
}

/// Shuffles `hosts` and pings them in that order; whatever the order, the
/// outcome speaks of the hosts as given.
pub fn ping_in_random_order<S>(hosts: &Vec<String>, ping_opt: String, shell: S) -> (r: bool) where
    S: Fn(ShellCommand) -> bool + Send + Sync + 'static,

    requires
        hosts@.len() > 0,
        forall|c: ShellCommand| shell.requires((c,)),
    ensures
        r ==> exists|i: int|
            0 <= i < hosts@.len() && ping_answered(shell, ping_opt@, #[trigger] hosts@[i]@, true),
        !r ==> forall|i: int|
            0 <= i < hosts@.len() ==> ping_answered(shell, ping_opt@, #[trigger] hosts@[i]@, false),
{
    let mut shuffled = hosts.clone();
    assert(shuffled@ =~= hosts@);
    shuffle(&mut shuffled);
    let ghost order = shuffled@;
    let reachable = can_ping_some(shuffled, ping_opt, shell);
    proof {
        if reachable {
            let j = choose|j: int|
                0 <= j < order.len() && ping_answered(shell, ping_opt@, #[trigger] order[j]@, true);
            lemma_same_items(order, hosts@, j);
        } else {
            assert forall|i: int| 0 <= i < hosts@.len() implies ping_answered(
                shell,
                ping_opt@,
                #[trigger] hosts@[i]@,
                false,
            ) by {
                lemma_same_items(hosts@, order, i);
                let j = choose|j: int| 0 <= j < order.len() && order[j] == hosts@[i];
                assert(order[j]@ == hosts@[i]@);
            }
        }
    }
    reachable
}

/// Whether some host answers does not depend on the order in which the hosts
/// are pinged: when each host's ping always gives the same outcome, two rounds
/// over the same hosts in any two orders agree, and succeed exactly when some
/// host answers.
pub proof fn lemma_answer_ignores_order<S: Fn(ShellCommand) -> bool>(
    shell: S,
    options: Seq<char>,
    a: Seq<Seq<char>>,
    b: Seq<Seq<char>>,
    ra: bool,
    rb: bool,
)
    requires
        a.to_multiset() == b.to_multiset(),
        forall|h: Seq<char>|
            ping_always(shell, options, h, true) || ping_always(shell, options, h, false),
        ping_some_outcome(shell, options, a, ra),
        ping_some_outcome(shell, options, b, rb),
    ensures
        ra == rb,
        ra <==> exists|i: int| 0 <= i < a.len() && ping_always(shell, options, a[i], true),
{
    if ra {
        let i = choose|i: int| 0 <= i < a.len() && ping_answered(shell, options, a[i], true);
        assert(ping_always(shell, options, a[i], true));
        lemma_same_items(a, b, i);
        let j = choose|j: int| 0 <= j < b.len() && b[j] == a[i];
        if !rb {
            assert(ping_answered(shell, options, b[j], false));
        }
    } else {
        assert forall|i: int| 0 <= i < a.len() implies !ping_always(shell, options, a[i], true) by {
            assert(ping_answered(shell, options, a[i], false));
        }
    }
    if rb {
        let j = choose|j: int| 0 <= j < b.len() && ping_answered(shell, options, b[j], true);
        assert(ping_always(shell, options, b[j], true));
        lemma_same_items(b, a, j);
        let i = choose|i: int| 0 <= i < a.len() && a[i] == b[j];
        if !ra {
            assert(ping_answered(shell, options, a[i], false));
        }
    }
}

/// An item at some place of `a` stands at some place of `b` when the two hold
/// the same items.
pub proof fn lemma_same_items<T>(a: Seq<T>, b: Seq<T>, i: int)
    requires
        a.to_multiset() == b.to_multiset(),
        0 <= i < a.len(),
    ensures
        exists|j: int| 0 <= j < b.len() && b[j] == a[i],
{
    broadcast use vstd::seq_lib::to_multiset_contains;

    assert(a.contains(a[i]));
    assert(a.to_multiset().count(a[i]) > 0);
    assert(b.to_multiset().count(a[i]) > 0);
}



} // verus!
