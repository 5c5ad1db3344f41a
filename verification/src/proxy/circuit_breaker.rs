//! Holding requests back from an upstream that keeps failing.
use vstd::prelude::*;

use crate::table;
use crate::text;

verus! {

/// What is known of one upstream. Times are nanoseconds on a clock that does not run backwards.
#[derive(Clone, Copy, Debug, PartialEq, Eq, Structural)]
pub struct HostState {
    pub failure_count: u32,
    pub last_failure: Option<u128>,
    pub circuit_open_until: Option<u128>,
    /// Whether a trial request is under way.
    pub trial: bool,
}

/// Counts the failures of each upstream.
///
/// After `failure_threshold` consecutive failures the circuit opens for `backoff`, and requests
/// are rejected at once. When that time is over one trial request is allowed: if it succeeds the
/// circuit closes, and until it has failed, succeeded or been given up no other request follows.
#[derive(Debug)]
pub struct CircuitBreaker {
    hosts: Vec<(String, HostState)>,
    failure_threshold: u32,
    backoff: u128,
}

spec fn keyed(list: Seq<(String, HostState)>) -> Seq<(Seq<char>, HostState)> {
    list.map_values(|e: (String, HostState)| (e.0@, e.1))
}

/// A time, or the last one that can be told where it lies beyond that.
pub open spec fn capped(n: int) -> u128 {
    if n > u128::MAX {
        u128::MAX
    } else {
        n as u128
    }
}

/// Whether requests to a host in some state are rejected.
pub open spec fn rejects(state: HostState, now: u128) -> bool {
    match state.circuit_open_until {
        Some(until) => now < until || state.trial,
        None => false,
    }
}

/// The state after a failure. Failures older than twice the backoff no longer count.
pub open spec fn failed(state: HostState, threshold: u32, backoff: u128, now: u128) -> HostState {
    let kept: u32 = match state.last_failure {
        Some(last) => if now - last > 2 * backoff {
            0
        } else {
            state.failure_count
        },
        None => state.failure_count,
    };
    let count: u32 = if kept == u32::MAX {
        u32::MAX
    } else {
        (kept + 1) as u32
    };
    HostState {
        failure_count: count,
        last_failure: Some(now),
        circuit_open_until: if count >= threshold {
            Some(capped(now + backoff))
        } else {
            state.circuit_open_until
        },
        trial: false,
    }
}

/// The state of a host that has not failed.
pub open spec fn healthy() -> HostState {
    HostState { failure_count: 0, last_failure: None, circuit_open_until: None, trial: false }
}

/// The state of a host that may be unknown.
pub open spec fn state_of(hosts: Map<Seq<char>, HostState>, host: Seq<char>) -> HostState {
    if hosts.dom().contains(host) {
        hosts[host]
    } else {
        healthy()
    }
}

/// What is known of the upstreams once a request to a host has been let through: where its circuit
/// was open, this is the trial.
pub open spec fn let_through(hosts: Map<Seq<char>, HostState>, host: Seq<char>) -> Map<Seq<char>, HostState> {
    if state_of(hosts, host).circuit_open_until is Some {
        hosts.insert(host, HostState { trial: true, ..state_of(hosts, host) })
    } else {
        hosts
    }
}

impl CircuitBreaker {
    /// Each host is known once.
    #[verifier::type_invariant]
    spec fn hosts_are_distinct(&self) -> bool {
        table::distinct(keyed(self.hosts@))
    }

    /// What is known of the upstreams.
    pub closed spec fn hosts(&self) -> Map<Seq<char>, HostState> {
        table::table_of(keyed(self.hosts@))
    }

    /// How many failures open the circuit.
    pub closed spec fn threshold(&self) -> u32 {
        self.failure_threshold
    }

    /// How long the circuit stays open.
    pub closed spec fn backoff(&self) -> u128 {
        self.backoff
    }

    /// A breaker that has seen nothing yet.
    pub fn new(failure_threshold: u32, backoff: u128) -> (r: Self)
        ensures
            r.hosts() == Map::<Seq<char>, HostState>::empty(),
            r.threshold() == failure_threshold,
            r.backoff() == backoff,
    {
        let r = CircuitBreaker { hosts: Vec::new(), failure_threshold, backoff };
        assert(keyed(r.hosts@).len() == 0);
        r
    }

    fn find(&self, host: &str) -> (r: Option<usize>)
        ensures
            match r {
                Some(i) => i < self.hosts@.len() && keyed(self.hosts@)[i as int].0 == host@
                    && self.hosts().dom().contains(host@) && self.hosts()[host@] == self.hosts@[i as int].1,
                None => !self.hosts().dom().contains(host@) && forall|j: int|
                    0 <= j < self.hosts@.len() ==> (#[trigger] keyed(self.hosts@)[j]).0 != host@,
            },
    {
        proof {
            use_type_invariant(self);
        }
        let ghost all = keyed(self.hosts@);
        let mut i: usize = 0;
        while i < self.hosts.len()
            invariant
                i <= self.hosts@.len(),
                all == keyed(self.hosts@),
                table::distinct(all),
                forall|j: int| 0 <= j < i ==> (#[trigger] all[j]).0 != host@,
            decreases self.hosts.len() - i,
        {
            assert(all[i as int].0 == self.hosts@[i as int].0@);
            if text::same_text(self.hosts[i].0.as_str(), host) {
                proof {
                    table::lemma_lookup(all, host@, i as int);
                }
                return Some(i);
            }
            i = i + 1;
        }
        proof {
            table::lemma_lookup(all, host@, -1);
        }
        None
    }

    fn put(&mut self, host: &str, state: HostState)
        ensures
            final(self).hosts() == old(self).hosts().insert(host@, state),
            final(self).threshold() == old(self).threshold(),
            final(self).backoff() == old(self).backoff(),
    {
        proof {
            use_type_invariant(&*self);
        }
        let mut list: Vec<(String, HostState)> = Vec::new();
        let found = self.find(host);
        let ghost before = keyed(self.hosts@);
        assert(keyed(list@).len() == 0);
        std::mem::swap(&mut list, &mut self.hosts);
        match found {
            Some(i) => {
                proof {
                    table::lemma_update(before, i as int, state);
                }
                list.set(i, (text::copy(host), state));
                proof {
                    let after = before.update(i as int, (before[i as int].0, state));
                    assert(keyed(list@) =~= after);
                    assert forall|a: int, b: int| 0 <= a < b < after.len() implies (#[trigger] after[a]).0 != (
                    #[trigger] after[b]).0 by {
                        assert(before[a].0 != before[b].0);
                    }
                }
            },
            None => {
                list.push((text::copy(host), state));
                proof {
                    let after = before.push((host@, state));
                    assert(keyed(list@) =~= after);
                    assert(after.drop_last() =~= before);
                    assert forall|a: int, b: int| 0 <= a < b < after.len() implies (#[trigger] after[a]).0 != (
                    #[trigger] after[b]).0 by {
                        assert(before[a].0 != host@);
                        if b < before.len() {
                            assert(before[a].0 != before[b].0);
                        }
                    }
                }
            },
        }
        self.hosts = list;
    }

    /// Whether a request to `host` may proceed. A request that is let through after the backoff is
    /// the trial: no other follows until its outcome is recorded or it is given up.
    pub fn allow_request(&mut self, host: &str, now: u128) -> (r: bool)
        ensures
            r == !rejects(state_of(old(self).hosts(), host@), now),
            final(self).threshold() == old(self).threshold(),
            final(self).backoff() == old(self).backoff(),
            final(self).hosts() == (if r {
                let_through(old(self).hosts(), host@)
            } else {
                old(self).hosts()
            }),
    {
        match self.find(host) {
            Some(i) => {
                let state = self.hosts[i].1;
                match state.circuit_open_until {
                    Some(until) => {
                        if now < until || state.trial {
                            return false;
                        }
                        self.put(host, HostState { trial: true, ..state });
                        true
                    },
                    None => true,
                }
            },
            None => true,
        }
    }

    /// A request to `host` succeeded: its failures are forgotten and its circuit closes.
    pub fn record_success(&mut self, host: &str)
        ensures
            final(self).hosts() == old(self).hosts().remove(host@),
            final(self).threshold() == old(self).threshold(),
            final(self).backoff() == old(self).backoff(),
    {
        proof {
            use_type_invariant(&*self);
        }
        match self.find(host) {
            Some(i) => {
                let mut list: Vec<(String, HostState)> = Vec::new();
                let ghost before = keyed(self.hosts@);
                assert(keyed(list@).len() == 0);
                std::mem::swap(&mut list, &mut self.hosts);
                proof {
                    table::lemma_remove(before, i as int);
                }
                list.remove(i);
                assert(keyed(list@) =~= before.remove(i as int));
                self.hosts = list;
            },
            None => {
                assert(self.hosts().remove(host@) =~= self.hosts());
            },
        }
    }

    /// A request to `host` failed. At the threshold the circuit opens.
    pub fn record_failure(&mut self, host: &str, now: u128)
        ensures
            final(self).hosts() == old(self).hosts().insert(
                host@,
                failed(
                    state_of(old(self).hosts(), host@),
                    old(self).threshold(),
                    old(self).backoff(),
                    now,
                ),
            ),
            final(self).threshold() == old(self).threshold(),
            final(self).backoff() == old(self).backoff(),
    {
        let state = match self.find(host) {
            Some(i) => self.hosts[i].1,
            None => HostState { failure_count: 0, last_failure: None, circuit_open_until: None, trial: false },
        };
        let kept: u32 = match state.last_failure {
            Some(last) => if now > last && now - last > self.backoff && now - last - self.backoff > self.backoff {
                0
            } else {
                state.failure_count
            },
            None => state.failure_count,
        };
        let count: u32 = kept.saturating_add(1);
        let open_until = if count >= self.failure_threshold {
            Some(now.saturating_add(self.backoff))
        } else {
            state.circuit_open_until
        };
        self.put(
            host,
            HostState { failure_count: count, last_failure: Some(now), circuit_open_until: open_until, trial: false },
        );
    }

    /// The trial request to `host` was given up before it could succeed or fail: another may follow.
    pub fn abandon_trial(&mut self, host: &str)
        ensures
            final(self).hosts() == (if old(self).hosts().dom().contains(host@) {
                old(self).hosts().insert(host@, HostState { trial: false, ..old(self).hosts()[host@] })
            } else {
                old(self).hosts()
            }),
            final(self).threshold() == old(self).threshold(),
            final(self).backoff() == old(self).backoff(),
    {
        match self.find(host) {
            Some(i) => {
                let state = self.hosts[i].1;
                self.put(host, HostState { trial: false, ..state });
            },
            None => {},
        }
    }

    /// Whether requests to `host` are being rejected.
    pub fn is_open(&self, host: &str, now: u128) -> (r: bool)
        ensures
            r == rejects(state_of(self.hosts(), host@), now),
    {
        match self.find(host) {
            Some(i) => match self.hosts[i].1.circuit_open_until {
                Some(until) => now < until || self.hosts[i].1.trial,
                None => false,
            },
            None => false,
        }
    }
}

impl Default for CircuitBreaker {
    /// Three failures open the circuit for thirty seconds.
    fn default() -> (r: Self)
        ensures
            r.hosts() == Map::<Seq<char>, HostState>::empty(),
            r.threshold() == 3,
            r.backoff() == 30_000_000_000,
    {
        CircuitBreaker::new(3, 30_000_000_000)
    }
}

/// The state of a host after a run of failures, one at each of the given times.
pub open spec fn failed_at(state: HostState, threshold: u32, backoff: u128, times: Seq<u128>) -> HostState
    decreases times.len(),
{
    if times.len() == 0 {
        state
    } else {
        failed(failed_at(state, threshold, backoff, times.drop_last()), threshold, backoff, times.last())
    }
}

/// As many failures in a row as the threshold asks for, none longer than twice the backoff after
/// the one before, open the circuit for the backoff.
pub proof fn law_consecutive_failures_open_the_circuit(threshold: u32, backoff: u128, times: Seq<u128>, now: u128)
    requires
        times.len() == threshold,
        threshold > 0,
        forall|i: int|
            0 < i < times.len() ==> times[i - 1] <= #[trigger] times[i] && times[i] - times[i - 1] <= 2 * backoff,
        times.last() <= now,
        now < times.last() + backoff,
        now < u128::MAX,
    ensures
        rejects(failed_at(healthy(), threshold, backoff, times), now),
{
    lemma_failures_add_up(threshold, backoff, times);
}

proof fn lemma_failures_add_up(threshold: u32, backoff: u128, times: Seq<u128>)
    requires
        0 < times.len() <= threshold,
        forall|i: int|
            0 < i < times.len() ==> times[i - 1] <= #[trigger] times[i] && times[i] - times[i - 1] <= 2 * backoff,
    ensures
        failed_at(healthy(), threshold, backoff, times).failure_count == times.len(),
        failed_at(healthy(), threshold, backoff, times).last_failure == Some(times.last()),
        times.len() == threshold ==> failed_at(healthy(), threshold, backoff, times).circuit_open_until == Some(
            capped(times.last() + backoff),
        ),
    decreases times.len(),
{
    let rest = times.drop_last();
    if rest.len() > 0 {
        assert forall|i: int| 0 < i < rest.len() implies rest[i - 1] <= #[trigger] rest[i] && rest[i] - rest[i - 1] <= 2
            * backoff by {
            assert(times[i - 1] <= times[i]);
        }
        lemma_failures_add_up(threshold, backoff, rest);
        assert(times[times.len() - 2] <= times[times.len() - 1]);
        assert(rest.last() == times[times.len() - 2]);
    } else {
        assert(failed_at(healthy(), threshold, backoff, rest) == healthy());
    }
}

/// A success closes the circuit whatever came before it.
pub proof fn law_success_closes_the_circuit(hosts: Map<Seq<char>, HostState>, host: Seq<char>, now: u128)
    ensures
        !rejects(state_of(hosts.remove(host), host), now),
{
}

/// Once the backoff is over a request is let through, and no other, at whatever time, until its
/// outcome is recorded.
pub proof fn law_one_trial_after_the_backoff(
    hosts: Map<Seq<char>, HostState>,
    host: Seq<char>,
    until: u128,
    first: u128,
    second: u128,
)
    requires
        state_of(hosts, host).circuit_open_until == Some(until),
        !state_of(hosts, host).trial,
        until <= first,
    ensures
        !rejects(state_of(hosts, host), first),
        rejects(state_of(let_through(hosts, host), host), second),
{
}

/// Once the outcome of a trial is recorded, the next request after the backoff is let through.
pub proof fn law_recorded_trials_make_room(state: HostState, threshold: u32, backoff: u128, at: u128, now: u128)
    requires
        state.circuit_open_until matches Some(until) ==> until <= at,
        at + backoff <= now,
    ensures
        !rejects(failed(state, threshold, backoff, at), now),
{
}

/// What happens to one upstream leaves the others alone.
pub proof fn law_hosts_are_independent(hosts: Map<Seq<char>, HostState>, a: Seq<char>, b: Seq<char>, state: HostState)
    requires
        a != b,
    ensures
        state_of(hosts.insert(a, state), b) == state_of(hosts, b),
        state_of(hosts.remove(a), b) == state_of(hosts, b),
{
}

/// Fewer failures than the threshold do not open a circuit, and failures at the threshold do, for as
/// long as the backoff says.
pub proof fn law_the_threshold_opens_the_circuit(state: HostState, threshold: u32, backoff: u128, now: u128, later: u128)
    requires
        state.circuit_open_until is None,
        state.failure_count < u32::MAX,
        state.last_failure matches Some(last) ==> last <= now && now - last <= 2 * backoff,
        later < u128::MAX,
    ensures
        failed(state, threshold, backoff, now).failure_count == state.failure_count + 1,
        failed(state, threshold, backoff, now).last_failure == Some(now),
        state.failure_count + 1 < threshold ==> !rejects(failed(state, threshold, backoff, now), later),
        state.failure_count + 1 >= threshold ==> (rejects(failed(state, threshold, backoff, now), later) <==> later < now
            + backoff),
{
}

/// Failures that lie further back than twice the backoff are forgotten.
pub proof fn law_old_failures_are_forgotten(state: HostState, threshold: u32, backoff: u128, last: u128, now: u128)
    requires
        state.last_failure == Some(last),
        now > last,
        now - last > 2 * backoff,
    ensures
        failed(state, threshold, backoff, now).failure_count == 1,
{
}

/// A host that is not known is not held back, and letting a request to it through changes nothing.
pub proof fn law_unknown_hosts_are_let_through(hosts: Map<Seq<char>, HostState>, host: Seq<char>, now: u128)
    requires
        !hosts.dom().contains(host),
    ensures
        !rejects(state_of(hosts, host), now),
        let_through(hosts, host) == hosts,
{
}

} // verus!
