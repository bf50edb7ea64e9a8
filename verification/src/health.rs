//! Health check scheduling and evaluation.
//!
//! Separates the scheduling question ("when to probe") from the probing
//! question ("how to probe"): checks wait in a queue ordered by deadline, and
//! probe results are evaluated by pure functions.

use vstd::prelude::*;

use crate::clock::{Duration, Instant};
use crate::ordered_map::OrderedMap;
use crate::text::same_text;

verus! {

/// Identifier of one running instance of an app.
#[derive(Debug, PartialEq, Eq)]
pub struct InstanceId(pub String);

impl Clone for InstanceId {
    fn clone(&self) -> (r: Self)
        ensures
            r == *self,
    {
        InstanceId(self.0.clone())
    }
}

/// Lifecycle state of a container.
#[derive(Debug, Clone, Copy, PartialEq, Eq, Structural)]
pub enum ContainerState {
    /// Not started yet.
    Pending,
    /// Started, waiting for its first successful probes.
    HealthWait,
    /// Serving.
    Running,
    /// Failing its probes.
    Unhealthy,
    /// Being stopped.
    Stopping,
    /// No longer running.
    Stopped,
}

/// Protocol of a health probe.
#[derive(Debug, Clone, Copy, PartialEq, Eq, Structural)]
pub enum HealthProtocol {
    /// Plain HTTP.
    Http,
    /// HTTP over TLS.
    Https,
}

/// A declared health check, in which every number may be left out.
#[derive(Debug)]
pub struct HealthSpec {
    /// HTTP path to probe.
    pub path: String,
    /// Port to probe.
    pub port: Option<u16>,
    /// Protocol of the probe.
    pub protocol: HealthProtocol,
    /// Seconds between probes.
    pub interval: Option<u64>,
    /// Seconds to wait for a response.
    pub timeout: Option<u64>,
    /// Consecutive failures before marking unhealthy.
    pub threshold_unhealthy: Option<u32>,
    /// Consecutive successes before marking healthy.
    pub threshold_healthy: Option<u32>,
    /// Seconds before the first probe.
    pub initial_delay: Option<u64>,
}

/// Resolved health check configuration with defaults applied.
#[derive(Debug)]
pub struct HealthCheckConfig {
    /// HTTP path to probe.
    pub path: String,
    /// Port to probe.
    pub port: u16,
    /// Protocol (HTTP or HTTPS).
    pub protocol: HealthProtocol,
    /// Time between probes.
    pub interval: Duration,
    /// Maximum time to wait for a probe response.
    pub timeout: Duration,
    /// Consecutive failures before marking unhealthy.
    pub threshold_unhealthy: u32,
    /// Consecutive successes before marking healthy.
    pub threshold_healthy: u32,
    /// Delay before the first probe after startup.
    pub initial_delay: Duration,
}

impl Clone for HealthCheckConfig {
    fn clone(&self) -> (r: Self)
        ensures
            r == *self,
    {
        HealthCheckConfig {
            path: self.path.clone(),
            port: self.port,
            protocol: self.protocol,
            interval: self.interval,
            timeout: self.timeout,
            threshold_unhealthy: self.threshold_unhealthy,
            threshold_healthy: self.threshold_healthy,
            initial_delay: self.initial_delay,
        }
    }
}

/// An optional number, or its default.
pub open spec fn number_or(given: Option<u64>, default: int) -> int {
    match given {
        Some(n) => n as int,
        None => default,
    }
}

impl HealthCheckConfig {
    /// Resolve a declared check into a concrete one, applying defaults.
    ///
    /// `app_port` is the app's declared port, used when the check names none.
    pub fn from_spec(spec: &HealthSpec, app_port: u16) -> (r: Self)
        ensures
            r.path@ == spec.path@,
            r.port == (match spec.port {
                Some(port) => port,
                None => app_port,
            }),
            r.protocol == spec.protocol,
            r.interval.nanos == number_or(spec.interval, 10) * 1_000_000_000,
            r.timeout.nanos == number_or(spec.timeout, 5) * 1_000_000_000,
            r.threshold_unhealthy == (match spec.threshold_unhealthy {
                Some(n) => n,
                None => 3,
            }),
            r.threshold_healthy == (match spec.threshold_healthy {
                Some(n) => n,
                None => 1,
            }),
            r.initial_delay.nanos == number_or(spec.initial_delay, 0) * 1_000_000_000,
    {
        HealthCheckConfig {
            path: spec.path.clone(),
            port: spec.port.unwrap_or(app_port),
            protocol: spec.protocol,
            interval: Duration::from_secs(spec.interval.unwrap_or(10)),
            timeout: Duration::from_secs(spec.timeout.unwrap_or(5)),
            threshold_unhealthy: spec.threshold_unhealthy.unwrap_or(3),
            threshold_healthy: spec.threshold_healthy.unwrap_or(1),
            initial_delay: Duration::from_secs(spec.initial_delay.unwrap_or(0)),
        }
    }
}

/// Tracks consecutive healthy and unhealthy probe results for one instance.
#[derive(Debug, Clone, Copy, PartialEq, Eq, Structural)]
pub struct HealthCounters {
    /// Consecutive successful probes.
    pub consecutive_healthy: u32,
    /// Consecutive failed probes.
    pub consecutive_unhealthy: u32,
}

impl HealthCounters {
    /// At most one streak is running.
    pub open spec fn one_streak(self) -> bool {
        self.consecutive_healthy == 0 || self.consecutive_unhealthy == 0
    }

    /// Counters at zero.
    pub fn new() -> (r: Self)
        ensures
            r == (HealthCounters { consecutive_healthy: 0, consecutive_unhealthy: 0 }),
            r.one_streak(),
    {
        HealthCounters { consecutive_healthy: 0, consecutive_unhealthy: 0 }
    }

    /// Record a successful probe, which ends a streak of failures.
    pub fn record_healthy(&mut self)
        requires
            old(self).consecutive_healthy < u32::MAX,
        ensures
            final(self).consecutive_healthy == old(self).consecutive_healthy + 1,
            final(self).consecutive_unhealthy == 0,
            final(self).one_streak(),
    {
        self.consecutive_healthy = self.consecutive_healthy + 1;
        self.consecutive_unhealthy = 0;
    }

    /// Record a failed probe, which ends a streak of successes.
    pub fn record_unhealthy(&mut self)
        requires
            old(self).consecutive_unhealthy < u32::MAX,
        ensures
            final(self).consecutive_unhealthy == old(self).consecutive_unhealthy + 1,
            final(self).consecutive_healthy == 0,
            final(self).one_streak(),
    {
        self.consecutive_unhealthy = self.consecutive_unhealthy + 1;
        self.consecutive_healthy = 0;
    }

    /// Set both counters to zero.
    pub fn reset(&mut self)
        ensures
            *final(self) == (HealthCounters { consecutive_healthy: 0, consecutive_unhealthy: 0 }),
    {
        self.consecutive_healthy = 0;
        self.consecutive_unhealthy = 0;
    }
}

impl Default for HealthCounters {
    fn default() -> (r: Self)
        ensures
            r == (HealthCounters { consecutive_healthy: 0, consecutive_unhealthy: 0 }),
    {
        HealthCounters::new()
    }
}

/// The result of a single health probe.
#[derive(Debug, Clone, Copy, PartialEq, Eq, Structural)]
pub enum HealthStatus {
    /// The probe returned a successful HTTP status.
    Healthy,
    /// The probe returned an error HTTP status.
    Unhealthy,
    /// The probe timed out.
    Timeout,
    /// The probe could not connect.
    ConnectionRefused,
}

impl HealthStatus {
    /// Whether this result counts as a success.
    pub fn is_healthy(self) -> (r: bool)
        ensures
            r == (self == HealthStatus::Healthy),
    {
        matches!(self, HealthStatus::Healthy)
    }
}

/// The state that a probe result moves an instance to, if it moves it.
pub open spec fn probe_transition(
    healthy: bool,
    counters: HealthCounters,
    state: ContainerState,
    threshold_healthy: u32,
    threshold_unhealthy: u32,
) -> Option<ContainerState> {
    if healthy && (state == ContainerState::HealthWait || state == ContainerState::Unhealthy)
        && counters.consecutive_healthy >= threshold_healthy {
        Some(ContainerState::Running)
    } else if !healthy && state == ContainerState::Running && counters.consecutive_unhealthy
        >= threshold_unhealthy {
        Some(ContainerState::Unhealthy)
    } else {
        None
    }
}

/// Evaluate a probe result and determine whether a state transition is needed.
///
/// Takes the probe result, the counters (already updated), the instance's
/// current state and the health config. Returns the new state if a transition
/// should happen.
pub fn evaluate_result(
    status: HealthStatus,
    counters: &HealthCounters,
    current_state: ContainerState,
    config: &HealthCheckConfig,
) -> (r: Option<ContainerState>)
    ensures
        r == probe_transition(
            status == HealthStatus::Healthy,
            *counters,
            current_state,
            config.threshold_healthy,
            config.threshold_unhealthy,
        ),
{
    let healthy: bool = status.is_healthy();
    match current_state {
        ContainerState::HealthWait => {
            if healthy && counters.consecutive_healthy >= config.threshold_healthy {
                Some(ContainerState::Running)
            } else {
                None
            }
        },
        ContainerState::Running => {
            if !healthy && counters.consecutive_unhealthy >= config.threshold_unhealthy {
                Some(ContainerState::Unhealthy)
            } else {
                None
            }
        },
        ContainerState::Unhealthy => {
            if healthy && counters.consecutive_healthy >= config.threshold_healthy {
                Some(ContainerState::Running)
            } else {
                None
            }
        },
        _ => None,
    }
}

/// An entry in the health check queue.
#[derive(Debug)]
struct HealthCheckEntry {
    deadline: Instant,
    instance_id: InstanceId,
    stale: bool,
}

/// A check that waits in the queue.
pub ghost struct Check {
    /// When the check is due, in nanoseconds.
    pub deadline: int,
    /// The instance to probe.
    pub instance: Seq<char>,
    /// Whether the registration that it was scheduled for has ended.
    pub stale: bool,
}

/// The deadlines of a queue do not decrease.
pub open spec fn by_deadline(queue: Seq<Check>) -> bool {
    forall|i: int, j: int|
        0 <= i < j < queue.len() ==> (#[trigger] queue[i]).deadline <= (
        #[trigger] queue[j]).deadline
}

/// The queue with one check more, behind every check that is due no later.
pub open spec fn enqueued(queue: Seq<Check>, check: Check) -> Seq<Check>
    decreases queue.len(),
{
    if queue.len() == 0 || queue.last().deadline <= check.deadline {
        queue.push(check)
    } else {
        enqueued(queue.drop_last(), check).push(queue.last())
    }
}

/// The queue without the due checks at its head that are stale.
pub open spec fn without_stale(queue: Seq<Check>, now: int) -> Seq<Check>
    decreases queue.len(),
{
    if queue.len() > 0 && queue[0].deadline <= now && queue[0].stale {
        without_stale(queue.skip(1), now)
    } else {
        queue
    }
}

/// The queue once an instance's registration has ended: its checks still wait,
/// but all of them are stale.
pub open spec fn withdrawn(queue: Seq<Check>, instance: Seq<char>) -> Seq<Check> {
    queue.map_values(
        |c: Check|
            Check {
                deadline: c.deadline,
                instance: c.instance,
                stale: c.stale || c.instance == instance,
            },
    )
}

/// Whether every check that is not stale is of a registered instance.
pub open spec fn only_registered(queue: Seq<Check>, registered: Set<Seq<char>>) -> bool {
    forall|i: int|
        0 <= i < queue.len() && !(#[trigger] queue[i]).stale ==> registered.contains(
            queue[i].instance,
        )
}

proof fn enqueued_at(queue: Seq<Check>, check: Check, at: int)
    requires
        0 <= at <= queue.len(),
        at == 0 || queue[at - 1].deadline <= check.deadline,
        forall|i: int| at <= i < queue.len() ==> (#[trigger] queue[i]).deadline > check.deadline,
    ensures
        enqueued(queue, check) == queue.insert(at, check),
    decreases queue.len(),
{
    if at == queue.len() {
        assert(queue.insert(at, check) =~= queue.push(check));
    } else {
        enqueued_at(queue.drop_last(), check, at);
        assert(queue.insert(at, check) =~= queue.drop_last().insert(at, check).push(queue.last()));
    }
}

/// Schedules health checks by deadline.
///
/// Time is a parameter of every operation. Entries of a registration that has
/// ended are skipped by `pop_due` rather than removed at once.
pub struct HealthChecker {
    /// Entries, earliest deadline first.
    entries: Vec<HealthCheckEntry>,
    /// Config per instance: the registered instances.
    configs: OrderedMap<String, HealthCheckConfig>,
}

spec fn checks(entries: Seq<HealthCheckEntry>) -> Seq<Check> {
    entries.map_values(
        |e: HealthCheckEntry|
            Check {
                deadline: e.deadline.nanos as int,
                instance: e.instance_id.0@,
                stale: e.stale,
            },
    )
}

impl HealthChecker {
    /// The waiting checks, earliest first.
    pub closed spec fn queue(&self) -> Seq<Check> {
        checks(self.entries@)
    }

    /// The registered instances and their configs.
    pub closed spec fn registered(&self) -> Map<Seq<char>, HealthCheckConfig> {
        self.configs@
    }

    /// The queue is ordered by deadline, and what is not stale in it is of a
    /// registered instance.
    pub closed spec fn wf(&self) -> bool {
        &&& self.configs.wf()
        &&& by_deadline(checks(self.entries@))
        &&& only_registered(checks(self.entries@), self.configs@.dom())
    }

    /// What a well-formed checker's queue is known to be.
    pub proof fn queue_is_ordered(&self)
        requires
            self.wf(),
        ensures
            by_deadline(self.queue()),
            only_registered(self.queue(), self.registered().dom()),
    {
    }

    /// An empty health checker.
    pub fn new() -> (r: Self)
        ensures
            r.wf(),
            r.queue() == Seq::<Check>::empty(),
            r.registered() == Map::<Seq<char>, HealthCheckConfig>::empty(),
    {
        let r = HealthChecker { entries: Vec::new(), configs: OrderedMap::new() };
        proof {
            assert(r.queue() =~= Seq::<Check>::empty());
        }
        r
    }

    fn enqueue(&mut self, deadline: Instant, instance_id: InstanceId)
        requires
            old(self).wf(),
            old(self).registered().dom().contains(instance_id.0@),
        ensures
            final(self).wf(),
            final(self).queue() == enqueued(
                old(self).queue(),
                Check {
                    deadline: deadline.nanos as int,
                    instance: instance_id.0@,
                    stale: false,
                },
            ),
            final(self).registered() == old(self).registered(),
    {
        let ghost before = self.queue();
        let ghost e = self.entries@;
        let ghost check = Check {
            deadline: deadline.nanos as int,
            instance: instance_id.0@,
            stale: false,
        };
        let mut at: usize = self.entries.len();
        while at > 0 && self.entries[at - 1].deadline.nanos > deadline.nanos
            invariant
                at <= self.entries.len(),
                e == self.entries@,
                before == checks(e),
                check.deadline == deadline.nanos,
                forall|i: int|
                    at <= i < before.len() ==> (#[trigger] before[i]).deadline > check.deadline,
            decreases at,
        {
            at = at - 1;
        }
        self.entries.insert(at, HealthCheckEntry { deadline, instance_id, stale: false });
        proof {
            assert(checks(self.entries@) =~= before.insert(at as int, check));
            enqueued_at(before, check, at as int);
            let after = before.insert(at as int, check);
            assert forall|i: int, j: int| 0 <= i < j < after.len() implies (
            #[trigger] after[i]).deadline <= (#[trigger] after[j]).deadline by {
                let pi = if i < at { i } else { i - 1 };
                let pj = if j < at { j } else { j - 1 };
                if i != at {
                    assert(after[i] == before[pi]);
                }
                if j != at {
                    assert(after[j] == before[pj]);
                }
                if i == at {
                    assert(before[pj].deadline > check.deadline);
                } else if j == at {
                    assert(before[at - 1].deadline <= check.deadline);
                }
            }
            let registered = self.configs@.dom();
            assert forall|i: int| 0 <= i < after.len() && !(
            #[trigger] after[i]).stale implies registered.contains(after[i].instance) by {
                if i != at {
                    assert(after[i] == before[if i < at { i } else { i - 1 }]);
                }
            }
        }
    }

    /// Register an instance for health checking.
    ///
    /// The first probe is scheduled at `now + config.initial_delay`.
    pub fn register(&mut self, instance_id: InstanceId, config: HealthCheckConfig, now: Instant)
        requires
            old(self).wf(),
            now.nanos + config.initial_delay.nanos <= u128::MAX,
        ensures
            final(self).wf(),
            final(self).registered() == old(self).registered().insert(instance_id.0@, config),
            final(self).queue() == enqueued(
                old(self).queue(),
                Check {
                    deadline: now.nanos + config.initial_delay.nanos,
                    instance: instance_id.0@,
                    stale: false,
                },
            ),
    {
        let deadline = now.plus(config.initial_delay);
        self.configs.insert(instance_id.0.clone(), config);
        self.enqueue(deadline, instance_id);
    }

    /// Remove an instance from health checking.
    ///
    /// Entries that still wait in the queue become stale: `pop_due` skips them,
    /// also where the instance is registered again.
    pub fn unregister(&mut self, instance_id: &InstanceId)
        requires
            old(self).wf(),
        ensures
            final(self).wf(),
            final(self).registered() == old(self).registered().remove(instance_id.0@),
            final(self).queue() == withdrawn(old(self).queue(), instance_id.0@),
    {
        let ghost all = withdrawn(self.queue(), instance_id.0@);
        let ghost before = self.queue();
        let mut i: usize = 0;
        while i < self.entries.len()
            invariant
                i <= self.entries.len(),
                self.entries@.len() == before.len(),
                self.configs == old(self).configs,
                before == old(self).queue(),
                all == withdrawn(before, instance_id.0@),
                forall|j: int| 0 <= j < i ==> #[trigger] checks(self.entries@)[j] == all[j],
                forall|j: int|
                    i <= j < before.len() ==> #[trigger] checks(self.entries@)[j] == before[j],
            decreases self.entries.len() - i,
        {
            let ghost e = self.entries@;
            proof {
                assert(checks(e)[i as int] == before[i as int]);
            }
            if same_text(self.entries[i].instance_id.0.as_str(), instance_id.0.as_str()) {
                let mut entry = self.entries.remove(i);
                entry.stale = true;
                self.entries.insert(i, entry);
            }
            proof {
                let now = self.entries@;
                assert forall|j: int| 0 <= j < before.len() && j != i implies #[trigger] checks(
                    now,
                )[j] == checks(e)[j] by {
                    assert(now[j] == e[j]);
                }
                assert(checks(now)[i as int] == all[i as int]);
            }
            i = i + 1;
        }
        let _ = self.configs.remove(&instance_id.0);
        proof {
            assert(checks(self.entries@) =~= all);
            assert(by_deadline(all)) by {
                assert forall|i: int, j: int| 0 <= i < j < all.len() implies (
                #[trigger] all[i]).deadline <= (#[trigger] all[j]).deadline by {
                    assert(before[i].deadline <= before[j].deadline);
                }
            }
            assert(only_registered(all, self.configs@.dom())) by {
                assert forall|i: int| 0 <= i < all.len() && !(
                #[trigger] all[i]).stale implies self.configs@.dom().contains(
                    all[i].instance,
                ) by {
                    assert(!before[i].stale);
                }
            }
        }
    }

    /// The earliest deadline in the queue, or `None` if it is empty.
    pub fn next_deadline(&self) -> (r: Option<Instant>)
        requires
            self.wf(),
        ensures
            r is None <==> self.queue().len() == 0,
            r is Some ==> r->0.nanos == self.queue()[0].deadline && (forall|i: int|
                0 <= i < self.queue().len() ==> r->0.nanos <= (
                #[trigger] self.queue()[i]).deadline),
    {
        if self.entries.len() == 0 {
            None
        } else {
            let r = self.entries[0].deadline;
            proof {
                assert(self.queue()[0].deadline == r.nanos);
            }
            Some(r)
        }
    }

    /// Pop the next due check if its deadline has passed.
    ///
    /// Skips stale entries. Returns the instance and a copy of its config.
    pub fn pop_due(&mut self, now: Instant) -> (r: Option<(InstanceId, HealthCheckConfig)>)
        requires
            old(self).wf(),
        ensures
            final(self).wf(),
            final(self).registered() == old(self).registered(),
            ({
                let rest = without_stale(old(self).queue(), now.nanos as int);
                if rest.len() > 0 && rest[0].deadline <= now.nanos {
                    &&& r matches Some((id, config)) && id.0@ == rest[0].instance && config
                        == old(self).registered()[rest[0].instance]
                    &&& final(self).queue() == rest.skip(1)
                } else {
                    r is None && final(self).queue() == rest
                }
            }),
    {
        let ghost rest = without_stale(self.queue(), now.nanos as int);
        while self.entries.len() > 0
            invariant
                self.wf(),
                self.configs@ == old(self).configs@,
                rest == without_stale(checks(self.entries@), now.nanos as int),
                rest == without_stale(old(self).queue(), now.nanos as int),
            decreases self.entries.len(),
        {
            let ghost q = checks(self.entries@);
            let ghost e = self.entries@;
            proof {
                assert(q[0].deadline == e[0].deadline.nanos);
                assert(q[0].instance == e[0].instance_id.0@);
                assert(q[0].stale == e[0].stale);
            }
            if self.entries[0].deadline.nanos > now.nanos {
                return None;
            }
            let entry = self.entries.remove(0);
            proof {
                assert(checks(self.entries@) =~= q.skip(1));
            }
            if !entry.stale {
                match self.configs.get(&entry.instance_id.0) {
                    Some(config) => {
                        return Some((entry.instance_id, config.clone()));
                    },
                    None => {
                        proof {
                            assert(self.configs@.dom().contains(q[0].instance));
                        }
                    },
                }
            }
        }
        None
    }

    /// Schedule the next check of an instance at `now + interval`.
    ///
    /// Call this after processing a health check result. An unregistered
    /// instance is left alone.
    pub fn schedule_next(&mut self, instance_id: InstanceId, now: Instant)
        requires
            old(self).wf(),
            old(self).registered().dom().contains(instance_id.0@) ==> now.nanos
                + old(self).registered()[instance_id.0@].interval.nanos <= u128::MAX,
        ensures
            final(self).wf(),
            final(self).registered() == old(self).registered(),
            final(self).queue() == if old(self).registered().dom().contains(instance_id.0@) {
                enqueued(
                    old(self).queue(),
                    Check {
                        deadline: now.nanos
                            + old(self).registered()[instance_id.0@].interval.nanos,
                        instance: instance_id.0@,
                        stale: false,
                    },
                )
            } else {
                old(self).queue()
            },
    {
        let interval = match self.configs.get(&instance_id.0) {
            Some(config) => config.interval,
            None => {
                return ;
            },
        };
        let deadline = now.plus(interval);
        self.enqueue(deadline, instance_id);
    }

    /// The config of a registered instance.
    pub fn config(&self, instance_id: &InstanceId) -> (r: Option<&HealthCheckConfig>)
        requires
            self.wf(),
        ensures
            r is Some <==> self.registered().dom().contains(instance_id.0@),
            r is Some ==> *r->0 == self.registered()[instance_id.0@],
    {
        self.configs.get(&instance_id.0)
    }

    /// Number of currently registered instances.
    pub fn registered_count(&self) -> (r: usize)
        requires
            self.wf(),
        ensures
            self.registered().dom().finite(),
            r == self.registered().dom().len(),
    {
        proof {
            self.configs.counts_keys();
        }
        self.configs.len()
    }
}

impl Default for HealthChecker {
    fn default() -> (r: Self)
        ensures
            r.wf(),
            r.queue() == Seq::<Check>::empty(),
            r.registered() == Map::<Seq<char>, HealthCheckConfig>::empty(),
    {
        HealthChecker::new()
    }
}

/// What remains after the stale checks is a tail of the queue, and everything
/// before it was due and stale.
proof fn without_stale_is_tail(queue: Seq<Check>, now: int) -> (k: int)
    ensures
        0 <= k <= queue.len(),
        without_stale(queue, now) == queue.skip(k),
        forall|i: int| 0 <= i < k ==> (#[trigger] queue[i]).deadline <= now && queue[i].stale,
        k < queue.len() && queue[k].deadline <= now ==> !queue[k].stale,
    decreases queue.len(),
{
    if queue.len() > 0 && queue[0].deadline <= now && queue[0].stale {
        let k = without_stale_is_tail(queue.skip(1), now);
        assert(queue.skip(1).skip(k) =~= queue.skip(k + 1));
        assert forall|i: int| 0 <= i < k + 1 implies (#[trigger] queue[i]).deadline <= now
            && queue[i].stale by {
            if i > 0 {
                assert(queue.skip(1)[i - 1] == queue[i]);
            }
        }
        k + 1
    } else {
        assert(queue.skip(0) =~= queue);
        0
    }
}

/// Whether a pop of a queue returns a check.
pub open spec fn pops(queue: Seq<Check>, now: int) -> bool {
    without_stale(queue, now).len() > 0 && without_stale(queue, now)[0].deadline <= now
}

/// The check that a pop of a queue returns.
pub open spec fn popped(queue: Seq<Check>, now: int) -> Check {
    without_stale(queue, now)[0]
}

/// A check is popped exactly when one is due that is not stale, and the popped
/// one is due no later than any other check that is not stale.
pub proof fn pop_finds_the_earliest_due_check(queue: Seq<Check>, now: int)
    requires
        by_deadline(queue),
    ensures
        pops(queue, now) <==> exists|i: int|
            0 <= i < queue.len() && (#[trigger] queue[i]).deadline <= now && !queue[i].stale,
        pops(queue, now) ==> !popped(queue, now).stale && queue.contains(popped(queue, now)),
        pops(queue, now) ==> forall|i: int|
            0 <= i < queue.len() && !(#[trigger] queue[i]).stale ==> popped(queue, now).deadline
                <= queue[i].deadline,
{
    let rest = without_stale(queue, now);
    let k = without_stale_is_tail(queue, now);
    if pops(queue, now) {
        assert(rest[0] == queue[k]);
        assert forall|i: int| 0 <= i < queue.len() && !(
        #[trigger] queue[i]).stale implies rest[0].deadline <= queue[i].deadline by {
            if i > k {
                assert(queue[k].deadline <= queue[i].deadline);
            }
        }
    } else {
        assert forall|i: int| 0 <= i < queue.len() && (#[trigger] queue[i]).deadline
            <= now implies queue[i].stale by {
            if i >= k {
                assert(rest[0] == queue[k]);
                if i > k {
                    assert(queue[k].deadline <= queue[i].deadline);
                }
            }
        }
    }
}

/// Scheduling a check adds it and keeps every check that waits.
pub proof fn enqueue_keeps_every_check(queue: Seq<Check>, check: Check)
    ensures
        enqueued(queue, check).to_multiset() == queue.to_multiset().insert(check),
    decreases queue.len(),
{
    broadcast use vstd::seq_lib::group_to_multiset_ensures;

    if queue.len() > 0 && queue.last().deadline > check.deadline {
        enqueue_keeps_every_check(queue.drop_last(), check);
        assert(queue =~= queue.drop_last().push(queue.last()));
        assert(enqueued(queue, check).to_multiset() =~= queue.to_multiset().insert(check));
    }
}

/// Whether no check of an instance comes before an instant, but for stale
/// ones.
pub open spec fn waits_until(queue: Seq<Check>, instance: Seq<char>, instant: int) -> bool {
    forall|i: int|
        0 <= i < queue.len() && !(#[trigger] queue[i]).stale && queue[i].instance == instance
            ==> queue[i].deadline >= instant
}

/// An instance that was unregistered is never returned by a pop, whatever
/// still waits for it in the queue.
pub proof fn unregistered_is_never_popped(queue: Seq<Check>, now: int, instance: Seq<char>)
    ensures
        pops(withdrawn(queue, instance), now) ==> popped(withdrawn(queue, instance), now).instance
            != instance,
{
    let all = withdrawn(queue, instance);
    let k = without_stale_is_tail(all, now);
    if pops(all, now) {
        assert(popped(all, now) == all[k]);
    }
}

/// An instance that is unregistered and then registered again, with a check
/// that is due at some instant, is not popped before that instant, whatever
/// was scheduled for it before.
pub proof fn a_new_registration_waits_its_delay(
    queue: Seq<Check>,
    instance: Seq<char>,
    due: int,
    now: int,
)
    requires
        now < due,
    ensures
        ({
            let check = Check { deadline: due, instance, stale: false };
            let after = enqueued(withdrawn(queue, instance), check);
            &&& waits_until(after, instance, due)
            &&& pops(after, now) ==> popped(after, now).instance != instance
        }),
{
    let check = Check { deadline: due, instance, stale: false };
    let before = withdrawn(queue, instance);
    scheduling_keeps_the_wait(before, check, instance, due);
    waiting_is_not_popped(enqueued(before, check), instance, due, now);
}

/// While an instance waits until an instant it is not popped before, and a pop
/// leaves it waiting.
pub proof fn waiting_is_not_popped(queue: Seq<Check>, instance: Seq<char>, instant: int, now: int)
    requires
        waits_until(queue, instance, instant),
    ensures
        now < instant && pops(queue, now) ==> popped(queue, now).instance != instance,
        waits_until(without_stale(queue, now), instance, instant),
        pops(queue, now) ==> waits_until(without_stale(queue, now).skip(1), instance, instant),
{
    let rest = without_stale(queue, now);
    let k = without_stale_is_tail(queue, now);
    assert forall|i: int| 0 <= i < rest.len() && !(#[trigger] rest[i]).stale && rest[i].instance
        == instance implies rest[i].deadline >= instant by {
        assert(rest[i] == queue[i + k]);
    }
    if pops(queue, now) {
        assert(popped(queue, now) == queue[k]);
        let later = rest.skip(1);
        assert forall|i: int| 0 <= i < later.len() && !(#[trigger] later[i]).stale
            && later[i].instance == instance implies later[i].deadline >= instant by {
            assert(later[i] == rest[i + 1]);
        }
    }
}

/// An instance goes on waiting when a check is scheduled that is of another
/// instance or no earlier.
pub proof fn scheduling_keeps_the_wait(
    queue: Seq<Check>,
    check: Check,
    instance: Seq<char>,
    instant: int,
)
    requires
        waits_until(queue, instance, instant),
        check.instance != instance || check.deadline >= instant,
    ensures
        waits_until(enqueued(queue, check), instance, instant),
    decreases queue.len(),
{
    let after = enqueued(queue, check);
    if queue.len() == 0 || queue.last().deadline <= check.deadline {
        assert forall|i: int| 0 <= i < after.len() && !(#[trigger] after[i]).stale
            && after[i].instance == instance implies after[i].deadline >= instant by {
            if i < queue.len() {
                assert(after[i] == queue[i]);
            }
        }
    } else {
        let shorter = queue.drop_last();
        scheduling_keeps_the_wait(shorter, check, instance, instant);
        let inner = enqueued(shorter, check);
        assert forall|i: int| 0 <= i < after.len() && !(#[trigger] after[i]).stale
            && after[i].instance == instance implies after[i].deadline >= instant by {
            if i < inner.len() {
                assert(after[i] == inner[i]);
            } else {
                assert(after[i] == queue[queue.len() - 1]);
            }
        }
    }
}

/// A probe result never changes an instance that is neither waiting for
/// health, running nor unhealthy, and it moves an instance only between
/// running and unhealthy or out of the wait.
pub proof fn only_probed_states_move(
    healthy: bool,
    counters: HealthCounters,
    state: ContainerState,
    threshold_healthy: u32,
    threshold_unhealthy: u32,
)
    ensures
        ({
            let next = probe_transition(
                healthy,
                counters,
                state,
                threshold_healthy,
                threshold_unhealthy,
            );
            &&& next is Some ==> (next->0 == ContainerState::Running) == healthy
            &&& next is Some ==> next->0 != state
            &&& next is Some ==> state == ContainerState::HealthWait || state
                == ContainerState::Running || state == ContainerState::Unhealthy
        }),
{
}

} // verus!
