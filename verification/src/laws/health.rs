//! When instances are probed, and what becomes of them.

use vstd::prelude::*;

use crate::clock::Instant;
use crate::health::{
    by_deadline, enqueued, evaluate_result, without_stale, Check, ContainerState, HealthCheckConfig,
    HealthChecker, HealthCounters, HealthSpec, HealthStatus, InstanceId,
};

verus! {

/// A check is what was asked for; where nothing was, it is at the application's
/// port every ten seconds, waits five for an answer and not at all before the
/// first, and takes three failures or one success.
pub proof fn checks_default_to_ten_seconds(
    spec: &HealthSpec,
    app_port: u16,
    r: HealthCheckConfig,
)
    requires
        call_ensures(HealthCheckConfig::from_spec, (spec, app_port), r),
    ensures
        r.path@ == spec.path@ && r.protocol == spec.protocol,
        spec.port is None ==> r.port == app_port,
        spec.port matches Some(port) ==> r.port == port,
        spec.interval is None ==> r.interval.nanos == 10_000_000_000,
        spec.interval matches Some(n) ==> r.interval.nanos == n * 1_000_000_000,
        spec.timeout is None ==> r.timeout.nanos == 5_000_000_000,
        spec.timeout matches Some(n) ==> r.timeout.nanos == n * 1_000_000_000,
        spec.initial_delay is None ==> r.initial_delay.nanos == 0,
        spec.initial_delay matches Some(n) ==> r.initial_delay.nanos == n * 1_000_000_000,
        spec.threshold_unhealthy is None ==> r.threshold_unhealthy == 3,
        spec.threshold_unhealthy matches Some(n) ==> r.threshold_unhealthy == n,
        spec.threshold_healthy is None ==> r.threshold_healthy == 1,
        spec.threshold_healthy matches Some(n) ==> r.threshold_healthy == n,
{
}

/// A success lengthens its streak by one and ends that of failures.
pub proof fn successes_end_failures(counters: &mut HealthCounters)
    requires
        call_ensures(HealthCounters::record_healthy, (counters,), ()),
    ensures
        final(counters).consecutive_healthy == old(counters).consecutive_healthy + 1,
        final(counters).consecutive_unhealthy == 0,
{
}

/// A failure lengthens its streak by one and ends that of successes.
pub proof fn failures_end_successes(counters: &mut HealthCounters)
    requires
        call_ensures(HealthCounters::record_unhealthy, (counters,), ()),
    ensures
        final(counters).consecutive_unhealthy == old(counters).consecutive_unhealthy + 1,
        final(counters).consecutive_healthy == 0,
{
}

/// Only an answer that is healthy counts as one.
pub proof fn only_a_healthy_answer_is_healthy(status: HealthStatus, r: bool)
    requires
        call_ensures(HealthStatus::is_healthy, (status,), r),
    ensures
        r <==> !(status is Unhealthy) && !(status is Timeout) && !(status is ConnectionRefused),
{
}

/// An instance that waits or is unhealthy runs once enough probes in a row have
/// succeeded; one that runs is unhealthy once enough have failed, for whatever
/// reason; and nothing else moves.
pub proof fn probes_move_instances_by_their_streaks(
    status: HealthStatus,
    counters: &HealthCounters,
    state: ContainerState,
    config: &HealthCheckConfig,
    r: Option<ContainerState>,
)
    requires
        call_ensures(evaluate_result, (status, counters, state, config), r),
    ensures
        r == Some(ContainerState::Running) <==> status is Healthy && (state is HealthWait
            || state is Unhealthy) && config.threshold_healthy <= counters.consecutive_healthy,
        r == Some(ContainerState::Unhealthy) <==> (status is Unhealthy || status is Timeout
            || status is ConnectionRefused) && state is Running && config.threshold_unhealthy
            <= counters.consecutive_unhealthy,
        r is None || r == Some(ContainerState::Running) || r == Some(ContainerState::Unhealthy),
{
}

/// Whether a queue is another with one check put in, behind all that are due no
/// later and before all that are.
pub open spec fn is_put_in(after: Seq<Check>, before: Seq<Check>, check: Check) -> bool {
    exists|at: int|
        0 <= at <= before.len() && after == #[trigger] before.insert(at, check) && (forall|i: int|
            0 <= i < at ==> (#[trigger] before[i]).deadline <= check.deadline) && forall|i: int|
            at <= i < before.len() ==> check.deadline < (#[trigger] before[i]).deadline
}

proof fn enqueueing_puts_in(queue: Seq<Check>, check: Check)
    requires
        by_deadline(queue),
    ensures
        is_put_in(enqueued(queue, check), queue, check),
    decreases queue.len(),
{
    let end = queue.len() as int;
    if queue.len() == 0 || queue.last().deadline <= check.deadline {
        assert(queue.insert(end, check) =~= queue.push(check));
        assert forall|i: int| 0 <= i < end implies (#[trigger] queue[i]).deadline
            <= check.deadline by {
            if i < end - 1 {
                assert(queue[i].deadline <= queue[end - 1].deadline);
            }
        }
    } else {
        let rest = queue.drop_last();
        enqueueing_puts_in(rest, check);
        let at = choose|at: int|
            0 <= at <= rest.len() && enqueued(rest, check) == #[trigger] rest.insert(at, check) && (
            forall|i: int| 0 <= i < at ==> (#[trigger] rest[i]).deadline <= check.deadline)
                && forall|i: int|
                at <= i < rest.len() ==> check.deadline < (#[trigger] rest[i]).deadline;
        assert(queue.insert(at, check) =~= rest.insert(at, check).push(queue.last()));
        assert forall|i: int| 0 <= i < at implies (#[trigger] queue[i]).deadline
            <= check.deadline by {
            assert(queue[i] == rest[i]);
        }
        assert forall|i: int| at <= i < queue.len() implies check.deadline < (
        #[trigger] queue[i]).deadline by {
            if i < rest.len() {
                assert(queue[i] == rest[i]);
            }
        }
    }
}

/// A registered instance has its configuration and one more check, due after its
/// initial delay.
pub proof fn registered_instances_are_due_after_their_delay(
    checker: &mut HealthChecker,
    instance: InstanceId,
    config: HealthCheckConfig,
    now: Instant,
)
    requires
        old(checker).wf(),
        call_ensures(HealthChecker::register, (checker, instance, config, now), ()),
    ensures
        final(checker).registered() == old(checker).registered().insert(instance.0@, config),
        is_put_in(
            final(checker).queue(),
            old(checker).queue(),
            Check {
                deadline: now.nanos + config.initial_delay.nanos,
                instance: instance.0@,
                stale: false,
            },
        ),
{
    checker.queue_is_ordered();
    enqueueing_puts_in(
        checker.queue(),
        Check {
            deadline: now.nanos + config.initial_delay.nanos,
            instance: instance.0@,
            stale: false,
        },
    );
}

/// The next check of an instance is due after its interval, and there is none for
/// one that is not registered.
pub proof fn checks_recur_by_their_interval(
    checker: &mut HealthChecker,
    instance: InstanceId,
    now: Instant,
)
    requires
        old(checker).wf(),
        call_ensures(HealthChecker::schedule_next, (checker, instance, now), ()),
    ensures
        final(checker).registered() == old(checker).registered(),
        !old(checker).registered().dom().contains(instance.0@) ==> final(checker).queue() == old(checker).queue(),
        old(checker).registered().dom().contains(instance.0@) ==> is_put_in(
            final(checker).queue(),
            old(checker).queue(),
            Check {
                deadline: now.nanos + old(checker).registered()[instance.0@].interval.nanos,
                instance: instance.0@,
                stale: false,
            },
        ),
{
    checker.queue_is_ordered();
    enqueueing_puts_in(
        checker.queue(),
        Check {
            deadline: now.nanos + checker.registered()[instance.0@].interval.nanos,
            instance: instance.0@,
            stale: false,
        },
    );
}

/// The checks of an instance that is no longer registered are stale, all others
/// are as they were, and none changes its place.
pub proof fn unregistered_instances_have_stale_checks(
    checker: &mut HealthChecker,
    instance: &InstanceId,
)
    requires
        call_ensures(HealthChecker::unregister, (checker, instance), ()),
    ensures
        final(checker).registered() == old(checker).registered().remove(instance.0@),
        final(checker).queue().len() == old(checker).queue().len(),
        forall|i: int|
            0 <= i < old(checker).queue().len() ==> {
                let before = old(checker).queue()[i];
                let after = #[trigger] final(checker).queue()[i];
                after.instance == before.instance && after.deadline == before.deadline && (
                after.stale <==> before.stale || before.instance == instance.0@)
            },
{
}

/// What is due is the first check by deadline that is not stale, with the
/// configuration of its instance; it and the stale ones before it leave the
/// queue. Where there is none, only stale checks that were due leave.
pub proof fn the_earliest_due_check_is_popped(
    checker: &mut HealthChecker,
    now: Instant,
    r: Option<(InstanceId, HealthCheckConfig)>,
)
    requires
        old(checker).wf(),
        call_ensures(HealthChecker::pop_due, (checker, now), r),
    ensures
        final(checker).registered() == old(checker).registered(),
        r is Some <==> exists|i: int|
            0 <= i < old(checker).queue().len() && (#[trigger] old(checker).queue()[i]).deadline
                <= now.nanos && !old(checker).queue()[i].stale,
        r matches Some((id, config)) ==> exists|i: int|
            0 <= i < old(checker).queue().len() && (#[trigger] old(checker).queue()[i]).instance
                == id.0@ && !old(checker).queue()[i].stale && old(checker).queue()[i].deadline
                <= now.nanos && config == old(checker).registered()[id.0@] && final(checker).queue() == old(checker).queue().skip(i + 1) && forall|j: int|
                0 <= j < i ==> (#[trigger] old(checker).queue()[j]).stale,
        r is None ==> exists|k: int|
            0 <= k <= old(checker).queue().len() && final(checker).queue() == #[trigger] old(checker).queue().skip(k) && (forall|j: int|
                0 <= j < k ==> (#[trigger] old(checker).queue()[j]).stale) && (k < old(checker).queue().len() ==> old(checker).queue()[k].deadline > now.nanos),
{
    let queue = checker.queue();
    checker.queue_is_ordered();
    crate::health::pop_finds_the_earliest_due_check(queue, now.nanos as int);
    let k = stale_ones_leave(queue, now.nanos as int);
    if r is Some {
        assert(queue[k] == queue.skip(k)[0]);
        assert(queue.skip(k).skip(1) =~= queue.skip(k + 1));
    } else if k < queue.len() {
        assert(queue[k] == queue.skip(k)[0]);
    }
}

proof fn stale_ones_leave(queue: Seq<Check>, now: int) -> (k: int)
    ensures
        0 <= k <= queue.len(),
        without_stale(queue, now) == queue.skip(k),
        forall|i: int| 0 <= i < k ==> (#[trigger] queue[i]).stale,
        k < queue.len() && queue[k].deadline <= now ==> !queue[k].stale,
    decreases queue.len(),
{
    if queue.len() > 0 && queue[0].deadline <= now && queue[0].stale {
        let rest = queue.skip(1);
        let k = stale_ones_leave(rest, now);
        assert(rest.skip(k) =~= queue.skip(k + 1));
        assert forall|i: int| 0 <= i < k + 1 implies (#[trigger] queue[i]).stale by {
            if i > 0 {
                assert(rest[i - 1] == queue[i]);
            }
        }
        if k + 1 < queue.len() {
            assert(rest[k] == queue[k + 1]);
        }
        k + 1
    } else {
        assert(queue.skip(0) =~= queue);
        0
    }
}

/// The next deadline is the earliest of all, and there is one unless the queue is
/// empty; a configuration is what was registered.
pub proof fn the_next_deadline_is_the_earliest(
    checker: &HealthChecker,
    next: Option<Instant>,
    instance: &InstanceId,
    config: Option<&HealthCheckConfig>,
    count: usize,
)
    requires
        checker.wf(),
        call_ensures(HealthChecker::next_deadline, (checker,), next),
        call_ensures(HealthChecker::config, (checker, instance), config),
        call_ensures(HealthChecker::registered_count, (checker,), count),
    ensures
        next is None <==> checker.queue().len() == 0,
        next matches Some(at) ==> checker.queue()[0].deadline == at.nanos && forall|i: int|
            0 <= i < checker.queue().len() ==> at.nanos <= (#[trigger] checker.queue()[i]).deadline,
        config is Some <==> checker.registered().dom().contains(instance.0@),
        config matches Some(c) ==> *c == checker.registered()[instance.0@],
        count == checker.registered().dom().len(),
{
}

} // verus!
