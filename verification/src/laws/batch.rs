//! Jobs of a batch, from their submission to their outcome.

use vstd::prelude::*;

use crate::batch::{
    batch_capacities, batch_jobs, batch_submit_route, capacities, capacities_from_reports,
    completion_report, decided, dispatch_target, find_job_outcome, first_named, forward_to_leader,
    group_by_node, job_outcome, node_api_url, reporter_for, reports_completion, run_jobs_and_watch,
    share_of, undecided, Assignment, BatchJob, BatchJobSubmission, BatchReportRequest, BatchRoute,
    BatchSubmitRequest, DispatchTarget, JobReport, JobWatch, NodeCapacity, Reporter,
    ShareDeployment,
};
use crate::build_runner::StateReport;
use crate::instances::InstanceStatus;
use crate::membership::{member_position, NodeMembershipInfo};
use crate::ordered_map::OrderedMap;
use crate::reply::{Refusal, Status};
use crate::text::decimal_text;

verus! {

/// Whether a status ends a job in success or in failure: a stopped instance has
/// succeeded unless its exit code says otherwise, and one that the agent gave up
/// has failed. Anything else is no end.
pub open spec fn ends(status: InstanceStatus, completed: bool) -> bool {
    if completed {
        status.state@ == seq!['s', 't', 'o', 'p', 'p', 'e', 'd'] && (status.exit_code is Some
            ==> status.exit_code->0 == 0)
    } else {
        status.state@ == seq!['f', 'a', 'i', 'l', 'e', 'd']
    }
}

/// Whether a status is one of a job.
pub open spec fn concerns(status: InstanceStatus, name: Seq<char>, namespace: Seq<char>) -> bool {
    status.app_name@ == name && status.namespace@ == namespace
}

/// Whether the statuses end a job, by the first of them that ends it.
pub open spec fn first_end(
    statuses: Seq<InstanceStatus>,
    name: Seq<char>,
    namespace: Seq<char>,
    completed: bool,
) -> bool {
    exists|i: int|
        0 <= i < statuses.len() && concerns(#[trigger] statuses[i], name, namespace) && ends(
            statuses[i],
            completed,
        ) && forall|j: int|
            0 <= j < i && concerns(#[trigger] statuses[j], name, namespace) ==> !ends(
                statuses[j],
                true,
            ) && !ends(statuses[j], false)
}

/// Whether no status ends a job.
pub open spec fn no_end(
    statuses: Seq<InstanceStatus>,
    name: Seq<char>,
    namespace: Seq<char>,
) -> bool {
    forall|j: int|
        0 <= j < statuses.len() && concerns(#[trigger] statuses[j], name, namespace) ==> !ends(
            statuses[j],
            true,
        ) && !ends(statuses[j], false)
}

proof fn state_names()
    ensures
        "failed"@ == seq!['f', 'a', 'i', 'l', 'e', 'd'],
        "stopped"@ == seq!['s', 't', 'o', 'p', 'p', 'e', 'd'],
        "failed"@ != "stopped"@,
{
    reveal_strlit("failed");
    reveal_strlit("stopped");
    assert("failed"@ =~= seq!['f', 'a', 'i', 'l', 'e', 'd']);
    assert("stopped"@ =~= seq!['s', 't', 'o', 'p', 'p', 'e', 'd']);
    assert("failed"@.len() != "stopped"@.len());
}

proof fn outcome_is_first_end(
    statuses: Seq<InstanceStatus>,
    name: Seq<char>,
    namespace: Seq<char>,
)
    ensures
        forall|completed: bool|
            job_outcome(statuses, name, namespace) == Some(completed) <==> first_end(
                statuses,
                name,
                namespace,
                completed,
            ),
        job_outcome(statuses, name, namespace) is None <==> no_end(statuses, name, namespace),
    decreases statuses.len(),
{
    state_names();
    if statuses.len() > 0 {
        let rest = statuses.skip(1);
        outcome_is_first_end(rest, name, namespace);
        let head = statuses[0];
        let decisive = concerns(head, name, namespace) && (ends(head, true) || ends(head, false));
        assert(forall|i: int| 0 <= i < rest.len() ==> rest[i] == #[trigger] statuses[i + 1]);
        if decisive {
            let how = ends(head, true);
            assert(job_outcome(statuses, name, namespace) == Some(how));
            assert(first_end(statuses, name, namespace, how)) by {
                assert(concerns(statuses[0], name, namespace) && ends(statuses[0], how));
            }
            assert(!first_end(statuses, name, namespace, !how)) by {
                if first_end(statuses, name, namespace, !how) {
                    let i = choose|i: int|
                        0 <= i < statuses.len() && concerns(
                            #[trigger] statuses[i],
                            name,
                            namespace,
                        ) && ends(statuses[i], !how) && forall|j: int|
                            0 <= j < i && concerns(#[trigger] statuses[j], name, namespace)
                                ==> !ends(statuses[j], true) && !ends(statuses[j], false);
                    assert(i == 0);
                }
            }
        } else {
            assert(job_outcome(statuses, name, namespace) == job_outcome(rest, name, namespace));
            assert forall|completed: bool|
                first_end(rest, name, namespace, completed) == first_end(
                    statuses,
                    name,
                    namespace,
                    completed,
                ) by {
                if first_end(rest, name, namespace, completed) {
                    let i = choose|i: int|
                        0 <= i < rest.len() && concerns(#[trigger] rest[i], name, namespace)
                            && ends(rest[i], completed) && forall|j: int|
                            0 <= j < i && concerns(#[trigger] rest[j], name, namespace) ==> !ends(
                                rest[j],
                                true,
                            ) && !ends(rest[j], false);
                    assert(statuses[i + 1] == rest[i]);
                    assert forall|j: int|
                        0 <= j < i + 1 && concerns(#[trigger] statuses[j], name, namespace)
                            implies !ends(statuses[j], true) && !ends(statuses[j], false) by {
                        if j > 0 {
                            assert(rest[j - 1] == statuses[j]);
                        }
                    }
                }
                if first_end(statuses, name, namespace, completed) {
                    let i = choose|i: int|
                        0 <= i < statuses.len() && concerns(
                            #[trigger] statuses[i],
                            name,
                            namespace,
                        ) && ends(statuses[i], completed) && forall|j: int|
                            0 <= j < i && concerns(#[trigger] statuses[j], name, namespace)
                                ==> !ends(statuses[j], true) && !ends(statuses[j], false);
                    assert(i > 0);
                    assert(rest[i - 1] == statuses[i]);
                    assert forall|j: int|
                        0 <= j < i - 1 && concerns(#[trigger] rest[j], name, namespace)
                            implies !ends(rest[j], true) && !ends(rest[j], false) by {
                        assert(statuses[j + 1] == rest[j]);
                    }
                }
            }
            assert(no_end(rest, name, namespace) == no_end(statuses, name, namespace)) by {
                if no_end(rest, name, namespace) {
                    assert forall|j: int|
                        0 <= j < statuses.len() && concerns(#[trigger] statuses[j], name, namespace)
                            implies !ends(statuses[j], true) && !ends(statuses[j], false) by {
                        if j > 0 {
                            assert(rest[j - 1] == statuses[j]);
                        }
                    }
                }
                if no_end(statuses, name, namespace) {
                    assert forall|j: int|
                        0 <= j < rest.len() && concerns(#[trigger] rest[j], name, namespace)
                            implies !ends(rest[j], true) && !ends(rest[j], false) by {
                        assert(statuses[j + 1] == rest[j]);
                    }
                }
            }
        }
    }
}

/// A job's outcome is told by the first instance of its name and namespace that
/// has come to an end, and there is none while none has.
pub proof fn outcomes_come_from_the_first_ended_instance(
    statuses: &Vec<InstanceStatus>,
    name: &str,
    namespace: &str,
    r: Option<bool>,
)
    requires
        call_ensures(find_job_outcome, (statuses, name, namespace), r),
    ensures
        r == Some(true) <==> first_end(statuses@, name@, namespace@, true),
        r == Some(false) <==> first_end(statuses@, name@, namespace@, false),
        r is None <==> no_end(statuses@, name@, namespace@),
{
    outcome_is_first_end(statuses@, name@, namespace@);
}

/// A job with a single instance succeeds when that has stopped with a zero or
/// an unknown exit code, fails when it has failed, and is undecided else.
pub proof fn a_single_instance_decides_its_job(
    statuses: &Vec<InstanceStatus>,
    name: &str,
    namespace: &str,
    r: Option<bool>,
)
    requires
        call_ensures(find_job_outcome, (statuses, name, namespace), r),
        statuses@.len() == 1,
        statuses@[0].app_name@ == name@,
        statuses@[0].namespace@ == namespace@,
    ensures
        ({
            let status = statuses@[0];
            if status.state@ == "stopped"@ {
                match status.exit_code {
                    None => r == Some(true),
                    Some(code) => r == if code == 0 {
                        Some(true)
                    } else {
                        None
                    },
                }
            } else if status.state@ == "failed"@ {
                r == Some(false)
            } else {
                r is None
            }
        }),
{
    state_names();
    reveal_with_fuel(job_outcome, 2);
}

proof fn decided_jobs_have_ended(
    pending: Seq<BatchJobSubmission>,
    statuses: Seq<InstanceStatus>,
)
    ensures
        forall|k: int|
            0 <= k < decided(pending, statuses).len() ==> exists|i: int|
                0 <= i < pending.len() && (#[trigger] pending[i]).name == (#[trigger] decided(
                    pending,
                    statuses,
                )[k]).job_name && first_end(
                    statuses,
                    pending[i].name@,
                    pending[i].namespace@,
                    decided(pending, statuses)[k].completed,
                ),
        forall|i: int, completed: bool|
            0 <= i < pending.len() && #[trigger] first_end(
                statuses,
                (#[trigger] pending[i]).name@,
                pending[i].namespace@,
                completed,
            ) ==> decided(pending, statuses).contains(
                JobReport { job_name: pending[i].name, completed },
            ),
        forall|i: int|
            0 <= i < pending.len() && no_end(
                statuses,
                (#[trigger] pending[i]).name@,
                pending[i].namespace@,
            ) ==> undecided(pending, statuses).contains(pending[i]),
        forall|k: int|
            0 <= k < undecided(pending, statuses).len() ==> pending.contains(
                #[trigger] undecided(pending, statuses)[k],
            ) && no_end(
                statuses,
                undecided(pending, statuses)[k].name@,
                undecided(pending, statuses)[k].namespace@,
            ),
        decided(pending, statuses).len() + undecided(pending, statuses).len() == pending.len(),
    decreases pending.len(),
{
    if pending.len() > 0 {
        let rest = pending.drop_last();
        let job = pending.last();
        decided_jobs_have_ended(rest, statuses);
        outcome_is_first_end(statuses, job.name@, job.namespace@);
        let d0 = decided(rest, statuses);
        let d = decided(pending, statuses);
        let u0 = undecided(rest, statuses);
        let u = undecided(pending, statuses);
        assert(pending[pending.len() - 1] == job);
        assert(forall|i: int| 0 <= i < rest.len() ==> #[trigger] pending[i] == rest[i]);
        assert forall|k: int| 0 <= k < d.len() implies exists|i: int|
            0 <= i < pending.len() && (#[trigger] pending[i]).name == (#[trigger] d[k]).job_name
                && first_end(
                statuses,
                pending[i].name@,
                pending[i].namespace@,
                d[k].completed,
            ) by {
            if k < d0.len() {
                assert(d[k] == d0[k]);
                let i = choose|i: int|
                    0 <= i < rest.len() && (#[trigger] rest[i]).name == d0[k].job_name && first_end(
                        statuses,
                        rest[i].name@,
                        rest[i].namespace@,
                        d0[k].completed,
                    );
                assert(pending[i] == rest[i]);
            } else {
                assert(pending[pending.len() - 1].name == d[k].job_name);
            }
        }
        assert forall|i: int, completed: bool|
            0 <= i < pending.len() && #[trigger] first_end(
                statuses,
                (#[trigger] pending[i]).name@,
                pending[i].namespace@,
                completed,
            ) implies d.contains(JobReport { job_name: pending[i].name, completed }) by {
            if i < rest.len() {
                assert(first_end(statuses, rest[i].name@, rest[i].namespace@, completed));
                let report = JobReport { job_name: rest[i].name, completed };
                let k = choose|k: int| 0 <= k < d0.len() && d0[k] == report;
                assert(d[k] == report);
            } else {
                assert(d[d.len() - 1] == (JobReport { job_name: job.name, completed }));
            }
        }
        assert forall|i: int|
            0 <= i < pending.len() && no_end(
                statuses,
                (#[trigger] pending[i]).name@,
                pending[i].namespace@,
            ) implies u.contains(pending[i]) by {
            if i < rest.len() {
                assert(u0.contains(rest[i]));
                let k = choose|k: int| 0 <= k < u0.len() && u0[k] == rest[i];
                assert(u[k] == rest[i]);
            } else {
                assert(u[u.len() - 1] == job);
            }
        }
        assert forall|k: int| 0 <= k < u.len() implies pending.contains(#[trigger] u[k]) && no_end(
            statuses,
            u[k].name@,
            u[k].namespace@,
        ) by {
            if k < u0.len() {
                assert(u[k] == u0[k]);
                let i = choose|i: int| 0 <= i < rest.len() && rest[i] == u0[k];
                assert(pending[i] == u0[k]);
            }
        }
    }
}

/// A round of statuses reports exactly the pending jobs that have ended, each
/// with its outcome, and keeps exactly the others.
pub proof fn a_round_reports_the_ended_and_keeps_the_rest(
    watch: &mut JobWatch,
    statuses: &Vec<InstanceStatus>,
    r: Vec<JobReport>,
)
    requires
        call_ensures(JobWatch::observe, (watch, statuses), r),
    ensures
        forall|k: int|
            0 <= k < r@.len() ==> exists|i: int|
                0 <= i < old(watch).pending@.len() && (#[trigger] old(watch).pending@[i]).name == (
                #[trigger] r@[k]).job_name && first_end(
                    statuses@,
                    old(watch).pending@[i].name@,
                    old(watch).pending@[i].namespace@,
                    r@[k].completed,
                ),
        forall|i: int, completed: bool|
            0 <= i < old(watch).pending@.len() && #[trigger] first_end(
                statuses@,
                (#[trigger] old(watch).pending@[i]).name@,
                old(watch).pending@[i].namespace@,
                completed,
            ) ==> r@.contains(JobReport { job_name: old(watch).pending@[i].name, completed }),
        forall|i: int|
            0 <= i < old(watch).pending@.len() && no_end(
                statuses@,
                (#[trigger] old(watch).pending@[i]).name@,
                old(watch).pending@[i].namespace@,
            ) ==> final(watch).pending@.contains(old(watch).pending@[i]),
        forall|k: int|
            0 <= k < final(watch).pending@.len() ==> no_end(
                statuses@,
                (#[trigger] final(watch).pending@[k]).name@,
                final(watch).pending@[k].namespace@,
            ),
        r@.len() + final(watch).pending@.len() == old(watch).pending@.len(),
{
    decided_jobs_have_ended(watch.pending@, statuses@);
}

/// An agent that answers is heard as a round of statuses; one that does not
/// leaves no job pending and none without a report of its failure.
pub proof fn a_silent_agent_fails_every_pending_job(
    watch: &mut JobWatch,
    statuses: Option<&Vec<InstanceStatus>>,
    r: Vec<JobReport>,
)
    requires
        call_ensures(JobWatch::hear, (watch, statuses), r),
    ensures
        statuses is None ==> final(watch).pending@.len() == 0,
        statuses is None ==> r@.len() == old(watch).pending@.len(),
        statuses is None ==> forall|i: int|
            0 <= i < r@.len() ==> (#[trigger] r@[i]).job_name == old(watch).pending@[i].name
                && !r@[i].completed,
        statuses is Some ==> r@.len() + final(watch).pending@.len() == old(watch).pending@.len(),
        statuses is Some ==> forall|k: int|
            0 <= k < final(watch).pending@.len() ==> no_end(
                statuses->0@,
                (#[trigger] final(watch).pending@[k]).name@,
                final(watch).pending@[k].namespace@,
            ),
        statuses is Some ==> forall|i: int|
            0 <= i < old(watch).pending@.len() && no_end(
                statuses->0@,
                (#[trigger] old(watch).pending@[i]).name@,
                old(watch).pending@[i].namespace@,
            ) ==> final(watch).pending@.contains(old(watch).pending@[i]),
        statuses is Some ==> forall|i: int, completed: bool|
            0 <= i < old(watch).pending@.len() && #[trigger] first_end(
                statuses->0@,
                (#[trigger] old(watch).pending@[i]).name@,
                old(watch).pending@[i].namespace@,
                completed,
            ) ==> r@.contains(JobReport { job_name: old(watch).pending@[i].name, completed }),
{
    if statuses is Some {
        decided_jobs_have_ended(watch.pending@, statuses->0@);
    }
}

/// The end of a watch reports every job that is left, as failed.
pub proof fn giving_up_fails_what_is_left(watch: &mut JobWatch, r: Vec<JobReport>)
    requires
        call_ensures(JobWatch::give_up, (watch,), r),
    ensures
        final(watch).pending@.len() == 0,
        r@.len() == old(watch).pending@.len(),
        forall|i: int|
            0 <= i < r@.len() ==> (#[trigger] r@[i]).job_name == old(watch).pending@[i].name
                && !r@[i].completed,
{
}

/// A watch lasts an hour at most, and no longer than it has jobs.
pub proof fn watches_last_an_hour_at_most(watch: &JobWatch, elapsed_millis: u64, r: bool)
    requires
        call_ensures(JobWatch::goes_on, (watch, elapsed_millis), r),
    ensures
        r ==> elapsed_millis < 3_600_000,
        r ==> watch.pending@.len() > 0,
        watch.pending@.len() > 0 && elapsed_millis < 3_600_000 ==> r,
{
}

/// A share that was deployed is watched whole; of any other every job is
/// reported failed at once.
pub proof fn undeployed_shares_fail_at_once(
    deployment: ShareDeployment,
    jobs: Vec<BatchJobSubmission>,
    r: (JobWatch, Vec<JobReport>),
)
    requires
        call_ensures(run_jobs_and_watch, (deployment, jobs), r),
    ensures
        deployment is Deployed ==> r.0.pending@ == jobs@ && r.1@ == Seq::<JobReport>::empty(),
        !(deployment is Deployed) ==> r.0.pending@ == Seq::<BatchJobSubmission>::empty(),
        !(deployment is Deployed) ==> r.1@.len() == jobs@.len(),
        !(deployment is Deployed) ==> forall|i: int|
            0 <= i < jobs@.len() ==> (#[trigger] r.1@[i]).job_name == jobs@[i].name
                && !r.1@[i].completed,
{
    assert(r.1@.len() == 0 ==> r.1@ =~= Seq::<JobReport>::empty());
    assert(r.0.pending@.len() == 0 ==> r.0.pending@ =~= Seq::<BatchJobSubmission>::empty());
}

/// What is reported of a job to another node is what that node hears.
pub proof fn reports_are_heard_as_they_are_told(
    base_url: &str,
    batch_id: u64,
    job_name: &str,
    completed: bool,
    told: (String, BatchReportRequest),
    heard: bool,
)
    requires
        call_ensures(completion_report, (base_url, batch_id, job_name, completed), told),
        call_ensures(reports_completion, (&told.1,), heard),
    ensures
        heard == completed,
        told.1.job_name@ == job_name@,
        told.0@ == base_url@ + "/v1/batch/"@ + decimal_text(batch_id as nat) + "/report"@,
{
    reveal_strlit("completed");
    reveal_strlit("failed");
    assert("completed"@.len() == 9 && "failed"@.len() == 6);
}

/// Reports go to whoever asked to be called back, with the cluster's token, and
/// else stay here.
pub proof fn reports_go_where_they_are_asked_for(
    callback_base_url: Option<String>,
    service_token: Option<String>,
    r: Reporter,
)
    requires
        call_ensures(reporter_for, (callback_base_url, service_token), r),
    ensures
        callback_base_url is None <==> r is Local,
        r matches Reporter::Callback { base_url, service_token: token } ==> Some(base_url)
            == callback_base_url && token == service_token,
{
}

/// Only the leader, or a node without a council, schedules a batch, and it
/// refuses one that it cannot read or that is empty.
pub proof fn batches_are_scheduled_by_the_leader(
    is_leader: Option<bool>,
    parsed: Result<BatchSubmitRequest, String>,
    r: Result<BatchRoute, Refusal>,
)
    requires
        call_ensures(batch_submit_route, (is_leader, parsed), r),
    ensures
        is_leader == Some(false) <==> r matches Ok(BatchRoute::ForwardToLeader),
        r matches Ok(BatchRoute::Schedule(request)) ==> Ok::<BatchSubmitRequest, String>(request)
            == parsed && request.jobs@.len() > 0,
        is_leader != Some(false) && parsed is Ok && parsed->Ok_0.jobs@.len() > 0 ==> r is Ok,
        r is Err ==> r->Err_0.status == Status::BadRequest,
{
}

/// A job asks for what its specification names, and for nothing else.
pub proof fn jobs_ask_for_what_they_name(jobs: &Vec<BatchJobSubmission>, r: Vec<BatchJob>)
    requires
        call_ensures(batch_jobs, (jobs,), r),
    ensures
        r@.len() == jobs@.len(),
        forall|i: int|
            0 <= i < r@.len() ==> {
                let job = #[trigger] r@[i];
                let spec = jobs@[i].spec;
                &&& job.name == jobs@[i].name
                &&& job.resources.gpus == 0
                &&& spec.cpu is Some ==> job.resources.cpu_millicores == spec.cpu->0.request
                &&& spec.cpu is None ==> job.resources.cpu_millicores == 0
                &&& spec.memory is Some ==> job.resources.memory_bytes == spec.memory->0.request
                &&& spec.memory is None ==> job.resources.memory_bytes == 0
            },
{
}

/// Whether a capacity is what a member reported of itself: what it has and what
/// is committed, with memory in bytes.
pub open spec fn capacity_reported(
    capacity: NodeCapacity,
    member: NodeMembershipInfo,
    report: StateReport,
) -> bool {
    &&& capacity.node_id == member.node_id
    &&& capacity.address == member.address
    &&& capacity.total.cpu_millicores == report.resource_usage.cpu_total_millicores
    &&& capacity.total.memory_bytes == report.resource_usage.memory_total_mb * 1024 * 1024
    &&& capacity.allocated.cpu_millicores == report.resource_usage.cpu_used_millicores
    &&& capacity.allocated.memory_bytes == report.resource_usage.memory_used_mb * 1024 * 1024
    &&& capacity.reserved.cpu_millicores == 0 && capacity.reserved.memory_bytes == 0
    &&& capacity.total.gpus == 0 && capacity.reserved.gpus == 0 && capacity.allocated.gpus == 0
}

/// Whether a capacity is what some live member with processors reported.
pub open spec fn reported_by_a_member(
    capacity: NodeCapacity,
    members: Seq<NodeMembershipInfo>,
    reports: Map<Seq<char>, StateReport>,
) -> bool {
    exists|i: int|
        0 <= i < members.len() && reports.dom().contains((#[trigger] members[i]).node_id@)
            && reports[members[i].node_id@].resource_usage.cpu_total_millicores > 0
            && capacity_reported(capacity, members[i], reports[members[i].node_id@])
}

proof fn capacities_stand_for_reports(
    members: Seq<NodeMembershipInfo>,
    reports: Map<Seq<char>, StateReport>,
)
    ensures
        forall|k: int|
            0 <= k < capacities(members, reports).len() ==> reported_by_a_member(
                #[trigger] capacities(members, reports)[k],
                members,
                reports,
            ),
        forall|i: int|
            0 <= i < members.len() && reports.dom().contains((#[trigger] members[i]).node_id@)
                && reports[members[i].node_id@].resource_usage.cpu_total_millicores > 0
                ==> exists|k: int|
                0 <= k < capacities(members, reports).len() && capacity_reported(
                    #[trigger] capacities(members, reports)[k],
                    members[i],
                    reports[members[i].node_id@],
                ),
        capacities(members, reports).len() <= members.len(),
    decreases members.len(),
{
    if members.len() > 0 {
        let rest = members.drop_last();
        let member = members.last();
        capacities_stand_for_reports(rest, reports);
        let c0 = capacities(rest, reports);
        let c = capacities(members, reports);
        assert(members[members.len() - 1] == member);
        assert(forall|i: int| 0 <= i < rest.len() ==> #[trigger] members[i] == rest[i]);
        assert(forall|k: int| 0 <= k < c0.len() ==> #[trigger] c[k] == c0[k]);
        let report = reports[member.node_id@];
        let taken = reports.dom().contains(member.node_id@)
            && report.resource_usage.cpu_total_millicores > 0;
        if taken {
            assert(report.resource_usage.memory_total_mb * 1_048_576
                == report.resource_usage.memory_total_mb * 1024 * 1024) by (nonlinear_arith);
            assert(report.resource_usage.memory_used_mb * 1_048_576
                == report.resource_usage.memory_used_mb * 1024 * 1024) by (nonlinear_arith);
            assert(capacity_reported(c[c.len() - 1], member, report));
        }
        assert forall|k: int| 0 <= k < c.len() implies reported_by_a_member(
            #[trigger] c[k],
            members,
            reports,
        ) by {
            if k < c0.len() {
                let i = choose|i: int|
                    0 <= i < rest.len() && reports.dom().contains((#[trigger] rest[i]).node_id@)
                        && reports[rest[i].node_id@].resource_usage.cpu_total_millicores > 0
                        && capacity_reported(c0[k], rest[i], reports[rest[i].node_id@]);
                assert(members[i] == rest[i]);
            } else {
                assert(capacity_reported(c[k], members[members.len() - 1], report));
            }
        }
        assert forall|i: int|
            0 <= i < members.len() && reports.dom().contains((#[trigger] members[i]).node_id@)
                && reports[members[i].node_id@].resource_usage.cpu_total_millicores
                > 0 implies exists|k: int|
            0 <= k < c.len() && capacity_reported(
                #[trigger] c[k],
                members[i],
                reports[members[i].node_id@],
            ) by {
            if i < rest.len() {
                assert(members[i] == rest[i]);
                let k = choose|k: int|
                    0 <= k < c0.len() && capacity_reported(
                        #[trigger] c0[k],
                        rest[i],
                        reports[rest[i].node_id@],
                    );
                assert(c[k] == c0[k]);
            } else {
                assert(capacity_reported(c[c.len() - 1], members[i], report));
            }
        }
    }
}

/// The capacities are those that live members reported, of every member that
/// has processors, and of no other node.
pub proof fn capacities_are_what_members_report(
    members: &Vec<NodeMembershipInfo>,
    reports: &OrderedMap<String, StateReport>,
    r: Vec<NodeCapacity>,
)
    requires
        call_ensures(capacities_from_reports, (members, reports), r),
    ensures
        forall|k: int|
            0 <= k < r@.len() ==> reported_by_a_member(#[trigger] r@[k], members@, reports@),
        forall|i: int|
            0 <= i < members@.len() && reports@.dom().contains((#[trigger] members@[i]).node_id@)
                && reports@[members@[i].node_id@].resource_usage.cpu_total_millicores > 0
                ==> exists|k: int|
                0 <= k < r@.len() && capacity_reported(
                    #[trigger] r@[k],
                    members@[i],
                    reports@[members@[i].node_id@],
                ),
        r@.len() <= members@.len(),
{
    capacities_stand_for_reports(members@, reports@);
}

/// A batch is placed on what members report; where none reports anything, this
/// node alone takes it, with no limit that a job could reach.
pub proof fn batches_fall_back_to_this_node(
    members: Option<&Vec<NodeMembershipInfo>>,
    reports: Option<&OrderedMap<String, StateReport>>,
    self_name: &str,
    r: Vec<NodeCapacity>,
)
    requires
        call_ensures(batch_capacities, (members, reports, self_name), r),
    ensures
        r@.len() > 0,
        members is None || reports is None || members->0@.len() == 0 ==> r@.len() == 1
            && r@[0].node_id@ == self_name@,
        r@.len() == 1 && r@[0].node_id@ == self_name@ || (members is Some && reports is Some),
        members is Some && reports is Some ==> forall|i: int|
            0 <= i < members->0@.len() && reports->0@.dom().contains(
                (#[trigger] members->0@[i]).node_id@,
            ) && reports->0@[members->0@[i].node_id@].resource_usage.cpu_total_millicores > 0
                ==> exists|k: int|
                0 <= k < r@.len() && capacity_reported(
                    #[trigger] r@[k],
                    members->0@[i],
                    reports->0@[members->0@[i].node_id@],
                ),
        (members is None || reports is None) ==> r@[0].allocated.cpu_millicores == 0
            && r@[0].allocated.memory_bytes == 0 && r@[0].total.cpu_millicores
            == 0x7fff_ffff_ffff_ffff && r@[0].total.memory_bytes == 0x7fff_ffff_ffff_ffff,
{
    if members is Some && reports is Some {
        capacities_stand_for_reports(members->0@, reports->0@);
    }
}

proof fn first_named_is_first(jobs: Seq<BatchJobSubmission>, name: Seq<char>)
    ensures
        match first_named(jobs, name) {
            None => forall|i: int| 0 <= i < jobs.len() ==> (#[trigger] jobs[i]).name@ != name,
            Some(job) => job.name@ == name && exists|i: int|
                0 <= i < jobs.len() && #[trigger] jobs[i] == job && forall|j: int|
                    0 <= j < i ==> (#[trigger] jobs[j]).name@ != name,
        },
    decreases jobs.len(),
{
    if jobs.len() > 0 {
        let rest = jobs.skip(1);
        first_named_is_first(rest, name);
        if jobs[0].name@ == name {
            assert(jobs[0] == first_named(jobs, name)->0);
        } else {
            match first_named(rest, name) {
                None => {
                    assert forall|i: int| 0 <= i < jobs.len() implies (#[trigger] jobs[i]).name@
                        != name by {
                        if i > 0 {
                            assert(rest[i - 1] == jobs[i]);
                        }
                    }
                },
                Some(job) => {
                    let i = choose|i: int|
                        0 <= i < rest.len() && #[trigger] rest[i] == job && forall|j: int|
                            0 <= j < i ==> (#[trigger] rest[j]).name@ != name;
                    assert(jobs[i + 1] == job);
                    assert forall|j: int| 0 <= j < i + 1 implies (#[trigger] jobs[j]).name@
                        != name by {
                        if j > 0 {
                            assert(rest[j - 1] == jobs[j]);
                        }
                    }
                },
            }
        }
    }
}

proof fn shares_hold_assignments(
    assignments: Seq<Assignment>,
    jobs: Seq<BatchJobSubmission>,
    node: Seq<char>,
)
    ensures
        forall|a: int, i: int|
            0 <= a < assignments.len() && 0 <= i < jobs.len() && (
            #[trigger] assignments[a]).node_id@ == node && (#[trigger] jobs[i]).name@
                == assignments[a].job_name@ && (forall|j: int|
                0 <= j < i ==> (#[trigger] jobs[j]).name@ != jobs[i].name@) ==> share_of(
                assignments,
                jobs,
                node,
            ).contains(jobs[i]),
        forall|k: int|
            0 <= k < share_of(assignments, jobs, node).len() ==> jobs.contains(
                #[trigger] share_of(assignments, jobs, node)[k],
            ) && exists|a: int|
                0 <= a < assignments.len() && (#[trigger] assignments[a]).node_id@ == node
                    && assignments[a].job_name@ == share_of(assignments, jobs, node)[k].name@,
    decreases assignments.len(),
{
    if assignments.len() > 0 {
        let rest = assignments.drop_last();
        let last = assignments.last();
        shares_hold_assignments(rest, jobs, node);
        first_named_is_first(jobs, last.job_name@);
        let s0 = share_of(rest, jobs, node);
        let s = share_of(assignments, jobs, node);
        assert(assignments[assignments.len() - 1] == last);
        assert(forall|k: int| 0 <= k < s0.len() ==> #[trigger] s[k] == s0[k]);
        assert forall|a: int, i: int|
            0 <= a < assignments.len() && 0 <= i < jobs.len() && (
            #[trigger] assignments[a]).node_id@ == node && (#[trigger] jobs[i]).name@
                == assignments[a].job_name@ && (forall|j: int|
                0 <= j < i ==> (#[trigger] jobs[j]).name@
                    != jobs[i].name@) implies s.contains(jobs[i]) by {
            if a < rest.len() {
                assert(rest[a] == assignments[a]);
                let k = choose|k: int| 0 <= k < s0.len() && s0[k] == jobs[i];
                assert(s[k] == jobs[i]);
            } else {
                let m = choose|m: int|
                    0 <= m < jobs.len() && #[trigger] jobs[m] == first_named(
                        jobs,
                        last.job_name@,
                    )->0 && forall|j: int| 0 <= j < m ==> (#[trigger] jobs[j]).name@
                        != last.job_name@;
                assert(m == i);
                assert(s[s.len() - 1] == jobs[i]);
            }
        }
        assert forall|k: int| 0 <= k < s.len() implies jobs.contains(#[trigger] s[k]) && exists|
            a: int,
        |
            0 <= a < assignments.len() && (#[trigger] assignments[a]).node_id@ == node
                && assignments[a].job_name@ == s[k].name@ by {
            if k < s0.len() {
                assert(s[k] == s0[k]);
                let a = choose|a: int|
                    0 <= a < rest.len() && (#[trigger] rest[a]).node_id@ == node
                        && rest[a].job_name@ == s0[k].name@;
                assert(assignments[a] == rest[a]);
            } else {
                assert(assignments[assignments.len() - 1].node_id@ == node);
            }
        }
    }
}

/// Every node gets exactly the jobs that are assigned to it, and only nodes
/// that have jobs get a share.
pub proof fn every_assigned_job_is_in_its_nodes_share(
    assignments: &Vec<Assignment>,
    jobs: &Vec<BatchJobSubmission>,
    r: OrderedMap<String, Vec<BatchJobSubmission>>,
    node: Seq<char>,
)
    requires
        call_ensures(group_by_node, (assignments, jobs), r),
    ensures
        forall|a: int, i: int|
            0 <= a < assignments@.len() && 0 <= i < jobs@.len() && (
            #[trigger] assignments@[a]).node_id@ == node && (#[trigger] jobs@[i]).name@
                == assignments@[a].job_name@ && (forall|j: int|
                0 <= j < i ==> (#[trigger] jobs@[j]).name@ != jobs@[i].name@) ==> r@.dom().contains(
                node,
            ) && r@[node]@.contains(jobs@[i]),
        r@.dom().contains(node) ==> r@[node]@.len() > 0,
        r@.dom().contains(node) ==> forall|k: int|
            0 <= k < r@[node]@.len() ==> jobs@.contains(#[trigger] r@[node]@[k]) && exists|a: int|
                0 <= a < assignments@.len() && (#[trigger] assignments@[a]).node_id@ == node
                    && assignments@[a].job_name@ == r@[node]@[k].name@,
{
    shares_hold_assignments(assignments@, jobs@, node);
}

/// A position is the first of a name.
pub open spec fn first_member(members: Seq<NodeMembershipInfo>, node: Seq<char>, i: int) -> bool {
    0 <= i < members.len() && members[i].node_id@ == node && forall|j: int|
        0 <= j < i ==> (#[trigger] members[j]).node_id@ != node
}

/// The position of a member is that of the first of its name.
pub proof fn members_are_found_by_name(members: Seq<NodeMembershipInfo>, node: Seq<char>)
    ensures
        member_position(members, node) is Some <==> exists|i: int|
            0 <= i < members.len() && (#[trigger] members[i]).node_id@ == node,
        member_position(members, node) matches Some(at) ==> first_member(members, node, at),
    decreases members.len(),
{
    if members.len() > 0 {
        let rest = members.drop_last();
        members_are_found_by_name(rest, node);
        if member_position(rest, node) is Some {
            let at = member_position(rest, node)->0;
            assert(members[at] == rest[at]);
            assert forall|j: int| 0 <= j < at implies (#[trigger] members[j]).node_id@ != node by {
                assert(rest[j] == members[j]);
            }
        } else if members.last().node_id@ == node {
            assert(members[members.len() - 1].node_id@ == node);
            assert forall|j: int| 0 <= j < members.len() - 1 implies (
            #[trigger] members[j]).node_id@ != node by {
                assert(rest[j] == members[j]);
            }
        } else {
            assert forall|j: int| 0 <= j < members.len() implies (#[trigger] members[j]).node_id@
                != node by {
                if j < rest.len() {
                    assert(rest[j] == members[j]);
                }
            }
        }
    }
}

/// A share runs here if it is this node's, is sent to the address that
/// membership has for its node, and else cannot be sent.
pub proof fn shares_go_to_their_node(
    node_id: &str,
    self_name: &str,
    members: Option<&Vec<NodeMembershipInfo>>,
    r: DispatchTarget,
    i: int,
)
    requires
        call_ensures(dispatch_target, (node_id, self_name, members), r),
    ensures
        r is Local <==> node_id@ == self_name@,
        members is None && node_id@ != self_name@ ==> r is Unreachable,
        members is Some && node_id@ != self_name@ && first_member(members->0@, node_id@, i)
            ==> (r matches DispatchTarget::Remote(url) && url@ == "http://"@
            + members->0@[i].address@),
        r is Unreachable && members is Some ==> forall|j: int|
            0 <= j < members->0@.len() ==> (#[trigger] members->0@[j]).node_id@ != node_id@,
{
    if members is Some {
        members_are_found_by_name(members->0@, node_id@);
    }
}

/// A node's URL is that of the first member of its name.
pub proof fn node_urls_come_from_membership(
    members: Option<&Vec<NodeMembershipInfo>>,
    node_id: &str,
    r: Option<String>,
    i: int,
)
    requires
        call_ensures(node_api_url, (members, node_id), r),
    ensures
        members is None ==> r is None,
        members is Some && first_member(members->0@, node_id@, i) ==> r is Some && r->0@
            == "http://"@ + members->0@[i].address@,
        members is Some && r is None ==> forall|j: int|
            0 <= j < members->0@.len() ==> (#[trigger] members->0@[j]).node_id@ != node_id@,
{
    if members is Some {
        members_are_found_by_name(members->0@, node_id@);
    }
}

/// A request is sent on to the leader exactly where one is known.
pub proof fn batches_wait_for_a_leader(
    leader_url: Option<String>,
    path: &str,
    r: Result<String, Refusal>,
)
    requires
        call_ensures(forward_to_leader, (leader_url, path), r),
    ensures
        leader_url is Some <==> r is Ok,
        r is Ok ==> r->Ok_0@ == leader_url->0@ + path@,
        r is Err ==> r->Err_0.status == Status::ServiceUnavailable,
{
}

} // verus!
