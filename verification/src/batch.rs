//! Batch job submission, dispatch and tracking.
//!
//! The leader turns worker reports into capacities, schedules the jobs of a
//! batch, groups them by node and dispatches them. A node that runs a share
//! watches its jobs to a terminal state and reports each of them once.

use vstd::prelude::*;
use vstd::string::*;

use crate::build_runner::StateReport;
use crate::instances::{belongs, belongs_to, InstanceStatus};
use crate::membership::{find_member, member_list, member_position, NodeMembershipInfo};
use crate::ordered_map::OrderedMap;
use crate::reply::{numbered, refuse, refuse_because, refused, Refusal, Status};
use crate::text::{decimal, decimal_text, optional_text, same_text};

verus! {

/// Seconds that a dispatched job may run before its watcher gives up.
pub const JOB_WATCH_TIMEOUT_SECS: u64 = 3600;

/// Bytes in a MiB.
pub const MIB: u64 = 1_048_576;

/// How much of a resource a job asks for.
#[derive(Debug, Clone, Copy, PartialEq, Eq, Structural)]
pub struct ResourceRequest {
    /// The amount.
    pub request: u64,
}

/// What a job is, of which scheduling reads its requests.
#[derive(Debug)]
pub struct JobSpec {
    /// CPU, in thousandths of a core.
    pub cpu: Option<ResourceRequest>,
    /// Memory, in bytes.
    pub memory: Option<ResourceRequest>,
    /// The complete specification as a document.
    pub document: String,
}

/// One job in a batch submission: the full specification travels with it.
#[derive(Debug)]
pub struct BatchJobSubmission {
    /// Name of the job.
    pub name: String,
    /// Namespace the job deploys into.
    pub namespace: String,
    /// What the job is.
    pub spec: JobSpec,
}

impl Clone for BatchJobSubmission {
    fn clone(&self) -> (r: Self)
        ensures
            r == *self,
    {
        BatchJobSubmission {
            name: self.name.clone(),
            namespace: self.namespace.clone(),
            spec: JobSpec {
                cpu: self.spec.cpu,
                memory: self.spec.memory,
                document: self.spec.document.clone(),
            },
        }
    }
}

/// The namespace of a job that names none.
pub fn default_namespace() -> (r: String)
    ensures
        r@ == "default"@,
{
    "default".to_owned()
}

/// A batch as it is submitted.
#[derive(Debug)]
pub struct BatchSubmitRequest {
    /// Its jobs.
    pub jobs: Vec<BatchJobSubmission>,
}

/// The answer to a submission.
#[derive(Debug)]
pub struct BatchSubmitResponse {
    /// Identifier of the batch.
    pub batch_id: u64,
    /// Jobs that were assigned to a node.
    pub assigned: usize,
    /// Jobs that fit nowhere.
    pub unschedulable: Vec<String>,
}

/// A share of a batch for one node.
#[derive(Debug)]
pub struct BatchRunRequest {
    /// Identifier of the batch.
    pub batch_id: u64,
    /// Where completions are reported; nowhere for the submitting node's own
    /// share.
    pub callback_base_url: Option<String>,
    /// The jobs to run.
    pub jobs: Vec<BatchJobSubmission>,
}

/// The report of a finished job.
#[derive(Debug)]
pub struct BatchReportRequest {
    /// The job.
    pub job_name: String,
    /// `"completed"` or `"failed"`.
    pub status: String,
}

/// Amounts of resources.
#[derive(Debug, Clone, Copy, PartialEq, Eq, Structural)]
pub struct Resources {
    /// CPU, in thousandths of a core.
    pub cpu_millicores: u64,
    /// Memory, in bytes.
    pub memory_bytes: u64,
    /// Number of GPUs.
    pub gpus: u64,
}

/// What a node offers to the scheduler.
#[derive(Debug)]
pub struct NodeCapacity {
    /// The node.
    pub node_id: String,
    /// Where it is.
    pub address: String,
    /// All of its resources.
    pub total: Resources,
    /// What is set aside.
    pub reserved: Resources,
    /// What is committed.
    pub allocated: Resources,
}

/// Whether a member takes part in scheduling: its report shows a capacity.
pub open spec fn has_capacity(
    member: NodeMembershipInfo,
    reports: Map<Seq<char>, StateReport>,
) -> bool {
    reports.dom().contains(member.node_id@)
        && reports[member.node_id@].resource_usage.cpu_total_millicores != 0
}

/// What a member offers by its report.
pub open spec fn capacity_of(member: NodeMembershipInfo, report: StateReport) -> NodeCapacity {
    let usage = report.resource_usage;
    NodeCapacity {
        node_id: member.node_id,
        address: member.address,
        total: Resources {
            cpu_millicores: usage.cpu_total_millicores as u64,
            memory_bytes: (usage.memory_total_mb * MIB) as u64,
            gpus: 0,
        },
        reserved: Resources { cpu_millicores: 0, memory_bytes: 0, gpus: 0 },
        allocated: Resources {
            cpu_millicores: usage.cpu_used_millicores as u64,
            memory_bytes: (usage.memory_used_mb * MIB) as u64,
            gpus: 0,
        },
    }
}

/// What the members with a capacity offer, in order.
pub open spec fn capacities(
    members: Seq<NodeMembershipInfo>,
    reports: Map<Seq<char>, StateReport>,
) -> Seq<NodeCapacity>
    decreases members.len(),
{
    if members.len() == 0 {
        Seq::empty()
    } else {
        let before = capacities(members.drop_last(), reports);
        let member = members.last();
        if has_capacity(member, reports) {
            before.push(capacity_of(member, reports[member.node_id@]))
        } else {
            before
        }
    }
}

/// Turn worker reports into scheduler capacities. Reports carry commitments;
/// a node that reports no capacity yet takes no part.
pub fn capacities_from_reports(
    members: &Vec<NodeMembershipInfo>,
    reports: &OrderedMap<String, StateReport>,
) -> (r: Vec<NodeCapacity>)
    requires
        reports.wf(),
    ensures
        r@ == capacities(members@, reports@),
{
    let mut list: Vec<NodeCapacity> = Vec::new();
    let mut i: usize = 0;
    proof {
        assert(members@.take(0) =~= Seq::<NodeMembershipInfo>::empty());
    }
    while i < members.len()
        invariant
            reports.wf(),
            i <= members.len(),
            list@ == capacities(members@.take(i as int), reports@),
        decreases members.len() - i,
    {
        let member = &members[i];
        proof {
            assert(members@.take(i as int + 1).drop_last() =~= members@.take(i as int));
            assert(members@.take(i as int + 1).last() == *member);
        }
        match reports.get(&member.node_id) {
            Some(report) => {
                let usage = report.resource_usage;
                if usage.cpu_total_millicores != 0 {
                    list.push(
                        NodeCapacity {
                            node_id: member.node_id.clone(),
                            address: member.address.clone(),
                            total: Resources {
                                cpu_millicores: usage.cpu_total_millicores as u64,
                                memory_bytes: usage.memory_total_mb as u64 * MIB,
                                gpus: 0,
                            },
                            reserved: Resources { cpu_millicores: 0, memory_bytes: 0, gpus: 0 },
                            allocated: Resources {
                                cpu_millicores: usage.cpu_used_millicores as u64,
                                memory_bytes: usage.memory_used_mb as u64 * MIB,
                                gpus: 0,
                            },
                        },
                    );
                }
            },
            None => {},
        }
        i = i + 1;
    }
    proof {
        assert(members@.take(members@.len() as int) =~= members@);
    }
    list
}

/// The capacity of a node that schedules onto itself alone.
pub open spec fn is_unlimited(capacity: NodeCapacity, node_name: Seq<char>) -> bool {
    &&& capacity.node_id@ == node_name
    &&& capacity.address@ == "127.0.0.1:0"@
    &&& capacity.total == (Resources {
        cpu_millicores: u64::MAX / 2,
        memory_bytes: u64::MAX / 2,
        gpus: 0,
    })
    &&& capacity.reserved == (Resources { cpu_millicores: 0, memory_bytes: 0, gpus: 0 })
    &&& capacity.allocated == (Resources { cpu_millicores: 0, memory_bytes: 0, gpus: 0 })
}

/// Offer one node with effectively unlimited capacity, so that a standalone
/// node schedules locally.
pub fn local_only_capacity(node_name: &str) -> (r: Vec<NodeCapacity>)
    ensures
        r@.len() == 1,
        is_unlimited(r@[0], node_name@),
{
    let mut list: Vec<NodeCapacity> = Vec::new();
    list.push(
        NodeCapacity {
            node_id: node_name.to_owned(),
            address: "127.0.0.1:0".to_owned(),
            total: Resources {
                cpu_millicores: u64::MAX / 2,
                memory_bytes: u64::MAX / 2,
                gpus: 0,
            },
            reserved: Resources { cpu_millicores: 0, memory_bytes: 0, gpus: 0 },
            allocated: Resources { cpu_millicores: 0, memory_bytes: 0, gpus: 0 },
        },
    );
    list
}

/// Choose the capacities that a batch is scheduled onto: those of the reports
/// where the node is clustered and they show any, else the node itself.
pub fn batch_capacities(
    members: Option<&Vec<NodeMembershipInfo>>,
    reports: Option<&OrderedMap<String, StateReport>>,
    self_name: &str,
) -> (r: Vec<NodeCapacity>)
    requires
        reports is Some ==> reports->0.wf(),
    ensures
        if members is Some && reports is Some && capacities(members->0@, reports->0@).len() > 0 {
            r@ == capacities(members->0@, reports->0@)
        } else {
            r@.len() == 1 && is_unlimited(r@[0], self_name@)
        },
{
    match (members, reports) {
        (Some(members), Some(reports)) => {
            let list = capacities_from_reports(members, reports);
            if list.len() > 0 {
                return list;
            }
        },
        _ => {},
    }
    local_only_capacity(self_name)
}

/// A job as the scheduler sees it.
#[derive(Debug)]
pub struct BatchJob {
    /// Its name.
    pub name: String,
    /// What it asks for.
    pub resources: Resources,
}

/// What a request asks for, which may be nothing.
pub open spec fn asked(request: Option<ResourceRequest>) -> u64 {
    match request {
        Some(range) => range.request,
        None => 0,
    }
}

/// A submitted job as the scheduler sees it.
pub open spec fn scheduled_job(job: BatchJobSubmission) -> BatchJob {
    BatchJob {
        name: job.name,
        resources: Resources {
            cpu_millicores: asked(job.spec.cpu),
            memory_bytes: asked(job.spec.memory),
            gpus: 0,
        },
    }
}

/// Turn submitted jobs into what the scheduler sees.
pub fn batch_jobs(jobs: &Vec<BatchJobSubmission>) -> (r: Vec<BatchJob>)
    ensures
        r@ == jobs@.map_values(|job: BatchJobSubmission| scheduled_job(job)),
{
    let mut list: Vec<BatchJob> = Vec::new();
    let mut i: usize = 0;
    while i < jobs.len()
        invariant
            i <= jobs.len(),
            list@.len() == i,
            forall|j: int| 0 <= j < i ==> #[trigger] list@[j] == scheduled_job(jobs@[j]),
        decreases jobs.len() - i,
    {
        let job = &jobs[i];
        let cpu: u64 = match job.spec.cpu {
            Some(range) => range.request,
            None => 0,
        };
        let memory: u64 = match job.spec.memory {
            Some(range) => range.request,
            None => 0,
        };
        list.push(
            BatchJob {
                name: job.name.clone(),
                resources: Resources { cpu_millicores: cpu, memory_bytes: memory, gpus: 0 },
            },
        );
        i = i + 1;
    }
    proof {
        assert(list@ =~= jobs@.map_values(|job: BatchJobSubmission| scheduled_job(job)));
    }
    list
}

/// What is done with a submission.
#[derive(Debug)]
pub enum BatchRoute {
    /// The leader gets it.
    ForwardToLeader,
    /// It is scheduled here.
    Schedule(BatchSubmitRequest),
}

/// Decide what is done with a submission: a follower forwards it as it is; the
/// leader, or a standalone node, schedules it if it parses and has jobs.
pub fn batch_submit_route(
    is_leader: Option<bool>,
    parsed: Result<BatchSubmitRequest, String>,
) -> (r: Result<BatchRoute, Refusal>)
    ensures
        if is_leader == Some(false) {
            r matches Ok(BatchRoute::ForwardToLeader)
        } else {
            match parsed {
                Err(error) => refused(
                    r,
                    Status::BadRequest,
                    "invalid batch request: "@ + error@,
                ),
                Ok(request) => if request.jobs@.len() == 0 {
                    refused(r, Status::BadRequest, "batch has no jobs"@)
                } else {
                    r matches Ok(BatchRoute::Schedule(accepted)) && accepted == request
                },
            }
        },
{
    match is_leader {
        Some(false) => {
            return Ok(BatchRoute::ForwardToLeader);
        },
        _ => {},
    }
    match parsed {
        Err(error) => Err(
            refuse_because(Status::BadRequest, "invalid batch request: ", error.as_str()),
        ),
        Ok(request) => {
            if request.jobs.len() == 0 {
                return Err(refuse(Status::BadRequest, "batch has no jobs"));
            }
            Ok(BatchRoute::Schedule(request))
        },
    }
}

/// The first submitted job of a name, if there is one.
pub open spec fn first_named(jobs: Seq<BatchJobSubmission>, name: Seq<char>) -> Option<
    BatchJobSubmission,
>
    decreases jobs.len(),
{
    if jobs.len() == 0 {
        None
    } else if jobs[0].name@ == name {
        Some(jobs[0])
    } else {
        first_named(jobs.skip(1), name)
    }
}

fn find_job(jobs: &Vec<BatchJobSubmission>, name: &str) -> (r: Option<BatchJobSubmission>)
    ensures
        r == first_named(jobs@, name@),
{
    let mut i: usize = 0;
    proof {
        assert(jobs@.skip(0) =~= jobs@);
    }
    while i < jobs.len()
        invariant
            i <= jobs.len(),
            first_named(jobs@, name@) == first_named(jobs@.skip(i as int), name@),
        decreases jobs.len() - i,
    {
        proof {
            assert(jobs@.skip(i as int).skip(1) =~= jobs@.skip(i as int + 1));
        }
        if same_text(jobs[i].name.as_str(), name) {
            return Some(jobs[i].clone());
        }
        i = i + 1;
    }
    None
}

/// A job that the scheduler assigned to a node.
#[derive(Debug)]
pub struct Assignment {
    /// Name of the job.
    pub job_name: String,
    /// Node that runs it.
    pub node_id: String,
}

/// The jobs of a node, in the order of assignment.
pub open spec fn share_of(
    assignments: Seq<Assignment>,
    jobs: Seq<BatchJobSubmission>,
    node: Seq<char>,
) -> Seq<BatchJobSubmission>
    decreases assignments.len(),
{
    if assignments.len() == 0 {
        Seq::empty()
    } else {
        let before = share_of(assignments.drop_last(), jobs, node);
        let last = assignments.last();
        match first_named(jobs, last.job_name@) {
            Some(job) => if last.node_id@ == node {
                before.push(job)
            } else {
                before
            },
            None => before,
        }
    }
}

/// Whether a table holds exactly the share of every node that has one.
pub open spec fn holds_shares(
    table: Map<Seq<char>, Vec<BatchJobSubmission>>,
    assignments: Seq<Assignment>,
    jobs: Seq<BatchJobSubmission>,
) -> bool {
    &&& forall|node: Seq<char>| #[trigger]
        table.dom().contains(node) <==> share_of(assignments, jobs, node).len() > 0
    &&& forall|node: Seq<char>| #[trigger]
        table.dom().contains(node) ==> table[node]@ == share_of(assignments, jobs, node)
}

/// Group the assigned jobs by node. An assignment of an unknown job counts for
/// nothing.
pub fn group_by_node(
    assignments: &Vec<Assignment>,
    jobs: &Vec<BatchJobSubmission>,
) -> (r: OrderedMap<String, Vec<BatchJobSubmission>>)
    ensures
        r.wf(),
        holds_shares(r@, assignments@, jobs@),
{
    let mut table: OrderedMap<String, Vec<BatchJobSubmission>> = OrderedMap::new();
    let mut i: usize = 0;
    proof {
        assert(assignments@.take(0) =~= Seq::<Assignment>::empty());
    }
    while i < assignments.len()
        invariant
            table.wf(),
            i <= assignments.len(),
            holds_shares(table@, assignments@.take(i as int), jobs@),
        decreases assignments.len() - i,
    {
        let assignment = &assignments[i];
        let ghost before = assignments@.take(i as int);
        let ghost after = assignments@.take(i as int + 1);
        let ghost old_table = table@;
        proof {
            assert(after.drop_last() =~= before);
            assert(after.last() == *assignment);
        }
        match find_job(jobs, assignment.job_name.as_str()) {
            Some(job) => {
                let ghost node = assignment.node_id@;
                let ghost added = job;
                let mut share: Vec<BatchJobSubmission> = match table.remove(&assignment.node_id) {
                    Some(share) => share,
                    None => Vec::new(),
                };
                proof {
                    assert(share@ =~= share_of(before, jobs@, node));
                }
                share.push(job);
                let ghost new_share = share;
                table.insert(assignment.node_id.clone(), share);
                proof {
                    assert forall|n: Seq<char>| #[trigger]
                        table@.dom().contains(n) <==> share_of(after, jobs@, n).len() > 0 by {
                        if n != node {
                            assert(share_of(after, jobs@, n) == share_of(before, jobs@, n));
                            assert(table@.dom().contains(n) == old_table.dom().contains(n));
                        }
                    }
                    assert forall|n: Seq<char>| #[trigger]
                        table@.dom().contains(n) implies table@[n]@ == share_of(after, jobs@, n) by {
                        if n != node {
                            assert(old_table.dom().contains(n));
                            assert(share_of(after, jobs@, n) == share_of(before, jobs@, n));
                        }
                    }
                }
            },
            None => {
                proof {
                    assert forall|n: Seq<char>| share_of(after, jobs@, n) == share_of(
                        before,
                        jobs@,
                        n,
                    ) by {}
                }
            },
        }
        i = i + 1;
    }
    proof {
        assert(assignments@.take(assignments@.len() as int) =~= assignments@);
    }
    table
}

/// Where a share of a batch goes.
#[derive(Debug)]
pub enum DispatchTarget {
    /// It runs here and reports straight into the tracker.
    Local,
    /// It is sent to the node at this base URL.
    Remote(String),
    /// The node has no known address; its jobs will time out.
    Unreachable,
}

/// The base URL of a member, if it is one.
pub open spec fn member_url(
    members: Option<Seq<NodeMembershipInfo>>,
    node: Seq<char>,
) -> Option<Seq<char>> {
    match members {
        Some(list) => match member_position(list, node) {
            Some(at) => Some("http://"@ + list[at].address@),
            None => None,
        },
        None => None,
    }
}

/// The base URL at which peers reach a node.
pub fn node_api_url(members: Option<&Vec<NodeMembershipInfo>>, node_id: &str) -> (r: Option<String>)
    ensures
        optional_text(r) == member_url(member_list(members), node_id@),
{
    match members {
        Some(list) => match find_member(list, node_id) {
            Some(at) => {
                let mut url: String = "http://".to_owned();
                url.append(list[at].address.as_str());
                Some(url)
            },
            None => None,
        },
        None => None,
    }
}

/// Decide where the share of a node goes.
pub fn dispatch_target(
    node_id: &str,
    self_name: &str,
    members: Option<&Vec<NodeMembershipInfo>>,
) -> (r: DispatchTarget)
    ensures
        if node_id@ == self_name@ {
            r is Local
        } else {
            match member_url(member_list(members), node_id@) {
                Some(url) => r matches DispatchTarget::Remote(at) && at@ == url,
                None => r is Unreachable,
            }
        },
{
    if same_text(node_id, self_name) {
        return DispatchTarget::Local;
    }
    match node_api_url(members, node_id) {
        Some(url) => DispatchTarget::Remote(url),
        None => DispatchTarget::Unreachable,
    }
}

/// What one instance shows of a job: an exhausted job has failed; a stop with
/// code zero, or with no known code, is a success; any other stop is a retry
/// that is still to come.
pub open spec fn instance_outcome(status: InstanceStatus) -> Option<bool> {
    if status.state@ == "failed"@ {
        Some(false)
    } else if status.state@ == "stopped"@ && (status.exit_code is None || status.exit_code->0 == 0) {
        Some(true)
    } else {
        None
    }
}

/// What the statuses show of a job: what its first decisive instance shows.
pub open spec fn job_outcome(
    statuses: Seq<InstanceStatus>,
    name: Seq<char>,
    namespace: Seq<char>,
) -> Option<bool>
    decreases statuses.len(),
{
    if statuses.len() == 0 {
        None
    } else if belongs(statuses[0], name, namespace) && instance_outcome(statuses[0]) is Some {
        instance_outcome(statuses[0])
    } else {
        job_outcome(statuses.skip(1), name, namespace)
    }
}

fn outcome_of_instance(status: &InstanceStatus) -> (r: Option<bool>)
    ensures
        r == instance_outcome(*status),
{
    if same_text(status.state.as_str(), "failed") {
        Some(false)
    } else if same_text(status.state.as_str(), "stopped") {
        match status.exit_code {
            Some(code) => if code == 0 {
                Some(true)
            } else {
                None
            },
            None => Some(true),
        }
    } else {
        None
    }
}

/// Find out what the statuses show of a job.
pub fn find_job_outcome(
    statuses: &Vec<InstanceStatus>,
    name: &str,
    namespace: &str,
) -> (r: Option<bool>)
    ensures
        r == job_outcome(statuses@, name@, namespace@),
{
    let mut i: usize = 0;
    proof {
        assert(statuses@.skip(0) =~= statuses@);
    }
    while i < statuses.len()
        invariant
            i <= statuses.len(),
            job_outcome(statuses@, name@, namespace@) == job_outcome(
                statuses@.skip(i as int),
                name@,
                namespace@,
            ),
        decreases statuses.len() - i,
    {
        proof {
            assert(statuses@.skip(i as int).skip(1) =~= statuses@.skip(i as int + 1));
        }
        if belongs_to(&statuses[i], name, namespace) {
            let outcome = outcome_of_instance(&statuses[i]);
            if outcome.is_some() {
                return outcome;
            }
        }
        i = i + 1;
    }
    None
}

/// A finished job to report.
#[derive(Debug)]
pub struct JobReport {
    /// The job.
    pub job_name: String,
    /// Whether it completed; else it failed.
    pub completed: bool,
}

/// The reports that a round of statuses allows, in order.
pub open spec fn decided(
    pending: Seq<BatchJobSubmission>,
    statuses: Seq<InstanceStatus>,
) -> Seq<JobReport>
    decreases pending.len(),
{
    if pending.len() == 0 {
        Seq::empty()
    } else {
        let before = decided(pending.drop_last(), statuses);
        let job = pending.last();
        match job_outcome(statuses, job.name@, job.namespace@) {
            Some(completed) => before.push(JobReport { job_name: job.name, completed }),
            None => before,
        }
    }
}

/// The jobs that a round of statuses leaves pending, in order.
pub open spec fn undecided(
    pending: Seq<BatchJobSubmission>,
    statuses: Seq<InstanceStatus>,
) -> Seq<BatchJobSubmission>
    decreases pending.len(),
{
    if pending.len() == 0 {
        Seq::empty()
    } else {
        let before = undecided(pending.drop_last(), statuses);
        let job = pending.last();
        if job_outcome(statuses, job.name@, job.namespace@) is None {
            before.push(job)
        } else {
            before
        }
    }
}

/// Reports that every job of a list failed, in order.
pub open spec fn all_failed(jobs: Seq<BatchJobSubmission>) -> Seq<JobReport> {
    jobs.map_values(
        |job: BatchJobSubmission| JobReport { job_name: job.name, completed: false },
    )
}

/// Jobs of a batch that are watched to their end.
#[derive(Debug)]
pub struct JobWatch {
    /// The jobs without an outcome yet.
    pub pending: Vec<BatchJobSubmission>,
}

impl JobWatch {
    /// Look at a round of statuses: report the jobs that have come to an end
    /// and keep the others.
    pub fn observe(&mut self, statuses: &Vec<InstanceStatus>) -> (r: Vec<JobReport>)
        ensures
            r@ == decided(old(self).pending@, statuses@),
            final(self).pending@ == undecided(old(self).pending@, statuses@),
    {
        let ghost all = self.pending@;
        let mut reports: Vec<JobReport> = Vec::new();
        let mut kept: Vec<BatchJobSubmission> = Vec::new();
        let mut i: usize = 0;
        proof {
            assert(all.take(0) =~= Seq::<BatchJobSubmission>::empty());
        }
        while i < self.pending.len()
            invariant
                i <= self.pending.len(),
                all == self.pending@,
                reports@ == decided(all.take(i as int), statuses@),
                kept@ == undecided(all.take(i as int), statuses@),
            decreases self.pending.len() - i,
        {
            let job = &self.pending[i];
            proof {
                assert(all.take(i as int + 1).drop_last() =~= all.take(i as int));
                assert(all.take(i as int + 1).last() == *job);
            }
            match find_job_outcome(statuses, job.name.as_str(), job.namespace.as_str()) {
                Some(completed) => {
                    reports.push(JobReport { job_name: job.name.clone(), completed });
                },
                None => {
                    kept.push(job.clone());
                },
            }
            i = i + 1;
        }
        proof {
            assert(all.take(all.len() as int) =~= all);
        }
        self.pending = kept;
        reports
    }

    /// Hear the agent's reply to a question for its statuses. An agent that does
    /// not answer ends the watch: whatever is pending is reported failed.
    pub fn hear(&mut self, statuses: Option<&Vec<InstanceStatus>>) -> (r: Vec<JobReport>)
        ensures
            match statuses {
                Some(statuses) => {
                    &&& r@ == decided(old(self).pending@, statuses@)
                    &&& final(self).pending@ == undecided(old(self).pending@, statuses@)
                },
                None => {
                    &&& r@ == all_failed(old(self).pending@)
                    &&& final(self).pending@.len() == 0
                },
            },
    {
        match statuses {
            Some(statuses) => self.observe(statuses),
            None => self.give_up(),
        }
    }

    /// Whether the watch goes on: jobs are pending and the deadline, in
    /// milliseconds, has not come.
    pub fn goes_on(&self, elapsed_millis: u64) -> (r: bool)
        ensures
            r == (self.pending@.len() > 0 && elapsed_millis < JOB_WATCH_TIMEOUT_SECS * 1000),
    {
        self.pending.len() > 0 && elapsed_millis < JOB_WATCH_TIMEOUT_SECS * 1000
    }

    /// End the watch: whatever is still pending is reported failed, so that
    /// every job is reported.
    pub fn give_up(&mut self) -> (r: Vec<JobReport>)
        ensures
            r@ == all_failed(old(self).pending@),
            final(self).pending@.len() == 0,
    {
        let r = fail_all(&self.pending);
        self.pending = Vec::new();
        r
    }
}

/// Report that every job of a share failed, which is what a share that could
/// not be deployed comes to.
pub fn fail_all(jobs: &Vec<BatchJobSubmission>) -> (r: Vec<JobReport>)
    ensures
        r@ == all_failed(jobs@),
{
    let mut reports: Vec<JobReport> = Vec::new();
    let mut i: usize = 0;
    while i < jobs.len()
        invariant
            i <= jobs.len(),
            reports@ == all_failed(jobs@).take(i as int),
        decreases jobs.len() - i,
    {
        reports.push(JobReport { job_name: jobs[i].name.clone(), completed: false });
        proof {
            assert(all_failed(jobs@).take(i as int + 1) =~= all_failed(jobs@).take(i as int).push(
                all_failed(jobs@)[i as int],
            ));
        }
        i = i + 1;
    }
    proof {
        assert(all_failed(jobs@).take(jobs@.len() as int) =~= all_failed(jobs@));
    }
    reports
}

/// What came of deploying a share of a batch.
#[derive(Debug, Clone, Copy, PartialEq, Eq, Structural)]
pub enum ShareDeployment {
    /// No configuration could be made of it.
    NoConfiguration,
    /// The agent did not take it.
    AgentUnavailable,
    /// The deployment reported an error.
    Failed,
    /// It was deployed.
    Deployed,
}

/// Begin to watch a share that was deployed; one that was not is reported
/// failed at once.
pub fn run_jobs_and_watch(
    deployment: ShareDeployment,
    jobs: Vec<BatchJobSubmission>,
) -> (r: (JobWatch, Vec<JobReport>))
    ensures
        deployment == ShareDeployment::Deployed ==> r.0.pending@ == jobs@ && r.1@.len() == 0,
        deployment != ShareDeployment::Deployed ==> r.0.pending@.len() == 0 && r.1@ == all_failed(
            jobs@,
        ),
{
    if deployment == ShareDeployment::Deployed {
        (JobWatch { pending: jobs }, Vec::new())
    } else {
        let reports = fail_all(&jobs);
        (JobWatch { pending: Vec::new() }, reports)
    }
}

/// Where completion reports go.
#[derive(Debug)]
pub enum Reporter {
    /// The submitting node itself marks its tracker.
    Local,
    /// A remote submitter is told.
    Callback {
        /// Base URL of the submitter.
        base_url: String,
        /// Token to tell it with.
        service_token: Option<String>,
    },
}

/// Choose where the completions of a share are reported.
pub fn reporter_for(
    callback_base_url: Option<String>,
    service_token: Option<String>,
) -> (r: Reporter)
    ensures
        match callback_base_url {
            Some(url) => r == (Reporter::Callback { base_url: url, service_token }),
            None => r is Local,
        },
{
    match callback_base_url {
        Some(base_url) => Reporter::Callback { base_url, service_token },
        None => Reporter::Local,
    }
}

/// Where and what a remote submitter is told of a finished job.
pub fn completion_report(
    base_url: &str,
    batch_id: u64,
    job_name: &str,
    completed: bool,
) -> (r: (String, BatchReportRequest))
    ensures
        r.0@ == base_url@ + "/v1/batch/"@ + decimal_text(batch_id as nat) + "/report"@,
        r.1.job_name@ == job_name@,
        r.1.status@ == if completed {
            "completed"@
        } else {
            "failed"@
        },
{
    let mut url: String = base_url.to_owned();
    url.append("/v1/batch/");
    url.append(decimal(batch_id).as_str());
    url.append("/report");
    let status: String = if completed {
        "completed".to_owned()
    } else {
        "failed".to_owned()
    };
    (url, BatchReportRequest { job_name: job_name.to_owned(), status })
}

/// Whether a report says that its job completed; anything else is a failure.
pub fn reports_completion(report: &BatchReportRequest) -> (r: bool)
    ensures
        r == (report.status@ == "completed"@),
{
    same_text(report.status.as_str(), "completed")
}

/// What a completion report says is what the submitter hears.
pub proof fn reported_outcome_is_heard(report: BatchReportRequest, completed: bool)
    requires
        report.status@ == if completed {
            "completed"@
        } else {
            "failed"@
        },
    ensures
        (report.status@ == "completed"@) == completed,
{
    reveal_strlit("completed");
    reveal_strlit("failed");
    assert("completed"@.len() == 9 && "failed"@.len() == 6);
}

/// A round of statuses neither loses nor repeats a job: each one is either
/// reported or kept.
pub proof fn every_job_is_reported_or_kept(
    pending: Seq<BatchJobSubmission>,
    statuses: Seq<InstanceStatus>,
)
    ensures
        decided(pending, statuses).len() + undecided(pending, statuses).len() == pending.len(),
        decided(pending, statuses).map_values(|r: JobReport| r.job_name).to_multiset().add(
            undecided(pending, statuses).map_values(
                |j: BatchJobSubmission| j.name,
            ).to_multiset(),
        ) == pending.map_values(|j: BatchJobSubmission| j.name).to_multiset(),
    decreases pending.len(),
{
    broadcast use vstd::seq_lib::group_to_multiset_ensures;

    let name = |j: BatchJobSubmission| j.name;
    let reported = |r: JobReport| r.job_name;
    if pending.len() == 0 {
        assert(decided(pending, statuses).map_values(reported) =~= Seq::<String>::empty());
        assert(undecided(pending, statuses).map_values(name) =~= Seq::<String>::empty());
        assert(pending.map_values(name) =~= Seq::<String>::empty());
        assert(Seq::<String>::empty().to_multiset().add(Seq::<String>::empty().to_multiset())
            =~= Seq::<String>::empty().to_multiset());
    } else {
        let rest = pending.drop_last();
        let job = pending.last();
        every_job_is_reported_or_kept(rest, statuses);
        assert(pending.map_values(name) =~= rest.map_values(name).push(job.name));
        let d = decided(rest, statuses);
        let u = undecided(rest, statuses);
        if job_outcome(statuses, job.name@, job.namespace@) is None {
            assert(u.push(job).map_values(name) =~= u.map_values(name).push(job.name));
        } else {
            let report = JobReport {
                job_name: job.name,
                completed: job_outcome(statuses, job.name@, job.namespace@)->0,
            };
            assert(d.push(report).map_values(reported) =~= d.map_values(reported).push(job.name));
        }
        assert(decided(pending, statuses).map_values(reported).to_multiset().add(
            undecided(pending, statuses).map_values(name).to_multiset(),
        ) =~= pending.map_values(name).to_multiset());
    }
}

/// Refuse a request for a batch that is not tracked.
pub fn batch_not_found(batch_id: u64) -> (r: Refusal)
    ensures
        r@ == (Status::NotFound, "batch "@ + decimal_text(batch_id as nat) + " not found"@),
{
    Refusal { status: Status::NotFound, error: numbered("batch ", batch_id, " not found") }
}

/// Find where a follower forwards a request: to the leader, if one is known.
pub fn forward_to_leader(leader_url: Option<String>, path: &str) -> (r: Result<String, Refusal>)
    ensures
        match leader_url {
            Some(url) => r matches Ok(at) && at@ == url@ + path@,
            None => refused(
                r,
                Status::ServiceUnavailable,
                "no cluster leader known yet; retry shortly"@,
            ),
        },
{
    match leader_url {
        Some(url) => {
            let mut at: String = url;
            at.append(path);
            Ok(at)
        },
        None => Err(
            refuse(Status::ServiceUnavailable, "no cluster leader known yet; retry shortly"),
        ),
    }
}

} // verus!
