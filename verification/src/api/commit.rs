//! Committing a manifest to the council, and reaching its leader.

use vstd::prelude::*;
use vstd::string::*;

use crate::api::leases::CouncilWrite;
use crate::membership::{
    carried, carry, find_member, member_list, member_position, NodeMembershipInfo,
};
use crate::reply::{refuse, refused, ClusterHttp, Refusal, Status};
use crate::text::{decimal, decimal_text, same_text};

verus! {

/// With which credentials a follower forwards a manifest to the leader.
#[derive(Debug, Clone, Copy, PartialEq, Eq, Structural)]
pub enum ForwardCredentials {
    /// With the caller's own, so that the leader repeats every check of a
    /// lease.
    Caller,
    /// With the cluster's service token.
    Service,
    /// With none.
    Anonymous,
}

/// What is done with a manifest that goes through the council.
#[derive(Debug)]
pub enum ClusterRoute {
    /// The leader at this URL gets it.
    Forward {
        /// Where it goes.
        url: String,
        /// With which credentials.
        credentials: ForwardCredentials,
    },
    /// It is committed here.
    Commit,
}

/// Decide what is done with a manifest that goes through the council.
///
/// `validity` is what validation against the known namespaces says, which a
/// follower leaves to the leader.
pub fn cluster_apply(
    is_leader: bool,
    leader_url: Option<String>,
    leased: bool,
    service_token: bool,
    validity: &Result<(), String>,
) -> (r: Result<ClusterRoute, Refusal>)
    ensures
        if !is_leader {
            match leader_url {
                None => refused(
                    r,
                    Status::ServiceUnavailable,
                    "no cluster leader known yet; retry shortly"@,
                ),
                Some(url) => r matches Ok(ClusterRoute::Forward { url: at, credentials })
                    && at@ == url@ + "/v1/apply"@ && credentials == if leased {
                    ForwardCredentials::Caller
                } else if service_token {
                    ForwardCredentials::Service
                } else {
                    ForwardCredentials::Anonymous
                },
            }
        } else {
            match *validity {
                Err(error) => refused(r, Status::BadRequest, error@),
                Ok(()) => r matches Ok(ClusterRoute::Commit),
            }
        },
{
    if !is_leader {
        return match leader_url {
            None => Err(
                refuse(Status::ServiceUnavailable, "no cluster leader known yet; retry shortly"),
            ),
            Some(url) => {
                let mut at: String = url;
                at.append("/v1/apply");
                let credentials = if leased {
                    ForwardCredentials::Caller
                } else if service_token {
                    ForwardCredentials::Service
                } else {
                    ForwardCredentials::Anonymous
                };
                Ok(ClusterRoute::Forward { url: at, credentials })
            },
        };
    }
    match validity {
        Err(error) => Err(refuse(Status::BadRequest, error.as_str())),
        Ok(()) => Ok(ClusterRoute::Commit),
    }
}

/// A write to the council, of which progress tells its name.
#[derive(Debug)]
pub enum PlannedWrite {
    /// An app.
    App(String),
    /// A namespace.
    Namespace(String),
    /// A permission.
    Permission(String),
    /// An app under a lease.
    LeasedApp(String),
    /// A namespace under a lease.
    LeasedNamespace(String),
    /// Anything else.
    Other,
}

/// A short label for a write.
pub open spec fn write_label(write: PlannedWrite) -> Seq<char> {
    match write {
        PlannedWrite::App(name) => "app "@ + name@,
        PlannedWrite::Namespace(name) => "namespace "@ + name@,
        PlannedWrite::Permission(name) => "permission "@ + name@,
        PlannedWrite::LeasedApp(name) => "leased app "@ + name@,
        PlannedWrite::LeasedNamespace(name) => "leased namespace "@ + name@,
        PlannedWrite::Other => "resource"@,
    }
}

fn labelled(label: &str, name: &String) -> (r: String)
    ensures
        r@ == label@ + name@,
{
    let mut out: String = label.to_owned();
    out.append(name.as_str());
    out
}

/// A short label for a write, for a progress message.
pub fn describe_write(write: &PlannedWrite) -> (r: String)
    ensures
        r@ == write_label(*write),
{
    match write {
        PlannedWrite::App(name) => labelled("app ", name),
        PlannedWrite::Namespace(name) => labelled("namespace ", name),
        PlannedWrite::Permission(name) => labelled("permission ", name),
        PlannedWrite::LeasedApp(name) => labelled("leased app ", name),
        PlannedWrite::LeasedNamespace(name) => labelled("leased namespace ", name),
        PlannedWrite::Other => "resource".to_owned(),
    }
}

/// An event of a deployment.
#[derive(Debug)]
pub enum ApplyEvent {
    /// Something was done.
    Progress(String),
    /// It is over, and failed.
    Error(String),
    /// It is over; how much was created.
    Complete(usize),
}

/// An event as its facts.
pub ghost enum Told {
    /// Something was done.
    Progress(Seq<char>),
    /// It failed.
    Error(Seq<char>),
    /// It is complete.
    Complete(nat),
}

impl View for ApplyEvent {
    type V = Told;

    open spec fn view(&self) -> Told {
        match *self {
            ApplyEvent::Progress(message) => Told::Progress(message@),
            ApplyEvent::Error(message) => Told::Error(message@),
            ApplyEvent::Complete(created) => Told::Complete(created as nat),
        }
    }
}

/// The event that the outcome of a write gives.
pub open spec fn write_event(write: PlannedWrite, outcome: CouncilWrite) -> Told {
    match outcome {
        CouncilWrite::Committed => Told::Progress(
            write_label(write) + ": committed to the cluster"@,
        ),
        CouncilWrite::Refused(reason) => Told::Error(
            write_label(write) + ": refused by the cluster: "@ + reason@,
        ),
        CouncilWrite::Failed(error) => Told::Error(
            write_label(write) + ": raft write failed: "@ + error@,
        ),
    }
}

/// A commit of a manifest's writes in progress. The first write that is not
/// committed stops it.
#[derive(Debug)]
pub struct CommitRun {
    /// Writes that were committed.
    pub committed: usize,
    /// Whether a write was not committed.
    pub stopped: bool,
}

impl CommitRun {
    /// A commit that is to begin.
    pub fn new() -> (r: Self)
        ensures
            r.committed == 0,
            !r.stopped,
    {
        CommitRun { committed: 0, stopped: false }
    }

    /// Begin a commit of planned writes. A manifest that cannot be planned
    /// stops it before the first write, and is told why.
    pub fn begin(refusal: Option<String>) -> (r: (Self, Option<ApplyEvent>))
        ensures
            r.0.committed == 0,
            r.0.stopped == refusal is Some,
            match refusal {
                None => r.1 is None,
                Some(error) => r.1 is Some && r.1->0@ == Told::Error(error@),
            },
    {
        match refusal {
            None => (CommitRun::new(), None),
            Some(error) => (
                CommitRun { committed: 0, stopped: true },
                Some(ApplyEvent::Error(error)),
            ),
        }
    }

    /// Record the outcome of the next write, and tell of it.
    pub fn record(&mut self, write: &PlannedWrite, outcome: CouncilWrite) -> (r: ApplyEvent)
        requires
            !old(self).stopped,
            old(self).committed < usize::MAX,
        ensures
            r@ == write_event(*write, outcome),
            final(self).stopped == !(outcome is Committed),
            final(self).committed == old(self).committed + if outcome is Committed {
                1int
            } else {
                0
            },
    {
        let mut message: String = describe_write(write);
        match outcome {
            CouncilWrite::Committed => {
                self.committed = self.committed + 1;
                message.append(": committed to the cluster");
                ApplyEvent::Progress(message)
            },
            CouncilWrite::Refused(reason) => {
                self.stopped = true;
                message.append(": refused by the cluster: ");
                message.append(reason.as_str());
                ApplyEvent::Error(message)
            },
            CouncilWrite::Failed(error) => {
                self.stopped = true;
                message.append(": raft write failed: ");
                message.append(error.as_str());
                ApplyEvent::Error(message)
            },
        }
    }

    /// Tell the end of a commit whose writes are all in: jobs deploy on this
    /// node, and without any the manifest is complete.
    pub fn finish(&self, jobs: usize) -> (r: ApplyEvent)
        requires
            !self.stopped,
        ensures
            r@ == if jobs > 0 {
                Told::Progress(
                    decimal_text(jobs as nat)
                        + " job(s) deploying on this node (jobs are not cluster-scheduled yet)"@,
                )
            } else {
                Told::Complete(self.committed as nat)
            },
    {
        if jobs > 0 {
            let mut message: String = decimal(jobs as u64);
            message.append(
                " job(s) deploying on this node (jobs are not cluster-scheduled yet)",
            );
            ApplyEvent::Progress(message)
        } else {
            ApplyEvent::Complete(self.committed)
        }
    }
}

/// The events of a commit, given what becomes of each write: one for each
/// write up to the first that is not committed.
pub open spec fn commit_events(
    writes: Seq<PlannedWrite>,
    outcomes: Seq<CouncilWrite>,
) -> Seq<Told>
    decreases writes.len(),
{
    if writes.len() == 0 {
        Seq::empty()
    } else if outcomes[0] is Committed {
        seq![write_event(writes[0], outcomes[0])] + commit_events(writes.skip(1), outcomes.skip(1))
    } else {
        seq![write_event(writes[0], outcomes[0])]
    }
}

/// A commit tells of every write exactly up to its first failure: all of its
/// events but the last are progress, and it ends with an error unless every
/// write was committed.
pub proof fn a_commit_stops_at_its_first_failure(
    writes: Seq<PlannedWrite>,
    outcomes: Seq<CouncilWrite>,
)
    requires
        outcomes.len() == writes.len(),
    ensures
        ({
            let events = commit_events(writes, outcomes);
            &&& events.len() <= writes.len()
            &&& forall|i: int| 0 <= i < events.len() - 1 ==> (#[trigger] events[i]) is Progress
            &&& forall|i: int|
                0 <= i < events.len() ==> #[trigger] events[i] == write_event(
                    writes[i],
                    outcomes[i],
                )
            &&& (forall|i: int| 0 <= i < writes.len() ==> (#[trigger] outcomes[i]) is Committed)
                <==> events.len() == writes.len() && (events.len() == 0 || events.last()
                is Progress)
        }),
    decreases writes.len(),
{
    let events = commit_events(writes, outcomes);
    if writes.len() > 0 {
        if outcomes[0] is Committed {
            let rest = commit_events(writes.skip(1), outcomes.skip(1));
            a_commit_stops_at_its_first_failure(writes.skip(1), outcomes.skip(1));
            assert(events =~= seq![write_event(writes[0], outcomes[0])] + rest);
            assert forall|i: int| 0 <= i < events.len() - 1 implies (#[trigger] events[i])
                is Progress by {
                if i > 0 {
                    assert(events[i] == rest[i - 1]);
                }
            }
            assert forall|i: int| 0 <= i < events.len() implies #[trigger] events[i]
                == write_event(writes[i], outcomes[i]) by {
                if i > 0 {
                    assert(events[i] == rest[i - 1]);
                }
            }
            if forall|i: int| 0 <= i < writes.len() ==> (#[trigger] outcomes[i]) is Committed {
                assert forall|i: int| 0 <= i < writes.skip(1).len() implies (
                #[trigger] outcomes.skip(1)[i]) is Committed by {
                    assert(outcomes[i + 1] is Committed);
                }
                if rest.len() > 0 {
                    assert(events.last() == rest.last());
                }
            }
            if events.len() == writes.len() && (events.len() == 0 || events.last() is Progress) {
                if rest.len() > 0 {
                    assert(events.last() == rest.last());
                }
                assert forall|i: int| 0 <= i < writes.len() implies (#[trigger] outcomes[i])
                    is Committed by {
                    if i > 0 {
                        assert(outcomes.skip(1)[i - 1] is Committed);
                    }
                }
            }
        } else {
            assert(events[0] is Error);
        }
    }
}

/// The leader that the council names.
#[derive(Debug)]
pub struct CouncilLeader {
    /// Its name.
    pub name: String,
    /// Its host on the council's network.
    pub host: String,
}

/// The URL of the leader: by its address as a member, or by its host on the
/// council's network and this node's own API port.
pub open spec fn leader_url_text(
    leader: CouncilLeader,
    members: Option<Seq<NodeMembershipInfo>>,
    http: ClusterHttp,
    api_port: u16,
) -> Seq<char> {
    match members {
        Some(list) if member_position(list, leader.name@) is Some => http.url_text(
            list[member_position(list, leader.name@)->0].address@,
            ""@,
        ),
        _ => http.url_text(leader.host@ + ":"@ + decimal_text(api_port as nat), ""@),
    }
}

/// Find the URL of the current leader's API, if a leader is known.
pub fn leader_api_url(
    leader: Option<&CouncilLeader>,
    members: Option<&Vec<NodeMembershipInfo>>,
    http: &ClusterHttp,
    api_port: u16,
) -> (r: Option<String>)
    ensures
        match leader {
            None => r is None,
            Some(leader) => r matches Some(url) && url@ == leader_url_text(
                *leader,
                member_list(members),
                *http,
                api_port,
            ),
        },
{
    let leader = match leader {
        None => {
            return None;
        },
        Some(leader) => leader,
    };
    match members {
        Some(list) => match find_member(list, leader.name.as_str()) {
            Some(at) => {
                return Some(http.url(list[at].address.as_str(), ""));
            },
            None => {},
        },
        None => {},
    }
    let mut address: String = leader.host.clone();
    address.append(":");
    address.append(decimal(api_port as u64).as_str());
    Some(http.url(address.as_str(), ""))
}

/// What came of handing an event to a client.
#[derive(Debug, Clone, Copy, PartialEq, Eq, Structural)]
pub enum Handed {
    /// The client has it.
    Taken,
    /// The client is slow.
    Full,
    /// The client is gone.
    Closed,
}

/// What is done after an event was handed to a client.
#[derive(Debug, Clone, Copy, PartialEq, Eq, Structural)]
pub struct RelayStep {
    /// Whether the lease is let go, so that cleanup may proceed.
    pub release: bool,
    /// Whether the event is handed over again, waiting for the client.
    pub wait: bool,
}

/// Decide what is done after an event of a leased deployment was handed to the
/// client. The end of a deployment is never dropped and lets the lease go;
/// progress may be dropped under pressure. A lease whose client has gone is
/// kept until the agent has finished.
pub fn relay_step(terminal: bool, handed: Handed) -> (r: RelayStep)
    ensures
        r.release == (terminal && handed != Handed::Closed),
        r.wait == (terminal && handed == Handed::Full),
{
    match handed {
        Handed::Taken => RelayStep { release: terminal, wait: false },
        Handed::Full => RelayStep { release: terminal, wait: terminal },
        Handed::Closed => RelayStep { release: false, wait: false },
    }
}

/// An app and the nodes that it is placed on.
#[derive(Debug)]
pub struct ScheduledApp {
    /// Name of the app.
    pub name: String,
    /// Namespace of the app.
    pub namespace: String,
    /// The node of each placement.
    pub nodes: Vec<String>,
    /// Whether the app's specification is still there.
    pub has_spec: bool,
}

/// A node's share of an app.
#[derive(Debug)]
pub struct NodeAssignment {
    /// Name of the app.
    pub name: String,
    /// Namespace of the app.
    pub namespace: String,
    /// Replicas on the node.
    pub replicas: u32,
}

/// How many placements are on a node.
pub open spec fn placed_on(nodes: Seq<String>, node: Seq<char>) -> nat
    decreases nodes.len(),
{
    if nodes.len() == 0 {
        0
    } else {
        placed_on(nodes.drop_last(), node) + if nodes.last()@ == node {
            1nat
        } else {
            0
        }
    }
}

pub(crate) proof fn placed_on_bounded(nodes: Seq<String>, node: Seq<char>)
    ensures
        placed_on(nodes, node) <= nodes.len(),
    decreases nodes.len(),
{
    if nodes.len() > 0 {
        placed_on_bounded(nodes.drop_last(), node);
    }
}

/// Count the placements on a node.
pub fn count_placements(nodes: &Vec<String>, node: &str) -> (r: usize)
    ensures
        r == placed_on(nodes@, node@),
{
    let mut count: usize = 0;
    let mut i: usize = 0;
    proof {
        assert(nodes@.take(0) =~= Seq::<String>::empty());
    }
    while i < nodes.len()
        invariant
            i <= nodes.len(),
            count <= i,
            count == placed_on(nodes@.take(i as int), node@),
        decreases nodes.len() - i,
    {
        proof {
            assert(nodes@.take(i as int + 1).drop_last() =~= nodes@.take(i as int));
            assert(nodes@.take(i as int + 1).last() == nodes@[i as int]);
        }
        if same_text(nodes[i].as_str(), node) {
            count = count + 1;
        }
        i = i + 1;
    }
    proof {
        assert(nodes@.take(nodes@.len() as int) =~= nodes@);
    }
    count
}

/// The assignments of a node: each app that is placed on it and whose
/// specification is still there, in order.
pub open spec fn assignments_of(apps: Seq<ScheduledApp>, node: Seq<char>) -> Seq<NodeAssignment>
    decreases apps.len(),
{
    if apps.len() == 0 {
        Seq::empty()
    } else {
        let before = assignments_of(apps.drop_last(), node);
        let app = apps.last();
        let replicas = carried(placed_on(app.nodes@, node));
        if replicas == 0 || !app.has_spec {
            before
        } else {
            before.push(NodeAssignment { name: app.name, namespace: app.namespace, replicas })
        }
    }
}

/// List the apps, with their replicas, that are assigned to a node.
pub fn placements(apps: &Vec<ScheduledApp>, node: &str) -> (r: Vec<NodeAssignment>)
    ensures
        r@ == assignments_of(apps@, node@),
{
    let mut list: Vec<NodeAssignment> = Vec::new();
    let mut i: usize = 0;
    proof {
        assert(apps@.take(0) =~= Seq::<ScheduledApp>::empty());
    }
    while i < apps.len()
        invariant
            i <= apps.len(),
            list@ == assignments_of(apps@.take(i as int), node@),
        decreases apps.len() - i,
    {
        let app = &apps[i];
        proof {
            assert(apps@.take(i as int + 1).drop_last() =~= apps@.take(i as int));
            assert(apps@.take(i as int + 1).last() == *app);
        }
        let replicas: u32 = carry(count_placements(&app.nodes, node));
        if replicas != 0 && app.has_spec {
            list.push(
                NodeAssignment {
                    name: app.name.clone(),
                    namespace: app.namespace.clone(),
                    replicas,
                },
            );
        }
        i = i + 1;
    }
    proof {
        assert(apps@.take(apps@.len() as int) =~= apps@);
    }
    list
}

/// Answer a question for the assignments of a node, which only a cluster has.
pub fn answer_placements(apps: Option<&Vec<ScheduledApp>>, node: &str) -> (r: Result<
    Vec<NodeAssignment>,
    Refusal,
>)
    ensures
        match apps {
            None => refused(r, Status::ServiceUnavailable, "not running in cluster mode"@),
            Some(apps) => r is Ok && r->Ok_0@ == assignments_of(apps@, node@),
        },
{
    match apps {
        None => Err(refuse(Status::ServiceUnavailable, "not running in cluster mode")),
        Some(apps) => Ok(placements(apps, node)),
    }
}

/// The replicas that a list of assignments stands for.
pub open spec fn total_replicas(assignments: Seq<NodeAssignment>) -> nat
    decreases assignments.len(),
{
    if assignments.len() == 0 {
        0
    } else {
        total_replicas(assignments.drop_last()) + assignments.last().replicas as nat
    }
}

/// The placements on a node of the apps whose specification is still there.
pub open spec fn live_placements(apps: Seq<ScheduledApp>, node: Seq<char>) -> nat
    decreases apps.len(),
{
    if apps.len() == 0 {
        0
    } else {
        live_placements(apps.drop_last(), node) + if apps.last().has_spec {
            placed_on(apps.last().nodes@, node)
        } else {
            0
        }
    }
}

/// A node is assigned exactly the replicas that are placed on it.
pub proof fn every_placement_is_assigned(apps: Seq<ScheduledApp>, node: Seq<char>)
    requires
        forall|i: int| 0 <= i < apps.len() ==> (#[trigger] apps[i]).nodes@.len() <= u32::MAX,
    ensures
        total_replicas(assignments_of(apps, node)) == live_placements(apps, node),
    decreases apps.len(),
{
    if apps.len() > 0 {
        let rest = apps.drop_last();
        assert forall|i: int| 0 <= i < rest.len() implies (#[trigger] rest[i]).nodes@.len()
            <= u32::MAX by {
            assert(rest[i] == apps[i]);
        }
        every_placement_is_assigned(rest, node);
        let app = apps.last();
        assert(apps[apps.len() - 1].nodes@.len() <= u32::MAX);
        placed_on_bounded(app.nodes@, node);
        if placed_on(app.nodes@, node) != 0 && app.has_spec {
            let before = assignments_of(rest, node);
            let added = NodeAssignment {
                name: app.name,
                namespace: app.namespace,
                replicas: carried(placed_on(app.nodes@, node)),
            };
            assert(before.push(added).drop_last() =~= before);
        }
    }
}

} // verus!
