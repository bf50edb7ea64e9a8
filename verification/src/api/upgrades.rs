//! Rolling upgrades and rollbacks of the cluster's binaries.

use vstd::prelude::*;
use vstd::string::*;

use crate::access::{authorize, caller, has_role, AuthContext, Denial};
use crate::api::leases::CouncilWrite;
use crate::api::security::is_blank;
use crate::membership::{is_voter, CouncilView, NodeMembershipInfo};
use crate::ordered_map::OrderedMap;
use crate::policy::ApiRole;
use crate::reply::{refuse, refuse_because, refused, Refusal, Status};
use crate::text::{decimal_text, decimal_wide, trimmed};

verus! {

/// Part that a node plays in the cluster.
#[derive(Debug, Clone, Copy, PartialEq, Eq, Structural)]
pub enum NodeRole {
    /// The council's leader.
    Leader,
    /// Another voter of the council.
    Council,
    /// Any other node.
    Worker,
}

/// Direction of a rolling change of binaries.
#[derive(Debug, Clone, Copy, PartialEq, Eq, Structural)]
pub enum UpgradeDirection {
    /// To a new binary.
    Upgrade,
    /// Back to an old one.
    Rollback,
}

/// What the leader knows of a node.
#[derive(Debug)]
pub struct AuthoritativeNode {
    /// Address of the node's API.
    pub address: String,
    /// Part that it plays.
    pub role: NodeRole,
}

/// The part of a node by its voter identity.
pub open spec fn role_of(raft_id: u64, leader: Option<u64>, voters: Seq<u64>) -> NodeRole {
    if leader == Some(raft_id) {
        NodeRole::Leader
    } else if voters.contains(raft_id) {
        NodeRole::Council
    } else {
        NodeRole::Worker
    }
}

/// Find the part of a node by its voter identity.
pub fn role_from_raft(raft_id: u64, council: &CouncilView) -> (r: NodeRole)
    ensures
        r == role_of(raft_id, council.leader, council.voters@),
{
    match council.leader {
        Some(leader) => if leader == raft_id {
            return NodeRole::Leader;
        },
        None => {},
    }
    if is_voter(&council.voters, raft_id) {
        NodeRole::Council
    } else {
        NodeRole::Worker
    }
}

/// What the leader knows of a list of members, by name; of two members of one
/// name the last counts.
pub open spec fn authoritative_view(
    members: Seq<NodeMembershipInfo>,
    leader: Option<u64>,
    voters: Seq<u64>,
) -> Map<Seq<char>, AuthoritativeNode>
    decreases members.len(),
{
    if members.len() == 0 {
        Map::empty()
    } else {
        let member = members.last();
        authoritative_view(members.drop_last(), leader, voters).insert(
            member.node_id@,
            AuthoritativeNode {
                address: member.address,
                role: role_of(member.raft_id, leader, voters),
            },
        )
    }
}

/// Build the leader's view of every node: its address by gossip, and its part
/// by the council. Requests are held against it.
pub fn build_authoritative_view(
    members: Option<&Vec<NodeMembershipInfo>>,
    council: &CouncilView,
) -> (r: Result<OrderedMap<String, AuthoritativeNode>, Refusal>)
    ensures
        match members {
            None => refused(r, Status::ServiceUnavailable, "no gossip membership on this node"@),
            Some(list) => r is Ok && r->Ok_0.wf() && r->Ok_0@ == authoritative_view(
                list@,
                council.leader,
                council.voters@,
            ),
        },
{
    let list = match members {
        None => {
            return Err(refuse(Status::ServiceUnavailable, "no gossip membership on this node"));
        },
        Some(list) => list,
    };
    let mut view: OrderedMap<String, AuthoritativeNode> = OrderedMap::new();
    let mut i: usize = 0;
    proof {
        assert(list@.take(0) =~= Seq::<NodeMembershipInfo>::empty());
    }
    while i < list.len()
        invariant
            view.wf(),
            members == Some(list),
            i <= list.len(),
            view@ == authoritative_view(list@.take(i as int), council.leader, council.voters@),
        decreases list.len() - i,
    {
        let member = &list[i];
        proof {
            assert(list@.take(i as int + 1).drop_last() =~= list@.take(i as int));
            assert(list@.take(i as int + 1).last() == *member);
        }
        let role = role_from_raft(member.raft_id, council);
        view.insert(
            member.node_id.clone(),
            AuthoritativeNode { address: member.address.clone(), role },
        );
        i = i + 1;
    }
    proof {
        assert(list@.take(list@.len() as int) =~= list@);
    }
    Ok(view)
}

/// A node of an upgrade, with its part.
#[derive(Debug)]
pub struct UpgradeNode {
    /// Name of the node.
    pub node_id: String,
    /// Address of its API.
    pub address: String,
    /// Part that it plays.
    pub role: NodeRole,
}

/// How far an upgrade of the cluster is.
#[derive(Debug, Clone, Copy, PartialEq, Eq, Structural)]
pub enum ClusterUpgradePhase {
    /// No node was touched yet.
    Preparing,
    /// Nodes are being changed.
    Underway,
    /// It waits to be resumed.
    Paused,
}

/// How far a node is in an upgrade.
#[derive(Debug, Clone, Copy, PartialEq, Eq, Structural)]
pub enum NodeUpgradePhase {
    /// Its turn has not come.
    Pending,
    /// Its turn has come.
    Started,
}

/// A node of an upgrade as the council records it.
#[derive(Debug)]
pub struct NodeUpgradeRecord {
    /// Name of the node.
    pub node_id: String,
    /// Address of its API.
    pub address: String,
    /// Part that it plays.
    pub role: NodeRole,
    /// Version that it leaves, once that is known.
    pub from_version: Option<String>,
    /// How far it is.
    pub phase: NodeUpgradePhase,
    /// Since when, in Unix seconds, once it has begun.
    pub since: Option<u64>,
}

/// The record of a node whose turn has not come.
pub open spec fn pending_record(node: UpgradeNode) -> NodeUpgradeRecord {
    NodeUpgradeRecord {
        node_id: node.node_id,
        address: node.address,
        role: node.role,
        from_version: None,
        phase: NodeUpgradePhase::Pending,
        since: None,
    }
}

fn pending_records(nodes: &Vec<UpgradeNode>) -> (r: Vec<NodeUpgradeRecord>)
    ensures
        r@ == nodes@.map_values(|node: UpgradeNode| pending_record(node)),
{
    let mut list: Vec<NodeUpgradeRecord> = Vec::new();
    let mut i: usize = 0;
    while i < nodes.len()
        invariant
            i <= nodes.len(),
            list@.len() == i,
            forall|j: int| 0 <= j < i ==> #[trigger] list@[j] == pending_record(nodes@[j]),
        decreases nodes.len() - i,
    {
        list.push(
            NodeUpgradeRecord {
                node_id: nodes[i].node_id.clone(),
                address: nodes[i].address.clone(),
                role: nodes[i].role,
                from_version: None,
                phase: NodeUpgradePhase::Pending,
                since: None,
            },
        );
        i = i + 1;
    }
    proof {
        assert(list@ =~= nodes@.map_values(|node: UpgradeNode| pending_record(node)));
    }
    list
}

/// A request to start an upgrade.
#[derive(Debug)]
pub struct StartRequest {
    /// Version to reach.
    pub target_version: String,
    /// Digest of the binary.
    pub binary_sha256: String,
    /// Signature in the binary.
    pub embedded_signature: String,
    /// Signature beside the binary.
    pub external_signature: Option<String>,
    /// Nodes at a time.
    pub parallel: u32,
    /// Registry that nodes fetch the binary from.
    pub registry_address: String,
    /// The nodes.
    pub nodes: Vec<UpgradeNode>,
    /// Direction, if it is given.
    pub direction: Option<UpgradeDirection>,
}

/// The plan of a rolling change of binaries, as the council records it.
#[derive(Debug)]
pub struct ClusterUpgrade {
    /// Identifier of the change.
    pub upgrade_id: String,
    /// Version to reach.
    pub target_version: String,
    /// Digest of the binary.
    pub binary_sha256: String,
    /// Signature in the binary.
    pub embedded_signature: String,
    /// Signature beside the binary.
    pub external_signature: Option<String>,
    /// Nodes at a time, at least one.
    pub parallel: u32,
    /// Direction of the change.
    pub direction: UpgradeDirection,
    /// How far the change is.
    pub phase: ClusterUpgradePhase,
    /// Registry that nodes fetch the binary from.
    pub registry_address: String,
    /// The nodes.
    pub nodes: Vec<NodeUpgradeRecord>,
}

/// The identifier of a change that starts at a time, in milliseconds.
pub open spec fn upgrade_id_text(
    kind: Seq<char>,
    version: Seq<char>,
    millis: Option<u128>,
) -> Seq<char> {
    kind + version + "-"@ + decimal_text(
        match millis {
            Some(n) => n as nat,
            None => 0,
        },
    )
}

fn upgrade_id(kind: &str, version: &String, millis: Option<u128>) -> (r: String)
    ensures
        r@ == upgrade_id_text(kind@, version@, millis),
{
    let mut id: String = kind.to_owned();
    id.append(version.as_str());
    id.append("-");
    let now: u128 = match millis {
        Some(n) => n,
        None => 0,
    };
    id.append(decimal_wide(now).as_str());
    id
}

/// Why a start of an upgrade is refused, if it is.
///
/// `nodes` is what came of holding the asked nodes against the leader's view.
pub open spec fn start_refusal(
    auth: Option<AuthContext>,
    council: bool,
    request: Result<StartRequest, String>,
    membership: bool,
    nodes: Result<Vec<NodeUpgradeRecord>, String>,
    active: bool,
) -> Option<(Status, Seq<char>)> {
    if !has_role(auth, ApiRole::Admin) {
        Some((Status::Forbidden, Denial::Role.text()))
    } else if !council {
        Some((Status::ServiceUnavailable, "cluster upgrades need a council (cluster mode)"@))
    } else if request is Err {
        Some((Status::BadRequest, "invalid request: "@ + request->Err_0@))
    } else if request->Ok_0.nodes@.len() == 0 {
        Some((Status::BadRequest, "nodes list must not be empty"@))
    } else if !membership {
        Some((Status::ServiceUnavailable, "no gossip membership on this node"@))
    } else if nodes is Err {
        Some((Status::BadRequest, nodes->Err_0@))
    } else if active {
        Some((Status::Conflict, "an upgrade is already in progress"@))
    } else {
        None
    }
}

/// Whether a plan is the one of a start at a time.
pub open spec fn is_start_plan(
    plan: ClusterUpgrade,
    request: StartRequest,
    nodes: Vec<NodeUpgradeRecord>,
    millis: Option<u128>,
) -> bool {
    &&& plan.upgrade_id@ == upgrade_id_text("up-"@, request.target_version@, millis)
    &&& plan.target_version == request.target_version
    &&& plan.binary_sha256 == request.binary_sha256
    &&& plan.embedded_signature == request.embedded_signature
    &&& plan.external_signature == request.external_signature
    &&& plan.parallel == if request.parallel == 0 {
        1
    } else {
        request.parallel
    }
    &&& plan.direction == (match request.direction {
        Some(direction) => direction,
        None => UpgradeDirection::Upgrade,
    })
    &&& plan.phase == ClusterUpgradePhase::Preparing
    &&& plan.registry_address == request.registry_address
    &&& plan.nodes == nodes
}

/// Decide whether an upgrade starts, and make its plan of the nodes as the
/// leader knows them.
pub fn start_upgrade(
    auth: Option<&AuthContext>,
    council: bool,
    request: Result<StartRequest, String>,
    membership: bool,
    nodes: Result<Vec<NodeUpgradeRecord>, String>,
    active: bool,
    millis: Option<u128>,
) -> (r: Result<ClusterUpgrade, Refusal>)
    ensures
        match start_refusal(caller(auth), council, request, membership, nodes, active) {
            Some((status, error)) => refused(r, status, error),
            None => r is Ok && is_start_plan(r->Ok_0, request->Ok_0, nodes->Ok_0, millis),
        },
{
    match authorize(auth, ApiRole::Admin) {
        Err(denial) => {
            return Err(denial.refusal());
        },
        Ok(()) => {},
    }
    if !council {
        return Err(
            refuse(Status::ServiceUnavailable, "cluster upgrades need a council (cluster mode)"),
        );
    }
    let request = match request {
        Err(error) => {
            return Err(
                refuse_because(Status::BadRequest, "invalid request: ", error.as_str()),
            );
        },
        Ok(request) => request,
    };
    if request.nodes.len() == 0 {
        return Err(refuse(Status::BadRequest, "nodes list must not be empty"));
    }
    if !membership {
        return Err(refuse(Status::ServiceUnavailable, "no gossip membership on this node"));
    }
    let nodes = match nodes {
        Err(error) => {
            return Err(refuse(Status::BadRequest, error.as_str()));
        },
        Ok(nodes) => nodes,
    };
    if active {
        return Err(refuse(Status::Conflict, "an upgrade is already in progress"));
    }
    let id = upgrade_id("up-", &request.target_version, millis);
    let parallel: u32 = if request.parallel == 0 {
        1
    } else {
        request.parallel
    };
    let direction = match request.direction {
        Some(direction) => direction,
        None => UpgradeDirection::Upgrade,
    };
    Ok(
        ClusterUpgrade {
            upgrade_id: id,
            target_version: request.target_version,
            binary_sha256: request.binary_sha256,
            embedded_signature: request.embedded_signature,
            external_signature: request.external_signature,
            parallel,
            direction,
            phase: ClusterUpgradePhase::Preparing,
            registry_address: request.registry_address,
            nodes,
        },
    )
}

/// Answer the write of an upgrade's plan.
pub fn answer_start(write: CouncilWrite) -> (r: Result<(), Refusal>)
    ensures
        match write {
            CouncilWrite::Failed(error) => refused(
                r,
                Status::Conflict,
                "could not record the upgrade (are we the leader?): "@ + error@,
            ),
            _ => r is Ok,
        },
{
    match write {
        CouncilWrite::Failed(error) => Err(
            refuse_because(
                Status::Conflict,
                "could not record the upgrade (are we the leader?): ",
                error.as_str(),
            ),
        ),
        _ => Ok(()),
    }
}

/// A request to roll the cluster back.
#[derive(Debug)]
pub struct RollbackRequest {
    /// Version to go back to.
    pub target_version: String,
    /// The nodes.
    pub nodes: Vec<UpgradeNode>,
}

/// Answer the record of a rollback or of a resumed upgrade.
pub fn answer_update(write: CouncilWrite) -> (r: Result<(), Refusal>)
    ensures
        match write {
            CouncilWrite::Failed(error) => refused(r, Status::Conflict, error@),
            _ => r is Ok,
        },
{
    match write {
        CouncilWrite::Failed(error) => Err(refuse(Status::Conflict, error.as_str())),
        _ => Ok(()),
    }
}

/// Why a rollback of the cluster is refused, if it is.
pub open spec fn rollback_refusal(
    auth: Option<AuthContext>,
    council: bool,
    request: Result<RollbackRequest, String>,
    active: bool,
) -> Option<(Status, Seq<char>)> {
    if !has_role(auth, ApiRole::Admin) {
        Some((Status::Forbidden, Denial::Role.text()))
    } else if !council {
        Some((Status::ServiceUnavailable, "no council on this node"@))
    } else if request is Err {
        Some((Status::BadRequest, "invalid request: "@ + request->Err_0@))
    } else if active {
        Some((Status::Conflict, "an upgrade is already in progress"@))
    } else {
        None
    }
}

/// Decide whether a rollback of the cluster starts, and make its plan. The
/// binaries are on every node already, so there is nothing to fetch or to
/// check.
pub fn start_rollback(
    auth: Option<&AuthContext>,
    council: bool,
    request: Result<RollbackRequest, String>,
    active: bool,
    millis: Option<u128>,
) -> (r: Result<ClusterUpgrade, Refusal>)
    ensures
        match rollback_refusal(caller(auth), council, request, active) {
            Some((status, error)) => refused(r, status, error),
            None => {
                &&& r is Ok
                &&& r->Ok_0.upgrade_id@ == upgrade_id_text(
                    "rollback-"@,
                    request->Ok_0.target_version@,
                    millis,
                )
                &&& r->Ok_0.target_version == request->Ok_0.target_version
                &&& r->Ok_0.binary_sha256@.len() == 0
                &&& r->Ok_0.embedded_signature@.len() == 0
                &&& r->Ok_0.external_signature is None
                &&& r->Ok_0.parallel == 1
                &&& r->Ok_0.direction == UpgradeDirection::Rollback
                &&& r->Ok_0.registry_address@.len() == 0
                &&& r->Ok_0.phase == ClusterUpgradePhase::Preparing
                &&& r->Ok_0.nodes@ == request->Ok_0.nodes@.map_values(
                    |node: UpgradeNode| pending_record(node),
                )
            },
        },
{
    match authorize(auth, ApiRole::Admin) {
        Err(denial) => {
            return Err(denial.refusal());
        },
        Ok(()) => {},
    }
    if !council {
        return Err(refuse(Status::ServiceUnavailable, "no council on this node"));
    }
    let request = match request {
        Err(error) => {
            return Err(
                refuse_because(Status::BadRequest, "invalid request: ", error.as_str()),
            );
        },
        Ok(request) => request,
    };
    if active {
        return Err(refuse(Status::Conflict, "an upgrade is already in progress"));
    }
    let id = upgrade_id("rollback-", &request.target_version, millis);
    let nodes = pending_records(&request.nodes);
    Ok(
        ClusterUpgrade {
            upgrade_id: id,
            target_version: request.target_version,
            binary_sha256: String::new(),
            embedded_signature: String::new(),
            external_signature: None,
            parallel: 1,
            direction: UpgradeDirection::Rollback,
            phase: ClusterUpgradePhase::Preparing,
            registry_address: String::new(),
            nodes,
        },
    )
}

/// State of an upgrade, as far as resuming it asks.
#[derive(Debug, Clone, Copy, PartialEq, Eq, Structural)]
pub enum ActiveUpgrade {
    /// There is none.
    Absent,
    /// It is paused.
    Paused,
    /// It goes on.
    Running,
}

/// Decide whether a paused upgrade is resumed.
pub fn resume_upgrade(
    auth: Option<&AuthContext>,
    council: bool,
    active: ActiveUpgrade,
) -> (r: Result<(), Refusal>)
    ensures
        if !has_role(caller(auth), ApiRole::Admin) {
            refused(r, Status::Forbidden, Denial::Role.text())
        } else if !council {
            refused(r, Status::ServiceUnavailable, "no council on this node"@)
        } else if active is Absent {
            refused(r, Status::NotFound, "no upgrade in progress"@)
        } else if active is Running {
            refused(r, Status::Conflict, "the upgrade is not paused"@)
        } else {
            r is Ok
        },
{
    match authorize(auth, ApiRole::Admin) {
        Err(denial) => {
            return Err(denial.refusal());
        },
        Ok(()) => {},
    }
    if !council {
        return Err(refuse(Status::ServiceUnavailable, "no council on this node"));
    }
    match active {
        ActiveUpgrade::Absent => Err(refuse(Status::NotFound, "no upgrade in progress")),
        ActiveUpgrade::Running => Err(refuse(Status::Conflict, "the upgrade is not paused")),
        ActiveUpgrade::Paused => Ok(()),
    }
}

/// Decide whether an operation that needs a role and the council goes on: an
/// election, or a look at the cluster's upgrade.
pub fn admit_to_council(
    auth: Option<&AuthContext>,
    required: ApiRole,
    council: bool,
) -> (r: Result<(), Refusal>)
    ensures
        if !has_role(caller(auth), required) {
            refused(r, Status::Forbidden, Denial::Role.text())
        } else if !council {
            refused(r, Status::ServiceUnavailable, "no council on this node"@)
        } else {
            r is Ok
        },
{
    match authorize(auth, required) {
        Err(denial) => {
            return Err(denial.refusal());
        },
        Ok(()) => {},
    }
    if !council {
        return Err(refuse(Status::ServiceUnavailable, "no council on this node"));
    }
    Ok(())
}

/// Take the directive of an upgrade of this node alone.
pub fn take_directive<T>(auth: Option<&AuthContext>, parsed: Result<T, String>) -> (r: Result<
    T,
    Refusal,
>)
    ensures
        if !has_role(caller(auth), ApiRole::Admin) {
            refused(r, Status::Forbidden, Denial::Role.text())
        } else {
            match parsed {
                Err(error) => refused(r, Status::BadRequest, "invalid directive: "@ + error@),
                Ok(directive) => r == Ok::<T, Refusal>(directive),
            }
        },
{
    match authorize(auth, ApiRole::Admin) {
        Err(denial) => {
            return Err(denial.refusal());
        },
        Ok(()) => {},
    }
    match parsed {
        Err(error) => Err(
            refuse_because(Status::BadRequest, "invalid directive: ", error.as_str()),
        ),
        Ok(directive) => Ok(directive),
    }
}

/// Take the version that this node alone goes back to. A blank body names
/// none.
///
/// `parsed` is the version that a body names which is not blank.
pub fn take_node_rollback(
    auth: Option<&AuthContext>,
    body: &str,
    parsed: Result<Option<String>, String>,
) -> (r: Result<Option<String>, Refusal>)
    ensures
        if !has_role(caller(auth), ApiRole::Admin) {
            refused(r, Status::Forbidden, Denial::Role.text())
        } else if trimmed(body@).len() == 0 {
            r == Ok::<Option<String>, Refusal>(None)
        } else {
            match parsed {
                Err(error) => refused(r, Status::BadRequest, "invalid request: "@ + error@),
                Ok(version) => r == Ok::<Option<String>, Refusal>(version),
            }
        },
{
    match authorize(auth, ApiRole::Admin) {
        Err(denial) => {
            return Err(denial.refusal());
        },
        Ok(()) => {},
    }
    if is_blank(body) {
        return Ok(None);
    }
    match parsed {
        Err(error) => Err(refuse_because(Status::BadRequest, "invalid request: ", error.as_str())),
        Ok(version) => Ok(version),
    }
}

/// One rolling change runs at a time.
pub proof fn one_change_at_a_time(
    auth: Option<AuthContext>,
    council: bool,
    start: Result<StartRequest, String>,
    membership: bool,
    nodes: Result<Vec<NodeUpgradeRecord>, String>,
    back: Result<RollbackRequest, String>,
)
    ensures
        start_refusal(auth, council, start, membership, nodes, true) is Some,
        rollback_refusal(auth, council, back, true) is Some,
{
}

/// A plan starts with no node touched, and never stands still for want of a
/// node at a time.
pub proof fn plans_start_from_the_beginning(
    plan: ClusterUpgrade,
    request: StartRequest,
    nodes: Vec<NodeUpgradeRecord>,
    millis: Option<u128>,
)
    requires
        is_start_plan(plan, request, nodes, millis),
    ensures
        plan.phase == ClusterUpgradePhase::Preparing,
        plan.nodes == nodes,
        plan.parallel >= 1,
{
}

/// The leader's view names each member with a part that the council gives it.
pub proof fn the_view_names_every_member(
    members: Seq<NodeMembershipInfo>,
    leader: Option<u64>,
    voters: Seq<u64>,
    i: int,
)
    requires
        0 <= i < members.len(),
    ensures
        authoritative_view(members, leader, voters).dom().contains(members[i].node_id@),
    decreases members.len(),
{
    if i < members.len() - 1 {
        the_view_names_every_member(members.drop_last(), leader, voters, i);
    }
}

} // verus!
