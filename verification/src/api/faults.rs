//! Injecting and clearing faults.

use vstd::prelude::*;
use vstd::string::*;

use crate::access::{
    authorize_scoped, authorize_user, caller, has_role, is_unconfined, may_touch, require_unscoped,
    AuthContext, Denial,
};
use crate::membership::{
    carried, carry, count_unavailable_voters, count_voters, find_member, member_list,
    member_position, voter_ids, CouncilView, NodeMembershipInfo,
};
use crate::policy::{ApiRole, OperationPermission};
use crate::reply::{refuse, refused, ClusterHttp, Refusal, Status};
use crate::text::{borrowed_text, optional_text, same_text, sandwich};

verus! {

/// A fault that is asked for.
#[derive(Debug)]
pub struct FaultRequest {
    /// Whether it acts on a node rather than on a workload.
    pub node_targeted: bool,
    /// Whether it puts a node under pressure.
    pub pressure: bool,
    /// Node that it acts on.
    pub target_node: Option<String>,
    /// Service that it acts on.
    pub target_service: String,
    /// Namespace of the service.
    pub namespace: Option<String>,
    /// Whether the caller acknowledged it.
    pub acknowledged: bool,
    /// Who injects it.
    pub injected_by: String,
}

/// The name of a caller without authentication.
pub open spec fn bootstrap_name() -> Seq<char> {
    "local-bootstrap"@
}

/// The class of operations that a fault belongs to.
pub open spec fn fault_class(request: FaultRequest) -> OperationPermission {
    if !request.node_targeted {
        OperationPermission::InjectWorkloadFaults
    } else if request.pressure {
        OperationPermission::SaturateCapacity
    } else {
        OperationPermission::AlterNodeState
    }
}

/// Find the class of operations that a fault belongs to.
pub fn fault_operation(request: &FaultRequest) -> (r: OperationPermission)
    ensures
        r == fault_class(*request),
{
    if !request.node_targeted {
        OperationPermission::InjectWorkloadFaults
    } else if request.pressure {
        OperationPermission::SaturateCapacity
    } else {
        OperationPermission::AlterNodeState
    }
}

/// The caller as policy sees it: its credential and role, or the local
/// bootstrap with full authority.
pub fn policy_principal(auth: Option<&AuthContext>) -> (r: (String, ApiRole))
    ensures
        match auth {
            Some(context) => r.0 == context.principal_id && r.1 == context.role,
            None => r.0@ == bootstrap_name() && r.1 == ApiRole::Admin,
        },
{
    match auth {
        Some(context) => (context.principal_id.clone(), context.role),
        None => ("local-bootstrap".to_owned(), ApiRole::Admin),
    }
}

/// Where a fault goes.
#[derive(Debug)]
pub enum FaultRoute {
    /// It is applied here.
    Apply,
    /// It is sent to this node.
    Forward(String),
}

/// The node that a request names, unless it is empty.
pub open spec fn named_node(node: Option<String>) -> Option<Seq<char>> {
    match node {
        Some(name) if name@.len() > 0 => Some(name@),
        _ => None,
    }
}

/// The namespace of a workload fault.
pub open spec fn fault_namespace(request: FaultRequest) -> Seq<char> {
    match request.namespace {
        Some(namespace) => namespace@,
        None => "default"@,
    }
}

/// Why a fault is refused, if it is.
///
/// `policy` is what the server's policy says of the fault's class, and
/// `safety` what the cluster's state says of a fault on a node.
pub open spec fn fault_refusal(
    auth: Option<AuthContext>,
    request: FaultRequest,
    policy: Result<(), String>,
    safety: Result<(), Refusal>,
    self_name: Option<Seq<char>>,
) -> Option<(Status, Seq<char>)> {
    if auth is Some && auth->0.system {
        Some((Status::Forbidden, Denial::ServicePrincipal.text()))
    } else if !has_role(auth, ApiRole::Deployer) {
        Some((Status::Forbidden, Denial::Role.text()))
    } else if request.node_targeted {
        if auth is None {
            Some((Status::Unauthorized, "authentication required"@))
        } else if policy is Err {
            Some((Status::Forbidden, policy->Err_0@))
        } else if named_node(request.target_node) is None {
            Some((Status::BadRequest, "node-targeted faults require target_node"@))
        } else if safety is Err {
            Some(safety->Err_0@)
        } else if self_name is None {
            Some(
                (
                    Status::BadRequest,
                    "this node has no cluster identity; cannot route node-targeted faults"@,
                ),
            )
        } else {
            None
        }
    } else if !may_touch(auth, request.target_service@, fault_namespace(request)) {
        Some((Status::Forbidden, Denial::Scope.text()))
    } else if policy is Err {
        Some((Status::Forbidden, policy->Err_0@))
    } else {
        None
    }
}

/// Decide whether a fault is admitted and where it goes.
///
/// A fault that is applied here carries the caller's authenticated name, never
/// the one of the request, and a workload fault its namespace. A fault for
/// another node is sent on as it came.
pub fn admit_fault(
    auth: Option<&AuthContext>,
    request: &mut FaultRequest,
    policy: &Result<(), String>,
    safety: Result<(), Refusal>,
    self_name: Option<&str>,
) -> (r: Result<FaultRoute, Refusal>)
    ensures
        final(request).node_targeted == old(request).node_targeted,
        final(request).pressure == old(request).pressure,
        final(request).target_node == old(request).target_node,
        final(request).target_service == old(request).target_service,
        final(request).acknowledged == old(request).acknowledged,
        match fault_refusal(
            caller(auth),
            *old(request),
            *policy,
            safety,
            borrowed_text(self_name),
        ) {
            Some((status, error)) => refused(r, status, error) && *final(request) == *old(request),
            None => if old(request).node_targeted && old(request).target_node->0@
                != self_name->0@ {
                &&& r matches Ok(FaultRoute::Forward(node)) && node == old(request).target_node->0
                &&& *final(request) == *old(request)
            } else {
                &&& r matches Ok(FaultRoute::Apply)
                &&& final(request).injected_by@ == injector_name(caller(auth))
                &&& if old(request).node_targeted {
                    final(request).namespace == old(request).namespace
                } else {
                    optional_text(final(request).namespace) == Some(
                        fault_namespace(*old(request)),
                    )
                }
            },
        },
{
    match authorize_user(auth, ApiRole::Deployer) {
        Err(denial) => {
            return Err(denial.refusal());
        },
        Ok(()) => {},
    }
    if request.node_targeted {
        if auth.is_none() {
            return Err(refuse(Status::Unauthorized, "authentication required"));
        }
        match policy {
            Err(error) => {
                return Err(refuse(Status::Forbidden, error.as_str()));
            },
            Ok(()) => {},
        }
        let target: String = match &request.target_node {
            Some(node) => {
                if node.as_str().is_empty() {
                    return Err(
                        refuse(Status::BadRequest, "node-targeted faults require target_node"),
                    );
                }
                node.clone()
            },
            None => {
                return Err(
                    refuse(Status::BadRequest, "node-targeted faults require target_node"),
                );
            },
        };
        match safety {
            Err(refusal) => {
                return Err(refusal);
            },
            Ok(()) => {},
        }
        match self_name {
            None => {
                return Err(
                    refuse(
                        Status::BadRequest,
                        "this node has no cluster identity; cannot route node-targeted faults",
                    ),
                );
            },
            Some(name) => {
                if !same_text(name, target.as_str()) {
                    return Ok(FaultRoute::Forward(target));
                }
            },
        }
    } else {
        let namespace: String = match &request.namespace {
            Some(namespace) => namespace.clone(),
            None => "default".to_owned(),
        };
        match authorize_scoped(auth, request.target_service.as_str(), namespace.as_str()) {
            Err(denial) => {
                return Err(denial.refusal());
            },
            Ok(()) => {},
        }
        match policy {
            Err(error) => {
                return Err(refuse(Status::Forbidden, error.as_str()));
            },
            Ok(()) => {},
        }
        request.namespace = Some(namespace);
    }
    request.injected_by = injector(auth);
    Ok(FaultRoute::Apply)
}

/// What the council and the members show of the cluster's health.
#[derive(Debug)]
pub struct SafetyContext {
    /// Voters of the council.
    pub council_size: u32,
    /// Voters that no live member accounts for.
    pub council_nodes_with_active_faults: u32,
    /// Name of the leader.
    pub leader_node_id: String,
    /// Known nodes.
    pub total_nodes: u32,
    /// Nodes that are out of action.
    pub nodes_with_active_faults: u32,
    /// Replicas of the service that the fault is for: none, since it is for a
    /// node.
    pub target_service_replicas: u32,
    /// Replicas of that service with a fault.
    pub target_service_faulted_replicas: u32,
}

/// The first member with a voter identity, if there is one.
pub open spec fn voter_position(members: Seq<NodeMembershipInfo>, id: u64) -> Option<int>
    decreases members.len(),
{
    if members.len() == 0 {
        None
    } else {
        match voter_position(members.drop_last(), id) {
            Some(at) => Some(at),
            None => if members.last().raft_id == id {
                Some(members.len() - 1)
            } else {
                None
            },
        }
    }
}

fn find_voter(members: &Vec<NodeMembershipInfo>, id: u64) -> (r: Option<usize>)
    ensures
        (match r {
            Some(at) => Some(at as int),
            None => None,
        }) == voter_position(members@, id),
        r is Some ==> r->0 < members@.len(),
{
    let mut i: usize = 0;
    proof {
        assert(members@.take(0) =~= Seq::<NodeMembershipInfo>::empty());
    }
    while i < members.len()
        invariant
            i <= members.len(),
            voter_position(members@.take(i as int), id) is None,
        decreases members.len() - i,
    {
        proof {
            assert(members@.take(i as int + 1).drop_last() =~= members@.take(i as int));
            assert(members@.take(i as int + 1).last() == members@[i as int]);
        }
        if members[i].raft_id == id {
            proof {
                voter_position_stays(members@, id, i as int + 1);
            }
            return Some(i);
        }
        i = i + 1;
    }
    proof {
        assert(members@.take(members@.len() as int) =~= members@);
    }
    None
}

proof fn voter_position_stays(members: Seq<NodeMembershipInfo>, id: u64, i: int)
    requires
        0 <= i <= members.len(),
        voter_position(members.take(i), id) is Some,
    ensures
        voter_position(members, id) == voter_position(members.take(i), id),
    decreases members.len() - i,
{
    if i < members.len() {
        assert(members.take(i + 1).drop_last() =~= members.take(i));
        voter_position_stays(members, id, i + 1);
    } else {
        assert(members.take(i) =~= members);
    }
}

/// Why a node fault has no evidence to be judged by, if it has none.
pub open spec fn evidence_refusal(
    council: Option<CouncilView>,
    members: Option<Seq<NodeMembershipInfo>>,
) -> Option<(Status, Seq<char>)> {
    if council is None {
        Some(
            (Status::ServiceUnavailable, "node fault safety requires live council evidence"@),
        )
    } else if council->0.voters@.len() == 0 {
        Some(
            (Status::ServiceUnavailable, "node fault safety requires a known council membership"@),
        )
    } else if members is None {
        Some(
            (Status::ServiceUnavailable, "node fault safety requires live membership evidence"@),
        )
    } else if council->0.leader is None {
        Some(
            (Status::ServiceUnavailable, "node fault safety requires a known council leader"@),
        )
    } else if voter_position(members->0, council->0.leader->0) is None {
        Some(
            (
                Status::ServiceUnavailable,
                "node fault safety cannot map the council leader to live membership"@,
            ),
        )
    } else {
        None
    }
}

/// The council by value, if there is one.
pub open spec fn council_by_value(council: Option<&CouncilView>) -> Option<CouncilView> {
    match council {
        Some(council) => Some(*council),
        None => None,
    }
}

/// Gather the evidence that a node fault is judged by, from live state: a
/// voter that no live member accounts for is out of action, so that a request
/// to another node cannot exceed the quorum unseen.
pub fn check_node_fault_cluster_safety(
    council: Option<&CouncilView>,
    members: Option<&Vec<NodeMembershipInfo>>,
) -> (r: Result<SafetyContext, Refusal>)
    ensures
        match evidence_refusal(
            council_by_value(council),
            member_list(members),
        ) {
            Some((status, error)) => refused(r, status, error),
            None => {
                let voters = council->0.voters@.to_set();
                let list = members->0@;
                let out = voters.difference(voter_ids(list)).len();
                &&& r is Ok
                &&& r->Ok_0.council_size == carried(voters.len())
                &&& r->Ok_0.council_nodes_with_active_faults == carried(out)
                &&& r->Ok_0.leader_node_id == list[voter_position(
                    list,
                    council->0.leader->0,
                )->0].node_id
                &&& r->Ok_0.total_nodes == carried(
                    if list.len() > voters.len() {
                        list.len()
                    } else {
                        voters.len()
                    },
                )
                &&& r->Ok_0.nodes_with_active_faults == carried(out)
                &&& r->Ok_0.target_service_replicas == 0
                &&& r->Ok_0.target_service_faulted_replicas == 0
            },
        },
{
    let council = match council {
        None => {
            return Err(
                refuse(
                    Status::ServiceUnavailable,
                    "node fault safety requires live council evidence",
                ),
            );
        },
        Some(council) => council,
    };
    if council.voters.len() == 0 {
        return Err(
            refuse(
                Status::ServiceUnavailable,
                "node fault safety requires a known council membership",
            ),
        );
    }
    let members = match members {
        None => {
            return Err(
                refuse(
                    Status::ServiceUnavailable,
                    "node fault safety requires live membership evidence",
                ),
            );
        },
        Some(members) => members,
    };
    let unavailable: usize = count_unavailable_voters(council, members);
    let leader: u64 = match council.leader {
        None => {
            return Err(
                refuse(
                    Status::ServiceUnavailable,
                    "node fault safety requires a known council leader",
                ),
            );
        },
        Some(leader) => leader,
    };
    let at: usize = match find_voter(members, leader) {
        None => {
            return Err(
                refuse(
                    Status::ServiceUnavailable,
                    "node fault safety cannot map the council leader to live membership",
                ),
            );
        },
        Some(at) => at,
    };
    let size: usize = count_voters(council);
    let total: usize = if members.len() > size {
        members.len()
    } else {
        size
    };
    Ok(
        SafetyContext {
            council_size: carry(size),
            council_nodes_with_active_faults: carry(unavailable),
            leader_node_id: members[at].node_id.clone(),
            total_nodes: carry(total),
            nodes_with_active_faults: carry(unavailable),
            target_service_replicas: 0,
            target_service_faulted_replicas: 0,
        },
    )
}

/// Answer what the safety rules say of a node fault.
pub fn answer_safety(approved: bool, violation: Option<String>) -> (r: Result<(), Refusal>)
    ensures
        if approved {
            r is Ok
        } else {
            refused(
                r,
                Status::BadRequest,
                match violation {
                    Some(reason) => reason@,
                    None => "node fault safety check failed"@,
                },
            )
        },
{
    if approved {
        return Ok(());
    }
    match violation {
        Some(reason) => Err(refuse(Status::BadRequest, reason.as_str())),
        None => Err(refuse(Status::BadRequest, "node fault safety check failed")),
    }
}

/// Find where a live member takes an operation on itself.
pub fn target_node_api_url(
    members: Option<&Vec<NodeMembershipInfo>>,
    target_node: &str,
    path: &str,
    http: &ClusterHttp,
) -> (r: Result<String, Refusal>)
    ensures
        match members {
            None => refused(
                r,
                Status::ServiceUnavailable,
                "cluster membership is unavailable"@,
            ),
            Some(list) => match member_position(list@, target_node@) {
                None => refused(
                    r,
                    Status::NotFound,
                    "target node "@ + target_node@ + " is not alive or is unknown"@,
                ),
                Some(at) => r matches Ok(url) && url@ == http.url_text(list@[at].address@, path@),
            },
        },
{
    match members {
        None => Err(refuse(Status::ServiceUnavailable, "cluster membership is unavailable")),
        Some(list) => match find_member(list, target_node) {
            None => Err(
                Refusal {
                    status: Status::NotFound,
                    error: sandwich(
                        "target node ",
                        target_node,
                        " is not alive or is unknown",
                    ),
                },
            ),
            Some(at) => Ok(http.url(list[at].address.as_str(), path)),
        },
    }
}

/// A node fault is applied here only if it names this node; a fault for
/// another node never acts here.
pub proof fn node_faults_act_on_the_named_node(
    auth: Option<AuthContext>,
    request: FaultRequest,
    policy: Result<(), String>,
    safety: Result<(), Refusal>,
    self_name: Option<Seq<char>>,
)
    requires
        fault_refusal(auth, request, policy, safety, self_name) is None,
        request.node_targeted,
    ensures
        auth is Some,
        policy is Ok,
        safety is Ok,
        self_name is Some,
        named_node(request.target_node) is Some,
{
}

/// A workload fault never reaches a service out of the caller's scope, nor one
/// that policy does not allow.
pub proof fn workload_faults_stay_in_scope(
    auth: Option<AuthContext>,
    request: FaultRequest,
    policy: Result<(), String>,
    safety: Result<(), Refusal>,
    self_name: Option<Seq<char>>,
)
    requires
        fault_refusal(auth, request, policy, safety, self_name) is None,
        !request.node_targeted,
    ensures
        may_touch(auth, request.target_service@, fault_namespace(request)),
        policy is Ok,
{
}

/// Where the clearing of a fault goes.
#[derive(Debug)]
pub enum ClearRoute {
    /// It is sent to this node.
    Forward(String),
    /// It is carried out here, with these grants; the owner of the fault looks
    /// at its class before it removes anything.
    Clear {
        /// Whether a workload fault may be cleared.
        allow_workload_fault: bool,
        /// Whether a node fault may be cleared.
        allow_node_fault: bool,
        /// Whether node pressure may be cleared.
        allow_node_pressure: bool,
    },
}

/// What policy grants of clearing faults, class by class.
#[derive(Debug, Clone, Copy, PartialEq, Eq, Structural)]
pub struct ReversalGrants {
    /// Workload faults.
    pub workload: bool,
    /// Node pressure.
    pub pressure: bool,
    /// Node faults.
    pub node: bool,
}

/// Why the clearing of a fault is refused on this node, if it is.
pub open spec fn clear_refusal(
    auth: Option<AuthContext>,
    node: Option<String>,
    grants: ReversalGrants,
) -> Option<(Status, Seq<char>)> {
    let allow_node = named_node(node) is Some && grants.node;
    if auth is Some && auth->0.system {
        Some((Status::Forbidden, Denial::ServicePrincipal.text()))
    } else if !has_role(auth, ApiRole::Deployer) {
        Some((Status::Forbidden, Denial::Role.text()))
    } else if node is Some && !(grants.workload || allow_node || grants.pressure) {
        Some(
            (
                Status::Forbidden,
                "cluster policy does not allow reversal of this fault class"@,
            ),
        )
    } else if node is None && !grants.workload {
        Some(
            (
                Status::Forbidden,
                "workload fault reversal requires inject_workload_faults authorisation"@,
            ),
        )
    } else {
        None
    }
}

/// Whether the clearing of a fault is for another node than this one.
pub open spec fn clears_elsewhere(node: Option<String>, self_name: Option<Seq<char>>) -> bool {
    named_node(node) is Some && self_name is Some && self_name->0 != named_node(node)->0
}

/// Decide where the clearing of a fault goes. Routing to a node is not itself
/// authority: the grants are kept apart.
pub fn admit_clear(
    auth: Option<&AuthContext>,
    node: &Option<String>,
    grants: ReversalGrants,
    self_name: Option<&str>,
) -> (r: Result<ClearRoute, Refusal>)
    ensures
        if auth is Some && auth->0.system {
            refused(r, Status::Forbidden, Denial::ServicePrincipal.text())
        } else if !has_role(caller(auth), ApiRole::Deployer) {
            refused(r, Status::Forbidden, Denial::Role.text())
        } else if clears_elsewhere(*node, borrowed_text(self_name)) {
            r matches Ok(ClearRoute::Forward(target)) && target == node->0
        } else {
            match clear_refusal(caller(auth), *node, grants) {
                Some((status, error)) => refused(r, status, error),
                None => r matches Ok(
                    ClearRoute::Clear {
                        allow_workload_fault,
                        allow_node_fault,
                        allow_node_pressure,
                    },
                ) && allow_workload_fault == grants.workload && allow_node_fault == (named_node(
                    *node,
                ) is Some && grants.node) && allow_node_pressure == grants.pressure,
            }
        },
{
    match authorize_user(auth, ApiRole::Deployer) {
        Err(denial) => {
            return Err(denial.refusal());
        },
        Ok(()) => {},
    }
    let mut allow_node_fault: bool = false;
    match node {
        Some(target) => {
            if !target.as_str().is_empty() {
                match self_name {
                    Some(name) => {
                        if !same_text(name, target.as_str()) {
                            return Ok(ClearRoute::Forward(target.clone()));
                        }
                    },
                    None => {},
                }
                allow_node_fault = grants.node;
            }
        },
        None => {},
    }
    if node.is_some() && !(grants.workload || allow_node_fault || grants.pressure) {
        return Err(
            refuse(
                Status::Forbidden,
                "cluster policy does not allow reversal of this fault class",
            ),
        );
    }
    if node.is_none() && !grants.workload {
        return Err(
            refuse(
                Status::Forbidden,
                "workload fault reversal requires inject_workload_faults authorisation",
            ),
        );
    }
    Ok(
        ClearRoute::Clear {
            allow_workload_fault: grants.workload,
            allow_node_fault,
            allow_node_pressure: grants.pressure,
        },
    )
}

/// What a clearing of many faults covers.
#[derive(Debug)]
pub enum ClearAll {
    /// Every workload fault.
    Everything,
    /// The faults of a service, in one namespace or in all.
    Service {
        /// The service.
        service: String,
        /// The namespace, if only one.
        namespace: Option<String>,
    },
}

/// Why a clearing of many faults is refused, if it is.
pub open spec fn clear_all_refusal(
    auth: Option<AuthContext>,
    policy: Result<(), String>,
    service: Option<String>,
    namespace: Option<String>,
) -> Option<(Status, Seq<char>)> {
    if auth is Some && auth->0.system {
        Some((Status::Forbidden, Denial::ServicePrincipal.text()))
    } else if !has_role(auth, ApiRole::Deployer) {
        Some((Status::Forbidden, Denial::Role.text()))
    } else if policy is Err {
        Some((Status::Forbidden, policy->Err_0@))
    } else {
        match service {
            None => None,
            Some(name) => if name@.len() == 0 {
                Some(
                    (
                        Status::BadRequest,
                        "service must be non-empty; omit ?service to clear all workload faults"@,
                    ),
                )
            } else {
                match namespace {
                    Some(space) => if may_touch(auth, name@, space@) {
                        None
                    } else {
                        Some((Status::Forbidden, Denial::Scope.text()))
                    },
                    None => if is_unconfined(auth) {
                        None
                    } else {
                        Some((Status::Forbidden, Denial::Confined.text()))
                    },
                }
            },
        }
    }
}

/// Decide what a clearing of many faults covers.
///
/// Without a service every workload fault is cleared. An empty service is
/// neither: node faults carry an empty service, so it would match them all. A
/// service in every namespace is a cluster-wide action.
pub fn admit_clear_all(
    auth: Option<&AuthContext>,
    policy: &Result<(), String>,
    service: Option<String>,
    namespace: Option<String>,
) -> (r: Result<ClearAll, Refusal>)
    ensures
        match clear_all_refusal(caller(auth), *policy, service, namespace) {
            Some((status, error)) => refused(r, status, error),
            None => match service {
                None => r matches Ok(ClearAll::Everything),
                Some(name) => r == Ok::<ClearAll, Refusal>(
                    ClearAll::Service { service: name, namespace },
                ),
            },
        },
{
    match authorize_user(auth, ApiRole::Deployer) {
        Err(denial) => {
            return Err(denial.refusal());
        },
        Ok(()) => {},
    }
    match policy {
        Err(error) => {
            return Err(refuse(Status::Forbidden, error.as_str()));
        },
        Ok(()) => {},
    }
    match service {
        None => Ok(ClearAll::Everything),
        Some(service) => {
            if service.as_str().is_empty() {
                return Err(
                    refuse(
                        Status::BadRequest,
                        "service must be non-empty; omit ?service to clear all workload faults",
                    ),
                );
            }
            match &namespace {
                Some(space) => match authorize_scoped(auth, service.as_str(), space.as_str()) {
                    Err(denial) => {
                        return Err(denial.refusal());
                    },
                    Ok(()) => {},
                },
                None => match require_unscoped(auth) {
                    Err(denial) => {
                        return Err(denial.refusal());
                    },
                    Ok(()) => {},
                },
            }
            Ok(ClearAll::Service { service, namespace })
        },
    }
}

/// The name that a fault is injected under.
pub open spec fn injector_name(auth: Option<AuthContext>) -> Seq<char> {
    match auth {
        Some(context) => context.token_name@,
        None => bootstrap_name(),
    }
}

/// Tell who injects a fault: the caller by the name of its token, whatever the
/// request says, or the node itself before there are tokens. Partitions of the
/// council are injected under it too.
pub fn injector(auth: Option<&AuthContext>) -> (r: String)
    ensures
        r@ == injector_name(caller(auth)),
{
    match auth {
        Some(context) => context.token_name.clone(),
        None => "local-bootstrap".to_owned(),
    }
}

/// Decide whether a partition of the council may be made or healed: by an
/// administrator, whom the policy allows to alter nodes.
pub fn admit_partition(auth: Option<&AuthContext>, policy: &Result<(), String>) -> (r: Result<
    (),
    Refusal,
>)
    ensures
        if auth is Some && auth->0.system {
            refused(r, Status::Forbidden, Denial::ServicePrincipal.text())
        } else if !has_role(caller(auth), ApiRole::Admin) {
            refused(r, Status::Forbidden, Denial::Role.text())
        } else {
            match *policy {
                Err(error) => refused(r, Status::Forbidden, error@),
                Ok(()) => r is Ok,
            }
        },
{
    match authorize_user(auth, ApiRole::Admin) {
        Err(denial) => {
            return Err(denial.refusal());
        },
        Ok(()) => {},
    }
    match policy {
        Err(error) => Err(refuse(Status::Forbidden, error.as_str())),
        Ok(()) => Ok(()),
    }
}

/// A caller confined to namespaces never clears faults of another namespace,
/// nor of all namespaces.
pub proof fn clearing_stays_in_scope(
    context: AuthContext,
    policy: Result<(), String>,
    service: String,
    namespace: Option<String>,
)
    requires
        clear_all_refusal(Some(context), policy, Some(service), namespace) is None,
        context.scoped_namespaces is Some,
    ensures
        namespace is Some,
        may_touch(Some(context), service@, namespace->0@),
{
}

} // verus!
