//! Which requests are admitted, and how they are answered.

use vstd::prelude::*;

use crate::access::AuthContext;
use crate::api::agent::{
    agent_unavailable, answer_command, answer_desired_apps, answer_or_outage, readiness_status,
    require_taken, AgentReply,
};
use crate::api::apply::{
    admit_apply, apps_refusal, authorise_apply, take_manifest, AppPermissions, ApplyRefusal,
    ApplyRoute, CapacityHeader, LeaseHeader, Manifest, ManifestApp, NamedLease,
};
use crate::api::faults::{
    admit_clear, admit_clear_all, admit_fault, admit_partition, answer_safety,
    check_node_fault_cluster_safety, fault_operation, injector, policy_principal,
    target_node_api_url, voter_position, ClearAll, ClearRoute, FaultRequest, FaultRoute,
    ReversalGrants, SafetyContext,
};
use crate::api::leases::{
    admit_lease, answer_release, authenticated_test_user, check_lease_namespace,
    lease_error_response, lease_leader_url, lease_namespace, make_lease, may_read_lease,
    may_renew_lease, release_as, renewed_expiry, validate_lease_ttl, write_lease_request,
    CouncilWrite, LeaseError, LeaseRoute, ReleaseAs, TestLease,
};
use crate::api::security::{
    admit_managed, answer_join_token_write, answer_managed_write, answer_revocation,
    answer_rotation, answer_token_write, cluster_ca, join_token_refusal, newest_generation,
    parse_role, plan_rotation, plan_token, require_manager, require_signing_key, take_signing,
    ClusterCa, JoinTokenError, Rotation, TokenPlan, TokenRequest,
};
use crate::api::trace::{
    admit_trace, answer_trace, is_label, live_port, probe_port, valid_trace_label, LiveService,
    ServiceMapReply, TraceKind, TraceOutcome, TraceRequest,
};
use crate::api::upgrades::{
    admit_to_council, answer_start, answer_update, authoritative_view, build_authoritative_view,
    resume_upgrade, role_from_raft, start_rollback, start_upgrade, take_directive,
    take_node_rollback, ActiveUpgrade, AuthoritativeNode, ClusterUpgrade, NodeRole,
    NodeUpgradeRecord, RollbackRequest, StartRequest, UpgradeDirection,
};
use crate::api::workloads::{
    admit_app_operation, answer_app_env, answer_clear_desired, answer_resolve, app_status,
    cleared_cookie, session_cookie, session_identity, snapshot_error_response, stop_route,
    SessionIdentity, SnapshotFailure, StopRoute,
};
use crate::instances::InstanceStatus;
use crate::laws::access::{
    admits, credentials, has_no_scope, is_system, role_suffices, scope_covers,
};
use crate::laws::batch::members_are_found_by_name;
use crate::membership::{voter_ids, CouncilView, NodeMembershipInfo};
use crate::ordered_map::OrderedMap;
use crate::policy::{ApiRole, OperationPermission};
use crate::reply::{ClusterHttp, Refusal, Status};
use crate::text::{decimal_text, trimmed};

verus! {

/// A reply of the agent is passed on where it is done, and a failure in the status
/// that it has; without a reply the agent is unavailable.
pub proof fn replies_are_passed_on<T>(
    reply: AgentReply<T>,
    failure: Status,
    r: Result<T, Refusal>,
    outage: Result<T, Refusal>,
    apps: Result<T, Refusal>,
)
    requires
        call_ensures(answer_command, (reply, failure), r),
        call_ensures(answer_or_outage, (reply, failure), outage),
        call_ensures(answer_desired_apps, (reply,), apps),
    ensures
        reply matches AgentReply::Done(value) ==> r == Ok::<T, Refusal>(value) && outage == Ok::<
            T,
            Refusal,
        >(value) && apps == Ok::<T, Refusal>(value),
        reply matches AgentReply::Failed(error) ==> (r matches Err(e) && e.status == failure
            && e.error@ == error@) && (outage matches Err(e) && e.status == failure && e.error@
            == error@) && (apps matches Err(e) && e.status is ServiceUnavailable && e.error@
            == error@),
        reply is Unavailable ==> (r matches Err(e) && e.status is InternalServerError && e.error@
            == "agent unavailable"@) && (outage matches Err(e) && e.status is ServiceUnavailable
            && e.error@ == "agent unavailable"@) && (apps matches Err(e)
            && e.status is ServiceUnavailable && e.error@ == "agent unavailable"@),
        reply is Dropped ==> (r matches Err(e) && e.status is InternalServerError && e.error@
            == "agent dropped response"@) && (outage matches Err(e)
            && e.status is ServiceUnavailable && e.error@ == "agent unavailable"@) && (
        apps matches Err(e) && e.status is ServiceUnavailable && e.error@
            == "agent dropped response"@),
{
}

/// A node that is not ready, or cannot take what it is told, says so.
pub proof fn nodes_say_whether_they_are_ready(
    ready: bool,
    status: Status,
    taken: bool,
    r: Result<(), Refusal>,
    refusal: Refusal,
)
    requires
        call_ensures(readiness_status, (ready,), status),
        call_ensures(require_taken, (taken,), r),
        call_ensures(agent_unavailable, (), refusal),
    ensures
        ready ==> status is Success,
        !ready ==> status is ServiceUnavailable,
        r is Ok <==> taken,
        r matches Err(e) ==> e.status is InternalServerError && e.error@ == "agent unavailable"@,
        refusal.status is ServiceUnavailable && refusal.error@ == "agent unavailable"@,
{
}

/// Whether the headers of a deployment are in order: a lease, where one is named,
/// has an identifier; and a probe of capacity is acknowledged in these words,
/// under a lease, by a known caller whom the policy lets.
pub open spec fn headers_are_in_order(
    lease: LeaseHeader,
    capacity: CapacityHeader,
    auth: Option<&AuthContext>,
    policy: Result<(), String>,
) -> bool {
    &&& match lease {
        LeaseHeader::Absent => true,
        LeaseHeader::Malformed => false,
        LeaseHeader::Text(id) => id@.len() > 0,
    }
    &&& match capacity {
        CapacityHeader::Absent => true,
        CapacityHeader::Other => false,
        CapacityHeader::Acknowledged => lease is Text && auth is Some && policy is Ok,
    }
}

/// Whether a manifest may be deployed under a lease: it holds applications and
/// namespaces alone, the lease is active and the caller's or the caller the
/// cluster, and all is in the namespace of the lease.
pub open spec fn is_leased_soundly(
    manifest: Manifest,
    auth: Option<&AuthContext>,
    lease: Option<&NamedLease>,
) -> bool {
    &&& manifest.jobs == 0 && manifest.permissions == 0 && manifest.builds == 0
    &&& auth matches Some(caller) && lease matches Some(held) && held.active && (caller.system
        || held.owner_id@ == caller.principal_id@) && (forall|i: int|
        0 <= i < manifest.namespaces@.len() ==> (#[trigger] manifest.namespaces@[i]).name@
            == held.namespace@) && forall|i: int|
        0 <= i < manifest.apps@.len() ==> ((#[trigger] manifest.apps@[i]).namespace matches Some(
            name,
        ) ==> name@ == held.namespace@)
}

/// A deployment is admitted exactly where the caller may deploy, the manifest is
/// valid, its headers are in order, and it is either leased soundly or touches no
/// reserved namespace. Under a lease, applications without a namespace get that of
/// the lease; nothing else changes, and a refusal changes nothing.
pub proof fn deployments_are_admitted_exactly_when_in_order(
    auth: Option<&AuthContext>,
    manifest: &mut Manifest,
    validity: &Result<(), String>,
    header: &LeaseHeader,
    capacity: CapacityHeader,
    policy: &Result<(), String>,
    lease: Option<&NamedLease>,
    r: Result<(), ApplyRefusal>,
)
    requires
        call_ensures(
            admit_apply,
            (auth, manifest, validity, header, capacity, policy, lease),
            r,
        ),
    ensures
        r is Ok <==> role_suffices(auth, ApiRole::Deployer) && *validity is Ok
            && headers_are_in_order(*header, capacity, auth, *policy) && if *header is Text {
            is_leased_soundly(*old(manifest), auth, lease)
        } else {
            (forall|i: int|
                0 <= i < old(manifest).namespaces@.len() ==> !(
                #[trigger] old(manifest).namespaces@[i]).reserved) && forall|i: int|
                0 <= i < old(manifest).apps@.len() ==> !(
                #[trigger] old(manifest).apps@[i]).reserved
        },
        r is Err ==> *final(manifest) == *old(manifest),
        r is Ok ==> final(manifest).namespaces == old(manifest).namespaces && final(
            manifest).jobs == old(manifest).jobs && final(manifest).permissions == old(
            manifest).permissions && final(manifest).builds == old(manifest).builds && final(
            manifest).apps@.len() == old(manifest).apps@.len(),
        r is Ok ==> forall|i: int|
            0 <= i < old(manifest).apps@.len() ==> {
                let before = old(manifest).apps@[i];
                let after = #[trigger] final(manifest).apps@[i];
                &&& after.name == before.name && after.reserved == before.reserved && after.script
                    == before.script
                &&& before.namespace matches Some(name) ==> (after.namespace matches Some(kept)
                    && kept@ == name@)
                &&& before.namespace is None && !(*header is Text) ==> after.namespace is None
                &&& before.namespace is None && *header is Text ==> (after.namespace matches Some(
                    given,
                ) && given@ == lease->0.namespace@)
            },
        !role_suffices(auth, ApiRole::Deployer) ==> (r matches Err(ApplyRefusal::Refused(e))
            && e.status is Forbidden),
{
    credentials(auth, ApiRole::Deployer, Seq::empty(), Seq::empty());
    let before = *manifest;
    if lease is Some {
        let name = lease->0.namespace@;
        assert((exists|i: int|
            0 <= i < before.apps@.len() && crate::api::apply::outside_lease(
                #[trigger] before.apps@[i],
                name,
            )) <==> !(forall|i: int|
            0 <= i < before.apps@.len() ==> ((#[trigger] before.apps@[i]).namespace matches Some(
                given,
            ) ==> given@ == name)));
    }
}

/// Whether an application may be deployed by a caller, with the permissions that
/// were found for it.
pub open spec fn is_deployable(
    auth: Option<&AuthContext>,
    app: ManifestApp,
    permissions: AppPermissions,
) -> bool {
    &&& scope_covers(
        auth,
        app.name@,
        match app.namespace {
            Some(name) => name@,
            None => "default"@,
        },
    )
    &&& permissions.deploy is Ok
    &&& app.script ==> permissions.host_exec is Ok
}

proof fn deployable_apps(
    auth: Option<&AuthContext>,
    apps: Seq<ManifestApp>,
    permissions: Seq<AppPermissions>,
)
    ensures
        apps_refusal(crate::access::caller(auth), apps, permissions) is None <==> forall|i: int|
            0 <= i < apps.len() ==> is_deployable(auth, #[trigger] apps[i], permissions[i]),
        apps_refusal(crate::access::caller(auth), apps, permissions) matches Some((status, error))
            ==> status is Forbidden,
    decreases apps.len(),
{
    if apps.len() > 0 {
        let rest = apps.drop_last();
        let end = apps.len() - 1;
        deployable_apps(auth, rest, permissions);
        assert(apps.last() == apps[end]);
        credentials(
            auth,
            ApiRole::Deployer,
            apps[end].name@,
            crate::api::apply::effective_namespace(apps[end]),
        );
        if apps_refusal(crate::access::caller(auth), apps, permissions) is None {
            assert forall|i: int| 0 <= i < apps.len() implies is_deployable(
                auth,
                #[trigger] apps[i],
                permissions[i],
            ) by {
                if i < end {
                    assert(rest[i] == apps[i]);
                }
            }
        }
        if forall|i: int| 0 <= i < apps.len() ==> is_deployable(
            auth,
            #[trigger] apps[i],
            permissions[i],
        ) {
            assert forall|i: int| 0 <= i < rest.len() implies is_deployable(
                auth,
                #[trigger] rest[i],
                permissions[i],
            ) by {
                assert(rest[i] == apps[i]);
            }
            assert(is_deployable(auth, apps[end], permissions[end]));
        }
    }
}

/// A manifest is authorised exactly where every application in it may be deployed,
/// and goes through the council where there is one and something for it.
pub proof fn manifests_are_authorised_app_by_app(
    auth: Option<&AuthContext>,
    manifest: &Manifest,
    permissions: &Vec<AppPermissions>,
    council: bool,
    r: Result<ApplyRoute, Refusal>,
)
    requires
        call_ensures(authorise_apply, (auth, manifest, permissions, council), r),
    ensures
        r is Ok <==> forall|i: int|
            0 <= i < manifest.apps@.len() ==> is_deployable(
                auth,
                #[trigger] manifest.apps@[i],
                permissions@[i],
            ),
        r matches Err(e) ==> e.status is Forbidden,
        r matches Ok(route) ==> (route is Cluster <==> council && (manifest.apps@.len() > 0
            || manifest.namespaces@.len() > 0 || manifest.permissions > 0)),
{
    deployable_apps(auth, manifest.apps@, permissions@);
}

/// A manifest is taken of those who may deploy, as it was parsed.
pub proof fn manifests_are_taken_of_deployers<T>(
    auth: Option<&AuthContext>,
    parsed: Result<T, String>,
    r: Result<T, Refusal>,
)
    requires
        call_ensures(take_manifest, (auth, parsed), r),
    ensures
        !role_suffices(auth, ApiRole::Deployer) ==> (r matches Err(e) && e.status is Forbidden),
        role_suffices(auth, ApiRole::Deployer) ==> match parsed {
            Ok(manifest) => r == Ok::<T, Refusal>(manifest),
            Err(error) => r matches Err(e) && e.status is BadRequest && e.error@ == error@,
        },
{
    credentials(auth, ApiRole::Deployer, Seq::empty(), Seq::empty());
}

/// A fault of a workload injects one, pressure on a node saturates its capacity,
/// and any other fault of a node alters its state.
pub proof fn faults_are_operations_by_their_target(
    request: &FaultRequest,
    r: OperationPermission,
)
    requires
        call_ensures(fault_operation, (request,), r),
    ensures
        r is InjectWorkloadFaults <==> !request.node_targeted,
        r is SaturateCapacity <==> request.node_targeted && request.pressure,
        r is AlterNodeState <==> request.node_targeted && !request.pressure,
{
}

/// A caller is held to their principal and role; without one it is this node, as
/// an administrator.
pub proof fn callers_are_held_to_their_principal(
    auth: Option<&AuthContext>,
    r: (String, ApiRole),
    by: String,
)
    requires
        call_ensures(policy_principal, (auth,), r),
        call_ensures(injector, (auth,), by),
    ensures
        auth matches Some(caller) ==> r.0 == caller.principal_id && r.1 == caller.role && by@
            == caller.token_name@,
        auth is None ==> r.0@ == "local-bootstrap"@ && r.1 is Admin && by@ == "local-bootstrap"@,
{
}

/// Whether a fault may be injected: by a user who may deploy; of a node by a known
/// caller whom the policy lets, at a named node, safely, from a node that knows
/// its name; of a workload in the caller's scope, where the policy lets them.
pub open spec fn is_injectable(
    auth: Option<&AuthContext>,
    request: FaultRequest,
    policy: Result<(), String>,
    safety: Result<(), Refusal>,
    self_name: Option<&str>,
) -> bool {
    &&& !is_system(auth)
    &&& role_suffices(auth, ApiRole::Deployer)
    &&& policy is Ok
    &&& if request.node_targeted {
        auth is Some && (request.target_node matches Some(name) && name@.len() > 0) && safety is Ok
            && self_name is Some
    } else {
        scope_covers(
            auth,
            request.target_service@,
            match request.namespace {
                Some(name) => name@,
                None => "default"@,
            },
        )
    }
}

/// A fault is admitted exactly where it may be injected. A fault of another node is
/// passed on as it is; any other is applied here, in the caller's name and, of a
/// workload, in a named namespace.
pub proof fn faults_are_admitted_exactly_when_injectable(
    auth: Option<&AuthContext>,
    request: &mut FaultRequest,
    policy: &Result<(), String>,
    safety: Result<(), Refusal>,
    self_name: Option<&str>,
    r: Result<FaultRoute, Refusal>,
)
    requires
        call_ensures(admit_fault, (auth, request, policy, safety, self_name), r),
    ensures
        r is Ok <==> is_injectable(auth, *old(request), *policy, safety, self_name),
        r is Err ==> *final(request) == *old(request),
        r matches Ok(FaultRoute::Forward(node)) ==> old(request).node_targeted && node@
            != self_name->0@ && old(request).target_node == Some(node) && *final(request) == *old(
            request,
        ),
        r matches Ok(FaultRoute::Apply) ==> {
            &&& old(request).node_targeted ==> (old(request).target_node matches Some(node) && node@
                == self_name->0@) && final(request).namespace == old(request).namespace
            &&& !old(request).node_targeted ==> (final(request).namespace matches Some(given)
                && given@ == match old(request).namespace {
                Some(name) => name@,
                None => "default"@,
            })
            &&& final(request).injected_by@ == match auth {
                Some(caller) => caller.token_name@,
                None => "local-bootstrap"@,
            }
            &&& final(request).target_service == old(request).target_service && final(
                request).node_targeted == old(request).node_targeted && final(request).pressure
                == old(request).pressure && final(request).target_node == old(request).target_node
                && final(request).acknowledged == old(request).acknowledged
        },
        is_system(auth) || !role_suffices(auth, ApiRole::Deployer) ==> (r matches Err(e)
            && e.status is Forbidden),
{
    credentials(
        auth,
        ApiRole::Deployer,
        request.target_service@,
        crate::api::faults::fault_namespace(*request),
    );
}

/// The safety of a fault of a node is judged by the voters of the council and the
/// live members: it needs both, a leader, and the leader among the members. The
/// voters that no member is are counted as faulted.
pub proof fn node_faults_are_judged_by_council_and_membership(
    council: Option<&CouncilView>,
    members: Option<&Vec<NodeMembershipInfo>>,
    r: Result<SafetyContext, Refusal>,
)
    requires
        call_ensures(check_node_fault_cluster_safety, (council, members), r),
    ensures
        r is Ok <==> (council matches Some(view) && view.voters@.len() > 0 && (
        view.leader matches Some(leader) && members matches Some(list) && exists|i: int|
            0 <= i < list@.len() && (#[trigger] list@[i]).raft_id == leader)),
        r matches Err(e) ==> e.status is ServiceUnavailable,
        r matches Ok(context) ==> {
            let voters = council->0.voters@.to_set();
            let list = members->0@;
            let out = voters.difference(voter_ids(list)).len();
            &&& voters.len() <= u32::MAX && list.len() <= u32::MAX ==> context.council_size
                == voters.len() && context.council_nodes_with_active_faults == out
                && context.nodes_with_active_faults == out && (list.len() >= voters.len()
                ==> context.total_nodes == list.len()) && (list.len() < voters.len()
                ==> context.total_nodes == voters.len())
            &&& context.target_service_replicas == 0 && context.target_service_faulted_replicas
                == 0
            &&& exists|i: int|
                0 <= i < list.len() && (#[trigger] list[i]).raft_id == council->0.leader->0
                    && context.leader_node_id == list[i].node_id && forall|j: int|
                    0 <= j < i ==> (#[trigger] list[j]).raft_id != council->0.leader->0
        },
{
    if council is Some && members is Some && council->0.leader is Some {
        let list = members->0@;
        first_voter(list, council->0.leader->0);
        let voters = council->0.voters@.to_set();
        vstd::seq_lib::seq_to_set_is_finite(council->0.voters@);
        vstd::set_lib::lemma_len_subset(voters.difference(voter_ids(list)), voters);
    }
}

proof fn first_voter(members: Seq<NodeMembershipInfo>, id: u64)
    ensures
        match voter_position(members, id) {
            Some(at) => 0 <= at < members.len() && members[at].raft_id == id && forall|j: int|
                0 <= j < at ==> (#[trigger] members[j]).raft_id != id,
            None => forall|j: int| 0 <= j < members.len() ==> (#[trigger] members[j]).raft_id != id,
        },
    decreases members.len(),
{
    if members.len() > 0 {
        let rest = members.drop_last();
        first_voter(rest, id);
        assert forall|j: int| 0 <= j < rest.len() implies #[trigger] members[j] == rest[j] by {}
    }
}

/// A fault that is judged safe is let through; any other is a bad request that
/// says why.
pub proof fn unsafe_faults_are_bad_requests(
    approved: bool,
    violation: Option<String>,
    r: Result<(), Refusal>,
)
    requires
        call_ensures(answer_safety, (approved, violation), r),
    ensures
        r is Ok <==> approved,
        r matches Err(e) ==> e.status is BadRequest && e.error@ == match violation {
            Some(why) => why@,
            None => "node fault safety check failed"@,
        },
{
}

/// A node is asked at the address of the first member of its name; it is not found
/// where there is none, and unavailable without membership.
pub proof fn named_nodes_are_asked_at_their_address(
    members: Option<&Vec<NodeMembershipInfo>>,
    node: &str,
    path: &str,
    http: &ClusterHttp,
    r: Result<String, Refusal>,
)
    requires
        call_ensures(target_node_api_url, (members, node, path, http), r),
    ensures
        r is Ok <==> (members matches Some(list) && exists|i: int|
            0 <= i < list@.len() && (#[trigger] list@[i]).node_id@ == node@),
        r matches Ok(url) ==> exists|i: int|
            0 <= i < members->0@.len() && (#[trigger] members->0@[i]).node_id@ == node@ && url@ == (
            if http.tls {
                "https://"@
            } else {
                "http://"@
            }) + members->0@[i].address@ + path@ && forall|j: int|
                0 <= j < i ==> (#[trigger] members->0@[j]).node_id@ != node@,
        r matches Err(e) ==> if members is None {
            e.status is ServiceUnavailable
        } else {
            e.status is NotFound
        },
{
    if members is Some {
        members_are_found_by_name(members->0@, node@);
    }
}

/// A fault is cleared exactly by a user who may deploy and has been granted a kind
/// of reversal that the fault may need; one at another node is passed on there.
pub proof fn faults_are_cleared_by_those_granted_it(
    auth: Option<&AuthContext>,
    node: &Option<String>,
    grants: ReversalGrants,
    self_name: Option<&str>,
    r: Result<ClearRoute, Refusal>,
)
    requires
        call_ensures(admit_clear, (auth, node, grants, self_name), r),
    ensures
        is_system(auth) || !role_suffices(auth, ApiRole::Deployer) ==> r is Err,
        r matches Err(e) ==> e.status is Forbidden,
        !is_system(auth) && role_suffices(auth, ApiRole::Deployer) ==> {
            let elsewhere = (*node matches Some(name) && name@.len() > 0) && (
            self_name matches Some(own) && own@ != node->0@);
            &&& elsewhere <==> (r matches Ok(ClearRoute::Forward(_)))
            &&& elsewhere ==> (r matches Ok(ClearRoute::Forward(target)) && target == node->0)
            &&& !elsewhere ==> (r is Ok <==> grants.workload || (node is Some && grants.pressure)
                || ((*node matches Some(name) && name@.len() > 0) && grants.node))
            &&& r matches Ok(
                ClearRoute::Clear { allow_workload_fault, allow_node_fault, allow_node_pressure },
            ) ==> allow_workload_fault == grants.workload && allow_node_pressure == grants.pressure
                && (allow_node_fault <==> grants.node && (*node matches Some(name) && name@.len()
                > 0))
        },
{
    credentials(auth, ApiRole::Deployer, Seq::empty(), Seq::empty());
}

/// All faults are cleared exactly by a user who may deploy and whom the policy
/// lets; those of a service where the scope of the caller covers it, or has no
/// bounds where no namespace is named.
pub proof fn faults_are_all_cleared_within_scope(
    auth: Option<&AuthContext>,
    policy: &Result<(), String>,
    service: Option<String>,
    namespace: Option<String>,
    r: Result<ClearAll, Refusal>,
)
    requires
        call_ensures(admit_clear_all, (auth, policy, service, namespace), r),
    ensures
        r is Ok <==> !is_system(auth) && role_suffices(auth, ApiRole::Deployer) && *policy is Ok
            && match service {
            None => true,
            Some(name) => name@.len() > 0 && match namespace {
                Some(space) => scope_covers(auth, name@, space@),
                None => has_no_scope(auth),
            },
        },
        r matches Ok(what) ==> match service {
            None => what is Everything,
            Some(name) => what == (ClearAll::Service { service: name, namespace }),
        },
        r matches Err(e) ==> (e.status is BadRequest <==> !is_system(auth) && role_suffices(
            auth,
            ApiRole::Deployer,
        ) && *policy is Ok && (service matches Some(name) && name@.len() == 0)),
{
    credentials(
        auth,
        ApiRole::Deployer,
        match service {
            Some(name) => name@,
            None => Seq::empty(),
        },
        match namespace {
            Some(space) => space@,
            None => Seq::empty(),
        },
    );
}

/// A partition of the council is for administrators whom the policy lets.
pub proof fn partitions_are_for_administrators(
    auth: Option<&AuthContext>,
    policy: &Result<(), String>,
    r: Result<(), Refusal>,
)
    requires
        call_ensures(admit_partition, (auth, policy), r),
    ensures
        r is Ok <==> !is_system(auth) && role_suffices(auth, ApiRole::Admin) && *policy is Ok,
        r matches Err(e) ==> e.status is Forbidden,
{
    credentials(auth, ApiRole::Admin, Seq::empty(), Seq::empty());
}

/// Errors of leases have the status of their kind.
pub proof fn lease_errors_have_their_status(error: LeaseError, words: &str, r: Refusal)
    requires
        call_ensures(lease_error_response, (error, words), r),
    ensures
        r.error@ == words@,
        r.status is NotFound <==> error is NotFound,
        r.status is Forbidden <==> error is WrongOwner,
        r.status is TooManyRequests <==> error is TooManyLeases,
        r.status is Conflict <==> error is NotActive || error is AlreadyExists
            || error is NamespaceOwned || error is NamespaceMismatch || error is ResourceLimit,
        r.status is BadRequest <==> error is InvalidId || error is InvalidOwner
            || error is InvalidNamespace || error is InvalidExpiry || error is UnsupportedSchema,
        r.status is InternalServerError <==> error is Persistence || error is Malformed
            || error is StoreTooLarge || error is Cleanup || error is Consensus,
{
}

/// A test user is a known caller, not the cluster, whose role suffices.
pub proof fn test_users_are_known_and_reach_their_role(
    auth: Option<&AuthContext>,
    required: ApiRole,
    r: Result<&AuthContext, Refusal>,
)
    requires
        call_ensures(authenticated_test_user, (auth, required), r),
    ensures
        r is Ok <==> auth is Some && !is_system(auth) && role_suffices(auth, required),
        r matches Ok(user) ==> *user == *auth->0,
        r matches Err(e) ==> if auth is None {
            e.status is Unauthorized
        } else {
            e.status is Forbidden
        },
{
    credentials(auth, required, Seq::empty(), Seq::empty());
}

/// A lease lasts between one second and what the policy lets, counted in
/// milliseconds.
pub proof fn leases_last_what_the_policy_lets(max: u64, ttl: u64, r: Result<u64, Refusal>)
    requires
        call_ensures(validate_lease_ttl, (max, ttl), r),
    ensures
        r is Ok <==> 1 <= ttl <= max,
        r matches Ok(millis) ==> if ttl * 1000 <= u64::MAX {
            millis == ttl * 1000
        } else {
            millis == u64::MAX
        },
        r matches Err(e) ==> e.status is BadRequest && e.error@
            == "ttl_seconds must be between 1 and "@ + decimal_text(max as nat),
{
}

/// A lease is admitted of a test user who may deploy and whom the policy lets, for
/// as long as that lets; a follower passes it on.
pub proof fn leases_are_admitted_of_test_users(
    auth: Option<&AuthContext>,
    policy: &Result<(), String>,
    max: u64,
    ttl: u64,
    follower: bool,
    r: Result<LeaseRoute, Refusal>,
)
    requires
        call_ensures(admit_lease, (auth, policy, max, ttl, follower), r),
    ensures
        r is Ok <==> auth is Some && !is_system(auth) && role_suffices(auth, ApiRole::Deployer)
            && *policy is Ok && 1 <= ttl <= max,
        r matches Ok(route) ==> if follower {
            route is Forward
        } else if ttl * 1000 <= u64::MAX {
            route == LeaseRoute::Proceed((ttl * 1000) as u64)
        } else {
            route == LeaseRoute::Proceed(u64::MAX)
        },
        r matches Err(e) ==> (e.status is Unauthorized <==> auth is None),
{
    credentials(auth, ApiRole::Deployer, Seq::empty(), Seq::empty());
}

/// A lease is in the namespace that was asked for, or in one named after it.
pub proof fn leases_have_a_namespace(lease_id: &str, requested: Option<String>, r: String)
    requires
        call_ensures(lease_namespace, (lease_id, requested), r),
    ensures
        requested matches Some(name) ==> r@ == name@,
        requested is None ==> r@ == "rbtest-"@ + lease_id@.subrange(0, 12),
{
}

/// The namespace of a lease is valid and in the caller's scope.
pub proof fn leased_namespaces_are_in_scope(
    valid: &Result<(), String>,
    auth: &AuthContext,
    namespace: &str,
    r: Result<(), Refusal>,
)
    requires
        call_ensures(check_lease_namespace, (valid, auth, namespace), r),
    ensures
        r is Ok <==> *valid is Ok && admits(auth.scoped_namespaces, namespace@),
        r matches Err(e) ==> (e.status is BadRequest <==> *valid is Err) && (e.status is BadRequest
            || e.status is Forbidden),
{
    let plain = AuthContext {
        token_name: auth.token_name,
        principal_id: auth.principal_id,
        role: auth.role,
        scoped_apps: None,
        scoped_namespaces: auth.scoped_namespaces,
        system: false,
    };
    crate::laws::access::touching_is_by_scope(Some(plain), Seq::empty(), namespace@);
}

/// A lease is its owner's, from now until its time has passed.
pub proof fn leases_are_their_owners(
    id: String,
    auth: &AuthContext,
    namespace: String,
    now: u64,
    ttl: u64,
    r: TestLease,
    renewed: u64,
)
    requires
        call_ensures(make_lease, (id, auth, namespace, now, ttl), r),
        call_ensures(renewed_expiry, (now, ttl), renewed),
    ensures
        r.id == id && r.owner_id == auth.principal_id && r.owner_name == auth.token_name
            && r.namespace == namespace && r.created_at_unix_ms == now,
        now + ttl <= u64::MAX ==> r.expires_at_unix_ms == now + ttl && renewed == now + ttl,
        now + ttl > u64::MAX ==> r.expires_at_unix_ms == u64::MAX && renewed == u64::MAX,
{
}

/// A lease is read by its owner and by administrators, renewed by its owner while
/// active, and released by either, each as what they are.
pub proof fn leases_are_in_their_owners_hands(
    auth: &AuthContext,
    lease: Option<&TestLease>,
    active: bool,
    read: Result<(), LeaseError>,
    renewed: Result<(), LeaseError>,
    released: Result<ReleaseAs, LeaseError>,
)
    requires
        call_ensures(may_read_lease, (auth, lease), read),
        call_ensures(may_renew_lease, (auth, lease, active), renewed),
        call_ensures(release_as, (auth, lease), released),
    ensures
        lease is None ==> (read matches Err(e) && e is NotFound) && (renewed matches Err(e)
            && e is NotFound) && (released matches Err(e) && e is NotFound),
        lease matches Some(held) ==> {
            let own = held.owner_id@ == auth.principal_id@;
            &&& read is Ok <==> own || auth.role is Admin
            &&& renewed is Ok <==> own && active
            &&& released is Ok <==> own || auth.role is Admin
            &&& released matches Ok(by) ==> (by is Owner <==> own)
            &&& read matches Err(e) ==> e is WrongOwner
            &&& renewed matches Err(e) ==> (e is WrongOwner <==> !own) && (e is WrongOwner
                || e is NotActive)
            &&& released matches Err(e) ==> e is WrongOwner
        },
{
}

/// A lease that is already gone counts as released.
pub proof fn releasing_twice_is_no_error(
    result: Result<(), (LeaseError, String)>,
    r: Result<(), Refusal>,
)
    requires
        call_ensures(answer_release, (result,), r),
    ensures
        r is Ok <==> match result {
            Ok(()) => true,
            Err((error, _)) => error is NotFound,
        },
{
}

/// A write of the council is answered as it went: refusals are conflicts, or pass
/// where the caller need not know, and failures are those of the server or of
/// leadership.
pub proof fn council_writes_are_answered_as_they_went(
    write: CouncilWrite,
    done: String,
    name: &str,
    lease: Result<(), Refusal>,
    token: Result<(), Refusal>,
    managed: Result<String, Refusal>,
    revoked: Result<String, Refusal>,
    joined: Result<(), Refusal>,
    cleared: Result<(), Refusal>,
    started: Result<(), Refusal>,
    updated: Result<(), Refusal>,
)
    requires
        call_ensures(write_lease_request, (write,), lease),
        call_ensures(answer_token_write, (write,), token),
        call_ensures(answer_managed_write, (write, done), managed),
        call_ensures(answer_revocation, (name, write), revoked),
        call_ensures(answer_join_token_write, (write,), joined),
        call_ensures(answer_clear_desired, (write,), cleared),
        call_ensures(answer_start, (write,), started),
        call_ensures(answer_update, (write,), updated),
    ensures
        write is Committed ==> lease is Ok && token is Ok && managed == Ok::<String, Refusal>(done)
            && (revoked matches Ok(words) && words@ == "token "@ + name@ + " revoked"@)
            && joined is Ok && cleared is Ok && started is Ok && updated is Ok,
        write matches CouncilWrite::Refused(why) ==> (lease matches Err(e) && e.status is Conflict
            && e.error@ == why@) && token is Ok && (managed matches Err(e) && e.status is Conflict
            && e.error@ == why@) && (revoked matches Err(e) && e.status is Conflict && e.error@
            == why@) && joined is Ok && cleared is Ok && started is Ok && updated is Ok,
        write matches CouncilWrite::Failed(error) ==> (lease matches Err(e)
            && e.status is ServiceUnavailable && e.error@ == error@) && (token matches Err(e)
            && e.status is InternalServerError && e.error@ == error@) && (managed matches Err(e)
            && e.status is InternalServerError && e.error@ == error@) && (revoked matches Err(e)
            && e.status is InternalServerError && e.error@ == error@) && (joined matches Err(e)
            && e.status is ServiceUnavailable) && (cleared matches Err(e)
            && e.status is InternalServerError) && (started matches Err(e)
            && e.status is Conflict) && (updated matches Err(e) && e.status is Conflict && e.error@
            == error@),
{
}

/// A request for a lease goes to the leader, at the same path.
pub proof fn lease_requests_go_to_the_leader(
    leader: Option<String>,
    path: &str,
    r: Result<String, Refusal>,
)
    requires
        call_ensures(lease_leader_url, (leader, path), r),
    ensures
        r is Ok <==> leader is Some,
        r matches Ok(url) ==> url@ == leader->0@ + path@,
        r matches Err(e) ==> e.status is ServiceUnavailable,
{
}

/// Tokens and keys are managed by administrators who are users, with a council.
pub proof fn tokens_are_managed_by_administrators(
    auth: Option<&AuthContext>,
    parsed: &Result<(), String>,
    council: bool,
    manager: Result<(), Refusal>,
    r: Result<(), Refusal>,
)
    requires
        call_ensures(require_manager, (auth,), manager),
        call_ensures(admit_managed, (auth, parsed, council), r),
    ensures
        manager is Ok <==> !is_system(auth) && role_suffices(auth, ApiRole::Admin),
        manager matches Err(e) ==> e.status is Forbidden,
        r is Ok <==> manager is Ok && *parsed is Ok && council,
        r matches Err(e) ==> (e.status is Forbidden <==> manager is Err) && (e.status is BadRequest
            <==> manager is Ok && *parsed is Err),
{
    credentials(auth, ApiRole::Admin, Seq::empty(), Seq::empty());
}

/// A role is known by its word.
pub proof fn roles_are_known_by_their_word(word: &str, r: Option<ApiRole>)
    requires
        call_ensures(parse_role, (word,), r),
    ensures
        r == Some(ApiRole::Admin) <==> word@ == "admin"@,
        r == Some(ApiRole::Deployer) <==> word@ == "deployer"@,
        r == Some(ApiRole::ReadOnly) <==> word@ == "read-only"@ || word@ == "readonly"@,
{
    words_of_roles();
}

proof fn words_of_roles()
    ensures
        "admin"@.len() == 5,
        "deployer"@ != "readonly"@,
        "deployer"@.len() == 8,
        "read-only"@.len() == 9,
        "readonly"@.len() == 8,
{
    reveal_strlit("admin");
    reveal_strlit("deployer");
    reveal_strlit("read-only");
    reveal_strlit("readonly");
    assert("deployer"@[0] == 'd');
    assert("readonly"@[0] == 'r');
}

/// A token is planned exactly for a manager, of a sound request with a name that
/// is not the cluster's and a known role, with a council; it is what was asked
/// for, and its days are counted in seconds.
pub proof fn tokens_are_planned_as_asked_for(
    auth: Option<&AuthContext>,
    request: Result<TokenRequest, String>,
    system: &str,
    council: bool,
    r: Result<TokenPlan, Refusal>,
)
    requires
        call_ensures(plan_token, (auth, request, system, council), r),
    ensures
        r is Ok <==> !is_system(auth) && role_suffices(auth, ApiRole::Admin) && council && (
        request matches Ok(asked) && asked.name@ != system@ && (asked.role@ == "admin"@
            || asked.role@ == "deployer"@ || asked.role@ == "read-only"@ || asked.role@
            == "readonly"@)),
        r matches Ok(plan) ==> (request matches Ok(asked) && plan.name == asked.name && plan.apps
            == asked.apps && plan.namespaces == asked.namespaces && (plan.role is Admin
            <==> asked.role@ == "admin"@) && (plan.role is Deployer <==> asked.role@
            == "deployer"@) && (asked.ttl_days is None <==> plan.ttl_seconds is None) && (
        asked.ttl_days matches Some(days) ==> days * 86400 <= u64::MAX ==> plan.ttl_seconds == Some(
            (days * 86400) as u64,
        ))),
{
    credentials(auth, ApiRole::Admin, Seq::empty(), Seq::empty());
    words_of_roles();
}

/// A refusal of a token to join says what is wrong with it.
pub proof fn join_tokens_are_refused_for_what_is_wrong(
    error: JoinTokenError,
    min: u64,
    max: u64,
    r: Refusal,
)
    requires
        call_ensures(join_token_refusal, (error, min, max), r),
    ensures
        r.status is InternalServerError <==> error is Other,
        r.status is BadRequest <==> !(error is Other),
        error is EmptyNodeId ==> r.error@ == "node_id is required"@,
        error is InvalidTtl ==> r.error@ == "ttl_seconds must be between "@ + decimal_text(
            min as nat,
        ) + " and "@ + decimal_text(max as nat),
        error matches JoinTokenError::Other(why) ==> r.error@ == why@,
{
}

proof fn newest_of_all(generations: Seq<u64>)
    ensures
        forall|i: int|
            0 <= i < generations.len() ==> #[trigger] generations[i] <= newest_generation(
                generations,
            ),
        generations.len() == 0 ==> newest_generation(generations) == 0,
        generations.len() > 0 ==> exists|i: int|
            0 <= i < generations.len() && #[trigger] generations[i] == newest_generation(
                generations,
            ),
    decreases generations.len(),
{
    if generations.len() > 0 {
        let rest = generations.drop_last();
        let end = generations.len() - 1;
        newest_of_all(rest);
        assert(generations.last() == generations[end]);
        assert forall|i: int| 0 <= i < generations.len() implies #[trigger] generations[i]
            <= newest_generation(generations) by {
            if i < end {
                assert(rest[i] == generations[i]);
            }
        }
        if newest_generation(generations) == generations[end] {
        } else {
            assert(rest.len() > 0);
            let i = choose|i: int|
                0 <= i < rest.len() && #[trigger] rest[i] == newest_generation(rest);
            assert(generations[i] == newest_generation(generations));
        }
        if rest.len() == 0 {
            assert(generations[end] == newest_generation(generations));
        }
    }
}

/// Keys are rotated exactly by a manager, with a council and, for a new key,
/// something to wrap it; the new one is one above all there are. A blank request
/// asks for a new key.
pub proof fn new_keys_come_after_all_others(
    auth: Option<&AuthContext>,
    body: &str,
    parsed: Result<bool, String>,
    council: bool,
    wrapping: bool,
    generations: &Vec<u64>,
    r: Result<Rotation, Refusal>,
)
    requires
        newest_generation(generations@) < u64::MAX,
        call_ensures(plan_rotation, (auth, body, parsed, council, wrapping, generations), r),
    ensures
        ({
            let blank = trimmed(body@).len() == 0;
            let finalise = !blank && (parsed matches Ok(asked) && asked);
            &&& r is Ok <==> !is_system(auth) && role_suffices(auth, ApiRole::Admin) && (blank
                || parsed is Ok) && council && (finalise || wrapping)
            &&& r is Ok ==> (r == Ok::<Rotation, Refusal>(Rotation::Finalise) <==> finalise)
            &&& r matches Ok(Rotation::NewKey(n)) ==> (forall|i: int|
                0 <= i < generations@.len() ==> #[trigger] generations@[i] < n) && (
            generations@.len() == 0 ==> n == 1) && (generations@.len() > 0 ==> exists|i: int|
                0 <= i < generations@.len() && #[trigger] generations@[i] + 1 == n)
        }),
{
    credentials(auth, ApiRole::Admin, Seq::empty(), Seq::empty());
    newest_of_all(generations@);
    if r is Ok {
        if generations@.len() > 0 {
            let i = choose|i: int|
                0 <= i < generations@.len() && #[trigger] generations@[i] == newest_generation(
                    generations@,
                );
            assert(generations@[i] + 1 == newest_generation(generations@) + 1);
        }
    }
}

/// A rotation is answered by what it did.
pub proof fn rotations_are_answered_by_what_they_did(
    rotation: Rotation,
    write: CouncilWrite,
    r: Result<String, Refusal>,
)
    requires
        call_ensures(answer_rotation, (rotation, write), r),
    ensures
        r is Ok <==> write is Committed,
        r matches Ok(words) ==> words@ == match rotation {
            Rotation::Finalise => "secret rotation finalised, old keys removed"@,
            Rotation::NewKey(n) => "secret key rotated to generation "@ + decimal_text(n as nat),
        },
        r matches Err(e) ==> (e.status is Conflict <==> write is Refused),
{
}

/// Signing is for managers, of what was parsed; and needs a council and a key.
pub proof fn signing_is_for_managers<T>(
    auth: Option<&AuthContext>,
    parsed: Result<T, String>,
    r: Result<T, Refusal>,
    council: bool,
    key: bool,
    has: Result<(), Refusal>,
)
    requires
        call_ensures(take_signing, (auth, parsed), r),
        call_ensures(require_signing_key, (council, key), has),
    ensures
        r is Ok <==> !is_system(auth) && role_suffices(auth, ApiRole::Admin) && parsed is Ok,
        r matches Ok(taken) ==> parsed == Ok::<T, String>(taken),
        has is Ok <==> council && key,
        has matches Err(e) ==> e.status is ServiceUnavailable,
{
    credentials(auth, ApiRole::Admin, Seq::empty(), Seq::empty());
}

/// The cluster's certificates are handed out where both are there, each as itself.
pub proof fn certificates_are_handed_out_as_themselves(
    council: bool,
    node_ca: Option<&Vec<u8>>,
    root_ca: Option<&Vec<u8>>,
    r: Result<ClusterCa, Refusal>,
)
    requires
        call_ensures(cluster_ca, (council, node_ca, root_ca), r),
    ensures
        r is Ok <==> council && node_ca is Some && root_ca is Some,
        r matches Ok(ca) ==> ca.node_ca_b64@ == crate::codec::base64_text(node_ca->0@)
            && ca.root_ca_b64@ == crate::codec::base64_text(root_ca->0@),
        r matches Err(e) ==> e.status is ServiceUnavailable,
{
}

/// Whether a text is a label of DNS: at most sixty-three small letters, digits and
/// dashes, with no dash at either end.
pub open spec fn is_dns_label(s: Seq<char>) -> bool {
    &&& 1 <= s.len() <= 63
    &&& forall|i: int|
        0 <= i < s.len() ==> {
            let c = #[trigger] s[i] as int;
            97 <= c <= 122 || 48 <= c <= 57 || (c == 45 && 0 < i < s.len() - 1)
        }
}

proof fn labels(s: Seq<char>)
    ensures
        is_label(s) <==> is_dns_label(s),
{
    if is_label(s) {
        assert forall|i: int| 0 <= i < s.len() implies {
            let c = #[trigger] s[i] as int;
            97 <= c <= 122 || 48 <= c <= 57 || (c == 45 && 0 < i < s.len() - 1)
        } by {
            assert(crate::api::trace::is_label_edge(s[i]) || s[i] == '-');
        }
    }
    if is_dns_label(s) {
        assert forall|i: int| 0 <= i < s.len() implies crate::api::trace::is_label_edge(
            #[trigger] s[i],
        ) || s[i] == '-' by {
            let c = s[i] as int;
            assert(97 <= c <= 122 || 48 <= c <= 57 || (c == 45 && 0 < i < s.len() - 1));
        }
        let first = s[0] as int;
        let last = s[s.len() - 1] as int;
        assert(97 <= first <= 122 || 48 <= first <= 57);
        assert(97 <= last <= 122 || 48 <= last <= 57);
    }
}

/// Labels are told by their characters.
pub proof fn labels_are_told_by_their_characters(value: &str, r: bool)
    requires
        call_ensures(valid_trace_label, (value,), r),
    ensures
        r <==> is_dns_label(value@),
{
    labels(value@);
}

/// A probe is admitted exactly from a labelled source in the caller's scope and to
/// a port, if any, that is not zero: inside to a labelled destination in scope;
/// outside to an allowed host and port, for a known caller whom the policy lets.
pub proof fn probes_are_admitted_by_scope_and_policy(
    auth: Option<&AuthContext>,
    request: &TraceRequest,
    policy: &Result<(), String>,
    allowlisted: bool,
    r: Result<TraceKind, Refusal>,
)
    requires
        call_ensures(admit_trace, (auth, request, policy, allowlisted), r),
    ensures
        r is Ok <==> request.port != Some(0u16) && is_dns_label(request.source@) && is_dns_label(
            request.source_namespace@,
        ) && scope_covers(auth, request.source@, request.source_namespace@) && if is_dns_label(
            request.destination@,
        ) {
            is_dns_label(request.destination_namespace@) && scope_covers(
                auth,
                request.destination@,
                request.destination_namespace@,
            )
        } else {
            request.port is Some && auth is Some && *policy is Ok && allowlisted
        },
        r matches Ok(kind) ==> (kind is Internal <==> is_dns_label(request.destination@)),
{
    credentials(auth, ApiRole::ReadOnly, request.source@, request.source_namespace@);
    credentials(auth, ApiRole::ReadOnly, request.destination@, request.destination_namespace@);
    labels(request.source@);
    labels(request.source_namespace@);
    labels(request.destination@);
    labels(request.destination_namespace@);
}

/// Whether a service is the first of its name and namespace.
pub open spec fn is_first_service(
    services: Seq<LiveService>,
    at: int,
    name: Seq<char>,
    namespace: Seq<char>,
) -> bool {
    0 <= at < services.len() && services[at].app_name@ == name && services[at].namespace@
        == namespace && forall|j: int|
        0 <= j < at ==> !((#[trigger] services[j]).app_name@ == name && services[j].namespace@
            == namespace)
}

proof fn first_services(services: Seq<LiveService>, name: Seq<char>, namespace: Seq<char>)
    ensures
        match live_port(services, name, namespace) {
            Some(port) => exists|at: int| #[trigger]
                is_first_service(services, at, name, namespace) && services[at].port == port,
            None => forall|j: int|
                0 <= j < services.len() ==> !((#[trigger] services[j]).app_name@ == name
                    && services[j].namespace@ == namespace),
        },
    decreases services.len(),
{
    if services.len() > 0 {
        let rest = services.skip(1);
        first_services(rest, name, namespace);
        if services[0].app_name@ == name && services[0].namespace@ == namespace {
            assert(is_first_service(services, 0, name, namespace));
        } else {
            match live_port(rest, name, namespace) {
                Some(port) => {
                    let at = choose|at: int| #[trigger]
                        is_first_service(rest, at, name, namespace) && rest[at].port == port;
                    assert forall|j: int| 0 <= j < at + 1 implies !((
                    #[trigger] services[j]).app_name@ == name && services[j].namespace@
                        == namespace) by {
                        if j > 0 {
                            assert(rest[j - 1] == services[j]);
                        }
                    }
                    assert(services[at + 1] == rest[at]);
                    assert(is_first_service(services, at + 1, name, namespace));
                },
                None => {
                    assert forall|j: int| 0 <= j < services.len() implies !((
                    #[trigger] services[j]).app_name@ == name && services[j].namespace@
                        == namespace) by {
                        if j > 0 {
                            assert(rest[j - 1] == services[j]);
                        }
                    }
                },
            }
        }
    }
}

/// A probe inside goes to the port that was asked for, or to that of the first
/// live service of the name; without such a service it goes nowhere.
pub proof fn probes_go_to_live_services(
    request: &TraceRequest,
    reply: &ServiceMapReply,
    r: Result<u16, Refusal>,
)
    requires
        call_ensures(probe_port, (request, reply), r),
    ensures
        r is Ok <==> (*reply matches ServiceMapReply::Services(services) && exists|i: int|
            0 <= i < services@.len() && (#[trigger] services@[i]).app_name@ == request.destination@
                && services@[i].namespace@ == request.destination_namespace@),
        r matches Ok(port) ==> (request.port matches Some(asked) ==> port == asked) && (
        request.port is None ==> (*reply matches ServiceMapReply::Services(services) && exists|
            at: int,
        |
            #[trigger] is_first_service(
                services@,
                at,
                request.destination@,
                request.destination_namespace@,
            ) && services@[at].port == port)),
        r matches Err(e) ==> if *reply is Services {
            e.status is NotFound
        } else {
            e.status is ServiceUnavailable
        },
{
    if *reply is Services {
        let services = reply->Services_0@;
        first_services(services, request.destination@, request.destination_namespace@);
    }
}

/// A probe is answered by how it went.
pub proof fn probes_are_answered_by_how_they_went(outcome: TraceOutcome, r: Result<(), Refusal>)
    requires
        call_ensures(answer_trace, (outcome,), r),
    ensures
        r is Ok <==> outcome is Done,
        r matches Err(e) ==> (e.status is NotFound <==> outcome is SourceNotFound) && (
        e.status is TooManyRequests <==> outcome is Busy) && (e.status is UnprocessableEntity
            <==> outcome is Failed) && (e.status is GatewayTimeout <==> outcome is TimedOut) && (
        e.status is ServiceUnavailable <==> outcome is AgentUnavailable || outcome is Dropped) && (
        outcome matches TraceOutcome::Failed(error) ==> e.error@ == error@),
{
}

/// An operation on an application is admitted where the role suffices, if one is
/// required, the scope covers it, and it is permitted.
pub proof fn operations_are_admitted_by_role_scope_and_permission(
    auth: Option<&AuthContext>,
    required: Option<ApiRole>,
    app: &str,
    namespace: &str,
    permission: &Result<(), String>,
    r: Result<(), Refusal>,
)
    requires
        call_ensures(admit_app_operation, (auth, required, app, namespace, permission), r),
    ensures
        r is Ok <==> (required matches Some(role) ==> role_suffices(auth, role)) && scope_covers(
            auth,
            app@,
            namespace@,
        ) && *permission is Ok,
        r matches Err(e) ==> e.status is Forbidden,
{
    credentials(
        auth,
        match required {
            Some(role) => role,
            None => ApiRole::ReadOnly,
        },
        app@,
        namespace@,
    );
}

/// The status of an application is that of its instances, and not found where it
/// has none.
pub proof fn applications_are_known_by_their_instances(
    statuses: &Vec<InstanceStatus>,
    app: &str,
    namespace: &str,
    r: Result<Vec<InstanceStatus>, Refusal>,
)
    requires
        call_ensures(app_status, (statuses, app, namespace), r),
    ensures
        ({
            let own = statuses@.filter(
                |s: InstanceStatus| s.app_name@ == app@ && s.namespace@ == namespace@,
            );
            &&& r is Ok <==> own.len() > 0
            &&& r matches Ok(found) ==> found@ == own
            &&& r matches Err(e) ==> e.status is NotFound
        }),
{
    let a = |s: InstanceStatus| crate::instances::belongs(s, app@, namespace@);
    let b = |s: InstanceStatus| s.app_name@ == app@ && s.namespace@ == namespace@;
    assert(a =~= b);
}

/// A workload is stopped here without a council; with one the leader clears what
/// is desired, and others pass the request on to it.
pub proof fn workloads_are_stopped_by_the_leader(
    is_leader: Option<bool>,
    leader: Option<String>,
    app: &str,
    namespace: &str,
    r: Result<StopRoute, Refusal>,
)
    requires
        call_ensures(stop_route, (is_leader, leader, app, namespace), r),
    ensures
        (r matches Ok(route) && route is Local) <==> is_leader is None,
        (r matches Ok(route) && route is ClearDesired) <==> is_leader == Some(true),
        is_leader == Some(false) ==> match leader {
            Some(url) => r matches Ok(StopRoute::Forward(at)) && at@ == url@ + "/v1/stop/"@ + app@
                + "/"@ + namespace@,
            None => r matches Err(e) && e.status is ServiceUnavailable,
        },
{
}

/// Failures of snapshots have the status of their kind.
pub proof fn snapshot_failures_have_their_status(
    failure: SnapshotFailure,
    words: &str,
    r: Refusal,
)
    requires
        call_ensures(snapshot_error_response, (failure, words), r),
    ensures
        r.error@ == words@,
        r.status is Conflict <==> failure is AppRunning,
        r.status is NotFound <==> failure is NotFound || failure is NoVolumes,
        r.status is BadRequest <==> failure is UnsupportedFilesystem,
        r.status is InternalServerError <==> failure is Other,
{
}

/// What the agent found is passed on, and what it did not is not found.
pub proof fn what_was_not_found_is_not_found<T>(
    reply: AgentReply<Option<T>>,
    name: &str,
    resolved: Result<T, Refusal>,
    env: Result<T, Refusal>,
)
    requires
        call_ensures(answer_resolve, (reply, name), resolved),
        call_ensures(answer_app_env, (reply,), env),
    ensures
        reply matches AgentReply::Done(Some(found)) ==> resolved == Ok::<T, Refusal>(found) && env
            == Ok::<T, Refusal>(found),
        !(reply matches AgentReply::Done(Some(_))) ==> resolved is Err && env is Err,
        resolved matches Err(e) ==> (e.status is NotFound <==> reply is Done) && (
        e.status is NotFound || e.status is InternalServerError),
        env matches Err(e) ==> (e.status is NotFound <==> reply is Done) && (e.status is NotFound
            || e.status is InternalServerError),
{
}

/// A session has the name and the scope of its token; that of the cluster has its
/// name and no scope.
pub proof fn sessions_have_the_scope_of_their_token(
    service: bool,
    system: &str,
    user: Option<AuthContext>,
    r: Result<SessionIdentity, Refusal>,
)
    requires
        call_ensures(session_identity, (service, system, user), r),
    ensures
        r is Ok <==> service || user is Some,
        service ==> (r matches Ok(session) && session.name@ == system@ && session.apps is None
            && session.namespaces is None),
        !service ==> (user matches Some(of) ==> (r matches Ok(session) && session.name
            == of.token_name && session.apps == of.scoped_apps && session.namespaces
            == of.scoped_namespaces)),
        r matches Err(e) ==> e.status is Unauthorized,
{
}

/// A cookie is for this site alone, lasts twelve hours, and is cleared at once.
pub proof fn cookies_last_twelve_hours(cookie: &str, id: &str, r: String, cleared: String)
    requires
        call_ensures(session_cookie, (cookie, id), r),
        call_ensures(cleared_cookie, (cookie,), cleared),
    ensures
        r@ == cookie@ + "="@ + id@ + "; HttpOnly; SameSite=Strict; Path=/; Max-Age=43200"@,
        cleared@ == cookie@ + "=; HttpOnly; SameSite=Strict; Path=/; Max-Age=0"@,
{
}

/// A node leads where it is the leader, is of the council where it votes, and
/// works otherwise.
pub proof fn nodes_lead_vote_or_work(id: u64, council: &CouncilView, r: NodeRole)
    requires
        call_ensures(role_from_raft, (id, council), r),
    ensures
        r is Leader <==> council.leader == Some(id),
        r is Council <==> council.leader != Some(id) && exists|i: int|
            0 <= i < council.voters@.len() && #[trigger] council.voters@[i] == id,
{
}

/// An upgrade starts exactly for an administrator, with a council, nodes that are
/// known and at least one, and no other under way; it is what was asked for, at
/// least one node at a time, and forward unless it says otherwise.
pub proof fn upgrades_start_as_asked_for(
    auth: Option<&AuthContext>,
    council: bool,
    request: Result<StartRequest, String>,
    membership: bool,
    nodes: Result<Vec<NodeUpgradeRecord>, String>,
    active: bool,
    millis: Option<u128>,
    r: Result<ClusterUpgrade, Refusal>,
)
    requires
        call_ensures(
            start_upgrade,
            (auth, council, request, membership, nodes, active, millis),
            r,
        ),
    ensures
        r is Ok <==> role_suffices(auth, ApiRole::Admin) && council && (request matches Ok(asked)
            && asked.nodes@.len() > 0) && membership && nodes is Ok && !active,
        r matches Ok(plan) ==> {
            let asked = request->Ok_0;
            &&& plan.target_version == asked.target_version && plan.binary_sha256
                == asked.binary_sha256 && plan.embedded_signature == asked.embedded_signature
                && plan.external_signature == asked.external_signature && plan.registry_address
                == asked.registry_address && plan.nodes == nodes->Ok_0
            &&& asked.parallel > 0 ==> plan.parallel == asked.parallel
            &&& asked.parallel == 0 ==> plan.parallel == 1
            &&& plan.direction is Rollback <==> asked.direction == Some(UpgradeDirection::Rollback)
            &&& plan.phase is Preparing
            &&& plan.upgrade_id@ == "up-"@ + asked.target_version@ + "-"@ + decimal_text(
                match millis {
                    Some(n) => n as nat,
                    None => 0,
                },
            )
        },
        r matches Err(e) ==> (e.status is Forbidden <==> !role_suffices(auth, ApiRole::Admin)) && (
        active && role_suffices(auth, ApiRole::Admin) && council && (request matches Ok(asked)
            && asked.nodes@.len() > 0) && membership && nodes is Ok ==> e.status is Conflict),
{
    credentials(auth, ApiRole::Admin, Seq::empty(), Seq::empty());
}

/// A rollback starts exactly for an administrator, with a council and no other
/// change under way: of the nodes that were named, one at a time, each pending.
pub proof fn rollbacks_start_one_node_at_a_time(
    auth: Option<&AuthContext>,
    council: bool,
    request: Result<RollbackRequest, String>,
    active: bool,
    millis: Option<u128>,
    r: Result<ClusterUpgrade, Refusal>,
)
    requires
        call_ensures(start_rollback, (auth, council, request, active, millis), r),
    ensures
        r is Ok <==> role_suffices(auth, ApiRole::Admin) && council && request is Ok && !active,
        r matches Ok(plan) ==> {
            let asked = request->Ok_0;
            &&& plan.target_version == asked.target_version && plan.direction is Rollback
                && plan.parallel == 1 && plan.phase is Preparing && plan.external_signature is None
                && plan.binary_sha256@.len() == 0 && plan.embedded_signature@.len() == 0
                && plan.registry_address@.len() == 0
            &&& plan.nodes@.len() == asked.nodes@.len()
            &&& forall|i: int|
                0 <= i < asked.nodes@.len() ==> (#[trigger] plan.nodes@[i]).node_id
                    == asked.nodes@[i].node_id && plan.nodes@[i].address == asked.nodes@[i].address
                    && plan.nodes@[i].role == asked.nodes@[i].role && plan.nodes@[i].phase is Pending
                    && plan.nodes@[i].from_version is None && plan.nodes@[i].since is None
            &&& plan.upgrade_id@ == "rollback-"@ + asked.target_version@ + "-"@ + decimal_text(
                match millis {
                    Some(n) => n as nat,
                    None => 0,
                },
            )
        },
{
    credentials(auth, ApiRole::Admin, Seq::empty(), Seq::empty());
}

/// An upgrade is resumed exactly by an administrator, with a council, while it is
/// paused.
pub proof fn paused_upgrades_are_resumed(
    auth: Option<&AuthContext>,
    council: bool,
    active: ActiveUpgrade,
    r: Result<(), Refusal>,
)
    requires
        call_ensures(resume_upgrade, (auth, council, active), r),
    ensures
        r is Ok <==> role_suffices(auth, ApiRole::Admin) && council && active is Paused,
        r matches Err(e) ==> (e.status is NotFound <==> role_suffices(auth, ApiRole::Admin)
            && council && active is Absent) && (e.status is Conflict <==> role_suffices(
            auth,
            ApiRole::Admin,
        ) && council && active is Running),
{
    credentials(auth, ApiRole::Admin, Seq::empty(), Seq::empty());
}

/// The council is for those whose role suffices, where there is one; directives
/// and rollbacks of a node are for administrators.
pub proof fn the_council_is_for_those_whose_role_suffices<T>(
    auth: Option<&AuthContext>,
    required: ApiRole,
    council: bool,
    r: Result<(), Refusal>,
    directive: Result<T, String>,
    taken: Result<T, Refusal>,
    body: &str,
    version: Result<Option<String>, String>,
    back: Result<Option<String>, Refusal>,
)
    requires
        call_ensures(admit_to_council, (auth, required, council), r),
        call_ensures(take_directive, (auth, directive), taken),
        call_ensures(take_node_rollback, (auth, body, version), back),
    ensures
        r is Ok <==> role_suffices(auth, required) && council,
        taken is Ok <==> role_suffices(auth, ApiRole::Admin) && directive is Ok,
        taken matches Ok(given) ==> directive == Ok::<T, String>(given),
        back is Ok <==> role_suffices(auth, ApiRole::Admin) && (trimmed(body@).len() == 0
            || version is Ok),
        back matches Ok(to) ==> if trimmed(body@).len() == 0 {
            to is None
        } else {
            version == Ok::<Option<String>, String>(to)
        },
{
    credentials(auth, required, Seq::empty(), Seq::empty());
    credentials(auth, ApiRole::Admin, Seq::empty(), Seq::empty());
}

proof fn viewed(members: Seq<NodeMembershipInfo>, leader: Option<u64>, voters: Seq<u64>, at: int)
    requires
        0 <= at < members.len(),
        forall|j: int|
            at < j < members.len() ==> (#[trigger] members[j]).node_id@ != members[at].node_id@,
    ensures
        ({
            let view = authoritative_view(members, leader, voters);
            let id = members[at].node_id@;
            &&& view.dom().contains(id)
            &&& view[id].address == members[at].address
            &&& view[id].role is Leader <==> leader == Some(members[at].raft_id)
            &&& view[id].role is Council <==> leader != Some(members[at].raft_id)
                && voters.contains(members[at].raft_id)
        }),
    decreases members.len(),
{
    let end = members.len() - 1;
    if at < end {
        let rest = members.drop_last();
        assert forall|j: int| at < j < rest.len() implies (#[trigger] rest[j]).node_id@
            != rest[at].node_id@ by {
            assert(rest[j] == members[j]);
        }
        viewed(rest, leader, voters, at);
        assert(members[end].node_id@ != members[at].node_id@);
    }
}

/// The view of the cluster has each member at its address and in its role, the
/// last where two have one name.
pub proof fn the_view_has_each_member_in_its_role(
    members: Option<&Vec<NodeMembershipInfo>>,
    council: &CouncilView,
    r: Result<OrderedMap<String, AuthoritativeNode>, Refusal>,
    at: int,
)
    requires
        call_ensures(build_authoritative_view, (members, council), r),
    ensures
        r is Ok <==> members is Some,
        r matches Err(e) ==> e.status is ServiceUnavailable,
        r matches Ok(view) ==> (0 <= at < members->0@.len() && (forall|j: int|
            at < j < members->0@.len() ==> (#[trigger] members->0@[j]).node_id@
                != members->0@[at].node_id@) ==> {
            let member = members->0@[at];
            &&& view@.dom().contains(member.node_id@)
            &&& view@[member.node_id@].address == member.address
            &&& view@[member.node_id@].role is Leader <==> council.leader == Some(member.raft_id)
            &&& view@[member.node_id@].role is Council <==> council.leader != Some(member.raft_id)
                && council.voters@.contains(member.raft_id)
        }),
{
    if members is Some && 0 <= at < members->0@.len() && (forall|j: int|
        at < j < members->0@.len() ==> (#[trigger] members->0@[j]).node_id@
            != members->0@[at].node_id@) {
        viewed(members->0@, council.leader, council.voters@, at);
    }
}

} // verus!
