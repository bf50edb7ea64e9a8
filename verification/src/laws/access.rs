//! Who may do what, and how refusals are answered.

use vstd::prelude::*;

use crate::access::{
    authorize, authorize_scoped, authorize_user, reaches, require_unscoped, AuthContext, Denial,
};
use crate::instances::{pick_instances, InstanceStatus};
use crate::policy::{
    operation_policy, ApiRole, ClusterTestPolicy, MinimumRoles, OperationPermission,
    OperationPolicyEvidence,
};
use crate::reply::{proxied_status, ClusterHttp, Refusal, Status};
use crate::text::strings;

verus! {

/// A role reaches itself and what is below it: administrators reach all, and only
/// they reach administration; readers reach only reading.
pub proof fn roles_reach_what_is_below(role: ApiRole, required: ApiRole, r: bool)
    requires
        call_ensures(reaches, (role, required), r),
    ensures
        r <==> role is Admin || required is ReadOnly || (role is Deployer
            && required is Deployer),
{
}

/// A caller without a context may do anything; any other what their role reaches.
pub proof fn callers_may_do_what_their_role_reaches(
    auth: Option<&AuthContext>,
    required: ApiRole,
    r: Result<(), Denial>,
    user: Result<(), Denial>,
)
    requires
        call_ensures(authorize, (auth, required), r),
        call_ensures(authorize_user, (auth, required), user),
    ensures
        r is Ok <==> (auth matches Some(caller) ==> caller.role is Admin || required is ReadOnly
            || (caller.role is Deployer && required is Deployer)),
        r matches Err(denial) ==> denial is Role,
        user is Ok <==> r is Ok && !(auth matches Some(caller) && caller.system),
        user matches Err(denial) ==> if auth->0.system {
            denial is ServicePrincipal
        } else {
            denial is Role
        },
{
}

/// Whether a list of names, where there is one, holds a name.
pub open spec fn admits(scope: Option<Vec<String>>, name: Seq<char>) -> bool {
    scope matches Some(names) ==> exists|i: int|
        0 <= i < names@.len() && (#[trigger] names@[i])@ == name
}

/// A caller may touch an application where both its name and its namespace are in
/// their scope; the system and those without a scope may touch all.
pub proof fn callers_touch_what_is_in_their_scope(
    auth: Option<&AuthContext>,
    app: &str,
    namespace: &str,
    r: Result<(), Denial>,
)
    requires
        call_ensures(authorize_scoped, (auth, app, namespace), r),
    ensures
        r is Ok <==> (auth matches Some(caller) ==> caller.system || (admits(
            caller.scoped_apps,
            app@,
        ) && admits(caller.scoped_namespaces, namespace@))),
        r matches Err(denial) ==> denial is Scope,
{
    if auth is Some {
        scopes_admit(auth->0.scoped_apps, app@);
        scopes_admit(auth->0.scoped_namespaces, namespace@);
    }
}

proof fn scopes_admit(scope: Option<Vec<String>>, name: Seq<char>)
    ensures
        crate::access::in_scope(scope, name) <==> admits(scope, name),
{
    if scope is Some {
        let names = scope->0@;
        let all = strings(names);
        if all.contains(name) {
            let i = choose|i: int| 0 <= i < all.len() && all[i] == name;
            assert(names[i]@ == name);
        }
        if exists|i: int| 0 <= i < names.len() && (#[trigger] names[i])@ == name {
            let i = choose|i: int| 0 <= i < names.len() && (#[trigger] names[i])@ == name;
            assert(all[i] == name);
        }
    }
}

/// What an authorised caller may touch is what the scope of their credential
/// admits.
pub proof fn touching_is_by_scope(
    auth: Option<AuthContext>,
    app: Seq<char>,
    namespace: Seq<char>,
)
    ensures
        crate::access::may_touch(auth, app, namespace) <==> (auth matches Some(caller)
            ==> caller.system || (admits(caller.scoped_apps, app) && admits(
            caller.scoped_namespaces,
            namespace,
        ))),
{
    if auth is Some {
        scopes_admit(auth->0.scoped_apps, app);
        scopes_admit(auth->0.scoped_namespaces, namespace);
    }
}

/// Whether the role of a caller, where there is one, reaches what is required.
pub open spec fn role_suffices(auth: Option<&AuthContext>, required: ApiRole) -> bool {
    auth matches Some(caller) ==> caller.role is Admin || required is ReadOnly || (
    caller.role is Deployer && required is Deployer)
}

/// Whether the scope of a caller, where there is one, covers an application.
pub open spec fn scope_covers(
    auth: Option<&AuthContext>,
    app: Seq<char>,
    namespace: Seq<char>,
) -> bool {
    auth matches Some(caller) ==> caller.system || (admits(caller.scoped_apps, app) && admits(
        caller.scoped_namespaces,
        namespace,
    ))
}

/// Whether a caller has no scope to stay in.
pub open spec fn has_no_scope(auth: Option<&AuthContext>) -> bool {
    auth matches Some(caller) ==> caller.system || (caller.scoped_apps is None
        && caller.scoped_namespaces is None)
}

/// Whether a caller is the cluster itself.
pub open spec fn is_system(auth: Option<&AuthContext>) -> bool {
    auth matches Some(caller) && caller.system
}

/// What the rules of access say of a caller, in terms of their credential.
pub proof fn credentials(
    auth: Option<&AuthContext>,
    required: ApiRole,
    app: Seq<char>,
    namespace: Seq<char>,
)
    ensures
        crate::access::has_role(crate::access::caller(auth), required) == role_suffices(
            auth,
            required,
        ),
        crate::access::may_touch(crate::access::caller(auth), app, namespace) == scope_covers(
            auth,
            app,
            namespace,
        ),
        crate::access::is_unconfined(crate::access::caller(auth)) == has_no_scope(auth),
{
    touching_is_by_scope(crate::access::caller(auth), app, namespace);
}

/// What is for the whole cluster is for those whose scope has neither
/// applications nor namespaces, and for the system.
pub proof fn cluster_wide_access_is_for_the_unconfined(
    auth: Option<&AuthContext>,
    r: Result<(), Denial>,
)
    requires
        call_ensures(require_unscoped, (auth,), r),
    ensures
        r is Ok <==> (auth matches Some(caller) ==> caller.system || (caller.scoped_apps is None
            && caller.scoped_namespaces is None)),
        r matches Err(denial) ==> denial is Confined,
{
}

/// Every denial is answered as forbidden, and says why.
pub proof fn denials_are_forbidden(denial: Denial, r: Refusal)
    requires
        call_ensures(Denial::refusal, (denial,), r),
    ensures
        r.status is Forbidden,
        denial is Role ==> r.error@ == "role does not permit this operation"@,
        denial is ServicePrincipal ==> r.error@
            == "service principal may not perform user operations"@,
        denial is Scope ==> r.error@ == "token scope does not allow this app or namespace"@,
        denial is Confined ==> r.error@ == "token scope does not allow cluster-wide access"@,
{
}

/// Statuses have the numbers of HTTP.
pub proof fn statuses_have_their_numbers(status: Status, r: u16)
    requires
        call_ensures(Status::code, (status,), r),
    ensures
        status is Success ==> r == 200,
        status is Created ==> r == 201,
        status is Accepted ==> r == 202,
        status is NoContent ==> r == 204,
        status is BadRequest ==> r == 400,
        status is Unauthorized ==> r == 401,
        status is Forbidden ==> r == 403,
        status is NotFound ==> r == 404,
        status is Conflict ==> r == 409,
        status is UnprocessableEntity ==> r == 422,
        status is TooManyRequests ==> r == 429,
        status is InternalServerError ==> r == 500,
        status is BadGateway ==> r == 502,
        status is ServiceUnavailable ==> r == 503,
        status is GatewayTimeout ==> r == 504,
{
}

/// A status of a peer is passed on where it has three digits, and is a bad gateway
/// otherwise.
pub proof fn peer_statuses_are_passed_on(code: u16, r: u16)
    requires
        call_ensures(proxied_status, (code,), r),
    ensures
        100 <= code < 1000 ==> r == code,
        code < 100 || code >= 1000 ==> r == 502,
{
}

/// A peer is asked in the scheme of the cluster, at its address and path.
pub proof fn peers_are_asked_in_the_clusters_scheme(
    http: &ClusterHttp,
    address: &str,
    path: &str,
    r: String,
)
    requires
        call_ensures(ClusterHttp::url, (http, address, path), r),
    ensures
        http.tls ==> r@ == "https://"@ + address@ + path@,
        !http.tls ==> r@ == "http://"@ + address@ + path@,
{
}

/// An operation has the role that was set for it.
pub proof fn operations_have_the_role_set_for_them(
    roles: &MinimumRoles,
    operation: OperationPermission,
    r: String,
)
    requires
        call_ensures(MinimumRoles::minimum_role, (roles, operation), r),
    ensures
        operation is ReadDiagnostics ==> r == roles.read_diagnostics,
        operation is ProvisionIsolatedWorkloads ==> r == roles.provision_isolated_workloads,
        operation is InjectWorkloadFaults ==> r == roles.inject_workload_faults,
        operation is AlterNodeState ==> r == roles.alter_node_state,
        operation is SaturateCapacity ==> r == roles.saturate_capacity,
        operation is ProbeExternalDestination ==> r == roles.probe_external_destination,
{
}

/// An operation is allowed where it is listed.
pub proof fn operations_are_allowed_where_listed(
    policy: &ClusterTestPolicy,
    operation: OperationPermission,
    r: bool,
)
    requires
        call_ensures(ClusterTestPolicy::is_allowed, (policy, operation), r),
    ensures
        r <==> exists|i: int|
            0 <= i < policy.allowed_operations@.len() && #[trigger] policy.allowed_operations@[i]
                == operation,
{
}

/// Each of the six operations is told of once. Reading is always allowed; any
/// other where it is listed, and on a protected cluster only if changes are
/// allowed there. What can do harm needs an acknowledgement.
pub proof fn operations_are_told_by_policy(
    policy: &ClusterTestPolicy,
    r: Vec<OperationPolicyEvidence>,
    operation: OperationPermission,
)
    requires
        call_ensures(operation_policy, (policy,), r),
    ensures
        r@.len() == 6,
        exists|at: int|
            0 <= at < 6 && (#[trigger] r@[at]).operation == operation && (forall|j: int|
                0 <= j < 6 && j != at ==> (#[trigger] r@[j]).operation != operation) && (
            r@[at].server_allowed <==> operation is ReadDiagnostics || exists|i: int|
                0 <= i < policy.allowed_operations@.len()
                    && #[trigger] policy.allowed_operations@[i] == operation) && (
            r@[at].protected_cluster_allowed <==> operation is ReadDiagnostics || !policy.protected
                || policy.allow_protected_mutation) && (r@[at].acknowledgement_required
                <==> operation is InjectWorkloadFaults || operation is AlterNodeState
                || operation is SaturateCapacity) && r@[at].minimum_role == (match operation {
                OperationPermission::ReadDiagnostics => policy.minimum_roles.read_diagnostics,
                OperationPermission::ProvisionIsolatedWorkloads =>
                    policy.minimum_roles.provision_isolated_workloads,
                OperationPermission::InjectWorkloadFaults =>
                    policy.minimum_roles.inject_workload_faults,
                OperationPermission::AlterNodeState => policy.minimum_roles.alter_node_state,
                OperationPermission::SaturateCapacity => policy.minimum_roles.saturate_capacity,
                OperationPermission::ProbeExternalDestination =>
                    policy.minimum_roles.probe_external_destination,
            }),
{
    let at = crate::policy::every_operation_is_listed_once(*policy, operation);
    assert(r@[at].operation == operation);
}

/// The instances of an application are those of its name and namespace, in their
/// order.
pub proof fn instances_are_picked_by_name_and_namespace(
    statuses: &Vec<InstanceStatus>,
    app: &str,
    namespace: &str,
    r: Vec<InstanceStatus>,
)
    requires
        call_ensures(pick_instances, (statuses, app, namespace), r),
    ensures
        r@ == statuses@.filter(
            |s: InstanceStatus| s.app_name@ == app@ && s.namespace@ == namespace@,
        ),
{
    let a = |s: InstanceStatus| crate::instances::belongs(s, app@, namespace@);
    let b = |s: InstanceStatus| s.app_name@ == app@ && s.namespace@ == namespace@;
    assert(a =~= b);
}

} // verus!
