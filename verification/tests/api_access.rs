//! Who may do what, and which routes ask.

use bun::access::{
    authorize, authorize_scoped, authorize_user, reaches, require_unscoped, AuthContext, Denial,
};
use bun::api::routes::{route_access, Access};
use bun::api::trace::{
    admit_trace, answer_trace, internal_port, probe_port, valid_trace_label, LiveService, ServiceMapReply, TraceKind,
    TraceOutcome, TraceRequest,
};
use bun::api::workloads::{
    admit_app_operation, answer_app_env, answer_clear_desired, answer_resolve, app_status,
    cleared_cookie, session_cookie, session_identity, snapshot_error_response, stop_route,
    SnapshotFailure, StopRoute,
};
use bun::api::agent::{
    agent_unavailable, answer_command, answer_desired_apps, answer_or_outage, readiness_status, AgentReply,
};
use bun::api::leases::CouncilWrite;
use bun::instances::InstanceStatus;
use bun::policy::{
    operation_policy, ApiRole, ClusterTestPolicy, OperationPermission,
};
use bun::reply::{proxied_status, ClusterHttp, Status};

fn user(role: ApiRole) -> AuthContext {
    AuthContext {
        token_name: "alice".to_string(),
        principal_id: "token:alice".to_string(),
        role,
        scoped_apps: None,
        scoped_namespaces: None,
        system: false,
    }
}

fn confined(role: ApiRole, namespace: &str) -> AuthContext {
    AuthContext { scoped_namespaces: Some(vec![namespace.to_string()]), ..user(role) }
}

fn system() -> AuthContext {
    AuthContext { system: true, ..confined(ApiRole::Admin, "elsewhere") }
}

#[test]
fn roles_ascend() {
    for (role, required, reached) in [
        (ApiRole::ReadOnly, ApiRole::ReadOnly, true),
        (ApiRole::ReadOnly, ApiRole::Deployer, false),
        (ApiRole::Deployer, ApiRole::ReadOnly, true),
        (ApiRole::Deployer, ApiRole::Admin, false),
        (ApiRole::Admin, ApiRole::Admin, true),
    ] {
        assert_eq!(reaches(role, required), reached);
        assert_eq!(authorize(Some(&user(role)), required).is_ok(), reached);
    }
    assert!(authorize(None, ApiRole::Admin).is_ok());
}

#[test]
fn the_cluster_itself_does_no_user_work() {
    assert!(authorize(Some(&system()), ApiRole::Admin).is_ok());
    assert_eq!(
        authorize_user(Some(&system()), ApiRole::Admin),
        Err(Denial::ServicePrincipal)
    );
    assert_eq!(authorize_user(Some(&user(ApiRole::Deployer)), ApiRole::Admin), Err(Denial::Role));
    assert!(authorize_user(None, ApiRole::Admin).is_ok());
}

#[test]
fn confined_tokens_stay_in_scope() {
    let auth = confined(ApiRole::Deployer, "a");
    assert!(authorize_scoped(Some(&auth), "web", "a").is_ok());
    assert_eq!(authorize_scoped(Some(&auth), "web", "b"), Err(Denial::Scope));
    assert_eq!(require_unscoped(Some(&auth)), Err(Denial::Confined));
    assert!(require_unscoped(Some(&user(ApiRole::ReadOnly))).is_ok());
    assert!(require_unscoped(Some(&system())).is_ok());
    assert!(authorize_scoped(Some(&system()), "web", "b").is_ok());
    let by_app =
        AuthContext { scoped_apps: Some(vec!["web".to_string()]), ..user(ApiRole::Deployer) };
    assert!(authorize_scoped(Some(&by_app), "web", "b").is_ok());
    assert_eq!(authorize_scoped(Some(&by_app), "api", "b"), Err(Denial::Scope));
    assert_eq!(Denial::Scope.refusal().status, Status::Forbidden);
}

#[test]
fn public_routes_are_few_and_everything_else_is_protected() {
    for path in [
        "/v1/health",
        "/v1/version",
        "/v1/identity/jwks",
        "/ui/static/{*path}",
        "/v1/cluster/join",
        "/v1/cluster/ca",
        "/v1/gitops/webhook",
    ] {
        assert_eq!(route_access(path), Access::Public);
    }
    for path in ["/ui/login", "/ui/session", "/ui/logout"] {
        assert_eq!(route_access(path), Access::Login);
    }
    for path in ["/", "/v1/apply", "/v1/readiness", "/v1/capabilities", "/v1/ws/events", ""] {
        assert_eq!(route_access(path), Access::Protected);
    }
}

#[test]
fn internal_trace_names_are_single_dns_labels() {
    for valid in ["api", "api-v2", "a1"] {
        assert!(valid_trace_label(valid), "rejected {valid:?}");
    }
    for invalid in ["", "API", "-api", "api-", "api.default", "api;id"] {
        assert!(!valid_trace_label(invalid), "accepted {invalid:?}");
    }
}

#[test]
fn trace_labels_are_bounded() {
    assert!(valid_trace_label(&"a".repeat(63)));
    assert!(!valid_trace_label(&"a".repeat(64)));
}

fn trace(destination: &str, port: Option<u16>) -> TraceRequest {
    TraceRequest {
        source: "web".to_string(),
        source_namespace: "default".to_string(),
        destination: destination.to_string(),
        destination_namespace: "default".to_string(),
        port,
    }
}

#[test]
fn internal_traces_need_scope_alone() {
    let denied = Err("policy".to_string());
    let reader = user(ApiRole::ReadOnly);
    assert_eq!(
        admit_trace(Some(&reader), &trace("api", None), &denied, false).unwrap(),
        TraceKind::Internal
    );
    let refusal =
        admit_trace(Some(&confined(ApiRole::Admin, "b")), &trace("api", None), &Ok(()), true)
            .unwrap_err();
    assert_eq!(refusal.status, Status::Forbidden);
    let refusal = admit_trace(None, &trace("api", Some(0)), &Ok(()), true).unwrap_err();
    assert_eq!(refusal.error, "trace destination port must be between 1 and 65535");
    let mut odd = trace("api", None);
    odd.source_namespace = "Default".to_string();
    assert_eq!(
        admit_trace(None, &odd, &Ok(()), true).unwrap_err().error,
        "trace source and namespace must be DNS labels"
    );
    let mut odd = trace("api", None);
    odd.destination_namespace = "a.b".to_string();
    assert_eq!(
        admit_trace(None, &odd, &Ok(()), true).unwrap_err().error,
        "internal destination namespace must be a DNS label"
    );
}

#[test]
fn external_traces_need_a_user_a_policy_and_an_exact_destination() {
    let admin = user(ApiRole::Admin);
    let error = |auth: Option<&AuthContext>, port, policy: Result<(), String>, listed| {
        admit_trace(auth, &trace("example.org", port), &policy, listed).unwrap_err().error
    };
    assert_eq!(
        error(Some(&admin), None, Ok(()), true),
        "external trace destination requires --port"
    );
    assert_eq!(
        error(None, Some(443), Ok(()), true),
        "external trace requires an authenticated Admin credential"
    );
    assert_eq!(error(Some(&admin), Some(443), Err("no".to_string()), true), "no");
    assert_eq!(
        error(Some(&admin), Some(443), Ok(()), false),
        "external trace destination is not exactly allowlisted as host:port"
    );
    assert_eq!(
        admit_trace(Some(&admin), &trace("example.org", Some(443)), &Ok(()), true).unwrap(),
        TraceKind::External
    );
}

#[test]
fn internal_ports_come_from_the_live_service_map() {
    let services = vec![
        LiveService { app_name: "api".to_string(), namespace: "other".to_string(), port: 1 },
        LiveService { app_name: "api".to_string(), namespace: "default".to_string(), port: 8080 },
    ];
    assert_eq!(internal_port(&trace("api", None), &services).unwrap(), 8080);
    assert_eq!(internal_port(&trace("api", Some(99)), &services).unwrap(), 99);
    assert_eq!(internal_port(&trace("db", Some(99)), &services).unwrap_err().status, Status::NotFound);
    let probed = |reply: ServiceMapReply| probe_port(&trace("api", None), &reply);
    assert_eq!(probed(ServiceMapReply::Services(services)).unwrap(), 8080);
    let unavailable = probed(ServiceMapReply::Unavailable).unwrap_err();
    assert_eq!(
        (unavailable.status, unavailable.error.as_str()),
        (Status::ServiceUnavailable, "agent unavailable")
    );
    let dropped = probed(ServiceMapReply::Dropped).unwrap_err();
    assert_eq!(
        (dropped.status, dropped.error.as_str()),
        (Status::ServiceUnavailable, "agent dropped service-map response")
    );
}

#[test]
fn each_outcome_of_a_trace_has_its_status() {
    assert!(answer_trace(TraceOutcome::Done).is_ok());
    for (outcome, status) in [
        (TraceOutcome::AgentUnavailable, Status::ServiceUnavailable),
        (TraceOutcome::SourceNotFound, Status::NotFound),
        (TraceOutcome::Busy, Status::TooManyRequests),
        (TraceOutcome::Failed("x".to_string()), Status::UnprocessableEntity),
        (TraceOutcome::Dropped, Status::ServiceUnavailable),
        (TraceOutcome::TimedOut, Status::GatewayTimeout),
    ] {
        assert_eq!(answer_trace(outcome).unwrap_err().status, status);
    }
}

#[test]
fn app_operations_are_checked_by_role_scope_and_permission() {
    let reader = user(ApiRole::ReadOnly);
    let deployer = confined(ApiRole::Deployer, "a");
    let allowed: Result<(), String> = Ok(());
    let required = Some(ApiRole::Deployer);
    let error = |auth: &AuthContext, namespace: &str, permission: &Result<(), String>| {
        admit_app_operation(Some(auth), required, "web", namespace, permission).unwrap_err().error
    };
    assert_eq!(error(&reader, "a", &allowed), Denial::Role.refusal().error);
    assert_eq!(error(&deployer, "b", &allowed), Denial::Scope.refusal().error);
    assert_eq!(error(&deployer, "a", &Err("no exec".to_string())), "no exec");
    assert!(admit_app_operation(Some(&deployer), required, "web", "a", &allowed).is_ok());
    assert!(admit_app_operation(Some(&reader), None, "web", "a", &allowed).is_ok());
}

fn instance(app: &str, namespace: &str) -> InstanceStatus {
    InstanceStatus {
        id: format!("{namespace}__{app}-0"),
        app_name: app.to_string(),
        namespace: namespace.to_string(),
        state: "running".to_string(),
        exit_code: None,
        pid: None,
    }
}

#[test]
fn the_status_of_an_app_is_of_its_namespace() {
    let statuses = vec![instance("web", "a"), instance("web", "b"), instance("api", "a")];
    let shown = app_status(&statuses, "web", "b").unwrap();
    assert_eq!(shown.len(), 1);
    assert_eq!(shown[0].id, "b__web-0");
    let refusal = app_status(&statuses, "api", "b").unwrap_err();
    assert_eq!(refusal.status, Status::NotFound);
    assert_eq!(refusal.error, "app api not found in b");
}

#[test]
fn stops_clear_desired_state_at_the_leader() {
    assert!(matches!(stop_route(None, None, "web", "a"), Ok(StopRoute::Local)));
    assert!(matches!(stop_route(Some(true), None, "web", "a"), Ok(StopRoute::ClearDesired)));
    assert!(matches!(
        stop_route(Some(false), Some("http://l".to_string()), "web", "a"),
        Ok(StopRoute::Forward(url)) if url == "http://l/v1/stop/web/a"
    ));
    assert_eq!(
        stop_route(Some(false), None, "web", "a").unwrap_err().error,
        "no cluster leader known yet; retry shortly"
    );
    assert!(answer_clear_desired(CouncilWrite::Committed).is_ok());
    assert!(answer_clear_desired(CouncilWrite::Refused("x".to_string())).is_ok());
    assert_eq!(
        answer_clear_desired(CouncilWrite::Failed("x".to_string())).unwrap_err().error,
        "failed to clear desired state: x"
    );
}

#[test]
fn each_failure_of_a_snapshot_has_its_status() {
    for (failure, status) in [
        (SnapshotFailure::AppRunning, Status::Conflict),
        (SnapshotFailure::NotFound, Status::NotFound),
        (SnapshotFailure::NoVolumes, Status::NotFound),
        (SnapshotFailure::UnsupportedFilesystem, Status::BadRequest),
        (SnapshotFailure::Other, Status::InternalServerError),
    ] {
        let refusal = snapshot_error_response(failure, "words");
        assert_eq!(refusal.status, status);
        assert_eq!(refusal.error, "words");
    }
}

#[test]
fn services_are_named_in_quotes() {
    assert_eq!(answer_resolve(AgentReply::Done(Some(7)), "web").unwrap(), 7);
    let missing: AgentReply<Option<u8>> = AgentReply::Done(None);
    assert_eq!(answer_resolve(missing, "web").unwrap_err().error, "service \"web\" not found");
    let missing: AgentReply<Option<u8>> = AgentReply::Done(None);
    assert_eq!(
        answer_resolve(missing, "a\"b\n").unwrap_err().error,
        "service \"a\\\"b\\n\" not found"
    );
    let gone: AgentReply<Option<u8>> = AgentReply::Dropped;
    assert_eq!(answer_resolve(gone, "web").unwrap_err().error, "agent dropped response");
    let missing: AgentReply<Option<u8>> = AgentReply::Done(None);
    assert_eq!(answer_app_env(missing).unwrap_err().status, Status::NotFound);
    let gone: AgentReply<Option<u8>> = AgentReply::Unavailable;
    assert_eq!(answer_app_env(gone).unwrap_err().error, "agent unavailable");
}

#[test]
fn agent_replies_are_answered() {
    let failed = || -> AgentReply<u8> { AgentReply::Failed("no such app".to_string()) };
    assert_eq!(answer_command(failed(), Status::NotFound).unwrap_err().status, Status::NotFound);
    assert_eq!(answer_command(AgentReply::Done(3), Status::NotFound).unwrap(), 3);
    let gone = || -> AgentReply<u8> { AgentReply::Unavailable };
    assert_eq!(
        answer_command(gone(), Status::NotFound).unwrap_err().status,
        Status::InternalServerError
    );
    assert_eq!(
        answer_or_outage(gone(), Status::NotFound).unwrap_err().status,
        Status::ServiceUnavailable
    );
    assert_eq!(agent_unavailable().error, "agent unavailable");
    let desired = |reply: AgentReply<u8>| answer_desired_apps(reply).unwrap_err();
    assert_eq!(desired(AgentReply::Dropped).error, "agent dropped response");
    assert_eq!(desired(AgentReply::Dropped).status, Status::ServiceUnavailable);
    assert_eq!(desired(AgentReply::Unavailable).error, "agent unavailable");
    assert_eq!(answer_desired_apps(AgentReply::Done(4)).unwrap(), 4);
    assert_eq!(readiness_status(true), Status::Success);
    assert_eq!(readiness_status(false).code(), 503);
}

#[test]
fn sessions_inherit_the_scope_of_their_token() {
    let session = session_identity(true, "system", None).unwrap();
    assert_eq!(session.name, "system");
    assert!(session.apps.is_none() && session.namespaces.is_none());
    let session = session_identity(false, "system", Some(confined(ApiRole::Admin, "a"))).unwrap();
    assert_eq!(session.name, "alice");
    assert_eq!(session.namespaces, Some(vec!["a".to_string()]));
    let refusal = session_identity(false, "system", None).unwrap_err();
    assert_eq!(refusal.status, Status::Unauthorized);
    assert_eq!(
        session_cookie("rb_session", "abc"),
        "rb_session=abc; HttpOnly; SameSite=Strict; Path=/; Max-Age=43200"
    );
    assert_eq!(
        cleared_cookie("rb_session"),
        "rb_session=; HttpOnly; SameSite=Strict; Path=/; Max-Age=0"
    );
}

#[test]
fn statuses_and_urls_are_exact() {
    assert_eq!(Status::Success.code(), 200);
    assert_eq!(Status::UnprocessableEntity.code(), 422);
    assert_eq!(proxied_status(404), 404);
    assert_eq!(proxied_status(42), 502);
    assert_eq!(proxied_status(1000), 502);
    assert_eq!(ClusterHttp::plaintext().url("10.0.0.1:9117", "/v1/x"), "http://10.0.0.1:9117/v1/x");
    assert_eq!(ClusterHttp { tls: true }.url("n:1", ""), "https://n:1");
}

#[test]
fn the_policy_lists_every_operation() {
    let mut policy = ClusterTestPolicy::default();
    policy.protected = true;
    policy.allowed_operations = vec![OperationPermission::AlterNodeState];
    let list = operation_policy(&policy);
    assert_eq!(list.len(), 6);
    assert_eq!(list[0].operation, OperationPermission::ReadDiagnostics);
    assert!(list[0].server_allowed && list[0].protected_cluster_allowed);
    assert!(!list[1].server_allowed && !list[1].protected_cluster_allowed);
    assert!(!list[1].acknowledgement_required);
    assert!(list[3].server_allowed && list[3].acknowledgement_required);
}
