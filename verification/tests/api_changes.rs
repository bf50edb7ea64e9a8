//! Changes through the API: leases, applies, commits, faults and upgrades.

use bun::access::AuthContext;
use bun::api::apply::{
    take_manifest, admit_apply, authorise_apply, AppPermissions, ApplyRefusal, ApplyRoute, CapacityHeader,
    LeaseHeader, Manifest, ManifestApp, ManifestNamespace, NamedLease,
};
use bun::api::audit::{
    cleared_all_audit, cleared_audit, healed_audit, injected_audit, partition_audit, InjectedFault,
};
use bun::api::commit::{
    answer_placements, cluster_apply, count_placements, describe_write, leader_api_url, placements, relay_step,
    ApplyEvent, ClusterRoute, CommitRun, CouncilLeader, ForwardCredentials, Handed, PlannedWrite,
    ScheduledApp,
};
use bun::api::faults::{
    admit_clear, admit_clear_all, admit_fault, admit_partition, answer_safety,
    check_node_fault_cluster_safety, fault_operation, injector, policy_principal, target_node_api_url,
    ClearAll, ClearRoute, FaultRequest, FaultRoute, ReversalGrants,
};
use bun::api::forwarding::{
    announced_length_fits, chunk_fits, forward_apply, forward_batch, forward_build_status,
    forward_stop, forward_test_lease_request, send_node_request, Forwarded,
};
use bun::api::leases::{
    admit_lease, answer_release, authenticated_test_user, check_lease_namespace, lease_error_response,
    lease_id_of, lease_leader_url, lease_namespace, make_lease, may_read_lease, may_renew_lease, new_lease_id,
    release_as, renewed_expiry, validate_lease_ttl, write_lease_request, CouncilWrite, LeaseError, LeaseRoute, ReleaseAs,
    TestLease,
};
use bun::api::upgrades::{
    admit_to_council, answer_start, answer_update, build_authoritative_view, resume_upgrade, role_from_raft,
    start_rollback, start_upgrade, take_directive, take_node_rollback, ActiveUpgrade, ClusterUpgradePhase, NodeRole,
    NodeUpgradePhase, NodeUpgradeRecord, RollbackRequest, StartRequest, UpgradeDirection,
    UpgradeNode,
};
use bun::events::EventSeverity;
use bun::membership::{
    council_has_live_quorum, count_members, count_unavailable_voters, count_voters, CouncilView,
    NodeMembershipInfo,
};
use bun::policy::{ApiRole, OperationPermission};
use bun::reply::{refuse, ClusterHttp, Refusal, Status};

fn user(role: ApiRole) -> AuthContext {
    AuthContext {
        token_name: "alice".to_string(),
        principal_id: "token:alice".to_string(),
        role,
        scoped_apps: None,
        scoped_namespaces: None,
        system: false,
    }
}

fn confined(role: ApiRole, namespace: &str) -> AuthContext {
    AuthContext { scoped_namespaces: Some(vec![namespace.to_string()]), ..user(role) }
}

fn system() -> AuthContext {
    AuthContext { system: true, ..user(ApiRole::Admin) }
}

fn no(words: &str) -> Result<(), String> {
    Err(words.to_string())
}

#[test]
fn lease_time_is_bounded_by_the_server() {
    assert_eq!(validate_lease_ttl(60, 60).unwrap(), 60_000);
    assert_eq!(
        validate_lease_ttl(60, 61).unwrap_err().error,
        "ttl_seconds must be between 1 and 60"
    );
    assert!(validate_lease_ttl(60, 0).is_err());
    assert_eq!(validate_lease_ttl(u64::MAX, u64::MAX).unwrap(), u64::MAX);
}

#[test]
fn leases_need_a_user_who_deploys_and_a_policy() {
    let deployer = user(ApiRole::Deployer);
    let status = |auth: Option<&AuthContext>, policy: Result<(), String>| {
        admit_lease(auth, &policy, 60, 30, false).unwrap_err().status
    };
    assert_eq!(status(None, Ok(())), Status::Unauthorized);
    assert_eq!(status(Some(&system()), Ok(())), Status::Forbidden);
    assert_eq!(status(Some(&user(ApiRole::ReadOnly)), Ok(())), Status::Forbidden);
    assert_eq!(status(Some(&deployer), no("denied")), Status::Forbidden);
    assert_eq!(
        admit_lease(Some(&deployer), &Ok(()), 60, 30, false).unwrap(),
        LeaseRoute::Proceed(30_000)
    );
    assert_eq!(
        admit_lease(Some(&deployer), &Ok(()), 60, 30, true).unwrap(),
        LeaseRoute::Forward
    );
    assert!(authenticated_test_user(Some(&deployer), ApiRole::ReadOnly).is_ok());
}

#[test]
fn lease_identifiers_are_random_hexadecimal() {
    let mut bytes = [0u8; 16];
    bytes[0] = 0xab;
    bytes[15] = 0x0f;
    assert_eq!(lease_id_of(&bytes), "ab00000000000000000000000000000f");
    let one = new_lease_id().unwrap();
    let two = new_lease_id().unwrap();
    assert_eq!(one.len(), 32);
    assert!(one.chars().all(|c| c.is_ascii_hexdigit()));
    assert_ne!(one, two);
    assert_eq!(lease_namespace("0123456789abcdef", None), "rbtest-0123456789ab");
    assert_eq!(lease_namespace("0123456789abcdef", Some("rbtest-x".to_string())), "rbtest-x");
}

fn lease(owner: &str) -> TestLease {
    TestLease {
        id: "l".to_string(),
        owner_id: owner.to_string(),
        owner_name: "alice".to_string(),
        namespace: "rbtest-x".to_string(),
        created_at_unix_ms: 1,
        expires_at_unix_ms: 2,
    }
}

#[test]
fn leases_belong_to_the_exact_credential() {
    let made = make_lease(
        "l".to_string(),
        &user(ApiRole::Deployer),
        "rbtest-x".to_string(),
        1_000,
        30_000,
    );
    assert_eq!(made.owner_id, "token:alice");
    assert_eq!(made.owner_name, "alice");
    assert_eq!(made.expires_at_unix_ms, 31_000);
    let late = make_lease("l".to_string(), &system(), "n".to_string(), u64::MAX - 1, 30);
    assert_eq!(late.expires_at_unix_ms, u64::MAX);
    let deployer = user(ApiRole::Deployer);
    let admin = user(ApiRole::Admin);
    let own = lease("token:alice");
    let other = lease("token:bob");
    assert!(may_read_lease(&deployer, Some(&own)).is_ok());
    assert!(matches!(may_read_lease(&deployer, Some(&other)), Err(LeaseError::WrongOwner)));
    assert!(may_read_lease(&admin, Some(&other)).is_ok());
    assert!(matches!(may_read_lease(&admin, None), Err(LeaseError::NotFound)));
    assert!(may_renew_lease(&deployer, Some(&own), true).is_ok());
    assert!(matches!(may_renew_lease(&deployer, Some(&own), false), Err(LeaseError::NotActive)));
    assert!(matches!(may_renew_lease(&admin, Some(&other), true), Err(LeaseError::WrongOwner)));
    assert!(matches!(may_renew_lease(&deployer, None, true), Err(LeaseError::NotFound)));
    assert_eq!(renewed_expiry(1_000, 40_000), 41_000);
    assert_eq!(renewed_expiry(u64::MAX, 1), u64::MAX);
    assert!(matches!(release_as(&deployer, Some(&own)), Ok(ReleaseAs::Owner)));
    assert!(matches!(release_as(&admin, Some(&other)), Ok(ReleaseAs::Administrator)));
    assert!(matches!(release_as(&deployer, Some(&other)), Err(LeaseError::WrongOwner)));
    assert!(matches!(release_as(&deployer, None), Err(LeaseError::NotFound)));
}

#[test]
fn lease_namespaces_are_for_tests_and_in_scope() {
    let auth = confined(ApiRole::Deployer, "rbtest-x");
    assert!(check_lease_namespace(&Ok(()), &auth, "rbtest-x").is_ok());
    let refusal = check_lease_namespace(&Ok(()), &auth, "rbtest-y").unwrap_err();
    assert_eq!(refusal.status, Status::Forbidden);
    let refusal = check_lease_namespace(&no("not a test namespace"), &auth, "prod").unwrap_err();
    assert_eq!(refusal.status, Status::BadRequest);
}

#[test]
fn each_lease_error_has_its_status() {
    for (error, status) in [
        (LeaseError::NotFound, Status::NotFound),
        (LeaseError::WrongOwner, Status::Forbidden),
        (LeaseError::NotActive, Status::Conflict),
        (LeaseError::AlreadyExists, Status::Conflict),
        (LeaseError::NamespaceOwned, Status::Conflict),
        (LeaseError::NamespaceMismatch, Status::Conflict),
        (LeaseError::ResourceLimit, Status::Conflict),
        (LeaseError::TooManyLeases, Status::TooManyRequests),
        (LeaseError::InvalidId, Status::BadRequest),
        (LeaseError::InvalidOwner, Status::BadRequest),
        (LeaseError::InvalidNamespace, Status::BadRequest),
        (LeaseError::InvalidExpiry, Status::BadRequest),
        (LeaseError::UnsupportedSchema, Status::BadRequest),
        (LeaseError::Persistence, Status::InternalServerError),
        (LeaseError::Malformed, Status::InternalServerError),
        (LeaseError::StoreTooLarge, Status::InternalServerError),
        (LeaseError::Cleanup, Status::InternalServerError),
        (LeaseError::Consensus, Status::InternalServerError),
    ] {
        assert_eq!(lease_error_response(error, "w").status, status);
    }
    assert!(answer_release(Ok(())).is_ok());
    assert!(answer_release(Err((LeaseError::NotFound, "gone".to_string()))).is_ok());
    let refusal = answer_release(Err((LeaseError::Cleanup, "stuck".to_string()))).unwrap_err();
    assert_eq!(refusal.error, "stuck");
    assert!(write_lease_request(CouncilWrite::Committed).is_ok());
    let refused = write_lease_request(CouncilWrite::Refused("taken".to_string())).unwrap_err();
    assert_eq!(refused.status, Status::Conflict);
    let failed = write_lease_request(CouncilWrite::Failed("no quorum".to_string())).unwrap_err();
    assert_eq!(failed.status, Status::ServiceUnavailable);
}

fn app(name: &str, namespace: Option<&str>, reserved: bool) -> ManifestApp {
    ManifestApp {
        name: name.to_string(),
        namespace: namespace.map(str::to_string),
        reserved,
        script: false,
    }
}

fn manifest(apps: Vec<ManifestApp>) -> Manifest {
    Manifest { apps, namespaces: Vec::new(), jobs: 0, permissions: 0, builds: 0 }
}

fn named(namespace: &str, active: bool) -> NamedLease {
    NamedLease {
        owner_id: "token:alice".to_string(),
        namespace: namespace.to_string(),
        active,
    }
}

fn header() -> LeaseHeader {
    LeaseHeader::Text("l".to_string())
}

fn said(refusal: ApplyRefusal) -> (Status, String) {
    match refusal {
        ApplyRefusal::Refused(Refusal { status, error }) => (status, error),
        ApplyRefusal::Lease(error) => panic!("unexpected lease error {error:?}"),
    }
}

#[test]
fn applies_without_a_lease_leave_the_manifest_alone() {
    let deployer = user(ApiRole::Deployer);
    let mut plain = manifest(vec![app("web", None, false)]);
    let absent = LeaseHeader::Absent;
    admit_apply(
        Some(&deployer),
        &mut plain,
        &Ok(()),
        &absent,
        CapacityHeader::Absent,
        &Ok(()),
        None,
    )
    .unwrap();
    assert!(plain.apps[0].namespace.is_none());
    let (status, error) = said(
        admit_apply(
            Some(&deployer),
            &mut plain,
            &no("bad app"),
            &absent,
            CapacityHeader::Absent,
            &Ok(()),
            None,
        )
        .unwrap_err(),
    );
    assert_eq!((status, error.as_str()), (Status::BadRequest, "bad app"));
    let reader = user(ApiRole::ReadOnly);
    let refusal = admit_apply(
        Some(&reader),
        &mut plain,
        &Ok(()),
        &absent,
        CapacityHeader::Absent,
        &Ok(()),
        None,
    );
    assert_eq!(said(refusal.unwrap_err()).0, Status::Forbidden);
}

#[test]
fn reserved_namespaces_cannot_bypass_a_lease() {
    let deployer = user(ApiRole::Deployer);
    let mut reserved = manifest(vec![app("web", Some("rbtest-x"), true)]);
    let refusal = admit_apply(
        Some(&deployer),
        &mut reserved,
        &Ok(()),
        &LeaseHeader::Absent,
        CapacityHeader::Absent,
        &Ok(()),
        None,
    );
    assert_eq!(
        said(refusal.unwrap_err()).1,
        "test lease namespace requires x-reliaburger-test-lease"
    );
    let mut declared = manifest(Vec::new());
    declared.namespaces.push(ManifestNamespace { name: "rbtest-x".to_string(), reserved: true });
    let refusal = admit_apply(
        Some(&deployer),
        &mut declared,
        &Ok(()),
        &LeaseHeader::Absent,
        CapacityHeader::Absent,
        &Ok(()),
        None,
    );
    assert_eq!(said(refusal.unwrap_err()).0, Status::Conflict);
}

#[test]
fn leased_applies_land_in_the_leases_namespace() {
    let deployer = user(ApiRole::Deployer);
    let mut leased = manifest(vec![app("web", None, false), app("api", Some("rbtest-x"), true)]);
    let active = named("rbtest-x", true);
    admit_apply(
        Some(&deployer),
        &mut leased,
        &Ok(()),
        &header(),
        CapacityHeader::Absent,
        &Ok(()),
        Some(&active),
    )
    .unwrap();
    assert_eq!(leased.apps[0].namespace.as_deref(), Some("rbtest-x"));
    assert_eq!(leased.apps[1].namespace.as_deref(), Some("rbtest-x"));
}

fn leased_error(auth: &AuthContext, mut manifest: Manifest, lease: Option<NamedLease>) -> LeaseError {
    let refusal = admit_apply(
        Some(auth),
        &mut manifest,
        &Ok(()),
        &header(),
        CapacityHeader::Absent,
        &Ok(()),
        lease.as_ref(),
    );
    match refusal.unwrap_err() {
        ApplyRefusal::Lease(error) => error,
        ApplyRefusal::Refused(refusal) => panic!("unexpected refusal {refusal:?}"),
    }
}

#[test]
fn each_fault_of_a_leased_apply_is_refused() {
    let deployer = user(ApiRole::Deployer);
    let one = || manifest(vec![app("web", None, false)]);
    assert!(matches!(leased_error(&deployer, one(), None), LeaseError::NotFound));
    let mut other = named("rbtest-x", true);
    other.owner_id = "token:bob".to_string();
    assert!(matches!(leased_error(&deployer, one(), Some(other)), LeaseError::WrongOwner));
    let ended = named("rbtest-x", false);
    assert!(matches!(leased_error(&deployer, one(), Some(ended)), LeaseError::NotActive));
    let outside = manifest(vec![app("web", Some("prod"), false)]);
    let active = named("rbtest-x", true);
    assert!(matches!(
        leased_error(&deployer, outside, Some(active)),
        LeaseError::NamespaceMismatch
    ));
    let mut with_job = one();
    with_job.jobs = 1;
    let refusal = admit_apply(
        Some(&deployer),
        &mut with_job,
        &Ok(()),
        &header(),
        CapacityHeader::Absent,
        &Ok(()),
        Some(&named("rbtest-x", true)),
    );
    assert_eq!(
        said(refusal.unwrap_err()).1,
        "leased apply currently accepts apps and their namespace declaration only"
    );
}

#[test]
fn capacity_probes_need_a_lease_a_user_and_a_policy() {
    let error = |auth: Option<&AuthContext>, header: &LeaseHeader, capacity, policy: &Result<(), String>| {
        let mut one = manifest(vec![app("web", None, false)]);
        said(admit_apply(auth, &mut one, &Ok(()), header, capacity, policy, None).unwrap_err()).1
    };
    let admin = user(ApiRole::Admin);
    assert_eq!(
        error(Some(&admin), &header(), CapacityHeader::Other, &Ok(())),
        "x-reliaburger-capacity-probe must equal acknowledged"
    );
    assert_eq!(
        error(Some(&admin), &LeaseHeader::Absent, CapacityHeader::Acknowledged, &Ok(())),
        "capacity probe requires x-reliaburger-test-lease"
    );
    assert_eq!(
        error(None, &header(), CapacityHeader::Acknowledged, &Ok(())),
        "authentication required"
    );
    assert_eq!(
        error(Some(&admin), &header(), CapacityHeader::Acknowledged, &no("denied")),
        "denied"
    );
    for bad in [LeaseHeader::Malformed, LeaseHeader::Text(String::new())] {
        assert_eq!(
            error(Some(&admin), &bad, CapacityHeader::Absent, &Ok(())),
            "x-reliaburger-test-lease must contain a lease id"
        );
    }
}

#[test]
fn applied_apps_need_scope_and_permission() {
    let granted = || AppPermissions { deploy: Ok(()), host_exec: Ok(()) };
    let deployer = confined(ApiRole::Deployer, "a");
    let one = manifest(vec![app("web", Some("a"), false)]);
    assert!(matches!(
        authorise_apply(Some(&deployer), &one, &vec![granted()], true),
        Ok(ApplyRoute::Cluster)
    ));
    assert!(matches!(
        authorise_apply(Some(&deployer), &one, &vec![granted()], false),
        Ok(ApplyRoute::Local)
    ));
    assert!(matches!(
        authorise_apply(None, &manifest(Vec::new()), &Vec::new(), true),
        Ok(ApplyRoute::Local)
    ));
    let outside = manifest(vec![app("web", None, false)]);
    assert!(authorise_apply(Some(&deployer), &outside, &vec![granted()], true).is_err());
    let denied = AppPermissions { deploy: no("no deploy"), host_exec: Ok(()) };
    assert_eq!(
        authorise_apply(Some(&deployer), &one, &vec![denied], true).unwrap_err().error,
        "no deploy"
    );
    let mut script = manifest(vec![app("web", Some("a"), false)]);
    let without_exec = || AppPermissions { deploy: Ok(()), host_exec: no("no exec") };
    assert!(authorise_apply(Some(&deployer), &script, &vec![without_exec()], true).is_ok());
    script.apps[0].script = true;
    assert!(authorise_apply(Some(&deployer), &script, &vec![without_exec()], true).is_err());
}

#[test]
fn followers_forward_with_the_right_credentials() {
    let route = |leased, service| {
        match cluster_apply(false, Some("http://l".to_string()), leased, service, &Ok(())) {
            Ok(ClusterRoute::Forward { url, credentials }) => {
                assert_eq!(url, "http://l/v1/apply");
                credentials
            }
            other => panic!("expected a forward, got {other:?}"),
        }
    };
    assert_eq!(route(true, true), ForwardCredentials::Caller);
    assert_eq!(route(false, true), ForwardCredentials::Service);
    assert_eq!(route(false, false), ForwardCredentials::Anonymous);
    assert!(cluster_apply(false, None, false, false, &Ok(())).is_err());
    assert!(matches!(cluster_apply(true, None, false, false, &Ok(())), Ok(ClusterRoute::Commit)));
    assert!(cluster_apply(true, None, false, false, &no("bad")).is_err());
}

#[test]
fn commits_are_told_write_by_write() {
    let mut run = CommitRun::new();
    let write = PlannedWrite::App("web".to_string());
    assert_eq!(describe_write(&write), "app web");
    assert!(matches!(
        run.record(&write, CouncilWrite::Committed),
        ApplyEvent::Progress(text) if text == "app web: committed to the cluster"
    ));
    assert!(matches!(run.finish(0), ApplyEvent::Complete(1)));
    assert!(matches!(
        run.finish(2),
        ApplyEvent::Progress(text)
            if text == "2 job(s) deploying on this node (jobs are not cluster-scheduled yet)"
    ));
    let namespace = PlannedWrite::LeasedNamespace("n".to_string());
    assert!(matches!(
        run.record(&namespace, CouncilWrite::Refused("taken".to_string())),
        ApplyEvent::Error(text) if text == "leased namespace n: refused by the cluster: taken"
    ));
    assert!(run.stopped);
    let mut run = CommitRun::new();
    assert!(matches!(
        run.record(&PlannedWrite::Other, CouncilWrite::Failed("x".to_string())),
        ApplyEvent::Error(text) if text == "resource: raft write failed: x"
    ));
}

#[test]
fn relays_release_on_the_terminal_event() {
    assert!(!relay_step(false, Handed::Taken).release);
    let step = relay_step(true, Handed::Full);
    assert!(step.release && step.wait);
    let step = relay_step(true, Handed::Closed);
    assert!(!step.release && !step.wait);
}

fn member(node_id: &str, raft_id: u64) -> NodeMembershipInfo {
    NodeMembershipInfo {
        node_id: node_id.to_string(),
        address: format!("{node_id}:9117"),
        raft_id,
    }
}

#[test]
fn leaders_are_found_by_membership_or_by_host() {
    let leader = CouncilLeader { name: "n1".to_string(), host: "10.0.0.9".to_string() };
    let http = ClusterHttp::plaintext();
    let members = vec![member("n1", 1)];
    let url = leader_api_url(Some(&leader), Some(&members), &http, 9117);
    assert_eq!(url.as_deref(), Some("http://n1:9117"));
    let url = leader_api_url(Some(&leader), None, &http, 9118);
    assert_eq!(url.as_deref(), Some("http://10.0.0.9:9118"));
    assert!(leader_api_url(None, Some(&members), &http, 9117).is_none());
}

#[test]
fn placements_count_replicas_of_live_specs() {
    let scheduled = |name: &str, nodes: &[&str], has_spec| ScheduledApp {
        name: name.to_string(),
        namespace: "default".to_string(),
        nodes: nodes.iter().map(|n| n.to_string()).collect(),
        has_spec,
    };
    let apps = vec![
        scheduled("web", &["n1", "n2", "n1"], true),
        scheduled("gone", &["n1"], false),
        scheduled("api", &["n2"], true),
    ];
    assert_eq!(answer_placements(Some(&apps), "n1").unwrap().len(), placements(&apps, "n1").len());
    let alone = answer_placements(None, "n1").unwrap_err();
    assert_eq!(
        (alone.status, alone.error.as_str()),
        (Status::ServiceUnavailable, "not running in cluster mode")
    );
    let list = placements(&apps, "n1");
    assert_eq!(list.len(), 1);
    assert_eq!((list[0].name.as_str(), list[0].replicas), ("web", 2));
    assert_eq!(count_placements(&apps[0].nodes, "n2"), 1);
}

fn fault(node: Option<&str>, pressure: bool) -> FaultRequest {
    FaultRequest {
        node_targeted: node.is_some(),
        pressure,
        target_node: node.map(str::to_string),
        target_service: "web".to_string(),
        namespace: None,
        acknowledged: true,
        injected_by: "mallory".to_string(),
    }
}

#[test]
fn the_principal_of_a_fault_comes_from_authentication() {
    let deployer = user(ApiRole::Deployer);
    let mut request = fault(None, false);
    let route = admit_fault(Some(&deployer), &mut request, &Ok(()), Ok(()), Some("n1"));
    assert!(matches!(route, Ok(FaultRoute::Apply)));
    assert_eq!(request.injected_by, "alice");
    assert_eq!(request.namespace.as_deref(), Some("default"));
    let mut request = fault(None, false);
    admit_fault(None, &mut request, &Ok(()), Ok(()), None).unwrap();
    assert_eq!(request.injected_by, "local-bootstrap");
    assert_eq!(policy_principal(None), ("local-bootstrap".to_string(), ApiRole::Admin));
    assert_eq!(policy_principal(Some(&deployer)).0, "token:alice");
}

#[test]
fn faults_are_classed_by_what_they_touch() {
    assert_eq!(fault_operation(&fault(None, true)), OperationPermission::InjectWorkloadFaults);
    assert_eq!(fault_operation(&fault(Some("n1"), true)), OperationPermission::SaturateCapacity);
    assert_eq!(fault_operation(&fault(Some("n1"), false)), OperationPermission::AlterNodeState);
}

#[test]
fn node_faults_need_authentication_policy_and_safety() {
    let admin = user(ApiRole::Admin);
    let refusal = |auth: Option<&AuthContext>, node: &str, policy, safety, own: Option<&str>| {
        let mut request = fault(Some(node), false);
        admit_fault(auth, &mut request, &policy, safety, own).unwrap_err()
    };
    let own = Some("n1");
    assert_eq!(refusal(None, "n1", Ok(()), Ok(()), own).status, Status::Unauthorized);
    assert_eq!(refusal(Some(&system()), "n1", Ok(()), Ok(()), own).status, Status::Forbidden);
    assert_eq!(refusal(Some(&admin), "n1", no("denied"), Ok(()), own).error, "denied");
    assert_eq!(
        refusal(Some(&admin), "", Ok(()), Ok(()), own).error,
        "node-targeted faults require target_node"
    );
    let unsafe_now = || Err(refuse(Status::BadRequest, "quorum"));
    assert_eq!(refusal(Some(&admin), "n1", Ok(()), unsafe_now(), own).error, "quorum");
    assert_eq!(refusal(Some(&admin), "n1", Ok(()), Ok(()), None).status, Status::BadRequest);
    let mut request = fault(Some("n2"), false);
    assert!(matches!(
        admit_fault(Some(&admin), &mut request, &Ok(()), Ok(()), own),
        Ok(FaultRoute::Forward(node)) if node == "n2"
    ));
    assert_eq!(request.injected_by, "mallory");
    let outside = confined(ApiRole::Deployer, "b");
    let mut request = fault(None, false);
    assert!(admit_fault(Some(&outside), &mut request, &Ok(()), Ok(()), own).is_err());
}

#[test]
fn node_faults_are_judged_by_live_evidence() {
    let members = vec![member("n1", 1), member("n2", 2)];
    let council = CouncilView { voters: vec![1, 2, 3], leader: Some(2) };
    let context = check_node_fault_cluster_safety(Some(&council), Some(&members)).unwrap();
    assert_eq!(context.council_size, 3);
    assert_eq!(context.council_nodes_with_active_faults, 1);
    assert_eq!(context.leader_node_id, "n2");
    assert_eq!(context.total_nodes, 3);
    assert_eq!(context.target_service_replicas, 0);
    assert_eq!(context.target_service_faulted_replicas, 0);
    let error = |council: Option<&CouncilView>, members: Option<&Vec<NodeMembershipInfo>>| {
        let refusal = check_node_fault_cluster_safety(council, members).unwrap_err();
        assert_eq!(refusal.status, Status::ServiceUnavailable);
        refusal.error
    };
    assert_eq!(
        error(None, Some(&members)),
        "node fault safety requires live council evidence"
    );
    let nobody = CouncilView { voters: Vec::new(), leader: None };
    assert_eq!(
        error(Some(&nobody), Some(&members)),
        "node fault safety requires a known council membership"
    );
    assert_eq!(
        error(Some(&council), None),
        "node fault safety requires live membership evidence"
    );
    let headless = CouncilView { voters: vec![1], leader: None };
    assert_eq!(
        error(Some(&headless), Some(&members)),
        "node fault safety requires a known council leader"
    );
    let lost = CouncilView { voters: vec![3], leader: Some(3) };
    assert_eq!(
        error(Some(&lost), Some(&members)),
        "node fault safety cannot map the council leader to live membership"
    );
    assert!(answer_safety(true, None).is_ok());
    assert_eq!(answer_safety(false, None).unwrap_err().error, "node fault safety check failed");
    assert_eq!(answer_safety(false, Some("quorum".to_string())).unwrap_err().error, "quorum");
}

#[test]
fn target_nodes_are_found_among_live_members() {
    let http = ClusterHttp::plaintext();
    let members = vec![member("n1", 1)];
    assert_eq!(
        target_node_api_url(Some(&members), "n1", "/v1/fault", &http).unwrap(),
        "http://n1:9117/v1/fault"
    );
    assert_eq!(
        target_node_api_url(Some(&members), "n2", "/v1/fault", &http).unwrap_err().error,
        "target node n2 is not alive or is unknown"
    );
    assert!(target_node_api_url(None, "n1", "/v1/fault", &http).is_err());
}

fn grants(workload: bool, pressure: bool, node: bool) -> ReversalGrants {
    ReversalGrants { workload, pressure, node }
}

#[test]
fn faults_are_cleared_where_they_are_and_as_granted() {
    let deployer = user(ApiRole::Deployer);
    let here = Some("n1".to_string());
    assert!(matches!(
        admit_clear(Some(&deployer), &Some("n2".to_string()), grants(false, false, false), Some("n1")),
        Ok(ClearRoute::Forward(node)) if node == "n2"
    ));
    assert!(matches!(
        admit_clear(Some(&deployer), &here, grants(false, false, true), Some("n1")),
        Ok(ClearRoute::Clear { allow_workload_fault: false, allow_node_fault: true, .. })
    ));
    assert!(admit_clear(Some(&deployer), &here, grants(false, false, false), Some("n1")).is_err());
    assert!(matches!(
        admit_clear(Some(&deployer), &None, grants(true, false, true), Some("n1")),
        Ok(ClearRoute::Clear { allow_workload_fault: true, allow_node_fault: false, .. })
    ));
    assert_eq!(
        admit_clear(Some(&deployer), &None, grants(false, true, true), Some("n1")).unwrap_err().error,
        "workload fault reversal requires inject_workload_faults authorisation"
    );
    let reader = user(ApiRole::ReadOnly);
    assert!(admit_clear(Some(&reader), &None, grants(true, true, true), Some("n1")).is_err());
}

#[test]
fn all_faults_are_cleared_in_scope() {
    let tenant = confined(ApiRole::Deployer, "a");
    let web = || Some("web".to_string());
    assert!(matches!(
        admit_clear_all(Some(&tenant), &Ok(()), web(), Some("a".to_string())),
        Ok(ClearAll::Service { .. })
    ));
    assert!(admit_clear_all(Some(&tenant), &Ok(()), web(), Some("b".to_string())).is_err());
    assert!(admit_clear_all(Some(&tenant), &Ok(()), web(), None).is_err());
    let empty = admit_clear_all(Some(&tenant), &Ok(()), Some(String::new()), None).unwrap_err();
    assert_eq!(empty.status, Status::BadRequest);
    let free = user(ApiRole::Deployer);
    assert!(matches!(
        admit_clear_all(Some(&free), &Ok(()), None, None),
        Ok(ClearAll::Everything)
    ));
    assert!(admit_clear_all(Some(&free), &no("denied"), None, None).is_err());
}

#[test]
fn partitions_are_for_administrators() {
    assert!(admit_partition(Some(&user(ApiRole::Admin)), &Ok(())).is_ok());
    assert!(admit_partition(Some(&user(ApiRole::Deployer)), &Ok(())).is_err());
    assert!(admit_partition(Some(&system()), &Ok(())).is_err());
    assert!(admit_partition(Some(&user(ApiRole::Admin)), &no("ack")).is_err());
    assert_eq!(injector(Some(&user(ApiRole::Admin))), "alice");
    assert_eq!(injector(None), "local-bootstrap");
}

#[test]
fn faults_are_audited() {
    let audit = injected_audit(
        InjectedFault {
            id: 7,
            kind: "Delay".to_string(),
            requested_kind: "delay".to_string(),
            duration_seconds: 30,
            target_service: "web".to_string(),
            target_instance: Some("web-0".to_string()),
            target_node: None,
            reason: Some("drill".to_string()),
        },
        "alice",
    );
    assert_eq!(audit.action, "fault.injected");
    assert_eq!(audit.severity, EventSeverity::Warning);
    assert_eq!(audit.app.as_deref(), Some("web"));
    assert_eq!(audit.message, "fault 7 (Delay) injected for 30s by principal alice");
    let detail = |name: &str| audit.details.get(&name.to_string()).cloned();
    assert_eq!(detail("fault_id").as_deref(), Some("7"));
    assert_eq!(detail("fault_type").as_deref(), Some("delay"));
    assert_eq!(detail("reason").as_deref(), Some("drill"));
    assert_eq!(audit.details.len(), 5);
    let audit = cleared_audit(7, Some("n1".to_string()), "alice");
    assert_eq!(audit.message, "fault 7 cleared by principal alice");
    assert_eq!(audit.severity, EventSeverity::Info);
    let audit = cleared_all_audit(Some("web".to_string()), "cleared 2 faults", "alice");
    assert_eq!(audit.action, "fault.cleared-by-service");
    assert_eq!(audit.message, "cleared 2 faults by principal alice");
    assert_eq!(cleared_all_audit(None, "x", "alice").action, "fault.cleared-all-workload");
    let peers = vec!["n2".to_string(), "n3".to_string()];
    let audit = partition_audit(9, &peers, 60, "partitioned", "alice");
    assert_eq!(audit.details.get(&"peers".to_string()).map(String::as_str), Some("n2,n3"));
    assert_eq!(healed_audit("healed", "alice").action, "fault.cleared-council-partition");
}

#[test]
fn forwarded_answers_are_bounded_and_told() {
    assert!(announced_length_fits(None) && announced_length_fits(Some(65_536)));
    assert!(!announced_length_fits(Some(65_537)));
    assert!(chunk_fits(65_535, 1) && !chunk_fits(65_535, 2) && !chunk_fits(usize::MAX, 1));
    let told = |forwarded: Forwarded| send_node_request("n2", "fault", forwarded);
    assert_eq!(told(Forwarded::Answered(202)).unwrap(), 202);
    assert_eq!(told(Forwarded::Answered(7)).unwrap(), 502);
    let error = |forwarded: Forwarded| told(forwarded).unwrap_err().error;
    assert_eq!(
        error(Forwarded::SendFailed("x".to_string())),
        "failed to forward node fault to n2: x"
    );
    assert_eq!(error(Forwarded::SendTimedOut), "node fault request to n2 timed out");
    assert_eq!(error(Forwarded::TooLong), "target node response exceeded the 64 KiB limit");
    assert_eq!(
        error(Forwarded::ReadFailed("x".to_string())),
        "failed to read node fault response from n2: x"
    );
    assert_eq!(error(Forwarded::ReadTimedOut), "node fault response from n2 timed out");
    let lease = |forwarded: Forwarded| forward_test_lease_request(forwarded).unwrap_err();
    assert_eq!(lease(Forwarded::SendTimedOut).status, Status::GatewayTimeout);
    assert_eq!(lease(Forwarded::TooLong).error, "leader lease response exceeded 64 KiB");
    assert_eq!(lease(Forwarded::ReadTimedOut).error, "leader response timed out");
    assert_eq!(lease(Forwarded::SendFailed("x".to_string())).status, Status::BadGateway);
    assert_eq!(lease(Forwarded::ReadFailed("x".to_string())).status, Status::BadGateway);
    assert_eq!(forward_test_lease_request(Forwarded::Answered(201)).unwrap(), 201);
}

#[test]
fn failed_forwards_are_told_apart() {
    let lost = || Err("refused".to_string());
    for (answer, error) in [
        (forward_apply(lost()), "failed to forward apply to the leader: refused"),
        (forward_stop(lost()), "failed to forward stop to the leader: refused"),
        (forward_batch(lost()), "leader forward failed: refused"),
        (forward_build_status(lost()), "builder unreachable: refused"),
    ] {
        let refusal = answer.unwrap_err();
        assert_eq!((refusal.status, refusal.error.as_str()), (Status::BadGateway, error));
    }
    assert_eq!(forward_apply(Ok(503)).unwrap(), 200);
    for forward in [forward_stop, forward_batch, forward_build_status] {
        assert_eq!(forward(Ok(404)).unwrap(), 404);
        assert_eq!(forward(Ok(99)).unwrap(), 502);
    }
}

#[test]
fn quorum_needs_a_majority_and_a_known_leader() {
    let members = vec![member("n2", 2)];
    let council = CouncilView { voters: vec![1, 2, 3], leader: Some(1) };
    assert!(council_has_live_quorum(&council, &members, 1));
    assert!(!council_has_live_quorum(&council, &Vec::new(), 1));
    let headless = CouncilView { voters: vec![1, 2, 3], leader: None };
    assert!(!council_has_live_quorum(&headless, &members, 1));
    assert_eq!(count_unavailable_voters(&council, &members), 2);
    assert_eq!(count_members(&members, "n2"), 1);
    assert_eq!(count_members(&members, "n1"), 2);
}

#[test]
fn repeated_voters_count_once() {
    let council = CouncilView { voters: vec![1, 1, 2], leader: Some(1) };
    assert_eq!(count_voters(&council), 2);
    assert!(!council_has_live_quorum(&council, &Vec::new(), 1));
    assert!(council_has_live_quorum(&council, &vec![member("n2", 2)], 1));
    let absent = CouncilView { voters: vec![3, 1, 3, 3], leader: Some(1) };
    let members = vec![member("n1", 1)];
    assert_eq!(count_unavailable_voters(&absent, &members), 1);
    let context = check_node_fault_cluster_safety(Some(&absent), Some(&members)).unwrap();
    assert_eq!(context.council_size, 2);
    assert_eq!(context.council_nodes_with_active_faults, 1);
    assert_eq!(context.nodes_with_active_faults, 1);
    assert_eq!(context.total_nodes, 2);
}

#[test]
fn the_view_of_an_upgrade_is_authoritative() {
    let council = CouncilView { voters: vec![1, 2], leader: Some(1) };
    assert_eq!(role_from_raft(1, &council), NodeRole::Leader);
    assert_eq!(role_from_raft(2, &council), NodeRole::Council);
    assert_eq!(role_from_raft(3, &council), NodeRole::Worker);
    let members = vec![member("n1", 1), member("n3", 3)];
    let view = build_authoritative_view(Some(&members), &council).unwrap();
    assert_eq!(view.len(), 2);
    let node = view.get(&"n3".to_string()).unwrap();
    assert_eq!((node.address.as_str(), node.role), ("n3:9117", NodeRole::Worker));
    assert_eq!(
        build_authoritative_view(None, &council).unwrap_err().error,
        "no gossip membership on this node"
    );
}

fn node(node_id: &str) -> UpgradeNode {
    UpgradeNode {
        node_id: node_id.to_string(),
        address: "a".to_string(),
        role: NodeRole::Worker,
    }
}

fn start(parallel: u32) -> StartRequest {
    StartRequest {
        target_version: "1.2.3".to_string(),
        binary_sha256: "aa".to_string(),
        embedded_signature: "s".to_string(),
        external_signature: None,
        parallel,
        registry_address: "r".to_string(),
        nodes: vec![node("n1")],
        direction: None,
    }
}

#[test]
fn upgrades_start_one_at_a_time() {
    let admin = user(ApiRole::Admin);
    let nodes = || {
        Ok(vec![NodeUpgradeRecord {
            node_id: "n9".to_string(),
            address: "a".to_string(),
            role: NodeRole::Worker,
            from_version: None,
            phase: NodeUpgradePhase::Pending,
            since: None,
        }])
    };
    let plan =
        start_upgrade(Some(&admin), true, Ok(start(0)), true, nodes(), false, Some(42)).unwrap();
    assert_eq!(plan.upgrade_id, "up-1.2.3-42");
    assert_eq!(plan.parallel, 1);
    assert_eq!(plan.direction, UpgradeDirection::Upgrade);
    assert_eq!(plan.phase, ClusterUpgradePhase::Preparing);
    assert_eq!(plan.nodes[0].node_id, "n9");
    let error = |council, request, membership, nodes, active| {
        start_upgrade(Some(&admin), council, request, membership, nodes, active, None)
            .unwrap_err()
            .error
    };
    assert_eq!(
        error(true, Ok(start(1)), true, nodes(), true),
        "an upgrade is already in progress"
    );
    assert_eq!(
        error(false, Ok(start(1)), true, nodes(), false),
        "cluster upgrades need a council (cluster mode)"
    );
    assert_eq!(
        error(true, Err("eof".to_string()), true, nodes(), false),
        "invalid request: eof"
    );
    let mut nobody = start(1);
    nobody.nodes.clear();
    assert_eq!(error(true, Ok(nobody), true, nodes(), false), "nodes list must not be empty");
    assert_eq!(
        error(true, Ok(start(1)), false, nodes(), false),
        "no gossip membership on this node"
    );
    assert_eq!(error(true, Ok(start(1)), true, Err("unknown n1".to_string()), false), "unknown n1");
    let deployer = user(ApiRole::Deployer);
    assert!(start_upgrade(Some(&deployer), true, Ok(start(1)), true, nodes(), false, None).is_err());
    assert!(answer_start(CouncilWrite::Committed).is_ok());
    assert_eq!(
        answer_start(CouncilWrite::Failed("x".to_string())).unwrap_err().error,
        "could not record the upgrade (are we the leader?): x"
    );
}

#[test]
fn rollbacks_and_resumes_are_for_administrators() {
    let admin = user(ApiRole::Admin);
    let request = || {
        Ok(RollbackRequest { target_version: "1.2.2".to_string(), nodes: vec![node("n1")] })
    };
    let plan = start_rollback(Some(&admin), true, request(), false, None).unwrap();
    assert_eq!(plan.upgrade_id, "rollback-1.2.2-0");
    assert_eq!(plan.direction, UpgradeDirection::Rollback);
    assert!(plan.binary_sha256.is_empty());
    assert_eq!(plan.phase, ClusterUpgradePhase::Preparing);
    assert_eq!(plan.nodes.len(), 1);
    assert_eq!((plan.nodes[0].node_id.as_str(), plan.nodes[0].address.as_str()), ("n1", "a"));
    assert_eq!(plan.nodes[0].role, NodeRole::Worker);
    assert_eq!(plan.nodes[0].phase, NodeUpgradePhase::Pending);
    assert_eq!(plan.nodes[0].from_version, None);
    assert_eq!(plan.nodes[0].since, None);
    assert!(start_rollback(Some(&admin), true, request(), true, None).is_err());
    assert!(start_rollback(Some(&admin), false, request(), false, None).is_err());
    assert!(answer_update(CouncilWrite::Committed).is_ok());
    let failed = answer_update(CouncilWrite::Failed("no quorum".to_string())).unwrap_err();
    assert_eq!((failed.status, failed.error.as_str()), (Status::Conflict, "no quorum"));
    let resumed = |active| resume_upgrade(Some(&admin), true, active);
    assert!(resumed(ActiveUpgrade::Paused).is_ok());
    assert_eq!(resumed(ActiveUpgrade::Absent).unwrap_err().status, Status::NotFound);
    assert_eq!(resumed(ActiveUpgrade::Running).unwrap_err().status, Status::Conflict);
    assert!(resume_upgrade(Some(&admin), false, ActiveUpgrade::Paused).is_err());
    assert!(admit_to_council(Some(&admin), ApiRole::Admin, true).is_ok());
    assert_eq!(
        admit_to_council(Some(&admin), ApiRole::Admin, false).unwrap_err().error,
        "no council on this node"
    );
    let deployer = user(ApiRole::Deployer);
    assert!(admit_to_council(Some(&deployer), ApiRole::Admin, true).is_err());
}

#[test]
fn a_nodes_own_upgrades_are_for_administrators() {
    let admin = user(ApiRole::Admin);
    let deployer = user(ApiRole::Deployer);
    assert_eq!(take_directive(Some(&admin), Ok(1)).unwrap(), 1);
    let malformed = take_directive::<u8>(Some(&admin), Err("eof".to_string())).unwrap_err();
    assert_eq!(
        (malformed.status, malformed.error.as_str()),
        (Status::BadRequest, "invalid directive: eof")
    );
    assert_eq!(take_directive(Some(&deployer), Ok(1)).unwrap_err().status, Status::Forbidden);
    let back = |body: &str, parsed| take_node_rollback(Some(&admin), body, parsed);
    assert_eq!(back(" \n", Err("eof".to_string())).unwrap(), None);
    let version = Some("1.2.2".to_string());
    assert_eq!(back("{..}", Ok(version.clone())).unwrap(), version);
    assert_eq!(back("{", Err("eof".to_string())).unwrap_err().error, "invalid request: eof");
    assert!(take_node_rollback(Some(&deployer), "", Ok(None)).is_err());
}

#[test]
fn unplannable_manifests_stop_before_the_first_write() {
    let (run, told) = CommitRun::begin(None);
    assert!(!run.stopped && told.is_none());
    let (run, told) = CommitRun::begin(Some("jobs cannot be leased".to_string()));
    assert!(run.stopped);
    assert!(matches!(told, Some(ApplyEvent::Error(words)) if words == "jobs cannot be leased"));
}

#[test]
fn lease_requests_go_to_a_known_leader() {
    let url = lease_leader_url(Some("http://l".to_string()), "/v1/test/leases").unwrap();
    assert_eq!(url, "http://l/v1/test/leases");
    let unknown = lease_leader_url(None, "/v1/test/leases").unwrap_err();
    assert_eq!(
        (unknown.status, unknown.error.as_str()),
        (Status::ServiceUnavailable, "no cluster leader known yet; retry shortly")
    );
}

#[test]
fn manifests_are_judged_for_deployers_alone() {
    let deployer = user(ApiRole::Deployer);
    let reader = user(ApiRole::ReadOnly);
    assert_eq!(take_manifest(Some(&deployer), Ok(1)).unwrap(), 1);
    let malformed = || Err::<u8, String>("expected a table".to_string());
    let refusal = take_manifest(Some(&deployer), malformed()).unwrap_err();
    assert_eq!((refusal.status, refusal.error.as_str()), (Status::BadRequest, "expected a table"));
    assert_eq!(take_manifest(Some(&reader), malformed()).unwrap_err().status, Status::Forbidden);
}
