//! Reads through the API: logs, metrics, the dashboard and history, and the
//! management of tokens and keys.

use bun::access::AuthContext;
use bun::api::activity::{list_events, replay_events, LISTED_EVENTS, REPLAYED_EVENTS};
use bun::api::agent::{require_taken, AgentReply};
use bun::api::commit::ScheduledApp;
use bun::api::dashboard::{
    app_charts, app_page_state, dashboard_node_count, gather_dashboard_nodes, node_charts,
    node_page, shown_state, statuses_to_dashboard_apps,
};
use bun::api::history::{
    deploy_history, deploy_operation_snapshot, page_history, query_namespace, rollback_target,
    DeployQuery, DeployRecord,
};
use bun::api::leases::CouncilWrite;
use bun::api::logs::{
    assemble_logs, keep_tail, log_route, log_sql_status, raw_query, require_sql, resolve_nodes,
    LogRoute, RawQuery,
};
use bun::api::metrics::{
    app_metrics_nodes, app_samples_sql, cluster_metrics, escape_sql_literal, local_metrics,
    metrics_read, query_window, resolve_council_urls, rollup_read, sql_literal, ClusterMetrics,
    LocalMetrics, MetricsRead, Window,
};
use bun::api::security::{
    admit_managed, answer_join_token_write, answer_keypair, answer_managed_write,
    answer_revocation, answer_rotation, answer_signing, answer_token_write, cluster_ca, decode_csr, is_blank,
    join_token_refusal, parse_role, plan_rotation, plan_token, require_manager,
    require_signing_key, take_csr, take_signing, JoinTokenError, Rotation, TokenRequest,
};
use bun::api::webhook::{
    answer_delivery, header_branch, header_delivery_id, read_delivery, Header, Proof,
};
use bun::events::{EventKind, EventSeverity, EventStore};
use bun::instances::InstanceStatus;
use bun::membership::NodeMembershipInfo;
use bun::policy::ApiRole;
use bun::reply::{ClusterHttp, Status};

fn user(role: ApiRole) -> AuthContext {
    AuthContext {
        token_name: "alice".to_string(),
        principal_id: "token:alice".to_string(),
        role,
        scoped_apps: None,
        scoped_namespaces: None,
        system: false,
    }
}

fn member(node_id: &str, raft_id: u64) -> NodeMembershipInfo {
    NodeMembershipInfo {
        node_id: node_id.to_string(),
        address: format!("{node_id}:9117"),
        raft_id,
    }
}

fn names(list: &[&str]) -> Vec<String> {
    list.iter().map(|name| name.to_string()).collect()
}

#[test]
fn log_queries_go_to_every_node_that_runs_the_app() {
    let http = ClusterHttp::plaintext();
    let members = vec![member("n1", 1), member("n3", 3)];
    let placed = names(&["n3", "n2", "n1"]);
    match log_route(Some(&placed), Some(&members), &http) {
        LogRoute::FanOut { nodes, lost } => {
            let urls: Vec<_> = nodes.iter().map(|n| n.url.as_str()).collect();
            assert_eq!(urls, vec!["http://n3:9117", "http://n1:9117"]);
            assert_eq!(lost, vec!["n2"]);
        }
        other => panic!("expected a fan-out, got {other:?}"),
    }
    assert!(matches!(log_route(Some(&Vec::new()), Some(&members), &http), LogRoute::Nowhere));
    assert!(matches!(log_route(None, Some(&members), &http), LogRoute::Local));
    assert!(matches!(log_route(Some(&placed), None, &http), LogRoute::Local));
    let (nodes, lost) = resolve_nodes(&placed, &members, &http);
    assert_eq!(nodes.len() + lost.len(), placed.len());
}

#[test]
fn merged_logs_are_cut_after_the_merge() {
    let answer = assemble_logs(vec![1, 2, 3, 4], 2, names(&["n2"]), names(&["n3"]), Some(3));
    assert_eq!(answer.entries, vec![2, 3, 4]);
    assert_eq!(answer.node_count, 3);
    assert_eq!(answer.unresponsive, vec!["n2", "n3"]);
    assert_eq!(keep_tail(vec![1, 2], None), vec![1, 2]);
    assert_eq!(keep_tail(vec![1, 2], Some(5)), vec![1, 2]);
    assert!(keep_tail(vec![1, 2], Some(0)).is_empty());
    assert_eq!(require_sql(Some("SELECT 1".to_string())).unwrap(), "SELECT 1");
    assert_eq!(require_sql(None).unwrap_err().error, "missing 'q' query parameter");
    assert_eq!(log_sql_status(true), Status::BadRequest);
    assert_eq!(log_sql_status(false), Status::InternalServerError);
}

const ALL: Window = Window { start: 0, end: 9_223_372_036_854_775_807 };

#[test]
fn windows_are_clamped_below_the_largest_number() {
    assert_eq!(query_window(None, None), ALL);
    assert_eq!(query_window(Some(5), Some(u64::MAX)), Window { start: 5, ..ALL });
    assert_eq!(query_window(Some(5), Some(9)), Window { start: 5, end: 9 });
}

#[test]
fn names_cannot_leave_their_literals() {
    assert_eq!(escape_sql_literal("x' OR '1'='1"), "x'' OR ''1''=''1");
    assert_eq!(sql_literal("a'b"), "'a''b'");
    assert_eq!(sql_literal(""), "''");
    let window = Window { start: 1, end: 2 };
    assert_eq!(
        app_samples_sql("web", "default", Some("x' OR '1'='1"), &window),
        "SELECT timestamp, metric_name, labels, value FROM metrics \
         WHERE metric_name = 'x'' OR ''1''=''1' \
         AND labels LIKE '%\"default/web\"%' \
         AND timestamp >= 1 AND timestamp <= 2 \
         ORDER BY timestamp LIMIT 10000"
    );
}

#[test]
fn metric_reads_are_named_or_stated() {
    let window = Window { start: 1, end: 2 };
    let stated = |read: MetricsRead| match read {
        MetricsRead::Statement(sql) => sql,
        MetricsRead::Named(name, _) => panic!("unexpected read of {name}"),
    };
    for name in [None, Some("*")] {
        assert_eq!(
            stated(metrics_read(name, None, &window)),
            "SELECT timestamp, metric_name, labels, value FROM metrics \
             WHERE timestamp >= 1 AND timestamp <= 2 ORDER BY timestamp LIMIT 10000"
        );
    }
    assert_eq!(
        stated(metrics_read(None, Some("default/web"), &window)),
        "SELECT timestamp, metric_name, labels, value FROM metrics \
         WHERE labels LIKE '%\"default/web\"%' \
         AND timestamp >= 1 AND timestamp <= 2 ORDER BY timestamp LIMIT 10000"
    );
    assert!(matches!(
        metrics_read(Some("cpu"), None, &window),
        MetricsRead::Named(name, during) if name == "cpu" && during == window
    ));
    assert!(matches!(rollup_read(Some("cpu"), &window), MetricsRead::Named(..)));
    assert_eq!(
        stated(rollup_read(None, &window)),
        "SELECT timestamp, metric_name, labels, SUM(sum_val) as total_sum FROM rollups \
         WHERE timestamp >= 1 AND timestamp <= 2 \
         GROUP BY timestamp, metric_name, labels ORDER BY timestamp LIMIT 10000"
    );
}

#[test]
fn rollups_are_asked_of_every_live_voter() {
    let http = ClusterHttp::plaintext();
    let members = vec![member("n1", 1), member("n2", 2), member("n3", 3)];
    let voters = vec![3, 1, 9];
    let urls = resolve_council_urls(Some(&voters), Some(&members), &http).unwrap();
    assert_eq!(urls, vec!["http://n1:9117", "http://n3:9117"]);
    assert!(resolve_council_urls(Some(&vec![9]), Some(&members), &http).is_none());
    assert!(resolve_council_urls(None, Some(&members), &http).is_none());
    assert!(resolve_council_urls(Some(&voters), None, &http).is_none());
    let placed = names(&["n2", "gone"]);
    assert_eq!(app_metrics_nodes(Some(&placed), Some(&members), &http).len(), 1);
    assert!(app_metrics_nodes(None, Some(&members), &http).is_empty());
}

fn instance(app: &str, namespace: &str, state: &str) -> InstanceStatus {
    InstanceStatus {
        id: format!("{namespace}__{app}-0"),
        app_name: app.to_string(),
        namespace: namespace.to_string(),
        state: state.to_string(),
        exit_code: None,
        pid: None,
    }
}

#[test]
fn the_dashboard_has_one_row_for_each_app() {
    let statuses = vec![
        instance("web", "a", "running"),
        instance("api", "a", "running"),
        instance("web", "a", "unhealthy"),
        instance("web", "b", "stopped"),
        instance("web", "a", "running"),
    ];
    let rows = statuses_to_dashboard_apps(&statuses);
    let shown: Vec<_> = rows
        .iter()
        .map(|r| (r.name.as_str(), r.namespace.as_str(), r.instances_running, r.state.as_str()))
        .collect();
    assert_eq!(
        shown,
        vec![
            ("web", "a", 3, "unhealthy"),
            ("api", "a", 1, "running"),
            ("web", "b", 1, "stopped"),
        ]
    );
    assert_eq!(rows[0].instances_desired, 3);
    assert!(statuses_to_dashboard_apps(&Vec::new()).is_empty());
}

#[test]
fn an_apps_page_shows_the_first_that_does_not_run() {
    let states = |list: &[&str]| -> Vec<InstanceStatus> {
        list.iter().map(|state| instance("web", "a", state)).collect()
    };
    assert_eq!(app_page_state(&states(&[])), "unknown");
    assert_eq!(app_page_state(&states(&["running", "running"])), "running");
    let mixed = states(&["running", "stopped", "failed", "running"]);
    assert_eq!(app_page_state(&mixed), "stopped");
    assert_eq!(shown_state(&mixed), "failed");
    assert_eq!(shown_state(&states(&["running"])), "running");
}

#[test]
fn node_rows_follow_the_live_membership() {
    let scheduled = |nodes: &[&str]| ScheduledApp {
        name: "web".to_string(),
        namespace: "a".to_string(),
        nodes: names(nodes),
        has_spec: false,
    };
    let members = vec![member("n1", 1), member("n2", 2)];
    let apps = vec![scheduled(&["n1", "n1", "n3"]), scheduled(&["n1"])];
    let rows = gather_dashboard_nodes(Some(&members), &apps);
    assert_eq!((rows[0].name.as_str(), rows[0].state.as_str()), ("n1", "alive"));
    assert_eq!((rows[0].app_count, rows[1].app_count), (3, 0));
    assert_eq!(dashboard_node_count(&rows), 2);
    assert_eq!(dashboard_node_count(&gather_dashboard_nodes(None, &apps)), 1);
}

#[test]
fn node_pages_show_only_their_own_instances() {
    let members = vec![member("n2", 2)];
    let own = "n1".to_string();
    let page = node_page("n1", Some(&own), Some(&members));
    assert!(page.shows_instances && page.state == "alive");
    let page = node_page("n2", Some(&own), Some(&members));
    assert!(!page.shows_instances && page.state == "alive");
    let page = node_page("n3", Some(&own), None);
    assert!(!page.shows_instances && page.state == "unknown");
    let charts = app_charts("web", "a");
    assert_eq!(charts[0].endpoint, "/v1/metrics/app/web/a?name=process_cpu_percent");
    assert_eq!(charts[1].y_label, "bytes");
    assert_eq!(node_charts()[1].endpoint, "/v1/metrics?name=node_memory_used_bytes");
}

fn deployed(app: &str, namespace: &str, completed: bool, has_spec: bool) -> DeployRecord {
    DeployRecord {
        app: app.to_string(),
        namespace: namespace.to_string(),
        completed,
        has_spec,
    }
}

#[test]
fn history_and_rollbacks_keep_namespaces_apart() {
    let history = vec![
        deployed("web", "a", true, true),
        deployed("web", "b", true, true),
        deployed("web", "a", true, true),
        deployed("web", "a", false, true),
        deployed("web", "a", true, false),
        deployed("web", "a", true, true),
    ];
    assert_eq!(deploy_history(&history, "web", "a"), vec![0, 2, 3, 4, 5]);
    assert_eq!(rollback_target(Some(&history), "web", "a").unwrap(), 2);
    let refusal = rollback_target(Some(&history), "web", "b").unwrap_err();
    assert_eq!(refusal.status, Status::NotFound);
    assert_eq!(refusal.error, "no previous successful deploy to roll web back to");
    assert_eq!(
        rollback_target(None, "web", "a").unwrap_err().error,
        "deploy history unavailable"
    );
    assert_eq!(query_namespace(None), "default");
    assert_eq!(query_namespace(Some("a".to_string())), "a");
    assert_eq!(deploy_operation_snapshot(DeployQuery::Done(1)).unwrap(), 1);
    let late: DeployQuery<u8> = DeployQuery::TimedOut;
    assert_eq!(deploy_operation_snapshot(late).unwrap_err().status, Status::GatewayTimeout);
    let gone: DeployQuery<u8> = DeployQuery::Unavailable;
    assert_eq!(deploy_operation_snapshot(gone).unwrap_err().status, Status::ServiceUnavailable);
}

fn token(name: &str, role: &str) -> Result<TokenRequest, String> {
    Ok(TokenRequest {
        name: name.to_string(),
        role: role.to_string(),
        apps: None,
        namespaces: Some(names(&["a"])),
        ttl_days: Some(2),
    })
}

#[test]
fn tokens_are_made_by_administrators_under_free_names() {
    let admin = user(ApiRole::Admin);
    let plan = plan_token(Some(&admin), token("ci", "deployer"), "system", true).unwrap();
    assert_eq!(plan.role, ApiRole::Deployer);
    assert_eq!(plan.ttl_seconds, Some(172_800));
    assert_eq!(plan.namespaces, Some(names(&["a"])));
    let refusal = |auth: &AuthContext, request, council| {
        plan_token(Some(auth), request, "system", council).unwrap_err()
    };
    assert_eq!(refusal(&admin, token("system", "admin"), true).error, "token name \"system\" is reserved");
    assert_eq!(
        refusal(&admin, token("ci", "root"), true).error,
        "unknown role: root (expected admin, deployer, or read-only)"
    );
    assert_eq!(refusal(&admin, token("ci", "admin"), false).status, Status::ServiceUnavailable);
    assert_eq!(refusal(&admin, Err("eof".to_string()), true).error, "invalid JSON: eof");
    let deployer = user(ApiRole::Deployer);
    assert_eq!(refusal(&deployer, token("ci", "admin"), true).status, Status::Forbidden);
    let cluster = AuthContext { system: true, ..user(ApiRole::Admin) };
    assert_eq!(refusal(&cluster, token("ci", "admin"), true).status, Status::Forbidden);
    assert_eq!(parse_role("read-only"), Some(ApiRole::ReadOnly));
    assert_eq!(parse_role("readonly"), Some(ApiRole::ReadOnly));
    assert_eq!(parse_role("Admin"), None);
    assert!(require_manager(Some(&admin)).is_ok() && require_manager(None).is_ok());
}

#[test]
fn managed_requests_need_a_body_and_a_council() {
    let admin = user(ApiRole::Admin);
    assert!(admit_managed(Some(&admin), &Ok(()), true).is_ok());
    let eof = Err("eof".to_string());
    assert_eq!(admit_managed(Some(&admin), &eof, true).unwrap_err().error, "invalid JSON: eof");
    assert_eq!(
        admit_managed(Some(&admin), &Ok(()), false).unwrap_err().error,
        "no council available"
    );
    assert_eq!(
        answer_revocation("ci", CouncilWrite::Committed).unwrap(),
        "token ci revoked"
    );
    assert_eq!(
        answer_revocation("ci", CouncilWrite::Refused("last".to_string())).unwrap_err().status,
        Status::Conflict
    );
    let failed = || CouncilWrite::Failed("x".to_string());
    assert_eq!(
        answer_managed_write(failed(), String::new()).unwrap_err().status,
        Status::InternalServerError
    );
    assert_eq!(answer_token_write(failed()).unwrap_err().error, "x");
    assert!(answer_token_write(CouncilWrite::Refused("x".to_string())).is_ok());
    assert_eq!(
        answer_join_token_write(failed()).unwrap_err().error,
        "failed to commit join token (try the cluster leader): x"
    );
    assert!(answer_join_token_write(CouncilWrite::Committed).is_ok());
}

#[test]
fn join_tokens_are_bound_and_bounded() {
    let refusal = |error| join_token_refusal(error, 60, 3600);
    assert_eq!(refusal(JoinTokenError::EmptyNodeId).error, "node_id is required");
    assert_eq!(
        refusal(JoinTokenError::InvalidTtl).error,
        "ttl_seconds must be between 60 and 3600"
    );
    assert_eq!(
        refusal(JoinTokenError::Other("x".to_string())).status,
        Status::InternalServerError
    );
}

#[test]
fn rotations_go_up_by_one_and_need_a_sound_body() {
    let admin = user(ApiRole::Admin);
    let plan = |body: &str, parsed: Result<bool, String>, generations: &[u64]| {
        plan_rotation(Some(&admin), body, parsed, true, true, &generations.to_vec())
    };
    let malformed = || Err("eof".to_string());
    assert_eq!(plan(" \n", malformed(), &[1, 5, 3]).unwrap(), Rotation::NewKey(6));
    assert_eq!(plan("", malformed(), &[]).unwrap(), Rotation::NewKey(1));
    assert_eq!(plan("{}", Ok(false), &[1]).unwrap(), Rotation::NewKey(2));
    assert_eq!(plan("{\"finalize\":true}", Ok(true), &[1]).unwrap(), Rotation::Finalise);
    assert_eq!(plan("{", malformed(), &[1]).unwrap_err().error, "invalid rotate request: eof");
    let none = Vec::new();
    let refusal = plan_rotation(Some(&admin), "", Ok(false), true, false, &none).unwrap_err();
    assert_eq!(refusal.error, "no wrapping IKM");
    let refusal = plan_rotation(Some(&admin), "", Ok(false), false, true, &none).unwrap_err();
    assert_eq!(refusal.error, "no council available");
    assert!(is_blank("\u{2003}") && !is_blank("x"));
    assert_eq!(
        answer_rotation(Rotation::NewKey(6), CouncilWrite::Committed).unwrap(),
        "secret key rotated to generation 6"
    );
    assert_eq!(
        answer_rotation(Rotation::Finalise, CouncilWrite::Committed).unwrap(),
        "secret rotation finalised, old keys removed"
    );
    assert_eq!(
        answer_rotation(Rotation::Finalise, CouncilWrite::Refused("sealed".to_string()))
            .unwrap_err()
            .status,
        Status::Conflict
    );
}

#[test]
fn signing_needs_an_agent_and_a_key() {
    assert_eq!(answer_signing(AgentReply::Done("ok".to_string())).unwrap(), "ok");
    assert_eq!(answer_signing(AgentReply::Dropped).unwrap_err().error, "agent channel closed");
    assert_eq!(answer_signing(AgentReply::Failed("x".to_string())).unwrap_err().error, "x");
    assert!(require_signing_key(true, true).is_ok());
    assert_eq!(require_signing_key(true, false).unwrap_err().error, "no OIDC signing config");
    assert_eq!(require_signing_key(false, true).unwrap_err().error, "no council available");
}

#[test]
fn certificates_travel_in_base64() {
    let node = b"\x00\xff\x10node".to_vec();
    let root = b"ro".to_vec();
    let ca = cluster_ca(true, Some(&node), Some(&root)).unwrap();
    assert_eq!(ca.node_ca_b64, "AP8Qbm9kZQ==");
    assert_eq!(ca.root_ca_b64, "cm8=");
    assert_eq!(decode_csr(&ca.node_ca_b64).unwrap(), node);
    assert_eq!(decode_csr(&ca.root_ca_b64).unwrap(), root);
    assert_eq!(decode_csr("").unwrap(), Vec::<u8>::new());
    for malformed in ["cm8", "cm9=", "c m8=", "!!!!"] {
        let refusal = decode_csr(malformed).unwrap_err();
        assert_eq!(refusal.status, Status::BadRequest);
        assert!(refusal.error.starts_with("invalid CSR: "));
        assert!(refusal.error.len() > "invalid CSR: ".len());
    }
    assert_eq!(cluster_ca(false, None, None).unwrap_err().error, "no council available");
    assert_eq!(
        cluster_ca(true, Some(&node), None).unwrap_err().error,
        "cluster CA not initialised"
    );
    assert_eq!(take_csr(Err("bad".to_string())).unwrap_err().error, "invalid CSR: bad");
    assert_eq!(take_csr(Ok(vec![1])).unwrap(), vec![1]);
}

fn text(value: &str) -> Header {
    Header::Text(value.to_string())
}

#[test]
fn webhooks_fail_closed() {
    let read = |listening, secret, token: Header, signature: Header| {
        read_delivery(listening, secret, token, signature, None, "main".to_string())
    };
    assert_eq!(
        read(false, true, Header::Missing, Header::Missing).unwrap_err().error,
        "gitops not configured"
    );
    assert_eq!(
        read(true, false, Header::Missing, Header::Missing).unwrap_err().error,
        "webhook secret not configured"
    );
    assert!(matches!(
        read(true, true, text("t"), text("sha256=aa")).unwrap().proof_of_origin,
        Proof::SharedSecret(token) if token == "t"
    ));
    assert!(matches!(
        read(true, true, Header::Unreadable, text("sha256=aa")).unwrap().proof_of_origin,
        Proof::Signature(Some(signature)) if signature == "sha256=aa"
    ));
    assert!(matches!(
        read(true, true, Header::Missing, Header::Missing).unwrap().proof_of_origin,
        Proof::Signature(None)
    ));
    assert_eq!(header_delivery_id(text("g"), text("l")).as_deref(), Some("g"));
    assert_eq!(header_delivery_id(Header::Missing, text("l")).as_deref(), Some("l"));
    assert_eq!(header_delivery_id(Header::Unreadable, text("l")), None);
    assert_eq!(header_branch(text("dev")), "dev");
    assert_eq!(header_branch(Header::Missing), "main");
    assert_eq!(answer_delivery(Ok(())).unwrap(), Status::Accepted);
    let rejected = |words: &str| answer_delivery(Err(words.to_string())).unwrap_err().status;
    assert_eq!(rejected("webhook rate limit exceeded"), Status::TooManyRequests);
    assert_eq!(rejected("invalid signature"), Status::Unauthorized);
}

#[test]
fn raw_queries_need_a_store_and_a_statement() {
    let confined =
        AuthContext { scoped_apps: Some(vec!["web".to_string()]), ..user(ApiRole::Admin) };
    let sql = || Some("SELECT 1".to_string());
    assert_eq!(raw_query(Some(&confined), true, sql()).unwrap_err().status, Status::Forbidden);
    assert!(matches!(
        raw_query(None, false, None).unwrap(),
        RawQuery::Disabled(words) if words == "log store not enabled"
    ));
    assert!(matches!(raw_query(None, true, sql()).unwrap(), RawQuery::Run(sql) if sql == "SELECT 1"));
    assert_eq!(raw_query(None, true, None).unwrap_err().status, Status::BadRequest);
}

#[test]
fn metrics_are_read_where_they_are_kept() {
    let confined =
        AuthContext { scoped_apps: Some(vec!["web".to_string()]), ..user(ApiRole::Admin) };
    let window = query_window(None, None);
    let local = |auth, enabled| local_metrics(auth, enabled, Some("cpu"), None, &window);
    assert_eq!(local(Some(&confined), true).unwrap_err().status, Status::Forbidden);
    assert!(matches!(
        local(None, false).unwrap(),
        LocalMetrics::Disabled(words) if words == "metrics not enabled"
    ));
    assert!(matches!(
        local(None, true).unwrap(),
        LocalMetrics::Read(MetricsRead::Named(name, _)) if name == "cpu"
    ));
    let http = ClusterHttp::plaintext();
    let (voters, members) = (vec![1], vec![member("n1", 1), member("n2", 2)]);
    let cluster = |auth, voters: Option<&Vec<u64>>, enabled| {
        cluster_metrics(auth, voters, Some(&members), &http, enabled)
    };
    assert!(cluster(Some(&confined), Some(&voters), true).is_err());
    assert!(matches!(
        cluster(None, Some(&voters), false).unwrap(),
        ClusterMetrics::FanOut(urls) if urls == ["http://n1:9117"]
    ));
    assert!(matches!(cluster(None, None, true).unwrap(), ClusterMetrics::Local));
    assert!(matches!(
        cluster(None, None, false).unwrap(),
        ClusterMetrics::Unconfigured(name) if name == "no rollup store configured"
    ));
}

#[test]
fn keys_and_signatures_fail_in_words() {
    assert_eq!(answer_keypair(Ok(7)).unwrap(), 7);
    let failed = answer_keypair::<u8>(Err("no entropy".to_string())).unwrap_err();
    assert_eq!(
        (failed.status, failed.error.as_str()),
        (Status::InternalServerError, "keypair generation failed: no entropy")
    );
    let admin = user(ApiRole::Admin);
    assert_eq!(take_signing(Some(&admin), Ok("sha256:aa")).unwrap(), "sha256:aa");
    let malformed = take_signing::<u8>(Some(&admin), Err("eof".to_string())).unwrap_err();
    assert_eq!(
        (malformed.status, malformed.error.as_str()),
        (Status::BadRequest, "invalid JSON: eof")
    );
    let service = AuthContext { system: true, ..user(ApiRole::Admin) };
    assert_eq!(take_signing(Some(&service), Ok(1)).unwrap_err().status, Status::Forbidden);
    assert!(require_taken(true).is_ok());
    assert_eq!(require_taken(false).unwrap_err().error, "agent unavailable");
}

#[test]
fn events_are_listed_for_unconfined_callers() {
    let mut store = EventStore::new();
    for at in 0..120u64 {
        let severity = if at == 0 { EventSeverity::Critical } else { EventSeverity::Info };
        store.record(at, EventKind::Fault, severity, None, None, None, format!("event {at}"));
    }
    let confined =
        AuthContext { scoped_apps: Some(vec!["web".to_string()]), ..user(ApiRole::Admin) };
    let refusal = list_events(Some(&confined), Some(&store), None, None, None).unwrap_err();
    assert_eq!(refusal.status, Status::Forbidden);
    assert!(list_events(None, None, Some(5), None, None).unwrap().is_empty());
    let listed = list_events(None, Some(&store), None, None, None).unwrap();
    assert_eq!((listed.len(), listed[0].message.as_str()), (LISTED_EVENTS, "event 20"));
    assert_eq!(list_events(None, Some(&store), Some(3), None, None).unwrap().len(), 3);
    let errors = list_events(None, Some(&store), None, None, Some(EventSeverity::Critical)).unwrap();
    assert_eq!(errors.len(), 1);
    let replayed = replay_events(&store);
    assert_eq!((replayed.len(), replayed[0].message.as_str()), (REPLAYED_EVENTS, "event 70"));
}

#[test]
fn the_page_of_an_app_shows_every_deploy_of_its_name() {
    let deploy = |app: &str, namespace: &str| DeployRecord {
        app: app.to_string(),
        namespace: namespace.to_string(),
        completed: true,
        has_spec: true,
    };
    let history = vec![deploy("web", "default"), deploy("api", "default"), deploy("web", "other")];
    assert_eq!(page_history(&history, "web"), vec![0, 2]);
    assert_eq!(deploy_history(&history, "web", "default"), vec![0]);
}
