//! Batches: capacity, dispatch and watching.

use bun::batch::{
    batch_capacities, batch_jobs, batch_not_found, batch_submit_route, capacities_from_reports,
    completion_report, default_namespace, dispatch_target, find_job_outcome, forward_to_leader,
    group_by_node, local_only_capacity, node_api_url, reporter_for, reports_completion,
    run_jobs_and_watch, Assignment, BatchJobSubmission, BatchRoute, BatchSubmitRequest,
    DispatchTarget, JobSpec, JobWatch, Reporter, ResourceRequest, ShareDeployment,
    JOB_WATCH_TIMEOUT_SECS,
};
use bun::build_runner::{ResourceUsage, StateReport};
use bun::instances::InstanceStatus;
use bun::membership::NodeMembershipInfo;
use bun::ordered_map::OrderedMap;
use bun::reply::Status;

fn report_with_usage(resource_usage: ResourceUsage) -> StateReport {
    StateReport { has_buildah: false, resource_usage }
}

fn member(node_id: &str, address: &str) -> NodeMembershipInfo {
    NodeMembershipInfo { node_id: node_id.to_string(), address: address.to_string(), raft_id: 1 }
}

fn usage(cpu_total: u32, cpu_used: u32, memory_total: u32, memory_used: u32) -> ResourceUsage {
    ResourceUsage {
        cpu_total_millicores: cpu_total,
        cpu_used_millicores: cpu_used,
        memory_total_mb: memory_total,
        memory_used_mb: memory_used,
    }
}

#[test]
fn submission_namespace_defaults() {
    let submission = BatchJobSubmission {
        name: "j".to_string(),
        namespace: default_namespace(),
        spec: spec(None, None),
    };
    assert_eq!(submission.namespace, "default");
}

#[test]
fn capacities_map_commitments_not_usage() {
    let mut reports = OrderedMap::new();
    reports.insert("worker-1".to_string(), report_with_usage(usage(8000, 2000, 16384, 4096)));

    let members = vec![member("worker-1", "10.0.0.1:9117")];
    let capacities = capacities_from_reports(&members, &reports);

    assert_eq!(capacities.len(), 1);
    assert_eq!(capacities[0].total.cpu_millicores, 8000);
    assert_eq!(capacities[0].allocated.memory_bytes, 4096 * 1024 * 1024);
}

#[test]
fn capacities_skip_pre_capacity_nodes() {
    let mut reports = OrderedMap::new();
    reports.insert("fresh".to_string(), report_with_usage(usage(0, 0, 0, 0)));

    let members = vec![member("fresh", "10.0.0.2:9117")];
    assert!(capacities_from_reports(&members, &reports).is_empty());
}

#[test]
fn batches_fall_back_to_this_node() {
    let local = local_only_capacity("local");
    assert_eq!(local.len(), 1);
    assert_eq!(local[0].total.cpu_millicores, u64::MAX / 2);
    assert_eq!(local[0].allocated.cpu_millicores, 0);
    let members = vec![member("fresh", "10.0.0.2:9117")];
    let reports = OrderedMap::new();
    let chosen = batch_capacities(Some(&members), Some(&reports), "self");
    assert_eq!(chosen[0].node_id, "self");
    assert_eq!(batch_capacities(None, None, "self")[0].node_id, "self");
}

fn spec(cpu: Option<u64>, memory: Option<u64>) -> JobSpec {
    JobSpec {
        cpu: cpu.map(|request| ResourceRequest { request }),
        memory: memory.map(|request| ResourceRequest { request }),
        document: "command = [\"true\"]".to_string(),
    }
}

fn job(name: &str) -> BatchJobSubmission {
    BatchJobSubmission {
        name: name.to_string(),
        namespace: "default".to_string(),
        spec: spec(Some(250), None),
    }
}

#[test]
fn jobs_ask_for_what_their_specs_request() {
    let jobs = batch_jobs(&vec![job("render")]);
    assert_eq!(jobs[0].name, "render");
    assert_eq!(jobs[0].resources.cpu_millicores, 250);
    assert_eq!(jobs[0].resources.memory_bytes, 0);
}

#[test]
fn batches_are_forwarded_scheduled_or_refused() {
    let request = || Ok(BatchSubmitRequest { jobs: vec![job("a")] });
    assert!(matches!(batch_submit_route(Some(false), request()), Ok(BatchRoute::ForwardToLeader)));
    assert!(matches!(batch_submit_route(Some(true), request()), Ok(BatchRoute::Schedule(_))));
    assert!(matches!(batch_submit_route(None, request()), Ok(BatchRoute::Schedule(_))));
    let empty = Ok(BatchSubmitRequest { jobs: Vec::new() });
    assert_eq!(batch_submit_route(None, empty).unwrap_err().error, "batch has no jobs");
    let refusal = batch_submit_route(None, Err("eof".to_string())).unwrap_err();
    assert_eq!(refusal.status, Status::BadRequest);
    assert_eq!(refusal.error, "invalid batch request: eof");
    let at = forward_to_leader(Some("http://l".to_string()), "/v1/batch").unwrap();
    assert_eq!(at, "http://l/v1/batch");
    assert_eq!(forward_to_leader(None, "/v1/batch").unwrap_err().status, Status::ServiceUnavailable);
    assert_eq!(batch_not_found(4).error, "batch 4 not found");
}

#[test]
fn every_assignment_reaches_its_node() {
    let assign = |job_name: &str, node_id: &str| Assignment {
        job_name: job_name.to_string(),
        node_id: node_id.to_string(),
    };
    let jobs = vec![job("a"), job("b"), job("c")];
    let shares = group_by_node(&vec![assign("c", "n1"), assign("a", "n2"), assign("b", "n1")], &jobs);
    assert_eq!(shares.len(), 2);
    let names: Vec<_> =
        shares.get(&"n1".to_string()).unwrap().iter().map(|j| j.name.as_str()).collect();
    assert_eq!(names, vec!["c", "b"]);
    assert_eq!(shares.get(&"n2".to_string()).unwrap().len(), 1);
}

#[test]
fn shares_go_where_their_nodes_are() {
    let members = vec![member("n2", "10.0.0.2:9117")];
    assert!(matches!(dispatch_target("n1", "n1", Some(&members)), DispatchTarget::Local));
    assert!(matches!(
        dispatch_target("n2", "n1", Some(&members)),
        DispatchTarget::Remote(url) if url == "http://10.0.0.2:9117"
    ));
    assert!(matches!(dispatch_target("n3", "n1", Some(&members)), DispatchTarget::Unreachable));
    assert!(node_api_url(None, "n2").is_none());
}

fn status(app: &str, state: &str, exit_code: Option<i32>) -> InstanceStatus {
    InstanceStatus {
        id: format!("default__{app}-0"),
        app_name: app.to_string(),
        namespace: "default".to_string(),
        state: state.to_string(),
        exit_code,
        pid: None,
    }
}

#[test]
fn jobs_are_watched_until_they_end_or_time_runs_out() {
    let (mut watch, reports) =
        run_jobs_and_watch(ShareDeployment::Deployed, vec![job("a"), job("b"), job("c")]);
    assert!(reports.is_empty());
    let reports = watch.observe(&vec![
        status("a", "stopped", Some(0)),
        status("b", "failed", Some(2)),
        status("c", "stopped", Some(2)),
    ]);
    let told: Vec<_> = reports.iter().map(|r| (r.job_name.as_str(), r.completed)).collect();
    assert_eq!(told, vec![("a", true), ("b", false)]);
    assert!(watch.goes_on(0));
    assert!(!watch.goes_on(JOB_WATCH_TIMEOUT_SECS * 1000));
    let rest = watch.give_up();
    assert_eq!(rest.len(), 1);
    assert!(!rest[0].completed);
    assert!(!watch.goes_on(0));
    assert!(JobWatch { pending: Vec::new() }.give_up().is_empty());
}

#[test]
fn a_watch_ends_when_the_agent_is_gone() {
    let mut watch = JobWatch { pending: vec![job("a"), job("b")] };
    let heard = watch.hear(Some(&vec![status("a", "stopped", Some(0))]));
    assert_eq!(heard.len(), 1);
    assert!(heard[0].completed);
    assert!(watch.goes_on(0));
    let rest = watch.hear(None);
    assert_eq!(rest.len(), 1);
    assert_eq!(rest[0].job_name, "b");
    assert!(!rest[0].completed);
    assert!(!watch.goes_on(0));
}

#[test]
fn shares_that_do_not_deploy_fail() {
    for deployment in [
        ShareDeployment::NoConfiguration,
        ShareDeployment::AgentUnavailable,
        ShareDeployment::Failed,
    ] {
        let (watch, reports) = run_jobs_and_watch(deployment, vec![job("a")]);
        assert!(watch.pending.is_empty());
        assert!(!reports[0].completed);
    }
}

#[test]
fn outcomes_are_told_by_instances_of_the_job_alone() {
    let statuses = vec![status("other", "stopped", Some(0)), status("a", "failed", None)];
    assert_eq!(find_job_outcome(&statuses, "missing", "default"), None);
    assert_eq!(find_job_outcome(&statuses, "other", "default"), Some(true));
    assert_eq!(find_job_outcome(&statuses, "other", "elsewhere"), None);
}

#[test]
fn completions_are_heard_as_they_were_reported() {
    for completed in [true, false] {
        let (url, report) = completion_report("http://s:1", 12, "a", completed);
        assert_eq!(url, "http://s:1/v1/batch/12/report");
        assert_eq!(report.job_name, "a");
        assert_eq!(reports_completion(&report), completed);
    }
    assert!(matches!(reporter_for(None, Some("t".to_string())), Reporter::Local));
    assert!(matches!(
        reporter_for(Some("http://s".to_string()), None),
        Reporter::Callback { base_url, service_token: None } if base_url == "http://s"
    ));
}
