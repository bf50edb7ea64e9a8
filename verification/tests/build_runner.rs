//! Builds: registry, delegation and stages.

use bun::build_runner::{
    accept_build, build_run, build_status, build_submit_route, context_directory_name,
    find_peer_builder, run_build, track_delegated, BuildProgress, BuildRegistry, BuildRoute,
    BuildState, BuildStatus, BuildStep, BuilderAnswer, ContextFetch, ResourceUsage, StageOutput,
    StateReport,
};
use bun::membership::NodeMembershipInfo;
use bun::ordered_map::OrderedMap;
use bun::reply::{ClusterHttp, Status};

#[test]
fn registry_tracks_lifecycle() {
    let mut registry = BuildRegistry::default();
    let id = registry.register(BuildState::Running);
    assert!(matches!(registry.get(id), Some(BuildState::Running)));

    registry.set(
        id,
        BuildState::Completed {
            image: "myapp:v1".to_string(),
        },
    );
    assert!(matches!(
        registry.get(id),
        Some(BuildState::Completed { .. })
    ));
    assert!(registry.get(id + 1).is_none());
}

#[test]
fn identifiers_count_up_and_leave_other_builds_alone() {
    let mut registry = BuildRegistry::default();
    assert!(registry.has_room());
    assert_eq!(registry.register(BuildState::Running), 1);
    assert_eq!(registry.register(BuildState::Running), 2);
    registry.set(2, BuildState::Failed { reason: "x".to_string() });
    assert!(matches!(registry.get(1), Some(BuildState::Running)));
    assert!(matches!(registry.get(2), Some(BuildState::Failed { .. })));
}

fn report(has_buildah: bool) -> StateReport {
    StateReport {
        has_buildah,
        resource_usage: ResourceUsage {
            cpu_total_millicores: 0,
            cpu_used_millicores: 0,
            memory_total_mb: 0,
            memory_used_mb: 0,
        },
    }
}

fn member(node_id: &str, address: &str) -> NodeMembershipInfo {
    NodeMembershipInfo { node_id: node_id.to_string(), address: address.to_string(), raft_id: 1 }
}

#[test]
fn peer_builder_selection_prefers_capable_non_self() {
    let mut reports = OrderedMap::new();
    reports.insert("builder".to_string(), report(true));
    reports.insert("plain".to_string(), report(false));

    let members = vec![member("plain", "10.0.0.1:9117"), member("builder", "10.0.0.2:9117")];

    let http = ClusterHttp::plaintext();
    let url = find_peer_builder(&members, &reports, Some("plain"), &http);
    assert_eq!(url.as_deref(), Some("http://10.0.0.2:9117"));

    // The capable node itself is excluded: a peer is another node.
    let url = find_peer_builder(&members, &reports, Some("builder"), &http);
    assert!(url.is_none());
}

#[test]
fn builds_run_here_or_at_a_peer_or_not_at_all() {
    assert!(matches!(build_submit_route(true, None), Ok(BuildRoute::Local)));
    assert!(matches!(
        build_submit_route(false, Some("http://b".to_string())),
        Ok(BuildRoute::Peer(url)) if url == "http://b"
    ));
    assert_eq!(build_submit_route(false, None).unwrap_err().status, Status::ServiceUnavailable);
}

#[test]
fn bad_digests_register_nothing() {
    let mut registry = BuildRegistry::default();
    let refusal = accept_build(&mut registry, Err("not sha256".to_string())).unwrap_err();
    assert_eq!(refusal.status, Status::BadRequest);
    assert_eq!(refusal.error, "invalid context digest: not sha256");
    assert_eq!(accept_build(&mut registry, Ok(())).unwrap(), 1);
    let refusal = build_run(&mut registry, Ok(()), false).unwrap_err();
    assert_eq!(refusal.status, Status::ServiceUnavailable);
    assert_eq!(build_run(&mut registry, Ok(()), true).unwrap(), 2);
}

#[test]
fn delegated_builds_are_read_from_the_peer() {
    let mut registry = BuildRegistry::default();
    let id = track_delegated(&mut registry, "http://b".to_string(), BuilderAnswer::Accepted(7));
    let id = id.unwrap();
    assert!(matches!(
        build_status(&registry, id),
        Ok(BuildStatus::Proxied(url)) if url == "http://b/v1/build/7"
    ));
    let error = |answer: BuilderAnswer| {
        let mut registry = BuildRegistry::default();
        let refusal = track_delegated(&mut registry, "http://b".to_string(), answer).unwrap_err();
        assert_eq!(refusal.status, Status::BadGateway);
        refusal.error
    };
    assert_eq!(
        error(BuilderAnswer::Unreachable("refused".to_string())),
        "builder dispatch failed: refused"
    );
    assert_eq!(error(BuilderAnswer::Unreadable("eof".to_string())), "builder response: eof");
    assert_eq!(
        error(BuilderAnswer::Rejected("{}".to_string())),
        "builder rejected the build: {}"
    );
    let refusal = build_status(&registry, 99).unwrap_err();
    assert_eq!(refusal.error, "build 99 not found");
}

fn step(progress: BuildProgress) -> BuildStep {
    run_build(progress, "sha256:aa", "myapp", "v1", 60)
}

#[test]
fn builds_go_from_stage_to_stage() {
    assert!(matches!(step(BuildProgress::Planned(Ok(()))), BuildStep::FetchContext));
    assert!(matches!(step(BuildProgress::Fetched(ContextFetch::Read)), BuildStep::Extract));
    assert!(matches!(step(BuildProgress::Extracted(true)), BuildStep::Build));
    assert!(matches!(step(BuildProgress::Built(StageOutput::Success)), BuildStep::Push));
    assert!(matches!(step(BuildProgress::Pushed(StageOutput::Success)), BuildStep::Sign));
    assert!(matches!(
        step(BuildProgress::Signed),
        BuildStep::Finish(BuildState::Completed { image }) if image == "myapp:v1"
    ));
}

fn failure(progress: BuildProgress) -> String {
    match step(progress) {
        BuildStep::Finish(BuildState::Failed { reason }) => reason,
        other => panic!("expected a failure, got {other:?}"),
    }
}

#[test]
fn every_stage_can_fail() {
    assert!(failure(BuildProgress::Planned(Err("no tag".to_string()))).contains("no tag"));
    assert!(failure(BuildProgress::Fetched(ContextFetch::Missing)).contains("sha256:aa"));
    let broken = ContextFetch::ReadFailed("eof".to_string());
    assert!(failure(BuildProgress::Fetched(broken)).contains("eof"));
    assert!(!failure(BuildProgress::Extracted(false)).is_empty());
    let exited = StageOutput::Exited("no space".to_string());
    assert!(failure(BuildProgress::Built(exited)).contains("no space"));
    let missing = StageOutput::NotStarted("not found".to_string());
    assert!(failure(BuildProgress::Pushed(missing)).contains("not found"));
    assert!(failure(BuildProgress::Built(StageOutput::TimedOut)).contains("60"));
}

#[test]
fn context_directories_hold_no_separator_of_the_digest() {
    let name = context_directory_name("sha256:ab/..");
    assert!(!name.contains(':'));
    assert!(name.contains("sha256"));
}
