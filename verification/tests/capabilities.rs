//! Capability reports and their collection.

use bun::capabilities::{
    announced_length_fits, capability_at, chunk_fits, cluster_identity, cluster_report,
    collect_peer_capability, collected_capability_node_id, identity_of_digest,
    local_capability_report, peers_to_ask, unix_millis, BuildFingerprint, Capability,
    CapabilityObservations, CapabilityState, ClusterCapabilities, CollectedNodeCapability,
    DnsEvidence, EgressEvidence, NodeCapabilityEvidence, NodeReadinessEvidence, PeerReply,
    RegistryEvidence, StaticCapabilities, SubsystemEvidence, SubsystemState, WiredSubsystems,
    CAPABILITY_SCHEMA_VERSION, CAPABILITY_TTL_MILLIS,
};
use bun::membership::{CouncilView, NodeMembershipInfo};

fn statics() -> StaticCapabilities {
    StaticCapabilities {
        container_runtime: "process".to_string(),
        ..StaticCapabilities::default()
    }
}

#[test]
fn wired_subsystems_are_reported_individually() {
    let wired = WiredSubsystems {
        metrics: true,
        logs: true,
        council: false,
        ..WiredSubsystems::default()
    };
    let capabilities = ClusterCapabilities::derive(&statics(), &wired);
    assert!(capabilities.metrics);
    assert!(capabilities.logs);
    assert!(!capabilities.council);
    assert!(!capabilities.registry);
}

#[test]
fn capability_report_identifies_its_node_and_expires() {
    let statics = StaticCapabilities {
        node_id: "node-a".to_string(),
        ..statics()
    };
    let report = ClusterCapabilities::derive(&statics, &WiredSubsystems::default());
    assert_eq!(report.schema_version, CAPABILITY_SCHEMA_VERSION);
    assert_eq!(report.node_id, "node-a");
    assert_eq!(
        report.expires_at_unix_ms - report.observed_at_unix_ms,
        CAPABILITY_TTL_MILLIS
    );
}

#[test]
fn the_environment_tag_is_carried_through() {
    let statics = StaticCapabilities {
        environment: Some("production".to_string()),
        ..statics()
    };
    let capabilities = ClusterCapabilities::derive(&statics, &WiredSubsystems::default());
    assert_eq!(capabilities.environment.as_deref(), Some("production"));
    assert!(capabilities.is_production());
}

#[test]
fn no_environment_tag_is_not_production() {
    let capabilities = ClusterCapabilities::derive(&statics(), &WiredSubsystems::default());
    assert_eq!(capabilities.environment, None);
    assert!(!capabilities.is_production());
}

/// A guard that only matches one spelling is a guard that failed.
#[test]
fn production_is_matched_case_insensitively() {
    for spelling in ["production", "Production", "PRODUCTION"] {
        let statics = StaticCapabilities {
            environment: Some(spelling.to_string()),
            ..statics()
        };
        let capabilities = ClusterCapabilities::derive(&statics, &WiredSubsystems::default());
        assert!(capabilities.is_production(), "{spelling} must count");
    }
    let statics = StaticCapabilities {
        environment: Some("staging".to_string()),
        ..statics()
    };
    let capabilities = ClusterCapabilities::derive(&statics, &WiredSubsystems::default());
    assert!(!capabilities.is_production());
}

/// A worker has a membership table and no council seat, and is very much
/// part of a cluster.
#[test]
fn a_worker_without_a_council_seat_is_still_clustered() {
    let wired = WiredSubsystems {
        council: false,
        member_count: Some(5),
        ..WiredSubsystems::default()
    };
    let capabilities = ClusterCapabilities::derive(
        &StaticCapabilities {
            cluster_mode: true,
            ..statics()
        },
        &wired,
    );
    assert!(capabilities.cluster);
    assert_eq!(capabilities.node_count, 5);
    assert!(capabilities.has(Capability::MultiNode));
}

#[test]
fn a_standalone_node_is_a_cluster_of_one_not_zero() {
    let capabilities = ClusterCapabilities::derive(&statics(), &WiredSubsystems::default());
    assert!(!capabilities.cluster);
    assert_eq!(capabilities.node_count, 1);
    assert!(!capabilities.has(Capability::MultiNode));
}

#[test]
fn multi_node_needs_three() {
    for (members, expected) in [(1, false), (2, false), (3, true), (9, true)] {
        let wired = WiredSubsystems {
            member_count: Some(members),
            ..WiredSubsystems::default()
        };
        let capabilities = ClusterCapabilities::derive(&statics(), &wired);
        assert_eq!(
            capabilities.has(Capability::MultiNode),
            expected,
            "{members} members"
        );
    }
}

/// `fault_injection` is derived rather than asserted: the Smoker API is
/// always mounted, so a bare `true` would tell a caller nothing about
/// whether a fault can actually do anything.
#[test]
fn fault_injection_reflects_what_can_actually_take_effect() {
    let bare = ClusterCapabilities::derive(&statics(), &WiredSubsystems::default());
    assert!(
        !bare.fault_injection,
        "a standalone non-Linux node without eBPF can apply no fault with a real effect"
    );

    let with_cgroups = ClusterCapabilities::derive(
        &StaticCapabilities {
            cgroup_faults: true,
            ..statics()
        },
        &WiredSubsystems::default(),
    );
    assert!(with_cgroups.fault_injection);

    let clustered = ClusterCapabilities::derive(
        &statics(),
        &WiredSubsystems {
            council: true,
            ..WiredSubsystems::default()
        },
    );
    assert!(
        clustered.fault_injection,
        "node-level faults quiesce the cluster plane, so a cluster is enough"
    );
}

#[test]
fn missing_lists_only_absent_capabilities() {
    let wired = WiredSubsystems {
        metrics: true,
        member_count: Some(3),
        ..WiredSubsystems::default()
    };
    let capabilities = ClusterCapabilities::derive(&statics(), &wired);
    let missing = capabilities.missing(&[
        Capability::Metrics,
        Capability::MultiNode,
        Capability::Ebpf,
        Capability::Ingress,
    ]);
    assert_eq!(missing, vec![Capability::Ebpf, Capability::Ingress]);
    assert!(capabilities.missing(&[Capability::Metrics]).is_empty());
}

/// Skip reasons and JSON reports must call a capability the same thing.
#[test]
fn capability_display_matches_its_wire_form() {
    assert_eq!(
        Capability::ProcessWorkloads.to_string(),
        "process_workloads"
    );
    assert_eq!(Capability::MultiNode.to_string(), "multi_node");
    assert_eq!(Capability::Ebpf.to_string(), "ebpf");
}

#[test]
fn capability_evidence_distinguishes_absent_from_unknown() {
    let capabilities = ClusterCapabilities::derive_with_observations(
        &StaticCapabilities {
            cluster_mode: true,
            container_runtime: "runc".to_string(),
            ingress: true,
            ingress_cluster_tls: true,
            ..StaticCapabilities::default()
        },
        &WiredSubsystems {
            metrics: true,
            registry: true,
            member_count: None,
            ..WiredSubsystems::default()
        },
        CapabilityObservations::default(),
    );

    assert_eq!(
        capabilities.state(Capability::RuntimeRunc),
        CapabilityState::Available
    );
    assert_eq!(
        capabilities.state(Capability::RuntimeApple),
        CapabilityState::Unavailable
    );
    assert_eq!(
        capabilities.state(Capability::MetricsFresh),
        CapabilityState::Unknown
    );
    assert_eq!(
        capabilities.state(Capability::MultiNode),
        CapabilityState::Unknown
    );
    assert_eq!(
        capabilities.state(Capability::NodeKill),
        CapabilityState::Unavailable
    );
}

#[test]
fn stale_capability_evidence_is_unknown() {
    let mut capabilities = ClusterCapabilities::derive(&statics(), &WiredSubsystems::default());
    capabilities.expires_at_unix_ms = 0;

    assert_eq!(
        capabilities.state(Capability::ProcessRuntime),
        CapabilityState::Unknown
    );
}

#[test]
fn capability_report_contains_reproduction_and_policy_fingerprints() {
    let capabilities = ClusterCapabilities::derive(
        &StaticCapabilities {
            node_id: "node-a".to_string(),
            cluster_name: "payments.prod".to_string(),
            runtime_version: Some("runc 1.4.0".to_string()),
            kernel: "Linux 6.8.0".to_string(),
            architecture: "aarch64".to_string(),
            rootless: false,
            build: BuildFingerprint {
                version: "0.4.0".to_string(),
                git_sha: None,
                target: "aarch64-linux".to_string(),
                profile: "release".to_string(),
            },
            ..statics()
        },
        &WiredSubsystems::default(),
    );

    assert_eq!(capabilities.cluster_name, "payments.prod");
    assert_eq!(capabilities.runtime.node_id, "node-a");
    assert_eq!(capabilities.runtime.name, "process");
    assert_eq!(capabilities.runtime.version.as_deref(), Some("runc 1.4.0"));
    assert_eq!(capabilities.runtime.kernel, "Linux 6.8.0");
    assert_eq!(capabilities.runtime.architecture, "aarch64");
    assert!(!capabilities.build.target.is_empty());
    assert!(!capabilities.operations.is_empty());
}


fn report_of(node_id: &str) -> ClusterCapabilities {
    let statics = StaticCapabilities {
        node_id: node_id.to_string(),
        process_workloads: true,
        ..statics()
    };
    let observations = CapabilityObservations::default();
    ClusterCapabilities::derive_at(&statics, &WiredSubsystems::default(), observations, 1_000)
}

#[test]
fn sound_peer_reports_become_evidence() {
    let reply = PeerReply::Report(Box::new(report_of("node-1")));
    let collected = collect_peer_capability("node-1", "127.0.0.1:9", reply, 1_500);
    assert_eq!(collected_capability_node_id(&collected), "node-1");
    assert!(matches!(
        collected,
        CollectedNodeCapability::Evidence { ref report, .. } if report.observed_at_unix_ms == 1_000
    ));
}

fn reason(reply: PeerReply, now: u64) -> String {
    match collect_peer_capability("node-2", "127.0.0.1:9", reply, now) {
        CollectedNodeCapability::Unknown { node_id, reason, .. } => {
            assert_eq!(node_id, "node-2");
            reason
        }
        CollectedNodeCapability::Evidence { .. } => panic!("unexpected evidence"),
    }
}

#[test]
fn peers_without_usable_reports_are_unknown() {
    assert!(reason(PeerReply::NoToken, 0).contains("unauthenticated fallback refused"));
    assert_eq!(
        reason(PeerReply::RequestFailed("refused".to_string()), 0),
        "peer request failed: refused"
    );
    assert_eq!(reason(PeerReply::DeadlineExpired, 0), "shared collection deadline expired");
    assert_eq!(reason(PeerReply::Refused("503".to_string()), 0), "peer returned HTTP 503");
    assert_eq!(reason(PeerReply::TooLong, 0), "peer response exceeded the 1 MiB limit");
    assert_eq!(reason(PeerReply::BodyFailed("eof".to_string()), 0), "peer response failed: eof");
    assert_eq!(
        reason(PeerReply::InvalidJson("eof".to_string()), 0),
        "peer returned invalid capability JSON: eof"
    );
    let other = PeerReply::Report(Box::new(report_of("node-3")));
    assert!(reason(other, 1_500).contains("node-3"));
    let stale = PeerReply::Report(Box::new(report_of("node-2")));
    assert_eq!(reason(stale, 1_000 + CAPABILITY_TTL_MILLIS), "peer capability evidence is stale");
    let mut future = report_of("node-2");
    future.schema_version = CAPABILITY_SCHEMA_VERSION + 1;
    assert!(!reason(PeerReply::Report(Box::new(future)), 1_500).is_empty());
}

#[test]
fn answers_of_peers_are_bounded() {
    assert!(announced_length_fits(None));
    assert!(announced_length_fits(Some(1_048_576)));
    assert!(!announced_length_fits(Some(1_048_577)));
    assert!(chunk_fits(1_048_570, 6));
    assert!(!chunk_fits(1_048_570, 7));
    assert!(!chunk_fits(usize::MAX, 1));
}

fn member(node_id: &str, raft_id: u64) -> NodeMembershipInfo {
    NodeMembershipInfo {
        node_id: node_id.to_string(),
        address: format!("{node_id}:9117"),
        raft_id,
    }
}

#[test]
fn a_collection_lists_every_node_by_name() {
    let members = vec![member("node-c", 3), member("node-b", 2), member("node-a", 1)];
    let peers = peers_to_ask(&members, "node-b");
    let names: Vec<_> = peers.iter().map(|m| m.node_id.as_str()).collect();
    assert_eq!(names, vec!["node-c", "node-a"]);
    let answers = peers
        .iter()
        .map(|m| collect_peer_capability(&m.node_id, &m.address, PeerReply::DeadlineExpired, 9))
        .collect();
    let report = cluster_report(&"node-b".to_string(), report_of("node-b"), answers, 500);
    let order: Vec<_> = report.nodes.iter().map(collected_capability_node_id).collect();
    assert_eq!(order, vec!["node-a", "node-b", "node-c"]);
    assert_eq!(report.observed_at_unix_ms, 500);
    assert!(matches!(
        report.nodes[1],
        CollectedNodeCapability::Evidence { ref address, .. } if address == "local"
    ));
}

#[test]
fn the_identity_of_a_cluster_is_the_digest_of_its_root() {
    assert_eq!(
        cluster_identity(&b"abc".to_vec()),
        "sha256:ba7816bf8f01cfea414140de5dae2223b00361a396177a9cb410ff61f20015ad"
    );
    assert_eq!(identity_of_digest(&vec![0, 255, 16]), "sha256:00ff10");
}

#[test]
fn clocks_before_the_epoch_and_after_the_end_are_bounded() {
    assert_eq!(unix_millis(None), 0);
    assert_eq!(unix_millis(Some(1_234)), 1_234);
    assert_eq!(unix_millis(Some(u64::MAX as u128 + 1)), u64::MAX);
}

#[test]
fn every_capability_has_evidence_once() {
    let report = report_of("node-a");
    assert_eq!(report.capabilities.len(), 39);
    for (i, evidence) in report.capabilities.iter().enumerate() {
        assert_eq!(evidence.capability, capability_at(i));
        assert_eq!(evidence.expires_at_unix_ms, 1_000 + CAPABILITY_TTL_MILLIS);
        assert_eq!(report.state_at(evidence.capability, 1_001), evidence.state);
        assert!(!evidence.details.is_empty());
    }
    assert_eq!(
        report.state_at(Capability::ProcessRuntime, 1_000 + CAPABILITY_TTL_MILLIS),
        CapabilityState::Unknown
    );
    assert_eq!(
        report.missing_at(&[Capability::ProcessRuntime, Capability::Logs], 1_001),
        vec![Capability::Logs]
    );
}

fn readiness(ready: &[&str]) -> NodeReadinessEvidence {
    NodeReadinessEvidence {
        ready: true,
        subsystems: ready
            .iter()
            .map(|name| SubsystemEvidence {
                name: name.to_string(),
                state: SubsystemState::Ready,
            })
            .collect(),
    }
}

fn placement() -> NodeCapabilityEvidence {
    NodeCapabilityEvidence {
        egress: EgressEvidence {
            connect_ipv4: true,
            udp_ipv4: true,
            connect_ipv6: true,
            udp_ipv6: false,
            pre_start: true,
        },
        dns: DnsEvidence { can_resolve_internal: true },
        registry: RegistryEvidence {
            ready: true,
            peer_reachable: true,
            redundancy_possible: true,
            redundancy_target: 2,
            known_nodes: 3,
            under_replicated_layers: 0,
        },
    }
}

#[test]
fn stale_gossip_makes_members_and_quorum_unknown() {
    let statics = StaticCapabilities {
        node_id: "node-a".to_string(),
        cluster_mode: true,
        ..statics()
    };
    let wired = WiredSubsystems { registry: true, ..WiredSubsystems::default() };
    let members = vec![member("node-a", 1), member("node-b", 2), member("node-c", 3)];
    let council = CouncilView { voters: vec![1, 2, 3], leader: Some(1) };
    let fresh = local_capability_report(
        &statics,
        &wired,
        readiness(&["cluster:gossip", "cluster:raft-rpc"]),
        placement(),
        Some(&members),
        Some(&council),
        1,
        Some("sha256:00".to_string()),
        1_000,
    );
    assert_eq!(fresh.node_count, 3);
    assert_eq!(fresh.state_at(Capability::CouncilQuorum, 1_001), CapabilityState::Available);
    assert_eq!(fresh.state_at(Capability::MultiNode, 1_001), CapabilityState::Available);
    assert_eq!(fresh.state_at(Capability::EgressIpv4, 1_001), CapabilityState::Available);
    assert_eq!(fresh.state_at(Capability::EgressIpv6, 1_001), CapabilityState::Unavailable);
    let stale = local_capability_report(
        &statics,
        &wired,
        readiness(&["cluster:raft-rpc"]),
        placement(),
        Some(&members),
        Some(&council),
        1,
        None,
        1_000,
    );
    assert_eq!(stale.state_at(Capability::CouncilQuorum, 1_001), CapabilityState::Unknown);
    assert_eq!(stale.state_at(Capability::MultiNode, 1_001), CapabilityState::Unknown);
}

#[test]
fn reports_are_dated_by_the_clock_and_carry_their_evidence() {
    let report = ClusterCapabilities::derive_with_evidence(
        &statics(),
        &WiredSubsystems { registry: true, ..WiredSubsystems::default() },
        Some(readiness(&["agent"])),
        Some(placement()),
    );
    assert!(report.observed_at_unix_ms > 1_600_000_000_000);
    assert!(report.readiness.is_some());
    assert!(report.cluster_id.is_none());
    assert_eq!(report.state(Capability::DnsUdp), CapabilityState::Available);
    assert_eq!(report.state(Capability::RegistrySigned), CapabilityState::Unavailable);
    let redundant = report
        .capabilities
        .iter()
        .find(|evidence| evidence.capability == Capability::RegistryRedundant)
        .unwrap();
    assert_eq!(redundant.details, vec!["target 2, known nodes 3, under-replicated layers 0"]);
}

#[test]
fn defaults_are_blank() {
    let statics = StaticCapabilities::default();
    assert!(statics.cluster_name.is_empty() && statics.kernel.is_empty());
    assert!(statics.architecture.is_empty() && statics.build.target.is_empty());
    assert!(statics.test_policy.allowed_operations.is_empty());
    assert!(statics.test_policy.minimum_roles.alter_node_state.is_empty());
    let report = ClusterCapabilities::default();
    assert_eq!((report.schema_version, report.node_count), (0, 0));
    assert!(report.capabilities.is_empty() && report.operations.is_empty());
    assert!(report.runtime.name.is_empty() && !report.cluster && report.readiness.is_none());
    assert_eq!(report.state_at(Capability::Logs, 0), CapabilityState::Unknown);
    assert!(BuildFingerprint::default().git_sha.is_none());
}
