//! Local diagnostics.

use bun::access::AuthContext;
use bun::codec::CertificateFacts;
use bun::diagnostics::{
    disk_collector_failed, check_instance_count, collect_cpu_throttle_totals, collect_disk_usage, cpu_throttle_window,
    desired_apps, desired_replica_count, disk_usage_from_mounts, filter_desired_apps_for_scope,
    finish_collection, instances_to_sample, local_snapshot, metadata_of_certificate, parse_throttled_microseconds,
    public_certificate_metadata, window_width, CpuStatError, CpuStatRead, CpuStatSample,
    CpuThrottleTotal, DesiredApp, DesiredAppEvidence, DiagnosticSource, DiagnosticStoragePath,
    MountCapacity, Replicas, LOCAL_DIAGNOSTIC_SCHEMA_VERSION, MAX_DIAGNOSTIC_INSTANCES,
};
use bun::instances::InstanceStatus;
use bun::policy::ApiRole;

#[test]
fn cpu_stat_parser_requires_one_bounded_counter() {
    assert_eq!(
        parse_throttled_microseconds(
            "usage_usec 100\nuser_usec 60\nsystem_usec 40\nnr_throttled 2\nthrottled_usec 345\n"
        )
        .unwrap(),
        345
    );
    assert!(parse_throttled_microseconds("usage_usec 1\n").is_err());
    assert!(parse_throttled_microseconds("throttled_usec nope\n").is_err());
    assert!(parse_throttled_microseconds("throttled_usec 1 2\n").is_err());
}

#[test]
fn each_fault_of_a_counter_has_its_error() {
    let error = |text: &str| parse_throttled_microseconds(text).unwrap_err();
    assert_eq!(error("throttled_usec"), CpuStatError::NoValue);
    assert_eq!(error("throttled_usec 1 2"), CpuStatError::ExtraFields);
    assert_eq!(error("throttled_usec 1\nthrottled_usec 2"), CpuStatError::Repeated);
    assert_eq!(error("throttled_usec -1"), CpuStatError::NotANumber);
    assert_eq!(error("throttled_usec 18446744073709551616"), CpuStatError::NotANumber);
    assert_eq!(error(""), CpuStatError::Absent);
    assert_eq!(CpuStatError::Absent.message(), "throttled_usec is absent");
    assert_eq!(CpuStatError::Repeated.message(), "throttled_usec appears more than once");
}

fn cpu_total(instance: &str, throttled_microseconds: u64) -> CpuThrottleTotal {
    CpuThrottleTotal {
        app: "api".to_string(),
        namespace: "default".to_string(),
        instance: instance.to_string(),
        throttled_microseconds,
    }
}

#[test]
fn cpu_window_uses_counter_delta_not_cpu_usage() {
    let first = DiagnosticSource::Available {
        observed_at: 10,
        value: vec![cpu_total("default__api-0", 500_000)],
    };
    let second = DiagnosticSource::Available {
        observed_at: 12,
        value: vec![cpu_total("default__api-0", 1_750_000)],
    };

    let result = cpu_throttle_window(first, second, 2, 12);
    let values = result.value().unwrap();

    assert_eq!(values.len(), 1);
    assert_eq!(values[0].throttled_microseconds_delta as f64 / 1_000_000.0, 1.25);
    assert_eq!(values[0].window_seconds, 2);
}

#[test]
fn cpu_window_marks_counter_reset_unavailable() {
    let first = DiagnosticSource::Available {
        observed_at: 10,
        value: vec![cpu_total("default__api-0", 500)],
    };
    let second = DiagnosticSource::Available {
        observed_at: 11,
        value: vec![cpu_total("default__api-0", 1)],
    };

    let result = cpu_throttle_window(first, second, 1, 11);

    assert!(matches!(result, DiagnosticSource::Unavailable { reason } if reason.contains("reset")));
}

#[test]
fn instances_that_come_or_go_degrade_a_window() {
    let first = DiagnosticSource::Available {
        observed_at: 10,
        value: vec![cpu_total("default__api-0", 5), cpu_total("default__api-1", 5)],
    };
    let second = DiagnosticSource::Available {
        observed_at: 11,
        value: vec![cpu_total("default__api-1", 9)],
    };
    match cpu_throttle_window(first, second, 1, 11) {
        DiagnosticSource::Degraded { observed_at, value, reason } => {
            assert_eq!(observed_at, 11);
            assert_eq!(value.len(), 1);
            assert_eq!(value[0].throttled_microseconds_delta, 4);
            assert_eq!(
                reason,
                "instance default__api-0 disappeared during the CPU observation window"
            );
        }
        _ => panic!("expected degraded evidence"),
    }
    let unsupported: DiagnosticSource<Vec<CpuThrottleTotal>> =
        DiagnosticSource::Unsupported { reason: "no cgroups".to_string() };
    let seen = DiagnosticSource::Available { observed_at: 11, value: Vec::new() };
    assert!(cpu_throttle_window(unsupported, seen, 1, 11).value().is_none());
}

#[test]
fn disk_capacity_is_attributed_to_longest_matching_mount() {
    let paths = vec![
        DiagnosticStoragePath {
            domain: "images".to_string(),
            path: "/srv/reliaburger/images".to_string(),
        },
        DiagnosticStoragePath {
            domain: "logs".to_string(),
            path: "/var/log/reliaburger".to_string(),
        },
    ];
    let mounts = vec![
        MountCapacity { mount: "/".to_string(), total_bytes: 1000, available_bytes: 500 },
        MountCapacity { mount: "/srv".to_string(), total_bytes: 2000, available_bytes: 500 },
    ];

    let result = disk_usage_from_mounts(&paths, &mounts, 10);
    let values = result.value().unwrap();
    let percent = |i: usize| 100.0 * values[i].used_bytes as f64 / values[i].total_bytes as f64;

    assert_eq!(values[0].storage_domain, "images");
    assert_eq!(percent(0), 75.0);
    assert_eq!(values[1].storage_domain, "logs");
    assert_eq!(percent(1), 50.0);
}

#[test]
fn disks_need_paths_and_mounts() {
    let paths = vec![DiagnosticStoragePath {
        domain: "images".to_string(),
        path: "/srv/images".to_string(),
    }];
    let root = || MountCapacity { mount: "/data".to_string(), total_bytes: 10, available_bytes: 4 };
    assert!(matches!(
        collect_disk_usage(&Vec::new(), &vec![root()], 10),
        DiagnosticSource::Unsupported { .. }
    ));
    assert!(matches!(
        collect_disk_usage(&paths, &Vec::new(), 10),
        DiagnosticSource::Unavailable { .. }
    ));
    // A path whose name only begins like a mount is not on it.
    let mounts = vec![
        MountCapacity { mount: "/".to_string(), total_bytes: 10, available_bytes: 4 },
        MountCapacity { mount: "/sr".to_string(), total_bytes: 20, available_bytes: 4 },
    ];
    match collect_disk_usage(&paths, &mounts, 10) {
        DiagnosticSource::Available { value, .. } => {
            assert_eq!(value[0].total_bytes, 10);
            assert_eq!(value[0].used_bytes, 6);
        }
        _ => panic!("expected complete evidence"),
    }
    assert!(collect_disk_usage(&paths, &vec![root()], 10).value().is_none());
}

#[test]
fn daemon_desire_tracks_live_membership_without_becoming_zero() {
    assert_eq!(desired_replica_count(Replicas::Fixed(3), 9), 3);
    assert_eq!(desired_replica_count(Replicas::DaemonSet, 4), 4);
    assert_eq!(desired_replica_count(Replicas::DaemonSet, 0), 1);
}

#[test]
fn desired_app_diagnostics_filter_to_the_token_scope() {
    let auth = AuthContext {
        token_name: "tenant-a".to_string(),
        principal_id: "token:test".to_string(),
        role: ApiRole::ReadOnly,
        scoped_apps: Some(vec!["api".to_string()]),
        scoped_namespaces: Some(vec!["tenant-a".to_string()]),
        system: false,
    };
    let evidence = |app: &str, namespace: &str| DesiredAppEvidence {
        app: app.to_string(),
        namespace: namespace.to_string(),
        desired_replicas: 1,
        scheduled_replicas: 1,
        service_port: Some(8080),
    };

    let visible = filter_desired_apps_for_scope(
        vec![
            evidence("api", "tenant-a"),
            evidence("worker", "tenant-a"),
            evidence("api", "tenant-b"),
        ],
        Some(&auth),
    );

    assert_eq!(visible, vec![evidence("api", "tenant-a")]);
}

#[test]
fn desired_apps_are_listed_by_namespace_and_name() {
    let app = |name: &str, namespace: &str, replicas: Replicas, placements: usize| DesiredApp {
        name: name.to_string(),
        namespace: namespace.to_string(),
        replicas,
        placements,
        port: None,
    };
    let apps = vec![
        app("web", "b", Replicas::Fixed(2), 1),
        app("web", "a", Replicas::DaemonSet, 3),
        app("api", "b", Replicas::Fixed(0), 0),
    ];
    let list = desired_apps(&apps, Some(3));
    let names: Vec<_> = list.iter().map(|e| (e.namespace.as_str(), e.app.as_str())).collect();
    assert_eq!(names, vec![("a", "web"), ("b", "api"), ("b", "web")]);
    assert_eq!(list[0].desired_replicas, 3);
    assert_eq!(list[0].scheduled_replicas, 3);
    assert_eq!(desired_apps(&apps, None)[0].desired_replicas, 1);
}

#[test]
fn cpu_totals_keep_what_could_be_read() {
    let sample = |instance: &str, read: CpuStatRead| CpuStatSample {
        app: "api".to_string(),
        namespace: "default".to_string(),
        instance: instance.to_string(),
        read,
    };
    let samples = vec![
        sample("default__api-1", CpuStatRead::Contents("throttled_usec 7\n".to_string())),
        sample("default__api-0", CpuStatRead::Contents("throttled_usec 9\n".to_string())),
        sample("../escape", CpuStatRead::InvalidIdentifier),
        sample("default__api-2", CpuStatRead::Unreadable("gone".to_string())),
        sample("default__api-3", CpuStatRead::Contents("nothing".to_string())),
    ];
    match collect_cpu_throttle_totals(samples, 20) {
        DiagnosticSource::Degraded { observed_at, value, reason } => {
            assert_eq!(observed_at, 20);
            let totals: Vec<_> =
                value.iter().map(|t| (t.instance.as_str(), t.throttled_microseconds)).collect();
            assert_eq!(totals, vec![("default__api-0", 9), ("default__api-1", 7)]);
            assert_eq!(reason.matches("; ").count(), 2);
            assert!(reason.contains("gone"));
            assert!(reason.contains("throttled_usec is absent"));
        }
        _ => panic!("expected degraded evidence"),
    }
}

#[test]
fn too_many_instances_are_refused() {
    assert!(check_instance_count(MAX_DIAGNOSTIC_INSTANCES).is_none());
    assert!(matches!(
        check_instance_count(MAX_DIAGNOSTIC_INSTANCES + 1),
        Some(DiagnosticSource::Unavailable { .. })
    ));
}

#[test]
fn collections_end_complete_degraded_or_unavailable() {
    let none: Vec<String> = Vec::new();
    assert!(matches!(
        finish_collection(vec![1], none, 5),
        DiagnosticSource::Available { observed_at: 5, .. }
    ));
    let errors = || vec!["a".to_string(), "b".to_string()];
    assert!(matches!(
        finish_collection(vec![1], errors(), 5),
        DiagnosticSource::Degraded { reason, .. } if reason == "a; b"
    ));
    assert!(matches!(
        finish_collection(Vec::<u8>::new(), errors(), 5),
        DiagnosticSource::Unavailable { reason } if reason == "a; b"
    ));
}

#[test]
fn windows_are_bounded() {
    assert_eq!(window_width(None), 1);
    assert_eq!(window_width(Some(0)), 1);
    assert_eq!(window_width(Some(7)), 7);
    assert_eq!(window_width(Some(600)), 10);
}

/// A leaf of `CN=node-ca` that expires with the year 2029.
fn leaf() -> Vec<u8> {
    vec![
        0x30, 0x81, 0xd0, 0x30, 0x81, 0x83, 0xa0, 0x03, 0x02, 0x01, 0x02, 0x02, 0x02, 0x01, 0x2a, 0x30,
        0x05, 0x06, 0x03, 0x2b, 0x65, 0x70, 0x30, 0x12, 0x31, 0x10, 0x30, 0x0e, 0x06, 0x03, 0x55, 0x04,
        0x03, 0x0c, 0x07, 0x6e, 0x6f, 0x64, 0x65, 0x2d, 0x63, 0x61, 0x30, 0x1e, 0x17, 0x0d, 0x32, 0x30,
        0x30, 0x31, 0x30, 0x31, 0x30, 0x30, 0x30, 0x30, 0x30, 0x30, 0x5a, 0x17, 0x0d, 0x33, 0x30, 0x30,
        0x31, 0x30, 0x31, 0x30, 0x30, 0x30, 0x30, 0x30, 0x30, 0x5a, 0x30, 0x11, 0x31, 0x0f, 0x30, 0x0d,
        0x06, 0x03, 0x55, 0x04, 0x03, 0x0c, 0x06, 0x6e, 0x6f, 0x64, 0x65, 0x2d, 0x31, 0x30, 0x2a, 0x30,
        0x05, 0x06, 0x03, 0x2b, 0x65, 0x70, 0x03, 0x21, 0x00, 0x00, 0x01, 0x02, 0x03, 0x04, 0x05, 0x06,
        0x07, 0x08, 0x09, 0x0a, 0x0b, 0x0c, 0x0d, 0x0e, 0x0f, 0x10, 0x11, 0x12, 0x13, 0x14, 0x15, 0x16,
        0x17, 0x18, 0x19, 0x1a, 0x1b, 0x1c, 0x1d, 0x1e, 0x1f, 0x30, 0x05, 0x06, 0x03, 0x2b, 0x65, 0x70,
        0x03, 0x41, 0x00, 0x00, 0x00, 0x00, 0x00, 0x00, 0x00, 0x00, 0x00, 0x00, 0x00, 0x00, 0x00, 0x00,
        0x00, 0x00, 0x00, 0x00, 0x00, 0x00, 0x00, 0x00, 0x00, 0x00, 0x00, 0x00, 0x00, 0x00, 0x00, 0x00,
        0x00, 0x00, 0x00, 0x00, 0x00, 0x00, 0x00, 0x00, 0x00, 0x00, 0x00, 0x00, 0x00, 0x00, 0x00, 0x00,
        0x00, 0x00, 0x00, 0x00, 0x00, 0x00, 0x00, 0x00, 0x00, 0x00, 0x00, 0x00, 0x00, 0x00, 0x00, 0x00,
        0x00, 0x00, 0x00,
    ]
}

#[test]
fn certificates_show_public_metadata_only() {
    let metadata =
        public_certificate_metadata("node", "node-1", &leaf(), "restart_required", false).unwrap();
    assert_eq!(metadata.certificate_kind, "node");
    assert_eq!(metadata.identity, "node-1");
    assert_eq!(metadata.issuer, "CN=node-ca");
    assert_eq!(metadata.serial, "01:2a");
    assert_eq!(metadata.not_after, 1_893_456_000);
    assert_eq!(metadata.rotation_state, "restart_required");
    assert!(!metadata.automatic_rotation);
    assert!(public_certificate_metadata("node", "node-1", b"nonsense", "valid", true).is_err());
}

#[test]
fn certificates_from_before_the_epoch_are_refused() {
    let facts = |not_after: i64| {
        Ok(CertificateFacts {
            not_after,
            issuer: "CN=node-ca".to_string(),
            serial: "01".to_string(),
        })
    };
    assert_eq!(
        metadata_of_certificate("node", "n", facts(-1), "valid", true).unwrap_err(),
        "node certificate expires before Unix epoch"
    );
    assert_eq!(metadata_of_certificate("node", "n", facts(0), "valid", true).unwrap().not_after, 0);
    assert!(metadata_of_certificate("node", "n", Err("eof".to_string()), "valid", true)
        .unwrap_err()
        .contains("eof"));
}

#[test]
fn snapshots_say_what_is_unsupported() {
    let empty = || DiagnosticSource::Available { observed_at: 1, value: Vec::new() };
    let snapshot = local_snapshot(
        &"node-1".to_string(),
        9,
        DiagnosticSource::Available { observed_at: 1, value: Vec::new() },
        false,
        empty(),
        empty(),
        1,
        8,
        &None,
        false,
    );
    assert_eq!(snapshot.schema_version, LOCAL_DIAGNOSTIC_SCHEMA_VERSION);
    assert!(matches!(snapshot.cpu_throttling, DiagnosticSource::Unsupported { .. }));
    assert!(matches!(snapshot.certificates, DiagnosticSource::Unsupported { .. }));
    let metadata = public_certificate_metadata("node", "node-1", &leaf(), "valid", false).unwrap();
    let snapshot = local_snapshot(
        &"node-1".to_string(),
        9,
        DiagnosticSource::Available { observed_at: 1, value: Vec::new() },
        true,
        empty(),
        empty(),
        1,
        8,
        &Some(metadata),
        true,
    );
    assert!(matches!(snapshot.cpu_throttling, DiagnosticSource::Available { observed_at: 8, .. }));
    assert_eq!(snapshot.certificates.value().unwrap().len(), 1);
    let snapshot = local_snapshot(
        &"node-1".to_string(),
        9,
        DiagnosticSource::Available { observed_at: 1, value: Vec::new() },
        false,
        empty(),
        empty(),
        1,
        8,
        &None,
        true,
    );
    assert!(matches!(snapshot.certificates, DiagnosticSource::Unavailable { .. }));
}

#[test]
fn only_instances_with_a_process_are_sampled() {
    let status = |id: &str, pid: Option<u32>| InstanceStatus {
        id: id.to_string(),
        app_name: "api".to_string(),
        namespace: "default".to_string(),
        state: "running".to_string(),
        exit_code: None,
        pid,
    };
    let statuses = vec![status("a", Some(7)), status("b", None), status("c", Some(0))];
    let ids: Vec<_> = instances_to_sample(&statuses).into_iter().map(|s| s.id).collect();
    assert_eq!(ids, vec!["a", "c"]);
}

#[test]
fn a_broken_disk_collector_is_told() {
    assert!(matches!(
        disk_collector_failed("panicked"),
        DiagnosticSource::Unavailable { reason } if reason == "disk capacity collector failed: panicked"
    ));
}
