//! What this node actually has wired up.
//!
//! Diagnostics and test runners need to tell three cases apart: a subsystem
//! that works, one that is switched off, and one that is broken. So a node
//! reports its own wiring. Every field of a report is derived; stale or
//! missing evidence is reported as unknown.

use vstd::prelude::*;
use vstd::string::*;

use crate::codec::{encode_hex, hex_text, sha256, sha256_digest};
use crate::membership::{
    council_has_live_quorum, count_members, counted_members, live_quorum, member_list, voter_ids,
    CouncilView, NodeMembershipInfo,
};
use crate::policy::{
    is_blank_policy, operation_policy, policy_list, ClusterTestPolicy, OperationPolicyEvidence,
};
use crate::sorting::{sort_stably, sorted, text_order_laws, Sortable};
use crate::text::{
    copy_optional_text, decimal, decimal_text, lowered, same_text, same_text_ignoring_case,
    text_before, text_less,
};

verus! {

/// Current wire schema of capability reports.
pub const CAPABILITY_SCHEMA_VERSION: u32 = 3;

/// Longest time that a caller may trust one live snapshot, in milliseconds.
pub const CAPABILITY_TTL_MILLIS: u64 = 15_000;

/// Shared ceiling for an authenticated cluster-wide collection, in
/// milliseconds.
pub const CLUSTER_COLLECTION_TIMEOUT_MILLIS: u64 = 5_000;

/// Longest reply of a peer that is read, in bytes.
pub const MAX_CAPABILITY_RESPONSE_BYTES: usize = 1_048_576;

/// A capability a test, bench suite or diagnostic requires.
#[derive(Debug, Clone, Copy, PartialEq, Eq, Hash, Structural)]
pub enum Capability {
    /// The node is part of a cluster.
    Cluster,
    /// Three or more nodes: enough for a council and for a failover.
    MultiNode,
    /// The `runc` runtime.
    RuntimeRunc,
    /// The `apple` runtime.
    RuntimeApple,
    /// The `process` runtime with permitted executables.
    RuntimeProcessGrill,
    /// The runtime operates with host root.
    Rootful,
    /// The `process` runtime, on which workloads start without an image.
    ProcessRuntime,
    /// A container runtime.
    ContainerRuntime,
    /// Egress enforcement for IPv4.
    EgressIpv4,
    /// Egress enforcement for IPv6.
    EgressIpv6,
    /// Internal name resolution over UDP.
    DnsUdp,
    /// Internal name resolution over TCP.
    DnsTcp,
    /// The metrics store.
    Metrics,
    /// Fresh metric samples.
    MetricsFresh,
    /// The log store.
    Logs,
    /// Fresh log entries.
    LogsFresh,
    /// The council.
    Council,
    /// A live council quorum.
    CouncilQuorum,
    /// The image registry.
    Registry,
    /// A redundant image registry.
    RegistryRedundant,
    /// An image registry that asks for signatures.
    RegistrySigned,
    /// The event store.
    Events,
    /// Fresh cluster events.
    EventsFresh,
    /// At least one kind of fault that takes effect.
    FaultInjection,
    /// Faults on workloads.
    WorkloadFaults,
    /// Faults on CPU, memory and disk by cgroups.
    CgroupFaults,
    /// The eBPF programs.
    Ebpf,
    /// The ingress listener.
    Ingress,
    /// Ingress with cluster certificates.
    IngressClusterTls,
    /// Ingress with operator certificates.
    IngressExplicitTls,
    /// The perimeter firewall.
    Firewall,
    /// Workload identity.
    Identity,
    /// Secret delivery.
    Secrets,
    /// Persistent volumes.
    VolumePersistent,
    /// Volume quotas.
    VolumeQuota,
    /// Permitted host executables.
    ProcessWorkloads,
    /// Draining a node.
    NodeDrain,
    /// Killing a node.
    NodeKill,
    /// Putting a node under pressure.
    NodePressure,
}

impl Capability {
    /// The name under which reports list the capability.
    pub open spec fn wire_name(self) -> Seq<char> {
        match self {
            Capability::Cluster => "cluster"@,
            Capability::MultiNode => "multi_node"@,
            Capability::RuntimeRunc => "runtime_runc"@,
            Capability::RuntimeApple => "runtime_apple"@,
            Capability::RuntimeProcessGrill => "runtime_process_grill"@,
            Capability::Rootful => "rootful"@,
            Capability::ProcessRuntime => "process_runtime"@,
            Capability::ContainerRuntime => "container_runtime"@,
            Capability::EgressIpv4 => "egress_ipv4"@,
            Capability::EgressIpv6 => "egress_ipv6"@,
            Capability::DnsUdp => "dns_udp"@,
            Capability::DnsTcp => "dns_tcp"@,
            Capability::Metrics => "metrics"@,
            Capability::MetricsFresh => "metrics_fresh"@,
            Capability::Logs => "logs"@,
            Capability::LogsFresh => "logs_fresh"@,
            Capability::Council => "council"@,
            Capability::CouncilQuorum => "council_quorum"@,
            Capability::Registry => "registry"@,
            Capability::RegistryRedundant => "registry_redundant"@,
            Capability::RegistrySigned => "registry_signed"@,
            Capability::Events => "events"@,
            Capability::EventsFresh => "events_fresh"@,
            Capability::FaultInjection => "fault_injection"@,
            Capability::WorkloadFaults => "workload_faults"@,
            Capability::CgroupFaults => "cgroup_faults"@,
            Capability::Ebpf => "ebpf"@,
            Capability::Ingress => "ingress"@,
            Capability::IngressClusterTls => "ingress_cluster_tls"@,
            Capability::IngressExplicitTls => "ingress_explicit_tls"@,
            Capability::Firewall => "firewall"@,
            Capability::Identity => "identity"@,
            Capability::Secrets => "secrets"@,
            Capability::VolumePersistent => "volume_persistent"@,
            Capability::VolumeQuota => "volume_quota"@,
            Capability::ProcessWorkloads => "process_workloads"@,
            Capability::NodeDrain => "node_drain"@,
            Capability::NodeKill => "node_kill"@,
            Capability::NodePressure => "node_pressure"@,
        }
    }

    /// The position at which reports list the capability.
    pub open spec fn rank(self) -> int {
        match self {
            Capability::Cluster => 0,
            Capability::MultiNode => 1,
            Capability::RuntimeRunc => 2,
            Capability::RuntimeApple => 3,
            Capability::RuntimeProcessGrill => 4,
            Capability::ProcessRuntime => 5,
            Capability::ContainerRuntime => 6,
            Capability::Rootful => 7,
            Capability::EgressIpv4 => 8,
            Capability::EgressIpv6 => 9,
            Capability::DnsUdp => 10,
            Capability::DnsTcp => 11,
            Capability::Metrics => 12,
            Capability::MetricsFresh => 13,
            Capability::Logs => 14,
            Capability::LogsFresh => 15,
            Capability::Events => 16,
            Capability::EventsFresh => 17,
            Capability::Council => 18,
            Capability::CouncilQuorum => 19,
            Capability::Registry => 20,
            Capability::RegistryRedundant => 21,
            Capability::RegistrySigned => 22,
            Capability::Ebpf => 23,
            Capability::Ingress => 24,
            Capability::IngressClusterTls => 25,
            Capability::IngressExplicitTls => 26,
            Capability::Firewall => 27,
            Capability::Identity => 28,
            Capability::ProcessWorkloads => 29,
            Capability::CgroupFaults => 30,
            Capability::FaultInjection => 31,
            Capability::WorkloadFaults => 32,
            Capability::Secrets => 33,
            Capability::VolumePersistent => 34,
            Capability::VolumeQuota => 35,
            Capability::NodeDrain => 36,
            Capability::NodeKill => 37,
            Capability::NodePressure => 38,
        }
    }

    /// The name under which reports list the capability.
    pub fn to_string(&self) -> (r: String)
        ensures
            r@ == self.wire_name(),
    {
        match *self {
            Capability::Cluster => "cluster".to_owned(),
            Capability::MultiNode => "multi_node".to_owned(),
            Capability::RuntimeRunc => "runtime_runc".to_owned(),
            Capability::RuntimeApple => "runtime_apple".to_owned(),
            Capability::RuntimeProcessGrill => "runtime_process_grill".to_owned(),
            Capability::Rootful => "rootful".to_owned(),
            Capability::ProcessRuntime => "process_runtime".to_owned(),
            Capability::ContainerRuntime => "container_runtime".to_owned(),
            Capability::EgressIpv4 => "egress_ipv4".to_owned(),
            Capability::EgressIpv6 => "egress_ipv6".to_owned(),
            Capability::DnsUdp => "dns_udp".to_owned(),
            Capability::DnsTcp => "dns_tcp".to_owned(),
            Capability::Metrics => "metrics".to_owned(),
            Capability::MetricsFresh => "metrics_fresh".to_owned(),
            Capability::Logs => "logs".to_owned(),
            Capability::LogsFresh => "logs_fresh".to_owned(),
            Capability::Council => "council".to_owned(),
            Capability::CouncilQuorum => "council_quorum".to_owned(),
            Capability::Registry => "registry".to_owned(),
            Capability::RegistryRedundant => "registry_redundant".to_owned(),
            Capability::RegistrySigned => "registry_signed".to_owned(),
            Capability::Events => "events".to_owned(),
            Capability::EventsFresh => "events_fresh".to_owned(),
            Capability::FaultInjection => "fault_injection".to_owned(),
            Capability::WorkloadFaults => "workload_faults".to_owned(),
            Capability::CgroupFaults => "cgroup_faults".to_owned(),
            Capability::Ebpf => "ebpf".to_owned(),
            Capability::Ingress => "ingress".to_owned(),
            Capability::IngressClusterTls => "ingress_cluster_tls".to_owned(),
            Capability::IngressExplicitTls => "ingress_explicit_tls".to_owned(),
            Capability::Firewall => "firewall".to_owned(),
            Capability::Identity => "identity".to_owned(),
            Capability::Secrets => "secrets".to_owned(),
            Capability::VolumePersistent => "volume_persistent".to_owned(),
            Capability::VolumeQuota => "volume_quota".to_owned(),
            Capability::ProcessWorkloads => "process_workloads".to_owned(),
            Capability::NodeDrain => "node_drain".to_owned(),
            Capability::NodeKill => "node_kill".to_owned(),
            Capability::NodePressure => "node_pressure".to_owned(),
        }
    }
}

/// How many capabilities a report lists.
pub const CAPABILITY_COUNT: usize = 39;

/// The capability at a position of a report.
pub fn capability_at(i: usize) -> (r: Capability)
    requires
        i < CAPABILITY_COUNT,
    ensures
        r.rank() == i,
{
    match i {
        0 => Capability::Cluster,
        1 => Capability::MultiNode,
        2 => Capability::RuntimeRunc,
        3 => Capability::RuntimeApple,
        4 => Capability::RuntimeProcessGrill,
        5 => Capability::ProcessRuntime,
        6 => Capability::ContainerRuntime,
        7 => Capability::Rootful,
        8 => Capability::EgressIpv4,
        9 => Capability::EgressIpv6,
        10 => Capability::DnsUdp,
        11 => Capability::DnsTcp,
        12 => Capability::Metrics,
        13 => Capability::MetricsFresh,
        14 => Capability::Logs,
        15 => Capability::LogsFresh,
        16 => Capability::Events,
        17 => Capability::EventsFresh,
        18 => Capability::Council,
        19 => Capability::CouncilQuorum,
        20 => Capability::Registry,
        21 => Capability::RegistryRedundant,
        22 => Capability::RegistrySigned,
        23 => Capability::Ebpf,
        24 => Capability::Ingress,
        25 => Capability::IngressClusterTls,
        26 => Capability::IngressExplicitTls,
        27 => Capability::Firewall,
        28 => Capability::Identity,
        29 => Capability::ProcessWorkloads,
        30 => Capability::CgroupFaults,
        31 => Capability::FaultInjection,
        32 => Capability::WorkloadFaults,
        33 => Capability::Secrets,
        34 => Capability::VolumePersistent,
        35 => Capability::VolumeQuota,
        36 => Capability::NodeDrain,
        37 => Capability::NodeKill,
        _ => Capability::NodePressure,
    }
}

/// Binary identity needed to reproduce or compare a result.
#[derive(Debug)]
pub struct BuildFingerprint {
    /// Version of the binary.
    pub version: String,
    /// Revision that it was built from.
    pub git_sha: Option<String>,
    /// Platform that it was built for.
    pub target: String,
    /// Profile that it was built with.
    pub profile: String,
}

impl Clone for BuildFingerprint {
    fn clone(&self) -> (r: Self)
        ensures
            r == *self,
    {
        BuildFingerprint {
            version: self.version.clone(),
            git_sha: copy_optional_text(&self.git_sha),
            target: self.target.clone(),
            profile: self.profile.clone(),
        }
    }
}

/// Whether a build names nothing.
pub open spec fn is_blank_build(build: BuildFingerprint) -> bool {
    build.version@.len() == 0 && build.git_sha is None && build.target@.len() == 0
        && build.profile@.len() == 0
}

impl Default for BuildFingerprint {
    fn default() -> (r: Self)
        ensures
            is_blank_build(r),
    {
        BuildFingerprint {
            version: String::new(),
            git_sha: None,
            target: String::new(),
            profile: String::new(),
        }
    }
}

/// Runtime and host identity for the node producing evidence.
#[derive(Debug)]
pub struct RuntimeFingerprint {
    /// The node.
    pub node_id: String,
    /// Name of the runtime.
    pub name: String,
    /// Version of the runtime.
    pub version: Option<String>,
    /// Whether the runtime operates without host root.
    pub rootless: bool,
    /// Kernel or host OS release.
    pub kernel: String,
    /// Host architecture.
    pub architecture: String,
}

/// Whether a runtime names nothing.
pub open spec fn is_blank_runtime(runtime: RuntimeFingerprint) -> bool {
    runtime.node_id@.len() == 0 && runtime.name@.len() == 0 && runtime.version is None
        && !runtime.rootless && runtime.kernel@.len() == 0 && runtime.architecture@.len() == 0
}

impl Default for RuntimeFingerprint {
    fn default() -> (r: Self)
        ensures
            is_blank_runtime(r),
    {
        RuntimeFingerprint {
            node_id: String::new(),
            name: String::new(),
            version: None,
            rootless: false,
            kernel: String::new(),
            architecture: String::new(),
        }
    }
}

/// Capability facts only the node's startup path knows.
#[derive(Debug)]
pub struct StaticCapabilities {
    /// Stable node identity.
    pub node_id: String,
    /// Stable display name and trust domain.
    pub cluster_name: String,
    /// Whether the cluster runtime was started.
    pub cluster_mode: bool,
    /// Descriptive environment tag. Safety decisions use the policy, never
    /// this free-form string.
    pub environment: Option<String>,
    /// `"process"`, `"runc"` or `"apple"`.
    pub container_runtime: String,
    /// Runtime version reported by the selected implementation.
    pub runtime_version: Option<String>,
    /// Whether the selected runtime operates without host root.
    pub rootless: bool,
    /// Kernel or host OS release.
    pub kernel: String,
    /// Host architecture.
    pub architecture: String,
    /// The eBPF programs loaded and attached.
    pub ebpf: bool,
    /// The ingress listener is bound.
    pub ingress: bool,
    /// The ingress has a usable cluster certificate resolver.
    pub ingress_cluster_tls: bool,
    /// The ingress loaded an operator certificate/key pair.
    pub ingress_explicit_tls: bool,
    /// The perimeter firewall is enabled.
    pub firewall: bool,
    /// Workload identity can actually issue certificates.
    pub identity: bool,
    /// Process workloads are permitted on this node.
    pub process_workloads: bool,
    /// Cgroup-based faults can take effect.
    pub cgroup_faults: bool,
    /// Registry image policy requires trusted signatures.
    pub registry_signatures_required: bool,
    /// Server-owned diagnostic policy.
    pub test_policy: ClusterTestPolicy,
    /// Identity of the running binary.
    pub build: BuildFingerprint,
}

impl Default for StaticCapabilities {
    fn default() -> (r: Self)
        ensures
            !r.cluster_mode && !r.rootless && !r.ebpf && !r.ingress && !r.ingress_cluster_tls
                && !r.ingress_explicit_tls && !r.firewall && !r.identity && !r.process_workloads
                && !r.cgroup_faults && !r.registry_signatures_required,
            r.environment is None && r.runtime_version is None,
            r.node_id@.len() == 0 && r.cluster_name@.len() == 0 && r.container_runtime@.len() == 0
                && r.kernel@.len() == 0 && r.architecture@.len() == 0,
            is_blank_policy(r.test_policy),
            is_blank_build(r.build),
    {
        StaticCapabilities {
            node_id: String::new(),
            cluster_name: String::new(),
            cluster_mode: false,
            environment: None,
            container_runtime: String::new(),
            runtime_version: None,
            rootless: false,
            kernel: String::new(),
            architecture: String::new(),
            ebpf: false,
            ingress: false,
            ingress_cluster_tls: false,
            ingress_explicit_tls: false,
            firewall: false,
            identity: false,
            process_workloads: false,
            cgroup_faults: false,
            registry_signatures_required: false,
            test_policy: ClusterTestPolicy::default(),
            build: BuildFingerprint::default(),
        }
    }
}

/// The subsystems that were built.
#[derive(Debug, Clone, Copy, PartialEq, Eq, Structural)]
pub struct WiredSubsystems {
    /// The metrics store.
    pub metrics: bool,
    /// The log store.
    pub logs: bool,
    /// The rollup store.
    pub rollups: bool,
    /// The council.
    pub council: bool,
    /// The image registry.
    pub registry: bool,
    /// The event store.
    pub events: bool,
    /// The upgrade manager.
    pub upgrade: bool,
    /// Members this node knows about. `None` when the node runs standalone,
    /// which is different from a cluster of one.
    pub member_count: Option<u32>,
}

impl Default for WiredSubsystems {
    fn default() -> (r: Self)
        ensures
            r == (WiredSubsystems {
                metrics: false,
                logs: false,
                rollups: false,
                council: false,
                registry: false,
                events: false,
                upgrade: false,
                member_count: None,
            }),
    {
        WiredSubsystems {
            metrics: false,
            logs: false,
            rollups: false,
            council: false,
            registry: false,
            events: false,
            upgrade: false,
            member_count: None,
        }
    }
}

/// State of a long-lived subsystem.
#[derive(Debug, Clone, Copy, PartialEq, Eq, Structural)]
pub enum SubsystemState {
    /// It works.
    Ready,
    /// It does not, or not yet.
    NotReady,
}

/// Evidence about one long-lived subsystem.
#[derive(Debug)]
pub struct SubsystemEvidence {
    /// Its name.
    pub name: String,
    /// Its state.
    pub state: SubsystemState,
}

/// Critical long-lived task evidence.
#[derive(Debug)]
pub struct NodeReadinessEvidence {
    /// Whether every critical subsystem is ready.
    pub ready: bool,
    /// The subsystems.
    pub subsystems: Vec<SubsystemEvidence>,
}

/// Egress hooks in place.
#[derive(Debug, Clone, Copy, PartialEq, Eq, Structural)]
pub struct EgressEvidence {
    /// Connections over IPv4 are checked.
    pub connect_ipv4: bool,
    /// Datagrams over IPv4 are checked.
    pub udp_ipv4: bool,
    /// Connections over IPv6 are checked.
    pub connect_ipv6: bool,
    /// Datagrams over IPv6 are checked.
    pub udp_ipv6: bool,
    /// Rules are in place before a workload starts.
    pub pre_start: bool,
}

/// Name resolution in place.
#[derive(Debug, Clone, Copy, PartialEq, Eq, Structural)]
pub struct DnsEvidence {
    /// Whether workloads can resolve internal names.
    pub can_resolve_internal: bool,
}

/// State of the image registry.
#[derive(Debug, Clone, Copy, PartialEq, Eq, Structural)]
pub struct RegistryEvidence {
    /// The listener is ready.
    pub ready: bool,
    /// Peers can reach it.
    pub peer_reachable: bool,
    /// Enough nodes are known for redundancy.
    pub redundancy_possible: bool,
    /// Wanted copies of each layer.
    pub redundancy_target: u64,
    /// Known registry nodes.
    pub known_nodes: u64,
    /// Layers with fewer copies than wanted.
    pub under_replicated_layers: u64,
}

/// Live placement data-path evidence.
#[derive(Debug, Clone, Copy, PartialEq, Eq, Structural)]
pub struct NodeCapabilityEvidence {
    /// Egress hooks.
    pub egress: EgressEvidence,
    /// Name resolution.
    pub dns: DnsEvidence,
    /// Image registry.
    pub registry: RegistryEvidence,
}

/// Fresh facts which are not static wiring.
#[derive(Debug)]
pub struct CapabilityObservations {
    /// Critical long-lived task evidence.
    pub readiness: Option<NodeReadinessEvidence>,
    /// Placement data-path evidence.
    pub placement: Option<NodeCapabilityEvidence>,
    /// Cluster identity derived from the root certificate, when it can be
    /// established.
    pub cluster_id: Option<String>,
    /// Fresh council quorum decision. `None` means no conclusive observation.
    pub council_quorum: Option<bool>,
}

impl Default for CapabilityObservations {
    fn default() -> (r: Self)
        ensures
            r == (CapabilityObservations {
                readiness: None,
                placement: None,
                cluster_id: None,
                council_quorum: None,
            }),
    {
        CapabilityObservations {
            readiness: None,
            placement: None,
            cluster_id: None,
            council_quorum: None,
        }
    }
}

/// Whether fresh evidence proves a capability usable or unusable.
#[derive(Debug, Clone, Copy, PartialEq, Eq, Structural)]
pub enum CapabilityState {
    /// Proved usable.
    Available,
    /// Proved unusable.
    Unavailable,
    /// Not proved either way.
    Unknown,
}

/// One time-bounded capability statement.
#[derive(Debug)]
pub struct CapabilityEvidence {
    /// The capability.
    pub capability: Capability,
    /// What the evidence proves.
    pub state: CapabilityState,
    /// When the evidence was assembled, in Unix milliseconds.
    pub observed_at_unix_ms: u64,
    /// When the evidence expires, in Unix milliseconds.
    pub expires_at_unix_ms: u64,
    /// What the evidence rests on.
    pub details: Vec<String>,
}

/// What a node reports about itself.
#[derive(Debug)]
pub struct ClusterCapabilities {
    /// Wire schema version.
    pub schema_version: u32,
    /// Stable identity of the node which assembled this report.
    pub node_id: String,
    /// Stable cluster name.
    pub cluster_name: String,
    /// Cluster identity derived from the root certificate, when available.
    pub cluster_id: Option<String>,
    /// Time the live evidence was assembled.
    pub observed_at_unix_ms: u64,
    /// Time after which a caller must treat the evidence as unknown.
    pub expires_at_unix_ms: u64,
    /// Critical long-lived task evidence, when collected by a live node.
    pub readiness: Option<NodeReadinessEvidence>,
    /// Live placement data-path evidence, when collected by a live node.
    pub placement: Option<NodeCapabilityEvidence>,
    /// Identity of the running binary.
    pub build: BuildFingerprint,
    /// Runtime and host identity.
    pub runtime: RuntimeFingerprint,
    /// Policy for each class of operations.
    pub operations: Vec<OperationPolicyEvidence>,
    /// Explicit evidence for each capability.
    pub capabilities: Vec<CapabilityEvidence>,
    /// Version of the running binary.
    pub version: String,
    /// Descriptive environment tag.
    pub environment: Option<String>,
    /// Selected runtime.
    pub container_runtime: String,
    /// Whether the node is part of a cluster.
    pub cluster: bool,
    /// Known nodes, at least this one.
    pub node_count: u32,
    /// The metrics store is wired.
    pub metrics: bool,
    /// The log store is wired.
    pub logs: bool,
    /// The rollup store is wired.
    pub rollups: bool,
    /// The council is wired.
    pub council: bool,
    /// The image registry is wired.
    pub registry: bool,
    /// The event store is wired.
    pub events: bool,
    /// The upgrade manager is wired.
    pub upgrade: bool,
    /// At least one kind of fault can take real effect here.
    pub fault_injection: bool,
    /// Cgroup faults specifically.
    pub cgroup_faults: bool,
    /// The eBPF programs loaded.
    pub ebpf: bool,
    /// The ingress listener is bound.
    pub ingress: bool,
    /// The perimeter firewall is enabled.
    pub firewall: bool,
    /// Workload identity works.
    pub identity: bool,
    /// Process workloads are permitted.
    pub process_workloads: bool,
    /// Permissions and limits the server will enforce for diagnostics.
    pub test_policy: ClusterTestPolicy,
}

impl Default for ClusterCapabilities {
    fn default() -> (r: Self)
        ensures
            r.schema_version == 0 && r.observed_at_unix_ms == 0 && r.expires_at_unix_ms == 0
                && r.node_count == 0,
            r.node_id@.len() == 0 && r.cluster_name@.len() == 0 && r.version@.len() == 0
                && r.container_runtime@.len() == 0,
            r.cluster_id is None && r.readiness is None && r.placement is None
                && r.environment is None,
            r.operations@.len() == 0 && r.capabilities@.len() == 0,
            !r.cluster && !r.metrics && !r.logs && !r.rollups && !r.council && !r.registry
                && !r.events && !r.upgrade && !r.fault_injection && !r.cgroup_faults && !r.ebpf
                && !r.ingress && !r.firewall && !r.identity && !r.process_workloads,
            is_blank_build(r.build),
            is_blank_runtime(r.runtime),
            is_blank_policy(r.test_policy),
    {
        ClusterCapabilities {
            schema_version: 0,
            node_id: String::new(),
            cluster_name: String::new(),
            cluster_id: None,
            observed_at_unix_ms: 0,
            expires_at_unix_ms: 0,
            readiness: None,
            placement: None,
            build: BuildFingerprint::default(),
            runtime: RuntimeFingerprint::default(),
            operations: Vec::new(),
            capabilities: Vec::new(),
            version: String::new(),
            environment: None,
            container_runtime: String::new(),
            cluster: false,
            node_count: 0,
            metrics: false,
            logs: false,
            rollups: false,
            council: false,
            registry: false,
            events: false,
            upgrade: false,
            fault_injection: false,
            cgroup_faults: false,
            ebpf: false,
            ingress: false,
            firewall: false,
            identity: false,
            process_workloads: false,
            test_policy: ClusterTestPolicy::default(),
        }
    }
}

/// The state of something that is known to be usable or not.
pub open spec fn known_state(available: bool) -> CapabilityState {
    if available {
        CapabilityState::Available
    } else {
        CapabilityState::Unavailable
    }
}

/// The state of something that may not be known.
pub open spec fn maybe_state(available: Option<bool>) -> CapabilityState {
    match available {
        Some(available) => known_state(available),
        None => CapabilityState::Unknown,
    }
}

/// The state of something whose freshness is never proved.
pub open spec fn unproved_state(wired: bool) -> CapabilityState {
    if wired {
        CapabilityState::Unknown
    } else {
        CapabilityState::Unavailable
    }
}

fn known(available: bool) -> (r: CapabilityState)
    ensures
        r == known_state(available),
{
    if available {
        CapabilityState::Available
    } else {
        CapabilityState::Unavailable
    }
}

fn optional_state(available: Option<bool>) -> (r: CapabilityState)
    ensures
        r == maybe_state(available),
{
    match available {
        Some(available) => known(available),
        None => CapabilityState::Unknown,
    }
}

fn unproved(wired: bool) -> (r: CapabilityState)
    ensures
        r == unproved_state(wired),
{
    if wired {
        CapabilityState::Unknown
    } else {
        CapabilityState::Unavailable
    }
}

/// What a report's evidence rests on.
pub ghost struct Basis {
    /// Whether the node is part of a cluster.
    pub cluster: bool,
    /// Whether some fault can take effect.
    pub fault_injection: bool,
    /// The selected runtime.
    pub runtime: Seq<char>,
    /// Placement evidence.
    pub placement: Option<NodeCapabilityEvidence>,
}

/// What a report's evidence rests on.
pub open spec fn basis_of(report: ClusterCapabilities) -> Basis {
    Basis {
        cluster: report.cluster,
        fault_injection: report.fault_injection,
        runtime: report.container_runtime@,
        placement: report.placement,
    }
}

/// What placement evidence proves of a capability that rests on it; without
/// such evidence nothing is known, but that a registry which was never wired
/// cannot be used.
pub open spec fn placement_state_of(
    placement: Option<NodeCapabilityEvidence>,
    signatures_required: bool,
    registry_wired: bool,
    capability: Capability,
) -> CapabilityState {
    match placement {
        Some(seen) => known_state(
            match capability {
                Capability::EgressIpv4 => seen.egress.connect_ipv4 && seen.egress.udp_ipv4
                    && seen.egress.pre_start,
                Capability::EgressIpv6 => seen.egress.connect_ipv6 && seen.egress.udp_ipv6
                    && seen.egress.pre_start,
                Capability::Registry => seen.registry.ready && seen.registry.peer_reachable,
                Capability::RegistryRedundant => seen.registry.ready
                    && seen.registry.peer_reachable && seen.registry.redundancy_possible
                    && seen.registry.under_replicated_layers == 0,
                Capability::RegistrySigned => seen.registry.ready && seen.registry.peer_reachable
                    && signatures_required,
                _ => seen.dns.can_resolve_internal,
            },
        ),
        None => if capability == Capability::Registry {
            unproved_state(registry_wired)
        } else {
            CapabilityState::Unknown
        },
    }
}

/// What the wiring of a node's subsystems proves of a capability that rests on
/// it. That a store is wired does not prove its contents fresh.
pub open spec fn wiring_state_of(
    wired: WiredSubsystems,
    council_quorum: Option<bool>,
    capability: Capability,
) -> CapabilityState {
    match capability {
        Capability::Metrics => known_state(wired.metrics),
        Capability::MetricsFresh => unproved_state(wired.metrics),
        Capability::Logs => known_state(wired.logs),
        Capability::LogsFresh => unproved_state(wired.logs),
        Capability::Events => known_state(wired.events),
        Capability::EventsFresh => unproved_state(wired.events),
        Capability::Council => known_state(wired.council),
        _ => if wired.council {
            maybe_state(council_quorum)
        } else {
            CapabilityState::Unavailable
        },
    }
}

/// What the selected runtime proves of a capability that rests on it.
pub open spec fn runtime_state_of(
    runtime: Seq<char>,
    process_workloads: bool,
    capability: Capability,
) -> CapabilityState {
    known_state(
        match capability {
            Capability::RuntimeRunc => runtime == "runc"@,
            Capability::RuntimeApple => runtime == "apple"@,
            Capability::ContainerRuntime => runtime == "runc"@ || runtime == "apple"@,
            _ => runtime == "process"@ && process_workloads,
        },
    )
}

/// What the node's startup facts prove of a capability that rests on them.
pub open spec fn startup_state_of(
    statics: StaticCapabilities,
    capability: Capability,
) -> CapabilityState {
    known_state(
        match capability {
            Capability::Rootful => !statics.rootless,
            Capability::Ebpf => statics.ebpf,
            Capability::Ingress => statics.ingress,
            Capability::IngressClusterTls => statics.ingress && statics.ingress_cluster_tls,
            Capability::IngressExplicitTls => statics.ingress && statics.ingress_explicit_tls,
            Capability::Firewall => statics.firewall,
            Capability::Identity => statics.identity,
            Capability::ProcessWorkloads => statics.process_workloads,
            _ => statics.cgroup_faults,
        },
    )
}

/// What a report's evidence proves of a capability.
#[verifier::opaque]
pub open spec fn state_of(
    basis: Basis,
    statics: StaticCapabilities,
    wired: WiredSubsystems,
    council_quorum: Option<bool>,
    capability: Capability,
) -> CapabilityState {
    match capability {
        Capability::Cluster => known_state(basis.cluster),
        Capability::MultiNode => match wired.member_count {
            Some(count) => known_state(count >= 3),
            None => unproved_state(basis.cluster),
        },
        Capability::RuntimeRunc | Capability::RuntimeApple | Capability::RuntimeProcessGrill
        | Capability::ProcessRuntime | Capability::ContainerRuntime => runtime_state_of(
            basis.runtime,
            statics.process_workloads,
            capability,
        ),
        Capability::EgressIpv4 | Capability::EgressIpv6 | Capability::DnsUdp | Capability::DnsTcp
        | Capability::Registry | Capability::RegistryRedundant
        | Capability::RegistrySigned => placement_state_of(
            basis.placement,
            statics.registry_signatures_required,
            wired.registry,
            capability,
        ),
        Capability::Metrics | Capability::MetricsFresh | Capability::Logs | Capability::LogsFresh
        | Capability::Events | Capability::EventsFresh | Capability::Council
        | Capability::CouncilQuorum => wiring_state_of(wired, council_quorum, capability),
        Capability::Rootful | Capability::Ebpf | Capability::Ingress
        | Capability::IngressClusterTls | Capability::IngressExplicitTls | Capability::Firewall
        | Capability::Identity | Capability::ProcessWorkloads
        | Capability::CgroupFaults => startup_state_of(statics, capability),
        Capability::FaultInjection => known_state(basis.fault_injection),
        Capability::WorkloadFaults => unproved_state(basis.fault_injection),
        Capability::Secrets | Capability::VolumePersistent
        | Capability::VolumeQuota => CapabilityState::Unknown,
        Capability::NodeDrain | Capability::NodeKill
        | Capability::NodePressure => CapabilityState::Unavailable,
    }
}

/// What a report's evidence for a capability rests on, in words.
#[verifier::opaque]
pub open spec fn detail_of(
    basis: Basis,
    statics: StaticCapabilities,
    wired: WiredSubsystems,
    capability: Capability,
) -> Seq<char> {
    let selected = "selected runtime is "@ + basis.runtime;
    match capability {
        Capability::Cluster => if basis.cluster {
            "cluster runtime is active"@
        } else {
            "standalone mode"@
        },
        Capability::MultiNode => match wired.member_count {
            Some(count) => "fresh membership contains "@ + decimal_text(count as nat)
                + " node(s)"@,
            None => "fresh membership evidence is unavailable"@,
        },
        Capability::RuntimeRunc => selected,
        Capability::RuntimeApple => selected,
        Capability::RuntimeProcessGrill => selected,
        Capability::ProcessRuntime => "ProcessGrill selected with an executable allowlist"@,
        Capability::ContainerRuntime => selected,
        Capability::Rootful => if statics.rootless {
            "runtime is rootless"@
        } else {
            "runtime is rootful"@
        },
        Capability::EgressIpv4 => "connect4/sendmsg4 hooks plus pre-start placement"@,
        Capability::EgressIpv6 => "connect6/sendmsg6 hooks plus pre-start placement"@,
        Capability::DnsUdp => "userspace DNS UDP and workload reachability"@,
        Capability::DnsTcp => "userspace DNS TCP and workload reachability"@,
        Capability::Metrics => "metrics store wiring"@,
        Capability::MetricsFresh => "sample freshness is not published yet"@,
        Capability::Logs => "log store wiring"@,
        Capability::LogsFresh => "log-entry freshness is not published yet"@,
        Capability::Events => "event store wiring"@,
        Capability::EventsFresh => "cluster event freshness is not published yet"@,
        Capability::Council => "council handle wiring"@,
        Capability::CouncilQuorum => "fresh Raft membership and leader evidence"@,
        Capability::Registry => "registry listener readiness and peer reachability"@,
        Capability::RegistryRedundant => match basis.placement {
            Some(seen) => "target "@ + decimal_text(seen.registry.redundancy_target as nat)
                + ", known nodes "@ + decimal_text(seen.registry.known_nodes as nat)
                + ", under-replicated layers "@ + decimal_text(
                seen.registry.under_replicated_layers as nat,
            ),
            None => "registry redundancy evidence is unavailable"@,
        },
        Capability::RegistrySigned => "registry reachability plus required signature policy"@,
        Capability::Ebpf => "Onion eBPF programs loaded and attached"@,
        Capability::Ingress => "Wrapper listener is bound"@,
        Capability::IngressClusterTls => "Wrapper has a cluster Ingress CA resolver"@,
        Capability::IngressExplicitTls => "Wrapper loaded an operator certificate/key pair"@,
        Capability::Firewall => "nftables perimeter enforcement"@,
        Capability::Identity => "workload identity signing material"@,
        Capability::ProcessWorkloads => "host executable allowlist is non-empty"@,
        Capability::CgroupFaults => "Linux cgroup-v2 fault primitives"@,
        Capability::FaultInjection => "at least one fault primitive can affect live state"@,
        Capability::WorkloadFaults => "per-primitive Smoker evidence is not published yet"@,
        Capability::Secrets => "secret delivery freshness is not published yet"@,
        Capability::VolumePersistent => "persistent volume semantics are not published yet"@,
        Capability::VolumeQuota => "volume quota enforcement is not published yet"@,
        Capability::NodeDrain => "primitive is not implemented"@,
        Capability::NodeKill => "primitive is not implemented"@,
        Capability::NodePressure => "primitive is not implemented"@,
    }
}

/// Whether an entry is a report's evidence for its capability.
pub open spec fn is_evidence(
    entry: CapabilityEvidence,
    report: ClusterCapabilities,
    statics: StaticCapabilities,
    wired: WiredSubsystems,
    council_quorum: Option<bool>,
) -> bool {
    &&& entry.state == state_of(basis_of(report), statics, wired, council_quorum, entry.capability)
    &&& entry.observed_at_unix_ms == report.observed_at_unix_ms
    &&& entry.expires_at_unix_ms == report.expires_at_unix_ms
    &&& entry.details@.len() == 1
    &&& entry.details@[0]@ == detail_of(basis_of(report), statics, wired, entry.capability)
}

/// Whether a list is a report's evidence: every capability in order.
pub open spec fn is_evidence_list(
    list: Seq<CapabilityEvidence>,
    report: ClusterCapabilities,
    statics: StaticCapabilities,
    wired: WiredSubsystems,
    council_quorum: Option<bool>,
) -> bool {
    &&& list.len() == CAPABILITY_COUNT
    &&& forall|i: int|
        0 <= i < list.len() ==> (#[trigger] list[i]).capability.rank() == i && is_evidence(
            list[i],
            report,
            statics,
            wired,
            council_quorum,
        )
}

fn placement_state(
    placement: Option<NodeCapabilityEvidence>,
    signatures_required: bool,
    registry_wired: bool,
    capability: Capability,
) -> (r: CapabilityState)
    ensures
        r == placement_state_of(placement, signatures_required, registry_wired, capability),
{
    match placement {
        Some(seen) => known(
            match capability {
                Capability::EgressIpv4 => seen.egress.connect_ipv4 && seen.egress.udp_ipv4
                    && seen.egress.pre_start,
                Capability::EgressIpv6 => seen.egress.connect_ipv6 && seen.egress.udp_ipv6
                    && seen.egress.pre_start,
                Capability::Registry => seen.registry.ready && seen.registry.peer_reachable,
                Capability::RegistryRedundant => seen.registry.ready
                    && seen.registry.peer_reachable && seen.registry.redundancy_possible
                    && seen.registry.under_replicated_layers == 0,
                Capability::RegistrySigned => seen.registry.ready && seen.registry.peer_reachable
                    && signatures_required,
                _ => seen.dns.can_resolve_internal,
            },
        ),
        None => if capability == Capability::Registry {
            unproved(registry_wired)
        } else {
            CapabilityState::Unknown
        },
    }
}

fn wiring_state(
    wired: &WiredSubsystems,
    council_quorum: Option<bool>,
    capability: Capability,
) -> (r: CapabilityState)
    ensures
        r == wiring_state_of(*wired, council_quorum, capability),
{
    match capability {
        Capability::Metrics => known(wired.metrics),
        Capability::MetricsFresh => unproved(wired.metrics),
        Capability::Logs => known(wired.logs),
        Capability::LogsFresh => unproved(wired.logs),
        Capability::Events => known(wired.events),
        Capability::EventsFresh => unproved(wired.events),
        Capability::Council => known(wired.council),
        _ => if wired.council {
            optional_state(council_quorum)
        } else {
            CapabilityState::Unavailable
        },
    }
}

fn runtime_state(runtime: &str, process_workloads: bool, capability: Capability) -> (r:
    CapabilityState)
    ensures
        r == runtime_state_of(runtime@, process_workloads, capability),
{
    known(
        match capability {
            Capability::RuntimeRunc => same_text(runtime, "runc"),
            Capability::RuntimeApple => same_text(runtime, "apple"),
            Capability::ContainerRuntime => same_text(runtime, "runc") || same_text(
                runtime,
                "apple",
            ),
            _ => same_text(runtime, "process") && process_workloads,
        },
    )
}

fn startup_state(statics: &StaticCapabilities, capability: Capability) -> (r: CapabilityState)
    ensures
        r == startup_state_of(*statics, capability),
{
    known(
        match capability {
            Capability::Rootful => !statics.rootless,
            Capability::Ebpf => statics.ebpf,
            Capability::Ingress => statics.ingress,
            Capability::IngressClusterTls => statics.ingress && statics.ingress_cluster_tls,
            Capability::IngressExplicitTls => statics.ingress && statics.ingress_explicit_tls,
            Capability::Firewall => statics.firewall,
            Capability::Identity => statics.identity,
            Capability::ProcessWorkloads => statics.process_workloads,
            _ => statics.cgroup_faults,
        },
    )
}

impl ClusterCapabilities {
    fn capability_state(
        &self,
        statics: &StaticCapabilities,
        wired: &WiredSubsystems,
        council_quorum: Option<bool>,
        capability: Capability,
    ) -> (r: CapabilityState)
        ensures
            r == state_of(basis_of(*self), *statics, *wired, council_quorum, capability),
    {
        proof {
            reveal(state_of);
        }
        match capability {
            Capability::Cluster => known(self.cluster),
            Capability::MultiNode => match wired.member_count {
                Some(count) => known(count >= 3),
                None => unproved(self.cluster),
            },
            Capability::RuntimeRunc | Capability::RuntimeApple | Capability::RuntimeProcessGrill
            | Capability::ProcessRuntime | Capability::ContainerRuntime => runtime_state(
                self.container_runtime.as_str(),
                statics.process_workloads,
                capability,
            ),
            Capability::EgressIpv4 | Capability::EgressIpv6 | Capability::DnsUdp
            | Capability::DnsTcp | Capability::Registry | Capability::RegistryRedundant
            | Capability::RegistrySigned => placement_state(
                self.placement,
                statics.registry_signatures_required,
                wired.registry,
                capability,
            ),
            Capability::Metrics | Capability::MetricsFresh | Capability::Logs
            | Capability::LogsFresh | Capability::Events | Capability::EventsFresh
            | Capability::Council | Capability::CouncilQuorum => wiring_state(
                wired,
                council_quorum,
                capability,
            ),
            Capability::Rootful | Capability::Ebpf | Capability::Ingress
            | Capability::IngressClusterTls | Capability::IngressExplicitTls
            | Capability::Firewall | Capability::Identity | Capability::ProcessWorkloads
            | Capability::CgroupFaults => startup_state(statics, capability),
            Capability::FaultInjection => known(self.fault_injection),
            Capability::WorkloadFaults => unproved(self.fault_injection),
            Capability::Secrets | Capability::VolumePersistent
            | Capability::VolumeQuota => CapabilityState::Unknown,
            Capability::NodeDrain | Capability::NodeKill
            | Capability::NodePressure => CapabilityState::Unavailable,
        }
    }

    fn capability_detail(
        &self,
        statics: &StaticCapabilities,
        wired: &WiredSubsystems,
        capability: Capability,
    ) -> (r: String)
        ensures
            r@ == detail_of(basis_of(*self), *statics, *wired, capability),
    {
        proof {
            reveal(detail_of);
        }
        match capability {
            Capability::Cluster => if self.cluster {
                "cluster runtime is active".to_owned()
            } else {
                "standalone mode".to_owned()
            },
            Capability::MultiNode => match wired.member_count {
                Some(count) => {
                    let mut text: String = "fresh membership contains ".to_owned();
                    text.append(decimal(count as u64).as_str());
                    text.append(" node(s)");
                    text
                },
                None => "fresh membership evidence is unavailable".to_owned(),
            },
            Capability::RuntimeRunc | Capability::RuntimeApple | Capability::RuntimeProcessGrill
            | Capability::ContainerRuntime => {
                let mut text: String = "selected runtime is ".to_owned();
                text.append(self.container_runtime.as_str());
                text
            },
            Capability::ProcessRuntime => {
                "ProcessGrill selected with an executable allowlist".to_owned()
            },
            Capability::Rootful => if statics.rootless {
                "runtime is rootless".to_owned()
            } else {
                "runtime is rootful".to_owned()
            },
            Capability::EgressIpv4 => {
                "connect4/sendmsg4 hooks plus pre-start placement".to_owned()
            },
            Capability::EgressIpv6 => {
                "connect6/sendmsg6 hooks plus pre-start placement".to_owned()
            },
            Capability::DnsUdp => "userspace DNS UDP and workload reachability".to_owned(),
            Capability::DnsTcp => "userspace DNS TCP and workload reachability".to_owned(),
            Capability::Metrics => "metrics store wiring".to_owned(),
            Capability::MetricsFresh => "sample freshness is not published yet".to_owned(),
            Capability::Logs => "log store wiring".to_owned(),
            Capability::LogsFresh => "log-entry freshness is not published yet".to_owned(),
            Capability::Events => "event store wiring".to_owned(),
            Capability::EventsFresh => "cluster event freshness is not published yet".to_owned(),
            Capability::Council => "council handle wiring".to_owned(),
            Capability::CouncilQuorum => "fresh Raft membership and leader evidence".to_owned(),
            Capability::Registry => {
                "registry listener readiness and peer reachability".to_owned()
            },
            Capability::RegistryRedundant => match self.placement {
                Some(seen) => {
                    let mut text: String = "target ".to_owned();
                    text.append(decimal(seen.registry.redundancy_target).as_str());
                    text.append(", known nodes ");
                    text.append(decimal(seen.registry.known_nodes).as_str());
                    text.append(", under-replicated layers ");
                    text.append(decimal(seen.registry.under_replicated_layers).as_str());
                    text
                },
                None => "registry redundancy evidence is unavailable".to_owned(),
            },
            Capability::RegistrySigned => {
                "registry reachability plus required signature policy".to_owned()
            },
            Capability::Ebpf => "Onion eBPF programs loaded and attached".to_owned(),
            Capability::Ingress => "Wrapper listener is bound".to_owned(),
            Capability::IngressClusterTls => {
                "Wrapper has a cluster Ingress CA resolver".to_owned()
            },
            Capability::IngressExplicitTls => {
                "Wrapper loaded an operator certificate/key pair".to_owned()
            },
            Capability::Firewall => "nftables perimeter enforcement".to_owned(),
            Capability::Identity => "workload identity signing material".to_owned(),
            Capability::ProcessWorkloads => "host executable allowlist is non-empty".to_owned(),
            Capability::CgroupFaults => "Linux cgroup-v2 fault primitives".to_owned(),
            Capability::FaultInjection => {
                "at least one fault primitive can affect live state".to_owned()
            },
            Capability::WorkloadFaults => {
                "per-primitive Smoker evidence is not published yet".to_owned()
            },
            Capability::Secrets => "secret delivery freshness is not published yet".to_owned(),
            Capability::VolumePersistent => {
                "persistent volume semantics are not published yet".to_owned()
            },
            Capability::VolumeQuota => "volume quota enforcement is not published yet".to_owned(),
            Capability::NodeDrain | Capability::NodeKill | Capability::NodePressure => {
                "primitive is not implemented".to_owned()
            },
        }
    }

    /// List what the report's evidence proves of every capability.
    pub fn build_capability_evidence(
        &self,
        statics: &StaticCapabilities,
        wired: &WiredSubsystems,
        council_quorum: Option<bool>,
    ) -> (r: Vec<CapabilityEvidence>)
        ensures
            is_evidence_list(r@, *self, *statics, *wired, council_quorum),
    {
        let mut evidence: Vec<CapabilityEvidence> = Vec::new();
        let mut i: usize = 0;
        while i < CAPABILITY_COUNT
            invariant
                i <= CAPABILITY_COUNT,
                evidence@.len() == i,
                forall|j: int|
                    0 <= j < i ==> (#[trigger] evidence@[j]).capability.rank() == j && is_evidence(
                        evidence@[j],
                        *self,
                        *statics,
                        *wired,
                        council_quorum,
                    ),
            decreases CAPABILITY_COUNT - i,
        {
            let capability = capability_at(i);
            let mut details: Vec<String> = Vec::new();
            details.push(self.capability_detail(statics, wired, capability));
            evidence.push(
                CapabilityEvidence {
                    capability,
                    state: self.capability_state(statics, wired, council_quorum, capability),
                    observed_at_unix_ms: self.observed_at_unix_ms,
                    expires_at_unix_ms: self.expires_at_unix_ms,
                    details,
                },
            );
            i = i + 1;
        }
        evidence
    }
}

/// `std::time::SystemTime::now`, as milliseconds since the Unix epoch, or
/// nothing where the clock stands before it. Nothing is claimed of the time.
#[verifier::external_body]
fn clock_millis() -> (r: Option<u128>)
{
    std::time::SystemTime::now().duration_since(std::time::UNIX_EPOCH).ok().map(|d| d.as_millis())
}

/// Milliseconds since the Unix epoch as a report counts them: none before the
/// epoch, and the largest count for anything later.
pub open spec fn millis_of(since_epoch: Option<u128>) -> u64 {
    match since_epoch {
        None => 0,
        Some(millis) => if millis > u64::MAX {
            u64::MAX
        } else {
            millis as u64
        },
    }
}

/// Milliseconds since the Unix epoch as a report counts them.
pub fn unix_millis(since_epoch: Option<u128>) -> (r: u64)
    ensures
        r == millis_of(since_epoch),
{
    match since_epoch {
        None => 0,
        Some(millis) => if millis > u64::MAX as u128 {
            u64::MAX
        } else {
            millis as u64
        },
    }
}

/// A time some milliseconds later, or the latest time.
pub open spec fn later(at: u64, millis: u64) -> u64 {
    if at + millis > u64::MAX {
        u64::MAX
    } else {
        (at + millis) as u64
    }
}

/// Whether a report is the one that these facts give at a time.
pub open spec fn is_report(
    r: ClusterCapabilities,
    statics: StaticCapabilities,
    wired: WiredSubsystems,
    observations: CapabilityObservations,
    now: u64,
) -> bool {
    &&& r.schema_version == CAPABILITY_SCHEMA_VERSION
    &&& r.node_id == statics.node_id
    &&& r.cluster_name == statics.cluster_name
    &&& r.cluster_id == observations.cluster_id
    &&& r.observed_at_unix_ms == now
    &&& r.expires_at_unix_ms == later(now, CAPABILITY_TTL_MILLIS)
    &&& r.readiness == observations.readiness
    &&& r.placement == observations.placement
    &&& r.build == statics.build
    &&& r.runtime == (RuntimeFingerprint {
        node_id: statics.node_id,
        name: statics.container_runtime,
        version: statics.runtime_version,
        rootless: statics.rootless,
        kernel: statics.kernel,
        architecture: statics.architecture,
    })
    &&& r.operations@ == policy_list(statics.test_policy)
    &&& r.version == statics.build.version
    &&& r.environment == statics.environment
    &&& r.container_runtime == statics.container_runtime
    &&& r.cluster == (statics.cluster_mode || wired.council)
    &&& r.node_count == if wired.member_count is Some && wired.member_count->0 > 1 {
        wired.member_count->0
    } else {
        1
    }
    &&& r.metrics == wired.metrics
    &&& r.logs == wired.logs
    &&& r.rollups == wired.rollups
    &&& r.council == wired.council
    &&& r.registry == wired.registry
    &&& r.events == wired.events
    &&& r.upgrade == wired.upgrade
    &&& r.fault_injection == (statics.cgroup_faults || statics.ebpf || statics.cluster_mode
        || wired.council)
    &&& r.cgroup_faults == statics.cgroup_faults
    &&& r.ebpf == statics.ebpf
    &&& r.ingress == statics.ingress
    &&& r.firewall == statics.firewall
    &&& r.identity == statics.identity
    &&& r.process_workloads == statics.process_workloads
    &&& r.test_policy.agrees(statics.test_policy)
    &&& is_evidence_list(r.capabilities@, r, statics, wired, observations.council_quorum)
}

/// What a list of evidence says of a capability: what its first entry for it
/// says.
pub open spec fn listed_state(
    list: Seq<CapabilityEvidence>,
    capability: Capability,
) -> CapabilityState
    decreases list.len(),
{
    if list.len() == 0 {
        CapabilityState::Unknown
    } else if list[0].capability == capability {
        list[0].state
    } else {
        listed_state(list.skip(1), capability)
    }
}

impl ClusterCapabilities {
    /// What the report proves of a capability at a time.
    pub open spec fn proves(self, capability: Capability, now: u64) -> CapabilityState {
        if self.expires_at_unix_ms <= now {
            CapabilityState::Unknown
        } else {
            listed_state(self.capabilities@, capability)
        }
    }

    /// Derive the report of facts without live observations.
    pub fn derive(statics: &StaticCapabilities, wired: &WiredSubsystems) -> (r: Self)
        ensures
            is_report(
                r,
                *statics,
                *wired,
                CapabilityObservations {
                    readiness: None,
                    placement: None,
                    cluster_id: None,
                    council_quorum: None,
                },
                r.observed_at_unix_ms,
            ),
    {
        Self::derive_with_observations(statics, wired, CapabilityObservations::default())
    }

    /// Derive the report of facts with readiness and placement evidence.
    pub fn derive_with_evidence(
        statics: &StaticCapabilities,
        wired: &WiredSubsystems,
        readiness: Option<NodeReadinessEvidence>,
        placement: Option<NodeCapabilityEvidence>,
    ) -> (r: Self)
        ensures
            is_report(
                r,
                *statics,
                *wired,
                CapabilityObservations {
                    readiness,
                    placement,
                    cluster_id: None,
                    council_quorum: None,
                },
                r.observed_at_unix_ms,
            ),
    {
        Self::derive_with_observations(
            statics,
            wired,
            CapabilityObservations {
                readiness,
                placement,
                cluster_id: None,
                council_quorum: None,
            },
        )
    }

    /// Derive a timestamped report without guessing unavailable telemetry.
    pub fn derive_with_observations(
        statics: &StaticCapabilities,
        wired: &WiredSubsystems,
        observations: CapabilityObservations,
    ) -> (r: Self)
        ensures
            is_report(r, *statics, *wired, observations, r.observed_at_unix_ms),
    {
        Self::derive_at(statics, wired, observations, unix_millis(clock_millis()))
    }

    /// Derive the report that these facts give at a time.
    pub fn derive_at(
        statics: &StaticCapabilities,
        wired: &WiredSubsystems,
        observations: CapabilityObservations,
        now: u64,
    ) -> (r: Self)
        ensures
            is_report(r, *statics, *wired, observations, now),
    {
        let cluster = statics.cluster_mode || wired.council;
        let fault_injection = statics.cgroup_faults || statics.ebpf || cluster;
        let node_count: u32 = match wired.member_count {
            Some(count) => if count > 1 {
                count
            } else {
                1
            },
            None => 1,
        };
        let council_quorum = observations.council_quorum;
        let mut report = ClusterCapabilities {
            schema_version: CAPABILITY_SCHEMA_VERSION,
            node_id: statics.node_id.clone(),
            cluster_name: statics.cluster_name.clone(),
            cluster_id: observations.cluster_id,
            observed_at_unix_ms: now,
            expires_at_unix_ms: now.saturating_add(CAPABILITY_TTL_MILLIS),
            readiness: observations.readiness,
            placement: observations.placement,
            build: statics.build.clone(),
            runtime: RuntimeFingerprint {
                node_id: statics.node_id.clone(),
                name: statics.container_runtime.clone(),
                version: copy_optional_text(&statics.runtime_version),
                rootless: statics.rootless,
                kernel: statics.kernel.clone(),
                architecture: statics.architecture.clone(),
            },
            operations: operation_policy(&statics.test_policy),
            capabilities: Vec::new(),
            version: statics.build.version.clone(),
            environment: copy_optional_text(&statics.environment),
            container_runtime: statics.container_runtime.clone(),
            cluster,
            node_count,
            metrics: wired.metrics,
            logs: wired.logs,
            rollups: wired.rollups,
            council: wired.council,
            registry: wired.registry,
            events: wired.events,
            upgrade: wired.upgrade,
            fault_injection,
            cgroup_faults: statics.cgroup_faults,
            ebpf: statics.ebpf,
            ingress: statics.ingress,
            firewall: statics.firewall,
            identity: statics.identity,
            process_workloads: statics.process_workloads,
            test_policy: statics.test_policy.clone(),
        };
        let evidence = report.build_capability_evidence(statics, wired, council_quorum);
        let ghost before = report;
        report.capabilities = evidence;
        proof {
            let list = report.capabilities@;
            assert(basis_of(report) == basis_of(before));
            assert forall|i: int| 0 <= i < list.len() implies (
            #[trigger] list[i]).capability.rank() == i && is_evidence(
                list[i],
                report,
                *statics,
                *wired,
                council_quorum,
            ) by {
                assert(is_evidence(list[i], before, *statics, *wired, council_quorum));
            }
        }
        report
    }

    /// Fresh availability of one capability, at the present time.
    pub fn state(&self, capability: Capability) -> (r: CapabilityState)
        ensures
            exists|now: u64| r == #[trigger] self.proves(capability, now),
    {
        self.state_at(capability, unix_millis(clock_millis()))
    }

    /// Fresh availability of one capability at a time.
    pub fn state_at(&self, capability: Capability, now: u64) -> (r: CapabilityState)
        ensures
            r == self.proves(capability, now),
    {
        if self.expires_at_unix_ms <= now {
            return CapabilityState::Unknown;
        }
        let mut i: usize = 0;
        proof {
            assert(self.capabilities@.skip(0) =~= self.capabilities@);
        }
        while i < self.capabilities.len()
            invariant
                i <= self.capabilities.len(),
                listed_state(self.capabilities@, capability) == listed_state(
                    self.capabilities@.skip(i as int),
                    capability,
                ),
                self.expires_at_unix_ms > now,
            decreases self.capabilities.len() - i,
        {
            proof {
                assert(self.capabilities@.skip(i as int).skip(1) =~= self.capabilities@.skip(
                    i as int + 1,
                ));
            }
            if self.capabilities[i].capability == capability {
                return self.capabilities[i].state;
            }
            i = i + 1;
        }
        CapabilityState::Unknown
    }

    /// Whether fresh evidence proves a capability usable, at the present time.
    pub fn has(&self, capability: Capability) -> (r: bool)
        ensures
            exists|now: u64|
                r == (#[trigger] self.proves(capability, now) == CapabilityState::Available),
    {
        let state = self.state(capability);
        proof {
            let now = choose|now: u64| state == #[trigger] self.proves(capability, now);
            assert((state == CapabilityState::Available) == (self.proves(capability, now)
                == CapabilityState::Available));
        }
        state == CapabilityState::Available
    }

    /// Which of `wanted` this node lacks at the present time. Empty means "run
    /// the test".
    pub fn missing(&self, wanted: &[Capability]) -> (r: Vec<Capability>)
        ensures
            exists|now: u64| r@ == #[trigger] self.lacks(wanted@, now),
    {
        self.missing_at(wanted, unix_millis(clock_millis()))
    }

    /// The capabilities of a list that the report does not prove usable at a
    /// time, in order.
    pub open spec fn lacks(self, wanted: Seq<Capability>, now: u64) -> Seq<Capability> {
        wanted.filter(|c: Capability| self.proves(c, now) != CapabilityState::Available)
    }

    /// Which of `wanted` this node lacks at a time.
    pub fn missing_at(&self, wanted: &[Capability], now: u64) -> (r: Vec<Capability>)
        ensures
            r@ == self.lacks(wanted@, now),
    {
        let ghost lacking = |c: Capability| self.proves(c, now) != CapabilityState::Available;
        let mut missing: Vec<Capability> = Vec::new();
        let mut i: usize = 0;
        proof {
            reveal(Seq::filter);
            assert(wanted@.take(0).filter(lacking) =~= Seq::<Capability>::empty());
        }
        while i < wanted.len()
            invariant
                i <= wanted.len(),
                lacking == (|c: Capability| self.proves(c, now) != CapabilityState::Available),
                missing@ == wanted@.take(i as int).filter(lacking),
            decreases wanted.len() - i,
        {
            proof {
                reveal(Seq::filter);
                assert(wanted@.take(i as int + 1).drop_last() =~= wanted@.take(i as int));
                assert(wanted@.take(i as int + 1).last() == wanted@[i as int]);
            }
            if self.state_at(wanted[i], now) != CapabilityState::Available {
                missing.push(wanted[i]);
            }
            i = i + 1;
        }
        proof {
            assert(wanted@.take(wanted@.len() as int) =~= wanted@);
        }
        missing
    }

    /// Whether the descriptive environment tag says production.
    ///
    /// It is not an authorisation decision; the policy owns that boundary.
    pub fn is_production(&self) -> (r: bool)
        ensures
            r == (self.environment is Some && lowered(self.environment->0@) == lowered(
                "production"@,
            )),
    {
        match &self.environment {
            Some(environment) => same_text_ignoring_case(environment.as_str(), "production"),
            None => false,
        }
    }
}

proof fn rank_is_injective(a: Capability, b: Capability)
    requires
        a.rank() == b.rank(),
    ensures
        a == b,
{
}

proof fn rank_is_bounded(a: Capability)
    ensures
        0 <= a.rank() < CAPABILITY_COUNT,
{
}

proof fn listed_at(list: Seq<CapabilityEvidence>, capability: Capability, at: int)
    requires
        0 <= at < list.len(),
        list[at].capability == capability,
        forall|i: int| 0 <= i < at ==> (#[trigger] list[i]).capability != capability,
    ensures
        listed_state(list, capability) == list[at].state,
    decreases at,
{
    if at > 0 {
        assert(list[0].capability != capability);
        let rest = list.skip(1);
        assert forall|i: int| 0 <= i < at - 1 implies (#[trigger] rest[i]).capability
            != capability by {
            assert(rest[i] == list[i + 1]);
        }
        listed_at(rest, capability, at - 1);
    }
}

/// A report lists every capability exactly once.
pub proof fn every_capability_is_listed_once(
    r: ClusterCapabilities,
    statics: StaticCapabilities,
    wired: WiredSubsystems,
    observations: CapabilityObservations,
    now: u64,
    capability: Capability,
)
    requires
        is_report(r, statics, wired, observations, now),
    ensures
        0 <= capability.rank() < r.capabilities@.len(),
        r.capabilities@[capability.rank()].capability == capability,
        forall|i: int|
            0 <= i < r.capabilities@.len() && i != capability.rank() ==> (
            #[trigger] r.capabilities@[i]).capability != capability,
{
    rank_is_bounded(capability);
    rank_is_injective(r.capabilities@[capability.rank()].capability, capability);
}

/// Until a report expires it answers for every capability what its evidence
/// proves; from then on every answer is unknown.
pub proof fn answers_are_fresh_evidence_or_unknown(
    r: ClusterCapabilities,
    statics: StaticCapabilities,
    wired: WiredSubsystems,
    observations: CapabilityObservations,
    observed_at: u64,
    capability: Capability,
    now: u64,
)
    requires
        is_report(r, statics, wired, observations, observed_at),
    ensures
        now < r.expires_at_unix_ms ==> r.proves(capability, now) == state_of(
            basis_of(r),
            statics,
            wired,
            observations.council_quorum,
            capability,
        ),
        now >= r.expires_at_unix_ms ==> r.proves(capability, now) == CapabilityState::Unknown,
{
    every_capability_is_listed_once(r, statics, wired, observations, observed_at, capability);
    listed_at(r.capabilities@, capability, capability.rank());
}

/// A report can be trusted for exactly its time to live, unless the clock has
/// come to its end.
pub proof fn reports_expire_after_their_time_to_live(
    r: ClusterCapabilities,
    statics: StaticCapabilities,
    wired: WiredSubsystems,
    observations: CapabilityObservations,
    now: u64,
)
    requires
        is_report(r, statics, wired, observations, now),
        now + CAPABILITY_TTL_MILLIS <= u64::MAX,
    ensures
        r.expires_at_unix_ms - r.observed_at_unix_ms == CAPABILITY_TTL_MILLIS,
{
}

/// A node with a council seat or a started cluster runtime is clustered, a
/// node counts itself, and clustering alone makes some fault effective.
pub proof fn every_node_counts_itself(
    r: ClusterCapabilities,
    statics: StaticCapabilities,
    wired: WiredSubsystems,
    observations: CapabilityObservations,
    now: u64,
)
    requires
        is_report(r, statics, wired, observations, now),
    ensures
        r.node_count >= 1,
        wired.council ==> r.cluster,
        statics.cluster_mode ==> r.cluster,
        r.cluster ==> r.fault_injection,
        wired.member_count is None ==> r.node_count == 1,
{
}

/// The capabilities that a list lacks are exactly those of its capabilities
/// that are not proved usable.
pub proof fn missing_is_what_is_not_proved(
    r: ClusterCapabilities,
    wanted: Seq<Capability>,
    now: u64,
    capability: Capability,
)
    ensures
        r.lacks(wanted, now).contains(capability) <==> wanted.contains(capability) && r.proves(
            capability,
            now,
        ) != CapabilityState::Available,
{
    let lacking = |c: Capability| r.proves(c, now) != CapabilityState::Available;
    kept_by_filter(wanted, lacking, capability);
}

proof fn kept_by_filter(list: Seq<Capability>, keep: spec_fn(Capability) -> bool, c: Capability)
    ensures
        list.filter(keep).contains(c) <==> list.contains(c) && keep(c),
    decreases list.len(),
{
    reveal(Seq::filter);
    let kept = list.filter(keep);
    if list.len() > 0 {
        let rest = list.drop_last();
        kept_by_filter(rest, keep, c);
        if kept.contains(c) {
            let i = choose|i: int| 0 <= i < kept.len() && kept[i] == c;
            if i < rest.filter(keep).len() {
                assert(rest.filter(keep)[i] == c);
                let k = choose|k: int| 0 <= k < rest.len() && rest[k] == c;
                assert(list[k] == c);
            } else {
                assert(list[list.len() - 1] == c);
            }
        }
        if list.contains(c) && keep(c) {
            let i = choose|i: int| 0 <= i < list.len() && list[i] == c;
            if i < rest.len() {
                assert(rest[i] == c);
                let k = choose|k: int|
                    0 <= k < rest.filter(keep).len() && rest.filter(keep)[k] == c;
                assert(kept[k] == c);
            } else {
                assert(kept[kept.len() - 1] == c);
            }
        }
    }
}

/// One explicit result in a bounded cross-node collection.
#[derive(Debug)]
pub enum CollectedNodeCapability {
    /// The node's report.
    Evidence {
        /// The node.
        node_id: String,
        /// Where it was asked.
        address: String,
        /// What it reported.
        report: Box<ClusterCapabilities>,
    },
    /// The node gave no usable report.
    Unknown {
        /// The node.
        node_id: String,
        /// Where it was asked.
        address: String,
        /// Why nothing is known.
        reason: String,
    },
}

/// The node that a collected result is about.
pub open spec fn collected_node(entry: CollectedNodeCapability) -> Seq<char> {
    match entry {
        CollectedNodeCapability::Evidence { node_id, .. } => node_id@,
        CollectedNodeCapability::Unknown { node_id, .. } => node_id@,
    }
}

impl Sortable for CollectedNodeCapability {
    open spec fn goes_before(&self, other: &CollectedNodeCapability) -> bool {
        text_less(collected_node(*self), collected_node(*other))
    }

    fn before(&self, other: &CollectedNodeCapability) -> (r: bool) {
        text_before(collected_capability_node_id(self), collected_capability_node_id(other))
    }

    proof fn order_laws(
        a: CollectedNodeCapability,
        b: CollectedNodeCapability,
        c: CollectedNodeCapability,
    ) {
        text_order_laws(collected_node(a), collected_node(b), collected_node(c));
    }
}

/// The node that a collected result is about.
pub fn collected_capability_node_id(entry: &CollectedNodeCapability) -> (r: &str)
    ensures
        r@ == collected_node(*entry),
{
    match entry {
        CollectedNodeCapability::Evidence { node_id, .. } => node_id.as_str(),
        CollectedNodeCapability::Unknown { node_id, .. } => node_id.as_str(),
    }
}

/// Authenticated cross-node capability collection.
#[derive(Debug)]
pub struct ClusterCapabilityReport {
    /// Wire schema version.
    pub schema_version: u32,
    /// The node that collected.
    pub collected_by: String,
    /// When the collection began.
    pub observed_at_unix_ms: u64,
    /// When the collection had to end.
    pub deadline_at_unix_ms: u64,
    /// One result for each node.
    pub nodes: Vec<CollectedNodeCapability>,
}

/// What came of asking a peer for its report.
#[derive(Debug)]
pub enum PeerReply {
    /// There is no service token to ask with.
    NoToken,
    /// The request failed.
    RequestFailed(String),
    /// The shared deadline passed.
    DeadlineExpired,
    /// The peer answered with a status other than success.
    Refused(String),
    /// The answer is too long.
    TooLong,
    /// The answer broke off.
    BodyFailed(String),
    /// The answer is not a report.
    InvalidJson(String),
    /// The peer's report.
    Report(Box<ClusterCapabilities>),
}

/// Why a peer's reply is no evidence, if it is none.
pub open spec fn peer_complaint(
    reply: PeerReply,
    node_id: Seq<char>,
    now: u64,
) -> Option<Seq<char>> {
    match reply {
        PeerReply::NoToken => Some(
            "cluster service token unavailable; unauthenticated fallback refused"@,
        ),
        PeerReply::RequestFailed(error) => Some("peer request failed: "@ + error@),
        PeerReply::DeadlineExpired => Some("shared collection deadline expired"@),
        PeerReply::Refused(status) => Some("peer returned HTTP "@ + status@),
        PeerReply::TooLong => Some("peer response exceeded the 1 MiB limit"@),
        PeerReply::BodyFailed(error) => Some("peer response failed: "@ + error@),
        PeerReply::InvalidJson(error) => Some(
            "peer returned invalid capability JSON: "@ + error@,
        ),
        PeerReply::Report(report) => if report.schema_version != CAPABILITY_SCHEMA_VERSION {
            Some(
                "peer schema "@ + decimal_text(report.schema_version as nat)
                    + " is incompatible with "@ + decimal_text(CAPABILITY_SCHEMA_VERSION as nat),
            )
        } else if report.node_id@ != node_id {
            Some(
                "peer identity mismatch: expected "@ + node_id + ", received "@
                    + report.node_id@,
            )
        } else if report.expires_at_unix_ms <= now {
            Some("peer capability evidence is stale"@)
        } else {
            None
        },
    }
}

fn with_error(text: &str, error: &String) -> (r: String)
    ensures
        r@ == text@ + error@,
{
    let mut out: String = text.to_owned();
    out.append(error.as_str());
    out
}

fn judge_report(report: &ClusterCapabilities, node_id: &str, now: u64) -> (r: Option<String>)
    ensures
        (match r {
            Some(reason) => Some(reason@),
            None => None,
        }) == peer_complaint(PeerReply::Report(Box::new(*report)), node_id@, now),
{
    if report.schema_version != CAPABILITY_SCHEMA_VERSION {
        let mut reason: String = "peer schema ".to_owned();
        reason.append(decimal(report.schema_version as u64).as_str());
        reason.append(" is incompatible with ");
        reason.append(decimal(CAPABILITY_SCHEMA_VERSION as u64).as_str());
        return Some(reason);
    }
    if !same_text(report.node_id.as_str(), node_id) {
        let mut reason: String = "peer identity mismatch: expected ".to_owned();
        reason.append(node_id);
        reason.append(", received ");
        reason.append(report.node_id.as_str());
        return Some(reason);
    }
    if report.expires_at_unix_ms <= now {
        return Some("peer capability evidence is stale".to_owned());
    }
    None
}

/// Turn what came of asking a peer into a result: its report, if it is of the
/// current schema, of that very node and still fresh, or the reason why
/// nothing is known.
pub fn collect_peer_capability(
    node_id: &str,
    address: &str,
    reply: PeerReply,
    now: u64,
) -> (r: CollectedNodeCapability)
    ensures
        match peer_complaint(reply, node_id@, now) {
            None => r matches CollectedNodeCapability::Evidence { node_id: n, address: a, report }
                && n@ == node_id@ && a@ == address@ && reply == PeerReply::Report(report),
            Some(complaint) => r matches CollectedNodeCapability::Unknown {
                node_id: n,
                address: a,
                reason,
            } && n@ == node_id@ && a@ == address@ && reason@ == complaint,
        },
{
    let node = node_id.to_owned();
    let address = address.to_owned();
    let reason: String = match reply {
        PeerReply::NoToken => {
            "cluster service token unavailable; unauthenticated fallback refused".to_owned()
        },
        PeerReply::RequestFailed(error) => with_error("peer request failed: ", &error),
        PeerReply::DeadlineExpired => "shared collection deadline expired".to_owned(),
        PeerReply::Refused(status) => with_error("peer returned HTTP ", &status),
        PeerReply::TooLong => "peer response exceeded the 1 MiB limit".to_owned(),
        PeerReply::BodyFailed(error) => with_error("peer response failed: ", &error),
        PeerReply::InvalidJson(error) => with_error(
            "peer returned invalid capability JSON: ",
            &error,
        ),
        PeerReply::Report(report) => match judge_report(&report, node_id, now) {
            Some(reason) => reason,
            None => {
                return CollectedNodeCapability::Evidence { node_id: node, address, report };
            },
        },
    };
    CollectedNodeCapability::Unknown { node_id: node, address, reason }
}

/// Whether a peer's answer of an announced length is read.
pub fn announced_length_fits(length: Option<u64>) -> (r: bool)
    ensures
        r == (length is None || length->0 <= MAX_CAPABILITY_RESPONSE_BYTES),
{
    match length {
        Some(length) => length <= MAX_CAPABILITY_RESPONSE_BYTES as u64,
        None => true,
    }
}

/// Whether another chunk of a peer's answer may be kept.
pub fn chunk_fits(kept: usize, chunk: usize) -> (r: bool)
    ensures
        r == (kept + chunk <= MAX_CAPABILITY_RESPONSE_BYTES),
{
    kept.saturating_add(chunk) <= MAX_CAPABILITY_RESPONSE_BYTES
}

/// The members to ask: all but the node itself, in order.
pub open spec fn peers_of(
    members: Seq<NodeMembershipInfo>,
    self_id: Seq<char>,
) -> Seq<NodeMembershipInfo> {
    members.filter(|m: NodeMembershipInfo| m.node_id@ != self_id)
}

/// Choose the members to ask for their reports.
pub fn peers_to_ask(members: &Vec<NodeMembershipInfo>, self_id: &str) -> (r: Vec<
    NodeMembershipInfo,
>)
    ensures
        r@ == peers_of(members@, self_id@),
{
    let ghost other = |m: NodeMembershipInfo| m.node_id@ != self_id@;
    let mut peers: Vec<NodeMembershipInfo> = Vec::new();
    let mut i: usize = 0;
    proof {
        reveal(Seq::filter);
        assert(members@.take(0).filter(other) =~= Seq::<NodeMembershipInfo>::empty());
    }
    while i < members.len()
        invariant
            i <= members.len(),
            other == (|m: NodeMembershipInfo| m.node_id@ != self_id@),
            peers@ == members@.take(i as int).filter(other),
        decreases members.len() - i,
    {
        proof {
            reveal(Seq::filter);
            assert(members@.take(i as int + 1).drop_last() =~= members@.take(i as int));
            assert(members@.take(i as int + 1).last() == members@[i as int]);
        }
        if !same_text(members[i].node_id.as_str(), self_id) {
            peers.push(members[i].clone());
        }
        i = i + 1;
    }
    proof {
        assert(members@.take(members@.len() as int) =~= members@);
    }
    peers
}

/// Assemble a collection: this node's report and one result for each peer, in
/// the order of the nodes' names.
pub fn cluster_report(
    collected_by: &String,
    local: ClusterCapabilities,
    peers: Vec<CollectedNodeCapability>,
    started_unix_ms: u64,
) -> (r: ClusterCapabilityReport)
    ensures
        r.schema_version == CAPABILITY_SCHEMA_VERSION,
        r.collected_by == *collected_by,
        r.observed_at_unix_ms == started_unix_ms,
        r.deadline_at_unix_ms == later(started_unix_ms, CLUSTER_COLLECTION_TIMEOUT_MILLIS),
        exists|own: CollectedNodeCapability|
            is_own_entry(own, local) && r.nodes@ == sorted(seq![own] + peers@),
{
    let own = CollectedNodeCapability::Evidence {
        node_id: local.node_id.clone(),
        address: "local".to_owned(),
        report: Box::new(local),
    };
    let ghost first = own;
    let mut nodes: Vec<CollectedNodeCapability> = Vec::new();
    let mut rest = peers;
    nodes.push(own);
    nodes.append(&mut rest);
    proof {
        assert(is_own_entry(first, local));
        assert(nodes@ =~= seq![first] + peers@);
    }
    ClusterCapabilityReport {
        schema_version: CAPABILITY_SCHEMA_VERSION,
        collected_by: collected_by.clone(),
        observed_at_unix_ms: started_unix_ms,
        deadline_at_unix_ms: started_unix_ms.saturating_add(CLUSTER_COLLECTION_TIMEOUT_MILLIS),
        nodes: sort_stably(nodes),
    }
}

/// Whether an entry is the collecting node's own.
pub open spec fn is_own_entry(entry: CollectedNodeCapability, local: ClusterCapabilities) -> bool {
    entry matches CollectedNodeCapability::Evidence { node_id, address, report } && node_id
        == local.node_id && address@ == "local"@ && *report == local
}

/// Whether a subsystem is reported ready under a name.
pub open spec fn subsystem_ready(
    subsystems: Seq<SubsystemEvidence>,
    name: Seq<char>,
) -> bool {
    exists|i: int|
        0 <= i < subsystems.len() && (#[trigger] subsystems[i]).name@ == name
            && subsystems[i].state == SubsystemState::Ready
}

fn is_subsystem_ready(subsystems: &Vec<SubsystemEvidence>, name: &str) -> (r: bool)
    ensures
        r == subsystem_ready(subsystems@, name@),
{
    let mut i: usize = 0;
    while i < subsystems.len()
        invariant
            i <= subsystems.len(),
            forall|j: int|
                0 <= j < i ==> !((#[trigger] subsystems@[j]).name@ == name@ && subsystems@[j].state
                    == SubsystemState::Ready),
        decreases subsystems.len() - i,
    {
        if same_text(subsystems[i].name.as_str(), name) && subsystems[i].state
            == SubsystemState::Ready {
            return true;
        }
        i = i + 1;
    }
    false
}

/// The members that a report may rest on: none are known where gossip is not
/// fresh in cluster mode, and a standalone node has none.
pub open spec fn trusted_members(
    cluster_mode: bool,
    gossip_fresh: bool,
    membership: Option<Seq<NodeMembershipInfo>>,
) -> Option<Seq<NodeMembershipInfo>> {
    match membership {
        Some(members) => if !cluster_mode || gossip_fresh {
            Some(members)
        } else {
            None
        },
        None => if cluster_mode {
            None
        } else {
            Some(Seq::empty())
        },
    }
}

/// The member count of a report.
pub open spec fn trusted_count(
    members: Option<Seq<NodeMembershipInfo>>,
    node_id: Seq<char>,
) -> Option<u32> {
    match members {
        Some(list) => Some(
            if counted_members(list, node_id) > u32::MAX {
                u32::MAX
            } else {
                counted_members(list, node_id) as u32
            },
        ),
        None => None,
    }
}

/// What is known of the council's quorum: a decision only where council,
/// members and Raft traffic are all observed, and none exists standalone.
pub open spec fn observed_quorum(
    cluster_mode: bool,
    raft_fresh: bool,
    council: Option<(Seq<u64>, Option<u64>)>,
    members: Option<Seq<NodeMembershipInfo>>,
    self_raft_id: u64,
) -> Option<bool> {
    match council {
        Some((voters, leader)) => if members is Some && raft_fresh {
            Some(
                live_quorum(
                    voters.to_set(),
                    leader,
                    voter_ids(members->0).insert(self_raft_id),
                ),
            )
        } else {
            None
        },
        None => if cluster_mode {
            None
        } else {
            Some(false)
        },
    }
}

/// The identity of a cluster: the digest of its root certificate.
pub open spec fn cluster_identity_text(root_der: Seq<u8>) -> Seq<char> {
    "sha256:"@ + hex_text(sha256_digest(root_der))
}

/// Derive the identity of a cluster from its root certificate.
pub fn cluster_identity(root_der: &Vec<u8>) -> (r: String)
    requires
        root_der@.len() < 0x2000_0000_0000_0000,
    ensures
        r@ == cluster_identity_text(root_der@),
{
    identity_of_digest(&sha256(root_der.as_slice()))
}

/// Write a digest as a cluster identity.
pub fn identity_of_digest(digest: &Vec<u8>) -> (r: String)
    ensures
        r@ == "sha256:"@ + hex_text(digest@),
{
    let mut out: String = "sha256:".to_owned();
    out.append(encode_hex(digest.as_slice()).as_str());
    out
}

/// A council as its voters and leader, if there is one.
pub open spec fn council_facts(council: Option<&CouncilView>) -> Option<(Seq<u64>, Option<u64>)> {
    match council {
        Some(council) => Some((council.voters@, council.leader)),
        None => None,
    }
}

/// Report what this node has wired up and what fresh evidence shows.
///
/// `wired` says what was built, apart from the council and the members, which
/// are passed as they are.
pub fn local_capability_report(
    statics: &StaticCapabilities,
    wired: &WiredSubsystems,
    readiness: NodeReadinessEvidence,
    placement: NodeCapabilityEvidence,
    membership: Option<&Vec<NodeMembershipInfo>>,
    council: Option<&CouncilView>,
    self_raft_id: u64,
    cluster_id: Option<String>,
    now: u64,
) -> (r: ClusterCapabilities)
    ensures
        ({
            let members = trusted_members(
                statics.cluster_mode,
                subsystem_ready(readiness.subsystems@, "cluster:gossip"@),
                member_list(membership),
            );
            let quorum = observed_quorum(
                statics.cluster_mode,
                subsystem_ready(readiness.subsystems@, "cluster:raft-rpc"@),
                council_facts(council),
                members,
                self_raft_id,
            );
            is_report(
                r,
                *statics,
                WiredSubsystems {
                    council: council is Some,
                    member_count: trusted_count(members, statics.node_id@),
                    ..*wired
                },
                CapabilityObservations {
                    readiness: Some(readiness),
                    placement: Some(placement),
                    cluster_id,
                    council_quorum: quorum,
                },
                now,
            )
        }),
{
    let gossip_fresh = is_subsystem_ready(&readiness.subsystems, "cluster:gossip");
    let raft_fresh = is_subsystem_ready(&readiness.subsystems, "cluster:raft-rpc");
    let none: Vec<NodeMembershipInfo> = Vec::new();
    proof {
        assert(none@ =~= Seq::<NodeMembershipInfo>::empty());
    }
    let members: Option<&Vec<NodeMembershipInfo>> = match membership {
        Some(members) => if !statics.cluster_mode || gossip_fresh {
            Some(members)
        } else {
            None
        },
        None => if statics.cluster_mode {
            None
        } else {
            Some(&none)
        },
    };
    let member_count: Option<u32> = match members {
        Some(members) => Some(count_members(members, statics.node_id.as_str())),
        None => None,
    };
    let council_quorum: Option<bool> = match council {
        Some(council) => match members {
            Some(members) => if raft_fresh {
                Some(council_has_live_quorum(council, members, self_raft_id))
            } else {
                None
            },
            None => None,
        },
        None => if statics.cluster_mode {
            None
        } else {
            Some(false)
        },
    };
    let mut wired = *wired;
    wired.council = council.is_some();
    wired.member_count = member_count;
    ClusterCapabilities::derive_at(
        statics,
        &wired,
        CapabilityObservations {
            readiness: Some(readiness),
            placement: Some(placement),
            cluster_id,
            council_quorum,
        },
        now,
    )
}

/// A peer's report becomes evidence only if it was asked for with the service
/// token, is of the current schema, names the very node that was asked, and
/// has not expired.
pub proof fn only_sound_reports_become_evidence(reply: PeerReply, node_id: Seq<char>, now: u64)
    requires
        peer_complaint(reply, node_id, now) is None,
    ensures
        reply != PeerReply::NoToken,
        reply matches PeerReply::Report(report) && report.schema_version
            == CAPABILITY_SCHEMA_VERSION && report.node_id@ == node_id
            && report.expires_at_unix_ms > now,
{
}

} // verus!
