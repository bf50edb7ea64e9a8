//! What a capability report says of the node it was derived on.

use vstd::prelude::*;
use vstd::set_lib::*;

use crate::capabilities::{
    answers_are_fresh_evidence_or_unknown, collect_peer_capability, cluster_report, detail_of,
    every_capability_is_listed_once, local_capability_report, peers_to_ask, state_of, unix_millis,
    Capability, CapabilityObservations, CapabilityState, ClusterCapabilities,
    ClusterCapabilityReport, CollectedNodeCapability, NodeCapabilityEvidence, NodeReadinessEvidence,
    PeerReply, StaticCapabilities, WiredSubsystems,
};
use crate::membership::{
    count_members, council_has_live_quorum, count_unavailable_voters, count_voters, voter_ids,
    CouncilView, NodeMembershipInfo,
};
use crate::text::{ascii_lower, decimal_text, lowered};

verus! {

/// Whether a state says for certain that something is so, or that it is not.
pub open spec fn says(state: CapabilityState, fact: bool) -> bool {
    if fact {
        state is Available
    } else {
        state is Unavailable
    }
}

/// A capability is called by the name of its kind.
pub proof fn capabilities_are_called_by_their_names(capability: &Capability, r: String)
    requires
        call_ensures(Capability::to_string, (capability,), r),
    ensures
        *capability == Capability::Cluster ==> r@ == "cluster"@,
        *capability == Capability::MultiNode ==> r@ == "multi_node"@,
        *capability == Capability::RuntimeRunc ==> r@ == "runtime_runc"@,
        *capability == Capability::RuntimeApple ==> r@ == "runtime_apple"@,
        *capability == Capability::RuntimeProcessGrill ==> r@ == "runtime_process_grill"@,
        *capability == Capability::Rootful ==> r@ == "rootful"@,
        *capability == Capability::ProcessRuntime ==> r@ == "process_runtime"@,
        *capability == Capability::ContainerRuntime ==> r@ == "container_runtime"@,
        *capability == Capability::EgressIpv4 ==> r@ == "egress_ipv4"@,
        *capability == Capability::EgressIpv6 ==> r@ == "egress_ipv6"@,
        *capability == Capability::DnsUdp ==> r@ == "dns_udp"@,
        *capability == Capability::DnsTcp ==> r@ == "dns_tcp"@,
        *capability == Capability::Metrics ==> r@ == "metrics"@,
        *capability == Capability::MetricsFresh ==> r@ == "metrics_fresh"@,
        *capability == Capability::Logs ==> r@ == "logs"@,
        *capability == Capability::LogsFresh ==> r@ == "logs_fresh"@,
        *capability == Capability::Council ==> r@ == "council"@,
        *capability == Capability::CouncilQuorum ==> r@ == "council_quorum"@,
        *capability == Capability::Registry ==> r@ == "registry"@,
        *capability == Capability::RegistryRedundant ==> r@ == "registry_redundant"@,
        *capability == Capability::RegistrySigned ==> r@ == "registry_signed"@,
        *capability == Capability::Events ==> r@ == "events"@,
        *capability == Capability::EventsFresh ==> r@ == "events_fresh"@,
        *capability == Capability::FaultInjection ==> r@ == "fault_injection"@,
        *capability == Capability::WorkloadFaults ==> r@ == "workload_faults"@,
        *capability == Capability::CgroupFaults ==> r@ == "cgroup_faults"@,
        *capability == Capability::Ebpf ==> r@ == "ebpf"@,
        *capability == Capability::Ingress ==> r@ == "ingress"@,
        *capability == Capability::IngressClusterTls ==> r@ == "ingress_cluster_tls"@,
        *capability == Capability::IngressExplicitTls ==> r@ == "ingress_explicit_tls"@,
        *capability == Capability::Firewall ==> r@ == "firewall"@,
        *capability == Capability::Identity ==> r@ == "identity"@,
        *capability == Capability::Secrets ==> r@ == "secrets"@,
        *capability == Capability::VolumePersistent ==> r@ == "volume_persistent"@,
        *capability == Capability::VolumeQuota ==> r@ == "volume_quota"@,
        *capability == Capability::ProcessWorkloads ==> r@ == "process_workloads"@,
        *capability == Capability::NodeDrain ==> r@ == "node_drain"@,
        *capability == Capability::NodeKill ==> r@ == "node_kill"@,
        *capability == Capability::NodePressure ==> r@ == "node_pressure"@,
{
}

/// A report holds for fifteen seconds from when it was made, and nothing is known
/// from it after that.
pub proof fn reports_hold_for_fifteen_seconds(
    statics: &StaticCapabilities,
    wired: &WiredSubsystems,
    observations: CapabilityObservations,
    now: u64,
    report: ClusterCapabilities,
    capability: Capability,
    at: u64,
    state: CapabilityState,
)
    requires
        call_ensures(ClusterCapabilities::derive_at, (statics, wired, observations, now), report),
        call_ensures(ClusterCapabilities::state_at, (&report, capability, at), state),
    ensures
        report.observed_at_unix_ms == now,
        now + 15_000 <= u64::MAX ==> report.expires_at_unix_ms == now + 15_000,
        now + 15_000 > u64::MAX ==> report.expires_at_unix_ms == u64::MAX,
        at >= now + 15_000 ==> state is Unknown,
        at == u64::MAX ==> state is Unknown,
{
    answers_are_fresh_evidence_or_unknown(
        report,
        *statics,
        *wired,
        observations,
        now,
        capability,
        at,
    );
}

/// While a report is fresh, what it says of the container runtime goes by the
/// runtime's name.
pub proof fn runtimes_go_by_their_name(
    statics: &StaticCapabilities,
    wired: &WiredSubsystems,
    observations: CapabilityObservations,
    now: u64,
    report: ClusterCapabilities,
    capability: Capability,
    at: u64,
    state: CapabilityState,
)
    requires
        call_ensures(ClusterCapabilities::derive_at, (statics, wired, observations, now), report),
        call_ensures(ClusterCapabilities::state_at, (&report, capability, at), state),
        at < u64::MAX,
        at < now + 15_000,
    ensures
        capability is RuntimeRunc ==> says(state, statics.container_runtime@ == "runc"@),
        capability is RuntimeApple ==> says(state, statics.container_runtime@ == "apple"@),
        capability is ContainerRuntime ==> says(
            state,
            statics.container_runtime@ == "runc"@ || statics.container_runtime@ == "apple"@,
        ),
        capability is RuntimeProcessGrill || capability is ProcessRuntime ==> says(
            state,
            statics.container_runtime@ == "process"@ && statics.process_workloads,
        ),
        capability is Rootful ==> says(state, !statics.rootless),
{
    answers_are_fresh_evidence_or_unknown(
        report,
        *statics,
        *wired,
        observations,
        now,
        capability,
        at,
    );
    reveal(state_of);
}

/// While a report is fresh, there is a container runtime exactly where there is
/// one of the two kinds, and never both nor beside the process runtime.
pub proof fn a_container_runtime_is_one_of_two(
    statics: &StaticCapabilities,
    wired: &WiredSubsystems,
    observations: CapabilityObservations,
    now: u64,
    report: ClusterCapabilities,
    at: u64,
    container: CapabilityState,
    runc: CapabilityState,
    apple: CapabilityState,
    process: CapabilityState,
)
    requires
        call_ensures(ClusterCapabilities::derive_at, (statics, wired, observations, now), report),
        call_ensures(
            ClusterCapabilities::state_at,
            (&report, Capability::ContainerRuntime, at),
            container,
        ),
        call_ensures(ClusterCapabilities::state_at, (&report, Capability::RuntimeRunc, at), runc),
        call_ensures(
            ClusterCapabilities::state_at,
            (&report, Capability::RuntimeApple, at),
            apple,
        ),
        call_ensures(
            ClusterCapabilities::state_at,
            (&report, Capability::ProcessRuntime, at),
            process,
        ),
        at < report.expires_at_unix_ms,
    ensures
        container is Available <==> runc is Available || apple is Available,
        !(runc is Available && apple is Available),
        !(container is Available && process is Available),
{
    reports_hold_for_fifteen_seconds(
        statics,
        wired,
        observations,
        now,
        report,
        Capability::ContainerRuntime,
        at,
        container,
    );
    runtimes_go_by_their_name(
        statics,
        wired,
        observations,
        now,
        report,
        Capability::ContainerRuntime,
        at,
        container,
    );
    runtimes_go_by_their_name(
        statics,
        wired,
        observations,
        now,
        report,
        Capability::RuntimeRunc,
        at,
        runc,
    );
    runtimes_go_by_their_name(
        statics,
        wired,
        observations,
        now,
        report,
        Capability::RuntimeApple,
        at,
        apple,
    );
    runtimes_go_by_their_name(
        statics,
        wired,
        observations,
        now,
        report,
        Capability::ProcessRuntime,
        at,
        process,
    );
    reveal_strlit("runc");
    reveal_strlit("apple");
    reveal_strlit("process");
    assert("runc"@.len() == 4 && "apple"@.len() == 5 && "process"@.len() == 7);
}

/// While a report is fresh, what was found at start-up is said as it was found.
pub proof fn startup_facts_are_said_as_found(
    statics: &StaticCapabilities,
    wired: &WiredSubsystems,
    observations: CapabilityObservations,
    now: u64,
    report: ClusterCapabilities,
    capability: Capability,
    at: u64,
    state: CapabilityState,
)
    requires
        call_ensures(ClusterCapabilities::derive_at, (statics, wired, observations, now), report),
        call_ensures(ClusterCapabilities::state_at, (&report, capability, at), state),
        at < u64::MAX,
        at < now + 15_000,
    ensures
        capability is Ebpf ==> says(state, statics.ebpf),
        capability is Ingress ==> says(state, statics.ingress),
        capability is IngressClusterTls ==> says(
            state,
            statics.ingress && statics.ingress_cluster_tls,
        ),
        capability is IngressExplicitTls ==> says(
            state,
            statics.ingress && statics.ingress_explicit_tls,
        ),
        capability is Firewall ==> says(state, statics.firewall),
        capability is Identity ==> says(state, statics.identity),
        capability is ProcessWorkloads ==> says(state, statics.process_workloads),
        capability is CgroupFaults ==> says(state, statics.cgroup_faults),
        capability is Cluster ==> says(state, statics.cluster_mode || wired.council),
        capability is FaultInjection ==> says(
            state,
            statics.cgroup_faults || statics.ebpf || statics.cluster_mode || wired.council,
        ),
        capability is WorkloadFaults ==> if statics.cgroup_faults || statics.ebpf
            || statics.cluster_mode || wired.council {
            state is Unknown
        } else {
            state is Unavailable
        },
        capability is Secrets || capability is VolumePersistent || capability is VolumeQuota
            ==> state is Unknown,
        capability is NodeDrain || capability is NodeKill || capability is NodePressure
            ==> state is Unavailable,
{
    answers_are_fresh_evidence_or_unknown(
        report,
        *statics,
        *wired,
        observations,
        now,
        capability,
        at,
    );
    reveal(state_of);
}

/// While a report is fresh, a subsystem is available where it is wired; whether
/// what it holds is fresh is never known of one that is.
pub proof fn wired_subsystems_are_available(
    statics: &StaticCapabilities,
    wired: &WiredSubsystems,
    observations: CapabilityObservations,
    now: u64,
    report: ClusterCapabilities,
    capability: Capability,
    at: u64,
    state: CapabilityState,
)
    requires
        call_ensures(ClusterCapabilities::derive_at, (statics, wired, observations, now), report),
        call_ensures(ClusterCapabilities::state_at, (&report, capability, at), state),
        at < u64::MAX,
        at < now + 15_000,
    ensures
        capability is Metrics ==> says(state, wired.metrics),
        capability is Logs ==> says(state, wired.logs),
        capability is Events ==> says(state, wired.events),
        capability is Council ==> says(state, wired.council),
        capability is MetricsFresh ==> if wired.metrics {
            state is Unknown
        } else {
            state is Unavailable
        },
        capability is LogsFresh ==> if wired.logs {
            state is Unknown
        } else {
            state is Unavailable
        },
        capability is EventsFresh ==> if wired.events {
            state is Unknown
        } else {
            state is Unavailable
        },
        capability is CouncilQuorum && !wired.council ==> state is Unavailable,
        capability is CouncilQuorum && wired.council ==> match observations.council_quorum {
            Some(quorum) => says(state, quorum),
            None => state is Unknown,
        },
        capability is MultiNode ==> match wired.member_count {
            Some(count) => says(state, count >= 3),
            None => if statics.cluster_mode || wired.council {
                state is Unknown
            } else {
                state is Unavailable
            },
        },
{
    answers_are_fresh_evidence_or_unknown(
        report,
        *statics,
        *wired,
        observations,
        now,
        capability,
        at,
    );
    reveal(state_of);
}

/// While a report is fresh, egress, names and the registry go by what was placed
/// and seen. Without such evidence they are unknown, but for a registry that is
/// not even wired.
pub proof fn placed_subsystems_go_by_what_was_seen(
    statics: &StaticCapabilities,
    wired: &WiredSubsystems,
    observations: CapabilityObservations,
    now: u64,
    report: ClusterCapabilities,
    capability: Capability,
    at: u64,
    state: CapabilityState,
)
    requires
        call_ensures(ClusterCapabilities::derive_at, (statics, wired, observations, now), report),
        call_ensures(ClusterCapabilities::state_at, (&report, capability, at), state),
        at < u64::MAX,
        at < now + 15_000,
    ensures
        observations.placement is None && (capability is EgressIpv4 || capability is EgressIpv6
            || capability is DnsUdp || capability is DnsTcp || capability is RegistryRedundant
            || capability is RegistrySigned) ==> state is Unknown,
        observations.placement is None && capability is Registry ==> if wired.registry {
            state is Unknown
        } else {
            state is Unavailable
        },
        observations.placement matches Some(seen) ==> {
            &&& capability is EgressIpv4 ==> says(
                state,
                seen.egress.connect_ipv4 && seen.egress.udp_ipv4 && seen.egress.pre_start,
            )
            &&& capability is EgressIpv6 ==> says(
                state,
                seen.egress.connect_ipv6 && seen.egress.udp_ipv6 && seen.egress.pre_start,
            )
            &&& capability is DnsUdp || capability is DnsTcp ==> says(
                state,
                seen.dns.can_resolve_internal,
            )
            &&& capability is Registry ==> says(
                state,
                seen.registry.ready && seen.registry.peer_reachable,
            )
            &&& capability is RegistryRedundant ==> says(
                state,
                seen.registry.ready && seen.registry.peer_reachable
                    && seen.registry.redundancy_possible && seen.registry.under_replicated_layers
                    == 0,
            )
            &&& capability is RegistrySigned ==> says(
                state,
                seen.registry.ready && seen.registry.peer_reachable
                    && statics.registry_signatures_required,
            )
        },
{
    answers_are_fresh_evidence_or_unknown(
        report,
        *statics,
        *wired,
        observations,
        now,
        capability,
        at,
    );
    reveal(state_of);
}

/// A report carries what it was derived from.
pub proof fn reports_carry_what_they_come_from(
    statics: &StaticCapabilities,
    wired: &WiredSubsystems,
    observations: CapabilityObservations,
    now: u64,
    r: ClusterCapabilities,
)
    requires
        call_ensures(ClusterCapabilities::derive_at, (statics, wired, observations, now), r),
    ensures
        r.schema_version == 3,
        r.node_id == statics.node_id && r.runtime.node_id == statics.node_id,
        r.cluster_name == statics.cluster_name,
        r.cluster_id == observations.cluster_id,
        r.readiness == observations.readiness,
        r.placement == observations.placement,
        r.build == statics.build && r.version == statics.build.version,
        r.container_runtime == statics.container_runtime && r.runtime.name
            == statics.container_runtime,
        r.runtime.version == statics.runtime_version,
        r.runtime.rootless == statics.rootless,
        r.runtime.kernel == statics.kernel,
        r.runtime.architecture == statics.architecture,
        r.environment == statics.environment,
        r.cluster <==> statics.cluster_mode || wired.council,
        r.fault_injection <==> r.cluster || statics.cgroup_faults || statics.ebpf,
        wired.member_count is None || wired.member_count->0 == 0 ==> r.node_count == 1,
        wired.member_count is Some && wired.member_count->0 > 0 ==> r.node_count
            == wired.member_count->0,
        r.metrics == wired.metrics && r.logs == wired.logs && r.rollups == wired.rollups
            && r.council == wired.council && r.registry == wired.registry && r.events
            == wired.events && r.upgrade == wired.upgrade,
        r.cgroup_faults == statics.cgroup_faults && r.ebpf == statics.ebpf && r.ingress
            == statics.ingress && r.firewall == statics.firewall && r.identity == statics.identity
            && r.process_workloads == statics.process_workloads,
        r.capabilities@.len() == 39,
        forall|i: int|
            0 <= i < 39 ==> (#[trigger] r.capabilities@[i]).observed_at_unix_ms == now
                && r.capabilities@[i].expires_at_unix_ms == r.expires_at_unix_ms
                && r.capabilities@[i].details@.len() == 1,
{
}

/// Every capability stands in a report exactly once.
pub proof fn reports_list_every_capability_once(
    statics: &StaticCapabilities,
    wired: &WiredSubsystems,
    observations: CapabilityObservations,
    now: u64,
    r: ClusterCapabilities,
    capability: Capability,
)
    requires
        call_ensures(ClusterCapabilities::derive_at, (statics, wired, observations, now), r),
    ensures
        exists|i: int|
            0 <= i < r.capabilities@.len() && (#[trigger] r.capabilities@[i]).capability
                == capability && forall|j: int|
                0 <= j < r.capabilities@.len() && j != i ==> (
                #[trigger] r.capabilities@[j]).capability != capability,
{
    every_capability_is_listed_once(r, *statics, *wired, observations, now, capability);
    assert(r.capabilities@[capability.rank()].capability == capability);
}

/// Each capability of a report says what it goes by.
pub proof fn capabilities_say_what_they_go_by(
    statics: &StaticCapabilities,
    wired: &WiredSubsystems,
    observations: CapabilityObservations,
    now: u64,
    r: ClusterCapabilities,
    i: int,
)
    requires
        call_ensures(ClusterCapabilities::derive_at, (statics, wired, observations, now), r),
        0 <= i < r.capabilities@.len(),
    ensures
        r.capabilities@[i].details@[0]@ == match r.capabilities@[i].capability {
                Capability::Cluster => if (statics.cluster_mode || wired.council) {
                    "cluster runtime is active"@
                } else {
                    "standalone mode"@
                },
                Capability::MultiNode => match wired.member_count {
                    Some(count) => "fresh membership contains "@ + decimal_text(count as nat)
                        + " node(s)"@,
                    None => "fresh membership evidence is unavailable"@,
                },
                Capability::RuntimeRunc => "selected runtime is "@ + statics.container_runtime@,
                Capability::RuntimeApple => "selected runtime is "@ + statics.container_runtime@,
                Capability::RuntimeProcessGrill => "selected runtime is "@ + statics.container_runtime@,
                Capability::ProcessRuntime => "ProcessGrill selected with an executable allowlist"@,
                Capability::ContainerRuntime => "selected runtime is "@ + statics.container_runtime@,
                Capability::Rootful => if statics.rootless {
                    "runtime is rootless"@
                } else {
                    "runtime is rootful"@
                },
                Capability::EgressIpv4 => "connect4/sendmsg4 hooks plus pre-start placement"@,
                Capability::EgressIpv6 => "connect6/sendmsg6 hooks plus pre-start placement"@,
                Capability::DnsUdp => "userspace DNS UDP and workload reachability"@,
                Capability::DnsTcp => "userspace DNS TCP and workload reachability"@,
                Capability::Metrics => "metrics store wiring"@,
                Capability::MetricsFresh => "sample freshness is not published yet"@,
                Capability::Logs => "log store wiring"@,
                Capability::LogsFresh => "log-entry freshness is not published yet"@,
                Capability::Events => "event store wiring"@,
                Capability::EventsFresh => "cluster event freshness is not published yet"@,
                Capability::Council => "council handle wiring"@,
                Capability::CouncilQuorum => "fresh Raft membership and leader evidence"@,
                Capability::Registry => "registry listener readiness and peer reachability"@,
                Capability::RegistryRedundant => match observations.placement {
                    Some(seen) => "target "@ + decimal_text(seen.registry.redundancy_target as nat)
                        + ", known nodes "@ + decimal_text(seen.registry.known_nodes as nat)
                        + ", under-replicated layers "@ + decimal_text(
                        seen.registry.under_replicated_layers as nat,
                    ),
                    None => "registry redundancy evidence is unavailable"@,
                },
                Capability::RegistrySigned => "registry reachability plus required signature policy"@,
                Capability::Ebpf => "Onion eBPF programs loaded and attached"@,
                Capability::Ingress => "Wrapper listener is bound"@,
                Capability::IngressClusterTls => "Wrapper has a cluster Ingress CA resolver"@,
                Capability::IngressExplicitTls => "Wrapper loaded an operator certificate/key pair"@,
                Capability::Firewall => "nftables perimeter enforcement"@,
                Capability::Identity => "workload identity signing material"@,
                Capability::ProcessWorkloads => "host executable allowlist is non-empty"@,
                Capability::CgroupFaults => "Linux cgroup-v2 fault primitives"@,
                Capability::FaultInjection => "at least one fault primitive can affect live state"@,
                Capability::WorkloadFaults => "per-primitive Smoker evidence is not published yet"@,
                Capability::Secrets => "secret delivery freshness is not published yet"@,
                Capability::VolumePersistent => "persistent volume semantics are not published yet"@,
                Capability::VolumeQuota => "volume quota enforcement is not published yet"@,
                Capability::NodeDrain => "primitive is not implemented"@,
                Capability::NodeKill => "primitive is not implemented"@,
                Capability::NodePressure => "primitive is not implemented"@,
        },
{
    reveal(detail_of);
    assert(r.capabilities@[i].capability.rank() == i);
}

/// Without evidence a report is derived from the wiring alone, and with some from
/// just that.
pub proof fn evidence_is_what_is_given(
    statics: &StaticCapabilities,
    wired: &WiredSubsystems,
    readiness: Option<NodeReadinessEvidence>,
    placement: Option<NodeCapabilityEvidence>,
    bare: ClusterCapabilities,
    given: ClusterCapabilities,
)
    requires
        call_ensures(ClusterCapabilities::derive, (statics, wired), bare),
        call_ensures(
            ClusterCapabilities::derive_with_evidence,
            (statics, wired, readiness, placement),
            given,
        ),
    ensures
        bare.readiness is None && bare.placement is None && bare.cluster_id is None,
        given.readiness == readiness && given.placement == placement && given.cluster_id is None,
        bare.node_id == statics.node_id && given.node_id == statics.node_id,
        bare.cluster == given.cluster && bare.node_count == given.node_count,
{
}

/// Wherever a report comes from, a fresh one says the same of the runtime, of
/// what was found at start-up and of what is wired, and holds as long.
pub proof fn reports_agree_however_derived(
    statics: &StaticCapabilities,
    wired: &WiredSubsystems,
    readiness: Option<NodeReadinessEvidence>,
    placement: Option<NodeCapabilityEvidence>,
    observations: CapabilityObservations,
    r: ClusterCapabilities,
    same: ClusterCapabilities,
    capability: Capability,
    at: u64,
    state: CapabilityState,
    expected: CapabilityState,
)
    requires
        call_ensures(ClusterCapabilities::derive, (statics, wired), r) && observations == (
        CapabilityObservations {
            readiness: None,
            placement: None,
            cluster_id: None,
            council_quorum: None,
        }) || call_ensures(
            ClusterCapabilities::derive_with_evidence,
            (statics, wired, readiness, placement),
            r,
        ) && observations == (CapabilityObservations {
            readiness,
            placement,
            cluster_id: None,
            council_quorum: None,
        }) || call_ensures(
            ClusterCapabilities::derive_with_observations,
            (statics, wired, observations),
            r,
        ),
        call_ensures(
            ClusterCapabilities::derive_at,
            (statics, wired, observations, r.observed_at_unix_ms),
            same,
        ),
        call_ensures(ClusterCapabilities::state_at, (&r, capability, at), state),
        call_ensures(ClusterCapabilities::state_at, (&same, capability, at), expected),
    ensures
        state == expected,
        r.expires_at_unix_ms == same.expires_at_unix_ms,
        r.readiness == observations.readiness && r.placement == observations.placement
            && r.cluster_id == observations.cluster_id,
{
    let observed_at = r.observed_at_unix_ms;
    answers_are_fresh_evidence_or_unknown(
        r,
        *statics,
        *wired,
        observations,
        observed_at,
        capability,
        at,
    );
    answers_are_fresh_evidence_or_unknown(
        same,
        *statics,
        *wired,
        observations,
        observed_at,
        capability,
        at,
    );
}

proof fn filtered(list: Seq<Capability>, keep: spec_fn(Capability) -> bool, c: Capability)
    ensures
        list.filter(keep).contains(c) <==> list.contains(c) && keep(c),
    decreases list.len(),
{
    reveal(Seq::filter);
    if list.len() > 0 {
        let rest = list.drop_last();
        filtered(rest, keep, c);
        let kept = rest.filter(keep);
        assert(list.contains(c) <==> rest.contains(c) || list.last() == c) by {
            if list.contains(c) {
                let i = choose|i: int| 0 <= i < list.len() && list[i] == c;
                if i < rest.len() {
                    assert(rest[i] == c);
                }
            }
            if rest.contains(c) {
                let i = choose|i: int| 0 <= i < rest.len() && rest[i] == c;
                assert(list[i] == c);
            }
        }
        let pushed = kept.push(list.last());
        assert(pushed.contains(c) <==> kept.contains(c) || list.last() == c) by {
            if kept.contains(c) {
                let i = choose|i: int| 0 <= i < kept.len() && kept[i] == c;
                assert(pushed[i] == c);
            }
            if list.last() == c {
                assert(pushed[kept.len() as int] == c);
            }
        }
    }
}

/// What is missing of what is wanted is what the report does not show to be
/// available, and nothing else.
pub proof fn missing_is_all_that_is_not_available(
    report: &ClusterCapabilities,
    wanted: &[Capability],
    at: u64,
    missing: Vec<Capability>,
    capability: Capability,
    state: CapabilityState,
)
    requires
        call_ensures(ClusterCapabilities::missing_at, (report, wanted, at), missing),
        call_ensures(ClusterCapabilities::state_at, (report, capability, at), state),
    ensures
        missing@.contains(capability) <==> wanted@.contains(capability) && !(state is Available),
{
    let r = *report;
    filtered(
        wanted@,
        |c: Capability| r.proves(c, at) != CapabilityState::Available,
        capability,
    );
}

/// A cluster is in production exactly where its environment is so called, each
/// letter in either case.
pub proof fn production_is_an_environment(report: &ClusterCapabilities, r: bool)
    requires
        call_ensures(ClusterCapabilities::is_production, (report,), r),
    ensures
        r <==> (report.environment matches Some(name) && name@.len() == 10 && forall|i: int|
            0 <= i < 10 ==> (#[trigger] name@[i] == "production"@[i] || (name@[i] as int)
                + 32 == "production"@[i] as int)),
{
    reveal_strlit("production");
    assert("production"@ =~= seq!['p', 'r', 'o', 'd', 'u', 'c', 't', 'i', 'o', 'n']);
    if report.environment is Some {
        let name = report.environment->0@;
        assert forall|i: int| 0 <= i < 10 && name.len() == 10 implies (lowered(name)[i] == lowered(
            "production"@,
        )[i] <==> (name[i] == "production"@[i] || (name[i] as int) + 32
            == "production"@[i] as int)) by {
            assert(lowered(name)[i] == ascii_lower(name[i]));
            assert(lowered("production"@)[i] == ascii_lower("production"@[i]));
        }
        if name.len() == 10 && forall|i: int|
            0 <= i < 10 ==> (#[trigger] name[i] == "production"@[i] || (name[i] as int) + 32
                == "production"@[i] as int) {
            assert(lowered(name) =~= lowered("production"@));
        }
        if lowered(name) == lowered("production"@) {
            assert(lowered(name).len() == lowered("production"@).len());
        }
    }
}

/// What a peer answered becomes evidence exactly where it is a report of this
/// schema, by the node that was asked, and not out of date; its name and address
/// are those that were asked.
pub proof fn replies_become_evidence_exactly_when_sound(
    node_id: &str,
    address: &str,
    reply: PeerReply,
    now: u64,
    r: CollectedNodeCapability,
)
    requires
        call_ensures(collect_peer_capability, (node_id, address, reply, now), r),
    ensures
        (r is Evidence) <==> (reply matches PeerReply::Report(report) && report.schema_version == 3
            && report.node_id@ == node_id@ && now < report.expires_at_unix_ms),
        r matches CollectedNodeCapability::Evidence { node_id: n, address: a, report } ==> n@
            == node_id@ && a@ == address@ && reply == PeerReply::Report(report),
        r matches CollectedNodeCapability::Unknown { node_id: n, address: a, reason } ==> n@
            == node_id@ && a@ == address@ && match reply {
            PeerReply::NoToken => reason@
                == "cluster service token unavailable; unauthenticated fallback refused"@,
            PeerReply::RequestFailed(error) => reason@ == "peer request failed: "@ + error@,
            PeerReply::DeadlineExpired => reason@ == "shared collection deadline expired"@,
            PeerReply::Refused(status) => reason@ == "peer returned HTTP "@ + status@,
            PeerReply::TooLong => reason@ == "peer response exceeded the 1 MiB limit"@,
            PeerReply::BodyFailed(error) => reason@ == "peer response failed: "@ + error@,
            PeerReply::InvalidJson(error) => reason@
                == "peer returned invalid capability JSON: "@ + error@,
            PeerReply::Report(report) => true,
        },
{
}

/// A response is read up to one mebibyte.
pub proof fn responses_are_read_up_to_a_mebibyte(
    announced: Option<u64>,
    kept: usize,
    chunk: usize,
    fits: bool,
    more: bool,
)
    requires
        call_ensures(crate::capabilities::announced_length_fits, (announced,), fits),
        call_ensures(crate::capabilities::chunk_fits, (kept, chunk), more),
    ensures
        fits <==> (announced matches Some(length) ==> length <= 1_048_576),
        more <==> kept + chunk <= 1_048_576,
{
}

proof fn filtered_members(
    list: Seq<NodeMembershipInfo>,
    keep: spec_fn(NodeMembershipInfo) -> bool,
    c: NodeMembershipInfo,
)
    ensures
        list.filter(keep).contains(c) <==> list.contains(c) && keep(c),
        list.filter(keep).len() <= list.len(),
        (forall|i: int| 0 <= i < list.len() ==> keep(#[trigger] list[i])) ==> list.filter(keep)
            == list,
    decreases list.len(),
{
    reveal(Seq::filter);
    if list.len() > 0 {
        let rest = list.drop_last();
        filtered_members(rest, keep, c);
        let kept = rest.filter(keep);
        assert(list.contains(c) <==> rest.contains(c) || list.last() == c) by {
            if list.contains(c) {
                let i = choose|i: int| 0 <= i < list.len() && list[i] == c;
                if i < rest.len() {
                    assert(rest[i] == c);
                }
            }
            if rest.contains(c) {
                let i = choose|i: int| 0 <= i < rest.len() && rest[i] == c;
                assert(list[i] == c);
            }
        }
        let pushed = kept.push(list.last());
        assert(pushed.contains(c) <==> kept.contains(c) || list.last() == c) by {
            if kept.contains(c) {
                let i = choose|i: int| 0 <= i < kept.len() && kept[i] == c;
                assert(pushed[i] == c);
            }
            if list.last() == c {
                assert(pushed[kept.len() as int] == c);
            }
        }
        if forall|i: int| 0 <= i < list.len() ==> keep(#[trigger] list[i]) {
            assert forall|i: int| 0 <= i < rest.len() implies keep(#[trigger] rest[i]) by {
                assert(keep(list[i]));
            }
            assert(keep(list[list.len() - 1]));
            assert(rest.push(list.last()) =~= list);
        }
    } else {
        assert(list.filter(keep) =~= list);
    }
}

/// All members but this node are asked, and nobody else.
pub proof fn every_other_member_is_asked(
    members: &Vec<NodeMembershipInfo>,
    self_id: &str,
    r: Vec<NodeMembershipInfo>,
    member: NodeMembershipInfo,
)
    requires
        call_ensures(peers_to_ask, (members, self_id), r),
    ensures
        r@.contains(member) <==> members@.contains(member) && member.node_id@ != self_id@,
        r@.len() <= members@.len(),
        (forall|i: int| 0 <= i < members@.len() ==> (#[trigger] members@[i]).node_id@ != self_id@)
            ==> r@ == members@,
{
    let keep = |m: NodeMembershipInfo| m.node_id@ != self_id@;
    filtered_members(members@, keep, member);
    if forall|i: int| 0 <= i < members@.len() ==> (#[trigger] members@[i]).node_id@ != self_id@ {
        assert forall|i: int| 0 <= i < members@.len() implies keep(#[trigger] members@[i]) by {
            assert(members@[i].node_id@ != self_id@);
        }
    }
}

/// A node is counted once, whether or not it is in its own list of members.
pub proof fn nodes_count_themselves_once(
    members: &Vec<NodeMembershipInfo>,
    self_id: &str,
    r: u32,
)
    requires
        call_ensures(count_members, (members, self_id), r),
        members@.len() < u32::MAX,
    ensures
        (exists|i: int| 0 <= i < members@.len() && (#[trigger] members@[i]).node_id@ == self_id@)
            ==> r == members@.len(),
        (forall|i: int| 0 <= i < members@.len() ==> (#[trigger] members@[i]).node_id@ != self_id@)
            ==> r == members@.len() + 1,
{
}

/// There is a quorum exactly where there is a leader and more than half of the
/// voters, each counted once, are this node or among the members.
pub proof fn quorum_is_a_live_majority_with_a_leader(
    council: &CouncilView,
    members: &Vec<NodeMembershipInfo>,
    self_raft_id: u64,
    r: bool,
)
    requires
        call_ensures(council_has_live_quorum, (council, members, self_raft_id), r),
    ensures
        r <==> council.leader is Some && 2 * council.voters@.to_set().filter(
            |id: u64|
                id == self_raft_id || exists|i: int|
                    0 <= i < members@.len() && (#[trigger] members@[i]).raft_id == id,
        ).len() > council.voters@.to_set().len(),
{
    let voters = council.voters@.to_set();
    vstd::seq_lib::seq_to_set_is_finite(council.voters@);
    let live = voter_ids(members@).insert(self_raft_id);
    let kept = voters.filter(
        |id: u64|
            id == self_raft_id || exists|i: int|
                0 <= i < members@.len() && (#[trigger] members@[i]).raft_id == id,
    );
    members_vote(members@);
    assert(kept =~= voters.intersect(live));
    if voters.len() == 0 {
        assert(voters.intersect(live) =~= voters) by {
            assert(voters =~= Set::<u64>::empty());
        }
    }
}

proof fn members_vote(members: Seq<NodeMembershipInfo>)
    ensures
        forall|id: u64| #[trigger]
            voter_ids(members).contains(id) <==> exists|i: int|
                0 <= i < members.len() && (#[trigger] members[i]).raft_id == id,
{
    let ids = members.map_values(|m: NodeMembershipInfo| m.raft_id);
    assert forall|id: u64| #[trigger]
        voter_ids(members).contains(id) <==> exists|i: int|
            0 <= i < members.len() && (#[trigger] members[i]).raft_id == id by {
        if voter_ids(members).contains(id) {
            assert(ids.contains(id));
            let i = choose|i: int| 0 <= i < ids.len() && ids[i] == id;
            assert(members[i].raft_id == id);
        }
        if exists|i: int| 0 <= i < members.len() && (#[trigger] members[i]).raft_id == id {
            let i = choose|i: int| 0 <= i < members.len() && (#[trigger] members[i]).raft_id == id;
            assert(ids[i] == id);
            assert(ids.contains(id));
        }
    }
}

/// The voters that are unavailable are those that no member is.
pub proof fn unavailable_voters_are_no_members(
    council: &CouncilView,
    members: &Vec<NodeMembershipInfo>,
    all: usize,
    unavailable: usize,
)
    requires
        call_ensures(count_voters, (council,), all),
        call_ensures(count_unavailable_voters, (council, members), unavailable),
    ensures
        all == council.voters@.to_set().len(),
        unavailable == council.voters@.to_set().filter(
            |id: u64|
                forall|i: int| 0 <= i < members@.len() ==> (#[trigger] members@[i]).raft_id != id,
        ).len(),
        unavailable <= all,
{
    let voters = council.voters@.to_set();
    vstd::seq_lib::seq_to_set_is_finite(council.voters@);
    members_vote(members@);
    let kept = voters.filter(
        |id: u64|
            forall|i: int| 0 <= i < members@.len() ==> (#[trigger] members@[i]).raft_id != id,
    );
    assert(kept =~= voters.difference(voter_ids(members@)));
    lemma_len_subset(kept, voters);
}

/// The report of the cluster is of this schema, and is collected within five
/// seconds.
pub proof fn clusters_are_collected_within_five_seconds(
    collected_by: &String,
    local: ClusterCapabilities,
    peers: Vec<CollectedNodeCapability>,
    started: u64,
    r: ClusterCapabilityReport,
)
    requires
        call_ensures(cluster_report, (collected_by, local, peers, started), r),
    ensures
        r.schema_version == 3,
        r.collected_by == *collected_by,
        r.observed_at_unix_ms == started,
        started + 5_000 <= u64::MAX ==> r.deadline_at_unix_ms == started + 5_000,
        started + 5_000 > u64::MAX ==> r.deadline_at_unix_ms == u64::MAX,
{
}

/// Whether a subsystem of a name is ready.
pub open spec fn ready(readiness: NodeReadinessEvidence, name: Seq<char>) -> bool {
    exists|i: int|
        0 <= i < readiness.subsystems@.len() && (#[trigger] readiness.subsystems@[i]).name@ == name
            && readiness.subsystems@[i].state is Ready
}

/// A node reports itself by the council that it has and the members that it may
/// trust: in a cluster only those of gossip that is ready, and outside one those
/// it has been given, or none.
pub proof fn nodes_report_the_members_they_may_trust(
    statics: &StaticCapabilities,
    wired: &WiredSubsystems,
    readiness: NodeReadinessEvidence,
    placement: NodeCapabilityEvidence,
    membership: Option<&Vec<NodeMembershipInfo>>,
    council: Option<&CouncilView>,
    self_raft_id: u64,
    cluster_id: Option<String>,
    now: u64,
    r: ClusterCapabilities,
    at: u64,
    many: CapabilityState,
    quorum: CapabilityState,
)
    requires
        call_ensures(
            local_capability_report,
            (
                statics,
                wired,
                readiness,
                placement,
                membership,
                council,
                self_raft_id,
                cluster_id,
                now,
            ),
            r,
        ),
        call_ensures(ClusterCapabilities::state_at, (&r, Capability::MultiNode, at), many),
        call_ensures(ClusterCapabilities::state_at, (&r, Capability::CouncilQuorum, at), quorum),
        at < u64::MAX,
        at < now + 15_000,
    ensures
        r.council <==> council is Some,
        r.cluster <==> statics.cluster_mode || council is Some,
        r.readiness == Some(readiness) && r.placement == Some(placement) && r.cluster_id
            == cluster_id,
        r.metrics == wired.metrics && r.logs == wired.logs && r.events == wired.events
            && r.registry == wired.registry && r.rollups == wired.rollups && r.upgrade
            == wired.upgrade,
        statics.cluster_mode && (membership is None || !ready(readiness, "cluster:gossip"@))
            ==> r.node_count == 1 && many is Unknown,
        !statics.cluster_mode && membership is None ==> r.node_count == 1 && many is Unavailable,
        (membership matches Some(members) && (!statics.cluster_mode || ready(
            readiness,
            "cluster:gossip"@,
        )) && members@.len() < u32::MAX && (exists|i: int|
            0 <= i < members@.len() && (#[trigger] members@[i]).node_id@ == statics.node_id@)) ==> (
        r.node_count == membership->0@.len() && says(many, membership->0@.len() >= 3)),
        (membership matches Some(members) && (!statics.cluster_mode || ready(
            readiness,
            "cluster:gossip"@,
        )) && members@.len() < u32::MAX && (forall|i: int|
            0 <= i < members@.len() ==> (#[trigger] members@[i]).node_id@ != statics.node_id@))
            ==> (r.node_count == membership->0@.len() + 1 && says(
            many,
            membership->0@.len() >= 2,
        )),
        council is None ==> quorum is Unavailable,
        council is Some && !ready(readiness, "cluster:raft-rpc"@) ==> quorum is Unknown,
        council is Some && statics.cluster_mode && (membership is None || !ready(
            readiness,
            "cluster:gossip"@,
        )) ==> quorum is Unknown,
        council is Some && ready(readiness, "cluster:raft-rpc"@) && membership is Some && (
        !statics.cluster_mode || ready(readiness, "cluster:gossip"@)) ==> says(
            quorum,
            council->0.leader is Some && 2 * council->0.voters@.to_set().intersect(
                voter_ids(membership->0@).insert(self_raft_id),
            ).len() > council->0.voters@.to_set().len(),
        ),
{
    let gossip = crate::capabilities::subsystem_ready(readiness.subsystems@, "cluster:gossip"@);
    let raft = crate::capabilities::subsystem_ready(readiness.subsystems@, "cluster:raft-rpc"@);
    assert(gossip == ready(readiness, "cluster:gossip"@));
    assert(raft == ready(readiness, "cluster:raft-rpc"@));
    let members = crate::capabilities::trusted_members(
        statics.cluster_mode,
        gossip,
        crate::membership::member_list(membership),
    );
    let found = crate::capabilities::observed_quorum(
        statics.cluster_mode,
        raft,
        crate::capabilities::council_facts(council),
        members,
        self_raft_id,
    );
    let seen = WiredSubsystems {
        council: council is Some,
        member_count: crate::capabilities::trusted_count(members, statics.node_id@),
        ..*wired
    };
    let observations = CapabilityObservations {
        readiness: Some(readiness),
        placement: Some(placement),
        cluster_id,
        council_quorum: found,
    };
    answers_are_fresh_evidence_or_unknown(
        r,
        *statics,
        seen,
        observations,
        now,
        Capability::MultiNode,
        at,
    );
    answers_are_fresh_evidence_or_unknown(
        r,
        *statics,
        seen,
        observations,
        now,
        Capability::CouncilQuorum,
        at,
    );
    reveal(state_of);
    if council is Some {
        let voters = council->0.voters@.to_set();
        vstd::seq_lib::seq_to_set_is_finite(council->0.voters@);
        if voters.len() == 0 && membership is Some {
            assert(voters =~= Set::<u64>::empty());
            assert(voters.intersect(voter_ids(membership->0@).insert(self_raft_id)) =~= voters);
        }
    }
}

/// A clock before the epoch reads zero, and one past the last number reads that.
pub proof fn clocks_are_read_within_range(since_epoch: Option<u128>, r: u64)
    requires
        call_ensures(unix_millis, (since_epoch,), r),
    ensures
        since_epoch is None ==> r == 0,
        since_epoch matches Some(millis) ==> (if millis <= u64::MAX {
            r == millis
        } else {
            r == u64::MAX
        }),
{
}

} // verus!
