//! Lists in order, names and answers.

use vstd::prelude::*;

use crate::api::agent::AgentReply;
use crate::api::leases::lease_id_of;
use crate::api::security::{answer_keypair, answer_signing, is_blank, take_csr};
use crate::api::trace::{internal_port, live_port, LiveService, TraceRequest};
use crate::batch::{
    batch_not_found, default_namespace, fail_all, local_only_capacity, BatchJobSubmission,
    JobReport, NodeCapacity,
};
use crate::capabilities::{
    cluster_report, collected_capability_node_id, identity_of_digest, is_own_entry, Capability,
    CapabilityState, ClusterCapabilities, ClusterCapabilityReport, CollectedNodeCapability,
};
use crate::codec::{hex_digit, hex_text, hex_text_length};
use crate::diagnostics::{
    check_instance_count, collect_cpu_throttle_totals, collect_disk_usage, counter_of,
    cpu_throttle_window, deltas, desired_apps, no_instance_is_lost, CpuStatSample,
    CpuThrottleEvidence, CpuThrottleTotal, DesiredApp, DesiredAppEvidence, DiagnosticSource,
    DiagnosticStoragePath, DiskUsageEvidence, MountCapacity,
};
use crate::laws::diagnostics::{is_last_total, sorted_holds};
use crate::laws::text::{goes_first, order_is_by_first_difference};
use crate::membership::{find_member, is_live_voter, is_voter, voter_ids, NodeMembershipInfo};
use crate::reply::Refusal;
use crate::services::{ServiceEntry, ServiceId};
use crate::sorting::{sort_stably, sorted, sorting_orders_and_keeps, with_item, Sortable};
use crate::text::{decimal_text, trimmed};

verus! {

/// Whether neither of two items goes before the other.
pub open spec fn rank_equal<T: Sortable>(a: T, b: T) -> bool {
    !a.goes_before(&b) && !b.goes_before(&a)
}

/// The items of a list that rank equal to one.
pub open spec fn ranked_with<T: Sortable>(list: Seq<T>, item: T) -> Seq<T> {
    list.filter(|x: T| rank_equal(x, item))
}

proof fn ranked_pushed<T: Sortable>(list: Seq<T>, last: T, item: T)
    ensures
        ranked_with(list.push(last), item) == if rank_equal(last, item) {
            ranked_with(list, item).push(last)
        } else {
            ranked_with(list, item)
        },
{
    reveal(Seq::filter);
    assert(list.push(last).drop_last() =~= list);
}

proof fn ranked_with_item<T: Sortable>(list: Seq<T>, more: T, item: T)
    ensures
        ranked_with(with_item(list, more), item) == ranked_with(list.push(more), item),
    decreases list.len(),
{
    if list.len() > 0 && more.goes_before(&list.last()) {
        let rest = list.drop_last();
        let last = list.last();
        ranked_with_item(rest, more, item);
        ranked_pushed(with_item(rest, more), last, item);
        ranked_pushed(rest, more, item);
        ranked_pushed(rest, last, item);
        assert(rest.push(last) =~= list);
        ranked_pushed(list, more, item);
        if rank_equal(more, item) && rank_equal(last, item) {
            T::order_laws(more, item, last);
        }
    }
}

proof fn ranked_sorted<T: Sortable>(list: Seq<T>, item: T)
    ensures
        ranked_with(sorted(list), item) == ranked_with(list, item),
    decreases list.len(),
{
    if list.len() > 0 {
        let rest = list.drop_last();
        ranked_sorted(rest, item);
        ranked_with_item(sorted(rest), list.last(), item);
        ranked_pushed(sorted(rest), list.last(), item);
        ranked_pushed(rest, list.last(), item);
        assert(rest.push(list.last()) =~= list);
    }
}

/// Sorting keeps every item, leaves none before one that it goes after, and
/// leaves those that rank equal in the order they had.
pub proof fn sorting_is_stable<T: Sortable>(list: Vec<T>, r: Vec<T>, item: T)
    requires
        call_ensures(sort_stably, (list,), r),
    ensures
        r@.len() == list@.len(),
        r@.to_multiset() == list@.to_multiset(),
        forall|i: int, j: int|
            0 <= i < j < r@.len() ==> !(#[trigger] r@[j].goes_before(&r@[i])),
        ranked_with(r@, item) == ranked_with(list@, item),
{
    sorting_orders_and_keeps(list@);
    ranked_sorted(list@, item);
}

/// Whether disks are in the order of their storage domains.
pub open spec fn by_domain(list: Seq<DiskUsageEvidence>) -> bool {
    forall|i: int, j: int|
        0 <= i < j < list.len() ==> !goes_first(
            (#[trigger] list[j]).storage_domain@,
            (#[trigger] list[i]).storage_domain@,
        )
}

/// Whether totals are in the order of their instances.
pub open spec fn by_instance(list: Seq<CpuThrottleTotal>) -> bool {
    forall|i: int, j: int|
        0 <= i < j < list.len() ==> !goes_first(
            (#[trigger] list[j]).instance@,
            (#[trigger] list[i]).instance@,
        )
}

/// Whether what was throttled is in the order of instances.
pub open spec fn throttled_by_instance(list: Seq<CpuThrottleEvidence>) -> bool {
    forall|i: int, j: int|
        0 <= i < j < list.len() ==> !goes_first(
            (#[trigger] list[j]).instance@,
            (#[trigger] list[i]).instance@,
        )
}

/// Disks are told of in the order of their storage domains, and totals and what was
/// throttled in the order of their instances.
pub proof fn diagnostics_are_in_order(
    storage: &Vec<DiagnosticStoragePath>,
    mounts: &Vec<MountCapacity>,
    observed_at: u64,
    disks: DiagnosticSource<Vec<DiskUsageEvidence>>,
    samples: Vec<CpuStatSample>,
    totals: DiagnosticSource<Vec<CpuThrottleTotal>>,
    first: DiagnosticSource<Vec<CpuThrottleTotal>>,
    second: DiagnosticSource<Vec<CpuThrottleTotal>>,
    window_seconds: u64,
    throttled: DiagnosticSource<Vec<CpuThrottleEvidence>>,
)
    requires
        call_ensures(collect_disk_usage, (storage, mounts, observed_at), disks),
        call_ensures(collect_cpu_throttle_totals, (samples, observed_at), totals),
        call_ensures(cpu_throttle_window, (first, second, window_seconds, observed_at), throttled),
    ensures
        disks matches DiagnosticSource::Available { value, .. } ==> by_domain(value@),
        disks matches DiagnosticSource::Degraded { value, .. } ==> by_domain(value@),
        totals matches DiagnosticSource::Available { value, .. } ==> by_instance(value@),
        totals matches DiagnosticSource::Degraded { value, .. } ==> by_instance(value@),
        throttled matches DiagnosticSource::Available { value, .. } ==> throttled_by_instance(
            value@,
        ),
        throttled matches DiagnosticSource::Degraded { value, .. } ==> throttled_by_instance(
            value@,
        ),
{
    disks_in_order(crate::diagnostics::usage_of(storage@, mounts@).0);
    totals_in_order(crate::diagnostics::totals_of(samples@).0);
    let a = crate::diagnostics::listed(first@);
    let b = crate::diagnostics::listed(second@);
    if a.usable() is Some && b.usable() is Some {
        throttled_in_order(
            deltas(
                a.usable()->0,
                b.usable()->0,
                a.complaints() + b.complaints(),
                window_seconds,
            ).0,
        );
    }
}

proof fn disks_in_order(list: Seq<DiskUsageEvidence>)
    ensures
        by_domain(sorted(list)),
{
    let all = sorted(list);
    sorting_orders_and_keeps(list);
    assert forall|i: int, j: int| 0 <= i < j < all.len() implies !goes_first(
        (#[trigger] all[j]).storage_domain@,
        (#[trigger] all[i]).storage_domain@,
    ) by {
        assert(!all[j].goes_before(&all[i]));
        order_is_by_first_difference(all[j].storage_domain@, all[i].storage_domain@);
    }
}

proof fn totals_in_order(list: Seq<CpuThrottleTotal>)
    ensures
        by_instance(sorted(list)),
{
    let all = sorted(list);
    sorting_orders_and_keeps(list);
    assert forall|i: int, j: int| 0 <= i < j < all.len() implies !goes_first(
        (#[trigger] all[j]).instance@,
        (#[trigger] all[i]).instance@,
    ) by {
        assert(!all[j].goes_before(&all[i]));
        order_is_by_first_difference(all[j].instance@, all[i].instance@);
    }
}

proof fn throttled_in_order(list: Seq<CpuThrottleEvidence>)
    ensures
        throttled_by_instance(sorted(list)),
{
    let all = sorted(list);
    sorting_orders_and_keeps(list);
    assert forall|i: int, j: int| 0 <= i < j < all.len() implies !goes_first(
        (#[trigger] all[j]).instance@,
        (#[trigger] all[i]).instance@,
    ) by {
        assert(!all[j].goes_before(&all[i]));
        order_is_by_first_difference(all[j].instance@, all[i].instance@);
    }
}

/// Applications are told of in the order of their namespaces, and of their names
/// within one.
pub proof fn applications_are_in_order(
    apps: &Vec<DesiredApp>,
    members: Option<usize>,
    r: Vec<DesiredAppEvidence>,
    i: int,
    j: int,
)
    requires
        call_ensures(desired_apps, (apps, members), r),
        0 <= i < j < r@.len(),
    ensures
        !goes_first(r@[j].namespace@, r@[i].namespace@),
        r@[j].namespace@ == r@[i].namespace@ ==> !goes_first(r@[j].app@, r@[i].app@),
{
    let live = if members is Some && members->0 > 1 {
        members->0
    } else {
        1usize
    };
    sorting_orders_and_keeps(crate::diagnostics::desired_list(apps@, live));
    assert(!r@[j].goes_before(&r@[i]));
    order_is_by_first_difference(r@[j].namespace@, r@[i].namespace@);
    order_is_by_first_difference(r@[j].app@, r@[i].app@);
}

/// The node that an entry of a report is about.
pub open spec fn node_of(entry: CollectedNodeCapability) -> Seq<char> {
    match entry {
        CollectedNodeCapability::Evidence { node_id, .. } => node_id@,
        CollectedNodeCapability::Unknown { node_id, .. } => node_id@,
    }
}

/// The report of the cluster holds this node's own report and every peer's entry,
/// in the order of their nodes.
pub proof fn reports_hold_every_node(
    collected_by: &String,
    local: ClusterCapabilities,
    peers: Vec<CollectedNodeCapability>,
    started: u64,
    r: ClusterCapabilityReport,
    peer: CollectedNodeCapability,
    entry: &CollectedNodeCapability,
    name: &str,
)
    requires
        call_ensures(cluster_report, (collected_by, local, peers, started), r),
        call_ensures(collected_capability_node_id, (entry,), name),
    ensures
        r.nodes@.len() == peers@.len() + 1,
        peers@.contains(peer) ==> r.nodes@.contains(peer),
        exists|i: int| 0 <= i < r.nodes@.len() && is_report_of(#[trigger] r.nodes@[i], local),
        forall|i: int, j: int|
            0 <= i < j < r.nodes@.len() ==> !goes_first(
                node_of(#[trigger] r.nodes@[j]),
                node_of(#[trigger] r.nodes@[i]),
            ),
        name@ == node_of(*entry),
{
    let own = choose|own: CollectedNodeCapability|
        is_own_entry(own, local) && r.nodes@ == sorted(seq![own] + peers@);
    let list = seq![own] + peers@;
    sorting_orders_and_keeps(list);
    sorted_holds(list, own);
    sorted_holds(list, peer);
    assert(list[0] == own);
    assert(list.contains(own));
    let k = choose|k: int| 0 <= k < r.nodes@.len() && r.nodes@[k] == own;
    assert(is_report_of(r.nodes@[k], local));
    if peers@.contains(peer) {
        let i = choose|i: int| 0 <= i < peers@.len() && peers@[i] == peer;
        assert(list[i + 1] == peer);
    }
    assert forall|i: int, j: int| 0 <= i < j < r.nodes@.len() implies !goes_first(
        node_of(#[trigger] r.nodes@[j]),
        node_of(#[trigger] r.nodes@[i]),
    ) by {
        assert(!r.nodes@[j].goes_before(&r.nodes@[i]));
        order_is_by_first_difference(node_of(r.nodes@[j]), node_of(r.nodes@[i]));
    }
}

/// Whether an entry is this node's report about itself.
pub open spec fn is_report_of(entry: CollectedNodeCapability, local: ClusterCapabilities) -> bool {
    match entry {
        CollectedNodeCapability::Evidence { node_id, address, report } => node_id@
            == local.node_id@ && address@ == "local"@ && *report == local,
        _ => false,
    }
}

proof fn appeared_is_told(
    first: Seq<CpuThrottleTotal>,
    second: Seq<CpuThrottleTotal>,
    errors: Seq<Seq<char>>,
    window_seconds: u64,
    i: int,
)
    requires
        0 <= i < second.len(),
        counter_of(first, second[i].instance@) is None || second[i].throttled_microseconds
            < counter_of(first, second[i].instance@)->0,
    ensures
        deltas(first, second, errors, window_seconds).1.len() > 0,
    decreases second.len(),
{
    if i < second.len() - 1 {
        assert(second.drop_last()[i] == second[i]);
        appeared_is_told(first, second.drop_last(), errors, window_seconds, i);
    }
}

proof fn not_counted(totals: Seq<CpuThrottleTotal>, instance: Seq<char>)
    requires
        forall|j: int| 0 <= j < totals.len() ==> (#[trigger] totals[j]).instance@ != instance,
    ensures
        counter_of(totals, instance) is None,
    decreases totals.len(),
{
    if totals.len() > 0 {
        let rest = totals.drop_last();
        assert(totals[totals.len() - 1].instance@ != instance);
        assert forall|j: int| 0 <= j < rest.len() implies (#[trigger] rest[j]).instance@
            != instance by {
            assert(rest[j] == totals[j]);
        }
        not_counted(rest, instance);
    }
}

proof fn deltas_are_of_the_second(
    first: Seq<CpuThrottleTotal>,
    second: Seq<CpuThrottleTotal>,
    errors: Seq<Seq<char>>,
    window_seconds: u64,
    instance: Seq<char>,
)
    requires
        forall|j: int| 0 <= j < second.len() ==> (#[trigger] second[j]).instance@ != instance,
    ensures
        !crate::diagnostics::has_delta(
            deltas(first, second, errors, window_seconds).0,
            instance,
        ),
    decreases second.len(),
{
    if second.len() > 0 {
        let rest = second.drop_last();
        assert(second[second.len() - 1].instance@ != instance);
        assert forall|j: int| 0 <= j < rest.len() implies (#[trigger] rest[j]).instance@
            != instance by {
            assert(rest[j] == second[j]);
        }
        deltas_are_of_the_second(first, rest, errors, window_seconds, instance);
        let before = deltas(first, rest, errors, window_seconds).0;
        let values = deltas(first, second, errors, window_seconds).0;
        assert forall|k: int| 0 <= k < values.len() implies (#[trigger] values[k]).instance@
            != instance by {
            if k < before.len() {
                assert(values[k] == before[k]);
            }
        }
    }
}

/// A window in which an instance appeared or disappeared, or in which its counter
/// fell, is not wholly available, if no instance is listed twice at its end.
pub proof fn broken_windows_are_not_available(
    first: DiagnosticSource<Vec<CpuThrottleTotal>>,
    second: DiagnosticSource<Vec<CpuThrottleTotal>>,
    window_seconds: u64,
    observed_at: u64,
    r: DiagnosticSource<Vec<CpuThrottleEvidence>>,
    before: Vec<CpuThrottleTotal>,
    after: Vec<CpuThrottleTotal>,
    i: int,
    at: int,
)
    requires
        call_ensures(cpu_throttle_window, (first, second, window_seconds, observed_at), r),
        first matches DiagnosticSource::Available { value, .. } && value == before,
        second matches DiagnosticSource::Available { value, .. } && value == after,
    ensures
        0 <= i < after@.len() && (forall|j: int|
            0 <= j < before@.len() ==> (#[trigger] before@[j]).instance@ != after@[i].instance@)
            ==> !(r is Available),
        0 <= i < before@.len() && (forall|j: int, k: int|
            0 <= j < k < after@.len() ==> (#[trigger] after@[j]).instance@ != (
            #[trigger] after@[k]).instance@) && (forall|j: int|
            0 <= j < after@.len() ==> (#[trigger] after@[j]).instance@ != before@[i].instance@)
            ==> !(r is Available),
        0 <= i < after@.len() && is_last_total(before@, at, after@[i].instance@)
            && after@[i].throttled_microseconds < before@[at].throttled_microseconds ==> !(
        r is Available),
{
    let none = Seq::<Seq<char>>::empty() + Seq::<Seq<char>>::empty();
    let names = crate::diagnostics::instance_names(before@);
    let (values, errors) = deltas(before@, after@, none, window_seconds);
    more_disappeared(names, values, errors);
    if 0 <= i < after@.len() {
        if forall|j: int|
            0 <= j < before@.len() ==> (#[trigger] before@[j]).instance@ != after@[i].instance@ {
            not_counted(before@, after@[i].instance@);
            appeared_is_told(before@, after@, none, window_seconds, i);
        }
        if is_last_total(before@, at, after@[i].instance@) && after@[i].throttled_microseconds
            < before@[at].throttled_microseconds {
            crate::laws::diagnostics::counter_is_last(before@, after@[i].instance@, at);
            appeared_is_told(before@, after@, none, window_seconds, i);
        }
    }
    if 0 <= i < before@.len() {
        if forall|j: int|
            0 <= j < after@.len() ==> (#[trigger] after@[j]).instance@ != before@[i].instance@ {
            deltas_are_of_the_second(before@, after@, none, window_seconds, before@[i].instance@);
            if crate::diagnostics::distinct_instances(after@) {
                no_instance_is_lost(before@, after@, none, window_seconds, i);
            }
        }
    }
}

proof fn more_disappeared(
    names: Seq<Seq<char>>,
    values: Seq<CpuThrottleEvidence>,
    errors: Seq<Seq<char>>,
)
    ensures
        crate::diagnostics::with_disappeared(names, values, errors).len() >= errors.len(),
    decreases names.len(),
{
    if names.len() > 0 {
        more_disappeared(names.drop_last(), values, errors);
    }
}

/// The digit of a number below sixteen is a numeral up to nine, and then a small
/// letter from `a` on.
pub open spec fn is_digit_of(c: char, n: int) -> bool {
    (0 <= n < 10 && c as int == '0' as int + n) || (10 <= n < 16 && c as int == 'a' as int + n
        - 10)
}

proof fn hex_digits_by_value(n: int)
    requires
        0 <= n < 16,
    ensures
        is_digit_of(hex_digit(n), n),
{
    reveal_strlit("0123456789abcdef");
}

proof fn hex_digits_of(bytes: Seq<u8>)
    ensures
        hex_text(bytes).len() == 2 * bytes.len(),
        forall|i: int|
            0 <= i < bytes.len() ==> is_digit_of(
                hex_text(bytes)[2 * i],
                (#[trigger] bytes[i]) as int / 16,
            ) && is_digit_of(hex_text(bytes)[2 * i + 1], bytes[i] as int % 16),
    decreases bytes.len(),
{
    hex_text_length(bytes);
    if bytes.len() > 0 {
        let rest = bytes.drop_last();
        let end = bytes.len() - 1;
        hex_digits_of(rest);
        let before = hex_text(rest);
        let all = hex_text(bytes);
        hex_digits_by_value(bytes[end] as int / 16);
        hex_digits_by_value(bytes[end] as int % 16);
        assert forall|i: int| 0 <= i < bytes.len() implies is_digit_of(
            all[2 * i],
            (#[trigger] bytes[i]) as int / 16,
        ) && is_digit_of(all[2 * i + 1], bytes[i] as int % 16) by {
            if i < end {
                assert(rest[i] == bytes[i]);
                assert(all[2 * i] == before[2 * i]);
                assert(all[2 * i + 1] == before[2 * i + 1]);
            }
        }
    }
}

/// A lease is called by its bytes, and a cluster by its digest, each byte as the
/// digit of its high half and then that of its low one.
pub proof fn identifiers_are_bytes_in_hexadecimal(
    bytes: &[u8; 16],
    r: String,
    digest: &Vec<u8>,
    identity: String,
    i: int,
)
    requires
        call_ensures(lease_id_of, (bytes,), r),
        call_ensures(identity_of_digest, (digest,), identity),
    ensures
        r@.len() == 32,
        0 <= i < 16 ==> is_digit_of(r@[2 * i], bytes@[i] as int / 16) && is_digit_of(
            r@[2 * i + 1],
            bytes@[i] as int % 16,
        ),
        identity@.len() == 7 + 2 * digest@.len(),
        identity@.take(7) == "sha256:"@,
        0 <= i < digest@.len() ==> is_digit_of(identity@[7 + 2 * i], digest@[i] as int / 16)
            && is_digit_of(identity@[8 + 2 * i], digest@[i] as int % 16),
{
    reveal_strlit("sha256:");
    hex_digits_of(bytes@);
    hex_digits_of(digest@);
    assert(identity@.take(7) =~= "sha256:"@);
    if 0 <= i < digest@.len() {
        assert(identity@[7 + 2 * i] == hex_text(digest@)[2 * i]);
        assert(identity@[8 + 2 * i] == hex_text(digest@)[2 * i + 1]);
    }
}

proof fn first_live(services: Seq<LiveService>, name: Seq<char>, namespace: Seq<char>)
    ensures
        live_port(services, name, namespace) is None ==> forall|i: int|
            0 <= i < services.len() ==> !((#[trigger] services[i]).app_name@ == name
                && services[i].namespace@ == namespace),
        live_port(services, name, namespace) matches Some(port) ==> exists|i: int|
            0 <= i < services.len() && (#[trigger] services[i]).app_name@ == name
                && services[i].namespace@ == namespace && services[i].port == port && forall|j: int|
                0 <= j < i ==> !((#[trigger] services[j]).app_name@ == name
                    && services[j].namespace@ == namespace),
    decreases services.len(),
{
    if services.len() > 0 {
        if services[0].app_name@ == name && services[0].namespace@ == namespace {
        } else {
            let rest = services.skip(1);
            first_live(rest, name, namespace);
            assert forall|j: int| 0 < j < services.len() implies #[trigger] services[j] == rest[j
                - 1] by {}
            if live_port(rest, name, namespace) is Some {
                let i = choose|i: int|
                    0 <= i < rest.len() && (#[trigger] rest[i]).app_name@ == name
                        && rest[i].namespace@ == namespace && rest[i].port == live_port(
                        rest,
                        name,
                        namespace,
                    )->0 && forall|j: int|
                        0 <= j < i ==> !((#[trigger] rest[j]).app_name@ == name
                            && rest[j].namespace@ == namespace);
                assert(services[i + 1] == rest[i]);
            }
        }
    }
}

/// A trace goes to the port that is asked for, or to that of the first live service
/// of its destination; without such a service there is none.
pub proof fn traces_go_to_live_services(
    request: &TraceRequest,
    services: &Vec<LiveService>,
    r: Result<u16, Refusal>,
)
    requires
        call_ensures(internal_port, (request, services), r),
    ensures
        r is Ok <==> exists|i: int|
            0 <= i < services@.len() && (#[trigger] services@[i]).app_name@
                == request.destination@ && services@[i].namespace@
                == request.destination_namespace@,
        r matches Err(e) ==> e.status is NotFound,
        r matches Ok(port) ==> (request.port matches Some(asked) ==> port == asked) && (
        request.port is None ==> exists|i: int|
            0 <= i < services@.len() && (#[trigger] services@[i]).app_name@
                == request.destination@ && services@[i].namespace@
                == request.destination_namespace@ && services@[i].port == port && forall|j: int|
                0 <= j < i ==> !((#[trigger] services@[j]).app_name@ == request.destination@
                    && services@[j].namespace@ == request.destination_namespace@)),
{
    first_live(services@, request.destination@, request.destination_namespace@);
}

/// What was made is answered, and what was not is the fault of the server; a request
/// to sign that cannot be read is the caller's.
pub proof fn faults_are_laid_where_they_belong<T>(
    made: Result<T, String>,
    r: Result<T, Refusal>,
    reply: AgentReply<String>,
    signed: Result<String, Refusal>,
    decoded: Result<Vec<u8>, String>,
    csr: Result<Vec<u8>, Refusal>,
    body: &str,
    blank: bool,
)
    requires
        call_ensures(answer_keypair::<T>, (made,), r),
        call_ensures(answer_signing, (reply,), signed),
        call_ensures(take_csr, (decoded,), csr),
        call_ensures(is_blank, (body,), blank),
    ensures
        made matches Ok(pair) ==> r == Ok::<T, Refusal>(pair),
        made matches Err(error) ==> (r matches Err(e) && e.status is InternalServerError && e.error@
            == "keypair generation failed: "@ + error@),
        reply matches AgentReply::Done(message) ==> signed == Ok::<String, Refusal>(message),
        !(reply is Done) ==> (signed matches Err(e) && e.status is InternalServerError),
        reply matches AgentReply::Failed(error) ==> signed->Err_0.error@ == error@,
        decoded matches Ok(der) ==> csr == Ok::<Vec<u8>, Refusal>(der),
        decoded matches Err(why) ==> (csr matches Err(e) && e.status is BadRequest && e.error@
            == "invalid CSR: "@ + why@),
        blank <==> trimmed(body@).len() == 0,
{
}

/// Jobs that all fail are each reported so; a node alone has room for anything but
/// accelerators; a batch that is unknown is not found.
pub proof fn batches_alone_and_unknown(
    jobs: &Vec<BatchJobSubmission>,
    r: Vec<JobReport>,
    node_name: &str,
    capacity: Vec<NodeCapacity>,
    batch_id: u64,
    refusal: Refusal,
    namespace: String,
)
    requires
        call_ensures(fail_all, (jobs,), r),
        call_ensures(local_only_capacity, (node_name,), capacity),
        call_ensures(batch_not_found, (batch_id,), refusal),
        call_ensures(default_namespace, (), namespace),
    ensures
        r@.len() == jobs@.len(),
        forall|i: int|
            0 <= i < r@.len() ==> (#[trigger] r@[i]).job_name == jobs@[i].name && !r@[i].completed,
        capacity@.len() == 1 && capacity@[0].node_id@ == node_name@ && capacity@[0].address@
            == "127.0.0.1:0"@ && capacity@[0].total.gpus == 0
            && capacity@[0].total.cpu_millicores == 0x7fff_ffff_ffff_ffff
            && capacity@[0].total.memory_bytes == 0x7fff_ffff_ffff_ffff,
        capacity@[0].reserved.cpu_millicores == 0 && capacity@[0].reserved.memory_bytes == 0
            && capacity@[0].allocated.cpu_millicores == 0 && capacity@[0].allocated.memory_bytes
            == 0,
        refusal.status is NotFound && refusal.error@ == "batch "@ + decimal_text(batch_id as nat)
            + " not found"@,
        namespace@ == "default"@,
{
}

/// A member is found exactly where one has its name, and a voter where one has its
/// number.
pub proof fn members_and_voters_are_found(
    members: &Vec<NodeMembershipInfo>,
    name: &str,
    r: Option<usize>,
    id: u64,
    live: bool,
    voters: &Vec<u64>,
    votes: bool,
)
    requires
        call_ensures(find_member, (members, name), r),
        call_ensures(is_live_voter, (members, id), live),
        call_ensures(is_voter, (voters, id), votes),
    ensures
        r is Some <==> exists|i: int|
            0 <= i < members@.len() && (#[trigger] members@[i]).node_id@ == name@,
        r matches Some(at) ==> at < members@.len() && members@[at as int].node_id@ == name@,
        live <==> exists|i: int| 0 <= i < members@.len() && (#[trigger] members@[i]).raft_id == id,
        votes <==> exists|i: int| 0 <= i < voters@.len() && (#[trigger] voters@[i]) == id,
{
    let ids = members@.map_values(|m: NodeMembershipInfo| m.raft_id);
    assert(voter_ids(members@) == ids.to_set());
    if ids.contains(id) {
        let i = choose|i: int| 0 <= i < ids.len() && ids[i] == id;
        assert(members@[i].raft_id == id);
    }
    if exists|i: int| 0 <= i < members@.len() && (#[trigger] members@[i]).raft_id == id {
        let i = choose|i: int| 0 <= i < members@.len() && (#[trigger] members@[i]).raft_id == id;
        assert(ids[i] == id);
    }
}

/// A service is called by its namespace and its name, and an entry is of the service
/// of both.
pub proof fn services_go_by_namespace_and_name(
    id: &ServiceId,
    r: String,
    entry: &ServiceEntry,
    namespace: &str,
    name: &str,
    is: bool,
    instance: &str,
    serves: bool,
)
    requires
        call_ensures(ServiceId::qualified, (id,), r),
        call_ensures(ServiceEntry::is_service, (entry, namespace, name), is),
        call_ensures(ServiceEntry::serves_from, (entry, instance), serves),
    ensures
        r@ == id.namespace@ + seq!['_', '_'] + id.name@,
        is <==> entry.namespace@ == namespace@ && entry.app_name@ == name@,
        serves <==> exists|i: int|
            0 <= i < entry.backends@.len() && (#[trigger] entry.backends@[i]).instance_id@
                == instance@,
{
    reveal_strlit("__");
    assert("__"@ =~= seq!['_', '_']);
    let all = entry@.backends;
    if serves {
        let i = choose|i: int| 0 <= i < all.len() && (#[trigger] all[i]).instance_id == instance@;
        assert(entry.backends@[i].instance_id@ == instance@);
    }
    if exists|i: int|
        0 <= i < entry.backends@.len() && (#[trigger] entry.backends@[i]).instance_id@
            == instance@ {
        let i = choose|i: int|
            0 <= i < entry.backends@.len() && (#[trigger] entry.backends@[i]).instance_id@
                == instance@;
        assert(all[i].instance_id == instance@);
    }
}

/// Totals are refused of more than 4096 instances; what is available or degraded can
/// be used, and nothing else.
pub proof fn sources_are_used_where_they_hold_something<T>(
    count: usize,
    r: Option<DiagnosticSource<Vec<CpuThrottleTotal>>>,
    source: &DiagnosticSource<T>,
    used: Option<&T>,
)
    requires
        call_ensures(check_instance_count, (count,), r),
        call_ensures(DiagnosticSource::<T>::value, (source,), used),
    ensures
        r is Some <==> count > 4096,
        r matches Some(refused) ==> refused is Unavailable,
        used is Some <==> source is Available || source is Degraded,
        *source matches DiagnosticSource::Available { value, .. } ==> used == Some(&value),
        *source matches DiagnosticSource::Degraded { value, .. } ==> used == Some(&value),
{
}

/// What a report shows now is what it shows at some time: nothing that has expired,
/// and else what it lists first of a capability.
pub proof fn reports_show_what_they_list_until_they_expire(
    report: &ClusterCapabilities,
    capability: Capability,
    state: CapabilityState,
    has: bool,
    i: int,
)
    requires
        call_ensures(ClusterCapabilities::state, (report, capability), state),
        call_ensures(ClusterCapabilities::has, (report, capability), has),
        0 <= i < report.capabilities@.len(),
        report.capabilities@[i].capability == capability,
        forall|j: int|
            0 <= j < i ==> (#[trigger] report.capabilities@[j]).capability != capability,
    ensures
        state is Unknown || state == report.capabilities@[i].state,
        has ==> report.capabilities@[i].state is Available,
{
    first_listed(report.capabilities@, capability, i);
}

/// A report shows what it lists first of a capability until the instant it expires,
/// and nothing from then on; what it does not list is unknown.
pub proof fn reports_expire_at_their_instant(
    report: &ClusterCapabilities,
    capability: Capability,
    at: u64,
    state: CapabilityState,
    i: int,
)
    requires
        call_ensures(ClusterCapabilities::state_at, (report, capability, at), state),
    ensures
        report.expires_at_unix_ms <= at ==> state is Unknown,
        at < report.expires_at_unix_ms && 0 <= i < report.capabilities@.len()
            && report.capabilities@[i].capability == capability && (forall|j: int|
            0 <= j < i ==> (#[trigger] report.capabilities@[j]).capability != capability) ==> state
            == report.capabilities@[i].state,
        (forall|j: int|
            0 <= j < report.capabilities@.len() ==> (#[trigger] report.capabilities@[j]).capability
                != capability) ==> state is Unknown,
{
    let list = report.capabilities@;
    if 0 <= i < list.len() && list[i].capability == capability && (forall|j: int|
        0 <= j < i ==> (#[trigger] list[j]).capability != capability) {
        first_listed(list, capability, i);
    }
    if forall|j: int| 0 <= j < list.len() ==> (#[trigger] list[j]).capability != capability {
        not_listed(list, capability);
    }
}

proof fn not_listed(
    list: Seq<crate::capabilities::CapabilityEvidence>,
    capability: Capability,
)
    requires
        forall|j: int| 0 <= j < list.len() ==> (#[trigger] list[j]).capability != capability,
    ensures
        crate::capabilities::listed_state(list, capability) is Unknown,
    decreases list.len(),
{
    if list.len() > 0 {
        let rest = list.skip(1);
        assert(list[0].capability != capability);
        assert forall|j: int| 0 <= j < rest.len() implies (#[trigger] rest[j]).capability
            != capability by {
            assert(rest[j] == list[j + 1]);
        }
        not_listed(rest, capability);
    }
}

proof fn first_listed(
    list: Seq<crate::capabilities::CapabilityEvidence>,
    capability: Capability,
    i: int,
)
    requires
        0 <= i < list.len(),
        list[i].capability == capability,
        forall|j: int| 0 <= j < i ==> (#[trigger] list[j]).capability != capability,
    ensures
        crate::capabilities::listed_state(list, capability) == list[i].state,
    decreases list.len(),
{
    if i > 0 {
        let rest = list.skip(1);
        assert(list[0].capability != capability);
        assert forall|j: int| 0 <= j < i - 1 implies (#[trigger] rest[j]).capability
            != capability by {
            assert(rest[j] == list[j + 1]);
        }
        first_listed(rest, capability, i - 1);
    }
}

} // verus!
