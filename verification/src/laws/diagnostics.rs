//! What diagnostics say of what was observed.

use vstd::prelude::*;

use crate::access::AuthContext;
use crate::codec::CertificateFacts;
use crate::diagnostics::{
    collect_cpu_throttle_totals, collect_disk_usage, components, counter_of, counter_so_far,
    cpu_throttle_window, deltas, desired_apps, desired_list, desired_replica_count,
    every_domain_is_accounted_for, filter_desired_apps_for_scope, finish_collection, holding_mount,
    instances_to_sample, lies_under, local_snapshot, metadata_of_certificate, named_pieces,
    parse_throttled_microseconds, throttling_counter, total_of, totals_of, usage_of, window_width,
    CpuStatError, CpuStatRead, CpuStatSample, CpuThrottleEvidence, CpuThrottleTotal, DesiredApp,
    DesiredAppEvidence, DiagnosticSource, DiagnosticStoragePath, DiskUsageEvidence,
    LocalDiagnosticSnapshot, MountCapacity, PublicCertificateMetadata, Replicas,
};
use crate::instances::InstanceStatus;
use crate::laws::access::{admits, touching_is_by_scope};
use crate::laws::gpu::reads_as;
use crate::laws::text::digits_are_unsigned;
use crate::sorting::{sorted, sorting_orders_and_keeps, Sortable};
use crate::text::{digits_value, joined, pieces, pieces_of_joined, strings, unsigned_digits, words};

verus! {

/// A collection without errors is available, whatever it holds; with errors it is
/// degraded, or unavailable where it holds nothing, and says them all.
pub proof fn collections_say_their_errors<T>(
    values: Vec<T>,
    errors: Vec<String>,
    observed_at: u64,
    r: DiagnosticSource<Vec<T>>,
)
    requires
        call_ensures(finish_collection, (values, errors, observed_at), r),
    ensures
        (r is Available) <==> errors@.len() == 0,
        (r is Unavailable) <==> errors@.len() > 0 && values@.len() == 0,
        (r is Degraded) <==> errors@.len() > 0 && values@.len() > 0,
        r matches DiagnosticSource::Available { observed_at: at, value } ==> at == observed_at
            && value@ == values@,
        r matches DiagnosticSource::Degraded { observed_at: at, value, reason } ==> at
            == observed_at && value@ == values@ && reason@ == joined(strings(errors@), "; "@),
        r matches DiagnosticSource::Unavailable { reason } ==> reason@ == joined(
            strings(errors@),
            "; "@,
        ),
{
    assert(strings(errors@).len() == errors@.len());
}

/// What a source holds can be had of it where it is available or degraded, and its
/// reason where it is not available.
pub proof fn sources_are_parted<T>(
    source: DiagnosticSource<T>,
    r: (Option<T>, Vec<String>, Option<u64>),
)
    requires
        call_ensures(DiagnosticSource::<T>::into_parts, (source,), r),
    ensures
        match source {
            DiagnosticSource::Available { observed_at, value } => r.0 == Some(value) && r.1@.len()
                == 0 && r.2 == Some(observed_at),
            DiagnosticSource::Degraded { observed_at, value, reason } => r.0 == Some(value)
                && r.1@.len() == 1 && r.1@[0]@ == reason@ && r.2 == Some(observed_at),
            DiagnosticSource::Unavailable { reason } => r.0 is None && r.1@.len() == 1 && r.1@[0]@
                == reason@ && r.2 is None,
            DiagnosticSource::Unsupported { reason } => r.0 is None && r.1@.len() == 1 && r.1@[0]@
                == reason@ && r.2 is None,
        },
{
    let told = strings(r.1@);
    assert(told.len() == r.1@.len());
    if r.1@.len() == 1 {
        assert(told[0] == r.1@[0]@);
    }
}

/// A fixed number of replicas is wanted as it is; one for each live node, and one
/// at least, of what runs on all.
pub proof fn replicas_are_fixed_or_one_for_each_node(
    replicas: Replicas,
    live_nodes: usize,
    r: u32,
)
    requires
        call_ensures(desired_replica_count, (replicas, live_nodes), r),
    ensures
        replicas matches Replicas::Fixed(count) ==> r == count,
        replicas is DaemonSet && 1 <= live_nodes <= u32::MAX ==> r == live_nodes,
        replicas is DaemonSet && live_nodes == 0 ==> r == 1,
        replicas is DaemonSet && live_nodes > u32::MAX ==> r == u32::MAX,
{
}

/// Whether a line of a text counts throttling.
pub open spec fn counts(lines: Seq<Seq<char>>, i: int) -> bool {
    0 <= i < lines.len() && words(lines[i]).len() > 0 && words(lines[i])[0] == "throttled_usec"@
}

/// Whether a line is the only one that counts.
pub open spec fn counts_alone(lines: Seq<Seq<char>>, i: int) -> bool {
    counts(lines, i) && forall|j: int| #[trigger] counts(lines, j) ==> j == i
}

/// Whether a line counts a number.
pub open spec fn counts_number(lines: Seq<Seq<char>>, i: int, n: u64) -> bool {
    counts(lines, i) && words(lines[i]).len() == 2 && reads_as(words(lines[i])[1], n as nat)
}

/// Whether a number is counted, by one line alone.
pub open spec fn is_count(lines: Seq<Seq<char>>, n: u64) -> bool {
    exists|i: int| #[trigger] counts_alone(lines, i) && #[trigger] counts_number(lines, i, n)
}

proof fn reads_as_value(s: Seq<char>, n: u64)
    ensures
        reads_as(s, n as nat) <==> crate::text::is_unsigned(s, u64::MAX as nat) && digits_value(
            unsigned_digits(s),
        ) == n,
{
    digits_are_unsigned(s, u64::MAX as nat);
}

proof fn counters(lines: Seq<Seq<char>>)
    ensures
        counter_so_far(lines) == Ok::<Option<u64>, CpuStatError>(None) <==> forall|i: int|
            !#[trigger] counts(lines, i),
        forall|n: u64|
            counter_so_far(lines) == Ok::<Option<u64>, CpuStatError>(Some(n)) <==> #[trigger] is_count(lines, n),
        forall|i: int| #[trigger]
            counts_alone(lines, i) ==> {
                &&& words(lines[i]).len() == 1 ==> counter_so_far(lines) == Err::<
                    Option<u64>,
                    CpuStatError,
                >(CpuStatError::NoValue)
                &&& words(lines[i]).len() > 2 ==> counter_so_far(lines) == Err::<
                    Option<u64>,
                    CpuStatError,
                >(CpuStatError::ExtraFields)
                &&& words(lines[i]).len() == 2 && (forall|n: u64|
                    !#[trigger] counts_number(lines, i, n)) ==> counter_so_far(lines) == Err::<
                    Option<u64>,
                    CpuStatError,
                >(CpuStatError::NotANumber)
            },
    decreases lines.len(),
{
    if lines.len() > 0 {
        let rest = lines.drop_last();
        let end = lines.len() - 1;
        counters(rest);
        assert(lines.last() == lines[end]);
        assert forall|i: int| 0 <= i < end implies #[trigger] counts(lines, i) == counts(
            rest,
            i,
        ) by {
            assert(rest[i] == lines[i]);
        }
        if counts(lines, end) {
            assert forall|i: int| #[trigger] counts_alone(lines, i) implies i == end by {
                assert(counts(lines, end));
            }
            if forall|i: int| !#[trigger] counts(rest, i) {
                assert(counts_alone(lines, end)) by {
                    assert forall|j: int| #[trigger] counts(lines, j) implies j == end by {
                        if j < end {
                            assert(!counts(rest, j));
                        }
                    }
                }
                let value = words(lines[end])[1];
                assert forall|n: u64|
                    counter_so_far(lines) == Ok::<Option<u64>, CpuStatError>(Some(n))
                    <==> #[trigger] is_count(lines, n) by {
                    reads_as_value(value, n);
                    if counter_so_far(lines) == Ok::<Option<u64>, CpuStatError>(Some(n)) {
                        assert(counts_number(lines, end, n));
                    }
                }
                if words(lines[end]).len() == 2 && crate::text::is_unsigned(
                    value,
                    u64::MAX as nat,
                ) {
                    let n = digits_value(unsigned_digits(value)) as u64;
                    reads_as_value(value, n);
                    assert(counts_number(lines, end, n));
                }
            } else {
                let k = choose|i: int| #[trigger] counts(rest, i);
                assert(counts(lines, k));
                assert forall|i: int| !#[trigger] counts_alone(lines, i) by {
                    if counts_alone(lines, i) {
                        assert(counts(lines, k) ==> k == i);
                        assert(counts(lines, end) ==> end == i);
                    }
                }
                assert(!(counter_so_far(rest) == Ok::<Option<u64>, CpuStatError>(None)));
            }
        } else {
            assert forall|i: int| #[trigger] counts_alone(lines, i) <==> counts_alone(rest, i) by {
                if counts_alone(lines, i) {
                    assert(i < end);
                    assert(counts(rest, i));
                    assert forall|j: int| #[trigger] counts(rest, j) implies j == i by {
                        assert(counts(lines, j));
                    }
                }
                if counts_alone(rest, i) {
                    assert(counts(lines, i));
                    assert forall|j: int| #[trigger] counts(lines, j) implies j == i by {
                        assert(j < end);
                        assert(counts(rest, j));
                    }
                }
            }
            assert forall|i: int, n: u64|
                0 <= i < end implies #[trigger] counts_number(lines, i, n) == counts_number(
                rest,
                i,
                n,
            ) by {
                assert(rest[i] == lines[i]);
            }
            assert((forall|i: int| !#[trigger] counts(lines, i)) <==> (forall|i: int|
                !#[trigger] counts(rest, i))) by {
                if forall|i: int| !#[trigger] counts(lines, i) {
                    assert forall|i: int| !#[trigger] counts(rest, i) by {
                        if counts(rest, i) {
                            assert(counts(lines, i));
                        }
                    }
                }
                if forall|i: int| !#[trigger] counts(rest, i) {
                    assert forall|i: int| !#[trigger] counts(lines, i) by {
                        if counts(lines, i) {
                            assert(counts(rest, i));
                        }
                    }
                }
            }
            assert forall|n: u64|
                counter_so_far(lines) == Ok::<Option<u64>, CpuStatError>(Some(n))
                    <==> #[trigger] is_count(lines, n) by {
                assert(is_count(rest, n) <==> is_count(lines, n)) by {
                    if is_count(lines, n) {
                        let i = choose|i: int|
                            #[trigger] counts_alone(lines, i) && #[trigger] counts_number(
                                lines,
                                i,
                                n,
                            );
                        assert(counts_alone(rest, i) && counts_number(rest, i, n));
                    }
                    if is_count(rest, n) {
                        let i = choose|i: int|
                            #[trigger] counts_alone(rest, i) && #[trigger] counts_number(
                                rest,
                                i,
                                n,
                            );
                        assert(counts_alone(lines, i) && counts_number(lines, i, n));
                    }
                }
            }
            assert forall|i: int| #[trigger] counts_alone(lines, i) implies {
                &&& words(lines[i]).len() == 1 ==> counter_so_far(lines) == Err::<
                    Option<u64>,
                    CpuStatError,
                >(CpuStatError::NoValue)
                &&& words(lines[i]).len() > 2 ==> counter_so_far(lines) == Err::<
                    Option<u64>,
                    CpuStatError,
                >(CpuStatError::ExtraFields)
                &&& words(lines[i]).len() == 2 && (forall|n: u64|
                    !#[trigger] counts_number(lines, i, n)) ==> counter_so_far(lines) == Err::<
                    Option<u64>,
                    CpuStatError,
                >(CpuStatError::NotANumber)
            } by {
                assert(counts_alone(rest, i));
                assert(rest[i] == lines[i]);
                if forall|n: u64| !#[trigger] counts_number(lines, i, n) {
                    assert forall|n: u64| !#[trigger] counts_number(rest, i, n) by {
                        assert(counts_number(lines, i, n) == counts_number(rest, i, n));
                    }
                }
            }
        }
    }
}

/// Throttling is read of the only line that counts it, as the number behind its
/// name. It is absent where no line does, and refused where that line has no
/// value, more than one or one that is no number.
pub proof fn throttling_is_read_of_its_only_line(cpu_stat: &str, r: Result<u64, CpuStatError>)
    requires
        call_ensures(parse_throttled_microseconds, (cpu_stat,), r),
    ensures
        ({
            let lines = pieces(cpu_stat@, '\n');
            &&& forall|n: u64|
                r == Ok::<u64, CpuStatError>(n) <==> #[trigger] is_count(lines, n)
            &&& r == Err::<u64, CpuStatError>(CpuStatError::Absent) <==> forall|i: int|
                !#[trigger] counts(lines, i)
            &&& forall|i: int| #[trigger]
                counts_alone(lines, i) ==> {
                    &&& words(lines[i]).len() == 1 ==> r == Err::<u64, CpuStatError>(
                        CpuStatError::NoValue,
                    )
                    &&& words(lines[i]).len() > 2 ==> r == Err::<u64, CpuStatError>(
                        CpuStatError::ExtraFields,
                    )
                    &&& words(lines[i]).len() == 2 && (forall|n: u64|
                        !#[trigger] counts_number(lines, i, n)) ==> r == Err::<u64, CpuStatError>(
                        CpuStatError::NotANumber,
                    )
                }
        }),
{
    let lines = pieces(cpu_stat@, '\n');
    counters(lines);
    never_absent(lines);
}

proof fn never_absent(lines: Seq<Seq<char>>)
    ensures
        counter_so_far(lines) != Err::<Option<u64>, CpuStatError>(CpuStatError::Absent),
    decreases lines.len(),
{
    if lines.len() > 0 {
        never_absent(lines.drop_last());
    }
}

/// A path that goes on into a name has that name as one more component, and one
/// that goes on into nothing or into itself has none more.
pub proof fn names_are_components(path: Seq<char>, name: Seq<char>)
    requires
        path.len() > 0,
        !name.contains('/'),
    ensures
        name.len() > 0 && name != seq!['.'] ==> components(path + seq!['/'] + name) == components(
            path,
        ).push(name),
        name.len() == 0 || name == seq!['.'] ==> components(path + seq!['/'] + name) == components(
            path,
        ),
        components(seq!['/']) == seq![seq!['/']],
        components(Seq::<char>::empty()) == Seq::<Seq<char>>::empty(),
        name.len() > 0 ==> components(name) == seq![name],
{
    let whole = path + seq!['/'] + name;
    pieces_of_joined(path, name, '/');
    plain_piece(name);
    let absolute = path[0] == '/';
    let parts = pieces(path, '/');
    crate::text::pieces_nonempty(path, '/');
    let all = pieces(whole, '/');
    assert(all =~= parts.push(name));
    assert(all.drop_last() =~= parts);
    assert(whole[0] == path[0]);
    let before = named_pieces(parts, absolute);
    if name.len() > 0 && name != seq!['.'] {
        assert(named_pieces(all, absolute) == before.push(name));
        assert(components(whole) =~= components(path).push(name));
    } else {
        assert(named_pieces(all, absolute) == before);
    }
    let empty = Seq::<char>::empty();
    assert(pieces(empty, '/') =~= seq![empty]);
    none_named(seq![empty], false);
    assert(components(empty) =~= Seq::<Seq<char>>::empty());
    pieces_of_joined(empty, empty, '/');
    assert(seq!['/'] =~= empty + seq!['/'] + empty);
    assert(pieces(seq!['/'], '/') =~= seq![empty, empty]);
    none_named(seq![empty, empty], true);
    assert(components(seq!['/']) =~= seq![seq!['/']]);
    if name.len() > 0 {
        assert(name[0] != '/') by {
            assert(name.contains(name[0]));
        }
        let one = seq![name];
        assert(one.drop_last() =~= Seq::<Seq<char>>::empty());
        assert(named_pieces(one.drop_last(), false) =~= Seq::<Seq<char>>::empty());
        assert(named_pieces(one, false) =~= seq![name]);
    }
}

proof fn none_named(parts: Seq<Seq<char>>, absolute: bool)
    requires
        forall|i: int| 0 <= i < parts.len() ==> (#[trigger] parts[i]).len() == 0,
    ensures
        named_pieces(parts, absolute).len() == 0,
    decreases parts.len(),
{
    if parts.len() > 0 {
        let rest = parts.drop_last();
        assert forall|i: int| 0 <= i < rest.len() implies (#[trigger] rest[i]).len() == 0 by {
            assert(rest[i] == parts[i]);
        }
        none_named(rest, absolute);
        assert(parts[parts.len() - 1].len() == 0);
    }
}

proof fn plain_piece(name: Seq<char>)
    requires
        !name.contains('/'),
    ensures
        pieces(name, '/') == seq![name],
    decreases name.len(),
{
    if name.len() > 0 {
        let rest = name.drop_last();
        assert(name[name.len() - 1] != '/');
        if rest.contains('/') {
            let i = choose|i: int| 0 <= i < rest.len() && rest[i] == '/';
            assert(name[i] == '/');
        }
        plain_piece(rest);
        assert(rest.push(name[name.len() - 1]) =~= name);
        assert(pieces(name, '/') =~= seq![name]);
    }
}

/// Whether a mount is on the way to a path.
pub open spec fn is_on_the_way(path: Seq<char>, mount: Seq<char>) -> bool {
    components(mount).len() <= components(path).len() && forall|i: int|
        0 <= i < components(mount).len() ==> #[trigger] components(mount)[i] == components(path)[i]
}

/// Whether a mount holds a path: the deepest on the way to it, and of those the
/// last.
pub open spec fn holds(mounts: Seq<MountCapacity>, at: int, path: Seq<char>) -> bool {
    0 <= at < mounts.len() && is_on_the_way(path, mounts[at].mount@) && forall|j: int|
        0 <= j < mounts.len() && is_on_the_way(path, (#[trigger] mounts[j]).mount@) ==> components(
            mounts[j].mount@,
        ).len() < components(mounts[at].mount@).len() || (components(mounts[j].mount@).len()
            == components(mounts[at].mount@).len() && j <= at)
}

proof fn way(path: Seq<char>, mount: Seq<char>)
    ensures
        lies_under(path, mount) <==> is_on_the_way(path, mount),
{
    let base = components(mount);
    let all = components(path);
    if lies_under(path, mount) {
        assert forall|i: int| 0 <= i < base.len() implies #[trigger] base[i] == all[i] by {
            assert(all.take(base.len() as int)[i] == base[i]);
        }
    }
    if is_on_the_way(path, mount) {
        assert(all.take(base.len() as int) =~= base);
    }
}

proof fn mounts_hold(mounts: Seq<MountCapacity>, path: Seq<char>)
    ensures
        match holding_mount(mounts, path) {
            Some(at) => holds(mounts, at, path),
            None => forall|i: int|
                0 <= i < mounts.len() ==> !is_on_the_way(path, (#[trigger] mounts[i]).mount@),
        },
    decreases mounts.len(),
{
    if mounts.len() > 0 {
        let rest = mounts.drop_last();
        let end = mounts.len() - 1;
        mounts_hold(rest, path);
        way(path, mounts[end].mount@);
        assert(mounts.last() == mounts[end]);
        assert forall|i: int| 0 <= i < end implies #[trigger] mounts[i] == rest[i] by {}
        let best = holding_mount(rest, path);
        match holding_mount(mounts, path) {
            Some(at) => {
                assert forall|j: int|
                    0 <= j < mounts.len() && is_on_the_way(
                        path,
                        (#[trigger] mounts[j]).mount@,
                    ) implies components(mounts[j].mount@).len() < components(
                    mounts[at].mount@,
                ).len() || (components(mounts[j].mount@).len() == components(
                    mounts[at].mount@,
                ).len() && j <= at) by {
                    if j < end {
                        assert(is_on_the_way(path, rest[j].mount@));
                        if best is Some {
                            assert(rest[best->0] == mounts[best->0]);
                        }
                    }
                }
            },
            None => {
                assert forall|i: int| 0 <= i < mounts.len() implies !is_on_the_way(
                    path,
                    (#[trigger] mounts[i]).mount@,
                ) by {
                    if i < end {
                        assert(!is_on_the_way(path, rest[i].mount@));
                    }
                }
            },
        }
    }
}

/// What a storage domain uses of the mount that holds it.
pub open spec fn is_usage(
    usage: DiskUsageEvidence,
    storage: DiagnosticStoragePath,
    mount: MountCapacity,
) -> bool {
    usage.storage_domain == storage.domain && usage.total_bytes == mount.total_bytes
        && usage.used_bytes == mount.total_bytes - mount.available_bytes
}

/// Whether a mount can be told of: it has a size, and no more is available.
pub open spec fn has_capacity(mount: MountCapacity) -> bool {
    0 < mount.total_bytes && mount.available_bytes <= mount.total_bytes
}

/// Whether a storage domain is told of.
pub open spec fn is_told_of(
    values: Seq<DiskUsageEvidence>,
    storage: DiagnosticStoragePath,
    mount: MountCapacity,
) -> bool {
    exists|k: int| 0 <= k < values.len() && is_usage(#[trigger] values[k], storage, mount)
}

proof fn usages(storage: Seq<DiagnosticStoragePath>, mounts: Seq<MountCapacity>)
    ensures
        forall|i: int, at: int|
            0 <= i < storage.len() && #[trigger] holds(
                mounts,
                at,
                (#[trigger] storage[i]).path@,
            ) && has_capacity(mounts[at]) ==> is_told_of(
                usage_of(storage, mounts).0,
                storage[i],
                mounts[at],
            ),
        usage_of(storage, mounts).1.len() == 0 <==> forall|i: int|
            0 <= i < storage.len() ==> is_measured(mounts, (#[trigger] storage[i]).path@),
        usage_of(storage, mounts).0.len() == 0 <==> forall|i: int|
            0 <= i < storage.len() ==> !is_measured(mounts, (#[trigger] storage[i]).path@),
    decreases storage.len(),
{
    if storage.len() > 0 {
        let rest = storage.drop_last();
        let end = storage.len() - 1;
        usages(rest, mounts);
        let path = storage[end].path@;
        mounts_hold(mounts, path);
        assert(storage.last() == storage[end]);
        assert forall|i: int| 0 <= i < end implies #[trigger] storage[i] == rest[i] by {}
        let before = usage_of(rest, mounts).0;
        let values = usage_of(storage, mounts).0;
        let found = holding_mount(mounts, path);
        if found is Some {
            assert forall|at: int| #[trigger] holds(mounts, at, path) implies at == found->0 by {
                assert(is_on_the_way(path, mounts[at].mount@));
                assert(is_on_the_way(path, mounts[found->0].mount@));
            }
            assert(is_measured(mounts, path) <==> has_capacity(mounts[found->0])) by {
                if has_capacity(mounts[found->0]) {
                    assert(holds(mounts, found->0, path));
                }
            }
        } else {
            assert forall|at: int| !#[trigger] holds(mounts, at, path) by {
                if holds(mounts, at, path) {
                    assert(is_on_the_way(path, mounts[at].mount@));
                }
            }
        }
        assert forall|i: int, at: int|
            0 <= i < storage.len() && #[trigger] holds(
                mounts,
                at,
                (#[trigger] storage[i]).path@,
            ) && has_capacity(mounts[at]) implies is_told_of(values, storage[i], mounts[at]) by {
            if i < end {
                assert(holds(mounts, at, rest[i].path@));
                assert(is_told_of(before, rest[i], mounts[at]));
                let k = choose|k: int|
                    0 <= k < before.len() && is_usage(#[trigger] before[k], rest[i], mounts[at]);
                assert(is_usage(values[k], storage[i], mounts[at]));
            } else {
                assert(is_usage(values[before.len() as int], storage[end], mounts[at]));
            }
        }
        let all = forall|i: int|
            0 <= i < storage.len() ==> is_measured(mounts, (#[trigger] storage[i]).path@);
        let all_before = forall|i: int|
            0 <= i < rest.len() ==> is_measured(mounts, (#[trigger] rest[i]).path@);
        assert(all == (all_before && is_measured(mounts, path))) by {
            if all {
                assert forall|i: int| 0 <= i < rest.len() implies is_measured(
                    mounts,
                    (#[trigger] rest[i]).path@,
                ) by {
                    assert(is_measured(mounts, storage[i].path@));
                }
                assert(is_measured(mounts, storage[end].path@));
            }
            if all_before && is_measured(mounts, path) {
                assert forall|i: int| 0 <= i < storage.len() implies is_measured(
                    mounts,
                    (#[trigger] storage[i]).path@,
                ) by {
                    if i < end {
                        assert(is_measured(mounts, rest[i].path@));
                    }
                }
            }
        }
        let none = forall|i: int|
            0 <= i < storage.len() ==> !is_measured(mounts, (#[trigger] storage[i]).path@);
        let none_before = forall|i: int|
            0 <= i < rest.len() ==> !is_measured(mounts, (#[trigger] rest[i]).path@);
        assert(none == (none_before && !is_measured(mounts, path))) by {
            if none {
                assert forall|i: int| 0 <= i < rest.len() implies !is_measured(
                    mounts,
                    (#[trigger] rest[i]).path@,
                ) by {
                    assert(!is_measured(mounts, storage[i].path@));
                }
                assert(!is_measured(mounts, storage[end].path@));
            }
            if none_before && !is_measured(mounts, path) {
                assert forall|i: int| 0 <= i < storage.len() implies !is_measured(
                    mounts,
                    (#[trigger] storage[i]).path@,
                ) by {
                    if i < end {
                        assert(!is_measured(mounts, rest[i].path@));
                    }
                }
            }
        }
    }
}

/// Whether a path is held by a mount that can be told of.
pub open spec fn is_measured(mounts: Seq<MountCapacity>, path: Seq<char>) -> bool {
    exists|at: int| #[trigger] holds(mounts, at, path) && has_capacity(mounts[at])
}

/// A sorted list holds what the list holds.
pub proof fn sorted_holds<T: Sortable>(list: Seq<T>, item: T)
    ensures
        sorted(list).contains(item) <==> list.contains(item),
        sorted(list).len() == list.len(),
{
    broadcast use vstd::seq_lib::group_to_multiset_ensures;

    sorting_orders_and_keeps(list);
    assert(sorted(list).to_multiset().contains(item) <==> list.to_multiset().contains(item));
}

/// The usage of disks is told of each storage domain by the mount that holds it.
/// It is available where all can be told of, unavailable where none can or there
/// is no mount, and degraded between; without storage domains it is unsupported.
pub proof fn disks_are_told_of_by_the_mounts_that_hold_them(
    storage: &Vec<DiagnosticStoragePath>,
    mounts: &Vec<MountCapacity>,
    observed_at: u64,
    r: DiagnosticSource<Vec<DiskUsageEvidence>>,
    i: int,
    at: int,
)
    requires
        call_ensures(collect_disk_usage, (storage, mounts, observed_at), r),
    ensures
        (r is Unsupported) <==> storage@.len() == 0,
        storage@.len() > 0 && mounts@.len() == 0 ==> r is Unavailable,
        storage@.len() > 0 && mounts@.len() > 0 ==> {
            &&& r is Available <==> forall|i: int|
                0 <= i < storage@.len() ==> is_measured(mounts@, (#[trigger] storage@[i]).path@)
            &&& r is Unavailable <==> forall|i: int|
                0 <= i < storage@.len() ==> !is_measured(mounts@, (#[trigger] storage@[i]).path@)
        },
        0 <= i < storage@.len() && holds(mounts@, at, storage@[i].path@) && has_capacity(
            mounts@[at],
        ) ==> match r {
            DiagnosticSource::Available { observed_at: t, value } => t == observed_at
                && value@.len() == storage@.len() && is_told_of(
                value@,
                storage@[i],
                mounts@[at],
            ),
            DiagnosticSource::Degraded { observed_at: t, value, .. } => t == observed_at
                && is_told_of(value@, storage@[i], mounts@[at]),
            _ => false,
        },
{
    let (values, errors) = usage_of(storage@, mounts@);
    usages(storage@, mounts@);
    every_domain_is_accounted_for(storage@, mounts@);
    sorting_orders_and_keeps(values);
    if storage@.len() > 0 {
        let s = storage@;
        if (forall|i: int| 0 <= i < s.len() ==> is_measured(mounts@, (#[trigger] s[i]).path@)) {
            assert(is_measured(mounts@, s[0].path@));
        }
    }
    if 0 <= i < storage@.len() && holds(mounts@, at, storage@[i].path@) && has_capacity(
        mounts@[at],
    ) {
        assert(is_told_of(values, storage@[i], mounts@[at]));
        let k = choose|k: int|
            0 <= k < values.len() && is_usage(#[trigger] values[k], storage@[i], mounts@[at]);
        let usage = values[k];
        assert(values.contains(usage));
        sorted_holds(values, usage);
        let all = sorted(values);
        let m = choose|m: int| 0 <= m < all.len() && all[m] == usage;
        assert(is_usage(all[m], storage@[i], mounts@[at]));
        assert(is_measured(mounts@, storage@[i].path@));
    }
}

/// A window is of one second where none is asked for, and of one to ten.
pub proof fn windows_last_one_to_ten_seconds(requested: Option<u64>, r: u64)
    requires
        call_ensures(window_width, (requested,), r),
    ensures
        requested is None ==> r == 1,
        requested matches Some(n) ==> (1 <= n <= 10 ==> r == n) && (n == 0 ==> r == 1) && (n > 10
            ==> r == 10),
{
}

/// Instances with a process are sampled.
pub proof fn instances_with_a_process_are_sampled(
    statuses: &Vec<InstanceStatus>,
    r: Vec<InstanceStatus>,
)
    requires
        call_ensures(instances_to_sample, (statuses,), r),
    ensures
        r@ == statuses@.filter(|s: InstanceStatus| !(s.pid is None)),
{
    let a = |s: InstanceStatus| s.pid is Some;
    let b = |s: InstanceStatus| !(s.pid is None);
    assert(a =~= b);
}

/// A sample that can be read becomes a total of its instance; any other becomes an
/// error that names it.
pub proof fn samples_are_totals_or_errors(sample: CpuStatSample)
    ensures
        total_of(sample) is Ok <==> (sample.read matches CpuStatRead::Contents(text)
            && throttling_counter(text@) is Ok),
        total_of(sample) matches Ok(total) ==> total.app == sample.app && total.namespace
            == sample.namespace && total.instance == sample.instance && (
        sample.read matches CpuStatRead::Contents(text) && throttling_counter(text@) == Ok::<
            u64,
            CpuStatError,
        >(total.throttled_microseconds)),
        sample.read is InvalidIdentifier ==> total_of(sample) == Err::<
            CpuThrottleTotal,
            Seq<char>,
        >(sample.instance@ + " has an invalid instance id"@),
        sample.read matches CpuStatRead::Unreadable(error) ==> total_of(sample) == Err::<
            CpuThrottleTotal,
            Seq<char>,
        >("could not read cpu.stat for "@ + sample.instance@ + ": "@ + error@),
{
}

proof fn totals(samples: Seq<CpuStatSample>)
    ensures
        forall|i: int|
            0 <= i < samples.len() ==> (total_of(#[trigger] samples[i]) matches Ok(total)
                ==> totals_of(samples).0.contains(total)),
        forall|i: int|
            0 <= i < samples.len() ==> (total_of(#[trigger] samples[i]) matches Err(error)
                ==> totals_of(samples).1.contains(error)),
        totals_of(samples).0.len() + totals_of(samples).1.len() == samples.len(),
    decreases samples.len(),
{
    if samples.len() > 0 {
        let rest = samples.drop_last();
        let end = samples.len() - 1;
        totals(rest);
        assert(samples.last() == samples[end]);
        let (values, errors) = totals_of(rest);
        let (all, told) = totals_of(samples);
        assert forall|i: int| 0 <= i < samples.len() implies (total_of(
            #[trigger] samples[i],
        ) matches Ok(total) ==> all.contains(total)) by {
            if total_of(samples[i]) is Ok {
                let total = total_of(samples[i])->Ok_0;
                if i < end {
                    assert(rest[i] == samples[i]);
                    assert(values.contains(total));
                    let k = choose|k: int| 0 <= k < values.len() && values[k] == total;
                    assert(all[k] == total);
                } else {
                    assert(all[values.len() as int] == total);
                }
            }
        }
        assert forall|i: int| 0 <= i < samples.len() implies (total_of(
            #[trigger] samples[i],
        ) matches Err(error) ==> told.contains(error)) by {
            if total_of(samples[i]) is Err {
                let error = total_of(samples[i])->Err_0;
                if i < end {
                    assert(rest[i] == samples[i]);
                    assert(errors.contains(error));
                    let k = choose|k: int| 0 <= k < errors.len() && errors[k] == error;
                    assert(told[k] == error);
                } else {
                    assert(told[errors.len() as int] == error);
                }
            }
        }
    }
}

/// Totals are collected of at most 4096 instances. They are available where every
/// sample becomes one, and each that does is among them.
pub proof fn totals_are_collected_of_every_sample(
    samples: Vec<CpuStatSample>,
    observed_at: u64,
    r: DiagnosticSource<Vec<CpuThrottleTotal>>,
    i: int,
)
    requires
        call_ensures(collect_cpu_throttle_totals, (samples, observed_at), r),
    ensures
        samples@.len() > 4096 ==> r is Unavailable,
        samples@.len() <= 4096 ==> (r is Available <==> forall|i: int|
            0 <= i < samples@.len() ==> total_of(#[trigger] samples@[i]) is Ok),
        samples@.len() <= 4096 && 0 <= i < samples@.len() ==> (total_of(samples@[i]) matches Ok(
            total,
        ) ==> match r {
            DiagnosticSource::Available { observed_at: t, value } => t == observed_at
                && value@.contains(total) && value@.len() == samples@.len(),
            DiagnosticSource::Degraded { observed_at: t, value, .. } => t == observed_at
                && value@.contains(total),
            _ => false,
        }),
{
    let (values, errors) = totals_of(samples@);
    totals(samples@);
    sorting_orders_and_keeps(values);
    if samples@.len() <= 4096 {
        if errors.len() == 0 {
            assert forall|i: int| 0 <= i < samples@.len() implies total_of(
                #[trigger] samples@[i],
            ) is Ok by {
                if total_of(samples@[i]) is Err {
                    assert(errors.contains(total_of(samples@[i])->Err_0));
                }
            }
        }
        if forall|i: int| 0 <= i < samples@.len() ==> total_of(#[trigger] samples@[i]) is Ok {
            no_errors(samples@);
        }
        if 0 <= i < samples@.len() && total_of(samples@[i]) is Ok {
            let total = total_of(samples@[i])->Ok_0;
            assert(values.contains(total));
            sorted_holds(values, total);
        }
    }
}

proof fn no_errors(samples: Seq<CpuStatSample>)
    requires
        forall|i: int| 0 <= i < samples.len() ==> total_of(#[trigger] samples[i]) is Ok,
    ensures
        totals_of(samples).1.len() == 0,
    decreases samples.len(),
{
    if samples.len() > 0 {
        let rest = samples.drop_last();
        assert forall|i: int| 0 <= i < rest.len() implies total_of(#[trigger] rest[i]) is Ok by {
            assert(rest[i] == samples[i]);
        }
        no_errors(rest);
        assert(total_of(samples[samples.len() - 1]) is Ok);
    }
}

/// Whether a total is the last of its instance.
pub open spec fn is_last_total(
    totals: Seq<CpuThrottleTotal>,
    at: int,
    instance: Seq<char>,
) -> bool {
    0 <= at < totals.len() && totals[at].instance@ == instance && forall|j: int|
        at < j < totals.len() ==> (#[trigger] totals[j]).instance@ != instance
}

/// The counter of an instance is that of its last total.
pub proof fn counter_is_last(totals: Seq<CpuThrottleTotal>, instance: Seq<char>, at: int)
    requires
        is_last_total(totals, at, instance),
    ensures
        counter_of(totals, instance) == Some(totals[at].throttled_microseconds),
    decreases totals.len(),
{
    let end = totals.len() - 1;
    if at < end {
        assert(totals[end].instance@ != instance);
        let rest = totals.drop_last();
        assert forall|j: int| at < j < rest.len() implies (#[trigger] rest[j]).instance@
            != instance by {
            assert(rest[j] == totals[j]);
        }
        counter_is_last(rest, instance, at);
    }
}

/// Whether an instance is told to have been throttled for a time in a window.
pub open spec fn tells_delta(
    values: Seq<CpuThrottleEvidence>,
    sample: CpuThrottleTotal,
    previous: u64,
    window_seconds: u64,
) -> bool {
    exists|k: int|
        0 <= k < values.len() && (#[trigger] values[k]).instance == sample.instance && values[k].app
            == sample.app && values[k].namespace == sample.namespace
            && values[k].throttled_microseconds_delta == sample.throttled_microseconds - previous
            && values[k].window_seconds == window_seconds
}

proof fn told_deltas(
    first: Seq<CpuThrottleTotal>,
    second: Seq<CpuThrottleTotal>,
    errors: Seq<Seq<char>>,
    window_seconds: u64,
    i: int,
    at: int,
)
    requires
        0 <= i < second.len(),
        is_last_total(first, at, second[i].instance@),
        first[at].throttled_microseconds <= second[i].throttled_microseconds,
    ensures
        tells_delta(
            deltas(first, second, errors, window_seconds).0,
            second[i],
            first[at].throttled_microseconds,
            window_seconds,
        ),
    decreases second.len(),
{
    let end = second.len() - 1;
    let rest = second.drop_last();
    let before = deltas(first, rest, errors, window_seconds).0;
    let values = deltas(first, second, errors, window_seconds).0;
    if i < end {
        assert(rest[i] == second[i]);
        told_deltas(first, rest, errors, window_seconds, i, at);
        let k = choose|k: int|
            0 <= k < before.len() && (#[trigger] before[k]).instance == second[i].instance
                && before[k].app == second[i].app && before[k].namespace == second[i].namespace
                && before[k].throttled_microseconds_delta == second[i].throttled_microseconds
                - first[at].throttled_microseconds && before[k].window_seconds == window_seconds;
        assert(values[k] == before[k]);
    } else {
        counter_is_last(first, second[i].instance@, at);
        assert(values[before.len() as int].instance == second[i].instance);
    }
}

/// What an instance was throttled in a window is what its counter gained, where it
/// was there at both ends and the counter did not fall.
pub proof fn throttling_is_what_a_counter_gained(
    first: DiagnosticSource<Vec<CpuThrottleTotal>>,
    second: DiagnosticSource<Vec<CpuThrottleTotal>>,
    window_seconds: u64,
    observed_at: u64,
    r: DiagnosticSource<Vec<CpuThrottleEvidence>>,
    before: Vec<CpuThrottleTotal>,
    after: Vec<CpuThrottleTotal>,
    i: int,
    at: int,
)
    requires
        call_ensures(cpu_throttle_window, (first, second, window_seconds, observed_at), r),
        first matches DiagnosticSource::Available { value, .. } && value == before,
        second matches DiagnosticSource::Available { value, .. } && value == after,
        0 <= i < after@.len(),
        is_last_total(before@, at, after@[i].instance@),
        before@[at].throttled_microseconds <= after@[i].throttled_microseconds,
    ensures
        match r {
            DiagnosticSource::Available { observed_at: t, value } => t == observed_at
                && tells_delta(
                value@,
                after@[i],
                before@[at].throttled_microseconds,
                window_seconds,
            ),
            DiagnosticSource::Degraded { observed_at: t, value, .. } => t == observed_at
                && tells_delta(
                value@,
                after@[i],
                before@[at].throttled_microseconds,
                window_seconds,
            ),
            _ => false,
        },
{
    let none = Seq::<Seq<char>>::empty() + Seq::<Seq<char>>::empty();
    told_deltas(before@, after@, none, window_seconds, i, at);
    let values = deltas(before@, after@, none, window_seconds).0;
    sorting_orders_and_keeps(values);
    let k = choose|k: int|
        0 <= k < values.len() && (#[trigger] values[k]).instance == after@[i].instance
            && values[k].app == after@[i].app && values[k].namespace == after@[i].namespace
            && values[k].throttled_microseconds_delta == after@[i].throttled_microseconds
            - before@[at].throttled_microseconds && values[k].window_seconds == window_seconds;
    let value = values[k];
    assert(values.contains(value));
    sorted_holds(values, value);
    let all = sorted(values);
    let m = choose|m: int| 0 <= m < all.len() && all[m] == value;
    assert(all[m].instance == after@[i].instance);
}

/// A window with an end that could not be observed is unavailable.
pub proof fn windows_need_both_ends(
    first: DiagnosticSource<Vec<CpuThrottleTotal>>,
    second: DiagnosticSource<Vec<CpuThrottleTotal>>,
    window_seconds: u64,
    observed_at: u64,
    r: DiagnosticSource<Vec<CpuThrottleEvidence>>,
)
    requires
        call_ensures(cpu_throttle_window, (first, second, window_seconds, observed_at), r),
    ensures
        first is Unavailable || first is Unsupported || second is Unavailable
            || second is Unsupported ==> r is Unavailable,
{
}

/// A certificate is told of by its kind, identity, issuer, serial number, expiry
/// and rotation; one that cannot be parsed, or expires before the epoch, is not.
pub proof fn certificates_are_told_of_as_parsed(
    kind: &str,
    identity: &str,
    parsed: Result<CertificateFacts, String>,
    rotation: &str,
    automatic: bool,
    r: Result<PublicCertificateMetadata, String>,
)
    requires
        call_ensures(
            metadata_of_certificate,
            (kind, identity, parsed, rotation, automatic),
            r,
        ),
    ensures
        r is Ok <==> (parsed matches Ok(facts) && facts.not_after >= 0),
        r matches Ok(told) ==> (parsed matches Ok(facts) && told.certificate_kind@ == kind@
            && told.identity@ == identity@ && told.issuer@ == facts.issuer@ && told.serial@
            == facts.serial@ && told.not_after == facts.not_after && told.rotation_state@
            == rotation@ && told.automatic_rotation == automatic),
        parsed matches Err(why) ==> (r matches Err(text) && text@ == "could not parse "@ + kind@
            + " certificate: "@ + why@),
        parsed matches Ok(facts) ==> (facts.not_after < 0 ==> (r matches Err(text) && text@ == kind@
            + " certificate expires before Unix epoch"@)),
{
}

/// A snapshot is of its node and holds what was observed: disks as they are, the
/// throttling where there are control groups, and the node's certificate where
/// there is one.
pub proof fn snapshots_hold_what_was_observed(
    node_id: &String,
    observed_at: u64,
    disks: DiagnosticSource<Vec<DiskUsageEvidence>>,
    cgroups: bool,
    first: DiagnosticSource<Vec<CpuThrottleTotal>>,
    second: DiagnosticSource<Vec<CpuThrottleTotal>>,
    window_seconds: u64,
    second_observed_at: u64,
    certificate: &Option<PublicCertificateMetadata>,
    identity: bool,
    r: LocalDiagnosticSnapshot,
)
    requires
        call_ensures(
            local_snapshot,
            (
                node_id,
                observed_at,
                disks,
                cgroups,
                first,
                second,
                window_seconds,
                second_observed_at,
                certificate,
                identity,
            ),
            r,
        ),
    ensures
        r.schema_version == 1,
        r.node_id == *node_id,
        r.observed_at == observed_at,
        r.disks == disks,
        (r.cpu_throttling is Unsupported) <==> !cgroups,
        *certificate matches Some(own) ==> (r.certificates matches DiagnosticSource::Available {
            observed_at: t,
            value,
        } && t == observed_at && value@ == seq![own]),
        *certificate is None && identity ==> r.certificates is Unavailable,
        *certificate is None && !identity ==> r.certificates is Unsupported,
{
}

/// Each application is told of with the replicas it wants and has, ordered by
/// namespace and name.
pub proof fn every_application_is_told_of(
    apps: &Vec<DesiredApp>,
    members: Option<usize>,
    r: Vec<DesiredAppEvidence>,
    i: int,
)
    requires
        call_ensures(desired_apps, (apps, members), r),
        0 <= i < apps@.len(),
    ensures
        r@.len() == apps@.len(),
        exists|k: int|
            0 <= k < r@.len() && (#[trigger] r@[k]).app == apps@[i].name && r@[k].namespace
                == apps@[i].namespace && r@[k].service_port == apps@[i].port && (
            apps@[i].placements <= u32::MAX ==> r@[k].scheduled_replicas == apps@[i].placements)
                && match apps@[i].replicas {
                Replicas::Fixed(count) => r@[k].desired_replicas == count,
                Replicas::DaemonSet => (members is None || members->0 == 0
                    ==> r@[k].desired_replicas == 1) && (members matches Some(n) ==> 1 <= n
                    <= u32::MAX ==> r@[k].desired_replicas == n),
            },
        crate::sorting::in_order(r@),
{
    let live = if members is Some && members->0 > 1 {
        members->0
    } else {
        1usize
    };
    let all = desired_list(apps@, live);
    sorting_orders_and_keeps(all);
    let told = all[i];
    assert(all.contains(told));
    sorted_holds(all, told);
    let k = choose|k: int| 0 <= k < r@.len() && r@[k] == told;
    assert(r@[k].app == apps@[i].name);
}

/// A caller is told of the applications in their scope, in the same order.
pub proof fn callers_are_told_of_what_is_in_their_scope(
    apps: Vec<DesiredAppEvidence>,
    auth: Option<&AuthContext>,
    r: Vec<DesiredAppEvidence>,
)
    requires
        call_ensures(filter_desired_apps_for_scope, (apps, auth), r),
    ensures
        r@ == apps@.filter(
            |e: DesiredAppEvidence|
                (auth matches Some(caller) ==> caller.system || (admits(
                    caller.scoped_apps,
                    e.app@,
                ) && admits(caller.scoped_namespaces, e.namespace@))),
        ),
{
    let whom = crate::access::caller(auth);
    let a = |e: DesiredAppEvidence| crate::access::may_touch(whom, e.app@, e.namespace@);
    let b = |e: DesiredAppEvidence|
        (auth matches Some(caller) ==> caller.system || (admits(caller.scoped_apps, e.app@)
            && admits(caller.scoped_namespaces, e.namespace@)));
    assert forall|e: DesiredAppEvidence| #[trigger] a(e) == b(e) by {
        touching_is_by_scope(whom, e.app@, e.namespace@);
    }
    assert(a =~= b);
}

} // verus!
