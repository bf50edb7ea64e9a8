//! Bounded, public telemetry of a node.
//!
//! The evidence deliberately omits certificate bodies, private material and
//! host filesystem paths. Collection can return degraded evidence alongside
//! the facts it did observe, rather than hiding a partial failure.

use vstd::prelude::*;
use vstd::string::*;

use crate::access::{authorize_scoped, caller, may_touch, AuthContext};
use crate::codec::{certificate_contents, contents_of, parse_certificate, CertificateFacts};
use crate::instances::InstanceStatus;
use crate::sorting::{sort_stably, sorted, text_order_laws, Sortable};
use crate::text::{
    contains_text, decimal, decimal_text, digits_value, from_chars, is_unsigned, join, joined,
    occurs, parse_unsigned, pieces, same_text, sandwich, slice_of, split_on, split_words, strings,
    text_before, text_less, text_less_irreflexive, text_less_total, text_less_transitive, texts,
    to_chars, unsigned_digits, words,
};

verus! {

/// Most instances whose counters one collection reads.
pub const MAX_DIAGNOSTIC_INSTANCES: usize = 4096;

/// Current diagnostics wire schema.
pub const LOCAL_DIAGNOSTIC_SCHEMA_VERSION: u32 = 1;

/// One diagnostic source and its collection status.
#[derive(Debug)]
pub enum DiagnosticSource<T> {
    /// Every required fact was observed.
    Available {
        /// Unix timestamp, in seconds, when collection completed.
        observed_at: u64,
        /// Collected value.
        value: T,
    },
    /// Some facts were observed but the inventory is incomplete.
    Degraded {
        /// Unix timestamp, in seconds, when collection completed.
        observed_at: u64,
        /// Facts which were still safe to use.
        value: T,
        /// Why the source is incomplete.
        reason: String,
    },
    /// The source should have worked but could not be read.
    Unavailable {
        /// Concrete collection failure.
        reason: String,
    },
    /// This runtime or configuration cannot expose the fact.
    Unsupported {
        /// Missing capability or telemetry contract.
        reason: String,
    },
}

/// A source as its status, value and reason.
pub ghost enum Source<T> {
    /// Every required fact was observed.
    Available { observed_at: u64, value: T },
    /// Some facts were observed.
    Degraded { observed_at: u64, value: T, reason: Seq<char> },
    /// The source could not be read.
    Unavailable { reason: Seq<char> },
    /// The fact cannot be exposed.
    Unsupported { reason: Seq<char> },
}

impl<T> View for DiagnosticSource<T> {
    type V = Source<T>;

    open spec fn view(&self) -> Source<T> {
        match *self {
            DiagnosticSource::Available { observed_at, value } => Source::Available {
                observed_at,
                value,
            },
            DiagnosticSource::Degraded { observed_at, value, reason } => Source::Degraded {
                observed_at,
                value,
                reason: reason@,
            },
            DiagnosticSource::Unavailable { reason } => Source::Unavailable { reason: reason@ },
            DiagnosticSource::Unsupported { reason } => Source::Unsupported { reason: reason@ },
        }
    }
}

impl<T> Source<T> {
    /// The usable evidence of a source, if it has any.
    pub open spec fn usable(self) -> Option<T> {
        match self {
            Source::Available { value, .. } => Some(value),
            Source::Degraded { value, .. } => Some(value),
            _ => None,
        }
    }

    /// The complaints of a source: none of a complete one, else its reason.
    pub open spec fn complaints(self) -> Seq<Seq<char>> {
        match self {
            Source::Available { .. } => Seq::empty(),
            Source::Degraded { reason, .. } => seq![reason],
            Source::Unavailable { reason } => seq![reason],
            Source::Unsupported { reason } => seq![reason],
        }
    }

    /// When a source with usable evidence was collected.
    pub open spec fn collected_at(self) -> Option<u64> {
        match self {
            Source::Available { observed_at, .. } => Some(observed_at),
            Source::Degraded { observed_at, .. } => Some(observed_at),
            _ => None,
        }
    }
}

impl<T> DiagnosticSource<T> {
    /// Borrow all usable evidence, including evidence from a degraded source.
    pub fn value(&self) -> (r: Option<&T>)
        ensures
            r is Some <==> self@.usable() is Some,
            r is Some ==> Some(*r->0) == self@.usable(),
    {
        match self {
            DiagnosticSource::Available { value, .. } => Some(value),
            DiagnosticSource::Degraded { value, .. } => Some(value),
            DiagnosticSource::Unavailable { .. } => None,
            DiagnosticSource::Unsupported { .. } => None,
        }
    }

    /// Split a source into its evidence, its complaints and its time.
    pub fn into_parts(self) -> (r: (Option<T>, Vec<String>, Option<u64>))
        ensures
            r.0 == self@.usable(),
            strings(r.1@) == self@.complaints(),
            r.2 == self@.collected_at(),
    {
        let mut complaints: Vec<String> = Vec::new();
        match self {
            DiagnosticSource::Available { observed_at, value } => {
                proof {
                    assert(strings(complaints@) =~= Seq::<Seq<char>>::empty());
                }
                (Some(value), complaints, Some(observed_at))
            },
            DiagnosticSource::Degraded { observed_at, value, reason } => {
                let ghost text = reason@;
                complaints.push(reason);
                proof {
                    assert(strings(complaints@) =~= seq![text]);
                }
                (Some(value), complaints, Some(observed_at))
            },
            DiagnosticSource::Unavailable { reason } => {
                let ghost text = reason@;
                complaints.push(reason);
                proof {
                    assert(strings(complaints@) =~= seq![text]);
                }
                (None, complaints, None)
            },
            DiagnosticSource::Unsupported { reason } => {
                let ghost text = reason@;
                complaints.push(reason);
                proof {
                    assert(strings(complaints@) =~= seq![text]);
                }
                (None, complaints, None)
            },
        }
    }
}

/// A source of a list, with the list as a sequence.
pub open spec fn listed<T>(source: Source<Vec<T>>) -> Source<Seq<T>> {
    match source {
        Source::Available { observed_at, value } => Source::Available {
            observed_at,
            value: value@,
        },
        Source::Degraded { observed_at, value, reason } => Source::Degraded {
            observed_at,
            value: value@,
            reason,
        },
        Source::Unavailable { reason } => Source::Unavailable { reason },
        Source::Unsupported { reason } => Source::Unsupported { reason },
    }
}

/// What a collection with these values and errors amounts to.
pub open spec fn finished<T>(
    values: Seq<T>,
    errors: Seq<Seq<char>>,
    observed_at: u64,
) -> Source<Seq<T>> {
    if errors.len() == 0 {
        Source::Available { observed_at, value: values }
    } else if values.len() == 0 {
        Source::Unavailable { reason: joined(errors, "; "@) }
    } else {
        Source::Degraded { observed_at, value: values, reason: joined(errors, "; "@) }
    }
}

/// Finish a collection: complete without errors, unavailable without values,
/// and degraded with both.
pub fn finish_collection<T>(
    values: Vec<T>,
    errors: Vec<String>,
    observed_at: u64,
) -> (r: DiagnosticSource<Vec<T>>)
    ensures
        listed(r@) == finished(values@, strings(errors@), observed_at),
{
    if errors.len() == 0 {
        DiagnosticSource::Available { observed_at, value: values }
    } else if values.len() == 0 {
        DiagnosticSource::Unavailable { reason: join(&errors, "; ") }
    } else {
        DiagnosticSource::Degraded { observed_at, value: values, reason: join(&errors, "; ") }
    }
}

/// How many replicas of an app are declared.
#[derive(Debug, Clone, Copy, PartialEq, Eq, Structural)]
pub enum Replicas {
    /// A fixed number.
    Fixed(u32),
    /// One on every node.
    DaemonSet,
}

/// The replicas that a declaration asks for on so many nodes: a daemon runs on
/// every node, and on one at least.
pub open spec fn replicas_wanted(replicas: Replicas, live_nodes: usize) -> u32 {
    match replicas {
        Replicas::Fixed(count) => count,
        Replicas::DaemonSet => if live_nodes == 0 {
            1
        } else if live_nodes > u32::MAX {
            u32::MAX
        } else {
            live_nodes as u32
        },
    }
}

/// Resolve a fixed or daemon-set replica declaration for current membership.
pub fn desired_replica_count(replicas: Replicas, live_nodes: usize) -> (r: u32)
    ensures
        r == replicas_wanted(replicas, live_nodes),
{
    match replicas {
        Replicas::Fixed(count) => count,
        Replicas::DaemonSet => {
            if live_nodes == 0 {
                1
            } else if live_nodes as u64 > u32::MAX as u64 {
                u32::MAX
            } else {
                live_nodes as u32
            }
        },
    }
}

/// Why a `cpu.stat` file does not give one throttling counter.
#[derive(Debug, Clone, Copy, PartialEq, Eq, Structural)]
pub enum CpuStatError {
    /// The counter's line has no value.
    NoValue,
    /// The counter's line has more than one value.
    ExtraFields,
    /// The counter occurs twice.
    Repeated,
    /// The counter's value is not a number.
    NotANumber,
    /// The counter does not occur.
    Absent,
}

impl CpuStatError {
    /// The complaint in words.
    pub open spec fn text(self) -> Seq<char> {
        match self {
            CpuStatError::NoValue => "throttled_usec has no value"@,
            CpuStatError::ExtraFields => "throttled_usec has extra fields"@,
            CpuStatError::Repeated => "throttled_usec appears more than once"@,
            CpuStatError::NotANumber => "throttled_usec is not an unsigned integer"@,
            CpuStatError::Absent => "throttled_usec is absent"@,
        }
    }

    /// The complaint in words.
    pub fn message(self) -> (r: String)
        ensures
            r@ == self.text(),
    {
        match self {
            CpuStatError::NoValue => "throttled_usec has no value".to_owned(),
            CpuStatError::ExtraFields => "throttled_usec has extra fields".to_owned(),
            CpuStatError::Repeated => "throttled_usec appears more than once".to_owned(),
            CpuStatError::NotANumber => "throttled_usec is not an unsigned integer".to_owned(),
            CpuStatError::Absent => "throttled_usec is absent".to_owned(),
        }
    }
}

/// The counter found in the first lines of a `cpu.stat` file, or the first
/// complaint.
pub open spec fn counter_so_far(lines: Seq<Seq<char>>) -> Result<Option<u64>, CpuStatError>
    decreases lines.len(),
{
    if lines.len() == 0 {
        Ok(None)
    } else {
        let fields = words(lines.last());
        match counter_so_far(lines.drop_last()) {
            Err(error) => Err(error),
            Ok(found) => if fields.len() == 0 || fields[0] != "throttled_usec"@ {
                Ok(found)
            } else if fields.len() == 1 {
                Err(CpuStatError::NoValue)
            } else if fields.len() > 2 {
                Err(CpuStatError::ExtraFields)
            } else if found is Some {
                Err(CpuStatError::Repeated)
            } else if !is_unsigned(fields[1], u64::MAX as nat) {
                Err(CpuStatError::NotANumber)
            } else {
                Ok(Some(digits_value(unsigned_digits(fields[1])) as u64))
            },
        }
    }
}

/// The throttling counter of a `cpu.stat` file.
pub open spec fn throttling_counter(cpu_stat: Seq<char>) -> Result<u64, CpuStatError> {
    match counter_so_far(pieces(cpu_stat, '\n')) {
        Err(error) => Err(error),
        Ok(None) => Err(CpuStatError::Absent),
        Ok(Some(value)) => Ok(value),
    }
}

proof fn first_complaint_stays(lines: Seq<Seq<char>>, i: int)
    requires
        0 <= i <= lines.len(),
        counter_so_far(lines.take(i)) is Err,
    ensures
        counter_so_far(lines) == counter_so_far(lines.take(i)),
    decreases lines.len() - i,
{
    if i < lines.len() {
        assert(lines.take(i + 1).drop_last() == lines.take(i));
        first_complaint_stays(lines, i + 1);
    } else {
        assert(lines.take(i) == lines);
    }
}

/// Read the cumulative throttled time, in microseconds, from `cpu.stat`.
pub fn parse_throttled_microseconds(cpu_stat: &str) -> (r: Result<u64, CpuStatError>)
    ensures
        r == throttling_counter(cpu_stat@),
{
    let lines = split_on(&to_chars(cpu_stat), '\n');
    let ghost all = texts(lines@);
    let mut found: Option<u64> = None;
    let mut i: usize = 0;
    proof {
        assert(all.take(0) =~= Seq::<Seq<char>>::empty());
    }
    while i < lines.len()
        invariant
            i <= lines.len(),
            all == texts(lines@),
            all == pieces(cpu_stat@, '\n'),
            counter_so_far(all.take(i as int)) == Ok::<Option<u64>, CpuStatError>(found),
        decreases lines.len() - i,
    {
        let fields = split_words(&lines[i]);
        proof {
            assert(all.take(i as int + 1).drop_last() == all.take(i as int));
            assert(all.take(i as int + 1).last() == lines@[i as int]@);
            assert(texts(fields@).len() == fields@.len());
            if counter_so_far(all.take(i as int + 1)) is Err {
                first_complaint_stays(all, i as int + 1);
            }
            if fields@.len() > 0 {
                assert(texts(fields@)[0] == fields@[0]@);
            }
            if fields@.len() > 1 {
                assert(texts(fields@)[1] == fields@[1]@);
            }
        }
        if fields.len() > 0 && same_text(from_chars(&fields[0]).as_str(), "throttled_usec") {
            if fields.len() == 1 {
                return Err(CpuStatError::NoValue);
            }
            if fields.len() > 2 {
                return Err(CpuStatError::ExtraFields);
            }
            if found.is_some() {
                return Err(CpuStatError::Repeated);
            }
            match parse_unsigned(&fields[1], u64::MAX) {
                Some(value) => {
                    found = Some(value);
                },
                None => {
                    return Err(CpuStatError::NotANumber);
                },
            }
        }
        i = i + 1;
    }
    proof {
        assert(all.take(all.len() as int) == all);
    }
    match found {
        Some(value) => Ok(value),
        None => Err(CpuStatError::Absent),
    }
}

/// A configured storage domain. The path remains server-side.
#[derive(Debug)]
pub struct DiagnosticStoragePath {
    /// Stable storage-domain name.
    pub domain: String,
    /// Configured filesystem path.
    pub path: String,
}

/// A mounted filesystem and its capacity.
#[derive(Debug)]
pub struct MountCapacity {
    /// Where it is mounted.
    pub mount: String,
    /// Its size in bytes.
    pub total_bytes: u64,
    /// Its free bytes.
    pub available_bytes: u64,
}

/// Capacity evidence for one configured storage domain.
#[derive(Debug)]
pub struct DiskUsageEvidence {
    /// Stable domain such as `images`, `logs` or `volumes`.
    pub storage_domain: String,
    /// Bytes used on the filesystem containing that domain.
    pub used_bytes: u64,
    /// Total bytes on that filesystem.
    pub total_bytes: u64,
}

impl Sortable for DiskUsageEvidence {
    open spec fn goes_before(&self, other: &DiskUsageEvidence) -> bool {
        text_less(self.storage_domain@, other.storage_domain@)
    }

    fn before(&self, other: &DiskUsageEvidence) -> (r: bool) {
        text_before(self.storage_domain.as_str(), other.storage_domain.as_str())
    }

    proof fn order_laws(a: DiskUsageEvidence, b: DiskUsageEvidence, c: DiskUsageEvidence) {
        text_order_laws(a.storage_domain@, b.storage_domain@, c.storage_domain@);
    }
}

/// The pieces of a path that name something: empty pieces and `.` do not,
/// except a `.` that begins a relative path.
pub open spec fn named_pieces(parts: Seq<Seq<char>>, absolute: bool) -> Seq<Seq<char>>
    decreases parts.len(),
{
    if parts.len() == 0 {
        parts
    } else {
        let before = named_pieces(parts.drop_last(), absolute);
        let part = parts.last();
        if part.len() == 0 || (part == seq!['.'] && (absolute || parts.len() > 1)) {
            before
        } else {
            before.push(part)
        }
    }
}

/// The components of a path, of which an absolute path has the root first.
pub open spec fn components(path: Seq<char>) -> Seq<Seq<char>> {
    if path.len() > 0 && path[0] == '/' {
        seq![seq!['/']] + named_pieces(pieces(path, '/'), true)
    } else {
        named_pieces(pieces(path, '/'), false)
    }
}

/// Whether a path lies at or under another.
pub open spec fn lies_under(path: Seq<char>, base: Seq<char>) -> bool {
    components(base).len() <= components(path).len() && components(path).take(
        components(base).len() as int,
    ) == components(base)
}

fn path_components(path: &str) -> (r: Vec<Vec<char>>)
    ensures
        texts(r@) == components(path@),
{
    let chars = to_chars(path);
    let absolute: bool = chars.len() > 0 && chars[0] == '/';
    let parts = split_on(&chars, '/');
    let ghost all = texts(parts@);
    let mut out: Vec<Vec<char>> = Vec::new();
    let ghost root: Seq<Seq<char>> = if absolute {
        seq![seq!['/']]
    } else {
        Seq::empty()
    };
    if absolute {
        let mut slash: Vec<char> = Vec::new();
        slash.push('/');
        proof {
            assert(slash@ =~= seq!['/']);
        }
        out.push(slash);
    }
    let mut i: usize = 0;
    proof {
        assert(named_pieces(all.take(0), absolute) =~= Seq::<Seq<char>>::empty());
        assert(texts(out@) =~= root + named_pieces(all.take(0), absolute));
    }
    while i < parts.len()
        invariant
            i <= parts.len(),
            all == texts(parts@),
            texts(out@) == root + named_pieces(all.take(i as int), absolute),
        decreases parts.len() - i,
    {
        let part = &parts[i];
        let ghost o = out@;
        proof {
            assert(all.take(i as int + 1).drop_last() == all.take(i as int));
            assert(all.take(i as int + 1).last() == part@);
        }
        let dot: bool = part.len() == 1 && part[0] == '.';
        proof {
            let d = seq!['.'];
            if dot {
                assert(part@ =~= d);
            }
            assert(d[0] == '.');
        }
        if !(part.len() == 0 || (dot && (absolute || i > 0))) {
            let copy = slice_of(part, 0, part.len());
            proof {
                assert(copy@ =~= part@);
            }
            out.push(copy);
            proof {
                assert(texts(out@) =~= texts(o).push(part@));
                assert(texts(out@) =~= root + named_pieces(all.take(i as int + 1), absolute));
            }
        }
        i = i + 1;
    }
    proof {
        assert(all.take(all.len() as int) == all);
        if !absolute {
            assert(root + named_pieces(all, absolute) =~= named_pieces(all, absolute));
        }
    }
    out
}

fn same_chars(a: &Vec<char>, b: &Vec<char>) -> (r: bool)
    ensures
        r == (a@ == b@),
{
    same_text(from_chars(a).as_str(), from_chars(b).as_str())
}

fn is_under(path: &Vec<Vec<char>>, base: &Vec<Vec<char>>) -> (r: bool)
    ensures
        r == (texts(base@).len() <= texts(path@).len() && texts(path@).take(
            texts(base@).len() as int,
        ) == texts(base@)),
{
    if base.len() > path.len() {
        return false;
    }
    let mut i: usize = 0;
    while i < base.len()
        invariant
            base.len() <= path.len(),
            i <= base.len(),
            forall|j: int| 0 <= j < i ==> #[trigger] texts(path@)[j] == texts(base@)[j],
        decreases base.len() - i,
    {
        proof {
            assert(texts(path@)[i as int] == path@[i as int]@);
            assert(texts(base@)[i as int] == base@[i as int]@);
        }
        if !same_chars(&path[i], &base[i]) {
            proof {
                assert(texts(path@).take(base@.len() as int)[i as int] != texts(base@)[i as int]);
            }
            return false;
        }
        i = i + 1;
    }
    proof {
        assert(texts(path@).take(base@.len() as int) =~= texts(base@));
    }
    true
}

/// The mount that holds a path: of the mounts that the path lies under, the
/// deepest, and the last of several equally deep ones.
pub open spec fn holding_mount(mounts: Seq<MountCapacity>, path: Seq<char>) -> Option<int>
    decreases mounts.len(),
{
    if mounts.len() == 0 {
        None
    } else {
        let best = holding_mount(mounts.drop_last(), path);
        let last = mounts.last();
        if lies_under(path, last.mount@) && (best is None || components(last.mount@).len()
            >= components(mounts[best->0].mount@).len()) {
            Some(mounts.len() - 1)
        } else {
            best
        }
    }
}

fn find_mount(mounts: &Vec<MountCapacity>, path: &str) -> (r: Option<usize>)
    ensures
        (match r {
            Some(at) => Some(at as int),
            None => None,
        }) == holding_mount(mounts@, path@),
        r is Some ==> r->0 < mounts@.len(),
{
    let parts = path_components(path);
    let mut best: Option<usize> = None;
    let mut depth: usize = 0;
    let mut i: usize = 0;
    proof {
        assert(mounts@.take(0) =~= Seq::<MountCapacity>::empty());
    }
    while i < mounts.len()
        invariant
            i <= mounts.len(),
            texts(parts@) == components(path@),
            (match best {
                Some(at) => Some(at as int),
                None => None,
            }) == holding_mount(mounts@.take(i as int), path@),
            best is Some ==> best->0 < i && depth == components(
                mounts@[best->0 as int].mount@,
            ).len(),
        decreases mounts.len() - i,
    {
        proof {
            assert(mounts@.take(i as int + 1).drop_last() == mounts@.take(i as int));
            assert(mounts@.take(i as int + 1).last() == mounts@[i as int]);
            if best is Some {
                assert(mounts@.take(i as int + 1)[best->0 as int] == mounts@[best->0 as int]);
            }
        }
        let base = path_components(mounts[i].mount.as_str());
        proof {
            assert(texts(base@).len() == base@.len());
        }
        if is_under(&parts, &base) && (best.is_none() || base.len() >= depth) {
            best = Some(i);
            depth = base.len();
        }
        i = i + 1;
    }
    proof {
        assert(mounts@.take(mounts@.len() as int) == mounts@);
    }
    best
}

/// The holding mount is one of the mounts, holds the path, and no mount that
/// holds it is deeper.
pub proof fn holding_mount_is_deepest(mounts: Seq<MountCapacity>, path: Seq<char>)
    ensures
        ({
            let best = holding_mount(mounts, path);
            &&& best is None <==> forall|i: int|
                0 <= i < mounts.len() ==> !lies_under(path, (#[trigger] mounts[i]).mount@)
            &&& best is Some ==> 0 <= best->0 < mounts.len() && lies_under(
                path,
                mounts[best->0].mount@,
            ) && forall|i: int|
                0 <= i < mounts.len() && lies_under(path, (#[trigger] mounts[i]).mount@)
                    ==> components(mounts[i].mount@).len() <= components(
                    mounts[best->0].mount@,
                ).len()
        }),
    decreases mounts.len(),
{
    if mounts.len() > 0 {
        let rest = mounts.drop_last();
        holding_mount_is_deepest(rest, path);
        assert forall|i: int| 0 <= i < rest.len() implies rest[i] == #[trigger] mounts[i] by {}
        let best = holding_mount(mounts, path);
        if best is None {
            assert forall|i: int| 0 <= i < mounts.len() implies !lies_under(
                path,
                (#[trigger] mounts[i]).mount@,
            ) by {
                if i < rest.len() {
                    assert(!lies_under(path, rest[i].mount@));
                }
            }
        } else {
            assert forall|i: int|
                0 <= i < mounts.len() && lies_under(path, (#[trigger] mounts[i]).mount@)
                implies components(mounts[i].mount@).len() <= components(
                mounts[best->0].mount@,
            ).len() by {
                if i < rest.len() {
                    assert(lies_under(path, rest[i].mount@));
                }
            }
            assert(lies_under(path, mounts[best->0].mount@));
        }
    }
}

/// The complaint about a storage domain that no mount holds.
pub open spec fn no_mount_text(domain: Seq<char>) -> Seq<char> {
    "no mounted filesystem contains the "@ + domain + " storage domain"@
}

/// The complaint about a storage domain whose mount reports no sound capacity.
pub open spec fn bad_capacity_text(domain: Seq<char>) -> Seq<char> {
    "invalid capacity returned for the "@ + domain + " storage domain"@
}

/// The evidence and the complaints about a list of storage domains, in order.
pub open spec fn usage_of(
    storage: Seq<DiagnosticStoragePath>,
    mounts: Seq<MountCapacity>,
) -> (Seq<DiskUsageEvidence>, Seq<Seq<char>>)
    decreases storage.len(),
{
    if storage.len() == 0 {
        (Seq::empty(), Seq::empty())
    } else {
        let (values, errors) = usage_of(storage.drop_last(), mounts);
        let domain = storage.last().domain;
        match holding_mount(mounts, storage.last().path@) {
            None => (values, errors.push(no_mount_text(domain@))),
            Some(at) => {
                let mount = mounts[at];
                if mount.total_bytes == 0 || mount.available_bytes > mount.total_bytes {
                    (values, errors.push(bad_capacity_text(domain@)))
                } else {
                    (
                        values.push(
                            DiskUsageEvidence {
                                storage_domain: domain,
                                used_bytes: (mount.total_bytes - mount.available_bytes) as u64,
                                total_bytes: mount.total_bytes,
                            },
                        ),
                        errors,
                    )
                }
            },
        }
    }
}

/// Append an error to a list of errors.
fn push_text(errors: &mut Vec<String>, error: String)
    ensures
        strings(final(errors)@) == strings(old(errors)@).push(error@),
{
    errors.push(error);
    proof {
        assert(strings(errors@) =~= strings(old(errors)@).push(error@));
    }
}

/// Attribute the capacity of each storage domain to the deepest mount that
/// holds it, in the order of the domains' names.
pub fn disk_usage_from_mounts(
    storage_paths: &Vec<DiagnosticStoragePath>,
    mounts: &Vec<MountCapacity>,
    observed_at: u64,
) -> (r: DiagnosticSource<Vec<DiskUsageEvidence>>)
    ensures
        listed(r@) == if mounts@.len() == 0 {
            Source::Unavailable { reason: "the operating system returned no mounted disks"@ }
        } else {
            finished(
                sorted(usage_of(storage_paths@, mounts@).0),
                usage_of(storage_paths@, mounts@).1,
                observed_at,
            )
        },
{
    if mounts.len() == 0 {
        return DiagnosticSource::Unavailable {
            reason: "the operating system returned no mounted disks".to_owned(),
        };
    }
    let mut values: Vec<DiskUsageEvidence> = Vec::new();
    let mut errors: Vec<String> = Vec::new();
    let mut i: usize = 0;
    proof {
        assert(storage_paths@.take(0) =~= Seq::<DiagnosticStoragePath>::empty());
        assert(strings(errors@) =~= Seq::<Seq<char>>::empty());
    }
    while i < storage_paths.len()
        invariant
            i <= storage_paths.len(),
            (values@, strings(errors@)) == usage_of(storage_paths@.take(i as int), mounts@),
        decreases storage_paths.len() - i,
    {
        let storage = &storage_paths[i];
        proof {
            assert(storage_paths@.take(i as int + 1).drop_last() == storage_paths@.take(i as int));
            assert(storage_paths@.take(i as int + 1).last() == *storage);
        }
        match find_mount(mounts, storage.path.as_str()) {
            None => {
                push_text(
                    &mut errors,
                    sandwich(
                        "no mounted filesystem contains the ",
                        storage.domain.as_str(),
                        " storage domain",
                    ),
                );
            },
            Some(at) => {
                let mount = &mounts[at];
                if mount.total_bytes == 0 || mount.available_bytes > mount.total_bytes {
                    push_text(
                        &mut errors,
                        sandwich(
                            "invalid capacity returned for the ",
                            storage.domain.as_str(),
                            " storage domain",
                        ),
                    );
                } else {
                    values.push(
                        DiskUsageEvidence {
                            storage_domain: storage.domain.clone(),
                            used_bytes: mount.total_bytes - mount.available_bytes,
                            total_bytes: mount.total_bytes,
                        },
                    );
                }
            },
        }
        i = i + 1;
    }
    proof {
        assert(storage_paths@.take(storage_paths@.len() as int) == storage_paths@);
    }
    finish_collection(sort_stably(values), errors, observed_at)
}

/// The disk usage of a node whose collector broke down.
pub fn disk_collector_failed(error: &str) -> (r: DiagnosticSource<Vec<DiskUsageEvidence>>)
    ensures
        r matches DiagnosticSource::Unavailable { reason } && reason@
            == "disk capacity collector failed: "@ + error@,
{
    let mut reason: String = "disk capacity collector failed: ".to_owned();
    reason.append(error);
    DiagnosticSource::Unavailable { reason }
}

/// Collect attributed capacity for configured storage paths from the mounts
/// that the operating system lists.
pub fn collect_disk_usage(
    storage_paths: &Vec<DiagnosticStoragePath>,
    mounts: &Vec<MountCapacity>,
    observed_at: u64,
) -> (r: DiagnosticSource<Vec<DiskUsageEvidence>>)
    ensures
        listed(r@) == if storage_paths@.len() == 0 {
            Source::Unsupported {
                reason: "configured storage paths were not supplied to diagnostics"@,
            }
        } else if mounts@.len() == 0 {
            Source::Unavailable { reason: "the operating system returned no mounted disks"@ }
        } else {
            finished(
                sorted(usage_of(storage_paths@, mounts@).0),
                usage_of(storage_paths@, mounts@).1,
                observed_at,
            )
        },
{
    if storage_paths.len() == 0 {
        return DiagnosticSource::Unsupported {
            reason: "configured storage paths were not supplied to diagnostics".to_owned(),
        };
    }
    disk_usage_from_mounts(storage_paths, mounts, observed_at)
}

/// Every configured storage domain is accounted for, by evidence or by a
/// complaint.
pub proof fn every_domain_is_accounted_for(
    storage: Seq<DiagnosticStoragePath>,
    mounts: Seq<MountCapacity>,
)
    ensures
        usage_of(storage, mounts).0.len() + usage_of(storage, mounts).1.len() == storage.len(),
        forall|i: int|
            0 <= i < usage_of(storage, mounts).0.len() ==> (#[trigger] usage_of(
                storage,
                mounts,
            ).0[i]).used_bytes <= usage_of(storage, mounts).0[i].total_bytes && usage_of(
                storage,
                mounts,
            ).0[i].total_bytes > 0,
    decreases storage.len(),
{
    if storage.len() > 0 {
        every_domain_is_accounted_for(storage.drop_last(), mounts);
        let before = usage_of(storage.drop_last(), mounts).0;
        let after = usage_of(storage, mounts).0;
        assert forall|i: int| 0 <= i < after.len() implies (#[trigger] after[i]).used_bytes
            <= after[i].total_bytes && after[i].total_bytes > 0 by {
            if i < before.len() {
                assert(after[i] == before[i]);
            }
        }
    }
}

/// Cumulative throttled time of one instance.
#[derive(Debug)]
pub struct CpuThrottleTotal {
    /// Application name.
    pub app: String,
    /// Application namespace.
    pub namespace: String,
    /// Instance identifier.
    pub instance: String,
    /// Throttled time since the instance started, in microseconds.
    pub throttled_microseconds: u64,
}

impl Sortable for CpuThrottleTotal {
    open spec fn goes_before(&self, other: &CpuThrottleTotal) -> bool {
        text_less(self.instance@, other.instance@)
    }

    fn before(&self, other: &CpuThrottleTotal) -> (r: bool) {
        text_before(self.instance.as_str(), other.instance.as_str())
    }

    proof fn order_laws(a: CpuThrottleTotal, b: CpuThrottleTotal, c: CpuThrottleTotal) {
        text_order_laws(a.instance@, b.instance@, c.instance@);
    }
}

/// Cgroup CPU throttling observed over a bounded window.
#[derive(Debug)]
pub struct CpuThrottleEvidence {
    /// Application name.
    pub app: String,
    /// Application namespace.
    pub namespace: String,
    /// Instance identifier.
    pub instance: String,
    /// Increase in throttled time over the window, in microseconds.
    pub throttled_microseconds_delta: u64,
    /// Width of the observation window.
    pub window_seconds: u64,
}

impl Sortable for CpuThrottleEvidence {
    open spec fn goes_before(&self, other: &CpuThrottleEvidence) -> bool {
        text_less(self.instance@, other.instance@)
    }

    fn before(&self, other: &CpuThrottleEvidence) -> (r: bool) {
        text_before(self.instance.as_str(), other.instance.as_str())
    }

    proof fn order_laws(a: CpuThrottleEvidence, b: CpuThrottleEvidence, c: CpuThrottleEvidence) {
        text_order_laws(a.instance@, b.instance@, c.instance@);
    }
}

/// What came of reading one instance's `cpu.stat`.
#[derive(Debug)]
pub enum CpuStatRead {
    /// The instance's identifier names no cgroup.
    InvalidIdentifier,
    /// The file could not be read, for the reason given.
    Unreadable(String),
    /// The file's contents.
    Contents(String),
}

/// One instance whose counter is read.
#[derive(Debug)]
pub struct CpuStatSample {
    /// Application name.
    pub app: String,
    /// Application namespace.
    pub namespace: String,
    /// Instance identifier.
    pub instance: String,
    /// What came of the read.
    pub read: CpuStatRead,
}

/// The total of one instance, or the complaint about it.
pub open spec fn total_of(sample: CpuStatSample) -> Result<CpuThrottleTotal, Seq<char>> {
    match sample.read {
        CpuStatRead::InvalidIdentifier => Err(sample.instance@ + " has an invalid instance id"@),
        CpuStatRead::Unreadable(error) => Err(
            "could not read cpu.stat for "@ + sample.instance@ + ": "@ + error@,
        ),
        CpuStatRead::Contents(text) => match throttling_counter(text@) {
            Ok(count) => Ok(
                CpuThrottleTotal {
                    app: sample.app,
                    namespace: sample.namespace,
                    instance: sample.instance,
                    throttled_microseconds: count,
                },
            ),
            Err(error) => Err(
                "invalid cpu.stat for "@ + sample.instance@ + ": "@ + error.text(),
            ),
        },
    }
}

/// The totals and the complaints of a list of samples, in order.
pub open spec fn totals_of(
    samples: Seq<CpuStatSample>,
) -> (Seq<CpuThrottleTotal>, Seq<Seq<char>>)
    decreases samples.len(),
{
    if samples.len() == 0 {
        (Seq::empty(), Seq::empty())
    } else {
        let (values, errors) = totals_of(samples.drop_last());
        match total_of(samples.last()) {
            Ok(total) => (values.push(total), errors),
            Err(error) => (values, errors.push(error)),
        }
    }
}

fn complaint(before: &str, instance: &str, error: &str) -> (r: String)
    ensures
        r@ == before@ + instance@ + ": "@ + error@,
{
    let mut out: String = sandwich(before, instance, ": ");
    out.append(error);
    out
}

/// The complaint about more instances than one collection reads.
pub open spec fn too_many_text(count: usize) -> Seq<char> {
    decimal_text(count as nat) + " instances exceeds the diagnostic collection limit of "@
        + decimal_text(MAX_DIAGNOSTIC_INSTANCES as nat)
}

/// Choose the instances whose counters are sampled: those that have a process.
/// Only they count against the limit.
pub fn instances_to_sample(statuses: &Vec<InstanceStatus>) -> (r: Vec<InstanceStatus>)
    ensures
        r@ == statuses@.filter(|s: InstanceStatus| s.pid is Some),
{
    let ghost alive = |s: InstanceStatus| s.pid is Some;
    let mut list: Vec<InstanceStatus> = Vec::new();
    let mut i: usize = 0;
    proof {
        reveal(Seq::filter);
        assert(statuses@.take(0).filter(alive) =~= Seq::<InstanceStatus>::empty());
    }
    while i < statuses.len()
        invariant
            i <= statuses.len(),
            alive == (|s: InstanceStatus| s.pid is Some),
            list@ == statuses@.take(i as int).filter(alive),
        decreases statuses.len() - i,
    {
        proof {
            reveal(Seq::filter);
            assert(statuses@.take(i as int + 1).drop_last() =~= statuses@.take(i as int));
            assert(statuses@.take(i as int + 1).last() == statuses@[i as int]);
        }
        if statuses[i].pid.is_some() {
            list.push(statuses[i].clone());
        }
        i = i + 1;
    }
    proof {
        assert(statuses@.take(statuses@.len() as int) =~= statuses@);
    }
    list
}

/// Decide whether the counters of so many instances are read.
pub fn check_instance_count(count: usize) -> (r: Option<DiagnosticSource<Vec<CpuThrottleTotal>>>)
    ensures
        r is Some <==> count > MAX_DIAGNOSTIC_INSTANCES,
        r is Some ==> r->0@ == (Source::<Vec<CpuThrottleTotal>>::Unavailable {
            reason: too_many_text(count),
        }),
{
    if count > MAX_DIAGNOSTIC_INSTANCES {
        let mut reason: String = decimal(count as u64);
        reason.append(" instances exceeds the diagnostic collection limit of ");
        reason.append(decimal(MAX_DIAGNOSTIC_INSTANCES as u64).as_str());
        Some(DiagnosticSource::Unavailable { reason })
    } else {
        None
    }
}

/// Collect current cumulative throttling counters from what was read, in the
/// order of the instances' names.
pub fn collect_cpu_throttle_totals(
    samples: Vec<CpuStatSample>,
    observed_at: u64,
) -> (r: DiagnosticSource<Vec<CpuThrottleTotal>>)
    ensures
        listed(r@) == if samples@.len() > MAX_DIAGNOSTIC_INSTANCES {
            Source::Unavailable { reason: too_many_text(samples@.len() as usize) }
        } else {
            finished(sorted(totals_of(samples@).0), totals_of(samples@).1, observed_at)
        },
{
    match check_instance_count(samples.len()) {
        Some(refusal) => {
            return refusal;
        },
        None => {},
    }
    let ghost all = samples@;
    let mut rest = samples;
    let mut values: Vec<CpuThrottleTotal> = Vec::new();
    let mut errors: Vec<String> = Vec::new();
    let ghost mut taken: int = 0;
    proof {
        assert(all.skip(0) =~= all);
        assert(all.take(0) =~= Seq::<CpuStatSample>::empty());
        assert(strings(errors@) =~= Seq::<Seq<char>>::empty());
    }
    while rest.len() > 0
        invariant
            0 <= taken <= all.len(),
            taken + rest@.len() == all.len(),
            rest@ == all.skip(taken),
            (values@, strings(errors@)) == totals_of(all.take(taken)),
        decreases rest.len(),
    {
        let sample = rest.remove(0);
        proof {
            assert(sample == all[taken]);
            assert(rest@ =~= all.skip(taken + 1));
            assert(all.take(taken + 1).drop_last() =~= all.take(taken));
            assert(all.take(taken + 1).last() == sample);
            taken = taken + 1;
        }
        match sample.read {
            CpuStatRead::InvalidIdentifier => {
                let mut error: String = sample.instance.clone();
                error.append(" has an invalid instance id");
                push_text(&mut errors, error);
            },
            CpuStatRead::Unreadable(reason) => {
                push_text(
                    &mut errors,
                    complaint(
                        "could not read cpu.stat for ",
                        sample.instance.as_str(),
                        reason.as_str(),
                    ),
                );
            },
            CpuStatRead::Contents(text) => {
                match parse_throttled_microseconds(text.as_str()) {
                    Ok(count) => {
                        values.push(
                            CpuThrottleTotal {
                                app: sample.app,
                                namespace: sample.namespace,
                                instance: sample.instance,
                                throttled_microseconds: count,
                            },
                        );
                    },
                    Err(error) => {
                        push_text(
                            &mut errors,
                            complaint(
                                "invalid cpu.stat for ",
                                sample.instance.as_str(),
                                error.message().as_str(),
                            ),
                        );
                    },
                }
            },
        }
    }
    proof {
        assert(all.take(taken) =~= all);
    }
    finish_collection(sort_stably(values), errors, observed_at)
}

/// The counter of an instance in a list of totals: the last one listed.
pub open spec fn counter_of(totals: Seq<CpuThrottleTotal>, instance: Seq<char>) -> Option<u64>
    decreases totals.len(),
{
    if totals.len() == 0 {
        None
    } else if totals.last().instance@ == instance {
        Some(totals.last().throttled_microseconds)
    } else {
        counter_of(totals.drop_last(), instance)
    }
}

fn find_counter(totals: &Vec<CpuThrottleTotal>, instance: &str) -> (r: Option<u64>)
    ensures
        r == counter_of(totals@, instance@),
{
    let mut i: usize = totals.len();
    proof {
        assert(totals@.take(i as int) =~= totals@);
    }
    while i > 0
        invariant
            i <= totals.len(),
            counter_of(totals@, instance@) == counter_of(totals@.take(i as int), instance@),
        decreases i,
    {
        proof {
            assert(totals@.take(i as int).drop_last() =~= totals@.take(i - 1));
            assert(totals@.take(i as int).last() == totals@[i - 1]);
        }
        if same_text(totals[i - 1].instance.as_str(), instance) {
            return Some(totals[i - 1].throttled_microseconds);
        }
        i = i - 1;
    }
    None
}

/// A list of names in ascending order with one name more, unless it is there.
pub open spec fn with_name(names: Seq<Seq<char>>, name: Seq<char>) -> Seq<Seq<char>>
    decreases names.len(),
{
    if names.len() == 0 || text_less(names.last(), name) {
        names.push(name)
    } else if names.last() == name {
        names
    } else {
        with_name(names.drop_last(), name).push(names.last())
    }
}

/// The names of the instances in a list of totals, each once, in ascending
/// order.
pub open spec fn instance_names(totals: Seq<CpuThrottleTotal>) -> Seq<Seq<char>>
    decreases totals.len(),
{
    if totals.len() == 0 {
        Seq::empty()
    } else {
        with_name(instance_names(totals.drop_last()), totals.last().instance@)
    }
}

proof fn with_name_at(names: Seq<Seq<char>>, name: Seq<char>, at: int)
    requires
        0 <= at <= names.len(),
        forall|i: int|
            at <= i < names.len() ==> !text_less(#[trigger] names[i], name) && names[i] != name,
        at == 0 || text_less(names[at - 1], name) || names[at - 1] == name,
    ensures
        with_name(names, name) == if at > 0 && names[at - 1] == name && !text_less(
            names[at - 1],
            name,
        ) {
            names
        } else {
            names.insert(at, name)
        },
    decreases names.len(),
{
    if at == names.len() {
        assert(names.insert(at, name) =~= names.push(name));
    } else {
        with_name_at(names.drop_last(), name, at);
        assert(names.insert(at, name) =~= names.drop_last().insert(at, name).push(names.last()));
        assert(names =~= names.drop_last().push(names.last()));
    }
}

fn collect_names(totals: &Vec<CpuThrottleTotal>) -> (r: Vec<String>)
    ensures
        strings(r@) == instance_names(totals@),
{
    let mut names: Vec<String> = Vec::new();
    let mut i: usize = 0;
    proof {
        assert(strings(names@) =~= instance_names(totals@.take(0)));
    }
    while i < totals.len()
        invariant
            i <= totals.len(),
            strings(names@) == instance_names(totals@.take(i as int)),
        decreases totals.len() - i,
    {
        let name = &totals[i].instance;
        let ghost before = strings(names@);
        let ghost old_names = names@;
        proof {
            assert(totals@.take(i as int + 1).drop_last() =~= totals@.take(i as int));
            assert(totals@.take(i as int + 1).last() == totals@[i as int]);
        }
        let mut at: usize = names.len();
        while at > 0 && !text_before(names[at - 1].as_str(), name.as_str()) && !same_text(
            names[at - 1].as_str(),
            name.as_str(),
        )
            invariant
                at <= names.len(),
                names@ == old_names,
                before == strings(names@),
                forall|k: int|
                    at <= k < before.len() ==> !text_less(#[trigger] before[k], name@) && before[k]
                        != name@,
            decreases at,
        {
            proof {
                assert(before[at - 1] == names@[at - 1]@);
            }
            at = at - 1;
        }
        proof {
            if at > 0 {
                assert(before[at - 1] == names@[at - 1]@);
            }
            with_name_at(before, name@, at as int);
        }
        if !(at > 0 && same_text(names[at - 1].as_str(), name.as_str())) {
            names.insert(at, name.clone());
            proof {
                assert(strings(names@) =~= before.insert(at as int, name@));
            }
        } else {
            proof {
                text_less_irreflexive(name@);
            }
        }
        i = i + 1;
    }
    proof {
        assert(totals@.take(totals@.len() as int) =~= totals@);
    }
    names
}

/// The complaint about an instance that the first sample did not have.
pub open spec fn appeared_text(instance: Seq<char>) -> Seq<char> {
    "instance "@ + instance + " appeared during the CPU observation window"@
}

/// The complaint about an instance whose counter went back.
pub open spec fn reset_text(instance: Seq<char>) -> Seq<char> {
    "CPU throttle counter reset for instance "@ + instance
}

/// The complaint about an instance that the second sample did not have.
pub open spec fn disappeared_text(instance: Seq<char>) -> Seq<char> {
    "instance "@ + instance + " disappeared during the CPU observation window"@
}

/// The deltas and the complaints of a second sample against a first one, in
/// the order of the second, after some complaints.
pub open spec fn deltas(
    first: Seq<CpuThrottleTotal>,
    second: Seq<CpuThrottleTotal>,
    errors: Seq<Seq<char>>,
    window_seconds: u64,
) -> (Seq<CpuThrottleEvidence>, Seq<Seq<char>>)
    decreases second.len(),
{
    if second.len() == 0 {
        (Seq::empty(), errors)
    } else {
        let (values, errors) = deltas(first, second.drop_last(), errors, window_seconds);
        let sample = second.last();
        match counter_of(first, sample.instance@) {
            None => (values, errors.push(appeared_text(sample.instance@))),
            Some(previous) => if sample.throttled_microseconds < previous {
                (values, errors.push(reset_text(sample.instance@)))
            } else {
                (
                    values.push(
                        CpuThrottleEvidence {
                            app: sample.app,
                            namespace: sample.namespace,
                            instance: sample.instance,
                            throttled_microseconds_delta: (sample.throttled_microseconds
                                - previous) as u64,
                            window_seconds,
                        },
                    ),
                    errors,
                )
            },
        }
    }
}

/// Whether some delta is about an instance.
pub open spec fn has_delta(values: Seq<CpuThrottleEvidence>, instance: Seq<char>) -> bool {
    exists|i: int| 0 <= i < values.len() && (#[trigger] values[i]).instance@ == instance
}

/// Whether some complaint mentions an instance.
pub open spec fn mentioned(errors: Seq<Seq<char>>, instance: Seq<char>) -> bool {
    exists|i: int| 0 <= i < errors.len() && occurs(instance, #[trigger] errors[i])
}

/// The complaints, and one more for each name that neither a delta nor a
/// complaint is about.
pub open spec fn with_disappeared(
    names: Seq<Seq<char>>,
    values: Seq<CpuThrottleEvidence>,
    errors: Seq<Seq<char>>,
) -> Seq<Seq<char>>
    decreases names.len(),
{
    if names.len() == 0 {
        errors
    } else {
        let before = with_disappeared(names.drop_last(), values, errors);
        if has_delta(values, names.last()) || mentioned(before, names.last()) {
            before
        } else {
            before.push(disappeared_text(names.last()))
        }
    }
}

/// What two samples of cumulative counters show of the window between them.
pub open spec fn window(
    first: Source<Seq<CpuThrottleTotal>>,
    second: Source<Seq<CpuThrottleTotal>>,
    window_seconds: u64,
    observed_at: u64,
) -> Source<Seq<CpuThrottleEvidence>> {
    let complaints = first.complaints() + second.complaints();
    if first.usable() is None || second.usable() is None {
        Source::Unavailable { reason: joined(complaints, "; "@) }
    } else {
        let (values, errors) = deltas(
            first.usable()->0,
            second.usable()->0,
            complaints,
            window_seconds,
        );
        let names = instance_names(first.usable()->0);
        let errors = if names.len() != values.len() {
            with_disappeared(names, values, errors)
        } else {
            errors
        };
        finished(sorted(values), errors, observed_at)
    }
}

fn any_delta(values: &Vec<CpuThrottleEvidence>, instance: &str) -> (r: bool)
    ensures
        r == has_delta(values@, instance@),
{
    let mut i: usize = 0;
    while i < values.len()
        invariant
            i <= values.len(),
            forall|j: int| 0 <= j < i ==> (#[trigger] values@[j]).instance@ != instance@,
        decreases values.len() - i,
    {
        if same_text(values[i].instance.as_str(), instance) {
            return true;
        }
        i = i + 1;
    }
    false
}

fn any_mention(errors: &Vec<String>, instance: &str) -> (r: bool)
    ensures
        r == mentioned(strings(errors@), instance@),
{
    let mut i: usize = 0;
    while i < errors.len()
        invariant
            i <= errors.len(),
            forall|j: int| 0 <= j < i ==> !occurs(instance@, #[trigger] strings(errors@)[j]),
        decreases errors.len() - i,
    {
        proof {
            assert(strings(errors@)[i as int] == errors@[i as int]@);
        }
        if contains_text(errors[i].as_str(), instance) {
            return true;
        }
        i = i + 1;
    }
    false
}

/// Calculate bounded deltas between two cumulative samples.
pub fn cpu_throttle_window(
    first: DiagnosticSource<Vec<CpuThrottleTotal>>,
    second: DiagnosticSource<Vec<CpuThrottleTotal>>,
    window_seconds: u64,
    observed_at: u64,
) -> (r: DiagnosticSource<Vec<CpuThrottleEvidence>>)
    ensures
        listed(r@) == window(listed(first@), listed(second@), window_seconds, observed_at),
{
    let ghost first_view = listed(first@);
    let ghost second_view = listed(second@);
    let (first, mut errors, _) = first.into_parts();
    let (second, mut second_errors, _) = second.into_parts();
    let ghost e1 = errors@;
    let ghost e2 = second_errors@;
    errors.append(&mut second_errors);
    let ghost complaints = strings(errors@);
    proof {
        assert(complaints =~= strings(e1) + strings(e2));
        assert(complaints == first_view.complaints() + second_view.complaints());
    }
    let (first, second) = match (first, second) {
        (Some(first), Some(second)) => (first, second),
        _ => {
            return DiagnosticSource::Unavailable { reason: join(&errors, "; ") };
        },
    };
    let ghost all = second@;
    let mut rest = second;
    let mut values: Vec<CpuThrottleEvidence> = Vec::new();
    let ghost mut taken: int = 0;
    proof {
        assert(all.skip(0) =~= all);
        assert(all.take(0) =~= Seq::<CpuThrottleTotal>::empty());
    }
    while rest.len() > 0
        invariant
            0 <= taken <= all.len(),
            taken + rest@.len() == all.len(),
            rest@ == all.skip(taken),
            (values@, strings(errors@)) == deltas(
                first@,
                all.take(taken),
                complaints,
                window_seconds,
            ),
        decreases rest.len(),
    {
        let sample = rest.remove(0);
        proof {
            assert(sample == all[taken]);
            assert(rest@ =~= all.skip(taken + 1));
            assert(all.take(taken + 1).drop_last() =~= all.take(taken));
            assert(all.take(taken + 1).last() == sample);
            taken = taken + 1;
        }
        match find_counter(&first, sample.instance.as_str()) {
            None => {
                push_text(
                    &mut errors,
                    sandwich(
                        "instance ",
                        sample.instance.as_str(),
                        " appeared during the CPU observation window",
                    ),
                );
            },
            Some(previous) => {
                if sample.throttled_microseconds < previous {
                    let mut error: String = "CPU throttle counter reset for instance ".to_owned();
                    error.append(sample.instance.as_str());
                    push_text(&mut errors, error);
                } else {
                    values.push(
                        CpuThrottleEvidence {
                            app: sample.app,
                            namespace: sample.namespace,
                            instance: sample.instance,
                            throttled_microseconds_delta: sample.throttled_microseconds - previous,
                            window_seconds,
                        },
                    );
                }
            },
        }
    }
    proof {
        assert(all.take(taken) =~= all);
    }
    let names = collect_names(&first);
    proof {
        assert(strings(names@).len() == names@.len());
    }
    if names.len() != values.len() {
        let ghost before = strings(errors@);
        let ghost listed_names = strings(names@);
        let mut i: usize = 0;
        proof {
            assert(with_disappeared(listed_names.take(0), values@, before) == before);
        }
        while i < names.len()
            invariant
                i <= names.len(),
                listed_names == strings(names@),
                strings(errors@) == with_disappeared(
                    listed_names.take(i as int),
                    values@,
                    before,
                ),
            decreases names.len() - i,
        {
            let name = names[i].as_str();
            proof {
                assert(listed_names.take(i as int + 1).drop_last() =~= listed_names.take(
                    i as int,
                ));
                assert(listed_names.take(i as int + 1).last() == names@[i as int]@);
            }
            if !any_delta(&values, name) && !any_mention(&errors, name) {
                push_text(
                    &mut errors,
                    sandwich("instance ", name, " disappeared during the CPU observation window"),
                );
            }
            i = i + 1;
        }
        proof {
            assert(listed_names.take(listed_names.len() as int) =~= listed_names);
        }
    }
    finish_collection(sort_stably(values), errors, observed_at)
}

/// Whether no instance occurs twice in a list of totals.
pub open spec fn distinct_instances(totals: Seq<CpuThrottleTotal>) -> bool {
    forall|i: int, j: int|
        0 <= i < j < totals.len() ==> (#[trigger] totals[i]).instance@ != (
        #[trigger] totals[j]).instance@
}

/// Every instance of the first sample is accounted for: it has a delta, or a
/// complaint mentions it, if the second sample lists no instance twice.
pub proof fn no_instance_is_lost(
    first: Seq<CpuThrottleTotal>,
    second: Seq<CpuThrottleTotal>,
    complaints: Seq<Seq<char>>,
    window_seconds: u64,
    at: int,
)
    requires
        distinct_instances(second),
        0 <= at < first.len(),
    ensures
        ({
            let (values, errors) = deltas(first, second, complaints, window_seconds);
            let names = instance_names(first);
            let errors = if names.len() != values.len() {
                with_disappeared(names, values, errors)
            } else {
                errors
            };
            has_delta(values, first[at].instance@) || mentioned(errors, first[at].instance@)
        }),
{
    let (values, errors) = deltas(first, second, complaints, window_seconds);
    let names = instance_names(first);
    let name = first[at].instance@;
    names_of_instances(first);
    assert(names.contains(name));
    if names.len() != values.len() {
        accounted_after(names, values, errors, name);
    } else if !has_delta(values, name) {
        deltas_are_of_the_first(first, second, complaints, window_seconds);
        let owners = values.map_values(|v: CpuThrottleEvidence| v.instance@);
        assert(owners.no_duplicates()) by {
            assert forall|i: int, j: int|
                0 <= i < owners.len() && 0 <= j < owners.len() && i != j implies owners[i]
                != owners[j] by {
                if i < j {
                    assert(values[i].instance@ != values[j].instance@);
                } else {
                    assert(values[j].instance@ != values[i].instance@);
                }
            }
        }
        owners.unique_seq_to_set();
        names.unique_seq_to_set();
        let rest = names.to_set().remove(name);
        assert forall|n: Seq<char>| owners.to_set().contains(n) implies rest.contains(n) by {
            let i = choose|i: int| 0 <= i < owners.len() && owners[i] == n;
            assert(values[i].instance@ == n);
            assert(counter_of(first, values[i].instance@) is Some);
            counter_is_listed(first, n);
        }
        vstd::set_lib::lemma_len_subset(owners.to_set(), rest);
    }
}

proof fn counter_is_listed(totals: Seq<CpuThrottleTotal>, name: Seq<char>)
    requires
        counter_of(totals, name) is Some,
    ensures
        instance_names(totals).contains(name),
    decreases totals.len(),
{
    if totals.len() > 0 {
        names_of_instances(totals);
        if totals.last().instance@ != name {
            counter_is_listed(totals.drop_last(), name);
            with_name_contains(
                instance_names(totals.drop_last()),
                totals.last().instance@,
                name,
            );
        } else {
            assert(totals[totals.len() - 1].instance@ == name);
        }
    }
}

proof fn with_name_contains(names: Seq<Seq<char>>, name: Seq<char>, other: Seq<char>)
    ensures
        with_name(names, name).contains(other) <==> names.contains(other) || other == name,
    decreases names.len(),
{
    let r = with_name(names, name);
    if names.len() == 0 || text_less(names.last(), name) {
        if names.contains(other) {
            let i = choose|i: int| 0 <= i < names.len() && names[i] == other;
            assert(r[i] == other);
        }
        assert(r[names.len() as int] == name);
        if r.contains(other) {
            let i = choose|i: int| 0 <= i < r.len() && r[i] == other;
            if i < names.len() {
                assert(names[i] == other);
            }
        }
    } else if names.last() == name {
        assert(names[names.len() - 1] == name);
    } else {
        let shorter = names.drop_last();
        with_name_contains(shorter, name, other);
        let inner = with_name(shorter, name);
        if r.contains(other) {
            let i = choose|i: int| 0 <= i < r.len() && r[i] == other;
            if i < inner.len() {
                assert(inner[i] == other);
                if shorter.contains(other) {
                    let k = choose|k: int| 0 <= k < shorter.len() && shorter[k] == other;
                    assert(names[k] == other);
                }
            } else {
                assert(names[names.len() - 1] == other);
            }
        }
        if names.contains(other) || other == name {
            if inner.contains(other) {
                let i = choose|i: int| 0 <= i < inner.len() && inner[i] == other;
                assert(r[i] == other);
            } else {
                let k = choose|k: int| 0 <= k < names.len() && names[k] == other;
                if k < shorter.len() {
                    assert(shorter[k] == other);
                }
                assert(r[inner.len() as int] == other);
            }
        }
    }
}

/// Whether a list of names ascends strictly.
pub open spec fn ascending_names(names: Seq<Seq<char>>) -> bool {
    forall|i: int, j: int|
        0 <= i < j < names.len() ==> text_less(#[trigger] names[i], #[trigger] names[j])
}

proof fn with_name_ascends(names: Seq<Seq<char>>, name: Seq<char>)
    requires
        ascending_names(names),
    ensures
        ascending_names(with_name(names, name)),
    decreases names.len(),
{
    let r = with_name(names, name);
    if names.len() == 0 || text_less(names.last(), name) {
        assert forall|i: int, j: int| 0 <= i < j < r.len() implies text_less(
            #[trigger] r[i],
            #[trigger] r[j],
        ) by {
            if j == names.len() && i < names.len() - 1 {
                assert(text_less(names[i], names[names.len() - 1]));
                text_less_transitive(names[i], names.last(), name);
            }
        }
    } else if names.last() == name {
    } else {
        let shorter = names.drop_last();
        let inner = with_name(shorter, name);
        with_name_ascends(shorter, name);
        assert forall|i: int, j: int| 0 <= i < j < r.len() implies text_less(
            #[trigger] r[i],
            #[trigger] r[j],
        ) by {
            if j == inner.len() {
                with_name_contains(shorter, name, inner[i]);
                assert(inner.contains(inner[i]));
                if inner[i] == name {
                    text_less_total(name, names.last());
                } else {
                    let k = choose|k: int| 0 <= k < shorter.len() && shorter[k] == inner[i];
                    assert(text_less(names[k], names[names.len() - 1]));
                }
            }
        }
    }
}

/// The names of a list of totals ascend, so that none occurs twice, and they
/// are the names of its instances.
pub proof fn names_of_instances(totals: Seq<CpuThrottleTotal>)
    ensures
        ascending_names(instance_names(totals)),
        instance_names(totals).no_duplicates(),
        forall|i: int|
            0 <= i < totals.len() ==> instance_names(totals).contains(
                (#[trigger] totals[i]).instance@,
            ),
    decreases totals.len(),
{
    let names = instance_names(totals);
    if totals.len() > 0 {
        let rest = totals.drop_last();
        names_of_instances(rest);
        with_name_ascends(instance_names(rest), totals.last().instance@);
        assert forall|i: int| 0 <= i < totals.len() implies names.contains(
            (#[trigger] totals[i]).instance@,
        ) by {
            with_name_contains(
                instance_names(rest),
                totals.last().instance@,
                totals[i].instance@,
            );
            if i < rest.len() {
                assert(rest[i] == totals[i]);
            }
        }
    }
    assert forall|i: int, j: int|
        0 <= i < names.len() && 0 <= j < names.len() && i != j implies names[i] != names[j] by {
        text_less_irreflexive(names[i]);
        if i < j {
            assert(text_less(names[i], names[j]));
        } else {
            assert(text_less(names[j], names[i]));
        }
    }
}

proof fn deltas_are_of_the_first(
    first: Seq<CpuThrottleTotal>,
    second: Seq<CpuThrottleTotal>,
    complaints: Seq<Seq<char>>,
    window_seconds: u64,
)
    requires
        distinct_instances(second),
    ensures
        ({
            let values = deltas(first, second, complaints, window_seconds).0;
            &&& forall|i: int|
                0 <= i < values.len() ==> counter_of(first, (#[trigger] values[i]).instance@) is Some
            &&& forall|i: int|
                0 <= i < values.len() ==> exists|j: int|
                    0 <= j < second.len() && (#[trigger] second[j]).instance@ == (
                    #[trigger] values[i]).instance@
            &&& forall|i: int, j: int|
                0 <= i < j < values.len() ==> (#[trigger] values[i]).instance@ != (
                #[trigger] values[j]).instance@
        }),
    decreases second.len(),
{
    if second.len() > 0 {
        let rest = second.drop_last();
        assert(distinct_instances(rest)) by {
            assert forall|i: int, j: int| 0 <= i < j < rest.len() implies (
            #[trigger] rest[i]).instance@ != (#[trigger] rest[j]).instance@ by {
                assert(second[i].instance@ != second[j].instance@);
            }
        }
        deltas_are_of_the_first(first, rest, complaints, window_seconds);
        let before = deltas(first, rest, complaints, window_seconds).0;
        let values = deltas(first, second, complaints, window_seconds).0;
        assert forall|i: int| 0 <= i < values.len() implies exists|j: int|
            0 <= j < second.len() && (#[trigger] second[j]).instance@ == (
            #[trigger] values[i]).instance@ by {
            if i < before.len() {
                assert(values[i] == before[i]);
                let j = choose|j: int|
                    0 <= j < rest.len() && (#[trigger] rest[j]).instance@ == before[i].instance@;
                assert(second[j].instance@ == values[i].instance@);
            } else {
                assert(second[second.len() - 1].instance@ == values[i].instance@);
            }
        }
        assert forall|i: int, j: int| 0 <= i < j < values.len() implies (
        #[trigger] values[i]).instance@ != (#[trigger] values[j]).instance@ by {
            assert(values[i] == before[i]);
            if j < before.len() {
                assert(values[j] == before[j]);
            } else {
                let k = choose|k: int|
                    0 <= k < rest.len() && (#[trigger] rest[k]).instance@ == before[i].instance@;
                assert(second[k].instance@ != second[second.len() - 1].instance@);
            }
        }
        assert forall|i: int| 0 <= i < values.len() implies counter_of(
            first,
            (#[trigger] values[i]).instance@,
        ) is Some by {
            if i < before.len() {
                assert(values[i] == before[i]);
            }
        }
    }
}

proof fn mention_stays(errors: Seq<Seq<char>>, more: Seq<char>, name: Seq<char>)
    requires
        mentioned(errors, name),
    ensures
        mentioned(errors.push(more), name),
{
    let i = choose|i: int| 0 <= i < errors.len() && occurs(name, #[trigger] errors[i]);
    assert(errors.push(more)[i] == errors[i]);
}

proof fn accounted_after(
    names: Seq<Seq<char>>,
    values: Seq<CpuThrottleEvidence>,
    errors: Seq<Seq<char>>,
    name: Seq<char>,
)
    requires
        names.contains(name),
    ensures
        has_delta(values, name) || mentioned(with_disappeared(names, values, errors), name),
    decreases names.len(),
{
    let rest = names.drop_last();
    let before = with_disappeared(rest, values, errors);
    let last = names.last();
    if rest.contains(name) {
        accounted_after(rest, values, errors, name);
        if mentioned(before, name) {
            mention_stays(before, disappeared_text(last), name);
        }
    } else {
        let k = choose|k: int| 0 <= k < names.len() && names[k] == name;
        if k < rest.len() {
            assert(rest[k] == name);
        }
        assert(last == name);
        let text = disappeared_text(name);
        let start = "instance "@.len() as int;
        assert(text.subrange(start, start + name.len()) =~= name);
        assert(occurs(name, text));
        let after = before.push(text);
        assert(after[before.len() as int] == text);
    }
}

/// Certificate metadata safe to return from an authenticated read endpoint.
#[derive(Debug)]
pub struct PublicCertificateMetadata {
    /// `node` or `workload`.
    pub certificate_kind: String,
    /// Node name or SPIFFE URI.
    pub identity: String,
    /// X.509 issuer distinguished name.
    pub issuer: String,
    /// X.509 serial number in hexadecimal.
    pub serial: String,
    /// Unix timestamp, in seconds, when the leaf expires.
    pub not_after: u64,
    /// Current lifecycle state such as `valid`, `grace_period` or
    /// `restart_required`.
    pub rotation_state: String,
    /// Whether the leaf can be rotated without a process restart.
    pub automatic_rotation: bool,
}

impl Clone for PublicCertificateMetadata {
    fn clone(&self) -> (r: Self)
        ensures
            r == *self,
    {
        PublicCertificateMetadata {
            certificate_kind: self.certificate_kind.clone(),
            identity: self.identity.clone(),
            issuer: self.issuer.clone(),
            serial: self.serial.clone(),
            not_after: self.not_after,
            rotation_state: self.rotation_state.clone(),
            automatic_rotation: self.automatic_rotation,
        }
    }
}

/// What a certificate's contents amount to: its metadata, or a complaint.
pub open spec fn describes(
    r: Result<PublicCertificateMetadata, String>,
    kind: Seq<char>,
    identity: Seq<char>,
    contents: Result<(i64, Seq<char>, Seq<char>), Seq<char>>,
    rotation_state: Seq<char>,
    automatic_rotation: bool,
) -> bool {
    match contents {
        Err(complaint) => r matches Err(text) && text@ == "could not parse "@ + kind
            + " certificate: "@ + complaint,
        Ok((not_after, issuer, serial)) => if not_after < 0 {
            r matches Err(text) && text@ == kind + " certificate expires before Unix epoch"@
        } else {
            r matches Ok(metadata) && metadata.certificate_kind@ == kind && metadata.identity@
                == identity && metadata.issuer@ == issuer && metadata.serial@ == serial
                && metadata.not_after == not_after && metadata.rotation_state@ == rotation_state
                && metadata.automatic_rotation == automatic_rotation
        },
    }
}

/// Make the public metadata of a certificate out of what was parsed of it.
pub fn metadata_of_certificate(
    certificate_kind: &str,
    identity: &str,
    parsed: Result<CertificateFacts, String>,
    rotation_state: &str,
    automatic_rotation: bool,
) -> (r: Result<PublicCertificateMetadata, String>)
    ensures
        describes(
            r,
            certificate_kind@,
            identity@,
            contents_of(parsed),
            rotation_state@,
            automatic_rotation,
        ),
{
    match parsed {
        Err(complaint) => {
            let mut text: String = sandwich("could not parse ", certificate_kind, " certificate: ");
            text.append(complaint.as_str());
            Err(text)
        },
        Ok(facts) => {
            if facts.not_after < 0 {
                let mut text: String = certificate_kind.to_owned();
                text.append(" certificate expires before Unix epoch");
                return Err(text);
            }
            Ok(
                PublicCertificateMetadata {
                    certificate_kind: certificate_kind.to_owned(),
                    identity: identity.to_owned(),
                    issuer: facts.issuer,
                    serial: facts.serial,
                    not_after: facts.not_after as u64,
                    rotation_state: rotation_state.to_owned(),
                    automatic_rotation,
                },
            )
        },
    }
}

/// Extract safe public metadata from a DER certificate.
pub fn public_certificate_metadata(
    certificate_kind: &str,
    identity: &str,
    certificate_der: &[u8],
    rotation_state: &str,
    automatic_rotation: bool,
) -> (r: Result<PublicCertificateMetadata, String>)
    ensures
        describes(
            r,
            certificate_kind@,
            identity@,
            certificate_contents(certificate_der@),
            rotation_state@,
            automatic_rotation,
        ),
{
    metadata_of_certificate(
        certificate_kind,
        identity,
        parse_certificate(certificate_der),
        rotation_state,
        automatic_rotation,
    )
}

/// Startup facts needed only by the local diagnostics endpoint.
#[derive(Debug)]
pub struct DiagnosticStaticEvidence {
    /// Configured data, image, log, metric and volume paths.
    pub storage_paths: Vec<DiagnosticStoragePath>,
    /// Public node leaf metadata, when cluster mTLS is configured.
    pub node_certificate: Option<PublicCertificateMetadata>,
}

/// Complete local payload for the authenticated diagnostics API.
#[derive(Debug)]
pub struct LocalDiagnosticSnapshot {
    /// Wire schema version.
    pub schema_version: u32,
    /// Node which made the observations.
    pub node_id: String,
    /// Unix timestamp, in seconds, when collection completed.
    pub observed_at: u64,
    /// Per-storage-domain capacity.
    pub disks: DiagnosticSource<Vec<DiskUsageEvidence>>,
    /// Actual cgroup throttled-time deltas.
    pub cpu_throttling: DiagnosticSource<Vec<CpuThrottleEvidence>>,
    /// Public certificate lifecycle metadata.
    pub certificates: DiagnosticSource<Vec<PublicCertificateMetadata>>,
}

/// Desired service state used to distinguish an intentionally empty service
/// from a service which lost all of its backends.
#[derive(Debug, PartialEq, Eq)]
pub struct DesiredAppEvidence {
    /// Application name.
    pub app: String,
    /// Application namespace.
    pub namespace: String,
    /// Desired replicas after resolving fixed versus daemon mode.
    pub desired_replicas: u32,
    /// Placements currently recorded by the scheduler.
    pub scheduled_replicas: u32,
    /// Declared service port. `None` means this app is not a service.
    pub service_port: Option<u16>,
}

impl Sortable for DesiredAppEvidence {
    open spec fn goes_before(&self, other: &DesiredAppEvidence) -> bool {
        text_less(self.namespace@, other.namespace@) || (self.namespace@ == other.namespace@
            && text_less(self.app@, other.app@))
    }

    fn before(&self, other: &DesiredAppEvidence) -> (r: bool) {
        text_before(self.namespace.as_str(), other.namespace.as_str()) || (same_text(
            self.namespace.as_str(),
            other.namespace.as_str(),
        ) && text_before(self.app.as_str(), other.app.as_str()))
    }

    proof fn order_laws(a: DesiredAppEvidence, b: DesiredAppEvidence, c: DesiredAppEvidence) {
        text_order_laws(a.namespace@, b.namespace@, c.namespace@);
        text_order_laws(a.app@, b.app@, c.app@);
        text_less_irreflexive(a.namespace@);
        text_less_total(a.namespace@, b.namespace@);
        text_less_total(b.namespace@, c.namespace@);
        text_less_total(a.namespace@, c.namespace@);
    }
}

/// An app that the cluster is asked to run.
#[derive(Debug)]
pub struct DesiredApp {
    /// Application name.
    pub name: String,
    /// Application namespace.
    pub namespace: String,
    /// Declared replicas.
    pub replicas: Replicas,
    /// Placements that the scheduler recorded.
    pub placements: usize,
    /// Declared service port.
    pub port: Option<u16>,
}

/// The evidence of one desired app.
pub open spec fn desired_evidence(app: DesiredApp, live_nodes: usize) -> DesiredAppEvidence {
    DesiredAppEvidence {
        app: app.name,
        namespace: app.namespace,
        desired_replicas: replicas_wanted(app.replicas, live_nodes),
        scheduled_replicas: if app.placements > u32::MAX {
            u32::MAX
        } else {
            app.placements as u32
        },
        service_port: app.port,
    }
}

/// The evidence of a list of desired apps, in order.
pub open spec fn desired_list(apps: Seq<DesiredApp>, live_nodes: usize) -> Seq<
    DesiredAppEvidence,
> {
    apps.map_values(|app: DesiredApp| desired_evidence(app, live_nodes))
}

/// List the desired apps by namespace and name. A cluster without a known
/// member still has this node.
pub fn desired_apps(apps: &Vec<DesiredApp>, members: Option<usize>) -> (r: Vec<
    DesiredAppEvidence,
>)
    ensures
        r@ == sorted(
            desired_list(
                apps@,
                if members is Some && members->0 > 1 {
                    members->0
                } else {
                    1
                },
            ),
        ),
{
    let live_nodes: usize = match members {
        Some(count) => if count > 1 {
            count
        } else {
            1
        },
        None => 1,
    };
    let mut list: Vec<DesiredAppEvidence> = Vec::new();
    let mut i: usize = 0;
    while i < apps.len()
        invariant
            i <= apps.len(),
            list@ == desired_list(apps@, live_nodes).take(i as int),
        decreases apps.len() - i,
    {
        let app = &apps[i];
        let scheduled: u32 = if app.placements as u64 > u32::MAX as u64 {
            u32::MAX
        } else {
            app.placements as u32
        };
        list.push(
            DesiredAppEvidence {
                app: app.name.clone(),
                namespace: app.namespace.clone(),
                desired_replicas: desired_replica_count(app.replicas, live_nodes),
                scheduled_replicas: scheduled,
                service_port: app.port,
            },
        );
        proof {
            assert(desired_list(apps@, live_nodes).take(i as int + 1) =~= desired_list(
                apps@,
                live_nodes,
            ).take(i as int).push(desired_list(apps@, live_nodes)[i as int]));
        }
        i = i + 1;
    }
    proof {
        assert(desired_list(apps@, live_nodes).take(apps@.len() as int) =~= desired_list(
            apps@,
            live_nodes,
        ));
    }
    sort_stably(list)
}

/// The apps of a list that a caller may touch, in order.
pub open spec fn visible_apps(
    apps: Seq<DesiredAppEvidence>,
    auth: Option<AuthContext>,
) -> Seq<DesiredAppEvidence> {
    apps.filter(|e: DesiredAppEvidence| may_touch(auth, e.app@, e.namespace@))
}

/// Keep the apps that are in the caller's scope.
pub fn filter_desired_apps_for_scope(
    apps: Vec<DesiredAppEvidence>,
    auth: Option<&AuthContext>,
) -> (r: Vec<DesiredAppEvidence>)
    ensures
        r@ == visible_apps(apps@, caller(auth)),
{
    let ghost all = apps@;
    let ghost visible = |e: DesiredAppEvidence|
        may_touch(caller(auth), e.app@, e.namespace@);
    let mut rest = apps;
    let mut kept: Vec<DesiredAppEvidence> = Vec::new();
    let ghost mut taken: int = 0;
    proof {
        reveal(Seq::filter);
        assert(all.skip(0) =~= all);
        assert(all.take(0).filter(visible) =~= Seq::<DesiredAppEvidence>::empty());
    }
    while rest.len() > 0
        invariant
            0 <= taken <= all.len(),
            taken + rest@.len() == all.len(),
            rest@ == all.skip(taken),
            visible == (|e: DesiredAppEvidence| may_touch(caller(auth), e.app@, e.namespace@)),
            kept@ == all.take(taken).filter(visible),
        decreases rest.len(),
    {
        let app = rest.remove(0);
        proof {
            reveal(Seq::filter);
            assert(app == all[taken]);
            assert(rest@ =~= all.skip(taken + 1));
            assert(all.take(taken + 1).drop_last() =~= all.take(taken));
            assert(all.take(taken + 1).last() == app);
            taken = taken + 1;
        }
        match authorize_scoped(auth, app.app.as_str(), app.namespace.as_str()) {
            Ok(()) => {
                kept.push(app);
            },
            Err(_) => {},
        }
    }
    proof {
        assert(all.take(taken) =~= all);
    }
    kept
}

/// The width of the CPU window that a request asks for, in seconds: one by
/// default, and never over ten.
pub fn window_width(requested: Option<u64>) -> (r: u64)
    ensures
        1 <= r <= 10,
        requested is None ==> r == 1,
        requested is Some ==> r == if requested->0 < 1 {
            1
        } else if requested->0 > 10 {
            10
        } else {
            requested->0
        },
{
    match requested {
        None => 1,
        Some(seconds) => if seconds < 1 {
            1
        } else if seconds > 10 {
            10
        } else {
            seconds
        },
    }
}

/// What the certificate source of a node shows: its leaf if one is loaded.
pub open spec fn certificate_source(
    node_certificate: Option<PublicCertificateMetadata>,
    identity: bool,
    observed_at: u64,
) -> Source<Seq<PublicCertificateMetadata>> {
    match node_certificate {
        Some(certificate) => Source::Available { observed_at, value: seq![certificate] },
        None => if identity {
            Source::Unavailable {
                reason:
                    "identity issuance is enabled but no safe certificate inventory is available"@,
            }
        } else {
            Source::Unsupported {
                reason:
                    "workload identity issuance is disabled and no node mTLS leaf is loaded"@,
            }
        },
    }
}

/// Assemble the local diagnostics of a node.
///
/// Throttled time is compared over the window only where cgroup counters can
/// be read.
pub fn local_snapshot(
    node_id: &String,
    observed_at: u64,
    disks: DiagnosticSource<Vec<DiskUsageEvidence>>,
    cgroups: bool,
    first: DiagnosticSource<Vec<CpuThrottleTotal>>,
    second: DiagnosticSource<Vec<CpuThrottleTotal>>,
    window_seconds: u64,
    second_observed_at: u64,
    node_certificate: &Option<PublicCertificateMetadata>,
    identity: bool,
) -> (r: LocalDiagnosticSnapshot)
    ensures
        r.schema_version == LOCAL_DIAGNOSTIC_SCHEMA_VERSION,
        r.node_id == *node_id,
        r.observed_at == observed_at,
        r.disks == disks,
        listed(r.cpu_throttling@) == if cgroups {
            window(listed(first@), listed(second@), window_seconds, second_observed_at)
        } else {
            Source::Unsupported {
                reason: "actual CPU throttled time requires rootful Linux cgroup v2"@,
            }
        },
        listed(r.certificates@) == certificate_source(*node_certificate, identity, observed_at),
{
    let cpu_throttling = if cgroups {
        cpu_throttle_window(first, second, window_seconds, second_observed_at)
    } else {
        DiagnosticSource::Unsupported {
            reason: "actual CPU throttled time requires rootful Linux cgroup v2".to_owned(),
        }
    };
    let certificates = match node_certificate {
        Some(certificate) => {
            let mut value: Vec<PublicCertificateMetadata> = Vec::new();
            value.push(certificate.clone());
            proof {
                assert(value@ =~= seq![*certificate]);
            }
            DiagnosticSource::Available { observed_at, value }
        },
        None => if identity {
            DiagnosticSource::Unavailable {
                reason:
                    "identity issuance is enabled but no safe certificate inventory is available".to_owned(),
            }
        } else {
            DiagnosticSource::Unsupported {
                reason:
                    "workload identity issuance is disabled and no node mTLS leaf is loaded".to_owned(),
            }
        },
    };
    LocalDiagnosticSnapshot {
        schema_version: LOCAL_DIAGNOSTIC_SCHEMA_VERSION,
        node_id: node_id.clone(),
        observed_at,
        disks,
        cpu_throttling,
        certificates,
    }
}

} // verus!
