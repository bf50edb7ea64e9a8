//! GPU detection from what the node's probes returned.
//!
//! A node is asked whether its first NVIDIA device node exists and, if it
//! does, what `nvidia-smi` prints. A node without the hardware or the tool has
//! no GPUs.

use vstd::prelude::*;

use crate::text::{
    digits_value, from_chars, is_unsigned, parse_unsigned, pieces, pieces_of_joined, split_on,
    texts, to_chars, trim, trimmed, unsigned_digits,
};

verus! {

/// Information about a single GPU device.
#[derive(Debug, PartialEq, Eq)]
pub struct GpuInfo {
    /// Device index (0-based).
    pub index: u32,
    /// Human-readable device name, e.g. "NVIDIA A100".
    pub name: String,
    /// Total video memory in bytes.
    pub vram_bytes: u64,
}

/// A GPU as its plain facts.
pub ghost struct Gpu {
    /// Device index.
    pub index: nat,
    /// Device name.
    pub name: Seq<char>,
    /// Video memory in bytes.
    pub vram_bytes: nat,
}

impl View for GpuInfo {
    type V = Gpu;

    open spec fn view(&self) -> Gpu {
        Gpu { index: self.index as nat, name: self.name@, vram_bytes: self.vram_bytes as nat }
    }
}

/// The facts of each GPU in a list.
pub open spec fn gpus(list: Seq<GpuInfo>) -> Seq<Gpu> {
    list.map_values(|g: GpuInfo| g@)
}

/// Bytes in the unit in which `nvidia-smi` reports memory.
pub const MIB: u64 = 1_048_576;

/// The GPU that a line describes as `index, name, memory in MiB`, if it does.
pub open spec fn gpu_of_line(line: Seq<char>) -> Option<Gpu> {
    let fields = pieces(trimmed(line), ',');
    if trimmed(line).len() == 0 || fields.len() < 3 {
        None
    } else if is_unsigned(trimmed(fields[0]), u32::MAX as nat) && is_unsigned(
        trimmed(fields[2]),
        u64::MAX as nat,
    ) {
        Some(
            Gpu {
                index: digits_value(unsigned_digits(trimmed(fields[0]))),
                name: trimmed(fields[1]),
                vram_bytes: digits_value(unsigned_digits(trimmed(fields[2]))) * MIB as nat,
            },
        )
    } else {
        None
    }
}

/// The GPUs that a list of lines describes, in order.
pub open spec fn gpus_of_lines(lines: Seq<Seq<char>>) -> Seq<Gpu>
    decreases lines.len(),
{
    if lines.len() == 0 {
        Seq::empty()
    } else {
        let before = gpus_of_lines(lines.drop_last());
        match gpu_of_line(lines.last()) {
            Some(gpu) => before.push(gpu),
            None => before,
        }
    }
}

/// The GPUs that a text describes, one per line; other lines count for
/// nothing.
pub open spec fn gpus_of_text(text: Seq<char>) -> Seq<Gpu> {
    gpus_of_lines(pieces(text, '\n'))
}

/// Whether the memory of every GPU in a text can be counted in bytes.
pub open spec fn memory_fits(text: Seq<char>) -> bool {
    forall|i: int|
        0 <= i < gpus_of_text(text).len() ==> (#[trigger] gpus_of_text(text)[i]).vram_bytes
            <= u64::MAX
}

/// Discovers GPUs available on the current node.
pub trait GpuDetector {
    /// The GPUs that the node's evidence shows.
    spec fn visible(&self) -> Seq<Gpu>;

    /// Whether the memory of every GPU can be counted in bytes.
    spec fn countable(&self) -> bool;

    /// Return all GPUs visible to this node.
    fn detect(&self) -> (r: Vec<GpuInfo>)
        requires
            self.countable(),
        ensures
            gpus(r@) == self.visible(),
    ;
}

/// A detector that always reports no GPUs.
pub struct StubGpuDetector;

impl GpuDetector for StubGpuDetector {
    open spec fn visible(&self) -> Seq<Gpu> {
        Seq::empty()
    }

    open spec fn countable(&self) -> bool {
        true
    }

    fn detect(&self) -> (r: Vec<GpuInfo>) {
        let r: Vec<GpuInfo> = Vec::new();
        proof {
            assert(gpus(r@) =~= Seq::<Gpu>::empty());
        }
        r
    }
}

/// A detector that reads the probes for real NVIDIA hardware.
///
/// Any missing device, missing tool or unparseable line yields no GPUs: a node
/// without an NVIDIA card behaves exactly like [`StubGpuDetector`].
pub struct NvidiaGpuDetector {
    /// Whether the node runs Linux.
    pub linux: bool,
    /// Whether the device node `/dev/nvidia0` exists.
    pub device_present: bool,
    /// What `nvidia-smi --query-gpu=index,name,memory.total
    /// --format=csv,noheader,nounits` printed, if it ran and succeeded.
    pub smi_output: Option<String>,
}

impl GpuDetector for NvidiaGpuDetector {
    open spec fn visible(&self) -> Seq<Gpu> {
        match self.smi_output {
            Some(text) if self.linux && self.device_present => gpus_of_text(text@),
            _ => Seq::empty(),
        }
    }

    open spec fn countable(&self) -> bool {
        match self.smi_output {
            Some(text) if self.linux && self.device_present => memory_fits(text@),
            _ => true,
        }
    }

    fn detect(&self) -> (r: Vec<GpuInfo>) {
        if self.linux && self.device_present {
            match &self.smi_output {
                Some(text) => {
                    return parse_nvidia_smi(text.as_str());
                },
                None => {},
            }
        }
        let r: Vec<GpuInfo> = Vec::new();
        proof {
            assert(gpus(r@) =~= Seq::<Gpu>::empty());
        }
        r
    }
}

/// The GPU that a line describes, its memory in MiB.
fn parse_line(line: &Vec<char>) -> (r: Option<(u32, String, u64)>)
    ensures
        r is Some <==> gpu_of_line(line@) is Some,
        r matches Some((index, name, mib)) ==> gpu_of_line(line@) == Some(
            Gpu { index: index as nat, name: name@, vram_bytes: mib as nat * MIB as nat },
        ),
{
    let line = trim(line);
    if line.len() == 0 {
        return None;
    }
    let fields = split_on(&line, ',');
    proof {
        assert(texts(fields@).len() == fields@.len());
    }
    if fields.len() < 3 {
        return None;
    }
    proof {
        assert(texts(fields@)[0] == fields@[0]@);
        assert(texts(fields@)[1] == fields@[1]@);
        assert(texts(fields@)[2] == fields@[2]@);
    }
    let index = parse_unsigned(&trim(&fields[0]), u32::MAX as u64);
    let mib = parse_unsigned(&trim(&fields[2]), u64::MAX);
    match (index, mib) {
        (Some(index), Some(mib)) => Some((index as u32, from_chars(&trim(&fields[1])), mib)),
        _ => None,
    }
}

/// Parse `nvidia-smi --query-gpu=index,name,memory.total
/// --format=csv,noheader,nounits` output.
///
/// Each line is `index, name, memory_total_mib`; memory becomes bytes. Lines
/// that do not parse are skipped.
pub fn parse_nvidia_smi(text: &str) -> (r: Vec<GpuInfo>)
    requires
        memory_fits(text@),
    ensures
        gpus(r@) == gpus_of_text(text@),
{
    let lines = split_on(&to_chars(text), '\n');
    let ghost all = texts(lines@);
    let mut found: Vec<GpuInfo> = Vec::new();
    let mut i: usize = 0;
    proof {
        assert(gpus(found@) =~= gpus_of_lines(all.take(0)));
    }
    while i < lines.len()
        invariant
            i <= lines.len(),
            all == texts(lines@),
            all == pieces(text@, '\n'),
            memory_fits(text@),
            gpus(found@) == gpus_of_lines(all.take(i as int)),
        decreases lines.len() - i,
    {
        let ghost f = found@;
        proof {
            assert(all.take(i as int + 1).drop_last() == all.take(i as int));
            assert(all.take(i as int + 1).last() == lines@[i as int]@);
        }
        match parse_line(&lines[i]) {
            Some((index, name, mib)) => {
                proof {
                    let gpu = gpu_of_line(all[i as int])->0;
                    gpus_of_prefix(all, i as int + 1);
                    let n = gpus(f).len() as int;
                    assert(gpus_of_lines(all.take(i as int + 1))[n] == gpu);
                    assert(gpus_of_text(text@)[n] == gpu);
                    assert(gpu.vram_bytes <= u64::MAX);
                    assert(mib as nat * MIB as nat <= u64::MAX);
                }
                let info = GpuInfo { index, name, vram_bytes: mib * MIB };
                found.push(info);
                proof {
                    assert(gpus(found@) =~= gpus(f).push(info@));
                }
            },
            None => {},
        }
        i = i + 1;
    }
    proof {
        assert(all.take(all.len() as int) == all);
    }
    found
}

/// Whether the memory of every GPU in a text can be counted in bytes.
pub fn memory_is_countable(text: &str) -> (r: bool)
    ensures
        r == memory_fits(text@),
{
    let lines = split_on(&to_chars(text), '\n');
    let ghost all = texts(lines@);
    let mut i: usize = 0;
    proof {
        assert(gpus_of_lines(all.take(0)) =~= Seq::<Gpu>::empty());
    }
    while i < lines.len()
        invariant
            i <= lines.len(),
            all == texts(lines@),
            all == pieces(text@, '\n'),
            forall|j: int|
                0 <= j < gpus_of_lines(all.take(i as int)).len() ==> (#[trigger] gpus_of_lines(
                    all.take(i as int),
                )[j]).vram_bytes <= u64::MAX,
        decreases lines.len() - i,
    {
        let ghost before = gpus_of_lines(all.take(i as int));
        let ghost after = gpus_of_lines(all.take(i as int + 1));
        proof {
            assert(all.take(i as int + 1).drop_last() == all.take(i as int));
            assert(all.take(i as int + 1).last() == lines@[i as int]@);
        }
        match parse_line(&lines[i]) {
            Some((_, _, mib)) => {
                if mib > u64::MAX / MIB {
                    proof {
                        let n = before.len() as int;
                        gpus_of_prefix(all, i as int + 1);
                        assert(after[n] == gpu_of_line(all[i as int])->0);
                        assert(gpus_of_text(text@)[n] == after[n]);
                        assert(mib as nat * MIB as nat > u64::MAX);
                    }
                    return false;
                }
                proof {
                    assert(mib as nat * MIB as nat <= u64::MAX);
                    assert(after == before.push(gpu_of_line(all[i as int])->0));
                }
            },
            None => {
                proof {
                    assert(after == before);
                }
            },
        }
        i = i + 1;
    }
    proof {
        assert(all.take(all.len() as int) == all);
    }
    true
}

proof fn gpus_of_prefix(lines: Seq<Seq<char>>, i: int)
    requires
        0 <= i <= lines.len(),
    ensures
        gpus_of_lines(lines.take(i)).len() <= gpus_of_lines(lines).len(),
        forall|j: int|
            0 <= j < gpus_of_lines(lines.take(i)).len() ==> gpus_of_lines(lines.take(i))[j]
                == #[trigger] gpus_of_lines(lines)[j],
    decreases lines.len(),
{
    if i < lines.len() {
        gpus_of_prefix(lines.drop_last(), i);
        assert(lines.drop_last().take(i) == lines.take(i));
    } else {
        assert(lines.take(i) == lines);
    }
}

proof fn gpus_of_joined_lines(a: Seq<Seq<char>>, b: Seq<Seq<char>>)
    ensures
        gpus_of_lines(a + b) == gpus_of_lines(a) + gpus_of_lines(b),
    decreases b.len(),
{
    if b.len() == 0 {
        assert(a + b =~= a);
        assert(gpus_of_lines(a) + gpus_of_lines(b) =~= gpus_of_lines(a));
    } else {
        gpus_of_joined_lines(a, b.drop_last());
        assert((a + b).drop_last() =~= a + b.drop_last());
        assert(gpus_of_lines(a + b) =~= gpus_of_lines(a) + gpus_of_lines(b));
    }
}

/// The GPUs of two texts joined by a line end are those of the first and then
/// those of the second.
pub proof fn gpus_are_read_line_by_line(a: Seq<char>, b: Seq<char>)
    ensures
        gpus_of_text(a + seq!['\n'] + b) == gpus_of_text(a) + gpus_of_text(b),
{
    pieces_of_joined(a, b, '\n');
    gpus_of_joined_lines(pieces(a, '\n'), pieces(b, '\n'));
}

/// A node that is not Linux, has no device node or could not run the tool
/// shows what the stub detector shows.
pub proof fn no_hardware_looks_like_the_stub(detector: NvidiaGpuDetector)
    requires
        !detector.linux || !detector.device_present || detector.smi_output is None,
    ensures
        detector.visible() == StubGpuDetector.visible(),
{
}

} // verus!
