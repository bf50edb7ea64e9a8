//! Which GPUs a node has.

use vstd::prelude::*;

use crate::gpu::{
    gpu_of_line, gpus, gpus_of_lines, gpus_of_text, memory_is_countable, parse_nvidia_smi, Gpu,
    GpuDetector, GpuInfo, NvidiaGpuDetector,
};
use crate::laws::text::{all_digits, digits_are_unsigned, worth};
use crate::text::{pieces, trimmed};

verus! {

/// Whether a text is a number: digits, with a plus sign before them or none.
pub open spec fn reads_as(s: Seq<char>, n: nat) -> bool {
    (all_digits(s) && worth(s) == n) || (s.len() > 0 && s[0] == '+' && all_digits(s.skip(1))
        && worth(s.skip(1)) == n)
}

/// Whether a line tells of a GPU: by its index, its name and its memory in
/// mebibytes, with commas between them.
pub open spec fn tells_of(line: Seq<char>, gpu: Gpu) -> bool {
    let fields = pieces(trimmed(line), ',');
    &&& fields.len() >= 3
    &&& gpu.index <= u32::MAX && reads_as(trimmed(fields[0]), gpu.index)
    &&& gpu.name == trimmed(fields[1])
    &&& exists|mib: nat|
        mib <= u64::MAX && #[trigger] reads_as(trimmed(fields[2]), mib) && gpu.vram_bytes == mib
            * 1_048_576
}

/// A line is read as a GPU exactly where it tells of it.
pub proof fn lines_are_read_as_what_they_tell_of(line: Seq<char>, gpu: Gpu)
    ensures
        gpu_of_line(line) == Some(gpu) <==> tells_of(line, gpu),
{
    let whole = trimmed(line);
    let fields = pieces(whole, ',');
    if whole.len() == 0 {
        assert(fields.len() == 1);
    }
    if fields.len() >= 3 {
        let first = trimmed(fields[0]);
        let third = trimmed(fields[2]);
        digits_are_unsigned(first, u32::MAX as nat);
        digits_are_unsigned(third, u64::MAX as nat);
        if tells_of(line, gpu) {
            let mib = choose|mib: nat|
                mib <= u64::MAX && #[trigger] reads_as(third, mib) && gpu.vram_bytes == mib
                    * 1_048_576;
            assert(reads_as(third, mib));
        }
        if gpu_of_line(line) == Some(gpu) {
            let mib = crate::text::digits_value(crate::text::unsigned_digits(third));
            assert(reads_as(third, mib));
        }
    }
}

/// The GPUs of an output are those that its lines tell of, line by line; a line
/// that tells of none adds none.
pub proof fn outputs_are_read_line_by_line(
    text: &str,
    r: Vec<GpuInfo>,
    last: Seq<char>,
    before: Seq<char>,
)
    requires
        call_ensures(parse_nvidia_smi, (text,), r),
        text@ == before + seq!['\n'] + last,
        !last.contains('\n'),
    ensures
        (forall|gpu: Gpu| !#[trigger] tells_of(last, gpu)) ==> gpus(r@) == gpus_of_text(before),
        forall|gpu: Gpu| #[trigger]
            tells_of(last, gpu) ==> gpus(r@) == gpus_of_text(before).push(gpu),
{
    crate::gpu::gpus_are_read_line_by_line(before, last);
    one_line(last);
    assert(gpus_of_text(before) + Seq::<Gpu>::empty() =~= gpus_of_text(before));
    if gpu_of_line(last) is Some {
        let gpu = gpu_of_line(last)->0;
        lines_are_read_as_what_they_tell_of(last, gpu);
        assert(tells_of(last, gpu));
        assert forall|other: Gpu| #[trigger] tells_of(last, other) implies gpus(r@)
            == gpus_of_text(before).push(other) by {
            lines_are_read_as_what_they_tell_of(last, other);
            assert(gpus_of_text(before) + seq![other] =~= gpus_of_text(before).push(other));
        }
    } else {
        assert forall|other: Gpu| !#[trigger] tells_of(last, other) by {
            lines_are_read_as_what_they_tell_of(last, other);
        }
    }
}

/// An output of one line is read as the GPU that it tells of, or as none.
pub proof fn a_single_line_is_read_by_itself(text: &str, r: Vec<GpuInfo>)
    requires
        call_ensures(parse_nvidia_smi, (text,), r),
        !text@.contains('\n'),
    ensures
        (forall|gpu: Gpu| !#[trigger] tells_of(text@, gpu)) ==> r@.len() == 0,
        forall|gpu: Gpu| #[trigger] tells_of(text@, gpu) ==> gpus(r@) == seq![gpu],
{
    one_line(text@);
    assert(gpus(r@).len() == r@.len());
    if gpu_of_line(text@) is Some {
        lines_are_read_as_what_they_tell_of(text@, gpu_of_line(text@)->0);
    }
    assert forall|gpu: Gpu| #[trigger] tells_of(text@, gpu) implies gpus(r@) == seq![gpu] by {
        lines_are_read_as_what_they_tell_of(text@, gpu);
    }
}

proof fn one_line(line: Seq<char>)
    requires
        !line.contains('\n'),
    ensures
        gpus_of_text(line) == (match gpu_of_line(line) {
            Some(gpu) => seq![gpu],
            None => Seq::empty(),
        }),
{
    one_piece(line, '\n');
    let lines = seq![line];
    assert(lines.drop_last() =~= Seq::<Seq<char>>::empty());
    assert(gpus_of_lines(lines.drop_last()) =~= Seq::<Gpu>::empty());
    assert(gpus_of_lines(lines) =~= (match gpu_of_line(line) {
        Some(gpu) => seq![gpu],
        None => Seq::<Gpu>::empty(),
    }));
}

proof fn one_piece(s: Seq<char>, separator: char)
    requires
        !s.contains(separator),
    ensures
        pieces(s, separator) == seq![s],
    decreases s.len(),
{
    if s.len() > 0 {
        let rest = s.drop_last();
        assert(s[s.len() - 1] != separator);
        assert(!rest.contains(separator)) by {
            if rest.contains(separator) {
                let i = choose|i: int| 0 <= i < rest.len() && rest[i] == separator;
                assert(s[i] == separator);
            }
        }
        one_piece(rest, separator);
        assert(pieces(s, separator) =~= seq![s]) by {
            assert(rest.push(s[s.len() - 1]) =~= s);
        }
    }
}

/// GPUs are looked for on Linux alone, where there is a device and the tool
/// answered.
pub proof fn gpus_are_found_where_there_is_a_device(
    detector: &NvidiaGpuDetector,
    r: Vec<GpuInfo>,
)
    requires
        call_ensures(<NvidiaGpuDetector as GpuDetector>::detect, (detector,), r),
    ensures
        !detector.linux || !detector.device_present || detector.smi_output is None ==> r@.len()
            == 0,
        detector.linux && detector.device_present ==> (detector.smi_output matches Some(text)
            ==> gpus(r@) == gpus_of_text(text@)),
{
    assert(gpus(r@).len() == r@.len());
}

/// The memory of an output can be counted where that of each GPU fits.
pub proof fn memory_is_countable_where_it_fits(text: &str, r: bool)
    requires
        call_ensures(memory_is_countable, (text,), r),
    ensures
        r <==> forall|i: int|
            0 <= i < gpus_of_text(text@).len() ==> (#[trigger] gpus_of_text(text@)[i]).vram_bytes
                <= u64::MAX,
{
}

} // verus!
