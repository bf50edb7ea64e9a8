//! Discovery of GPUs.

use bun::gpu::{
    memory_is_countable, parse_nvidia_smi, GpuDetector, NvidiaGpuDetector, StubGpuDetector,
};

#[test]
fn stub_detector_returns_empty() {
    let detector = StubGpuDetector;
    assert!(detector.detect().is_empty());
}

#[test]
fn parses_two_gpus_from_nvidia_smi() {
    let text = "0, NVIDIA A100-SXM4-40GB, 40960\n1, NVIDIA A100-SXM4-40GB, 40960\n";
    let gpus = parse_nvidia_smi(text);
    assert_eq!(gpus.len(), 2);
    assert_eq!(gpus[0].index, 0);
    assert_eq!(gpus[0].name, "NVIDIA A100-SXM4-40GB");
    assert_eq!(gpus[0].vram_bytes, 40960 * 1024 * 1024);
    assert_eq!(gpus[1].index, 1);
}

#[test]
fn skips_unparseable_lines() {
    let text = "garbage line\n0, NVIDIA L4, 24576\n\n";
    let gpus = parse_nvidia_smi(text);
    assert_eq!(gpus.len(), 1);
    assert_eq!(gpus[0].name, "NVIDIA L4");
}

#[test]
fn empty_output_yields_no_gpus() {
    assert!(parse_nvidia_smi("").is_empty());
    assert!(parse_nvidia_smi("\n\n").is_empty());
}

#[test]
fn nvidia_detector_empty_without_hardware() {
    let detector = NvidiaGpuDetector { linux: true, device_present: false, smi_output: None };
    assert!(detector.detect().is_empty());
}

#[test]
fn nvidia_detector_reads_the_tool_only_where_a_device_is() {
    let output = Some("0, NVIDIA L4, 24576\n".to_string());
    let present = NvidiaGpuDetector { linux: true, device_present: true, smi_output: output.clone() };
    let gpus = present.detect();
    assert_eq!(gpus.len(), 1);
    assert_eq!(gpus[0].vram_bytes, 25_769_803_776);
    let absent = NvidiaGpuDetector { linux: true, device_present: false, smi_output: output.clone() };
    assert!(absent.detect().is_empty());
    let elsewhere = NvidiaGpuDetector { linux: false, device_present: true, smi_output: output };
    assert!(elsewhere.detect().is_empty());
    let silent = NvidiaGpuDetector { linux: true, device_present: true, smi_output: None };
    assert!(silent.detect().is_empty());
}

#[test]
fn lines_with_missing_or_odd_fields_are_skipped() {
    assert!(parse_nvidia_smi("0, NVIDIA L4").is_empty());
    assert!(parse_nvidia_smi("-1, NVIDIA L4, 24576").is_empty());
    assert!(parse_nvidia_smi("0, NVIDIA L4, 24576 MiB").is_empty());
    assert!(parse_nvidia_smi("4294967296, NVIDIA L4, 24576").is_empty());
    let gpus = parse_nvidia_smi("  +7 ,\tL4 ,  1 , extra \r\n");
    assert_eq!(gpus.len(), 1);
    assert_eq!(gpus[0].index, 7);
    assert_eq!(gpus[0].name, "L4");
    assert_eq!(gpus[0].vram_bytes, 1_048_576);
}

#[test]
fn memory_beyond_a_counter_is_noticed() {
    assert!(memory_is_countable("0, big, 17592186044415"));
    assert!(!memory_is_countable("0, bigger, 17592186044416"));
    assert!(memory_is_countable("x, bigger, 17592186044416"));
}

#[test]
fn joined_outputs_give_the_gpus_of_both() {
    let first = "0, NVIDIA L4, 24576";
    let second = "junk\n1, NVIDIA A100, 40960";
    let joined = parse_nvidia_smi(&format!("{first}\n{second}"));
    let mut apart = parse_nvidia_smi(first);
    apart.extend(parse_nvidia_smi(second));
    let facts = |list: &[bun::gpu::GpuInfo]| -> Vec<(u32, String, u64)> {
        list.iter().map(|g| (g.index, g.name.clone(), g.vram_bytes)).collect()
    };
    assert_eq!(facts(&joined), facts(&apart));
    assert_eq!(joined.len(), 2);
}
