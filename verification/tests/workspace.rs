use snapshot_manifest::workspace::{
    build_arguments, first_rotation_step, image_tag, manifest_file_name, next_rotation_step,
    output_directory, rotated_name, run_arguments, uses_fuzzer_harness, volume_argument,
    RotationStep, ROTATION_LIMIT,
};

#[test]
fn names_are_derived_from_the_base_name() {
    assert_eq!(manifest_file_name("tool"), "Dockerfile.tool");
    assert_eq!(image_tag("tool"), "binonly_snapchange_tool");
    assert_eq!(output_directory("tool"), "snapchange_tool");
    assert_eq!(volume_argument("/work/snapchange_tool/snapshot"), "/work/snapchange_tool/snapshot:/snapshot/");
}

#[test]
fn engine_arguments_for_build_and_run() {
    assert_eq!(
        build_arguments("Dockerfile.tool", "binonly_snapchange_tool"),
        vec!["build", "-f", "Dockerfile.tool", "-t", "binonly_snapchange_tool", "."]
    );
    assert_eq!(
        run_arguments("/work/out/snapshot:/snapshot/", "binonly_snapchange_tool"),
        vec!["run", "-i", "-v", "/work/out/snapshot:/snapshot/", "binonly_snapchange_tool"]
    );
}

#[test]
fn fuzzer_harness_goes_with_the_fuzzer_entry_point() {
    assert!(uses_fuzzer_harness("LLVMFuzzerTestOneInput"));
    assert!(!uses_fuzzer_harness("main"));
    assert!(!uses_fuzzer_harness("LLVMFuzzerTestOneInput2"));
    assert!(!uses_fuzzer_harness(""));
}

#[test]
fn rotated_names_carry_the_attempt() {
    assert_eq!(rotated_name("snapchange_tool", 1), "snapchange_tool.old1");
    assert_eq!(rotated_name("snapchange_tool", 10), "snapchange_tool.old10");
    assert_eq!(rotated_name("snapchange_tool", 65535), "snapchange_tool.old65535");
}

#[test]
fn rotation_starts_at_one() {
    assert_eq!(first_rotation_step(), RotationStep::Probe(1));
}

#[test]
fn free_candidate_is_taken() {
    assert_eq!(next_rotation_step(1, false), RotationStep::MoveTo(1));
    assert_eq!(next_rotation_step(65535, false), RotationStep::MoveTo(65535));
}

#[test]
fn occupied_candidate_is_followed_by_the_next() {
    assert_eq!(next_rotation_step(1, true), RotationStep::Probe(2));
    assert_eq!(next_rotation_step(65534, true), RotationStep::Probe(65535));
}

#[test]
fn rotation_gives_up_after_the_last_candidate() {
    assert_eq!(ROTATION_LIMIT, 64 * 1024);
    assert_eq!(next_rotation_step(65535, true), RotationStep::Exhausted);
    assert_eq!(next_rotation_step(u32::MAX, true), RotationStep::Exhausted);
}

#[test]
fn rotation_search_visits_each_candidate_once() {
    let mut step = first_rotation_step();
    let mut probes: u32 = 0;
    while let RotationStep::Probe(attempt) = step {
        probes += 1;
        assert_eq!(attempt, probes);
        step = next_rotation_step(attempt, true);
    }
    assert_eq!(step, RotationStep::Exhausted);
    assert_eq!(probes, 65535);
}
