//! What the build and the run are named after, and how an output directory
//! that is in the way is moved aside.
//!
//! Nothing here touches the file system or the container engine: the caller
//! probes and acts, and asks these functions what to probe and do next.

use vstd::prelude::*;
use crate::config::FUZZER_ENTRY_POINT;
use crate::decimal::{decimal_text, push_decimal};
use crate::text::{same_text, views};

verus! {

/// The first number that makes no candidate any more: the candidates for a
/// directory that is moved aside are numbered from 1 to one below this.
pub const ROTATION_LIMIT: u32 = 65536;

/// The file name of the manifest of a binary, before its base name.
pub const MANIFEST_PREFIX: &'static str = "Dockerfile.";

/// The tag of the image of a binary, before its base name.
pub const IMAGE_TAG_PREFIX: &'static str = "binonly_snapchange_";

/// The output directory of a binary, before its base name.
pub const OUTPUT_DIR_PREFIX: &'static str = "snapchange_";

/// The suffix of a directory that was moved aside, before its number.
pub const ROTATION_SUFFIX: &'static str = ".old";

/// Where the snapshot directory is mounted inside the container, with the
/// separator that stands in front of it in a volume argument.
pub const VOLUME_TARGET: &'static str = ":/snapshot/";

/// The name under which an output directory is moved aside at the given
/// attempt.
pub open spec fn rotation_name(directory: Seq<char>, attempt: nat) -> Seq<char> {
    directory + ROTATION_SUFFIX@ + decimal_text(attempt)
}

/// What to do about an output directory that is in the way.
#[derive(Debug, Clone, Copy, PartialEq, Eq, Structural)]
pub enum RotationStep {
    /// See whether the candidate with this number exists.
    Probe(u32),
    /// Move the directory to the candidate with this number.
    MoveTo(u32),
    /// Every candidate exists: give up.
    Exhausted,
}

/// The step that follows the probe of candidate `attempt`: a free candidate
/// is taken, an occupied one is followed by the next number, and after the
/// last number nothing is left to try.
pub open spec fn step_after(attempt: u32, occupied: bool) -> RotationStep {
    if !occupied {
        RotationStep::MoveTo(attempt)
    } else if attempt + 1 < ROTATION_LIMIT {
        RotationStep::Probe((attempt + 1) as u32)
    } else {
        RotationStep::Exhausted
    }
}

/// The file name of the manifest of the binary with the given base name.
pub fn manifest_file_name(binary_name: &str) -> (name: String)
    ensures
        name@ == MANIFEST_PREFIX@ + binary_name@,
{
    let mut name = MANIFEST_PREFIX.to_owned();
    name.append(binary_name);
    name
}

/// The tag of the image of the binary with the given base name.
pub fn image_tag(binary_name: &str) -> (tag: String)
    ensures
        tag@ == IMAGE_TAG_PREFIX@ + binary_name@,
{
    let mut tag = IMAGE_TAG_PREFIX.to_owned();
    tag.append(binary_name);
    tag
}

/// The output directory of the binary with the given base name.
pub fn output_directory(binary_name: &str) -> (directory: String)
    ensures
        directory@ == OUTPUT_DIR_PREFIX@ + binary_name@,
{
    let mut directory = OUTPUT_DIR_PREFIX.to_owned();
    directory.append(binary_name);
    directory
}

/// The volume argument that mounts the given snapshot directory.
pub fn volume_argument(snapshot_directory: &str) -> (volume: String)
    ensures
        volume@ == snapshot_directory@ + VOLUME_TARGET@,
{
    let mut volume = snapshot_directory.to_owned();
    volume.append(VOLUME_TARGET);
    volume
}

/// The arguments of the container engine that build the image.
pub fn build_arguments(manifest_file: &str, tag: &str) -> (arguments: Vec<String>)
    ensures
        views(arguments@) == seq!["build"@, "-f"@, manifest_file@, "-t"@, tag@, "."@],
{
    let mut arguments: Vec<String> = Vec::new();
    arguments.push("build".to_owned());
    arguments.push("-f".to_owned());
    arguments.push(manifest_file.to_owned());
    arguments.push("-t".to_owned());
    arguments.push(tag.to_owned());
    arguments.push(".".to_owned());
    assert(views(arguments@) =~= seq!["build"@, "-f"@, manifest_file@, "-t"@, tag@, "."@]);
    arguments
}

/// The arguments of the container engine that run the image.
pub fn run_arguments(volume: &str, tag: &str) -> (arguments: Vec<String>)
    ensures
        views(arguments@) == seq!["run"@, "-i"@, "-v"@, volume@, tag@],
{
    let mut arguments: Vec<String> = Vec::new();
    arguments.push("run".to_owned());
    arguments.push("-i".to_owned());
    arguments.push("-v".to_owned());
    arguments.push(volume.to_owned());
    arguments.push(tag.to_owned());
    assert(views(arguments@) =~= seq!["run"@, "-i"@, "-v"@, volume@, tag@]);
    arguments
}

/// Whether the harness for fuzzing targets is the one to write: it is when
/// the snapshot is taken at the fuzzing entry point, named by the user or
/// by default.
pub fn uses_fuzzer_harness(break_function: &str) -> (fuzzer: bool)
    ensures
        fuzzer == (break_function@ == FUZZER_ENTRY_POINT@),
{
    same_text(break_function, FUZZER_ENTRY_POINT)
}

/// The name under which `directory` is moved aside at the given attempt.
pub fn rotated_name(directory: &str, attempt: u32) -> (name: String)
    ensures
        name@ == rotation_name(directory@, attempt as nat),
{
    let mut name = directory.to_owned();
    name.append(ROTATION_SUFFIX);
    push_decimal(&mut name, attempt as u64);
    name
}

/// The first step of moving a directory aside: probe candidate 1.
pub fn first_rotation_step() -> (step: RotationStep)
    ensures
        step == RotationStep::Probe(1),
{
    RotationStep::Probe(1)
}

/// The step that follows the probe of candidate `attempt`.
pub fn next_rotation_step(attempt: u32, occupied: bool) -> (step: RotationStep)
    ensures
        step == step_after(attempt, occupied),
{
    if !occupied {
        RotationStep::MoveTo(attempt)
    } else if attempt < ROTATION_LIMIT - 1 {
        RotationStep::Probe(attempt + 1)
    } else {
        RotationStep::Exhausted
    }
}

/// The search for a free candidate ends: starting from 1, a probe is asked
/// for at most once for each number below the limit.
pub proof fn lemma_rotation_is_bounded(attempt: u32, occupied: bool)
    ensures
        (match step_after(attempt, occupied) {
            RotationStep::Probe(next) => next == attempt + 1 && next < ROTATION_LIMIT && occupied,
            RotationStep::MoveTo(target) => target == attempt && !occupied,
            RotationStep::Exhausted => occupied && attempt + 1 >= ROTATION_LIMIT,
        }),
{
}

} // verus!
