//! The request: what the user asks to be snapshotted, and how.

use vstd::prelude::*;
use crate::paths::{base_name, base_name_of};
use crate::text::{join, join_strings, optional_text, views};

verus! {

/// The function at which the snapshot is taken where none is named and the
/// binary is no fuzzing target.
pub const DEFAULT_BREAK_FUNCTION: &'static str = "main";

/// The entry point of a fuzzing target, at which the snapshot is taken where
/// no function is named.
pub const FUZZER_ENTRY_POINT: &'static str = "LLVMFuzzerTestOneInput";

/// The kinds of image that a snapshot can be taken with.
#[derive(Debug, Clone, Copy, PartialEq, Eq, Structural)]
pub enum ImgType {
    /// A disk image.
    Disk,
    /// An initramfs image.
    Initramfs,
}

impl ImgType {
    /// The name of the kind, in lower case.
    pub open spec fn name_text(self) -> Seq<char> {
        match self {
            ImgType::Disk => "disk"@,
            ImgType::Initramfs => "initramfs"@,
        }
    }

    /// The name of the kind, in lower case.
    pub fn name(&self) -> (name: &'static str)
        ensures
            name@ == self.name_text(),
    {
        match self {
            ImgType::Disk => "disk",
            ImgType::Initramfs => "initramfs",
        }
    }
}

/// What the user asks for.
#[derive(Debug, Clone, PartialEq, Eq)]
pub struct CommandLineArgs {
    /// The function to break at and take the snapshot.
    pub function: Option<String>,
    /// The kind of image to take the snapshot with.
    pub image_type: Option<ImgType>,
    /// Whether the binary is a fuzzing target, to be snapshotted at its
    /// entry point.
    pub libfuzzer: bool,
    /// Further packages to install into the base image.
    pub packages: Option<Vec<String>>,
    /// The size in bytes of the generated input file.
    pub input_file_size: Option<u64>,
    /// The path of the binary to snapshot.
    pub binary: String,
    /// The arguments passed to the binary, separated by single spaces; the
    /// placeholder marker stands for the generated input file.
    pub arguments: Option<String>,
}

/// The mathematical content of `CommandLineArgs`.
pub struct InvocationView {
    pub function: Option<Seq<char>>,
    pub image_type: Option<ImgType>,
    pub libfuzzer: bool,
    pub packages: Option<Seq<Seq<char>>>,
    pub input_file_size: Option<u64>,
    pub binary: Seq<char>,
    pub arguments: Option<Seq<char>>,
}

impl View for CommandLineArgs {
    type V = InvocationView;

    open spec fn view(&self) -> InvocationView {
        InvocationView {
            function: optional_text(self.function),
            image_type: self.image_type,
            libfuzzer: self.libfuzzer,
            packages: match self.packages {
                Some(packages) => Some(views(packages@)),
                None => None,
            },
            input_file_size: self.input_file_size,
            binary: self.binary@,
            arguments: optional_text(self.arguments),
        }
    }
}

impl InvocationView {
    /// The function at which the snapshot is taken: the one that is named,
    /// else the fuzzing entry point for a fuzzing target, else `main`.
    pub open spec fn break_function(self) -> Seq<char> {
        match self.function {
            Some(name) => name,
            None => if self.libfuzzer {
                FUZZER_ENTRY_POINT@
            } else {
                DEFAULT_BREAK_FUNCTION@
            },
        }
    }

    /// The kind of image: the one asked for, else initramfs.
    pub open spec fn image_kind(self) -> ImgType {
        match self.image_type {
            Some(kind) => kind,
            None => ImgType::Initramfs,
        }
    }

    /// The packages separated by single spaces; empty where none are asked
    /// for.
    pub open spec fn package_list(self) -> Seq<char> {
        match self.packages {
            Some(packages) => join(packages, " "@),
            None => Seq::empty(),
        }
    }

    /// The base name of the binary, if its path has one.
    pub open spec fn binary_name(self) -> Option<Seq<char>> {
        base_name_of(self.binary)
    }
}

impl CommandLineArgs {
    /// The function at which the snapshot is taken.
    pub fn break_function(&self) -> (name: String)
        ensures
            name@ == self@.break_function(),
            self.function is None && !self.libfuzzer ==> name@ == DEFAULT_BREAK_FUNCTION@,
            self.function is None && self.libfuzzer ==> name@ == FUZZER_ENTRY_POINT@,
    {
        match &self.function {
            Some(name) => name.clone(),
            None => if self.libfuzzer {
                FUZZER_ENTRY_POINT.to_owned()
            } else {
                DEFAULT_BREAK_FUNCTION.to_owned()
            },
        }
    }

    /// The kind of image to take the snapshot with.
    pub fn image_kind(&self) -> (kind: ImgType)
        ensures
            kind == self@.image_kind(),
    {
        match self.image_type {
            Some(kind) => kind,
            None => ImgType::Initramfs,
        }
    }

    /// The packages to install, separated by single spaces.
    pub fn package_list(&self) -> (list: String)
        ensures
            list@ == self@.package_list(),
    {
        match &self.packages {
            Some(packages) => join_strings(packages, " "),
            None => String::new(),
        }
    }

    /// The base name of the binary, if its path has one.
    pub fn binary_name(&self) -> (name: Option<String>)
        ensures
            optional_text(name) == self@.binary_name(),
    {
        base_name(self.binary.as_str())
    }
}

} // verus!
