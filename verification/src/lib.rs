//! Derivation of the container manifest for snapshotting a binary.
//!
//! An argument string is split into tokens, each token is classified as a
//! literal, the placeholder for the generated input file, or a file to be
//! staged into the image, and the result is rendered into one manifest text
//! by filling the slots of a template and appending the declarations that
//! the snapshot tooling reads.

pub mod text;
pub mod decimal;
pub mod size;
pub mod paths;
pub mod arguments;
pub mod template;
pub mod config;
pub mod manifest;
pub mod workspace;
