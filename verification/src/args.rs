use std::path::PathBuf;
use vstd::prelude::*;

verus! {

/// A path in the file system. Trusted declaration of `std::path::PathBuf`:
/// a value of it is carried through and never looked into.
#[verifier::external_type_specification]
#[verifier::external_body]
pub struct ExPathBuf(PathBuf);

/// What the `encode` command takes: the file to read, the type and the
/// message of the chunk to add, and the file to write.
#[derive(Debug)]
pub struct EncodeArgs {
    pub file_path: PathBuf,
    pub chunk_type: String,
    pub content: String,
    pub output_path: PathBuf,
}

/// What the `decode` command takes: the file to read and the type of the
/// chunks to show.
#[derive(Debug)]
pub struct DecodeArgs {
    pub file_path: PathBuf,
    pub chunk_type: String,
}

/// What the `remove` command takes: the file to change and the type of the
/// chunks to remove.
#[derive(Debug)]
pub struct RemoveArgs {
    pub file_path: PathBuf,
    pub chunk_type: String,
}

/// What the `print` command takes: the file to read.
#[derive(Debug)]
pub struct PrintArgs {
    pub file_path: PathBuf,
}

} // verus!
