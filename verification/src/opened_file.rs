//! Value types for opened files, shared by every backend adapter.

use vstd::prelude::*;
use crate::filesystem::FileStat;

verus! {

/// Flags a file or directory is opened with.
#[derive(Clone, Copy, Debug, PartialEq, Eq, Structural)]
pub struct OpenFileFlags {
    pub bits: u32,
}

/// A handle to an opened file: its attributes and a handle identifier.
#[derive(Clone, Debug)]
pub struct OpenedFile {
    pub file_stat: FileStat,
    pub handle_id: u64,
}

} // verus!
