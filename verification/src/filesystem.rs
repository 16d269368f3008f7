//! The uniform path-filesystem contract and its shared value types.
//!
//! Every storage backend adapter implements the same operation set with
//! identical signatures and error semantics, which is what makes adapters
//! interchangeable.  Paths are plain strings; remote I/O performed by an
//! implementation is outside this library's scope.

use vstd::prelude::*;
use crate::error::GvfsResult;
use crate::opened_file::{OpenFileFlags, OpenedFile};

verus! {

/// The kind of a filesystem entry.
#[derive(Clone, Copy, Debug, PartialEq, Eq, Structural)]
pub enum FileType {
    RegularFile,
    Directory,
}

/// Backend-agnostic attributes of a filesystem entry.  Times are seconds
/// since the Unix epoch.
#[derive(Clone, Debug)]
pub struct FileStat {
    pub name: String,
    pub path: String,
    pub size: u64,
    pub kind: FileType,
    pub nlink: u32,
    pub atime: u64,
    pub mtime: u64,
    pub ctime: u64,
}

/// Capacity of a filesystem, in bytes.
#[derive(Clone, Copy, Debug, PartialEq, Eq, Structural)]
pub struct FileSystemCapacity {
    pub total_size: u64,
    pub free_size: u64,
}

/// Ambient context a filesystem is mounted with; opaque to backend
/// adapters beyond being threaded through to the delegate.
#[derive(Clone, Copy, Debug, PartialEq, Eq, Structural)]
pub struct FileSystemContext {
    pub uid: u32,
    pub gid: u32,
}

impl Default for FileSystemContext {
    fn default() -> (r: FileSystemContext)
        ensures
            r.uid == 0 && r.gid == 0,
    {
        FileSystemContext { uid: 0, gid: 0 }
    }
}

/// The operation set every backend adapter must implement identically.
pub trait PathFileSystem {
    /// Prepare the filesystem for use.
    fn init(&self) -> GvfsResult<()>;

    /// Attributes of the entry at `path`.
    fn stat(&self, path: &str) -> GvfsResult<FileStat>;

    /// Attributes of every entry in the directory at `path`.
    fn read_dir(&self, path: &str) -> GvfsResult<Vec<FileStat>>;

    /// Open the file at `path`.
    fn open_file(&self, path: &str, flags: OpenFileFlags) -> GvfsResult<OpenedFile>;

    /// Open the directory at `path`.
    fn open_dir(&self, path: &str, flags: OpenFileFlags) -> GvfsResult<OpenedFile>;

    /// Create a file at `path` and open it.
    fn create_file(&self, path: &str, flags: OpenFileFlags) -> GvfsResult<OpenedFile>;

    /// Create a directory at `path`.
    fn create_dir(&self, path: &str) -> GvfsResult<FileStat>;

    /// Set the attributes of the entry at `path`.
    fn set_attr(&self, path: &str, file_stat: &FileStat, flush: bool) -> GvfsResult<()>;

    /// Remove the file at `path`.
    fn remove_file(&self, path: &str) -> GvfsResult<()>;

    /// Remove the directory at `path`.
    fn remove_dir(&self, path: &str) -> GvfsResult<()>;

    /// Capacity of the filesystem.
    fn get_capacity(&self) -> GvfsResult<FileSystemCapacity>;
}

} // verus!
