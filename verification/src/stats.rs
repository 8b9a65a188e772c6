//! Inode attributes and the mode bits that give an inode its type.
use vstd::prelude::*;

verus! {

/// Mask of the type bits of a mode.
pub const S_IFMT: u32 = 0o170000;

/// Type bits of a regular file.
pub const S_IFREG: u32 = 0o100000;

/// Type bits of a directory.
pub const S_IFDIR: u32 = 0o040000;

/// Type bits of a symbolic link.
pub const S_IFLNK: u32 = 0o120000;

/// Mode of a directory made without an explicit mode.
pub const DEFAULT_DIR_MODE: u32 = 0o040755;

/// Mode of a file made without an explicit mode.
pub const DEFAULT_FILE_MODE: u32 = 0o100644;

/// Longest name of a directory entry, in bytes.
pub const MAX_NAME_LEN: usize = 255;

/// Inode of the root directory.
pub const ROOT_INO: i64 = 1;

/// Attributes of one inode.
#[derive(Debug, Clone, Copy, PartialEq, Eq, Structural)]
pub struct Stats {
    pub ino: i64,
    pub mode: u32,
    pub nlink: u32,
    pub uid: u32,
    pub gid: u32,
    pub size: i64,
    pub atime: i64,
    pub mtime: i64,
    pub ctime: i64,
    pub atime_nsec: u32,
    pub mtime_nsec: u32,
    pub ctime_nsec: u32,
    pub rdev: u64,
}

/// Whether the type bits of `mode` are `kind`.
pub open spec fn mode_is(mode: u32, kind: u32) -> bool {
    (mode & S_IFMT) == kind
}

impl Stats {
    pub fn is_file(&self) -> (yes: bool)
        ensures
            yes == mode_is(self.mode, S_IFREG),
    {
        (self.mode & S_IFMT) == S_IFREG
    }

    pub fn is_directory(&self) -> (yes: bool)
        ensures
            yes == mode_is(self.mode, S_IFDIR),
    {
        (self.mode & S_IFMT) == S_IFDIR
    }

    pub fn is_symlink(&self) -> (yes: bool)
        ensures
            yes == mode_is(self.mode, S_IFLNK),
    {
        (self.mode & S_IFMT) == S_IFLNK
    }
}

/// A requested change of one timestamp.
#[derive(Debug, Clone, Copy, PartialEq, Eq, Structural)]
pub enum TimeChange {
    /// Seconds and nanoseconds to set.
    At(i64, u32),
    /// The time of the call.
    Now,
    /// Leave the timestamp alone.
    Omit,
}

} // verus!
