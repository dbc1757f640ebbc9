//! What the file system says of a path, as plain values.

use vstd::prelude::*;

verus! {

/// The type of a path, links not followed.
#[derive(Clone, Copy, Debug, PartialEq, Eq, Structural)]
pub enum FileKind {
    Regular,
    Directory,
    Symlink,
    Socket,
    Other,
}

/// The metadata of a path, links not followed.
#[derive(Clone, Copy, Debug, PartialEq, Eq, Structural)]
pub struct FileFacts {
    pub kind: FileKind,
    pub device: u64,
    pub inode: u64,
    pub mode: u32,
    pub uid: u32,
    pub gid: u32,
    pub links: u64,
    pub size: u64,
    pub modified_secs: i64,
    pub modified_nanos: i64,
    pub changed_secs: i64,
    pub changed_nanos: i64,
}

impl FileFacts {
    /// The permission bits, with set-id and sticky bits.
    pub open spec fn permissions(self) -> u32 {
        self.mode & 0o7777
    }

    /// A regular file with exactly the permissions `0600`.
    pub open spec fn is_private_file(self) -> bool {
        self.kind == FileKind::Regular && self.permissions() == 0o600
    }

    pub fn private_file(&self) -> (r: bool)
        ensures
            r == self.is_private_file(),
    {
        self.kind == FileKind::Regular && self.mode & 0o7777 == 0o600
    }
}

} // verus!
