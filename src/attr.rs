use vstd::prelude::*;

verus! {

/// A point in time or a duration, as seconds and nanoseconds.
#[derive(Clone, Copy, Debug, PartialEq, Eq, Structural)]
pub struct Timespec {
    pub sec: i64,
    pub nsec: i32,
}

impl Timespec {
    /// The nanoseconds stay below one second.
    pub open spec fn wf(self) -> bool {
        0 <= self.nsec < 1_000_000_000
    }
}

/// The two kinds of node the protocol tells apart.
#[derive(Clone, Copy, Debug, PartialEq, Eq, Structural)]
pub enum FileType {
    Directory,
    RegularFile,
}

/// The code that stands for a kind on the wire.
pub open spec fn kind_code(k: FileType) -> nat {
    match k {
        FileType::Directory => 1,
        FileType::RegularFile => 0,
    }
}

/// The attributes of a node, as the server reports them.
#[derive(Clone, Copy, Debug, PartialEq, Eq, Structural)]
pub struct FileAttr {
    pub ino: u64,
    pub size: u64,
    pub blocks: u64,
    pub atime: Timespec,
    pub mtime: Timespec,
    pub ctime: Timespec,
    pub crtime: Timespec,
    pub kind: FileType,
    pub perm: u16,
    pub nlink: u32,
    pub uid: u32,
    pub gid: u32,
    pub rdev: u32,
    pub flags: u32,
}

impl FileAttr {
    pub open spec fn wf(self) -> bool {
        self.atime.wf() && self.mtime.wf() && self.ctime.wf() && self.crtime.wf()
    }
}

/// Attributes together with how long they may be cached.
#[derive(Clone, Copy, Debug, PartialEq, Eq, Structural)]
pub struct AttrReply {
    pub ttl: Timespec,
    pub attr: FileAttr,
}

/// A directory entry that a lookup, mkdir or symlink produced.
#[derive(Clone, Copy, Debug, PartialEq, Eq, Structural)]
pub struct EntryReply {
    pub ttl: Timespec,
    pub attr: FileAttr,
    pub generation: u64,
}

/// A created file: its entry, and the handle it was opened with.
#[derive(Clone, Copy, Debug, PartialEq, Eq, Structural)]
pub struct CreateReply {
    pub ttl: Timespec,
    pub attr: FileAttr,
    pub generation: u64,
    pub fh: u64,
    pub flags: u32,
}

/// An opened file or directory.
#[derive(Clone, Copy, Debug, PartialEq, Eq, Structural)]
pub struct OpenReply {
    pub fh: u64,
    pub flags: u32,
}

/// File system statistics.
#[derive(Clone, Copy, Debug, PartialEq, Eq, Structural)]
pub struct StatfsReply {
    pub blocks: u64,
    pub bfree: u64,
    pub bavail: u64,
    pub files: u64,
    pub ffree: u64,
    pub bsize: u32,
    pub namelen: u32,
    pub frsize: u32,
}

/// One entry of a directory listing.
#[derive(Clone, Debug, PartialEq, Eq)]
pub struct DirEntry {
    pub ino: u64,
    pub offset: i64,
    pub kind: FileType,
    pub name: Vec<u8>,
}

impl View for DirEntry {
    type V = (u64, i64, FileType, Seq<u8>);

    open spec fn view(&self) -> Self::V {
        (self.ino, self.offset, self.kind, self.name@)
    }
}

} // verus!
