//! File attributes: what the operating system reports, and what the kernel
//! bridge is told.

use vstd::prelude::*;
use crate::kind::{has_known_kind, kind_of_mode, mode_to_filetype, FileKind, S_IFDIR};

verus! {

/// Mask that selects the permission bits of a mode.
pub const PERMISSION_MASK: u32 = 0o7777;

/// The nanoseconds value that tells the operating system to leave a time as
/// it is.
pub const UTIME_OMIT: i64 = 1073741822;

/// A point in time: seconds since the epoch, and nanoseconds.
#[derive(Clone, Copy, Debug, PartialEq, Eq, Structural)]
pub struct Timespec {
    pub sec: i64,
    pub nsec: i32,
}

/// How long the kernel may keep attributes and entries: one second.
pub open spec fn time_to_live() -> Timespec {
    Timespec { sec: 1, nsec: 0 }
}

/// How long the kernel may keep attributes and entries.
pub fn ttl() -> (t: Timespec)
    ensures
        t == time_to_live(),
{
    Timespec { sec: 1, nsec: 0 }
}

/// The attributes of a file as the operating system reports them.
#[derive(Clone, Copy, Debug, PartialEq, Eq)]
pub struct Stat {
    pub mode: u32,
    pub size: i64,
    pub blocks: i64,
    pub atime: i64,
    pub atime_nsec: i64,
    pub mtime: i64,
    pub mtime_nsec: i64,
    pub ctime: i64,
    pub ctime_nsec: i64,
    pub nlink: u64,
    pub uid: u32,
    pub gid: u32,
    pub rdev: u64,
}

/// The attributes of a file as the kernel bridge receives them.
#[derive(Clone, Copy, Debug, PartialEq, Eq, Structural)]
pub struct FileAttr {
    /// Size in bytes.
    pub size: u64,
    /// Size in blocks.
    pub blocks: u64,
    /// Time of the last access.
    pub atime: Timespec,
    /// Time of the last modification.
    pub mtime: Timespec,
    /// Time of the last change of the attributes.
    pub ctime: Timespec,
    /// Time of creation; always zero.
    pub crtime: Timespec,
    /// Kind of the file.
    pub kind: FileKind,
    /// Permission bits.
    pub perm: u16,
    /// Number of hard links.
    pub nlink: u32,
    /// Owner.
    pub uid: u32,
    /// Group.
    pub gid: u32,
    /// Device number of a special file.
    pub rdev: u32,
    /// Flags; always zero.
    pub flags: u32,
}

/// The attributes that the bridge is told for what the operating system
/// reports. Each number keeps its value where the narrower type holds it, and
/// loses its upper bits where it does not.
pub open spec fn attr_of(stat: Stat) -> FileAttr {
    FileAttr {
        size: stat.size as u64,
        blocks: stat.blocks as u64,
        atime: Timespec { sec: stat.atime, nsec: stat.atime_nsec as i32 },
        mtime: Timespec { sec: stat.mtime, nsec: stat.mtime_nsec as i32 },
        ctime: Timespec { sec: stat.ctime, nsec: stat.ctime_nsec as i32 },
        crtime: Timespec { sec: 0, nsec: 0 },
        kind: kind_of_mode(stat.mode),
        perm: (stat.mode & PERMISSION_MASK) as u16,
        nlink: stat.nlink as u32,
        uid: stat.uid,
        gid: stat.gid,
        rdev: stat.rdev as u32,
        flags: 0,
    }
}

/// Converts what the operating system reports of a file into the attributes
/// that the bridge is told.
pub fn stat_to_fuse(stat: Stat) -> (attr: FileAttr)
    requires
        has_known_kind(stat.mode),
    ensures
        attr == attr_of(stat),
        attr.perm as u32 == stat.mode & PERMISSION_MASK,
        0 <= stat.size ==> attr.size == stat.size,
        0 <= stat.blocks ==> attr.blocks == stat.blocks,
        0 <= stat.atime_nsec <= i32::MAX ==> attr.atime.nsec == stat.atime_nsec,
        0 <= stat.mtime_nsec <= i32::MAX ==> attr.mtime.nsec == stat.mtime_nsec,
        0 <= stat.ctime_nsec <= i32::MAX ==> attr.ctime.nsec == stat.ctime_nsec,
        stat.nlink <= u32::MAX ==> attr.nlink == stat.nlink,
        stat.rdev <= u32::MAX ==> attr.rdev == stat.rdev,
{
    let kind = mode_to_filetype(stat.mode);
    let bits: u32 = stat.mode & PERMISSION_MASK;
    assert(bits <= 0o7777) by {
        let m = stat.mode;
        assert(m & 0o7777u32 <= 0o7777u32) by (bit_vector);
    }
    FileAttr {
        size: #[verifier::truncate] (stat.size as u64),
        blocks: #[verifier::truncate] (stat.blocks as u64),
        atime: Timespec { sec: stat.atime, nsec: #[verifier::truncate] (stat.atime_nsec as i32) },
        mtime: Timespec { sec: stat.mtime, nsec: #[verifier::truncate] (stat.mtime_nsec as i32) },
        ctime: Timespec { sec: stat.ctime, nsec: #[verifier::truncate] (stat.ctime_nsec as i32) },
        crtime: Timespec { sec: 0, nsec: 0 },
        kind,
        perm: bits as u16,
        nlink: #[verifier::truncate] (stat.nlink as u32),
        uid: stat.uid,
        gid: stat.gid,
        rdev: #[verifier::truncate] (stat.rdev as u32),
        flags: 0,
    }
}

/// A directory that the operating system reports with the permission bits
/// it was made with is told to the bridge as a directory with those bits.
pub proof fn lemma_directory_keeps_its_mode(stat: Stat, permissions: u32)
    requires
        permissions <= PERMISSION_MASK,
        stat.mode == S_IFDIR | permissions,
    ensures
        has_known_kind(stat.mode),
        attr_of(stat).kind == FileKind::Directory,
        attr_of(stat).perm == permissions,
{
    let m = permissions;
    assert(m <= 0o7777u32 ==> (0o040000u32 | m) & 0o170000u32 == 0o040000u32) by (bit_vector);
    assert(m <= 0o7777u32 ==> (0o040000u32 | m) & 0o7777u32 == m) by (bit_vector);
    assert(m <= 0o7777u32 ==> m as u16 == m) by (bit_vector);
}

/// The statistics of a file system as the operating system reports them.
#[derive(Clone, Copy, Debug, PartialEq, Eq)]
pub struct RawStatfs {
    pub blocks: u64,
    pub bfree: u64,
    pub bavail: u64,
    pub files: u64,
    pub ffree: u64,
    pub bsize: i64,
    pub namelen: i64,
    pub frsize: i64,
}

/// The statistics of a file system as the kernel bridge receives them.
#[derive(Clone, Copy, Debug, PartialEq, Eq, Structural)]
pub struct Statfs {
    /// Total data blocks.
    pub blocks: u64,
    /// Free blocks.
    pub bfree: u64,
    /// Free blocks available to an unprivileged user.
    pub bavail: u64,
    /// Total file nodes.
    pub files: u64,
    /// Free file nodes.
    pub ffree: u64,
    /// Optimal transfer block size.
    pub bsize: u32,
    /// Maximum length of a file name.
    pub namelen: u32,
    /// Fragment size.
    pub frsize: u32,
}

/// The statistics that the bridge is told for what the operating system
/// reports.
pub open spec fn statfs_of(raw: RawStatfs) -> Statfs {
    Statfs {
        blocks: raw.blocks,
        bfree: raw.bfree,
        bavail: raw.bavail,
        files: raw.files,
        ffree: raw.ffree,
        bsize: raw.bsize as u32,
        namelen: raw.namelen as u32,
        frsize: raw.frsize as u32,
    }
}

/// Converts the statistics of a file system into those that the bridge is
/// told.
pub fn statfs_to_fuse(raw: RawStatfs) -> (statfs: Statfs)
    ensures
        statfs == statfs_of(raw),
        0 <= raw.bsize <= u32::MAX ==> statfs.bsize == raw.bsize,
        0 <= raw.namelen <= u32::MAX ==> statfs.namelen == raw.namelen,
        0 <= raw.frsize <= u32::MAX ==> statfs.frsize == raw.frsize,
{
    Statfs {
        blocks: raw.blocks,
        bfree: raw.bfree,
        bavail: raw.bavail,
        files: raw.files,
        ffree: raw.ffree,
        bsize: #[verifier::truncate] (raw.bsize as u32),
        namelen: #[verifier::truncate] (raw.namelen as u32),
        frsize: #[verifier::truncate] (raw.frsize as u32),
    }
}

/// A time as `utimens` hands it to the operating system: seconds and
/// nanoseconds.
#[derive(Clone, Copy, Debug, PartialEq, Eq, Structural)]
pub struct TimeArg {
    pub sec: i64,
    pub nsec: i64,
}

/// The time handed to the operating system for a time that is to be set, or
/// for one that is to stay as it is.
pub open spec fn time_arg_of(time: Option<Timespec>) -> TimeArg {
    match time {
        Some(t) => TimeArg { sec: t.sec, nsec: t.nsec as i64 },
        None => TimeArg { sec: 0, nsec: UTIME_OMIT },
    }
}

/// Converts a time that may be absent into the form that the operating
/// system takes: an absent one tells it to leave the time as it is.
pub fn timespec_to_libc(time: Option<Timespec>) -> (arg: TimeArg)
    ensures
        arg == time_arg_of(time),
{
    match time {
        Some(t) => TimeArg { sec: t.sec, nsec: t.nsec as i64 },
        None => TimeArg { sec: 0, nsec: UTIME_OMIT },
    }
}

} // verus!
