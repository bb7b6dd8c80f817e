//! File kinds, and how mode bits and directory-entry types map to them.

use vstd::prelude::*;

verus! {

/// Mask that selects the file-type bits of a mode.
pub const S_IFMT: u32 = 0o170000;

/// Type bits of a socket.
pub const S_IFSOCK: u32 = 0o140000;

/// Type bits of a symbolic link.
pub const S_IFLNK: u32 = 0o120000;

/// Type bits of a regular file.
pub const S_IFREG: u32 = 0o100000;

/// Type bits of a block device.
pub const S_IFBLK: u32 = 0o060000;

/// Type bits of a directory.
pub const S_IFDIR: u32 = 0o040000;

/// Type bits of a character device.
pub const S_IFCHR: u32 = 0o020000;

/// Type bits of a named pipe.
pub const S_IFIFO: u32 = 0o010000;

/// The kind of a file, as reported to the kernel.
#[derive(Clone, Copy, Debug, PartialEq, Eq, Structural)]
pub enum FileKind {
    NamedPipe,
    CharDevice,
    BlockDevice,
    Directory,
    RegularFile,
    Symlink,
    Socket,
}

/// The type bits of `mode`.
pub open spec fn type_bits(mode: u32) -> u32 {
    mode & S_IFMT
}

/// Whether the type bits of `mode` name one of the seven file kinds.
pub open spec fn has_known_kind(mode: u32) -> bool {
    let t = type_bits(mode);
    t == S_IFDIR || t == S_IFREG || t == S_IFLNK || t == S_IFBLK || t == S_IFCHR || t == S_IFIFO
        || t == S_IFSOCK
}

/// The file kind that the type bits of `mode` name.
pub open spec fn kind_of_mode(mode: u32) -> FileKind
    recommends
        has_known_kind(mode),
{
    let t = type_bits(mode);
    if t == S_IFDIR {
        FileKind::Directory
    } else if t == S_IFREG {
        FileKind::RegularFile
    } else if t == S_IFLNK {
        FileKind::Symlink
    } else if t == S_IFBLK {
        FileKind::BlockDevice
    } else if t == S_IFCHR {
        FileKind::CharDevice
    } else if t == S_IFIFO {
        FileKind::NamedPipe
    } else {
        FileKind::Socket
    }
}

/// Tells whether `mode_to_filetype` accepts `mode`.
pub fn is_known_mode(mode: u32) -> (known: bool)
    ensures
        known == has_known_kind(mode),
{
    let t: u32 = mode & S_IFMT;
    t == S_IFDIR || t == S_IFREG || t == S_IFLNK || t == S_IFBLK || t == S_IFCHR || t == S_IFIFO
        || t == S_IFSOCK
}

/// Maps the type bits of a mode to a file kind.
pub fn mode_to_filetype(mode: u32) -> (kind: FileKind)
    requires
        has_known_kind(mode),
    ensures
        kind == kind_of_mode(mode),
{
    let t: u32 = mode & S_IFMT;
    if t == S_IFDIR {
        FileKind::Directory
    } else if t == S_IFREG {
        FileKind::RegularFile
    } else if t == S_IFLNK {
        FileKind::Symlink
    } else if t == S_IFBLK {
        FileKind::BlockDevice
    } else if t == S_IFCHR {
        FileKind::CharDevice
    } else if t == S_IFIFO {
        FileKind::NamedPipe
    } else {
        FileKind::Socket
    }
}

/// Directory-entry type of which the directory stream knows nothing.
pub const DT_UNKNOWN: u8 = 0;

/// Directory-entry type of a named pipe.
pub const DT_FIFO: u8 = 1;

/// Directory-entry type of a character device.
pub const DT_CHR: u8 = 2;

/// Directory-entry type of a directory.
pub const DT_DIR: u8 = 4;

/// Directory-entry type of a block device.
pub const DT_BLK: u8 = 6;

/// Directory-entry type of a regular file.
pub const DT_REG: u8 = 8;

/// Directory-entry type of a symbolic link.
pub const DT_LNK: u8 = 10;

/// Directory-entry type of a socket.
pub const DT_SOCK: u8 = 12;

/// The file kind that a directory-entry type names, or `None` where the
/// directory stream did not tell.
pub open spec fn kind_of_dtype(d_type: u8) -> Option<FileKind> {
    if d_type == DT_DIR {
        Some(FileKind::Directory)
    } else if d_type == DT_REG {
        Some(FileKind::RegularFile)
    } else if d_type == DT_LNK {
        Some(FileKind::Symlink)
    } else if d_type == DT_BLK {
        Some(FileKind::BlockDevice)
    } else if d_type == DT_CHR {
        Some(FileKind::CharDevice)
    } else if d_type == DT_FIFO {
        Some(FileKind::NamedPipe)
    } else if d_type == DT_SOCK {
        Some(FileKind::Socket)
    } else {
        None
    }
}

/// Maps a directory-entry type to a file kind.
pub fn dtype_to_filetype(d_type: u8) -> (kind: Option<FileKind>)
    ensures
        kind == kind_of_dtype(d_type),
{
    if d_type == DT_DIR {
        Some(FileKind::Directory)
    } else if d_type == DT_REG {
        Some(FileKind::RegularFile)
    } else if d_type == DT_LNK {
        Some(FileKind::Symlink)
    } else if d_type == DT_BLK {
        Some(FileKind::BlockDevice)
    } else if d_type == DT_CHR {
        Some(FileKind::CharDevice)
    } else if d_type == DT_FIFO {
        Some(FileKind::NamedPipe)
    } else if d_type == DT_SOCK {
        Some(FileKind::Socket)
    } else {
        None
    }
}

} // verus!
