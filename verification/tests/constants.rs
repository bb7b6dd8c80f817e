use raftfs::attr::UTIME_OMIT;
use raftfs::dispatch::{O_CREAT, O_EXCL};
use raftfs::errno::{EINVAL, EROFS};
use raftfs::kind::{
    DT_BLK, DT_CHR, DT_DIR, DT_FIFO, DT_LNK, DT_REG, DT_SOCK, DT_UNKNOWN, S_IFBLK, S_IFCHR,
    S_IFDIR, S_IFIFO, S_IFLNK, S_IFMT, S_IFREG, S_IFSOCK,
};
use raftfs::path::SEPARATOR;

#[test]
fn mode_type_bits_are_those_of_the_system() {
    assert_eq!(S_IFMT, libc::S_IFMT);
    assert_eq!(S_IFSOCK, libc::S_IFSOCK);
    assert_eq!(S_IFLNK, libc::S_IFLNK);
    assert_eq!(S_IFREG, libc::S_IFREG);
    assert_eq!(S_IFBLK, libc::S_IFBLK);
    assert_eq!(S_IFDIR, libc::S_IFDIR);
    assert_eq!(S_IFCHR, libc::S_IFCHR);
    assert_eq!(S_IFIFO, libc::S_IFIFO);
}

#[test]
fn directory_entry_types_are_those_of_the_system() {
    assert_eq!(DT_UNKNOWN, libc::DT_UNKNOWN);
    assert_eq!(DT_FIFO, libc::DT_FIFO);
    assert_eq!(DT_CHR, libc::DT_CHR);
    assert_eq!(DT_DIR, libc::DT_DIR);
    assert_eq!(DT_BLK, libc::DT_BLK);
    assert_eq!(DT_REG, libc::DT_REG);
    assert_eq!(DT_LNK, libc::DT_LNK);
    assert_eq!(DT_SOCK, libc::DT_SOCK);
}

#[test]
fn open_flags_are_those_of_the_system() {
    assert_eq!(O_CREAT, libc::O_CREAT);
    assert_eq!(O_EXCL, libc::O_EXCL);
}

#[test]
fn error_numbers_are_those_of_the_system() {
    assert_eq!(EINVAL, libc::EINVAL);
    assert_eq!(EROFS, libc::EROFS);
}

#[test]
fn utime_omit_is_that_of_the_system() {
    assert_eq!(UTIME_OMIT, i64::from(libc::UTIME_OMIT));
}

#[test]
fn separator_is_the_slash() {
    assert_eq!(SEPARATOR, b'/');
    assert_eq!(char::from(SEPARATOR), std::path::MAIN_SEPARATOR);
}
