use raftfs::errno::EINVAL;
use raftfs::kind::{FileKind, DT_DIR, DT_REG, DT_SOCK, DT_UNKNOWN};
use raftfs::listing::{
    can_merge, directory_handle, handle_descriptor, mark_handle, merge_entry, readdir, DirHandle,
    DirectoryEntry, SeenEntry, SNAPSHOT_BIT,
};
use raftfs::resolver::Probe;

fn seen(name: &[u8], d_type: u8, dir: bool, entry: Option<FileKind>, stat: Option<FileKind>) -> SeenEntry {
    SeenEntry { name: name.to_vec(), d_type, probe: Probe { snapshot_is_dir: dir, entry }, stat }
}

fn shown(name: &[u8], kind: FileKind) -> DirectoryEntry {
    DirectoryEntry { name: name.to_vec(), kind }
}

#[test]
fn snapshot_bit_is_the_top_bit() {
    assert_eq!(SNAPSHOT_BIT, 1u64 << 63);
}

#[test]
fn mark_sets_the_top_bit_for_a_snapshot() {
    assert_eq!(mark_handle(5, true), 5 | (1u64 << 63));
    assert_eq!(mark_handle(5, false), 5);
    assert_eq!(mark_handle(0x7f12_3456_789a, true), 0x8000_7f12_3456_789a);
}

#[test]
fn descriptor_clears_the_top_bit() {
    assert_eq!(handle_descriptor(5 | (1u64 << 63)), 5);
    assert_eq!(handle_descriptor(5), 5);
    assert_eq!(handle_descriptor(u64::MAX), u64::MAX >> 1);
}

#[test]
fn marked_handle_comes_apart_again() {
    for fd in [1u64, 3, 0x7fff_ffff_ffff_ffff, 0x7f00_dead_beef] {
        for snap in [false, true] {
            let h = mark_handle(fd, snap);
            assert_eq!(directory_handle(h), Ok(DirHandle { descriptor: fd, in_snapshot: snap }));
            assert_eq!(handle_descriptor(h), fd);
        }
    }
}

#[test]
fn handle_without_descriptor_is_invalid() {
    assert_eq!(directory_handle(0), Err(EINVAL));
    assert_eq!(directory_handle(1u64 << 63), Err(EINVAL));
    assert_eq!(EINVAL, 22);
}

#[test]
fn live_listing_takes_the_stream_kind() {
    let e = seen(b"testfile", DT_REG, false, None, None);
    assert_eq!(merge_entry(false, &e), Some(shown(b"testfile", FileKind::RegularFile)));
    let d = seen(b"sub", DT_DIR, false, None, Some(FileKind::RegularFile));
    assert_eq!(merge_entry(false, &d), Some(shown(b"sub", FileKind::Directory)));
}

#[test]
fn live_listing_shows_the_snapshots_directory() {
    let e = seen(b".snapshots", DT_DIR, false, None, None);
    assert_eq!(merge_entry(false, &e), Some(shown(b".snapshots", FileKind::Directory)));
}

#[test]
fn live_socket_keeps_its_kind() {
    let e = seen(b"sock", DT_SOCK, true, Some(FileKind::Socket), Some(FileKind::Socket));
    assert_eq!(merge_entry(false, &e), Some(shown(b"sock", FileKind::Socket)));
}

#[test]
fn unknown_stream_kind_is_read_from_the_file() {
    let e = seen(b"x", DT_UNKNOWN, false, None, Some(FileKind::Symlink));
    assert_eq!(merge_entry(false, &e), Some(shown(b"x", FileKind::Symlink)));
    let s = seen(b"x", DT_UNKNOWN, true, None, Some(FileKind::NamedPipe));
    assert_eq!(merge_entry(true, &s), Some(shown(b"x", FileKind::NamedPipe)));
}

#[test]
fn snapshot_listing_drops_the_reserved_name() {
    let e = seen(b".snapshots", DT_DIR, true, None, Some(FileKind::Directory));
    assert_eq!(merge_entry(true, &e), None);
}

#[test]
fn snapshot_listing_drops_a_whiteout() {
    let e = seen(b"newname", DT_REG, true, Some(FileKind::Socket), None);
    assert_eq!(merge_entry(true, &e), None);
}

#[test]
fn snapshot_entry_kind_comes_first() {
    let e = seen(b"a", DT_DIR, true, Some(FileKind::RegularFile), Some(FileKind::Symlink));
    assert_eq!(merge_entry(true, &e), Some(shown(b"a", FileKind::RegularFile)));
    let d = seen(b"a", DT_REG, true, Some(FileKind::Directory), None);
    assert_eq!(merge_entry(true, &d), Some(shown(b"a", FileKind::Directory)));
}

#[test]
fn snapshot_listing_falls_back_to_the_file_then_the_stream() {
    let e = seen(b"a", DT_DIR, true, None, Some(FileKind::RegularFile));
    assert_eq!(merge_entry(true, &e), Some(shown(b"a", FileKind::RegularFile)));
    let f = seen(b"a", DT_DIR, true, None, None);
    assert_eq!(merge_entry(true, &f), Some(shown(b"a", FileKind::Directory)));
}

#[test]
fn can_merge_tells_when_a_kind_is_known() {
    assert!(can_merge(false, &seen(b"a", DT_REG, false, None, None)));
    assert!(can_merge(false, &seen(b"a", DT_UNKNOWN, false, None, Some(FileKind::RegularFile))));
    assert!(!can_merge(false, &seen(b"a", DT_UNKNOWN, false, None, None)));
    assert!(!can_merge(false, &seen(b"a", DT_UNKNOWN, true, Some(FileKind::Socket), None)));
    assert!(can_merge(true, &seen(b"a", DT_UNKNOWN, true, Some(FileKind::Socket), None)));
    assert!(can_merge(true, &seen(b".snapshots", DT_UNKNOWN, false, None, None)));
    assert!(can_merge(true, &seen(b"a", DT_UNKNOWN, false, Some(FileKind::Symlink), None)));
    assert!(!can_merge(true, &seen(b"a", DT_UNKNOWN, true, None, None)));
}

#[test]
fn readdir_of_live_directory_is_verbatim() {
    let stream = vec![
        seen(b".snapshots", DT_DIR, false, None, None),
        seen(b"testfile", DT_REG, false, None, None),
        seen(b"sub", DT_DIR, false, None, None),
    ];
    assert_eq!(
        readdir(false, &stream),
        vec![
            shown(b".snapshots", FileKind::Directory),
            shown(b"testfile", FileKind::RegularFile),
            shown(b"sub", FileKind::Directory),
        ]
    );
}

#[test]
fn readdir_of_snapshot_includes_live_file_and_excludes_reserved_name() {
    let stream = vec![
        seen(b".snapshots", DT_DIR, true, None, Some(FileKind::Directory)),
        seen(b"testfile", DT_REG, true, None, Some(FileKind::RegularFile)),
    ];
    let listing = readdir(true, &stream);
    assert_eq!(listing, vec![shown(b"testfile", FileKind::RegularFile)]);
    assert!(listing.iter().any(|e| e.name == b"testfile".to_vec()));
    assert!(!listing.iter().any(|e| e.name == b".snapshots".to_vec()));
}

#[test]
fn readdir_of_snapshot_keeps_order_and_drops_whiteouts() {
    let stream = vec![
        seen(b"b", DT_REG, true, None, None),
        seen(b"gone", DT_REG, true, Some(FileKind::Socket), None),
        seen(b"a", DT_REG, true, Some(FileKind::RegularFile), Some(FileKind::RegularFile)),
        seen(b".snapshots", DT_DIR, true, None, None),
        seen(b"d", DT_UNKNOWN, true, Some(FileKind::Directory), None),
    ];
    assert_eq!(
        readdir(true, &stream),
        vec![
            shown(b"b", FileKind::RegularFile),
            shown(b"a", FileKind::RegularFile),
            shown(b"d", FileKind::Directory),
        ]
    );
}

#[test]
fn readdir_of_empty_stream_is_empty() {
    assert_eq!(readdir(true, &Vec::new()), Vec::new());
    assert_eq!(readdir(false, &Vec::new()), Vec::new());
}
