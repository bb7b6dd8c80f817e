use raftfs::attr::{FileAttr, Stat, Timespec};
use raftfs::dispatch::{
    chown_ids, create_flags, created_reply, data_reply, entry_reply, xattr_reply, CreatedEntry,
    Creation, Linking, Modification, Removal, Renaming, Target, Xattr, O_CREAT, O_EXCL,
    UNCHANGED_ID,
};
use raftfs::errno::EROFS;
use raftfs::kind::FileKind;
use raftfs::path::{child_path, Components};
use raftfs::resolver::{Probe, RaftFS};
use raftfs::snapshot::{LevelProbe, Step};

fn fs() -> RaftFS {
    RaftFS { target: b"/data".to_vec() }
}

fn place(path: &[u8]) -> Components {
    Components::parse(path)
}

fn snaps(list: &[&[u8]]) -> Vec<Vec<u8>> {
    list.iter().map(|n| n.to_vec()).collect()
}

fn file_missing() -> Vec<Vec<LevelProbe>> {
    vec![vec![LevelProbe { exists: false, source_is_file: true }]]
}

fn stat_of(mode: u32) -> Stat {
    Stat {
        mode,
        size: 6,
        blocks: 8,
        atime: 10,
        atime_nsec: 11,
        mtime: 20,
        mtime_nsec: 21,
        ctime: 30,
        ctime_nsec: 31,
        nlink: 1,
        uid: 1000,
        gid: 100,
        rdev: 0,
    }
}

fn attr_of(kind: FileKind, perm: u16) -> FileAttr {
    FileAttr {
        size: 6,
        blocks: 8,
        atime: Timespec { sec: 10, nsec: 11 },
        mtime: Timespec { sec: 20, nsec: 21 },
        ctime: Timespec { sec: 30, nsec: 31 },
        crtime: Timespec { sec: 0, nsec: 0 },
        kind,
        perm,
        nlink: 1,
        uid: 1000,
        gid: 100,
        rdev: 0,
        flags: 0,
    }
}

#[test]
fn creation_in_the_live_tree_is_planned() {
    let plan = fs().creation(b"/testdir", false, &snaps(&[b"snap"]));
    assert_eq!(
        plan,
        Ok(Creation {
            whiteouts: vec![Step::Whiteout { at: place(b".snapshots/snap/testdir") }],
            path: b"/data/testdir".to_vec(),
        })
    );
}

#[test]
fn creation_of_an_existing_entry_is_refused() {
    assert_eq!(fs().creation(b"/testdir", true, &snaps(&[b"snap"])), Err(EROFS));
    assert_eq!(fs().creation(b"/testdir", true, &Vec::new()), Err(EROFS));
}

#[test]
fn mkdir_inside_snapshot_is_refused() {
    let target = child_path(b"/.snapshots/snap", b"x");
    assert_eq!(fs().creation(&target, false, &snaps(&[b"snap"])), Err(EROFS));
    let deeper = child_path(b"/.snapshots/snap/subdir", b"testdir");
    assert_eq!(fs().creation(&deeper, false, &snaps(&[b"snap"])), Err(EROFS));
}

#[test]
fn mkdir_of_a_new_snapshot_is_allowed() {
    let target = child_path(b"/.snapshots", b"newsnap");
    assert_eq!(
        fs().creation(&target, false, &Vec::new()),
        Ok(Creation { whiteouts: Vec::new(), path: b"/data/.snapshots/newsnap".to_vec() })
    );
}

#[test]
fn creation_of_the_snapshots_directory_is_allowed() {
    assert_eq!(
        fs().creation(b"/.snapshots", false, &Vec::new()),
        Ok(Creation { whiteouts: Vec::new(), path: b"/data/.snapshots".to_vec() })
    );
}

#[test]
fn removal_backs_up_first() {
    let plan = fs().removal(b"/testfile", &snaps(&[b"snap"]), &file_missing());
    assert_eq!(
        plan,
        Ok(Removal {
            backups: vec![Step::Copy {
                from: place(b"testfile"),
                to: place(b".snapshots/snap/testfile"),
            }],
            path: b"/data/testfile".to_vec(),
        })
    );
}

#[test]
fn removal_inside_snapshot_is_refused() {
    let plan = fs().removal(b"/.snapshots/snap/testfile", &snaps(&[b"snap"]), &file_missing());
    assert_eq!(plan, Err(EROFS));
}

#[test]
fn removal_of_a_snapshot_root_is_allowed() {
    let plan = fs().removal(b"/.snapshots/snap", &Vec::new(), &Vec::new());
    assert_eq!(plan, Ok(Removal { backups: Vec::new(), path: b"/data/.snapshots/snap".to_vec() }));
}

#[test]
fn rename_backs_up_the_old_name_and_whites_out_the_new() {
    let plan = fs().rename(b"/testfile", b"/newname", &snaps(&[b"snap"]), &file_missing());
    assert_eq!(
        plan,
        Ok(Renaming {
            backups: vec![Step::Copy {
                from: place(b"testfile"),
                to: place(b".snapshots/snap/testfile"),
            }],
            whiteouts: vec![Step::Whiteout { at: place(b".snapshots/snap/newname") }],
            from: b"/data/testfile".to_vec(),
            to: b"/data/newname".to_vec(),
        })
    );
}

#[test]
fn rename_inside_snapshot_is_refused() {
    let none: Vec<Vec<LevelProbe>> = Vec::new();
    let s = snaps(&[b"snap"]);
    assert_eq!(
        fs().rename(b"/.snapshots/snap/testfile", b"/.snapshots/snap/newname", &s, &none),
        Err(EROFS)
    );
    assert_eq!(fs().rename(b"/.snapshots/snap/testfile", b"/newname", &s, &none), Err(EROFS));
    assert_eq!(fs().rename(b"/testfile", b"/.snapshots/snap/newname", &s, &none), Err(EROFS));
}

#[test]
fn link_resolves_its_source() {
    let probe = Probe { snapshot_is_dir: true, entry: Some(FileKind::RegularFile) };
    let plan = fs().link(b"/.snapshots/snap/old", &probe, b"/new", false, &snaps(&[b"snap"]));
    assert_eq!(
        plan,
        Ok(Linking {
            whiteouts: vec![Step::Whiteout { at: place(b".snapshots/snap/new") }],
            from: b"/data/.snapshots/snap/old".to_vec(),
            to: b"/data/new".to_vec(),
        })
    );
    let inherit = Probe { snapshot_is_dir: true, entry: None };
    let plan = fs().link(b"/.snapshots/snap/old", &inherit, b"/new", false, &Vec::new());
    assert_eq!(
        plan,
        Ok(Linking {
            whiteouts: Vec::new(),
            from: b"/data/old".to_vec(),
            to: b"/data/new".to_vec(),
        })
    );
}

#[test]
fn link_into_snapshot_or_over_an_entry_is_refused() {
    let probe = Probe { snapshot_is_dir: false, entry: None };
    assert_eq!(fs().link(b"/old", &probe, b"/.snapshots/snap/new", false, &Vec::new()), Err(EROFS));
    assert_eq!(fs().link(b"/old", &probe, b"/new", true, &Vec::new()), Err(EROFS));
}

#[test]
fn modification_by_path_backs_up_first() {
    let plan = fs().modification(b"/testfile", None, &snaps(&[b"snap"]), &file_missing());
    assert_eq!(
        plan,
        Ok(Modification {
            backups: vec![Step::Copy {
                from: place(b"testfile"),
                to: place(b".snapshots/snap/testfile"),
            }],
            target: Target::Path(b"/data/testfile".to_vec()),
        })
    );
}

#[test]
fn modification_by_handle_uses_the_descriptor() {
    let plan = fs().modification(b"/testfile", Some(7), &Vec::new(), &Vec::new());
    assert_eq!(plan, Ok(Modification { backups: Vec::new(), target: Target::Descriptor(7) }));
}

#[test]
fn modification_of_a_snapshot_is_refused() {
    let none: Vec<Vec<LevelProbe>> = Vec::new();
    assert_eq!(fs().modification(b"/.snapshots/snap/testfile", None, &Vec::new(), &none), Err(EROFS));
    assert_eq!(fs().modification(b"/.snapshots/snap", None, &Vec::new(), &none), Err(EROFS));
    assert_eq!(fs().modification(b"/.snapshots/snap/f", Some(3), &Vec::new(), &none), Err(EROFS));
    assert!(fs().modification(b"/.snapshots", None, &Vec::new(), &none).is_ok());
}

#[test]
fn read_target_prefers_the_handle() {
    let probe = Probe { snapshot_is_dir: true, entry: None };
    assert_eq!(fs().read_target(b"/.snapshots/snap/f", Some(9), &probe), Target::Descriptor(9));
    assert_eq!(
        fs().read_target(b"/.snapshots/snap/f", None, &probe),
        Target::Path(b"/data/f".to_vec())
    );
    let gone = Probe { snapshot_is_dir: true, entry: Some(FileKind::Socket) };
    assert_eq!(fs().read_target(b"/.snapshots/snap/f", None, &gone), Target::Path(Vec::new()));
}

#[test]
fn opendir_marks_a_snapshot_directory() {
    assert_eq!(fs().opendir(b"/.snapshots/snap", Ok(5), None), Ok((5 | (1u64 << 63), 0)));
    assert_eq!(fs().opendir(b"/.snapshots/snap/sub", Ok(5), None), Ok((5 | (1u64 << 63), 0)));
    assert_eq!(fs().opendir(b"/sub", Ok(5), None), Ok((5, 0)));
    assert_eq!(fs().opendir(b"/.snapshots", Ok(5), None), Ok((5, 0)));
}

#[test]
fn opendir_falls_back_to_the_snapshot_directory() {
    let fs = fs();
    assert_eq!(
        fs.opendir_fallback(b"/.snapshots/snap/sub", &Err(2)),
        Some(b"/data/.snapshots/snap/sub".to_vec())
    );
    assert_eq!(fs.opendir_fallback(b"/.snapshots/snap/sub", &Ok(4)), None);
    assert_eq!(fs.opendir_fallback(b"/sub", &Err(2)), None);
    assert_eq!(fs.opendir(b"/.snapshots/snap/sub", Err(2), Some(Ok(6))), Ok((6 | (1u64 << 63), 0)));
    assert_eq!(fs.opendir(b"/.snapshots/snap/sub", Err(2), Some(Err(13))), Err(2));
    assert_eq!(fs.opendir(b"/.snapshots/snap/sub", Err(2), None), Err(2));
    assert_eq!(fs.opendir(b"/sub", Err(2), Some(Ok(6))), Err(2));
}

#[test]
fn entry_reply_carries_ttl_and_attributes() {
    assert_eq!(
        entry_reply(Ok(stat_of(0o040755))),
        Ok((Timespec { sec: 1, nsec: 0 }, attr_of(FileKind::Directory, 0o755)))
    );
    assert_eq!(entry_reply(Err(2)), Err(2));
}

#[test]
fn mkdir_then_stat_reports_a_directory_of_the_requested_mode() {
    let mode = 0o750u32;
    let reply = entry_reply(Ok(stat_of(0o040000 | mode))).unwrap();
    assert_eq!(reply.1.kind, FileKind::Directory);
    assert_eq!(u32::from(reply.1.perm), mode);
}

#[test]
fn stat_real_converts_or_hands_the_error_on() {
    assert_eq!(fs().stat_real(Ok(stat_of(0o100644))), Ok(attr_of(FileKind::RegularFile, 0o644)));
    assert_eq!(fs().stat_real(Err(13)), Err(13));
}

#[test]
fn created_reply_carries_handle_and_flags() {
    assert_eq!(
        created_reply(Ok(stat_of(0o100600)), 4, 0o2),
        Ok(CreatedEntry {
            ttl: Timespec { sec: 1, nsec: 0 },
            attr: attr_of(FileKind::RegularFile, 0o600),
            fh: 4,
            flags: 0o2,
        })
    );
    assert_eq!(created_reply(Err(5), 4, 0), Err(5));
}

#[test]
fn create_flags_add_creat_and_excl() {
    assert_eq!(O_CREAT, 0o100);
    assert_eq!(O_EXCL, 0o200);
    assert_eq!(create_flags(0), 0o300);
    assert_eq!(create_flags(0o2), 0o302);
    assert_eq!(create_flags(0o101), 0o301);
    assert_eq!(create_flags(0x8000_0000), i32::MIN | 0o300);
}

#[test]
fn chown_ids_default_to_unchanged() {
    assert_eq!(chown_ids(Some(1), Some(2)), (1, 2));
    assert_eq!(chown_ids(None, Some(2)), (u32::MAX, 2));
    assert_eq!(chown_ids(Some(1), None), (1, u32::MAX));
    assert_eq!(chown_ids(None, None), (u32::MAX, u32::MAX));
    assert_eq!(UNCHANGED_ID, u32::MAX);
}

#[test]
fn data_reply_keeps_what_was_read() {
    assert_eq!(data_reply(b"hello\n\0\0".to_vec(), 6), b"hello\n".to_vec());
    assert_eq!(data_reply(b"abc".to_vec(), 0), Vec::<u8>::new());
    assert_eq!(data_reply(b"abc".to_vec(), 3), b"abc".to_vec());
    assert_eq!(data_reply(b"abc".to_vec(), 9), b"abc".to_vec());
}

#[test]
fn xattr_reply_gives_size_or_data() {
    assert_eq!(xattr_reply(0, Ok(17), Vec::new()), Ok(Xattr::Size(17)));
    assert_eq!(xattr_reply(8, Ok(3), b"abcdefgh".to_vec()), Ok(Xattr::Data(b"abc".to_vec())));
    assert_eq!(xattr_reply(8, Err(61), b"abcdefgh".to_vec()), Err(61));
    assert_eq!(xattr_reply(0, Err(61), Vec::new()), Err(61));
}

#[test]
fn snapshot_root_is_listed_from_the_live_root() {
    let any = Probe { snapshot_is_dir: true, entry: Some(FileKind::Directory) };
    assert_eq!(fs().listing_path(b"/.snapshots/snap", &any, true), b"/data/".to_vec());
    let none = Probe { snapshot_is_dir: false, entry: None };
    assert_eq!(fs().listing_path(b"/.snapshots/snap", &none, true), b"/data/".to_vec());
    assert_eq!(fs().listing_path(b"/.snapshots/snap/", &none, true), b"/data/".to_vec());
}

#[test]
fn missing_snapshot_root_is_listed_from_itself() {
    let none = Probe { snapshot_is_dir: false, entry: None };
    assert_eq!(
        fs().listing_path(b"/.snapshots/snap", &none, false),
        b"/data/.snapshots/snap".to_vec()
    );
}

#[test]
fn other_directories_are_listed_from_where_they_resolve() {
    let inherit = Probe { snapshot_is_dir: true, entry: None };
    let merged = Probe { snapshot_is_dir: true, entry: Some(FileKind::Directory) };
    let gone = Probe { snapshot_is_dir: true, entry: Some(FileKind::Socket) };
    let file = Probe { snapshot_is_dir: true, entry: Some(FileKind::RegularFile) };
    for root_is_dir in [false, true] {
        let fs = fs();
        assert_eq!(fs.listing_path(b"/", &inherit, root_is_dir), b"/data/".to_vec());
        assert_eq!(fs.listing_path(b"/sub", &inherit, root_is_dir), b"/data/sub".to_vec());
        assert_eq!(
            fs.listing_path(b"/.snapshots", &inherit, root_is_dir),
            b"/data/.snapshots".to_vec()
        );
        assert_eq!(
            fs.listing_path(b"/x/snap", &inherit, root_is_dir),
            b"/data/x/snap".to_vec()
        );
        assert_eq!(
            fs.listing_path(b"/.snapshots/snap/sub", &inherit, root_is_dir),
            b"/data/sub".to_vec()
        );
        assert_eq!(
            fs.listing_path(b"/.snapshots/snap/sub", &merged, root_is_dir),
            b"/data/sub".to_vec()
        );
        assert_eq!(fs.listing_path(b"/.snapshots/snap/sub", &gone, root_is_dir), Vec::<u8>::new());
        assert_eq!(
            fs.listing_path(b"/.snapshots/snap/sub", &file, root_is_dir),
            b"/data/.snapshots/snap/sub".to_vec()
        );
    }
}
