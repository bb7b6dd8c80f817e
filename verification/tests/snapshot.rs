use raftfs::errno::EROFS;
use raftfs::path::Components;
use raftfs::resolver::RaftFS;
use raftfs::snapshot::{BackupLevel, LevelProbe, Step};

fn fs() -> RaftFS {
    RaftFS { target: b"/data".to_vec() }
}

fn place(path: &[u8]) -> Components {
    Components::parse(path)
}

fn snaps(list: &[&[u8]]) -> Vec<Vec<u8>> {
    list.iter().map(|n| n.to_vec()).collect()
}

fn missing(source_is_file: bool) -> LevelProbe {
    LevelProbe { exists: false, source_is_file }
}

fn present(source_is_file: bool) -> LevelProbe {
    LevelProbe { exists: true, source_is_file }
}

#[test]
fn mustnt_exist_refuses_an_existing_entry() {
    assert_eq!(fs().mustnt_exist(true), Err(EROFS));
    assert_eq!(fs().mustnt_exist(false), Ok(()));
    assert_eq!(EROFS, 30);
}

#[test]
fn snapshots_dir_is_below_the_target() {
    assert_eq!(fs().snapshots_dir(), b"/data/.snapshots".to_vec());
}

#[test]
fn unreadable_snapshots_directory_means_no_snapshots() {
    assert_eq!(fs().list_snapshots(Err(2)), Vec::<Vec<u8>>::new());
    assert_eq!(fs().list_snapshots(Ok(Vec::new())), Vec::<Vec<u8>>::new());
    assert_eq!(fs().list_snapshots(Ok(snaps(&[b"a", b"b"]))), snaps(&[b"a", b"b"]));
}

#[test]
fn whiteout_goes_into_every_snapshot() {
    let steps = fs().whiteout_snapshot(b"/newname", &snaps(&[b"snap", b"other"]));
    assert_eq!(
        steps,
        vec![
            Step::Whiteout { at: place(b".snapshots/snap/newname") },
            Step::Whiteout { at: place(b".snapshots/other/newname") },
        ]
    );
}

#[test]
fn whiteout_without_snapshots_is_nothing() {
    assert_eq!(fs().whiteout_snapshot(b"/newname", &Vec::new()), Vec::new());
}

#[test]
fn whiteout_of_nested_path_keeps_all_names() {
    let steps = fs().whiteout_snapshot(b"/a/b/c", &snaps(&[b"s"]));
    assert_eq!(steps, vec![Step::Whiteout { at: place(b".snapshots/s/a/b/c") }]);
    assert_eq!(fs().whiteout_names(&place(b"/a/b/c"), &snaps(&[b"s"])), steps);
}

#[test]
fn backup_levels_go_from_the_deepest_up() {
    assert_eq!(
        fs().backup_levels(b"/a/b", b"snap"),
        vec![
            BackupLevel { from: b"/data/a/b".to_vec(), to: b"/data/.snapshots/snap/a/b".to_vec() },
            BackupLevel { from: b"/data/a".to_vec(), to: b"/data/.snapshots/snap/a".to_vec() },
        ]
    );
    assert_eq!(fs().backup_levels(b"/", b"snap"), Vec::new());
}

#[test]
fn backup_copies_a_file() {
    let steps = fs().copy_for_backup(b"/testfile", b"snap", &vec![missing(true)]);
    assert_eq!(
        steps,
        vec![Step::Copy { from: place(b"testfile"), to: place(b".snapshots/snap/testfile") }]
    );
}

#[test]
fn backup_of_a_directory_creates_it_bare() {
    let steps = fs().copy_for_backup(b"/subdir", b"snap", &vec![missing(false)]);
    assert_eq!(steps, vec![Step::CreateDir { at: place(b".snapshots/snap/subdir") }]);
}

#[test]
fn backup_leaves_an_existing_entry_alone() {
    assert_eq!(fs().copy_for_backup(b"/testfile", b"snap", &vec![present(true)]), Vec::new());
    assert_eq!(
        fs().copy_for_backup(b"/a/b", b"snap", &vec![present(true), missing(false)]),
        Vec::new()
    );
}

#[test]
fn backup_creates_missing_parents_first() {
    let probes = vec![missing(true), missing(false), missing(false)];
    assert_eq!(
        fs().copy_for_backup(b"/a/b/c", b"snap", &probes),
        vec![
            Step::CreateDir { at: place(b".snapshots/snap/a") },
            Step::CreateDir { at: place(b".snapshots/snap/a/b") },
            Step::Copy { from: place(b"a/b/c"), to: place(b".snapshots/snap/a/b/c") },
        ]
    );
}

#[test]
fn backup_stops_at_the_first_existing_parent() {
    let probes = vec![missing(true), missing(false), present(false)];
    assert_eq!(
        fs().copy_for_backup(b"/a/b/c", b"snap", &probes),
        vec![
            Step::CreateDir { at: place(b".snapshots/snap/a/b") },
            Step::Copy { from: place(b"a/b/c"), to: place(b".snapshots/snap/a/b/c") },
        ]
    );
}

#[test]
fn backup_without_probes_plans_nothing() {
    assert_eq!(fs().copy_for_backup(b"/a/b", b"snap", &Vec::new()), Vec::new());
}

#[test]
fn backup_with_too_few_probes_stops_where_they_end() {
    assert_eq!(
        fs().copy_for_backup(b"/a/b", b"snap", &vec![missing(true)]),
        vec![Step::Copy { from: place(b"a/b"), to: place(b".snapshots/snap/a/b") }]
    );
}

#[test]
fn backup_ignores_probes_beyond_the_path() {
    let probes = vec![missing(true), missing(false), missing(false)];
    assert_eq!(
        fs().copy_for_backup(b"/x", b"snap", &probes),
        vec![Step::Copy { from: place(b"x"), to: place(b".snapshots/snap/x") }]
    );
}

#[test]
fn backup_of_the_root_plans_nothing() {
    assert_eq!(fs().copy_for_backup(b"/", b"snap", &vec![missing(false)]), Vec::new());
}

#[test]
fn backup_treats_each_snapshot_by_itself() {
    let probes = vec![vec![missing(true)], vec![present(true)], vec![missing(true)]];
    assert_eq!(
        fs().backup_snapshot(b"/testfile", &snaps(&[b"one", b"two", b"three"]), &probes),
        vec![
            Step::Copy { from: place(b"testfile"), to: place(b".snapshots/one/testfile") },
            Step::Copy { from: place(b"testfile"), to: place(b".snapshots/three/testfile") },
        ]
    );
}

#[test]
fn backup_without_snapshots_is_nothing() {
    assert_eq!(fs().backup_snapshot(b"/testfile", &Vec::new(), &Vec::new()), Vec::new());
}

#[test]
fn backup_of_a_snapshot_without_probes_is_nothing() {
    let probes = vec![vec![missing(true)]];
    assert_eq!(
        fs().backup_snapshot(b"/f", &snaps(&[b"one", b"two"]), &probes),
        vec![Step::Copy { from: place(b"f"), to: place(b".snapshots/one/f") }]
    );
}

#[test]
fn second_backup_plans_nothing() {
    let first = fs().backup_snapshot(b"/f", &snaps(&[b"one"]), &vec![vec![missing(true)]]);
    assert_eq!(first.len(), 1);
    let second = fs().backup_snapshot(b"/f", &snaps(&[b"one"]), &vec![vec![present(true)]]);
    assert_eq!(second, Vec::new());
}

#[test]
fn backup_by_names_is_the_same() {
    let probes = vec![vec![missing(true), missing(false)]];
    assert_eq!(
        fs().backup_all(&place(b"/a/b"), &snaps(&[b"s"]), &probes),
        fs().backup_snapshot(b"/a/b", &snaps(&[b"s"]), &probes)
    );
    assert_eq!(
        fs().backup_names(&place(b"/a/b"), b"s", &probes[0]),
        fs().copy_for_backup(b"/a/b", b"s", &probes[0])
    );
}

#[test]
fn failed_backup_step_ends_the_backup() {
    let copy = Step::Copy { from: place(b"f"), to: place(b".snapshots/s/f") };
    let dir = Step::CreateDir { at: place(b".snapshots/s/d") };
    assert!(copy.proceed(true));
    assert!(!copy.proceed(false));
    assert!(dir.proceed(true));
    assert!(!dir.proceed(false));
}

#[test]
fn failed_whiteout_does_not_stop_the_others() {
    let whiteout = Step::Whiteout { at: place(b".snapshots/s/f") };
    assert!(whiteout.proceed(true));
    assert!(whiteout.proceed(false));
}
