//! The policy of each file-system operation: whether it is allowed, what has
//! to be done to the snapshots before it, on which path of the backing store
//! it runs, and what the kernel bridge is told afterwards.
//!
//! Nothing below a snapshot's root can be changed through the mount, and a
//! snapshot's root can be created and removed but not altered. An operation
//! that is allowed comes back as a plan: the steps that prepare the
//! snapshots, and the path on which the operating system is then called.

use vstd::prelude::*;
use crate::attr::{attr_of, stat_to_fuse, time_to_live, ttl, FileAttr, Stat, Timespec};
use crate::errno::EROFS;
use crate::kind::{has_known_kind, FileKind};
use crate::listing::{mark_handle, marked};
use crate::path::{below, components, is_absolute, names_of, Components};
use crate::resolver::{
    is_snapshots_name,
    names_inside_snapshot,
    names_snapshot,
    physical,
    resolved,
    Probe,
    RaftFS,
};
use crate::snapshot::{
    all_backup_steps,
    probes_of,
    steps_of,
    whiteout_steps,
    LevelProbe,
    Step,
};

verus! {

/// Open flag: create the file if it does not exist.
pub const O_CREAT: i32 = 0o100;

/// Open flag: fail if the file exists.
pub const O_EXCL: i32 = 0o200;

/// The owner or group that tells the operating system to leave it as it is.
pub const UNCHANGED_ID: u32 = 0xffff_ffff;

/// The plan of an operation that creates an entry.
#[derive(Clone, Debug, PartialEq, Eq)]
pub struct Creation {
    /// The whiteouts to carry out first, as `Step::proceed` rules: each is
    /// attempted whether or not the others succeed.
    pub whiteouts: Vec<Step>,
    /// The path of the backing store at which the entry is created.
    pub path: Vec<u8>,
}

/// The plan of an operation that removes an entry.
#[derive(Clone, Debug, PartialEq, Eq)]
pub struct Removal {
    /// The backup steps to carry out first, in order, as `Step::proceed`
    /// rules: up to the first that fails.
    pub backups: Vec<Step>,
    /// The path of the backing store at which the entry is removed.
    pub path: Vec<u8>,
}

/// The plan of a rename.
#[derive(Clone, Debug, PartialEq, Eq)]
pub struct Renaming {
    /// The backup steps for the old name, in order, up to the first that
    /// fails.
    pub backups: Vec<Step>,
    /// The whiteouts for the new name, each attempted.
    pub whiteouts: Vec<Step>,
    /// The path of the backing store that is renamed.
    pub from: Vec<u8>,
    /// The path of the backing store that it is renamed to.
    pub to: Vec<u8>,
}

/// The plan of a hard link.
#[derive(Clone, Debug, PartialEq, Eq)]
pub struct Linking {
    /// The whiteouts for the new name, each attempted.
    pub whiteouts: Vec<Step>,
    /// The path of the backing store that is linked.
    pub from: Vec<u8>,
    /// The path of the backing store at which the link is created.
    pub to: Vec<u8>,
}

/// What an operation on an existing file is applied to.
#[derive(Clone, Debug, PartialEq, Eq)]
pub enum Target {
    /// An open file, by its descriptor.
    Descriptor(u64),
    /// A path of the backing store.
    Path(Vec<u8>),
}

/// The model of a `Target`.
pub enum TargetView {
    Descriptor(u64),
    Path(Seq<u8>),
}

impl View for Target {
    type V = TargetView;

    open spec fn view(&self) -> TargetView {
        match self {
            Target::Descriptor(fd) => TargetView::Descriptor(*fd),
            Target::Path(path) => TargetView::Path(path@),
        }
    }
}

/// The target of an operation that came with a file handle, or with a path
/// only.
pub open spec fn target_of(fh: Option<u64>, path: Seq<u8>) -> TargetView {
    match fh {
        Some(fd) => TargetView::Descriptor(fd),
        None => TargetView::Path(path),
    }
}

/// The plan of an operation that alters an existing entry.
#[derive(Clone, Debug, PartialEq, Eq)]
pub struct Modification {
    /// The backup steps to carry out first, in order, as `Step::proceed`
    /// rules: up to the first that fails.
    pub backups: Vec<Step>,
    /// What the operation is applied to.
    pub target: Target,
}

/// What the bridge is told of a file that was created and opened.
#[derive(Clone, Copy, Debug, PartialEq, Eq, Structural)]
pub struct CreatedEntry {
    pub ttl: Timespec,
    pub attr: FileAttr,
    pub fh: u64,
    pub flags: u32,
}

/// What the bridge is told of extended attributes: the size that a buffer
/// needs, or the data.
#[derive(Clone, Debug, PartialEq, Eq)]
pub enum Xattr {
    Size(u32),
    Data(Vec<u8>),
}

/// The model of an `Xattr`.
pub enum XattrView {
    Size(u32),
    Data(Seq<u8>),
}

impl View for Xattr {
    type V = XattrView;

    open spec fn view(&self) -> XattrView {
        match self {
            Xattr::Size(n) => XattrView::Size(*n),
            Xattr::Data(data) => XattrView::Data(data@),
        }
    }
}

/// What the bridge is told after a file's attributes were asked for.
pub open spec fn entry_told(stat: Result<Stat, i32>) -> Result<(Timespec, FileAttr), i32> {
    match stat {
        Ok(s) => Ok((time_to_live(), attr_of(s))),
        Err(e) => Err(e),
    }
}

/// What the bridge is told after a directory was opened. `first` is the
/// outcome on the listing path. `second` is the outcome on the snapshot's
/// own directory, which is tried only where the first attempt failed on a
/// path of a snapshot.
pub open spec fn directory_opened(
    in_snapshot: bool,
    first: Result<u64, i32>,
    second: Option<Result<u64, i32>>,
) -> Result<(u64, u32), i32> {
    match first {
        Ok(descriptor) => Ok((marked(descriptor, in_snapshot), 0)),
        Err(e) => match second {
            Some(Ok(descriptor)) if in_snapshot => Ok((marked(descriptor, true), 0)),
            _ => Err(e),
        },
    }
}

/// The directory that is opened to list the directory `names`. A snapshot's
/// root that exists is listed from the root of the live tree; every other
/// directory from the place to which it resolves.
pub open spec fn listed_from(
    target: Seq<u8>,
    names: Seq<Seq<u8>>,
    probe: Probe,
    root_is_dir: bool,
) -> Seq<u8> {
    if names.len() == 2 && names_snapshot(names) && root_is_dir {
        below(target, Seq::<Seq<u8>>::empty())
    } else {
        physical(target, resolved(names, probe))
    }
}

/// A directory of a snapshot that exists is listed from the live directory
/// with the same names below the snapshot's root, unless the snapshot holds
/// something other than a directory in its place.
pub proof fn lemma_snapshot_lists_live(target: Seq<u8>, names: Seq<Seq<u8>>, probe: Probe)
    requires
        names_snapshot(names),
        probe.snapshot_is_dir,
        probe.entry.is_none() || probe.entry == Some(FileKind::Directory),
    ensures
        listed_from(target, names, probe, true) == below(target, names.skip(2)),
{
    if names.len() == 2 {
        assert(names.skip(2) =~= Seq::<Seq<u8>>::empty());
    }
}

/// The part of a buffer that a read has filled with `count` bytes.
pub open spec fn filled(buffer: Seq<u8>, count: usize) -> Seq<u8> {
    if count <= buffer.len() {
        buffer.take(count as int)
    } else {
        buffer
    }
}

/// What the bridge is told of extended attributes. With a buffer of `size`
/// bytes it receives the bytes that were read into `buffer`; without one, the
/// size that a buffer needs.
pub open spec fn xattr_told(size: u32, outcome: Result<usize, i32>, buffer: Seq<u8>) -> Result<
    XattrView,
    i32,
> {
    match outcome {
        Err(e) => Err(e),
        Ok(n) => if size > 0 {
            Ok(XattrView::Data(filled(buffer, n)))
        } else {
            Ok(XattrView::Size(n as u32))
        },
    }
}

/// The owner and group handed to the operating system: an absent one tells it
/// to leave that id as it is.
pub fn chown_ids(uid: Option<u32>, gid: Option<u32>) -> (ids: (u32, u32))
    ensures
        ids.0 == match uid {
            Some(u) => u,
            None => UNCHANGED_ID,
        },
        ids.1 == match gid {
            Some(g) => g,
            None => UNCHANGED_ID,
        },
{
    let u: u32 = match uid {
        Some(u) => u,
        None => UNCHANGED_ID,
    };
    let g: u32 = match gid {
        Some(g) => g,
        None => UNCHANGED_ID,
    };
    (u, g)
}

/// The flags with which a file is created and opened: those of the caller,
/// and the two that make the call fail where the file exists.
pub fn create_flags(flags: u32) -> (open_flags: i32)
    ensures
        open_flags == (flags as i32) | O_CREAT | O_EXCL,
{
    (#[verifier::truncate] (flags as i32)) | O_CREAT | O_EXCL
}

/// What the bridge is told after an entry's attributes were read.
pub fn entry_reply(stat: Result<Stat, i32>) -> (reply: Result<(Timespec, FileAttr), i32>)
    requires
        stat matches Ok(s) ==> has_known_kind(s.mode),
    ensures
        reply == entry_told(stat),
{
    match stat {
        Ok(s) => Ok((ttl(), stat_to_fuse(s))),
        Err(e) => Err(e),
    }
}

/// What the bridge is told after a file was created and opened with
/// descriptor `fh`, and its attributes were read.
pub fn created_reply(stat: Result<Stat, i32>, fh: u64, flags: u32) -> (reply: Result<
    CreatedEntry,
    i32,
>)
    requires
        stat matches Ok(s) ==> has_known_kind(s.mode),
    ensures
        reply == match stat {
            Ok(s) => Ok::<CreatedEntry, i32>(
                (CreatedEntry { ttl: time_to_live(), attr: attr_of(s), fh, flags }),
            ),
            Err(e) => Err(e),
        },
{
    match stat {
        Ok(s) => Ok(CreatedEntry { ttl: ttl(), attr: stat_to_fuse(s), fh, flags }),
        Err(e) => Err(e),
    }
}

/// What the bridge is told after `count` bytes were read into `buffer`: the
/// bytes that were read.
pub fn data_reply(buffer: Vec<u8>, count: usize) -> (data: Vec<u8>)
    ensures
        data@ == filled(buffer@, count),
{
    let mut data = buffer;
    data.truncate(count);
    data
}

/// What the bridge is told of extended attributes, see `xattr_told`.
pub fn xattr_reply(size: u32, outcome: Result<usize, i32>, buffer: Vec<u8>) -> (reply: Result<
    Xattr,
    i32,
>)
    ensures
        match xattr_told(size, outcome, buffer@) {
            Ok(told) => reply.is_ok() && reply.unwrap()@ == told,
            Err(e) => reply == Err::<Xattr, i32>(e),
        },
{
    match outcome {
        Err(e) => Err(e),
        Ok(n) => {
            if size > 0 {
                Ok(Xattr::Data(data_reply(buffer, n)))
            } else {
                Ok(Xattr::Size(#[verifier::truncate] (n as u32)))
            }
        },
    }
}

impl RaftFS {
    /// The attributes of the file at the resolved path, as the bridge is told
    /// them.
    pub fn stat_real(&self, stat: Result<Stat, i32>) -> (attr: Result<FileAttr, i32>)
        requires
            stat matches Ok(s) ==> has_known_kind(s.mode),
        ensures
            attr == match stat {
                Ok(s) => Ok::<FileAttr, i32>(attr_of(s)),
                Err(e) => Err(e),
            },
    {
        match stat {
            Ok(s) => Ok(stat_to_fuse(s)),
            Err(e) => Err(e),
        }
    }

    /// What an operation that reads an existing file is applied to: the open
    /// file where the bridge gave a handle, the resolved path where it gave
    /// none.
    pub fn read_target(&self, partial: &[u8], fh: Option<u64>, probe: &Probe) -> (target: Target)
        requires
            is_absolute(partial@),
        ensures
            target@ == target_of(
                fh,
                physical(self.target@, resolved(components(partial@), *probe)),
            ),
    {
        match fh {
            Some(fd) => Target::Descriptor(fd),
            None => Target::Path(self.real_path(partial, probe)),
        }
    }

    /// The path to open first for a listing of the directory `partial`.
    /// `root_is_dir` tells whether the backing store holds a directory with
    /// the names of `partial`; it is read for a snapshot's root only.
    pub fn listing_path(&self, partial: &[u8], probe: &Probe, root_is_dir: bool) -> (path: Vec<u8>)
        requires
            is_absolute(partial@),
        ensures
            path@ == listed_from(self.target@, components(partial@), *probe, root_is_dir),
            path@ == if components(partial@).len() == 2 && names_snapshot(components(partial@))
                && root_is_dir {
                below(self.target@, Seq::<Seq<u8>>::empty())
            } else {
                physical(self.target@, resolved(components(partial@), *probe))
            },
    {
        let names = Components::parse(partial);
        if names.len() == 2 && is_snapshots_name(names.name(0).as_slice()) && root_is_dir {
            Components::new().render_below(self.target.as_slice())
        } else {
            self.real_path(partial, probe)
        }
    }

    /// The path to open where a directory could not be opened at its
    /// listing path: the snapshot's own directory, for a path of a snapshot,
    /// and none otherwise.
    pub fn opendir_fallback(&self, partial: &[u8], first: &Result<u64, i32>) -> (path: Option<
        Vec<u8>,
    >)
        requires
            is_absolute(partial@),
        ensures
            path.is_some() == (first.is_err() && names_snapshot(components(partial@))),
            path.is_some() ==> path.unwrap()@ == below(self.target@, components(partial@)),
    {
        if first.is_err() && self.is_snapshot(partial) {
            Some(self.snap_path(partial))
        } else {
            None
        }
    }

    /// What the bridge is told after a directory was opened: the descriptor,
    /// marked where the path is one of a snapshot, or the error of the first
    /// attempt.
    pub fn opendir(
        &self,
        partial: &[u8],
        first: Result<u64, i32>,
        second: Option<Result<u64, i32>>,
    ) -> (reply: Result<(u64, u32), i32>)
        requires
            is_absolute(partial@),
        ensures
            reply == directory_opened(names_snapshot(components(partial@)), first, second),
    {
        let in_snapshot = self.is_snapshot(partial);
        match first {
            Ok(descriptor) => Ok((mark_handle(descriptor, in_snapshot), 0)),
            Err(e) => {
                if in_snapshot {
                    match second {
                        Some(Ok(descriptor)) => Ok((mark_handle(descriptor, true), 0)),
                        _ => Err(e),
                    }
                } else {
                    Err(e)
                }
            },
        }
    }

    /// Plans the creation of the entry `partial`, for `mknod`, `mkdir`,
    /// `symlink` and `create`. `exists` tells whether the backing store holds
    /// an entry with the same names already. The creation is refused below a
    /// snapshot's root, and where the entry exists.
    pub fn creation(&self, partial: &[u8], exists: bool, snapshots: &Vec<Vec<u8>>) -> (plan: Result<
        Creation,
        i32,
    >)
        requires
            is_absolute(partial@),
        ensures
            match plan {
                Ok(c) => {
                    &&& !names_inside_snapshot(components(partial@))
                    &&& !exists
                    &&& c.path@ == below(self.target@, components(partial@))
                    &&& steps_of(c.whiteouts@) == whiteout_steps(
                        names_of(snapshots@),
                        components(partial@),
                    )
                },
                Err(e) => (names_inside_snapshot(components(partial@)) || exists) && e == EROFS,
            },
    {
        let names = Components::parse(partial);
        if inside_snapshot(&names) {
            return Err(EROFS);
        }
        match self.mustnt_exist(exists) {
            Err(e) => {
                return Err(e);
            },
            Ok(_) => {},
        }
        let whiteouts = self.whiteout_names(&names, snapshots);
        Ok(Creation { whiteouts, path: names.render_below(self.target.as_slice()) })
    }

    /// Plans the removal of the entry `partial`, for `unlink` and `rmdir`.
    /// The removal is refused below a snapshot's root.
    pub fn removal(
        &self,
        partial: &[u8],
        snapshots: &Vec<Vec<u8>>,
        probes: &Vec<Vec<LevelProbe>>,
    ) -> (plan: Result<Removal, i32>)
        requires
            is_absolute(partial@),
        ensures
            match plan {
                Ok(r) => {
                    &&& !names_inside_snapshot(components(partial@))
                    &&& r.path@ == below(self.target@, components(partial@))
                    &&& steps_of(r.backups@) == all_backup_steps(
                        names_of(snapshots@),
                        components(partial@),
                        probes_of(probes@),
                    )
                },
                Err(e) => names_inside_snapshot(components(partial@)) && e == EROFS,
            },
    {
        let names = Components::parse(partial);
        if inside_snapshot(&names) {
            return Err(EROFS);
        }
        let backups = self.backup_all(&names, snapshots, probes);
        Ok(Removal { backups, path: names.render_below(self.target.as_slice()) })
    }

    /// Plans the rename of the entry `from` to `to`. It is refused where
    /// either lies below a snapshot's root.
    pub fn rename(
        &self,
        from: &[u8],
        to: &[u8],
        snapshots: &Vec<Vec<u8>>,
        probes: &Vec<Vec<LevelProbe>>,
    ) -> (plan: Result<Renaming, i32>)
        requires
            is_absolute(from@),
            is_absolute(to@),
        ensures
            match plan {
                Ok(r) => {
                    &&& !names_inside_snapshot(components(from@))
                    &&& !names_inside_snapshot(components(to@))
                    &&& r.from@ == below(self.target@, components(from@))
                    &&& r.to@ == below(self.target@, components(to@))
                    &&& steps_of(r.backups@) == all_backup_steps(
                        names_of(snapshots@),
                        components(from@),
                        probes_of(probes@),
                    )
                    &&& steps_of(r.whiteouts@) == whiteout_steps(
                        names_of(snapshots@),
                        components(to@),
                    )
                },
                Err(e) => (names_inside_snapshot(components(from@)) || names_inside_snapshot(
                    components(to@),
                )) && e == EROFS,
            },
    {
        let old_names = Components::parse(from);
        let new_names = Components::parse(to);
        if inside_snapshot(&old_names) || inside_snapshot(&new_names) {
            return Err(EROFS);
        }
        let backups = self.backup_all(&old_names, snapshots, probes);
        let whiteouts = self.whiteout_names(&new_names, snapshots);
        Ok(
            Renaming {
                backups,
                whiteouts,
                from: old_names.render_below(self.target.as_slice()),
                to: new_names.render_below(self.target.as_slice()),
            },
        )
    }

    /// Plans a hard link to `source` under the new name `to`. `probe` tells
    /// what the backing store holds for `source`, `exists` whether it holds an
    /// entry for `to` already. The link is refused where the new name lies
    /// below a snapshot's root, and where it exists.
    pub fn link(
        &self,
        source: &[u8],
        probe: &Probe,
        to: &[u8],
        exists: bool,
        snapshots: &Vec<Vec<u8>>,
    ) -> (plan: Result<Linking, i32>)
        requires
            is_absolute(source@),
            is_absolute(to@),
        ensures
            match plan {
                Ok(l) => {
                    &&& !names_inside_snapshot(components(to@))
                    &&& !exists
                    &&& l.from@ == physical(self.target@, resolved(components(source@), *probe))
                    &&& l.to@ == below(self.target@, components(to@))
                    &&& steps_of(l.whiteouts@) == whiteout_steps(
                        names_of(snapshots@),
                        components(to@),
                    )
                },
                Err(e) => (names_inside_snapshot(components(to@)) || exists) && e == EROFS,
            },
    {
        match self.creation(to, exists, snapshots) {
            Err(e) => Err(e),
            Ok(c) => Ok(
                Linking { whiteouts: c.whiteouts, from: self.real_path(source, probe), to: c.path },
            ),
        }
    }

    /// Plans a change to the existing entry `partial`, for `chmod`, `chown`,
    /// `truncate`, `utimens`, `write`, `setxattr` and `removexattr`. The
    /// change is refused at a snapshot's root and below it.
    pub fn modification(
        &self,
        partial: &[u8],
        fh: Option<u64>,
        snapshots: &Vec<Vec<u8>>,
        probes: &Vec<Vec<LevelProbe>>,
    ) -> (plan: Result<Modification, i32>)
        requires
            is_absolute(partial@),
        ensures
            match plan {
                Ok(m) => {
                    &&& !names_snapshot(components(partial@))
                    &&& m.target@ == target_of(fh, below(self.target@, components(partial@)))
                    &&& steps_of(m.backups@) == all_backup_steps(
                        names_of(snapshots@),
                        components(partial@),
                        probes_of(probes@),
                    )
                },
                Err(e) => names_snapshot(components(partial@)) && e == EROFS,
            },
    {
        let names = Components::parse(partial);
        if names.len() >= 2 && is_snapshots_name(names.name(0).as_slice()) {
            return Err(EROFS);
        }
        let backups = self.backup_all(&names, snapshots, probes);
        let target = match fh {
            Some(fd) => Target::Descriptor(fd),
            None => Target::Path(names.render_below(self.target.as_slice())),
        };
        Ok(Modification { backups, target })
    }
}

/// Tells whether the names lead below a snapshot's root.
fn inside_snapshot(names: &Components) -> (yes: bool)
    ensures
        yes == names_inside_snapshot(names@),
{
    names.len() >= 3 && is_snapshots_name(names.name(0).as_slice())
}

} // verus!
