//! The mapping from paths seen through the mount to paths of the backing store.
//!
//! A virtual path `/.snapshots/<snap>/<rest>` is looked up in two places: the
//! entry that the snapshot holds for `<rest>`, and the live entry `<rest>`
//! itself. Which one is used depends on what the backing store holds at the
//! snapshot's entry; the caller probes the store and passes what it found.

use vstd::prelude::*;
use crate::kind::FileKind;
use crate::path::{
    below,
    components,
    is_absolute,
    is_normal,
    joined,
    lemma_below_is_not_empty,
    same_bytes,
    starts_at_root,
    Components,
    SEPARATOR,
};

verus! {

/// The reserved name at the root of the mount, `.snapshots`.
pub open spec fn snapshots_name() -> Seq<u8> {
    seq![0x2eu8, 0x73u8, 0x6eu8, 0x61u8, 0x70u8, 0x73u8, 0x68u8, 0x6fu8, 0x74u8, 0x73u8]
}

/// The reserved name `.snapshots`, as bytes.
pub fn snapshots_dir_name() -> (name: Vec<u8>)
    ensures
        name@ == snapshots_name(),
{
    let mut name: Vec<u8> = Vec::new();
    name.push(0x2e);
    name.push(0x73);
    name.push(0x6e);
    name.push(0x61);
    name.push(0x70);
    name.push(0x73);
    name.push(0x68);
    name.push(0x6f);
    name.push(0x74);
    name.push(0x73);
    assert(name@ =~= snapshots_name());
    name
}

/// Tells whether `name` is the reserved name `.snapshots`.
pub fn is_snapshots_name(name: &[u8]) -> (reserved: bool)
    ensures
        reserved == (name@ == snapshots_name()),
{
    let reserved_name = snapshots_dir_name();
    same_bytes(name, reserved_name.as_slice())
}

/// The path handed out for an entry that a snapshot has whited out: the empty
/// path, which every system call refuses.
pub open spec fn whiteout_path() -> Seq<u8> {
    Seq::empty()
}

/// Whether the names lead into the snapshot area: the first is `.snapshots`.
pub open spec fn under_snapshots(names: Seq<Seq<u8>>) -> bool {
    names.len() >= 1 && names[0] == snapshots_name()
}

/// Whether the names lead to a snapshot's root or below it: `.snapshots` and
/// at least one more name.
pub open spec fn names_snapshot(names: Seq<Seq<u8>>) -> bool {
    names.len() >= 2 && names[0] == snapshots_name()
}

/// Whether the names lead below a snapshot's root: `.snapshots` and at least
/// two more names.
pub open spec fn names_inside_snapshot(names: Seq<Seq<u8>>) -> bool {
    names.len() >= 3 && names[0] == snapshots_name()
}

/// The names of a snapshot's root below the backing store's root.
pub open spec fn snapshot_root(snapshot: Seq<u8>) -> Seq<Seq<u8>> {
    seq![snapshots_name(), snapshot]
}

/// The names of the entry that a snapshot holds for the live entry `names`.
pub open spec fn snapshot_entry(snapshot: Seq<u8>, names: Seq<Seq<u8>>) -> Seq<Seq<u8>> {
    snapshot_root(snapshot) + names
}

/// What the backing store holds for a path inside a snapshot.
#[derive(Clone, Copy, Debug, PartialEq, Eq)]
pub struct Probe {
    /// Whether `.snapshots/<snap>` is a directory of the backing store.
    pub snapshot_is_dir: bool,
    /// The kind of the entry that the snapshot itself holds for the path,
    /// found without following a symbolic link; `None` if it holds none.
    pub entry: Option<FileKind>,
}

/// Where a virtual path with the given names is found: the names of the entry
/// below the backing store's root, or `None` for an entry that the snapshot
/// has whited out.
pub open spec fn resolved(names: Seq<Seq<u8>>, probe: Probe) -> Option<Seq<Seq<u8>>> {
    if !names_inside_snapshot(names) || !probe.snapshot_is_dir {
        Some(names)
    } else {
        match probe.entry {
            None => Some(names.skip(2)),
            Some(FileKind::Socket) => None,
            Some(FileKind::Directory) => Some(names.skip(2)),
            Some(_) => Some(names),
        }
    }
}

/// The bytes handed out for a resolved path.
pub open spec fn physical(target: Seq<u8>, place: Option<Seq<Seq<u8>>>) -> Seq<u8> {
    match place {
        Some(names) => below(target, names),
        None => whiteout_path(),
    }
}

/// A path that does not lead below a snapshot's root resolves to the path of
/// the backing store's root followed by the path itself. This holds of a
/// path in normal form and of a root that is named without a separator at its
/// end.
pub proof fn lemma_live_path_is_appended(target: Seq<u8>, path: Seq<u8>, probe: Probe)
    requires
        target.len() > 0,
        target.last() != SEPARATOR,
        is_normal(path),
        !names_inside_snapshot(components(path)),
    ensures
        physical(target, resolved(components(path), probe)) == target + path,
{
    assert(target.push(SEPARATOR) + joined(components(path)) =~= target + (seq![SEPARATOR]
        + joined(components(path))));
}

/// Where a snapshot holds no entry of its own for a live path, the path seen
/// through the snapshot resolves to the same place as the live path.
pub proof fn lemma_snapshot_inherits(snapshot: Seq<u8>, live: Seq<Seq<u8>>, probe: Probe)
    requires
        live.len() > 0,
        !under_snapshots(live),
    ensures
        resolved(
            snapshot_entry(snapshot, live),
            (Probe { snapshot_is_dir: true, entry: None }),
        ) == resolved(live, probe),
{
    assert(snapshot_entry(snapshot, live).skip(2) =~= live);
}

/// Where a snapshot holds a socket for a path, the path seen through the
/// snapshot resolves to no place, and the path handed out for it is the
/// empty one, which is the path of no entry of the backing store.
pub proof fn lemma_whiteout_hides(target: Seq<u8>, snapshot: Seq<u8>, live: Seq<Seq<u8>>)
    requires
        target.len() > 0,
        live.len() > 0,
    ensures
        resolved(
            snapshot_entry(snapshot, live),
            (Probe { snapshot_is_dir: true, entry: Some(FileKind::Socket) }),
        ).is_none(),
        physical(target, None).len() == 0,
        forall|names: Seq<Seq<u8>>| #[trigger] below(target, names) != physical(target, None),
{
    assert forall|names: Seq<Seq<u8>>| #[trigger] below(target, names) != physical(
        target,
        None,
    ) by {
        lemma_below_is_not_empty(target, names);
    }
}

/// An entry of a directory lies below a snapshot's root exactly if the
/// directory is a snapshot's root or lies below one.
pub proof fn lemma_child_of_snapshot(parent: Seq<Seq<u8>>, name: Seq<u8>)
    ensures
        names_inside_snapshot(parent.push(name)) == names_snapshot(parent),
        names_inside_snapshot(parent) ==> names_snapshot(parent),
{
    if parent.len() > 0 {
        assert(parent.push(name)[0] == parent[0]);
    }
}

/// The paths to probe before a path inside a snapshot is resolved.
#[derive(Clone, Debug, PartialEq, Eq)]
pub struct ProbePaths {
    /// The snapshot's root directory.
    pub snapshot: Vec<u8>,
    /// The snapshot's own entry for the path.
    pub entry: Vec<u8>,
}

/// The mirrored file system: a view of the tree below `target`.
#[derive(Clone, Debug, PartialEq, Eq)]
pub struct RaftFS {
    /// The root of the backing store.
    pub target: Vec<u8>,
}

impl RaftFS {
    /// Tells whether the path is a snapshot's root or lies below one.
    pub fn is_snapshot(&self, partial: &[u8]) -> (yes: bool)
        ensures
            yes == (is_absolute(partial@) && names_snapshot(components(partial@))),
    {
        if !starts_at_root(partial) {
            return false;
        }
        let names = Components::parse(partial);
        names.len() >= 2 && is_snapshots_name(names.name(0).as_slice())
    }

    /// Tells whether the path lies below a snapshot's root.
    pub fn is_in_snapshot(&self, partial: &[u8]) -> (yes: bool)
        ensures
            yes == (is_absolute(partial@) && names_inside_snapshot(components(partial@))),
    {
        if !starts_at_root(partial) {
            return false;
        }
        let names = Components::parse(partial);
        names.len() >= 3 && is_snapshots_name(names.name(0).as_slice())
    }

    /// The two paths of the backing store that decide how `partial` resolves,
    /// or `None` where nothing needs to be probed.
    pub fn probe_paths(&self, partial: &[u8]) -> (paths: Option<ProbePaths>)
        ensures
            paths.is_some() == names_inside_snapshot(components(partial@)),
            paths.is_some() ==> paths.unwrap().snapshot@ == below(
                self.target@,
                components(partial@).take(2),
            ) && paths.unwrap().entry@ == below(self.target@, components(partial@)),
    {
        let names = Components::parse(partial);
        if names.len() >= 3 && is_snapshots_name(names.name(0).as_slice()) {
            let root = names.range(0, 2);
            Some(
                ProbePaths {
                    snapshot: root.render_below(self.target.as_slice()),
                    entry: names.render_below(self.target.as_slice()),
                },
            )
        } else {
            None
        }
    }

    /// Resolves a virtual path to the names of an entry of the backing store,
    /// or to `None` where the snapshot has whited the entry out.
    pub fn resolve(&self, partial: &[u8], probe: &Probe) -> (place: Option<Components>)
        requires
            is_absolute(partial@),
        ensures
            match resolved(components(partial@), *probe) {
                Some(names) => place.is_some() && place.unwrap()@ == names,
                None => place.is_none(),
            },
    {
        let names = Components::parse(partial);
        if !(names.len() >= 3 && is_snapshots_name(names.name(0).as_slice()))
            || !probe.snapshot_is_dir {
            return Some(names);
        }
        match probe.entry {
            None => Some(names.range(2, names.len())),
            Some(FileKind::Socket) => None,
            Some(FileKind::Directory) => Some(names.range(2, names.len())),
            Some(_) => Some(names),
        }
    }

    /// Resolves a virtual path to the path of the backing store on which the
    /// operating system is called.
    pub fn real_path(&self, partial: &[u8], probe: &Probe) -> (path: Vec<u8>)
        requires
            is_absolute(partial@),
        ensures
            path@ == physical(self.target@, resolved(components(partial@), *probe)),
    {
        match self.resolve(partial, probe) {
            Some(names) => names.render_below(self.target.as_slice()),
            None => Vec::new(),
        }
    }

    /// The path of the backing store with the same names as the virtual path,
    /// whatever the snapshots hold.
    pub fn snap_path(&self, partial: &[u8]) -> (path: Vec<u8>)
        requires
            is_absolute(partial@),
        ensures
            path@ == below(self.target@, components(partial@)),
    {
        let names = Components::parse(partial);
        names.render_below(self.target.as_slice())
    }
}

} // verus!
