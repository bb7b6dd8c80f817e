//! Directory handles and the merge of a snapshot's directory listing.
//!
//! A directory of a snapshot, the snapshot's root included, is listed from
//! the live directory. Each entry is then held against what the snapshot
//! itself stores for it: an entry that the snapshot has whited out is
//! dropped, one that it overrides takes the kind of the override.

use vstd::prelude::*;
use crate::errno::EINVAL;
use crate::kind::{dtype_to_filetype, kind_of_dtype, FileKind};
use crate::path::copy_bytes;
use crate::resolver::{is_snapshots_name, snapshots_name, Probe};

verus! {

/// The bit of a directory handle that marks a directory of a snapshot.
pub const SNAPSHOT_BIT: u64 = 0x8000_0000_0000_0000;

/// The handle of the operating system with the snapshot bit cleared.
pub open spec fn descriptor_of(handle: u64) -> u64 {
    handle & !SNAPSHOT_BIT
}

/// Whether a directory handle is marked as one of a snapshot.
pub open spec fn marked_snapshot(handle: u64) -> bool {
    handle & SNAPSHOT_BIT != 0
}

/// The directory handle given to the kernel for a descriptor.
pub open spec fn marked(descriptor: u64, in_snapshot: bool) -> u64 {
    if in_snapshot {
        descriptor | SNAPSHOT_BIT
    } else {
        descriptor
    }
}

/// Marks a directory descriptor as one of a snapshot, or leaves it as it is.
pub fn mark_handle(descriptor: u64, in_snapshot: bool) -> (handle: u64)
    ensures
        handle == marked(descriptor, in_snapshot),
{
    if in_snapshot {
        descriptor | SNAPSHOT_BIT
    } else {
        descriptor
    }
}

/// The descriptor to hand to the operating system for a directory handle.
pub fn handle_descriptor(handle: u64) -> (descriptor: u64)
    ensures
        descriptor == descriptor_of(handle),
{
    handle & !SNAPSHOT_BIT
}

/// A directory handle taken apart.
#[derive(Clone, Copy, Debug, PartialEq, Eq)]
pub struct DirHandle {
    /// The descriptor of the operating system.
    pub descriptor: u64,
    /// Whether the directory was opened through a snapshot.
    pub in_snapshot: bool,
}

/// Takes a directory handle apart before the directory is read. A handle
/// without a descriptor is refused as an invalid argument.
pub fn directory_handle(handle: u64) -> (parts: Result<DirHandle, i32>)
    ensures
        match parts {
            Ok(h) => descriptor_of(handle) != 0 && h.descriptor == descriptor_of(handle)
                && h.in_snapshot == marked_snapshot(handle),
            Err(e) => descriptor_of(handle) == 0 && e == EINVAL,
        },
{
    let descriptor: u64 = handle & !SNAPSHOT_BIT;
    if descriptor == 0 {
        Err(EINVAL)
    } else {
        Ok(DirHandle { descriptor, in_snapshot: (handle & SNAPSHOT_BIT) != 0 })
    }
}

/// A marked handle gives back its descriptor and its mark, as long as the
/// descriptor leaves the top bit free.
pub proof fn lemma_handle_round_trip(descriptor: u64, in_snapshot: bool)
    requires
        descriptor < SNAPSHOT_BIT,
    ensures
        descriptor_of(marked(descriptor, in_snapshot)) == descriptor,
        marked_snapshot(marked(descriptor, in_snapshot)) == in_snapshot,
{
    assert(descriptor < 0x8000_0000_0000_0000u64 ==> (descriptor | 0x8000_0000_0000_0000u64)
        & !0x8000_0000_0000_0000u64 == descriptor) by (bit_vector);
    assert(descriptor < 0x8000_0000_0000_0000u64 ==> descriptor & !0x8000_0000_0000_0000u64
        == descriptor) by (bit_vector);
    assert((descriptor | 0x8000_0000_0000_0000u64) & 0x8000_0000_0000_0000u64 != 0)
        by (bit_vector);
    assert(descriptor < 0x8000_0000_0000_0000u64 ==> descriptor & 0x8000_0000_0000_0000u64 == 0)
        by (bit_vector);
}

/// An entry as the directory stream yields it, with what the backing store
/// holds for it.
#[derive(Clone, Debug, PartialEq, Eq)]
pub struct SeenEntry {
    /// The entry's name.
    pub name: Vec<u8>,
    /// The entry's type as the directory stream tells it.
    pub d_type: u8,
    /// What the snapshot holds for the entry; read only for a directory of a
    /// snapshot.
    pub probe: Probe,
    /// The kind of the file at the entry's resolved path, or `None` where
    /// that path names nothing.
    pub stat: Option<FileKind>,
}

/// The model of a `SeenEntry`.
pub struct SeenEntryView {
    pub name: Seq<u8>,
    pub d_type: u8,
    pub probe: Probe,
    pub stat: Option<FileKind>,
}

impl View for SeenEntry {
    type V = SeenEntryView;

    open spec fn view(&self) -> SeenEntryView {
        SeenEntryView { name: self.name@, d_type: self.d_type, probe: self.probe, stat: self.stat }
    }
}

/// An entry of a listing as the kernel receives it.
#[derive(Clone, Debug, PartialEq, Eq)]
pub struct DirectoryEntry {
    /// The entry's name.
    pub name: Vec<u8>,
    /// The entry's kind.
    pub kind: FileKind,
}

impl View for DirectoryEntry {
    type V = (Seq<u8>, FileKind);

    open spec fn view(&self) -> (Seq<u8>, FileKind) {
        (self.name@, self.kind)
    }
}

/// The models of the entries of a listing.
pub open spec fn listing_of(entries: Seq<DirectoryEntry>) -> Seq<(Seq<u8>, FileKind)> {
    Seq::new(entries.len(), |i: int| entries[i]@)
}

/// The models of the entries of a directory stream.
pub open spec fn stream_of(entries: Seq<SeenEntry>) -> Seq<SeenEntryView> {
    Seq::new(entries.len(), |i: int| entries[i]@)
}

/// Whether a snapshot's listing leaves the entry out: it is the reserved
/// name, or the snapshot holds a whiteout for it.
pub open spec fn hidden(in_snapshot: bool, entry: SeenEntryView) -> bool {
    in_snapshot && (entry.name == snapshots_name() || (entry.probe.snapshot_is_dir
        && entry.probe.entry == Some(FileKind::Socket)))
}

/// The kind under which an entry is listed, as far as anything tells it. In a
/// snapshot the snapshot's own entry comes first, then the file at the
/// resolved path, then the directory stream; elsewhere the directory stream
/// comes first.
pub open spec fn told_kind(in_snapshot: bool, entry: SeenEntryView) -> Option<FileKind> {
    if in_snapshot {
        if entry.probe.entry.is_some() {
            entry.probe.entry
        } else if entry.stat.is_some() {
            entry.stat
        } else {
            kind_of_dtype(entry.d_type)
        }
    } else {
        if kind_of_dtype(entry.d_type).is_some() {
            kind_of_dtype(entry.d_type)
        } else {
            entry.stat
        }
    }
}

/// Whether an entry can be merged: it is left out, or something tells its
/// kind.
pub open spec fn mergeable(in_snapshot: bool, entry: SeenEntryView) -> bool {
    hidden(in_snapshot, entry) || told_kind(in_snapshot, entry).is_some()
}

/// What the listing shows for one entry of the stream: nothing, or the name
/// with its kind.
pub open spec fn merged_entry(in_snapshot: bool, entry: SeenEntryView) -> Option<
    (Seq<u8>, FileKind),
>
    recommends
        mergeable(in_snapshot, entry),
{
    if hidden(in_snapshot, entry) {
        None
    } else {
        Some((entry.name, told_kind(in_snapshot, entry).unwrap()))
    }
}

/// The listing of a whole directory stream: the entries that are shown, in
/// the order of the stream.
pub open spec fn merged(in_snapshot: bool, stream: Seq<SeenEntryView>) -> Seq<(Seq<u8>, FileKind)>
    decreases stream.len(),
{
    if stream.len() == 0 {
        Seq::empty()
    } else {
        let before = merged(in_snapshot, stream.drop_last());
        match merged_entry(in_snapshot, stream.last()) {
            Some(shown) => before.push(shown),
            None => before,
        }
    }
}

/// Tells whether `merge_entry` accepts the entry.
pub fn can_merge(in_snapshot: bool, entry: &SeenEntry) -> (yes: bool)
    ensures
        yes == mergeable(in_snapshot, entry@),
{
    if in_snapshot {
        if is_snapshots_name(entry.name.as_slice()) {
            return true;
        }
        if entry.probe.snapshot_is_dir {
            match entry.probe.entry {
                Some(FileKind::Socket) => {
                    return true;
                },
                _ => {},
            }
        }
        entry.probe.entry.is_some() || entry.stat.is_some() || dtype_to_filetype(
            entry.d_type,
        ).is_some()
    } else {
        dtype_to_filetype(entry.d_type).is_some() || entry.stat.is_some()
    }
}

/// Merges one entry of a directory stream into the listing.
pub fn merge_entry(in_snapshot: bool, entry: &SeenEntry) -> (shown: Option<DirectoryEntry>)
    requires
        mergeable(in_snapshot, entry@),
    ensures
        match merged_entry(in_snapshot, entry@) {
            Some(e) => shown.is_some() && shown.unwrap()@ == e,
            None => shown.is_none(),
        },
{
    if in_snapshot {
        if is_snapshots_name(entry.name.as_slice()) {
            return None;
        }
        if entry.probe.snapshot_is_dir {
            match entry.probe.entry {
                Some(FileKind::Socket) => {
                    return None;
                },
                _ => {},
            }
        }
        let kind = match entry.probe.entry {
            Some(k) => k,
            None => match entry.stat {
                Some(k) => k,
                None => dtype_to_filetype(entry.d_type).unwrap(),
            },
        };
        Some(DirectoryEntry { name: copy_bytes(entry.name.as_slice()), kind })
    } else {
        let kind = match dtype_to_filetype(entry.d_type) {
            Some(k) => k,
            None => entry.stat.unwrap(),
        };
        Some(DirectoryEntry { name: copy_bytes(entry.name.as_slice()), kind })
    }
}

/// Merges a directory stream into the listing that the kernel receives.
pub fn readdir(in_snapshot: bool, stream: &Vec<SeenEntry>) -> (entries: Vec<DirectoryEntry>)
    requires
        forall|i: int| 0 <= i < stream@.len() ==> mergeable(in_snapshot, #[trigger] stream@[i]@),
    ensures
        listing_of(entries@) == merged(in_snapshot, stream_of(stream@)),
{
    let mut entries: Vec<DirectoryEntry> = Vec::new();
    let mut i: usize = 0;
    assert(stream_of(stream@).take(0) =~= Seq::<SeenEntryView>::empty());
    assert(listing_of(entries@) =~= Seq::<(Seq<u8>, FileKind)>::empty());
    while i < stream.len()
        invariant
            i <= stream@.len(),
            forall|k: int| 0 <= k < stream@.len() ==> mergeable(in_snapshot, #[trigger] stream@[k]@),
            listing_of(entries@) == merged(in_snapshot, stream_of(stream@).take(i as int)),
        decreases stream.len() - i,
    {
        let ghost before = listing_of(entries@);
        let ghost head = stream_of(stream@).take(i + 1);
        proof {
            assert(head.drop_last() =~= stream_of(stream@).take(i as int));
            assert(head.last() == stream@[i as int]@);
        }
        match merge_entry(in_snapshot, &stream[i]) {
            Some(shown) => {
                entries.push(shown);
                assert(listing_of(entries@) =~= before.push(shown@));
            },
            None => {},
        }
        i += 1;
    }
    assert(stream_of(stream@).take(stream@.len() as int) =~= stream_of(stream@));
    entries
}

} // verus!
