//! A model of the backing store, and what the planned steps do to what the
//! snapshots show.
//!
//! The store is a map from the names of a place to what is found there. The
//! steps that the snapshot engine plans are applied to it one by one, and the
//! view through a snapshot is read off it with the resolver's own rule. The
//! proofs of this module say what a snapshot shows after the live tree has
//! changed.

use vstd::prelude::*;
use crate::kind::FileKind;
use crate::resolver::{
    names_inside_snapshot,
    resolved,
    snapshot_entry,
    snapshot_root,
    snapshots_name,
    under_snapshots,
    Probe,
};
use crate::snapshot::{
    all_backup_steps,
    backup_steps,
    lemma_missing_levels_bounds,
    level_step,
    missing_levels,
    probes_at,
    whiteout_steps,
    LevelProbe,
    StepView,
};

verus! {

/// What the backing store holds at one place.
pub struct Node {
    /// The kind of the entry.
    pub kind: FileKind,
    /// The bytes of a regular file.
    pub content: Seq<u8>,
}

/// The backing store: the places that hold something, each by its names below
/// the store's root.
pub type Store = Map<Seq<Seq<u8>>, Node>;

/// An empty directory.
pub open spec fn directory() -> Node {
    Node { kind: FileKind::Directory, content: Seq::empty() }
}

/// A whiteout.
pub open spec fn socket() -> Node {
    Node { kind: FileKind::Socket, content: Seq::empty() }
}

/// Whether the store holds a directory at `place`.
pub open spec fn is_directory(store: Store, place: Seq<Seq<u8>>) -> bool {
    store.contains_key(place) && store[place].kind == FileKind::Directory
}

/// Whether the store holds a regular file at `place`.
pub open spec fn is_file(store: Store, place: Seq<Seq<u8>>) -> bool {
    store.contains_key(place) && store[place].kind == FileKind::RegularFile
}

/// What is found when the store is probed for a path inside a snapshot.
pub open spec fn probe_in(store: Store, names: Seq<Seq<u8>>) -> Probe {
    Probe {
        snapshot_is_dir: names.len() >= 2 && is_directory(store, names.take(2)),
        entry: if store.contains_key(names) {
            Some(store[names].kind)
        } else {
            None
        },
    }
}

/// What a client sees at a virtual path: the entry at the place to which the
/// path resolves, or nothing.
pub open spec fn seen(store: Store, names: Seq<Seq<u8>>) -> Option<Node> {
    match resolved(names, probe_in(store, names)) {
        Some(place) => if store.contains_key(place) {
            Some(store[place])
        } else {
            None
        },
        None => None,
    }
}

/// What is found when the store is probed before `names` is backed up into
/// `snapshot`: one probe for each level of the path, the deepest first.
pub open spec fn level_probes_in(store: Store, snapshot: Seq<u8>, names: Seq<Seq<u8>>) -> Seq<
    LevelProbe,
> {
    Seq::new(
        names.len(),
        |i: int|
            LevelProbe {
                exists: store.contains_key(snapshot_entry(snapshot, names.take(names.len() - i))),
                source_is_file: is_file(store, names.take(names.len() - i)),
            },
    )
}

/// The probes of all snapshots.
pub open spec fn all_probes_in(store: Store, snapshots: Seq<Seq<u8>>, names: Seq<Seq<u8>>) -> Seq<
    Seq<LevelProbe>,
> {
    Seq::new(snapshots.len(), |k: int| level_probes_in(store, snapshots[k], names))
}

/// The store after one step. A copy of a missing file changes nothing. A
/// whiteout is created only where nothing is in its place and its parent
/// directory exists.
pub open spec fn apply(store: Store, step: StepView) -> Store {
    match step {
        StepView::Copy { from, to } => if store.contains_key(from) {
            store.insert(to, store[from])
        } else {
            store
        },
        StepView::CreateDir { at } => store.insert(at, directory()),
        StepView::Whiteout { at } => if !store.contains_key(at) && at.len() > 0 && is_directory(
            store,
            at.drop_last(),
        ) {
            store.insert(at, socket())
        } else {
            store
        },
    }
}

/// The store after a sequence of steps.
pub open spec fn apply_all(store: Store, steps: Seq<StepView>) -> Store
    decreases steps.len(),
{
    if steps.len() == 0 {
        store
    } else {
        apply(apply_all(store, steps.drop_last()), steps.last())
    }
}

/// Whether two stores hold the same in the snapshot area: they differ in the
/// live tree at most.
pub open spec fn same_snapshots(a: Store, b: Store) -> bool {
    forall|p: Seq<Seq<u8>>|
        #![trigger a.contains_key(p)]
        #![trigger b.contains_key(p)]
        under_snapshots(p) ==> (a.contains_key(p) == b.contains_key(p) && (a.contains_key(p)
            ==> a[p] == b[p]))
}

/// What a backup puts into a snapshot for the live entry `names`: the file
/// itself, and a bare directory for anything else.
pub open spec fn backed_up(store: Store, names: Seq<Seq<u8>>) -> Node {
    if is_file(store, names) {
        store[names]
    } else {
        directory()
    }
}

/// The first `count` steps of a backup that fills `missing` levels.
spec fn fill_steps(
    snapshot: Seq<u8>,
    names: Seq<Seq<u8>>,
    probes: Seq<LevelProbe>,
    missing: nat,
    count: nat,
) -> Seq<StepView> {
    Seq::new(
        count,
        |j: int|
            level_step(snapshot, names.take(names.len() - missing + 1 + j), probes[missing - 1 - j]),
    )
}

/// What holds of the store while backups are applied to it: nothing that was
/// there has changed, and a snapshot's entry for `names` that is new holds
/// the backup of the live entry.
spec fn backed(store: Store, now: Store, names: Seq<Seq<u8>>) -> bool {
    &&& forall|p: Seq<Seq<u8>>|
        #![trigger store.contains_key(p)]
        store.contains_key(p) ==> now.contains_key(p) && now[p] == store[p]
    &&& forall|s: Seq<u8>|
        #![trigger snapshot_entry(s, names)]
        now.contains_key(snapshot_entry(s, names)) && !store.contains_key(
            snapshot_entry(s, names),
        ) ==> now[snapshot_entry(s, names)] == backed_up(store, names)
}

proof fn lemma_apply_all_concat(store: Store, a: Seq<StepView>, b: Seq<StepView>)
    ensures
        apply_all(store, a + b) == apply_all(apply_all(store, a), b),
    decreases b.len(),
{
    if b.len() == 0 {
        assert(a + b =~= a);
    } else {
        assert((a + b).drop_last() =~= a + b.drop_last());
        assert((a + b).last() == b.last());
        lemma_apply_all_concat(store, a, b.drop_last());
    }
}

proof fn lemma_step_keeps_backed(
    store: Store,
    now: Store,
    names: Seq<Seq<u8>>,
    snapshot: Seq<u8>,
    depth: int,
)
    requires
        backed(store, now, names),
        1 <= depth <= names.len(),
        !store.contains_key(snapshot_entry(snapshot, names.take(depth))),
    ensures
        backed(
            store,
            apply(
                now,
                level_step(
                    snapshot,
                    names.take(depth),
                    level_probes_in(store, snapshot, names)[names.len() - depth],
                ),
            ),
            names,
        ),
        apply(
            now,
            level_step(
                snapshot,
                names.take(depth),
                level_probes_in(store, snapshot, names)[names.len() - depth],
            ),
        ).contains_key(snapshot_entry(snapshot, names.take(depth))),
{
    let prefix = names.take(depth);
    let target = snapshot_entry(snapshot, prefix);
    let probe = level_probes_in(store, snapshot, names)[names.len() - depth];
    assert(names.take(names.len() - (names.len() - depth)) == prefix);
    assert(probe.source_is_file == is_file(store, prefix));
    let next = apply(now, level_step(snapshot, prefix, probe));
    if probe.source_is_file {
        assert(now.contains_key(prefix) && now[prefix] == store[prefix]);
        assert(next == now.insert(target, store[prefix]));
    } else {
        assert(next == now.insert(target, directory()));
    }
    assert(next.contains_key(target));
    assert forall|p: Seq<Seq<u8>>| store.contains_key(p) implies next.contains_key(p) && next[p]
        == store[p] by {
        assert(p != target);
        assert(now.contains_key(p) && now[p] == store[p]);
    }
    assert forall|s: Seq<u8>|
        #![trigger snapshot_entry(s, names)]
        next.contains_key(snapshot_entry(s, names)) && !store.contains_key(
            snapshot_entry(s, names),
        ) implies next[snapshot_entry(s, names)] == backed_up(store, names) by {
        let e = snapshot_entry(s, names);
        if e == target {
            assert(e.len() == 2 + names.len());
            assert(target.len() == 2 + depth);
            assert(prefix =~= names);
        }
    }
}

proof fn lemma_block_keeps_backed(
    store: Store,
    now: Store,
    names: Seq<Seq<u8>>,
    snapshot: Seq<u8>,
    count: nat,
)
    requires
        backed(store, now, names),
        count <= missing_levels(level_probes_in(store, snapshot, names), names.len()),
    ensures
        backed(
            store,
            apply_all(
                now,
                fill_steps(
                    snapshot,
                    names,
                    level_probes_in(store, snapshot, names),
                    missing_levels(level_probes_in(store, snapshot, names), names.len()),
                    count,
                ),
            ),
            names,
        ),
        count > 0 ==> apply_all(
            now,
            fill_steps(
                snapshot,
                names,
                level_probes_in(store, snapshot, names),
                missing_levels(level_probes_in(store, snapshot, names), names.len()),
                count,
            ),
        ).contains_key(
            snapshot_entry(
                snapshot,
                names.take(
                    names.len() - missing_levels(
                        level_probes_in(store, snapshot, names),
                        names.len(),
                    ) + count,
                ),
            ),
        ),
    decreases count,
{
    let probes = level_probes_in(store, snapshot, names);
    let missing = missing_levels(probes, names.len());
    lemma_missing_levels_bounds(probes, names.len());
    if count > 0 {
        let steps = fill_steps(snapshot, names, probes, missing, count);
        let before = fill_steps(snapshot, names, probes, missing, (count - 1) as nat);
        assert(steps.drop_last() =~= before);
        lemma_block_keeps_backed(store, now, names, snapshot, (count - 1) as nat);
        let depth = names.len() - missing + count;
        let k = missing - count;
        assert(steps.last() == level_step(snapshot, names.take(depth), probes[k]));
        assert(!probes[k].exists);
        assert(names.take(names.len() - k) == names.take(depth));
        lemma_step_keeps_backed(store, apply_all(now, before), names, snapshot, depth);
    }
}

/// The steps of all snapshots up to, not including, the one at position `k`.
spec fn backups_before(store: Store, snapshots: Seq<Seq<u8>>, names: Seq<Seq<u8>>, k: int) -> Seq<
    StepView,
> {
    all_backup_steps(snapshots.take(k), names, all_probes_in(store, snapshots, names))
}

proof fn lemma_backups_keep_backed(
    store: Store,
    snapshots: Seq<Seq<u8>>,
    names: Seq<Seq<u8>>,
    k: int,
)
    requires
        0 <= k <= snapshots.len(),
    ensures
        backed(store, apply_all(store, backups_before(store, snapshots, names, k)), names),
        names.len() > 0 ==> forall|i: int|
            0 <= i < k ==> apply_all(
                store,
                backups_before(store, snapshots, names, k),
            ).contains_key(#[trigger] snapshot_entry(snapshots[i], names)),
    decreases k,
{
    let all = all_probes_in(store, snapshots, names);
    if k == 0 {
        assert(apply_all(store, backups_before(store, snapshots, names, k)) == store);
    } else {
        lemma_backups_keep_backed(store, snapshots, names, k - 1);
        let head = snapshots.take(k);
        assert(head.drop_last() =~= snapshots.take(k - 1));
        assert(head.last() == snapshots[k - 1]);
        let earlier = backups_before(store, snapshots, names, k - 1);
        let probes = level_probes_in(store, snapshots[k - 1], names);
        assert(probes_at(all, k - 1) == probes);
        let block = backup_steps(snapshots[k - 1], names, probes);
        let missing = missing_levels(probes, names.len());
        assert(block =~= fill_steps(snapshots[k - 1], names, probes, missing, missing));
        assert(backups_before(store, snapshots, names, k) == earlier + block);
        lemma_apply_all_concat(store, earlier, block);
        let mid = apply_all(store, earlier);
        lemma_block_keeps_backed(store, mid, names, snapshots[k - 1], missing);
        lemma_missing_levels_bounds(probes, names.len());
        let after = apply_all(mid, block);
        if names.len() > 0 {
            assert forall|i: int| 0 <= i < k implies after.contains_key(
                #[trigger] snapshot_entry(snapshots[i], names),
            ) by {
                let e = snapshot_entry(snapshots[i], names);
                if i < k - 1 {
                    assert(mid.contains_key(e));
                    if !store.contains_key(e) {
                        lemma_block_only_adds(store, mid, names, snapshots[k - 1], missing, e);
                    }
                } else {
                    if missing > 0 {
                        assert(names.take(names.len() - missing + missing) =~= names);
                    } else {
                        assert(probes[0].exists);
                        assert(names.take(names.len() - 0) =~= names);
                        assert(store.contains_key(e));
                    }
                }
            }
        }
    }
}

proof fn lemma_step_only_adds(store: Store, step: StepView, place: Seq<Seq<u8>>)
    requires
        store.contains_key(place),
    ensures
        apply(store, step).contains_key(place),
{
}

proof fn lemma_block_only_adds(
    store: Store,
    now: Store,
    names: Seq<Seq<u8>>,
    snapshot: Seq<u8>,
    count: nat,
    place: Seq<Seq<u8>>,
)
    requires
        now.contains_key(place),
    ensures
        apply_all(
            now,
            fill_steps(
                snapshot,
                names,
                level_probes_in(store, snapshot, names),
                missing_levels(level_probes_in(store, snapshot, names), names.len()),
                count,
            ),
        ).contains_key(place),
    decreases count,
{
    let probes = level_probes_in(store, snapshot, names);
    let missing = missing_levels(probes, names.len());
    if count > 0 {
        let steps = fill_steps(snapshot, names, probes, missing, count);
        let before = fill_steps(snapshot, names, probes, missing, (count - 1) as nat);
        assert(steps.drop_last() =~= before);
        lemma_block_only_adds(store, now, names, snapshot, (count - 1) as nat, place);
        lemma_step_only_adds(apply_all(now, before), steps.last(), place);
    }
}

/// What is written at a path outside the snapshots is what is read there,
/// and it is what the backing store holds under the same names.
pub proof fn lemma_written_is_read(store: Store, names: Seq<Seq<u8>>, node: Node)
    requires
        !names_inside_snapshot(names),
    ensures
        seen(store.insert(names, node), names) == Some(node),
        store.insert(names, node)[names] == node,
{
}

/// A snapshot that holds no entry of its own for a live path shows what the
/// live tree holds there.
pub proof fn lemma_snapshot_shows_live(store: Store, snapshot: Seq<u8>, names: Seq<Seq<u8>>)
    requires
        names.len() > 0,
        !under_snapshots(names),
        is_directory(store, snapshot_root(snapshot)),
        !store.contains_key(snapshot_entry(snapshot, names)),
    ensures
        seen(store, snapshot_entry(snapshot, names)) == seen(store, names),
{
    let e = snapshot_entry(snapshot, names);
    assert(e.take(2) =~= snapshot_root(snapshot));
    assert(e.skip(2) =~= names);
    assert(e[0] == snapshots_name());
}

/// A snapshot that holds a socket for a path shows nothing there, whatever
/// the live tree holds.
pub proof fn lemma_whiteout_shows_nothing(store: Store, snapshot: Seq<u8>, names: Seq<Seq<u8>>)
    requires
        names.len() > 0,
        is_directory(store, snapshot_root(snapshot)),
        store.contains_key(snapshot_entry(snapshot, names)),
        store[snapshot_entry(snapshot, names)].kind == FileKind::Socket,
    ensures
        seen(store, snapshot_entry(snapshot, names)).is_none(),
{
    let e = snapshot_entry(snapshot, names);
    assert(e.take(2) =~= snapshot_root(snapshot));
    assert(e[0] == snapshots_name());
}

/// A backup that follows a backup of the same path plans nothing: every
/// snapshot holds an entry for the path by then.
pub proof fn lemma_second_backup_is_empty(
    store: Store,
    snapshots: Seq<Seq<u8>>,
    names: Seq<Seq<u8>>,
)
    ensures
        all_backup_steps(
            snapshots,
            names,
            all_probes_in(
                apply_all(
                    store,
                    all_backup_steps(snapshots, names, all_probes_in(store, snapshots, names)),
                ),
                snapshots,
                names,
            ),
        ).len() == 0,
{
    let first = all_backup_steps(snapshots, names, all_probes_in(store, snapshots, names));
    let after = apply_all(store, first);
    assert(snapshots.take(snapshots.len() as int) =~= snapshots);
    lemma_backups_keep_backed(store, snapshots, names, snapshots.len() as int);
    lemma_nothing_left(after, snapshots, names, snapshots.len() as int);
}

proof fn lemma_nothing_left(after: Store, snapshots: Seq<Seq<u8>>, names: Seq<Seq<u8>>, k: int)
    requires
        0 <= k <= snapshots.len(),
        names.len() > 0 ==> forall|i: int|
            0 <= i < snapshots.len() ==> after.contains_key(
                #[trigger] snapshot_entry(snapshots[i], names),
            ),
    ensures
        all_backup_steps(snapshots.take(k), names, all_probes_in(after, snapshots, names)).len()
            == 0,
    decreases k,
{
    if k > 0 {
        lemma_nothing_left(after, snapshots, names, k - 1);
        let head = snapshots.take(k);
        assert(head.drop_last() =~= snapshots.take(k - 1));
        assert(head.last() == snapshots[k - 1]);
        let probes = level_probes_in(after, snapshots[k - 1], names);
        assert(probes_at(all_probes_in(after, snapshots, names), k - 1) == probes);
        if names.len() > 0 {
            assert(names.take(names.len() - 0) =~= names);
            assert(after.contains_key(snapshot_entry(snapshots[k - 1], names)));
            assert(probes[0].exists);
        }
        assert(missing_levels(probes, names.len()) == 0);
    }
}

/// After the backup of a live entry, whatever is then done to the live tree,
/// each snapshot that exists still shows for that entry what it showed
/// before.
///
/// This holds of a snapshot that has an entry for the path which is no
/// directory, and of one that has no entry for it while the live entry is a
/// regular file. `changed` is the store after the backup and the change: it
/// differs from the store after the backup in the live tree only. Each step of
/// the backup is taken to succeed.
pub proof fn lemma_backup_keeps_view(
    store: Store,
    snapshots: Seq<Seq<u8>>,
    i: int,
    names: Seq<Seq<u8>>,
    changed: Store,
)
    requires
        0 <= i < snapshots.len(),
        names.len() > 0,
        is_directory(store, snapshot_root(snapshots[i])),
        store.contains_key(snapshot_entry(snapshots[i], names)) ==> store[snapshot_entry(
            snapshots[i],
            names,
        )].kind != FileKind::Directory,
        !store.contains_key(snapshot_entry(snapshots[i], names)) ==> is_file(store, names),
        same_snapshots(
            apply_all(
                store,
                all_backup_steps(snapshots, names, all_probes_in(store, snapshots, names)),
            ),
            changed,
        ),
    ensures
        seen(changed, snapshot_entry(snapshots[i], names)) == seen(
            store,
            snapshot_entry(snapshots[i], names),
        ),
{
    let steps = all_backup_steps(snapshots, names, all_probes_in(store, snapshots, names));
    let after = apply_all(store, steps);
    assert(snapshots.take(snapshots.len() as int) =~= snapshots);
    lemma_backups_keep_backed(store, snapshots, names, snapshots.len() as int);
    let root = snapshot_root(snapshots[i]);
    let e = snapshot_entry(snapshots[i], names);
    assert(e.take(2) =~= root);
    assert(e.skip(2) =~= names);
    assert(e[0] == snapshots_name());
    assert(names_inside_snapshot(e));
    assert(root[0] == snapshots_name());
    assert(under_snapshots(root) && under_snapshots(e));
    assert(after.contains_key(e));
    assert(after.contains_key(root) && after[root] == store[root]);
    assert(changed.contains_key(e) && changed[e] == after[e]);
    assert(changed.contains_key(root) && changed[root] == store[root]);
}

/// What holds of the store while whiteouts are applied to it: nothing that
/// was there has changed, and whatever is new is a socket.
spec fn whited(store: Store, now: Store) -> bool {
    &&& forall|p: Seq<Seq<u8>>|
        #![trigger store.contains_key(p)]
        store.contains_key(p) ==> now.contains_key(p) && now[p] == store[p]
    &&& forall|p: Seq<Seq<u8>>|
        #![trigger now.contains_key(p)]
        now.contains_key(p) && !store.contains_key(p) ==> now[p] == socket()
}

proof fn lemma_whiteouts_keep_whited(
    store: Store,
    snapshots: Seq<Seq<u8>>,
    names: Seq<Seq<u8>>,
    k: int,
)
    requires
        0 <= k <= snapshots.len(),
        names.len() > 0,
    ensures
        whited(store, apply_all(store, whiteout_steps(snapshots.take(k), names))),
        forall|i: int|
            0 <= i < k && is_directory(
                store,
                (#[trigger] snapshot_entry(snapshots[i], names)).drop_last(),
            ) ==> apply_all(store, whiteout_steps(snapshots.take(k), names)).contains_key(
                snapshot_entry(snapshots[i], names),
            ),
    decreases k,
{
    if k == 0 {
        assert(whiteout_steps(snapshots.take(k), names).len() == 0);
    } else {
        lemma_whiteouts_keep_whited(store, snapshots, names, k - 1);
        let steps = whiteout_steps(snapshots.take(k), names);
        let before = whiteout_steps(snapshots.take(k - 1), names);
        assert(steps.drop_last() =~= before);
        assert(steps.last() == StepView::Whiteout {
            at: snapshot_entry(snapshots[k - 1], names),
        });
        let mid = apply_all(store, before);
        let after = apply_all(store, steps);
        let at = snapshot_entry(snapshots[k - 1], names);
        assert(after == apply(mid, steps.last()));
        assert(after == mid || (!mid.contains_key(at) && after == mid.insert(at, socket())));
        assert forall|p: Seq<Seq<u8>>| store.contains_key(p) implies after.contains_key(p)
            && after[p] == store[p] by {
            assert(mid.contains_key(p) && mid[p] == store[p]);
        }
        assert forall|p: Seq<Seq<u8>>|
            after.contains_key(p) && !store.contains_key(p) implies after[p] == socket() by {
            if p != at || after == mid {
                assert(mid.contains_key(p));
            }
        }
        assert forall|i: int|
            0 <= i < k && is_directory(
                store,
                (#[trigger] snapshot_entry(snapshots[i], names)).drop_last(),
            ) implies after.contains_key(snapshot_entry(snapshots[i], names)) by {
            if i < k - 1 {
                assert(mid.contains_key(snapshot_entry(snapshots[i], names)));
            }
        }
    }
}

/// After the whiteouts for a live path, whatever is then created in the live
/// tree, each snapshot that exists shows nothing at that path.
///
/// This holds of a snapshot that holds a whiteout for the path already, and
/// of one that holds nothing for the path but a directory for its parent.
/// `changed` is the store after the whiteouts and the creation: it differs
/// from the store after the whiteouts in the live tree only.
pub proof fn lemma_whiteout_hides_creation(
    store: Store,
    snapshots: Seq<Seq<u8>>,
    i: int,
    names: Seq<Seq<u8>>,
    changed: Store,
)
    requires
        0 <= i < snapshots.len(),
        names.len() > 0,
        is_directory(store, snapshot_root(snapshots[i])),
        store.contains_key(snapshot_entry(snapshots[i], names)) ==> store[snapshot_entry(
            snapshots[i],
            names,
        )] == socket(),
        !store.contains_key(snapshot_entry(snapshots[i], names)) ==> is_directory(
            store,
            snapshot_entry(snapshots[i], names).drop_last(),
        ),
        same_snapshots(apply_all(store, whiteout_steps(snapshots, names)), changed),
    ensures
        seen(changed, snapshot_entry(snapshots[i], names)).is_none(),
{
    let after = apply_all(store, whiteout_steps(snapshots, names));
    assert(snapshots.take(snapshots.len() as int) =~= snapshots);
    lemma_whiteouts_keep_whited(store, snapshots, names, snapshots.len() as int);
    let root = snapshot_root(snapshots[i]);
    let e = snapshot_entry(snapshots[i], names);
    assert(e.take(2) =~= root);
    assert(e[0] == snapshots_name());
    assert(names_inside_snapshot(e));
    assert(root[0] == snapshots_name());
    assert(under_snapshots(root) && under_snapshots(e));
    assert(after.contains_key(e));
    assert(after[e] == socket());
    assert(after.contains_key(root) && after[root] == store[root]);
    assert(changed.contains_key(e) && changed[e] == after[e]);
    assert(changed.contains_key(root) && changed[root] == store[root]);
}

} // verus!
