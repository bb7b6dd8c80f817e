//! The snapshot engine: what has to be put into the snapshots before the
//! live tree changes.
//!
//! A snapshot stores nothing for a path until the live entry is about to
//! change. Before an entry is removed or altered, each snapshot that has no
//! entry of its own for it receives a copy; before an entry is created, each
//! snapshot receives a whiteout, a socket that hides the new entry from the
//! snapshot's view. The engine plans these steps from what the caller found in
//! the backing store; the caller carries them out.

use vstd::prelude::*;
use crate::errno::EROFS;
use crate::path::{below, components, copy_bytes, names_of, Components};
use crate::resolver::{snapshot_entry, snapshot_root, snapshots_dir_name, snapshots_name, RaftFS};

verus! {

/// One change to the backing store that prepares the snapshots. Each place
/// is given by its names below the backing store's root.
#[derive(Clone, Debug, PartialEq, Eq)]
pub enum Step {
    /// Copy the file `from` to `to`.
    Copy { from: Components, to: Components },
    /// Create the directory `at`.
    CreateDir { at: Components },
    /// Create a socket at `at`, with no permission bits and device number 0.
    Whiteout { at: Components },
}

/// The model of a `Step`.
pub enum StepView {
    Copy { from: Seq<Seq<u8>>, to: Seq<Seq<u8>> },
    CreateDir { at: Seq<Seq<u8>> },
    Whiteout { at: Seq<Seq<u8>> },
}

impl View for Step {
    type V = StepView;

    open spec fn view(&self) -> StepView {
        match self {
            Step::Copy { from, to } => StepView::Copy { from: from@, to: to@ },
            Step::CreateDir { at } => StepView::CreateDir { at: at@ },
            Step::Whiteout { at } => StepView::Whiteout { at: at@ },
        }
    }
}

/// Whether the steps that follow `step` in its list are still carried out,
/// given whether `step` succeeded. A failed backup step ends the backup: what
/// follows would lack its parent. A failed whiteout ends nothing: that
/// snapshot has an entry there already, or no directory to hold one, and the
/// other snapshots still need theirs.
pub open spec fn goes_on(step: StepView, succeeded: bool) -> bool {
    succeeded || step is Whiteout
}

impl Step {
    /// Tells whether to go on with the steps that follow this one, once it
    /// has succeeded or failed.
    pub fn proceed(&self, succeeded: bool) -> (on: bool)
        ensures
            on == goes_on(self@, succeeded),
    {
        match self {
            Step::Whiteout { .. } => true,
            _ => succeeded,
        }
    }
}

/// The models of a vector of steps.
pub open spec fn steps_of(steps: Seq<Step>) -> Seq<StepView> {
    Seq::new(steps.len(), |i: int| steps[i]@)
}

/// What the backing store holds at one level of a path that is backed up.
#[derive(Clone, Copy, Debug, PartialEq, Eq)]
pub struct LevelProbe {
    /// Whether the snapshot has an entry at this level.
    pub exists: bool,
    /// Whether the live entry at this level is a file.
    pub source_is_file: bool,
}

/// The live entry and the snapshot's entry at one level of a path.
#[derive(Clone, Debug, PartialEq, Eq)]
pub struct BackupLevel {
    /// The path of the live entry.
    pub from: Vec<u8>,
    /// The path of the snapshot's entry.
    pub to: Vec<u8>,
}

/// The number of levels, counted from the deepest, at which the snapshot
/// holds nothing. The count stops at the first level that exists, at the
/// first of which nothing is known, and at `depth`.
pub open spec fn missing_levels(probes: Seq<LevelProbe>, depth: nat) -> nat
    decreases depth,
{
    if depth == 0 || probes.len() == 0 || probes[0].exists {
        0
    } else {
        1 + missing_levels(probes.skip(1), (depth - 1) as nat)
    }
}

/// The step that fills the snapshot's entry for the live entry `names`: a
/// copy of a file, and a bare directory for anything else.
pub open spec fn level_step(snapshot: Seq<u8>, names: Seq<Seq<u8>>, probe: LevelProbe) -> StepView {
    if probe.source_is_file {
        StepView::Copy { from: names, to: snapshot_entry(snapshot, names) }
    } else {
        StepView::CreateDir { at: snapshot_entry(snapshot, names) }
    }
}

/// The steps that give one snapshot its entry for the live entry `names`.
/// `probes` tells what was found at each level, the deepest first. The levels
/// at which the snapshot holds nothing are filled from the top down, so that
/// each step finds its parent directory in place.
pub open spec fn backup_steps(snapshot: Seq<u8>, names: Seq<Seq<u8>>, probes: Seq<LevelProbe>) -> Seq<
    StepView,
> {
    let missing = missing_levels(probes, names.len());
    Seq::new(
        missing,
        |j: int|
            level_step(snapshot, names.take(names.len() - missing + 1 + j), probes[missing - 1 - j]),
    )
}

/// The probes of the snapshot at position `i`, or none where the caller gave
/// fewer.
pub open spec fn probes_at(probes: Seq<Seq<LevelProbe>>, i: int) -> Seq<LevelProbe> {
    if 0 <= i < probes.len() {
        probes[i]
    } else {
        Seq::empty()
    }
}

/// The backup steps of all snapshots, one snapshot after the other.
pub open spec fn all_backup_steps(
    snapshots: Seq<Seq<u8>>,
    names: Seq<Seq<u8>>,
    probes: Seq<Seq<LevelProbe>>,
) -> Seq<StepView>
    decreases snapshots.len(),
{
    if snapshots.len() == 0 {
        Seq::empty()
    } else {
        all_backup_steps(snapshots.drop_last(), names, probes) + backup_steps(
            snapshots.last(),
            names,
            probes_at(probes, snapshots.len() - 1),
        )
    }
}

/// The whiteouts that hide the live entry `names` from every snapshot.
pub open spec fn whiteout_steps(snapshots: Seq<Seq<u8>>, names: Seq<Seq<u8>>) -> Seq<StepView> {
    Seq::new(
        snapshots.len(),
        |i: int| StepView::Whiteout { at: snapshot_entry(snapshots[i], names) },
    )
}

/// The probes of a vector of snapshots, as sequences.
pub open spec fn probes_of(probes: Seq<Vec<LevelProbe>>) -> Seq<Seq<LevelProbe>> {
    Seq::new(probes.len(), |i: int| probes[i]@)
}

/// What the count of missing levels says of the probes: the levels that it
/// counts hold nothing, and the next one, if it was probed and lies within
/// the path, holds something.
pub proof fn lemma_missing_levels_bounds(probes: Seq<LevelProbe>, depth: nat)
    ensures
        missing_levels(probes, depth) <= depth,
        missing_levels(probes, depth) <= probes.len(),
        forall|k: int| 0 <= k < missing_levels(probes, depth) ==> !(#[trigger] probes[k]).exists,
        missing_levels(probes, depth) < depth && missing_levels(probes, depth) < probes.len()
            ==> probes[missing_levels(probes, depth) as int].exists,
    decreases depth,
{
    if depth == 0 || probes.len() == 0 || probes[0].exists {
    } else {
        let rest = probes.skip(1);
        let below = (depth - 1) as nat;
        lemma_missing_levels_bounds(rest, below);
        assert forall|k: int| 0 <= k < missing_levels(probes, depth) implies !(
        #[trigger] probes[k]).exists by {
            if k > 0 {
                assert(rest[k - 1] == probes[k]);
            }
        }
        if missing_levels(rest, below) < below && missing_levels(rest, below) < rest.len() {
            assert(rest[missing_levels(rest, below) as int] == probes[missing_levels(
                probes,
                depth,
            ) as int]);
        }
    }
}

/// Unfolds the count of missing levels from the front: after `i` missing
/// levels the count goes on with the rest.
proof fn lemma_missing_levels_step(probes: Seq<LevelProbe>, depth: nat, i: nat)
    requires
        i <= depth,
        i <= probes.len(),
        forall|k: int| 0 <= k < i ==> !probes[k].exists,
    ensures
        missing_levels(probes, depth) == i + missing_levels(probes.skip(i as int), (depth - i) as nat),
    decreases i,
{
    if i == 0 {
        assert(probes.skip(0) =~= probes);
    } else {
        let rest = probes.skip(1);
        assert forall|k: int| 0 <= k < i - 1 implies !rest[k].exists by {
            assert(rest[k] == probes[k + 1]);
        }
        lemma_missing_levels_step(rest, (depth - 1) as nat, (i - 1) as nat);
        assert(rest.skip(i - 1) =~= probes.skip(i as int));
    }
}

/// The names of a snapshot's root.
fn snapshot_root_names(snapshot: &[u8]) -> (root: Components)
    ensures
        root@ == snapshot_root(snapshot@),
{
    let mut names: Vec<Vec<u8>> = Vec::new();
    names.push(snapshots_dir_name());
    names.push(copy_bytes(snapshot));
    let root = Components { names };
    assert(root@ =~= snapshot_root(snapshot@));
    root
}

impl RaftFS {
    /// The directory of the backing store whose entries are the snapshots.
    pub fn snapshots_dir(&self) -> (path: Vec<u8>)
        ensures
            path@ == below(self.target@, seq![snapshots_name()]),
    {
        let mut names: Vec<Vec<u8>> = Vec::new();
        names.push(snapshots_dir_name());
        let dir = Components { names };
        assert(dir@ =~= seq![snapshots_name()]);
        dir.render_below(self.target.as_slice())
    }

    /// The names of the snapshots: every entry of the snapshots directory.
    /// Where that directory cannot be read there are no snapshots.
    pub fn list_snapshots(&self, listing: Result<Vec<Vec<u8>>, i32>) -> (snapshots: Vec<Vec<u8>>)
        ensures
            snapshots@ == match listing {
                Ok(entries) => entries@,
                Err(_) => Seq::<Vec<u8>>::empty(),
            },
    {
        match listing {
            Ok(entries) => entries,
            Err(_) => Vec::new(),
        }
    }

    /// Refuses a creation where the live entry already exists: a snapshot may
    /// still show that entry, so it must not be written over.
    pub fn mustnt_exist(&self, exists: bool) -> (free: Result<(), i32>)
        ensures
            free.is_ok() == !exists,
            free.is_err() ==> free == Err::<(), i32>(EROFS),
    {
        if exists {
            Err(EROFS)
        } else {
            Ok(())
        }
    }

    /// The whiteouts to create before the live entry `partial` is created:
    /// one socket in each snapshot. By `Step::proceed` each is attempted; one
    /// that fails, because the snapshot has an entry there already or lacks
    /// the parent directory, does not stop the others.
    pub fn whiteout_snapshot(&self, partial: &[u8], snapshots: &Vec<Vec<u8>>) -> (steps: Vec<Step>)
        ensures
            steps_of(steps@) == whiteout_steps(names_of(snapshots@), components(partial@)),
    {
        let names = Components::parse(partial);
        self.whiteout_names(&names, snapshots)
    }

    /// `whiteout_snapshot` for a path that is already split into its names.
    pub fn whiteout_names(&self, names: &Components, snapshots: &Vec<Vec<u8>>) -> (steps: Vec<Step>)
        ensures
            steps_of(steps@) == whiteout_steps(names_of(snapshots@), names@),
    {
        let mut steps: Vec<Step> = Vec::new();
        let mut i: usize = 0;
        while i < snapshots.len()
            invariant
                i <= snapshots@.len(),
                steps@.len() == i,
                forall|k: int|
                    0 <= k < i ==> (#[trigger] steps@[k])@ == (StepView::Whiteout {
                        at: snapshot_entry(names_of(snapshots@)[k], names@),
                    }),
            decreases snapshots.len() - i,
        {
            let root = snapshot_root_names(snapshots[i].as_slice());
            let at = root.concat(names);
            steps.push(Step::Whiteout { at });
            i += 1;
        }
        assert(steps_of(steps@) =~= whiteout_steps(names_of(snapshots@), names@));
        steps
    }

    /// The paths to probe before `partial` is backed up into `snapshot`: for
    /// each level of the path, the deepest first, the live entry and the
    /// snapshot's entry.
    pub fn backup_levels(&self, partial: &[u8], snapshot: &[u8]) -> (levels: Vec<BackupLevel>)
        ensures
            levels@.len() == components(partial@).len(),
            forall|i: int|
                0 <= i < levels@.len() ==> {
                    let names = components(partial@).take(components(partial@).len() - i);
                    &&& (#[trigger] levels@[i]).from@ == below(self.target@, names)
                    &&& levels@[i].to@ == below(
                        self.target@,
                        snapshot_entry(snapshot@, names),
                    )
                },
    {
        let names = Components::parse(partial);
        let root = snapshot_root_names(snapshot);
        let mut levels: Vec<BackupLevel> = Vec::new();
        let mut i: usize = 0;
        while i < names.len()
            invariant
                i <= names@.len(),
                names@ == components(partial@),
                root@ == snapshot_root(snapshot@),
                levels@.len() == i,
                forall|k: int|
                    0 <= k < i ==> {
                        let prefix = names@.take(names@.len() - k);
                        &&& (#[trigger] levels@[k]).from@ == below(
                            self.target@,
                            prefix,
                        )
                        &&& levels@[k].to@ == below(
                            self.target@,
                            snapshot_entry(snapshot@, prefix),
                        )
                    },
            decreases names@.len() - i,
        {
            let prefix = names.range(0, names.len() - i);
            let entry = root.concat(&prefix);
            levels.push(
                BackupLevel {
                    from: prefix.render_below(self.target.as_slice()),
                    to: entry.render_below(self.target.as_slice()),
                },
            );
            i += 1;
        }
        levels
    }

    /// The steps that give `snapshot` its entry for the live entry `partial`,
    /// before that entry changes. Nothing is planned where the snapshot has an
    /// entry already: it holds what the snapshot has to show.
    pub fn copy_for_backup(&self, partial: &[u8], snapshot: &[u8], probes: &Vec<LevelProbe>) -> (steps:
        Vec<Step>)
        ensures
            steps_of(steps@) == backup_steps(snapshot@, components(partial@), probes@),
    {
        let names = Components::parse(partial);
        self.backup_names(&names, snapshot, probes)
    }

    /// `copy_for_backup` for a path that is already split into its names.
    pub fn backup_names(&self, names: &Components, snapshot: &[u8], probes: &Vec<LevelProbe>) -> (steps:
        Vec<Step>)
        ensures
            steps_of(steps@) == backup_steps(snapshot@, names@, probes@),
    {
        let depth = names.len();
        let mut missing: usize = 0;
        proof {
            lemma_missing_levels_step(probes@, depth as nat, 0);
        }
        while missing < depth && missing < probes.len() && !probes[missing].exists
            invariant
                missing <= depth,
                missing <= probes@.len(),
                depth == names@.len(),
                forall|k: int| 0 <= k < missing ==> !probes@[k].exists,
            decreases depth - missing,
        {
            missing += 1;
        }
        proof {
            lemma_missing_levels_step(probes@, depth as nat, missing as nat);
        }
        assert(missing_levels(probes@, depth as nat) == missing);
        let root = snapshot_root_names(snapshot);
        let mut steps: Vec<Step> = Vec::new();
        let mut j: usize = 0;
        while j < missing
            invariant
                j <= missing <= depth,
                missing <= probes@.len(),
                depth == names@.len(),
                root@ == snapshot_root(snapshot@),
                steps@.len() == j,
                forall|k: int|
                    0 <= k < j ==> (#[trigger] steps@[k])@ == level_step(
                        snapshot@,
                        names@.take(depth - missing + 1 + k),
                        probes@[missing - 1 - k],
                    ),
            decreases missing - j,
        {
            let prefix = names.range(0, depth - missing + 1 + j);
            let to = root.concat(&prefix);
            let probe = probes[missing - 1 - j];
            if probe.source_is_file {
                steps.push(Step::Copy { from: prefix, to });
            } else {
                steps.push(Step::CreateDir { at: to });
            }
            j += 1;
        }
        assert(steps_of(steps@) =~= backup_steps(snapshot@, names@, probes@));
        steps
    }

    /// The steps that back the live entry `partial` up into every snapshot
    /// before it changes. `probes` holds, for each snapshot in turn, what was
    /// found at each level of the path, the deepest first. The steps are
    /// carried out in order; by `Step::proceed` the first that fails ends the
    /// backup.
    pub fn backup_snapshot(
        &self,
        partial: &[u8],
        snapshots: &Vec<Vec<u8>>,
        probes: &Vec<Vec<LevelProbe>>,
    ) -> (steps: Vec<Step>)
        ensures
            steps_of(steps@) == all_backup_steps(
                names_of(snapshots@),
                components(partial@),
                probes_of(probes@),
            ),
    {
        let names = Components::parse(partial);
        self.backup_all(&names, snapshots, probes)
    }

    /// `backup_snapshot` for a path that is already split into its names.
    pub fn backup_all(
        &self,
        names: &Components,
        snapshots: &Vec<Vec<u8>>,
        probes: &Vec<Vec<LevelProbe>>,
    ) -> (steps: Vec<Step>)
        ensures
            steps_of(steps@) == all_backup_steps(names_of(snapshots@), names@, probes_of(probes@)),
    {
        let mut steps: Vec<Step> = Vec::new();
        let none: Vec<LevelProbe> = Vec::new();
        let mut i: usize = 0;
        assert(names_of(snapshots@).take(0) =~= Seq::<Seq<u8>>::empty());
        assert(steps_of(steps@) =~= Seq::<StepView>::empty());
        while i < snapshots.len()
            invariant
                i <= snapshots@.len(),
                none@.len() == 0,
                steps_of(steps@) == all_backup_steps(
                    names_of(snapshots@).take(i as int),
                    names@,
                    probes_of(probes@),
                ),
            decreases snapshots.len() - i,
        {
            let found = if i < probes.len() {
                &probes[i]
            } else {
                &none
            };
            assert(found@ =~= probes_at(probes_of(probes@), i as int));
            let mut more = self.backup_names(names, snapshots[i].as_slice(), found);
            let ghost before = steps_of(steps@);
            let ghost added = steps_of(more@);
            proof {
                let head = names_of(snapshots@).take(i + 1);
                assert(head.drop_last() =~= names_of(snapshots@).take(i as int));
                assert(head.last() == snapshots@[i as int]@);
            }
            steps.append(&mut more);
            assert(steps_of(steps@) =~= before + added);
            i += 1;
        }
        assert(names_of(snapshots@).take(snapshots@.len() as int) =~= names_of(snapshots@));
        steps
    }
}

} // verus!
