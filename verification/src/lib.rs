//! A mirrored view of a backing directory tree with copy-on-write snapshots.
//!
//! Clients see the tree below a backing directory, and under the reserved
//! name `.snapshots/` one read-only view for each snapshot. A snapshot stores
//! nothing until the live tree is about to change: then it receives a copy of
//! what is about to be lost, or a whiteout for what is about to appear.
//!
//! The library decides; it touches no file. Its caller probes the backing
//! store, passes what it found, and carries out the plan that comes back.
//!
//! - `path`: paths as bytes and as sequences of names.
//! - `resolver`: from a path seen through the mount to a path of the backing
//!   store.
//! - `snapshot`: the backups and whiteouts that prepare the snapshots.
//! - `dispatch`: the policy of each file-system operation.
//! - `listing`: directory handles and the listing of a snapshot's directory.
//! - `kind`, `attr`, `errno`: file kinds, attributes and error numbers.
//! - `model`: a model of the backing store, and what the snapshots show after
//!   the planned steps.

pub mod attr;
pub mod dispatch;
pub mod errno;
pub mod kind;
pub mod listing;
pub mod model;
pub mod path;
pub mod resolver;
pub mod snapshot;
