//! The error numbers that this library itself hands out.

use vstd::prelude::*;

verus! {

/// Invalid argument.
pub const EINVAL: i32 = 22;

/// Read-only file system.
pub const EROFS: i32 = 30;

} // verus!
