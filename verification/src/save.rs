//! Persisted format versioning.
//!
//! A persisted game (snapshot, random seed, next entity identifier) and
//! a replay file both carry a format version. A reader must check the
//! version on load and reject anything newer than it understands;
//! persistence-level inconsistencies halt the load and are reported,
//! never silently swallowed.

use vstd::prelude::*;

verus! {

/// The newest persisted-format version this implementation writes and
/// understands.
pub const SAVE_FORMAT_VERSION: u32 = 1;

/// Whether a persisted file with the given format version may be
/// loaded: exactly the versions at or below the one this
/// implementation understands.
pub fn save_version_supported(version: u32) -> (r: bool)
    ensures
        r == (version <= SAVE_FORMAT_VERSION),
{
    version <= SAVE_FORMAT_VERSION
}

} // verus!
