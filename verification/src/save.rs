//! The decision at the heart of save/overwrite protection.
//!
//! The controller's surroundings probe the filesystem for the target path and
//! hand the result here; the decision whether to write is made in one place,
//! so no code path can write an existing file without the force flag.

use vstd::prelude::*;

verus! {

/// What a save attempt should do next.
#[derive(PartialEq, Eq, Structural, Debug, Clone, Copy)]
pub enum SaveDecision {
    /// Write the serialized buffer to the target path.
    Write,
    /// The target exists and no overwrite was forced: write nothing.
    Conflict,
}

/// The save rule: write exactly when the target does not exist or the
/// overwrite is forced.
pub open spec fn save_decision(exists: bool, force: bool) -> SaveDecision {
    if exists && !force {
        SaveDecision::Conflict
    } else {
        SaveDecision::Write
    }
}

/// Decide a save attempt from the probe result and the force flag.
pub fn try_save_decision(exists: bool, force: bool) -> (d: SaveDecision)
    ensures
        d == save_decision(exists, force),
        (force || !exists) ==> d == SaveDecision::Write,
        (exists && !force) ==> d == SaveDecision::Conflict,
{
    if exists && !force {
        SaveDecision::Conflict
    } else {
        SaveDecision::Write
    }
}

/// Save safety: without force, an existing target is never written; with
/// force, the write always proceeds.
pub proof fn lemma_save_safety(exists: bool)
    ensures
        exists ==> save_decision(exists, false) == SaveDecision::Conflict,
        save_decision(exists, true) == SaveDecision::Write,
{
}

} // verus!
