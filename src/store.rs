//! The protocol that replaces the cache file atomically: the new collection
//! is written to a temporary file beside it, flushed and forced to storage,
//! renamed over the destination, and the directory entry forced to storage.
//! The caller performs each step and reports whether it succeeded; these
//! functions decide what comes next.
use vstd::prelude::*;

verus! {

/// One step of replacing the cache file.
#[derive(Debug, Clone, Copy, PartialEq, Eq, Structural)]
pub enum PersistStep {
    /// Create a temporary file in the destination's directory.
    CreateTemp,
    /// Write the serialised collection into the temporary file.
    WriteJson,
    /// Flush the temporary file's buffers.
    Flush,
    /// Force the temporary file's contents to stable storage.
    SyncFile,
    /// Rename the temporary file over the destination: the only step that
    /// touches the destination.
    Rename,
    /// Force the directory entry to stable storage, so that the rename lasts.
    SyncDir,
}

/// What the caller does next.
#[derive(Debug, Clone, Copy, PartialEq, Eq, Structural)]
pub enum PersistAction {
    /// Perform this step and report its outcome.
    Perform(PersistStep),
    /// The new collection is in place.
    Finish,
    /// This step failed: stop and report the failure.
    Abort(PersistStep),
}

/// The step that follows a successful one, if any.
pub open spec fn successor(step: PersistStep) -> Option<PersistStep> {
    match step {
        PersistStep::CreateTemp => Some(PersistStep::WriteJson),
        PersistStep::WriteJson => Some(PersistStep::Flush),
        PersistStep::Flush => Some(PersistStep::SyncFile),
        PersistStep::SyncFile => Some(PersistStep::Rename),
        PersistStep::Rename => Some(PersistStep::SyncDir),
        PersistStep::SyncDir => None,
    }
}

/// The decision after `step`: a failed step aborts, the directory sync
/// included, since the rename does not last without it; a successful step
/// leads to the next one, and the directory sync to the finish.
pub open spec fn next_action(step: PersistStep, succeeded: bool) -> PersistAction {
    if !succeeded {
        PersistAction::Abort(step)
    } else {
        match successor(step) {
            Some(n) => PersistAction::Perform(n),
            None => PersistAction::Finish,
        }
    }
}

/// The first step of replacing the cache file.
pub fn first_persist_step() -> (r: PersistStep)
    ensures
        r == PersistStep::CreateTemp,
{
    PersistStep::CreateTemp
}

/// Decides what follows `step`, given whether it succeeded.
pub fn next_persist_action(step: PersistStep, succeeded: bool) -> (r: PersistAction)
    ensures
        r == next_action(step, succeeded),
{
    if !succeeded {
        PersistAction::Abort(step)
    } else {
        match step {
            PersistStep::CreateTemp => PersistAction::Perform(PersistStep::WriteJson),
            PersistStep::WriteJson => PersistAction::Perform(PersistStep::Flush),
            PersistStep::Flush => PersistAction::Perform(PersistStep::SyncFile),
            PersistStep::SyncFile => PersistAction::Perform(PersistStep::Rename),
            PersistStep::Rename => PersistAction::Perform(PersistStep::SyncDir),
            PersistStep::SyncDir => PersistAction::Finish,
        }
    }
}

/// Runs the protocol from `step` on the reported outcomes, one per step
/// performed: the action it ends with (`Perform` where outcomes ran out
/// first), whether a rename over the destination succeeded on the way, and
/// whether a directory sync succeeded on the way.
pub open spec fn replay(step: PersistStep, outcomes: Seq<bool>) -> (PersistAction, bool, bool)
    decreases outcomes.len(),
{
    if outcomes.len() == 0 {
        (PersistAction::Perform(step), false, false)
    } else {
        let renamed_here = step == PersistStep::Rename && outcomes[0];
        let synced_here = step == PersistStep::SyncDir && outcomes[0];
        match next_action(step, outcomes[0]) {
            PersistAction::Perform(n) => {
                let (end, renamed, synced) = replay(n, outcomes.drop_first());
                (end, renamed || renamed_here, synced || synced_here)
            },
            other => (other, renamed_here, synced_here),
        }
    }
}

proof fn lemma_replay_from(step: PersistStep, outcomes: Seq<bool>)
    ensures
        replay(step, outcomes).0 matches PersistAction::Abort(s) ==> (s != PersistStep::SyncDir
            ==> !replay(step, outcomes).1),
        replay(step, outcomes).0 == PersistAction::Abort(PersistStep::SyncDir) ==> replay(
            step,
            outcomes,
        ).1 || step == PersistStep::SyncDir,
        replay(step, outcomes).0 is Finish ==> replay(step, outcomes).2 && (replay(step, outcomes).1
            || step == PersistStep::SyncDir),
    decreases outcomes.len(),
{
    if outcomes.len() > 0 {
        match next_action(step, outcomes[0]) {
            PersistAction::Perform(n) => {
                lemma_replay_from(n, outcomes.drop_first());
            },
            _ => {},
        }
    }
}

/// Atomicity: a write of the cache file that stops on a failed step before
/// the directory sync has not renamed anything over the destination, so the
/// previous file is left as it was; one that stops on a failed directory
/// sync comes after a successful rename; one that finishes has renamed the
/// complete new file into place and forced the directory entry to storage.
pub proof fn lemma_persist_is_atomic(outcomes: Seq<bool>)
    ensures
        replay(PersistStep::CreateTemp, outcomes).0 matches PersistAction::Abort(s) ==> (s
            != PersistStep::SyncDir ==> !replay(PersistStep::CreateTemp, outcomes).1),
        replay(PersistStep::CreateTemp, outcomes).0 == PersistAction::Abort(PersistStep::SyncDir)
            ==> replay(PersistStep::CreateTemp, outcomes).1,
        replay(PersistStep::CreateTemp, outcomes).0 is Finish ==> replay(
            PersistStep::CreateTemp,
            outcomes,
        ).1 && replay(PersistStep::CreateTemp, outcomes).2,
{
    lemma_replay_from(PersistStep::CreateTemp, outcomes);
}

} // verus!
