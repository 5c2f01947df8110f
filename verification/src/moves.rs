//! The protocols that move a picture file, resume an interrupted move, roll
//! a move back, and recover interrupted plans. Each is a decision function:
//! given what has been observed on disk so far, it names the next step. The
//! application performs the step and records what it observed.

use vstd::prelude::*;
use crate::error::AppError;

verus! {

/// What an observation that may fail reported.
#[derive(Debug, Clone, Copy, PartialEq, Eq, Structural)]
pub enum Obs {
    /// Yes: the check succeeded (the content matched, the folder exists).
    Yes,
    /// No: the check failed.
    No,
    /// The file system reported an error.
    Io,
}

/// The next step of a protocol.
#[derive(Debug, Clone, PartialEq, Eq, Structural)]
pub enum MoveAction {
    /// Record whether the source file exists.
    CheckSource,
    /// Record whether the target file exists.
    CheckTarget,
    /// Hash the source and record whether it has the expected content.
    HashSource,
    /// Hash the target and record whether it has the expected content.
    HashTarget,
    /// Find the target's parent folder and create it; record `No` when the
    /// target has no parent.
    PrepareParent,
    /// Try to rename the source onto the target; record whether it worked.
    TryRename,
    /// Copy the source to a fresh temporary file beside the target, hash the
    /// copy, and record whether it has the expected content.
    CopyToTemp,
    /// Rename the temporary file onto the target; record whether it worked.
    PlaceTemp,
    /// Delete the source; record whether it worked.
    RemoveSource,
    /// Delete the temporary file, then fail with the error.
    DiscardTempAndFail(AppError),
    /// Delete the temporary file, then fail with the file-system error just seen.
    DiscardTempAndFailIo,
    /// Delete the target, then fail with the file-system error just seen.
    RemoveTargetAndFailIo,
    /// Fail with the file-system error just seen.
    FailIo,
    /// The target does not exist: run the fresh move protocol.
    StartFresh,
    /// The protocol succeeded.
    Done,
    /// The protocol refused with this error.
    Fail(AppError),
}

/// What a fresh move has observed so far.
#[derive(Debug, Clone, Copy)]
pub struct FreshMove {
    /// Whether source and target lie on the same volume.
    pub same_volume: bool,
    pub source_exists: Option<bool>,
    pub target_exists: Option<bool>,
    pub source_hash: Option<Obs>,
    pub parent: Option<Obs>,
    pub renamed: Option<bool>,
    pub copy: Option<Obs>,
    pub placed: Option<bool>,
    pub source_removed: Option<bool>,
}

/// A fresh move before any observation.
pub fn fresh_move(same_volume: bool) -> (m: FreshMove)
    ensures
        m.same_volume == same_volume,
        m.source_exists is None && m.target_exists is None && m.source_hash is None && m.parent is None,
        m.renamed is None && m.copy is None && m.placed is None && m.source_removed is None,
{
    FreshMove {
        same_volume,
        source_exists: None,
        target_exists: None,
        source_hash: None,
        parent: None,
        renamed: None,
        copy: None,
        placed: None,
        source_removed: None,
    }
}

/// The next step of a fresh move. The source must exist and have the
/// expected content, and the target must not exist. A move within one
/// volume first tries a rename; otherwise the source is copied to a
/// temporary file, the copy is verified, put in place, and only then is the
/// source deleted. A failed deletion removes the target again.
pub open spec fn spec_fresh_next(m: FreshMove) -> MoveAction {
    match m.source_exists {
        None => MoveAction::CheckSource,
        Some(false) => MoveAction::Fail(AppError::SourceMissing),
        Some(true) => match m.target_exists {
            None => MoveAction::CheckTarget,
            Some(true) => MoveAction::Fail(AppError::TargetExists),
            Some(false) => match m.source_hash {
                None => MoveAction::HashSource,
                Some(Obs::Io) => MoveAction::FailIo,
                Some(Obs::No) => MoveAction::Fail(AppError::SourceChanged),
                Some(Obs::Yes) => match m.parent {
                    None => MoveAction::PrepareParent,
                    Some(Obs::No) => MoveAction::Fail(AppError::InvalidTarget),
                    Some(Obs::Io) => MoveAction::FailIo,
                    Some(Obs::Yes) => if m.same_volume && m.renamed is None {
                        MoveAction::TryRename
                    } else if m.same_volume && m.renamed == Some(true) {
                        MoveAction::Done
                    } else {
                        match m.copy {
                            None => MoveAction::CopyToTemp,
                            Some(Obs::No) => MoveAction::DiscardTempAndFail(AppError::CopyVerifyFailed),
                            Some(Obs::Io) => MoveAction::DiscardTempAndFailIo,
                            Some(Obs::Yes) => match m.placed {
                                None => MoveAction::PlaceTemp,
                                Some(false) => MoveAction::FailIo,
                                Some(true) => match m.source_removed {
                                    None => MoveAction::RemoveSource,
                                    Some(false) => MoveAction::RemoveTargetAndFailIo,
                                    Some(true) => MoveAction::Done,
                                },
                            },
                        }
                    },
                },
            },
        },
    }
}

/// The next step of a fresh move.
pub fn fresh_next(m: &FreshMove) -> (a: MoveAction)
    ensures
        a == spec_fresh_next(*m),
{
    match m.source_exists {
        None => MoveAction::CheckSource,
        Some(false) => MoveAction::Fail(AppError::SourceMissing),
        Some(true) => match m.target_exists {
            None => MoveAction::CheckTarget,
            Some(true) => MoveAction::Fail(AppError::TargetExists),
            Some(false) => match m.source_hash {
                None => MoveAction::HashSource,
                Some(Obs::Io) => MoveAction::FailIo,
                Some(Obs::No) => MoveAction::Fail(AppError::SourceChanged),
                Some(Obs::Yes) => match m.parent {
                    None => MoveAction::PrepareParent,
                    Some(Obs::No) => MoveAction::Fail(AppError::InvalidTarget),
                    Some(Obs::Io) => MoveAction::FailIo,
                    Some(Obs::Yes) => if m.same_volume && m.renamed.is_none() {
                        MoveAction::TryRename
                    } else if m.same_volume && m.renamed == Some(true) {
                        MoveAction::Done
                    } else {
                        match m.copy {
                            None => MoveAction::CopyToTemp,
                            Some(Obs::No) => MoveAction::DiscardTempAndFail(AppError::CopyVerifyFailed),
                            Some(Obs::Io) => MoveAction::DiscardTempAndFailIo,
                            Some(Obs::Yes) => match m.placed {
                                None => MoveAction::PlaceTemp,
                                Some(false) => MoveAction::FailIo,
                                Some(true) => match m.source_removed {
                                    None => MoveAction::RemoveSource,
                                    Some(false) => MoveAction::RemoveTargetAndFailIo,
                                    Some(true) => MoveAction::Done,
                                },
                            },
                        }
                    },
                },
            },
        },
    }
}

/// A fresh move deletes the source only after the source was verified and
/// a verified copy was put in place at the target; it renames only a
/// verified source onto a free target; and it reports success only after a
/// rename or after the verified copy replaced the deleted source.
pub proof fn law_fresh_move_keeps_content(m: FreshMove)
    ensures
        spec_fresh_next(m) == MoveAction::RemoveSource ==> m.source_hash == Some(Obs::Yes) && m.copy
            == Some(Obs::Yes) && m.placed == Some(true),
        spec_fresh_next(m) == MoveAction::TryRename ==> m.source_hash == Some(Obs::Yes)
            && m.target_exists == Some(false) && m.same_volume,
        spec_fresh_next(m) == MoveAction::Done ==> m.source_hash == Some(Obs::Yes) && (m.renamed
            == Some(true) || (m.copy == Some(Obs::Yes) && m.placed == Some(true) && m.source_removed
            == Some(true))),
{
}

/// What resuming an interrupted move has observed so far.
#[derive(Debug, Clone, Copy)]
pub struct ResumeMove {
    /// Whether an earlier run of the plan may have left the target.
    pub allow_resume: bool,
    pub target_exists: Option<bool>,
    pub target_hash: Option<Obs>,
    pub source_exists: Option<bool>,
    pub source_hash: Option<Obs>,
    pub source_removed: Option<bool>,
}

/// A resumed move before any observation.
pub fn resume_move(allow_resume: bool) -> (m: ResumeMove)
    ensures
        m.allow_resume == allow_resume,
        m.target_exists is None && m.target_hash is None && m.source_exists is None,
        m.source_hash is None && m.source_removed is None,
{
    ResumeMove {
        allow_resume,
        target_exists: None,
        target_hash: None,
        source_exists: None,
        source_hash: None,
        source_removed: None,
    }
}

/// The next step of a move that may resume an interrupted one: without a
/// target it is a fresh move; an existing target is adopted only when the
/// plan may resume and the target has the expected content; then a source
/// that is still there is deleted only if it has that content too.
pub open spec fn spec_resume_next(m: ResumeMove) -> MoveAction {
    match m.target_exists {
        None => MoveAction::CheckTarget,
        Some(false) => MoveAction::StartFresh,
        Some(true) => if !m.allow_resume {
            MoveAction::Fail(AppError::TargetExists)
        } else {
            match m.target_hash {
                None => MoveAction::HashTarget,
                Some(Obs::Io) => MoveAction::FailIo,
                Some(Obs::No) => MoveAction::Fail(AppError::ResumeTargetMismatch),
                Some(Obs::Yes) => match m.source_exists {
                    None => MoveAction::CheckSource,
                    Some(false) => MoveAction::Done,
                    Some(true) => match m.source_hash {
                        None => MoveAction::HashSource,
                        Some(Obs::Io) => MoveAction::FailIo,
                        Some(Obs::No) => MoveAction::Fail(AppError::ResumeSourceChanged),
                        Some(Obs::Yes) => match m.source_removed {
                            None => MoveAction::RemoveSource,
                            Some(false) => MoveAction::FailIo,
                            Some(true) => MoveAction::Done,
                        },
                    },
                },
            }
        },
    }
}

/// The next step of a move that may resume an interrupted one.
pub fn resume_next(m: &ResumeMove) -> (a: MoveAction)
    ensures
        a == spec_resume_next(*m),
{
    match m.target_exists {
        None => MoveAction::CheckTarget,
        Some(false) => MoveAction::StartFresh,
        Some(true) => if !m.allow_resume {
            MoveAction::Fail(AppError::TargetExists)
        } else {
            match m.target_hash {
                None => MoveAction::HashTarget,
                Some(Obs::Io) => MoveAction::FailIo,
                Some(Obs::No) => MoveAction::Fail(AppError::ResumeTargetMismatch),
                Some(Obs::Yes) => match m.source_exists {
                    None => MoveAction::CheckSource,
                    Some(false) => MoveAction::Done,
                    Some(true) => match m.source_hash {
                        None => MoveAction::HashSource,
                        Some(Obs::Io) => MoveAction::FailIo,
                        Some(Obs::No) => MoveAction::Fail(AppError::ResumeSourceChanged),
                        Some(Obs::Yes) => match m.source_removed {
                            None => MoveAction::RemoveSource,
                            Some(false) => MoveAction::FailIo,
                            Some(true) => MoveAction::Done,
                        },
                    },
                },
            }
        },
    }
}

/// Resuming deletes a source only when both it and the existing target have
/// the expected content, and adopts a target only with that content.
pub proof fn law_resume_finishes_only_verified_copies(m: ResumeMove)
    ensures
        spec_resume_next(m) == MoveAction::RemoveSource ==> m.allow_resume && m.target_hash == Some(
            Obs::Yes,
        ) && m.source_hash == Some(Obs::Yes),
        spec_resume_next(m) == MoveAction::Done ==> m.allow_resume && m.target_hash == Some(Obs::Yes),
        !m.allow_resume && m.target_exists == Some(true) ==> spec_resume_next(m) == MoveAction::Fail(
            AppError::TargetExists,
        ),
{
}

/// How one moved item is rolled back.
#[derive(Debug, Clone, Copy, PartialEq, Eq, Structural)]
pub enum RollbackAction {
    /// The source file is back in place with its content: nothing to do.
    AlreadyInPlace,
    /// Move the archived file back to where it came from (fresh move).
    MoveBack,
    /// Both copies have the expected content: send the archived copy to the trash.
    TrashCopy,
    /// The files changed: stop and keep both.
    Conflict,
}

/// How to roll back one item, from whether the source and archived files
/// exist and have the expected content.
pub open spec fn spec_rollback_action(
    source_exists: bool,
    target_exists: bool,
    source_ok: bool,
    target_ok: bool,
) -> RollbackAction {
    if source_exists && !target_exists {
        if source_ok {
            RollbackAction::AlreadyInPlace
        } else {
            RollbackAction::Conflict
        }
    } else if !source_exists && target_exists {
        RollbackAction::MoveBack
    } else if source_exists && target_exists && source_ok && target_ok {
        RollbackAction::TrashCopy
    } else {
        RollbackAction::Conflict
    }
}

/// How to roll back one item.
pub fn rollback_action(source_exists: bool, target_exists: bool, source_ok: bool, target_ok: bool) -> (a:
    RollbackAction)
    ensures
        a == spec_rollback_action(source_exists, target_exists, source_ok, target_ok),
{
    if source_exists && !target_exists {
        if source_ok {
            RollbackAction::AlreadyInPlace
        } else {
            RollbackAction::Conflict
        }
    } else if !source_exists && target_exists {
        RollbackAction::MoveBack
    } else if source_exists && target_exists && source_ok && target_ok {
        RollbackAction::TrashCopy
    } else {
        RollbackAction::Conflict
    }
}

/// A rollback trashes a copy only when the source file is back with the
/// expected content, and declares an item restored only when its source file
/// has that content.
pub proof fn law_rollback_keeps_a_verified_copy(s: bool, t: bool, so: bool, to: bool)
    ensures
        spec_rollback_action(s, t, so, to) == RollbackAction::TrashCopy ==> s && so && t && to,
        spec_rollback_action(s, t, so, to) == RollbackAction::AlreadyInPlace ==> s && so,
        spec_rollback_action(s, t, so, to) == RollbackAction::MoveBack ==> !s && t,
{
}

/// What start-up recovery concludes about one item of an interrupted plan.
#[derive(Debug, Clone, Copy, PartialEq, Eq, Structural)]
pub enum RecoveredItem {
    /// Only the archived file exists, with the expected content: the move is done.
    Moved,
    /// The source file is still in place: the move can run again.
    Planned,
    /// Anything else: the item needs attention.
    Failed,
}

/// What recovery concludes about one item.
pub open spec fn spec_recovered_item(
    source_exists: bool,
    target_exists: bool,
    source_ok: bool,
    target_ok: bool,
) -> RecoveredItem {
    if !source_exists && target_exists && target_ok {
        RecoveredItem::Moved
    } else if source_exists && !target_exists {
        RecoveredItem::Planned
    } else if source_exists && target_exists && source_ok && target_ok {
        RecoveredItem::Planned
    } else {
        RecoveredItem::Failed
    }
}

/// What recovery concludes about one item of an interrupted plan.
pub fn recovered_item(source_exists: bool, target_exists: bool, source_ok: bool, target_ok: bool) -> (r:
    RecoveredItem)
    ensures
        r == spec_recovered_item(source_exists, target_exists, source_ok, target_ok),
{
    if !source_exists && target_exists && target_ok {
        RecoveredItem::Moved
    } else if source_exists && !target_exists {
        RecoveredItem::Planned
    } else if source_exists && target_exists && source_ok && target_ok {
        RecoveredItem::Planned
    } else {
        RecoveredItem::Failed
    }
}

/// Recovery and rollback agree with the move protocols: once a move has
/// finished (source gone, target with the expected content) start-up
/// recovery counts the item as moved and a rollback moves it back; before a
/// move started (source in place with its content, no target) recovery plans
/// it again and a rollback leaves it where it is.
pub proof fn law_recovery_and_rollback_agree_with_moves(source_ok: bool, target_ok: bool)
    ensures
        spec_recovered_item(false, true, source_ok, true) == RecoveredItem::Moved,
        spec_rollback_action(false, true, source_ok, target_ok) == RollbackAction::MoveBack,
        spec_recovered_item(true, false, true, target_ok) == RecoveredItem::Planned,
        spec_rollback_action(true, false, true, target_ok) == RollbackAction::AlreadyInPlace,
{
}

/// What a fresh move does with each thing it observes: a missing source,
/// an occupied target, a changed source or a target without a parent folder
/// stops it with that error; a file-system error stops it with that error;
/// a verified source is renamed first on one volume and copied otherwise; a
/// copy that does not verify is discarded; a source that cannot be deleted
/// after its copy was placed takes the copy away again; and the move
/// succeeds after a rename, or after the placed verified copy and the
/// deletion of the source.
pub proof fn law_fresh_move_outcomes(m: FreshMove)
    ensures
        m.source_exists == Some(false) ==> spec_fresh_next(m) == MoveAction::Fail(AppError::SourceMissing),
        m.source_exists == Some(true) && m.target_exists == Some(true) ==> spec_fresh_next(m)
            == MoveAction::Fail(AppError::TargetExists),
        m.source_exists == Some(true) && m.target_exists == Some(false) ==> {
            &&& m.source_hash == Some(Obs::No) ==> spec_fresh_next(m) == MoveAction::Fail(
                AppError::SourceChanged,
            )
            &&& m.source_hash == Some(Obs::Io) ==> spec_fresh_next(m) == MoveAction::FailIo
            &&& m.source_hash == Some(Obs::Yes) ==> {
                &&& m.parent == Some(Obs::No) ==> spec_fresh_next(m) == MoveAction::Fail(
                    AppError::InvalidTarget,
                )
                &&& m.parent == Some(Obs::Io) ==> spec_fresh_next(m) == MoveAction::FailIo
                &&& m.parent == Some(Obs::Yes) ==> {
                    &&& m.same_volume && m.renamed is None ==> spec_fresh_next(m)
                        == MoveAction::TryRename
                    &&& m.same_volume && m.renamed == Some(true) ==> spec_fresh_next(m)
                        == MoveAction::Done
                    &&& (!m.same_volume || m.renamed == Some(false)) ==> {
                        &&& m.copy is None ==> spec_fresh_next(m) == MoveAction::CopyToTemp
                        &&& m.copy == Some(Obs::No) ==> spec_fresh_next(m)
                            == MoveAction::DiscardTempAndFail(AppError::CopyVerifyFailed)
                        &&& m.copy == Some(Obs::Io) ==> spec_fresh_next(m)
                            == MoveAction::DiscardTempAndFailIo
                        &&& m.copy == Some(Obs::Yes) && m.placed is None ==> spec_fresh_next(m)
                            == MoveAction::PlaceTemp
                        &&& m.copy == Some(Obs::Yes) && m.placed == Some(false) ==> spec_fresh_next(
                            m,
                        ) == MoveAction::FailIo
                        &&& m.copy == Some(Obs::Yes) && m.placed == Some(true) ==> {
                            &&& m.source_removed is None ==> spec_fresh_next(m)
                                == MoveAction::RemoveSource
                            &&& m.source_removed == Some(false) ==> spec_fresh_next(m)
                                == MoveAction::RemoveTargetAndFailIo
                            &&& m.source_removed == Some(true) ==> spec_fresh_next(m)
                                == MoveAction::Done
                        }
                    }
                }
            }
        },
        !m.same_volume ==> spec_fresh_next(m) != MoveAction::TryRename,
{
}

/// What resuming does with each thing it observes: without a target it runs
/// a fresh move; an existing target stops a plan that may not resume; a
/// target without the expected content, or a changed source, stops it with
/// that error; and once the target has the expected content the move is
/// finished: at once when the source is already gone (the move completed
/// before the interruption), and after deleting a verified source otherwise.
pub proof fn law_resume_outcomes(m: ResumeMove)
    ensures
        m.target_exists == Some(false) ==> spec_resume_next(m) == MoveAction::StartFresh,
        m.target_exists == Some(true) && !m.allow_resume ==> spec_resume_next(m) == MoveAction::Fail(
            AppError::TargetExists,
        ),
        m.target_exists == Some(true) && m.allow_resume ==> {
            &&& m.target_hash == Some(Obs::No) ==> spec_resume_next(m) == MoveAction::Fail(
                AppError::ResumeTargetMismatch,
            )
            &&& m.target_hash == Some(Obs::Io) ==> spec_resume_next(m) == MoveAction::FailIo
            &&& m.target_hash == Some(Obs::Yes) ==> {
                &&& m.source_exists is None ==> spec_resume_next(m) == MoveAction::CheckSource
                &&& m.source_exists == Some(false) ==> spec_resume_next(m) == MoveAction::Done
                &&& m.source_exists == Some(true) ==> {
                    &&& m.source_hash is None ==> spec_resume_next(m) == MoveAction::HashSource
                    &&& m.source_hash == Some(Obs::No) ==> spec_resume_next(m) == MoveAction::Fail(
                        AppError::ResumeSourceChanged,
                    )
                    &&& m.source_hash == Some(Obs::Io) ==> spec_resume_next(m) == MoveAction::FailIo
                    &&& m.source_hash == Some(Obs::Yes) ==> {
                        &&& m.source_removed is None ==> spec_resume_next(m)
                            == MoveAction::RemoveSource
                        &&& m.source_removed == Some(false) ==> spec_resume_next(m)
                            == MoveAction::FailIo
                        &&& m.source_removed == Some(true) ==> spec_resume_next(m) == MoveAction::Done
                    }
                }
            }
        },
{
}

/// How each state of the two files is rolled back and recovered. A
/// rollback leaves in place only a verified source with no
/// archived copy, moves back an archived copy whose source is gone, trashes
/// the archived copy only when both copies verify, and stops otherwise;
/// recovery counts an item as moved only when just a verified archived copy
/// is left, plans it again when the source is in place without an archived
/// copy or when both copies verify, and marks it failed otherwise.
pub proof fn law_rollback_and_recovery_verdicts(s: bool, t: bool, so: bool, to: bool)
    ensures
        spec_rollback_action(s, t, so, to) == (if s && !t && so {
            RollbackAction::AlreadyInPlace
        } else if !s && t {
            RollbackAction::MoveBack
        } else if s && t && so && to {
            RollbackAction::TrashCopy
        } else {
            RollbackAction::Conflict
        }),
        spec_recovered_item(s, t, so, to) == (if !s && t && to {
            RecoveredItem::Moved
        } else if s && !t {
            RecoveredItem::Planned
        } else if s && t && so && to {
            RecoveredItem::Planned
        } else {
            RecoveredItem::Failed
        }),
{
}

} // verus!
