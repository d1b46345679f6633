//! The decisions of the pipeline that carries a list of actions out: the
//! build phase keeps the first failure and starts nothing after it, and the
//! commit phase goes through the list in order and stops at the first
//! failure.

use crate::action::commit::{committed_all, surely_commit_all, CommitError};
use crate::action::Action;
use crate::db::PackagesDb;
use crate::progress::{Progress, ProgressGroup, ProgressType};
use vstd::prelude::*;

verus! {

/// The cell in which the workers of the build phase leave the first
/// failure. A failure that comes later does not replace it.
#[derive(Debug)]
pub struct FirstError<E> {
    first: Option<E>,
}

impl<E> View for FirstError<E> {
    type V = Option<E>;

    closed spec fn view(&self) -> Option<E> {
        self.first
    }
}

impl<E> FirstError<E> {
    /// The empty cell.
    pub fn new() -> (slot: FirstError<E>)
        ensures
            slot@ is None,
    {
        FirstError { first: None }
    }

    /// Whether a build that has not begun may begin: none has failed yet.
    pub fn may_start(&self) -> (free: bool)
        ensures
            free == (self@ is None),
    {
        self.first.is_none()
    }

    /// Leaves `error` in the cell unless a failure is there already.
    pub fn record(&mut self, error: E)
        ensures
            final(self)@ == (if old(self)@ is Some {
                old(self)@
            } else {
                Some(error)
            }),
    {
        if self.first.is_none() {
            self.first = Some(error);
        }
    }

    /// The verdict on the phase when all workers are done: the first
    /// failure, if there was one.
    pub fn finish(self) -> (result: Result<(), E>)
        ensures
            match self@ {
                Some(error) => result == Err::<(), E>(error),
                None => result is Ok,
            },
    {
        match self.first {
            Some(error) => Err(error),
            None => Ok(()),
        }
    }
}

/// The cell after the failures of `errors` were recorded in order: it holds
/// what it held, or else the first of them.
pub open spec fn recorded<E>(slot: Option<E>, errors: Seq<E>) -> Option<E> {
    if slot is Some {
        slot
    } else if errors.len() > 0 {
        Some(errors[0])
    } else {
        None
    }
}

/// However many failures are recorded, the cell holds the first: recording
/// one more after `errors` gives what recording `errors` with it at the end
/// gives.
pub proof fn lemma_first_error_wins<E>(slot: Option<E>, errors: Seq<E>, error: E)
    ensures
        (if recorded(slot, errors) is Some {
            recorded(slot, errors)
        } else {
            Some(error)
        }) == recorded(slot, errors.push(error)),
{
    if errors.len() > 0 {
        assert(errors.push(error)[0] == errors[0]);
    } else {
        assert(errors.push(error)[0] == error);
    }
}

/// The counters of a phase once it is announced: a phase without work is
/// complete at once, one of one; else its work is added to what is to do.
pub open spec fn announced(group: ProgressGroup, count: nat) -> ProgressGroup {
    if count == 0 {
        ProgressGroup { completed: 1, target: 1 }
    } else {
        ProgressGroup { completed: group.completed, target: (group.target + count) as i32 }
    }
}

/// Tells the progress receiver how much work a phase has.
pub fn announce<P: Progress>(progress: &mut P, progress_type: ProgressType, count: usize)
    requires
        count <= i32::MAX,
        old(progress).group(progress_type).target + count <= i32::MAX,
    ensures
        final(progress).group(progress_type) == announced(
            old(progress).group(progress_type),
            count as nat,
        ),
        forall|other: ProgressType|
            other != progress_type ==> final(progress).group(other) == old(progress).group(other),
{
    if count == 0 {
        progress.set_completed(progress_type);
    } else {
        let amount: i32 = count as i32;
        progress.increment_target(progress_type, amount);
    }
}

/// Takes in the end of one build: a build that succeeded counts as
/// completed, a build that failed leaves its failure in the cell unless one
/// is there already.
pub fn record_build<P: Progress, E>(
    slot: &mut FirstError<E>,
    progress: &mut P,
    outcome: Result<(), E>,
)
    requires
        old(progress).group(ProgressType::ActionsBuild).completed < i32::MAX,
    ensures
        match outcome {
            Ok(_) => {
                &&& final(slot)@ == old(slot)@
                &&& final(progress).group(ProgressType::ActionsBuild) == (ProgressGroup {
                    completed: (old(progress).group(ProgressType::ActionsBuild).completed
                        + 1) as i32,
                    target: old(progress).group(ProgressType::ActionsBuild).target,
                })
            },
            Err(error) => {
                &&& final(slot)@ == recorded(old(slot)@, seq![error])
                &&& final(progress).group(ProgressType::ActionsBuild) == old(progress).group(
                    ProgressType::ActionsBuild,
                )
            },
        },
        forall|other: ProgressType|
            other != ProgressType::ActionsBuild ==> final(progress).group(other) == old(
                progress,
            ).group(other),
{
    match outcome {
        Ok(_) => {
            progress.increment_completed(ProgressType::ActionsBuild, 1);
        },
        Err(error) => {
            slot.record(error);
        },
    }
}

/// Commits the actions in order and stops at the first that the store
/// refuses: what was committed before it stays committed, and nothing after
/// it is tried. Each commit counts as completed work.
pub fn commit_actions<D: PackagesDb, P: Progress>(
    actions: &Vec<Action>,
    db: &mut D,
    progress: &mut P,
) -> (result: Result<(), CommitError<D::AddError, D::RemoveError>>)
    requires
        actions.len() <= i32::MAX,
        old(progress).group(ProgressType::ActionsCommit).target + actions.len() <= i32::MAX,
        old(progress).group(ProgressType::ActionsCommit).completed + actions.len() <= i32::MAX,
    ensures
        final(db).fault_free() == old(db).fault_free(),
        final(db).reads() == old(db).reads(),
        forall|other: ProgressType|
            other != ProgressType::ActionsCommit ==> final(progress).group(other) == old(
                progress,
            ).group(other),
        match result {
            Ok(_) => {
                &&& final(db).records() == committed_all(old(db).records(), actions.deep_view())
                &&& final(progress).group(ProgressType::ActionsCommit) == (if actions.len() == 0 {
                    ProgressGroup { completed: 1, target: 1 }
                } else {
                    ProgressGroup {
                        completed: (old(progress).group(ProgressType::ActionsCommit).completed
                            + actions.len()) as i32,
                        target: (old(progress).group(ProgressType::ActionsCommit).target
                            + actions.len()) as i32,
                    }
                })
            },
            Err(error) => exists|failed: int|
                {
                    &&& 0 <= failed < actions.len()
                    &&& final(db).records() == committed_all(
                        old(db).records(),
                        #[trigger] actions.deep_view().take(failed),
                    )
                    &&& (error is DatabaseAdd <==> actions[failed] is Install)
                    &&& final(progress).group(ProgressType::ActionsCommit) == (ProgressGroup {
                        completed: (old(progress).group(ProgressType::ActionsCommit).completed
                            + failed) as i32,
                        target: (old(progress).group(ProgressType::ActionsCommit).target
                            + actions.len()) as i32,
                    })
                },
        },
        old(db).fault_free() && surely_commit_all(old(db).records(), actions.deep_view())
            ==> result is Ok,
{
    let ghost all = actions.deep_view();
    let ghost before = progress.group(ProgressType::ActionsCommit);
    announce(progress, ProgressType::ActionsCommit, actions.len());
    let mut i: usize = 0;
    while i < actions.len()
        invariant
            i <= actions.len(),
            all == actions.deep_view(),
            before == old(progress).group(ProgressType::ActionsCommit),
            actions.len() <= i32::MAX,
            before.target + actions.len() <= i32::MAX,
            before.completed + actions.len() <= i32::MAX,
            db.fault_free() == old(db).fault_free(),
            db.reads() == old(db).reads(),
            db.records() == committed_all(old(db).records(), all.take(i as int)),
            forall|other: ProgressType|
                other != ProgressType::ActionsCommit ==> progress.group(other) == old(
                    progress,
                ).group(other),
            actions.len() > 0 ==> progress.group(ProgressType::ActionsCommit) == (ProgressGroup {
                completed: (before.completed + i) as i32,
                target: (before.target + actions.len()) as i32,
            }),
            actions.len() == 0 ==> progress.group(ProgressType::ActionsCommit) == (ProgressGroup {
                completed: 1,
                target: 1,
            }),
        decreases actions.len() - i,
    {
        proof {
            assert(all.take(i + 1).drop_last() =~= all.take(i as int));
            assert(all.take(i + 1).last() == actions[i as int]@);
            assert(all[i as int] == actions[i as int]@);
        }
        match actions[i].commit(db) {
            Ok(_) => {},
            Err(error) => {
                return Err(error);
            },
        }
        progress.increment_completed(ProgressType::ActionsCommit, 1);
        i += 1;
    }
    assert(all.take(i as int) =~= all);
    Ok(())
}

} // verus!
