//! The commit step: what an action that has been built does to the store.

use crate::action::{Action, ActionView};
use crate::db::{has_record, remove_record, PackagesDb};
use crate::package::LocalPackageView;
use vstd::prelude::*;

verus! {

/// An action could not be committed.
#[derive(Debug, PartialEq)]
pub enum CommitError<EDatabaseAdd, EDatabaseRemove> {
    /// The store did not take the new record.
    DatabaseAdd(EDatabaseAdd),
    /// The store did not delete the record.
    DatabaseRemove(EDatabaseRemove),
}

/// The records after `action` is committed: an installation adds the record
/// of its package at the end, a removal deletes the record of that name.
pub open spec fn committed(records: Seq<LocalPackageView>, action: ActionView) -> Seq<
    LocalPackageView,
> {
    match action {
        ActionView::Install(package) => records.push(package.to_local()),
        ActionView::Remove(package) => remove_record(records, package.package_data.name),
    }
}

/// The records after the actions of `actions` are committed in order.
pub open spec fn committed_all(records: Seq<LocalPackageView>, actions: Seq<ActionView>) -> Seq<
    LocalPackageView,
>
    decreases actions.len(),
{
    if actions.len() == 0 {
        records
    } else {
        committed(committed_all(records, actions.drop_last()), actions.last())
    }
}

/// What the store's answer to an added record means for the commit.
pub fn added<EDatabaseAdd, EDatabaseRemove>(answer: Result<(), EDatabaseAdd>) -> (result: Result<
    (),
    CommitError<EDatabaseAdd, EDatabaseRemove>,
>)
    ensures
        match answer {
            Ok(_) => result is Ok,
            Err(error) => result == Err::<(), CommitError<EDatabaseAdd, EDatabaseRemove>>(
                CommitError::DatabaseAdd(error),
            ),
        },
{
    match answer {
        Ok(_) => Ok(()),
        Err(error) => Err(CommitError::DatabaseAdd(error)),
    }
}

/// What the store's answer to a deleted record means for the commit.
pub fn removed<EDatabaseAdd, EDatabaseRemove>(answer: Result<(), EDatabaseRemove>) -> (result:
    Result<(), CommitError<EDatabaseAdd, EDatabaseRemove>>)
    ensures
        match answer {
            Ok(_) => result is Ok,
            Err(error) => result == Err::<(), CommitError<EDatabaseAdd, EDatabaseRemove>>(
                CommitError::DatabaseRemove(error),
            ),
        },
{
    match answer {
        Ok(_) => Ok(()),
        Err(error) => Err(CommitError::DatabaseRemove(error)),
    }
}

/// Whether a store with the records `records` that does not fail on its own
/// is bound to take the action: it may refuse to delete a record that it
/// does not hold.
pub open spec fn surely_commits(records: Seq<LocalPackageView>, action: ActionView) -> bool {
    match action {
        ActionView::Install(_) => true,
        ActionView::Remove(package) => has_record(records, package.package_data.name),
    }
}

/// Whether a store that does not fail on its own is bound to take the
/// actions of `actions` one after the other.
pub open spec fn surely_commit_all(
    records: Seq<LocalPackageView>,
    actions: Seq<ActionView>,
) -> bool {
    forall|i: int|
        0 <= i < actions.len() ==> surely_commits(
            committed_all(records, actions.take(i)),
            #[trigger] actions[i],
        )
}

impl Action {

    /// Persists the action: an installation adds the package's record to
    /// the store, a removal deletes the record of the package's name. Where
    /// the store refuses, its records stay as they were.
    pub fn commit<D: PackagesDb>(&self, db: &mut D) -> (result: Result<
        (),
        CommitError<D::AddError, D::RemoveError>,
    >)
        ensures
            final(db).fault_free() == old(db).fault_free(),
            final(db).reads() == old(db).reads(),
            result is Ok ==> final(db).records() == committed(old(db).records(), self@),
            result is Err ==> final(db).records() == old(db).records(),
            old(db).fault_free() && surely_commits(old(db).records(), self@) ==> result is Ok,
            result matches Err(error) ==> (error is DatabaseAdd <==> self is Install),
    {
        match self {
            Action::Install(package) => added(db.add_package(package)),
            Action::Remove(package) => removed(
                db.remove_package(package.package_data.name.as_str()),
            ),
        }
    }
}

} // verus!
