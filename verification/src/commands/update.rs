//! Resolution of update requests: a package is looked at together with
//! everything that depends on it.

use crate::action::{distinct_keys, Action, ActionView};
use crate::commands::depending::{
    all_dependents, get_all_depending, names_of, DependingError,
};
use crate::commands::errors::{DependingFailure, InstallError, InstallFailure, UpdateError};
use crate::commands::{
    install_agrees, install_all, install_packages, InstallContext, ReinstallOptions,
};
use crate::db::{record_names, PackagesDb};
use crate::package::{LocalPackage, LocalPackageView, RemotePackageView};
use crate::package_finder::PackageFinder;
use vstd::prelude::*;

verus! {

/// The names that an update of `names` looks at: for each name in turn
/// every package that depends on it, however indirectly, and then the name
/// itself. A failure names a package that depends on itself.
pub open spec fn update_targets(records: Seq<LocalPackageView>, names: Seq<Seq<char>>) -> Result<
    Seq<Seq<char>>,
    DependingFailure,
>
    decreases names.len(),
{
    if names.len() == 0 {
        Ok(Seq::empty())
    } else {
        match update_targets(records, names.drop_last()) {
            Err(failure) => Err(failure),
            Ok(targets) => match all_dependents(records, Seq::empty(), names.last()) {
                Err(failure) => Err(failure),
                Ok(dependents) => Ok(targets + dependents.push(names.last())),
            },
        }
    }
}

/// A failure among the first names of a list is the failure of the whole
/// list.
pub proof fn lemma_update_targets_prefix_failure(
    records: Seq<LocalPackageView>,
    names: Seq<Seq<char>>,
    count: int,
)
    requires
        0 <= count <= names.len(),
        update_targets(records, names.take(count)) is Err,
    ensures
        update_targets(records, names) == update_targets(records, names.take(count)),
    decreases names.len() - count,
{
    if count < names.len() {
        assert(names.take(count + 1).drop_last() =~= names.take(count));
        lemma_update_targets_prefix_failure(records, names, count + 1);
    } else {
        assert(names.take(count) =~= names);
    }
}

/// The actions that update the packages of `targets`: those of an install
/// request for them under the policy `Update`.
pub open spec fn update_plan(
    records: Seq<LocalPackageView>,
    catalog: Map<Seq<char>, RemotePackageView>,
    targets: Seq<Seq<char>>,
) -> Result<Seq<ActionView>, InstallFailure> {
    install_all(
        InstallContext { records, catalog, policy: ReinstallOptions::Update },
        Seq::empty(),
        targets,
        Seq::empty(),
    )
}

/// The failure that an error of the walk over dependents reports as an
/// error of the update; `None` for a failure of the store.
pub open spec fn update_failure<EDatabase, EFind>(error: UpdateError<EDatabase, EFind>) -> Option<
    DependingFailure,
> {
    match error {
        UpdateError::DependencyCycle(name) => Some(DependingFailure::Cycle(name@)),
        UpdateError::DependencyDepth(name) => Some(DependingFailure::TooDeep(name@)),
        _ => None,
    }
}

/// Whether `result` is what an update of `names` asks for, given whether the
/// store and the lookup service can fail on their own.
pub open spec fn update_agrees<EDatabase, EFind>(
    result: Result<Vec<Action>, UpdateError<EDatabase, EFind>>,
    records: Seq<LocalPackageView>,
    catalog: Map<Seq<char>, RemotePackageView>,
    names: Seq<Seq<char>>,
    store_fault_free: bool,
    finder_fault_free: bool,
) -> bool {
    match result {
        Ok(actions) => update_targets(records, names) matches Ok(targets) && update_plan(
            records,
            catalog,
            targets,
        ) == Ok::<Seq<ActionView>, InstallFailure>(actions.deep_view()),
        Err(UpdateError::DatabaseGet(_)) => !store_fault_free,
        Err(UpdateError::Install(error)) => update_targets(records, names) matches Ok(targets)
            && install_agrees(
            Err::<Vec<Action>, InstallError<EDatabase, EFind>>(error),
            update_plan(records, catalog, targets),
            store_fault_free,
            finder_fault_free,
        ),
        Err(UpdateError::Remove(_)) => false,
        Err(error) => update_failure(error) matches Some(failure) && update_targets(
            records,
            names,
        ) == Err::<Seq<Seq<char>>, DependingFailure>(failure),
    }
}

/// What the resolution of the install request that an update ends in means
/// for the update: its actions, or its error as the update's.
pub fn update_outcome<EDatabase, EFind>(
    installed: Result<Vec<Action>, InstallError<EDatabase, EFind>>,
) -> (result: Result<Vec<Action>, UpdateError<EDatabase, EFind>>)
    ensures
        match installed {
            Ok(actions) => result == Ok::<Vec<Action>, UpdateError<EDatabase, EFind>>(actions),
            Err(error) => result == Err::<Vec<Action>, UpdateError<EDatabase, EFind>>(
                UpdateError::Install(error),
            ),
        },
{
    match installed {
        Ok(actions) => Ok(actions),
        Err(error) => Err(UpdateError::Install(error)),
    }
}

/// What the end of the walk over the dependents of a package means for an
/// update: the names as they were found, and the walk's error as the
/// update's, the store's error unchanged.
pub fn dependents_outcome<EDatabase, EFind>(
    walked: Result<Vec<String>, DependingError<EDatabase>>,
) -> (result: Result<Vec<String>, UpdateError<EDatabase, EFind>>)
    ensures
        match walked {
            Ok(names) => result == Ok::<Vec<String>, UpdateError<EDatabase, EFind>>(names),
            Err(DependingError::Database(error)) => result == Err::<
                Vec<String>,
                UpdateError<EDatabase, EFind>,
            >(UpdateError::DatabaseGet(error)),
            Err(DependingError::Cycle(name)) => result == Err::<
                Vec<String>,
                UpdateError<EDatabase, EFind>,
            >(UpdateError::DependencyCycle(name)),
            Err(DependingError::TooDeep(name)) => result == Err::<
                Vec<String>,
                UpdateError<EDatabase, EFind>,
            >(UpdateError::DependencyDepth(name)),
        },
{
    match walked {
        Ok(names) => Ok(names),
        Err(DependingError::Database(error)) => Err(UpdateError::DatabaseGet(error)),
        Err(DependingError::Cycle(name)) => Err(UpdateError::DependencyCycle(name)),
        Err(DependingError::TooDeep(name)) => Err(UpdateError::DependencyDepth(name)),
    }
}

/// What the store's answer to the question for all packages means for an
/// update of everything: the records as the store gave them, and the
/// store's error, unchanged, as the update's.
pub fn all_packages_answer<EDatabase, EFind>(
    answer: Result<Vec<LocalPackage>, EDatabase>,
) -> (result: Result<Vec<LocalPackage>, UpdateError<EDatabase, EFind>>)
    ensures
        match answer {
            Ok(packages) => result == Ok::<
                Vec<LocalPackage>,
                UpdateError<EDatabase, EFind>,
            >(packages),
            Err(error) => result == Err::<
                Vec<LocalPackage>,
                UpdateError<EDatabase, EFind>,
            >(UpdateError::DatabaseGet(error)),
        },
{
    match answer {
        Ok(packages) => Ok(packages),
        Err(error) => Err(UpdateError::DatabaseGet(error)),
    }
}

/// Resolves a request to update `package_names`: every package that depends
/// on one of them, and then the package itself, is replaced where the lookup
/// service has a newer version of it. The actions are those of an install
/// request for [`update_targets`] under the policy `Update`.
pub fn update_packages<F: PackageFinder, D: PackagesDb>(
    package_names: Vec<String>,
    package_finder: &mut F,
    db: &mut D,
) -> (result: Result<Vec<Action>, UpdateError<D::GetError, F::Error>>)
    ensures
        final(db).records() == old(db).records(),
        final(db).fault_free() == old(db).fault_free(),
        final(package_finder).catalog() == old(package_finder).catalog(),
        final(package_finder).fault_free() == old(package_finder).fault_free(),
        update_agrees(
            result,
            old(db).records(),
            old(package_finder).catalog(),
            package_names.deep_view(),
            old(db).fault_free(),
            old(package_finder).fault_free(),
        ),
        result matches Ok(actions) ==> distinct_keys(actions.deep_view()),
        package_names.len() == 0 ==> result is Ok,
{
    let ghost records = db.records();
    let ghost names = package_names.deep_view();
    let path: Vec<String> = Vec::new();
    assert(path.deep_view() =~= Seq::<Seq<char>>::empty());
    let mut targets: Vec<String> = Vec::new();
    assert(targets.deep_view() =~= Seq::<Seq<char>>::empty());
    let mut i: usize = 0;
    while i < package_names.len()
        invariant
            i <= package_names.len(),
            names == package_names.deep_view(),
            path.deep_view() == Seq::<Seq<char>>::empty(),
            db.records() == records,
            records == old(db).records(),
            db.fault_free() == old(db).fault_free(),
            update_targets(records, names.take(i as int)) == Ok::<
                Seq<Seq<char>>,
                DependingFailure,
            >(targets.deep_view()),
        decreases package_names.len() - i,
    {
        proof {
            assert(names.take(i + 1).drop_last() =~= names.take(i as int));
            assert(names.take(i + 1).last() == package_names[i as int]@);
        }
        let walked = get_all_depending(package_names[i].as_str(), db, &path);
        proof {
            if walked is Err && walked->Err_0.failure() is Some {
                lemma_update_targets_prefix_failure(records, names, i + 1);
            }
        }
        let mut depending = match dependents_outcome(walked) {
            Ok(depending) => depending,
            Err(error) => {
                return Err(error);
            },
        };
        let ghost before = targets.deep_view();
        let ghost dependents = depending.deep_view();
        targets.append(&mut depending);
        targets.push(package_names[i].clone());
        assert(targets.deep_view() =~= before + dependents.push(package_names[i as int]@));
        i += 1;
    }
    assert(names.take(i as int) =~= names);
    update_outcome(install_packages(targets, package_finder, &ReinstallOptions::Update, db))
}

/// Resolves a request to update every installed package: an update request
/// for the names of all records, in the store's order.
pub fn update_all_packages<F: PackageFinder, D: PackagesDb>(
    package_finder: &mut F,
    db: &mut D,
) -> (result: Result<Vec<Action>, UpdateError<D::GetError, F::Error>>)
    ensures
        final(db).records() == old(db).records(),
        final(db).fault_free() == old(db).fault_free(),
        final(package_finder).catalog() == old(package_finder).catalog(),
        final(package_finder).fault_free() == old(package_finder).fault_free(),
        update_agrees(
            result,
            old(db).records(),
            old(package_finder).catalog(),
            record_names(old(db).records()),
            old(db).fault_free(),
            old(package_finder).fault_free(),
        ),
        result matches Ok(actions) ==> distinct_keys(actions.deep_view()),
{
    let packages = match all_packages_answer(db.get_all_packages()) {
        Ok(packages) => packages,
        Err(error) => {
            return Err(error);
        },
    };
    let names = names_of(&packages);
    update_packages(names, package_finder, db)
}

} // verus!
