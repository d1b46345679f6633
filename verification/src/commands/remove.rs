//! Resolution of remove requests: dependents go before what they depend on.

use crate::action::{
    add_action, distinct_keys, merge_actions, Action, ActionSet, ActionView,
};
use crate::commands::depending::{
    direct_dependents, get_depending, lemma_dependents_within_one,
};
use crate::commands::errors::{RemoveError, RemoveFailure};
use crate::db::{contains_name, find_record, PackagesDb};
use crate::ordered_set::extend_unique;
use crate::package::{clone_strings, LocalPackage, LocalPackageView};
use vstd::prelude::*;

verus! {

/// The names of the installed packages that list `name` as a dependency,
/// each once, in the store's order.
pub open spec fn dependent_names(records: Seq<LocalPackageView>, name: Seq<char>) -> Seq<
    Seq<char>,
> {
    extend_unique(Seq::empty(), direct_dependents(records, name))
}

/// The actions that remove `name`: with `recursive` set, first those that
/// remove the packages depending on it, then its own; without, its own
/// alone, and a failure where a package depends on it. `path` holds the
/// names of the packages whose dependents are being removed and among which
/// `name` is: a package that is met again on the way to itself depends on
/// itself, which is a failure.
pub open spec fn remove_one(
    records: Seq<LocalPackageView>,
    path: Seq<Seq<char>>,
    name: Seq<char>,
    recursive: bool,
) -> Result<Seq<ActionView>, RemoveFailure>
    decreases usize::MAX - path.len(), 0nat,
{
    match find_record(records, name) {
        None => Err(RemoveFailure::NotInstalled(name)),
        Some(local) => {
            let dependents = dependent_names(records, name);
            if dependents.len() == 0 {
                Ok(seq![ActionView::Remove(local)])
            } else if !recursive {
                Err(RemoveFailure::DependencyBreak(name, dependents))
            } else if path.contains(name) {
                Err(RemoveFailure::Cycle(name))
            } else if path.len() >= usize::MAX {
                Err(RemoveFailure::TooDeep(name))
            } else {
                match remove_all(records, path.push(name), dependents, recursive, Seq::empty()) {
                    Err(failure) => Err(failure),
                    Ok(actions) => Ok(add_action(actions, ActionView::Remove(local))),
                }
            }
        },
    }
}

/// The actions of `start`, then those that remove each name of `names` in
/// turn, every action kept where it first occurs. The first name that
/// fails decides the failure.
pub open spec fn remove_all(
    records: Seq<LocalPackageView>,
    path: Seq<Seq<char>>,
    names: Seq<Seq<char>>,
    recursive: bool,
    start: Seq<ActionView>,
) -> Result<Seq<ActionView>, RemoveFailure>
    decreases usize::MAX - path.len(), 1 + names.len(),
{
    if names.len() == 0 {
        Ok(start)
    } else {
        match remove_all(records, path, names.drop_last(), recursive, start) {
            Err(failure) => Err(failure),
            Ok(actions) => match remove_one(records, path, names.last(), recursive) {
                Err(failure) => Err(failure),
                Ok(more) => Ok(merge_actions(actions, more)),
            },
        }
    }
}

/// A failure among the first names of a list is the failure of the whole
/// list.
pub proof fn lemma_remove_all_prefix_failure(
    records: Seq<LocalPackageView>,
    path: Seq<Seq<char>>,
    names: Seq<Seq<char>>,
    recursive: bool,
    start: Seq<ActionView>,
    count: int,
)
    requires
        0 <= count <= names.len(),
        remove_all(records, path, names.take(count), recursive, start) is Err,
    ensures
        remove_all(records, path, names, recursive, start) == remove_all(
            records,
            path,
            names.take(count),
            recursive,
            start,
        ),
    decreases names.len() - count,
{
    if count < names.len() {
        assert(names.take(count + 1).drop_last() =~= names.take(count));
        lemma_remove_all_prefix_failure(records, path, names, recursive, start, count + 1);
    } else {
        assert(names.take(count) =~= names);
    }
}

/// Whether `result` is what the plan `plan` asks for, given whether the
/// store can fail on its own.
pub open spec fn remove_agrees<EDatabase>(
    result: Result<Vec<Action>, RemoveError<EDatabase>>,
    plan: Result<Seq<ActionView>, RemoveFailure>,
    store_fault_free: bool,
) -> bool {
    match result {
        Ok(actions) => plan == Ok::<Seq<ActionView>, RemoveFailure>(actions.deep_view()),
        Err(RemoveError::DatabaseGet(_)) => !store_fault_free,
        Err(error) => error.failure() matches Some(failure) && plan == Err::<
            Seq<ActionView>,
            RemoveFailure,
        >(failure),
    }
}

/// What the store's answer to the question for the package to remove means
/// for a remove request: the record as the store gave it; a package that is
/// not installed is an error that names the package; and the store's error,
/// unchanged, is the request's.
pub fn installed<EDatabase>(
    package_name: &str,
    answer: Result<Option<LocalPackage>, EDatabase>,
) -> (result: Result<LocalPackage, RemoveError<EDatabase>>)
    ensures
        match answer {
            Ok(Some(package)) => result == Ok::<LocalPackage, RemoveError<EDatabase>>(package),
            Ok(None) => result matches Err(RemoveError::PackageNotInstalled(name)) && name@
                == package_name@,
            Err(error) => result == Err::<LocalPackage, RemoveError<EDatabase>>(
                RemoveError::DatabaseGet(error),
            ),
        },
{
    match answer {
        Ok(Some(package)) => Ok(package),
        Ok(None) => Err(RemoveError::PackageNotInstalled(String::from_str(package_name))),
        Err(error) => Err(RemoveError::DatabaseGet(error)),
    }
}

/// What the answer to the question for the direct dependents of a package
/// means for a remove request: the names as they were given, and the
/// store's error, unchanged, as the request's.
pub fn dependents_answer<EDatabase>(answer: Result<Vec<String>, EDatabase>) -> (result: Result<
    Vec<String>,
    RemoveError<EDatabase>,
>)
    ensures
        match answer {
            Ok(names) => result == Ok::<Vec<String>, RemoveError<EDatabase>>(names),
            Err(error) => result == Err::<Vec<String>, RemoveError<EDatabase>>(
                RemoveError::DatabaseGet(error),
            ),
        },
{
    match answer {
        Ok(names) => Ok(names),
        Err(error) => Err(RemoveError::DatabaseGet(error)),
    }
}

/// What the direct dependents of a package mean for its removal: nothing
/// where there are none, a failure that lists them where the removal is not
/// recursive, and else their own removal first, for which `Ok(true)`
/// stands.
pub fn dependents_decision<EDatabase>(
    package_name: &str,
    dependents: Vec<String>,
    recursive: bool,
) -> (decision: Result<bool, RemoveError<EDatabase>>)
    ensures
        match decision {
            Ok(descend) => descend == (dependents.len() > 0) && (descend ==> recursive),
            Err(RemoveError::DependencyBreak(name, names)) => {
                &&& !recursive
                &&& dependents.len() > 0
                &&& name@ == package_name@
                &&& names.deep_view() == dependents.deep_view()
            },
            Err(_) => false,
        },
{
    if dependents.len() == 0 {
        Ok(false)
    } else if recursive {
        Ok(true)
    } else {
        Err(RemoveError::DependencyBreak(String::from_str(package_name), dependents))
    }
}

/// Resolves the removal of one package, as [`remove_one`] lays it down.
/// `path` holds the names of the packages whose dependents are being
/// removed and among which this one is.
pub fn remove_package<D: PackagesDb>(
    package_name: &str,
    recursive: bool,
    db: &mut D,
    path: &Vec<String>,
) -> (result: Result<Vec<Action>, RemoveError<D::GetError>>)
    ensures
        final(db).records() == old(db).records(),
        final(db).fault_free() == old(db).fault_free(),
        remove_agrees(
            result,
            remove_one(old(db).records(), path.deep_view(), package_name@, recursive),
            old(db).fault_free(),
        ),
    decreases usize::MAX - path.len(),
{
    let ghost records = db.records();
    let db_package = match installed(package_name, db.get_package(package_name)) {
        Ok(package) => package,
        Err(error) => {
            return Err(error);
        },
    };
    proof {
        lemma_dependents_within_one(records, package_name@);
    }
    let depending_packages = match dependents_answer(get_depending(package_name, db, 1)) {
        Ok(depending) => depending,
        Err(error) => {
            return Err(error);
        },
    };
    let ghost names = depending_packages.deep_view();
    let mut actions = ActionSet::new();
    let dependents = clone_strings(&depending_packages);
    let descend = match dependents_decision(package_name, dependents, recursive) {
        Ok(descend) => descend,
        Err(error) => {
            return Err(error);
        },
    };
    if descend {
        let wanted = String::from_str(package_name);
        if contains_name(path, &wanted) {
            return Err(RemoveError::DependencyCycle(wanted));
        }
        if path.len() == usize::MAX {
            return Err(RemoveError::DependencyDepth(wanted));
        }
        let mut deeper = clone_strings(path);
        deeper.push(wanted);
        assert(deeper.deep_view() =~= path.deep_view().push(package_name@));
        let mut i: usize = 0;
        while i < depending_packages.len()
            invariant
                i <= depending_packages.len(),
                recursive,
                names == depending_packages.deep_view(),
                names == dependent_names(records, package_name@),
                names.len() > 0,
                deeper.deep_view() == path.deep_view().push(package_name@),
                deeper.len() == path.len() + 1,
                path.len() < usize::MAX,
                !path.deep_view().contains(package_name@),
                find_record(records, package_name@) == Some(db_package@),
                actions.wf(),
                db.records() == records,
                records == old(db).records(),
                db.fault_free() == old(db).fault_free(),
                remove_all(
                    records,
                    deeper.deep_view(),
                    names.take(i as int),
                    recursive,
                    Seq::empty(),
                ) == Ok::<Seq<ActionView>, RemoveFailure>(actions@),
            decreases depending_packages.len() - i,
        {
            proof {
                assert(names.take(i + 1).drop_last() =~= names.take(i as int));
                assert(names.take(i + 1).last() == depending_packages[i as int]@);
            }
            let more = match remove_package(
                depending_packages[i].as_str(),
                recursive,
                db,
                &deeper,
            ) {
                Ok(more) => more,
                Err(error) => {
                    proof {
                        if error.failure() is Some {
                            lemma_remove_all_prefix_failure(
                                records,
                                deeper.deep_view(),
                                names,
                                recursive,
                                Seq::empty(),
                                i + 1,
                            );
                        }
                    }
                    return Err(error);
                },
            };
            actions.extend(&more);
            i += 1;
        }
        assert(names.take(i as int) =~= names);
    }
    actions.insert(Action::Remove(db_package));
    proof {
        if !descend {
            assert(actions@ =~= seq![ActionView::Remove(db_package@)]);
        }
    }
    Ok(actions.into_vec())
}

/// Resolves a request to remove `package_names`: for each name in turn the
/// removal of its dependents (with `recursive` set) and then its own, every
/// action kept where it first occurs. Nothing is returned where one name
/// fails.
pub fn remove_packages<D: PackagesDb>(
    package_names: Vec<String>,
    recursive: bool,
    db: &mut D,
) -> (result: Result<Vec<Action>, RemoveError<D::GetError>>)
    ensures
        final(db).records() == old(db).records(),
        final(db).fault_free() == old(db).fault_free(),
        remove_agrees(
            result,
            remove_all(
                old(db).records(),
                Seq::empty(),
                package_names.deep_view(),
                recursive,
                Seq::empty(),
            ),
            old(db).fault_free(),
        ),
        result matches Ok(actions) ==> distinct_keys(actions.deep_view()),
        package_names.len() == 0 ==> result is Ok,
{
    let ghost records = db.records();
    let ghost names = package_names.deep_view();
    let path: Vec<String> = Vec::new();
    assert(path.deep_view() =~= Seq::<Seq<char>>::empty());
    let mut actions = ActionSet::new();
    let mut i: usize = 0;
    while i < package_names.len()
        invariant
            i <= package_names.len(),
            names == package_names.deep_view(),
            path.deep_view() == Seq::<Seq<char>>::empty(),
            actions.wf(),
            db.records() == records,
            records == old(db).records(),
            db.fault_free() == old(db).fault_free(),
            remove_all(records, Seq::empty(), names.take(i as int), recursive, Seq::empty())
                == Ok::<Seq<ActionView>, RemoveFailure>(actions@),
        decreases package_names.len() - i,
    {
        proof {
            assert(names.take(i + 1).drop_last() =~= names.take(i as int));
            assert(names.take(i + 1).last() == package_names[i as int]@);
        }
        let more = match remove_package(package_names[i].as_str(), recursive, db, &path) {
            Ok(more) => more,
            Err(error) => {
                proof {
                    if error.failure() is Some {
                        lemma_remove_all_prefix_failure(
                            records,
                            Seq::empty(),
                            names,
                            recursive,
                            Seq::empty(),
                            i + 1,
                        );
                    }
                }
                return Err(error);
            },
        };
        actions.extend(&more);
        i += 1;
    }
    assert(names.take(i as int) =~= names);
    proof {
        actions.lemma_distinct();
    }
    Ok(actions.into_vec())
}

} // verus!
