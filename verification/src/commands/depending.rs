//! The walk over "packages that depend on this one": to a given depth, or to
//! the end.

use crate::commands::errors::DependingFailure;
use crate::db::{contains_name, dependents_of, record_names, PackagesDb};
use crate::ordered_set::{extend_unique, insert_unique, NameSet};
use crate::package::{clone_strings, LocalPackage, LocalPackageView};
use vstd::prelude::*;

verus! {

/// The names of the records that list `name` as a dependency, in the
/// store's order; a name occurs as often as records carry it.
pub open spec fn direct_dependents(records: Seq<LocalPackageView>, name: Seq<char>) -> Seq<
    Seq<char>,
> {
    record_names(dependents_of(records, name))
}

/// The names of the packages that depend on `name` through at most `levels`
/// steps, each name once: for every direct dependent first those that
/// depend on it, then itself. What lies beyond the last level is left out.
pub open spec fn dependents_within(
    records: Seq<LocalPackageView>,
    name: Seq<char>,
    levels: nat,
) -> Seq<Seq<char>>
    decreases levels, 0nat,
{
    if levels == 0 {
        Seq::empty()
    } else {
        dependents_each(
            records,
            direct_dependents(records, name),
            Seq::empty(),
            (levels - 1) as nat,
        )
    }
}

/// The names of `start`, then for each name of `names` in turn its
/// dependents through at most `levels` steps and the name itself, every name
/// kept where it first occurs.
pub open spec fn dependents_each(
    records: Seq<LocalPackageView>,
    names: Seq<Seq<char>>,
    start: Seq<Seq<char>>,
    levels: nat,
) -> Seq<Seq<char>>
    decreases levels, 1 + names.len(),
{
    if names.len() == 0 {
        start
    } else {
        insert_unique(
            extend_unique(
                dependents_each(records, names.drop_last(), start, levels),
                dependents_within(records, names.last(), levels),
            ),
            names.last(),
        )
    }
}

/// With no level left below them, the names of a list are added as they
/// are.
pub proof fn lemma_dependents_each_flat(
    records: Seq<LocalPackageView>,
    names: Seq<Seq<char>>,
    start: Seq<Seq<char>>,
)
    ensures
        dependents_each(records, names, start, 0) == extend_unique(start, names),
    decreases names.len(),
{
    if names.len() > 0 {
        lemma_dependents_each_flat(records, names.drop_last(), start);
        let found = extend_unique(start, names.drop_last());
        assert(extend_unique(found, Seq::<Seq<char>>::empty()) == found);
        assert(dependents_within(records, names.last(), 0) == Seq::<Seq<char>>::empty());
        assert(dependents_each(records, names, start, 0) == insert_unique(found, names.last()));
    }
}

/// One level deep, the walk gives the direct dependents, each name once.
pub proof fn lemma_dependents_within_one(records: Seq<LocalPackageView>, name: Seq<char>)
    ensures
        dependents_within(records, name, 1) == extend_unique(
            Seq::empty(),
            direct_dependents(records, name),
        ),
{
    lemma_dependents_each_flat(records, direct_dependents(records, name), Seq::empty());
}

/// The names of all packages that depend on `name`, directly or through
/// others, each name once: for every direct dependent first those that
/// depend on it, then itself. `path` holds the names of the packages whose
/// dependents are being walked and among which `name` is: a package that
/// is met again on the way to itself depends on itself, which is a
/// failure.
pub open spec fn all_dependents(
    records: Seq<LocalPackageView>,
    path: Seq<Seq<char>>,
    name: Seq<char>,
) -> Result<Seq<Seq<char>>, DependingFailure>
    decreases usize::MAX - path.len(), 0nat,
{
    let direct = direct_dependents(records, name);
    if direct.len() == 0 {
        Ok(Seq::empty())
    } else if path.contains(name) {
        Err(DependingFailure::Cycle(name))
    } else if path.len() >= usize::MAX {
        Err(DependingFailure::TooDeep(name))
    } else {
        all_dependents_each(records, path.push(name), direct, Seq::empty())
    }
}

/// The names of `start`, then for each name of `names` in turn all its
/// dependents and the name itself, every name kept where it first occurs.
/// The first name that fails decides the failure.
pub open spec fn all_dependents_each(
    records: Seq<LocalPackageView>,
    path: Seq<Seq<char>>,
    names: Seq<Seq<char>>,
    start: Seq<Seq<char>>,
) -> Result<Seq<Seq<char>>, DependingFailure>
    decreases usize::MAX - path.len(), 1 + names.len(),
{
    if names.len() == 0 {
        Ok(start)
    } else {
        match all_dependents_each(records, path, names.drop_last(), start) {
            Err(failure) => Err(failure),
            Ok(found) => match all_dependents(records, path, names.last()) {
                Err(failure) => Err(failure),
                Ok(deeper) => Ok(insert_unique(extend_unique(found, deeper), names.last())),
            },
        }
    }
}

/// A failure among the first names of a list is the failure of the whole
/// list.
pub proof fn lemma_all_dependents_prefix_failure(
    records: Seq<LocalPackageView>,
    path: Seq<Seq<char>>,
    names: Seq<Seq<char>>,
    start: Seq<Seq<char>>,
    count: int,
)
    requires
        0 <= count <= names.len(),
        all_dependents_each(records, path, names.take(count), start) is Err,
    ensures
        all_dependents_each(records, path, names, start) == all_dependents_each(
            records,
            path,
            names.take(count),
            start,
        ),
    decreases names.len() - count,
{
    if count < names.len() {
        assert(names.take(count + 1).drop_last() =~= names.take(count));
        lemma_all_dependents_prefix_failure(records, path, names, start, count + 1);
    } else {
        assert(names.take(count) =~= names);
    }
}

/// Why a walk over dependents ended without a result.
#[derive(Debug, PartialEq)]
pub enum DependingError<EDatabase> {
    /// The store failed.
    Database(EDatabase),
    /// The named package depends on itself, directly or through others.
    Cycle(String),
    /// The named package lies deeper above the first one than the machine
    /// can count.
    TooDeep(String),
}

impl<EDatabase> DependingError<EDatabase> {
    /// The failure that the error reports; `None` for a failure of the
    /// store.
    pub open spec fn failure(self) -> Option<DependingFailure> {
        match self {
            DependingError::Database(_) => None,
            DependingError::Cycle(name) => Some(DependingFailure::Cycle(name@)),
            DependingError::TooDeep(name) => Some(DependingFailure::TooDeep(name@)),
        }
    }
}

/// Whether `result` is what the walk `walk` gives, given whether the store
/// can fail on its own.
pub open spec fn depending_agrees<EDatabase>(
    result: Result<Vec<String>, DependingError<EDatabase>>,
    walk: Result<Seq<Seq<char>>, DependingFailure>,
    store_fault_free: bool,
) -> bool {
    match result {
        Ok(names) => walk == Ok::<Seq<Seq<char>>, DependingFailure>(names.deep_view()),
        Err(DependingError::Database(_)) => !store_fault_free,
        Err(error) => error.failure() matches Some(failure) && walk == Err::<
            Seq<Seq<char>>,
            DependingFailure,
        >(failure),
    }
}

/// What the store's answer to the question for the dependents of a package
/// means for a walk over dependents: the records as the store gave them,
/// and the store's error, unchanged, as the walk's.
pub fn depending_answer<EDatabase>(answer: Result<Vec<LocalPackage>, EDatabase>) -> (result: Result<
    Vec<LocalPackage>,
    DependingError<EDatabase>,
>)
    ensures
        match answer {
            Ok(packages) => result == Ok::<Vec<LocalPackage>, DependingError<EDatabase>>(
                packages,
            ),
            Err(error) => result == Err::<Vec<LocalPackage>, DependingError<EDatabase>>(
                DependingError::Database(error),
            ),
        },
{
    match answer {
        Ok(packages) => Ok(packages),
        Err(error) => Err(DependingError::Database(error)),
    }
}

/// The names of a list of records, in order.
pub fn names_of(packages: &Vec<LocalPackage>) -> (names: Vec<String>)
    ensures
        names.deep_view() == record_names(packages.deep_view()),
{
    let mut names: Vec<String> = Vec::new();
    let mut i: usize = 0;
    while i < packages.len()
        invariant
            i <= packages.len(),
            names.deep_view() == record_names(packages.deep_view()).take(i as int),
        decreases packages.len() - i,
    {
        let ghost seen = names.deep_view();
        names.push(packages[i].package_data.name.clone());
        assert(names.deep_view() =~= seen.push(packages[i as int]@.package_data.name));
        assert(record_names(packages.deep_view()).take(i + 1) =~= record_names(
            packages.deep_view(),
        ).take(i as int).push(packages[i as int]@.package_data.name));
        i += 1;
    }
    assert(record_names(packages.deep_view()).take(i as int) =~= record_names(
        packages.deep_view(),
    ));
    names
}

/// The names of the packages that depend on `package_name` through at most
/// `max_level` steps, as [`dependents_within`] lists them; with one level,
/// its direct dependents.
pub fn get_depending<D: PackagesDb>(package_name: &str, db: &mut D, max_level: usize) -> (result:
    Result<Vec<String>, D::GetError>)
    ensures
        final(db).records() == old(db).records(),
        final(db).fault_free() == old(db).fault_free(),
        old(db).fault_free() ==> result is Ok,
        result matches Ok(names) ==> names.deep_view() == dependents_within(
            old(db).records(),
            package_name@,
            max_level as nat,
        ),
    decreases max_level,
{
    let ghost records = db.records();
    if max_level == 0 {
        let none: Vec<String> = Vec::new();
        assert(none.deep_view() =~= Seq::<Seq<char>>::empty());
        return Ok(none);
    }
    let depending = match db.get_depending_packages(package_name) {
        Ok(depending) => depending,
        Err(error) => {
            return Err(error);
        },
    };
    let direct = names_of(&depending);
    let ghost names = direct.deep_view();
    let ghost levels = (max_level - 1) as nat;
    let mut found = NameSet::new();
    let mut i: usize = 0;
    while i < direct.len()
        invariant
            i <= direct.len(),
            max_level > 0,
            levels == (max_level - 1) as nat,
            names == direct.deep_view(),
            names == direct_dependents(records, package_name@),
            found.wf(),
            db.records() == records,
            records == old(db).records(),
            db.fault_free() == old(db).fault_free(),
            dependents_each(records, names.take(i as int), Seq::empty(), levels) == found@,
        decreases direct.len() - i,
    {
        proof {
            assert(names.take(i + 1).drop_last() =~= names.take(i as int));
            assert(names.take(i + 1).last() == direct[i as int]@);
        }
        let deeper = match get_depending(direct[i].as_str(), db, max_level - 1) {
            Ok(deeper) => deeper,
            Err(error) => {
                return Err(error);
            },
        };
        found.extend(&deeper);
        found.insert(direct[i].clone());
        i += 1;
    }
    assert(names.take(i as int) =~= names);
    Ok(found.to_vec())
}

/// The names of all packages that depend on `package_name`, directly or
/// through others, as [`all_dependents`] lists them. `path` holds the names
/// of the packages whose dependents are being walked and among which this
/// one is.
pub fn get_all_depending<D: PackagesDb>(
    package_name: &str,
    db: &mut D,
    path: &Vec<String>,
) -> (result: Result<Vec<String>, DependingError<D::GetError>>)
    ensures
        final(db).records() == old(db).records(),
        final(db).fault_free() == old(db).fault_free(),
        depending_agrees(
            result,
            all_dependents(old(db).records(), path.deep_view(), package_name@),
            old(db).fault_free(),
        ),
    decreases usize::MAX - path.len(),
{
    let ghost records = db.records();
    let depending = match depending_answer(db.get_depending_packages(package_name)) {
        Ok(depending) => depending,
        Err(error) => {
            return Err(error);
        },
    };
    let direct = names_of(&depending);
    let ghost names = direct.deep_view();
    let mut found = NameSet::new();
    if direct.len() == 0 {
        return Ok(found.to_vec());
    }
    let wanted = String::from_str(package_name);
    if contains_name(path, &wanted) {
        return Err(DependingError::Cycle(wanted));
    }
    if path.len() == usize::MAX {
        return Err(DependingError::TooDeep(wanted));
    }
    let mut deeper_path = clone_strings(path);
    deeper_path.push(wanted);
    assert(deeper_path.deep_view() =~= path.deep_view().push(package_name@));
    let mut i: usize = 0;
    while i < direct.len()
        invariant
            i <= direct.len(),
            names == direct.deep_view(),
            names == direct_dependents(records, package_name@),
            names.len() > 0,
            deeper_path.deep_view() == path.deep_view().push(package_name@),
            deeper_path.len() == path.len() + 1,
            path.len() < usize::MAX,
            !path.deep_view().contains(package_name@),
            found.wf(),
            db.records() == records,
            records == old(db).records(),
            db.fault_free() == old(db).fault_free(),
            all_dependents_each(
                records,
                deeper_path.deep_view(),
                names.take(i as int),
                Seq::empty(),
            ) == Ok::<Seq<Seq<char>>, DependingFailure>(found@),
        decreases direct.len() - i,
    {
        proof {
            assert(names.take(i + 1).drop_last() =~= names.take(i as int));
            assert(names.take(i + 1).last() == direct[i as int]@);
        }
        let deeper = match get_all_depending(direct[i].as_str(), db, &deeper_path) {
            Ok(deeper) => deeper,
            Err(error) => {
                proof {
                    if error.failure() is Some {
                        lemma_all_dependents_prefix_failure(
                            records,
                            deeper_path.deep_view(),
                            names,
                            Seq::empty(),
                            i + 1,
                        );
                    }
                }
                return Err(error);
            },
        };
        found.extend(&deeper);
        found.insert(direct[i].clone());
        i += 1;
    }
    assert(names.take(i as int) =~= names);
    Ok(found.to_vec())
}

} // verus!
