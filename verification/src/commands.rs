//! The dependency resolver: from the names that a user asks to install,
//! remove or update to the ordered, duplicate-free list of actions that does
//! it.

use crate::action::{
    add_action, distinct_keys, merge_actions, Action, ActionSet, ActionView,
};
use crate::commands::errors::InstallFailure;
use crate::db::{contains_name, find_record, PackagesDb};
use crate::package::{
    clone_strings, LocalPackage, LocalPackageView, RemotePackage, RemotePackageView,
};
use crate::package_finder::PackageFinder;
use crate::version::{compare_versions, semver_order, VersionOrder};
use vstd::prelude::*;

pub mod acyclic_laws;
pub mod depending;
pub mod errors;
pub mod info;
pub mod install_laws;
pub mod remove;
pub mod remove_laws;
pub mod update;

pub use errors::{InfoError, InstallError, RemoveError, UpdateError};
pub use info::package_info;
pub use remove::{remove_package, remove_packages};
pub use update::{update_all_packages, update_packages};

verus! {

/// What to do with a requested package that is installed already.
#[derive(Clone, Copy, Debug, PartialEq, Eq)]
pub enum ReinstallOptions {
    /// Replace it where the lookup service has a newer version.
    Update,
    /// Replace it in any case.
    ForceReinstall,
    /// Leave it as it is.
    Ignore,
}

/// What an install request is resolved against.
pub struct InstallContext {
    /// The installed records, oldest first.
    pub records: Seq<LocalPackageView>,
    /// What the lookup service answers for each name it knows.
    pub catalog: Map<Seq<char>, RemotePackageView>,
    /// What to do with packages that are installed already.
    pub policy: ReinstallOptions,
}

/// How the resolution of one name begins.
pub enum InstallStart {
    /// The package stays as it is: no action, and its dependencies are not
    /// looked at.
    Skip,
    /// The package is installed, after the actions of `first` (the removal
    /// of the installed record, or nothing) and those of its dependencies.
    Proceed { first: Seq<ActionView>, remote: RemotePackageView },
}

/// Whether the package `name` is installed and stays as it is without a
/// look at the lookup service.
pub open spec fn ignored(context: InstallContext, name: Seq<char>) -> bool {
    find_record(context.records, name) is Some && context.policy is Ignore
}

/// Whether every name of `names` is that of a package which stays as it is
/// without a look at the lookup service.
pub open spec fn all_ignored(context: InstallContext, names: Seq<Seq<char>>) -> bool {
    forall|k: int| 0 <= k < names.len() ==> ignored(context, #[trigger] names[k])
}

/// How the resolution of `name` begins: with a failure, with nothing to do,
/// or with the description to install and the removal that goes before it.
pub open spec fn install_start(context: InstallContext, name: Seq<char>) -> Result<
    InstallStart,
    InstallFailure,
> {
    if ignored(context, name) {
        Ok(InstallStart::Skip)
    } else if !context.catalog.contains_key(name) {
        Err(InstallFailure::NotFound(name))
    } else {
        let remote = context.catalog[name];
        match find_record(context.records, name) {
            None => Ok(InstallStart::Proceed { first: Seq::empty(), remote }),
            Some(local) => match context.policy {
                ReinstallOptions::ForceReinstall => Ok(
                    InstallStart::Proceed { first: seq![ActionView::Remove(local)], remote },
                ),
                ReinstallOptions::Update => match semver_order(
                    remote.package_data.version,
                    local.package_data.version,
                ) {
                    Err(message) => Err(InstallFailure::VersionParse(message)),
                    Ok(VersionOrder::Newer) => Ok(
                        InstallStart::Proceed { first: seq![ActionView::Remove(local)], remote },
                    ),
                    Ok(_) => Ok(InstallStart::Skip),
                },
                ReinstallOptions::Ignore => Ok(InstallStart::Skip),
            },
        }
    }
}

/// Whether the package `name` is installed and stays as it is because the
/// lookup service has no newer version of it.
pub open spec fn update_skipped(context: InstallContext, name: Seq<char>) -> bool {
    !ignored(context, name) && install_start(context, name) == Ok::<
        InstallStart,
        InstallFailure,
    >(InstallStart::Skip)
}

/// The actions that install `name`: those of its dependencies, in the order
/// in which it lists them, then its own. `path` holds the names of the
/// packages whose dependencies are being resolved and among which `name`
/// is: a package that is met again on the way to itself depends on itself,
/// which is a failure.
pub open spec fn install_one(
    context: InstallContext,
    path: Seq<Seq<char>>,
    name: Seq<char>,
) -> Result<Seq<ActionView>, InstallFailure>
    decreases usize::MAX - path.len(), 0nat,
{
    match install_start(context, name) {
        Err(failure) => Err(failure),
        Ok(InstallStart::Skip) => Ok(Seq::empty()),
        Ok(InstallStart::Proceed { first, remote }) => {
            if remote.dependencies.len() == 0 {
                Ok(add_action(first, ActionView::Install(remote)))
            } else if path.contains(name) {
                Err(InstallFailure::Cycle(name))
            } else if path.len() >= usize::MAX {
                Err(InstallFailure::TooDeep(name))
            } else {
                match install_all(context, path.push(name), remote.dependencies, first) {
                    Err(failure) => Err(failure),
                    Ok(actions) => Ok(add_action(actions, ActionView::Install(remote))),
                }
            }
        },
    }
}

/// The actions of `start`, then those that install each name of `names` in
/// turn, every action kept where it first occurs. The first name that
/// fails decides the failure.
pub open spec fn install_all(
    context: InstallContext,
    path: Seq<Seq<char>>,
    names: Seq<Seq<char>>,
    start: Seq<ActionView>,
) -> Result<Seq<ActionView>, InstallFailure>
    decreases usize::MAX - path.len(), 1 + names.len(),
{
    if names.len() == 0 {
        Ok(start)
    } else {
        match install_all(context, path, names.drop_last(), start) {
            Err(failure) => Err(failure),
            Ok(actions) => match install_one(context, path, names.last()) {
                Err(failure) => Err(failure),
                Ok(more) => Ok(merge_actions(actions, more)),
            },
        }
    }
}

/// A failure among the first names of a list is the failure of the whole
/// list.
pub proof fn lemma_install_all_prefix_failure(
    context: InstallContext,
    path: Seq<Seq<char>>,
    names: Seq<Seq<char>>,
    start: Seq<ActionView>,
    count: int,
)
    requires
        0 <= count <= names.len(),
        install_all(context, path, names.take(count), start) is Err,
    ensures
        install_all(context, path, names, start) == install_all(
            context,
            path,
            names.take(count),
            start,
        ),
    decreases names.len() - count,
{
    if count < names.len() {
        assert(names.take(count + 1).drop_last() =~= names.take(count));
        lemma_install_all_prefix_failure(context, path, names, start, count + 1);
    } else {
        assert(names.take(count) =~= names);
    }
}

/// Whether `result` is what the plan `plan` asks for, given whether the
/// store and the lookup service can fail on their own.
pub open spec fn install_agrees<EDatabase, EFind>(
    result: Result<Vec<Action>, InstallError<EDatabase, EFind>>,
    plan: Result<Seq<ActionView>, InstallFailure>,
    store_fault_free: bool,
    finder_fault_free: bool,
) -> bool {
    match result {
        Ok(actions) => plan == Ok::<Seq<ActionView>, InstallFailure>(actions.deep_view()),
        Err(InstallError::Database(_)) => !store_fault_free,
        Err(InstallError::Find(_)) => !finder_fault_free,
        Err(error) => error.failure() matches Some(failure) && plan == Err::<
            Seq<ActionView>,
            InstallFailure,
        >(failure),
    }
}

/// What the store's answer to the question for an installed package means
/// for an install request: the record, or none, as the store gave it, and
/// the store's error, unchanged, as the request's.
pub fn stored<EDatabase, EFind>(answer: Result<Option<LocalPackage>, EDatabase>) -> (result: Result<
    Option<LocalPackage>,
    InstallError<EDatabase, EFind>,
>)
    ensures
        match answer {
            Ok(found) => result == Ok::<Option<LocalPackage>, InstallError<EDatabase, EFind>>(
                found,
            ),
            Err(error) => result == Err::<Option<LocalPackage>, InstallError<EDatabase, EFind>>(
                InstallError::Database(error),
            ),
        },
{
    match answer {
        Ok(found) => Ok(found),
        Err(error) => Err(InstallError::Database(error)),
    }
}

/// What the lookup service's answer means for an install request: the
/// description as the service gave it; a package that it does not know is
/// an error that names the package; and the service's error, unchanged, is
/// the request's.
pub fn looked_up<EDatabase, EFind>(
    package_name: &str,
    answer: Result<Option<RemotePackage>, EFind>,
) -> (result: Result<RemotePackage, InstallError<EDatabase, EFind>>)
    ensures
        match answer {
            Ok(Some(package)) => result == Ok::<RemotePackage, InstallError<EDatabase, EFind>>(
                package,
            ),
            Ok(None) => result matches Err(InstallError::PackageNotFound(name)) && name@
                == package_name@,
            Err(error) => result == Err::<RemotePackage, InstallError<EDatabase, EFind>>(
                InstallError::Find(error),
            ),
        },
{
    match answer {
        Ok(Some(package)) => Ok(package),
        Ok(None) => Err(InstallError::PackageNotFound(String::from_str(package_name))),
        Err(error) => Err(InstallError::Find(error)),
    }
}

/// What the comparison of the remote version with the installed one means
/// for an update: `Ok(true)` to replace the package where the remote version
/// is newer, `Ok(false)` to leave it where it is the same or older, and the
/// parser's message as an error where a version is unreadable.
pub fn update_decision<EDatabase, EFind>(comparison: Result<VersionOrder, String>) -> (decision:
    Result<bool, InstallError<EDatabase, EFind>>)
    ensures
        match comparison {
            Ok(order) => decision == Ok::<bool, InstallError<EDatabase, EFind>>(order is Newer),
            Err(message) => decision == Err::<bool, InstallError<EDatabase, EFind>>(
                InstallError::VersionParse(message),
            ),
        },
{
    match comparison {
        Ok(VersionOrder::Newer) => Ok(true),
        Ok(_) => Ok(false),
        Err(message) => Err(InstallError::VersionParse(message)),
    }
}

/// The empty list of actions.
fn no_actions() -> (actions: Vec<Action>)
    ensures
        actions.deep_view() == Seq::<ActionView>::empty(),
{
    let actions: Vec<Action> = Vec::new();
    assert(actions.deep_view() =~= Seq::<ActionView>::empty());
    actions
}

/// Asks the lookup service for `package_name`; a name that it does not know
/// is an error.
fn find_remote<F: PackageFinder, EDatabase>(package_name: &str, package_finder: &mut F) -> (result:
    Result<RemotePackage, InstallError<EDatabase, F::Error>>)
    ensures
        final(package_finder).fault_free() == old(package_finder).fault_free(),
        final(package_finder).catalog() == old(package_finder).catalog(),
        final(package_finder).lookups() == old(package_finder).lookups() + 1,
        old(package_finder).fault_free() && old(package_finder).catalog().contains_key(
            package_name@,
        ) ==> result is Ok,
        match result {
            Ok(package) => old(package_finder).catalog().contains_key(package_name@) && old(
                package_finder,
            ).catalog()[package_name@] == package@,
            Err(InstallError::PackageNotFound(name)) => name@ == package_name@ && !old(
                package_finder,
            ).catalog().contains_key(package_name@),
            Err(InstallError::Find(_)) => !old(package_finder).fault_free(),
            Err(_) => false,
        },
{
    looked_up(package_name, package_finder.find_package(package_name))
}

/// Resolves the installation of one package: the actions of its
/// dependencies, then its own, as [`install_one`] lays them down. `path`
/// holds the names of the packages whose dependencies are being resolved
/// and among which this one is.
///
/// A package that stays as it is costs one question to the store, and under
/// the policy `Update` one to the lookup service; its dependencies are not
/// looked at.
pub fn install_package<F: PackageFinder, D: PackagesDb>(
    package_name: &str,
    package_finder: &mut F,
    reinstall_options: &ReinstallOptions,
    db: &mut D,
    path: &Vec<String>,
) -> (result: Result<Vec<Action>, InstallError<D::GetError, F::Error>>)
    ensures
        final(db).records() == old(db).records(),
        final(db).fault_free() == old(db).fault_free(),
        final(package_finder).catalog() == old(package_finder).catalog(),
        final(package_finder).fault_free() == old(package_finder).fault_free(),
        install_agrees(
            result,
            install_one(
                InstallContext {
                    records: old(db).records(),
                    catalog: old(package_finder).catalog(),
                    policy: *reinstall_options,
                },
                path.deep_view(),
                package_name@,
            ),
            old(db).fault_free(),
            old(package_finder).fault_free(),
        ),
        ignored(
            InstallContext {
                records: old(db).records(),
                catalog: old(package_finder).catalog(),
                policy: *reinstall_options,
            },
            package_name@,
        ) ==> {
            &&& final(package_finder).lookups() == old(package_finder).lookups()
            &&& final(db).reads() == old(db).reads() + 1
            &&& old(db).fault_free() ==> result is Ok
        },
        update_skipped(
            InstallContext {
                records: old(db).records(),
                catalog: old(package_finder).catalog(),
                policy: *reinstall_options,
            },
            package_name@,
        ) && result is Ok ==> {
            &&& final(package_finder).lookups() == old(package_finder).lookups() + 1
            &&& final(db).reads() == old(db).reads() + 1
        },
    decreases usize::MAX - path.len(),
{
    let ghost context = InstallContext {
        records: db.records(),
        catalog: package_finder.catalog(),
        policy: *reinstall_options,
    };
    let local = match stored(db.get_package(package_name)) {
        Ok(local) => local,
        Err(error) => {
            return Err(error);
        },
    };
    let mut actions = ActionSet::new();
    let remote = match local {
        None => match find_remote(package_name, package_finder) {
            Ok(remote) => remote,
            Err(error) => {
                return Err(error);
            },
        },
        Some(existing) => match reinstall_options {
            ReinstallOptions::Ignore => {
                return Ok(no_actions());
            },
            ReinstallOptions::ForceReinstall => {
                let remote = match find_remote(package_name, package_finder) {
                    Ok(remote) => remote,
                    Err(error) => {
                        return Err(error);
                    },
                };
                actions.insert(Action::Remove(existing));
                remote
            },
            ReinstallOptions::Update => {
                let remote = match find_remote(package_name, package_finder) {
                    Ok(remote) => remote,
                    Err(error) => {
                        return Err(error);
                    },
                };
                let comparison = compare_versions(
                    remote.package_data.version.as_str(),
                    existing.package_data.version.as_str(),
                );
                match update_decision(comparison) {
                    Err(error) => {
                        return Err(error);
                    },
                    Ok(false) => {
                        return Ok(no_actions());
                    },
                    Ok(true) => {
                        actions.insert(Action::Remove(existing));
                    },
                }
                remote
            },
        },
    };
    let ghost first = actions@;
    assert(install_start(context, package_name@) == Ok::<InstallStart, InstallFailure>(
        InstallStart::Proceed { first, remote: remote@ },
    ));
    if remote.dependencies.len() > 0 {
        let wanted = String::from_str(package_name);
        if contains_name(path, &wanted) {
            return Err(InstallError::DependencyCycle(wanted));
        }
        if path.len() == usize::MAX {
            return Err(InstallError::DependencyDepth(wanted));
        }
        let mut deeper = clone_strings(path);
        deeper.push(wanted);
        assert(deeper.deep_view() =~= path.deep_view().push(package_name@));
        let ghost names = remote@.dependencies;
        let mut i: usize = 0;
        while i < remote.dependencies.len()
            invariant
                i <= remote.dependencies.len(),
                names == remote@.dependencies,
                names.len() > 0,
                deeper.deep_view() == path.deep_view().push(package_name@),
                deeper.len() == path.len() + 1,
                path.len() < usize::MAX,
                !path.deep_view().contains(package_name@),
                actions.wf(),
                db.records() == context.records,
                package_finder.catalog() == context.catalog,
                context.policy == *reinstall_options,
                db.fault_free() == old(db).fault_free(),
                package_finder.fault_free() == old(package_finder).fault_free(),
                context.records == old(db).records(),
                context.catalog == old(package_finder).catalog(),
                install_start(context, package_name@) == Ok::<InstallStart, InstallFailure>(
                    InstallStart::Proceed { first, remote: remote@ },
                ),
                install_all(context, deeper.deep_view(), names.take(i as int), first) == Ok::<
                    Seq<ActionView>,
                    InstallFailure,
                >(actions@),
            decreases remote.dependencies.len() - i,
        {
            proof {
                assert(names.take(i + 1).drop_last() =~= names.take(i as int));
                assert(names.take(i + 1).last() == remote.dependencies[i as int]@);
            }
            let more = match install_package(
                remote.dependencies[i].as_str(),
                package_finder,
                reinstall_options,
                db,
                &deeper,
            ) {
                Ok(more) => more,
                Err(error) => {
                    proof {
                        if error.failure() is Some {
                            lemma_install_all_prefix_failure(
                                context,
                                deeper.deep_view(),
                                names,
                                first,
                                i + 1,
                            );
                        }
                    }
                    return Err(error);
                },
            };
            actions.extend(&more);
            i += 1;
        }
        assert(names.take(i as int) =~= names);
    }
    actions.insert(Action::Install(remote));
    Ok(actions.into_vec())
}

/// Resolves a request to install `packages`: for each name in turn the
/// actions of its dependencies and then its own, every action kept where it
/// first occurs. Nothing is returned where one name fails.
///
/// Where every requested package is installed and the policy is `Ignore`,
/// the request costs one question to the store for each name and none to
/// the lookup service, and gives no action.
pub fn install_packages<F: PackageFinder, D: PackagesDb>(
    packages: Vec<String>,
    package_finder: &mut F,
    reinstall_options: &ReinstallOptions,
    db: &mut D,
) -> (result: Result<Vec<Action>, InstallError<D::GetError, F::Error>>)
    ensures
        final(db).records() == old(db).records(),
        final(db).fault_free() == old(db).fault_free(),
        final(package_finder).catalog() == old(package_finder).catalog(),
        final(package_finder).fault_free() == old(package_finder).fault_free(),
        install_agrees(
            result,
            install_all(
                InstallContext {
                    records: old(db).records(),
                    catalog: old(package_finder).catalog(),
                    policy: *reinstall_options,
                },
                Seq::empty(),
                packages.deep_view(),
                Seq::empty(),
            ),
            old(db).fault_free(),
            old(package_finder).fault_free(),
        ),
        result matches Ok(actions) ==> distinct_keys(actions.deep_view()),
        packages.len() == 0 ==> result is Ok,
        all_ignored(
            InstallContext {
                records: old(db).records(),
                catalog: old(package_finder).catalog(),
                policy: *reinstall_options,
            },
            packages.deep_view(),
        ) ==> {
            &&& final(package_finder).lookups() == old(package_finder).lookups()
            &&& result is Ok ==> final(db).reads() == old(db).reads() + packages.len()
            &&& result matches Ok(actions) ==> actions.deep_view() == Seq::<ActionView>::empty()
            &&& old(db).fault_free() ==> result is Ok
        },
{
    let ghost context = InstallContext {
        records: db.records(),
        catalog: package_finder.catalog(),
        policy: *reinstall_options,
    };
    let ghost names = packages.deep_view();
    let path: Vec<String> = Vec::new();
    assert(path.deep_view() =~= Seq::<Seq<char>>::empty());
    let mut actions = ActionSet::new();
    let mut i: usize = 0;
    while i < packages.len()
        invariant
            i <= packages.len(),
            names == packages.deep_view(),
            path.deep_view() == Seq::<Seq<char>>::empty(),
            actions.wf(),
            db.records() == context.records,
            package_finder.catalog() == context.catalog,
            context.policy == *reinstall_options,
            db.fault_free() == old(db).fault_free(),
            package_finder.fault_free() == old(package_finder).fault_free(),
            context.records == old(db).records(),
            context.catalog == old(package_finder).catalog(),
            install_all(context, Seq::empty(), names.take(i as int), Seq::empty()) == Ok::<
                Seq<ActionView>,
                InstallFailure,
            >(actions@),
            all_ignored(context, names) ==> {
                &&& package_finder.lookups() == old(package_finder).lookups()
                &&& db.reads() == old(db).reads() + i
                &&& actions@ == Seq::<ActionView>::empty()
            },
        decreases packages.len() - i,
    {
        proof {
            assert(names.take(i + 1).drop_last() =~= names.take(i as int));
            assert(names.take(i + 1).last() == packages[i as int]@);
        }
        let more = match install_package(
            packages[i].as_str(),
            package_finder,
            reinstall_options,
            db,
            &path,
        ) {
            Ok(more) => more,
            Err(error) => {
                proof {
                    if error.failure() is Some {
                        lemma_install_all_prefix_failure(
                            context,
                            Seq::empty(),
                            names,
                            Seq::empty(),
                            i + 1,
                        );
                    }
                }
                return Err(error);
            },
        };
        actions.extend(&more);
        i += 1;
    }
    assert(names.take(i as int) =~= names);
    proof {
        actions.lemma_distinct();
    }
    Ok(actions.into_vec())
}

} // verus!
