//! What holds of every resolved install request: no action twice, and a
//! dependency's installation before that of the package that needs it.

use crate::action::{
    add_action, begins_with, distinct_keys, has_key, lemma_add_action, lemma_merge_actions,
    merge_actions, ActionView,
};
use crate::commands::{
    ignored, install_all, install_one, install_start, update_skipped, InstallContext,
    InstallStart,
};
use crate::db::find_record;
use crate::package::{LocalPackageView, RemotePackageView};
use crate::package_finder::{catalog_of, lemma_catalog_of_names};
use crate::version::semver_order;
use vstd::prelude::*;

verus! {

/// Whether the lookup service answers every name with a package of that
/// name.
pub open spec fn faithful(catalog: Map<Seq<char>, RemotePackageView>) -> bool {
    forall|name: Seq<char>|
        catalog.contains_key(name) ==> (#[trigger] catalog[name]).package_data.name == name
}

/// A lookup service that answers from a list in memory is faithful.
pub proof fn lemma_memory_catalog_faithful(packages: Seq<RemotePackageView>)
    ensures
        faithful(catalog_of(packages)),
{
    assert forall|name: Seq<char>| catalog_of(packages).contains_key(name) implies (
    #[trigger] catalog_of(packages)[name]).package_data.name == name by {
        lemma_catalog_of_names(packages, name);
    }
}

/// Whether a request for `name` leads to its installation, rather than to
/// nothing or to a failure.
pub open spec fn needs_install(context: InstallContext, name: Seq<char>) -> bool {
    install_start(context, name) matches Ok(start) && start is Proceed
}

/// Whether the dependency `k` of the installation at place `j` is installed
/// before it, where it is installed at all.
pub open spec fn dependency_met(
    context: InstallContext,
    actions: Seq<ActionView>,
    j: int,
    k: int,
) -> bool {
    let dependency = actions[j]->Install_0.dependencies[k];
    needs_install(context, dependency) ==> has_key(actions.take(j), (true, dependency))
}

/// Whether every installation comes after those of its dependencies.
pub open spec fn dependencies_first(context: InstallContext, actions: Seq<ActionView>) -> bool {
    forall|j: int, k: int|
        0 <= j < actions.len() && actions[j] is Install && 0 <= k
            < actions[j]->Install_0.dependencies.len() ==> #[trigger] dependency_met(
            context,
            actions,
            j,
            k,
        )
}

/// Whether every installation is of a package that a request for its name
/// installs.
pub open spec fn installs_needed(context: InstallContext, actions: Seq<ActionView>) -> bool {
    forall|j: int|
        0 <= j < actions.len() && (#[trigger] actions[j]) is Install ==> needs_install(
            context,
            actions[j].name(),
        )
}

/// What the resolver keeps true of the actions it has collected.
pub open spec fn well_ordered(context: InstallContext, actions: Seq<ActionView>) -> bool {
    &&& distinct_keys(actions)
    &&& dependencies_first(context, actions)
    &&& installs_needed(context, actions)
}

/// The first actions of a well-ordered sequence are well ordered.
proof fn lemma_well_ordered_prefix(context: InstallContext, actions: Seq<ActionView>, count: int)
    requires
        well_ordered(context, actions),
        0 <= count <= actions.len(),
    ensures
        well_ordered(context, actions.take(count)),
{
    let shorter = actions.take(count);
    assert forall|i: int, j: int|
        0 <= i < shorter.len() && 0 <= j < shorter.len() && i != j implies
        #[trigger] shorter[i].key()
        != #[trigger] shorter[j].key() by {
        assert(actions[i].key() != actions[j].key());
    }
    assert forall|j: int, k: int|
        0 <= j < shorter.len() && shorter[j] is Install && 0 <= k
            < shorter[j]->Install_0.dependencies.len() implies #[trigger] dependency_met(
        context,
        shorter,
        j,
        k,
    ) by {
        assert(dependency_met(context, actions, j, k));
        assert(shorter.take(j) =~= actions.take(j));
    }
    assert forall|j: int|
        0 <= j < shorter.len() && (#[trigger] shorter[j]) is Install implies needs_install(
        context,
        shorter[j].name(),
    ) by {
        assert(actions[j] is Install);
    }
}

/// A removal may be added to a well-ordered sequence.
proof fn lemma_add_remove(
    context: InstallContext,
    actions: Seq<ActionView>,
    local: LocalPackageView,
)
    requires
        well_ordered(context, actions),
    ensures
        well_ordered(context, add_action(actions, ActionView::Remove(local))),
{
    let action = ActionView::Remove(local);
    let result = add_action(actions, action);
    lemma_add_action(actions, action);
    if !has_key(actions, action.key()) {
        assert forall|j: int, k: int|
            0 <= j < result.len() && result[j] is Install && 0 <= k
                < result[j]->Install_0.dependencies.len() implies #[trigger] dependency_met(
            context,
            result,
            j,
            k,
        ) by {
            assert(j < actions.len());
            assert(dependency_met(context, actions, j, k));
            assert(result.take(j) =~= actions.take(j));
        }
        assert forall|j: int|
            0 <= j < result.len() && (#[trigger] result[j]) is Install implies needs_install(
            context,
            result[j].name(),
        ) by {
            assert(actions[j] is Install);
        }
    }
}

/// An installation may be added to a well-ordered sequence that holds the
/// installations of its dependencies.
proof fn lemma_add_install(
    context: InstallContext,
    actions: Seq<ActionView>,
    remote: RemotePackageView,
)
    requires
        well_ordered(context, actions),
        needs_install(context, remote.package_data.name),
        forall|k: int|
            0 <= k < remote.dependencies.len() && needs_install(
                context,
                #[trigger] remote.dependencies[k],
            ) ==> has_key(actions, (true, remote.dependencies[k])),
    ensures
        well_ordered(context, add_action(actions, ActionView::Install(remote))),
{
    let action = ActionView::Install(remote);
    let result = add_action(actions, action);
    lemma_add_action(actions, action);
    if !has_key(actions, action.key()) {
        assert forall|j: int, k: int|
            0 <= j < result.len() && result[j] is Install && 0 <= k
                < result[j]->Install_0.dependencies.len() implies #[trigger] dependency_met(
            context,
            result,
            j,
            k,
        ) by {
            if j < actions.len() {
                assert(dependency_met(context, actions, j, k));
                assert(result.take(j) =~= actions.take(j));
            } else {
                assert(result.take(j) =~= actions);
                assert(result[j] == action);
            }
        }
        assert forall|j: int|
            0 <= j < result.len() && (#[trigger] result[j]) is Install implies needs_install(
            context,
            result[j].name(),
        ) by {
            if j < actions.len() {
                assert(actions[j] is Install);
            }
        }
    }
}

/// Two well-ordered sequences merge into a well-ordered one.
proof fn lemma_merge_well_ordered(
    context: InstallContext,
    actions: Seq<ActionView>,
    more: Seq<ActionView>,
)
    requires
        well_ordered(context, actions),
        well_ordered(context, more),
    ensures
        well_ordered(context, merge_actions(actions, more)),
    decreases more.len(),
{
    if more.len() > 0 {
        let last = more.len() - 1;
        let shorter = more.drop_last();
        assert(shorter =~= more.take(last));
        lemma_well_ordered_prefix(context, more, last);
        lemma_merge_well_ordered(context, actions, shorter);
        lemma_merge_actions(actions, shorter);
        let before = merge_actions(actions, shorter);
        match more.last() {
            ActionView::Remove(local) => {
                lemma_add_remove(context, before, local);
            },
            ActionView::Install(remote) => {
                assert(more[last] is Install);
                assert(more[last].name() == remote.package_data.name);
                assert forall|k: int|
                    0 <= k < remote.dependencies.len() && needs_install(
                        context,
                        #[trigger] remote.dependencies[k],
                    ) implies has_key(before, (true, remote.dependencies[k])) by {
                    assert(dependency_met(context, more, last, k));
                }
                lemma_add_install(context, before, remote);
            },
        }
    }
}

/// The actions that install one name are well ordered, and hold the
/// installation of that name where a request for it installs it.
pub proof fn lemma_install_one_well_ordered(
    context: InstallContext,
    path: Seq<Seq<char>>,
    name: Seq<char>,
)
    requires
        faithful(context.catalog),
        install_one(context, path, name) is Ok,
    ensures
        well_ordered(context, install_one(context, path, name)->Ok_0),
        needs_install(context, name) ==> has_key(
            install_one(context, path, name)->Ok_0,
            (true, name),
        ),
    decreases usize::MAX - path.len(), 0nat,
{
    match install_start(context, name) {
        Ok(InstallStart::Proceed { first, remote }) => {
            assert(remote == context.catalog[name]);
            assert(remote.package_data.name == name);
            assert(well_ordered(context, first)) by {
                assert forall|j: int| 0 <= j < first.len() implies !((#[trigger] first[j])
                    is Install) by {}
            }
            if remote.dependencies.len() == 0 {
                lemma_add_install(context, first, remote);
                lemma_add_action(first, ActionView::Install(remote));
            } else {
                let below = path.push(name);
                lemma_install_all_well_ordered(context, below, remote.dependencies, first);
                let actions = install_all(context, below, remote.dependencies, first)->Ok_0;
                lemma_add_install(context, actions, remote);
                lemma_add_action(actions, ActionView::Install(remote));
            }
        },
        _ => {},
    }
}

/// The actions that install a list of names after a well-ordered start are
/// well ordered, begin with the start, and hold the installation of every
/// name that a request for it installs.
pub proof fn lemma_install_all_well_ordered(
    context: InstallContext,
    path: Seq<Seq<char>>,
    names: Seq<Seq<char>>,
    start: Seq<ActionView>,
)
    requires
        faithful(context.catalog),
        well_ordered(context, start),
        install_all(context, path, names, start) is Ok,
    ensures
        well_ordered(context, install_all(context, path, names, start)->Ok_0),
        begins_with(install_all(context, path, names, start)->Ok_0, start),
        forall|k: int|
            0 <= k < names.len() && needs_install(context, #[trigger] names[k]) ==> has_key(
                install_all(context, path, names, start)->Ok_0,
                (true, names[k]),
            ),
    decreases usize::MAX - path.len(), 1 + names.len(),
{
    if names.len() > 0 {
        let shorter = names.drop_last();
        lemma_install_all_well_ordered(context, path, shorter, start);
        lemma_install_one_well_ordered(context, path, names.last());
        let actions = install_all(context, path, shorter, start)->Ok_0;
        let more = install_one(context, path, names.last())->Ok_0;
        lemma_merge_well_ordered(context, actions, more);
        lemma_merge_actions(actions, more);
        let result = merge_actions(actions, more);
        assert forall|k: int|
            0 <= k < names.len() && needs_install(context, #[trigger] names[k]) implies has_key(
            result,
            (true, names[k]),
        ) by {
            if k < shorter.len() {
                assert(shorter[k] == names[k]);
            }
        }
    }
}

/// In the actions that resolve an install request, the installation of a
/// dependency stands before the installation of the package that lists it.
///
/// This holds where the lookup service answers every name with a package of
/// that name; `i` is the place of the dependency's installation, `j` that of
/// the dependent's, `k` the place of the dependency in the dependent's list.
pub proof fn lemma_dependencies_installed_first(
    context: InstallContext,
    names: Seq<Seq<char>>,
    actions: Seq<ActionView>,
    i: int,
    j: int,
    k: int,
)
    requires
        faithful(context.catalog),
        install_all(context, Seq::empty(), names, Seq::empty()) == Ok::<
            Seq<ActionView>,
            crate::commands::errors::InstallFailure,
        >(actions),
        0 <= i < actions.len(),
        0 <= j < actions.len(),
        actions[i] is Install,
        actions[j] is Install,
        0 <= k < actions[j]->Install_0.dependencies.len(),
        actions[i].name() == actions[j]->Install_0.dependencies[k],
    ensures
        i < j,
{
    let start = Seq::<ActionView>::empty();
    assert(well_ordered(context, start));
    lemma_install_all_well_ordered(context, Seq::empty(), names, start);
    let dependency = actions[j]->Install_0.dependencies[k];
    assert(needs_install(context, actions[i].name()));
    assert(dependency_met(context, actions, j, k));
    let earlier = actions.take(j);
    let found = choose|m: int|
        0 <= m < earlier.len() && #[trigger] earlier[m].key() == (true, dependency);
    assert(actions[found].key() == actions[i].key());
}

/// In the actions that resolve an install request, no two actions install
/// the same package and no two remove the same one.
pub proof fn lemma_install_actions_distinct(context: InstallContext, names: Seq<Seq<char>>)
    requires
        install_all(context, Seq::empty(), names, Seq::empty()) is Ok,
    ensures
        distinct_keys(install_all(context, Seq::empty(), names, Seq::empty())->Ok_0),
{
    lemma_install_all_distinct(context, Seq::empty(), names, Seq::empty());
}

/// The actions that install a list of names after a start with distinct
/// keys have distinct keys.
proof fn lemma_install_all_distinct(
    context: InstallContext,
    path: Seq<Seq<char>>,
    names: Seq<Seq<char>>,
    start: Seq<ActionView>,
)
    requires
        distinct_keys(start),
        install_all(context, path, names, start) is Ok,
    ensures
        distinct_keys(install_all(context, path, names, start)->Ok_0),
    decreases names.len(),
{
    if names.len() > 0 {
        let shorter = names.drop_last();
        lemma_install_all_distinct(context, path, shorter, start);
        let actions = install_all(context, path, shorter, start)->Ok_0;
        let more = install_one(context, path, names.last())->Ok_0;
        lemma_merge_actions(actions, more);
    }
}

/// Where every requested package stays as it is without a look at the
/// lookup service, the request gives the actions it began with and no
/// other.
pub proof fn lemma_all_ignored(
    context: InstallContext,
    path: Seq<Seq<char>>,
    names: Seq<Seq<char>>,
    start: Seq<ActionView>,
)
    requires
        crate::commands::all_ignored(context, names),
    ensures
        install_all(context, path, names, start) == Ok::<
            Seq<ActionView>,
            crate::commands::errors::InstallFailure,
        >(start),
    decreases names.len(),
{
    if names.len() > 0 {
        let shorter = names.drop_last();
        assert forall|k: int| 0 <= k < shorter.len() implies ignored(
            context,
            #[trigger] shorter[k],
        ) by {
            assert(shorter[k] == names[k]);
        }
        lemma_all_ignored(context, path, shorter, start);
        assert(ignored(context, names[names.len() - 1]));
        assert(names.last() == names[names.len() - 1]);
        assert(install_one(context, path, names.last()) == Ok::<
            Seq<ActionView>,
            crate::commands::errors::InstallFailure,
        >(Seq::empty()));
        assert(merge_actions(start, Seq::<ActionView>::empty()) == start);
    }
}

/// A package that is installed is left alone under the policy `Ignore`: a
/// request for it gives no action, whatever the lookup service knows and
/// wherever in a resolution the request is made.
pub proof fn lemma_ignore_installed(
    context: InstallContext,
    path: Seq<Seq<char>>,
    name: Seq<char>,
)
    requires
        context.policy is Ignore,
        find_record(context.records, name) is Some,
    ensures
        ignored(context, name),
        install_one(context, path, name) == Ok::<
            Seq<ActionView>,
            crate::commands::errors::InstallFailure,
        >(Seq::empty()),
{
}

/// Under the policy `Update`, a package whose remote version is not newer
/// than the installed one is left alone: a request for it gives no action,
/// neither a removal nor an installation.
pub proof fn lemma_update_skips_current(
    context: InstallContext,
    path: Seq<Seq<char>>,
    name: Seq<char>,
)
    requires
        context.policy is Update,
        find_record(context.records, name) is Some,
        context.catalog.contains_key(name),
        semver_order(
            context.catalog[name].package_data.version,
            find_record(context.records, name)->Some_0.package_data.version,
        ) matches Ok(order) && !(order is Newer),
    ensures
        update_skipped(context, name),
        install_one(context, path, name) == Ok::<
            Seq<ActionView>,
            crate::commands::errors::InstallFailure,
        >(Seq::empty()),
{
}

} // verus!
