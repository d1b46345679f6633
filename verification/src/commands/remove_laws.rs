//! What holds of every resolved remove request: no action twice, a package
//! with dependents is not removed alone, and dependents go first.

use crate::action::{
    add_action, begins_with, distinct_keys, has_key, lemma_add_action, lemma_merge_actions,
    merge_actions, ActionView,
};
use crate::commands::depending::direct_dependents;
use crate::commands::errors::RemoveFailure;
use crate::commands::remove::{dependent_names, remove_all, remove_one};
use crate::db::{
    dependents_of, depends_on, find_record, has_record, lemma_first_record_exists,
};
use crate::ordered_set::lemma_extend_unique;
use crate::package::LocalPackageView;
use vstd::prelude::*;

verus! {

/// The names of the direct dependents of `name` are the names of the
/// records that list it as a dependency, each once.
pub proof fn lemma_dependent_names(records: Seq<LocalPackageView>, name: Seq<char>)
    ensures
        dependent_names(records, name).no_duplicates(),
        forall|dependent: Seq<char>| #[trigger]
            dependent_names(records, name).contains(dependent) <==> exists|k: int|
                0 <= k < records.len() && depends_on(#[trigger] records[k], name)
                    && records[k].package_data.name == dependent,
        dependent_names(records, name).len() == 0 <==> dependents_of(records, name).len() == 0,
{
    let lists = |record: LocalPackageView| depends_on(record, name);
    let depending = dependents_of(records, name);
    let names = direct_dependents(records, name);
    lemma_extend_unique(Seq::<Seq<char>>::empty(), names);
    assert forall|dependent: Seq<char>| #[trigger]
        dependent_names(records, name).contains(dependent) <==> exists|k: int|
            0 <= k < records.len() && depends_on(#[trigger] records[k], name)
                && records[k].package_data.name == dependent by {
        if dependent_names(records, name).contains(dependent) {
            assert(names.contains(dependent));
            let m = choose|m: int| 0 <= m < names.len() && names[m] == dependent;
            assert(depending.contains(depending[m]));
            records.lemma_filter_contains_rev(lists, depending[m]);
            records.lemma_filter_pred(lists, m);
            assert(records.contains(depending[m]));
            let k = choose|k: int| 0 <= k < records.len() && records[k] == depending[m];
            assert(depends_on(records[k], name));
        }
        if exists|k: int|
            0 <= k < records.len() && depends_on(#[trigger] records[k], name)
                && records[k].package_data.name == dependent {
            let k = choose|k: int|
                0 <= k < records.len() && depends_on(#[trigger] records[k], name)
                    && records[k].package_data.name == dependent;
            assert(records.contains(records[k]));
            assert(lists(records[k]));
            records.lemma_filter_contains(lists, k);
            assert(depending.contains(records[k]));
            let m = choose|m: int| 0 <= m < depending.len() && depending[m] == records[k];
            assert(names[m] == dependent);
            assert(names.contains(dependent));
        }
    }
    if names.len() > 0 {
        assert(names.contains(names[0]));
        assert(dependent_names(records, name).contains(names[0]));
    }
}

/// A package that installed packages depend on is not removed without them:
/// the request fails and lists the names of its direct dependents, each
/// once.
pub proof fn lemma_remove_breaks_dependents(
    records: Seq<LocalPackageView>,
    path: Seq<Seq<char>>,
    name: Seq<char>,
)
    requires
        has_record(records, name),
        dependents_of(records, name).len() > 0,
    ensures
        remove_one(records, path, name, false) == Err::<Seq<ActionView>, RemoveFailure>(
            RemoveFailure::DependencyBreak(name, dependent_names(records, name)),
        ),
{
    lemma_dependent_names(records, name);
}

/// Whether the removal at place `j` comes after the removal of the record
/// `k`, where that record depends on the package removed at `j`.
pub open spec fn dependent_gone(
    records: Seq<LocalPackageView>,
    actions: Seq<ActionView>,
    j: int,
    k: int,
) -> bool {
    depends_on(records[k], actions[j].name()) ==> has_key(
        actions.take(j),
        (false, records[k].package_data.name),
    )
}

/// Whether every action is a removal that comes after the removals of the
/// packages that depend on what it removes.
pub open spec fn dependents_first(
    records: Seq<LocalPackageView>,
    actions: Seq<ActionView>,
) -> bool {
    &&& forall|j: int| 0 <= j < actions.len() ==> (#[trigger] actions[j]) is Remove
    &&& forall|j: int, k: int|
        0 <= j < actions.len() && 0 <= k < records.len() ==> #[trigger] dependent_gone(
            records,
            actions,
            j,
            k,
        )
}

/// A removal may be added to a sequence that holds the removals of the
/// packages depending on it.
proof fn lemma_add_removal(
    records: Seq<LocalPackageView>,
    actions: Seq<ActionView>,
    local: LocalPackageView,
)
    requires
        distinct_keys(actions),
        dependents_first(records, actions),
        forall|k: int|
            0 <= k < records.len() && depends_on(
                #[trigger] records[k],
                local.package_data.name,
            ) ==> has_key(actions, (false, records[k].package_data.name)),
    ensures
        distinct_keys(add_action(actions, ActionView::Remove(local))),
        dependents_first(records, add_action(actions, ActionView::Remove(local))),
{
    let action = ActionView::Remove(local);
    let result = add_action(actions, action);
    lemma_add_action(actions, action);
    if !has_key(actions, action.key()) {
        assert forall|j: int| 0 <= j < result.len() implies (#[trigger] result[j]) is Remove by {
            if j < actions.len() {
                assert(actions[j] is Remove);
            }
        }
        assert forall|j: int, k: int|
            0 <= j < result.len() && 0 <= k < records.len() implies #[trigger] dependent_gone(
            records,
            result,
            j,
            k,
        ) by {
            if j < actions.len() {
                assert(dependent_gone(records, actions, j, k));
                assert(result.take(j) =~= actions.take(j));
            } else {
                assert(result.take(j) =~= actions);
            }
        }
    }
}

/// The first actions of a dependents-first sequence are dependents first.
proof fn lemma_dependents_first_prefix(
    records: Seq<LocalPackageView>,
    actions: Seq<ActionView>,
    count: int,
)
    requires
        distinct_keys(actions),
        dependents_first(records, actions),
        0 <= count <= actions.len(),
    ensures
        distinct_keys(actions.take(count)),
        dependents_first(records, actions.take(count)),
{
    let shorter = actions.take(count);
    assert forall|i: int, j: int|
        0 <= i < shorter.len() && 0 <= j < shorter.len() && i != j implies
        #[trigger] shorter[i].key()
        != #[trigger] shorter[j].key() by {
        assert(actions[i].key() != actions[j].key());
    }
    assert forall|j: int| 0 <= j < shorter.len() implies (#[trigger] shorter[j]) is Remove by {
        assert(actions[j] is Remove);
    }
    assert forall|j: int, k: int|
        0 <= j < shorter.len() && 0 <= k < records.len() implies #[trigger] dependent_gone(
        records,
        shorter,
        j,
        k,
    ) by {
        assert(dependent_gone(records, actions, j, k));
        assert(shorter.take(j) =~= actions.take(j));
    }
}

/// Two dependents-first sequences merge into one.
proof fn lemma_merge_dependents_first(
    records: Seq<LocalPackageView>,
    actions: Seq<ActionView>,
    more: Seq<ActionView>,
)
    requires
        distinct_keys(actions),
        dependents_first(records, actions),
        distinct_keys(more),
        dependents_first(records, more),
    ensures
        distinct_keys(merge_actions(actions, more)),
        dependents_first(records, merge_actions(actions, more)),
    decreases more.len(),
{
    if more.len() > 0 {
        let last = more.len() - 1;
        let shorter = more.drop_last();
        assert(shorter =~= more.take(last));
        lemma_dependents_first_prefix(records, more, last);
        lemma_merge_dependents_first(records, actions, shorter);
        lemma_merge_actions(actions, shorter);
        let before = merge_actions(actions, shorter);
        assert(more[last] is Remove);
        let local = more[last]->Remove_0;
        assert forall|k: int|
            0 <= k < records.len() && depends_on(
                #[trigger] records[k],
                local.package_data.name,
            ) implies has_key(before, (false, records[k].package_data.name)) by {
            assert(dependent_gone(records, more, last, k));
        }
        lemma_add_removal(records, before, local);
    }
}

/// The actions that remove one name have distinct keys, are dependents
/// first, and hold the removal of that name.
pub proof fn lemma_remove_one_dependents_first(
    records: Seq<LocalPackageView>,
    path: Seq<Seq<char>>,
    name: Seq<char>,
    recursive: bool,
)
    requires
        remove_one(records, path, name, recursive) is Ok,
    ensures
        distinct_keys(remove_one(records, path, name, recursive)->Ok_0),
        dependents_first(records, remove_one(records, path, name, recursive)->Ok_0),
        has_key(remove_one(records, path, name, recursive)->Ok_0, (false, name)),
    decreases usize::MAX - path.len(), 0nat,
{
    lemma_first_record_exists(records, name);
    let local = find_record(records, name)->Some_0;
    assert(local.package_data.name == name);
    let dependents = dependent_names(records, name);
    lemma_dependent_names(records, name);
    let start = Seq::<ActionView>::empty();
    assert(distinct_keys(start) && dependents_first(records, start));
    if dependents.len() == 0 {
        assert forall|k: int| 0 <= k < records.len() implies !depends_on(
            #[trigger] records[k],
            name,
        ) by {
            if depends_on(records[k], name) {
                assert(dependents.contains(records[k].package_data.name));
            }
        }
        lemma_add_removal(records, start, local);
        lemma_add_action(start, ActionView::Remove(local));
        assert(add_action(start, ActionView::Remove(local)) =~= seq![ActionView::Remove(local)]);
    } else {
        let below = path.push(name);
        lemma_remove_all_dependents_first(records, below, dependents, recursive, start);
        let actions = remove_all(records, below, dependents, recursive, start)->Ok_0;
        assert forall|k: int|
            0 <= k < records.len() && depends_on(#[trigger] records[k], name) implies has_key(
            actions,
            (false, records[k].package_data.name),
        ) by {
            assert(dependents.contains(records[k].package_data.name));
            let m = choose|m: int|
                0 <= m < dependents.len() && dependents[m] == records[k].package_data.name;
            assert(has_key(actions, (false, dependents[m])));
        }
        lemma_add_removal(records, actions, local);
        lemma_add_action(actions, ActionView::Remove(local));
    }
}

/// The actions that remove a list of names after a dependents-first start
/// have distinct keys, are dependents first, begin with the start, and hold
/// the removal of every name of the list.
pub proof fn lemma_remove_all_dependents_first(
    records: Seq<LocalPackageView>,
    path: Seq<Seq<char>>,
    names: Seq<Seq<char>>,
    recursive: bool,
    start: Seq<ActionView>,
)
    requires
        distinct_keys(start),
        dependents_first(records, start),
        remove_all(records, path, names, recursive, start) is Ok,
    ensures
        distinct_keys(remove_all(records, path, names, recursive, start)->Ok_0),
        dependents_first(records, remove_all(records, path, names, recursive, start)->Ok_0),
        begins_with(remove_all(records, path, names, recursive, start)->Ok_0, start),
        forall|m: int|
            0 <= m < names.len() ==> has_key(
                remove_all(records, path, names, recursive, start)->Ok_0,
                (false, #[trigger] names[m]),
            ),
    decreases usize::MAX - path.len(), 1 + names.len(),
{
    if names.len() > 0 {
        let shorter = names.drop_last();
        lemma_remove_all_dependents_first(records, path, shorter, recursive, start);
        lemma_remove_one_dependents_first(records, path, names.last(), recursive);
        let actions = remove_all(records, path, shorter, recursive, start)->Ok_0;
        let more = remove_one(records, path, names.last(), recursive)->Ok_0;
        lemma_merge_dependents_first(records, actions, more);
        lemma_merge_actions(actions, more);
        let result = merge_actions(actions, more);
        assert forall|m: int| 0 <= m < names.len() implies has_key(
            result,
            (false, #[trigger] names[m]),
        ) by {
            if m < shorter.len() {
                assert(shorter[m] == names[m]);
            }
        }
    }
}

/// Whether the package `dependent` depends on `target` through at most
/// `steps` installed packages, each listing the next as a dependency.
pub open spec fn depends_through(
    records: Seq<LocalPackageView>,
    dependent: Seq<char>,
    target: Seq<char>,
    steps: nat,
) -> bool
    decreases steps,
{
    steps > 0 && exists|k: int|
        0 <= k < records.len() && depends_on(#[trigger] records[k], target) && (
        records[k].package_data.name == dependent || depends_through(
            records,
            dependent,
            records[k].package_data.name,
            (steps - 1) as nat,
        ))
}

/// In a dependents-first sequence, the removal of a package comes after the
/// removal of everything that depends on it, however indirectly.
proof fn lemma_all_dependents_gone(
    records: Seq<LocalPackageView>,
    actions: Seq<ActionView>,
    j: int,
    dependent: Seq<char>,
    steps: nat,
)
    requires
        dependents_first(records, actions),
        0 <= j < actions.len(),
        depends_through(records, dependent, actions[j].name(), steps),
    ensures
        has_key(actions.take(j), (false, dependent)),
    decreases steps,
{
    let target = actions[j].name();
    let k = choose|k: int|
        0 <= k < records.len() && depends_on(#[trigger] records[k], target) && (
        records[k].package_data.name == dependent || depends_through(
            records,
            dependent,
            records[k].package_data.name,
            (steps - 1) as nat,
        ));
    assert(dependent_gone(records, actions, j, k));
    if records[k].package_data.name != dependent {
        let earlier = actions.take(j);
        let i = choose|i: int|
            0 <= i < earlier.len() && #[trigger] earlier[i].key() == (
                false,
                records[k].package_data.name,
            );
        assert(actions[i] == earlier[i]);
        lemma_all_dependents_gone(records, actions, i, dependent, (steps - 1) as nat);
        let before = actions.take(i);
        let h = choose|h: int|
            0 <= h < before.len() && #[trigger] before[h].key() == (false, dependent);
        assert(earlier[h].key() == (false, dependent));
    }
}

/// In the actions that resolve a remove request, every action is a removal,
/// no package is removed twice, and the removal of a package stands after
/// the removal of every installed package that depends on it, directly or
/// through others: `i` is a place before `j` where `dependent` is removed.
pub proof fn lemma_dependents_removed_first(
    records: Seq<LocalPackageView>,
    names: Seq<Seq<char>>,
    recursive: bool,
    actions: Seq<ActionView>,
    j: int,
    dependent: Seq<char>,
    steps: nat,
)
    requires
        remove_all(records, Seq::empty(), names, recursive, Seq::empty()) == Ok::<
            Seq<ActionView>,
            RemoveFailure,
        >(actions),
        0 <= j < actions.len(),
        depends_through(records, dependent, actions[j].name(), steps),
    ensures
        distinct_keys(actions),
        forall|m: int| 0 <= m < actions.len() ==> (#[trigger] actions[m]) is Remove,
        exists|i: int| 0 <= i < j && #[trigger] actions[i].key() == (false, dependent),
{
    let start = Seq::<ActionView>::empty();
    assert(distinct_keys(start) && dependents_first(records, start));
    lemma_remove_all_dependents_first(records, Seq::empty(), names, recursive, start);
    lemma_all_dependents_gone(records, actions, j, dependent, steps);
    let earlier = actions.take(j);
    let i = choose|i: int|
        0 <= i < earlier.len() && #[trigger] earlier[i].key() == (false, dependent);
    assert(actions[i].key() == (false, dependent));
}

/// The actions that resolve a remove request hold the removal of every name
/// that was asked for.
pub proof fn lemma_requested_removed(
    records: Seq<LocalPackageView>,
    names: Seq<Seq<char>>,
    recursive: bool,
    m: int,
)
    requires
        remove_all(records, Seq::empty(), names, recursive, Seq::empty()) is Ok,
        0 <= m < names.len(),
    ensures
        has_key(
            remove_all(records, Seq::empty(), names, recursive, Seq::empty())->Ok_0,
            (false, names[m]),
        ),
{
    let start = Seq::<ActionView>::empty();
    assert(distinct_keys(start) && dependents_first(records, start));
    lemma_remove_all_dependents_first(records, Seq::empty(), names, recursive, start);
}

} // verus!
