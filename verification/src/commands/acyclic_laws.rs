//! What holds of a recursive removal where no installed package depends on
//! itself: it succeeds, it removes the package asked for and what depends
//! on it and nothing else, and the package asked for goes last.

use crate::action::{
    distinct_keys, has_key, lemma_add_action, lemma_merge_actions, merge_actions,
    ActionView,
};
use crate::commands::depending::{all_dependents, all_dependents_each, direct_dependents};
use crate::commands::errors::RemoveFailure;
use crate::commands::remove::{dependent_names, remove_all, remove_one};
use crate::commands::remove_laws::{depends_through, lemma_dependent_names};
use crate::commands::update::update_targets;
use crate::db::{
    depends_on, find_record, has_record, lemma_first_record_exists, record_names,
};
use crate::ordered_set::{
    extend_unique, insert_unique, lemma_extend_unique, lemma_insert_unique_no_duplicates,
};
use crate::package::LocalPackageView;
use vstd::prelude::*;

verus! {

/// Whether no package depends on itself, directly or through others.
pub open spec fn acyclic(records: Seq<LocalPackageView>) -> bool {
    forall|name: Seq<char>, steps: nat| !#[trigger] depends_through(records, name, name, steps)
}

/// Whether `name` depends on every package of the path, on the last one
/// directly and on each one before through those after it.
pub open spec fn reaches_all(
    records: Seq<LocalPackageView>,
    path: Seq<Seq<char>>,
    name: Seq<char>,
) -> bool {
    forall|i: int|
        0 <= i < path.len() ==> depends_through(
            records,
            name,
            #[trigger] path[i],
            (path.len() - i) as nat,
        )
}

/// Whether every action is a removal of `name` or of a package that
/// depends on it.
pub open spec fn removes_dependents_of(
    records: Seq<LocalPackageView>,
    actions: Seq<ActionView>,
    name: Seq<char>,
) -> bool {
    forall|i: int|
        0 <= i < actions.len() ==> (#[trigger] actions[i]) is Remove && (actions[i].name() == name
            || exists|steps: nat| depends_through(records, actions[i].name(), name, steps))
}

/// What depends on a package through some steps depends on it through more
/// steps too.
proof fn lemma_depends_through_more(
    records: Seq<LocalPackageView>,
    dependent: Seq<char>,
    target: Seq<char>,
    steps: nat,
    more: nat,
)
    requires
        depends_through(records, dependent, target, steps),
        steps <= more,
    ensures
        depends_through(records, dependent, target, more),
    decreases steps,
{
    let k = choose|k: int|
        0 <= k < records.len() && depends_on(#[trigger] records[k], target) && (
        records[k].package_data.name == dependent || depends_through(
            records,
            dependent,
            records[k].package_data.name,
            (steps - 1) as nat,
        ));
    if records[k].package_data.name != dependent {
        lemma_depends_through_more(
            records,
            dependent,
            records[k].package_data.name,
            (steps - 1) as nat,
            (more - 1) as nat,
        );
    }
}

/// A package that lists `name` as a dependency depends on it in one step.
proof fn lemma_depends_directly(
    records: Seq<LocalPackageView>,
    dependent: Seq<char>,
    name: Seq<char>,
)
    requires
        dependent_names(records, name).contains(dependent),
    ensures
        depends_through(records, dependent, name, 1),
        has_record(records, dependent),
{
    lemma_dependent_names(records, name);
    let k = choose|k: int|
        0 <= k < records.len() && depends_on(#[trigger] records[k], name)
            && records[k].package_data.name == dependent;
    assert(depends_on(records[k], name) && records[k].package_data.name == dependent);
}

/// What lists a package that depends on `target` depends on `target` too,
/// one step further.
proof fn lemma_depends_one_further(
    records: Seq<LocalPackageView>,
    dependent: Seq<char>,
    name: Seq<char>,
    target: Seq<char>,
    steps: nat,
)
    requires
        dependent_names(records, name).contains(dependent),
        depends_through(records, name, target, steps),
    ensures
        depends_through(records, dependent, target, steps + 1),
    decreases steps,
{
    let k = choose|k: int|
        0 <= k < records.len() && depends_on(#[trigger] records[k], target) && (
        records[k].package_data.name == name || depends_through(
            records,
            name,
            records[k].package_data.name,
            (steps - 1) as nat,
        ));
    if records[k].package_data.name == name {
        lemma_depends_directly(records, dependent, name);
        lemma_depends_through_more(records, dependent, name, 1, steps);
    } else {
        lemma_depends_one_further(
            records,
            dependent,
            name,
            records[k].package_data.name,
            (steps - 1) as nat,
        );
    }
    assert(depends_on(records[k], target));
}

/// What depends on a package that lists `target` depends on `target` too,
/// one step further.
proof fn lemma_depends_through_dependent(
    records: Seq<LocalPackageView>,
    dependent: Seq<char>,
    name: Seq<char>,
    target: Seq<char>,
    steps: nat,
)
    requires
        dependent_names(records, target).contains(name),
        depends_through(records, dependent, name, steps),
    ensures
        depends_through(records, dependent, target, steps + 1),
{
    lemma_dependent_names(records, target);
    let k = choose|k: int|
        0 <= k < records.len() && depends_on(#[trigger] records[k], target)
            && records[k].package_data.name == name;
    assert(depends_on(records[k], target) && records[k].package_data.name == name);
}

/// Names of installed packages of which none occurs twice are no more than
/// there are records.
proof fn lemma_names_fit(records: Seq<LocalPackageView>, names: Seq<Seq<char>>)
    requires
        names.no_duplicates(),
        forall|i: int| 0 <= i < names.len() ==> has_record(records, #[trigger] names[i]),
    ensures
        names.len() <= records.len(),
{
    broadcast use vstd::seq_lib::seq_to_set_is_finite;

    let all = record_names(records);
    names.unique_seq_to_set();
    all.lemma_cardinality_of_set();
    assert(names.to_set().subset_of(all.to_set())) by {
        assert forall|name: Seq<char>| names.to_set().contains(name) implies all.to_set().contains(
            name,
        ) by {
            let i = choose|i: int| 0 <= i < names.len() && names[i] == name;
            assert(has_record(records, names[i]));
            let k = choose|k: int|
                0 <= k < records.len() && (#[trigger] records[k]).package_data.name == name;
            assert(all[k] == name);
        }
    }
    vstd::set_lib::lemma_len_subset(names.to_set(), all.to_set());
}

/// Where no package depends on itself, the recursive removal of an installed
/// package succeeds, ends with the removal of that package, and removes
/// besides it only what depends on it.
pub proof fn lemma_acyclic_remove_one(
    records: Seq<LocalPackageView>,
    path: Seq<Seq<char>>,
    name: Seq<char>,
)
    requires
        acyclic(records),
        records.len() < usize::MAX,
        has_record(records, name),
        path.no_duplicates(),
        forall|i: int| 0 <= i < path.len() ==> has_record(records, #[trigger] path[i]),
        reaches_all(records, path, name),
    ensures
        remove_one(records, path, name, true) is Ok,
        remove_one(records, path, name, true)->Ok_0.len() > 0,
        remove_one(records, path, name, true)->Ok_0.last() == ActionView::Remove(
            find_record(records, name)->Some_0,
        ),
        removes_dependents_of(records, remove_one(records, path, name, true)->Ok_0, name),
    decreases usize::MAX - path.len(), 0nat,
{
    lemma_first_record_exists(records, name);
    let local = find_record(records, name)->Some_0;
    let removal = ActionView::Remove(local);
    assert(removal.name() == name);
    let dependents = dependent_names(records, name);
    if dependents.len() == 0 {
        let only = seq![removal];
        assert(only[0] == removal);
        assert(only.last() == removal);
    } else {
        assert(!path.contains(name)) by {
            if path.contains(name) {
                let i = choose|i: int| 0 <= i < path.len() && path[i] == name;
                assert(depends_through(records, name, path[i], (path.len() - i) as nat));
            }
        }
        let below = path.push(name);
        assert(below.no_duplicates());
        assert forall|i: int| 0 <= i < below.len() implies has_record(
            records,
            #[trigger] below[i],
        ) by {
            if i < path.len() {
                assert(below[i] == path[i]);
            }
        }
        lemma_names_fit(records, below);
        assert(below.drop_last() =~= path);
        lemma_acyclic_remove_all(records, below, dependents.len() as int);
        assert(dependents.take(dependents.len() as int) =~= dependents);
        let actions = remove_all(records, below, dependents, true, Seq::empty())->Ok_0;
        lemma_add_action(actions, removal);
        assert(!has_key(actions, removal.key())) by {
            if has_key(actions, removal.key()) {
                let i = choose|i: int|
                    0 <= i < actions.len() && #[trigger] actions[i].key() == removal.key();
                assert(actions[i].name() == name);
                let steps = choose|steps: nat|
                    depends_through(records, actions[i].name(), name, steps);
                assert(depends_through(records, name, name, steps));
            }
        }
        let result = actions.push(removal);
        assert(result.last() == removal);
        assert forall|i: int| 0 <= i < result.len() implies (#[trigger] result[i]) is Remove && (
        result[i].name() == name || exists|steps: nat|
            depends_through(records, result[i].name(), name, steps)) by {
            if i < actions.len() {
                assert(actions[i] is Remove);
            }
        }
    }
}

/// Where no package depends on itself, the recursive removal of the first
/// `count` direct dependents of the last package of the path succeeds and
/// removes only what depends on that package.
pub proof fn lemma_acyclic_remove_all(
    records: Seq<LocalPackageView>,
    path: Seq<Seq<char>>,
    count: int,
)
    requires
        acyclic(records),
        records.len() < usize::MAX,
        path.len() > 0,
        path.no_duplicates(),
        forall|i: int| 0 <= i < path.len() ==> has_record(records, #[trigger] path[i]),
        reaches_all(records, path.drop_last(), path.last()),
        0 <= count <= dependent_names(records, path.last()).len(),
    ensures
        remove_all(
            records,
            path,
            dependent_names(records, path.last()).take(count),
            true,
            Seq::empty(),
        ) is Ok,
        removes_dependents_of(
            records,
            remove_all(
                records,
                path,
                dependent_names(records, path.last()).take(count),
                true,
                Seq::empty(),
            )->Ok_0,
            path.last(),
        ),
        forall|i: int|
            0 <= i < remove_all(
                records,
                path,
                dependent_names(records, path.last()).take(count),
                true,
                Seq::empty(),
            )->Ok_0.len() ==> (#[trigger] remove_all(
                records,
                path,
                dependent_names(records, path.last()).take(count),
                true,
                Seq::empty(),
            )->Ok_0[i]).name() != path.last(),
    decreases usize::MAX - path.len(), 1 + count,
{
    let target = path.last();
    let dependents = dependent_names(records, target);
    let names = dependents.take(count);
    if count > 0 {
        let shorter = dependents.take(count - 1);
        assert(names.drop_last() =~= shorter);
        let dependent = dependents[count - 1];
        assert(names.last() == dependent);
        lemma_acyclic_remove_all(records, path, count - 1);
        assert(dependents.contains(dependent));
        lemma_depends_directly(records, dependent, target);
        assert(reaches_all(records, path, dependent)) by {
            let before = path.drop_last();
            assert forall|i: int| 0 <= i < path.len() implies depends_through(
                records,
                dependent,
                #[trigger] path[i],
                (path.len() - i) as nat,
            ) by {
                if i < path.len() - 1 {
                    assert(before[i] == path[i]);
                    assert(depends_through(
                        records,
                        target,
                        before[i],
                        (before.len() - i) as nat,
                    ));
                    lemma_depends_one_further(
                        records,
                        dependent,
                        target,
                        path[i],
                        (before.len() - i) as nat,
                    );
                } else {
                    assert(path[i] == target);
                }
            }
        }
        lemma_acyclic_remove_one(records, path, dependent);
        let actions = remove_all(records, path, shorter, true, Seq::empty())->Ok_0;
        let more = remove_one(records, path, dependent, true)->Ok_0;
        lemma_merge_actions(actions, more);
        let result = merge_actions(actions, more);
        assert forall|i: int| 0 <= i < result.len() implies (#[trigger] result[i]) is Remove && (
        result[i].name() == target || exists|steps: nat|
            depends_through(records, result[i].name(), target, steps)) && result[i].name()
            != target by {
            if i < actions.len() {
                assert(result[i] == actions[i]);
                assert(actions[i] is Remove);
            } else {
                assert(more.contains(result[i]));
                let m = choose|m: int| 0 <= m < more.len() && more[m] == result[i];
                assert(more[m] is Remove);
                if more[m].name() == dependent {
                    assert(depends_through(records, result[i].name(), target, 1));
                } else {
                    let steps = choose|steps: nat|
                        depends_through(records, more[m].name(), dependent, steps);
                    lemma_depends_through_dependent(
                        records,
                        more[m].name(),
                        dependent,
                        target,
                        steps,
                    );
                    assert(depends_through(records, result[i].name(), target, steps + 1));
                }
            }
            if result[i].name() == target {
                let steps = choose|steps: nat|
                    depends_through(records, result[i].name(), target, steps);
                assert(depends_through(records, target, target, steps));
            }
        }
    }
}

/// Where no package depends on itself, a request to remove one installed
/// package together with what depends on it succeeds. Its actions are all
/// removals; the last removes the package asked for; every other removes a
/// package that depends on it, directly or through others.
///
/// With [`crate::commands::remove_laws::lemma_dependents_removed_first`],
/// which says that everything that depends on a removed package is removed
/// before it, and once, the removed packages are exactly the one asked for
/// and its dependents.
pub proof fn lemma_acyclic_recursive_removal(records: Seq<LocalPackageView>, name: Seq<char>)
    requires
        acyclic(records),
        records.len() < usize::MAX,
        has_record(records, name),
    ensures
        remove_all(records, Seq::empty(), seq![name], true, Seq::empty()) is Ok,
        remove_all(records, Seq::empty(), seq![name], true, Seq::empty())->Ok_0.len() > 0,
        remove_all(records, Seq::empty(), seq![name], true, Seq::empty())->Ok_0.last()
            == ActionView::Remove(find_record(records, name)->Some_0),
        removes_dependents_of(
            records,
            remove_all(records, Seq::empty(), seq![name], true, Seq::empty())->Ok_0,
            name,
        ),
        distinct_keys(remove_all(records, Seq::empty(), seq![name], true, Seq::empty())->Ok_0),
{
    let path = Seq::<Seq<char>>::empty();
    let names = seq![name];
    assert(names.drop_last() =~= Seq::<Seq<char>>::empty());
    assert(names.last() == name);
    lemma_acyclic_remove_one(records, path, name);
    crate::commands::remove_laws::lemma_remove_one_dependents_first(records, path, name, true);
    let more = remove_one(records, path, name, true)->Ok_0;
    lemma_merge_from_nothing(more);
    assert(remove_all(records, path, names.drop_last(), true, Seq::empty()) == Ok::<
        Seq<ActionView>,
        RemoveFailure,
    >(Seq::empty()));
}

/// Merging actions of distinct keys into none gives those actions.
proof fn lemma_merge_from_nothing(more: Seq<ActionView>)
    requires
        distinct_keys(more),
    ensures
        merge_actions(Seq::empty(), more) == more,
    decreases more.len(),
{
    if more.len() > 0 {
        let shorter = more.drop_last();
        assert forall|i: int, j: int|
            0 <= i < shorter.len() && 0 <= j < shorter.len() && i != j implies
            #[trigger] shorter[i].key() != #[trigger] shorter[j].key() by {
            assert(more[i].key() != more[j].key());
        }
        lemma_merge_from_nothing(shorter);
        lemma_add_action(shorter, more.last());
        assert(!has_key(shorter, more.last().key())) by {
            if has_key(shorter, more.last().key()) {
                let i = choose|i: int|
                    0 <= i < shorter.len() && #[trigger] shorter[i].key() == more.last().key();
                assert(more[i].key() == more[more.len() - 1].key());
            }
        }
        assert(shorter.push(more.last()) =~= more);
    }
}

/// Whether `dependent` depends on `name`, directly or through others.
pub open spec fn depends_somehow(
    records: Seq<LocalPackageView>,
    dependent: Seq<char>,
    name: Seq<char>,
) -> bool {
    exists|steps: nat| depends_through(records, dependent, name, steps)
}

/// Whether `names` holds, each once, exactly the packages that depend on
/// `name`, directly or through others.
pub open spec fn holds_dependents_of(
    records: Seq<LocalPackageView>,
    names: Seq<Seq<char>>,
    name: Seq<char>,
) -> bool {
    &&& names.no_duplicates()
    &&& forall|dependent: Seq<char>| #[trigger]
        names.contains(dependent) <==> depends_somehow(records, dependent, name)
}

/// Whether `names` holds, each once, exactly the first `count` direct
/// dependents of `name` and the packages that depend on them.
pub open spec fn holds_dependents_of_first(
    records: Seq<LocalPackageView>,
    names: Seq<Seq<char>>,
    name: Seq<char>,
    count: int,
) -> bool {
    &&& names.no_duplicates()
    &&& forall|dependent: Seq<char>| #[trigger]
        names.contains(dependent) <==> exists|j: int|
            0 <= j < count && (#[trigger] direct_dependents(records, name)[j] == dependent
                || depends_somehow(records, dependent, direct_dependents(records, name)[j]))
}

/// A name among the direct dependents of a package is that of an installed
/// package which lists it.
proof fn lemma_direct_dependent(records: Seq<LocalPackageView>, name: Seq<char>, j: int)
    requires
        0 <= j < direct_dependents(records, name).len(),
    ensures
        dependent_names(records, name).contains(direct_dependents(records, name)[j]),
        has_record(records, direct_dependents(records, name)[j]),
        depends_through(records, direct_dependents(records, name)[j], name, 1),
{
    let direct = direct_dependents(records, name);
    lemma_extend_unique(Seq::<Seq<char>>::empty(), direct);
    assert(direct.contains(direct[j]));
    lemma_depends_directly(records, direct[j], name);
}

/// Where no package depends on itself, the walk over everything that
/// depends on a package comes to an end and gives exactly the packages that
/// depend on it, each once.
pub proof fn lemma_acyclic_all_dependents(
    records: Seq<LocalPackageView>,
    path: Seq<Seq<char>>,
    name: Seq<char>,
)
    requires
        acyclic(records),
        records.len() < usize::MAX,
        path.no_duplicates(),
        forall|i: int| 0 < i < path.len() ==> has_record(records, #[trigger] path[i]),
        path.len() > 0 ==> has_record(records, name),
        reaches_all(records, path, name),
    ensures
        all_dependents(records, path, name) is Ok,
        holds_dependents_of(records, all_dependents(records, path, name)->Ok_0, name),
    decreases usize::MAX - path.len(), 0nat,
{
    let direct = direct_dependents(records, name);
    if direct.len() == 0 {
        let none = Seq::<Seq<char>>::empty();
        assert forall|dependent: Seq<char>| #[trigger]
            none.contains(dependent) <==> depends_somehow(records, dependent, name) by {
            if depends_somehow(records, dependent, name) {
                let steps = choose|steps: nat| depends_through(records, dependent, name, steps);
                let k = choose|k: int|
                    0 <= k < records.len() && depends_on(#[trigger] records[k], name) && (
                    records[k].package_data.name == dependent || depends_through(
                        records,
                        dependent,
                        records[k].package_data.name,
                        (steps - 1) as nat,
                    ));
                lemma_dependent_names(records, name);
                assert(dependent_names(records, name).contains(records[k].package_data.name));
            }
        }
    } else {
        assert(!path.contains(name)) by {
            if path.contains(name) {
                let i = choose|i: int| 0 <= i < path.len() && path[i] == name;
                assert(depends_through(records, name, path[i], (path.len() - i) as nat));
            }
        }
        if path.len() > 0 {
            let installed = path.drop_first().push(name);
            assert(installed.no_duplicates()) by {
                assert forall|i: int, j: int|
                    0 <= i < installed.len() && 0 <= j < installed.len() && i != j implies
                    installed[i] != installed[j] by {
                    if i < installed.len() - 1 {
                        assert(installed[i] == path[i + 1]);
                    }
                    if j < installed.len() - 1 {
                        assert(installed[j] == path[j + 1]);
                    }
                }
            }
            assert forall|i: int| 0 <= i < installed.len() implies has_record(
                records,
                #[trigger] installed[i],
            ) by {
                if i < installed.len() - 1 {
                    assert(installed[i] == path[i + 1]);
                }
            }
            lemma_names_fit(records, installed);
        }
        let below = path.push(name);
        assert(below.drop_last() =~= path);
        assert forall|i: int| 0 < i < below.len() implies has_record(
            records,
            #[trigger] below[i],
        ) by {
            if i < path.len() {
                assert(below[i] == path[i]);
            }
        }
        lemma_acyclic_all_dependents_each(records, below, direct.len() as int);
        assert(direct.take(direct.len() as int) =~= direct);
        let found = all_dependents_each(records, below, direct, Seq::empty())->Ok_0;
        assert forall|dependent: Seq<char>| #[trigger]
            found.contains(dependent) <==> depends_somehow(records, dependent, name) by {
            if found.contains(dependent) {
                let j = choose|j: int|
                    0 <= j < direct.len() && (#[trigger] direct[j] == dependent
                        || depends_somehow(records, dependent, direct[j]));
                lemma_direct_dependent(records, name, j);
                if direct[j] != dependent {
                    let steps = choose|steps: nat|
                        depends_through(records, dependent, direct[j], steps);
                    lemma_depends_through_dependent(records, dependent, direct[j], name, steps);
                }
            }
            if depends_somehow(records, dependent, name) {
                let steps = choose|steps: nat| depends_through(records, dependent, name, steps);
                let k = choose|k: int|
                    0 <= k < records.len() && depends_on(#[trigger] records[k], name) && (
                    records[k].package_data.name == dependent || depends_through(
                        records,
                        dependent,
                        records[k].package_data.name,
                        (steps - 1) as nat,
                    ));
                let lists = |record: LocalPackageView| depends_on(record, name);
                records.lemma_filter_contains(lists, k);
                let depending = records.filter(lists);
                let j = choose|j: int| 0 <= j < depending.len() && depending[j] == records[k];
                assert(direct[j] == records[k].package_data.name);
                if direct[j] != dependent {
                    assert(depends_somehow(records, dependent, direct[j]));
                }
            }
        }
    }
}

/// Where no package depends on itself, the walk over the first `count`
/// direct dependents of the last package of the path, and over what depends
/// on them, comes to an end and gives exactly those packages, each once.
pub proof fn lemma_acyclic_all_dependents_each(
    records: Seq<LocalPackageView>,
    path: Seq<Seq<char>>,
    count: int,
)
    requires
        acyclic(records),
        records.len() < usize::MAX,
        path.len() > 0,
        path.no_duplicates(),
        forall|i: int| 0 < i < path.len() ==> has_record(records, #[trigger] path[i]),
        reaches_all(records, path.drop_last(), path.last()),
        0 <= count <= direct_dependents(records, path.last()).len(),
    ensures
        all_dependents_each(
            records,
            path,
            direct_dependents(records, path.last()).take(count),
            Seq::empty(),
        ) is Ok,
        holds_dependents_of_first(
            records,
            all_dependents_each(
                records,
                path,
                direct_dependents(records, path.last()).take(count),
                Seq::empty(),
            )->Ok_0,
            path.last(),
            count,
        ),
    decreases usize::MAX - path.len(), 1 + count,
{
    let target = path.last();
    let direct = direct_dependents(records, target);
    let names = direct.take(count);
    if count > 0 {
        let shorter = direct.take(count - 1);
        assert(names.drop_last() =~= shorter);
        let dependent = direct[count - 1];
        assert(names.last() == dependent);
        lemma_acyclic_all_dependents_each(records, path, count - 1);
        lemma_direct_dependent(records, target, count - 1);
        assert(reaches_all(records, path, dependent)) by {
            let before = path.drop_last();
            assert forall|i: int| 0 <= i < path.len() implies depends_through(
                records,
                dependent,
                #[trigger] path[i],
                (path.len() - i) as nat,
            ) by {
                if i < path.len() - 1 {
                    assert(before[i] == path[i]);
                    assert(depends_through(
                        records,
                        target,
                        before[i],
                        (before.len() - i) as nat,
                    ));
                    lemma_depends_one_further(
                        records,
                        dependent,
                        target,
                        path[i],
                        (before.len() - i) as nat,
                    );
                } else {
                    assert(path[i] == target);
                }
            }
        }
        lemma_acyclic_all_dependents(records, path, dependent);
        let found = all_dependents_each(records, path, shorter, Seq::empty())->Ok_0;
        let deeper = all_dependents(records, path, dependent)->Ok_0;
        lemma_extend_unique(found, deeper);
        let both = extend_unique(found, deeper);
        lemma_insert_unique_no_duplicates(both, dependent);
        let result = insert_unique(both, dependent);
        assert forall|other: Seq<char>| #[trigger]
            result.contains(other) <==> exists|j: int|
                0 <= j < count && (#[trigger] direct[j] == other || depends_somehow(
                    records,
                    other,
                    direct[j],
                )) by {
            if result.contains(other) {
                if found.contains(other) {
                    let j = choose|j: int|
                        0 <= j < count - 1 && (#[trigger] direct[j] == other || depends_somehow(
                            records,
                            other,
                            direct[j],
                        ));
                    assert(0 <= j < count && (direct[j] == other || depends_somehow(
                        records,
                        other,
                        direct[j],
                    )));
                } else {
                    assert(deeper.contains(other) || other == dependent);
                    assert(direct[count - 1] == other || depends_somehow(
                        records,
                        other,
                        direct[count - 1],
                    ));
                }
            }
            if exists|j: int|
                0 <= j < count && (#[trigger] direct[j] == other || depends_somehow(
                    records,
                    other,
                    direct[j],
                )) {
                let j = choose|j: int|
                    0 <= j < count && (#[trigger] direct[j] == other || depends_somehow(
                        records,
                        other,
                        direct[j],
                    ));
                if j < count - 1 {
                    assert(found.contains(other));
                    assert(both.contains(other));
                } else if direct[j] != other {
                    assert(deeper.contains(other));
                    assert(both.contains(other));
                }
            }
        }
    } else {
        let none = Seq::<Seq<char>>::empty();
        assert(names =~= none);
    }
}

/// Where no package depends on itself, the names that an update looks at
/// can be found for every request.
pub proof fn lemma_acyclic_update_targets(records: Seq<LocalPackageView>, names: Seq<Seq<char>>)
    requires
        acyclic(records),
        records.len() < usize::MAX,
    ensures
        update_targets(records, names) is Ok,
    decreases names.len(),
{
    if names.len() > 0 {
        lemma_acyclic_update_targets(records, names.drop_last());
        lemma_acyclic_all_dependents(records, Seq::empty(), names.last());
    }
}

} // verus!
