//! The store of installed packages, as the resolver and the commit step see
//! it: a list of records, oldest first, read and changed by name.

use crate::package::{LocalPackage, LocalPackageView, RemotePackage};
use vstd::prelude::*;

verus! {

/// Whether some record has the name `name`.
pub open spec fn has_record(records: Seq<LocalPackageView>, name: Seq<char>) -> bool {
    exists|i: int| 0 <= i < records.len() && (#[trigger] records[i]).package_data.name == name
}

/// Whether `i` is the place of the first record named `name`.
pub open spec fn is_first_record(records: Seq<LocalPackageView>, name: Seq<char>, i: int) -> bool {
    &&& 0 <= i < records.len()
    &&& records[i].package_data.name == name
    &&& forall|j: int| 0 <= j < i ==> (#[trigger] records[j]).package_data.name != name
}

/// The place of the first record named `name`, where there is one.
pub open spec fn first_record(records: Seq<LocalPackageView>, name: Seq<char>) -> int {
    choose|i: int| is_first_record(records, name, i)
}

/// The record that a lookup of `name` gives: the first one of that name.
pub open spec fn find_record(records: Seq<LocalPackageView>, name: Seq<char>) -> Option<
    LocalPackageView,
> {
    if has_record(records, name) {
        Some(records[first_record(records, name)])
    } else {
        None
    }
}

/// The records without the first one named `name`; all of them where none
/// has that name.
pub open spec fn remove_record(records: Seq<LocalPackageView>, name: Seq<char>) -> Seq<
    LocalPackageView,
> {
    if has_record(records, name) {
        records.remove(first_record(records, name))
    } else {
        records
    }
}

/// Whether `record` lists `name` among its dependencies.
pub open spec fn depends_on(record: LocalPackageView, name: Seq<char>) -> bool {
    record.dependencies.contains(name)
}

/// The records that list `name` as a dependency, in the store's order.
pub open spec fn dependents_of(records: Seq<LocalPackageView>, name: Seq<char>) -> Seq<
    LocalPackageView,
> {
    records.filter(|record: LocalPackageView| depends_on(record, name))
}

/// The names of a sequence of records, in order.
pub open spec fn record_names(records: Seq<LocalPackageView>) -> Seq<Seq<char>> {
    records.map_values(|record: LocalPackageView| record.package_data.name)
}

/// A place that holds a record named `name`, with none of that name before
/// it, is the place of the first such record.
pub proof fn lemma_first_record(records: Seq<LocalPackageView>, name: Seq<char>, i: int)
    requires
        is_first_record(records, name, i),
    ensures
        has_record(records, name),
        first_record(records, name) == i,
        find_record(records, name) == Some(records[i]),
{
    let chosen = first_record(records, name);
    assert(is_first_record(records, name, chosen));
    if chosen < i {
        assert(records[chosen].package_data.name != name);
    }
    if i < chosen {
        assert(records[i].package_data.name != name);
    }
}

/// Where some record has the name, one of them is the first.
pub proof fn lemma_first_record_exists(records: Seq<LocalPackageView>, name: Seq<char>)
    requires
        has_record(records, name),
    ensures
        is_first_record(records, name, first_record(records, name)),
    decreases records.len(),
{
    let witness = choose|i: int|
        0 <= i < records.len() && (#[trigger] records[i]).package_data.name == name;
    if exists|j: int| 0 <= j < witness && (#[trigger] records[j]).package_data.name == name {
        let shorter = records.take(witness);
        let j = choose|j: int|
            0 <= j < witness && (#[trigger] records[j]).package_data.name == name;
        assert(shorter[j].package_data.name == name);
        lemma_first_record_exists(shorter, name);
        let first = first_record(shorter, name);
        assert(records[first] == shorter[first]);
        assert forall|k: int| 0 <= k < first implies (#[trigger] records[k]).package_data.name
            != name by {
            assert(shorter[k].package_data.name != name);
        }
        assert(is_first_record(records, name, first));
    } else {
        assert(is_first_record(records, name, witness));
    }
}

/// A store of installed packages.
///
/// An implementation says through `records` which packages it holds, and
/// through `fault_free` whether its calls can fail for a reason of its own
/// (a broken connection, a record that cannot be read).
pub trait PackagesDb: Sized {
    type AddError;

    type RemoveError;

    type GetError;

    /// The installed records, oldest first. Where an implementation does
    /// not say, they are some list that its state stands for.
    open spec fn records(&self) -> Seq<LocalPackageView> {
        arbitrary::<spec_fn(Self) -> Seq<LocalPackageView>>()(*self)
    }

    /// Whether every call succeeds that the store's contents allow. Where
    /// an implementation does not say, its calls may fail.
    open spec fn fault_free(&self) -> bool {
        false
    }

    /// How many times the store has been asked for records. Where an
    /// implementation does not say, this is some number that its state
    /// stands for.
    open spec fn reads(&self) -> nat {
        arbitrary::<spec_fn(Self) -> nat>()(*self)
    }

    /// Records `package` as installed, after the records already there.
    fn add_package(&mut self, package: &RemotePackage) -> (result: Result<(), Self::AddError>)
        ensures
            final(self).fault_free() == old(self).fault_free(),
            final(self).reads() == old(self).reads(),
            old(self).fault_free() ==> result is Ok,
            result is Ok ==> final(self).records() == old(self).records().push(
                package@.to_local(),
            ),
            result is Err ==> final(self).records() == old(self).records(),
    ;

    /// Deletes the record named `package_name`. A store may refuse a name
    /// that it does not hold.
    fn remove_package(&mut self, package_name: &str) -> (result: Result<(), Self::RemoveError>)
        ensures
            final(self).fault_free() == old(self).fault_free(),
            final(self).reads() == old(self).reads(),
            old(self).fault_free() && has_record(old(self).records(), package_name@)
                ==> result is Ok,
            result is Ok ==> final(self).records() == remove_record(
                old(self).records(),
                package_name@,
            ),
            result is Err ==> final(self).records() == old(self).records(),
    ;

    /// The record named `package_name`, if the store holds one.
    fn get_package(&mut self, package_name: &str) -> (result: Result<
        Option<LocalPackage>,
        Self::GetError,
    >)
        ensures
            final(self).fault_free() == old(self).fault_free(),
            final(self).records() == old(self).records(),
            final(self).reads() == old(self).reads() + 1,
            old(self).fault_free() ==> result is Ok,
            match result {
                Ok(Some(package)) => find_record(old(self).records(), package_name@) == Some(
                    package@,
                ),
                Ok(None) => find_record(old(self).records(), package_name@) is None,
                Err(_) => true,
            },
    ;

    /// Every record, oldest first.
    fn get_all_packages(&mut self) -> (result: Result<Vec<LocalPackage>, Self::GetError>)
        ensures
            final(self).fault_free() == old(self).fault_free(),
            final(self).records() == old(self).records(),
            final(self).reads() == old(self).reads() + 1,
            old(self).fault_free() ==> result is Ok,
            result matches Ok(packages) ==> packages.deep_view() == old(self).records(),
    ;

    /// The records that list `package_name` as a dependency: its direct
    /// dependents, in the store's order.
    fn get_depending_packages(&mut self, package_name: &str) -> (result: Result<
        Vec<LocalPackage>,
        Self::GetError,
    >)
        ensures
            final(self).fault_free() == old(self).fault_free(),
            final(self).records() == old(self).records(),
            final(self).reads() == old(self).reads() + 1,
            old(self).fault_free() ==> result is Ok,
            result matches Ok(packages) ==> packages.deep_view() == dependents_of(
                old(self).records(),
                package_name@,
            ),
    ;
}

/// Whether `names` holds the text of `name`.
pub fn contains_name(names: &Vec<String>, name: &String) -> (found: bool)
    ensures
        found == names.deep_view().contains(name@),
{
    let mut i: usize = 0;
    while i < names.len()
        invariant
            i <= names.len(),
            forall|j: int| 0 <= j < i ==> names.deep_view()[j] != name@,
        decreases names.len() - i,
    {
        if names[i] == *name {
            assert(names.deep_view()[i as int] == name@);
            return true;
        }
        i += 1;
    }
    false
}

} // verus!
