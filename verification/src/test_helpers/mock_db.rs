//! A store of installed packages that lives in a vector.

use crate::db::{
    contains_name, depends_on, has_record, is_first_record, lemma_first_record, PackagesDb,
};
use crate::package::{LocalPackage, LocalPackageView, RemotePackage};
use crate::test_helpers::errors::StringError;
use vstd::prelude::*;

verus! {

/// A store that keeps its records in memory, in the order in which they
/// were added. It takes a second record under a name that it holds already;
/// lookups and removals then reach the older one.
pub struct MockPackagesDb {
    installed_packges: Vec<LocalPackage>,
    reads: Ghost<nat>,
}

impl View for MockPackagesDb {
    type V = Seq<LocalPackageView>;

    closed spec fn view(&self) -> Seq<LocalPackageView> {
        self.installed_packges.deep_view()
    }
}

impl MockPackagesDb {
    /// A store without records.
    pub fn new() -> (db: MockPackagesDb)
        ensures
            db.records() == Seq::<LocalPackageView>::empty(),
            db.fault_free(),
            db.reads() == 0,
    {
        let db = MockPackagesDb { installed_packges: Vec::new(), reads: Ghost(0) };
        assert(db.installed_packges.deep_view() =~= Seq::<LocalPackageView>::empty());
        db
    }

    /// The place of the first record named `name`, if there is one.
    fn position(&self, name: &str) -> (place: Option<usize>)
        ensures
            match place {
                Some(i) => is_first_record(self@, name@, i as int),
                None => !has_record(self@, name@),
            },
    {
        let wanted = String::from_str(name);
        let ghost records = self@;
        let mut i: usize = 0;
        while i < self.installed_packges.len()
            invariant
                i <= self.installed_packges.len(),
                records == self.installed_packges.deep_view(),
                wanted@ == name@,
                forall|j: int| 0 <= j < i ==> (#[trigger] records[j]).package_data.name != name@,
            decreases self.installed_packges.len() - i,
        {
            assert(records[i as int] == self.installed_packges[i as int]@);
            if self.installed_packges[i].package_data.name == wanted {
                return Some(i);
            }
            i += 1;
        }
        None
    }
}

impl PackagesDb for MockPackagesDb {
    type AddError = StringError;

    type RemoveError = StringError;

    type GetError = StringError;

    closed spec fn records(&self) -> Seq<LocalPackageView> {
        self@
    }

    closed spec fn fault_free(&self) -> bool {
        true
    }

    closed spec fn reads(&self) -> nat {
        self.reads@
    }

    fn add_package(&mut self, package: &RemotePackage) -> (result: Result<(), StringError>) {
        let ghost before = self@;
        let local = package.to_local();
        self.installed_packges.push(local);
        assert(self@ =~= before.push(package@.to_local()));
        Ok(())
    }

    fn remove_package(&mut self, package_name: &str) -> (result: Result<(), StringError>)
        ensures
            result is Ok <==> has_record(old(self).records(), package_name@),
    {
        let ghost before = self@;
        match self.position(package_name) {
            Some(index) => {
                proof {
                    lemma_first_record(before, package_name@, index as int);
                }
                let _ = self.installed_packges.remove(index);
                assert(self@ =~= before.remove(index as int));
                Ok(())
            },
            None => Err(StringError(String::from_str("Package not found"))),
        }
    }

    fn get_package(&mut self, package_name: &str) -> (result: Result<
        Option<LocalPackage>,
        StringError,
    >) {
        proof {
            self.reads@ = self.reads@ + 1;
        }
        match self.position(package_name) {
            Some(index) => {
                proof {
                    lemma_first_record(self@, package_name@, index as int);
                }
                Ok(Some(self.installed_packges[index].clone()))
            },
            None => Ok(None),
        }
    }

    fn get_all_packages(&mut self) -> (result: Result<Vec<LocalPackage>, StringError>) {
        proof {
            self.reads@ = self.reads@ + 1;
        }
        let mut all: Vec<LocalPackage> = Vec::new();
        let mut i: usize = 0;
        while i < self.installed_packges.len()
            invariant
                i <= self.installed_packges.len(),
                self@ == old(self)@,
                self.reads@ == old(self).reads@ + 1,
                all.deep_view() == self@.take(i as int),
            decreases self.installed_packges.len() - i,
        {
            let ghost seen = all.deep_view();
            let copy = self.installed_packges[i].clone();
            all.push(copy);
            assert(all.deep_view() =~= seen.push(self@[i as int]));
            assert(self@.take(i + 1) =~= self@.take(i as int).push(self@[i as int]));
            i += 1;
        }
        assert(self@.take(i as int) =~= self@);
        Ok(all)
    }

    fn get_depending_packages(&mut self, package_name: &str) -> (result: Result<
        Vec<LocalPackage>,
        StringError,
    >) {
        proof {
            self.reads@ = self.reads@ + 1;
        }
        let wanted = String::from_str(package_name);
        let ghost records = self@;
        let ghost lists = |record: LocalPackageView| depends_on(record, package_name@);
        let mut depending: Vec<LocalPackage> = Vec::new();
        let mut i: usize = 0;
        while i < self.installed_packges.len()
            invariant
                i <= self.installed_packges.len(),
                records == self@,
                records == old(self)@,
                self.reads@ == old(self).reads@ + 1,
                wanted@ == package_name@,
                lists == |record: LocalPackageView| depends_on(record, package_name@),
                depending.deep_view() == records.take(i as int).filter(lists),
            decreases self.installed_packges.len() - i,
        {
            let ghost seen = depending.deep_view();
            assert(records.take(i + 1).drop_last() =~= records.take(i as int));
            assert(records.take(i + 1).last() == self.installed_packges[i as int]@);
            reveal(Seq::filter);
            if contains_name(&self.installed_packges[i].dependencies, &wanted) {
                depending.push(self.installed_packges[i].clone());
                assert(depending.deep_view() =~= seen.push(records[i as int]));
            }
            i += 1;
        }
        assert(records.take(i as int) =~= records);
        Ok(depending)
    }
}

} // verus!
