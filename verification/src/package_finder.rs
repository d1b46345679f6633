//! The lookup service: from a name to the description of a package.

use crate::package::{RemotePackage, RemotePackageView};
use vstd::prelude::*;

pub mod search;

verus! {

/// A source of package descriptions.
///
/// An implementation says through `catalog` which names it knows and what it
/// answers for each, and through `fault_free` whether a lookup can fail for a
/// reason of its own (the network, a file that cannot be read).
pub trait PackageFinder: Sized {
    type Error;

    /// What a lookup gives for each name that the source knows. Where an
    /// implementation does not say, this is some catalog that its state
    /// stands for.
    open spec fn catalog(&self) -> Map<Seq<char>, RemotePackageView> {
        arbitrary::<spec_fn(Self) -> Map<Seq<char>, RemotePackageView>>()(*self)
    }

    /// Whether every lookup comes back with an answer. Where an
    /// implementation does not say, its lookups may fail.
    open spec fn fault_free(&self) -> bool {
        false
    }

    /// How many lookups the source has been asked for. Where an
    /// implementation does not say, this is some number that its state
    /// stands for.
    open spec fn lookups(&self) -> nat {
        arbitrary::<spec_fn(Self) -> nat>()(*self)
    }

    /// The description of the package `package_name`, or `None` where the
    /// source does not know the name.
    fn find_package(&mut self, package_name: &str) -> (result: Result<
        Option<RemotePackage>,
        Self::Error,
    >)
        ensures
            final(self).fault_free() == old(self).fault_free(),
            final(self).catalog() == old(self).catalog(),
            final(self).lookups() == old(self).lookups() + 1,
            old(self).fault_free() ==> result is Ok,
            match result {
                Ok(Some(package)) => old(self).catalog().contains_key(package_name@) && old(
                    self,
                ).catalog()[package_name@] == package@,
                Ok(None) => !old(self).catalog().contains_key(package_name@),
                Err(_) => true,
            },
    ;
}

/// Whether some package of `packages` has the name `name`.
pub open spec fn has_package(packages: Seq<RemotePackageView>, name: Seq<char>) -> bool {
    exists|i: int| 0 <= i < packages.len() && (#[trigger] packages[i]).package_data.name == name
}

/// Whether `i` is the place of the first package named `name`.
pub open spec fn is_first_package(
    packages: Seq<RemotePackageView>,
    name: Seq<char>,
    i: int,
) -> bool {
    &&& 0 <= i < packages.len()
    &&& packages[i].package_data.name == name
    &&& forall|j: int| 0 <= j < i ==> (#[trigger] packages[j]).package_data.name != name
}

/// The catalog that a list of packages stands for: each name leads to the
/// first package that carries it.
pub open spec fn catalog_of(packages: Seq<RemotePackageView>) -> Map<Seq<char>, RemotePackageView> {
    Map::new(
        |name: Seq<char>| has_package(packages, name),
        |name: Seq<char>| packages[choose|i: int| is_first_package(packages, name, i)],
    )
}

/// A place that holds a package named `name`, with none of that name before
/// it, is where the catalog's answer for `name` comes from.
pub proof fn lemma_catalog_entry(packages: Seq<RemotePackageView>, name: Seq<char>, i: int)
    requires
        is_first_package(packages, name, i),
    ensures
        catalog_of(packages).contains_key(name),
        catalog_of(packages)[name] == packages[i],
{
    let chosen = choose|k: int| is_first_package(packages, name, k);
    assert(is_first_package(packages, name, chosen));
    if chosen < i {
        assert(packages[chosen].package_data.name != name);
    }
    if i < chosen {
        assert(packages[i].package_data.name != name);
    }
}

/// Every name of a catalog made from a list leads to a package of that
/// name: a finder that answers from memory answers each name with a package
/// that carries it.
pub proof fn lemma_catalog_of_names(packages: Seq<RemotePackageView>, name: Seq<char>)
    requires
        catalog_of(packages).contains_key(name),
    ensures
        catalog_of(packages)[name].package_data.name == name,
{
    let witness = choose|i: int|
        0 <= i < packages.len() && (#[trigger] packages[i]).package_data.name == name;
    lemma_first_package_exists(packages, name, witness);
    let first = choose|k: int| is_first_package(packages, name, k);
    lemma_catalog_entry(packages, name, first);
}

/// Where some package has the name, one of them is the first.
pub proof fn lemma_first_package_exists(
    packages: Seq<RemotePackageView>,
    name: Seq<char>,
    witness: int,
)
    requires
        0 <= witness < packages.len(),
        packages[witness].package_data.name == name,
    ensures
        exists|k: int| is_first_package(packages, name, k),
    decreases witness,
{
    if exists|j: int| 0 <= j < witness && (#[trigger] packages[j]).package_data.name == name {
        let j = choose|j: int|
            0 <= j < witness && (#[trigger] packages[j]).package_data.name == name;
        lemma_first_package_exists(packages, name, j);
    } else {
        assert(is_first_package(packages, name, witness));
    }
}

/// A lookup service that answers from a list of packages held in memory. It
/// never fails; a name that several packages carry leads to the first.
pub struct MemoryPackageFinder {
    packages: Vec<RemotePackage>,
    lookups: Ghost<nat>,
}

impl MemoryPackageFinder {
    /// A finder that knows the packages of `packages`, each under its name.
    pub fn new(packages: Vec<RemotePackage>) -> (finder: MemoryPackageFinder)
        ensures
            finder.catalog() == catalog_of(packages.deep_view()),
            finder.fault_free(),
            finder.lookups() == 0,
    {
        MemoryPackageFinder { packages, lookups: Ghost(0) }
    }
}

impl PackageFinder for MemoryPackageFinder {
    type Error = String;

    closed spec fn catalog(&self) -> Map<Seq<char>, RemotePackageView> {
        catalog_of(self.packages.deep_view())
    }

    closed spec fn fault_free(&self) -> bool {
        true
    }

    closed spec fn lookups(&self) -> nat {
        self.lookups@
    }

    fn find_package(&mut self, package_name: &str) -> (result: Result<
        Option<RemotePackage>,
        String,
    >) {
        proof {
            self.lookups@ = self.lookups@ + 1;
        }
        let wanted = String::from_str(package_name);
        let ghost packages = self.packages.deep_view();
        let mut i: usize = 0;
        while i < self.packages.len()
            invariant
                i <= self.packages.len(),
                packages == self.packages.deep_view(),
                packages == old(self).packages.deep_view(),
                self.lookups@ == old(self).lookups@ + 1,
                wanted@ == package_name@,
                forall|j: int| 0 <= j < i ==> (#[trigger] packages[j]).package_data.name
                    != package_name@,
            decreases self.packages.len() - i,
        {
            if self.packages[i].package_data.name == wanted {
                let found = self.packages[i].clone();
                proof {
                    assert(packages[i as int] == self.packages[i as int]@);
                    lemma_catalog_entry(packages, package_name@, i as int);
                }
                return Ok(Some(found));
            }
            assert(packages[i as int] == self.packages[i as int]@);
            i += 1;
        }
        Ok(None)
    }
}

} // verus!
