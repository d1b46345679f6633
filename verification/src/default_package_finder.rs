//! The bookkeeping of the default lookup service: where it looks for
//! packages, and what it has found already.
//!
//! Reading files and asking remotes is the caller's work; see
//! [`crate::package_finder::search`] for the order in which remotes are
//! asked.

use crate::config::{Config, RemoteView};
use crate::package::{RemotePackage, RemotePackageView};
use vstd::prelude::*;

verus! {

/// A description that was found, under the name that was asked for.
#[derive(Debug)]
pub struct CachedPackage {
    pub name: String,
    pub package: RemotePackage,
}

/// Mathematical model of a [`CachedPackage`].
pub struct CachedPackageView {
    pub name: Seq<char>,
    pub package: RemotePackageView,
}

impl View for CachedPackage {
    type V = CachedPackageView;

    open spec fn view(&self) -> CachedPackageView {
        CachedPackageView { name: self.name@, package: self.package@ }
    }
}

impl DeepView for CachedPackage {
    type V = CachedPackageView;

    open spec fn deep_view(&self) -> CachedPackageView {
        self@
    }
}

/// Mathematical model of a [`DefaultPackageFinder`].
pub struct DefaultPackageFinderView {
    /// Whether names are paths of files rather than names to ask remotes
    /// for.
    pub from_file: bool,
    /// The addresses of the remotes, in the order in which they are asked.
    pub remotes: Seq<Seq<char>>,
    /// What was found already, oldest first.
    pub search_cache: Seq<CachedPackageView>,
}

/// Whether `i` is the place of the first cached description under `name`.
pub open spec fn is_first_cached(cache: Seq<CachedPackageView>, name: Seq<char>, i: int) -> bool {
    &&& 0 <= i < cache.len()
    &&& cache[i].name == name
    &&& forall|j: int| 0 <= j < i ==> (#[trigger] cache[j]).name != name
}

/// Whether a description is cached under `name`.
pub open spec fn is_cached(cache: Seq<CachedPackageView>, name: Seq<char>) -> bool {
    exists|i: int| 0 <= i < cache.len() && (#[trigger] cache[i]).name == name
}

/// Whether no two descriptions are cached under the same name.
pub open spec fn distinct_cached(cache: Seq<CachedPackageView>) -> bool {
    forall|i: int, j: int|
        0 <= i < cache.len() && 0 <= j < cache.len() && i != j ==> (#[trigger] cache[i]).name
            != (#[trigger] cache[j]).name
}

/// The cache after `entry` is kept in it: it takes the place of what was
/// cached under its name, or, where nothing was, goes to the end.
pub open spec fn put_cached(cache: Seq<CachedPackageView>, entry: CachedPackageView) -> Seq<
    CachedPackageView,
> {
    if is_cached(cache, entry.name) {
        cache.update(choose|i: int| is_first_cached(cache, entry.name, i), entry)
    } else {
        cache.push(entry)
    }
}

/// Keeping an entry where the first of its name stands replaces that one.
pub proof fn lemma_put_cached_at(cache: Seq<CachedPackageView>, entry: CachedPackageView, i: int)
    requires
        is_first_cached(cache, entry.name, i),
    ensures
        put_cached(cache, entry) == cache.update(i, entry),
{
    let chosen = choose|k: int| is_first_cached(cache, entry.name, k);
    assert(is_first_cached(cache, entry.name, chosen));
    if chosen < i {
        assert(cache[chosen].name != entry.name);
    }
    if i < chosen {
        assert(cache[i].name != entry.name);
    }
}

/// What is kept under a name is what a later look into the cache finds
/// under that name; what was cached under other names stays as it was; and
/// no name comes to stand twice.
pub proof fn lemma_remembered(cache: Seq<CachedPackageView>, entry: CachedPackageView)
    requires
        distinct_cached(cache),
    ensures
        distinct_cached(put_cached(cache, entry)),
        exists|i: int|
            is_first_cached(put_cached(cache, entry), entry.name, i) && #[trigger] put_cached(
                cache,
                entry,
            )[i] == entry,
        forall|i: int|
            0 <= i < cache.len() && (#[trigger] cache[i]).name != entry.name ==> put_cached(
                cache,
                entry,
            )[i] == cache[i],
{
    let after = put_cached(cache, entry);
    if is_cached(cache, entry.name) {
        let witness = choose|i: int|
            0 <= i < cache.len() && (#[trigger] cache[i]).name == entry.name;
        assert(is_first_cached(cache, entry.name, witness)) by {
            assert forall|j: int| 0 <= j < witness implies (#[trigger] cache[j]).name
                != entry.name by {}
        }
        lemma_put_cached_at(cache, entry, witness);
        assert(after[witness] == entry);
        assert forall|i: int, j: int|
            0 <= i < after.len() && 0 <= j < after.len() && i != j implies
            (#[trigger] after[i]).name
            != (#[trigger] after[j]).name by {
            assert(after[i].name == cache[i].name);
            assert(after[j].name == cache[j].name);
        }
        assert(is_first_cached(after, entry.name, witness)) by {
            assert forall|j: int| 0 <= j < witness implies (#[trigger] after[j]).name
                != entry.name by {
                assert(after[j].name == cache[j].name);
            }
        }
    } else {
        let last = cache.len() as int;
        assert(after[last] == entry);
        assert forall|i: int, j: int|
            0 <= i < after.len() && 0 <= j < after.len() && i != j implies
            (#[trigger] after[i]).name
            != (#[trigger] after[j]).name by {
            if i < cache.len() && j < cache.len() {
                assert(cache[i].name != cache[j].name);
            } else if i < cache.len() {
                assert(cache[i].name != entry.name);
            } else {
                assert(cache[j].name != entry.name);
            }
        }
        assert(is_first_cached(after, entry.name, last)) by {
            assert forall|j: int| 0 <= j < last implies (#[trigger] after[j]).name
                != entry.name by {
                assert(cache[j].name != entry.name);
            }
        }
    }
}

/// Where the default lookup service looks, and what it has found: a map
/// from the names that were asked for to the descriptions that were found,
/// kept as a list in which no name occurs twice.
#[derive(Debug)]
pub struct DefaultPackageFinder {
    from_file: bool,
    remotes: Vec<String>,
    search_cache: Vec<CachedPackage>,
}

impl View for DefaultPackageFinder {
    type V = DefaultPackageFinderView;

    closed spec fn view(&self) -> DefaultPackageFinderView {
        DefaultPackageFinderView {
            from_file: self.from_file,
            remotes: self.remotes.deep_view(),
            search_cache: self.search_cache.deep_view(),
        }
    }
}

impl DefaultPackageFinder {
    /// No two descriptions are cached under the same name.
    pub open spec fn wf(&self) -> bool {
        distinct_cached(self@.search_cache)
    }

    /// A lookup service that has found nothing yet and asks the remotes of
    /// the configuration, in the configuration's order.
    pub fn new(from_file: bool, config: &Config) -> (finder: DefaultPackageFinder)
        ensures
            finder.wf(),
            finder@.from_file == from_file,
            finder@.remotes == config@.map_values(|remote: RemoteView| remote.url),
            finder@.search_cache == Seq::<CachedPackageView>::empty(),
    {
        let finder = DefaultPackageFinder {
            from_file,
            remotes: config.urls(),
            search_cache: Vec::new(),
        };
        assert(finder.search_cache.deep_view() =~= Seq::<CachedPackageView>::empty());
        finder
    }

    /// Whether names are paths of files rather than names to ask remotes
    /// for.
    pub fn from_file(&self) -> (from_file: bool)
        ensures
            from_file == self@.from_file,
    {
        self.from_file
    }

    /// The addresses of the remotes, in the order in which they are asked.
    pub fn remotes(&self) -> (remotes: &Vec<String>)
        ensures
            remotes.deep_view() == self@.remotes,
    {
        &self.remotes
    }

    /// The place of the first description cached under `name`, if there is
    /// one.
    fn place_of(&self, name: &String) -> (place: Option<usize>)
        ensures
            match place {
                Some(i) => is_first_cached(self@.search_cache, name@, i as int),
                None => !is_cached(self@.search_cache, name@),
            },
    {
        let ghost cache = self@.search_cache;
        let mut i: usize = 0;
        while i < self.search_cache.len()
            invariant
                i <= self.search_cache.len(),
                cache == self@.search_cache,
                forall|j: int| 0 <= j < i ==> (#[trigger] cache[j]).name != name@,
            decreases self.search_cache.len() - i,
        {
            assert(cache[i as int] == self.search_cache[i as int]@);
            if self.search_cache[i].name == *name {
                return Some(i);
            }
            i += 1;
        }
        None
    }

    /// The description that is cached under `package_name`, if one is.
    pub fn cached(&self, package_name: &str) -> (found: Option<RemotePackage>)
        ensures
            match found {
                Some(package) => exists|i: int|
                    is_first_cached(self@.search_cache, package_name@, i)
                        && self@.search_cache[i].package == package@,
                None => !is_cached(self@.search_cache, package_name@),
            },
    {
        let wanted = String::from_str(package_name);
        match self.place_of(&wanted) {
            Some(place) => {
                assert(self@.search_cache[place as int] == self.search_cache[place as int]@);
                Some(self.search_cache[place].package.clone())
            },
            None => None,
        }
    }

    /// Keeps `package` as what was found under `package_name`, in the place
    /// of what was cached under that name before.
    pub fn remember(&mut self, package_name: &str, package: &RemotePackage)
        ensures
            old(self).wf() ==> final(self).wf(),
            final(self)@.from_file == old(self)@.from_file,
            final(self)@.remotes == old(self)@.remotes,
            final(self)@.search_cache == put_cached(
                old(self)@.search_cache,
                CachedPackageView { name: package_name@, package: package@ },
            ),
    {
        let ghost before = self@.search_cache;
        let entry = CachedPackage {
            name: String::from_str(package_name),
            package: package.clone(),
        };
        proof {
            if distinct_cached(before) {
                lemma_remembered(before, entry@);
            }
        }
        match self.place_of(&entry.name) {
            Some(place) => {
                proof {
                    lemma_put_cached_at(before, entry@, place as int);
                }
                self.search_cache.set(place, entry);
                assert(self@.search_cache =~= before.update(place as int, entry@));
            },
            None => {
                self.search_cache.push(entry);
                assert(self@.search_cache =~= before.push(entry@));
            },
        }
    }
}

} // verus!
