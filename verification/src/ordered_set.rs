//! An insertion-ordered set of names, kept in a `linked_hash_map::LinkedHashMap`
//! with unit values. A name that is already present keeps its place.

use linked_hash_map::LinkedHashMap;
use vstd::prelude::*;

verus! {

/// `linked_hash_map::LinkedHashMap`, as the crate defines it. Nothing is
/// known of what is inside one but what the functions below say.
#[verifier::external_type_specification]
#[verifier::external_body]
#[verifier::reject_recursive_types(K)]
#[verifier::reject_recursive_types(V)]
#[verifier::reject_recursive_types(S)]
pub struct ExLinkedHashMap<K, V, S>(LinkedHashMap<K, V, S>);

/// The keys of a linked hash map of names, in the order in which the map
/// hands them out when it is walked from front to back.
pub uninterp spec fn ordered_keys(map: LinkedHashMap<String, ()>) -> Seq<Seq<char>>;

/// `LinkedHashMap::new`: a map without keys.
#[verifier::external_body]
fn linked_new() -> (map: LinkedHashMap<String, ()>)
    ensures
        ordered_keys(map) == Seq::<Seq<char>>::empty(),
{
    LinkedHashMap::new()
}

/// `LinkedHashMap::contains_key`: whether some key of the map has the text
/// of `name`.
#[verifier::external_body]
fn linked_contains_key(map: &LinkedHashMap<String, ()>, name: &str) -> (found: bool)
    ensures
        found == ordered_keys(*map).contains(name@),
{
    map.contains_key(name)
}

/// `LinkedHashMap::insert`: a key that the map does not hold yet goes to the
/// back; a key that it holds already is taken from its place and put at the
/// back. No key occurs twice afterwards. The result is the value that the key
/// had, if it was there.
#[verifier::external_body]
fn linked_insert(map: &mut LinkedHashMap<String, ()>, name: String) -> (previous: Option<()>)
    ensures
        previous is Some <==> ordered_keys(*old(map)).contains(name@),
        ordered_keys(*final(map)) == ordered_keys(*old(map)).remove_value(name@).push(name@),
        ordered_keys(*final(map)).no_duplicates(),
{
    map.insert(name, ())
}

/// `LinkedHashMap::keys`: the keys from front to back, each copied.
#[verifier::external_body]
fn linked_keys(map: &LinkedHashMap<String, ()>) -> (names: Vec<String>)
    ensures
        names.deep_view() == ordered_keys(*map),
{
    map.keys().cloned().collect()
}

/// What a duplicate-free sequence becomes when `item` is added to it: an item
/// that is there already changes nothing, a new one goes to the end.
pub open spec fn insert_unique<T>(items: Seq<T>, item: T) -> Seq<T> {
    if items.contains(item) {
        items
    } else {
        items.push(item)
    }
}

/// What a duplicate-free sequence becomes when the items of `more` are added
/// to it one after the other.
pub open spec fn extend_unique<T>(items: Seq<T>, more: Seq<T>) -> Seq<T>
    decreases more.len(),
{
    if more.len() == 0 {
        items
    } else {
        insert_unique(extend_unique(items, more.drop_last()), more.last())
    }
}

/// Adding an item keeps a sequence free of duplicates.
pub proof fn lemma_insert_unique_no_duplicates<T>(items: Seq<T>, item: T)
    requires
        items.no_duplicates(),
    ensures
        insert_unique(items, item).no_duplicates(),
        insert_unique(items, item).contains(item),
        forall|other: T| items.contains(other) ==> insert_unique(items, item).contains(other),
        forall|other: T| #[trigger]
            insert_unique(items, item).contains(other) ==> items.contains(other) || other == item,
        forall|i: int| 0 <= i < items.len() ==> insert_unique(items, item)[i] == items[i],
        items.len() <= insert_unique(items, item).len() <= items.len() + 1,
{
    let result = insert_unique(items, item);
    if !items.contains(item) {
        assert(result[items.len() as int] == item);
        assert forall|other: T| items.contains(other) implies result.contains(other) by {
            let i = choose|i: int| 0 <= i < items.len() && items[i] == other;
            assert(result[i] == other);
        }
        assert forall|other: T| #[trigger] result.contains(other) implies items.contains(other)
            || other == item by {
            let i = choose|i: int| 0 <= i < result.len() && result[i] == other;
            if i < items.len() {
                assert(items[i] == other);
            }
        }
    }
}

/// Adding several items keeps a sequence free of duplicates and keeps what it
/// held, in place.
pub proof fn lemma_extend_unique<T>(items: Seq<T>, more: Seq<T>)
    requires
        items.no_duplicates(),
    ensures
        extend_unique(items, more).no_duplicates(),
        items.len() <= extend_unique(items, more).len(),
        forall|i: int| 0 <= i < items.len() ==> extend_unique(items, more)[i] == items[i],
        forall|other: T|
            #[trigger] extend_unique(items, more).contains(other) <==> items.contains(other)
                || more.contains(other),
    decreases more.len(),
{
    if more.len() > 0 {
        let before = extend_unique(items, more.drop_last());
        lemma_extend_unique(items, more.drop_last());
        lemma_insert_unique_no_duplicates(before, more.last());
        let result = extend_unique(items, more);
        assert(result == insert_unique(before, more.last()));
        assert(more.last() == more[more.len() - 1]);
        assert forall|other: T| #[trigger]
            result.contains(other) <==> items.contains(other) || more.contains(other) by {
            if more.contains(other) {
                let i = choose|i: int| 0 <= i < more.len() && more[i] == other;
                if i < more.len() - 1 {
                    assert(more.drop_last()[i] == other);
                    assert(more.drop_last().contains(other));
                    assert(before.contains(other));
                }
                assert(result.contains(other));
            }
            if items.contains(other) {
                assert(before.contains(other));
                assert(result.contains(other));
            }
            if result.contains(other) {
                assert(insert_unique(before, more.last()).contains(other));
                assert(before.contains(other) || other == more.last());
                if before.contains(other) && more.drop_last().contains(other) {
                    let i = choose|i: int|
                        0 <= i < more.drop_last().len() && more.drop_last()[i] == other;
                    assert(more[i] == other);
                }
            }
        }
    }
}

/// An insertion-ordered set of names.
pub struct NameSet {
    names: LinkedHashMap<String, ()>,
}

impl View for NameSet {
    type V = Seq<Seq<char>>;

    /// The names, in the order in which each was first added.
    closed spec fn view(&self) -> Seq<Seq<char>> {
        ordered_keys(self.names)
    }
}

impl NameSet {
    /// No name occurs twice.
    pub open spec fn wf(&self) -> bool {
        self@.no_duplicates()
    }

    /// The empty set.
    pub fn new() -> (set: NameSet)
        ensures
            set.wf(),
            set@ == Seq::<Seq<char>>::empty(),
    {
        NameSet { names: linked_new() }
    }

    /// Whether `name` is in the set.
    pub fn contains(&self, name: &str) -> (found: bool)
        ensures
            found == self@.contains(name@),
    {
        linked_contains_key(&self.names, name)
    }

    /// Adds `name` at the end unless the set holds it already; says whether
    /// it was added.
    pub fn insert(&mut self, name: String) -> (added: bool)
        requires
            old(self).wf(),
        ensures
            final(self).wf(),
            final(self)@ == insert_unique(old(self)@, name@),
            added == !old(self)@.contains(name@),
    {
        if linked_contains_key(&self.names, name.as_str()) {
            false
        } else {
            proof {
                self@.index_of_first_ensures(name@);
            }
            let _ = linked_insert(&mut self.names, name);
            true
        }
    }

    /// Adds every name of `more`, in order, skipping those already present.
    pub fn extend(&mut self, more: &Vec<String>)
        requires
            old(self).wf(),
        ensures
            final(self).wf(),
            final(self)@ == extend_unique(old(self)@, more.deep_view()),
    {
        let mut i: usize = 0;
        while i < more.len()
            invariant
                i <= more.len(),
                self.wf(),
                self@ == extend_unique(old(self)@, more.deep_view().take(i as int)),
            decreases more.len() - i,
        {
            let name = more[i].clone();
            proof {
                let all = more.deep_view();
                assert(all.take(i + 1).drop_last() =~= all.take(i as int));
                assert(all.take(i + 1).last() == name@);
            }
            self.insert(name);
            i += 1;
        }
        proof {
            assert(more.deep_view().take(i as int) =~= more.deep_view());
        }
    }

    /// The names in the order in which each was first added.
    pub fn to_vec(&self) -> (names: Vec<String>)
        ensures
            names.deep_view() == self@,
    {
        linked_keys(&self.names)
    }
}

} // verus!
