//! Actions: one unit of work on one package, and the insertion-ordered,
//! duplicate-free set in which the resolver collects them.

use crate::ordered_set::NameSet;
use crate::package::{LocalPackage, LocalPackageView, RemotePackage, RemotePackageView};
use vstd::prelude::*;

pub mod step_laws;
pub mod steps;
pub mod command;
pub mod commit;

pub use command::BuildError;
pub use commit::CommitError;

verus! {

/// Mathematical model of an [`Action`].
pub enum ActionView {
    Install(RemotePackageView),
    Remove(LocalPackageView),
}

impl ActionView {
    /// The name of the package that the action works on.
    pub open spec fn name(self) -> Seq<char> {
        match self {
            ActionView::Install(package) => package.package_data.name,
            ActionView::Remove(package) => package.package_data.name,
        }
    }

    /// What identifies an action within a batch: whether it installs, and the
    /// package's name.
    pub open spec fn key(self) -> (bool, Seq<char>) {
        (self is Install, self.name())
    }

    /// The action in words: `Install` or `Remove`, a space, and the
    /// package's name.
    pub open spec fn label(self) -> Seq<char> {
        key_label(self.key())
    }
}

/// The text that stands for a key: `Install` or `Remove`, a space, and the
/// name.
pub open spec fn key_label(key: (bool, Seq<char>)) -> Seq<char> {
    if key.0 {
        "Install "@ + key.1
    } else {
        "Remove "@ + key.1
    }
}

/// Different keys have different labels.
pub proof fn lemma_key_label_injective(a: (bool, Seq<char>), b: (bool, Seq<char>))
    requires
        key_label(a) == key_label(b),
    ensures
        a == b,
{
    reveal_strlit("Install ");
    reveal_strlit("Remove ");
    let install = "Install "@;
    let remove = "Remove "@;
    assert(install.len() == 8 && install[0] == 'I');
    assert(remove.len() == 7 && remove[0] == 'R');
    assert(key_label(a)[0] == key_label(b)[0]);
    assert((install + a.1)[0] == 'I');
    assert((remove + a.1)[0] == 'R');
    assert((install + b.1)[0] == 'I');
    assert((remove + b.1)[0] == 'R');
    assert(a.0 == b.0);
    if a.0 {
        assert(a.1 =~= (install + a.1).subrange(8, (install + a.1).len() as int));
        assert(b.1 =~= (install + b.1).subrange(8, (install + b.1).len() as int));
    } else {
        assert(a.1 =~= (remove + a.1).subrange(7, (remove + a.1).len() as int));
        assert(b.1 =~= (remove + b.1).subrange(7, (remove + b.1).len() as int));
    }
}

/// One unit of work: install the package that a lookup described, or remove
/// one that the store holds.
#[derive(Debug, Hash, PartialEq, Eq)]
pub enum Action {
    Install(RemotePackage),
    Remove(LocalPackage),
}

impl View for Action {
    type V = ActionView;

    open spec fn view(&self) -> ActionView {
        match self {
            Action::Install(package) => ActionView::Install(package@),
            Action::Remove(package) => ActionView::Remove(package@),
        }
    }
}

impl DeepView for Action {
    type V = ActionView;

    open spec fn deep_view(&self) -> ActionView {
        self@
    }
}

impl Clone for Action {
    fn clone(&self) -> (copy: Self)
        ensures
            copy@ == self@,
    {
        match self {
            Action::Install(package) => Action::Install(package.clone()),
            Action::Remove(package) => Action::Remove(package.clone()),
        }
    }
}

impl Action {
    /// The name of the package that the action works on.
    pub fn package_name(&self) -> (name: &str)
        ensures
            name@ == self@.name(),
    {
        match self {
            Action::Install(package) => package.package_data.name.as_str(),
            Action::Remove(package) => package.package_data.name.as_str(),
        }
    }

    /// The action in words: `Install` or `Remove`, a space, and the
    /// package's name.
    pub fn label(&self) -> (text: String)
        ensures
            text@ == self@.label(),
    {
        match self {
            Action::Install(package) => String::from_str("Install ").concat(
                package.package_data.name.as_str(),
            ),
            Action::Remove(package) => String::from_str("Remove ").concat(
                package.package_data.name.as_str(),
            ),
        }
    }
}

/// Whether some action of `actions` has the key `key`.
pub open spec fn has_key(actions: Seq<ActionView>, key: (bool, Seq<char>)) -> bool {
    exists|i: int| 0 <= i < actions.len() && #[trigger] actions[i].key() == key
}

/// No two actions install the same package, and no two remove the same one.
pub open spec fn distinct_keys(actions: Seq<ActionView>) -> bool {
    forall|i: int, j: int|
        0 <= i < actions.len() && 0 <= j < actions.len() && i != j ==> #[trigger] actions[i].key()
            != #[trigger] actions[j].key()
}

/// What a set of actions becomes when `action` is added: an action whose key
/// is present already is dropped, a new one goes to the end.
pub open spec fn add_action(actions: Seq<ActionView>, action: ActionView) -> Seq<ActionView> {
    if has_key(actions, action.key()) {
        actions
    } else {
        actions.push(action)
    }
}

/// What a set of actions becomes when the actions of `more` are added one
/// after the other.
pub open spec fn merge_actions(actions: Seq<ActionView>, more: Seq<ActionView>) -> Seq<
    ActionView,
>
    decreases more.len(),
{
    if more.len() == 0 {
        actions
    } else {
        add_action(merge_actions(actions, more.drop_last()), more.last())
    }
}

/// Whether `longer` begins with the actions of `shorter`.
pub open spec fn begins_with(longer: Seq<ActionView>, shorter: Seq<ActionView>) -> bool {
    &&& shorter.len() <= longer.len()
    &&& forall|i: int| 0 <= i < shorter.len() ==> longer[i] == shorter[i]
}

/// Adding an action keeps what was there in place, makes its key present
/// and no other, and keeps the keys distinct.
pub proof fn lemma_add_action(actions: Seq<ActionView>, action: ActionView)
    ensures
        begins_with(add_action(actions, action), actions),
        has_key(add_action(actions, action), action.key()),
        forall|key: (bool, Seq<char>)|
            has_key(add_action(actions, action), key) <==> has_key(actions, key) || key
                == action.key(),
        distinct_keys(actions) ==> distinct_keys(add_action(actions, action)),
        has_key(actions, action.key()) ==> add_action(actions, action) == actions,
        !has_key(actions, action.key()) ==> add_action(actions, action) == actions.push(action),
{
    let result = add_action(actions, action);
    if has_key(actions, action.key()) {
    } else {
        assert(result[actions.len() as int].key() == action.key());
        assert forall|key: (bool, Seq<char>)| has_key(result, key) implies has_key(actions, key)
            || key == action.key() by {
            let i = choose|i: int| 0 <= i < result.len() && #[trigger] result[i].key() == key;
            if i < actions.len() {
                assert(actions[i].key() == key);
            }
        }
        assert forall|key: (bool, Seq<char>)| has_key(actions, key) implies has_key(
            result,
            key,
        ) by {
            let i = choose|i: int| 0 <= i < actions.len() && #[trigger] actions[i].key() == key;
            assert(result[i].key() == key);
        }
        if distinct_keys(actions) {
            assert forall|i: int, j: int|
                0 <= i < result.len() && 0 <= j < result.len() && i != j implies
                #[trigger] result[i].key()
                != #[trigger] result[j].key() by {
                if i < actions.len() && j < actions.len() {
                    assert(actions[i].key() != actions[j].key());
                } else if i < actions.len() {
                    assert(actions[i].key() == result[i].key());
                } else {
                    assert(actions[j].key() == result[j].key());
                }
            }
        }
    }
}

/// Merging keeps what was there in place, makes present the keys of both
/// sides and no other, keeps the keys distinct, and takes every further
/// action from `more`.
pub proof fn lemma_merge_actions(actions: Seq<ActionView>, more: Seq<ActionView>)
    ensures
        begins_with(merge_actions(actions, more), actions),
        forall|key: (bool, Seq<char>)|
            has_key(merge_actions(actions, more), key) <==> has_key(actions, key) || has_key(
                more,
                key,
            ),
        distinct_keys(actions) ==> distinct_keys(merge_actions(actions, more)),
        forall|i: int|
            actions.len() <= i < merge_actions(actions, more).len() ==> more.contains(
                #[trigger] merge_actions(actions, more)[i],
            ),
    decreases more.len(),
{
    if more.len() > 0 {
        let shorter = more.drop_last();
        let before = merge_actions(actions, shorter);
        let result = merge_actions(actions, more);
        lemma_merge_actions(actions, shorter);
        lemma_add_action(before, more.last());
        assert(more[more.len() - 1] == more.last());
        assert forall|key: (bool, Seq<char>)| has_key(result, key) <==> has_key(actions, key)
            || has_key(more, key) by {
            if has_key(shorter, key) {
                let i = choose|i: int| 0 <= i < shorter.len() && #[trigger] shorter[i].key() == key;
                assert(more[i].key() == key);
            }
            if has_key(more, key) {
                let i = choose|i: int| 0 <= i < more.len() && #[trigger] more[i].key() == key;
                if i < shorter.len() {
                    assert(shorter[i].key() == key);
                }
            }
        }
        assert forall|i: int| actions.len() <= i < result.len() implies more.contains(
            #[trigger] result[i],
        ) by {
            if i < before.len() {
                assert(shorter.contains(before[i]));
                let m = choose|m: int| 0 <= m < shorter.len() && shorter[m] == before[i];
                assert(more[m] == result[i]);
            }
        }
    }
}

/// Merging keeps the order of what it adds: of two actions that come after
/// those that were there, the earlier one stands earlier in `more` too.
pub proof fn lemma_merge_keeps_order(
    actions: Seq<ActionView>,
    more: Seq<ActionView>,
    i: int,
    j: int,
)
    requires
        actions.len() <= i < j < merge_actions(actions, more).len(),
    ensures
        exists|m: int, n: int|
            0 <= m < n < more.len() && #[trigger] more[m] == merge_actions(actions, more)[i]
                && #[trigger] more[n] == merge_actions(actions, more)[j],
    decreases more.len(),
{
    let shorter = more.drop_last();
    let before = merge_actions(actions, shorter);
    let result = merge_actions(actions, more);
    lemma_merge_actions(actions, shorter);
    lemma_add_action(before, more.last());
    if j < before.len() {
        lemma_merge_keeps_order(actions, shorter, i, j);
        let (m, n) = choose|m: int, n: int|
            0 <= m < n < shorter.len() && #[trigger] shorter[m] == before[i]
                && #[trigger] shorter[n] == before[j];
        assert(more[m] == result[i] && more[n] == result[j]);
    } else {
        assert(shorter.contains(before[i]));
        let m = choose|m: int| 0 <= m < shorter.len() && shorter[m] == before[i];
        let n = more.len() - 1;
        assert(more[m] == result[i] && more[n] == result[j]);
    }
}

/// The labels of a sequence of actions, in order.
pub open spec fn labels_of(actions: Seq<ActionView>) -> Seq<Seq<char>> {
    actions.map_values(|a: ActionView| a.label())
}

/// A label is among the labels of `actions` exactly if its key is among
/// their keys.
pub proof fn lemma_labels_contain(actions: Seq<ActionView>, key: (bool, Seq<char>))
    ensures
        labels_of(actions).contains(key_label(key)) <==> has_key(actions, key),
{
    let labels = labels_of(actions);
    if labels.contains(key_label(key)) {
        let i = choose|i: int| 0 <= i < labels.len() && labels[i] == key_label(key);
        lemma_key_label_injective(actions[i].key(), key);
    }
    if has_key(actions, key) {
        let i = choose|i: int| 0 <= i < actions.len() && #[trigger] actions[i].key() == key;
        assert(labels[i] == key_label(key));
    }
}

/// An insertion-ordered set of actions in which no key occurs twice.
pub struct ActionSet {
    labels: NameSet,
    actions: Vec<Action>,
}

impl View for ActionSet {
    type V = Seq<ActionView>;

    /// The actions, in the order in which each was first added.
    closed spec fn view(&self) -> Seq<ActionView> {
        self.actions.deep_view()
    }
}

impl ActionSet {
    /// The labels kept beside the actions are theirs, in the same order.
    pub closed spec fn wf(&self) -> bool {
        &&& self.labels.wf()
        &&& self.labels@ == labels_of(self@)
    }

    /// In a well-formed set no key occurs twice.
    pub proof fn lemma_distinct(&self)
        requires
            self.wf(),
        ensures
            distinct_keys(self@),
    {
        let actions = self@;
        let labels = labels_of(actions);
        assert forall|i: int, j: int|
            0 <= i < actions.len() && 0 <= j < actions.len() && i != j implies
            #[trigger] actions[i].key()
            != #[trigger] actions[j].key() by {
            if actions[i].key() == actions[j].key() {
                assert(labels[i] == labels[j]);
            }
        }
    }

    /// The empty set.
    pub fn new() -> (set: ActionSet)
        ensures
            set.wf(),
            set@ == Seq::<ActionView>::empty(),
    {
        let set = ActionSet { labels: NameSet::new(), actions: Vec::new() };
        assert(set@ =~= Seq::<ActionView>::empty());
        assert(labels_of(set@) =~= Seq::<Seq<char>>::empty());
        set
    }

    /// Adds `action` at the end unless an action with its key is there
    /// already.
    pub fn insert(&mut self, action: Action)
        requires
            old(self).wf(),
        ensures
            final(self).wf(),
            final(self)@ == add_action(old(self)@, action@),
    {
        let label = action.label();
        proof {
            lemma_labels_contain(self@, action@.key());
        }
        let ghost before = self@;
        let added = self.labels.insert(label);
        if added {
            self.actions.push(action);
            assert(self@ =~= before.push(action@));
            assert(labels_of(self@) =~= labels_of(before).push(action@.label()));
        }
    }

    /// Adds every action of `more`, in order, skipping those whose key is
    /// present already.
    pub fn extend(&mut self, more: &Vec<Action>)
        requires
            old(self).wf(),
        ensures
            final(self).wf(),
            final(self)@ == merge_actions(old(self)@, more.deep_view()),
    {
        let mut i: usize = 0;
        while i < more.len()
            invariant
                i <= more.len(),
                self.wf(),
                self@ == merge_actions(old(self)@, more.deep_view().take(i as int)),
            decreases more.len() - i,
        {
            let action = more[i].clone();
            proof {
                let all = more.deep_view();
                assert(all.take(i + 1).drop_last() =~= all.take(i as int));
                assert(all.take(i + 1).last() == action@);
            }
            self.insert(action);
            i += 1;
        }
        proof {
            assert(more.deep_view().take(i as int) =~= more.deep_view());
        }
    }

    /// The actions in the order in which each was first added.
    pub fn into_vec(self) -> (actions: Vec<Action>)
        ensures
            actions.deep_view() == self@,
    {
        self.actions
    }
}

} // verus!
