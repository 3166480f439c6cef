//! Shelves: lists of items under keys, each list in the order of arrival.

use vstd::prelude::*;

use crate::text::same_text;

verus! {

/// What items are kept under.
pub trait Key: DeepView + Sized {
    /// Whether two keys are the same.
    fn same(&self, other: &Self) -> (same: bool)
        ensures
            same == (self.deep_view() == other.deep_view()),
    ;
}

impl Key for String {
    fn same(&self, other: &Self) -> (same: bool) {
        same_text(self.as_str(), other.as_str())
    }
}

/// A subject's conversation.
#[derive(Debug)]
pub struct ConversationKey {
    /// The owning subject, in text form.
    pub subject: String,
    /// The conversation.
    pub conversation: String,
}

impl DeepView for ConversationKey {
    type V = (Seq<char>, Seq<char>);

    open spec fn deep_view(&self) -> (Seq<char>, Seq<char>) {
        (self.subject@, self.conversation@)
    }
}

impl Key for ConversationKey {
    fn same(&self, other: &Self) -> (same: bool) {
        same_text(self.subject.as_str(), other.subject.as_str()) && same_text(
            self.conversation.as_str(),
            other.conversation.as_str(),
        )
    }
}

/// Lists of items under keys.
#[derive(Debug)]
pub struct Shelves<K, T> {
    entries: Vec<(K, Vec<T>)>,
}

impl<K: Key, T> Shelves<K, T> {
    spec fn key(&self, i: int) -> K::V {
        self.entries@[i].0.deep_view()
    }

    /// No key occurs twice.
    pub closed spec fn wf(&self) -> bool {
        forall|i: int, j: int|
            0 <= i < j < self.entries@.len() ==> #[trigger] self.key(i) != #[trigger] self.key(j)
    }
}

impl<K: Key, T> View for Shelves<K, T> {
    type V = Map<K::V, Seq<T>>;

    closed spec fn view(&self) -> Map<K::V, Seq<T>> {
        Map::new(
            |id: K::V|
                exists|i: int| 0 <= i < self.entries@.len() && #[trigger] self.key(i) == id,
            |id: K::V|
                {
                    let i = choose|i: int|
                        0 <= i < self.entries@.len() && #[trigger] self.key(i) == id;
                    self.entries@[i].1@
                },
        )
    }
}

/// The items under a key; none when there is no such shelf.
pub open spec fn shelf<A, T>(shelves: Map<A, Seq<T>>, key: A) -> Seq<T> {
    if shelves.contains_key(key) {
        shelves[key]
    } else {
        Seq::empty()
    }
}

/// The smaller of a count and a length.
pub open spec fn at_most(count: usize, len: nat) -> int {
    if count <= len {
        count as int
    } else {
        len as int
    }
}

impl<K: Key, T> Shelves<K, T> {
    /// No shelves.
    pub fn new() -> (shelves: Self)
        ensures
            shelves.wf(),
            shelves@ == Map::<K::V, Seq<T>>::empty(),
    {
        let shelves = Shelves { entries: Vec::new() };
        assert(shelves@ =~= Map::<K::V, Seq<T>>::empty());
        shelves
    }

    proof fn at_key(&self, i: int)
        requires
            self.wf(),
            0 <= i < self.entries@.len(),
        ensures
            self@.contains_key(self.key(i)),
            self@[self.key(i)] == self.entries@[i].1@,
    {
        let at = self.key(i);
        let found = choose|k: int| 0 <= k < self.entries@.len() && #[trigger] self.key(k) == at;
        assert(found == i);
    }

    fn find(&self, key: &K) -> (found: Option<usize>)
        ensures
            match found {
                Some(i) => i < self.entries@.len() && self.key(i as int) == key.deep_view(),
                None => forall|i: int|
                    0 <= i < self.entries@.len() ==> #[trigger] self.key(i) != key.deep_view(),
            },
    {
        let mut i: usize = 0;
        while i < self.entries.len()
            invariant
                i <= self.entries@.len(),
                forall|k: int| 0 <= k < i ==> #[trigger] self.key(k) != key.deep_view(),
            decreases self.entries@.len() - i,
        {
            assert(self.key(i as int) == self.entries@[i as int].0.deep_view());
            if self.entries[i].0.same(key) {
                return Some(i);
            }
            i += 1;
        }
        None
    }

    /// Takes a shelf's items out; the other shelves keep theirs.
    pub fn take(&mut self, key: &K) -> (items: Vec<T>)
        requires
            old(self).wf(),
        ensures
            final(self).wf(),
            items@ == shelf(old(self)@, key.deep_view()),
            final(self)@ == old(self)@.remove(key.deep_view()),
    {
        let ghost before = *self;
        match self.find(key) {
            Some(place) => {
                let (_, items) = self.entries.remove(place);
                proof {
                    let at = place as int;
                    before.at_key(at);
                    let after = *self;
                    assert forall|k: int| 0 <= k < after.entries@.len() implies #[trigger] after.key(
                        k,
                    ) == before.key(
                        if k < at {
                            k
                        } else {
                            k + 1
                        },
                    ) by {}
                    assert forall|x: K::V|
                        after@.contains_key(x) == before@.remove(key.deep_view()).contains_key(x) by {
                        if before@.contains_key(x) && x != key.deep_view() {
                            let k = choose|k: int|
                                0 <= k < before.entries@.len() && #[trigger] before.key(k) == x;
                            let place = if k < at {
                                k
                            } else {
                                k - 1
                            };
                            assert(after.key(place) == x);
                        }
                        if after@.contains_key(x) {
                            let k = choose|k: int|
                                0 <= k < after.entries@.len() && #[trigger] after.key(k) == x;
                            let place = if k < at {
                                k
                            } else {
                                k + 1
                            };
                            assert(before.key(place) == x);
                            assert(before.key(at) == key.deep_view());
                        }
                    }
                    assert forall|x: K::V| after@.contains_key(x) implies after@[x]
                        == before@.remove(key.deep_view())[x] by {
                        let k = choose|k: int|
                            0 <= k < after.entries@.len() && #[trigger] after.key(k) == x;
                        let place = if k < at {
                            k
                        } else {
                            k + 1
                        };
                        assert(before.key(place) == x);
                        before.at_key(place);
                        after.at_key(k);
                    }
                    assert(after@ =~= before@.remove(key.deep_view()));
                }
                items
            },
            None => {
                proof {
                    assert(!before@.contains_key(key.deep_view()));
                    assert(before@.remove(key.deep_view()) =~= before@);
                }
                Vec::new()
            },
        }
    }

    /// Puts items on a shelf in place of what it held.
    pub fn put(&mut self, key: K, items: Vec<T>)
        requires
            old(self).wf(),
        ensures
            final(self).wf(),
            final(self)@ == old(self)@.insert(key.deep_view(), items@),
    {
        let ghost before = *self;
        let _ = self.take(&key);
        let ghost rest = *self;
        let ghost name = key.deep_view();
        let ghost given = items@;
        self.entries.push((key, items));
        proof {
            let after = *self;
            let last = rest.entries@.len() as int;
            assert(after.key(last) == name);
            assert forall|k: int| 0 <= k < last implies #[trigger] after.key(k) == rest.key(k) by {}
            assert forall|k: int| 0 <= k < last implies #[trigger] rest.key(k) != name by {
                rest.at_key(k);
            }
            assert forall|i: int, j: int|
                0 <= i < j < after.entries@.len() implies #[trigger] after.key(i)
                != #[trigger] after.key(j) by {
                assert(rest.key(i) == after.key(i));
                if j < last {
                    assert(rest.key(j) == after.key(j));
                }
            }
            let wanted = before@.insert(name, given);
            assert forall|x: K::V| after@.contains_key(x) == wanted.contains_key(x) by {
                if after@.contains_key(x) && x != name {
                    let k = choose|k: int|
                        0 <= k < after.entries@.len() && #[trigger] after.key(k) == x;
                    assert(rest.key(k) == x);
                    assert(rest@.contains_key(x));
                }
                if before@.contains_key(x) && x != name {
                    assert(rest@.contains_key(x));
                    let k = choose|k: int|
                        0 <= k < rest.entries@.len() && #[trigger] rest.key(k) == x;
                    assert(after.key(k) == x);
                }
            }
            assert forall|x: K::V| after@.contains_key(x) implies after@[x] == wanted[x] by {
                let k = choose|k: int|
                    0 <= k < after.entries@.len() && #[trigger] after.key(k) == x;
                after.at_key(k);
                if x != name {
                    assert(rest.key(k) == x);
                    rest.at_key(k);
                }
            }
            assert(after@ =~= wanted);
        }
    }

    /// Puts an item behind the others of its shelf.
    pub fn push(&mut self, key: K, item: T)
        requires
            old(self).wf(),
        ensures
            final(self).wf(),
            final(self)@ == old(self)@.insert(
                key.deep_view(),
                shelf(old(self)@, key.deep_view()).push(item),
            ),
    {
        let ghost before = self@;
        let mut items = self.take(&key);
        let ghost name = key.deep_view();
        items.push(item);
        self.put(key, items);
        assert(before.remove(name).insert(name, items@) =~= before.insert(name, items@));
    }

    /// How many items a shelf holds.
    pub fn len(&self, key: &K) -> (len: usize)
        requires
            self.wf(),
        ensures
            len == shelf(self@, key.deep_view()).len(),
    {
        match self.find(key) {
            Some(place) => {
                proof {
                    self.at_key(place as int);
                }
                self.entries[place].1.len()
            },
            None => 0,
        }
    }

    /// Takes the oldest items off a shelf, at most so many.
    pub fn pop_oldest(&mut self, key: K, count: usize) -> (items: Vec<T>)
        requires
            old(self).wf(),
        ensures
            final(self).wf(),
            ({
                let all = shelf(old(self)@, key.deep_view());
                let n = at_most(count, all.len());
                &&& items@ == all.take(n)
                &&& final(self)@ == old(self)@.insert(key.deep_view(), all.skip(n))
            }),
    {
        let ghost before = self@;
        let ghost name = key.deep_view();
        let mut items = self.take(&key);
        let ghost all = items@;
        let n: usize = if count <= items.len() {
            count
        } else {
            items.len()
        };
        let rest = items.split_off(n);
        assert(rest@ =~= all.skip(n as int));
        assert(items@ =~= all.take(n as int));
        self.put(key, rest);
        assert(before.remove(name).insert(name, rest@) =~= before.insert(name, rest@));
        items
    }
}

/// Taking at most so many of a sequence takes that many while there are
/// enough, and all otherwise; what is left and what was taken make up the
/// sequence.
pub proof fn taking_is_bounded<T>(all: Seq<T>, count: usize)
    ensures
        0 <= at_most(count, all.len()) <= count,
        at_most(count, all.len()) <= all.len(),
        at_most(count, all.len()) < count ==> at_most(count, all.len()) == all.len(),
        all == all.take(at_most(count, all.len())) + all.skip(at_most(count, all.len())),
{
    assert(all == all.take(at_most(count, all.len())) + all.skip(at_most(count, all.len())));
}

/// A shelf holds what was put on it, and putting something on one shelf
/// leaves the others as they were.
pub proof fn shelves_are_apart<A, T>(shelves: Map<A, Seq<T>>, key: A, other: A, items: Seq<T>)
    requires
        other != key,
    ensures
        shelf(shelves.insert(key, items), key) == items,
        shelf(shelves.insert(key, items), other) == shelf(shelves, other),
        shelf(shelves.remove(key), key).len() == 0,
        shelf(shelves.remove(key), other) == shelf(shelves, other),
        shelf(Map::<A, Seq<T>>::empty(), key).len() == 0,
{
}

} // verus!
