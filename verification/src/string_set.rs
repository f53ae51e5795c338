//! Sets of strings that keep their members in the order of arrival.

use crate::text::texts;
use vstd::prelude::*;
use vstd::string::*;

verus! {

/// The strings of `items`, as a set.
pub open spec fn set_of(items: Seq<String>) -> Set<Seq<char>> {
    texts(items).to_set()
}

/// A set of strings. A member is held once, at the place where it first
/// arrived.
#[derive(Debug)]
pub struct StringSet {
    items: Vec<String>,
}

impl View for StringSet {
    type V = Set<Seq<char>>;

    closed spec fn view(&self) -> Set<Seq<char>> {
        set_of(self.items@)
    }
}

impl StringSet {
    #[verifier::type_invariant]
    spec fn well_formed(self) -> bool {
        texts(self.items@).no_duplicates()
    }

    /// The members in the order of their arrival.
    pub closed spec fn members(&self) -> Seq<Seq<char>> {
        texts(self.items@)
    }

    /// The members are the set, each held once.
    pub proof fn lemma_members(&self)
        ensures
            self.members().to_set() == self@,
    {
    }

    /// The empty set.
    pub fn new() -> (set: StringSet)
        ensures
            set@ == Set::<Seq<char>>::empty(),
            set.members() == Seq::<Seq<char>>::empty(),
    {
        let set = StringSet { items: Vec::new() };
        assert(set.members() =~= Seq::<Seq<char>>::empty());
        assert(set@ =~= Set::<Seq<char>>::empty());
        set
    }

    /// The number of members.
    pub fn len(&self) -> (n: usize)
        ensures
            n == self.members().len(),
    {
        self.items.len()
    }

    /// Tells whether `item` is a member.
    pub fn contains(&self, item: &String) -> (found: bool)
        ensures
            found == self@.contains(item@),
    {
        let mut i: usize = 0;
        while i < self.items.len()
            invariant
                i <= self.items.len(),
                forall|j: int| 0 <= j < i ==> texts(self.items@)[j] != item@,
            decreases self.items.len() - i,
        {
            if self.items[i] == *item {
                assert(texts(self.items@)[i as int] == item@);
                return true;
            }
            i += 1;
        }
        false
    }

    /// The set with `item` added: unchanged where `item` is a member
    /// already, else with `item` as its last member.
    pub fn with(self, item: String) -> (set: StringSet)
        ensures
            set@ == self@.insert(item@),
            set.members() == if self@.contains(item@) {
                self.members()
            } else {
                self.members().push(item@)
            },
    {
        proof {
            use_type_invariant(&self);
        }
        if self.contains(&item) {
            assert(self@.insert(item@) =~= self@);
            self
        } else {
            let ghost before = texts(self.items@);
            let StringSet { items } = self;
            let mut items = items;
            items.push(item);
            assert(texts(items@) =~= before.push(item@));
            proof {
                lemma_to_set_push(before, item@);
            }
            StringSet { items }
        }
    }

    /// Adds `item`, as `with` does.
    pub fn insert(&mut self, item: String)
        ensures
            final(self)@ == old(self)@.insert(item@),
            final(self).members() == if old(self)@.contains(item@) {
                old(self).members()
            } else {
                old(self).members().push(item@)
            },
    {
        let mut taken = StringSet::new();
        core::mem::swap(self, &mut taken);
        *self = taken.with(item);
    }

    /// Adds every string of `items`, in their order.
    pub fn extend(&mut self, items: &Vec<String>)
        ensures
            final(self)@ == old(self)@.union(set_of(items@)),
    {
        let mut i: usize = 0;
        while i < items.len()
            invariant
                i <= items.len(),
                self@ == old(self)@.union(set_of(items@.take(i as int))),
            decreases items.len() - i,
        {
            self.insert(items[i].clone());
            proof {
                let before = items@.take(i as int);
                let after = items@.take(i + 1);
                assert(texts(after) =~= texts(before).push(items@[i as int]@));
                lemma_to_set_push(texts(before), items@[i as int]@);
                assert(old(self)@.union(set_of(before)).insert(items@[i as int]@) =~= old(
                    self,
                )@.union(set_of(after)));
            }
            i += 1;
        }
        assert(items@.take(items.len() as int) =~= items@);
    }

    /// The set of the strings of `items`.
    pub fn from_items(items: &Vec<String>) -> (set: StringSet)
        ensures
            set@ == set_of(items@),
    {
        let mut set = StringSet::new();
        set.extend(items);
        assert(Set::<Seq<char>>::empty().union(set_of(items@)) =~= set_of(items@));
        set
    }

    /// The members in the order of their arrival.
    pub fn to_vec(&self) -> (items: Vec<String>)
        ensures
            texts(items@) == self.members(),
    {
        crate::text::clone_strings(&self.items)
    }
}

impl Clone for StringSet {
    fn clone(&self) -> (copy: Self)
        ensures
            copy@ == self@,
            copy.members() == self.members(),
    {
        proof {
            use_type_invariant(self);
        }
        StringSet { items: crate::text::clone_strings(&self.items) }
    }
}

/// The set of a sequence with one more element is the set of the sequence
/// with that element added.
pub proof fn lemma_to_set_push(s: Seq<Seq<char>>, x: Seq<char>)
    ensures
        s.push(x).to_set() == s.to_set().insert(x),
{
    assert forall|y: Seq<char>| s.to_set().insert(x).contains(y) implies s.push(x).contains(y) by {
        if y == x {
            assert(s.push(x)[s.len() as int] == y);
        } else {
            let i = choose|i: int| 0 <= i < s.len() && s[i] == y;
            assert(s.push(x)[i] == y);
        }
    }
    assert forall|y: Seq<char>| s.push(x).contains(y) implies s.to_set().insert(x).contains(y) by {
        let i = choose|i: int| 0 <= i < s.push(x).len() && s.push(x)[i] == y;
        if i < s.len() {
            assert(s[i] == y);
        }
    }
    assert(s.push(x).to_set() =~= s.to_set().insert(x));
}

} // verus!
