//! The extension bag of a context: values that one stage of the pipeline
//! leaves for the stages after it, each under a key.
use vstd::prelude::*;
use crate::value::{Payload, Tree};

verus! {

/// The entries of a bag, as mathematical values: keys with their values, in
/// the order in which the keys came.
pub type Bag = Seq<(Seq<char>, Tree)>;

/// The key stands at this place of the bag, and at no place before it.
pub open spec fn key_at(bag: Bag, key: Seq<char>, index: int) -> bool {
    &&& 0 <= index < bag.len()
    &&& bag[index].0 == key
    &&& forall|j: int| 0 <= j < index ==> (#[trigger] bag[j]).0 != key
}

/// The bag holds a value under this key.
pub open spec fn has_key(bag: Bag, key: Seq<char>) -> bool {
    exists|index: int| 0 <= index < bag.len() && (#[trigger] bag[index]).0 == key
}

/// The place at which a key stands first.
pub open spec fn place(bag: Bag, key: Seq<char>) -> Option<int> {
    if exists|index: int| key_at(bag, key, index) {
        Some(choose|index: int| key_at(bag, key, index))
    } else {
        None
    }
}

/// The value that the bag holds under a key, if it holds one.
pub open spec fn lookup(bag: Bag, key: Seq<char>) -> Option<Tree> {
    match place(bag, key) {
        Some(index) => Some(bag[index].1),
        None => None,
    }
}

/// A key stands first at one place only, and stands somewhere exactly if the
/// bag holds a value under it.
pub proof fn lemma_place(bag: Bag, key: Seq<char>)
    ensures
        forall|index: int| key_at(bag, key, index) ==> place(bag, key) == Some(index),
        place(bag, key) is Some <==> has_key(bag, key),
        place(bag, key) matches Some(index) ==> key_at(bag, key, index),
{
    assert forall|index: int| key_at(bag, key, index) implies place(bag, key) == Some(index) by {
        let other = choose|other: int| key_at(bag, key, other);
        if other < index {
            assert(bag[other].0 != key);
        }
        if index < other {
            assert(bag[index].0 != key);
        }
    }
    if has_key(bag, key) {
        lemma_first_place(bag, key, bag.len() as int);
    }
}

/// Among the first `upto` places, if the key stands at one then it stands
/// first at one.
proof fn lemma_first_place(bag: Bag, key: Seq<char>, upto: int)
    requires
        0 <= upto <= bag.len(),
    ensures
        (exists|i: int| 0 <= i < upto && (#[trigger] bag[i]).0 == key) ==> exists|index: int|
            key_at(bag, key, index) && index < upto,
    decreases upto,
{
    if upto > 0 {
        lemma_first_place(bag, key, upto - 1);
        if exists|i: int| 0 <= i < upto - 1 && (#[trigger] bag[i]).0 == key {
            let index = choose|index: int| key_at(bag, key, index) && index < upto - 1;
            assert(key_at(bag, key, index) && index < upto);
        } else if bag[upto - 1].0 == key {
            assert(key_at(bag, key, upto - 1));
        }
    }
}

/// The bag after a value was put under a key: the value of the key is
/// replaced where the bag held one, and else the key joins the bag at its
/// end. No key changes its place or leaves the bag.
pub open spec fn put(bag: Bag, key: Seq<char>, value: Tree) -> Bag {
    match place(bag, key) {
        Some(index) => bag.update(index, (key, value)),
        None => bag.push((key, value)),
    }
}

/// The bag only grows, and is never re-keyed: after a value was put under a
/// key, the bag holds that value under that key, holds what it held under
/// every other key, and every key that stood at a place stands there still.
pub proof fn lemma_put(bag: Bag, key: Seq<char>, value: Tree)
    ensures
        lookup(put(bag, key, value), key) == Some(value),
        forall|other: Seq<char>| other != key ==> lookup(put(bag, key, value), other) == lookup(bag, other),
        bag.len() <= put(bag, key, value).len(),
        forall|index: int| 0 <= index < bag.len() ==> (#[trigger] put(bag, key, value)[index]).0 == bag[index].0,
{
    let after = put(bag, key, value);
    lemma_place(bag, key);
    lemma_place(after, key);
    match place(bag, key) {
        Some(at) => {
            assert(key_at(after, key, at)) by {
                assert forall|j: int| 0 <= j < at implies (#[trigger] after[j]).0 != key by {
                    assert(bag[j].0 != key);
                }
            }
        },
        None => {
            assert(key_at(after, key, bag.len() as int)) by {
                assert forall|j: int| 0 <= j < bag.len() implies (#[trigger] after[j]).0 != key by {
                    if bag[j].0 == key {
                        assert(has_key(bag, key));
                    }
                }
            }
        },
    }
    assert forall|other: Seq<char>| other != key implies lookup(after, other) == lookup(
        bag,
        other,
    ) by {
        lemma_place(bag, other);
        lemma_place(after, other);
        match place(bag, other) {
            Some(at) => {
                assert(after[at] == bag[at]);
                assert(key_at(after, other, at)) by {
                    assert forall|j: int| 0 <= j < at implies (#[trigger] after[j]).0 != other by {
                        assert(bag[j].0 != other);
                    }
                }
            },
            None => {
                if has_key(after, other) {
                    let at = choose|index: int|
                        0 <= index < after.len() && (#[trigger] after[index]).0 == other;
                    if at < bag.len() {
                        assert(bag[at].0 == other);
                        assert(has_key(bag, other));
                    }
                }
            },
        }
    }
}

/// One entry of a bag.
#[derive(Debug, PartialEq, Eq)]
pub struct Extension {
    pub key: String,
    pub value: Payload,
}

/// The extension bag.
#[derive(Debug, PartialEq, Eq)]
pub struct Extensions {
    entries: Vec<Extension>,
}

impl View for Extensions {
    type V = Bag;

    closed spec fn view(&self) -> Bag {
        Seq::new(self.entries.len() as nat, |i: int| (self.entries[i].key@, self.entries[i].value@))
    }
}

impl Extensions {
    /// An empty bag.
    pub fn new() -> (bag: Extensions)
        ensures
            bag@ == Seq::<(Seq<char>, Tree)>::empty(),
    {
        let bag = Extensions { entries: Vec::new() };
        assert(bag@ =~= Seq::<(Seq<char>, Tree)>::empty());
        bag
    }

    /// How many keys the bag holds.
    pub fn len(&self) -> (n: usize)
        ensures
            n == self@.len(),
    {
        self.entries.len()
    }

    /// Where a key stands first.
    fn find(&self, key: &str) -> (found: Option<usize>)
        ensures
            match found {
                Some(index) => place(self@, key@) == Some(index as int),
                None => place(self@, key@) is None,
            },
            found is Some <==> has_key(self@, key@),
    {
        let wanted = key.to_owned();
        let mut index: usize = 0;
        while index < self.entries.len()
            invariant
                index <= self.entries.len(),
                wanted@ == key@,
                forall|j: int| 0 <= j < index ==> (#[trigger] self@[j]).0 != key@,
            decreases self.entries.len() - index,
        {
            if self.entries[index].key == wanted {
                proof {
                    assert(key_at(self@, key@, index as int));
                    lemma_place(self@, key@);
                }
                return Some(index);
            }
            index += 1;
        }
        proof {
            lemma_place(self@, key@);
        }
        None
    }

    /// The value under a key.
    pub fn get(&self, key: &str) -> (found: Option<&Payload>)
        ensures
            match found {
                Some(value) => lookup(self@, key@) == Some(value@),
                None => lookup(self@, key@) is None,
            },
            found is Some <==> has_key(self@, key@),
    {
        match self.find(key) {
            Some(index) => Some(&self.entries[index].value),
            None => None,
        }
    }

    /// Puts a value under a key: see [`put`] and [`lemma_put`]. `true` where
    /// the key is new to the bag.
    pub fn insert(&mut self, key: &str, value: Payload) -> (fresh: bool)
        ensures
            final(self)@ == put(old(self)@, key@, value@),
            fresh == !has_key(old(self)@, key@),
    {
        match self.find(key) {
            Some(index) => {
                proof {
                    lemma_place(self@, key@);
                }
                self.entries[index].value = value;
                assert(final(self)@ =~= put(old(self)@, key@, value@));
                false
            },
            None => {
                self.entries.push(Extension { key: key.to_owned(), value });
                assert(final(self)@ =~= put(old(self)@, key@, value@));
                true
            },
        }
    }
}

} // verus!
