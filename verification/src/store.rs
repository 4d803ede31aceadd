//! The store: the searchable strings, in the order they were added.

use crate::text::texts;
use vstd::prelude::*;

verus! {

/// What is left of `store` once every text that occurs in `unwanted` is
/// taken out. The texts that stay keep their order.
pub open spec fn without(store: Seq<Seq<char>>, unwanted: Seq<Seq<char>>) -> Seq<Seq<char>> {
    store.filter(|text: Seq<char>| !unwanted.contains(text))
}

/// Whether `text` is one of `list`, character for character.
pub fn is_listed(list: &Vec<String>, text: &String) -> (r: bool)
    ensures
        r == texts(list@).contains(text@),
{
    let mut i: usize = 0;
    while i < list.len()
        invariant
            i <= list@.len(),
            forall|j: int| 0 <= j < i ==> texts(list@)[j] != text@,
        decreases list@.len() - i,
    {
        if list[i] == *text {
            assert(texts(list@)[i as int] == text@);
            return true;
        }
        i += 1;
    }
    false
}

/// An ordered list of strings. The same string may be in it more than once.
#[derive(Debug)]
pub struct StringStore {
    strings: Vec<String>,
}

impl View for StringStore {
    type V = Seq<Seq<char>>;

    closed spec fn view(&self) -> Seq<Seq<char>> {
        texts(self.strings@)
    }
}

impl StringStore {
    /// A store with nothing in it.
    pub fn new() -> (store: StringStore)
        ensures
            store@ == Seq::<Seq<char>>::empty(),
    {
        let store = StringStore { strings: Vec::new() };
        assert(store@ =~= Seq::<Seq<char>>::empty());
        store
    }

    /// A store that holds `strings`, in their order.
    pub fn holding(strings: Vec<String>) -> (store: StringStore)
        ensures
            store@ == texts(strings@),
    {
        StringStore { strings }
    }

    /// How many strings the store holds.
    pub fn len(&self) -> (n: usize)
        ensures
            n == self@.len(),
    {
        self.strings.len()
    }

    /// Appends all of `strings`, in order, and gives the new count. Nothing
    /// is left out, whether the store has it already or not.
    pub fn add(&mut self, strings: Vec<String>) -> (count: usize)
        ensures
            final(self)@ == old(self)@ + texts(strings@),
            count == final(self)@.len(),
    {
        let mut strings = strings;
        let ghost added = texts(strings@);
        self.strings.append(&mut strings);
        assert(self@ =~= old(self)@ + added);
        self.strings.len()
    }

    /// Takes out every string that is equal to one of `unwanted` and gives
    /// the new count. The strings that stay keep their order.
    pub fn remove(&mut self, unwanted: &Vec<String>) -> (count: usize)
        ensures
            final(self)@ == without(old(self)@, texts(unwanted@)),
            count == final(self)@.len(),
    {
        let ghost all = texts(self.strings@);
        let ghost stays = |text: Seq<char>| !texts(unwanted@).contains(text);
        let mut kept: Vec<String> = Vec::new();
        let mut i: usize = 0;
        proof {
            reveal(Seq::filter);
            assert(all.take(0) =~= Seq::<Seq<char>>::empty());
            assert(texts(kept@) =~= all.take(0).filter(stays));
        }
        while i < self.strings.len()
            invariant
                i <= self.strings@.len(),
                all == texts(self.strings@),
                stays == |text: Seq<char>| !texts(unwanted@).contains(text),
                texts(kept@) == all.take(i as int).filter(stays),
            decreases self.strings@.len() - i,
        {
            let ghost before = texts(kept@);
            proof {
                reveal(Seq::filter);
                assert(all.take(i + 1).drop_last() =~= all.take(i as int));
                assert(all.take(i + 1).last() == self.strings@[i as int]@);
            }
            if !is_listed(unwanted, &self.strings[i]) {
                kept.push(self.strings[i].clone());
                proof {
                    assert(texts(kept@) =~= before.push(self.strings@[i as int]@));
                }
            }
            i += 1;
        }
        proof {
            assert(all.take(i as int) =~= all);
        }
        self.strings = kept;
        self.strings.len()
    }

    /// Empties the store; the new count is zero.
    pub fn clear(&mut self) -> (count: usize)
        ensures
            final(self)@ == Seq::<Seq<char>>::empty(),
            count == 0,
    {
        self.strings.clear();
        assert(self@ =~= Seq::<Seq<char>>::empty());
        0
    }

    /// A copy of the strings as they are now. Later changes of the store do
    /// not reach it.
    pub fn snapshot(&self) -> (copy: Vec<String>)
        ensures
            texts(copy@) == self@,
    {
        let mut copy: Vec<String> = Vec::new();
        let mut i: usize = 0;
        while i < self.strings.len()
            invariant
                i <= self.strings@.len(),
                texts(copy@) == texts(self.strings@).take(i as int),
            decreases self.strings@.len() - i,
        {
            let ghost before = texts(copy@);
            copy.push(self.strings[i].clone());
            proof {
                assert(texts(copy@) =~= before.push(self.strings@[i as int]@));
                assert(texts(self.strings@).take(i + 1) =~= texts(self.strings@).take(
                    i as int,
                ).push(self.strings@[i as int]@));
            }
            i += 1;
        }
        proof {
            assert(texts(self.strings@).take(i as int) =~= texts(self.strings@));
        }
        copy
    }
}

} // verus!
