//! A set of strings that remembers the order in which they came.

use crate::text::texts;
use vstd::prelude::*;
use vstd::string::*;

verus! {

/// Distinct strings, listed from the oldest to the newest.
#[derive(Debug)]
pub struct StringSet {
    items: Vec<String>,
}

impl View for StringSet {
    type V = Set<Seq<char>>;

    open spec fn view(&self) -> Set<Seq<char>> {
        self.listing().to_set()
    }
}

/// `listing` after `s` is added at the end, unless it is there already.
pub open spec fn listing_with(listing: Seq<Seq<char>>, s: Seq<char>) -> Seq<Seq<char>> {
    if listing.contains(s) {
        listing
    } else {
        listing.push(s)
    }
}

/// `listing` after `s` is taken out, if it is there. The others keep their
/// order.
pub open spec fn listing_without(listing: Seq<Seq<char>>, s: Seq<char>) -> Seq<Seq<char>> {
    if listing.contains(s) {
        listing.remove(listing.index_of(s))
    } else {
        listing
    }
}

impl StringSet {
    /// The strings in the order in which they came.
    pub closed spec fn listing(&self) -> Seq<Seq<char>> {
        texts(self.items@)
    }

    #[verifier::type_invariant]
    spec fn distinct(self) -> bool {
        self.listing().no_duplicates()
    }

    /// The empty set.
    pub fn new() -> (r: Self)
        ensures
            r.listing() == Seq::<Seq<char>>::empty(),
            r@ == Set::<Seq<char>>::empty(),
    {
        let r = StringSet { items: Vec::new() };
        assert(r.listing() =~= Seq::<Seq<char>>::empty());
        assert(r@ =~= Set::<Seq<char>>::empty());
        r
    }

    /// The number of strings, no two of which are equal.
    pub fn len(&self) -> (r: usize)
        ensures
            r == self.listing().len(),
            r == self@.len(),
            self.listing().no_duplicates(),
    {
        proof {
            use_type_invariant(self);
            self.listing().unique_seq_to_set();
        }
        self.items.len()
    }

    /// The string at place `index` of the listing.
    pub fn get(&self, index: usize) -> (r: &str)
        requires
            index < self.listing().len(),
        ensures
            r@ == self.listing()[index as int],
    {
        self.items[index].as_str()
    }

    /// Where `s` stands in the listing.
    fn position(&self, s: &String) -> (r: Option<usize>)
        ensures
            match r {
                Some(i) => i < self.listing().len() && self.listing()[i as int] == s@,
                None => !self.listing().contains(s@),
            },
    {
        let mut i: usize = 0;
        while i < self.items.len()
            invariant
                i <= self.items.len(),
                forall|j: int| 0 <= j < i ==> self.listing()[j] != s@,
            decreases self.items.len() - i,
        {
            if self.items[i] == *s {
                return Some(i);
            }
            i = i + 1;
        }
        None
    }

    /// Whether `s` is in the set.
    pub fn contains(&self, s: &String) -> (r: bool)
        ensures
            r == self@.contains(s@),
            r == self.listing().contains(s@),
    {
        self.position(s).is_some()
    }

    /// Adds `s`, and tells whether it was missing.
    pub fn insert(&mut self, s: String) -> (added: bool)
        ensures
            added == !old(self)@.contains(s@),
            final(self).listing() == listing_with(old(self).listing(), s@),
            final(self)@ == old(self)@.insert(s@),
    {
        proof {
            use_type_invariant(&*self);
        }
        let ghost before = self.listing();
        if self.contains(&s) {
            assert(self@ =~= self@.insert(s@));
            false
        } else {
            let mut items: Vec<String> = Vec::new();
            std::mem::swap(&mut items, &mut self.items);
            items.push(s);
            proof {
                assert(texts(items@) =~= before.push(s@));
                assert(before.push(s@).to_set() =~= before.to_set().insert(s@)) by {
                    let after = before.push(s@);
                    assert(after[before.len() as int] == s@);
                    assert forall|x: Seq<char>| before.contains(x) implies after.contains(x) by {
                        let i = before.index_of(x);
                        assert(after[i] == x);
                    }
                }
            }
            self.items = items;
            true
        }
    }

    /// Takes `s` out, and tells whether it was there.
    pub fn remove(&mut self, s: &String) -> (removed: bool)
        ensures
            removed == old(self)@.contains(s@),
            final(self).listing() == listing_without(old(self).listing(), s@),
            final(self)@ == old(self)@.remove(s@),
    {
        proof {
            use_type_invariant(&*self);
        }
        let ghost before = self.listing();
        match self.position(s) {
            Some(i) => {
                let mut items: Vec<String> = Vec::new();
                std::mem::swap(&mut items, &mut self.items);
                items.remove(i);
                proof {
                    let after = before.remove(i as int);
                    assert(texts(items@) =~= after);
                    assert(before.index_of(s@) == i);
                    assert(after.to_set() =~= before.to_set().remove(s@)) by {
                        assert forall|x: Seq<char>| before.contains(x) && x != s@ implies
                            after.contains(x) by {
                            let j = before.index_of(x);
                            if j < i {
                                assert(after[j] == x);
                            } else {
                                assert(after[j - 1] == x);
                            }
                        }
                    }
                }
                self.items = items;
                true
            },
            None => {
                assert(self@ =~= self@.remove(s@));
                false
            },
        }
    }
}

/// A string that is added stands behind all others, unless it is there already:
/// then nothing changes.
pub proof fn law_new_strings_come_last(listing: Seq<Seq<char>>, s: Seq<char>, i: int)
    requires
        0 <= i < listing.len(),
    ensures
        listing_with(listing, s)[i] == listing[i],
        listing.contains(s) ==> listing_with(listing, s).len() == listing.len(),
        !listing.contains(s) ==> listing_with(listing, s).len() == listing.len() + 1,
        !listing.contains(s) ==> listing_with(listing, s)[listing.len() as int] == s,
{
}

/// Adding to an empty listing lists just that string.
pub proof fn law_the_first_string_stands_alone(s: Seq<char>)
    ensures
        listing_with(Seq::empty(), s) == seq![s],
{
    assert(listing_with(Seq::empty(), s) =~= seq![s]);
}

/// A string that is taken out leaves those before it and those behind it, in
/// their order.
pub proof fn law_a_removed_string_leaves_the_others(
    before: Seq<Seq<char>>,
    s: Seq<char>,
    after: Seq<Seq<char>>,
)
    requires
        (before + seq![s] + after).no_duplicates(),
    ensures
        listing_without(before + seq![s] + after, s) == before + after,
{
    let listing = before + seq![s] + after;
    assert(listing[before.len() as int] == s);
    assert(listing.index_of(s) == before.len());
    assert(listing.remove(before.len() as int) =~= before + after);
}

/// Taking out a string that is not there changes nothing.
pub proof fn law_a_missing_string_is_not_removed(listing: Seq<Seq<char>>, s: Seq<char>)
    requires
        !listing.contains(s),
    ensures
        listing_without(listing, s) == listing,
{
}

/// The set of the strings holds what is listed, and nothing else.
pub proof fn law_the_set_is_what_is_listed(set: StringSet, s: Seq<char>)
    ensures
        set@.contains(s) <==> exists|i: int|
            0 <= i < set.listing().len() && #[trigger] set.listing()[i] == s,
{
}

} // verus!
