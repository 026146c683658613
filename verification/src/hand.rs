//! A hand (or crib) of cards: an ordered pile with add, discard and scoring.

use vstd::prelude::*;

use crate::card::Card;
use crate::score;

verus! {

/// A wrapper around an ordered vector of [`Card`]s, so that the vector can
/// be treated like an actual hand of cards.
#[derive(Clone, Debug, PartialEq)]
pub struct Hand(pub Vec<Card>);

impl View for Hand {
    type V = Seq<Card>;

    open spec fn view(&self) -> Seq<Card> {
        self.0@
    }
}

impl Hand {
    /// Constructs a new, empty [`Hand`].
    pub fn new() -> (h: Hand)
        ensures
            h@ == Seq::<Card>::empty(),
    {
        let card_vector: Vec<Card> = Vec::new();

        Hand(card_vector)
    }

    /// Appends a [`Card`] to the [`Hand`].
    pub fn add_card(&mut self, card: Card)
        ensures
            final(self)@ == old(self)@.push(card),
    {
        self.0.push(card);
    }

    /// Discards the [`Card`] at the given index, or returns an error when
    /// the index is out of bounds.
    pub fn discard(&mut self, index_of_card: usize) -> (r: Result<Card, String>)
        ensures
            index_of_card < old(self)@.len() ==> r == Ok::<Card, String>(
                old(self)@[index_of_card as int],
            ) && final(self)@ == old(self)@.remove(index_of_card as int),
            index_of_card >= old(self)@.len() ==> r is Err && final(self)@ == old(self)@,
    {
        if self.0.len() <= index_of_card {
            return Err("Out of Bounds!".to_string());
        }

        Ok(self.0.remove(index_of_card))
    }

    /// Discards the first [`Card`] of the [`Hand`] equal to the given one,
    /// or returns `None` when the hand holds no such card.
    pub fn discard_matching(&mut self, matching_card: &Card) -> (r: Option<Card>)
        ensures
            match r {
                Some(c) => c == *matching_card && exists|i: int|
                    0 <= i < old(self)@.len() && old(self)@[i] == *matching_card && final(self)@
                        == old(self)@.remove(i),
                None => !old(self)@.contains(*matching_card) && final(self)@ == old(self)@,
            },
    {
        let n = self.0.len();
        let mut index: usize = 0;

        while index < n
            invariant
                self@ == old(self)@,
                n == self@.len(),
                index <= n,
                forall|j: int| 0 <= j < index ==> old(self)@[j] != *matching_card,
            decreases n - index,
        {
            if self.0[index] == *matching_card {
                let removed = self.0.remove(index);
                proof {
                    assert(old(self)@[index as int] == *matching_card);
                }
                return Some(removed);
            }

            index += 1;
        }

        proof {
            assert(!old(self)@.contains(*matching_card)) by {
                assert(forall|j: int| 0 <= j < old(self)@.len() ==> old(self)@[j] != *matching_card);
            }
        }

        None
    }

    /// Returns the vector of [`Card`]s that represents the [`Hand`].
    pub fn as_vec(&self) -> (v: &Vec<Card>)
        ensures
            v@ == self@,
    {
        &self.0
    }

    /// Returns the score of the [`Hand`] with the given starter card, per
    /// [`score::total`]. A crib hand only counts a flush when the starter
    /// matches it too.
    pub fn total(&self, starter: &Card, is_crib: bool) -> (s: u32)
        requires
            self@.len() == 4,
        ensures
            s == score::spec_total(self@, *starter, is_crib),
            s <= 536,
    {
        score::total(self, starter, is_crib)
    }

    /// Indicates whether the [`Hand`] holds no cards.
    pub fn is_empty(&self) -> (r: bool)
        ensures
            r == (self@.len() == 0),
    {
        self.0.len() == 0
    }
}

impl Default for Hand {
    /// The default hand is empty.
    fn default() -> (h: Hand)
        ensures
            h@ == Seq::<Card>::empty(),
    {
        Hand::new()
    }
}

impl From<Vec<Card>> for Hand {
    /// Converts a vector of [`Card`]s into a [`Hand`] holding the same
    /// cards in the same order.
    fn from(cards: Vec<Card>) -> (h: Hand) {
        Hand(cards)
    }
}

impl vstd::std_specs::convert::FromSpecImpl<Vec<Card>> for Hand {
    open spec fn obeys_from_spec() -> bool {
        true
    }

    open spec fn from_spec(cards: Vec<Card>) -> Hand {
        Hand(cards)
    }
}

} // verus!
