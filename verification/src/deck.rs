//! A deck of cards: the full 52-card pile, with shuffling and dealing.

use vstd::prelude::*;

use rand::seq::SliceRandom;

use crate::card::{Card, Rank, Suit};

verus! {

/// A wrapper around an ordered vector of [`Card`]s, so that the vector can
/// be treated like an actual deck of cards. The back of the vector is the
/// top of the deck.
#[derive(Clone, Debug, PartialEq)]
pub struct Deck(pub Vec<Card>);

impl View for Deck {
    type V = Seq<Card>;

    open spec fn view(&self) -> Seq<Card> {
        self.0@
    }
}

/// The rank with the given dense ordinal: 0 is Ace, 12 is King.
pub open spec fn rank_of_ordinal(r: int) -> Rank {
    if r == 0 {
        Rank::Ace
    } else if r == 1 {
        Rank::Two
    } else if r == 2 {
        Rank::Three
    } else if r == 3 {
        Rank::Four
    } else if r == 4 {
        Rank::Five
    } else if r == 5 {
        Rank::Six
    } else if r == 6 {
        Rank::Seven
    } else if r == 7 {
        Rank::Eight
    } else if r == 8 {
        Rank::Nine
    } else if r == 9 {
        Rank::Ten
    } else if r == 10 {
        Rank::Jack
    } else if r == 11 {
        Rank::Queen
    } else {
        Rank::King
    }
}

/// The suit order in which a fresh deck is built: Clubs, Diamonds, Hearts,
/// then Spades.
pub open spec fn build_suit_of_index(s: int) -> Suit {
    if s == 0 {
        Suit::Clubs
    } else if s == 1 {
        Suit::Diamonds
    } else if s == 2 {
        Suit::Hearts
    } else {
        Suit::Spades
    }
}

/// The full 52-card deck in construction order: for each suit in build
/// order, the thirteen ranks from Ace to King.
pub open spec fn full_deck() -> Seq<Card> {
    Seq::new(
        52,
        |i: int| Card { rank: rank_of_ordinal(i % 13), suit: build_suit_of_index(i / 13) },
    )
}

/// The executable counterpart of [`rank_of_ordinal`].
fn rank_from_index(r: usize) -> (rank: Rank)
    requires
        r < 13,
    ensures
        rank == rank_of_ordinal(r as int),
{
    match r {
        0 => Rank::Ace,
        1 => Rank::Two,
        2 => Rank::Three,
        3 => Rank::Four,
        4 => Rank::Five,
        5 => Rank::Six,
        6 => Rank::Seven,
        7 => Rank::Eight,
        8 => Rank::Nine,
        9 => Rank::Ten,
        10 => Rank::Jack,
        11 => Rank::Queen,
        _ => Rank::King,
    }
}

/// The executable counterpart of [`build_suit_of_index`].
fn suit_from_index(s: usize) -> (suit: Suit)
    requires
        s < 4,
    ensures
        suit == build_suit_of_index(s as int),
{
    match s {
        0 => Suit::Clubs,
        1 => Suit::Diamonds,
        2 => Suit::Hearts,
        _ => Suit::Spades,
    }
}

/// Relies on rand's `SliceRandom::shuffle`: an in-place Fisher-Yates
/// shuffle, which permutes the elements of the slice.
#[verifier::external_body]
fn shuffle_cards(cards: &mut Vec<Card>)
    ensures
        final(cards)@.to_multiset() == old(cards)@.to_multiset(),
{
    cards.shuffle(&mut rand::thread_rng());
}

impl Deck {
    /// Constructs the full, unshuffled deck, built the same way every
    /// time: for each suit from Clubs to Spades, the ranks from Ace to
    /// King in order.
    pub fn new() -> (d: Deck)
        ensures
            d@ == full_deck(),
            d@.len() == 52,
    {
        let mut cards: Vec<Card> = Vec::new();
        let mut i: usize = 0;

        while i < 52
            invariant
                i <= 52,
                cards@ == full_deck().take(i as int),
            decreases 52 - i,
        {
            proof {
                assert(full_deck().take(i as int).push(full_deck()[i as int]) =~= full_deck().take(
                    i as int + 1,
                ));
            }

            let rank = rank_from_index(i % 13);
            let suit = suit_from_index(i / 13);

            cards.push(Card::new(rank, suit));

            i += 1;
        }

        proof {
            assert(full_deck().take(52) =~= full_deck());
        }

        Deck(cards)
    }

    /// Constructs a deck holding exactly the given cards, in order.
    pub fn new_with_cards(cards: Vec<Card>) -> (d: Deck)
        ensures
            d@ == cards@,
    {
        Deck(cards)
    }

    /// Shuffles the deck in place: afterwards it holds the same cards,
    /// possibly in another order.
    pub fn shuffle(&mut self)
        ensures
            final(self)@.to_multiset() == old(self)@.to_multiset(),
            final(self)@.len() == old(self)@.len(),
    {
        shuffle_cards(&mut self.0);

        proof {
            old(self)@.to_multiset_ensures();
            self@.to_multiset_ensures();
        }
    }

    /// Deals the card at the top (the back) of the deck, or `None` when
    /// the deck is empty.
    pub fn deal(&mut self) -> (r: Option<Card>)
        ensures
            old(self)@.len() > 0 ==> r == Some(old(self)@.last()) && final(self)@ == old(
                self,
            )@.drop_last(),
            old(self)@.len() == 0 ==> r is None && final(self)@ == old(self)@,
    {
        self.0.pop()
    }

    /// Removes the card at the given index, or returns an error when the
    /// index is out of bounds.
    pub fn remove(&mut self, index_of_card: usize) -> (r: Result<Card, String>)
        ensures
            index_of_card < old(self)@.len() ==> r == Ok::<Card, String>(
                old(self)@[index_of_card as int],
            ) && final(self)@ == old(self)@.remove(index_of_card as int),
            index_of_card >= old(self)@.len() ==> r is Err && final(self)@ == old(self)@,
    {
        if self.0.len() <= index_of_card {
            return Err("Out of Bounds!".to_string());
        }

        Ok(self.0.remove(index_of_card))
    }

    /// Returns the vector of [`Card`]s that represents the deck.
    pub fn as_vec(&self) -> (v: &Vec<Card>)
        ensures
            v@ == self@,
    {
        &self.0
    }
}

impl Default for Deck {
    /// The default deck is the full, unshuffled one.
    fn default() -> (d: Deck)
        ensures
            d@ == full_deck(),
    {
        Deck::new()
    }
}

} // verus!
