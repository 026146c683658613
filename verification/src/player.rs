//! A player: a hand, a crib, a discard pile, a point total, and the
//! controller that chooses which card to play.

use vstd::prelude::*;

use crate::card::Card;
use crate::controller::Controller;
use crate::deck::Deck;
use crate::hand::Hand;

verus! {

/// Whether the hand holds a card whose point value is at most `value`.
pub open spec fn has_card_at_most(hand: Seq<Card>, value: int) -> bool {
    exists|i: int| 0 <= i < hand.len() && (#[trigger] hand[i]).value() <= value
}

/// The representation of a player.
///
/// The discard pile is needed because during the play phase a player's
/// cards go onto the shared stack; they return to the hand when the phase
/// ends. The controller chooses the indices of the cards to play.
#[derive(Clone, Debug, PartialEq)]
pub struct Player<C: Controller> {
    pub controller: C,
    pub discarded: Vec<Card>,
    pub crib: Hand,
    pub hand: Hand,
    pub points: u32,
}

impl<C: Controller> Player<C> {
    /// Creates a new [`Player`] with the given controller and no cards.
    pub fn new(controller: C) -> (p: Player<C>)
        ensures
            p.controller == controller,
            p.discarded@ == Seq::<Card>::empty(),
            p.crib@ == Seq::<Card>::empty(),
            p.hand@ == Seq::<Card>::empty(),
            p.points == 0,
    {
        Player {
            controller,
            discarded: Vec::new(),
            crib: Hand::new(),
            hand: Hand::new(),
            points: 0,
        }
    }

    /// Creates a new [`Player`] with the given controller and hand.
    pub fn new_with_cards(controller: C, cards: Vec<Card>) -> (p: Player<C>)
        ensures
            p.controller == controller,
            p.discarded@ == Seq::<Card>::empty(),
            p.crib@ == Seq::<Card>::empty(),
            p.hand@ == cards@,
            p.points == 0,
    {
        Player {
            controller,
            discarded: Vec::new(),
            crib: Hand::new(),
            hand: Hand::from(cards),
            points: 0,
        }
    }

    /// Creates a new [`Player`] with the given controller, hand and crib.
    pub fn new_with_cards_and_crib(controller: C, hand_cards: Vec<Card>, crib_cards: Vec<Card>) -> (p:
        Player<C>)
        ensures
            p.controller == controller,
            p.discarded@ == Seq::<Card>::empty(),
            p.crib@ == crib_cards@,
            p.hand@ == hand_cards@,
            p.points == 0,
    {
        Player {
            controller,
            discarded: Vec::new(),
            crib: Hand::from(crib_cards),
            hand: Hand::from(hand_cards),
            points: 0,
        }
    }

    /// Adds a card to the player's hand.
    pub fn add_card(&mut self, card: Card)
        ensures
            final(self).hand@ == old(self).hand@.push(card),
            final(self).crib == old(self).crib,
            final(self).discarded == old(self).discarded,
            final(self).points == old(self).points,
            final(self).controller == old(self).controller,
    {
        self.hand.add_card(card);
    }

    /// Adds a card to the player's crib.
    pub fn add_card_to_crib(&mut self, card: Card)
        ensures
            final(self).crib@ == old(self).crib@.push(card),
            final(self).hand == old(self).hand,
            final(self).discarded == old(self).discarded,
            final(self).points == old(self).points,
            final(self).controller == old(self).controller,
    {
        self.crib.add_card(card);
    }

    /// Indicates whether the player holds cards in their hand.
    pub fn has_cards_in_hand(&self) -> (r: bool)
        ensures
            r == (self.hand@.len() > 0),
    {
        !self.hand.is_empty()
    }

    /// Indicates whether the player holds cards in their hand, crib or
    /// discard pile.
    pub fn has_cards(&self) -> (r: bool)
        ensures
            r == (self.hand@.len() > 0 || self.crib@.len() > 0 || self.discarded@.len() > 0),
    {
        !self.hand.is_empty() || !self.crib.is_empty() || self.discarded.len() > 0
    }

    /// Lets the controller choose a card for the cut from the given deck;
    /// the chosen card is removed from the deck and returned. Returns
    /// `None`, leaving the deck unchanged, when the controller gives no
    /// usable index.
    pub fn choose_card_for_cut(&mut self, deck: &mut Deck) -> (r: Option<Card>)
        ensures
            final(self).hand == old(self).hand,
            final(self).crib == old(self).crib,
            final(self).discarded == old(self).discarded,
            final(self).points == old(self).points,
            match r {
                Some(c) => exists|i: int|
                    0 <= i < old(deck)@.len() && c == old(deck)@[i] && final(deck)@ == old(
                        deck,
                    )@.remove(i),
                None => final(deck)@ == old(deck)@,
            },
    {
        let chosen = self.controller.get_card_index(deck.as_vec());

        match chosen {
            Some(index) => {
                if index < deck.as_vec().len() {
                    match deck.remove(index) {
                        Ok(card) => Some(card),
                        Err(_) => None,
                    }
                } else {
                    None
                }
            },
            None => None,
        }
    }

    /// Discards a card from the hand, chosen by the controller, and adds
    /// it to the discard pile. Returns `None`, changing nothing, when the
    /// controller gives no usable index.
    pub fn discard(&mut self) -> (r: Option<Card>)
        ensures
            final(self).crib == old(self).crib,
            final(self).points == old(self).points,
            match r {
                Some(c) => exists|i: int|
                    0 <= i < old(self).hand@.len() && c == old(self).hand@[i] && final(self).hand@
                        == old(self).hand@.remove(i) && final(self).discarded@ == old(
                        self,
                    ).discarded@.push(c),
                None => final(self).hand == old(self).hand && final(self).discarded == old(
                    self,
                ).discarded,
            },
    {
        let chosen = self.controller.get_card_index(self.hand.as_vec());

        match chosen {
            Some(index) => {
                if index < self.hand.as_vec().len() {
                    match self.hand.discard(index) {
                        Ok(card) => {
                            self.discarded.push(card);
                            Some(card)
                        },
                        Err(_) => None,
                    }
                } else {
                    None
                }
            },
            None => None,
        }
    }

    /// Returns the last card discarded, if any.
    pub fn last_discarded(&self) -> (r: Option<&Card>)
        ensures
            match r {
                Some(c) => self.discarded@.len() > 0 && *c == self.discarded@.last(),
                None => self.discarded@.len() == 0,
            },
    {
        let n = self.discarded.len();

        if n == 0 {
            None
        } else {
            Some(&self.discarded[n - 1])
        }
    }

    /// Removes a card from the hand, chosen by the controller, without
    /// adding it to the discard pile. Returns `None`, changing nothing,
    /// when the controller gives no usable index.
    pub fn remove_card(&mut self) -> (r: Option<Card>)
        ensures
            final(self).crib == old(self).crib,
            final(self).discarded == old(self).discarded,
            final(self).points == old(self).points,
            match r {
                Some(c) => exists|i: int|
                    0 <= i < old(self).hand@.len() && c == old(self).hand@[i] && final(self).hand@
                        == old(self).hand@.remove(i),
                None => final(self).hand == old(self).hand,
            },
    {
        let chosen = self.controller.get_card_index(self.hand.as_vec());

        match chosen {
            Some(index) => {
                if index < self.hand.as_vec().len() {
                    match self.hand.discard(index) {
                        Ok(card) => Some(card),
                        Err(_) => None,
                    }
                } else {
                    None
                }
            },
            None => None,
        }
    }

    /// Moves every card of the discard pile back into the hand, in order.
    pub fn gather_discarded(&mut self)
        ensures
            final(self).hand@ == old(self).hand@ + old(self).discarded@,
            final(self).discarded@ == Seq::<Card>::empty(),
            final(self).crib == old(self).crib,
            final(self).points == old(self).points,
            final(self).controller == old(self).controller,
    {
        let n = self.discarded.len();
        let mut i: usize = 0;

        while i < n
            invariant
                i <= n,
                n == self.discarded@.len(),
                self.discarded@ == old(self).discarded@,
                self.crib == old(self).crib,
                self.points == old(self).points,
                self.controller == old(self).controller,
                self.hand@ == old(self).hand@ + old(self).discarded@.take(i as int),
            decreases n - i,
        {
            proof {
                assert((old(self).hand@ + old(self).discarded@.take(i as int)).push(
                    old(self).discarded@[i as int],
                ) =~= old(self).hand@ + old(self).discarded@.take(i as int + 1));
            }

            let card = self.discarded[i];
            self.hand.add_card(card);
            i += 1;
        }

        proof {
            assert(old(self).discarded@.take(n as int) =~= old(self).discarded@);
        }

        self.discarded = Vec::new();
    }

    /// Indicates whether the player holds a card whose point value is at
    /// most the given value.
    pub fn has_card_with_score_at_most(&self, value: u32) -> (r: bool)
        ensures
            r == has_card_at_most(self.hand@, value as int),
    {
        let cards = self.hand.as_vec();
        let mut i: usize = 0;

        while i < cards.len()
            invariant
                i <= cards@.len(),
                cards@ == self.hand@,
                forall|j: int| 0 <= j < i ==> (#[trigger] self.hand@[j]).value() > value,
            decreases cards@.len() - i,
        {
            if cards[i].score() <= value {
                return true;
            }
            i += 1;
        }

        false
    }

    /// Indicates whether the player has a crib.
    pub fn has_crib(&self) -> (r: bool)
        ensures
            r == (self.crib@.len() > 0),
    {
        self.crib.as_vec().len() > 0
    }

    /// Removes and returns every card the player holds: first the hand,
    /// then the crib, then the discard pile.
    pub fn remove_all(&mut self) -> (r: Vec<Card>)
        ensures
            r@ == old(self).hand@ + old(self).crib@ + old(self).discarded@,
            final(self).hand@ == Seq::<Card>::empty(),
            final(self).crib@ == Seq::<Card>::empty(),
            final(self).discarded@ == Seq::<Card>::empty(),
            final(self).points == old(self).points,
            final(self).controller == old(self).controller,
    {
        let mut result: Vec<Card> = Vec::new();

        append_cards(&mut result, self.hand.as_vec());
        append_cards(&mut result, self.crib.as_vec());
        append_cards(&mut result, &self.discarded);

        self.reset();

        result
    }

    /// Empties the player's hand, crib and discard pile, keeping the
    /// points.
    pub fn reset(&mut self)
        ensures
            final(self).hand@ == Seq::<Card>::empty(),
            final(self).crib@ == Seq::<Card>::empty(),
            final(self).discarded@ == Seq::<Card>::empty(),
            final(self).points == old(self).points,
            final(self).controller == old(self).controller,
    {
        self.hand = Hand::new();
        self.crib = Hand::new();
        self.discarded = Vec::new();
    }
}

/// Appends a copy of every card of `source` to `target`, in order.
pub(crate) fn append_cards(target: &mut Vec<Card>, source: &Vec<Card>)
    ensures
        final(target)@ == old(target)@ + source@,
{
    let mut i: usize = 0;

    while i < source.len()
        invariant
            i <= source@.len(),
            target@ == old(target)@ + source@.take(i as int),
        decreases source@.len() - i,
    {
        proof {
            assert((old(target)@ + source@.take(i as int)).push(source@[i as int]) =~= old(
                target,
            )@ + source@.take(i as int + 1));
        }

        target.push(source[i]);
        i += 1;
    }

    proof {
        assert(old(target)@ + source@.take(source@.len() as int) =~= old(target)@ + source@);
    }
}

} // verus!
