//! The round orchestration: choosing the dealer, dealing and discarding
//! to the crib, drawing the starter, the play (pegging) phase, the
//! counting phase, and the loop that repeats rounds until a player
//! reaches 121 points.

use vstd::multiset::Multiset;
use vstd::prelude::*;

use crate::card::{Card, Rank, Suit};
use crate::controller::Controller;
use crate::deck::{full_deck, Deck};
use crate::hand::Hand;
use crate::play_data::PlayData;
use crate::player::{append_cards, Player};
use crate::score;

verus! {

/// The suit order used for the cut: Hearts lowest, then Spades, Diamonds,
/// Clubs.
pub open spec fn suit_order(s: Suit) -> int {
    match s {
        Suit::Hearts => 0,
        Suit::Spades => 1,
        Suit::Diamonds => 2,
        Suit::Clubs => 3,
    }
}

/// The total order on cards used for the cut: by rank, then by suit.
pub open spec fn card_key(c: Card) -> int {
    c.rank.ordinal() * 4 + suit_order(c.suit)
}

/// Whether `a` beats `b` in the cut: a higher rank, or the same rank and
/// a higher suit.
pub open spec fn spec_card_beats(a: Card, b: Card) -> bool {
    card_key(a) > card_key(b)
}

/// The multiset of cards spread over the deck and the two players'
/// hands.
pub open spec fn spread_cards(deck: Seq<Card>, hand_1: Seq<Card>, hand_2: Seq<Card>) -> Multiset<
    Card,
> {
    deck.to_multiset().add(hand_1.to_multiset()).add(hand_2.to_multiset())
}

/// Whether two players hold the same cards and points (their controllers
/// may differ in internal state).
pub open spec fn same_cards_and_points<C: Controller>(a: Player<C>, b: Player<C>) -> bool {
    a.hand@ == b.hand@ && a.crib@ == b.crib@ && a.discarded@ == b.discarded@ && a.points
        == b.points
}

/// The executable counterpart of [`suit_order`].
fn suit_order_index(s: Suit) -> (i: u32)
    ensures
        i == suit_order(s),
{
    match s {
        Suit::Hearts => 0,
        Suit::Spades => 1,
        Suit::Diamonds => 2,
        Suit::Clubs => 3,
    }
}

/// The executable counterpart of [`spec_card_beats`].
fn card_beats(a: &Card, b: &Card) -> (r: bool)
    ensures
        r == spec_card_beats(*a, *b),
{
    let key_a = (a.rank.index() as u32) * 4 + suit_order_index(a.suit);
    let key_b = (b.rank.index() as u32) * 4 + suit_order_index(b.suit);

    key_a > key_b
}

/// The struct holding all the data needed for playing a game of cribbage:
/// the dealer, the pone (the non-dealer), and the deck.
#[derive(Debug, PartialEq)]
pub struct Game<C: Controller> {
    pub dealer: Player<C>,
    pub pone: Player<C>,
    pub deck: Deck,
}

impl<C: Controller> Game<C> {
    /// Creates a new [`Game`] with the given players and a freshly
    /// shuffled full deck. The first player starts as the dealer until
    /// the cut decides.
    pub fn new(player_1: Player<C>, player_2: Player<C>) -> (g: Game<C>)
        ensures
            g.dealer == player_1,
            g.pone == player_2,
            g.deck@.len() == 52,
            g.deck@.to_multiset() == full_deck().to_multiset(),
    {
        let mut deck = Deck::new();

        deck.shuffle();

        Game { dealer: player_1, pone: player_2, deck }
    }

    /// Creates a new [`Game`] with the given players and deck, intended
    /// for scripted games.
    pub fn new_with_deck(player_1: Player<C>, player_2: Player<C>, deck: Deck) -> (g: Game<C>)
        ensures
            g.dealer == player_1,
            g.pone == player_2,
            g.deck == deck,
    {
        Game { dealer: player_1, pone: player_2, deck }
    }

    /// Indicates whether either player has won: a game is won at 121
    /// points.
    pub fn player_has_won(&self) -> (r: bool)
        ensures
            r == (self.dealer.points >= 121 || self.pone.points >= 121),
    {
        (121 <= self.dealer.points) || (121 <= self.pone.points)
    }

    /// Each player cuts a card from a copy of the deck; the higher card
    /// (by rank, then by suit) wins, and the winner becomes the dealer.
    /// The deck itself is left untouched. When a controller yields no
    /// cut card, the players stay as they are.
    pub fn choose_dealer(&mut self)
        ensures
            final(self).deck == old(self).deck,
            (same_cards_and_points(final(self).dealer, old(self).dealer)
                && same_cards_and_points(final(self).pone, old(self).pone))
                || (same_cards_and_points(final(self).dealer, old(self).pone)
                && same_cards_and_points(final(self).pone, old(self).dealer)),
    {
        let mut temp_cards: Vec<Card> = Vec::new();
        append_cards(&mut temp_cards, self.deck.as_vec());
        let mut temp_deck = Deck::new_with_cards(temp_cards);

        let dealer_chosen_card = self.dealer.choose_card_for_cut(&mut temp_deck);
        let pone_chosen_card = self.pone.choose_card_for_cut(&mut temp_deck);

        match (dealer_chosen_card, pone_chosen_card) {
            (Some(dealer_card), Some(pone_card)) => {
                let dealer_won = card_beats(&dealer_card, &pone_card);

                if !dealer_won {
                    core::mem::swap(&mut self.dealer, &mut self.pone);
                }
            },
            _ => {
                // a controller yielded no cut card: keep the seating
            },
        }
    }

    /// Deals six cards to each player, then lets each player discard two
    /// cards, which become the dealer's crib. Returns `false`, leaving a
    /// partial deal behind, when a controller gives no usable index for a
    /// discard.
    pub fn run_deal_and_discard_round(&mut self) -> (ok: bool)
        requires
            old(self).deck@.len() >= 12,
        ensures
            final(self).dealer.points == old(self).dealer.points,
            final(self).pone.points == old(self).pone.points,
            final(self).dealer.discarded == old(self).dealer.discarded,
            final(self).pone.discarded == old(self).pone.discarded,
            final(self).pone.crib == old(self).pone.crib,
            ok ==> final(self).deck@.len() == old(self).deck@.len() - 12,
            ok ==> final(self).dealer.hand@.len() == old(self).dealer.hand@.len() + 4,
            ok ==> final(self).pone.hand@.len() == old(self).pone.hand@.len() + 4,
            ok ==> final(self).dealer.crib@.len() == 4,
            // no card is invented or lost: what was in the deck and the
            // hands is now spread over the deck, the hands and the crib
            ok ==> spread_cards(
                final(self).deck@,
                final(self).dealer.hand@,
                final(self).pone.hand@,
            ).add(final(self).dealer.crib@.to_multiset()) == spread_cards(
                old(self).deck@,
                old(self).dealer.hand@,
                old(self).pone.hand@,
            ),
    {
        let mut deal: usize = 0;

        while deal < 6
            invariant
                deal <= 6,
                self.deck@.len() == old(self).deck@.len() - 2 * deal,
                old(self).deck@.len() >= 12,
                self.dealer.hand@.len() == old(self).dealer.hand@.len() + deal,
                self.pone.hand@.len() == old(self).pone.hand@.len() + deal,
                self.dealer.crib == old(self).dealer.crib,
                self.pone.crib == old(self).pone.crib,
                self.dealer.discarded == old(self).dealer.discarded,
                self.pone.discarded == old(self).pone.discarded,
                self.dealer.points == old(self).dealer.points,
                self.pone.points == old(self).pone.points,
                spread_cards(self.deck@, self.dealer.hand@, self.pone.hand@) == spread_cards(
                    old(self).deck@,
                    old(self).dealer.hand@,
                    old(self).pone.hand@,
                ),
            decreases 6 - deal,
        {
            let ghost deck_before = self.deck@;
            let ghost dealer_hand_before = self.dealer.hand@;
            let ghost pone_hand_before = self.pone.hand@;

            let card_1 = match self.deck.deal() {
                Some(card) => card,
                None => {
                    return false;
                },
            };
            let card_2 = match self.deck.deal() {
                Some(card) => card,
                None => {
                    return false;
                },
            };

            self.dealer.add_card(card_1);
            self.pone.add_card(card_2);

            proof {
                deck_before.to_multiset_ensures();
                deck_before.drop_last().to_multiset_ensures();
                dealer_hand_before.to_multiset_ensures();
                pone_hand_before.to_multiset_ensures();
                assert(deck_before.drop_last() =~= deck_before.remove(deck_before.len() - 1));
                assert(deck_before.drop_last().drop_last() =~= deck_before.drop_last().remove(
                    deck_before.drop_last().len() - 1,
                ));
                assert(deck_before.contains(deck_before.last()));
                assert(deck_before.drop_last().contains(deck_before.drop_last().last()));
                assert(spread_cards(self.deck@, self.dealer.hand@, self.pone.hand@)
                    =~= spread_cards(
                    old(self).deck@,
                    old(self).dealer.hand@,
                    old(self).pone.hand@,
                ));
            }

            deal += 1;
        }

        let mut discards: Vec<Card> = Vec::new();
        let mut round: usize = 0;

        proof {
            discards@.to_multiset_ensures();
            assert(spread_cards(self.deck@, self.dealer.hand@, self.pone.hand@).add(
                discards@.to_multiset(),
            ) =~= spread_cards(old(self).deck@, old(self).dealer.hand@, old(self).pone.hand@));
        }

        while round < 2
            invariant
                round <= 2,
                discards@.len() == 2 * round,
                self.deck@.len() == old(self).deck@.len() - 12,
                self.dealer.hand@.len() == old(self).dealer.hand@.len() + 6 - round,
                self.pone.hand@.len() == old(self).pone.hand@.len() + 6 - round,
                self.dealer.crib == old(self).dealer.crib,
                self.pone.crib == old(self).pone.crib,
                self.dealer.discarded == old(self).dealer.discarded,
                self.pone.discarded == old(self).pone.discarded,
                self.dealer.points == old(self).dealer.points,
                self.pone.points == old(self).pone.points,
                spread_cards(self.deck@, self.dealer.hand@, self.pone.hand@).add(
                    discards@.to_multiset(),
                ) == spread_cards(
                    old(self).deck@,
                    old(self).dealer.hand@,
                    old(self).pone.hand@,
                ),
            decreases 2 - round,
        {
            let ghost pone_hand_before = self.pone.hand@;
            let ghost discards_before = discards@;

            let pone_discard = match self.pone.remove_card() {
                Some(card) => card,
                None => {
                    return false;
                },
            };
            discards.push(pone_discard);

            proof {
                pone_hand_before.to_multiset_ensures();
                discards_before.to_multiset_ensures();
                let i = choose|i: int|
                    0 <= i < pone_hand_before.len() && pone_discard == pone_hand_before[i]
                        && self.pone.hand@ == pone_hand_before.remove(i);
                assert(pone_hand_before.contains(pone_hand_before[i]));
                assert(spread_cards(self.deck@, self.dealer.hand@, self.pone.hand@).add(
                    discards@.to_multiset(),
                ) =~= spread_cards(
                    old(self).deck@,
                    old(self).dealer.hand@,
                    old(self).pone.hand@,
                ));
            }

            let ghost dealer_hand_before = self.dealer.hand@;
            let ghost discards_mid = discards@;

            let dealer_discard = match self.dealer.remove_card() {
                Some(card) => card,
                None => {
                    return false;
                },
            };
            discards.push(dealer_discard);

            proof {
                dealer_hand_before.to_multiset_ensures();
                discards_mid.to_multiset_ensures();
                let i = choose|i: int|
                    0 <= i < dealer_hand_before.len() && dealer_discard == dealer_hand_before[i]
                        && self.dealer.hand@ == dealer_hand_before.remove(i);
                assert(dealer_hand_before.contains(dealer_hand_before[i]));
                assert(spread_cards(self.deck@, self.dealer.hand@, self.pone.hand@).add(
                    discards@.to_multiset(),
                ) =~= spread_cards(
                    old(self).deck@,
                    old(self).dealer.hand@,
                    old(self).pone.hand@,
                ));
            }

            round += 1;
        }

        self.dealer.crib = Hand::from(discards);

        true
    }

    /// Deals the starter card from the top of the deck. When the starter
    /// is a Jack, the dealer scores 2 points ("his heels").
    pub fn get_starter(&mut self) -> (starter: Card)
        requires
            old(self).deck@.len() > 0,
            old(self).dealer.points + 2 <= u32::MAX,
        ensures
            starter == old(self).deck@.last(),
            final(self).deck@ == old(self).deck@.drop_last(),
            final(self).dealer.points == old(self).dealer.points + (if starter.rank == Rank::Jack {
                2int
            } else {
                0int
            }),
            final(self).dealer.hand == old(self).dealer.hand,
            final(self).dealer.crib == old(self).dealer.crib,
            final(self).dealer.discarded == old(self).dealer.discarded,
            final(self).pone == old(self).pone,
    {
        let starter = match self.deck.deal() {
            Some(card) => card,
            None => Card::new(Rank::Ace, Suit::Hearts),
        };

        if starter.rank == Rank::Jack {
            self.dealer.points = self.dealer.points + 2;
        }

        starter
    }

    /// Runs the play (pegging) phase: starting with the pone, the players
    /// alternately put a card on the stack, scoring incrementally, with
    /// the stack reset whenever neither player can extend it. The phase
    /// ends when both hands are empty, when a player reaches 121 points,
    /// or at a turn ceiling that guards against a broken controller.
    /// Afterwards the played cards return to their owners' hands.
    pub fn run_play_round(&mut self)
        requires
            old(self).dealer.points <= 120,
            old(self).pone.points <= 120,
        ensures
            final(self).deck == old(self).deck,
            final(self).dealer.crib == old(self).dealer.crib,
            final(self).pone.crib == old(self).pone.crib,
            final(self).dealer.hand@.len() == old(self).dealer.hand@.len() + old(
                self,
            ).dealer.discarded@.len(),
            final(self).pone.hand@.len() == old(self).pone.hand@.len() + old(
                self,
            ).pone.discarded@.len(),
            final(self).dealer.discarded@.len() == 0,
            final(self).pone.discarded@.len() == 0,
            final(self).dealer.points >= old(self).dealer.points,
            final(self).pone.points >= old(self).pone.points,
            final(self).dealer.points <= 144,
            final(self).pone.points <= 144,
            // the played cards return to their owners
            final(self).dealer.hand@.to_multiset() == old(self).dealer.hand@.to_multiset().add(
                old(self).dealer.discarded@.to_multiset(),
            ),
            final(self).pone.hand@.to_multiset() == old(self).pone.hand@.to_multiset().add(
                old(self).pone.discarded@.to_multiset(),
            ),
    {
        let mut turn: usize = 0;
        let mut iterations: usize = 0;
        let mut someone_won = false;
        let mut play_data = PlayData::new();

        while (self.dealer.has_cards_in_hand() || self.pone.has_cards_in_hand()) && !someone_won
            && turn <= 100 && iterations < 250
            invariant
                play_data.wf(),
                self.deck == old(self).deck,
                self.dealer.crib == old(self).dealer.crib,
                self.pone.crib == old(self).pone.crib,
                self.dealer.hand@.len() + self.dealer.discarded@.len() == old(
                    self,
                ).dealer.hand@.len() + old(self).dealer.discarded@.len(),
                self.pone.hand@.len() + self.pone.discarded@.len() == old(self).pone.hand@.len()
                    + old(self).pone.discarded@.len(),
                self.dealer.points >= old(self).dealer.points,
                self.pone.points >= old(self).pone.points,
                self.dealer.points <= 144,
                self.pone.points <= 144,
                !someone_won ==> self.dealer.points <= 120 && self.pone.points <= 120,
                self.dealer.hand@.to_multiset().add(self.dealer.discarded@.to_multiset()) == old(
                    self,
                ).dealer.hand@.to_multiset().add(old(self).dealer.discarded@.to_multiset()),
                self.pone.hand@.to_multiset().add(self.pone.discarded@.to_multiset()) == old(
                    self,
                ).pone.hand@.to_multiset().add(old(self).pone.discarded@.to_multiset()),
            decreases 250 - iterations,
        {
            let ghost dealer_hand_before = self.dealer.hand@;
            let ghost dealer_discarded_before = self.dealer.discarded@;
            let ghost pone_hand_before = self.pone.hand@;
            let ghost pone_discarded_before = self.pone.discarded@;

            if turn % 2 == 0 {
                play_data.play_once(&mut self.pone, &self.dealer);
            } else {
                play_data.play_once(&mut self.dealer, &self.pone);
            }

            proof {
                dealer_hand_before.to_multiset_ensures();
                dealer_discarded_before.to_multiset_ensures();
                pone_hand_before.to_multiset_ensures();
                pone_discarded_before.to_multiset_ensures();

                if self.pone.hand@.len() != pone_hand_before.len() {
                    let i = choose|i: int|
                        0 <= i < pone_hand_before.len() && self.pone.hand@
                            == pone_hand_before.remove(i) && self.pone.discarded@
                            == pone_discarded_before.push(pone_hand_before[i]);
                    assert(pone_hand_before.contains(pone_hand_before[i]));
                    assert(self.pone.hand@.to_multiset() == pone_hand_before.to_multiset().remove(
                        pone_hand_before[i],
                    ));
                    assert(self.pone.discarded@.to_multiset()
                        =~= pone_discarded_before.to_multiset().insert(pone_hand_before[i]));
                }

                if self.dealer.hand@.len() != dealer_hand_before.len() {
                    let i = choose|i: int|
                        0 <= i < dealer_hand_before.len() && self.dealer.hand@
                            == dealer_hand_before.remove(i) && self.dealer.discarded@
                            == dealer_discarded_before.push(dealer_hand_before[i]);
                    assert(dealer_hand_before.contains(dealer_hand_before[i]));
                    assert(self.dealer.hand@.to_multiset()
                        == dealer_hand_before.to_multiset().remove(dealer_hand_before[i]));
                    assert(self.dealer.discarded@.to_multiset()
                        =~= dealer_discarded_before.to_multiset().insert(dealer_hand_before[i]));
                }

                assert(self.dealer.hand@.to_multiset().add(self.dealer.discarded@.to_multiset())
                    =~= dealer_hand_before.to_multiset().add(
                    dealer_discarded_before.to_multiset(),
                ));
                assert(self.pone.hand@.to_multiset().add(self.pone.discarded@.to_multiset())
                    =~= pone_hand_before.to_multiset().add(pone_discarded_before.to_multiset()));
            }

            if (121 <= self.dealer.points) || (121 <= self.pone.points) {
                someone_won = true;
            } else {
                let reset = play_data.reset_if_needed(&self.dealer, &self.pone);

                if !reset {
                    turn += 1;
                }
            }

            iterations += 1;
        }

        let ghost dealer_hand_played = self.dealer.hand@;
        let ghost dealer_discarded_played = self.dealer.discarded@;
        let ghost pone_hand_played = self.pone.hand@;
        let ghost pone_discarded_played = self.pone.discarded@;

        self.dealer.gather_discarded();
        self.pone.gather_discarded();

        proof {
            vstd::seq_lib::lemma_multiset_commutative(dealer_hand_played, dealer_discarded_played);
            vstd::seq_lib::lemma_multiset_commutative(pone_hand_played, pone_discarded_played);
        }
    }

    /// Runs the counting phase: the pone's hand is scored first, then, if
    /// the pone has not already won, the dealer's hand and crib, all with
    /// the shared starter card.
    pub fn run_counting_round(&mut self, starter: &Card)
        requires
            old(self).pone.hand@.len() == 4,
            old(self).dealer.hand@.len() == 4,
            old(self).dealer.crib@.len() == 4,
            old(self).pone.points + 1100 <= u32::MAX,
            old(self).dealer.points + 1100 <= u32::MAX,
        ensures
            final(self).deck == old(self).deck,
            final(self).pone.points == old(self).pone.points + score::spec_total(
                old(self).pone.hand@,
                *starter,
                false,
            ),
            final(self).pone.hand == old(self).pone.hand,
            final(self).pone.crib == old(self).pone.crib,
            final(self).pone.discarded == old(self).pone.discarded,
            final(self).dealer.hand == old(self).dealer.hand,
            final(self).dealer.crib == old(self).dealer.crib,
            final(self).dealer.discarded == old(self).dealer.discarded,
            final(self).pone.points >= 121 ==> final(self).dealer.points == old(
                self,
            ).dealer.points,
            final(self).pone.points < 121 ==> final(self).dealer.points == old(self).dealer.points
                + score::spec_total(old(self).dealer.hand@, *starter, false) + score::spec_total(
                old(self).dealer.crib@,
                *starter,
                true,
            ),
    {
        let pone_hand_score = self.pone.hand.total(starter, false);
        self.pone.points = self.pone.points + pone_hand_score;

        if 121 <= self.pone.points {
            return ;
        }

        let dealer_hand_score = self.dealer.hand.total(starter, false);
        self.dealer.points = self.dealer.points + dealer_hand_score;

        let dealer_crib_score = self.dealer.crib.total(starter, true);
        self.dealer.points = self.dealer.points + dealer_crib_score;
    }

    /// Drains every card the players hold back into the deck, together
    /// with the starter, after the remaining deck cards.
    pub fn reset_deck(&mut self, starter: Card)
        ensures
            final(self).deck@ == old(self).deck@ + old(self).dealer.hand@ + old(
                self,
            ).dealer.crib@ + old(self).dealer.discarded@ + old(self).pone.hand@ + old(
                self,
            ).pone.crib@ + old(self).pone.discarded@ + seq![starter],
            final(self).dealer.hand@ == Seq::<Card>::empty(),
            final(self).dealer.crib@ == Seq::<Card>::empty(),
            final(self).dealer.discarded@ == Seq::<Card>::empty(),
            final(self).pone.hand@ == Seq::<Card>::empty(),
            final(self).pone.crib@ == Seq::<Card>::empty(),
            final(self).pone.discarded@ == Seq::<Card>::empty(),
            final(self).dealer.points == old(self).dealer.points,
            final(self).pone.points == old(self).pone.points,
    {
        let mut remaining_deck_cards: Vec<Card> = Vec::new();

        append_cards(&mut remaining_deck_cards, self.deck.as_vec());

        let dealer_cards = self.dealer.remove_all();
        append_cards(&mut remaining_deck_cards, &dealer_cards);

        let pone_cards = self.pone.remove_all();
        append_cards(&mut remaining_deck_cards, &pone_cards);

        remaining_deck_cards.push(starter);

        self.deck = Deck::new_with_cards(remaining_deck_cards);
    }

    /// Replaces the deck with the given one and empties both players'
    /// cards, keeping their points. Intended for scripted games.
    pub fn reset_deck_with(&mut self, deck: Deck)
        ensures
            final(self).deck == deck,
            final(self).dealer.hand@ == Seq::<Card>::empty(),
            final(self).dealer.crib@ == Seq::<Card>::empty(),
            final(self).dealer.discarded@ == Seq::<Card>::empty(),
            final(self).pone.hand@ == Seq::<Card>::empty(),
            final(self).pone.crib@ == Seq::<Card>::empty(),
            final(self).pone.discarded@ == Seq::<Card>::empty(),
            final(self).dealer.points == old(self).dealer.points,
            final(self).pone.points == old(self).pone.points,
    {
        self.deck = deck;

        self.dealer.reset();
        self.pone.reset();
    }

    /// Swaps the dealer and the pone.
    pub fn swap_dealer_and_pone(&mut self)
        ensures
            final(self).dealer == old(self).pone,
            final(self).pone == old(self).dealer,
            final(self).deck == old(self).deck,
    {
        core::mem::swap(&mut self.dealer, &mut self.pone);
    }

    /// Plays a full game: the cut chooses the dealer, then rounds of
    /// dealing, pegging and counting alternate, with the dealer and pone
    /// swapping each round, until a player reaches 121 points. Returns
    /// whether the game finished with a winner; it stops early, returning
    /// `false`, when a controller stops supplying usable moves or a round
    /// ceiling is hit.
    ///
    /// When `reset_with_deck` is `Some`, each round ends by restoring
    /// that deck instead of gathering the cards back; this is intended
    /// for scripted games.
    pub fn play(&mut self, reset_with_deck: &Option<Deck>) -> (finished: bool)
        requires
            old(self).deck@.len() >= 13,
            old(self).dealer.hand@.len() == 0,
            old(self).dealer.crib@.len() == 0,
            old(self).dealer.discarded@.len() == 0,
            old(self).pone.hand@.len() == 0,
            old(self).pone.crib@.len() == 0,
            old(self).pone.discarded@.len() == 0,
            old(self).dealer.points <= 120,
            old(self).pone.points <= 120,
            reset_with_deck matches Some(deck) ==> deck@.len() >= 13,
        ensures
            finished == (final(self).dealer.points >= 121 || final(self).pone.points >= 121),
    {
        self.choose_dealer();

        let mut round: usize = 0;
        let mut done = false;
        let mut finished = false;

        while !done && round < 1000
            invariant
                reset_with_deck matches Some(deck) ==> deck@.len() >= 13,
                !done ==> self.deck@.len() >= 13,
                !done ==> self.dealer.hand@.len() == 0 && self.dealer.crib@.len() == 0
                    && self.dealer.discarded@.len() == 0,
                !done ==> self.pone.hand@.len() == 0 && self.pone.crib@.len() == 0
                    && self.pone.discarded@.len() == 0,
                !finished ==> self.dealer.points <= 120 && self.pone.points <= 120,
                finished ==> self.dealer.points >= 121 || self.pone.points >= 121,
                finished ==> done,
            decreases 1000 - round,
        {
            let deck_len_before = Ghost(self.deck@.len());

            let ok = self.run_deal_and_discard_round();

            if !ok {
                done = true;
            } else {
                let starter = self.get_starter();

                if self.player_has_won() {
                    finished = true;
                    done = true;
                } else {
                    self.run_play_round();

                    if self.player_has_won() {
                        finished = true;
                        done = true;
                    } else {
                        self.run_counting_round(&starter);

                        if self.player_has_won() {
                            finished = true;
                            done = true;
                        } else {
                            match reset_with_deck {
                                Some(deck) => {
                                    let mut deck_cards: Vec<Card> = Vec::new();
                                    append_cards(&mut deck_cards, deck.as_vec());
                                    self.reset_deck_with(Deck::new_with_cards(deck_cards));
                                },
                                None => {
                                    self.reset_deck(starter);
                                },
                            }

                            self.swap_dealer_and_pone();
                        }
                    }
                }
            }

            round += 1;
        }

        finished
    }

    /// Plays a full game with the default round reset: the cards gather
    /// back into the deck each round. See [`Game::play`].
    pub fn play_default(&mut self) -> (finished: bool)
        requires
            old(self).deck@.len() >= 13,
            old(self).dealer.hand@.len() == 0,
            old(self).dealer.crib@.len() == 0,
            old(self).dealer.discarded@.len() == 0,
            old(self).pone.hand@.len() == 0,
            old(self).pone.crib@.len() == 0,
            old(self).pone.discarded@.len() == 0,
            old(self).dealer.points <= 120,
            old(self).pone.points <= 120,
        ensures
            finished == (final(self).dealer.points >= 121 || final(self).pone.points >= 121),
    {
        self.play(&None)
    }
}

} // verus!
