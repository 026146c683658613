//! The pegging engine: a resettable stack of played cards with a running
//! score, and the incremental points awarded on each play.
//!
//! Each check has a specification function and an executable counterpart
//! proved to match it:
//!   * [`PlayData::largest_run_points`] looks for the longest run (length
//!     7 down to 3) among a window of the most recently played cards, and
//!     scores its length.
//!   * [`PlayData::pairs_points`] counts how many cards immediately under
//!     the top card share its rank without a gap, scoring 2, 6 or 12.
//!   * [`PlayData::fifteen_points`] and [`PlayData::thirty_one_points`]
//!     score 2 when the stack total is exactly 15 or exactly 31.
//!   * The GO point is awarded after a play when neither player can extend
//!     the stack, unless that play made the total exactly 31 (the 31 bonus
//!     supersedes the GO point on that play).

use vstd::prelude::*;

use crate::card::Card;
use crate::controller::Controller;
use crate::player::{has_card_at_most, Player};

verus! {

/// The sum of the point values of a sequence of cards.
pub open spec fn sum_values(cards: Seq<Card>) -> int
    decreases cards.len(),
{
    if cards.len() == 0 {
        0
    } else {
        sum_values(cards.drop_last()) + cards.last().value()
    }
}

/// Whether a hand can extend a stack whose total is `stack_sum`: it holds
/// a card whose value stays within the 31-point ceiling.
pub open spec fn spec_can_play(stack_sum: int, hand: Seq<Card>) -> bool {
    has_card_at_most(hand, 31 - stack_sum)
}

/// Whether either hand can extend a stack whose total is `stack_sum`.
pub open spec fn spec_any_can_play(stack_sum: int, hand_1: Seq<Card>, hand_2: Seq<Card>) -> bool {
    spec_can_play(stack_sum, hand_1) || spec_can_play(stack_sum, hand_2)
}

/// The GO point, evaluated after a play: 1 when neither player can extend
/// the stack and the stack total is not exactly 31, else 0.
pub open spec fn spec_go_point(stack_sum: int, hand_1: Seq<Card>, hand_2: Seq<Card>) -> int {
    if !spec_any_can_play(stack_sum, hand_1, hand_2) && stack_sum != 31 {
        1
    } else {
        0
    }
}

/// The absolute difference of two integers.
pub open spec fn abs_diff(a: int, b: int) -> int {
    if a >= b {
        a - b
    } else {
        b - a
    }
}

/// Whether the card at `card_index` may take part in a run of length
/// `run_size` anchored at the last card: both its positional distance and
/// its rank-ordinal distance from the last card are below `run_size`.
pub open spec fn in_run_window(
    card_index: int,
    card: Card,
    last_card_index: int,
    last_card: Card,
    run_size: int,
) -> bool {
    abs_diff(last_card_index, card_index) < run_size && abs_diff(
        last_card.rank.ordinal(),
        card.rank.ordinal(),
    ) < run_size
}

/// How many of the first `upto` stack cards pass the window test for
/// `run_size` and have rank ordinal `r`.
pub open spec fn window_occupancy(stack: Seq<Card>, run_size: int, upto: int, r: int) -> nat
    decreases upto,
{
    if upto <= 0 {
        0
    } else {
        window_occupancy(stack, run_size, upto - 1, r) + if in_run_window(
            upto - 1,
            stack[upto - 1],
            stack.len() - 1,
            stack.last(),
            run_size,
        ) && stack[upto - 1].rank.ordinal() == r {
            1nat
        } else {
            0nat
        }
    }
}

/// The 13-slot occupancy array of the stack cards passing the window test
/// for `run_size`, indexed by rank ordinal.
pub open spec fn window_counts(stack: Seq<Card>, run_size: int) -> Seq<nat> {
    Seq::new(13, |r: int| window_occupancy(stack, run_size, stack.len() as int, r))
}

/// One left-to-right scan over the first `i` occupancy slots, returning
/// the length of the first contiguous block of occupied slots and whether
/// that block has already ended.
pub open spec fn block_scan(counts: Seq<nat>, i: int) -> (nat, bool)
    decreases i,
{
    if i <= 0 || i > counts.len() {
        (0, false)
    } else {
        let prev = block_scan(counts, i - 1);
        if prev.1 {
            prev
        } else if counts[i - 1] > 0 {
            ((prev.0 + 1) as nat, false)
        } else if prev.0 > 0 {
            (prev.0, true)
        } else {
            (0, false)
        }
    }
}

/// Whether the occupancy array holds exactly an unbroken run of length
/// `points`: its first contiguous block of occupied slots has that length
/// (a gap, a duplicate, or a shorter or longer block all fail the length
/// comparison).
pub open spec fn spec_is_run_of(counts: Seq<nat>, points: int) -> bool {
    block_scan(counts, counts.len() as int).0 == points
}

/// The largest-run points of the stack: the largest `n` from 7 down to 3
/// whose window occupancy forms exactly an unbroken `n`-run, or 0; a stack
/// of fewer than 3 cards never scores.
pub open spec fn spec_largest_run_points(stack: Seq<Card>) -> int {
    if stack.len() < 3 {
        0
    } else if spec_is_run_of(window_counts(stack, 7), 7) {
        7
    } else if spec_is_run_of(window_counts(stack, 6), 6) {
        6
    } else if spec_is_run_of(window_counts(stack, 5), 5) {
        5
    } else if spec_is_run_of(window_counts(stack, 4), 4) {
        4
    } else if spec_is_run_of(window_counts(stack, 3), 3) {
        3
    } else {
        0
    }
}

/// Whether the `k` cards immediately under the top card all share the top
/// card's rank.
pub open spec fn matches_below(stack: Seq<Card>, k: int) -> bool {
    forall|j: int|
        1 <= j <= k ==> (#[trigger] stack[stack.len() - 1 - j]).rank == stack.last().rank
}

/// How many cards immediately under the top card share its rank without a
/// gap, looking at most 3 cards down.
pub open spec fn spec_pair_match_count(stack: Seq<Card>) -> int {
    if stack.len() >= 4 && matches_below(stack, 3) {
        3
    } else if stack.len() >= 3 && matches_below(stack, 2) {
        2
    } else if stack.len() >= 2 && matches_below(stack, 1) {
        1
    } else {
        0
    }
}

/// The pairs points of the stack: 0, 2, 6 or 12 for 0, 1, 2 or 3 cards of
/// the top card's rank immediately beneath it.
pub open spec fn spec_pairs_points(stack: Seq<Card>) -> int {
    let m = spec_pair_match_count(stack);
    if m == 3 {
        12
    } else if m == 2 {
        6
    } else if m == 1 {
        2
    } else {
        0
    }
}

/// The fifteen points: 2 when the stack total is exactly 15.
pub open spec fn spec_fifteen_points(stack_sum: int) -> int {
    if stack_sum == 15 {
        2
    } else {
        0
    }
}

/// The thirty-one points: 2 when the stack total is exactly 31.
pub open spec fn spec_thirty_one_points(stack_sum: int) -> int {
    if stack_sum == 31 {
        2
    } else {
        0
    }
}

/// The points awarded for the play that produced the current stack: the
/// largest-run, pairs, fifteen and thirty-one checks, summed.
pub open spec fn spec_current_points(stack: Seq<Card>) -> int {
    spec_largest_run_points(stack) + spec_pairs_points(stack) + spec_fifteen_points(
        sum_values(stack),
    ) + spec_thirty_one_points(sum_values(stack))
}

/// Every card is worth at least 1 and at most 10 points.
proof fn lemma_card_value_range(c: Card)
    ensures
        1 <= c.value() <= 10,
{
}

/// A prefix of a stack sums to no more than the whole stack.
proof fn lemma_sum_values_prefix(cards: Seq<Card>, i: int)
    requires
        0 <= i <= cards.len(),
    ensures
        sum_values(cards.take(i)) <= sum_values(cards),
    decreases cards.len() - i,
{
    if i == cards.len() {
        assert(cards.take(i) =~= cards);
    } else {
        lemma_sum_values_prefix(cards, i + 1);
        assert(cards.take(i + 1).drop_last() =~= cards.take(i));
        lemma_card_value_range(cards[i]);
    }
}

/// At most `upto` cards pass any window test.
proof fn lemma_window_occupancy_bound(stack: Seq<Card>, run_size: int, upto: int, r: int)
    requires
        0 <= upto,
    ensures
        window_occupancy(stack, run_size, upto, r) <= upto,
    decreases upto,
{
    if upto > 0 {
        lemma_window_occupancy_bound(stack, run_size, upto - 1, r);
    }
}

/// The played stack of cards, with the running sum of their point values.
#[derive(Debug, PartialEq)]
pub struct PlayData {
    pub stack: Vec<Card>,
    pub stack_score: u32,
}

impl View for PlayData {
    type V = Seq<Card>;

    open spec fn view(&self) -> Seq<Card> {
        self.stack@
    }
}

impl PlayData {
    /// Well-formedness: the stack score is the sum of the point values of
    /// the cards on the stack.
    pub open spec fn wf(self) -> bool {
        self.stack_score == sum_values(self.stack@)
    }

    /// Creates a new [`PlayData`] with an empty stack and a zero score.
    pub fn new() -> (d: PlayData)
        ensures
            d@ == Seq::<Card>::empty(),
            d.stack_score == 0,
            d.wf(),
    {
        PlayData { stack: Vec::new(), stack_score: 0 }
    }

    /// Creates a [`PlayData`] holding the given cards, with the score
    /// already summed up.
    pub fn from_vec(cards: Vec<Card>) -> (d: PlayData)
        requires
            sum_values(cards@) <= u32::MAX,
        ensures
            d@ == cards@,
            d.wf(),
    {
        let mut data = PlayData::new();
        let n = cards.len();
        let mut i: usize = 0;

        while i < n
            invariant
                i <= n,
                n == cards@.len(),
                sum_values(cards@) <= u32::MAX,
                data@ == cards@.take(i as int),
                data.wf(),
            decreases n - i,
        {
            proof {
                assert(cards@.take(i as int + 1).drop_last() =~= cards@.take(i as int));
                assert(cards@.take(i as int + 1).last() == cards@[i as int]);
                lemma_sum_values_prefix(cards@, i as int + 1);
                lemma_card_value_range(cards@[i as int]);
            }

            data.add_card(cards[i]);
            i += 1;
        }

        proof {
            assert(cards@.take(n as int) =~= cards@);
        }

        data
    }

    /// Appends a card to the stack and adds its value to the stack score.
    /// Legality (the 31 ceiling) is the caller's responsibility, checked
    /// through [`PlayData::can_play`].
    pub fn add_card(&mut self, card: Card)
        requires
            old(self).wf(),
            sum_values(old(self)@) + card.value() <= u32::MAX,
        ensures
            final(self)@ == old(self)@.push(card),
            final(self).wf(),
    {
        proof {
            lemma_card_value_range(card);
            assert(old(self)@.push(card).drop_last() =~= old(self)@);
        }

        self.stack_score = self.stack_score + card.score();
        self.stack.push(card);
    }

    /// Clears the stack and zeroes the score when neither player can make
    /// a play; does nothing at all otherwise. Returns whether it reset.
    pub fn reset_if_needed<C: Controller>(
        &mut self,
        player_1: &Player<C>,
        player_2: &Player<C>,
    ) -> (reset: bool)
        requires
            old(self).wf(),
        ensures
            final(self).wf(),
            reset == !spec_any_can_play(
                sum_values(old(self)@),
                player_1.hand@,
                player_2.hand@,
            ),
            reset ==> final(self)@ == Seq::<Card>::empty() && final(self).stack_score == 0,
            !reset ==> *final(self) == *old(self),
    {
        if !self.any_can_play(player_1, player_2) {
            self.stack = Vec::new();
            self.stack_score = 0;
            true
        } else {
            false
        }
    }

    /// Indicates whether the player holds a card that can legally extend
    /// the stack: one whose value added to the stack score stays at most
    /// 31. A player with an empty hand can never play.
    pub fn can_play<C: Controller>(&self, player: &Player<C>) -> (r: bool)
        requires
            self.wf(),
        ensures
            r == spec_can_play(sum_values(self@), player.hand@),
    {
        let highest_possible_card_score = if self.stack_score > 31 {
            0
        } else {
            31 - self.stack_score
        };

        proof {
            if self.stack_score > 31 {
                let hand = player.hand@;
                assert forall|i: int|
                    0 <= i < hand.len() implies (#[trigger] hand[i]).value() > 31 - sum_values(
                    self@,
                ) by {
                    lemma_card_value_range(hand[i]);
                }
            }
        }

        player.has_card_with_score_at_most(highest_possible_card_score)
    }

    /// Indicates whether either player can make a play.
    pub fn any_can_play<C: Controller>(&self, player_1: &Player<C>, player_2: &Player<C>) -> (r:
        bool)
        requires
            self.wf(),
        ensures
            r == spec_any_can_play(sum_values(self@), player_1.hand@, player_2.hand@),
    {
        self.can_play(player_1) || self.can_play(player_2)
    }

    /// Plays a single turn for `player`: when they can play, the
    /// controller picks a card from their hand, the card goes on the
    /// stack, and the player is awarded the stack's current points plus a
    /// possible GO point (evaluated after the play, against `opponent`).
    /// When the player cannot play, or the controller gives no usable
    /// index, nothing changes.
    pub fn play_once<C: Controller>(&mut self, player: &mut Player<C>, opponent: &Player<C>)
        requires
            old(self).wf(),
            old(player).points + 24 <= u32::MAX,
        ensures
            final(self).wf(),
            final(player).crib == old(player).crib,
            final(player).points <= old(player).points + 24,
            !spec_can_play(sum_values(old(self)@), old(player).hand@) ==> *final(self) == *old(self)
                && *final(player) == *old(player),
            spec_can_play(sum_values(old(self)@), old(player).hand@) ==> ((*final(self) == *old(self)
                && final(player).hand == old(player).hand && final(player).discarded == old(
                player,
            ).discarded && final(player).points == old(player).points) || (exists|i: int|
                0 <= i < old(player).hand@.len() && final(self)@ == old(self)@.push(
                    old(player).hand@[i],
                ) && final(player).hand@ == old(player).hand@.remove(i)
                    && final(player).discarded@ == old(player).discarded@.push(
                    old(player).hand@[i],
                ) && final(player).points == old(player).points + spec_current_points(
                    old(self)@.push(old(player).hand@[i]),
                ) + spec_go_point(
                    sum_values(old(self)@.push(old(player).hand@[i])),
                    old(player).hand@.remove(i),
                    opponent.hand@,
                ))),
    {
        if self.can_play(player) {
            proof {
                let sum = sum_values(self@);
                let hand = player.hand@;
                assert(sum <= 30) by {
                    let w = choose|i: int|
                        0 <= i < hand.len() && (#[trigger] hand[i]).value() <= 31 - sum;
                    lemma_card_value_range(hand[w]);
                }
            }

            let card_from_players_hand = player.discard();

            match card_from_players_hand {
                Some(card) => {
                    proof {
                        lemma_card_value_range(card);
                        assert(old(self)@.push(card).drop_last() =~= old(self)@);
                    }

                    self.add_card(card);

                    let current = self.current_points();
                    player.points = player.points + current;

                    let go = self.go_point(player, opponent);
                    player.points = player.points + go;
                },
                None => {},
            }
        }
    }

    /// The points of the current stack state, evaluated for the play that
    /// produced it: largest run, pairs, fifteen and thirty-one.
    pub fn current_points(&self) -> (r: u32)
        requires
            self.wf(),
        ensures
            r == spec_current_points(self@),
            r <= 23,
    {
        self.largest_run_points() + self.pairs_points() + self.fifteen_points()
            + self.thirty_one_points()
    }

    /// The GO point, evaluated after a play: 1 when neither player can
    /// extend the stack and the stack total is not exactly 31 (the
    /// thirty-one bonus supersedes the GO point on that play), else 0.
    pub fn go_point<C: Controller>(&self, player_1: &Player<C>, player_2: &Player<C>) -> (r: u32)
        requires
            self.wf(),
        ensures
            r == spec_go_point(sum_values(self@), player_1.hand@, player_2.hand@),
    {
        if !self.any_can_play(player_1, player_2) && self.stack_score != 31 {
            1
        } else {
            0
        }
    }

    /// The largest-run points: the largest `n` from 7 down to 3 such that
    /// the cards within the `n`-window of the top card form exactly an
    /// unbroken run of length `n`; 0 when none does or the stack holds
    /// fewer than 3 cards.
    pub fn largest_run_points(&self) -> (r: u32)
        ensures
            r == spec_largest_run_points(self@),
            r <= 7,
    {
        let n = self.stack.len();

        if n < 3 {
            return 0;
        }

        let mut seven_run: Vec<usize> = zero_counts();
        let mut six_run: Vec<usize> = zero_counts();
        let mut five_run: Vec<usize> = zero_counts();
        let mut four_run: Vec<usize> = zero_counts();
        let mut three_run: Vec<usize> = zero_counts();

        let top_card_index = n - 1;
        let top_card = self.stack[top_card_index];

        let mut i: usize = 0;

        while i < n
            invariant
                3 <= n == self@.len(),
                i <= n,
                top_card_index == n - 1,
                top_card == self@.last(),
                seven_run@.len() == 13,
                six_run@.len() == 13,
                five_run@.len() == 13,
                four_run@.len() == 13,
                three_run@.len() == 13,
                forall|r: int|
                    0 <= r < 13 ==> seven_run@[r] == window_occupancy(self@, 7, i as int, r),
                forall|r: int|
                    0 <= r < 13 ==> six_run@[r] == window_occupancy(self@, 6, i as int, r),
                forall|r: int|
                    0 <= r < 13 ==> five_run@[r] == window_occupancy(self@, 5, i as int, r),
                forall|r: int|
                    0 <= r < 13 ==> four_run@[r] == window_occupancy(self@, 4, i as int, r),
                forall|r: int|
                    0 <= r < 13 ==> three_run@[r] == window_occupancy(self@, 3, i as int, r),
            decreases n - i,
        {
            proof {
                assert forall|run_size: int, r: int| 0 <= r < 13 implies window_occupancy(
                    self@,
                    run_size,
                    i as int,
                    r,
                ) <= i by {
                    lemma_window_occupancy_bound(self@, run_size, i as int, r);
                }
            }

            let card = self.stack[i];

            if Self::can_make_run_of(i, &card, top_card_index, &top_card, 7) {
                Self::add_rank_to_array(&mut seven_run, &card);
            }

            if Self::can_make_run_of(i, &card, top_card_index, &top_card, 6) {
                Self::add_rank_to_array(&mut six_run, &card);
            }

            if Self::can_make_run_of(i, &card, top_card_index, &top_card, 5) {
                Self::add_rank_to_array(&mut five_run, &card);
            }

            if Self::can_make_run_of(i, &card, top_card_index, &top_card, 4) {
                Self::add_rank_to_array(&mut four_run, &card);
            }

            if Self::can_make_run_of(i, &card, top_card_index, &top_card, 3) {
                Self::add_rank_to_array(&mut three_run, &card);
            }

            i += 1;
        }

        proof {
            assert(seven_run@.map_values(|c: usize| c as nat) =~= window_counts(self@, 7));
            assert(six_run@.map_values(|c: usize| c as nat) =~= window_counts(self@, 6));
            assert(five_run@.map_values(|c: usize| c as nat) =~= window_counts(self@, 5));
            assert(four_run@.map_values(|c: usize| c as nat) =~= window_counts(self@, 4));
            assert(three_run@.map_values(|c: usize| c as nat) =~= window_counts(self@, 3));
        }

        if Self::is_run_of(&seven_run, 7) {
            7
        } else if Self::is_run_of(&six_run, 6) {
            6
        } else if Self::is_run_of(&five_run, 5) {
            5
        } else if Self::is_run_of(&four_run, 4) {
            4
        } else if Self::is_run_of(&three_run, 3) {
            3
        } else {
            0
        }
    }

    /// Whether the card at `card_index` may take part in a run of the
    /// given size anchored at the last card: both its positional distance
    /// and its rank-ordinal distance from the last card are below
    /// `run_size`.
    pub fn can_make_run_of(
        card_index: usize,
        card: &Card,
        last_card_index: usize,
        last_card: &Card,
        run_size: usize,
    ) -> (r: bool)
        ensures
            r == in_run_window(
                card_index as int,
                *card,
                last_card_index as int,
                *last_card,
                run_size as int,
            ),
    {
        let card_rank_value = card.rank.index();
        let last_card_rank_value = last_card.rank.index();

        let index_diff = if last_card_index >= card_index {
            last_card_index - card_index
        } else {
            card_index - last_card_index
        };
        let rank_value_diff = if last_card_rank_value >= card_rank_value {
            last_card_rank_value - card_rank_value
        } else {
            card_rank_value - last_card_rank_value
        };

        (index_diff < run_size) && (rank_value_diff < run_size)
    }

    /// Whether the occupancy array holds exactly an unbroken run of the
    /// given length: its first contiguous block of occupied slots has that
    /// length.
    pub fn is_run_of(rank_array: &Vec<usize>, points: u32) -> (r: bool)
        ensures
            r == spec_is_run_of(rank_array@.map_values(|c: usize| c as nat), points as int),
    {
        let ghost counts = rank_array@.map_values(|c: usize| c as nat);

        let n = rank_array.len();
        let mut current_run: usize = 0;
        let mut stopped = false;
        let mut i: usize = 0;

        while i < n
            invariant
                i <= n,
                n == rank_array@.len(),
                counts == rank_array@.map_values(|c: usize| c as nat),
                current_run <= i,
                (current_run as nat, stopped) == block_scan(counts, i as int),
            decreases n - i,
        {
            let rank_count = rank_array[i];

            if stopped {
                // the first block has already ended
            } else if 0 < rank_count {
                current_run += 1;
            } else if 0 < current_run {
                stopped = true;
            }

            i += 1;
        }

        current_run == points as usize
    }

    /// Adds the card's rank to the occupancy array.
    pub fn add_rank_to_array(rank_array: &mut Vec<usize>, card: &Card)
        requires
            card.rank.ordinal() < old(rank_array)@.len(),
            old(rank_array)@[card.rank.ordinal()] < usize::MAX,
        ensures
            final(rank_array)@ == old(rank_array)@.update(
                card.rank.ordinal(),
                (old(rank_array)@[card.rank.ordinal()] + 1) as usize,
            ),
    {
        let slot = card.rank.index();
        let count = rank_array[slot];
        rank_array.set(slot, count + 1);
    }

    /// The fifteen points: 2 when the stack total is exactly 15, else 0.
    pub fn fifteen_points(&self) -> (r: u32)
        requires
            self.wf(),
        ensures
            r == spec_fifteen_points(sum_values(self@)),
    {
        if self.stack_score == 15 {
            2
        } else {
            0
        }
    }

    /// The thirty-one points: 2 when the stack total is exactly 31, else
    /// 0.
    pub fn thirty_one_points(&self) -> (r: u32)
        requires
            self.wf(),
        ensures
            r == spec_thirty_one_points(sum_values(self@)),
    {
        if self.stack_score == 31 {
            2
        } else {
            0
        }
    }

    /// The pairs points: 0, 2, 6 or 12 for 0, 1, 2 or 3 cards immediately
    /// beneath the top card that share its rank without a gap.
    pub fn pairs_points(&self) -> (r: u32)
        ensures
            r == spec_pairs_points(self@),
            r <= 12,
    {
        let n = self.stack.len();

        if n < 2 {
            return 0;
        }

        let top_card_rank = self.stack[n - 1].rank;

        let mut matching_ranks: u32 = 0;

        if self.stack[n - 2].rank == top_card_rank {
            matching_ranks = 1;

            if n >= 3 && self.stack[n - 3].rank == top_card_rank {
                matching_ranks = 2;

                if n >= 4 && self.stack[n - 4].rank == top_card_rank {
                    matching_ranks = 3;
                }
            }
        }

        proof {
            let s = self@;
            let len = s.len() as int;

            if matching_ranks == 3 {
                assert(matches_below(s, 3));
            } else if matching_ranks == 2 {
                assert(matches_below(s, 2));
                if len >= 4 {
                    assert(s[len - 1 - 3].rank != s.last().rank);
                }
            } else if matching_ranks == 1 {
                assert(matches_below(s, 1));
                if len >= 3 {
                    assert(s[len - 1 - 2].rank != s.last().rank);
                }
            } else {
                assert(s[len - 1 - 1].rank != s.last().rank);
            }
        }

        match matching_ranks {
            3 => 12,
            2 => 6,
            1 => 2,
            _ => 0,
        }
    }
}

impl Default for PlayData {
    /// The default play state is an empty stack with a zero score.
    fn default() -> (d: PlayData)
        ensures
            d@ == Seq::<Card>::empty(),
            d.stack_score == 0,
            d.wf(),
    {
        PlayData::new()
    }
}

/// A fresh 13-slot occupancy array, all zero.
fn zero_counts() -> (v: Vec<usize>)
    ensures
        v@.len() == 13,
        forall|r: int| 0 <= r < 13 ==> v@[r] == 0,
{
    let mut v: Vec<usize> = Vec::new();

    while v.len() < 13
        invariant
            v@.len() <= 13,
            forall|r: int| 0 <= r < v@.len() ==> v@[r] == 0,
        decreases 13 - v@.len(),
    {
        v.push(0);
    }

    v
}

} // verus!
