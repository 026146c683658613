//! The hand/crib scorer: fifteens, pairs, runs, flushes and nobs over a
//! four-card hand plus a shared starter card.
//!
//! Each category has a specification function that states what it counts,
//! and an executable counterpart proved to match it:
//!   * [`fifteens`] counts every non-empty subset of the five cards whose
//!     point values sum to exactly 15, worth 2 points each.
//!   * [`pairs`] counts every unordered pair of cards with equal rank,
//!     worth 2 points each.
//!   * [`runs`] scans a 13-slot occupancy array of rank ordinals and scores
//!     the first-found longest run of length at least 3, multiplied by the
//!     occupancy counts accumulated while that run was being discovered.
//!   * [`flushes`] scores 5 when all five cards share one suit, 4 when only
//!     the four hand cards do and the hand is not a crib, and 0 otherwise.
//!   * [`nobs`] scores 1 for a Jack in hand whose suit matches the starter.

use vstd::prelude::*;

use crate::card::{Card, Rank, Suit};
use crate::hand::Hand;

verus! {

/// The five-card scoring set: the hand cards followed by the starter.
pub open spec fn five_cards(hand: Seq<Card>, starter: Card) -> Seq<Card> {
    hand.push(starter)
}

/// How many subsets of `cards` (the empty one included) have point values
/// summing exactly to `target`.
pub open spec fn count_subsets_summing(cards: Seq<Card>, target: int) -> nat
    decreases cards.len(),
{
    if cards.len() == 0 {
        if target == 0 {
            1
        } else {
            0
        }
    } else {
        count_subsets_summing(cards.drop_first(), target) + count_subsets_summing(
            cards.drop_first(),
            target - cards.first().value(),
        )
    }
}

/// The fifteens score: 2 points for every subset summing to 15. The empty
/// subset sums to 0, so only non-empty subsets are counted.
pub open spec fn spec_fifteens(cards: Seq<Card>) -> int {
    2 * count_subsets_summing(cards, 15) as int
}

/// How many cards in `cards` have the given rank.
pub open spec fn count_of_rank(cards: Seq<Card>, rank: Rank) -> nat
    decreases cards.len(),
{
    if cards.len() == 0 {
        0
    } else {
        count_of_rank(cards.drop_first(), rank) + if cards.first().rank == rank {
            1nat
        } else {
            0nat
        }
    }
}

/// How many unordered pairs of positions in `cards` hold equal ranks.
pub open spec fn count_equal_rank_pairs(cards: Seq<Card>) -> nat
    decreases cards.len(),
{
    if cards.len() == 0 {
        0
    } else {
        count_of_rank(cards.drop_first(), cards.first().rank) + count_equal_rank_pairs(
            cards.drop_first(),
        )
    }
}

/// The pairs score: 2 points for every pair of cards of equal rank.
pub open spec fn spec_pairs(cards: Seq<Card>) -> int {
    2 * count_equal_rank_pairs(cards) as int
}

/// How many cards in `cards` have rank ordinal `r`.
pub open spec fn occupancy(cards: Seq<Card>, r: int) -> nat
    decreases cards.len(),
{
    if cards.len() == 0 {
        0
    } else {
        occupancy(cards.drop_last(), r) + if cards.last().rank.ordinal() == r {
            1nat
        } else {
            0nat
        }
    }
}

/// The 13-slot occupancy array of `cards`, indexed by rank ordinal.
pub open spec fn rank_counts(cards: Seq<Card>) -> Seq<nat> {
    Seq::new(13, |r: int| occupancy(cards, r))
}

/// One left-to-right scan over the first `i` occupancy slots, returning
/// `(current_run, max_run, max_multiplier)`. The current run grows on each
/// occupied slot and resets on an empty one; the multiplier also resets on
/// an empty slot, but only while no run of length 3 has been found yet;
/// whenever the current run first exceeds the best run, the slot's
/// occupancy count is multiplied into the multiplier.
pub open spec fn run_scan(counts: Seq<nat>, i: int) -> (nat, nat, nat)
    decreases i,
{
    if i <= 0 || i > counts.len() {
        (0, 0, 1)
    } else {
        let prev = run_scan(counts, i - 1);
        let c = counts[i - 1];
        let cur = if c == 0 {
            0nat
        } else {
            (prev.0 + 1) as nat
        };
        let mult = if c == 0 && prev.1 < 3 {
            1nat
        } else {
            prev.2
        };
        if cur > prev.1 {
            (cur, cur, mult * c)
        } else {
            (cur, prev.1, mult)
        }
    }
}

/// The runs score: the first-found longest run of consecutive occupied
/// rank slots, scored as its length times the accumulated multiplier, or 0
/// when no run reaches length 3.
pub open spec fn spec_runs(cards: Seq<Card>) -> int {
    let scan = run_scan(rank_counts(cards), 13);
    if scan.1 >= 3 {
        scan.1 * scan.2 as int
    } else {
        0
    }
}

/// Whether every card of the hand has the same suit as its first card.
pub open spec fn all_match_first_suit(hand: Seq<Card>) -> bool {
    forall|i: int| 0 <= i < hand.len() ==> (#[trigger] hand[i]).suit == hand[0].suit
}

/// The flush score: 5 when the whole hand and the starter share one suit;
/// 4 when only the hand does and it is not a crib; 0 otherwise.
pub open spec fn spec_flushes(hand: Seq<Card>, starter: Card, is_crib: bool) -> int {
    if hand.len() > 0 && all_match_first_suit(hand) {
        if starter.suit == hand[0].suit {
            5
        } else if !is_crib {
            4
        } else {
            0
        }
    } else {
        0
    }
}

/// Whether the hand holds a Jack of the given suit.
pub open spec fn has_jack_of_suit(hand: Seq<Card>, suit: Suit) -> bool {
    exists|i: int| 0 <= i < hand.len() && hand[i] == (Card { rank: Rank::Jack, suit })
}

/// The nobs score: 1 for a Jack in hand matching the starter's suit.
pub open spec fn spec_nobs(hand: Seq<Card>, starter: Card) -> int {
    if has_jack_of_suit(hand, starter.suit) {
        1
    } else {
        0
    }
}

/// The total score of a hand with its starter: the sum of the five
/// independent categories.
pub open spec fn spec_total(hand: Seq<Card>, starter: Card, is_crib: bool) -> int {
    spec_fifteens(five_cards(hand, starter)) + spec_pairs(five_cards(hand, starter)) + spec_runs(
        five_cards(hand, starter),
    ) + spec_flushes(hand, starter, is_crib) + spec_nobs(hand, starter)
}

/// Two to the power `n`.
pub open spec fn exp2(n: nat) -> nat
    decreases n,
{
    if n == 0 {
        1
    } else {
        2 * exp2((n - 1) as nat)
    }
}

/// The sum of a sequence of counts.
pub open spec fn sum_counts(counts: Seq<nat>) -> nat
    decreases counts.len(),
{
    if counts.len() == 0 {
        0
    } else {
        sum_counts(counts.drop_last()) + counts.last()
    }
}

/// The small powers of two, written out for concrete bounds.
proof fn lemma_exp2_values()
    ensures
        exp2(0) == 1,
        exp2(1) == 2,
        exp2(2) == 4,
        exp2(3) == 8,
        exp2(4) == 16,
        exp2(5) == 32,
{
    assert(exp2(0) == 1);
    assert(exp2(1) == 2);
    assert(exp2(2) == 4);
    assert(exp2(3) == 8);
    assert(exp2(4) == 16);
    assert(exp2(5) == 32);
}

/// No subset has a negative sum: point values are positive.
proof fn lemma_count_subsets_negative(cards: Seq<Card>, target: int)
    requires
        target < 0,
    ensures
        count_subsets_summing(cards, target) == 0,
    decreases cards.len(),
{
    if cards.len() > 0 {
        lemma_count_subsets_negative(cards.drop_first(), target);
        lemma_count_subsets_negative(cards.drop_first(), target - cards.first().value());
    }
}

/// A sequence of `n` cards has at most `2^n` subsets of any sum.
proof fn lemma_count_subsets_bound(cards: Seq<Card>, target: int)
    ensures
        count_subsets_summing(cards, target) <= exp2(cards.len()),
    decreases cards.len(),
{
    if cards.len() > 0 {
        lemma_count_subsets_bound(cards.drop_first(), target);
        lemma_count_subsets_bound(cards.drop_first(), target - cards.first().value());
    }
}

/// At most `n` cards of any one rank among `n` cards.
proof fn lemma_count_of_rank_bound(cards: Seq<Card>, rank: Rank)
    ensures
        count_of_rank(cards, rank) <= cards.len(),
    decreases cards.len(),
{
    if cards.len() > 0 {
        lemma_count_of_rank_bound(cards.drop_first(), rank);
    }
}

/// At most `n * n` equal-rank pairs among `n` cards.
proof fn lemma_count_pairs_bound(cards: Seq<Card>)
    ensures
        count_equal_rank_pairs(cards) <= cards.len() * cards.len(),
    decreases cards.len(),
{
    if cards.len() > 0 {
        let n = cards.len() as int;
        lemma_count_of_rank_bound(cards.drop_first(), cards.first().rank);
        lemma_count_pairs_bound(cards.drop_first());
        assert((n - 1) + (n - 1) * (n - 1) <= n * n) by (nonlinear_arith)
            requires
                n >= 1,
        ;
    }
}

/// At most `n` cards of any one rank ordinal among `n` cards.
proof fn lemma_occupancy_bound(cards: Seq<Card>, r: int)
    ensures
        occupancy(cards, r) <= cards.len(),
    decreases cards.len(),
{
    if cards.len() > 0 {
        lemma_occupancy_bound(cards.drop_last(), r);
    }
}

/// Adding one to a slot adds one to the sum of the counts.
proof fn lemma_sum_counts_update(counts: Seq<nat>, j: int)
    requires
        0 <= j < counts.len(),
    ensures
        sum_counts(counts.update(j, (counts[j] + 1) as nat)) == sum_counts(counts) + 1,
    decreases counts.len(),
{
    let updated = counts.update(j, (counts[j] + 1) as nat);
    if j == counts.len() - 1 {
        assert(updated.drop_last() =~= counts.drop_last());
    } else {
        assert(updated.drop_last() =~= counts.drop_last().update(j, (counts[j] + 1) as nat));
        lemma_sum_counts_update(counts.drop_last(), j);
    }
}

/// The occupancy array of `cards` sums to the number of cards.
proof fn lemma_rank_counts_sum(cards: Seq<Card>)
    ensures
        sum_counts(rank_counts(cards)) == cards.len(),
    decreases cards.len(),
{
    if cards.len() == 0 {
        lemma_sum_counts_zero(rank_counts(cards));
    } else {
        lemma_rank_counts_sum(cards.drop_last());
        let prev = rank_counts(cards.drop_last());
        let ord = cards.last().rank.ordinal();
        assert(rank_counts(cards) =~= prev.update(ord, (prev[ord] + 1) as nat)) by {
            assert(forall|r: int|
                0 <= r < 13 ==> occupancy(cards, r) == occupancy(cards.drop_last(), r) + (
                if cards.last().rank.ordinal() == r {
                    1nat
                } else {
                    0nat
                }));
        }
        lemma_sum_counts_update(prev, ord);
    }
}

/// A sequence of zero counts sums to zero.
proof fn lemma_sum_counts_zero(counts: Seq<nat>)
    requires
        forall|j: int| 0 <= j < counts.len() ==> counts[j] == 0,
    ensures
        sum_counts(counts) == 0,
    decreases counts.len(),
{
    if counts.len() > 0 {
        lemma_sum_counts_zero(counts.drop_last());
    }
}

/// Any count is at most two to its own power.
proof fn lemma_self_le_exp2(c: nat)
    ensures
        c <= exp2(c),
    decreases c,
{
    if c > 0 {
        lemma_self_le_exp2((c - 1) as nat);
    }
}

/// Powers of two are positive and add under multiplication.
proof fn lemma_exp2_adds(a: nat, b: nat)
    ensures
        exp2(a) * exp2(b) == exp2(a + b),
        exp2(a) >= 1,
    decreases a,
{
    if a == 0 {
        lemma_exp2_pos(b);
        assert(exp2(a) * exp2(b) == exp2(b)) by (nonlinear_arith)
            requires
                exp2(a) == 1,
        ;
    } else {
        lemma_exp2_adds((a - 1) as nat, b);
        assert(exp2(a) == 2 * exp2((a - 1) as nat));
        assert(exp2(a + b) == 2 * exp2((a + b - 1) as nat));
        assert(exp2(a) * exp2(b) == 2 * (exp2((a - 1) as nat) * exp2(b))) by (nonlinear_arith)
            requires
                exp2(a) == 2 * exp2((a - 1) as nat),
        ;
        assert((a - 1) as nat + b == (a + b - 1) as nat);
        assert(2 * (exp2((a - 1) as nat) * exp2(b)) == 2 * exp2((a + b - 1) as nat));
    }
}

/// Powers of two are positive.
proof fn lemma_exp2_pos(a: nat)
    ensures
        exp2(a) >= 1,
    decreases a,
{
    if a > 0 {
        lemma_exp2_pos((a - 1) as nat);
    }
}

/// The scan state is bounded: the run lengths by the number of slots
/// scanned, and the multiplier by two to the sum of the counts scanned.
proof fn lemma_run_scan_bounds(counts: Seq<nat>, i: int)
    requires
        0 <= i <= counts.len(),
    ensures
        run_scan(counts, i).0 <= i,
        run_scan(counts, i).1 <= i,
        run_scan(counts, i).2 <= exp2(sum_counts(counts.take(i))),
    decreases i,
{
    if i == 0 {
        assert(counts.take(0) =~= Seq::<nat>::empty());
    } else {
        lemma_run_scan_bounds(counts, i - 1);
        let prev = run_scan(counts, i - 1);
        let c = counts[i - 1];
        let s_prev = sum_counts(counts.take(i - 1));
        assert(counts.take(i).drop_last() =~= counts.take(i - 1));
        assert(sum_counts(counts.take(i)) == s_prev + c);
        let mult = if c == 0 && prev.1 < 3 {
            1nat
        } else {
            prev.2
        };
        lemma_exp2_adds(s_prev, c);
        lemma_exp2_pos(s_prev);
        lemma_exp2_pos(c);
        assert(mult <= exp2(s_prev));
        lemma_self_le_exp2(c);
        assert(mult * c <= exp2(s_prev) * exp2(c)) by (nonlinear_arith)
            requires
                mult <= exp2(s_prev),
                c <= exp2(c),
        ;
        assert(mult <= exp2(s_prev) * exp2(c)) by (nonlinear_arith)
            requires
                mult <= exp2(s_prev),
                exp2(c) >= 1,
        ;
    }
}

/// The multiplier of a full scan over the occupancy array of `cards` is at
/// most two to the number of cards, and the run lengths are at most 13.
pub proof fn lemma_runs_bound(cards: Seq<Card>)
    ensures
        run_scan(rank_counts(cards), 13).1 <= 13,
        run_scan(rank_counts(cards), 13).2 <= exp2(cards.len()),
        spec_runs(cards) <= 13 * exp2(cards.len()),
{
    lemma_rank_counts_sum(cards);
    lemma_run_scan_bounds(rank_counts(cards), 13);
    assert(rank_counts(cards).take(13) =~= rank_counts(cards));
    let scan = run_scan(rank_counts(cards), 13);
    assert(scan.1 * scan.2 <= 13 * exp2(cards.len())) by (nonlinear_arith)
        requires
            scan.1 <= 13,
            scan.2 <= exp2(cards.len()),
    ;
}

/// Copies the hand's cards into a fresh vector and appends the starter.
fn with_starter(hand: &Hand, starter: &Card) -> (v: Vec<Card>)
    ensures
        v@ == five_cards(hand@, *starter),
{
    let mut v: Vec<Card> = Vec::new();
    let hand_cards = hand.as_vec();
    let n = hand_cards.len();
    let mut i: usize = 0;

    while i < n
        invariant
            i <= n,
            n == hand@.len(),
            hand_cards@ == hand@,
            v@ == hand@.take(i as int),
        decreases n - i,
    {
        assert(hand@.take(i as int).push(hand@[i as int]) =~= hand@.take(i as int + 1));
        v.push(hand_cards[i]);
        i += 1;
    }

    proof {
        assert(hand@.take(n as int) =~= hand@);
    }

    v.push(*starter);

    v
}

/// Counts the subsets of `cards[i..]` whose point values sum to `target`.
fn count_fifteens_from(cards: &Vec<Card>, i: usize, target: u32) -> (n: u32)
    requires
        i <= cards@.len(),
        cards@.len() <= 5,
    ensures
        n == count_subsets_summing(cards@.skip(i as int), target as int),
        n <= exp2((cards@.len() - i) as nat),
    decreases cards@.len() - i,
{
    proof {
        lemma_count_subsets_bound(cards@.skip(i as int), target as int);
    }

    if i == cards.len() {
        proof {
            assert(cards@.skip(i as int) =~= Seq::<Card>::empty());
        }
        if target == 0 {
            1
        } else {
            0
        }
    } else {
        proof {
            assert(cards@.skip(i as int).drop_first() =~= cards@.skip(i as int + 1));
            assert(cards@.skip(i as int).first() == cards@[i as int]);
            lemma_exp2_values();
            lemma_exp2_mono((cards@.len() - i - 1) as nat, 4);
            assert(exp2((cards@.len() - i) as nat) == 2 * exp2((cards@.len() - i - 1) as nat));
        }

        let value = cards[i].score();
        let without_card = count_fifteens_from(cards, i + 1, target);
        let with_card = if value <= target {
            count_fifteens_from(cards, i + 1, target - value)
        } else {
            proof {
                lemma_count_subsets_negative(
                    cards@.skip(i as int + 1),
                    target - cards@[i as int].value(),
                );
            }
            0
        };

        without_card + with_card
    }
}

/// Returns the fifteens score of the hand with its starter: 2 points for
/// every subset of the five cards whose point values sum to exactly 15.
pub fn fifteens(hand: &Hand, starter: &Card) -> (s: u32)
    requires
        hand@.len() == 4,
    ensures
        s == spec_fifteens(five_cards(hand@, *starter)),
        s <= 64,
    {
    let cards = with_starter(hand, starter);

    proof {
        assert(cards@.skip(0) =~= cards@);
        lemma_exp2_values();
    }

    let count = count_fifteens_from(&cards, 0, 15);

    2 * count
}

/// Counts the cards of `cards[i..]` whose rank equals `rank`.
fn count_rank_from(cards: &Vec<Card>, i: usize, rank: Rank) -> (n: u32)
    requires
        i <= cards@.len(),
        cards@.len() <= 5,
    ensures
        n == count_of_rank(cards@.skip(i as int), rank),
        n <= cards@.len() - i,
    decreases cards@.len() - i,
{
    proof {
        lemma_count_of_rank_bound(cards@.skip(i as int), rank);
    }

    if i == cards.len() {
        proof {
            assert(cards@.skip(i as int) =~= Seq::<Card>::empty());
        }
        0
    } else {
        proof {
            assert(cards@.skip(i as int).drop_first() =~= cards@.skip(i as int + 1));
            assert(cards@.skip(i as int).first() == cards@[i as int]);
        }

        let rest = count_rank_from(cards, i + 1, rank);

        if cards[i].rank == rank {
            rest + 1
        } else {
            rest
        }
    }
}

/// Counts the equal-rank pairs among `cards[i..]`.
fn count_pairs_from(cards: &Vec<Card>, i: usize) -> (n: u32)
    requires
        i <= cards@.len(),
        cards@.len() <= 5,
    ensures
        n == count_equal_rank_pairs(cards@.skip(i as int)),
        n <= 25,
    decreases cards@.len() - i,
{
    proof {
        lemma_count_pairs_bound(cards@.skip(i as int));
        let l = cards@.skip(i as int).len();
        assert(l * l <= 25) by (nonlinear_arith)
            requires
                l <= 5,
        ;
    }

    if i == cards.len() {
        proof {
            assert(cards@.skip(i as int) =~= Seq::<Card>::empty());
        }
        0
    } else {
        proof {
            assert(cards@.skip(i as int).drop_first() =~= cards@.skip(i as int + 1));
            assert(cards@.skip(i as int).first() == cards@[i as int]);
        }

        let matches = count_rank_from(cards, i + 1, cards[i].rank);
        let rest = count_pairs_from(cards, i + 1);

        matches + rest
    }
}

/// Returns the pairs score of the hand with its starter: 2 points for
/// every unordered pair of cards with equal rank, so that a three-of-a-kind
/// is worth 6 and a four-of-a-kind 12.
pub fn pairs(hand: &Hand, starter: &Card) -> (s: u32)
    requires
        hand@.len() == 4,
    ensures
        s == spec_pairs(five_cards(hand@, *starter)),
        s <= 50,
{
    let cards = with_starter(hand, starter);

    proof {
        assert(cards@.skip(0) =~= cards@);
    }

    let count = count_pairs_from(&cards, 0);

    2 * count
}

/// Returns the runs score of the hand with its starter: the length of the
/// first-found longest run of at least 3 consecutive ranks among the five
/// cards, multiplied by the occupancy counts accumulated along that run
/// (so a duplicated rank doubles the run), or 0 when no run reaches 3.
pub fn runs(hand: &Hand, starter: &Card) -> (s: u32)
    requires
        hand@.len() == 4,
    ensures
        s == spec_runs(five_cards(hand@, *starter)),
        s <= 416,
{
    let cards = with_starter(hand, starter);
    let ghost all = five_cards(hand@, *starter);

    // The 13-slot occupancy array, indexed by rank ordinal.
    let mut ranks_found: Vec<u32> = Vec::new();
    while ranks_found.len() < 13
        invariant
            ranks_found@.len() <= 13,
            forall|r: int| 0 <= r < ranks_found@.len() ==> ranks_found@[r] == 0,
        decreases 13 - ranks_found@.len(),
    {
        ranks_found.push(0);
    }

    let mut i: usize = 0;
    while i < cards.len()
        invariant
            cards@ == all,
            all.len() == 5,
            i <= 5,
            ranks_found@.len() == 13,
            forall|r: int|
                0 <= r < 13 ==> ranks_found@[r] == occupancy(all.take(i as int), r),
        decreases cards@.len() - i,
    {
        proof {
            assert(all.take(i as int + 1).drop_last() =~= all.take(i as int));
            assert(forall|r: int|
                0 <= r < 13 ==> occupancy(all.take(i as int), r) <= all.take(i as int).len()) by {
                assert forall|r: int| 0 <= r < 13 implies occupancy(all.take(i as int), r)
                    <= all.take(i as int).len() by {
                    lemma_occupancy_bound(all.take(i as int), r);
                }
            }
        }

        let slot = cards[i].rank.index();
        let count = ranks_found[slot];
        ranks_found.set(slot, count + 1);
        i += 1;
    }

    proof {
        assert(all.take(5) =~= all);
        assert(ranks_found@.map_values(|c: u32| c as nat) =~= rank_counts(all));
        lemma_runs_bound(all);
        lemma_rank_counts_sum(all);
    }

    let ghost counts = rank_counts(all);

    // The left-to-right scan for the longest run and its multiplier.
    let mut current_run: u32 = 0;
    let mut max_run: u32 = 0;
    let mut max_multiplier: u32 = 1;
    let mut slot: usize = 0;

    while slot < 13
        invariant
            slot <= 13,
            ranks_found@.len() == 13,
            counts == rank_counts(all),
            all.len() == 5,
            forall|r: int| 0 <= r < 13 ==> ranks_found@[r] == counts[r],
            (current_run as nat, max_run as nat, max_multiplier as nat) == run_scan(
                counts,
                slot as int,
            ),
        decreases 13 - slot,
    {
        proof {
            lemma_exp2_values();
            lemma_run_scan_bounds(counts, slot as int + 1);
            lemma_run_scan_bounds(counts, slot as int);
            lemma_rank_counts_sum(all);
            lemma_sum_counts_prefix(counts, slot as int + 1);
            lemma_exp2_mono(sum_counts(counts.take(slot as int + 1)), sum_counts(counts));
            lemma_sum_counts_prefix(counts, slot as int);
            lemma_exp2_mono(sum_counts(counts.take(slot as int)), sum_counts(counts));
            lemma_occupancy_bound(all, slot as int);
            assert(counts[slot as int] == occupancy(all, slot as int));
        }

        let current_multiplier = ranks_found[slot];

        current_run += 1;

        if current_multiplier == 0 {
            current_run = 0;

            if max_run < 3 {
                max_multiplier = 1;
            }
        }

        if current_run > max_run {
            max_run = current_run;
            max_multiplier = max_multiplier * current_multiplier;
        }

        slot += 1;
    }

    proof {
        lemma_exp2_values();
        lemma_runs_bound(all);
    }

    if 3 <= max_run {
        max_run * max_multiplier
    } else {
        0
    }
}

/// The sum of a prefix of counts is at most the sum of all of them.
proof fn lemma_sum_counts_prefix(counts: Seq<nat>, i: int)
    requires
        0 <= i <= counts.len(),
    ensures
        sum_counts(counts.take(i)) <= sum_counts(counts),
    decreases counts.len() - i,
{
    if i == counts.len() {
        assert(counts.take(i) =~= counts);
    } else {
        lemma_sum_counts_prefix(counts, i + 1);
        assert(counts.take(i + 1).drop_last() =~= counts.take(i));
    }
}

/// Powers of two are monotone.
proof fn lemma_exp2_mono(a: nat, b: nat)
    requires
        a <= b,
    ensures
        exp2(a) <= exp2(b),
    decreases b,
{
    if a < b && b > 0 {
        lemma_exp2_mono(a, (b - 1) as nat);
        lemma_exp2_pos((b - 1) as nat);
    }
}

/// Returns the flush score: 5 when the four hand cards and the starter all
/// share one suit; 4 when only the hand cards do and the hand is not a
/// crib (a crib flush must include the starter); 0 otherwise.
pub fn flushes(hand: &Hand, starter: &Card, is_crib: bool) -> (s: u32)
    requires
        hand@.len() == 4,
    ensures
        s == spec_flushes(hand@, *starter, is_crib),
{
    let hand_vec = hand.as_vec();

    let target_suit = hand_vec[0].suit;

    let all_suits_match = hand_vec[1].suit == target_suit && hand_vec[2].suit == target_suit
        && hand_vec[3].suit == target_suit;

    proof {
        if all_suits_match {
            assert forall|i: int| 0 <= i < hand@.len() implies (#[trigger] hand@[i]).suit
                == hand@[0].suit by {
            }
        }
    }

    let starter_suit_matches = starter.suit == target_suit;

    if all_suits_match && starter_suit_matches {
        5
    } else if all_suits_match && !is_crib {
        4
    } else {
        0
    }
}

/// Returns the nobs score: 1 when the hand holds a Jack whose suit equals
/// the starter's suit, 0 otherwise.
pub fn nobs(hand: &Hand, starter: &Card) -> (s: u32)
    requires
        hand@.len() == 4,
    ensures
        s == spec_nobs(hand@, *starter),
{
    let target_jack = Card::new(Rank::Jack, starter.suit);
    let hand_vec = hand.as_vec();

    let mut i: usize = 0;
    while i < hand_vec.len()
        invariant
            hand_vec@ == hand@,
            i <= hand@.len(),
            target_jack == (Card { rank: Rank::Jack, suit: starter.suit }),
            forall|j: int|
                0 <= j < i ==> #[trigger] hand@[j] != (Card {
                    rank: Rank::Jack,
                    suit: starter.suit,
                }),
        decreases hand@.len() - i,
    {
        if hand_vec[i] == target_jack {
            proof {
                assert(hand@[i as int] == (Card { rank: Rank::Jack, suit: starter.suit }));
            }
            return 1;
        }
        i += 1;
    }

    proof {
        assert(!has_jack_of_suit(hand@, starter.suit));
    }

    0
}

/// Returns the total score of the hand with its starter: the sum of the
/// fifteens, pairs, runs, flush and nobs scores. A crib hand (`is_crib`)
/// only counts a four-card flush when the starter matches it too.
pub fn total(hand: &Hand, starter: &Card, is_crib: bool) -> (s: u32)
    requires
        hand@.len() == 4,
    ensures
        s == spec_total(hand@, *starter, is_crib),
        s <= 536,
{
    fifteens(hand, starter) + pairs(hand, starter) + runs(hand, starter) + flushes(
        hand,
        starter,
        is_crib,
    ) + nobs(hand, starter)
}

} // verus!
