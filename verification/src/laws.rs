//! Laws of the scoring engine, proved once and for all.
//!
//! The central one: the hand/crib score is a function of the *multiset*
//! of hand cards — reordering the four hand cards never changes the
//! total. Each scoring category is shown to depend only on which cards
//! are held, not on their order.

use vstd::prelude::*;

use crate::card::Card;
use crate::play_data::{
    spec_current_points, spec_go_point, spec_thirty_one_points, sum_values,
};
use crate::score::{
    all_match_first_suit, count_equal_rank_pairs, count_of_rank, count_subsets_summing, five_cards,
    has_jack_of_suit, occupancy, rank_counts, spec_flushes, spec_nobs, spec_total,
};

verus! {

/// Removing one card splits the subset count by whether a subset uses
/// that card.
proof fn lemma_count_subsets_remove(cards: Seq<Card>, j: int, target: int)
    requires
        0 <= j < cards.len(),
    ensures
        count_subsets_summing(cards, target) == count_subsets_summing(cards.remove(j), target)
            + count_subsets_summing(cards.remove(j), target - cards[j].value()),
    decreases j,
{
    if j == 0 {
        assert(cards.remove(0) =~= cards.drop_first());
    } else {
        let rest = cards.drop_first();

        lemma_count_subsets_remove(rest, j - 1, target);
        lemma_count_subsets_remove(rest, j - 1, target - cards.first().value());

        assert(cards.remove(j).drop_first() =~= rest.remove(j - 1));
        assert(cards.remove(j).first() == cards.first());
    }
}

/// The subset count depends only on the multiset of the cards.
proof fn lemma_count_subsets_multiset(s1: Seq<Card>, s2: Seq<Card>, target: int)
    requires
        s1.to_multiset() == s2.to_multiset(),
    ensures
        count_subsets_summing(s1, target) == count_subsets_summing(s2, target),
    decreases s1.len(),
{
    s1.to_multiset_ensures();
    s2.to_multiset_ensures();

    if s1.len() > 0 {
        let x = s1.first();

        assert(s1.contains(x));
        assert(s2.to_multiset().count(x) > 0);
        assert(s2.contains(x));

        let j = choose|j: int| 0 <= j < s2.len() && s2[j] == x;

        lemma_count_subsets_remove(s1, 0, target);
        lemma_count_subsets_remove(s2, j, target);

        assert(s1.remove(0) =~= s1.drop_first());

        lemma_count_subsets_multiset(s1.drop_first(), s2.remove(j), target);
        lemma_count_subsets_multiset(s1.drop_first(), s2.remove(j), target - x.value());
    }
}

/// Removing one card lowers the per-rank count by whether that card has
/// the rank.
proof fn lemma_count_of_rank_remove(cards: Seq<Card>, j: int, rank: crate::card::Rank)
    requires
        0 <= j < cards.len(),
    ensures
        count_of_rank(cards, rank) == count_of_rank(cards.remove(j), rank) + if cards[j].rank
            == rank {
            1nat
        } else {
            0nat
        },
    decreases j,
{
    if j == 0 {
        assert(cards.remove(0) =~= cards.drop_first());
    } else {
        let rest = cards.drop_first();

        lemma_count_of_rank_remove(rest, j - 1, rank);

        assert(cards.remove(j).drop_first() =~= rest.remove(j - 1));
        assert(cards.remove(j).first() == cards.first());
    }
}

/// The per-rank count depends only on the multiset of the cards.
proof fn lemma_count_of_rank_multiset(s1: Seq<Card>, s2: Seq<Card>, rank: crate::card::Rank)
    requires
        s1.to_multiset() == s2.to_multiset(),
    ensures
        count_of_rank(s1, rank) == count_of_rank(s2, rank),
    decreases s1.len(),
{
    s1.to_multiset_ensures();
    s2.to_multiset_ensures();

    if s1.len() > 0 {
        let x = s1.first();

        assert(s1.contains(x));
        assert(s2.to_multiset().count(x) > 0);
        assert(s2.contains(x));

        let j = choose|j: int| 0 <= j < s2.len() && s2[j] == x;

        lemma_count_of_rank_remove(s1, 0, rank);
        lemma_count_of_rank_remove(s2, j, rank);

        assert(s1.remove(0) =~= s1.drop_first());

        lemma_count_of_rank_multiset(s1.drop_first(), s2.remove(j), rank);
    }
}

/// Removing one card removes exactly the equal-rank pairs it took part
/// in.
proof fn lemma_count_pairs_remove(cards: Seq<Card>, j: int)
    requires
        0 <= j < cards.len(),
    ensures
        count_equal_rank_pairs(cards) == count_equal_rank_pairs(cards.remove(j)) + count_of_rank(
            cards.remove(j),
            cards[j].rank,
        ),
    decreases j,
{
    if j == 0 {
        assert(cards.remove(0) =~= cards.drop_first());
    } else {
        let rest = cards.drop_first();

        lemma_count_pairs_remove(rest, j - 1);
        lemma_count_of_rank_remove(rest, j - 1, cards.first().rank);

        assert(cards.remove(j).drop_first() =~= rest.remove(j - 1));
        assert(cards.remove(j).first() == cards.first());
    }
}

/// The count of equal-rank pairs depends only on the multiset of the
/// cards.
proof fn lemma_count_pairs_multiset(s1: Seq<Card>, s2: Seq<Card>)
    requires
        s1.to_multiset() == s2.to_multiset(),
    ensures
        count_equal_rank_pairs(s1) == count_equal_rank_pairs(s2),
    decreases s1.len(),
{
    s1.to_multiset_ensures();
    s2.to_multiset_ensures();

    if s1.len() > 0 {
        let x = s1.first();

        assert(s1.contains(x));
        assert(s2.to_multiset().count(x) > 0);
        assert(s2.contains(x));

        let j = choose|j: int| 0 <= j < s2.len() && s2[j] == x;

        lemma_count_pairs_remove(s1, 0);
        lemma_count_pairs_remove(s2, j);

        assert(s1.remove(0) =~= s1.drop_first());

        lemma_count_pairs_multiset(s1.drop_first(), s2.remove(j));
        lemma_count_of_rank_multiset(s1.drop_first(), s2.remove(j), x.rank);
    }
}

/// Removing one card lowers its rank ordinal's occupancy by one.
proof fn lemma_occupancy_remove(cards: Seq<Card>, j: int, r: int)
    requires
        0 <= j < cards.len(),
    ensures
        occupancy(cards, r) == occupancy(cards.remove(j), r) + if cards[j].rank.ordinal() == r {
            1nat
        } else {
            0nat
        },
    decreases cards.len(),
{
    if j == cards.len() - 1 {
        assert(cards.remove(j) =~= cards.drop_last());
    } else {
        lemma_occupancy_remove(cards.drop_last(), j, r);

        assert(cards.remove(j).drop_last() =~= cards.drop_last().remove(j));
        assert(cards.remove(j).last() == cards.last());
    }
}

/// The rank-ordinal occupancy depends only on the multiset of the cards.
proof fn lemma_occupancy_multiset(s1: Seq<Card>, s2: Seq<Card>, r: int)
    requires
        s1.to_multiset() == s2.to_multiset(),
    ensures
        occupancy(s1, r) == occupancy(s2, r),
    decreases s1.len(),
{
    s1.to_multiset_ensures();
    s2.to_multiset_ensures();

    if s1.len() > 0 {
        let x = s1.first();

        assert(s1.contains(x));
        assert(s2.to_multiset().count(x) > 0);
        assert(s2.contains(x));

        let j = choose|j: int| 0 <= j < s2.len() && s2[j] == x;

        lemma_occupancy_remove(s1, 0, r);
        lemma_occupancy_remove(s2, j, r);

        assert(s1.remove(0) =~= s1.drop_first());

        lemma_occupancy_multiset(s1.drop_first(), s2.remove(j), r);
    }
}

/// The whole occupancy array depends only on the multiset of the cards.
proof fn lemma_rank_counts_multiset(s1: Seq<Card>, s2: Seq<Card>)
    requires
        s1.to_multiset() == s2.to_multiset(),
    ensures
        rank_counts(s1) == rank_counts(s2),
{
    assert forall|r: int| 0 <= r < 13 implies occupancy(s1, r) == occupancy(s2, r) by {
        lemma_occupancy_multiset(s1, s2, r);
    }

    assert(rank_counts(s1) =~= rank_counts(s2));
}

/// The flush score depends only on the multiset of the hand cards.
proof fn lemma_flushes_multiset(hand_1: Seq<Card>, hand_2: Seq<Card>, starter: Card, is_crib: bool)
    requires
        hand_1.len() == 4,
        hand_1.to_multiset() == hand_2.to_multiset(),
    ensures
        spec_flushes(hand_1, starter, is_crib) == spec_flushes(hand_2, starter, is_crib),
{
    hand_1.to_multiset_ensures();
    hand_2.to_multiset_ensures();

    assert(hand_2.len() == 4);

    if all_match_first_suit(hand_1) {
        assert forall|i: int| 0 <= i < hand_2.len() implies (#[trigger] hand_2[i]).suit
            == hand_1[0].suit by {
            assert(hand_2.contains(hand_2[i]));
            assert(hand_1.to_multiset().count(hand_2[i]) > 0);
            assert(hand_1.contains(hand_2[i]));
            let k = choose|k: int| 0 <= k < hand_1.len() && hand_1[k] == hand_2[i];
            assert(hand_1[k].suit == hand_1[0].suit);
        }

        assert(all_match_first_suit(hand_2));
        assert(hand_2[0].suit == hand_1[0].suit);
    } else {
        if all_match_first_suit(hand_2) {
            assert forall|i: int| 0 <= i < hand_1.len() implies (#[trigger] hand_1[i]).suit
                == hand_2[0].suit by {
                assert(hand_1.contains(hand_1[i]));
                assert(hand_2.to_multiset().count(hand_1[i]) > 0);
                assert(hand_2.contains(hand_1[i]));
                let k = choose|k: int| 0 <= k < hand_2.len() && hand_2[k] == hand_1[i];
                assert(hand_2[k].suit == hand_2[0].suit);
            }

            assert(hand_1[0].suit == hand_2[0].suit);
            assert(all_match_first_suit(hand_1));
            assert(false);
        }
    }
}

/// The nobs score depends only on the multiset of the hand cards.
proof fn lemma_nobs_multiset(hand_1: Seq<Card>, hand_2: Seq<Card>, starter: Card)
    requires
        hand_1.to_multiset() == hand_2.to_multiset(),
    ensures
        spec_nobs(hand_1, starter) == spec_nobs(hand_2, starter),
{
    hand_1.to_multiset_ensures();
    hand_2.to_multiset_ensures();

    let jack = Card { rank: crate::card::Rank::Jack, suit: starter.suit };

    if has_jack_of_suit(hand_1, starter.suit) {
        let i = choose|i: int| 0 <= i < hand_1.len() && hand_1[i] == jack;
        assert(hand_1.contains(jack));
        assert(hand_2.to_multiset().count(jack) > 0);
        assert(hand_2.contains(jack));
        let k = choose|k: int| 0 <= k < hand_2.len() && hand_2[k] == jack;
        assert(has_jack_of_suit(hand_2, starter.suit));
    }

    if has_jack_of_suit(hand_2, starter.suit) {
        let i = choose|i: int| 0 <= i < hand_2.len() && hand_2[i] == jack;
        assert(hand_2.contains(jack));
        assert(hand_1.to_multiset().count(jack) > 0);
        assert(hand_1.contains(jack));
        let k = choose|k: int| 0 <= k < hand_1.len() && hand_1[k] == jack;
        assert(has_jack_of_suit(hand_1, starter.suit));
    }
}

/// The total hand/crib score is a pure function of the multiset of hand
/// cards: reordering the four hand cards never changes it.
pub proof fn lemma_total_invariant_under_reorder(
    hand_1: Seq<Card>,
    hand_2: Seq<Card>,
    starter: Card,
    is_crib: bool,
)
    requires
        hand_1.len() == 4,
        hand_1.to_multiset() == hand_2.to_multiset(),
    ensures
        spec_total(hand_1, starter, is_crib) == spec_total(hand_2, starter, is_crib),
{
    hand_1.to_multiset_ensures();
    hand_2.to_multiset_ensures();

    let five_1 = five_cards(hand_1, starter);
    let five_2 = five_cards(hand_2, starter);

    assert(five_1.to_multiset() == five_2.to_multiset()) by {
        assert(five_1.to_multiset() =~= hand_1.to_multiset().insert(starter));
        assert(five_2.to_multiset() =~= hand_2.to_multiset().insert(starter));
    }

    lemma_count_subsets_multiset(five_1, five_2, 15);
    lemma_count_pairs_multiset(five_1, five_2);
    lemma_rank_counts_multiset(five_1, five_2);
    lemma_flushes_multiset(hand_1, hand_2, starter, is_crib);
    lemma_nobs_multiset(hand_1, hand_2, starter);
}

/// A play that brings the stack to exactly 31 scores the thirty-one
/// bonus (2 points) on that play, and the separate GO point is always
/// suppressed there, even when neither player can respond.
pub proof fn lemma_thirty_one_supersedes_go(
    stack: Seq<Card>,
    hand_1: Seq<Card>,
    hand_2: Seq<Card>,
)
    requires
        sum_values(stack) == 31,
    ensures
        spec_thirty_one_points(sum_values(stack)) == 2,
        spec_go_point(sum_values(stack), hand_1, hand_2) == 0,
        spec_current_points(stack) >= 2,
{
}

} // verus!
