use cribbage::card::{Card, Rank, Suit};

#[test]
fn card_test_new() {
    let test_card = Card::new(Rank::Ace, Suit::Clubs);

    assert_eq!(test_card.rank, Rank::Ace);
    assert_eq!(test_card.suit, Suit::Clubs);
}

#[test]
fn test_score() {
    let playing_card_1 = Card::new(Rank::Ace, Suit::Spades);
    let playing_card_2 = Card::new(Rank::Queen, Suit::Hearts);

    assert_eq!(playing_card_1.score(), 1);
    assert_eq!(playing_card_2.score(), 10);
}
