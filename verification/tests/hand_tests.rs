use cribbage::card::{Card, Rank, Suit};
use cribbage::hand::Hand;

#[test]
fn hand_test_new() {
    let test_hand = Hand::new();

    assert!(test_hand.0.is_empty());
    assert_eq!(test_hand, Hand::new());
}

#[test]
fn hand_test_add_card() {
    let mut hand = Hand::new();

    hand.add_card(Card::new(Rank::Ace, Suit::Clubs));
    hand.add_card(Card::new(Rank::Four, Suit::Spades));
    hand.add_card(Card::new(Rank::Three, Suit::Hearts));
    hand.add_card(Card::new(Rank::Two, Suit::Spades));
    hand.add_card(Card::new(Rank::Queen, Suit::Diamonds));
    hand.add_card(Card::new(Rank::Two, Suit::Hearts));
    hand.add_card(Card::new(Rank::Ten, Suit::Clubs));

    assert_eq!(hand.0.len(), 7);
    assert_eq!(
        hand.0,
        vec![
            Card::new(Rank::Ace, Suit::Clubs),
            Card::new(Rank::Four, Suit::Spades),
            Card::new(Rank::Three, Suit::Hearts),
            Card::new(Rank::Two, Suit::Spades),
            Card::new(Rank::Queen, Suit::Diamonds),
            Card::new(Rank::Two, Suit::Hearts),
            Card::new(Rank::Ten, Suit::Clubs),
        ]
    );
}

#[test]
fn hand_test_discard() {
    let mut hand = Hand::new();

    hand.add_card(Card::new(Rank::Ace, Suit::Clubs));
    hand.add_card(Card::new(Rank::Four, Suit::Spades));
    hand.add_card(Card::new(Rank::Three, Suit::Hearts));
    hand.add_card(Card::new(Rank::Two, Suit::Spades));

    let mut card = hand.discard(2);

    assert_eq!(card, Ok(Card::new(Rank::Three, Suit::Hearts)));

    for _ in 0..3 {
        card = hand.discard(0);
    }

    assert_eq!(card, Ok(Card::new(Rank::Two, Suit::Spades)));

    card = hand.discard(0);

    assert!(card.is_err());
}

#[test]
fn test_as_vec() {
    let expected = vec![
        Card::new(Rank::Ace, Suit::Clubs),
        Card::new(Rank::Two, Suit::Spades),
        Card::new(Rank::Three, Suit::Hearts),
        Card::new(Rank::Four, Suit::Spades),
    ];

    let mut hand = Hand::new();

    hand.add_card(Card::new(Rank::Ace, Suit::Clubs));
    hand.add_card(Card::new(Rank::Two, Suit::Spades));
    hand.add_card(Card::new(Rank::Three, Suit::Hearts));
    hand.add_card(Card::new(Rank::Four, Suit::Spades));

    let hand_as_vec = hand.as_vec();

    assert_eq!(hand_as_vec, &expected);
}

#[test]
fn discard_matching() {
    let card1 = Card::new(Rank::Ace, Suit::Clubs);
    let card2 = Card::new(Rank::Ace, Suit::Diamonds);

    let mut hand = Hand::new();

    hand.add_card(card1.clone());
    hand.add_card(Card::new(Rank::Four, Suit::Spades));
    hand.add_card(Card::new(Rank::Three, Suit::Hearts));
    hand.add_card(Card::new(Rank::Two, Suit::Spades));

    let discard1 = hand.discard_matching(&card1);
    let discard2 = hand.discard_matching(&card2);

    assert_eq!(discard1, Some(card1));
    assert_eq!(discard2, None);
}

#[test]
fn from_vec() {
    let cards = vec![
        Card::new(Rank::Ace, Suit::Clubs),
        Card::new(Rank::Two, Suit::Spades),
        Card::new(Rank::Three, Suit::Hearts),
        Card::new(Rank::Four, Suit::Spades),
    ];

    let hand = Hand::from(cards.clone());

    let hand_as_vec = hand.as_vec();

    assert_eq!(hand_as_vec, &cards);
}
