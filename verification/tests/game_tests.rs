use cribbage::card::{Card, Rank, Suit};
use cribbage::deck::Deck;
use cribbage::game::Game;
use cribbage::player::Player;
use cribbage::predetermined_controller::PredeterminedController;

#[test]
fn test_game_choose_dealer_player_1_wins_higher_value() {
    // Chose King of Diamonds
    let player_1_controller = PredeterminedController::from(vec![1, 32]);
    let player_1 = Player::new(player_1_controller);

    // Chose Eight of Clubs
    let player_2_controller = PredeterminedController::from(vec![2, 69]);
    let player_2 = Player::new(player_2_controller);

    let deck_cards = vec![
        Card::new(Rank::Eight, Suit::Diamonds),
        Card::new(Rank::King, Suit::Diamonds),
        Card::new(Rank::Six, Suit::Clubs),
        Card::new(Rank::Eight, Suit::Clubs),
    ];
    let deck = Deck::new_with_cards(deck_cards.clone());

    let mut game = Game::new_with_deck(player_1, player_2, deck);

    let expected_player_1_controller = PredeterminedController::from(vec![32]);
    let expected_player_1 = Player::new(expected_player_1_controller);

    let expected_player_2_controller = PredeterminedController::from(vec![69]);
    let expected_player_2 = Player::new(expected_player_2_controller);

    game.choose_dealer();

    assert_eq!(game.deck, Deck::new_with_cards(deck_cards));
    assert_eq!(game.dealer, expected_player_1);
    assert_eq!(game.pone, expected_player_2);
}

#[test]
fn test_game_choose_dealer_player_1_wins_same_value_higher_suit() {
    // Chose Eight of Clubs
    let player_1_controller = PredeterminedController::from(vec![3, 32]);
    let player_1 = Player::new(player_1_controller);

    // Chose Eight of Diamonds
    let player_2_controller = PredeterminedController::from(vec![0, 69]);
    let player_2 = Player::new(player_2_controller);

    let deck_cards = vec![
        Card::new(Rank::Eight, Suit::Diamonds),
        Card::new(Rank::King, Suit::Diamonds),
        Card::new(Rank::Six, Suit::Clubs),
        Card::new(Rank::Eight, Suit::Clubs),
    ];
    let deck = Deck::new_with_cards(deck_cards.clone());

    let mut game = Game::new_with_deck(player_1, player_2, deck);

    let expected_player_1_controller = PredeterminedController::from(vec![32]);
    let expected_player_1 = Player::new(expected_player_1_controller);

    let expected_player_2_controller = PredeterminedController::from(vec![69]);
    let expected_player_2 = Player::new(expected_player_2_controller);

    game.choose_dealer();

    assert_eq!(game.deck, Deck::new_with_cards(deck_cards));
    assert_eq!(game.dealer, expected_player_1);
    assert_eq!(game.pone, expected_player_2);
}

#[test]
fn test_game_choose_dealer_player_2_wins_higher_value() {
    // Chose Eight of Diamonds
    let player_1_controller = PredeterminedController::from(vec![0, 32]);
    let player_1 = Player::new(player_1_controller);

    // Chose King of Diamonds
    let player_2_controller = PredeterminedController::from(vec![0, 69]);
    let player_2 = Player::new(player_2_controller);

    let deck_cards = vec![
        Card::new(Rank::Eight, Suit::Diamonds),
        Card::new(Rank::King, Suit::Diamonds),
        Card::new(Rank::Six, Suit::Clubs),
        Card::new(Rank::Eight, Suit::Clubs),
    ];
    let deck = Deck::new_with_cards(deck_cards.clone());

    let mut game = Game::new_with_deck(player_1, player_2, deck);

    let expected_player_1_controller = PredeterminedController::from(vec![32]);
    let expected_player_1 = Player::new(expected_player_1_controller);

    let expected_player_2_controller = PredeterminedController::from(vec![69]);
    let expected_player_2 = Player::new(expected_player_2_controller);

    game.choose_dealer();

    assert_eq!(game.deck, Deck::new_with_cards(deck_cards));
    assert_eq!(game.dealer, expected_player_2);
    assert_eq!(game.pone, expected_player_1);
}

#[test]
fn test_game_choose_dealer_player_2_wins_same_value_higher_suit() {
    // Chose Eight of Diamonds
    let player_1_controller = PredeterminedController::from(vec![0, 32]);
    let player_1 = Player::new(player_1_controller);

    // Chose Eight of Clubs
    let player_2_controller = PredeterminedController::from(vec![2, 69]);
    let player_2 = Player::new(player_2_controller);

    let deck_cards = vec![
        Card::new(Rank::Eight, Suit::Diamonds),
        Card::new(Rank::King, Suit::Diamonds),
        Card::new(Rank::Six, Suit::Clubs),
        Card::new(Rank::Eight, Suit::Clubs),
    ];
    let deck = Deck::new_with_cards(deck_cards.clone());

    let mut game = Game::new_with_deck(player_1, player_2, deck);

    let expected_player_1_controller = PredeterminedController::from(vec![32]);
    let expected_player_1 = Player::new(expected_player_1_controller);

    let expected_player_2_controller = PredeterminedController::from(vec![69]);
    let expected_player_2 = Player::new(expected_player_2_controller);

    game.choose_dealer();

    assert_eq!(game.deck, Deck::new_with_cards(deck_cards));
    assert_eq!(game.dealer, expected_player_2);
    assert_eq!(game.pone, expected_player_1);
}

#[test]
fn test_game_run_deal_and_discard_round() {
    // Discard Six of Hearts and Eight of Clubs to crib
    let player_1_controller = PredeterminedController::from(vec![0, 3, 32]);
    let player_1 = Player::new(player_1_controller);

    // Discard Five of Clubs and Six of Clubs to crib
    let player_2_controller = PredeterminedController::from(vec![2, 3, 69]);
    let player_2 = Player::new(player_2_controller);

    // Deck is dealt in reverse!
    let deck_cards = vec![
        Card::new(Rank::Eight, Suit::Diamonds),
        Card::new(Rank::King, Suit::Diamonds),
        Card::new(Rank::Six, Suit::Clubs),
        Card::new(Rank::Eight, Suit::Clubs),
        Card::new(Rank::Seven, Suit::Diamonds),
        Card::new(Rank::Queen, Suit::Diamonds),
        Card::new(Rank::Five, Suit::Clubs),
        Card::new(Rank::Seven, Suit::Clubs),
        Card::new(Rank::Six, Suit::Diamonds),
        Card::new(Rank::Jack, Suit::Diamonds),
        Card::new(Rank::Four, Suit::Clubs),
        Card::new(Rank::Six, Suit::Hearts),
    ];
    let deck = Deck::new_with_cards(deck_cards);

    let mut game = Game::new_with_deck(player_1, player_2, deck);

    let expected_player_1_cards = vec![
        Card::new(Rank::Jack, Suit::Diamonds),
        Card::new(Rank::Seven, Suit::Clubs),
        Card::new(Rank::Queen, Suit::Diamonds),
        Card::new(Rank::King, Suit::Diamonds),
    ];
    let expected_player_1_crib = vec![
        Card::new(Rank::Five, Suit::Clubs),
        Card::new(Rank::Six, Suit::Hearts),
        Card::new(Rank::Six, Suit::Clubs),
        Card::new(Rank::Eight, Suit::Clubs),
    ];
    let expected_player_1_controller = PredeterminedController::from(vec![32]);
    let expected_player_1 = Player::new_with_cards_and_crib(
        expected_player_1_controller,
        expected_player_1_cards,
        expected_player_1_crib,
    );

    let expected_player_2_cards = vec![
        Card::new(Rank::Four, Suit::Clubs),
        Card::new(Rank::Six, Suit::Diamonds),
        Card::new(Rank::Seven, Suit::Diamonds),
        Card::new(Rank::Eight, Suit::Diamonds),
    ];
    let expected_player_2_controller = PredeterminedController::from(vec![69]);
    let expected_player_2 =
        Player::new_with_cards(expected_player_2_controller, expected_player_2_cards);

    let dealt = game.run_deal_and_discard_round();

    assert!(dealt);
    assert_eq!(game.deck, Deck::new_with_cards(Vec::new()));
    assert_eq!(game.dealer, expected_player_1);
    assert_eq!(game.pone, expected_player_2);
}

#[test]
fn test_game_get_starter_not_jack() {
    let player_1_controller = PredeterminedController::from(vec![0, 3, 32]);
    let player_1 = Player::new(player_1_controller);

    let player_2_controller = PredeterminedController::from(vec![2, 3, 69]);
    let player_2 = Player::new(player_2_controller);

    // Deck is dealt in reverse!
    let deck_cards = vec![
        Card::new(Rank::Eight, Suit::Diamonds),
        Card::new(Rank::King, Suit::Diamonds),
        Card::new(Rank::Six, Suit::Clubs),
        Card::new(Rank::Eight, Suit::Clubs),
        Card::new(Rank::Seven, Suit::Diamonds),
        Card::new(Rank::Queen, Suit::Diamonds),
        Card::new(Rank::Five, Suit::Clubs),
        Card::new(Rank::Seven, Suit::Clubs),
        Card::new(Rank::Six, Suit::Diamonds),
        Card::new(Rank::Jack, Suit::Diamonds),
        Card::new(Rank::Four, Suit::Clubs),
        Card::new(Rank::Six, Suit::Hearts),
    ];
    let deck = Deck::new_with_cards(deck_cards);

    let mut game = Game::new_with_deck(player_1, player_2, deck);

    let expected_deck_cards = vec![
        Card::new(Rank::Eight, Suit::Diamonds),
        Card::new(Rank::King, Suit::Diamonds),
        Card::new(Rank::Six, Suit::Clubs),
        Card::new(Rank::Eight, Suit::Clubs),
        Card::new(Rank::Seven, Suit::Diamonds),
        Card::new(Rank::Queen, Suit::Diamonds),
        Card::new(Rank::Five, Suit::Clubs),
        Card::new(Rank::Seven, Suit::Clubs),
        Card::new(Rank::Six, Suit::Diamonds),
        Card::new(Rank::Jack, Suit::Diamonds),
        Card::new(Rank::Four, Suit::Clubs),
    ];
    let expected_dealer_points = 0;
    let expected_pone_points = 0;

    let starter = game.get_starter();

    assert_eq!(starter, Card::new(Rank::Six, Suit::Hearts));
    assert_eq!(game.deck.as_vec(), &expected_deck_cards);
    assert_eq!(game.dealer.points, expected_dealer_points);
    assert_eq!(game.pone.points, expected_pone_points);
}

#[test]
fn test_game_get_starter_jack() {
    let player_1_controller = PredeterminedController::from(vec![0, 3, 32]);
    let player_1 = Player::new(player_1_controller);

    let player_2_controller = PredeterminedController::from(vec![2, 3, 69]);
    let player_2 = Player::new(player_2_controller);

    // Deck is dealt in reverse!
    let deck_cards = vec![
        Card::new(Rank::Eight, Suit::Diamonds),
        Card::new(Rank::King, Suit::Diamonds),
        Card::new(Rank::Six, Suit::Clubs),
        Card::new(Rank::Eight, Suit::Clubs),
        Card::new(Rank::Seven, Suit::Diamonds),
        Card::new(Rank::Queen, Suit::Diamonds),
        Card::new(Rank::Five, Suit::Clubs),
        Card::new(Rank::Seven, Suit::Clubs),
        Card::new(Rank::Six, Suit::Diamonds),
        Card::new(Rank::Four, Suit::Clubs),
        Card::new(Rank::Six, Suit::Hearts),
        Card::new(Rank::Jack, Suit::Diamonds),
    ];
    let deck = Deck::new_with_cards(deck_cards);

    let mut game = Game::new_with_deck(player_1, player_2, deck);

    let expected_deck_cards = vec![
        Card::new(Rank::Eight, Suit::Diamonds),
        Card::new(Rank::King, Suit::Diamonds),
        Card::new(Rank::Six, Suit::Clubs),
        Card::new(Rank::Eight, Suit::Clubs),
        Card::new(Rank::Seven, Suit::Diamonds),
        Card::new(Rank::Queen, Suit::Diamonds),
        Card::new(Rank::Five, Suit::Clubs),
        Card::new(Rank::Seven, Suit::Clubs),
        Card::new(Rank::Six, Suit::Diamonds),
        Card::new(Rank::Four, Suit::Clubs),
        Card::new(Rank::Six, Suit::Hearts),
    ];
    let expected_dealer_points = 2;
    let expected_pone_points = 0;

    let starter = game.get_starter();

    assert_eq!(starter, Card::new(Rank::Jack, Suit::Diamonds));
    assert_eq!(game.deck.as_vec(), &expected_deck_cards);
    assert_eq!(game.dealer.points, expected_dealer_points);
    assert_eq!(game.pone.points, expected_pone_points);
}

#[test]
fn test_game_run_play_round() {
    // Play stack (start with p2)
    //     * Stack 1 -> 7D(p2, 0pt, 7), 7C(p1, 2pt, 14), 8D(p2, 0pt, 22), 6D(p2, 3pt, 28),
    //                  GO(p2, 1pt, 28)
    //     * Stack 2 -> 4C(p2, 0pt, 4), JD(p1, 0pt, 14), QD(p1, 0pt, 24), GO(p1, 1pt, 24)
    //     * Stack 3 -> KD(p1, 0pt, 10), GO (p1, 1pt, 10)
    //
    // Score at end: p1 = 4 (pair and 2 GOs), p2 = 4 (run of 3 and a GO)

    // Discard: 7C, JD, QD, KD
    let player_1_controller = PredeterminedController::from(vec![1, 0, 0, 0, 32]);
    let player_1_cards = vec![
        Card::new(Rank::Jack, Suit::Diamonds),
        Card::new(Rank::Seven, Suit::Clubs),
        Card::new(Rank::Queen, Suit::Diamonds),
        Card::new(Rank::King, Suit::Diamonds),
    ];
    let player_1 = Player::new_with_cards(player_1_controller, player_1_cards);

    // Discard: 7D, 8D, 6D, 4C
    let player_2_controller = PredeterminedController::from(vec![2, 2, 1, 0, 69]);
    let player_2_cards = vec![
        Card::new(Rank::Four, Suit::Clubs),
        Card::new(Rank::Six, Suit::Diamonds),
        Card::new(Rank::Seven, Suit::Diamonds),
        Card::new(Rank::Eight, Suit::Diamonds),
    ];
    let player_2 = Player::new_with_cards(player_2_controller, player_2_cards);

    let mut game = Game::new(player_1, player_2);

    let expected_dealer_points = 4;
    let expected_pone_points = 4;

    game.run_play_round();

    assert_eq!(game.dealer.points, expected_dealer_points);
    assert_eq!(game.pone.points, expected_pone_points);

    // assert that the hands were reset
    assert_eq!(game.dealer.hand.as_vec().len(), 4);
    assert_eq!(game.pone.hand.as_vec().len(), 4);
    assert!(game.dealer.discarded.is_empty());
    assert!(game.pone.discarded.is_empty());
}

#[test]
fn test_game_run_play_round_player_1_hit_121_before_first_reset() {
    // Play stack (start with p2) p1.points = 118 && p2.points = 120
    //     * Stack 1 -> 7D(p2, 0pt, 7), 7C(p1, 2pt, 14), 8D(p2, 0pt, 22), 6D(p2, 3pt, 28),
    //                  GO(p2, 1pt, 28)
    //     * p1 hit 121 break
    //
    // Score at end: p1 = 120 (pair), p2 = 124 (run of 3 and a GO)

    // Discard: 7C, JD, QD, KD
    let player_1_controller = PredeterminedController::from(vec![1, 0, 0, 0, 32]);
    let player_1_cards = vec![
        Card::new(Rank::Jack, Suit::Diamonds),
        Card::new(Rank::Seven, Suit::Clubs),
        Card::new(Rank::Queen, Suit::Diamonds),
        Card::new(Rank::King, Suit::Diamonds),
    ];
    let mut player_1 = Player::new_with_cards(player_1_controller, player_1_cards);
    player_1.points = 118;

    // Discard: 7D, 8D, 6D, 4C
    let player_2_controller = PredeterminedController::from(vec![2, 2, 1, 0, 69]);
    let player_2_cards = vec![
        Card::new(Rank::Four, Suit::Clubs),
        Card::new(Rank::Six, Suit::Diamonds),
        Card::new(Rank::Seven, Suit::Diamonds),
        Card::new(Rank::Eight, Suit::Diamonds),
    ];
    let mut player_2 = Player::new_with_cards(player_2_controller, player_2_cards);
    player_2.points = 120;

    let mut game = Game::new(player_1, player_2);

    let expected_dealer_points = 120;
    let expected_pone_points = 124;

    game.run_play_round();

    assert_eq!(game.dealer.points, expected_dealer_points);
    assert_eq!(game.pone.points, expected_pone_points);

    // assert that the hands were reset
    assert_eq!(game.dealer.hand.as_vec().len(), 4);
    assert_eq!(game.pone.hand.as_vec().len(), 4);
    assert!(game.dealer.discarded.is_empty());
    assert!(game.pone.discarded.is_empty());
}

#[test]
fn test_game_run_counting_round() {
    let controller = PredeterminedController::from(Vec::new());

    let starter = Card::new(Rank::Eight, Suit::Diamonds);

    // Hand Score 6pts: 15 2pts, 3-run 3pts, Nobs 1pt
    // Crib Score 13pts: 15 4pts, 4-run 4pts, 5-flush 5pts
    // Total Score 19pts
    let player_1_cards = vec![
        Card::new(Rank::Jack, Suit::Diamonds),
        Card::new(Rank::Seven, Suit::Clubs),
        Card::new(Rank::Queen, Suit::Diamonds),
        Card::new(Rank::King, Suit::Diamonds),
    ];
    let player_1_crib = vec![
        Card::new(Rank::Ace, Suit::Diamonds),
        Card::new(Rank::Two, Suit::Diamonds),
        Card::new(Rank::Three, Suit::Diamonds),
        Card::new(Rank::Four, Suit::Diamonds),
    ];
    let player_1 =
        Player::new_with_cards_and_crib(controller.clone(), player_1_cards, player_1_crib);

    // Hand Score 12pts: 15 4pts, Pair 2pts, 2x 3-run 6pts
    let player_2_cards = vec![
        Card::new(Rank::Four, Suit::Clubs),
        Card::new(Rank::Six, Suit::Diamonds),
        Card::new(Rank::Seven, Suit::Diamonds),
        Card::new(Rank::Eight, Suit::Clubs),
    ];
    let player_2 = Player::new_with_cards(controller, player_2_cards);

    let mut game = Game::new(player_1, player_2);

    let expected_dealer_points = 19;
    let expected_pone_points = 12;

    game.run_counting_round(&starter);

    assert_eq!(game.dealer.points, expected_dealer_points);
    assert_eq!(game.pone.points, expected_pone_points);
}

#[test]
fn test_game_run_counting_round_player_2_hit_121_before_player_1_can_count() {
    let controller = PredeterminedController::from(Vec::new());

    let starter = Card::new(Rank::Eight, Suit::Diamonds);

    let player_1_cards = vec![
        Card::new(Rank::Jack, Suit::Diamonds),
        Card::new(Rank::Seven, Suit::Clubs),
        Card::new(Rank::Queen, Suit::Diamonds),
        Card::new(Rank::King, Suit::Diamonds),
    ];
    let player_1_crib = vec![
        Card::new(Rank::Ace, Suit::Diamonds),
        Card::new(Rank::Two, Suit::Diamonds),
        Card::new(Rank::Three, Suit::Diamonds),
        Card::new(Rank::Four, Suit::Diamonds),
    ];
    let player_1 =
        Player::new_with_cards_and_crib(controller.clone(), player_1_cards, player_1_crib);

    let player_2_cards = vec![
        Card::new(Rank::Four, Suit::Clubs),
        Card::new(Rank::Six, Suit::Diamonds),
        Card::new(Rank::Seven, Suit::Diamonds),
        Card::new(Rank::Eight, Suit::Clubs),
    ];
    let mut player_2 = Player::new_with_cards(controller, player_2_cards);
    player_2.points = 110;

    let mut game = Game::new(player_1, player_2);

    let expected_dealer_points = 0;
    let expected_pone_points = 122;

    game.run_counting_round(&starter);

    assert_eq!(game.dealer.points, expected_dealer_points);
    assert_eq!(game.pone.points, expected_pone_points);
}

#[test]
fn test_game_reset_deck() {
    let controller = PredeterminedController::from(Vec::new());

    let starter = Card::new(Rank::Eight, Suit::Diamonds);

    let player_1_cards = vec![
        Card::new(Rank::Jack, Suit::Diamonds),
        Card::new(Rank::Seven, Suit::Clubs),
        Card::new(Rank::Queen, Suit::Diamonds),
        Card::new(Rank::King, Suit::Diamonds),
    ];
    let player_1_crib = vec![
        Card::new(Rank::Ace, Suit::Diamonds),
        Card::new(Rank::Two, Suit::Diamonds),
        Card::new(Rank::Three, Suit::Diamonds),
        Card::new(Rank::Four, Suit::Diamonds),
    ];
    let player_1 =
        Player::new_with_cards_and_crib(controller.clone(), player_1_cards, player_1_crib);

    let player_2_cards = vec![
        Card::new(Rank::Four, Suit::Clubs),
        Card::new(Rank::Six, Suit::Diamonds),
        Card::new(Rank::Seven, Suit::Diamonds),
        Card::new(Rank::Eight, Suit::Clubs),
    ];
    let player_2 = Player::new_with_cards(controller, player_2_cards);

    let deck = Deck::new_with_cards(Vec::new());
    let mut game = Game::new_with_deck(player_1, player_2, deck);

    let expected_deck_cards = vec![
        Card::new(Rank::Jack, Suit::Diamonds),
        Card::new(Rank::Seven, Suit::Clubs),
        Card::new(Rank::Queen, Suit::Diamonds),
        Card::new(Rank::King, Suit::Diamonds),
        Card::new(Rank::Ace, Suit::Diamonds),
        Card::new(Rank::Two, Suit::Diamonds),
        Card::new(Rank::Three, Suit::Diamonds),
        Card::new(Rank::Four, Suit::Diamonds),
        Card::new(Rank::Four, Suit::Clubs),
        Card::new(Rank::Six, Suit::Diamonds),
        Card::new(Rank::Seven, Suit::Diamonds),
        Card::new(Rank::Eight, Suit::Clubs),
        Card::new(Rank::Eight, Suit::Diamonds),
    ];
    let expected_deck = Deck::new_with_cards(expected_deck_cards);

    game.reset_deck(starter);

    assert_eq!(game.deck, expected_deck);
}

#[test]
fn test_game_reset_deck_with() {
    let controller = PredeterminedController::from(Vec::new());

    let player_1_cards = vec![
        Card::new(Rank::Jack, Suit::Diamonds),
        Card::new(Rank::Seven, Suit::Clubs),
        Card::new(Rank::Queen, Suit::Diamonds),
        Card::new(Rank::King, Suit::Diamonds),
    ];
    let player_1_crib = vec![
        Card::new(Rank::Ace, Suit::Diamonds),
        Card::new(Rank::Two, Suit::Diamonds),
        Card::new(Rank::Three, Suit::Diamonds),
        Card::new(Rank::Four, Suit::Diamonds),
    ];
    let player_1 =
        Player::new_with_cards_and_crib(controller.clone(), player_1_cards, player_1_crib);

    let player_2_cards = vec![
        Card::new(Rank::Four, Suit::Clubs),
        Card::new(Rank::Six, Suit::Diamonds),
        Card::new(Rank::Seven, Suit::Diamonds),
        Card::new(Rank::Eight, Suit::Clubs),
    ];
    let player_2 = Player::new_with_cards(controller, player_2_cards);

    let deck = Deck::new_with_cards(Vec::new());
    let mut game = Game::new_with_deck(player_1, player_2, deck);

    let expected_deck_cards = vec![
        Card::new(Rank::Jack, Suit::Diamonds),
        Card::new(Rank::Seven, Suit::Clubs),
        Card::new(Rank::Queen, Suit::Diamonds),
        Card::new(Rank::King, Suit::Diamonds),
        Card::new(Rank::Ace, Suit::Diamonds),
        Card::new(Rank::Two, Suit::Diamonds),
        Card::new(Rank::Three, Suit::Diamonds),
        Card::new(Rank::Four, Suit::Diamonds),
        Card::new(Rank::Four, Suit::Clubs),
        Card::new(Rank::Six, Suit::Diamonds),
        Card::new(Rank::Seven, Suit::Diamonds),
        Card::new(Rank::Eight, Suit::Clubs),
        Card::new(Rank::Eight, Suit::Diamonds),
    ];
    let expected_deck = Deck::new_with_cards(expected_deck_cards);

    game.reset_deck_with(expected_deck.clone());

    assert_eq!(game.deck, expected_deck);
    assert!(!game.dealer.has_cards());
    assert!(!game.pone.has_cards());
}

#[test]
fn test_game_play() {
    // Each round deals the maximum-scoring layout: the dealer pegs 29,
    // counts 20 in hand and 29 in the crib, while the pone pegs 12 and
    // counts 20. With the same deck restored every round and the dealers
    // alternating, player 1 reaches 124 points in the third round.
    let controller =
        PredeterminedController::from(vec![2, 5, 4, 0, 0, 0, 0, 5, 4, 0, 0, 0, 0, 5, 4, 0, 0]);

    let player_1 = Player::new(controller.clone());
    let player_2 = Player::new(controller);

    let deck_cards = vec![
        Card::new(Rank::Five, Suit::Clubs),
        Card::new(Rank::Jack, Suit::Clubs),
        Card::new(Rank::Five, Suit::Diamonds),
        Card::new(Rank::Five, Suit::Hearts),
        Card::new(Rank::Five, Suit::Spades),
        Card::new(Rank::Four, Suit::Spades),
        Card::new(Rank::Four, Suit::Clubs),
        Card::new(Rank::Four, Suit::Hearts),
        Card::new(Rank::Four, Suit::Diamonds),
        Card::new(Rank::Three, Suit::Spades),
        Card::new(Rank::Three, Suit::Clubs),
        Card::new(Rank::Three, Suit::Hearts),
        Card::new(Rank::Three, Suit::Diamonds),
    ];
    let deck = Deck::new_with_cards(deck_cards);

    let mut game = Game::new_with_deck(player_1, player_2, deck.clone());

    let expected_dealer_points = 124;
    let expected_pone_points = 116;

    let finished = game.play(&Some(deck));

    assert!(finished);
    assert_eq!(game.dealer.points, expected_dealer_points);
    assert_eq!(game.pone.points, expected_pone_points);
}
