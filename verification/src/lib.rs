//! A verified scoring engine for the card game cribbage.
//!
//! The crate models playing cards, the combinatorial hand/crib scorer, and
//! the incremental pegging engine, together with the deck, hand and player
//! bookkeeping that the game loop needs.

pub mod card;
pub mod controller;
pub mod deck;
pub mod game;
pub mod hand;
pub mod laws;
pub mod play_data;
pub mod player;
pub mod predetermined_controller;
pub mod rng_controller;
pub mod score;
