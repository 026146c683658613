//! The move-selection capability: given the cards available, choose one.

use vstd::prelude::*;

use crate::card::Card;

verus! {

/// The trait for controlling how a player chooses a card from a pile of
/// available cards.
///
/// An implementation may answer with any index, or with `None` for "no
/// further choice"; nothing is promised about the answer, so callers treat
/// an out-of-bounds index like `None`.
pub trait Controller {
    /// Returns a possible index for a card among `available_cards`.
    ///
    /// This takes `&mut self` because an implementation typically consumes
    /// internal state to determine the index.
    fn get_card_index(&mut self, available_cards: &Vec<Card>) -> Option<usize>;
}

} // verus!
