//! A controller whose choices are fixed in advance, used for scripted
//! play and for tests.

use vstd::prelude::*;

use crate::card::Card;
use crate::controller::Controller;

verus! {

/// A "predetermined" controller: instead of querying an AI or prompting a
/// user, it answers with the front of a given queue of card indices.
#[derive(Clone, Debug, PartialEq)]
pub struct PredeterminedController {
    /// The indices for choosing cards, consumed front to back.
    pub card_indices: Vec<usize>,
}

impl PredeterminedController {
    /// Creates a new [`PredeterminedController`] with the given indices.
    pub fn new(card_indices: Vec<usize>) -> (c: PredeterminedController)
        ensures
            c.card_indices@ == card_indices@,
    {
        PredeterminedController { card_indices }
    }
}

impl Controller for PredeterminedController {
    /// Answers with the next queued index, whatever the available cards
    /// are, or `None` when the queue is exhausted.
    fn get_card_index(&mut self, available_cards: &Vec<Card>) -> Option<usize> {
        if self.card_indices.len() == 0 {
            None
        } else {
            Some(self.card_indices.remove(0))
        }
    }
}

impl From<Vec<usize>> for PredeterminedController {
    /// Converts a vector of indices into a [`PredeterminedController`].
    fn from(card_indices: Vec<usize>) -> (c: PredeterminedController) {
        PredeterminedController { card_indices }
    }
}

impl vstd::std_specs::convert::FromSpecImpl<Vec<usize>> for PredeterminedController {
    open spec fn obeys_from_spec() -> bool {
        true
    }

    open spec fn from_spec(card_indices: Vec<usize>) -> PredeterminedController {
        PredeterminedController { card_indices }
    }
}

} // verus!
