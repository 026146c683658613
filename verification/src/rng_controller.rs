//! A controller that takes all of its moves from a random number
//! generator.

use vstd::prelude::*;

use rand::Rng;

use crate::card::Card;
use crate::controller::Controller;

verus! {

#[verifier::external_type_specification]
#[verifier::external_body]
pub struct ExThreadRng(rand::rngs::ThreadRng);

/// Relies on rand::thread_rng: returns a handle to the thread-local
/// generator.
#[verifier::external_body]
fn fresh_thread_rng() -> rand::rngs::ThreadRng {
    rand::thread_rng()
}

/// Relies on rand::Rng::gen_range: returns a sample from the given range,
/// which is non-empty since `n > 0`; whatever is drawn lies below `n`.
#[verifier::external_body]
fn random_index_below(rng: &mut rand::rngs::ThreadRng, n: usize) -> (r: usize)
    requires
        n > 0,
    ensures
        r < n,
{
    rng.gen_range(0..n)
}

/// A controller that chooses uniformly among the available cards. A very
/// dumb AI, but a good first start.
#[derive(Debug)]
pub struct RngController {
    rng: rand::rngs::ThreadRng,
}

impl RngController {
    /// Creates a new [`RngController`] backed by the thread-local
    /// generator.
    pub fn new() -> RngController {
        RngController { rng: fresh_thread_rng() }
    }
}

impl Controller for RngController {
    /// Answers with a random in-bounds index, or `None` when there are no
    /// cards to choose from.
    fn get_card_index(&mut self, available_cards: &Vec<Card>) -> Option<usize> {
        if available_cards.len() == 0 {
            None
        } else {
            Some(random_index_below(&mut self.rng, available_cards.len()))
        }
    }
}

} // verus!
