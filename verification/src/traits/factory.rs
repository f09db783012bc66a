//! The trait of a source of the cards of a new deck.

use crate::objects::card::Card;
use std::collections::VecDeque;
use vstd::prelude::*;

verus! {

/// A source of the cards that a new deck starts with. A factory is pure: it
/// yields the same cards, in the same order, each time.
pub trait DeckFactory {
    /// The cards that the factory yields, top card first.
    spec fn cards(&self) -> Seq<Card>;

    /// Produces the cards of a new deck.
    fn generate(&self) -> (cards: VecDeque<Card>)
        ensures
            cards@ == self.cards(),
    ;
}

} // verus!
