//! A deck as a vector of the dense codes of its cards.

use crate::objects::card::Card;
use crate::objects::card_codes::InvalidIndex;
use crate::objects::deck::Deck;
use vstd::prelude::*;
use vstd::std_specs::convert::{FromSpecImpl, TryFromSpecImpl};

verus! {

/// The dense codes of the cards, in their order.
pub open spec fn codes_of(cards: Seq<Card>) -> Seq<usize> {
    Seq::new(cards.len(), |i: int| cards[i].spec_index() as usize)
}

/// Whether each of the integers is the dense code of a card.
pub open spec fn all_codes(indices: Seq<usize>) -> bool {
    forall|i: int| 0 <= i < indices.len() ==> #[trigger] indices[i] < 56
}

/// The cards that the dense codes stand for, in their order.
pub open spec fn cards_of(indices: Seq<usize>) -> Seq<Card> {
    Seq::new(indices.len(), |i: int| Card::of_index(indices[i] as int))
}

impl Deck {
    /// The deck of the cards that the dense codes stand for. One integer
    /// that is no dense code is an error, and no deck is made.
    pub fn from_indices(indices: &Vec<usize>) -> (result: Result<Deck, InvalidIndex>)
        ensures
            all_codes(indices@) ==> result is Ok && result->Ok_0@ == cards_of(indices@),
            !all_codes(indices@) ==> result == Err::<Deck, InvalidIndex>(InvalidIndex),
    {
        let n = indices.len();
        let mut cards: Vec<Card> = Vec::new();
        let mut i: usize = 0;
        while i < n
            invariant
                i <= n,
                n == indices@.len(),
                all_codes(indices@.subrange(0, i as int)),
                cards@ == cards_of(indices@.subrange(0, i as int)),
            decreases n - i,
        {
            let index = indices[i];
            if index >= 56 {
                return Err(InvalidIndex);
            }
            cards.push(Card::at_index(index as u8));
            proof {
                let next = indices@.subrange(0, i + 1);
                assert forall|j: int| 0 <= j < next.len() implies #[trigger] next[j] < 56 by {
                    if j < i {
                        assert(indices@.subrange(0, i as int)[j] < 56);
                    }
                }
                assert(cards@ =~= cards_of(next));
            }
            i = i + 1;
        }
        proof {
            assert(indices@.subrange(0, n as int) =~= indices@);
        }
        Ok(Deck::from_vec(cards))
    }

    /// The dense codes of the cards, top card first.
    pub fn to_indices(&self) -> (indices: Vec<usize>)
        ensures
            indices@ == codes_of(self@),
    {
        let cards = self.to_vec();
        let mut indices: Vec<usize> = Vec::new();
        let mut i: usize = 0;
        while i < cards.len()
            invariant
                i <= cards@.len(),
                cards@ == self@,
                indices@ == codes_of(cards@.subrange(0, i as int)),
            decreases cards@.len() - i,
        {
            indices.push(cards[i].index() as usize);
            proof {
                assert(indices@ =~= codes_of(cards@.subrange(0, i + 1)));
            }
            i = i + 1;
        }
        proof {
            assert(cards@.subrange(0, cards@.len() as int) =~= cards@);
        }
        indices
    }
}

impl TryFrom<Vec<usize>> for Deck {
    type Error = InvalidIndex;

    /// The deck of the cards that the dense codes stand for.
    fn try_from(indices: Vec<usize>) -> (result: Result<Deck, InvalidIndex>)
        ensures
            all_codes(indices@) ==> result is Ok && result->Ok_0@ == cards_of(indices@),
            !all_codes(indices@) ==> result == Err::<Deck, InvalidIndex>(InvalidIndex),
    {
        Deck::from_indices(&indices)
    }
}

/// The result of the conversion is stated by `try_from` itself, over the
/// view of the deck. A deck is more than its view, so no spec function names
/// the deck that comes out, and `obeys` says so.
impl TryFromSpecImpl<Vec<usize>> for Deck {
    open spec fn obeys_try_from_spec() -> bool {
        false
    }

    open spec fn try_from_spec(indices: Vec<usize>) -> Result<Deck, InvalidIndex> {
        Err(InvalidIndex)
    }
}

impl From<Deck> for Vec<usize> {
    /// The dense codes of the cards, top card first.
    fn from(deck: Deck) -> (indices: Vec<usize>)
        ensures
            indices@ == codes_of(deck@),
    {
        deck.to_indices()
    }
}

/// The result of the conversion is stated by `from` itself, over the view
/// of the vector. A vector is more than its view, so no spec function names
/// the vector that comes out, and `obeys` says so.
impl FromSpecImpl<Deck> for Vec<usize> {
    open spec fn obeys_from_spec() -> bool {
        false
    }

    open spec fn from_spec(deck: Deck) -> Vec<usize> {
        arbitrary()
    }
}

} // verus!
