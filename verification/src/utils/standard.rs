//! The factories of the standard decks of 52 and of 54 cards.

use crate::objects::card::Card;
use crate::objects::rank::Rank;
use crate::objects::suit::Suit;
use crate::traits::factory::DeckFactory;
use std::collections::VecDeque;
use vstd::prelude::*;

verus! {

/// The 52 cards of a standard deck, rank by rank from two to ace, and within
/// a rank the four suits in their order.
pub open spec fn standard_52() -> Seq<Card> {
    Seq::new(52, |i: int| Card { suit: Suit::of_value(i % 4), rank: Rank::of_value(i / 4) })
}

/// The standard deck followed by two jokers, one of hearts for the red joker
/// and one of spades for the black.
pub open spec fn standard_54() -> Seq<Card> {
    standard_52().push(Card { suit: Suit::Hearts, rank: Rank::Joker }).push(
        Card { suit: Suit::Spades, rank: Rank::Joker },
    )
}

/// The factory of the standard deck of 52 cards.
#[derive(Debug, Clone, Copy, Default)]
pub struct Standard52;

impl DeckFactory for Standard52 {
    open spec fn cards(&self) -> Seq<Card> {
        standard_52()
    }

    fn generate(&self) -> (cards: VecDeque<Card>) {
        let mut cards: VecDeque<Card> = VecDeque::new();
        let mut r: usize = 0;
        while r < 13
            invariant
                r <= 13,
                cards@ == standard_52().subrange(0, 4 * r),
            decreases 13 - r,
        {
            let rank = Rank::STANDARD[r];
            let mut s: usize = 0;
            while s < 4
                invariant
                    r < 13,
                    s <= 4,
                    rank == Rank::of_value(r as int),
                    cards@ == standard_52().subrange(0, 4 * r + s),
                decreases 4 - s,
            {
                cards.push_back(Card::new(Suit::ALL[s], rank));
                proof {
                    assert(cards@ =~= standard_52().subrange(0, 4 * r + s + 1));
                }
                s = s + 1;
            }
            r = r + 1;
        }
        proof {
            assert(cards@ =~= standard_52());
        }
        cards
    }
}

/// The factory of the standard deck with its two jokers, 54 cards.
#[derive(Debug, Clone, Copy, Default)]
pub struct Standard54;

impl DeckFactory for Standard54 {
    open spec fn cards(&self) -> Seq<Card> {
        standard_54()
    }

    fn generate(&self) -> (cards: VecDeque<Card>) {
        let mut cards = Standard52.generate();
        cards.push_back(Card::new(Suit::Hearts, Rank::Joker));
        cards.push_back(Card::new(Suit::Spades, Rank::Joker));
        cards
    }
}

} // verus!
