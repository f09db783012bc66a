//! The dense integer code of a card: fourteen times the value of the suit
//! plus the value of the rank, and the conversions between cards and the
//! integer types.

use crate::objects::card::Card;
use crate::objects::rank::Rank;
use crate::objects::suit::Suit;
use vstd::prelude::*;
use vstd::std_specs::convert::{FromSpecImpl, TryFromSpecImpl};

verus! {

/// The error for an integer that is no dense code of a card: one below 0 or
/// above 55.
#[derive(Debug, PartialEq, Eq, Clone, Copy, Structural)]
pub struct InvalidIndex;

impl Card {
    /// The card that an integer decodes to, or the error if it is no dense
    /// code.
    pub open spec fn decoded(index: int) -> Result<Card, InvalidIndex> {
        if 0 <= index < 56 {
            Ok(Card::of_index(index))
        } else {
            Err(InvalidIndex)
        }
    }

    /// The dense code of the card, between 0 and 55.
    pub fn index(&self) -> (index: u8)
        ensures
            index == self.spec_index(),
            index < 56,
    {
        self.suit.value() * 14 + self.rank.value()
    }

    /// The card with the dense code `index`.
    pub fn at_index(index: u8) -> (card: Card)
        requires
            index < 56,
        ensures
            card == Card::of_index(index as int),
    {
        let s: u8 = index / 14;
        let r: u8 = index % 14;
        let suit = if s == 0 {
            Suit::Hearts
        } else if s == 1 {
            Suit::Diamonds
        } else if s == 2 {
            Suit::Clubs
        } else {
            Suit::Spades
        };
        let rank = if r == 0 {
            Rank::Two
        } else if r == 1 {
            Rank::Three
        } else if r == 2 {
            Rank::Four
        } else if r == 3 {
            Rank::Five
        } else if r == 4 {
            Rank::Six
        } else if r == 5 {
            Rank::Seven
        } else if r == 6 {
            Rank::Eight
        } else if r == 7 {
            Rank::Nine
        } else if r == 8 {
            Rank::Ten
        } else if r == 9 {
            Rank::Jack
        } else if r == 10 {
            Rank::Queen
        } else if r == 11 {
            Rank::King
        } else if r == 12 {
            Rank::Ace
        } else {
            Rank::Joker
        };
        Card { suit, rank }
    }
}

impl TryFrom<u8> for Card {
    type Error = InvalidIndex;

    /// Decodes a dense code; an integer outside 0 to 55 is an error.
    fn try_from(index: u8) -> (result: Result<Card, InvalidIndex>) {
        if index < 56 {
            Ok(Card::at_index(index))
        } else {
            Err(InvalidIndex)
        }
    }
}

impl TryFromSpecImpl<u8> for Card {
    open spec fn obeys_try_from_spec() -> bool {
        true
    }

    open spec fn try_from_spec(index: u8) -> Result<Card, InvalidIndex> {
        Card::decoded(index as int)
    }
}

impl From<Card> for u8 {
    /// The dense code of the card.
    fn from(card: Card) -> (index: u8) {
        card.index()
    }
}

impl FromSpecImpl<Card> for u8 {
    open spec fn obeys_from_spec() -> bool {
        true
    }

    open spec fn from_spec(card: Card) -> u8 {
        card.spec_index() as u8
    }
}

impl TryFrom<i8> for Card {
    type Error = InvalidIndex;

    /// Decodes a dense code; an integer outside 0 to 55 is an error.
    fn try_from(index: i8) -> (result: Result<Card, InvalidIndex>) {
        if 0 <= index && index < 56 {
            Ok(Card::at_index(index as u8))
        } else {
            Err(InvalidIndex)
        }
    }
}

impl TryFromSpecImpl<i8> for Card {
    open spec fn obeys_try_from_spec() -> bool {
        true
    }

    open spec fn try_from_spec(index: i8) -> Result<Card, InvalidIndex> {
        Card::decoded(index as int)
    }
}

impl From<Card> for i8 {
    /// The dense code of the card.
    fn from(card: Card) -> (index: i8) {
        card.index() as i8
    }
}

impl FromSpecImpl<Card> for i8 {
    open spec fn obeys_from_spec() -> bool {
        true
    }

    open spec fn from_spec(card: Card) -> i8 {
        card.spec_index() as i8
    }
}

impl TryFrom<u16> for Card {
    type Error = InvalidIndex;

    /// Decodes a dense code; an integer outside 0 to 55 is an error.
    fn try_from(index: u16) -> (result: Result<Card, InvalidIndex>) {
        if index < 56 {
            Ok(Card::at_index(index as u8))
        } else {
            Err(InvalidIndex)
        }
    }
}

impl TryFromSpecImpl<u16> for Card {
    open spec fn obeys_try_from_spec() -> bool {
        true
    }

    open spec fn try_from_spec(index: u16) -> Result<Card, InvalidIndex> {
        Card::decoded(index as int)
    }
}

impl From<Card> for u16 {
    /// The dense code of the card.
    fn from(card: Card) -> (index: u16) {
        card.index() as u16
    }
}

impl FromSpecImpl<Card> for u16 {
    open spec fn obeys_from_spec() -> bool {
        true
    }

    open spec fn from_spec(card: Card) -> u16 {
        card.spec_index() as u16
    }
}

impl TryFrom<i16> for Card {
    type Error = InvalidIndex;

    /// Decodes a dense code; an integer outside 0 to 55 is an error.
    fn try_from(index: i16) -> (result: Result<Card, InvalidIndex>) {
        if 0 <= index && index < 56 {
            Ok(Card::at_index(index as u8))
        } else {
            Err(InvalidIndex)
        }
    }
}

impl TryFromSpecImpl<i16> for Card {
    open spec fn obeys_try_from_spec() -> bool {
        true
    }

    open spec fn try_from_spec(index: i16) -> Result<Card, InvalidIndex> {
        Card::decoded(index as int)
    }
}

impl From<Card> for i16 {
    /// The dense code of the card.
    fn from(card: Card) -> (index: i16) {
        card.index() as i16
    }
}

impl FromSpecImpl<Card> for i16 {
    open spec fn obeys_from_spec() -> bool {
        true
    }

    open spec fn from_spec(card: Card) -> i16 {
        card.spec_index() as i16
    }
}

impl TryFrom<u32> for Card {
    type Error = InvalidIndex;

    /// Decodes a dense code; an integer outside 0 to 55 is an error.
    fn try_from(index: u32) -> (result: Result<Card, InvalidIndex>) {
        if index < 56 {
            Ok(Card::at_index(index as u8))
        } else {
            Err(InvalidIndex)
        }
    }
}

impl TryFromSpecImpl<u32> for Card {
    open spec fn obeys_try_from_spec() -> bool {
        true
    }

    open spec fn try_from_spec(index: u32) -> Result<Card, InvalidIndex> {
        Card::decoded(index as int)
    }
}

impl From<Card> for u32 {
    /// The dense code of the card.
    fn from(card: Card) -> (index: u32) {
        card.index() as u32
    }
}

impl FromSpecImpl<Card> for u32 {
    open spec fn obeys_from_spec() -> bool {
        true
    }

    open spec fn from_spec(card: Card) -> u32 {
        card.spec_index() as u32
    }
}

impl TryFrom<i32> for Card {
    type Error = InvalidIndex;

    /// Decodes a dense code; an integer outside 0 to 55 is an error.
    fn try_from(index: i32) -> (result: Result<Card, InvalidIndex>) {
        if 0 <= index && index < 56 {
            Ok(Card::at_index(index as u8))
        } else {
            Err(InvalidIndex)
        }
    }
}

impl TryFromSpecImpl<i32> for Card {
    open spec fn obeys_try_from_spec() -> bool {
        true
    }

    open spec fn try_from_spec(index: i32) -> Result<Card, InvalidIndex> {
        Card::decoded(index as int)
    }
}

impl From<Card> for i32 {
    /// The dense code of the card.
    fn from(card: Card) -> (index: i32) {
        card.index() as i32
    }
}

impl FromSpecImpl<Card> for i32 {
    open spec fn obeys_from_spec() -> bool {
        true
    }

    open spec fn from_spec(card: Card) -> i32 {
        card.spec_index() as i32
    }
}

impl TryFrom<u64> for Card {
    type Error = InvalidIndex;

    /// Decodes a dense code; an integer outside 0 to 55 is an error.
    fn try_from(index: u64) -> (result: Result<Card, InvalidIndex>) {
        if index < 56 {
            Ok(Card::at_index(index as u8))
        } else {
            Err(InvalidIndex)
        }
    }
}

impl TryFromSpecImpl<u64> for Card {
    open spec fn obeys_try_from_spec() -> bool {
        true
    }

    open spec fn try_from_spec(index: u64) -> Result<Card, InvalidIndex> {
        Card::decoded(index as int)
    }
}

impl From<Card> for u64 {
    /// The dense code of the card.
    fn from(card: Card) -> (index: u64) {
        card.index() as u64
    }
}

impl FromSpecImpl<Card> for u64 {
    open spec fn obeys_from_spec() -> bool {
        true
    }

    open spec fn from_spec(card: Card) -> u64 {
        card.spec_index() as u64
    }
}

impl TryFrom<i64> for Card {
    type Error = InvalidIndex;

    /// Decodes a dense code; an integer outside 0 to 55 is an error.
    fn try_from(index: i64) -> (result: Result<Card, InvalidIndex>) {
        if 0 <= index && index < 56 {
            Ok(Card::at_index(index as u8))
        } else {
            Err(InvalidIndex)
        }
    }
}

impl TryFromSpecImpl<i64> for Card {
    open spec fn obeys_try_from_spec() -> bool {
        true
    }

    open spec fn try_from_spec(index: i64) -> Result<Card, InvalidIndex> {
        Card::decoded(index as int)
    }
}

impl From<Card> for i64 {
    /// The dense code of the card.
    fn from(card: Card) -> (index: i64) {
        card.index() as i64
    }
}

impl FromSpecImpl<Card> for i64 {
    open spec fn obeys_from_spec() -> bool {
        true
    }

    open spec fn from_spec(card: Card) -> i64 {
        card.spec_index() as i64
    }
}

impl TryFrom<usize> for Card {
    type Error = InvalidIndex;

    /// Decodes a dense code; an integer outside 0 to 55 is an error.
    fn try_from(index: usize) -> (result: Result<Card, InvalidIndex>) {
        if index < 56 {
            Ok(Card::at_index(index as u8))
        } else {
            Err(InvalidIndex)
        }
    }
}

impl TryFromSpecImpl<usize> for Card {
    open spec fn obeys_try_from_spec() -> bool {
        true
    }

    open spec fn try_from_spec(index: usize) -> Result<Card, InvalidIndex> {
        Card::decoded(index as int)
    }
}

impl From<Card> for usize {
    /// The dense code of the card.
    fn from(card: Card) -> (index: usize) {
        card.index() as usize
    }
}

impl FromSpecImpl<Card> for usize {
    open spec fn obeys_from_spec() -> bool {
        true
    }

    open spec fn from_spec(card: Card) -> usize {
        card.spec_index() as usize
    }
}

impl TryFrom<isize> for Card {
    type Error = InvalidIndex;

    /// Decodes a dense code; an integer outside 0 to 55 is an error.
    fn try_from(index: isize) -> (result: Result<Card, InvalidIndex>) {
        if 0 <= index && index < 56 {
            Ok(Card::at_index(index as u8))
        } else {
            Err(InvalidIndex)
        }
    }
}

impl TryFromSpecImpl<isize> for Card {
    open spec fn obeys_try_from_spec() -> bool {
        true
    }

    open spec fn try_from_spec(index: isize) -> Result<Card, InvalidIndex> {
        Card::decoded(index as int)
    }
}

impl From<Card> for isize {
    /// The dense code of the card.
    fn from(card: Card) -> (index: isize) {
        card.index() as isize
    }
}

impl FromSpecImpl<Card> for isize {
    open spec fn obeys_from_spec() -> bool {
        true
    }

    open spec fn from_spec(card: Card) -> isize {
        card.spec_index() as isize
    }
}

} // verus!
