//! A card, its display forms, and how it is read from text.

use crate::objects::color::Color;
use crate::objects::rank::Rank;
use crate::objects::suit::Suit;
use crate::utils::text::{chars_of, slice_of};
use vstd::prelude::*;

verus! {

/// A playing card: a suit and a rank. Two cards are equal when both fields
/// are.
#[derive(Debug, PartialEq, Eq, Clone, Copy, Hash, PartialOrd, Ord, Structural)]
pub struct Card {
    pub suit: Suit,
    pub rank: Rank,
}

impl Card {
    /// The dense code of the card: fourteen times the suit's value plus the
    /// rank's value.
    pub open spec fn spec_index(&self) -> int {
        self.suit.spec_value() * 14 + self.rank.spec_value()
    }

    /// The card with a given dense code.
    pub open spec fn of_index(index: int) -> Card {
        Card { suit: Suit::of_value(index / 14), rank: Rank::of_value(index % 14) }
    }

    /// The display form of the card: the rank's symbol, then the suit's.
    pub open spec fn spec_text(&self) -> Seq<char> {
        seq![self.rank.symbol_char(), self.suit.symbol_char()]
    }

    /// The card drawn in five lines: a frame, the rank in the upper left
    /// and the lower right corner, and the suit in the middle.
    pub open spec fn spec_ascii(&self) -> Seq<char> {
        "┌─────┐\n│"@ + self.rank.spec_symbol() + "   │\n│  "@ + self.suit.spec_symbol()
            + "  │\n│   "@ + self.rank.spec_symbol() + "│\n└─────┘"@
    }

    /// The card read from a text cut in two at `at`: the parts taken as suit
    /// and rank if they stand for such, else as rank and suit.
    pub open spec fn parsed_at(text: Seq<char>, at: int) -> Option<Card> {
        let left = text.subrange(0, at);
        let right = text.subrange(at, text.len() as int);
        if Suit::parsed(left) is Some && Rank::parsed(right) is Some {
            Some(Card { suit: Suit::parsed(left)->Some_0, rank: Rank::parsed(right)->Some_0 })
        } else if Rank::parsed(left) is Some && Suit::parsed(right) is Some {
            Some(Card { suit: Suit::parsed(right)->Some_0, rank: Rank::parsed(left)->Some_0 })
        } else {
            None
        }
    }

    /// The card read at the first cut from `at` on that yields one.
    pub open spec fn parsed_from(text: Seq<char>, at: int) -> Option<Card>
        decreases text.len() - at,
    {
        if at < 1 || at >= text.len() {
            None
        } else if Card::parsed_at(text, at) is Some {
            Card::parsed_at(text, at)
        } else {
            Card::parsed_from(text, at + 1)
        }
    }

    /// The card that a text stands for: the one read at the leftmost cut,
    /// after the first character and before the last, that yields a card.
    pub open spec fn parsed(text: Seq<char>) -> Option<Card> {
        Card::parsed_from(text, 1)
    }

    /// The message for a text that stands for no card.
    pub open spec fn parse_error(text: Seq<char>) -> Seq<char> {
        "Invalid card string: "@ + text
    }

    /// A card of the given suit and rank.
    pub fn new(suit: Suit, rank: Rank) -> (card: Card)
        ensures
            card == (Card { suit, rank }),
    {
        Card { suit, rank }
    }

    /// The suit of the card.
    pub fn suit(&self) -> (suit: Suit)
        ensures
            suit == self.suit,
    {
        self.suit
    }

    /// The rank of the card.
    pub fn rank(&self) -> (rank: Rank)
        ensures
            rank == self.rank,
    {
        self.rank
    }

    /// The colour of the card's suit.
    pub fn color(&self) -> (color: Color)
        ensures
            color == self.suit.spec_color(),
    {
        self.suit.color()
    }

    /// Whether the card is an ace.
    pub fn is_ace(&self) -> (ace: bool)
        ensures
            ace == (self.rank == Rank::Ace),
    {
        matches!(self.rank, Rank::Ace)
    }

    /// Whether the card is a jack, a queen or a king.
    pub fn is_face_card(&self) -> (face: bool)
        ensures
            face == (self.rank == Rank::Jack || self.rank == Rank::Queen || self.rank
                == Rank::King),
    {
        matches!(self.rank, Rank::Jack | Rank::Queen | Rank::King)
    }

    /// Whether the card is a two to a ten.
    pub fn is_value_card(&self) -> (pip: bool)
        ensures
            pip == (self.rank.spec_value() <= Rank::Ten.spec_value()),
    {
        self.rank.value() <= 8
    }

    /// Whether the card is a joker.
    pub fn is_joker(&self) -> (joker: bool)
        ensures
            joker == (self.rank == Rank::Joker),
    {
        matches!(self.rank, Rank::Joker)
    }

    /// Whether the two cards have the same rank.
    pub fn is_same_rank(&self, other: &Card) -> (same: bool)
        ensures
            same == (self.rank == other.rank),
    {
        self.rank == other.rank
    }

    /// Whether the two cards have the same suit.
    pub fn is_same_suit(&self, other: &Card) -> (same: bool)
        ensures
            same == (self.suit == other.suit),
    {
        self.suit == other.suit
    }

    /// Whether the two cards have suits of the same colour.
    pub fn is_same_color(&self, other: &Card) -> (same: bool)
        ensures
            same == (self.suit.spec_color() == other.suit.spec_color()),
    {
        self.suit.color() == other.suit.color()
    }

    /// The display form of the card, such as "A♠" or "T♥".
    pub fn to_string(&self) -> (text: String)
        ensures
            text@ == self.spec_text(),
    {
        let mut text = String::from_str(self.rank.symbol());
        text.append(self.suit.symbol());
        proof {
            assert(text@ =~= self.spec_text());
        }
        text
    }

    /// The display form of the card; the same text as `to_string` gives.
    pub fn display(&self) -> (text: String)
        ensures
            text@ == self.spec_text(),
    {
        self.to_string()
    }

    /// The card drawn in five lines, such as
    ///
    /// ```text
    /// ┌─────┐
    /// │A   │
    /// │  ♥  │
    /// │   A│
    /// └─────┘
    /// ```
    pub fn display_ascii(&self) -> (text: String)
        ensures
            text@ == self.spec_ascii(),
    {
        let mut text = String::from_str("┌─────┐\n│");
        text.append(self.rank.symbol());
        text.append("   │\n│  ");
        text.append(self.suit.symbol());
        text.append("  │\n│   ");
        text.append(self.rank.symbol());
        text.append("│\n└─────┘");
        text
    }

    /// The card read from the characters cut in two at `at`, if the two
    /// parts stand for a suit and a rank in either order.
    pub fn from_chars_at(text: &Vec<char>, at: usize) -> (card: Option<Card>)
        requires
            at <= text@.len(),
        ensures
            card == Card::parsed_at(text@, at as int),
    {
        let left = slice_of(text, 0, at);
        let right = slice_of(text, at, text.len());
        let left_suit = Suit::from_chars(&left);
        let right_rank = Rank::from_chars(&right);
        if let (Some(suit), Some(rank)) = (left_suit, right_rank) {
            return Some(Card { suit, rank });
        }
        let left_rank = Rank::from_chars(&left);
        let right_suit = Suit::from_chars(&right);
        if let (Some(rank), Some(suit)) = (left_rank, right_suit) {
            return Some(Card { suit, rank });
        }
        None
    }

    /// The card that the characters stand for, if any.
    pub fn from_chars(text: &Vec<char>) -> (card: Option<Card>)
        ensures
            card == Card::parsed(text@),
    {
        let mut at: usize = 1;
        while at < text.len()
            invariant
                1 <= at,
                Card::parsed(text@) == Card::parsed_from(text@, at as int),
            decreases text@.len() - at,
        {
            match Card::from_chars_at(text, at) {
                Some(card) => {
                    return Some(card);
                },
                None => {},
            }
            at = at + 1;
        }
        None
    }

    /// Reads a card from a text that holds a rank and a suit in either
    /// order, each written as `Rank::from_str` and `Suit::from_str` accept
    /// it. Of several ways to cut the text the leftmost counts. Any other
    /// text is an error that quotes it.
    pub fn from_str(s: &str) -> (result: Result<Card, String>)
        ensures
            match Card::parsed(s@) {
                Some(card) => result == Ok::<Card, String>(card),
                None => result is Err && result->Err_0@ == Card::parse_error(s@),
            },
    {
        let text = chars_of(s);
        match Card::from_chars(&text) {
            Some(card) => Ok(card),
            None => {
                let mut message = String::from_str("Invalid card string: ");
                message.append(s);
                Err(message)
            },
        }
    }
}

impl std::str::FromStr for Card {
    type Err = String;

    /// Reads a card as `Card::from_str` does.
    fn from_str(s: &str) -> (result: Result<Card, String>)
        ensures
            match Card::parsed(s@) {
                Some(card) => result == Ok::<Card, String>(card),
                None => result is Err && result->Err_0@ == Card::parse_error(s@),
            },
    {
        Card::from_str(s)
    }
}

} // verus!
