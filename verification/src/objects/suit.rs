//! The suit of a card: its order, symbol and colour, and how it is read
//! from text.

use crate::objects::color::Color;
use crate::utils::text::{chars_of, same_text, to_upper, upper_form};
use vstd::prelude::*;

verus! {

/// The four suits, in their fixed order: hearts, diamonds, clubs, spades.
#[derive(Debug, PartialEq, Eq, Clone, Copy, Hash, PartialOrd, Ord, Structural)]
pub enum Suit {
    Hearts,
    Diamonds,
    Clubs,
    Spades,
}

impl Suit {
    /// All four suits, in order.
    pub const ALL: [Suit; 4] = [Suit::Hearts, Suit::Diamonds, Suit::Clubs, Suit::Spades];

    /// The two red suits.
    pub const RED: [Suit; 2] = [Suit::Hearts, Suit::Diamonds];

    /// The two black suits.
    pub const BLACK: [Suit; 2] = [Suit::Clubs, Suit::Spades];

    /// The colour of the suit.
    pub open spec fn spec_color(&self) -> Color {
        match self {
            Suit::Hearts | Suit::Diamonds => Color::Red,
            Suit::Clubs | Suit::Spades => Color::Black,
        }
    }

    /// The position of the suit in the fixed order, from 0.
    pub open spec fn spec_value(&self) -> u8 {
        match self {
            Suit::Hearts => 0,
            Suit::Diamonds => 1,
            Suit::Clubs => 2,
            Suit::Spades => 3,
        }
    }

    /// The suit at a position of the fixed order.
    pub open spec fn of_value(value: int) -> Suit {
        if value == 0 {
            Suit::Hearts
        } else if value == 1 {
            Suit::Diamonds
        } else if value == 2 {
            Suit::Clubs
        } else {
            Suit::Spades
        }
    }

    /// The character that stands for the suit.
    pub open spec fn symbol_char(&self) -> char {
        match self {
            Suit::Hearts => '♥',
            Suit::Diamonds => '♦',
            Suit::Clubs => '♣',
            Suit::Spades => '♠',
        }
    }

    /// The display form of the suit: its symbol alone.
    pub open spec fn spec_symbol(&self) -> Seq<char> {
        seq![self.symbol_char()]
    }

    /// The suit that a text names exactly: a full name in capitals, its first
    /// letter, or the symbol.
    pub open spec fn named(text: Seq<char>) -> Option<Suit> {
        if text == "HEARTS"@ || text == "H"@ || text == "♥"@ {
            Some(Suit::Hearts)
        } else if text == "DIAMONDS"@ || text == "D"@ || text == "♦"@ {
            Some(Suit::Diamonds)
        } else if text == "CLUBS"@ || text == "C"@ || text == "♣"@ {
            Some(Suit::Clubs)
        } else if text == "SPADES"@ || text == "S"@ || text == "♠"@ {
            Some(Suit::Spades)
        } else {
            None
        }
    }

    /// The suit that a text stands for: the one it names exactly, or else the
    /// one that its upper-case form names.
    pub open spec fn parsed(text: Seq<char>) -> Option<Suit> {
        match Suit::named(text) {
            Some(suit) => Some(suit),
            None => Suit::named(upper_form(text)),
        }
    }

    /// The message for a text that stands for no suit.
    pub open spec fn parse_error(text: Seq<char>) -> Seq<char> {
        "Invalid suit string: "@ + text
    }

    /// The colour of the suit.
    #[verifier::when_used_as_spec(spec_color)]
    pub fn color(&self) -> (color: Color)
        ensures
            color == self.spec_color(),
    {
        match self {
            Suit::Hearts | Suit::Diamonds => Color::Red,
            Suit::Clubs | Suit::Spades => Color::Black,
        }
    }

    /// Whether the suit is clubs or spades.
    pub fn is_black(&self) -> (black: bool)
        ensures
            black == (self.spec_color() == Color::Black),
    {
        matches!(self, Suit::Clubs | Suit::Spades)
    }

    /// Whether the suit is hearts or diamonds.
    pub fn is_red(&self) -> (red: bool)
        ensures
            red == (self.spec_color() == Color::Red),
    {
        matches!(self, Suit::Hearts | Suit::Diamonds)
    }

    /// The symbol of the suit: "♥", "♦", "♣" or "♠".
    pub fn symbol(&self) -> (symbol: &'static str)
        ensures
            symbol@ == self.spec_symbol(),
    {
        proof {
            reveal_strlit("♥");
            reveal_strlit("♦");
            reveal_strlit("♣");
            reveal_strlit("♠");
        }
        let symbol = match self {
            Suit::Hearts => "♥",
            Suit::Diamonds => "♦",
            Suit::Clubs => "♣",
            Suit::Spades => "♠",
        };
        proof {
            assert(symbol@ =~= self.spec_symbol());
        }
        symbol
    }

    /// The position of the suit in the fixed order: hearts 0, diamonds 1,
    /// clubs 2, spades 3.
    #[verifier::when_used_as_spec(spec_value)]
    pub fn value(&self) -> (value: u8)
        ensures
            value == self.spec_value(),
    {
        match self {
            Suit::Hearts => 0,
            Suit::Diamonds => 1,
            Suit::Clubs => 2,
            Suit::Spades => 3,
        }
    }

    /// The display form of the suit, as an owned string.
    pub fn to_string(&self) -> (text: String)
        ensures
            text@ == self.spec_symbol(),
    {
        String::from_str(self.symbol())
    }

    /// The suit that the characters name exactly, if any.
    pub fn from_name(text: &Vec<char>) -> (suit: Option<Suit>)
        ensures
            suit == Suit::named(text@),
    {
        if same_text(text, "HEARTS") || same_text(text, "H") || same_text(text, "♥") {
            Some(Suit::Hearts)
        } else if same_text(text, "DIAMONDS") || same_text(text, "D") || same_text(text, "♦") {
            Some(Suit::Diamonds)
        } else if same_text(text, "CLUBS") || same_text(text, "C") || same_text(text, "♣") {
            Some(Suit::Clubs)
        } else if same_text(text, "SPADES") || same_text(text, "S") || same_text(text, "♠") {
            Some(Suit::Spades)
        } else {
            None
        }
    }

    /// The suit that the characters stand for, if any.
    pub fn from_chars(text: &Vec<char>) -> (suit: Option<Suit>)
        ensures
            suit == Suit::parsed(text@),
    {
        match Suit::from_name(text) {
            Some(suit) => Some(suit),
            None => {
                let upper = to_upper(text);
                Suit::from_name(&upper)
            },
        }
    }

    /// Reads a suit from a full name in any case, a single letter, or a
    /// symbol; any other text is an error that quotes it.
    pub fn from_str(s: &str) -> (result: Result<Suit, String>)
        ensures
            match Suit::parsed(s@) {
                Some(suit) => result == Ok::<Suit, String>(suit),
                None => result is Err && result->Err_0@ == Suit::parse_error(s@),
            },
    {
        let text = chars_of(s);
        match Suit::from_chars(&text) {
            Some(suit) => Ok(suit),
            None => {
                let mut message = String::from_str("Invalid suit string: ");
                message.append(s);
                Err(message)
            },
        }
    }
}

impl std::str::FromStr for Suit {
    type Err = String;

    /// Reads a suit as `Suit::from_str` does.
    fn from_str(s: &str) -> (result: Result<Suit, String>)
        ensures
            match Suit::parsed(s@) {
                Some(suit) => result == Ok::<Suit, String>(suit),
                None => result is Err && result->Err_0@ == Suit::parse_error(s@),
            },
    {
        Suit::from_str(s)
    }
}

} // verus!
