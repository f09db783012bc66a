//! The rank of a card: its order and symbol, and how it is read from text.

use crate::utils::text::{chars_of, same_text, to_upper, upper_form};
use vstd::prelude::*;

verus! {

/// The fourteen ranks, lowest first: two to ten, jack, queen, king, ace, and
/// the joker above them all.
#[derive(Debug, PartialEq, Eq, Clone, Copy, Hash, PartialOrd, Ord, Structural)]
pub enum Rank {
    Two,
    Three,
    Four,
    Five,
    Six,
    Seven,
    Eight,
    Nine,
    Ten,
    Jack,
    Queen,
    King,
    Ace,
    Joker,
}

impl Rank {
    /// All fourteen ranks, the joker included.
    pub const ALL: [Rank; 14] = [
        Rank::Two,
        Rank::Three,
        Rank::Four,
        Rank::Five,
        Rank::Six,
        Rank::Seven,
        Rank::Eight,
        Rank::Nine,
        Rank::Ten,
        Rank::Jack,
        Rank::Queen,
        Rank::King,
        Rank::Ace,
        Rank::Joker,
    ];

    /// The thirteen ranks of a standard deck, two to ace.
    pub const STANDARD: [Rank; 13] = [
        Rank::Two,
        Rank::Three,
        Rank::Four,
        Rank::Five,
        Rank::Six,
        Rank::Seven,
        Rank::Eight,
        Rank::Nine,
        Rank::Ten,
        Rank::Jack,
        Rank::Queen,
        Rank::King,
        Rank::Ace,
    ];

    /// The position of the rank in the order, from 0: the ace is 12, the
    /// joker 13.
    pub open spec fn spec_value(&self) -> u8 {
        match self {
            Rank::Two => 0,
            Rank::Three => 1,
            Rank::Four => 2,
            Rank::Five => 3,
            Rank::Six => 4,
            Rank::Seven => 5,
            Rank::Eight => 6,
            Rank::Nine => 7,
            Rank::Ten => 8,
            Rank::Jack => 9,
            Rank::Queen => 10,
            Rank::King => 11,
            Rank::Ace => 12,
            Rank::Joker => 13,
        }
    }

    /// The rank at a position of the order.
    pub open spec fn of_value(value: int) -> Rank {
        if value == 0 {
            Rank::Two
        } else if value == 1 {
            Rank::Three
        } else if value == 2 {
            Rank::Four
        } else if value == 3 {
            Rank::Five
        } else if value == 4 {
            Rank::Six
        } else if value == 5 {
            Rank::Seven
        } else if value == 6 {
            Rank::Eight
        } else if value == 7 {
            Rank::Nine
        } else if value == 8 {
            Rank::Ten
        } else if value == 9 {
            Rank::Jack
        } else if value == 10 {
            Rank::Queen
        } else if value == 11 {
            Rank::King
        } else if value == 12 {
            Rank::Ace
        } else {
            Rank::Joker
        }
    }

    /// The character that stands for the rank.
    pub open spec fn symbol_char(&self) -> char {
        match self {
            Rank::Two => '2',
            Rank::Three => '3',
            Rank::Four => '4',
            Rank::Five => '5',
            Rank::Six => '6',
            Rank::Seven => '7',
            Rank::Eight => '8',
            Rank::Nine => '9',
            Rank::Ten => 'T',
            Rank::Jack => 'J',
            Rank::Queen => 'Q',
            Rank::King => 'K',
            Rank::Ace => 'A',
            Rank::Joker => 'U',
        }
    }

    /// The display form of the rank: its symbol alone.
    pub open spec fn spec_symbol(&self) -> Seq<char> {
        seq![self.symbol_char()]
    }

    /// The rank that a text in capitals names: a digit or letter symbol, a
    /// full name, or "10".
    pub open spec fn named(text: Seq<char>) -> Option<Rank> {
        if text == "2"@ || text == "TWO"@ {
            Some(Rank::Two)
        } else if text == "3"@ || text == "THREE"@ {
            Some(Rank::Three)
        } else if text == "4"@ || text == "FOUR"@ {
            Some(Rank::Four)
        } else if text == "5"@ || text == "FIVE"@ {
            Some(Rank::Five)
        } else if text == "6"@ || text == "SIX"@ {
            Some(Rank::Six)
        } else if text == "7"@ || text == "SEVEN"@ {
            Some(Rank::Seven)
        } else if text == "8"@ || text == "EIGHT"@ {
            Some(Rank::Eight)
        } else if text == "9"@ || text == "NINE"@ {
            Some(Rank::Nine)
        } else if text == "T"@ || text == "TEN"@ || text == "10"@ {
            Some(Rank::Ten)
        } else if text == "J"@ || text == "JACK"@ {
            Some(Rank::Jack)
        } else if text == "Q"@ || text == "QUEEN"@ {
            Some(Rank::Queen)
        } else if text == "K"@ || text == "KING"@ {
            Some(Rank::King)
        } else if text == "A"@ || text == "ACE"@ {
            Some(Rank::Ace)
        } else if text == "U"@ || text == "JOKER"@ {
            Some(Rank::Joker)
        } else {
            None
        }
    }

    /// The rank that a text stands for: the one that its upper-case form
    /// names.
    pub open spec fn parsed(text: Seq<char>) -> Option<Rank> {
        Rank::named(upper_form(text))
    }

    /// The message for a text that stands for no rank.
    pub open spec fn parse_error(text: Seq<char>) -> Seq<char> {
        "Invalid rank string: "@ + text
    }

    /// The symbol of the rank: "2" to "9", "T", "J", "Q", "K", "A", or "U"
    /// for the joker.
    pub fn symbol(&self) -> (symbol: &'static str)
        ensures
            symbol@ == self.spec_symbol(),
    {
        proof {
            reveal_strlit("2");
            reveal_strlit("3");
            reveal_strlit("4");
            reveal_strlit("5");
            reveal_strlit("6");
            reveal_strlit("7");
            reveal_strlit("8");
            reveal_strlit("9");
            reveal_strlit("T");
            reveal_strlit("J");
            reveal_strlit("Q");
            reveal_strlit("K");
            reveal_strlit("A");
            reveal_strlit("U");
        }
        let symbol = match self {
            Rank::Two => "2",
            Rank::Three => "3",
            Rank::Four => "4",
            Rank::Five => "5",
            Rank::Six => "6",
            Rank::Seven => "7",
            Rank::Eight => "8",
            Rank::Nine => "9",
            Rank::Ten => "T",
            Rank::Jack => "J",
            Rank::Queen => "Q",
            Rank::King => "K",
            Rank::Ace => "A",
            Rank::Joker => "U",
        };
        proof {
            assert(symbol@ =~= self.spec_symbol());
        }
        symbol
    }

    /// The position of the rank in the order, from 0.
    #[verifier::when_used_as_spec(spec_value)]
    pub fn value(&self) -> (value: u8)
        ensures
            value == self.spec_value(),
    {
        match self {
            Rank::Two => 0,
            Rank::Three => 1,
            Rank::Four => 2,
            Rank::Five => 3,
            Rank::Six => 4,
            Rank::Seven => 5,
            Rank::Eight => 6,
            Rank::Nine => 7,
            Rank::Ten => 8,
            Rank::Jack => 9,
            Rank::Queen => 10,
            Rank::King => 11,
            Rank::Ace => 12,
            Rank::Joker => 13,
        }
    }

    /// The display form of the rank, as an owned string.
    pub fn to_string(&self) -> (text: String)
        ensures
            text@ == self.spec_symbol(),
    {
        String::from_str(self.symbol())
    }

    /// The rank that the characters name, if any.
    pub fn from_name(text: &Vec<char>) -> (rank: Option<Rank>)
        ensures
            rank == Rank::named(text@),
    {
        if same_text(text, "2") || same_text(text, "TWO") {
            Some(Rank::Two)
        } else if same_text(text, "3") || same_text(text, "THREE") {
            Some(Rank::Three)
        } else if same_text(text, "4") || same_text(text, "FOUR") {
            Some(Rank::Four)
        } else if same_text(text, "5") || same_text(text, "FIVE") {
            Some(Rank::Five)
        } else if same_text(text, "6") || same_text(text, "SIX") {
            Some(Rank::Six)
        } else if same_text(text, "7") || same_text(text, "SEVEN") {
            Some(Rank::Seven)
        } else if same_text(text, "8") || same_text(text, "EIGHT") {
            Some(Rank::Eight)
        } else if same_text(text, "9") || same_text(text, "NINE") {
            Some(Rank::Nine)
        } else if same_text(text, "T") || same_text(text, "TEN") || same_text(text, "10") {
            Some(Rank::Ten)
        } else if same_text(text, "J") || same_text(text, "JACK") {
            Some(Rank::Jack)
        } else if same_text(text, "Q") || same_text(text, "QUEEN") {
            Some(Rank::Queen)
        } else if same_text(text, "K") || same_text(text, "KING") {
            Some(Rank::King)
        } else if same_text(text, "A") || same_text(text, "ACE") {
            Some(Rank::Ace)
        } else if same_text(text, "U") || same_text(text, "JOKER") {
            Some(Rank::Joker)
        } else {
            None
        }
    }

    /// The rank that the characters stand for, if any.
    pub fn from_chars(text: &Vec<char>) -> (rank: Option<Rank>)
        ensures
            rank == Rank::parsed(text@),
    {
        let upper = to_upper(text);
        Rank::from_name(&upper)
    }

    /// Reads a rank from a digit, a letter, "10", or a full name in any case;
    /// any other text is an error that quotes it.
    pub fn from_str(s: &str) -> (result: Result<Rank, String>)
        ensures
            match Rank::parsed(s@) {
                Some(rank) => result == Ok::<Rank, String>(rank),
                None => result is Err && result->Err_0@ == Rank::parse_error(s@),
            },
    {
        let text = chars_of(s);
        match Rank::from_chars(&text) {
            Some(rank) => Ok(rank),
            None => {
                let mut message = String::from_str("Invalid rank string: ");
                message.append(s);
                Err(message)
            },
        }
    }
}

impl std::str::FromStr for Rank {
    type Err = String;

    /// Reads a rank as `Rank::from_str` does.
    fn from_str(s: &str) -> (result: Result<Rank, String>)
        ensures
            match Rank::parsed(s@) {
                Some(rank) => result == Ok::<Rank, String>(rank),
                None => result is Err && result->Err_0@ == Rank::parse_error(s@),
            },
    {
        Rank::from_str(s)
    }
}

} // verus!
