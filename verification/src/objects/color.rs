//! The colour of a suit.

use vstd::prelude::*;

verus! {

/// The colour of a suit: hearts and diamonds are red, clubs and spades black.
#[derive(Debug, PartialEq, Eq, Clone, Copy, Hash, PartialOrd, Ord, Structural)]
pub enum Color {
    Red,
    Black,
}

impl Color {
    /// The one-letter form of the colour, as a sequence of characters.
    pub open spec fn letter(self) -> Seq<char> {
        match self {
            Color::Red => seq!['R'],
            Color::Black => seq!['B'],
        }
    }

    /// The one-letter form of the colour: "R" or "B".
    pub fn to_string(&self) -> (text: String)
        ensures
            text@ == self.letter(),
    {
        match self {
            Color::Red => {
                proof {
                    reveal_strlit("R");
                    assert("R"@ =~= seq!['R']);
                }
                String::from_str("R")
            },
            Color::Black => {
                proof {
                    reveal_strlit("B");
                    assert("B"@ =~= seq!['B']);
                }
                String::from_str("B")
            },
        }
    }
}

} // verus!
