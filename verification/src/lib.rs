//! Playing cards and decks: value types for colour, suit, rank and card, a
//! double-ended deck with its shuffles, deals and searches, pluggable card
//! orders, deck factories, and text encodings of a deck.
//!
//! Every executable function carries a contract over the mathematical view of
//! its data; a deck is viewed as the sequence of its cards, top card first.
//!
//! - `objects` holds the values and what is done with them.
//! - `traits` holds the two traits that callers implement: `CardComparator`,
//!   a rule that orders cards, and `DeckFactory`, a source of decks.
//! - `utils` holds the standard factories and the text helpers.
//! - `laws` holds what is proved of several functions together: that codes
//!   and texts can be read back, what the standard decks hold, and what the
//!   operators do to the cards of a deck.
//!
//! Three things come from outside and are believed rather than proved: the
//! random shuffle and the random numbers of the `rand` crate, the upper-case
//! form that the standard library gives a text with characters outside
//! ASCII, and the appending of a character to a string.

pub mod laws;
pub mod objects;
pub mod traits;
pub mod utils;

pub use objects::card::Card;
pub use objects::card_codes::InvalidIndex;
pub use objects::color::Color;
pub use objects::deck::Deck;
pub use objects::rank::Rank;
pub use objects::suit::Suit;
pub use traits::comparator::AceLowComparator;
pub use traits::comparator::BridgeComparator;
pub use traits::comparator::CardComparator;
pub use traits::comparator::StandardComparator;
pub use traits::comparator::TrumpComparator;
pub use traits::factory::DeckFactory;
pub use utils::standard::Standard52;
pub use utils::standard::Standard54;
