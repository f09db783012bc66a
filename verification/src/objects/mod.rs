//! The values of the library: colour, suit, rank, card and deck.

pub mod color;
pub mod suit;
pub mod rank;
pub mod card;
pub mod card_codes;
pub mod deck;
pub mod shuffle;
pub mod sort;
pub mod deck_ops;
pub mod deck_text;
pub mod deck_codes;
