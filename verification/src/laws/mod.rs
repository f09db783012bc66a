//! Laws that relate the functions of the library to each other, proved over
//! the spec functions that their contracts use.

pub mod codes;
pub mod decks;
pub mod text;
