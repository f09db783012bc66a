//! The traits that callers implement: rules that order cards, and sources
//! of decks.

pub mod comparator;
pub mod factory;
