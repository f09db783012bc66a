//! The standard factories, and the text helpers of the parsers.

pub mod text;
pub mod standard;
