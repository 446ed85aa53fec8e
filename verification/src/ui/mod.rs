//! The screen logic that does not need a terminal: block glyphs for the
//! enlarged font, how a word is split into styled cells, text truncation
//! and the centered layout columns.

pub mod bigtext;
pub mod layout;
pub mod stats;
pub mod typing;
