//! ttyp: a minimal monkeytype-style typing test. This crate holds the
//! verified core: the command language, configuration rules, the typing
//! engine state machine, result tallies, themes, word lists and the byte
//! encodings the renderer sends to the terminal.

pub mod clock;
pub mod text;
pub mod test;
pub mod config;
pub mod command;
pub mod registry;
pub mod theme;
pub mod language;
pub mod gfx;
pub mod ui;
pub mod session;
