//! What the renderer sends to the terminal for enlarged text: kitty
//! graphics escapes, glyph images composited in RGBA, and the rules that
//! turn the `font` setting into a font source.

pub mod detect;
pub mod fonts;
pub mod kitty;
pub mod placement;
pub mod raster;
