//! The core of a terminal emulator: a screen of positioned glyphs, the cursor
//! algebra that wraps and scrolls it, the interpreter that turns printable
//! characters and control sequences into screen changes, and the bookkeeping
//! of the pseudo-terminal that feeds it.
//!
//! All positions are fixed-point: [`geometry::ONE`] ticks make one viewport
//! unit, and the viewport spans `[-ONE, ONE]` on both axes. `x` grows to the
//! right and `y` downwards, so `(-ONE, -ONE)` is the top left corner, where
//! a fresh cursor stands.

pub mod geometry;
pub mod loaded_font;
pub mod drawable;
pub mod cursor;
pub mod performer;
pub mod pty;
pub mod terminal;
pub mod laws;
