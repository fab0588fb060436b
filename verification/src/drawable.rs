//! What the screen holds: glyphs with the positions they are drawn at.

use crate::geometry::Vector2;
use crate::loaded_font::Chr;
use vstd::prelude::*;

verus! {

/// What a renderer draws for one cell of the screen.
#[derive(Clone, Copy, Debug, PartialEq, Eq, Structural)]
pub enum RenderItem {
    /// A glyph of the font.
    Chr(Chr),
    /// Nothing: the cell only takes up room.
    Space,
}

/// One positioned cell: `pos` is the origin of the quad that the renderer
/// draws the item in.
#[derive(Clone, Copy, Debug, PartialEq, Eq, Structural)]
pub struct Drawable {
    pub render_item: RenderItem,
    pub pos: Vector2,
}

impl Drawable {
    pub fn new(render_item: RenderItem, pos: Vector2) -> (drawable: Self)
        ensures
            drawable == (Drawable { render_item, pos }),
    {
        Drawable { render_item, pos }
    }
}

} // verus!
