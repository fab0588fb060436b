//! The cursor algebra: how a cursor that left the viewport comes back into
//! it, and what that does to the screen.
//!
//! Two rules run after every operation that moves the cursor, in this order.
//! A cursor past the right margin wraps to the next row, and one before the
//! left edge wraps back to the row above. A cursor then below the last row is
//! reflected back into the viewport while the whole screen moves up by one
//! row, and what leaves the viewport at the top is gone for good.

use crate::drawable::Drawable;
use crate::geometry::{clamp, sat, Vector2, ONE};
use vstd::prelude::*;

verus! {

/// A cursor and the screen it writes to.
#[verifier::ext_equal]
pub struct State {
    pub pos: Vector2,
    pub screen: Seq<Drawable>,
}

/// The horizontal rule. Right of `ONE - scale` the cursor goes one row down
/// and `2 * ONE - scale` to the left; left of `-ONE` it goes one row up and
/// as far to the right. Only one wrap is made, however far out the cursor is.
pub open spec fn wrap_x(pos: Vector2, scale: u32) -> Vector2 {
    if pos.x > ONE - scale {
        Vector2 { x: sat(pos.x - 2 * ONE + scale), y: sat(pos.y + scale) }
    } else if pos.x < -ONE {
        Vector2 { x: sat(pos.x + 2 * ONE - scale), y: sat(pos.y - scale) }
    } else {
        pos
    }
}

/// Whether the cursor is below the last row, so that the screen must scroll.
pub open spec fn scrolls(pos: Vector2, scale: u32) -> bool {
    pos.y > ONE - scale
}

/// The cursor reflected at the bottom of the viewport.
pub open spec fn reflect_y(pos: Vector2, scale: u32) -> Vector2 {
    Vector2 { x: pos.x, y: sat(2 * ONE - scale - pos.y) }
}

/// What scrolling by one row makes of a drawable: it moves up by `scale`, and
/// it is dropped unless it is then still above `-ONE`.
pub open spec fn scrolled(drawable: Drawable, scale: u32) -> Option<Drawable> {
    if drawable.pos.y - scale > -ONE {
        Some(
            Drawable {
                render_item: drawable.render_item,
                pos: Vector2 { x: drawable.pos.x, y: (drawable.pos.y - scale) as i64 },
            },
        )
    } else {
        None
    }
}

/// The screen after scrolling by one row: the drawables that stay, each moved
/// up, in the order they were in.
pub open spec fn scroll(screen: Seq<Drawable>, scale: u32) -> Seq<Drawable> {
    screen.filter_map(|drawable: Drawable| scrolled(drawable, scale))
}

/// The vertical rule: below the last row the cursor is reflected and the
/// screen scrolls; elsewhere nothing changes.
pub open spec fn settle_y(state: State, scale: u32) -> State {
    if scrolls(state.pos, scale) {
        State { pos: reflect_y(state.pos, scale), screen: scroll(state.screen, scale) }
    } else {
        state
    }
}

/// Both rules, the horizontal one first: a wrap can itself push the cursor
/// below the last row.
pub open spec fn normalize(state: State, scale: u32) -> State {
    settle_y(State { pos: wrap_x(state.pos, scale), screen: state.screen }, scale)
}

/// Applies the horizontal rule to `pos`.
pub fn update_x(pos: &mut Vector2, scale: u32)
    ensures
        *final(pos) == wrap_x(*old(pos), scale),
{
    let x: i128 = pos.x as i128;
    let y: i128 = pos.y as i128;
    let step: i128 = scale as i128;
    let one: i128 = ONE as i128;
    if x > one - step {
        *pos = Vector2 { x: clamp(x - 2 * one + step), y: clamp(y + step) };
    } else if x < -one {
        *pos = Vector2 { x: clamp(x + 2 * one - step), y: clamp(y - step) };
    }
}

/// Applies the vertical rule to `pos` and `screen`.
pub fn update_y(pos: &mut Vector2, scale: u32, screen: &mut Vec<Drawable>)
    ensures
        (State { pos: *final(pos), screen: final(screen)@ }) == settle_y(
            State { pos: *old(pos), screen: old(screen)@ },
            scale,
        ),
{
    let y: i128 = pos.y as i128;
    let step: i128 = scale as i128;
    let one: i128 = ONE as i128;
    if y > one - step {
        pos.y = clamp(2 * one - step - y);
        let ghost before = screen@;
        let ghost rule = |drawable: Drawable| scrolled(drawable, scale);
        let mut kept: Vec<Drawable> = Vec::new();
        let mut i: usize = 0;
        while i < screen.len()
            invariant
                i <= screen.len(),
                screen@ == before,
                step == scale,
                one == ONE,
                rule == (|drawable: Drawable| scrolled(drawable, scale)),
                kept@ == before.take(i as int).filter_map(rule),
            decreases screen.len() - i,
        {
            let drawable: Drawable = screen[i];
            proof {
                before.lemma_filter_map_take_succ(rule, i as int);
            }
            let moved: i128 = drawable.pos.y as i128 - step;
            if moved > -one {
                kept.push(
                    Drawable {
                        render_item: drawable.render_item,
                        pos: Vector2 { x: drawable.pos.x, y: moved as i64 },
                    },
                );
            }
            i += 1;
        }
        assert(before.take(before.len() as int) == before);
        *screen = kept;
    }
}

/// Brings the cursor back into the viewport after it moved: the horizontal
/// rule, then the vertical one.
pub fn update_pos(pos: &mut Vector2, scale: u32, screen: &mut Vec<Drawable>)
    ensures
        (State { pos: *final(pos), screen: final(screen)@ }) == normalize(
            State { pos: *old(pos), screen: old(screen)@ },
            scale,
        ),
{
    update_x(pos, scale);
    update_y(pos, scale, screen);
}

} // verus!
