//! What holds of the cursor algebra and of the interpreter, whatever the
//! screen and the font.

use crate::cursor::{normalize, reflect_y, scroll, scrolled, scrolls, settle_y, wrap_x, State};
use crate::drawable::{Drawable, RenderItem};
use crate::geometry::{sat, Vector2, ONE};
use crate::loaded_font::{glyph_at, Chr};
use crate::performer::{
    backspace, carriage_home, char_code, csi, erases_to_end, forward, is_target,
    lemma_target_is_unique, pen_after, print, print_glyph, printed_at, probe, right_of,
};
use vstd::prelude::*;

verus! {

// The cursor rules

/// Whether a cursor lies in the viewport: not left of `-ONE` nor above it,
/// and at most `ONE - scale` on both axes, so that a cell of `scale` fits.
pub open spec fn in_viewport(pos: Vector2, scale: u32) -> bool {
    &&& -ONE <= pos.x <= ONE - scale
    &&& -ONE <= pos.y <= ONE - scale
}

/// Whether `y` is the top of a row, where the rows of height `scale` tile the
/// viewport from `-ONE` down.
pub open spec fn on_row_grid(y: int, scale: u32) -> bool {
    &&& scale > 0
    &&& (2 * ONE) % (scale as int) == 0
    &&& (y + ONE) % (scale as int) == 0
}

/// The horizontal rule wraps at most once, so it brings back a cursor that is
/// no more than one row's width outside: from `x` between `-3 * ONE + scale`
/// and `3 * ONE - 2 * scale` the result lies between `-ONE` and
/// `ONE - scale`, and from nowhere else.
pub proof fn lemma_wrap_x_range(pos: Vector2, scale: u32)
    requires
        scale <= 2 * ONE,
    ensures
        -ONE <= wrap_x(pos, scale).x <= ONE - scale <==> -3 * ONE + scale <= pos.x <= 3 * ONE - 2
            * scale,
{
}

/// The cursor rules keep a cursor in the viewport when it moved forward from
/// a row of the grid by no more than one row's width: the result is in the
/// viewport, again on a row of the grid, and the screen scrolled exactly if
/// the cursor wrapped on the last row.
pub proof fn lemma_normalize_keeps_cursor_in_viewport(state: State, scale: u32)
    requires
        on_row_grid(state.pos.y as int, scale),
        -ONE <= state.pos.y <= ONE - scale,
        -ONE <= state.pos.x <= 3 * ONE - 2 * scale,
    ensures
        in_viewport(normalize(state, scale).pos, scale),
        on_row_grid(normalize(state, scale).pos.y as int, scale),
        normalize(state, scale).screen == if state.pos.x > ONE - scale && state.pos.y == ONE
            - scale {
            scroll(state.screen, scale)
        } else {
            state.screen
        },
{
    let s = scale as int;
    let y = state.pos.y as int;
    assert(scale <= 2 * ONE) by {
        if s > 2 * ONE {
            vstd::arithmetic::div_mod::lemma_small_mod((2 * ONE) as nat, s as nat);
        }
    }
    if state.pos.x > ONE - scale {
        let wrapped = wrap_x(state.pos, scale);
        assert(wrapped.y == y + s);
        assert((y + s + ONE) % s == 0) by {
            vstd::arithmetic::div_mod::lemma_mod_add_multiples_vanish(y + ONE, s);
        }
        if y + s > ONE - s {
            // the only row top between ONE - scale and ONE is ONE itself
            assert(y + s == ONE) by {
                let b = 2 * ONE - (y + ONE);
                let c = b - s;
                assert(0 <= c < s);
                assert(b % s == 0) by {
                    vstd::arithmetic::div_mod::lemma_sub_mod_noop(2 * ONE, y + ONE, s);
                    vstd::arithmetic::div_mod::lemma_small_mod(0, s as nat);
                }
                assert(c % s == 0) by {
                    vstd::arithmetic::div_mod::lemma_mod_sub_multiples_vanish(b, s);
                }
                vstd::arithmetic::div_mod::lemma_small_mod(c as nat, s as nat);
            }
            assert((ONE - s + ONE) % s == 0) by {
                vstd::arithmetic::div_mod::lemma_sub_mod_noop(2 * ONE, s, s);
                vstd::arithmetic::div_mod::lemma_mod_self_0(s);
            }
        }
    }
}

/// Whether no drawable of a screen lies above the top of the viewport.
pub open spec fn screen_in_viewport(screen: Seq<Drawable>) -> bool {
    forall|i: int| 0 <= i < screen.len() ==> (#[trigger] screen[i]).pos.y >= -ONE
}

/// The cursor rules never bring a drawable above the top of the viewport:
/// a screen that holds none there holds none there afterwards.
pub proof fn lemma_normalize_keeps_screen_in_viewport(state: State, scale: u32)
    requires
        screen_in_viewport(state.screen),
    ensures
        screen_in_viewport(normalize(state, scale).screen),
{
    lemma_scroll_evicts_in_order(state.screen, scale);
}

// Scrolling

/// Whether `after` is `before` scrolled by one row, with `from[k]` the place
/// in `before` of the drawable that is at `k` in `after`: each drawable of
/// `after` is one of `before` moved up, they come in the order they had, and
/// none that stays in the viewport is missing.
pub open spec fn is_scroll_of(
    before: Seq<Drawable>,
    scale: u32,
    after: Seq<Drawable>,
    from: Seq<int>,
) -> bool {
    &&& from.len() == after.len()
    &&& forall|k: int|
        0 <= k < from.len() ==> 0 <= #[trigger] from[k] < before.len() && scrolled(
            before[from[k]],
            scale,
        ) == Some(after[k])
    &&& forall|k: int, l: int| 0 <= k < l < from.len() ==> #[trigger] from[k] < #[trigger] from[l]
    &&& forall|j: int|
        0 <= j < before.len() && scrolled(#[trigger] before[j], scale) is Some ==> from.contains(j)
}

/// A scroll drops every drawable that, moved up by one row, is not below
/// `-ONE`, and no other; those that stay keep their order, and each is then
/// below `-ONE`. (`y` grows downwards: below `-ONE` is inside the viewport.)
pub proof fn lemma_scroll_evicts_in_order(screen: Seq<Drawable>, scale: u32)
    ensures
        exists|from: Seq<int>| is_scroll_of(screen, scale, scroll(screen, scale), from),
        forall|k: int|
            0 <= k < scroll(screen, scale).len() ==> (#[trigger] scroll(screen, scale)[k]).pos.y
                > -ONE,
        scroll(screen, scale).len() <= screen.len(),
    decreases screen.len(),
{
    let after = scroll(screen, scale);
    if screen.len() == 0 {
        assert(is_scroll_of(screen, scale, after, Seq::<int>::empty()));
    } else {
        let rest = screen.drop_last();
        let last = screen.last();
        lemma_scroll_evicts_in_order(rest, scale);
        let kept = scroll(rest, scale);
        let from_rest = choose|from: Seq<int>| is_scroll_of(rest, scale, kept, from);
        match scrolled(last, scale) {
            Some(moved) => {
                let from = from_rest.push(screen.len() - 1);
                assert(after == kept + seq![moved]);
                assert forall|j: int|
                    0 <= j < screen.len() && scrolled(
                        #[trigger] screen[j],
                        scale,
                    ) is Some implies from.contains(j) by {
                    if j < rest.len() {
                        assert(rest[j] == screen[j]);
                        let k = choose|k: int| 0 <= k < from_rest.len() && from_rest[k] == j;
                        assert(from[k] == j);
                    } else {
                        assert(from[from.len() - 1] == j);
                    }
                }
                assert forall|k: int| 0 <= k < from.len() implies 0 <= #[trigger] from[k]
                    < screen.len() && scrolled(screen[from[k]], scale) == Some(after[k]) by {
                    if k < from_rest.len() {
                        assert(from[k] == from_rest[k]);
                        assert(rest[from_rest[k]] == screen[from_rest[k]]);
                    }
                }
                assert forall|k: int, l: int| 0 <= k < l < from.len() implies #[trigger] from[k]
                    < #[trigger] from[l] by {
                    assert(from[k] == from_rest[k]);
                    if l < from_rest.len() {
                        assert(from[l] == from_rest[l]);
                    }
                }
                assert(is_scroll_of(screen, scale, after, from));
            },
            None => {
                assert(after == kept);
                assert forall|j: int|
                    0 <= j < screen.len() && scrolled(
                        #[trigger] screen[j],
                        scale,
                    ) is Some implies from_rest.contains(j) by {
                    assert(rest[j] == screen[j]);
                }
                assert forall|k: int| 0 <= k < from_rest.len() implies 0 <= #[trigger] from_rest[k]
                    < screen.len() && scrolled(screen[from_rest[k]], scale) == Some(after[k]) by {
                    assert(rest[from_rest[k]] == screen[from_rest[k]]);
                }
                assert(is_scroll_of(screen, scale, after, from_rest));
            },
        }
    }
}

// Printing

/// Printing a sequence of glyphs, one after the other.
pub open spec fn print_glyphs(state: State, scale: u32, glyphs: Seq<Chr>) -> State
    decreases glyphs.len(),
{
    if glyphs.len() == 0 {
        state
    } else {
        print_glyph(print_glyphs(state, scale, glyphs.drop_last()), scale, glyphs.last())
    }
}

/// Whether printing `chr` keeps the cursor in its row: the pen ends between
/// the left edge and the right margin, so that nothing wraps, and the row is
/// not below the last one, so that nothing scrolls.
pub open spec fn stays_in_row(state: State, scale: u32, chr: Chr) -> bool {
    &&& -ONE <= pen_after(state.pos, chr).x <= ONE - scale
    &&& state.pos.y <= ONE - scale
}

/// Whether every glyph of a sequence, printed in turn, keeps the cursor in
/// its row.
pub open spec fn all_stay_in_row(state: State, scale: u32, glyphs: Seq<Chr>) -> bool
    decreases glyphs.len(),
{
    glyphs.len() == 0 || (all_stay_in_row(state, scale, glyphs.drop_last()) && stays_in_row(
        print_glyphs(state, scale, glyphs.drop_last()),
        scale,
        glyphs.last(),
    ))
}

/// A glyph that keeps the cursor in its row is appended to the screen, moves
/// the cursor to the pen, and does nothing else.
pub proof fn lemma_print_in_row(state: State, scale: u32, chr: Chr)
    requires
        stays_in_row(state, scale, chr),
    ensures
        print_glyph(state, scale, chr) == (State {
            pos: pen_after(state.pos, chr),
            screen: state.screen.push(printed_at(state.pos, chr)),
        }),
{
}

/// Glyphs printed within one row stand side by side in print order. The
/// screen grows by one drawable for each glyph, after what it held. The first
/// is drawn at the cursor, moved by its bearing. Each later one is drawn
/// where its predecessor was, plus the predecessor's width, plus its own
/// horizontal bearing. The cursor ends right of the last by its width, in the
/// row it was in.
pub proof fn lemma_row_of_glyphs(state: State, scale: u32, glyphs: Seq<Chr>)
    requires
        all_stay_in_row(state, scale, glyphs),
    ensures
        ({
            let out = print_glyphs(state, scale, glyphs);
            let n = state.screen.len() as int;
            &&& out.pos.y == state.pos.y
            &&& out.screen.len() == n + glyphs.len()
            &&& out.screen.take(n) == state.screen
            &&& forall|i: int|
                n <= i < out.screen.len() ==> (#[trigger] out.screen[i]).render_item
                    == RenderItem::Chr(glyphs[i - n]) && out.screen[i].pos.y == sat(
                    state.pos.y + glyphs[i - n].bearing.y,
                )
            &&& glyphs.len() > 0 ==> out.screen[n].pos.x == sat(state.pos.x + glyphs[0].bearing.x)
            &&& forall|i: int|
                n <= i < out.screen.len() - 1 ==> out.screen[i + 1].pos.x == sat(
                    (#[trigger] out.screen[i]).pos.x + glyphs[i - n].dimensions.x + glyphs[i - n
                        + 1].bearing.x,
                )
            &&& glyphs.len() > 0 ==> out.pos.x == out.screen.last().pos.x
                + glyphs.last().dimensions.x
            &&& glyphs.len() == 0 ==> out == state
        }),
    decreases glyphs.len(),
{
    let n = state.screen.len() as int;
    if glyphs.len() > 0 {
        let rest = glyphs.drop_last();
        let last = glyphs.last();
        let mid = print_glyphs(state, scale, rest);
        let out = print_glyphs(state, scale, glyphs);
        lemma_row_of_glyphs(state, scale, rest);
        lemma_print_in_row(mid, scale, last);
        assert(out.screen == mid.screen.push(printed_at(mid.pos, last)));
        assert(out.screen.take(n) == mid.screen.take(n));
        assert forall|i: int| n <= i < out.screen.len() implies (#[trigger] out.screen[i]).render_item
            == RenderItem::Chr(glyphs[i - n]) && out.screen[i].pos.y == sat(
            state.pos.y + glyphs[i - n].bearing.y,
        ) by {
            if i < mid.screen.len() {
                assert(out.screen[i] == mid.screen[i]);
                assert(glyphs[i - n] == rest[i - n]);
            }
        }
        assert forall|i: int| n <= i < out.screen.len() - 1 implies out.screen[i + 1].pos.x == sat(
            (#[trigger] out.screen[i]).pos.x + glyphs[i - n].dimensions.x + glyphs[i - n
                + 1].bearing.x,
        ) by {
            assert(out.screen[i] == mid.screen[i]);
            assert(glyphs[i - n] == rest[i - n]);
            if i < mid.screen.len() - 1 {
                assert(out.screen[i + 1] == mid.screen[i + 1]);
                assert(glyphs[i - n + 1] == rest[i - n + 1]);
            } else {
                assert(rest.last() == glyphs[i - n]);
            }
        }
        if rest.len() > 0 {
            assert(out.screen[n] == mid.screen[n]);
            assert(glyphs[0] == rest[0]);
        }
    }
}

/// Within one row, the pen after each glyph is the glyph's origin plus its
/// width, and lies between the left edge and the right margin.
pub proof fn lemma_pen_in_row(state: State, scale: u32, glyphs: Seq<Chr>, count: int)
    requires
        all_stay_in_row(state, scale, glyphs),
        0 < count <= glyphs.len(),
    ensures
        ({
            let out = print_glyphs(state, scale, glyphs);
            let at = out.screen[state.screen.len() + count - 1];
            &&& -ONE <= at.pos.x + glyphs[count - 1].dimensions.x <= ONE - scale
        }),
    decreases glyphs.len(),
{
    let n = state.screen.len() as int;
    let rest = glyphs.drop_last();
    let last = glyphs.last();
    let mid = print_glyphs(state, scale, rest);
    let out = print_glyphs(state, scale, glyphs);
    lemma_row_of_glyphs(state, scale, rest);
    lemma_row_of_glyphs(state, scale, glyphs);
    lemma_print_in_row(mid, scale, last);
    if count < glyphs.len() {
        lemma_pen_in_row(state, scale, rest, count);
        assert(out.screen[n + count - 1] == mid.screen[n + count - 1]);
        assert(glyphs[count - 1] == rest[count - 1]);
    }
}

/// Glyphs without horizontal bearing, printed within one row: each is drawn
/// right of its predecessor by exactly the predecessor's width, and so
/// strictly right of it where that width is positive.
pub proof fn lemma_row_advances_by_widths(state: State, scale: u32, glyphs: Seq<Chr>)
    requires
        all_stay_in_row(state, scale, glyphs),
        forall|k: int| 0 <= k < glyphs.len() ==> (#[trigger] glyphs[k]).bearing.x == 0,
    ensures
        ({
            let out = print_glyphs(state, scale, glyphs);
            let n = state.screen.len() as int;
            &&& out.screen.len() == n + glyphs.len()
            &&& forall|i: int|
                n <= i < out.screen.len() - 1 ==> out.screen[i + 1].pos.x == (
                #[trigger] out.screen[i]).pos.x + glyphs[i - n].dimensions.x
            &&& forall|i: int|
                n <= i < out.screen.len() - 1 && glyphs[i - n].dimensions.x > 0 ==> (
                #[trigger] out.screen[i]).pos.x < out.screen[i + 1].pos.x
        }),
{
    let out = print_glyphs(state, scale, glyphs);
    let n = state.screen.len() as int;
    lemma_row_of_glyphs(state, scale, glyphs);
    assert forall|i: int| n <= i < out.screen.len() - 1 implies out.screen[i + 1].pos.x == (
    #[trigger] out.screen[i]).pos.x + glyphs[i - n].dimensions.x by {
        lemma_pen_in_row(state, scale, glyphs, i - n + 1);
        assert(glyphs[i - n + 1].bearing.x == 0);
    }
}

/// A glyph that takes the pen past the right margin moves the cursor down by
/// exactly one row, however far past the margin the pen went, and leaves it
/// at the pen's `x` less the width of a row, `2 * ONE - scale`. On the last
/// row the one row is a scroll instead: the cursor is reflected, and the
/// screen, the new glyph included, moves up by one row.
pub proof fn lemma_print_past_right_margin(state: State, scale: u32, chr: Chr)
    requires
        pen_after(state.pos, chr).x > ONE - scale,
    ensures
        ({
            let out = print_glyph(state, scale, chr);
            let pen = pen_after(state.pos, chr);
            let down = Vector2 { x: sat(pen.x - 2 * ONE + scale), y: sat(pen.y + scale) };
            let full = state.screen.push(printed_at(state.pos, chr));
            &&& out.pos.x == down.x
            &&& !scrolls(down, scale) ==> out.pos.y == down.y && out.screen == full
            &&& scrolls(down, scale) ==> out.pos.y == reflect_y(down, scale).y && out.screen
                == scroll(full, scale)
        }),
{
}

/// The first glyph that does not fit a row: after glyphs that all stayed in
/// the row, one that takes the pen past the right margin puts the cursor
/// exactly one row below the row that the printing began in, at the pen's `x`
/// less the width of a row. From the last row the cursor is reflected
/// instead, and the screen scrolls by one row.
pub proof fn lemma_row_overflows_once(state: State, scale: u32, glyphs: Seq<Chr>, next: Chr)
    requires
        all_stay_in_row(state, scale, glyphs),
        pen_after(print_glyphs(state, scale, glyphs).pos, next).x > ONE - scale,
    ensures
        ({
            let row = print_glyphs(state, scale, glyphs);
            let out = print_glyphs(state, scale, glyphs.push(next));
            let pen = pen_after(row.pos, next);
            let down = Vector2 { x: sat(pen.x - 2 * ONE + scale), y: sat(state.pos.y + scale) };
            let full = row.screen.push(printed_at(row.pos, next));
            &&& out.pos.x == down.x
            &&& !scrolls(down, scale) ==> out.pos.y == down.y && out.screen == full
            &&& scrolls(down, scale) ==> out.pos.y == reflect_y(down, scale).y && out.screen
                == scroll(full, scale)
        }),
{
    lemma_row_of_glyphs(state, scale, glyphs);
    assert(glyphs.push(next).drop_last() == glyphs);
    lemma_print_past_right_margin(print_glyphs(state, scale, glyphs), scale, next);
}

/// Printing a glyph that moves the pen forward by no more than a row's width
/// keeps the cursor in the viewport: from a cursor in the viewport and on a
/// row of the grid, with the pen between the left edge and one row's width
/// past the right margin, the cursor is in the viewport and on a row of the
/// grid afterwards.
pub proof fn lemma_print_keeps_cursor_in_viewport(state: State, scale: u32, chr: Chr)
    requires
        on_row_grid(state.pos.y as int, scale),
        in_viewport(state.pos, scale),
        -ONE <= pen_after(state.pos, chr).x <= 3 * ONE - 2 * scale,
    ensures
        in_viewport(print_glyph(state, scale, chr).pos, scale),
        on_row_grid(print_glyph(state, scale, chr).pos.y as int, scale),
{
    lemma_normalize_keeps_cursor_in_viewport(
        State {
            pos: pen_after(state.pos, chr),
            screen: state.screen.push(printed_at(state.pos, chr)),
        },
        scale,
    );
}

/// Printing a glyph whose vertical bearing is not negative, from a cursor
/// that is not above the top of the viewport, keeps the screen free of
/// drawables above the top.
pub proof fn lemma_print_keeps_screen_in_viewport(state: State, scale: u32, chr: Chr)
    requires
        screen_in_viewport(state.screen),
        state.pos.y >= -ONE,
        chr.bearing.y >= 0,
    ensures
        screen_in_viewport(print_glyph(state, scale, chr).screen),
{
    let full = state.screen.push(printed_at(state.pos, chr));
    assert forall|i: int| 0 <= i < full.len() implies (#[trigger] full[i]).pos.y >= -ONE by {
        if i < state.screen.len() {
            assert(full[i] == state.screen[i]);
        }
    }
    lemma_normalize_keeps_screen_in_viewport(
        State { pos: pen_after(state.pos, chr), screen: full },
        scale,
    );
}

/// Printing a text with a font table, character by character.
pub open spec fn print_text(state: State, scale: u32, chrs: Seq<Chr>, text: Seq<char>) -> State
    decreases text.len(),
{
    if text.len() == 0 {
        state
    } else {
        print(print_text(state, scale, chrs, text.drop_last()), scale, chrs, text.last())
    }
}

/// The glyphs of a text, for a text whose characters all have one.
pub open spec fn glyphs_of(chrs: Seq<Chr>, text: Seq<char>) -> Seq<Chr> {
    Seq::new(text.len(), |i: int| glyph_at(chrs, char_code(text[i]))->0)
}

/// A text whose characters all have a glyph is printed as the sequence of
/// its glyphs, so what holds of printed glyphs holds of printed text.
pub proof fn lemma_text_prints_its_glyphs(
    state: State,
    scale: u32,
    chrs: Seq<Chr>,
    text: Seq<char>,
)
    requires
        forall|i: int| 0 <= i < text.len() ==> glyph_at(chrs, char_code(#[trigger] text[i])) is Some,
    ensures
        print_text(state, scale, chrs, text) == print_glyphs(
            state,
            scale,
            glyphs_of(chrs, text),
        ),
    decreases text.len(),
{
    if text.len() > 0 {
        lemma_text_prints_its_glyphs(state, scale, chrs, text.drop_last());
        assert(glyphs_of(chrs, text).drop_last() == glyphs_of(chrs, text.drop_last()));
        assert(glyph_at(chrs, char_code(text.last())) is Some);
    }
}

/// A character without a glyph is not printed: the text with it prints as
/// the text without it.
pub proof fn lemma_unknown_character_is_dropped(
    state: State,
    scale: u32,
    chrs: Seq<Chr>,
    text: Seq<char>,
    c: char,
)
    requires
        glyph_at(chrs, char_code(c)) is None,
    ensures
        print_text(state, scale, chrs, text.push(c)) == print_text(state, scale, chrs, text),
{
    assert(text.push(c).drop_last() == text);
}

// Backspace

/// Backspace, where the drawable to delete is known.
pub proof fn lemma_backspace_deletes_target(state: State, scale: u32, i: int)
    requires
        is_target(
            probe(state, scale).screen,
            probe(state, scale).twice_x,
            probe(state, scale).row,
            i,
        ),
    ensures
        backspace(state, scale) == (State {
            pos: probe(state, scale).screen[i].pos,
            screen: probe(state, scale).screen.remove(i),
        }),
{
    let probed = probe(state, scale);
    let chosen = choose|k: int| is_target(probed.screen, probed.twice_x, probed.row, k);
    lemma_target_is_unique(probed.screen, probed.twice_x, probed.row, i, chosen);
}

/// The boundary of a backspace from a cursor in the viewport: exactly half a
/// step left of the cursor. It stays on the cursor's row unless it is left
/// of the left edge, where it goes to the row above, and the search never
/// scrolls the screen.
pub proof fn lemma_probe_in_viewport(state: State, scale: u32)
    requires
        in_viewport(state.pos, scale),
    ensures
        probe(state, scale).screen == state.screen,
        2 * state.pos.x - scale >= -2 * ONE ==> probe(state, scale).twice_x == 2 * state.pos.x
            - scale && probe(state, scale).row == state.pos.y,
        2 * state.pos.x - scale < -2 * ONE ==> probe(state, scale).twice_x == 2 * state.pos.x
            - scale + 4 * ONE - 2 * scale && probe(state, scale).row == state.pos.y - scale,
{
}

/// Backspace from a cursor in the viewport. Where no drawable is on the
/// boundary's row and right of the boundary, nothing changes: the cursor
/// never moves left by itself. Where one is, the cursor moves onto a
/// drawable of that row, right of the boundary, and the screen loses exactly
/// that one drawable.
pub proof fn lemma_backspace_in_viewport(state: State, scale: u32)
    requires
        in_viewport(state.pos, scale),
    ensures
        ({
            let probed = probe(state, scale);
            let found = exists|j: int|
                0 <= j < state.screen.len() && right_of(
                    #[trigger] state.screen[j],
                    probed.twice_x,
                    probed.row,
                );
            &&& !found ==> backspace(state, scale) == state
            &&& found ==> backspace(state, scale).screen.len() == state.screen.len() - 1
                && backspace(state, scale).pos.y == probed.row && 2 * backspace(
                state,
                scale,
            ).pos.x > probed.twice_x
        }),
{
    let probed = probe(state, scale);
    lemma_probe_in_viewport(state, scale);
    if exists|j: int|
        0 <= j < state.screen.len() && right_of(
            #[trigger] state.screen[j],
            probed.twice_x,
            probed.row,
        ) {
        let j = choose|j: int|
            0 <= j < state.screen.len() && right_of(
                #[trigger] state.screen[j],
                probed.twice_x,
                probed.row,
            );
        lemma_target_exists(state.screen, probed.twice_x, probed.row, j);
        let i = choose|i: int| is_target(state.screen, probed.twice_x, probed.row, i);
        lemma_backspace_deletes_target(state, scale, i);
    } else {
        assert forall|i: int| !is_target(probed.screen, probed.twice_x, probed.row, i) by {
            if is_target(probed.screen, probed.twice_x, probed.row, i) {
                assert(right_of(state.screen[i], probed.twice_x, probed.row));
            }
        }
    }
}

/// Where some drawable is on the row and right of the boundary, one of them
/// is the target.
pub proof fn lemma_target_exists(screen: Seq<Drawable>, twice_x: int, row: i64, j: int)
    requires
        0 <= j < screen.len(),
        right_of(screen[j], twice_x, row),
    ensures
        exists|i: int| is_target(screen, twice_x, row, i),
{
    lemma_target_in_prefix(screen, twice_x, row, j, screen.len() as int);
    assert(screen.take(screen.len() as int) == screen);
}

proof fn lemma_target_in_prefix(screen: Seq<Drawable>, twice_x: int, row: i64, j: int, upto: int)
    requires
        0 <= j < upto <= screen.len(),
        right_of(screen[j], twice_x, row),
    ensures
        exists|i: int| is_target(screen.take(upto), twice_x, row, i),
    decreases upto,
{
    let part = screen.take(upto);
    if upto - 1 == j && forall|k: int| 0 <= k < j ==> !right_of(#[trigger] screen[k], twice_x, row) {
        assert(part[j] == screen[j]);
        assert forall|k: int| 0 <= k < part.len() && right_of(
            #[trigger] part[k],
            twice_x,
            row,
        ) implies k == j by {
            assert(part[k] == screen[k]);
        }
        assert(is_target(part, twice_x, row, j));
    } else {
        // some qualifying drawable stands before the last of `part`
        let before = if upto - 1 == j {
            choose|k: int| 0 <= k < j && right_of(#[trigger] screen[k], twice_x, row)
        } else {
            j
        };
        lemma_target_in_prefix(screen, twice_x, row, before, upto - 1);
        let shorter = screen.take(upto - 1);
        let best = choose|i: int| is_target(shorter, twice_x, row, i);
        let last = upto - 1;
        assert(shorter[best] == part[best]);
        assert forall|k: int| 0 <= k < shorter.len() implies shorter[k] == part[k] by {}
        if right_of(part[last], twice_x, row) && part[last].pos.x < part[best].pos.x {
            assert forall|k: int| 0 <= k < part.len() && right_of(
                #[trigger] part[k],
                twice_x,
                row,
            ) implies part[last].pos.x < part[k].pos.x || (part[last].pos.x == part[k].pos.x
                && last <= k) by {
                if k < last {
                    assert(right_of(shorter[k], twice_x, row));
                }
            }
            assert(is_target(part, twice_x, row, last));
        } else {
            assert forall|k: int| 0 <= k < part.len() && right_of(
                #[trigger] part[k],
                twice_x,
                row,
            ) implies part[best].pos.x < part[k].pos.x || (part[best].pos.x == part[k].pos.x
                && best <= k) by {
                if k < last {
                    assert(right_of(shorter[k], twice_x, row));
                }
            }
            assert(is_target(part, twice_x, row, best));
        }
    }
}

/// Printing a glyph and deleting it again changes nothing: a backspace right
/// after a print puts the cursor back where it was and leaves the screen as
/// it was. This is said of a glyph without bearing that is printed within
/// its row, with the boundary, half a step left of the pen, not left of the
/// left edge, and that is the drawable the backspace picks.
pub proof fn lemma_print_then_backspace(state: State, scale: u32, chr: Chr)
    requires
        chr.bearing == (Vector2 { x: 0, y: 0 }),
        stays_in_row(state, scale, chr),
        -2 * ONE <= 2 * pen_after(state.pos, chr).x - scale,
        is_target(
            state.screen.push(printed_at(state.pos, chr)),
            2 * pen_after(state.pos, chr).x - scale,
            state.pos.y,
            state.screen.len() as int,
        ),
    ensures
        backspace(print_glyph(state, scale, chr), scale) == state,
{
    let printed = print_glyph(state, scale, chr);
    lemma_print_in_row(state, scale, chr);
    let full = state.screen.push(printed_at(state.pos, chr));
    let probed = probe(printed, scale);
    assert(probed.twice_x == 2 * pen_after(state.pos, chr).x - scale);
    assert(probed.row == state.pos.y);
    assert(probed.screen == full);
    lemma_backspace_deletes_target(printed, scale, state.screen.len() as int);
    assert(full.remove(state.screen.len() as int) == state.screen);
}

/// The same for a glyph that is narrower than half a step (twice its width
/// is less than the step), on a row that holds nothing right of the
/// boundary: such a glyph is what the backspace picks, at an even step and
/// at an odd one.
pub proof fn lemma_print_then_backspace_on_clear_row(state: State, scale: u32, chr: Chr)
    requires
        chr.bearing == (Vector2 { x: 0, y: 0 }),
        stays_in_row(state, scale, chr),
        -2 * ONE <= 2 * pen_after(state.pos, chr).x - scale,
        2 * chr.dimensions.x < scale,
        forall|j: int|
            0 <= j < state.screen.len() ==> !right_of(
                #[trigger] state.screen[j],
                2 * pen_after(state.pos, chr).x - scale,
                state.pos.y,
            ),
    ensures
        backspace(print_glyph(state, scale, chr), scale) == state,
{
    let full = state.screen.push(printed_at(state.pos, chr));
    let twice_x = 2 * pen_after(state.pos, chr).x - scale;
    let n = state.screen.len() as int;
    assert(right_of(full[n], twice_x, state.pos.y));
    assert forall|j: int| 0 <= j < full.len() && right_of(
        #[trigger] full[j],
        twice_x,
        state.pos.y,
    ) implies j == n by {
        if j < n {
            assert(full[j] == state.screen[j]);
        }
    }
    assert(is_target(full, twice_x, state.pos.y, n));
    lemma_print_then_backspace(state, scale, chr);
}

/// Printing a glyph and deleting it again, `count` times over.
pub open spec fn print_backspace_pairs(state: State, scale: u32, chr: Chr, count: nat) -> State
    decreases count,
{
    if count == 0 {
        state
    } else {
        backspace(
            print_glyph(print_backspace_pairs(state, scale, chr, (count - 1) as nat), scale, chr),
            scale,
        )
    }
}

/// However often a glyph is printed and deleted again, the cursor and the
/// screen are as they were, under the conditions of
/// [`lemma_print_then_backspace_on_clear_row`].
pub proof fn lemma_print_then_backspace_repeated(
    state: State,
    scale: u32,
    chr: Chr,
    count: nat,
)
    requires
        chr.bearing == (Vector2 { x: 0, y: 0 }),
        stays_in_row(state, scale, chr),
        -2 * ONE <= 2 * pen_after(state.pos, chr).x - scale,
        2 * chr.dimensions.x < scale,
        forall|j: int|
            0 <= j < state.screen.len() ==> !right_of(
                #[trigger] state.screen[j],
                2 * pen_after(state.pos, chr).x - scale,
                state.pos.y,
            ),
    ensures
        print_backspace_pairs(state, scale, chr, count) == state,
    decreases count,
{
    if count > 0 {
        lemma_print_then_backspace_repeated(state, scale, chr, (count - 1) as nat);
        lemma_print_then_backspace_on_clear_row(state, scale, chr);
    }
}

/// Backspace keeps the screen free of drawables above the top of the
/// viewport and adds none. Where it moves the cursor, it moves it onto a
/// drawable that the screen held, so not above the top of the viewport.
pub proof fn lemma_backspace_keeps_screen_in_viewport(state: State, scale: u32)
    requires
        screen_in_viewport(state.screen),
    ensures
        screen_in_viewport(backspace(state, scale).screen),
        backspace(state, scale).screen.len() <= state.screen.len(),
        backspace(state, scale).pos != state.pos ==> backspace(state, scale).pos.y >= -ONE
            && exists|i: int|
            0 <= i < probe(state, scale).screen.len() && (#[trigger] probe(
                state,
                scale,
            ).screen[i]).pos == backspace(state, scale).pos,
{
    let probed = probe(state, scale);
    lemma_scroll_evicts_in_order(state.screen, scale);
    assert(screen_in_viewport(probed.screen));
    if exists|i: int| is_target(probed.screen, probed.twice_x, probed.row, i) {
        let i = choose|i: int| is_target(probed.screen, probed.twice_x, probed.row, i);
        let after = probed.screen.remove(i);
        assert forall|k: int| 0 <= k < after.len() implies (#[trigger] after[k]).pos.y >= -ONE by {
            if k < i {
                assert(after[k] == probed.screen[k]);
            } else {
                assert(after[k] == probed.screen[k + 1]);
            }
        }
        assert(probed.screen[i].pos.y >= -ONE);
    }
}

// Control sequences

/// Moving forward by steps that take the cursor no more than a row's width
/// past the right margin keeps it in the viewport: from a cursor in the
/// viewport and on a row of the grid, the cursor is in the viewport and on a
/// row of the grid afterwards.
pub proof fn lemma_forward_keeps_cursor_in_viewport(state: State, scale: u32, units: int)
    requires
        on_row_grid(state.pos.y as int, scale),
        in_viewport(state.pos, scale),
        0 <= scale * units,
        state.pos.x + scale * units <= 3 * ONE - 2 * scale,
    ensures
        in_viewport(forward(state, scale, units).pos, scale),
        on_row_grid(forward(state, scale, units).pos.y as int, scale),
{
    lemma_normalize_keeps_cursor_in_viewport(
        State {
            pos: Vector2 { x: sat(state.pos.x + scale * units), y: state.pos.y },
            screen: state.screen,
        },
        scale,
    );
}

/// Moving to the left edge keeps a cursor in the viewport there, in its row,
/// and leaves the screen alone.
pub proof fn lemma_home_keeps_cursor_in_viewport(state: State, scale: u32)
    requires
        scale <= 2 * ONE,
        -ONE <= state.pos.y <= ONE - scale,
    ensures
        carriage_home(state, scale).pos == (Vector2 { x: (-ONE) as i64, y: state.pos.y }),
        carriage_home(state, scale).screen == state.screen,
        in_viewport(carriage_home(state, scale).pos, scale),
{
}

/// Erase-in-line with the default erase, and without intermediate bytes, puts
/// the cursor on the left edge, wherever it was. (A step wider than the whole
/// viewport is left out: the left edge is then itself past the right margin.)
pub proof fn lemma_erase_in_line_homes(
    state: State,
    scale: u32,
    first: Option<Seq<u16>>,
    intermediates: Seq<u8>,
)
    requires
        scale <= 2 * ONE,
        erases_to_end(first),
        intermediates.len() == 0,
    ensures
        csi(state, scale, first, intermediates, 'K') == carriage_home(state, scale),
        csi(state, scale, first, intermediates, 'K').pos.x == -ONE,
        csi(state, scale, first, intermediates, 'K').pos.y == settle_y(state, scale).pos.y,
        csi(state, scale, first, intermediates, 'K').screen == settle_y(state, scale).screen,
{
}

} // verus!
