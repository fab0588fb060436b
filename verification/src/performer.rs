//! The interpreter: what printable characters, the intercepted control bytes
//! and completed control sequences do to the cursor and the screen.
//!
//! The byte-level grammar of escape sequences is not decided here. The
//! caller feeds every byte to [`Performer::advance`] first; a byte that it
//! does not take goes to the caller's sequence parser, whose callbacks come
//! back as [`Performer::print`] and [`Performer::csi_dispatch`].

use crate::cursor::{normalize, settle_y, update_pos, update_y, State};
use crate::drawable::{Drawable, RenderItem};
use crate::geometry::{clamp, sat, Vector2, Vector4, ONE};
use crate::loaded_font::{glyph_at, Chr, LoadedFont};
use vstd::prelude::*;

verus! {

/// The control byte that deletes the glyph before the cursor.
pub const BACKSPACE: u8 = 8;

/// The control byte that moves the cursor one step to the right. This is a
/// convention of this terminal, not one of the usual control codes.
pub const ADVANCE: u8 = 20;

/// The character code that a character is looked up by: its scalar value
/// modulo 256. The font table only knows single-byte codes.
pub open spec fn char_code(c: char) -> u8 {
    (c as u32 % 256) as u8
}

/// The drawable that printing a glyph at `pos` appends: the glyph, right of
/// `pos` by its horizontal bearing and below it by its vertical bearing.
pub open spec fn printed_at(pos: Vector2, chr: Chr) -> Drawable {
    Drawable {
        render_item: RenderItem::Chr(chr),
        pos: Vector2 { x: sat(pos.x + chr.bearing.x), y: sat(pos.y + chr.bearing.y) },
    }
}

/// The pen after a glyph was printed at `pos`, before the cursor rules run:
/// right of the glyph's origin by the glyph's width.
pub open spec fn pen_after(pos: Vector2, chr: Chr) -> Vector2 {
    Vector2 { x: sat(sat(pos.x + chr.bearing.x) + chr.dimensions.x), y: pos.y }
}

/// Printing one glyph: the drawable is appended, the pen moves, and the
/// cursor rules run.
pub open spec fn print_glyph(state: State, scale: u32, chr: Chr) -> State {
    normalize(
        State {
            pos: pen_after(state.pos, chr),
            screen: state.screen.push(printed_at(state.pos, chr)),
        },
        scale,
    )
}

/// Printing a character with a font table: a character without a glyph
/// leaves everything as it is.
pub open spec fn print(state: State, scale: u32, chrs: Seq<Chr>, c: char) -> State {
    match glyph_at(chrs, char_code(c)) {
        Some(chr) => print_glyph(state, scale, chr),
        None => state,
    }
}

/// Moving the cursor right by `units` steps of `scale`, and then running the
/// cursor rules.
pub open spec fn forward(state: State, scale: u32, units: int) -> State {
    normalize(
        State {
            pos: Vector2 { x: sat(state.pos.x + scale * units), y: state.pos.y },
            screen: state.screen,
        },
        scale,
    )
}

/// Moving the cursor to the left edge of its row, and then running the
/// cursor rules.
pub open spec fn carriage_home(state: State, scale: u32) -> State {
    normalize(
        State { pos: Vector2 { x: (-ONE) as i64, y: state.pos.y }, screen: state.screen },
        scale,
    )
}

/// Where backspace looks for a glyph: the boundary, and the screen as the
/// search finds it. The boundary is kept at half-tick resolution, as twice
/// its `x`, so that half of an odd step is exact.
pub struct Probe {
    /// Twice the `x` of the boundary.
    pub twice_x: int,
    /// The `y` of the row that is searched.
    pub row: i64,
    /// The screen that is searched.
    pub screen: Seq<Drawable>,
}

/// The boundary of a backspace: half a step left of the cursor, brought into
/// the viewport by the cursor rules. Right of `ONE - scale` it goes one row
/// down and `2 * ONE - scale` to the left; left of `-ONE` it goes one row up
/// and as far to the right. A boundary that is then below the last row is
/// reflected, and the screen scrolls, as for any cursor.
pub open spec fn probe(state: State, scale: u32) -> Probe {
    let twice = 2 * state.pos.x - scale;
    let wrapped = if twice > 2 * (ONE - scale) {
        (twice - 4 * ONE + 2 * scale, sat(state.pos.y + scale))
    } else if twice < -2 * ONE {
        (twice + 4 * ONE - 2 * scale, sat(state.pos.y - scale))
    } else {
        (twice, state.pos.y)
    };
    let settled = settle_y(
        State { pos: Vector2 { x: state.pos.x, y: wrapped.1 }, screen: state.screen },
        scale,
    );
    Probe { twice_x: wrapped.0, row: settled.pos.y, screen: settled.screen }
}

/// Whether a drawable is on the row `row` and strictly right of the boundary
/// whose `x` is half of `twice_x`.
pub open spec fn right_of(drawable: Drawable, twice_x: int, row: i64) -> bool {
    drawable.pos.y == row && 2 * drawable.pos.x > twice_x
}

/// Whether `i` is the drawable that backspace deletes: on the row and right
/// of the boundary, with the smallest `x` of all such, and the earliest of
/// those with that `x`.
pub open spec fn is_target(screen: Seq<Drawable>, twice_x: int, row: i64, i: int) -> bool {
    &&& 0 <= i < screen.len()
    &&& right_of(screen[i], twice_x, row)
    &&& forall|j: int|
        0 <= j < screen.len() && right_of(#[trigger] screen[j], twice_x, row) ==> screen[i].pos.x
            < screen[j].pos.x || (screen[i].pos.x == screen[j].pos.x && i <= j)
}

/// A backspace target is unique: the rule that picks the drawable to delete
/// never leaves a choice.
pub proof fn lemma_target_is_unique(
    screen: Seq<Drawable>,
    twice_x: int,
    row: i64,
    i: int,
    j: int,
)
    requires
        is_target(screen, twice_x, row, i),
        is_target(screen, twice_x, row, j),
    ensures
        i == j,
{
    assert(right_of(screen[i], twice_x, row));
    assert(right_of(screen[j], twice_x, row));
}

/// Backspace. Where the search finds a target, the cursor moves to the
/// target's position and the target leaves the screen. Where it finds none,
/// the cursor stays.
pub open spec fn backspace(state: State, scale: u32) -> State {
    let probed = probe(state, scale);
    if exists|i: int| is_target(probed.screen, probed.twice_x, probed.row, i) {
        let i = choose|i: int| is_target(probed.screen, probed.twice_x, probed.row, i);
        State { pos: probed.screen[i].pos, screen: probed.screen.remove(i) }
    } else {
        State { pos: state.pos, screen: probed.screen }
    }
}

/// What [`Performer::advance`] does with a byte.
pub open spec fn intercept(state: State, scale: u32, byte: u8) -> State {
    if byte == BACKSPACE {
        backspace(state, scale)
    } else if byte == ADVANCE {
        forward(state, scale, 1)
    } else {
        state
    }
}

/// The parameters of a control sequence as the sequence parser hands them
/// over, `vte::Params`. Nothing is known of its inside.
#[verifier::external_type_specification]
#[verifier::external_body]
pub struct ExParams(vte::Params);

/// The parameters that a `vte::Params` holds, in order, each with its
/// sub-parameters.
pub uninterp spec fn params_of(params: vte::Params) -> Seq<Seq<u16>>;

/// The first parameter of a list, with its sub-parameters.
pub open spec fn first_of(params: Seq<Seq<u16>>) -> Option<Seq<u16>> {
    if params.len() == 0 {
        None
    } else {
        Some(params[0])
    }
}

/// `vte::Params::iter`, and the first item of the iterator it gives: the
/// first parameter that `params` holds, copied out with its sub-parameters,
/// and nothing where `params` holds none.
#[verifier::external_body]
fn first_param(params: &vte::Params) -> (first: Option<Vec<u16>>)
    ensures
        first.deep_view() == first_of(params_of(*params)),
{
    params.iter().next().map(<[u16]>::to_vec)
}

/// Whether the first parameter of an erase-in-line sequence asks for the
/// default erase: there is no parameter, it is empty, or it is the single
/// number zero.
pub open spec fn erases_to_end(first: Option<Seq<u16>>) -> bool {
    match first {
        None => true,
        Some(param) => param.len() == 0 || (param.len() == 1 && param[0] == 0),
    }
}

/// How many steps the first parameter of a cursor-forward sequence asks for:
/// one where there is no parameter or it is empty, the number where it is a
/// single number, and nothing where it has sub-parameters.
pub open spec fn forward_units(first: Option<Seq<u16>>) -> Option<int> {
    match first {
        None => Some(1),
        Some(param) => if param.len() == 0 {
            Some(1)
        } else if param.len() == 1 {
            Some(param[0] as int)
        } else {
            None
        },
    }
}

/// A completed control sequence, by its first parameter, its intermediate
/// bytes and its final byte. Without intermediate bytes, `K` with the default
/// erase moves the cursor to the left edge, and `C` moves it right by the
/// steps asked for. Every other sequence changes nothing.
pub open spec fn csi(
    state: State,
    scale: u32,
    first: Option<Seq<u16>>,
    intermediates: Seq<u8>,
    action: char,
) -> State {
    if intermediates.len() > 0 {
        state
    } else if action == 'K' && erases_to_end(first) {
        carriage_home(state, scale)
    } else if action == 'C' && forward_units(first) is Some {
        forward(state, scale, forward_units(first)->0)
    } else {
        state
    }
}

/// The interpreter's state: the font it prints with, the screen it prints
/// to, the pen colour and the cursor.
pub struct Performer {
    pub font: LoadedFont,
    pub screen: Vec<Drawable>,
    pub color: Vector4,
    pub pos: Vector2,
}

impl Performer {
    /// The cursor and the screen, as the cursor algebra sees them.
    pub open spec fn state(&self) -> State {
        State { pos: self.pos, screen: self.screen@ }
    }

    /// Whether `self` has the font and the pen colour of `other`.
    pub open spec fn same_pen(&self, other: &Self) -> bool {
        self.font == other.font && self.color == other.color
    }

    pub fn new(font: LoadedFont, screen: Vec<Drawable>, color: Vector4, pos: Vector2) -> (performer:
        Self)
        ensures
            performer.font == font,
            performer.screen == screen,
            performer.color == color,
            performer.pos == pos,
    {
        Performer { font, screen, color, pos }
    }

    /// An interpreter at the top left corner of the viewport, with the pen
    /// colour at zero.
    pub fn default(font: LoadedFont, screen: Vec<Drawable>) -> (performer: Self)
        ensures
            performer.font == font,
            performer.screen == screen,
            performer.color == (Vector4 { x: 0, y: 0, z: 0, w: 0 }),
            performer.pos == (Vector2 { x: (-ONE) as i64, y: (-ONE) as i64 }),
    {
        Performer { font, screen, color: Vector4::zero(), pos: Vector2::from_value(-ONE) }
    }

    /// Prints one glyph at the cursor.
    pub fn add_char(&mut self, chr: Chr)
        ensures
            final(self).state() == print_glyph(old(self).state(), old(self).font.scale, chr),
            final(self).same_pen(old(self)),
    {
        let pen: i64 = clamp(self.pos.x as i128 + chr.bearing.x as i128);
        let origin: Vector2 = Vector2 {
            x: pen,
            y: clamp(self.pos.y as i128 + chr.bearing.y as i128),
        };
        self.screen.push(Drawable::new(RenderItem::Chr(chr), origin));
        self.pos.x = clamp(pen as i128 + chr.dimensions.x as i128);
        let scale: u32 = self.font.scale;
        update_pos(&mut self.pos, scale, &mut self.screen);
    }

    /// Prints a character. One that the font has no glyph for is dropped.
    pub fn print(&mut self, c: char)
        ensures
            final(self).state() == print(
                old(self).state(),
                old(self).font.scale,
                old(self).font.chrs@,
                c,
            ),
            final(self).same_pen(old(self)),
    {
        let code: u8 = (c as u32 % 256) as u8;
        match self.font.get_chr_by_id(code) {
            Some(chr) => self.add_char(chr),
            None => {},
        }
    }

    /// Moves the cursor right by `units` steps.
    pub fn forward(&mut self, units: u16)
        ensures
            final(self).state() == forward(old(self).state(), old(self).font.scale, units as int),
            final(self).same_pen(old(self)),
    {
        let scale: u32 = self.font.scale;
        assert(0 <= scale * units <= 0xffff_ffff * 0xffff) by (nonlinear_arith)
            requires
                0 <= scale <= 0xffff_ffff,
                0 <= units <= 0xffff,
        ;
        self.pos.x = clamp(self.pos.x as i128 + scale as i128 * units as i128);
        update_pos(&mut self.pos, scale, &mut self.screen);
    }

    /// Deletes the glyph before the cursor, if its row has one, and puts the
    /// cursor where that glyph was.
    pub fn backspace(&mut self)
        ensures
            final(self).state() == backspace(old(self).state(), old(self).font.scale),
            final(self).same_pen(old(self)),
    {
        let scale: u32 = self.font.scale;
        let step: i128 = scale as i128;
        let one: i128 = ONE as i128;
        let twice: i128 = 2 * (self.pos.x as i128) - step;
        let mut twice_x: i128 = twice;
        let mut row: Vector2 = Vector2 { x: self.pos.x, y: self.pos.y };
        if twice > 2 * (one - step) {
            twice_x = twice - 4 * one + 2 * step;
            row.y = clamp(self.pos.y as i128 + step);
        } else if twice < -2 * one {
            twice_x = twice + 4 * one - 2 * step;
            row.y = clamp(self.pos.y as i128 - step);
        }
        update_y(&mut row, scale, &mut self.screen);
        let row: i64 = row.y;
        let ghost probed = probe(old(self).state(), scale);
        assert(probed.twice_x == twice_x && probed.row == row && probed.screen == self.screen@);
        let mut best: Option<usize> = None;
        let mut i: usize = 0;
        while i < self.screen.len()
            invariant
                i <= self.screen.len(),
                match best {
                    Some(b) => {
                        &&& b < i
                        &&& right_of(self.screen@[b as int], twice_x as int, row)
                        &&& forall|j: int|
                            0 <= j < i && right_of(#[trigger] self.screen@[j], twice_x as int, row)
                                ==> self.screen@[b as int].pos.x < self.screen@[j].pos.x || (
                            self.screen@[b as int].pos.x == self.screen@[j].pos.x && b <= j)
                    },
                    None => forall|j: int|
                        0 <= j < i ==> !right_of(#[trigger] self.screen@[j], twice_x as int, row),
                },
            decreases self.screen.len() - i,
        {
            let drawable: Drawable = self.screen[i];
            if drawable.pos.y == row && 2 * (drawable.pos.x as i128) > twice_x {
                match best {
                    Some(b) => {
                        if drawable.pos.x < self.screen[b].pos.x {
                            best = Some(i);
                        }
                    },
                    None => {
                        best = Some(i);
                    },
                }
            }
            i += 1;
        }
        match best {
            Some(b) => {
                proof {
                    let screen = self.screen@;
                    assert(is_target(screen, twice_x as int, row, b as int));
                    assert forall|k: int|
                        is_target(screen, twice_x as int, row, k) implies k == b by {
                        lemma_target_is_unique(screen, twice_x as int, row, k, b as int);
                    }
                }
                self.pos = self.screen[b].pos;
                self.screen.remove(b);
            },
            None => {
                proof {
                    let screen = self.screen@;
                    assert forall|k: int| !is_target(screen, twice_x as int, row, k) by {
                        if is_target(screen, twice_x as int, row, k) {
                            assert(right_of(screen[k], twice_x as int, row));
                        }
                    }
                }
            },
        }
    }

    /// Takes a byte that is meant for the interpreter itself: backspace
    /// deletes, and the advance byte moves the cursor one step right. The
    /// result says whether the byte was taken. Any other byte changes
    /// nothing and belongs to the sequence parser.
    pub fn advance(&mut self, byte: u8) -> (taken: bool)
        ensures
            taken == (byte == BACKSPACE || byte == ADVANCE),
            final(self).state() == intercept(old(self).state(), old(self).font.scale, byte),
            final(self).same_pen(old(self)),
    {
        if byte == BACKSPACE {
            self.backspace();
            true
        } else if byte == ADVANCE {
            self.forward(1);
            true
        } else {
            false
        }
    }

    /// Carries out a completed control sequence, as the sequence parser
    /// reports it. Only the first parameter counts, and the parser's mark on
    /// a sequence that it had to cut short changes nothing.
    pub fn csi_dispatch(
        &mut self,
        params: &vte::Params,
        intermediates: &[u8],
        _ignore: bool,
        action: char,
    )
        ensures
            final(self).state() == csi(
                old(self).state(),
                old(self).font.scale,
                first_of(params_of(*params)),
                intermediates@,
                action,
            ),
            final(self).same_pen(old(self)),
    {
        let first: Option<Vec<u16>> = first_param(params);
        self.csi_sequence(first, intermediates, action);
    }

    /// Carries out a completed control sequence, given by its first
    /// parameter, its intermediate bytes and its final byte. Erase-in-line
    /// with the default erase leaves the cursor on the left edge, wherever it
    /// was, as long as one step is not wider than the whole viewport.
    pub fn csi_sequence(&mut self, first: Option<Vec<u16>>, intermediates: &[u8], action: char)
        ensures
            final(self).state() == csi(
                old(self).state(),
                old(self).font.scale,
                first.deep_view(),
                intermediates@,
                action,
            ),
            final(self).same_pen(old(self)),
            action == 'K' && intermediates@.len() == 0 && erases_to_end(first.deep_view()) && old(
                self,
            ).font.scale <= 2 * ONE ==> final(self).pos.x == -ONE,
    {
        if intermediates.len() > 0 {
            return ;
        }
        if action == 'K' {
            let home: bool = match &first {
                None => true,
                Some(param) => param.len() == 0 || (param.len() == 1 && param[0] == 0),
            };
            if home {
                let scale: u32 = self.font.scale;
                self.pos.x = -ONE;
                update_pos(&mut self.pos, scale, &mut self.screen);
            }
        } else if action == 'C' {
            match &first {
                None => self.forward(1),
                Some(param) => {
                    if param.len() == 0 {
                        self.forward(1);
                    } else if param.len() == 1 {
                        self.forward(param[0]);
                    }
                },
            }
        }
    }
}

} // verus!
