//! Glyph metrics and the table that maps a character code to its glyph.

use crate::geometry::{clamp, sat, Vector2, PIXEL};
use vstd::prelude::*;
use vstd::string::StringExecFns;

verus! {

/// The first character code that a font table is built for.
pub const FIRST_GLYPH: u8 = 33;

/// The last character code that a font table is built for.
pub const LAST_GLYPH: u8 = 126;

/// What a rasteriser reports of one glyph, in whole pixels.
#[derive(Clone, Copy, Debug, PartialEq, Eq, Structural)]
pub struct Metrics {
    pub xmin: i32,
    pub ymin: i32,
    pub width: usize,
    pub height: usize,
}

/// One glyph: its character code, the size of its cell and the offset of the
/// cell from the pen, all in ticks.
#[derive(Clone, Copy, Debug, PartialEq, Eq, Structural)]
pub struct Chr {
    pub id: u8,
    pub dimensions: Vector2,
    pub bearing: Vector2,
}

/// The glyph that pixel metrics describe: every length times [`PIXEL`].
pub open spec fn chr_of_metrics(id: u8, metrics: Metrics) -> Chr {
    Chr {
        id,
        dimensions: Vector2 { x: sat(metrics.width * PIXEL), y: sat(metrics.height * PIXEL) },
        bearing: Vector2 { x: sat(metrics.xmin * PIXEL), y: sat(metrics.ymin * PIXEL) },
    }
}

impl Chr {
    pub fn new(id: u8, dimensions: Vector2, bearing: Vector2) -> (chr: Self)
        ensures
            chr == (Chr { id, dimensions, bearing }),
    {
        Chr { id, dimensions, bearing }
    }

    /// The glyph for the bitmap that `metrics` describes.
    pub fn from_bitmap(id: u8, metrics: &Metrics) -> (chr: Self)
        ensures
            chr == chr_of_metrics(id, *metrics),
            chr.bearing.x == metrics.xmin * PIXEL,
            chr.bearing.y == metrics.ymin * PIXEL,
    {
        let width: i64 = clamp(metrics.width as i128 * PIXEL as i128);
        let height: i64 = clamp(metrics.height as i128 * PIXEL as i128);
        let xmin: i64 = metrics.xmin as i64 * PIXEL;
        let ymin: i64 = metrics.ymin as i64 * PIXEL;
        Chr {
            id,
            dimensions: Vector2 { x: width, y: height },
            bearing: Vector2 { x: xmin, y: ymin },
        }
    }
}

/// Whether `i` is where a table holds the glyph of a character code: the
/// first place whose glyph has that code.
pub open spec fn is_glyph_place(chrs: Seq<Chr>, id: u8, i: int) -> bool {
    &&& 0 <= i < chrs.len()
    &&& chrs[i].id == id
    &&& forall|j: int| 0 <= j < i ==> (#[trigger] chrs[j]).id != id
}

/// The glyph that a table holds for a character code: the first glyph of the
/// table with that code, and none where no glyph of the table has it. The
/// place of a glyph in the table plays no part, so a table may have gaps.
pub open spec fn glyph_at(chrs: Seq<Chr>, id: u8) -> Option<Chr> {
    if exists|i: int| is_glyph_place(chrs, id, i) {
        Some(chrs[choose|i: int| is_glyph_place(chrs, id, i)])
    } else {
        None
    }
}

/// A code has one glyph place at most.
pub proof fn lemma_glyph_place_is_unique(chrs: Seq<Chr>, id: u8, i: int, j: int)
    requires
        is_glyph_place(chrs, id, i),
        is_glyph_place(chrs, id, j),
    ensures
        i == j,
{
}

/// What a lookup gives: a glyph of the table with the code asked for, or
/// nothing, and nothing only where no glyph of the table has the code.
pub proof fn lemma_glyph_at_has_its_code(chrs: Seq<Chr>, id: u8)
    ensures
        glyph_at(chrs, id) is Some ==> glyph_at(chrs, id)->0.id == id && chrs.contains(
            glyph_at(chrs, id)->0,
        ),
        glyph_at(chrs, id) is None ==> forall|i: int|
            0 <= i < chrs.len() ==> (#[trigger] chrs[i]).id != id,
{
    if glyph_at(chrs, id) is None {
        assert forall|i: int| 0 <= i < chrs.len() implies (#[trigger] chrs[i]).id != id by {
            if chrs[i].id == id {
                lemma_first_glyph_place(chrs, id, i);
            }
        }
    }
}

/// Where some glyph of the table has a code, the code has a glyph place at
/// or before it.
pub proof fn lemma_first_glyph_place(chrs: Seq<Chr>, id: u8, i: int)
    requires
        0 <= i < chrs.len(),
        chrs[i].id == id,
    ensures
        exists|k: int| 0 <= k <= i && is_glyph_place(chrs, id, k),
    decreases i,
{
    if exists|j: int| 0 <= j < i && (#[trigger] chrs[j]).id == id {
        let j = choose|j: int| 0 <= j < i && (#[trigger] chrs[j]).id == id;
        lemma_first_glyph_place(chrs, id, j);
    } else {
        assert(is_glyph_place(chrs, id, i));
    }
}

/// The rasteriser's font, `fontdue::Font`. Nothing is known of its inside.
#[verifier::external_type_specification]
#[verifier::external_body]
pub struct ExFont(fontdue::Font);

/// Why a font could not be loaded.
#[derive(Clone, Copy, Debug)]
pub enum LoadedFontError {
    /// The rasteriser refused the font file, with its own words.
    StrError(&'static str),
}

/// A font as the interpreter needs it: its glyphs, each under its own
/// character code, and the glyph scale (the height of a row and the width of
/// a cursor step) in ticks.
pub struct LoadedFont {
    pub chrs: Vec<Chr>,
    pub scale: u32,
}

impl LoadedFont {
    pub fn new(chrs: Vec<Chr>, scale: u32) -> (font: Self)
        ensures
            font.chrs == chrs,
            font.scale == scale,
    {
        LoadedFont { chrs, scale }
    }

    /// The glyph for a character code, if the font has one.
    pub open spec fn glyph(&self, id: u8) -> Option<Chr> {
        glyph_at(self.chrs@, id)
    }

    /// Looks a character code up. The result is the glyph of that code and
    /// of no other; `None` means that the font has no glyph for the code.
    pub fn get_chr_by_id(&self, id: u8) -> (chr: Option<Chr>)
        ensures
            chr == self.glyph(id),
            chr is Some ==> chr->0.id == id && self.chrs@.contains(chr->0),
            chr is None ==> forall|i: int|
                0 <= i < self.chrs@.len() ==> (#[trigger] self.chrs@[i]).id != id,
    {
        proof {
            lemma_glyph_at_has_its_code(self.chrs@, id);
        }
        let mut i: usize = 0;
        while i < self.chrs.len()
            invariant
                i <= self.chrs.len(),
                forall|j: int| 0 <= j < i ==> (#[trigger] self.chrs@[j]).id != id,
            decreases self.chrs.len() - i,
        {
            if self.chrs[i].id == id {
                proof {
                    assert(is_glyph_place(self.chrs@, id, i as int));
                    let place = choose|k: int| is_glyph_place(self.chrs@, id, k);
                    lemma_glyph_place_is_unique(self.chrs@, id, i as int, place);
                }
                return Some(self.chrs[i]);
            }
            i += 1;
        }
        proof {
            assert forall|k: int| !is_glyph_place(self.chrs@, id, k) by {}
        }
        None
    }

    /// Takes what the rasteriser made of a font file: its font, or its
    /// refusal as this library's error.
    pub fn try_font_from_fontdue_result(e: Result<fontdue::Font, &'static str>) -> (font: Result<
        fontdue::Font,
        LoadedFontError,
    >)
        ensures
            match e {
                Ok(loaded) => font == Ok::<fontdue::Font, LoadedFontError>(loaded),
                Err(reason) => font == Err::<fontdue::Font, LoadedFontError>(
                    LoadedFontError::StrError(reason),
                ),
            },
    {
        match e {
            Ok(loaded) => Ok(loaded),
            Err(reason) => Err(LoadedFontError::StrError(reason)),
        }
    }
}

impl Default for LoadedFont {
    /// The font without glyphs, at scale zero.
    fn default() -> (font: Self)
        ensures
            font.chrs@ == Seq::<Chr>::empty(),
            font.scale == 0,
    {
        LoadedFont { chrs: Vec::new(), scale: 0 }
    }
}

impl LoadedFontError {
    /// What the rasteriser said.
    pub open spec fn reason(&self) -> Seq<char> {
        match self {
            LoadedFontError::StrError(reason) => reason@,
        }
    }

    /// The error as a line for the user: `Error: ` and the reason.
    pub fn message(&self) -> (text: String)
        ensures
            text@ == "Error: "@ + self.reason(),
    {
        match self {
            LoadedFontError::StrError(reason) => String::from_str("Error: ").concat(reason),
        }
    }
}

} // verus!
