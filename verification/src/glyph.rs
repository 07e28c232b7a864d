//! A single shaped glyph: classification and per-glyph adjustability.

use vstd::prelude::*;
use crate::geom::{tdiv, Em, SCALE};
use crate::font::Font;

verus! {

/// A half-open range of character offsets within the paragraph.
#[derive(Clone, Copy, Debug, PartialEq, Eq, Structural)]
pub struct TextRange {
    /// The first offset inside the range.
    pub start: usize,
    /// The first offset past the range.
    pub end: usize,
}

/// A source location: an opaque span handle and an offset within it.
#[derive(Clone, Copy, Debug, PartialEq, Eq, Structural)]
pub struct Span {
    /// The opaque handle of the source span.
    pub id: u64,
    /// The offset within the span.
    pub offset: u16,
}

impl Span {
    /// A span that points nowhere, used for glyphs without a source, such
    /// as inserted hyphens.
    pub fn detached() -> (r: Span)
        ensures
            r.id == 0,
            r.offset == 0,
    {
        Span { id: 0, offset: 0 }
    }
}

/// A single glyph resulting from shaping.
#[derive(Clone, Copy, Debug, PartialEq, Eq, Structural)]
pub struct ShapedGlyph {
    /// The font the glyph is contained in.
    pub font: Font,
    /// The glyph's index in the font; zero is the font's missing-glyph sign.
    pub glyph_id: u16,
    /// The advance width of the glyph.
    pub x_advance: Em,
    /// The horizontal offset of the glyph.
    pub x_offset: Em,
    /// The vertical offset of the glyph.
    pub y_offset: Em,
    /// The range of this glyph's cluster in the full paragraph. A cluster is
    /// a sequence of one or more glyphs that cannot be separated and must
    /// always be treated as a union; its glyphs share one range.
    pub range: TextRange,
    /// Whether the text could be shaped to both sides of this glyph's
    /// cluster start separately with the same result.
    pub safe_to_break: bool,
    /// The first character in this glyph's cluster.
    pub c: char,
    /// The source location of the glyph.
    pub span: Span,
}

/// The left and right stretchability and shrinkability of a glyph.
#[derive(Clone, Copy, Debug, PartialEq, Eq)]
pub struct Adjustability {
    /// How much the glyph can stretch, to the left and to the right.
    pub stretchability: (Em, Em),
    /// How much the glyph can shrink, to the left and to the right.
    pub shrinkability: (Em, Em),
}

impl Default for Adjustability {
    /// No room to stretch or shrink on either side.
    fn default() -> (r: Adjustability)
        ensures
            r.stretchability.0.units == 0,
            r.stretchability.1.units == 0,
            r.shrinkability.0.units == 0,
            r.shrinkability.1.units == 0,
    {
        Adjustability {
            stretchability: (Em { units: 0 }, Em { units: 0 }),
            shrinkability: (Em { units: 0 }, Em { units: 0 }),
        }
    }
}

/// The name a call of unicode_script's Script lookup gives: whether the
/// character's Unicode script is Hiragana, Katakana or Han.
pub uninterp spec fn char_has_cjk_script(c: char) -> bool;

/// Relies on unicode_script's `UnicodeScript::script`: the Unicode script
/// property of a character, a pure table lookup that depends on the
/// character alone. Tells whether it is Hiragana, Katakana or Han.
#[verifier::external_body]
fn lookup_cjk_script(c: char) -> (r: bool)
    ensures
        r == char_has_cjk_script(c),
{
    matches!(
        unicode_script::UnicodeScript::script(&c),
        unicode_script::Script::Hiragana
            | unicode_script::Script::Katakana
            | unicode_script::Script::Han
    )
}

/// Whether the character is a space: an ordinary space, a no-break space or
/// an ideographic space.
pub open spec fn spec_is_space(c: char) -> bool {
    c == ' ' || c == '\u{00A0}' || c == '\u{3000}'
}

/// Whether a glyph with this cluster character counts as CJK: its script is
/// Hiragana, Katakana or Han, or it is the prolonged sound mark.
pub open spec fn spec_is_cjk(c: char) -> bool {
    char_has_cjk_script(c) || c == '\u{30FC}'
}

/// Whether a glyph with this cluster character and advance is a full-width
/// punctuation mark that leans on the left of its box: a closing mark. The
/// Latin closing quotes share their characters with the CJK ones and count
/// only when shaped exactly one em wide.
pub open spec fn spec_is_cjk_left_aligned_punctuation(c: char, x_advance: Em) -> bool {
    ||| ((c == '\u{201D}' || c == '\u{2019}') && x_advance.units == SCALE)
    ||| c == '\u{FF0C}'
    ||| c == '\u{3002}'
    ||| c == '\u{3001}'
    ||| c == '\u{FF1A}'
    ||| c == '\u{FF1B}'
    ||| c == '\u{300B}'
    ||| c == '\u{FF09}'
    ||| c == '\u{300F}'
    ||| c == '\u{300D}'
}

/// Whether a glyph with this cluster character and advance is a full-width
/// punctuation mark that leans on the right of its box: an opening mark.
/// The Latin opening quotes count only when shaped exactly one em wide.
pub open spec fn spec_is_cjk_right_aligned_punctuation(c: char, x_advance: Em) -> bool {
    ||| ((c == '\u{201C}' || c == '\u{2018}') && x_advance.units == SCALE)
    ||| c == '\u{300A}'
    ||| c == '\u{FF08}'
    ||| c == '\u{300E}'
    ||| c == '\u{300C}'
}

/// Whether a glyph with this cluster character and advance may absorb extra
/// justification space.
pub open spec fn spec_is_justifiable(c: char, x_advance: Em) -> bool {
    ||| spec_is_space(c)
    ||| spec_is_cjk(c)
    ||| spec_is_cjk_left_aligned_punctuation(c, x_advance)
    ||| spec_is_cjk_right_aligned_punctuation(c, x_advance)
}

/// The adjustability of a glyph with this cluster character and advance:
/// spaces stretch by half and shrink by a third of their advance on the
/// right; CJK closing punctuation shrinks by half its advance on the right,
/// CJK opening punctuation by half its advance on the left.
pub open spec fn spec_adjustability(c: char, x_advance: Em) -> Adjustability {
    let zero = Em { units: 0 };
    if spec_is_space(c) {
        Adjustability {
            stretchability: (zero, Em { units: tdiv(x_advance.units as int, 2) as i64 }),
            shrinkability: (zero, Em { units: tdiv(x_advance.units as int, 3) as i64 }),
        }
    } else if spec_is_cjk_left_aligned_punctuation(c, x_advance) {
        Adjustability {
            stretchability: (zero, zero),
            shrinkability: (zero, Em { units: tdiv(x_advance.units as int, 2) as i64 }),
        }
    } else if spec_is_cjk_right_aligned_punctuation(c, x_advance) {
        Adjustability {
            stretchability: (zero, zero),
            shrinkability: (Em { units: tdiv(x_advance.units as int, 2) as i64 }, zero),
        }
    } else {
        Adjustability { stretchability: (zero, zero), shrinkability: (zero, zero) }
    }
}

impl ShapedGlyph {
    /// Whether the glyph's measurements are small enough for glyph
    /// arithmetic, and its cluster range is ordered.
    pub open spec fn wf(self) -> bool {
        &&& self.font.wf()
        &&& self.x_advance.is_metric()
        &&& self.x_offset.is_metric()
        &&& self.y_offset.is_metric()
        &&& self.range.start <= self.range.end
    }

    /// Whether the glyph is a space.
    pub fn is_space(&self) -> (r: bool)
        ensures
            r == spec_is_space(self.c),
    {
        self.c == ' ' || self.c == '\u{00A0}' || self.c == '\u{3000}'
    }

    /// Whether the glyph is justifiable.
    pub fn is_justifiable(&self) -> (r: bool)
        ensures
            r == spec_is_justifiable(self.c, self.x_advance),
    {
        self.is_space() || self.is_cjk() || self.is_cjk_left_aligned_punctuation()
            || self.is_cjk_right_aligned_punctuation()
    }

    /// Whether the glyph's cluster starts with a CJK character.
    pub fn is_cjk(&self) -> (r: bool)
        ensures
            r == spec_is_cjk(self.c),
    {
        lookup_cjk_script(self.c) || self.c == '\u{30FC}'
    }

    /// Whether the glyph is full-width closing punctuation.
    pub fn is_cjk_left_aligned_punctuation(&self) -> (r: bool)
        ensures
            r == spec_is_cjk_left_aligned_punctuation(self.c, self.x_advance),
    {
        if (self.c == '\u{201D}' || self.c == '\u{2019}') && self.x_advance.units == SCALE {
            return true;
        }
        self.c == '\u{FF0C}' || self.c == '\u{3002}' || self.c == '\u{3001}' || self.c
            == '\u{FF1A}' || self.c == '\u{FF1B}' || self.c == '\u{300B}' || self.c == '\u{FF09}'
            || self.c == '\u{300F}' || self.c == '\u{300D}'
    }

    /// Whether the glyph is full-width opening punctuation.
    pub fn is_cjk_right_aligned_punctuation(&self) -> (r: bool)
        ensures
            r == spec_is_cjk_right_aligned_punctuation(self.c, self.x_advance),
    {
        if (self.c == '\u{201C}' || self.c == '\u{2018}') && self.x_advance.units == SCALE {
            return true;
        }
        self.c == '\u{300A}' || self.c == '\u{FF08}' || self.c == '\u{300E}' || self.c
            == '\u{300C}'
    }

    /// The adjustability of the glyph.
    pub fn adjustability(&self) -> (r: Adjustability)
        ensures
            r == spec_adjustability(self.c, self.x_advance),
    {
        let width = self.x_advance;
        if self.is_space() {
            Adjustability {
                stretchability: (Em::zero(), Em::new(width.units / 2)),
                shrinkability: (Em::zero(), Em::new(width.units / 3)),
            }
        } else if self.is_cjk_left_aligned_punctuation() {
            Adjustability {
                stretchability: (Em::zero(), Em::zero()),
                shrinkability: (Em::zero(), Em::new(width.units / 2)),
            }
        } else if self.is_cjk_right_aligned_punctuation() {
            Adjustability {
                stretchability: (Em::zero(), Em::zero()),
                shrinkability: (Em::new(width.units / 2), Em::zero()),
            }
        } else {
            Adjustability::default()
        }
    }

    /// The left and right stretchability of the glyph.
    pub fn stretchability(&self) -> (r: (Em, Em))
        ensures
            r == spec_adjustability(self.c, self.x_advance).stretchability,
    {
        self.adjustability().stretchability
    }

    /// The left and right shrinkability of the glyph.
    pub fn shrinkability(&self) -> (r: (Em, Em))
        ensures
            r == spec_adjustability(self.c, self.x_advance).shrinkability,
    {
        self.adjustability().shrinkability
    }
}

/// Adjustability leaves the aligned side of full-width punctuation alone:
/// closing punctuation never shrinks on its left, opening punctuation never
/// shrinks on its right, and neither stretches at all.
pub proof fn lemma_adjustability_symmetry(c: char, x_advance: Em)
    ensures
        spec_is_cjk_left_aligned_punctuation(c, x_advance) ==> spec_adjustability(
            c,
            x_advance,
        ).shrinkability.0.units == 0,
        spec_is_cjk_right_aligned_punctuation(c, x_advance) ==> spec_adjustability(
            c,
            x_advance,
        ).shrinkability.1.units == 0,
        spec_is_cjk_left_aligned_punctuation(c, x_advance)
            || spec_is_cjk_right_aligned_punctuation(c, x_advance) ==> spec_adjustability(
            c,
            x_advance,
        ).stretchability.0.units == 0 && spec_adjustability(c, x_advance).stretchability.1.units
            == 0,
{
}

} // verus!
