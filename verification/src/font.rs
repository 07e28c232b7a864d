//! The font model: what the shaping logic reads of a font.
//!
//! A [`Font`] carries the identity and the plain measurements the engine
//! needs; the font tables themselves stay with the host (see
//! [`crate::shape::ShapingHost`]), which answers coverage and advance
//! queries.

use vstd::prelude::*;
use crate::geom::Em;

verus! {

/// The vertical metrics of a font, in em units.
#[derive(Clone, Copy, Debug, PartialEq, Eq, Structural)]
pub struct FontMetrics {
    /// The distance from the baseline to the top of letters like `k`.
    pub ascender: Em,
    /// The distance from the baseline to the top of capital letters.
    pub cap_height: Em,
    /// The distance from the baseline to the top of letters like `x`.
    pub x_height: Em,
    /// The distance from the baseline to the bottom of letters like `p`;
    /// usually negative.
    pub descender: Em,
}

impl FontMetrics {
    /// Whether all metrics are small enough for glyph arithmetic.
    pub open spec fn wf(self) -> bool {
        &&& self.ascender.is_metric()
        &&& self.cap_height.is_metric()
        &&& self.x_height.is_metric()
        &&& self.descender.is_metric()
    }
}

/// A font as the shaping logic sees it: an identity, the design-unit scale
/// and the vertical metrics. Two fonts are the same font exactly when their
/// identifiers are equal.
#[derive(Clone, Copy, Debug, PartialEq, Eq, Structural)]
pub struct Font {
    /// Identifies the underlying font face.
    pub id: u64,
    /// Design units per em; at least one.
    pub units_per_em: i64,
    /// The font's vertical metrics.
    pub metrics: FontMetrics,
}

impl Font {
    /// Whether the font's measurements are usable.
    pub open spec fn wf(self) -> bool {
        &&& 1 <= self.units_per_em
        &&& self.metrics.wf()
    }
}

/// The style of a font face.
#[derive(Clone, Copy, Debug, PartialEq, Eq, Structural)]
pub enum FontStyle {
    /// The upright version.
    Normal,
    /// A cursive version.
    Italic,
    /// A slanted version.
    Oblique,
}

/// Properties that distinguish a face from other faces of the same family.
#[derive(Clone, Copy, Debug, PartialEq, Eq, Structural)]
pub struct FontVariant {
    /// The style of the face.
    pub style: FontStyle,
    /// The weight of the face, between 0 and 1000.
    pub weight: u16,
    /// The stretch of the face, in thousandths of the normal width.
    pub stretch: u16,
}

/// The name of a font family, used to look faces up in the host's book.
#[derive(Clone, Debug)]
pub struct FamilyName {
    /// The family name.
    pub name: String,
}

impl FamilyName {
    /// A family name from a string.
    pub fn new(name: String) -> (r: FamilyName)
        ensures
            r.name@ == name@,
    {
        FamilyName { name }
    }
}

} // verus!
