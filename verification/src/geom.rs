//! Exact fixed-point geometry: em quantities, absolute lengths, ratios.
//!
//! An [`Em`] is a length relative to the font size, stored as an integer
//! number of thousandths of an em. An [`Abs`] is an absolute length stored as
//! an integer number of thousandths of a point. A [`Relative`] is a ratio
//! stored in thousandths (`500` means `50%`). All arithmetic is exact.

use vstd::prelude::*;

verus! {

/// Thousandths of an em per em; also thousandths of a point per point and
/// thousandths per unit ratio.
pub const SCALE: i64 = 1000;

/// Largest magnitude, in thousandths of an em, that a single glyph metric
/// (advance or offset) may reach. Shaped font units fit in 31 bits, so a raw
/// metric stays below 2^41 thousandths; post-processing may grow it further,
/// within this bound.
pub const EM_METRIC_MAX: i64 = 0x4000_0000_0000;

/// Largest magnitude, in thousandths of an em, of a metric as it comes from
/// the shaper, before post-processing.
pub const EM_RAW_MAX: i64 = 0x200_0000_0000;

/// Largest font size, in thousandths of a point.
pub const SIZE_MAX: i64 = 0x4_0000;

/// Division that rounds towards zero, as machine division of signed
/// integers does.
pub open spec fn tdiv(a: int, b: int) -> int {
    if a >= 0 {
        a / b
    } else {
        -((-a) / b)
    }
}

/// A length in thousandths of an em.
///
/// One em equals the font size; an em value is resolved to an absolute
/// length by multiplying with the size.
#[derive(Clone, Copy, Debug, PartialEq, Eq, Structural)]
pub struct Em {
    /// Thousandths of an em.
    pub units: i64,
}

/// An absolute length in thousandths of a point.
#[derive(Clone, Copy, Debug, PartialEq, Eq, Structural)]
pub struct Abs {
    /// Thousandths of a point.
    pub raw: i128,
}

impl Em {
    /// Whether this em value is small enough to take part in glyph metric
    /// arithmetic without overflow.
    pub open spec fn is_metric(self) -> bool {
        -EM_METRIC_MAX <= self.units <= EM_METRIC_MAX
    }

    /// The zero em length.
    pub fn zero() -> (r: Em)
        ensures
            r.units == 0,
    {
        Em { units: 0 }
    }

    /// Exactly one em.
    pub fn one() -> (r: Em)
        ensures
            r.units == SCALE,
    {
        Em { units: SCALE }
    }

    /// An em value from a raw count of thousandths.
    pub fn new(units: i64) -> (r: Em)
        ensures
            r.units == units,
    {
        Em { units }
    }

    /// Convert a metric given in font design units into an em value, using
    /// the font's units per em.
    pub fn from_units(units: i64, units_per_em: i64) -> (r: Em)
        requires
            1 <= units_per_em,
            -0x8000_0000 <= units <= 0x8000_0000,
        ensures
            r.units == tdiv(units * SCALE, units_per_em as int),
            -EM_RAW_MAX <= r.units <= EM_RAW_MAX,
            r.is_metric(),
    {
        proof {
            lemma_div_shrinks(units * SCALE, units_per_em as int);
        }
        Em { units: (units * SCALE) / units_per_em }
    }

    /// Resolve this em value at the given font size.
    pub fn at(self, size: Abs) -> (r: Abs)
        requires
            -0x1_0000_0000_0000_0000_0000_0000 <= self.units as int * size.raw as int
                <= 0x1_0000_0000_0000_0000_0000_0000,
        ensures
            r.raw == tdiv(self.units as int * size.raw as int, SCALE as int),
    {
        Abs { raw: (self.units as i128 * size.raw) / (SCALE as i128) }
    }

    /// Convert an absolute length into an em value at the given font size.
    pub fn from_length(length: Abs, size: Abs) -> (r: Em)
        requires
            1 <= size.raw <= SIZE_MAX,
            -0x4_0000 <= length.raw <= 0x4_0000,
        ensures
            r.units == tdiv(length.raw * SCALE as int, size.raw as int),
            -0x1000_0000 <= r.units <= 0x1000_0000,
            r.is_metric(),
    {
        proof {
            lemma_div_shrinks(length.raw * SCALE as int, size.raw as int);
        }
        Em { units: ((length.raw * SCALE as i128) / size.raw) as i64 }
    }
}

/// A product of bounded factors is bounded by the product of the bounds.
pub proof fn lemma_mul_bound(a: int, b: int, bound_a: int, bound_b: int)
    by (nonlinear_arith)
    requires
        -bound_a <= a <= bound_a,
        -bound_b <= b <= bound_b,
        0 <= bound_a,
        0 <= bound_b,
    ensures
        -(bound_a * bound_b) <= a * b <= bound_a * bound_b,
{
}

/// Truncating division shrinks the magnitude of the dividend.
pub proof fn lemma_div_shrinks(a: int, b: int)
    requires
        1 <= b,
    ensures
        a >= 0 ==> 0 <= tdiv(a, b) <= a,
        a < 0 ==> a <= tdiv(a, b) <= 0,
{
    if a >= 0 {
        vstd::arithmetic::div_mod::lemma_div_nonincreasing(a, b);
        vstd::arithmetic::div_mod::lemma_div_pos_is_pos(a, b);
    } else {
        vstd::arithmetic::div_mod::lemma_div_nonincreasing(-a, b);
        vstd::arithmetic::div_mod::lemma_div_pos_is_pos(-a, b);
    }
}

impl Abs {
    /// The zero length.
    pub fn zero() -> (r: Abs)
        ensures
            r.raw == 0,
    {
        Abs { raw: 0 }
    }

    /// A length from a raw count of thousandths of a point.
    pub fn new(raw: i128) -> (r: Abs)
        ensures
            r.raw == raw,
    {
        Abs { raw }
    }

    /// Whether this length is a usable font size.
    pub open spec fn is_size(self) -> bool {
        1 <= self.raw <= SIZE_MAX
    }

    /// The larger of this and another length.
    pub fn max(self, other: Abs) -> (r: Abs)
        ensures
            r.raw == if self.raw >= other.raw {
                self.raw
            } else {
                other.raw
            },
    {
        if self.raw >= other.raw {
            self
        } else {
            other
        }
    }
}

/// A ratio in thousandths: `500` stands for `50%`.
#[derive(Clone, Copy, Debug, PartialEq, Eq, Structural)]
pub struct Relative {
    /// Thousandths of the whole.
    pub permille: i64,
}

impl Relative {
    /// A ratio of zero.
    pub fn zero() -> (r: Relative)
        ensures
            r.permille == 0,
    {
        Relative { permille: 0 }
    }

    /// A ratio of one, that is `100%`.
    pub fn one() -> (r: Relative)
        ensures
            r.permille == SCALE,
    {
        Relative { permille: SCALE }
    }

    /// A ratio from a raw count of thousandths.
    pub fn new(permille: i64) -> (r: Relative)
        ensures
            r.permille == permille,
    {
        Relative { permille }
    }

    /// The raw count of thousandths.
    pub fn get(self) -> (r: i64)
        ensures
            r == self.permille,
    {
        self.permille
    }

    /// Whether the ratio is zero.
    pub fn is_zero(self) -> (r: bool)
        ensures
            r == (self.permille == 0),
    {
        self.permille == 0
    }

    /// The ratio with the same magnitude and nonnegative sign.
    pub fn abs(self) -> (r: Relative)
        requires
            self.permille > i64::MIN,
        ensures
            r.permille == if self.permille >= 0 {
                self.permille as int
            } else {
                -self.permille as int
            },
    {
        if self.permille >= 0 {
            self
        } else {
            Relative { permille: -self.permille }
        }
    }

    /// Resolve this ratio against an absolute length.
    pub fn resolve(self, length: Abs) -> (r: Abs)
        requires
            -0x1_0000_0000_0000_0000_0000_0000 <= self.permille as int * length.raw as int
                <= 0x1_0000_0000_0000_0000_0000_0000,
        ensures
            r.raw == tdiv(self.permille as int * length.raw as int, SCALE as int),
    {
        Abs { raw: (self.permille as i128 * length.raw) / (SCALE as i128) }
    }
}

/// The direction in which a run of text is laid out.
///
/// Vertical layout is not a configuration this engine accepts.
#[derive(Clone, Copy, Debug, PartialEq, Eq, Structural)]
pub enum Dir {
    /// Left to right.
    Ltr,
    /// Right to left.
    Rtl,
}

impl Dir {
    /// Whether text in this direction advances in the positive horizontal
    /// direction, that is left to right.
    pub fn is_positive(self) -> (r: bool)
        ensures
            r == (self == Dir::Ltr),
    {
        match self {
            Dir::Ltr => true,
            Dir::Rtl => false,
        }
    }
}

} // verus!
