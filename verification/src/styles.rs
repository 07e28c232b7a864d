//! The style attributes the engine consumes, and their resolution into a
//! font variant, a family chain, OpenType feature tags and a language tag.

use vstd::prelude::*;
use crate::geom::{Abs, Em, Relative, SIZE_MAX};
use crate::font::{FamilyName, FontMetrics, FontStyle, FontVariant};

verus! {

/// Where the top or bottom edge of a line of text lies.
#[derive(Clone, Copy, Debug, PartialEq, Eq, Structural)]
pub enum Edge {
    /// At the font's ascender.
    Ascender,
    /// At the font's cap height.
    CapHeight,
    /// At the font's x-height.
    XHeight,
    /// On the baseline itself.
    Baseline,
    /// At the font's descender.
    Descender,
    /// At a fixed length above the baseline.
    Length(Abs),
}

impl Edge {
    /// The resolved edge position, in thousandths of a point above the
    /// baseline.
    pub open spec fn spec_resolve(self, size: Abs, metrics: FontMetrics) -> int {
        match self {
            Edge::Ascender => crate::geom::tdiv(
                metrics.ascender.units as int * size.raw as int,
                1000,
            ),
            Edge::CapHeight => crate::geom::tdiv(
                metrics.cap_height.units as int * size.raw as int,
                1000,
            ),
            Edge::XHeight => crate::geom::tdiv(
                metrics.x_height.units as int * size.raw as int,
                1000,
            ),
            Edge::Baseline => 0,
            Edge::Descender => crate::geom::tdiv(
                metrics.descender.units as int * size.raw as int,
                1000,
            ),
            Edge::Length(l) => l.raw as int,
        }
    }

    /// Resolve the edge against a font's metrics at the given size.
    pub fn resolve(self, size: Abs, metrics: FontMetrics) -> (r: Abs)
        requires
            size.is_size(),
            metrics.wf(),
        ensures
            r.raw == self.spec_resolve(size, metrics),
    {
        proof {
            crate::geom::lemma_mul_bound(
                metrics.ascender.units as int,
                size.raw as int,
                crate::geom::EM_METRIC_MAX as int,
                SIZE_MAX as int,
            );
            crate::geom::lemma_mul_bound(
                metrics.cap_height.units as int,
                size.raw as int,
                crate::geom::EM_METRIC_MAX as int,
                SIZE_MAX as int,
            );
            crate::geom::lemma_mul_bound(
                metrics.x_height.units as int,
                size.raw as int,
                crate::geom::EM_METRIC_MAX as int,
                SIZE_MAX as int,
            );
            crate::geom::lemma_mul_bound(
                metrics.descender.units as int,
                size.raw as int,
                crate::geom::EM_METRIC_MAX as int,
                SIZE_MAX as int,
            );
        }
        match self {
            Edge::Ascender => metrics.ascender.at(size),
            Edge::CapHeight => metrics.cap_height.at(size),
            Edge::XHeight => metrics.x_height.at(size),
            Edge::Baseline => Abs::zero(),
            Edge::Descender => metrics.descender.at(size),
            Edge::Length(l) => l,
        }
    }
}

/// Whether numbers line with the text or dip below the baseline.
#[derive(Clone, Copy, Debug, PartialEq, Eq, Structural)]
pub enum NumberType {
    /// Numbers the height of capitals.
    Lining,
    /// Numbers with varying height, some reaching below the baseline.
    OldStyle,
}

/// Whether all numbers are the same width.
#[derive(Clone, Copy, Debug, PartialEq, Eq, Structural)]
pub enum NumberWidth {
    /// Numbers with their natural width.
    Proportional,
    /// Numbers that all take the same space.
    Tabular,
}

/// An OpenType feature: a four-byte tag packed big-endian, and a value.
#[derive(Clone, Copy, Debug, PartialEq, Eq, Structural)]
pub struct Feature {
    /// The tag, packed big-endian.
    pub tag: u32,
    /// The feature's value; for most features `0` disables and `1` enables.
    pub value: u32,
}

/// A spacing override for space glyphs: a ratio of the glyph's own advance
/// plus a fixed length.
#[derive(Clone, Copy, Debug, PartialEq, Eq, Structural)]
pub struct Spacing {
    /// The part proportional to the space's shaped advance.
    pub ratio: Relative,
    /// The fixed part.
    pub length: Abs,
}

/// The style attributes that shaping consumes, resolved to plain values.
#[derive(Clone, Debug)]
pub struct Styles {
    /// The primary font family chain, in priority order.
    pub font_list: Vec<FamilyName>,
    /// Whether to fall back to a built-in list of last-resort families and
    /// to consult the host's fallback selection.
    pub fallback: bool,
    /// The requested font style.
    pub style: FontStyle,
    /// The requested font weight, between 0 and 1000.
    pub weight: u16,
    /// The requested font stretch, in thousandths of the normal width.
    pub stretch: u16,
    /// A delta added to the weight.
    pub delta: i64,
    /// Whether emphasis toggles the style between normal and italic.
    pub emph: bool,
    /// The font size.
    pub size: Abs,
    /// Tracking, added to the advance of every glyph that closes a cluster.
    pub tracking: Abs,
    /// If set, replaces the advance of every space glyph.
    pub spacing: Option<Spacing>,
    /// The language code, lowercase.
    pub lang: Vec<char>,
    /// The region code, uppercase.
    pub region: Option<Vec<char>>,
    /// Where the top edge of the line lies.
    pub top_edge: Edge,
    /// Where the bottom edge of the line lies.
    pub bottom_edge: Edge,
    /// A shift of the baseline, used by the frame builder.
    pub baseline_shift: Abs,
    /// An opaque handle to the fill paint, carried into text items.
    pub fill: u64,
    /// Whether kerning is enabled; on by default in the shaper, so only
    /// a disable is passed on.
    pub kerning: bool,
    /// Whether to enable small capitals.
    pub smallcaps: bool,
    /// Whether to enable stylistic alternates.
    pub alternates: bool,
    /// A stylistic set between 1 and 20, if any.
    pub stylistic_set: Option<u8>,
    /// Whether standard ligatures are enabled; on by default in the shaper.
    pub ligatures: bool,
    /// Whether to enable discretionary ligatures.
    pub discretionary_ligatures: bool,
    /// Whether to enable historical ligatures.
    pub historical_ligatures: bool,
    /// The requested number type, if any.
    pub number_type: Option<NumberType>,
    /// The requested number width, if any.
    pub number_width: Option<NumberWidth>,
    /// Whether to enable slashed zeros.
    pub slashed_zero: bool,
    /// Whether to enable fraction forms.
    pub fractions: bool,
    /// Extra features requested by the user.
    pub features: Vec<Feature>,
}

impl Styles {
    /// Whether the styles hold values the engine's arithmetic can take:
    /// a usable font size, bounded tracking and spacing, and a stylistic
    /// set number in range. The size and tracking caps are fixed-point
    /// machine limits, chosen with headroom so that every product in the
    /// width arithmetic provably fits; they are not demands of the layout
    /// rules themselves.
    pub open spec fn wf(self) -> bool {
        &&& self.size.is_size()
        &&& -0x4_0000 <= self.tracking.raw <= 0x4_0000
        &&& match self.spacing {
            Some(s) => {
                &&& -10000 <= s.ratio.permille <= 10000
                &&& -0x4_0000 <= s.length.raw <= 0x4_0000
            },
            None => true,
        }
        &&& match self.stylistic_set {
            Some(n) => 1 <= n <= 20,
            None => true,
        }
        &&& match self.top_edge {
            Edge::Length(l) => -0x4_0000 <= l.raw <= 0x4_0000,
            _ => true,
        }
        &&& match self.bottom_edge {
            Edge::Length(l) => -0x4_0000 <= l.raw <= 0x4_0000,
            _ => true,
        }
        &&& -0x4_0000 <= self.baseline_shift.raw <= 0x4_0000
    }
}

/// Resolve the font variant from the styles: the delta thickens the weight
/// within the range of a signed 16-bit number, and emphasis toggles italic
/// and normal styles.
pub fn variant(styles: &Styles) -> (r: FontVariant)
    ensures
        r == spec_variant(*styles),
{
    let delta: i64 = if styles.delta < -0x8000 {
        -0x8000
    } else if styles.delta > 0x7FFF {
        0x7FFF
    } else {
        styles.delta
    };

    let thickened: i64 = styles.weight as i64 + delta;
    let weight: u16 = if thickened < 0 {
        0
    } else if thickened > 0xFFFF {
        0xFFFF
    } else {
        thickened as u16
    };

    let style = if styles.emph {
        match styles.style {
            FontStyle::Normal => FontStyle::Italic,
            FontStyle::Italic => FontStyle::Normal,
            FontStyle::Oblique => FontStyle::Normal,
        }
    } else {
        styles.style
    };

    FontVariant { style, weight, stretch: styles.stretch }
}

/// The resolved font variant.
pub open spec fn spec_variant(styles: Styles) -> FontVariant {
    let delta = if styles.delta < -0x8000 {
        -0x8000
    } else if styles.delta > 0x7FFF {
        0x7FFF
    } else {
        styles.delta as int
    };
    let thickened = styles.weight + delta;
    let weight = if thickened < 0 {
        0
    } else if thickened > 0xFFFF {
        0xFFFF
    } else {
        thickened
    };
    let style = if styles.emph {
        match styles.style {
            FontStyle::Normal => FontStyle::Italic,
            FontStyle::Italic => FontStyle::Normal,
            FontStyle::Oblique => FontStyle::Normal,
        }
    } else {
        styles.style
    };
    FontVariant { style, weight: weight as u16, stretch: styles.stretch }
}

/// The built-in last-resort families appended when fallback is enabled: a
/// serif face and four emoji faces.
pub open spec fn spec_fallback_families() -> Seq<Seq<char>> {
    seq![
        "linux libertine"@,
        "twitter color emoji"@,
        "noto color emoji"@,
        "apple color emoji"@,
        "segoe ui emoji"@,
    ]
}

/// The prioritized font family chain: the styles' own list, then the
/// built-in fallback families when fallback is enabled.
pub fn families(styles: &Styles) -> (r: Vec<FamilyName>)
    ensures
        r@.map_values(|f: FamilyName| f.name@) == styles.font_list@.map_values(
            |f: FamilyName| f.name@,
        ) + if styles.fallback {
            spec_fallback_families()
        } else {
            Seq::<Seq<char>>::empty()
        },
{
    let mut r: Vec<FamilyName> = Vec::new();
    let mut i: usize = 0;
    while i < styles.font_list.len()
        invariant
            i <= styles.font_list.len(),
            r@.len() == i,
            forall|k: int| 0 <= k < i ==> r@[k].name@ == styles.font_list@[k].name@,
        decreases styles.font_list.len() - i,
    {
        let f = FamilyName { name: clone_string(&styles.font_list[i].name) };
        r.push(f);
        i += 1;
    }
    if styles.fallback {
        r.push(FamilyName { name: String::from_str("linux libertine") });
        r.push(FamilyName { name: String::from_str("twitter color emoji") });
        r.push(FamilyName { name: String::from_str("noto color emoji") });
        r.push(FamilyName { name: String::from_str("apple color emoji") });
        r.push(FamilyName { name: String::from_str("segoe ui emoji") });
        proof {
            assert(r@.map_values(|f: FamilyName| f.name@) =~= styles.font_list@.map_values(
                |f: FamilyName| f.name@,
            ) + spec_fallback_families());
        }
    } else {
        proof {
            assert(r@.map_values(|f: FamilyName| f.name@) =~= styles.font_list@.map_values(
                |f: FamilyName| f.name@,
            ) + Seq::<Seq<char>>::empty());
        }
    }
    r
}

/// A copy of a string with the same characters.
fn clone_string(s: &String) -> (r: String)
    ensures
        r@ == s@,
{
    String::from_str(s.as_str())
}

/// Pack a four-byte OpenType tag big-endian.
pub open spec fn spec_tag(a: u8, b: u8, c: u8, d: u8) -> u32 {
    (a * 0x100_0000 + b * 0x1_0000 + c * 0x100 + d) as u32
}

/// Pack a four-byte OpenType tag big-endian.
pub fn tag(a: u8, b: u8, c: u8, d: u8) -> (r: u32)
    ensures
        r == spec_tag(a, b, c, d),
{
    (a as u32) * 0x100_0000 + (b as u32) * 0x1_0000 + (c as u32) * 0x100 + (d as u32)
}

/// The features passed for kerning: the shaper kerns by default, so only a
/// disable is passed.
#[verifier::opaque]
pub open spec fn spec_kern_tags(styles: Styles) -> Seq<Feature> {
    if !styles.kerning {
        seq![Feature { tag: spec_tag(107, 101, 114, 110), value: 0 }]
    } else {
        Seq::<Feature>::empty()
    }
}

/// The feature passed for small capitals.
#[verifier::opaque]
pub open spec fn spec_smcp_tags(styles: Styles) -> Seq<Feature> {
    if styles.smallcaps {
        seq![Feature { tag: spec_tag(115, 109, 99, 112), value: 1 }]
    } else {
        Seq::<Feature>::empty()
    }
}

/// The feature passed for stylistic alternates.
#[verifier::opaque]
pub open spec fn spec_salt_tags(styles: Styles) -> Seq<Feature> {
    if styles.alternates {
        seq![Feature { tag: spec_tag(115, 97, 108, 116), value: 1 }]
    } else {
        Seq::<Feature>::empty()
    }
}

/// The feature passed for a stylistic set, its number written into the tag.
#[verifier::opaque]
pub open spec fn spec_ss_tags(styles: Styles) -> Seq<Feature> {
    match styles.stylistic_set {
        Some(n) => seq![
            Feature {
                tag: spec_tag(115, 115, (48 + n / 10) as u8, (48 + n % 10) as u8),
                value: 1,
            },
        ],
        None => Seq::<Feature>::empty(),
    }
}

/// The features passed for ligatures: the shaper applies standard and
/// contextual ligatures by default, so only disables are passed.
#[verifier::opaque]
pub open spec fn spec_liga_tags(styles: Styles) -> Seq<Feature> {
    if !styles.ligatures {
        seq![
            Feature { tag: spec_tag(108, 105, 103, 97), value: 0 },
            Feature { tag: spec_tag(99, 108, 105, 103), value: 0 },
        ]
    } else {
        Seq::<Feature>::empty()
    }
}

/// The feature passed for discretionary ligatures.
#[verifier::opaque]
pub open spec fn spec_dlig_tags(styles: Styles) -> Seq<Feature> {
    if styles.discretionary_ligatures {
        seq![Feature { tag: spec_tag(100, 108, 105, 103), value: 1 }]
    } else {
        Seq::<Feature>::empty()
    }
}

/// The feature passed for historical ligatures.
#[verifier::opaque]
pub open spec fn spec_hlig_tags(styles: Styles) -> Seq<Feature> {
    if styles.historical_ligatures {
        seq![Feature { tag: spec_tag(104, 105, 108, 103), value: 1 }]
    } else {
        Seq::<Feature>::empty()
    }
}

/// The feature passed for the number type.
#[verifier::opaque]
pub open spec fn spec_numtype_tags(styles: Styles) -> Seq<Feature> {
    match styles.number_type {
        Some(NumberType::Lining) => seq![
            Feature { tag: spec_tag(108, 110, 117, 109), value: 1 },
        ],
        Some(NumberType::OldStyle) => seq![
            Feature { tag: spec_tag(111, 110, 117, 109), value: 1 },
        ],
        None => Seq::<Feature>::empty(),
    }
}

/// The feature passed for the number width.
#[verifier::opaque]
pub open spec fn spec_numwidth_tags(styles: Styles) -> Seq<Feature> {
    match styles.number_width {
        Some(NumberWidth::Proportional) => seq![
            Feature { tag: spec_tag(112, 110, 117, 109), value: 1 },
        ],
        Some(NumberWidth::Tabular) => seq![
            Feature { tag: spec_tag(116, 110, 117, 109), value: 1 },
        ],
        None => Seq::<Feature>::empty(),
    }
}

/// The feature passed for slashed zeros.
#[verifier::opaque]
pub open spec fn spec_zero_tags(styles: Styles) -> Seq<Feature> {
    if styles.slashed_zero {
        seq![Feature { tag: spec_tag(122, 101, 114, 111), value: 1 }]
    } else {
        Seq::<Feature>::empty()
    }
}

/// The feature passed for fraction forms.
#[verifier::opaque]
pub open spec fn spec_frac_tags(styles: Styles) -> Seq<Feature> {
    if styles.fractions {
        seq![Feature { tag: spec_tag(102, 114, 97, 99), value: 1 }]
    } else {
        Seq::<Feature>::empty()
    }
}

/// The OpenType features the styles ask for. Features the shaper enables by
/// default are passed only to disable them; features off by default are
/// passed only to enable them; the user's extra features come last.
pub open spec fn spec_tags(styles: Styles) -> Seq<Feature> {
    spec_kern_tags(styles) + spec_smcp_tags(styles) + spec_salt_tags(styles) + spec_ss_tags(
        styles,
    ) + spec_liga_tags(styles) + spec_dlig_tags(styles) + spec_hlig_tags(styles)
        + spec_numtype_tags(styles) + spec_numwidth_tags(styles) + spec_zero_tags(styles)
        + spec_frac_tags(styles) + styles.features@
}

/// Collect the OpenType features to hand to the shaper.
#[verifier::rlimit(100)]
#[verifier::spinoff_prover]
pub fn tags(styles: &Styles) -> (r: Vec<Feature>)
    requires
        styles.wf(),
    ensures
        r@ == spec_tags(*styles),
{
    let ghost s = *styles;
    let mut r: Vec<Feature> = Vec::new();

    if !styles.kerning {
        r.push(Feature { tag: tag(107, 101, 114, 110), value: 0 });
    }
    let ghost p1 = spec_kern_tags(s);
    proof {
        reveal(spec_kern_tags);
        assert(r@ =~= p1);
    }
    if styles.smallcaps {
        r.push(Feature { tag: tag(115, 109, 99, 112), value: 1 });
    }
    let ghost p2 = p1 + spec_smcp_tags(s);
    proof {
        reveal(spec_smcp_tags);
        assert(r@ =~= p2);
    }
    if styles.alternates {
        r.push(Feature { tag: tag(115, 97, 108, 116), value: 1 });
    }
    let ghost p3 = p2 + spec_salt_tags(s);
    proof {
        reveal(spec_salt_tags);
        assert(r@ =~= p3);
    }
    match styles.stylistic_set {
        Some(n) => {
            r.push(Feature { tag: tag(115, 115, 48 + n / 10, 48 + n % 10), value: 1 });
        },
        None => {},
    }
    let ghost p4 = p3 + spec_ss_tags(s);
    proof {
        reveal(spec_ss_tags);
        assert(r@ =~= p4);
    }
    if !styles.ligatures {
        r.push(Feature { tag: tag(108, 105, 103, 97), value: 0 });
        r.push(Feature { tag: tag(99, 108, 105, 103), value: 0 });
    }
    let ghost p5 = p4 + spec_liga_tags(s);
    proof {
        reveal(spec_liga_tags);
        assert(r@ =~= p5);
    }
    if styles.discretionary_ligatures {
        r.push(Feature { tag: tag(100, 108, 105, 103), value: 1 });
    }
    let ghost p6 = p5 + spec_dlig_tags(s);
    proof {
        reveal(spec_dlig_tags);
        assert(r@ =~= p6);
    }
    if styles.historical_ligatures {
        r.push(Feature { tag: tag(104, 105, 108, 103), value: 1 });
    }
    let ghost p7 = p6 + spec_hlig_tags(s);
    proof {
        reveal(spec_hlig_tags);
        assert(r@ =~= p7);
    }
    match styles.number_type {
        Some(NumberType::Lining) => {
            r.push(Feature { tag: tag(108, 110, 117, 109), value: 1 });
        },
        Some(NumberType::OldStyle) => {
            r.push(Feature { tag: tag(111, 110, 117, 109), value: 1 });
        },
        None => {},
    }
    let ghost p8 = p7 + spec_numtype_tags(s);
    proof {
        reveal(spec_numtype_tags);
        assert(r@ =~= p8);
    }
    match styles.number_width {
        Some(NumberWidth::Proportional) => {
            r.push(Feature { tag: tag(112, 110, 117, 109), value: 1 });
        },
        Some(NumberWidth::Tabular) => {
            r.push(Feature { tag: tag(116, 110, 117, 109), value: 1 });
        },
        None => {},
    }
    let ghost p9 = p8 + spec_numwidth_tags(s);
    proof {
        reveal(spec_numwidth_tags);
        assert(r@ =~= p9);
    }
    if styles.slashed_zero {
        r.push(Feature { tag: tag(122, 101, 114, 111), value: 1 });
    }
    let ghost p10 = p9 + spec_zero_tags(s);
    proof {
        reveal(spec_zero_tags);
        assert(r@ =~= p10);
    }
    if styles.fractions {
        r.push(Feature { tag: tag(102, 114, 97, 99), value: 1 });
    }
    let ghost p11 = p10 + spec_frac_tags(s);
    proof {
        reveal(spec_frac_tags);
        assert(r@ =~= p11);
    }

    push_features(&mut r, &styles.features);
    proof {
        assert(r@ =~= spec_tags(*styles));
    }
    r
}

/// Append the user's extra features to the collected feature list.
fn push_features(r: &mut Vec<Feature>, features: &Vec<Feature>)
    ensures
        final(r)@ == old(r)@ + features@,
{
    let ghost head = r@;
    let mut i: usize = 0;
    while i < features.len()
        invariant
            i <= features.len(),
            r@ == head + features@.subrange(0, i as int),
        decreases features.len() - i,
    {
        r.push(features[i]);
        proof {
            assert(head + features@.subrange(0, i + 1int) =~= (head + features@.subrange(
                0,
                i as int,
            )).push(features@[i as int]));
        }
        i += 1;
    }
    proof {
        assert(features@.subrange(0, features@.len() as int) =~= features@);
    }
}

/// The full language tag handed to the shaper: the language code, and the
/// region code behind a dash when one is set.
pub open spec fn spec_language(styles: Styles) -> Seq<char> {
    match styles.region {
        Some(region) => styles.lang@ + seq!['-'] + region@,
        None => styles.lang@,
    }
}

/// Combine the language and region of the styles into one language tag.
pub fn language(styles: &Styles) -> (r: Vec<char>)
    ensures
        r@ == spec_language(*styles),
{
    let mut r: Vec<char> = Vec::new();
    let mut i: usize = 0;
    while i < styles.lang.len()
        invariant
            i <= styles.lang.len(),
            r@ == styles.lang@.subrange(0, i as int),
        decreases styles.lang.len() - i,
    {
        r.push(styles.lang[i]);
        proof {
            assert(styles.lang@.subrange(0, i + 1int) =~= styles.lang@.subrange(0, i as int).push(
                styles.lang@[i as int],
            ));
        }
        i += 1;
    }
    proof {
        assert(styles.lang@.subrange(0, styles.lang@.len() as int) =~= styles.lang@);
    }
    match &styles.region {
        Some(region) => {
            r.push('-');
            let ghost head = r@;
            let mut j: usize = 0;
            while j < region.len()
                invariant
                    j <= region.len(),
                    r@ == head + region@.subrange(0, j as int),
                decreases region.len() - j,
            {
                r.push(region[j]);
                proof {
                    assert(head + region@.subrange(0, j + 1int) =~= (head + region@.subrange(
                        0,
                        j as int,
                    )).push(region@[j as int]));
                }
                j += 1;
            }
            proof {
                assert(region@.subrange(0, region@.len() as int) =~= region@);
                assert(r@ =~= spec_language(*styles));
            }
        },
        None => {},
    }
    r
}


/// Whether two style records carry the same attributes: every scalar field
/// is equal and every list holds the same values.
pub open spec fn styles_eqv(a: Styles, b: Styles) -> bool {
    &&& a.font_list@.map_values(|f: FamilyName| f.name@) == b.font_list@.map_values(
        |f: FamilyName| f.name@,
    )
    &&& a.fallback == b.fallback
    &&& a.style == b.style
    &&& a.weight == b.weight
    &&& a.stretch == b.stretch
    &&& a.delta == b.delta
    &&& a.emph == b.emph
    &&& a.size == b.size
    &&& a.tracking == b.tracking
    &&& a.spacing == b.spacing
    &&& a.lang@ == b.lang@
    &&& match (a.region, b.region) {
        (Some(x), Some(y)) => x@ == y@,
        (None, None) => true,
        _ => false,
    }
    &&& a.top_edge == b.top_edge
    &&& a.bottom_edge == b.bottom_edge
    &&& a.baseline_shift == b.baseline_shift
    &&& a.fill == b.fill
    &&& a.kerning == b.kerning
    &&& a.smallcaps == b.smallcaps
    &&& a.alternates == b.alternates
    &&& a.stylistic_set == b.stylistic_set
    &&& a.ligatures == b.ligatures
    &&& a.discretionary_ligatures == b.discretionary_ligatures
    &&& a.historical_ligatures == b.historical_ligatures
    &&& a.number_type == b.number_type
    &&& a.number_width == b.number_width
    &&& a.slashed_zero == b.slashed_zero
    &&& a.fractions == b.fractions
    &&& a.features@ == b.features@
}

/// A copy of a character list with the same characters.
pub(crate) fn clone_chars(text: &Vec<char>) -> (r: Vec<char>)
    ensures
        r@ == text@,
{
    let mut r: Vec<char> = Vec::new();
    let mut i: usize = 0;
    while i < text.len()
        invariant
            i <= text@.len(),
            r@ == text@.subrange(0, i as int),
        decreases text@.len() - i,
    {
        r.push(text[i]);
        proof {
            assert(text@.subrange(0, i + 1int) =~= text@.subrange(0, i as int).push(
                text@[i as int],
            ));
        }
        i += 1;
    }
    proof {
        assert(text@.subrange(0, text@.len() as int) =~= text@);
    }
    r
}

impl Styles {
    /// A copy of the styles with the same attributes.
    pub fn duplicate(&self) -> (r: Styles)
        ensures
            styles_eqv(r, *self),
            r.wf() == self.wf(),
    {
        let mut font_list: Vec<FamilyName> = Vec::new();
        let mut i: usize = 0;
        while i < self.font_list.len()
            invariant
                i <= self.font_list@.len(),
                font_list@.len() == i,
                forall|k: int|
                    0 <= k < i ==> (#[trigger] font_list@[k]).name@ == self.font_list@[k].name@,
            decreases self.font_list@.len() - i,
        {
            font_list.push(FamilyName { name: clone_string(&self.font_list[i].name) });
            i += 1;
        }
        proof {
            assert(font_list@.map_values(|f: FamilyName| f.name@) =~= self.font_list@.map_values(
                |f: FamilyName| f.name@,
            ));
        }

        let mut features: Vec<Feature> = Vec::new();
        let mut j: usize = 0;
        while j < self.features.len()
            invariant
                j <= self.features@.len(),
                features@ == self.features@.subrange(0, j as int),
            decreases self.features@.len() - j,
        {
            features.push(self.features[j]);
            proof {
                assert(self.features@.subrange(0, j + 1int) =~= self.features@.subrange(
                    0,
                    j as int,
                ).push(self.features@[j as int]));
            }
            j += 1;
        }
        proof {
            assert(self.features@.subrange(0, self.features@.len() as int) =~= self.features@);
        }

        let region: Option<Vec<char>> = match &self.region {
            Some(re) => Some(clone_chars(re)),
            None => None,
        };

        Styles {
            font_list,
            fallback: self.fallback,
            style: self.style,
            weight: self.weight,
            stretch: self.stretch,
            delta: self.delta,
            emph: self.emph,
            size: self.size,
            tracking: self.tracking,
            spacing: self.spacing,
            lang: clone_chars(&self.lang),
            region,
            top_edge: self.top_edge,
            bottom_edge: self.bottom_edge,
            baseline_shift: self.baseline_shift,
            fill: self.fill,
            kerning: self.kerning,
            smallcaps: self.smallcaps,
            alternates: self.alternates,
            stylistic_set: self.stylistic_set,
            ligatures: self.ligatures,
            discretionary_ligatures: self.discretionary_ligatures,
            historical_ligatures: self.historical_ligatures,
            number_type: self.number_type,
            number_width: self.number_width,
            slashed_zero: self.slashed_zero,
            fractions: self.fractions,
            features,
        }
    }
}

} // verus!
