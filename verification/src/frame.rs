//! The frame builder: groups the shaped glyphs by font and vertical offset,
//! applies the justification ratio and extra justification, and emits
//! positioned text items.

use vstd::prelude::*;
use crate::geom::{tdiv, Abs, Em, Relative, EM_METRIC_MAX, SIZE_MAX};
use crate::font::Font;
use crate::glyph::{spec_adjustability, spec_is_justifiable, ShapedGlyph, Span};
use crate::styles::{families, Styles};
use crate::text::ShapedText;
use crate::shape::ShapingHost;

verus! {

/// A glyph of a finished text item: advances already justified, the cluster
/// range relative to the item's text.
#[derive(Clone, Copy, Debug, PartialEq, Eq)]
pub struct OutGlyph {
    /// The glyph's index in the item's font.
    pub id: u16,
    /// The advance width, justification included.
    pub x_advance: Em,
    /// The horizontal offset, left justification included.
    pub x_offset: Em,
    /// The cluster range relative to the item's text, clamped to 16 bits.
    pub range: (u16, u16),
    /// The source location of the glyph.
    pub span: Span,
}

/// A run of glyphs from one font at one vertical offset.
pub struct TextItem {
    /// The font all the item's glyphs come from.
    pub font: Font,
    /// The font size.
    pub size: Abs,
    /// The language tag of the text.
    pub lang: Vec<char>,
    /// The opaque fill paint.
    pub fill: u64,
    /// The backing text of the item.
    pub text: Vec<char>,
    /// The item's glyphs.
    pub glyphs: Vec<OutGlyph>,
}

/// A positioned text item within a frame.
pub struct Placed {
    /// The horizontal position of the item.
    pub x: Abs,
    /// The vertical position of the item's baseline.
    pub y: Abs,
    /// The item.
    pub item: TextItem,
}

/// A finished frame: a box of a measured size holding positioned items.
pub struct Frame {
    /// The width of the frame.
    pub size_x: Abs,
    /// The height of the frame.
    pub size_y: Abs,
    /// The baseline position from the frame's top.
    pub baseline: Abs,
    /// The positioned text items.
    pub items: Vec<Placed>,
}

/// The line's extent above the baseline: the largest resolved top edge over
/// the glyphs' fonts, at least zero.
pub open spec fn spec_top(gs: Seq<ShapedGlyph>, styles: Styles) -> int
    decreases gs.len(),
{
    if gs.len() == 0 {
        0
    } else {
        let t = styles.top_edge.spec_resolve(styles.size, gs.last().font.metrics);
        let rest = spec_top(gs.drop_last(), styles);
        if t >= rest {
            t
        } else {
            rest
        }
    }
}

/// The line's extent below the baseline: the largest negated resolved
/// bottom edge over the glyphs' fonts, at least zero.
pub open spec fn spec_bottom(gs: Seq<ShapedGlyph>, styles: Styles) -> int
    decreases gs.len(),
{
    if gs.len() == 0 {
        0
    } else {
        let b = -styles.bottom_edge.spec_resolve(styles.size, gs.last().font.metrics);
        let rest = spec_bottom(gs.drop_last(), styles);
        if b >= rest {
            b
        } else {
            rest
        }
    }
}

/// The justification amounts of one glyph, in em units: the ratio picks and
/// scales the shrink capacity when negative and the stretch capacity
/// otherwise, and a justifiable glyph takes the extra justification on its
/// right.
pub open spec fn spec_justify_one(g: ShapedGlyph, ratio: Relative, extra_em: Em) -> (int, int) {
    let adj = spec_adjustability(g.c, g.x_advance);
    let pick = if ratio.permille < 0 {
        adj.shrinkability
    } else {
        adj.stretchability
    };
    let jl = tdiv(pick.0.units as int * ratio.permille as int, 1000);
    let jr = tdiv(pick.1.units as int * ratio.permille as int, 1000) + if spec_is_justifiable(
        g.c,
        g.x_advance,
    ) {
        extra_em.units as int
    } else {
        0
    };
    (jl, jr)
}

/// The total width the justification of all glyphs adds, resolved at the
/// size.
pub open spec fn spec_justify_total(
    gs: Seq<ShapedGlyph>,
    ratio: Relative,
    extra_em: Em,
    size: Abs,
) -> int
    decreases gs.len(),
{
    if gs.len() == 0 {
        0
    } else {
        let j = spec_justify_one(gs.last(), ratio, extra_em);
        spec_justify_total(gs.drop_last(), ratio, extra_em, size) + tdiv(j.0 * size.raw as int, 1000)
            + tdiv(j.1 * size.raw as int, 1000)
    }
}

/// The justification amounts of every glyph stay within bounds fit for the
/// later arithmetic.
pub proof fn lemma_justify_one_bound(g: ShapedGlyph, ratio: Relative, extra_em: Em)
    requires
        g.wf(),
        -0x4_0000 <= ratio.permille <= 0x4_0000,
        -0x1000_0000 <= extra_em.units <= 0x1000_0000,
    ensures
        -0x80_0000_0000_0000 <= spec_justify_one(g, ratio, extra_em).0 <= 0x80_0000_0000_0000,
        -0x80_0000_0000_0000 <= spec_justify_one(g, ratio, extra_em).1 <= 0x80_0000_0000_0000,
{
    crate::geom::lemma_div_shrinks(g.x_advance.units as int, 2);
    crate::geom::lemma_div_shrinks(g.x_advance.units as int, 3);
    let adj = spec_adjustability(g.c, g.x_advance);
    let pick = if ratio.permille < 0 {
        adj.shrinkability
    } else {
        adj.stretchability
    };
    crate::geom::lemma_mul_bound(
        pick.0.units as int,
        ratio.permille as int,
        EM_METRIC_MAX as int,
        0x4_0000,
    );
    crate::geom::lemma_mul_bound(
        pick.1.units as int,
        ratio.permille as int,
        EM_METRIC_MAX as int,
        0x4_0000,
    );
    crate::geom::lemma_div_shrinks(pick.0.units as int * ratio.permille as int, 1000);
    crate::geom::lemma_div_shrinks(pick.1.units as int * ratio.permille as int, 1000);
}

/// Clamp an offset to 16 bits.
fn sat_u16(x: usize) -> (r: u16)
    ensures
        r == if x > 0xFFFF {
            0xFFFF as int
        } else {
            x as int
        },
{
    if x > 0xFFFF {
        0xFFFF
    } else {
        x as u16
    }
}

impl ShapedText {
    /// Make the text item for the glyph group `[i, j)`, which holds one
    /// font at one vertical offset: unite the group's cluster ranges, apply
    /// the justification to every glyph, and collect the backing text.
    /// Returns the item, its width at the size, and the running
    /// justification total advanced from `i` to `j`.
    #[verifier::loop_isolation(false)]
    #[verifier::rlimit(100)]
    fn group_item(
        &self,
        i: usize,
        j: usize,
        ratio: Relative,
        extra_em: Em,
        jacc: i128,
    ) -> (r: (TextItem, i128, i128))
        requires
            self.wf(),
            self.glyphs@.len() <= GLYPH_COUNT_MAX,
            i < j <= self.glyphs@.len(),
            -0x4_0000 <= ratio.permille <= 0x4_0000,
            -0x1000_0000 <= extra_em.units <= 0x1000_0000,
            forall|m: int|
                i <= m < j ==> (#[trigger] self.glyphs@[m]).font.id == self.glyphs@[
                    i as int].font.id && self.glyphs@[m].y_offset == self.glyphs@[
                    i as int].y_offset,
            jacc == spec_justify_total(
                self.glyphs@.subrange(0, i as int),
                ratio,
                extra_em,
                self.size,
            ),
            -(i as int) * 0x2_0000_0000_0000_0000 <= jacc <= (i as int)
                * 0x2_0000_0000_0000_0000,
        ensures
            item_describes(r.0, self.glyphs@, i as int, j as int, ratio, extra_em, *self),
            r.0.glyphs@.len() == j - i,
            r.1 == spec_out_width(r.0.glyphs@, self.size),
            -((j - i) as int) * 0x4_0000_0000_0000_0000 <= r.1 <= ((j - i) as int)
                * 0x4_0000_0000_0000_0000,
            r.2 == spec_justify_total(
                self.glyphs@.subrange(0, j as int),
                ratio,
                extra_em,
                self.size,
            ),
            -(j as int) * 0x2_0000_0000_0000_0000 <= r.2 <= (j as int)
                * 0x2_0000_0000_0000_0000,
    {
        let ghost gs = self.glyphs@;
        let size = self.size;
        let mut justify_acc = jacc;

        // The union of the group's cluster ranges.
        let mut rstart: usize = self.glyphs[i].range.start;
        let mut rend: usize = self.glyphs[i].range.end;
        let mut k: usize = i + 1;
        proof {
            assert(gs.subrange(i as int, i + 1).len() == 1);
            assert(gs.subrange(i as int, i + 1)[0] == gs[i as int]);
        }
        while k < j
            invariant
                i < k <= j <= self.glyphs@.len(),
                self.base <= rstart <= rend <= self.base + self.text@.len(),
                rstart as int == spec_min_start(gs.subrange(i as int, k as int)),
                rend as int == spec_max_end(gs.subrange(i as int, k as int)),
                forall|m: int|
                    i <= m < k ==> rstart <= (#[trigger] self.glyphs@[m]).range.start
                        && self.glyphs@[m].range.end <= rend,
            decreases j - k,
        {
            proof {
                lemma_minmax_step(gs, i as int, k as int);
            }
            let g = &self.glyphs[k];
            if g.range.start < rstart {
                rstart = g.range.start;
            }
            if g.range.end > rend {
                rend = g.range.end;
            }
            k += 1;
        }
        proof {
            assert(gs.subrange(i as int, j as int) == gs.subrange(i as int, k as int));
        }

        // The group's glyphs, justification applied.
        let mut out: Vec<OutGlyph> = Vec::new();
        let mut item_width: i128 = 0;
        let mut k2: usize = i;
        while k2 < j
            invariant
                i <= k2 <= j <= self.glyphs@.len(),
                self.base <= rstart,
                justify_acc == spec_justify_total(
                    self.glyphs@.subrange(0, k2 as int),
                    ratio,
                    extra_em,
                    size,
                ),
                -(k2 as int) * 0x2_0000_0000_0000_0000 <= justify_acc <= (k2 as int)
                    * 0x2_0000_0000_0000_0000,
                -((k2 - i) as int) * 0x4_0000_0000_0000_0000 <= item_width <= ((k2
                    - i) as int) * 0x4_0000_0000_0000_0000,
                out@.len() == k2 - i,
                forall|m: int|
                    0 <= m < k2 - i ==> #[trigger] out@[m] == spec_out_glyph(
                        gs[i + m],
                        ratio,
                        extra_em,
                        rstart as int,
                    ),
                item_width == spec_out_width(out@, size),
                forall|m: int|
                    i <= m < j ==> rstart <= (#[trigger] self.glyphs@[m]).range.start
                        && self.glyphs@[m].range.end <= rend,
            decreases j - k2,
        {
            let g = self.glyphs[k2];
            proof {
                lemma_justify_one_bound(g, ratio, extra_em);
                lemma_justify_step(self.glyphs@, ratio, extra_em, size, k2 as int);
                crate::geom::lemma_mul_bound(
                    spec_justify_one(g, ratio, extra_em).0,
                    size.raw as int,
                    0x80_0000_0000_0000,
                    SIZE_MAX as int,
                );
                crate::geom::lemma_mul_bound(
                    spec_justify_one(g, ratio, extra_em).1,
                    size.raw as int,
                    0x80_0000_0000_0000,
                    SIZE_MAX as int,
                );
                crate::geom::lemma_div_shrinks(
                    spec_justify_one(g, ratio, extra_em).0 * size.raw as int,
                    1000,
                );
                crate::geom::lemma_div_shrinks(
                    spec_justify_one(g, ratio, extra_em).1 * size.raw as int,
                    1000,
                );
            }
            let adj = if ratio.permille < 0 {
                g.shrinkability()
            } else {
                g.stretchability()
            };
            let jl: i64 = ((adj.0.units as i128 * ratio.permille as i128) / 1000) as i64;
            let mut jr: i64 = ((adj.1.units as i128 * ratio.permille as i128) / 1000) as i64;
            if g.is_justifiable() {
                jr = jr + extra_em.units;
            }
            proof {
                assert(jl as int == spec_justify_one(g, ratio, extra_em).0);
                assert(jr as int == spec_justify_one(g, ratio, extra_em).1);
            }
            justify_acc = justify_acc + (jl as i128 * size.raw) / 1000 + (jr as i128
                * size.raw) / 1000;

            let new_adv = Em::new(g.x_advance.units + jl + jr);
            let new_off = Em::new(g.x_offset.units + jl);
            proof {
                crate::geom::lemma_mul_bound(
                    new_adv.units as int,
                    size.raw as int,
                    0x200_0000_0000_0000,
                    SIZE_MAX as int,
                );
                crate::geom::lemma_div_shrinks(new_adv.units as int * size.raw as int, 1000);
            }
            item_width = item_width + (new_adv.units as i128 * size.raw) / 1000;
            let og = OutGlyph {
                id: g.glyph_id,
                x_advance: new_adv,
                x_offset: new_off,
                range: (sat_u16(g.range.start - rstart), sat_u16(g.range.end - rstart)),
                span: g.span,
            };
            proof {
                reveal(spec_out_glyph);
                assert(og == spec_out_glyph(gs[k2 as int], ratio, extra_em, rstart as int));
            }
            let ghost pre = out@;
            out.push(og);
            proof {
                assert(out@[(k2 - i) as int] == og);
                lemma_out_width_step(out@, size, (k2 - i) as int);
                assert(out@.subrange(0, k2 - i + 1int) =~= out@);
                assert(out@.subrange(0, (k2 - i) as int) =~= pre);
                assert(spec_out_width(out@, size) == spec_out_width(pre, size) + tdiv(
                    og.x_advance.units as int * size.raw as int,
                    1000,
                ));
            }
            k2 += 1;
        }

        let item = TextItem {
            font: self.glyphs[i].font,
            size,
            lang: crate::styles::clone_chars(&self.styles.lang),
            fill: self.styles.fill,
            text: crate::text::copy_chars(&self.text, rstart - self.base, rend - self.base),
            glyphs: out,
        };
        proof {
            reveal(item_describes);
            assert(item_describes(item, gs, i as int, j as int, ratio, extra_em, *self));
        }
        (item, item_width, justify_acc)
    }
}

impl ShapedText {
    /// Measure the extents of this text above and below the baseline: the
    /// styles' top and bottom edges resolved against the fonts of the
    /// glyphs. With no glyphs, the first available font of the family chain
    /// answers instead.
    #[verifier::loop_isolation(false)]
    pub fn measure<H: ShapingHost>(&self, host: &H) -> (r: (Abs, Abs))
        requires
            self.wf(),
        ensures
            self.glyphs@.len() > 0 ==> r.0.raw == spec_top(self.glyphs@, self.styles)
                && r.1.raw == spec_bottom(self.glyphs@, self.styles),
            0 <= r.0.raw <= 0x1_0000_0000_0000_0000,
            0 <= r.1.raw <= 0x1_0000_0000_0000_0000,
    {
        let mut top = Abs::zero();
        let mut bottom = Abs::zero();

        if self.glyphs.len() == 0 {
            // Use the vertical metrics of the first available font.
            let fams = families(&self.styles);
            let mut i: usize = 0;
            while i < fams.len()
                invariant
                    i <= fams@.len(),
                    0 <= top.raw <= 0x1_0000_0000_0000_0000,
                    0 <= bottom.raw <= 0x1_0000_0000_0000_0000,
                decreases fams@.len() - i,
            {
                match host.select_font(&fams[i], self.variant) {
                    Some(font) => {
                        proof {
                            lemma_resolve_bound(self.styles, font);
                        }
                        let t = self.styles.top_edge.resolve(self.size, font.metrics);
                        let b = self.styles.bottom_edge.resolve(self.size, font.metrics);
                        top = top.max(t);
                        bottom = bottom.max(Abs { raw: -b.raw });
                        return (top, bottom);
                    },
                    None => {},
                }
                i += 1;
            }
            return (top, bottom);
        }

        proof {
            assert(self.glyphs@.subrange(0, 0) =~= Seq::<ShapedGlyph>::empty());
        }
        let mut i: usize = 0;
        while i < self.glyphs.len()
            invariant
                i <= self.glyphs@.len(),
                top.raw == spec_top(self.glyphs@.subrange(0, i as int), self.styles),
                bottom.raw == spec_bottom(self.glyphs@.subrange(0, i as int), self.styles),
                0 <= top.raw <= 0x1_0000_0000_0000_0000,
                0 <= bottom.raw <= 0x1_0000_0000_0000_0000,
            decreases self.glyphs@.len() - i,
        {
            let font = self.glyphs[i].font;
            proof {
                lemma_resolve_bound(self.styles, font);
                assert(self.glyphs@.subrange(0, i + 1int).drop_last() =~= self.glyphs@.subrange(
                    0,
                    i as int,
                ));
            }
            let t = self.styles.top_edge.resolve(self.size, font.metrics);
            let b = self.styles.bottom_edge.resolve(self.size, font.metrics);
            top = top.max(t);
            bottom = bottom.max(Abs { raw: -b.raw });
            i += 1;
        }
        proof {
            assert(self.glyphs@.subrange(0, self.glyphs@.len() as int) =~= self.glyphs@);
        }
        (top, bottom)
    }
}

/// A resolved edge stays within the product of the largest metric and the
/// largest size.
proof fn lemma_resolve_bound(styles: Styles, font: Font)
    requires
        styles.wf(),
        font.wf(),
    ensures
        -0x1_0000_0000_0000_0000 <= styles.top_edge.spec_resolve(styles.size, font.metrics)
            <= 0x1_0000_0000_0000_0000,
        -0x1_0000_0000_0000_0000 <= styles.bottom_edge.spec_resolve(styles.size, font.metrics)
            <= 0x1_0000_0000_0000_0000,
{
    crate::geom::lemma_mul_bound(
        font.metrics.ascender.units as int,
        styles.size.raw as int,
        EM_METRIC_MAX as int,
        SIZE_MAX as int,
    );
    crate::geom::lemma_mul_bound(
        font.metrics.cap_height.units as int,
        styles.size.raw as int,
        EM_METRIC_MAX as int,
        SIZE_MAX as int,
    );
    crate::geom::lemma_mul_bound(
        font.metrics.x_height.units as int,
        styles.size.raw as int,
        EM_METRIC_MAX as int,
        SIZE_MAX as int,
    );
    crate::geom::lemma_mul_bound(
        font.metrics.descender.units as int,
        styles.size.raw as int,
        EM_METRIC_MAX as int,
        SIZE_MAX as int,
    );
    crate::geom::lemma_div_shrinks(
        font.metrics.ascender.units as int * styles.size.raw as int,
        1000,
    );
    crate::geom::lemma_div_shrinks(
        font.metrics.cap_height.units as int * styles.size.raw as int,
        1000,
    );
    crate::geom::lemma_div_shrinks(
        font.metrics.x_height.units as int * styles.size.raw as int,
        1000,
    );
    crate::geom::lemma_div_shrinks(
        font.metrics.descender.units as int * styles.size.raw as int,
        1000,
    );
}



/// The smallest cluster start among the glyphs; the glyphs' shared range
/// begins here.
pub open spec fn spec_min_start(gs: Seq<ShapedGlyph>) -> int
    decreases gs.len(),
{
    if gs.len() == 0 {
        0
    } else if gs.len() == 1 {
        gs[0].range.start as int
    } else {
        let rest = spec_min_start(gs.drop_last());
        let l = gs.last().range.start as int;
        if l < rest {
            l
        } else {
            rest
        }
    }
}

/// The largest cluster end among the glyphs.
pub open spec fn spec_max_end(gs: Seq<ShapedGlyph>) -> int
    decreases gs.len(),
{
    if gs.len() == 0 {
        0
    } else if gs.len() == 1 {
        gs[0].range.end as int
    } else {
        let rest = spec_max_end(gs.drop_last());
        let l = gs.last().range.end as int;
        if l > rest {
            l
        } else {
            rest
        }
    }
}

/// A value clamped to 16 bits.
pub open spec fn spec_sat16(x: int) -> int {
    if x > 0xFFFF {
        0xFFFF
    } else {
        x
    }
}

/// The finished glyph for one input glyph: identifier kept, both
/// justification amounts added to the advance, the left amount added to the
/// offset, and the cluster range rebased to the group's start.
#[verifier::opaque]
pub open spec fn spec_out_glyph(g: ShapedGlyph, ratio: Relative, extra_em: Em, rstart: int) -> OutGlyph {
    let j = spec_justify_one(g, ratio, extra_em);
    OutGlyph {
        id: g.glyph_id,
        x_advance: Em { units: (g.x_advance.units + j.0 + j.1) as i64 },
        x_offset: Em { units: (g.x_offset.units + j.0) as i64 },
        range: (
            spec_sat16(g.range.start - rstart) as u16,
            spec_sat16(g.range.end - rstart) as u16,
        ),
        span: g.span,
    }
}

/// The width of a finished item's glyphs at the given size.
pub open spec fn spec_out_width(ogs: Seq<OutGlyph>, size: Abs) -> int
    decreases ogs.len(),
{
    if ogs.len() == 0 {
        0
    } else {
        spec_out_width(ogs.drop_last(), size) + tdiv(
            ogs.last().x_advance.units as int * size.raw as int,
            1000,
        )
    }
}

/// Whether one text item renders exactly the glyph block `gs[lo..hi]` of a
/// shaped text: one font and one vertical offset throughout, the shaped
/// text's size, fill and language, the backing text of the block's united
/// cluster range, and one finished glyph per input glyph.
#[verifier::opaque]
pub open spec fn item_describes(
    it: TextItem,
    gs: Seq<ShapedGlyph>,
    lo: int,
    hi: int,
    ratio: Relative,
    extra_em: Em,
    t: ShapedText,
) -> bool {
    let block = gs.subrange(lo, hi);
    let rstart = spec_min_start(block);
    let rend = spec_max_end(block);
    &&& it.font == gs[lo].font
    &&& forall|k: int|
        lo <= k < hi ==> (#[trigger] gs[k]).font.id == gs[lo].font.id && gs[k].y_offset
            == gs[lo].y_offset
    &&& it.size == t.size
    &&& it.fill == t.styles.fill
    &&& it.lang@ == t.styles.lang@
    &&& it.text@ == t.text@.subrange(rstart - t.base, rend - t.base)
    &&& it.glyphs@.len() == hi - lo
    &&& forall|k: int|
        0 <= k < hi - lo ==> #[trigger] it.glyphs@[k] == spec_out_glyph(
            gs[lo + k],
            ratio,
            extra_em,
            rstart,
        )
}

/// Whether the items so far cut the glyph prefix `gs[..upto]` into maximal
/// consecutive groups of one font at one vertical offset, in order, every
/// item describing its group, positioned at the running width, on the
/// baseline shifted by the styles and the group's vertical offset.
#[verifier::opaque]
pub open spec fn items_prefix_ok(
    items: Seq<Placed>,
    cuts: Seq<int>,
    gs: Seq<ShapedGlyph>,
    upto: int,
    ratio: Relative,
    extra_em: Em,
    t: ShapedText,
    top: int,
) -> bool {
    &&& cuts.len() == items.len() + 1
    &&& cuts[0] == 0
    &&& cuts[items.len() as int] == upto
    &&& forall|m: int| 0 <= m < cuts.len() ==> 0 <= #[trigger] cuts[m] <= upto
    &&& forall|m: int| 0 <= m < items.len() ==> #[trigger] cuts[m] < cuts[m + 1] <= upto
    &&& forall|m: int|
        0 <= m < items.len() ==> item_describes(
            (#[trigger] items[m]).item,
            gs,
            cuts[m],
            cuts[m + 1],
            ratio,
            extra_em,
            t,
        )
    &&& forall|m: int|
        0 <= m && m + 1 < items.len() ==> !((#[trigger] gs[cuts[m + 1]]).font.id
            == gs[cuts[m]].font.id && gs[cuts[m + 1]].y_offset == gs[cuts[m]].y_offset)
    &&& (items.len() > 0 ==> items[0].x.raw == 0)
    &&& forall|m: int|
        1 <= m < items.len() ==> (#[trigger] items[m]).x.raw == items[m - 1].x.raw
            + spec_out_width(items[m - 1].item.glyphs@, t.size)
    &&& forall|m: int|
        0 <= m < items.len() ==> (#[trigger] items[m]).y.raw == top
            + t.styles.baseline_shift.raw - tdiv(
            gs[cuts[m]].y_offset.units as int * t.size.raw as int,
            1000,
        )
}

/// Whether the frame's items render the whole glyph sequence this way.
pub open spec fn frame_items_describe(
    items: Seq<Placed>,
    gs: Seq<ShapedGlyph>,
    cuts: Seq<int>,
    ratio: Relative,
    extra_em: Em,
    t: ShapedText,
    top: int,
) -> bool {
    items_prefix_ok(items, cuts, gs, gs.len() as int, ratio, extra_em, t, top)
}

/// Appending one more positioned item, describing the next maximal group
/// and placed at the running width, keeps the items description.
proof fn lemma_prefix_ok_push(
    items: Seq<Placed>,
    cuts: Seq<int>,
    gs: Seq<ShapedGlyph>,
    upto: int,
    j: int,
    p: Placed,
    ratio: Relative,
    extra_em: Em,
    t: ShapedText,
    top: int,
)
    requires
        items_prefix_ok(items, cuts, gs, upto, ratio, extra_em, t, top),
        0 <= upto < j <= gs.len(),
        item_describes(p.item, gs, upto, j, ratio, extra_em, t),
        items.len() > 0 ==> !(gs[upto].font.id == gs[cuts[items.len() - 1]].font.id && gs[
            upto].y_offset == gs[cuts[items.len() - 1]].y_offset),
        items.len() == 0 ==> p.x.raw == 0,
        items.len() > 0 ==> p.x.raw == items[items.len() - 1].x.raw + spec_out_width(
            items[items.len() - 1].item.glyphs@,
            t.size,
        ),
        p.y.raw == top + t.styles.baseline_shift.raw - tdiv(
            gs[upto].y_offset.units as int * t.size.raw as int,
            1000,
        ),
    ensures
        items_prefix_ok(items.push(p), cuts.push(j), gs, j, ratio, extra_em, t, top),
{
    reveal(items_prefix_ok);
    let ni = items.push(p);
    let nc = cuts.push(j);
    assert(nc[ni.len() as int] == j);
    assert forall|m: int| 0 <= m < nc.len() implies 0 <= #[trigger] nc[m] <= j by {
        if m < cuts.len() {
            assert(nc[m] == cuts[m]);
            assert(0 <= cuts[m] <= upto);
        }
    }
    assert forall|m: int| 0 <= m < ni.len() implies #[trigger] nc[m] < nc[m + 1] <= j by {
        if m < items.len() {
            assert(cuts[m] < cuts[m + 1] <= upto);
        } else {
            assert(nc[m] == cuts[items.len() as int]);
        }
    }
    assert forall|m: int| 0 <= m < ni.len() implies item_describes(
        (#[trigger] ni[m]).item,
        gs,
        nc[m],
        nc[m + 1],
        ratio,
        extra_em,
        t,
    ) by {
        if m < items.len() {
            assert(ni[m] == items[m]);
            assert(nc[m] == cuts[m] && nc[m + 1] == cuts[m + 1]);
        } else {
            assert(ni[m] == p && nc[m] == upto && nc[m + 1] == j);
        }
    }
    assert forall|m: int| 0 <= m && m + 1 < ni.len() implies !((#[trigger] gs[nc[m + 1]]).font.id
        == gs[nc[m]].font.id && gs[nc[m + 1]].y_offset == gs[nc[m]].y_offset) by {
        if m + 1 < items.len() {
            assert(nc[m] == cuts[m]);
            assert(nc[m + 1] == cuts[m + 1]);
        } else {
            assert(m == items.len() - 1);
            assert(nc[m] == cuts[m]);
            assert(nc[m + 1] == cuts[items.len() as int]);
            assert(cuts[items.len() as int] == upto);
        }
    }
    assert forall|m: int| 1 <= m < ni.len() implies (#[trigger] ni[m]).x.raw == ni[m - 1].x.raw
        + spec_out_width(ni[m - 1].item.glyphs@, t.size) by {
        if m < items.len() {
            assert(ni[m] == items[m] && ni[m - 1] == items[m - 1]);
        } else {
            assert(ni[m] == p && ni[m - 1] == items[m - 1]);
        }
    }
    assert forall|m: int| 0 <= m < ni.len() implies (#[trigger] ni[m]).y.raw == top
        + t.styles.baseline_shift.raw - tdiv(
        gs[nc[m]].y_offset.units as int * t.size.raw as int,
        1000,
    ) by {
        if m < items.len() {
            assert(ni[m] == items[m] && nc[m] == cuts[m]);
        } else {
            assert(ni[m] == p && nc[m] == upto);
        }
    }
}

/// Extending a block by one glyph updates its united range by that glyph's.
proof fn lemma_minmax_step(gs: Seq<ShapedGlyph>, lo: int, k: int)
    requires
        0 <= lo <= k < gs.len(),
    ensures
        spec_min_start(gs.subrange(lo, k + 1)) == if gs[k].range.start < spec_min_start(
            gs.subrange(lo, k),
        ) || lo == k {
            gs[k].range.start as int
        } else {
            spec_min_start(gs.subrange(lo, k))
        },
        spec_max_end(gs.subrange(lo, k + 1)) == if gs[k].range.end > spec_max_end(
            gs.subrange(lo, k),
        ) || lo == k {
            gs[k].range.end as int
        } else {
            spec_max_end(gs.subrange(lo, k))
        },
{
    assert(gs.subrange(lo, k + 1).drop_last() =~= gs.subrange(lo, k));
    assert(gs.subrange(lo, k + 1).last() == gs[k]);
}

/// Appending one finished glyph grows the item width by its resolved
/// advance.
proof fn lemma_out_width_step(ogs: Seq<OutGlyph>, size: Abs, k: int)
    requires
        0 <= k < ogs.len(),
    ensures
        spec_out_width(ogs.subrange(0, k + 1), size) == spec_out_width(ogs.subrange(0, k), size)
            + tdiv(ogs[k].x_advance.units as int * size.raw as int, 1000),
{
    assert(ogs.subrange(0, k + 1).drop_last() =~= ogs.subrange(0, k));
    assert(ogs.subrange(0, k + 1).last() == ogs[k]);
}

/// How many glyphs a frame's items hold in all.
pub open spec fn spec_items_glyph_total(items: Seq<Placed>) -> int
    decreases items.len(),
{
    if items.len() == 0 {
        0
    } else {
        spec_items_glyph_total(items.drop_last()) + items.last().item.glyphs@.len()
    }
}

/// The most glyphs one run can carry into the frame builder: a bound the
/// width arithmetic needs.
pub const GLYPH_COUNT_MAX: usize = 0x4000_0000;

/// Whether the glyph at `j` continues the group of the given font and
/// vertical offset.
fn same_group(glyphs: &Vec<ShapedGlyph>, j: usize, font_id: u64, y_offset: Em) -> (r: bool)
    ensures
        r == (j < glyphs@.len() && glyphs@[j as int].font.id == font_id && glyphs@[j as int].y_offset
            == y_offset),
{
    if j >= glyphs.len() {
        return false;
    }
    let g = &glyphs[j];
    g.font.id == font_id && g.y_offset == y_offset
}

/// One more glyph adds its two resolved justification amounts to the total.
proof fn lemma_justify_step(gs: Seq<ShapedGlyph>, ratio: Relative, extra_em: Em, size: Abs, i: int)
    requires
        0 <= i < gs.len(),
    ensures
        spec_justify_total(gs.subrange(0, i + 1), ratio, extra_em, size) == spec_justify_total(
            gs.subrange(0, i),
            ratio,
            extra_em,
            size,
        ) + tdiv(spec_justify_one(gs[i], ratio, extra_em).0 * size.raw as int, 1000) + tdiv(
            spec_justify_one(gs[i], ratio, extra_em).1 * size.raw as int,
            1000,
        ),
{
    assert(gs.subrange(0, i + 1).drop_last() =~= gs.subrange(0, i));
    assert(gs.subrange(0, i + 1).last() == gs[i]);
}

impl ShapedText {
    /// Build the shaped text's frame. The justification ratio scales every
    /// glyph's stretch capacity when positive and its shrink capacity when
    /// negative, and every justifiable glyph widens by the extra
    /// justification; the frame's width is the text's width plus everything
    /// justification added. Glyphs group into one positioned item per
    /// consecutive run of one font at one vertical offset.
    #[verifier::loop_isolation(false)]
    #[verifier::rlimit(100)]
    #[verifier::spinoff_prover]
    pub fn build<H: ShapingHost>(
        &self,
        host: &H,
        justification_ratio: Relative,
        extra_justification: Abs,
    ) -> (frame: Frame)
        requires
            self.wf(),
            -0x4_0000 <= justification_ratio.permille <= 0x4_0000,
            -0x4_0000 <= extra_justification.raw <= 0x4_0000,
            self.glyphs@.len() <= GLYPH_COUNT_MAX,
        ensures
            frame.size_x.raw == self.width.raw + spec_justify_total(
                self.glyphs@,
                justification_ratio,
                Em {
                    units: tdiv(
                        extra_justification.raw as int * 1000,
                        self.size.raw as int,
                    ) as i64,
                },
                self.size,
            ),
            self.glyphs@.len() > 0 ==> frame.baseline.raw == spec_top(self.glyphs@, self.styles)
                && frame.size_y.raw == spec_top(self.glyphs@, self.styles) + spec_bottom(
                self.glyphs@,
                self.styles,
            ),
            spec_items_glyph_total(frame.items@) == self.glyphs@.len(),
            justification_ratio.permille == 1000 && extra_justification.raw == 0
                ==> frame.size_x.raw == self.width.raw + crate::text::spec_stretch_total(
                self.glyphs@,
                self.size,
            ),
            exists|cuts: Seq<int>|
                #[trigger] frame_items_describe(
                    frame.items@,
                    self.glyphs@,
                    cuts,
                    justification_ratio,
                    Em {
                        units: tdiv(
                            extra_justification.raw as int * 1000,
                            self.size.raw as int,
                        ) as i64,
                    },
                    *self,
                    spec_top(self.glyphs@, self.styles),
                ),
    {
        let pair = self.measure(host);
        let top = pair.0;
        let bottom = pair.1;
        let extra_em = Em::from_length(extra_justification, self.size);
        let ratio = justification_ratio;
        let size = self.size;

        let mut items: Vec<Placed> = Vec::new();
        let mut justify_acc: i128 = 0;
        let mut offset: i128 = 0;
        let mut i: usize = 0;
        let ghost gs = self.glyphs@;
        let ghost mut cuts: Seq<int> = seq![0int];
        proof {
            assert(self.glyphs@.subrange(0, 0) =~= Seq::<ShapedGlyph>::empty());
            reveal(items_prefix_ok);
            assert(items_prefix_ok(items@, cuts, gs, 0, ratio, extra_em, *self, top.raw as int));
        }
        while i < self.glyphs.len()
            invariant
                i <= self.glyphs@.len(),
                gs == self.glyphs@,
                justify_acc == spec_justify_total(
                    self.glyphs@.subrange(0, i as int),
                    ratio,
                    extra_em,
                    size,
                ),
                -(i as int) * 0x2_0000_0000_0000_0000 <= justify_acc <= (i as int)
                    * 0x2_0000_0000_0000_0000,
                -(i as int) * 0x4_0000_0000_0000_0000 <= offset <= (i as int)
                    * 0x4_0000_0000_0000_0000,
                spec_items_glyph_total(items@) == i,
                items_prefix_ok(items@, cuts, gs, i as int, ratio, extra_em, *self, top.raw as int),
                items@.len() > 0 && (i as int) < gs.len() ==> !(gs[i as int].font.id == gs[cuts[
                    items@.len() - 1]].font.id && gs[i as int].y_offset == gs[cuts[items@.len()
                    - 1]].y_offset),
                items@.len() == 0 ==> offset == 0,
                items@.len() > 0 ==> offset == items@[items@.len() - 1].x.raw + spec_out_width(
                    items@[items@.len() - 1].item.glyphs@,
                    size,
                ),
                cuts.len() == items@.len() + 1,
                cuts[items@.len() as int] == i as int,
            decreases self.glyphs@.len() - i,
        {
            // The group: a maximal run of glyphs of one font at one
            // vertical offset.
            let gfont = self.glyphs[i].font;
            let gyoff = self.glyphs[i].y_offset;
            let mut j: usize = i + 1;
            while same_group(&self.glyphs, j, gfont.id, gyoff)
                invariant
                    i < j <= self.glyphs@.len(),
                    forall|m: int|
                        i <= m < j ==> (#[trigger] gs[m]).font.id == gfont.id && gs[m].y_offset
                            == gyoff,
                decreases self.glyphs@.len() - j,
            {
                j += 1;
            }

            // The group's item: united range, justified glyphs, backing
            // text.
            let triple = self.group_item(i, j, ratio, extra_em, justify_acc);
            let item = triple.0;
            let item_width = triple.1;
            justify_acc = triple.2;

            // The positioned item.
            let ghost old_items = items@;
            proof {
                crate::geom::lemma_mul_bound(
                    gyoff.units as int,
                    size.raw as int,
                    EM_METRIC_MAX as int,
                    SIZE_MAX as int,
                );
            }
            let yshift = gyoff.at(size);
            items.push(
                Placed {
                    x: Abs { raw: offset },
                    y: Abs { raw: top.raw + self.styles.baseline_shift.raw - yshift.raw },
                    item,
                },
            );
            proof {
                assert(items@.drop_last() =~= old_items);
                assert(items@ == old_items.push(items@.last()));
                lemma_prefix_ok_push(
                    old_items,
                    cuts,
                    gs,
                    i as int,
                    j as int,
                    items@.last(),
                    ratio,
                    extra_em,
                    *self,
                    top.raw as int,
                );
                cuts = cuts.push(j as int);
            }
            offset = offset + item_width;
            i = j;
        }
        proof {
            assert(self.glyphs@.subrange(0, self.glyphs@.len() as int) =~= self.glyphs@);
            crate::text::lemma_width_bound(self.glyphs@, size);
            if justification_ratio.permille == 1000 && extra_justification.raw == 0 {
                assert(extra_em.units == 0);
                crate::laws::lemma_full_stretch_justification(self.glyphs@, size);
            }
            if gs.len() == 0 {
                reveal(items_prefix_ok);
                assert(items_prefix_ok(
                    items@,
                    cuts,
                    gs,
                    0,
                    ratio,
                    extra_em,
                    *self,
                    spec_top(gs, self.styles),
                ));
            } else {
                reveal(items_prefix_ok);
                assert(items_prefix_ok(
                    items@,
                    cuts,
                    gs,
                    gs.len() as int,
                    ratio,
                    extra_em,
                    *self,
                    spec_top(gs, self.styles),
                ));
            }
            assert(frame_items_describe(
                items@,
                gs,
                cuts,
                ratio,
                extra_em,
                *self,
                spec_top(gs, self.styles),
            ));
        }
        let frame = Frame {
            size_x: Abs { raw: self.width.raw + justify_acc },
            size_y: Abs { raw: top.raw + bottom.raw },
            baseline: top,
            items,
        };
        proof {
            let ghost ee = Em {
                units: tdiv(extra_justification.raw as int * 1000, self.size.raw as int) as i64,
            };
            assert(extra_em == ee);
            assert(frame_items_describe(
                frame.items@,
                self.glyphs@,
                cuts,
                justification_ratio,
                ee,
                *self,
                spec_top(self.glyphs@, self.styles),
            ));
        }
        frame
    }
}

} // verus!
