//! Properties that tie the engine's operations together, stated and proved
//! once for all inputs.

use vstd::prelude::*;
use crate::geom::{tdiv, Abs, Em, Relative};
use crate::glyph::{spec_is_cjk, spec_is_justifiable, ShapedGlyph};
use crate::shape::{spec_cluster_end, spec_post_one};
use crate::text::{spec_cjk_count, spec_justifiables, spec_stretch_total};
use crate::frame::{spec_justify_one, spec_justify_total};

verus! {

/// Multiplying by a thousand and dividing by a thousand again changes
/// nothing.
proof fn lemma_tdiv_cancel(a: int)
    ensures
        tdiv(a * 1000, 1000) == a,
{
    if a >= 0 {
        vstd::arithmetic::div_mod::lemma_div_by_multiple(a, 1000);
    } else {
        vstd::arithmetic::div_mod::lemma_div_by_multiple(-a, 1000);
        assert(-(a * 1000) == (-a) * 1000) by (nonlinear_arith);
    }
}

/// Every post-processed glyph sequence: each glyph transformed by the
/// spacing override and tracking, with cluster ends read off the ranges.
pub open spec fn spec_post(
    gs: Seq<ShapedGlyph>,
    spacing: Option<(Relative, Em)>,
    tracking: Em,
) -> Seq<ShapedGlyph> {
    Seq::new(gs.len(), |i: int| spec_post_one(gs[i], spacing, tracking, spec_cluster_end(gs, i)))
}

/// Post-processing is idempotent where its steps replace rather than
/// accumulate: with zero tracking and a spacing override that is absent or
/// purely absolute, applying the transform twice equals applying it once.
/// (With nonzero tracking, a proportional spacing override, or a no-break
/// space whose font narrows it, a second application would shift the
/// advances again.)
pub proof fn lemma_post_idempotent(
    gs: Seq<ShapedGlyph>,
    spacing: Option<(Relative, Em)>,
    tracking: Em,
)
    requires
        tracking.units == 0,
        match spacing {
            Some(p) => p.0.permille == 0 && -0x1000_0000 <= p.1.units <= 0x1000_0000,
            None => true,
        },
        forall|i: int| 0 <= i < gs.len() ==> (#[trigger] gs[i]).c != '\u{00A0}',
    ensures
        spec_post(spec_post(gs, spacing, tracking), spacing, tracking) == spec_post(
            gs,
            spacing,
            tracking,
        ),
{
    let once = spec_post(gs, spacing, tracking);
    let twice = spec_post(once, spacing, tracking);
    assert forall|i: int| 0 <= i < gs.len() implies twice[i] == once[i] by {
        assert(once[i].range == gs[i].range);
        assert(forall|j: int| 0 <= j < gs.len() ==> (#[trigger] once[j]).range == gs[j].range);
        assert(spec_cluster_end(once, i) == spec_cluster_end(gs, i));
        match spacing {
            Some(p) => {
                assert(p.0.permille as int * once[i].x_advance.units as int == 0)
                    by (nonlinear_arith)
                    requires
                        p.0.permille == 0,
                ;
                assert(p.0.permille as int * gs[i].x_advance.units as int == 0)
                    by (nonlinear_arith)
                    requires
                        p.0.permille == 0,
                ;
            },
            None => {},
        }
    }
    assert(twice =~= once);
}

/// Justifiable glyphs are never more numerous than all glyphs, and never
/// fewer than the CJK glyphs among them: every CJK glyph is justifiable.
pub proof fn lemma_justifiables_bounds(gs: Seq<ShapedGlyph>)
    ensures
        0 <= spec_justifiables(gs) <= gs.len(),
        spec_cjk_count(gs) <= spec_justifiables(gs),
    decreases gs.len(),
{
    if gs.len() > 0 {
        lemma_justifiables_bounds(gs.drop_last());
        assert(spec_is_cjk(gs.last().c) ==> spec_is_justifiable(
            gs.last().c,
            gs.last().x_advance,
        ));
    }
}

/// Building with a justification ratio of exactly one and no extra
/// justification widens the frame by exactly the text's stretchability:
/// the total justification equals the total stretch capacity.
pub proof fn lemma_full_stretch_justification(gs: Seq<ShapedGlyph>, size: Abs)
    ensures
        spec_justify_total(gs, Relative { permille: 1000 }, Em { units: 0 }, size)
            == spec_stretch_total(gs, size),
    decreases gs.len(),
{
    let ratio = Relative { permille: 1000 };
    let extra = Em { units: 0 };
    if gs.len() > 0 {
        lemma_full_stretch_justification(gs.drop_last(), size);
        let g = gs.last();
        let a = crate::glyph::spec_adjustability(g.c, g.x_advance).stretchability;
        lemma_tdiv_cancel(a.0.units as int);
        lemma_tdiv_cancel(a.1.units as int);
        assert(spec_justify_one(g, ratio, extra).0 == a.0.units as int);
        assert(spec_justify_one(g, ratio, extra).1 == a.1.units as int);
    }
}

} // verus!
