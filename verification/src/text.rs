//! The result of shaping a run of text: glyphs, measurement, reslicing.

use vstd::prelude::*;
use crate::geom::{tdiv, Abs, Dir, Em, EM_METRIC_MAX, SIZE_MAX};
use crate::font::FontVariant;
use crate::glyph::{
    spec_adjustability, spec_is_cjk, spec_is_cjk_left_aligned_punctuation, spec_is_justifiable,
    ShapedGlyph, Span, TextRange,
};
use crate::styles::{families, Styles};
use crate::shape::{shape, ShapingHost};

verus! {

/// Largest magnitude a single glyph's contribution to a width sum can have,
/// in thousandths of a point.
pub const TERM_MAX: i128 = 0x80_0000_0000_0000;

/// Whether every glyph in the sequence is well-formed.
pub open spec fn glyphs_wf(gs: Seq<ShapedGlyph>) -> bool {
    forall|i: int| 0 <= i < gs.len() ==> (#[trigger] gs[i]).wf()
}

/// Whether every glyph's cluster range lies between `base` and `end`.
pub open spec fn glyphs_in(gs: Seq<ShapedGlyph>, base: int, end: int) -> bool {
    forall|i: int|
        0 <= i < gs.len() ==> base <= (#[trigger] gs[i]).range.start && gs[i].range.start
            <= gs[i].range.end <= end
}

/// Whether the glyphs stand in visual order: cluster starts never decrease
/// for a left-to-right run and never increase for a right-to-left run.
pub open spec fn glyphs_ordered(gs: Seq<ShapedGlyph>, ltr: bool) -> bool {
    forall|i: int, j: int|
        0 <= i < j < gs.len() ==> if ltr {
            (#[trigger] gs[i]).range.start <= (#[trigger] gs[j]).range.start
        } else {
            (#[trigger] gs[i]).range.start >= (#[trigger] gs[j]).range.start
        }
}

/// The total width of the glyphs at the given size, in thousandths of a
/// point: every advance is resolved at the size, and the results are summed.
pub open spec fn spec_width(gs: Seq<ShapedGlyph>, size: Abs) -> int
    decreases gs.len(),
{
    if gs.len() == 0 {
        0
    } else {
        spec_width(gs.drop_last(), size) + tdiv(
            gs.last().x_advance.units as int * size.raw as int,
            1000,
        )
    }
}

/// Each glyph contributes at most [`TERM_MAX`] to the width sum.
pub proof fn lemma_width_bound(gs: Seq<ShapedGlyph>, size: Abs)
    requires
        glyphs_wf(gs),
        size.is_size(),
    ensures
        -(gs.len() as int) * TERM_MAX <= spec_width(gs, size) <= (gs.len() as int) * TERM_MAX,
    decreases gs.len(),
{
    if gs.len() > 0 {
        lemma_width_bound(gs.drop_last(), size);
        crate::geom::lemma_mul_bound(
            gs.last().x_advance.units as int,
            size.raw as int,
            EM_METRIC_MAX as int,
            SIZE_MAX as int,
        );
        crate::geom::lemma_div_shrinks(
            gs.last().x_advance.units as int * size.raw as int,
            1000,
        );
    }
}

/// Taking a prefix of one more glyph grows the width sum by that glyph's
/// resolved advance.
pub proof fn lemma_width_step(gs: Seq<ShapedGlyph>, size: Abs, i: int)
    requires
        0 <= i < gs.len(),
    ensures
        spec_width(gs.subrange(0, i + 1), size) == spec_width(gs.subrange(0, i), size) + tdiv(
            gs[i].x_advance.units as int * size.raw as int,
            1000,
        ),
{
    assert(gs.subrange(0, i + 1).drop_last() =~= gs.subrange(0, i));
    assert(gs.subrange(0, i + 1).last() == gs[i]);
}

/// The width of a glyph sequence at the given size.
pub fn compute_width(glyphs: &Vec<ShapedGlyph>, size: Abs) -> (r: Abs)
    requires
        glyphs_wf(glyphs@),
        size.is_size(),
    ensures
        r.raw == spec_width(glyphs@, size),
{
    let mut acc: i128 = 0;
    let mut i: usize = 0;
    proof {
        assert(glyphs@.subrange(0, 0) =~= Seq::<ShapedGlyph>::empty());
    }
    while i < glyphs.len()
        invariant
            i <= glyphs.len(),
            glyphs_wf(glyphs@),
            size.is_size(),
            acc == spec_width(glyphs@.subrange(0, i as int), size),
            -(i as int) * TERM_MAX <= acc <= (i as int) * TERM_MAX,
        decreases glyphs.len() - i,
    {
        proof {
            crate::geom::lemma_mul_bound(
                glyphs@[i as int].x_advance.units as int,
                size.raw as int,
                EM_METRIC_MAX as int,
                SIZE_MAX as int,
            );
            crate::geom::lemma_div_shrinks(
                glyphs@[i as int].x_advance.units as int * size.raw as int,
                1000,
            );
            lemma_width_step(glyphs@, size, i as int);
        }
        acc = acc + (glyphs[i].x_advance.units as i128 * size.raw) / 1000;
        i += 1;
    }
    proof {
        assert(glyphs@.subrange(0, glyphs@.len() as int) =~= glyphs@);
    }
    Abs { raw: acc }
}

/// The result of shaping text.
///
/// Holds the shaped glyphs together with the text they came from and the
/// style context, so that substrings can be reshaped quickly and the whole
/// run can be turned into a frame.
pub struct ShapedText {
    /// The offset of the first character of `text` within the paragraph.
    pub base: usize,
    /// The text that was shaped.
    pub text: Vec<char>,
    /// The text direction.
    pub dir: Dir,
    /// The text's style properties.
    pub styles: Styles,
    /// The resolved font variant.
    pub variant: FontVariant,
    /// The font size.
    pub size: Abs,
    /// The width of the text's bounding box.
    pub width: Abs,
    /// The shaped glyphs, in visual order.
    pub glyphs: Vec<ShapedGlyph>,
}

impl ShapedText {
    /// The shaped text's invariant: the styles are usable, the size is the
    /// styles' size, every glyph is well-formed with its cluster range
    /// inside the text, and the cached width is the sum of the resolved
    /// advances.
    pub open spec fn wf(self) -> bool {
        &&& self.styles.wf()
        &&& self.size == self.styles.size
        &&& self.base + self.text@.len() <= usize::MAX
        &&& glyphs_wf(self.glyphs@)
        &&& glyphs_in(self.glyphs@, self.base as int, self.base + self.text@.len())
        &&& self.width.raw == spec_width(self.glyphs@, self.size)
    }
}


/// The total stretchability of the glyphs at the given size: both sides of
/// each glyph's stretch capacity, each resolved at the size, summed.
pub open spec fn spec_stretch_total(gs: Seq<ShapedGlyph>, size: Abs) -> int
    decreases gs.len(),
{
    if gs.len() == 0 {
        0
    } else {
        let a = spec_adjustability(gs.last().c, gs.last().x_advance).stretchability;
        spec_stretch_total(gs.drop_last(), size) + tdiv(a.0.units as int * size.raw as int, 1000)
            + tdiv(a.1.units as int * size.raw as int, 1000)
    }
}

/// The total shrinkability of the glyphs at the given size.
pub open spec fn spec_shrink_total(gs: Seq<ShapedGlyph>, size: Abs) -> int
    decreases gs.len(),
{
    if gs.len() == 0 {
        0
    } else {
        let a = spec_adjustability(gs.last().c, gs.last().x_advance).shrinkability;
        spec_shrink_total(gs.drop_last(), size) + tdiv(a.0.units as int * size.raw as int, 1000)
            + tdiv(a.1.units as int * size.raw as int, 1000)
    }
}

/// How many of the glyphs are justifiable.
pub open spec fn spec_justifiables(gs: Seq<ShapedGlyph>) -> int
    decreases gs.len(),
{
    if gs.len() == 0 {
        0
    } else {
        spec_justifiables(gs.drop_last()) + if spec_is_justifiable(
            gs.last().c,
            gs.last().x_advance,
        ) {
            1int
        } else {
            0int
        }
    }
}

/// How many of the glyphs are CJK.
pub open spec fn spec_cjk_count(gs: Seq<ShapedGlyph>) -> int
    decreases gs.len(),
{
    if gs.len() == 0 {
        0
    } else {
        spec_cjk_count(gs.drop_last()) + if spec_is_cjk(gs.last().c) {
            1int
        } else {
            0int
        }
    }
}

/// A side to walk toward when looking for a safe break.
#[derive(Clone, Copy)]
enum Side {
    /// Toward lower glyph indices.
    Left,
    /// Toward higher glyph indices.
    Right,
}

/// Whether `j` points at the outermost glyph toward the given side among
/// the glyphs whose cluster starts at `ti`: the neighbor on that side, if
/// any, starts a different cluster.
spec fn outermost_at(gs: Seq<ShapedGlyph>, ti: int, towards: Side, j: int) -> bool {
    &&& 0 <= j < gs.len()
    &&& gs[j].range.start == ti
    &&& match towards {
        Side::Left => j == 0 || gs[j - 1].range.start != ti,
        Side::Right => j == gs.len() - 1 || gs[j + 1].range.start != ti,
    }
}

/// In a run ordered by cluster start, at most one glyph is the outermost
/// of the cluster at `ti` toward a side: between two glyphs that both start
/// at `ti` every glyph starts at `ti`, so only one of them can have a
/// differently-started neighbor on the requested side.
proof fn lemma_outermost_unique(gs: Seq<ShapedGlyph>, ti: int, towards: Side, a: int, b: int, ltr: bool)
    requires
        glyphs_ordered(gs, ltr),
        outermost_at(gs, ti, towards, a),
        outermost_at(gs, ti, towards, b),
    ensures
        a == b,
{
    if a < b {
        match towards {
            Side::Left => {
                assert(gs[a].range.start == ti && gs[b].range.start == ti);
                assert(a <= b - 1 < b);
                if a < b - 1 {
                    assert(if ltr {
                        gs[a].range.start <= gs[b - 1].range.start
                    } else {
                        gs[a].range.start >= gs[b - 1].range.start
                    });
                    assert(if ltr {
                        gs[b - 1].range.start <= gs[b].range.start
                    } else {
                        gs[b - 1].range.start >= gs[b].range.start
                    });
                }
                assert(gs[b - 1].range.start == ti);
                assert(false);
            },
            Side::Right => {
                assert(a < a + 1 <= b);
                if a + 1 < b {
                    assert(if ltr {
                        gs[a].range.start <= gs[a + 1].range.start
                    } else {
                        gs[a].range.start >= gs[a + 1].range.start
                    });
                    assert(if ltr {
                        gs[a + 1].range.start <= gs[b].range.start
                    } else {
                        gs[a + 1].range.start >= gs[b].range.start
                    });
                }
                assert(gs[a + 1].range.start == ti);
                assert(false);
            },
        }
    } else if b < a {
        match towards {
            Side::Left => {
                if b < a - 1 {
                    assert(if ltr {
                        gs[b].range.start <= gs[a - 1].range.start
                    } else {
                        gs[b].range.start >= gs[a - 1].range.start
                    });
                    assert(if ltr {
                        gs[a - 1].range.start <= gs[a].range.start
                    } else {
                        gs[a - 1].range.start >= gs[a].range.start
                    });
                }
                assert(gs[a - 1].range.start == ti);
                assert(false);
            },
            Side::Right => {
                if b + 1 < a {
                    assert(if ltr {
                        gs[b].range.start <= gs[b + 1].range.start
                    } else {
                        gs[b].range.start >= gs[b + 1].range.start
                    });
                    assert(if ltr {
                        gs[b + 1].range.start <= gs[a].range.start
                    } else {
                        gs[b + 1].range.start >= gs[a].range.start
                    });
                }
                assert(gs[b + 1].range.start == ti);
                assert(false);
            },
        }
    }
}

impl ShapedText {
    /// How many glyphs can absorb additional space when a line comes up
    /// short.
    pub fn justifiables(&self) -> (r: usize)
        ensures
            r == spec_justifiables(self.glyphs@),
    {
        let mut count: usize = 0;
        let mut i: usize = 0;
        proof {
            assert(self.glyphs@.subrange(0, 0) =~= Seq::<ShapedGlyph>::empty());
        }
        while i < self.glyphs.len()
            invariant
                i <= self.glyphs@.len(),
                count == spec_justifiables(self.glyphs@.subrange(0, i as int)),
                count <= i,
            decreases self.glyphs@.len() - i,
        {
            proof {
                assert(self.glyphs@.subrange(0, i + 1int).drop_last() =~= self.glyphs@.subrange(
                    0,
                    i as int,
                ));
            }
            if self.glyphs[i].is_justifiable() {
                count += 1;
            }
            i += 1;
        }
        proof {
            assert(self.glyphs@.subrange(0, self.glyphs@.len() as int) =~= self.glyphs@);
        }
        count
    }

    /// Whether the last glyph is a CJK character or CJK closing punctuation,
    /// which should not be stretched at a line's end.
    pub fn cjk_justifiable_at_last(&self) -> (r: bool)
        ensures
            r == if self.glyphs@.len() > 0 {
                spec_is_cjk(self.glyphs@.last().c) || spec_is_cjk_left_aligned_punctuation(
                    self.glyphs@.last().c,
                    self.glyphs@.last().x_advance,
                )
            } else {
                false
            },
    {
        if self.glyphs.len() == 0 {
            return false;
        }
        let g = &self.glyphs[self.glyphs.len() - 1];
        g.is_cjk() || g.is_cjk_left_aligned_punctuation()
    }

    /// The total stretchability of the text.
    pub fn stretchability(&self) -> (r: Abs)
        requires
            self.wf(),
        ensures
            r.raw == spec_stretch_total(self.glyphs@, self.size),
    {
        let mut acc: i128 = 0;
        let mut i: usize = 0;
        proof {
            assert(self.glyphs@.subrange(0, 0) =~= Seq::<ShapedGlyph>::empty());
        }
        while i < self.glyphs.len()
            invariant
                self.wf(),
                i <= self.glyphs@.len(),
                acc == spec_stretch_total(self.glyphs@.subrange(0, i as int), self.size),
                -2 * (i as int) * TERM_MAX <= acc <= 2 * (i as int) * TERM_MAX,
            decreases self.glyphs@.len() - i,
        {
            let a = self.glyphs[i].stretchability();
            proof {
                crate::geom::lemma_div_shrinks(self.glyphs@[i as int].x_advance.units as int, 2);
                crate::geom::lemma_div_shrinks(self.glyphs@[i as int].x_advance.units as int, 3);
                crate::geom::lemma_mul_bound(
                    a.0.units as int,
                    self.size.raw as int,
                    EM_METRIC_MAX as int,
                    SIZE_MAX as int,
                );
                crate::geom::lemma_mul_bound(
                    a.1.units as int,
                    self.size.raw as int,
                    EM_METRIC_MAX as int,
                    SIZE_MAX as int,
                );
                crate::geom::lemma_div_shrinks(a.0.units as int * self.size.raw as int, 1000);
                crate::geom::lemma_div_shrinks(a.1.units as int * self.size.raw as int, 1000);
                assert(self.glyphs@.subrange(0, i + 1int).drop_last() =~= self.glyphs@.subrange(
                    0,
                    i as int,
                ));
            }
            acc = acc + (a.0.units as i128 * self.size.raw) / 1000 + (a.1.units as i128
                * self.size.raw) / 1000;
            i += 1;
        }
        proof {
            assert(self.glyphs@.subrange(0, self.glyphs@.len() as int) =~= self.glyphs@);
        }
        Abs { raw: acc }
    }

    /// The total shrinkability of the text.
    pub fn shrinkability(&self) -> (r: Abs)
        requires
            self.wf(),
        ensures
            r.raw == spec_shrink_total(self.glyphs@, self.size),
    {
        let mut acc: i128 = 0;
        let mut i: usize = 0;
        proof {
            assert(self.glyphs@.subrange(0, 0) =~= Seq::<ShapedGlyph>::empty());
        }
        while i < self.glyphs.len()
            invariant
                self.wf(),
                i <= self.glyphs@.len(),
                acc == spec_shrink_total(self.glyphs@.subrange(0, i as int), self.size),
                -2 * (i as int) * TERM_MAX <= acc <= 2 * (i as int) * TERM_MAX,
            decreases self.glyphs@.len() - i,
        {
            let a = self.glyphs[i].shrinkability();
            proof {
                crate::geom::lemma_div_shrinks(self.glyphs@[i as int].x_advance.units as int, 2);
                crate::geom::lemma_div_shrinks(self.glyphs@[i as int].x_advance.units as int, 3);
                crate::geom::lemma_mul_bound(
                    a.0.units as int,
                    self.size.raw as int,
                    EM_METRIC_MAX as int,
                    SIZE_MAX as int,
                );
                crate::geom::lemma_mul_bound(
                    a.1.units as int,
                    self.size.raw as int,
                    EM_METRIC_MAX as int,
                    SIZE_MAX as int,
                );
                crate::geom::lemma_div_shrinks(a.0.units as int * self.size.raw as int, 1000);
                crate::geom::lemma_div_shrinks(a.1.units as int * self.size.raw as int, 1000);
                assert(self.glyphs@.subrange(0, i + 1int).drop_last() =~= self.glyphs@.subrange(
                    0,
                    i as int,
                ));
            }
            acc = acc + (a.0.units as i128 * self.size.raw) / 1000 + (a.1.units as i128
                * self.size.raw) / 1000;
            i += 1;
        }
        proof {
            assert(self.glyphs@.subrange(0, self.glyphs@.len() as int) =~= self.glyphs@);
        }
        Abs { raw: acc }
    }

    /// Find the glyph offset matching the text index that lies most toward
    /// the given side and is safe to break. At the run's own ends the
    /// matching offset is returned outright; inside, the answer is the
    /// outermost glyph of the cluster starting at the index, and nothing
    /// when that glyph is not safe to break or, for an ordered run, when no
    /// cluster starts there.
    fn find_safe_to_break(&self, text_index: usize, towards: Side) -> (r: Option<usize>)
        requires
            self.wf(),
        ensures
            match r {
                Some(j) => {
                    &&& j <= self.glyphs@.len()
                    &&& text_index == self.base ==> j == if self.dir == Dir::Ltr {
                        0int
                    } else {
                        self.glyphs@.len() as int
                    }
                    &&& text_index != self.base && text_index == self.base + self.text@.len()
                        ==> j == if self.dir == Dir::Ltr {
                        self.glyphs@.len() as int
                    } else {
                        0int
                    }
                    &&& text_index != self.base && text_index != self.base + self.text@.len()
                        ==> {
                        let jj = if self.dir == Dir::Ltr {
                            j as int
                        } else {
                            j - 1
                        };
                        &&& outermost_at(self.glyphs@, text_index as int, towards, jj)
                        &&& self.glyphs@[jj].safe_to_break
                    }
                },
                None => {
                    &&& text_index != self.base
                    &&& text_index != self.base + self.text@.len()
                    &&& glyphs_ordered(self.glyphs@, self.dir == Dir::Ltr) ==> forall|j: int|
                        outermost_at(self.glyphs@, text_index as int, towards, j)
                            ==> !(#[trigger] self.glyphs@[j]).safe_to_break
                },
            },
    {
        let ltr = self.dir.is_positive();
        let len = self.glyphs.len();
        let ghost gs = self.glyphs@;
        let ghost ti = text_index as int;

        // The run's ends break safely by definition.
        if text_index == self.base {
            return Some(if ltr {
                0
            } else {
                len
            });
        } else if text_index == self.base + self.text.len() {
            return Some(if ltr {
                len
            } else {
                0
            });
        }

        // Find any glyph with the text index; an ordered glyph sequence is
        // monotone in cluster start, reversed for right-to-left runs, so
        // for such a run a failed search means no cluster starts there.
        let mut lo: usize = 0;
        let mut hi: usize = len;
        let mut found: Option<usize> = None;
        while lo < hi && found.is_none()
            invariant
                lo <= hi <= gs.len(),
                gs == self.glyphs@,
                match found {
                    Some(f) => f < gs.len() && gs[f as int].range.start == text_index,
                    None => true,
                },
                found.is_none() && glyphs_ordered(gs, ltr) ==> forall|k: int|
                    0 <= k < lo ==> (if ltr {
                        (#[trigger] gs[k]).range.start < text_index
                    } else {
                        gs[k].range.start > text_index
                    }),
                found.is_none() && glyphs_ordered(gs, ltr) ==> forall|k: int|
                    hi <= k < gs.len() ==> (if ltr {
                        (#[trigger] gs[k]).range.start > text_index
                    } else {
                        gs[k].range.start < text_index
                    }),
            decreases hi - lo,
        {
            let mid = lo + (hi - lo) / 2;
            let gstart = self.glyphs[mid].range.start;
            if gstart == text_index {
                found = Some(mid);
                lo = hi;
            } else if (ltr && gstart < text_index) || (!ltr && gstart > text_index) {
                proof {
                    if glyphs_ordered(gs, ltr) {
                        assert forall|k: int| 0 <= k < mid + 1 implies (if ltr {
                            (#[trigger] gs[k]).range.start < text_index
                        } else {
                            gs[k].range.start > text_index
                        }) by {
                            if k < mid {
                                assert(if ltr {
                                    gs[k].range.start <= gs[mid as int].range.start
                                } else {
                                    gs[k].range.start >= gs[mid as int].range.start
                                });
                            }
                        }
                    }
                }
                lo = mid + 1;
            } else {
                proof {
                    if glyphs_ordered(gs, ltr) {
                        assert forall|k: int| mid <= k < gs.len() implies (if ltr {
                            (#[trigger] gs[k]).range.start > text_index
                        } else {
                            gs[k].range.start < text_index
                        }) by {
                            if k > mid {
                                assert(if ltr {
                                    gs[mid as int].range.start <= gs[k].range.start
                                } else {
                                    gs[mid as int].range.start >= gs[k].range.start
                                });
                            }
                        }
                    }
                }
                hi = mid;
            }
        }

        let mut idx = match found {
            Some(f) => f,
            None => {
                proof {
                    if glyphs_ordered(gs, ltr) {
                        assert forall|j: int|
                            outermost_at(gs, ti, towards, j) implies !(
                        #[trigger] gs[j]).safe_to_break by {
                            assert(gs[j].range.start != text_index);
                        }
                    }
                }
                return None;
            },
        };

        // Walk to the outermost glyph of the cluster on the requested side.
        match towards {
            Side::Left => {
                while idx > 0 && self.glyphs[idx - 1].range.start == text_index
                    invariant
                        gs == self.glyphs@,
                        idx < gs.len(),
                        gs[idx as int].range.start == text_index,
                    decreases idx,
                {
                    idx = idx - 1;
                }
            },
            Side::Right => {
                while idx + 1 < self.glyphs.len() && self.glyphs[idx + 1].range.start
                    == text_index
                    invariant
                        gs == self.glyphs@,
                        gs.len() <= usize::MAX,
                        idx < gs.len(),
                        gs[idx as int].range.start == text_index,
                    decreases gs.len() - idx,
                {
                    idx = idx + 1;
                }
            },
        }
        proof {
            assert(outermost_at(gs, ti, towards, idx as int));
        }

        // A right-to-left run's slice bounds are exclusive on the left and
        // inclusive on the right, so the index shifts by one.
        if self.glyphs[idx].safe_to_break {
            Some(if ltr {
                idx
            } else {
                idx + 1
            })
        } else {
            proof {
                if glyphs_ordered(gs, ltr) {
                    assert forall|j: int|
                        outermost_at(gs, ti, towards, j) implies !(
                    #[trigger] gs[j]).safe_to_break by {
                        lemma_outermost_unique(gs, ti, towards, j, idx as int, ltr);
                    }
                }
            }
            None
        }
    }

    /// Find the glyph bounds that represent the given text range, if both
    /// of its ends are safe to break.
    fn slice_safe_to_break(&self, range_start: usize, range_end: usize) -> (r: Option<
        (usize, usize),
    >)
        requires
            self.wf(),
            self.base <= range_start <= range_end <= self.base + self.text@.len(),
        ensures
            match r {
                Some(p) => p.0 <= p.1 <= self.glyphs@.len(),
                None => true,
            },
            range_start == self.base && range_end == self.base + self.text@.len()
                && self.text@.len() > 0 ==> r == Some((0usize, self.glyphs.len())),
    {
        let mut start = range_start;
        let mut end = range_end;
        if !self.dir.is_positive() {
            let tmp = start;
            start = end;
            end = tmp;
        }

        let left = match self.find_safe_to_break(start, Side::Left) {
            Some(l) => l,
            None => {
                return None;
            },
        };
        let right = match self.find_safe_to_break(end, Side::Right) {
            Some(rr) => rr,
            None => {
                return None;
            },
        };
        if left <= right {
            Some((left, right))
        } else {
            None
        }
    }
}

/// A copy of a glyph subrange.
fn copy_glyphs(glyphs: &Vec<ShapedGlyph>, lo: usize, hi: usize) -> (r: Vec<ShapedGlyph>)
    requires
        lo <= hi <= glyphs@.len(),
    ensures
        r@ == glyphs@.subrange(lo as int, hi as int),
{
    let mut r: Vec<ShapedGlyph> = Vec::new();
    let mut i: usize = lo;
    while i < hi
        invariant
            lo <= i <= hi <= glyphs@.len(),
            r@ == glyphs@.subrange(lo as int, i as int),
        decreases hi - i,
    {
        r.push(glyphs[i]);
        proof {
            assert(glyphs@.subrange(lo as int, i + 1int) =~= glyphs@.subrange(
                lo as int,
                i as int,
            ).push(glyphs@[i as int]));
        }
        i += 1;
    }
    r
}

/// A copy of a character subrange.
pub(crate) fn copy_chars(text: &Vec<char>, lo: usize, hi: usize) -> (r: Vec<char>)
    requires
        lo <= hi <= text@.len(),
    ensures
        r@ == text@.subrange(lo as int, hi as int),
{
    let mut r: Vec<char> = Vec::new();
    let mut i: usize = lo;
    while i < hi
        invariant
            lo <= i <= hi <= text@.len(),
            r@ == text@.subrange(lo as int, i as int),
        decreases hi - i,
    {
        r.push(text[i]);
        proof {
            assert(text@.subrange(lo as int, i + 1int) =~= text@.subrange(lo as int, i as int)
                .push(text@[i as int]));
        }
        i += 1;
    }
    r
}

/// Whether every glyph of `gs` keeps its cluster range between `lo` and
/// `hi`.
fn glyphs_within(gs: &Vec<ShapedGlyph>, lo: usize, hi: usize) -> (r: bool)
    ensures
        r == glyphs_in(gs@, lo as int, hi as int),
{
    let mut i: usize = 0;
    while i < gs.len()
        invariant
            i <= gs@.len(),
            forall|j: int|
                0 <= j < i ==> lo <= (#[trigger] gs@[j]).range.start && gs@[j].range.start
                    <= gs@[j].range.end <= hi,
        decreases gs@.len() - i,
    {
        let g = &gs[i];
        if !(lo <= g.range.start && g.range.start <= g.range.end && g.range.end <= hi) {
            return false;
        }
        i += 1;
    }
    true
}


impl ShapedText {
    /// Reshape a sub-range of the shaped text, reusing this run's glyphs
    /// where both ends of the range are safe to break, and shaping the
    /// sub-range afresh otherwise. The range is given in paragraph offsets.
    /// Asking for the whole range gives the same glyphs and width back.
    pub fn reshape<H: ShapingHost>(
        &self,
        host: &H,
        range_start: usize,
        range_end: usize,
    ) -> (r: ShapedText)
        requires
            self.wf(),
            self.base <= range_start <= range_end <= self.base + self.text@.len(),
        ensures
            r.wf(),
            r.base == range_start,
            r.dir == self.dir,
            r.size == self.size,
            crate::styles::styles_eqv(r.styles, self.styles),
            r.text@ == self.text@.subrange(
                range_start - self.base,
                range_end - self.base,
            ),
            range_start == self.base && range_end == self.base + self.text@.len()
                && self.text@.len() > 0 ==> r.glyphs@ == self.glyphs@ && r.width == self.width
                && r.variant == self.variant,
            (exists|l: int, h: int|
                0 <= l <= h <= self.glyphs@.len() && r.glyphs@ == self.glyphs@.subrange(l, h))
                || glyphs_ordered(r.glyphs@, r.dir == Dir::Ltr),
    {
        let text = copy_chars(&self.text, range_start - self.base, range_end - self.base);
        let ghost whole = range_start == self.base && range_end == self.base
            + self.text@.len() && self.text@.len() > 0;

        let sliced: Option<Vec<ShapedGlyph>> = match self.slice_safe_to_break(
            range_start,
            range_end,
        ) {
            Some(pair) => {
                let glyphs = copy_glyphs(&self.glyphs, pair.0, pair.1);
                proof {
                    if whole {
                        assert(self.glyphs@.subrange(0, self.glyphs@.len() as int) =~= self
                            .glyphs@);
                    }
                }
                if glyphs_within(&glyphs, range_start, range_end) {
                    Some(glyphs)
                } else {
                    None
                }
            },
            None => None,
        };

        match sliced {
            Some(glyphs) => {
                let width = compute_width(&glyphs, self.size);
                let styles = self.styles.duplicate();
                proof {
                    if whole {
                        assert(glyphs@ =~= self.glyphs@);
                    }
                    assert(exists|l: int, h: int|
                        0 <= l <= h <= self.glyphs@.len() && glyphs@ == self.glyphs@.subrange(
                            l,
                            h,
                        ));
                }
                ShapedText {
                    base: range_start,
                    text,
                    dir: self.dir,
                    styles,
                    variant: self.variant,
                    size: self.size,
                    width,
                    glyphs,
                }
            },
            None => {
                let styles = self.styles.duplicate();
                shape(host, range_start, text, styles, self.dir)
            },
        }
    }

    /// Append a hyphen at the end of the text: the first font of the family
    /// chain that covers the hyphen draws it, with an empty cluster range at
    /// the end of the last glyph's range, and the cached width grows by the
    /// hyphen's resolved advance. When no available font covers the hyphen,
    /// nothing changes.
    pub fn push_hyphen<H: ShapingHost>(&mut self, host: &H)
        requires
            old(self).wf(),
        ensures
            final(self).wf(),
            final(self).base == old(self).base,
            final(self).text@ == old(self).text@,
            final(self).dir == old(self).dir,
            final(self).styles == old(self).styles,
            final(self).variant == old(self).variant,
            final(self).size == old(self).size,
            final(self).glyphs@ == old(self).glyphs@ && final(self).width == old(self).width
                || ({
                &&& final(self).glyphs@.len() == old(self).glyphs@.len() + 1
                &&& final(self).glyphs@.drop_last() == old(self).glyphs@
                &&& final(self).glyphs@.last().c == '-'
                &&& final(self).glyphs@.last().safe_to_break
                &&& final(self).glyphs@.last().x_offset.units == 0
                &&& final(self).glyphs@.last().y_offset.units == 0
                &&& final(self).glyphs@.last().span == (Span { id: 0, offset: 0 })
                &&& final(self).glyphs@.last().range.start == final(self).glyphs@.last().range.end
                &&& old(self).glyphs@.len() > 0 ==> final(self).glyphs@.last().range.end == old(self).glyphs@.last().range.end
                &&& old(self).glyphs@.len() == 0 ==> final(self).glyphs@.last().range.end == old(self).base
                &&& final(self).width.raw == old(self).width.raw + tdiv(
                    final(self).glyphs@.last().x_advance.units as int * final(self).size.raw as int,
                    1000,
                )
            }),
        old(self).dir == Dir::Ltr && glyphs_ordered(old(self).glyphs@, true) ==> glyphs_ordered(
            final(self).glyphs@,
            true,
        ),
    {
        let fams = families(&self.styles);
        let mut i: usize = 0;
        while i < fams.len()
            invariant
                self == old(self),
                old(self).wf(),
                i <= fams@.len(),
            decreases fams@.len() - i,
        {
            let font = match host.select_font(&fams[i], self.variant) {
                Some(f) => f,
                None => {
                    i += 1;
                    continue ;
                },
            };
            let glyph_id = match host.glyph_index(&font, '-') {
                Some(g) => g,
                None => {
                    i += 1;
                    continue ;
                },
            };
            let units = match host.advance_units(&font, glyph_id) {
                Some(u) => u,
                None => {
                    i += 1;
                    continue ;
                },
            };
            let x_advance = Em::from_units(units, font.units_per_em);
            let pos: usize = if self.glyphs.len() > 0 {
                self.glyphs[self.glyphs.len() - 1].range.end
            } else {
                self.base
            };
            let gl = ShapedGlyph {
                font,
                glyph_id,
                x_advance,
                x_offset: Em::zero(),
                y_offset: Em::zero(),
                range: TextRange { start: pos, end: pos },
                safe_to_break: true,
                c: '-',
                span: Span::detached(),
            };
            proof {
                lemma_width_bound(self.glyphs@, self.size);
                crate::geom::lemma_mul_bound(
                    x_advance.units as int,
                    self.size.raw as int,
                    EM_METRIC_MAX as int,
                    SIZE_MAX as int,
                );
                crate::geom::lemma_div_shrinks(
                    x_advance.units as int * self.size.raw as int,
                    1000,
                );
            }
            let add = x_advance.at(self.size);
            self.width = Abs { raw: self.width.raw + add.raw };
            self.glyphs.push(gl);
            proof {
                assert(self.glyphs@.drop_last() =~= old(self).glyphs@);
                if self.dir == Dir::Ltr && glyphs_ordered(old(self).glyphs@, true) {
                    let gs = self.glyphs@;
                    assert forall|a: int, b: int| 0 <= a < b < gs.len() implies gs[a].range.start
                        <= gs[b].range.start by {
                        if b == gs.len() - 1 && gs.len() >= 2 {
                            assert(gs[a].range.start <= gs[gs.len() - 2].range.start);
                            assert(gs[gs.len() - 2].range.start <= gs[gs.len() - 2].range.end);
                        }
                    }
                }
            }
            return ;
        }
    }
}

} // verus!
