//! The shaping driver: drives the host's OpenType shaper over a text run
//! with font fallback, producing a flat glyph vector, and applies tracking,
//! letter spacing and no-break-space normalization afterwards.

use vstd::prelude::*;
use crate::geom::{tdiv, Abs, Dir, Em, EM_RAW_MAX};
use crate::font::{FamilyName, Font, FontVariant};
use crate::glyph::{spec_is_space, ShapedGlyph, Span, TextRange};
use crate::styles::{families, language, tags, variant, Feature, Styles};
use crate::text::{compute_width, glyphs_ordered, ShapedText};

verus! {

/// One glyph as the host's shaper returns it: raw font units, and a cluster
/// offset relative to the start of the shaped window.
#[derive(Clone, Copy, Debug, PartialEq, Eq, Structural)]
pub struct RawGlyph {
    /// The glyph's index in the font; zero stands for a missing glyph.
    pub glyph_id: u32,
    /// The offset of the glyph's cluster, relative to the window start.
    pub cluster: usize,
    /// Whether breaking the text at this glyph's cluster start would change
    /// the shaping result.
    pub unsafe_to_break: bool,
    /// The advance width, in font design units.
    pub x_advance: i64,
    /// The horizontal offset, in font design units.
    pub x_offset: i64,
    /// The vertical offset, in font design units.
    pub y_offset: i64,
}

/// What every run a shaper hands back looks like: clusters lie inside the
/// shaped window and are monotone in visual order (never decreasing for a
/// left-to-right run, never increasing for a right-to-left run), and the
/// measurements fit in 32 bits of font units.
pub open spec fn run_wf(run: Seq<RawGlyph>, len: nat, ltr: bool) -> bool {
    &&& forall|i: int| 0 <= i < run.len() ==> (#[trigger] run[i]).cluster < len
    &&& forall|i: int|
        0 <= i < run.len() ==> -0x8000_0000 <= (#[trigger] run[i]).x_advance <= 0x8000_0000
            && -0x8000_0000 <= run[i].x_offset <= 0x8000_0000 && -0x8000_0000 <= run[i].y_offset
            <= 0x8000_0000
    &&& forall|i: int, j: int|
        0 <= i < j < run.len() ==> if ltr {
            (#[trigger] run[i]).cluster <= (#[trigger] run[j]).cluster
        } else {
            (#[trigger] run[i]).cluster >= (#[trigger] run[j]).cluster
        }
}

/// Whether the used-font stack is usable: every entry is well-formed.
pub open spec fn used_wf(us: Seq<Font>) -> bool {
    forall|i: int| 0 <= i < us.len() ==> (#[trigger] us[i]).wf()
}

/// The collaborators of the shaping engine, behind one interface: the font
/// book that selects faces, the font tables that answer coverage and advance
/// queries, the OpenType shaper, and the span mapper. Nothing here is part
/// of the engine itself; an implementation wraps a real font world.
pub trait ShapingHost {
    /// Select a font of the given family and variant, if the book has one.
    fn select_font(&self, family: &FamilyName, variant: FontVariant) -> (r: Option<Font>)
        ensures
            match r {
                Some(f) => f.wf(),
                None => true,
            },
    ;

    /// Select a last-resort font that covers the window `text[lo..hi]`,
    /// taking a hint from the first font used so far.
    fn select_fallback_font(
        &self,
        first_used: Option<&Font>,
        variant: FontVariant,
        text: &Vec<char>,
        lo: usize,
        hi: usize,
    ) -> (r: Option<Font>)
        requires
            lo <= hi <= text@.len(),
        ensures
            match r {
                Some(f) => f.wf(),
                None => true,
            },
    ;

    /// The font's glyph for a character, if the font covers it.
    fn glyph_index(&self, font: &Font, c: char) -> (r: Option<u16>);

    /// The horizontal advance of a glyph in font design units, if the font
    /// has one for it.
    fn advance_units(&self, font: &Font, glyph_id: u16) -> (r: Option<i64>)
        ensures
            match r {
                Some(u) => -0x8000_0000 <= u <= 0x8000_0000,
                None => true,
            },
    ;

    /// Shape the window `text[lo..hi]` with the font and return the glyphs
    /// in visual order, clusters relative to `lo`.
    fn shape_run(
        &self,
        font: &Font,
        text: &Vec<char>,
        lo: usize,
        hi: usize,
        dir: Dir,
        lang: &Vec<char>,
        features: &Vec<Feature>,
    ) -> (r: Vec<RawGlyph>)
        requires
            lo <= hi <= text@.len(),
        ensures
            run_wf(r@, (hi - lo) as nat, dir == Dir::Ltr),
    ;

    /// The source span and intra-span offset at a paragraph offset.
    fn span_at(&self, offset: usize) -> (r: Span);
}

/// Shaping state and configuration common to all shaped segments.
pub struct ShapingCtx {
    /// The glyphs shaped so far, in visual order.
    pub glyphs: Vec<ShapedGlyph>,
    /// The fonts already used for outer segments; fallback never revisits
    /// them.
    pub used: Vec<Font>,
    /// The resolved font variant.
    pub variant: FontVariant,
    /// The OpenType features to apply.
    pub features: Vec<Feature>,
    /// The language tag for the shaper.
    pub lang: Vec<char>,
    /// Whether font fallback is enabled.
    pub fallback: bool,
    /// The text direction.
    pub dir: Dir,
    /// The font size.
    pub size: Abs,
}

impl ShapingCtx {
    /// The configuration part of the state, unchanged by shaping.
    pub open spec fn cfg(self) -> (FontVariant, Seq<Feature>, Seq<char>, bool, Dir, Abs) {
        (self.variant, self.features@, self.lang@, self.fallback, self.dir, self.size)
    }
}

/// Whether every glyph is well-formed with measurements still raw, that is
/// untouched by post-processing.
pub open spec fn glyphs_raw_wf(gs: Seq<ShapedGlyph>) -> bool {
    forall|i: int|
        0 <= i < gs.len() ==> (#[trigger] gs[i]).wf() && -EM_RAW_MAX <= gs[i].x_advance.units
            <= EM_RAW_MAX
}

/// Whether a glyph sequence may stand before a segment shaped into the
/// window `[base, base + len)`: for a left-to-right run everything so far
/// lies strictly before the window, for a right-to-left run strictly after
/// it (in visual order the window comes last either way). An empty window
/// asks nothing.
pub open spec fn before_window(gs: Seq<ShapedGlyph>, base: int, len: int, ltr: bool) -> bool {
    len == 0 || (forall|i: int|
        0 <= i < gs.len() ==> if ltr {
            (#[trigger] gs[i]).range.start < base
        } else {
            (#[trigger] gs[i]).range.start >= base + len
        })
}

/// Whether the font's identifier occurs in the used stack.
fn contains_font(used: &Vec<Font>, id: u64) -> (r: bool)
    ensures
        r == exists|i: int| 0 <= i < used@.len() && (#[trigger] used@[i]).id == id,
{
    let mut i: usize = 0;
    while i < used.len()
        invariant
            i <= used.len(),
            forall|j: int| 0 <= j < i ==> (#[trigger] used@[j]).id != id,
        decreases used.len() - i,
    {
        if used[i].id == id {
            return true;
        }
        i += 1;
    }
    false
}

/// Whether the window `text[lo..hi]` holds only newlines and tabs, which no
/// font has glyphs for.
fn all_newlines_or_tabs(text: &Vec<char>, lo: usize, hi: usize) -> (r: bool)
    requires
        lo <= hi <= text@.len(),
    ensures
        r == forall|i: int| lo <= i < hi ==> text@[i] == '\n' || text@[i] == '\t',
{
    let mut i: usize = lo;
    while i < hi
        invariant
            lo <= i <= hi <= text@.len(),
            forall|j: int| lo <= j < i ==> text@[j] == '\n' || text@[j] == '\t',
        decreases hi - i,
    {
        let c = text[i];
        if !(c == '\n' || c == '\t') {
            return false;
        }
        i += 1;
    }
    true
}

/// The window offset of the `n`th missing-glyph sign: counting up for a
/// left-to-right run and down from the window's end for a right-to-left
/// run, so the signs come out in visual order either way.
pub open spec fn tofu_off(n: int, winlen: int, ltr: bool) -> int {
    if ltr {
        n
    } else {
        winlen - 1 - n
    }
}

/// Emit one missing-glyph sign per character of the window, in visual
/// order, all from the given font.
#[verifier::loop_isolation(false)]
fn shape_tofus<H: ShapingHost>(
    host: &H,
    ctx: &mut ShapingCtx,
    base: usize,
    text: &Vec<char>,
    lo: usize,
    hi: usize,
    font: Font,
)
    requires
        font.wf(),
        lo <= hi <= text@.len(),
        base + (hi - lo) <= usize::MAX,
        glyphs_raw_wf(old(ctx).glyphs@),
        glyphs_ordered(old(ctx).glyphs@, old(ctx).dir == Dir::Ltr),
        before_window(old(ctx).glyphs@, base as int, (hi - lo) as int, old(ctx).dir == Dir::Ltr),
    ensures
        final(ctx).used@ == old(ctx).used@,
        final(ctx).cfg() == old(ctx).cfg(),
        final(ctx).glyphs@.len() == old(ctx).glyphs@.len() + (hi - lo),
        final(ctx).glyphs@.subrange(0, old(ctx).glyphs@.len() as int) == old(ctx).glyphs@,
        glyphs_raw_wf(final(ctx).glyphs@),
        glyphs_ordered(final(ctx).glyphs@, final(ctx).dir == Dir::Ltr),
        forall|i: int|
            old(ctx).glyphs@.len() <= i < final(ctx).glyphs@.len() ==> base <= (#[trigger] final(ctx).glyphs@[i]).range.start
                && final(ctx).glyphs@[i].range.start < base + (hi - lo) && final(ctx).glyphs@[i].range.end
                <= base + (hi - lo),
        forall|i: int|
            old(ctx).glyphs@.len() <= i < final(ctx).glyphs@.len() ==> {
                let off = tofu_off(
                    i - old(ctx).glyphs@.len(),
                    (hi - lo) as int,
                    old(ctx).dir == Dir::Ltr,
                );
                &&& (#[trigger] final(ctx).glyphs@[i]).glyph_id == 0
                &&& final(ctx).glyphs@[i].font == font
                &&& final(ctx).glyphs@[i].x_offset.units == 0
                &&& final(ctx).glyphs@[i].y_offset.units == 0
                &&& final(ctx).glyphs@[i].safe_to_break
                &&& final(ctx).glyphs@[i].range.start == base + off
                &&& final(ctx).glyphs@[i].range.end == base + off + 1
                &&& final(ctx).glyphs@[i].c == text@[lo + off]
            },
        forall|i: int, j: int|
            old(ctx).glyphs@.len() <= i < final(ctx).glyphs@.len() && old(ctx).glyphs@.len() <= j
                < final(ctx).glyphs@.len() ==> (#[trigger] final(ctx).glyphs@[i]).x_advance == (
            #[trigger] final(ctx).glyphs@[j]).x_advance,
{
    let x_advance = match host.advance_units(&font, 0) {
        Some(u) => Em::from_units(u, font.units_per_em),
        None => Em::zero(),
    };
    let ltr = ctx.dir.is_positive();
    let ghost entry = ctx.glyphs@;
    let mut n: usize = 0;
    while n < hi - lo
        invariant
            lo <= hi <= text@.len(),
            base + (hi - lo) <= usize::MAX,
            n <= hi - lo,
            font.wf(),
            -EM_RAW_MAX <= x_advance.units <= EM_RAW_MAX,
            ltr == (ctx.dir == Dir::Ltr),
            ctx.used@ == old(ctx).used@,
            ctx.cfg() == old(ctx).cfg(),
            ctx.glyphs@.len() == entry.len() + n,
            ctx.glyphs@.subrange(0, entry.len() as int) == entry,
            glyphs_raw_wf(entry),
            glyphs_ordered(entry, ltr),
            before_window(entry, base as int, (hi - lo) as int, ltr),
            glyphs_raw_wf(ctx.glyphs@),
            glyphs_ordered(ctx.glyphs@, ltr),
            forall|i: int|
                entry.len() <= i < ctx.glyphs@.len() ==> base <= (
                #[trigger] ctx.glyphs@[i]).range.start && ctx.glyphs@[i].range.start < base + (hi
                    - lo) && ctx.glyphs@[i].range.end <= base + (hi - lo),
            forall|i: int|
                entry.len() <= i < ctx.glyphs@.len() ==> {
                    let off = tofu_off(i - entry.len(), (hi - lo) as int, ltr);
                    &&& (#[trigger] ctx.glyphs@[i]).glyph_id == 0
                    &&& ctx.glyphs@[i].font == font
                    &&& ctx.glyphs@[i].x_offset.units == 0
                    &&& ctx.glyphs@[i].y_offset.units == 0
                    &&& ctx.glyphs@[i].safe_to_break
                    &&& ctx.glyphs@[i].range.start == base + off
                    &&& ctx.glyphs@[i].range.end == base + off + 1
                    &&& ctx.glyphs@[i].c == text@[lo + off]
                    &&& ctx.glyphs@[i].x_advance == x_advance
                },
        decreases hi - lo - n,
    {
        let off: usize = if ltr {
            n
        } else {
            hi - lo - 1 - n
        };
        let start = base + off;
        let end = start + 1;
        let c = char_at(text, lo + off);
        let span = host.span_at(start);
        let gl = ShapedGlyph {
            font,
            glyph_id: 0,
            x_advance,
            x_offset: Em::zero(),
            y_offset: Em::zero(),
            range: TextRange { start, end },
            safe_to_break: true,
            c,
            span,
        };
        ctx.glyphs.push(gl);
        proof {
            assert(ctx.glyphs@.subrange(0, entry.len() as int) =~= entry);
            let gs = ctx.glyphs@;
            assert forall|a: int, b: int| 0 <= a < b < gs.len() implies (if ltr {
                gs[a].range.start <= gs[b].range.start
            } else {
                gs[a].range.start >= gs[b].range.start
            }) by {
                if a < entry.len() {
                    assert(entry[a] == gs[a]);
                }
                if b < entry.len() {
                    assert(entry[b] == gs[b]);
                }
            }
            assert(glyphs_ordered(gs, ltr));
        }
        n += 1;
    }
}

/// Shape the window `text[lo..hi]` (which begins at paragraph offset
/// `base`) with font fallback, starting at entry `fam_idx` of the family
/// chain: the first available unused family shapes the window, and every
/// maximal run of missing glyphs is reshaped with the remaining chain; when
/// no font is available at all, the first used font draws missing-glyph
/// signs. Appended glyphs lie inside the window and keep visual order.
#[verifier::rlimit(100)]
#[verifier::loop_isolation(false)]
fn shape_segment<H: ShapingHost>(
    host: &H,
    ctx: &mut ShapingCtx,
    base: usize,
    text: &Vec<char>,
    lo: usize,
    hi: usize,
    fams: &Vec<FamilyName>,
    fam_idx: usize,
)
    requires
        lo <= hi <= text@.len(),
        base + (hi - lo) <= usize::MAX,
        fam_idx <= fams@.len(),
        used_wf(old(ctx).used@),
        glyphs_raw_wf(old(ctx).glyphs@),
        glyphs_ordered(old(ctx).glyphs@, old(ctx).dir == Dir::Ltr),
        before_window(old(ctx).glyphs@, base as int, (hi - lo) as int, old(ctx).dir == Dir::Ltr),
    ensures
        final(ctx).used@ == old(ctx).used@,
        final(ctx).cfg() == old(ctx).cfg(),
        final(ctx).glyphs@.len() >= old(ctx).glyphs@.len(),
        final(ctx).glyphs@.subrange(0, old(ctx).glyphs@.len() as int) == old(ctx).glyphs@,
        glyphs_raw_wf(final(ctx).glyphs@),
        glyphs_ordered(final(ctx).glyphs@, final(ctx).dir == Dir::Ltr),
        forall|i: int|
            old(ctx).glyphs@.len() <= i < final(ctx).glyphs@.len() ==> base <= (#[trigger] final(ctx).glyphs@[i]).range.start
                && final(ctx).glyphs@[i].range.start < base + (hi - lo) && final(ctx).glyphs@[i].range.end
                <= base + (hi - lo),
        (forall|i: int| lo <= i < hi ==> text@[i] == '\n' || text@[i] == '\t') ==> final(ctx).glyphs@
            == old(ctx).glyphs@,
        forall|i: int|
            old(ctx).glyphs@.len() <= i < final(ctx).glyphs@.len()
                ==> (#[trigger] final(ctx).glyphs@[i]).c == text@[lo + (
            final(ctx).glyphs@[i].range.start - base)],
    decreases usize::MAX - old(ctx).used@.len(),
{
    let ltr = ctx.dir.is_positive();

    // Fonts have no glyphs for newlines and tabs.
    if all_newlines_or_tabs(text, lo, hi) {
        return ;
    }

    // Find the next family with an available font that was not used yet.
    let mut fam_i: usize = fam_idx;
    let mut selection: Option<Font> = None;
    while fam_i < fams.len() && selection.is_none()
        invariant
            fam_idx <= fam_i <= fams@.len(),
            used_wf(ctx.used@),
            ctx.used@ == old(ctx).used@,
            match selection {
                Some(f) => f.wf(),
                None => true,
            },
        decreases fams@.len() - fam_i,
    {
        match host.select_font(&fams[fam_i], ctx.variant) {
            Some(f) => {
                if !contains_font(&ctx.used, f.id) {
                    selection = Some(f);
                }
            },
            None => {},
        }
        fam_i += 1;
    }

    // Fall back to a last-resort font when the families are exhausted.
    if selection.is_none() && ctx.fallback {
        let first = if ctx.used.len() > 0 {
            Some(&ctx.used[0])
        } else {
            None
        };
        match host.select_fallback_font(first, ctx.variant, text, lo, hi) {
            Some(f) => {
                if !contains_font(&ctx.used, f.id) {
                    selection = Some(f);
                }
            },
            None => {},
        }
    }

    // Extract the font, or draw missing-glyph signs if no font is available
    // at all.
    let font = match selection {
        Some(f) => f,
        None => {
            if ctx.used.len() > 0 {
                let f = ctx.used[0];
                shape_tofus(host, ctx, base, text, lo, hi, f);
            }
            return ;
        },
    };

    ctx.used.push(font);

    let run = host.shape_run(&font, text, lo, hi, ctx.dir, &ctx.lang, &ctx.features);

    let ghost entry = old(ctx).glyphs@;
    let winlen: usize = hi - lo;

    // Collect the shaped glyphs, reshaping every maximal run of missing
    // glyphs with the remaining family chain.
    let mut i: usize = 0;
    while i < run.len()
        invariant
            lo <= hi <= text@.len(),
            base + (hi - lo) <= usize::MAX,
            winlen == hi - lo,
            fam_idx <= fam_i <= fams@.len(),
            run_wf(run@, winlen as nat, ltr),
            ltr == (ctx.dir == Dir::Ltr),
            i <= run@.len(),
            font.wf(),
            ctx.used@ == old(ctx).used@.push(font),
            used_wf(ctx.used@),
            ctx.cfg() == old(ctx).cfg(),
            ctx.glyphs@.len() >= entry.len(),
            ctx.glyphs@.subrange(0, entry.len() as int) == entry,
            glyphs_raw_wf(entry),
            glyphs_ordered(entry, ltr),
            before_window(entry, base as int, winlen as int, ltr),
            glyphs_raw_wf(ctx.glyphs@),
            glyphs_ordered(ctx.glyphs@, ltr),
            forall|k: int|
                entry.len() <= k < ctx.glyphs@.len() ==> base <= (#[trigger] ctx.glyphs@[k]).range.start
                    && ctx.glyphs@[k].range.start < base + winlen && ctx.glyphs@[k].range.end
                    <= base + winlen,
            forall|k: int|
                entry.len() <= k < ctx.glyphs@.len() ==> (#[trigger] ctx.glyphs@[k]).c == text@[lo
                    + (ctx.glyphs@[k].range.start - base)],
            i < run@.len() && ltr ==> forall|k: int|
                entry.len() <= k < ctx.glyphs@.len() ==> (#[trigger] ctx.glyphs@[k]).range.start
                    <= base + run@[i as int].cluster,
            i < run@.len() && !ltr ==> forall|k: int|
                entry.len() <= k < ctx.glyphs@.len() ==> (#[trigger] ctx.glyphs@[k]).range.start
                    >= base + run@[i as int].cluster,
        decreases run@.len() - i,
    {
        let rg = raw_at(&run, i);
        let cluster = rg.cluster;
        if rg.glyph_id != 0 {
            // A covered glyph: its cluster ends where the next cluster in
            // visual order begins, or at the window's end.
            let start = base + cluster;
            let end_off: usize = if ltr {
                if i + 1 < run.len() {
                    raw_at(&run, i + 1).cluster
                } else {
                    winlen
                }
            } else {
                if i >= 1 {
                    raw_at(&run, i - 1).cluster
                } else {
                    winlen
                }
            };
            let end = base + end_off;
            let c = char_at(text, lo + cluster);
            let span = host.span_at(start);
            let glyph_id: u16 = #[verifier::truncate] (rg.glyph_id as u16);
            let gl = ShapedGlyph {
                font,
                glyph_id,
                x_advance: Em::from_units(rg.x_advance, font.units_per_em),
                x_offset: Em::from_units(rg.x_offset, font.units_per_em),
                y_offset: Em::from_units(rg.y_offset, font.units_per_em),
                range: TextRange { start, end },
                safe_to_break: !rg.unsafe_to_break,
                c,
                span,
            };
            ctx.glyphs.push(gl);
            proof {
                assert(ctx.glyphs@.subrange(0, entry.len() as int) =~= entry);
                let gs = ctx.glyphs@;
                assert forall|a: int, b: int| 0 <= a < b < gs.len() implies (if ltr {
                    gs[a].range.start <= gs[b].range.start
                } else {
                    gs[a].range.start >= gs[b].range.start
                }) by {
                    if a < entry.len() {
                        assert(entry[a] == gs[a]);
                    }
                    if b < entry.len() {
                        assert(entry[b] == gs[b]);
                    }
                }
                assert(glyphs_ordered(gs, ltr));
            }
        } else {
            // A run of missing glyphs: extend to its end.
            let k = i;
            while i + 1 < run.len() && raw_at(&run, i + 1).glyph_id == 0
                invariant
                    k <= i < run@.len(),
                decreases run@.len() - i,
            {
                i += 1;
            }

            // The window range the missing glyphs cover.
            let s: usize = if ltr {
                raw_at(&run, k).cluster
            } else {
                raw_at(&run, i).cluster
            };
            let e: usize = if ltr {
                if i + 1 < run.len() {
                    raw_at(&run, i + 1).cluster
                } else {
                    winlen
                }
            } else {
                if k >= 1 {
                    raw_at(&run, k - 1).cluster
                } else {
                    winlen
                }
            };

            // Pop glyphs of clusters that straddle the boundary: they must
            // be reshaped whole.
            let rs = base + s;
            let re = base + e;
            while last_starts_in(&ctx.glyphs, rs, re)
                invariant
                    s <= e <= winlen,
                    rs == base + s,
                    re == base + e,
                    ctx.used@ == old(ctx).used@.push(font),
                    used_wf(ctx.used@),
                    ctx.cfg() == old(ctx).cfg(),
                    base + winlen <= usize::MAX,
                    ltr == (ctx.dir == Dir::Ltr),
                    ctx.glyphs@.len() >= entry.len(),
                    ctx.glyphs@.subrange(0, entry.len() as int) == entry,
                    glyphs_raw_wf(entry),
                    glyphs_ordered(entry, ltr),
                    before_window(entry, base as int, winlen as int, ltr),
                    glyphs_raw_wf(ctx.glyphs@),
                    glyphs_ordered(ctx.glyphs@, ltr),
                    forall|k2: int|
                        entry.len() <= k2 < ctx.glyphs@.len() ==> base <= (
                        #[trigger] ctx.glyphs@[k2]).range.start && ctx.glyphs@[k2].range.start
                            < base + winlen && ctx.glyphs@[k2].range.end <= base + winlen,
                    forall|k2: int|
                        entry.len() <= k2 < ctx.glyphs@.len() ==> (#[trigger] ctx.glyphs@[k2]).c
                            == text@[lo + (ctx.glyphs@[k2].range.start - base)],
                    ltr ==> forall|k2: int|
                        entry.len() <= k2 < ctx.glyphs@.len() ==> (
                        #[trigger] ctx.glyphs@[k2]).range.start <= base + s,
                    !ltr ==> forall|k2: int|
                        entry.len() <= k2 < ctx.glyphs@.len() ==> (
                        #[trigger] ctx.glyphs@[k2]).range.start >= base + s,
                decreases ctx.glyphs@.len(),
            {
                proof {
                    if ctx.glyphs@.len() == entry.len() {
                        assert(entry[entry.len() - 1].range.start == ctx.glyphs@.last().range.start);
                        assert(false);
                    }
                }
                ctx.glyphs.pop();
                proof {
                    assert(ctx.glyphs@.subrange(0, entry.len() as int) =~= entry);
                }
            }

            // Reshape the missing range with the remaining family chain.
            let used_len = ctx.used.len();
            proof {
                assert(used_len == old(ctx).used@.len() + 1);
                if e > s {
                    assert forall|k2: int| 0 <= k2 < ctx.glyphs@.len() implies (if ltr {
                        (#[trigger] ctx.glyphs@[k2]).range.start < base + s
                    } else {
                        ctx.glyphs@[k2].range.start >= base + e
                    }) by {
                        let gs = ctx.glyphs@;
                        let lastidx = gs.len() - 1;
                        if k2 < entry.len() {
                            assert(entry[k2] == gs[k2]);
                        } else {
                            assert(!(base + s <= gs[lastidx].range.start < base + e));
                            if ltr {
                                assert(gs[k2].range.start <= gs[lastidx].range.start);
                                assert(gs[lastidx].range.start <= base + s);
                            } else {
                                assert(gs[k2].range.start >= gs[lastidx].range.start);
                                assert(gs[lastidx].range.start >= base + s);
                            }
                        }
                    }
                }
                assert(before_window(ctx.glyphs@, base + s as int, e - s, ltr));
            }
            let ghost before_rec = ctx.glyphs@;
            shape_segment(host, ctx, base + s, text, lo + s, lo + e, fams, fam_i);
            proof {
                let gs = ctx.glyphs@;
                assert forall|k2: int| 0 <= k2 < before_rec.len() implies gs[k2]
                    == before_rec[k2] by {
                    assert(gs.subrange(0, before_rec.len() as int)[k2] == gs[k2]);
                }
                assert(gs.subrange(0, entry.len() as int) =~= entry);
                assert forall|k2: int| entry.len() <= k2 < gs.len() implies base <= (
                #[trigger] gs[k2]).range.start && gs[k2].range.start < base + winlen
                    && gs[k2].range.end <= base + winlen by {
                    if k2 < before_rec.len() {
                        assert(gs[k2] == before_rec[k2]);
                    }
                }
                assert forall|k2: int| entry.len() <= k2 < gs.len() implies (
                #[trigger] gs[k2]).c == text@[lo + (gs[k2].range.start - base)] by {
                    if k2 < before_rec.len() {
                        assert(gs[k2] == before_rec[k2]);
                    } else {
                        assert(gs[k2].c == text@[(lo + s) + (gs[k2].range.start - (base + s))]);
                    }
                }
                if i + 1 < run@.len() {
                    if ltr {
                        assert forall|k2: int| entry.len() <= k2 < gs.len() implies (
                        #[trigger] gs[k2]).range.start <= base + run@[i + 1].cluster by {
                            if k2 < before_rec.len() {
                                assert(gs[k2] == before_rec[k2]);
                            }
                        }
                    } else {
                        assert(run@[i as int].cluster >= run@[i + 1].cluster);
                        assert forall|k2: int| entry.len() <= k2 < gs.len() implies (
                        #[trigger] gs[k2]).range.start >= base + run@[i + 1].cluster by {
                            if k2 < before_rec.len() {
                                assert(gs[k2] == before_rec[k2]);
                            }
                        }
                    }
                }
            }
        }

        i += 1;
    }

    ctx.used.pop();
    proof {
        assert(ctx.used@ =~= old(ctx).used@);
    }
}


/// The tracking value resolved into em units at the styles' size.
pub open spec fn spec_tracking_em(styles: Styles) -> Em {
    Em { units: tdiv(styles.tracking.raw as int * 1000, styles.size.raw as int) as i64 }
}

/// The spacing override resolved for application: the ratio, and the fixed
/// part in em units at the styles' size.
pub open spec fn spec_spacing_em(styles: Styles) -> Option<(crate::geom::Relative, Em)> {
    match styles.spacing {
        Some(sp) => Some(
            (sp.ratio, Em { units: tdiv(sp.length.raw as int * 1000, styles.size.raw as int) as i64 }),
        ),
        None => None,
    }
}

/// A spacing override applied to a space's advance: the ratio of the advance
/// plus the fixed part; no override keeps the advance.
pub open spec fn spec_spacing_apply(
    spacing: Option<(crate::geom::Relative, Em)>,
    adv: Em,
) -> Em {
    match spacing {
        Some(p) => Em {
            units: (tdiv(p.0.permille as int * adv.units as int, 1000) + p.1.units) as i64,
        },
        None => adv,
    }
}

/// Whether the glyph at `i` is the last of its cluster and another cluster
/// follows: the next glyph starts a different cluster. The very last glyph
/// of the run does not count.
pub open spec fn spec_cluster_end(gs: Seq<ShapedGlyph>, i: int) -> bool {
    i + 1 < gs.len() && gs[i].range.start != gs[i + 1].range.start
}

/// One glyph after post-processing: a space's advance is replaced by the
/// spacing override, and tracking is added to every glyph that closes a
/// cluster, except the last glyph of the run.
pub open spec fn spec_post_one(
    g: ShapedGlyph,
    spacing: Option<(crate::geom::Relative, Em)>,
    tracking: Em,
    cluster_end: bool,
) -> ShapedGlyph {
    let adv1 = if spec_is_space(g.c) {
        spec_spacing_apply(spacing, g.x_advance)
    } else {
        g.x_advance
    };
    let adv2 = if cluster_end {
        Em { units: (adv1.units + tracking.units) as i64 }
    } else {
        adv1
    };
    ShapedGlyph { x_advance: adv2, ..g }
}

/// The glyph `g` with `d` thousandths of an em taken off its advance, as the
/// no-break-space normalization does.
pub open spec fn spec_nbsp_sub(g: ShapedGlyph, d: int) -> ShapedGlyph {
    ShapedGlyph { x_advance: Em { units: (g.x_advance.units - d) as i64 }, ..g }
}

/// The difference between the advances of the no-break space and the
/// ordinary space of a font, if the font has both.
fn nbsp_delta<H: ShapingHost>(host: &H, font: &Font) -> (r: Option<Em>)
    requires
        font.wf(),
    ensures
        match r {
            Some(d) => -2 * EM_RAW_MAX <= d.units <= 2 * EM_RAW_MAX,
            None => true,
        },
{
    let space_gid = match host.glyph_index(font, ' ') {
        Some(g) => g,
        None => {
            return None;
        },
    };
    let nbsp_gid = match host.glyph_index(font, '\u{00A0}') {
        Some(g) => g,
        None => {
            return None;
        },
    };
    let nbsp_adv = match host.advance_units(font, nbsp_gid) {
        Some(u) => Em::from_units(u, font.units_per_em),
        None => {
            return None;
        },
    };
    let space_adv = match host.advance_units(font, space_gid) {
        Some(u) => Em::from_units(u, font.units_per_em),
        None => {
            return None;
        },
    };
    Some(Em::new(nbsp_adv.units - space_adv.units))
}

/// Apply no-break-space normalization, letter spacing and tracking to the
/// shaped glyphs: a no-break space is narrowed by the difference between the
/// font's no-break-space and space advances, a spacing override replaces
/// every space's advance, and tracking widens every glyph that closes a
/// cluster, except the run's last.
#[verifier::loop_isolation(false)]
pub fn track_and_space<H: ShapingHost>(
    host: &H,
    glyphs: &mut Vec<ShapedGlyph>,
    styles: &Styles,
)
    requires
        styles.wf(),
        glyphs_raw_wf(old(glyphs)@),
    ensures
        final(glyphs)@.len() == old(glyphs)@.len(),
        crate::text::glyphs_wf(final(glyphs)@),
        forall|i: int|
            0 <= i < old(glyphs)@.len() ==> (#[trigger] final(glyphs)@[i]).range == old(glyphs)@[i].range && final(glyphs)@[i].c == old(glyphs)@[i].c && final(glyphs)@[i].font
                == old(glyphs)@[i].font && final(glyphs)@[i].glyph_id == old(glyphs)@[i].glyph_id
                && final(glyphs)@[i].safe_to_break == old(glyphs)@[i].safe_to_break && final(glyphs)@[i].span == old(glyphs)@[i].span && final(glyphs)@[i].x_offset == old(glyphs)@[i].x_offset && final(glyphs)@[i].y_offset == old(glyphs)@[i].y_offset,
        forall|i: int|
            0 <= i < old(glyphs)@.len() && old(glyphs)@[i].c != '\u{00A0}'
                ==> #[trigger] final(glyphs)@[i] == spec_post_one(
                old(glyphs)@[i],
                spec_spacing_em(*styles),
                spec_tracking_em(*styles),
                spec_cluster_end(old(glyphs)@, i),
            ),
        forall|i: int|
            0 <= i < old(glyphs)@.len() && (#[trigger] old(glyphs)@[i]).c == '\u{00A0}'
                ==> exists|d: int|
                -2 * EM_RAW_MAX <= d <= 2 * EM_RAW_MAX && final(glyphs)@[i] == spec_post_one(
                    spec_nbsp_sub(old(glyphs)@[i], d),
                    spec_spacing_em(*styles),
                    spec_tracking_em(*styles),
                    spec_cluster_end(old(glyphs)@, i),
                ),
{
    let tracking = Em::from_length(styles.tracking, styles.size);
    let spacing: Option<(crate::geom::Relative, Em)> = match styles.spacing {
        Some(sp) => Some((sp.ratio, Em::from_length(sp.length, styles.size))),
        None => None,
    };
    let ghost orig = glyphs@;
    let ghost mut ds: Seq<int> = Seq::empty();
    let mut i: usize = 0;
    while i < glyphs.len()
        invariant
            i <= glyphs@.len(),
            glyphs@.len() == orig.len(),
            styles.wf(),
            glyphs_raw_wf(orig),
            tracking == spec_tracking_em(*styles),
            -0x1000_0000 <= tracking.units <= 0x1000_0000,
            spacing == spec_spacing_em(*styles),
            match spacing {
                Some(p) => -10000 <= p.0.permille <= 10000 && -0x1000_0000 <= p.1.units
                    <= 0x1000_0000,
                None => true,
            },
            forall|j: int| i <= j < orig.len() ==> glyphs@[j] == orig[j],
            forall|j: int| 0 <= j < i ==> (#[trigger] glyphs@[j]).wf(),
            forall|j: int|
                0 <= j < i ==> (#[trigger] glyphs@[j]).range == orig[j].range && glyphs@[j].c
                    == orig[j].c && glyphs@[j].font == orig[j].font && glyphs@[j].glyph_id
                    == orig[j].glyph_id && glyphs@[j].safe_to_break == orig[j].safe_to_break
                    && glyphs@[j].span == orig[j].span && glyphs@[j].x_offset == orig[j].x_offset
                    && glyphs@[j].y_offset == orig[j].y_offset,
            forall|j: int|
                0 <= j < i && orig[j].c != '\u{00A0}' ==> #[trigger] glyphs@[j] == spec_post_one(
                    orig[j],
                    spec_spacing_em(*styles),
                    spec_tracking_em(*styles),
                    spec_cluster_end(orig, j),
                ),
            ds.len() == i,
            forall|j: int| 0 <= j < i ==> -2 * EM_RAW_MAX <= #[trigger] ds[j] <= 2 * EM_RAW_MAX,
            forall|j: int|
                0 <= j < i && orig[j].c == '\u{00A0}' ==> #[trigger] glyphs@[j] == spec_post_one(
                    spec_nbsp_sub(orig[j], ds[j]),
                    spec_spacing_em(*styles),
                    spec_tracking_em(*styles),
                    spec_cluster_end(orig, j),
                ),
        decreases glyphs@.len() - i,
    {
        proof {
            assert(glyphs@[i as int] == orig[i as int]);
            assert(orig[i as int].wf());
        }
        let g = glyph_at(glyphs, i);
        let mut adv = g.x_advance;
        let mut delta_units: i64 = 0;

        // Make the no-break space as wide as a normal space.
        if g.c == '\u{00A0}' {
            match nbsp_delta(host, &g.font) {
                Some(d) => {
                    delta_units = d.units;
                },
                None => {},
            }
            adv = Em::new(adv.units - delta_units);
        }
        let ghost after_nbsp = adv;

        // A spacing override replaces a space's advance.
        if g.is_space() {
            match spacing {
                Some(p) => {
                    proof {
                        crate::geom::lemma_mul_bound(
                            p.0.permille as int,
                            adv.units as int,
                            10000,
                            3 * EM_RAW_MAX as int,
                        );
                        crate::geom::lemma_div_shrinks(
                            p.0.permille as int * adv.units as int,
                            1000,
                        );
                    }
                    adv = Em::new(p.0.permille * adv.units / 1000 + p.1.units);
                },
                None => {},
            }
        }

        // Tracking widens every glyph that closes a cluster, except the last
        // glyph of the run.
        let mut cluster_end = false;
        if i + 1 < glyphs.len() {
            if g.range.start != glyph_at(glyphs, i + 1).range.start {
                cluster_end = true;
            }
        }
        if cluster_end {
            adv = Em::new(adv.units + tracking.units);
        }

        glyphs.set(i, ShapedGlyph { x_advance: adv, ..g });

        proof {
            ds = ds.push(delta_units as int);
            if orig[i as int].c == '\u{00A0}' {
                assert(glyphs@[i as int] == spec_post_one(
                    spec_nbsp_sub(orig[i as int], delta_units as int),
                    spec_spacing_em(*styles),
                    spec_tracking_em(*styles),
                    spec_cluster_end(orig, i as int),
                ));
            }
        }
        i += 1;
    }
    proof {
        assert forall|j: int| 0 <= j < orig.len() && (#[trigger] orig[j]).c == '\u{00A0}'
            implies exists|d: int|
            -2 * EM_RAW_MAX <= d <= 2 * EM_RAW_MAX && glyphs@[j] == spec_post_one(
                spec_nbsp_sub(orig[j], d),
                spec_spacing_em(*styles),
                spec_tracking_em(*styles),
                spec_cluster_end(orig, j),
            ) by {
            let d = ds[j];
            assert(-2 * EM_RAW_MAX <= d <= 2 * EM_RAW_MAX);
            assert(glyphs@[j] == spec_post_one(
                spec_nbsp_sub(orig[j], d),
                spec_spacing_em(*styles),
                spec_tracking_em(*styles),
                spec_cluster_end(orig, j),
            ));
        }
    }
}

/// Shape a run of text at paragraph offset `base` with the given styles and
/// direction. The glyphs come out in visual order, every cluster range lies
/// inside the text, and the cached width is the sum of the resolved
/// advances.
pub fn shape<H: ShapingHost>(
    host: &H,
    base: usize,
    text: Vec<char>,
    styles: Styles,
    dir: Dir,
) -> (s: ShapedText)
    requires
        styles.wf(),
        base + text@.len() <= usize::MAX,
    ensures
        s.wf(),
        s.base == base,
        s.text@ == text@,
        s.dir == dir,
        s.styles == styles,
        s.variant == crate::styles::spec_variant(styles),
        glyphs_ordered(s.glyphs@, dir == Dir::Ltr),
        (forall|i: int| 0 <= i < text@.len() ==> text@[i] == '\n' || text@[i] == '\t')
            ==> s.glyphs@.len() == 0,
        forall|k: int|
            0 <= k < s.glyphs@.len() ==> (#[trigger] s.glyphs@[k]).c == text@[
                s.glyphs@[k].range.start - base],
{
    let size = styles.size;
    let var = variant(&styles);
    let mut ctx = ShapingCtx {
        glyphs: Vec::new(),
        used: Vec::new(),
        variant: var,
        features: tags(&styles),
        lang: language(&styles),
        fallback: styles.fallback,
        dir,
        size,
    };

    if text.len() > 0 {
        let fams = families(&styles);
        shape_segment(host, &mut ctx, base, &text, 0, text.len(), &fams, 0);
    }

    track_and_space(host, &mut ctx.glyphs, &styles);

    let width = compute_width(&ctx.glyphs, size);

    ShapedText { base, text, dir, styles, variant: var, size, width, glyphs: ctx.glyphs }
}

/// The character at an offset of the text.
fn char_at(text: &Vec<char>, i: usize) -> (c: char)
    requires
        i < text@.len(),
    ensures
        c == text@[i as int],
{
    text[i]
}

/// The glyph at an index of a glyph vector.
fn glyph_at(glyphs: &Vec<ShapedGlyph>, i: usize) -> (r: ShapedGlyph)
    requires
        i < glyphs@.len(),
    ensures
        r == glyphs@[i as int],
{
    glyphs[i]
}

/// The raw glyph at an index of a shaper run.
fn raw_at(run: &Vec<RawGlyph>, i: usize) -> (r: RawGlyph)
    requires
        i < run@.len(),
    ensures
        r == run@[i as int],
{
    run[i]
}

/// Whether the last glyph's cluster starts inside the window
/// `[rs, re)` of paragraph offsets.
fn last_starts_in(glyphs: &Vec<ShapedGlyph>, rs: usize, re: usize) -> (r: bool)
    ensures
        r == (glyphs@.len() > 0 && rs <= glyphs@.last().range.start < re),
{
    let len = glyphs.len();
    if len == 0 {
        return false;
    }
    let gstart = glyphs[len - 1].range.start;
    rs <= gstart && gstart < re
}


} // verus!
