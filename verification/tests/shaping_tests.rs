use shaping::font::{FamilyName, Font, FontMetrics, FontStyle, FontVariant};
use shaping::geom::{Abs, Dir, Em, Relative};
use shaping::glyph::ShapedGlyph;
use shaping::shape::{shape, track_and_space, RawGlyph, ShapingHost};
use shaping::styles::{Edge, Styles};

const PRIMARY: u64 = 1;
const BACKUP: u64 = 2;

fn metrics() -> FontMetrics {
    FontMetrics {
        ascender: Em { units: 800 },
        cap_height: Em { units: 700 },
        x_height: Em { units: 500 },
        descender: Em { units: -200 },
    }
}

fn font(id: u64) -> Font {
    Font { id, units_per_em: 1000, metrics: metrics() }
}

/// A host over two synthetic fonts: the primary covers everything but
/// U+FFFF, the backup covers everything.
struct MockHost;

fn coverage(font_id: u64, c: char) -> Option<(u16, i64)> {
    if font_id == PRIMARY && c == '\u{FFFF}' {
        return None;
    }
    let gid = (1 + (c as u32 % 60000)) as u16;
    let advance = if c == ' ' {
        500
    } else if c == '\u{00A0}' {
        600
    } else if c == '\u{FF0C}' || c == '\u{201D}' {
        1000
    } else if font_id == BACKUP {
        700
    } else {
        600
    };
    Some((gid, advance))
}

impl ShapingHost for MockHost {
    fn select_font(&self, family: &FamilyName, _variant: FontVariant) -> Option<Font> {
        match family.name.as_str() {
            "primary" => Some(font(PRIMARY)),
            "backup" => Some(font(BACKUP)),
            _ => None,
        }
    }

    fn select_fallback_font(
        &self,
        _first_used: Option<&Font>,
        _variant: FontVariant,
        _text: &Vec<char>,
        _lo: usize,
        _hi: usize,
    ) -> Option<Font> {
        Some(font(BACKUP))
    }

    fn glyph_index(&self, font: &Font, c: char) -> Option<u16> {
        coverage(font.id, c).map(|p| p.0)
    }

    fn advance_units(&self, font: &Font, glyph_id: u16) -> Option<i64> {
        if glyph_id == 0 {
            return Some(500);
        }
        // The mock's advances depend only on a few classes; recover the
        // class from the glyph for spaces used in tests.
        if glyph_id == 1 + (' ' as u32 % 60000) as u16 {
            Some(500)
        } else if glyph_id == 1 + (0x00A0u32 % 60000) as u16 {
            Some(600)
        } else if font.id == BACKUP {
            Some(700)
        } else {
            Some(600)
        }
    }

    fn shape_run(
        &self,
        font: &Font,
        text: &Vec<char>,
        lo: usize,
        hi: usize,
        dir: Dir,
        _lang: &Vec<char>,
        _features: &Vec<shaping::styles::Feature>,
    ) -> Vec<RawGlyph> {
        let mut run = Vec::new();
        let n = hi - lo;
        for k in 0..n {
            let cluster = if dir == Dir::Ltr { k } else { n - 1 - k };
            let c = text[lo + cluster];
            let (gid, adv) = match coverage(font.id, c) {
                Some(p) => p,
                None => (0, 0),
            };
            run.push(RawGlyph {
                glyph_id: gid as u32,
                cluster,
                unsafe_to_break: false,
                x_advance: adv,
                x_offset: 0,
                y_offset: 0,
            });
        }
        run
    }

    fn span_at(&self, offset: usize) -> shaping::glyph::Span {
        shaping::glyph::Span { id: offset as u64, offset: 0 }
    }
}

fn base_styles() -> Styles {
    Styles {
        font_list: vec![FamilyName { name: String::from("primary") }],
        fallback: true,
        style: FontStyle::Normal,
        weight: 400,
        stretch: 1000,
        delta: 0,
        emph: false,
        size: Abs { raw: 10000 },
        tracking: Abs { raw: 0 },
        spacing: None,
        lang: vec!['e', 'n'],
        region: None,
        top_edge: Edge::CapHeight,
        bottom_edge: Edge::Baseline,
        baseline_shift: Abs { raw: 0 },
        fill: 0,
        kerning: true,
        smallcaps: false,
        alternates: false,
        stylistic_set: None,
        ligatures: true,
        discretionary_ligatures: false,
        historical_ligatures: false,
        number_type: None,
        number_width: None,
        slashed_zero: false,
        fractions: false,
        features: Vec::new(),
    }
}

fn chars(s: &str) -> Vec<char> {
    s.chars().collect()
}

#[test]
fn hello_five_glyphs() {
    let s = shape(&MockHost, 0, chars("Hello"), base_styles(), Dir::Ltr);
    assert_eq!(s.glyphs.len(), 5);
    for (i, g) in s.glyphs.iter().enumerate() {
        assert_eq!(g.range.start, i);
        assert_eq!(g.range.end, i + 1);
        assert!(g.safe_to_break);
        assert_eq!(g.x_advance.units, 600);
    }
    // width is the sum of the advances at the size: 5 * 600 em-thousandths
    // at 10pt.
    assert_eq!(s.width.raw, 5 * 6000);
}

#[test]
fn justified_build_width_grows_by_stretchability() {
    let s = shape(&MockHost, 0, chars("Hi world"), base_styles(), Dir::Ltr);
    let stretch = s.stretchability();
    assert_eq!(stretch.raw, 2500);
    let frame = s.build(&MockHost, Relative { permille: 1000 }, Abs { raw: 0 });
    assert_eq!(frame.size_x.raw, s.width.raw + stretch.raw);
}

#[test]
fn rtl_visual_order_decreases() {
    let s = shape(&MockHost, 0, chars("\u{645}\u{631}\u{62D}\u{628}\u{627}"), base_styles(), Dir::Rtl);
    assert_eq!(s.glyphs.len(), 5);
    for w in s.glyphs.windows(2) {
        assert!(w[0].range.start > w[1].range.start);
    }
}

#[test]
fn fallback_covers_unavailable_codepoint() {
    let s = shape(&MockHost, 0, chars("ab\u{FFFF}cd"), base_styles(), Dir::Ltr);
    assert_eq!(s.glyphs.len(), 5);
    for g in s.glyphs.iter() {
        assert_ne!(g.glyph_id, 0);
    }
    assert_eq!(s.glyphs[0].font.id, PRIMARY);
    assert_eq!(s.glyphs[1].font.id, PRIMARY);
    assert_eq!(s.glyphs[2].font.id, BACKUP);
    assert_eq!(s.glyphs[3].font.id, PRIMARY);
    assert_eq!(s.glyphs[4].font.id, PRIMARY);
}

#[test]
fn tofus_remain_without_fallback() {
    let mut styles = base_styles();
    styles.fallback = false;
    let s = shape(&MockHost, 0, chars("a\u{FFFF}b"), styles, Dir::Ltr);
    assert_eq!(s.glyphs.len(), 3);
    assert_eq!(s.glyphs[1].glyph_id, 0);
    assert_eq!(s.glyphs[1].font.id, PRIMARY);
}

#[test]
fn reshape_reuses_safe_slice() {
    let s = shape(&MockHost, 0, chars("AB"), base_styles(), Dir::Ltr);
    let sub = s.reshape(&MockHost, 0, 1);
    assert_eq!(sub.base, 0);
    assert_eq!(sub.glyphs.len(), 1);
    assert_eq!(sub.glyphs[0].range.start, 0);
    assert_eq!(sub.glyphs[0].range.end, 1);
    assert_eq!(sub.width.raw, 6000);
}

#[test]
fn reshape_whole_range_is_identity() {
    let s = shape(&MockHost, 3, chars("abc"), base_styles(), Dir::Ltr);
    let again = s.reshape(&MockHost, 3, 6);
    assert_eq!(again.glyphs, s.glyphs);
    assert_eq!(again.width.raw, s.width.raw);
    assert_eq!(again.base, s.base);
    assert_eq!(again.text, s.text);
}

#[test]
fn nbsp_narrows_to_space_width() {
    let s = shape(&MockHost, 0, chars("A\u{00A0}B"), base_styles(), Dir::Ltr);
    assert_eq!(s.glyphs[1].c, '\u{00A0}');
    assert_eq!(s.glyphs[1].x_advance.units, 500);
}

#[test]
fn cjk_comma_is_left_aligned_punctuation() {
    let s = shape(&MockHost, 0, chars("\u{FF0C}"), base_styles(), Dir::Ltr);
    assert_eq!(s.glyphs.len(), 1);
    let g = &s.glyphs[0];
    assert!(g.is_cjk_left_aligned_punctuation());
    let shrink = g.shrinkability();
    assert_eq!(shrink.0.units, 0);
    assert_eq!(shrink.1.units, 500);
    let stretch = g.stretchability();
    assert_eq!(stretch.0.units, 0);
    assert_eq!(stretch.1.units, 0);
}

#[test]
fn latin_quote_counts_only_at_one_em() {
    let wide = ShapedGlyph {
        font: font(PRIMARY),
        glyph_id: 9,
        x_advance: Em { units: 1000 },
        x_offset: Em { units: 0 },
        y_offset: Em { units: 0 },
        range: shaping::glyph::TextRange { start: 0, end: 1 },
        safe_to_break: true,
        c: '\u{201D}',
        span: shaping::glyph::Span { id: 0, offset: 0 },
    };
    assert!(wide.is_cjk_left_aligned_punctuation());
    let narrow = ShapedGlyph { x_advance: Em { units: 600 }, ..wide };
    assert!(!narrow.is_cjk_left_aligned_punctuation());
}

#[test]
fn push_hyphen_appends_empty_range() {
    let mut s = shape(&MockHost, 9, chars("AB"), base_styles(), Dir::Ltr);
    assert_eq!(s.glyphs.last().unwrap().range.start, 10);
    assert_eq!(s.glyphs.last().unwrap().range.end, 11);
    let before = s.width.raw;
    s.push_hyphen(&MockHost);
    assert_eq!(s.glyphs.len(), 3);
    let h = s.glyphs.last().unwrap();
    assert_eq!(h.c, '-');
    assert_eq!(h.range.start, 11);
    assert_eq!(h.range.end, 11);
    assert!(h.safe_to_break);
    assert_eq!(s.width.raw, before + 6000);
}

#[test]
fn justifiables_count_spaces_and_cjk() {
    let s = shape(&MockHost, 0, chars("a b\u{FF0C}"), base_styles(), Dir::Ltr);
    assert_eq!(s.justifiables(), 2);
    assert!(s.justifiables() <= s.glyphs.len());
    assert!(s.cjk_justifiable_at_last());
}

#[test]
fn post_processing_twice_equals_once_without_tracking() {
    let s = shape(&MockHost, 0, chars("a b"), base_styles(), Dir::Ltr);
    let mut once = s.glyphs.clone();
    let styles = base_styles();
    track_and_space(&MockHost, &mut once, &styles);
    let mut twice = once.clone();
    track_and_space(&MockHost, &mut twice, &styles);
    assert_eq!(once, twice);
}

#[test]
fn tracking_widens_cluster_ends_but_not_last() {
    let mut styles = base_styles();
    styles.tracking = Abs { raw: 1000 };
    let s = shape(&MockHost, 0, chars("ab"), styles, Dir::Ltr);
    // 1000 thousandths of a point at a 10pt size is 100 em-thousandths.
    assert_eq!(s.glyphs[0].x_advance.units, 700);
    assert_eq!(s.glyphs[1].x_advance.units, 600);
}

#[test]
fn spacing_replaces_space_advance() {
    let mut styles = base_styles();
    styles.spacing = Some(shaping::styles::Spacing {
        ratio: Relative { permille: 0 },
        length: Abs { raw: 20000 },
    });
    let s = shape(&MockHost, 0, chars("a b"), styles, Dir::Ltr);
    // 20000 thousandths of a point at 10pt is 2000 em-thousandths.
    assert_eq!(s.glyphs[1].x_advance.units, 2000);
    assert_eq!(s.glyphs[0].x_advance.units, 600);
}

#[test]
fn empty_and_whitespace_text_shape_to_nothing() {
    let s = shape(&MockHost, 0, chars(""), base_styles(), Dir::Ltr);
    assert_eq!(s.glyphs.len(), 0);
    assert_eq!(s.width.raw, 0);
    let t = shape(&MockHost, 0, chars("\n\t\n"), base_styles(), Dir::Ltr);
    assert_eq!(t.glyphs.len(), 0);
}

#[test]
fn measure_uses_cap_height_top_edge() {
    let s = shape(&MockHost, 0, chars("x"), base_styles(), Dir::Ltr);
    let (top, bottom) = s.measure(&MockHost);
    // cap height of 700 em-thousandths at 10pt.
    assert_eq!(top.raw, 7000);
    assert_eq!(bottom.raw, 0);
    let frame = s.build(&MockHost, Relative { permille: 0 }, Abs { raw: 0 });
    assert_eq!(frame.baseline.raw, 7000);
    assert_eq!(frame.size_x.raw, s.width.raw);
}

#[test]
fn shrink_justification_narrows_frame() {
    let s = shape(&MockHost, 0, chars("a b"), base_styles(), Dir::Ltr);
    let shrink = s.shrinkability();
    // a space of 500 em-thousandths shrinks by a third: 166 at 10pt gives
    // 1660 point-thousandths.
    assert_eq!(shrink.raw, 1660);
    let frame = s.build(&MockHost, Relative { permille: -1000 }, Abs { raw: 0 });
    assert_eq!(frame.size_x.raw, s.width.raw - shrink.raw);
}

#[test]
fn extra_justification_widens_each_justifiable() {
    let s = shape(&MockHost, 0, chars("a b"), base_styles(), Dir::Ltr);
    // 5000 thousandths of a point of extra justification at 10pt is 500
    // em-thousandths on the one justifiable glyph.
    let frame = s.build(&MockHost, Relative { permille: 0 }, Abs { raw: 5000 });
    assert_eq!(frame.size_x.raw, s.width.raw + 5000);
}

#[test]
fn is_cjk_recognizes_hiragana() {
    let g = ShapedGlyph {
        font: font(PRIMARY),
        glyph_id: 5,
        x_advance: Em { units: 1000 },
        x_offset: Em { units: 0 },
        y_offset: Em { units: 0 },
        range: shaping::glyph::TextRange { start: 0, end: 1 },
        safe_to_break: true,
        c: '\u{3042}',
        span: shaping::glyph::Span { id: 0, offset: 0 },
    };
    assert!(g.is_cjk());
    assert!(g.is_justifiable());
    let latin = ShapedGlyph { c: 'a', ..g };
    assert!(!latin.is_cjk());
    let prolonged = ShapedGlyph { c: '\u{30FC}', ..g };
    assert!(prolonged.is_cjk());
}

/// A host like the mock, except that its shaper marks every boundary unsafe
/// to break.
struct UnsafeHost;

impl ShapingHost for UnsafeHost {
    fn select_font(&self, family: &FamilyName, variant: FontVariant) -> Option<Font> {
        MockHost.select_font(family, variant)
    }

    fn select_fallback_font(
        &self,
        first_used: Option<&Font>,
        variant: FontVariant,
        text: &Vec<char>,
        lo: usize,
        hi: usize,
    ) -> Option<Font> {
        MockHost.select_fallback_font(first_used, variant, text, lo, hi)
    }

    fn glyph_index(&self, font: &Font, c: char) -> Option<u16> {
        MockHost.glyph_index(font, c)
    }

    fn advance_units(&self, font: &Font, glyph_id: u16) -> Option<i64> {
        MockHost.advance_units(font, glyph_id)
    }

    fn shape_run(
        &self,
        font: &Font,
        text: &Vec<char>,
        lo: usize,
        hi: usize,
        dir: Dir,
        lang: &Vec<char>,
        features: &Vec<shaping::styles::Feature>,
    ) -> Vec<RawGlyph> {
        let mut run = MockHost.shape_run(font, text, lo, hi, dir, lang, features);
        for g in run.iter_mut() {
            g.unsafe_to_break = true;
        }
        run
    }

    fn span_at(&self, offset: usize) -> shaping::glyph::Span {
        MockHost.span_at(offset)
    }
}

#[test]
fn reshape_falls_back_when_unsafe() {
    let s = shape(&UnsafeHost, 0, chars("AB"), base_styles(), Dir::Ltr);
    assert!(!s.glyphs[1].safe_to_break);
    let sub = s.reshape(&UnsafeHost, 0, 1);
    // The boundary inside the run is unsafe, so the sub-range is shaped
    // afresh; the outcome is the same glyph either way.
    assert_eq!(sub.glyphs.len(), 1);
    assert_eq!(sub.base, 0);
    assert_eq!(sub.glyphs[0].range.start, 0);
    assert_eq!(sub.glyphs[0].range.end, 1);
    assert_eq!(sub.width.raw, 6000);
}

#[test]
fn rtl_reshape_slices_visual_prefix() {
    let s = shape(&MockHost, 0, chars("abc"), base_styles(), Dir::Rtl);
    let sub = s.reshape(&MockHost, 1, 3);
    assert_eq!(sub.glyphs.len(), 2);
    assert_eq!(sub.glyphs[0].range.start, 2);
    assert_eq!(sub.glyphs[1].range.start, 1);
    assert_eq!(sub.width.raw, 12000);
}
