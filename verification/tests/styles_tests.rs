use shaping::font::{FamilyName, FontStyle};
use shaping::geom::{Abs, Dir, Em, Relative};
use shaping::styles::{
    families, language, tag, tags, variant, Edge, Feature, NumberType, NumberWidth, Spacing,
    Styles,
};

fn plain_styles() -> Styles {
    Styles {
        font_list: vec![FamilyName { name: String::from("alpha") }],
        fallback: false,
        style: FontStyle::Normal,
        weight: 400,
        stretch: 1000,
        delta: 0,
        emph: false,
        size: Abs { raw: 12000 },
        tracking: Abs { raw: 0 },
        spacing: None,
        lang: vec!['d', 'e'],
        region: None,
        top_edge: Edge::CapHeight,
        bottom_edge: Edge::Baseline,
        baseline_shift: Abs { raw: 0 },
        fill: 0,
        kerning: true,
        smallcaps: false,
        alternates: false,
        stylistic_set: None,
        ligatures: true,
        discretionary_ligatures: false,
        historical_ligatures: false,
        number_type: None,
        number_width: None,
        slashed_zero: false,
        fractions: false,
        features: Vec::new(),
    }
}

#[test]
fn default_styles_need_no_features() {
    let styles = plain_styles();
    assert_eq!(tags(&styles), Vec::new());
}

#[test]
fn disabled_kerning_and_ligatures_pass_disables() {
    let mut styles = plain_styles();
    styles.kerning = false;
    styles.ligatures = false;
    let feats = tags(&styles);
    assert_eq!(
        feats,
        vec![
            Feature { tag: tag(b'k', b'e', b'r', b'n'), value: 0 },
            Feature { tag: tag(b'l', b'i', b'g', b'a'), value: 0 },
            Feature { tag: tag(b'c', b'l', b'i', b'g'), value: 0 },
        ]
    );
}

#[test]
fn stylistic_set_number_lands_in_tag() {
    let mut styles = plain_styles();
    styles.stylistic_set = Some(13);
    styles.number_type = Some(NumberType::OldStyle);
    styles.number_width = Some(NumberWidth::Tabular);
    styles.slashed_zero = true;
    let feats = tags(&styles);
    assert_eq!(
        feats,
        vec![
            Feature { tag: tag(b's', b's', b'1', b'3'), value: 1 },
            Feature { tag: tag(b'o', b'n', b'u', b'm'), value: 1 },
            Feature { tag: tag(b't', b'n', b'u', b'm'), value: 1 },
            Feature { tag: tag(b'z', b'e', b'r', b'o'), value: 1 },
        ]
    );
}

#[test]
fn user_features_come_last() {
    let mut styles = plain_styles();
    styles.smallcaps = true;
    styles.features = vec![Feature { tag: tag(b'c', b'v', b'0', b'1'), value: 2 }];
    let feats = tags(&styles);
    assert_eq!(
        feats,
        vec![
            Feature { tag: tag(b's', b'm', b'c', b'p'), value: 1 },
            Feature { tag: tag(b'c', b'v', b'0', b'1'), value: 2 },
        ]
    );
}

#[test]
fn variant_thickens_weight_and_toggles_emphasis() {
    let mut styles = plain_styles();
    styles.delta = 300;
    styles.emph = true;
    let v = variant(&styles);
    assert_eq!(v.weight, 700);
    assert_eq!(v.style, FontStyle::Italic);
    assert_eq!(v.stretch, 1000);

    styles.style = FontStyle::Oblique;
    let v2 = variant(&styles);
    assert_eq!(v2.style, FontStyle::Normal);

    styles.delta = -1_000_000;
    let v3 = variant(&styles);
    assert_eq!(v3.weight, 0);
}

#[test]
fn families_append_fallback_list() {
    let mut styles = plain_styles();
    styles.fallback = true;
    let fams = families(&styles);
    let names: Vec<&str> = fams.iter().map(|f| f.name.as_str()).collect();
    assert_eq!(
        names,
        vec![
            "alpha",
            "linux libertine",
            "twitter color emoji",
            "noto color emoji",
            "apple color emoji",
            "segoe ui emoji",
        ]
    );
    styles.fallback = false;
    assert_eq!(families(&styles).len(), 1);
}

#[test]
fn language_joins_region_with_dash() {
    let mut styles = plain_styles();
    assert_eq!(language(&styles), vec!['d', 'e']);
    styles.region = Some(vec!['C', 'H']);
    assert_eq!(language(&styles), vec!['d', 'e', '-', 'C', 'H']);
}

#[test]
fn relative_resolves_in_thousandths() {
    let half = Relative::new(500);
    assert_eq!(half.resolve(Abs::new(10000)).raw, 5000);
    assert_eq!(Relative::one().get(), 1000);
    assert!(Relative::zero().is_zero());
    assert_eq!(Relative::new(-700).abs().get(), 700);
    assert_eq!(Relative::new(-500).resolve(Abs::new(1000)).raw, -500);
}

#[test]
fn em_conversions_scale_by_units_per_em() {
    assert_eq!(Em::from_units(512, 1024).units, 500);
    assert_eq!(Em::from_units(-512, 1024).units, -500);
    assert_eq!(Em::one().units, 1000);
    assert_eq!(Em::new(600).at(Abs::new(10000)).raw, 6000);
    assert_eq!(Em::from_length(Abs::new(1000), Abs::new(10000)).units, 100);
}

#[test]
fn edges_resolve_against_metrics() {
    let m = shaping::font::FontMetrics {
        ascender: Em { units: 800 },
        cap_height: Em { units: 700 },
        x_height: Em { units: 500 },
        descender: Em { units: -200 },
    };
    let size = Abs::new(10000);
    assert_eq!(Edge::Ascender.resolve(size, m).raw, 8000);
    assert_eq!(Edge::Descender.resolve(size, m).raw, -2000);
    assert_eq!(Edge::Baseline.resolve(size, m).raw, 0);
    assert_eq!(Edge::Length(Abs::new(777)).resolve(size, m).raw, 777);
}

#[test]
fn directions_know_their_sign() {
    assert!(Dir::Ltr.is_positive());
    assert!(!Dir::Rtl.is_positive());
}

#[test]
fn duplicate_styles_match_their_source() {
    let mut styles = plain_styles();
    styles.spacing = Some(Spacing { ratio: Relative::new(0), length: Abs::new(100) });
    styles.region = Some(vec!['A', 'T']);
    let copy = styles.duplicate();
    assert_eq!(copy.font_list[0].name, styles.font_list[0].name);
    assert_eq!(copy.lang, styles.lang);
    assert_eq!(copy.region, styles.region);
    assert_eq!(copy.spacing, styles.spacing);
    assert_eq!(copy.size, styles.size);
}
