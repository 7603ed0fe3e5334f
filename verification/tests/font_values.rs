use wgpu_bindings::font::{
    AbsoluteFontWeight, Angle, ComputedFontStretch, ComputedFontWeight, FontFamily, FontPalette,
    FontSizeKeyword, FontStretch, FontStretchKeyword, FontStyle, FontVariantAlternates,
    FontVariantEastAsian, FontVariantLigatures, FontVariantNumeric, FontWeight, Length,
    MetricsOverride, MozScriptMinSize, Number, QuirksMode, SpecifiedFontStyle, SystemFont,
    VariantAlternates, XLang, XTextScale, EAST_ASIAN_FULL_WIDTH, EAST_ASIAN_JIS04,
    EAST_ASIAN_JIS78, EAST_ASIAN_PROPORTIONAL_WIDTH, EAST_ASIAN_RUBY, EAST_ASIAN_TRADITIONAL,
    LIGATURES_COMMON, LIGATURES_CONTEXTUAL, LIGATURES_NO_COMMON, LIGATURES_NO_CONTEXTUAL,
    LIGATURES_NO_HISTORICAL, MAX_AU, NUMERIC_DIAGONAL_FRACTIONS, NUMERIC_LINING_NUMS,
    NUMERIC_OLDSTYLE_NUMS, NUMERIC_ORDINAL, NUMERIC_STACKED_FRACTIONS, NUMERIC_TABULAR_NUMS,
};

fn px(n: i32) -> Length {
    Length { au: n * 60 }
}

#[test]
fn font_weight_values() {
    assert_eq!(FontWeight::normal(), FontWeight::Absolute(AbsoluteFontWeight::Normal));
    assert_eq!(
        FontWeight::from_gecko_keyword(700),
        FontWeight::Absolute(AbsoluteFontWeight::Weight(Number { value: 44800, calc: false }))
    );
    assert_eq!(FontWeight::system_font(SystemFont::Menu).get_system(), Some(SystemFont::Menu));
    assert_eq!(FontWeight::Bolder.get_system(), None);
}

#[test]
fn absolute_font_weight_computes_within_bounds() {
    assert_eq!(AbsoluteFontWeight::Normal.compute(), ComputedFontWeight { value: 400 * 64 });
    assert_eq!(AbsoluteFontWeight::Bold.compute(), ComputedFontWeight { value: 700 * 64 });
    assert_eq!(
        AbsoluteFontWeight::Weight(Number::new(350 * 64 + 32)).compute(),
        ComputedFontWeight { value: 350 * 64 + 32 }
    );
    assert_eq!(AbsoluteFontWeight::Weight(Number::new(0)).compute(), ComputedFontWeight { value: 64 });
    assert_eq!(AbsoluteFontWeight::Weight(Number::new(-5)).compute(), ComputedFontWeight { value: 64 });
    assert_eq!(
        AbsoluteFontWeight::Weight(Number::new(2000 * 64)).compute(),
        ComputedFontWeight { value: 64000 }
    );
}

#[test]
fn font_style_values() {
    assert_eq!(SpecifiedFontStyle::default_angle(), Angle { value: 14 * 256, calc: false });
    assert_eq!(FontStyle::normal(), FontStyle::Specified(SpecifiedFontStyle::Oblique(Angle::zero())));
    assert_eq!(SpecifiedFontStyle::compute_angle_degrees(&Angle::from_degrees(100 * 256, false)), 90 * 256);
    assert_eq!(SpecifiedFontStyle::compute_angle_degrees(&Angle::from_degrees(-91 * 256, true)), -90 * 256);
    assert_eq!(SpecifiedFontStyle::compute_angle_degrees(&Angle::from_degrees(33, false)), 33);
    assert!(SpecifiedFontStyle::angle_is_valid(&Angle::from_degrees(90 * 256, false)));
    assert!(!SpecifiedFontStyle::angle_is_valid(&Angle::from_degrees(90 * 256 + 1, false)));
    assert!(SpecifiedFontStyle::angle_is_valid(&Angle::from_degrees(90 * 256 + 1, true)));
    assert_eq!(FontStyle::system_font(SystemFont::Icon).get_system(), Some(SystemFont::Icon));
    assert_eq!(FontStyle::normal().get_system(), None);
}

#[test]
fn font_stretch_keywords() {
    assert_eq!(FontStretch::normal(), FontStretch::Keyword(FontStretchKeyword::Normal));
    let all = [
        (FontStretchKeyword::UltraCondensed, 50 * 64),
        (FontStretchKeyword::ExtraCondensed, 62 * 64 + 32),
        (FontStretchKeyword::Condensed, 75 * 64),
        (FontStretchKeyword::SemiCondensed, 87 * 64 + 32),
        (FontStretchKeyword::Normal, 100 * 64),
        (FontStretchKeyword::SemiExpanded, 112 * 64 + 32),
        (FontStretchKeyword::Expanded, 125 * 64),
        (FontStretchKeyword::ExtraExpanded, 150 * 64),
        (FontStretchKeyword::UltraExpanded, 200 * 64),
    ];
    for (kw, value) in all {
        assert_eq!(kw.compute(), ComputedFontStretch { value });
        assert_eq!(FontStretchKeyword::from_percentage(value), Some(kw));
    }
    assert_eq!(FontStretchKeyword::from_percentage(100 * 64 + 1), None);
    assert_eq!(FontStretch::system_font(SystemFont::MozList).get_system(), Some(SystemFont::MozList));
}

#[test]
fn font_size_keywords() {
    assert_eq!(FontSizeKeyword::XXSmall.html_size(), 0);
    assert_eq!(FontSizeKeyword::Medium.html_size(), 3);
    assert_eq!(FontSizeKeyword::XXXLarge.html_size(), 7);
    assert_eq!(FontSizeKeyword::Math.html_size(), 8);
    assert_eq!(FontSizeKeyword::NoKeyword.html_size(), 9);
    assert!(FontSizeKeyword::Math.is_math());
    assert!(!FontSizeKeyword::Medium.is_math());
}

#[test]
fn keyword_lengths_come_from_the_tables() {
    let std = QuirksMode::NoQuirks;
    let quirks = QuirksMode::Quirks;
    assert_eq!(FontSizeKeyword::Medium.to_length_without_context(std, px(16)), px(16));
    assert_eq!(FontSizeKeyword::XXXLarge.to_length_without_context(std, px(16)), px(48));
    assert_eq!(FontSizeKeyword::XXXLarge.to_length_without_context(std, px(9)), px(27));
    assert_eq!(FontSizeKeyword::XXXLarge.to_length_without_context(quirks, px(9)), px(28));
    assert_eq!(FontSizeKeyword::Small.to_length_without_context(std, px(11)), px(10));
    assert_eq!(FontSizeKeyword::Small.to_length_without_context(quirks, px(11)), px(9));
    assert_eq!(FontSizeKeyword::Large.to_length_without_context(QuirksMode::LimitedQuirks, px(13)), px(16));
    // 12.5px rounds to 13, 12.49px to 12.
    assert_eq!(FontSizeKeyword::Medium.to_length_without_context(std, Length { au: 750 }), px(13));
    assert_eq!(FontSizeKeyword::Medium.to_length_without_context(std, Length { au: 749 }), px(12));
    // Outside the tables the keyword is a percentage of the base size.
    assert_eq!(FontSizeKeyword::XXSmall.to_length_without_context(std, px(20)), px(12));
    assert_eq!(FontSizeKeyword::Small.to_length_without_context(quirks, px(20)), Length { au: 1068 });
    assert_eq!(FontSizeKeyword::XLarge.to_length_without_context(std, px(8)), px(12));
    assert_eq!(
        FontSizeKeyword::XXXLarge.to_length_without_context(std, Length { au: MAX_AU }),
        Length { au: MAX_AU }
    );
    assert_eq!(FontSizeKeyword::Small.to_length_without_context(std, Length { au: -100 }), Length { au: -89 });
}

#[test]
fn variant_alternates_length() {
    assert_eq!(FontVariantAlternates::get_initial_specified_value().len(), 0);
    let v = FontVariantAlternates(vec![
        VariantAlternates::Stylistic("a".to_string()),
        VariantAlternates::HistoricalForms,
        VariantAlternates::Styleset(vec!["b".to_string(), "c".to_string(), "d".to_string()]),
        VariantAlternates::CharacterVariant(vec![]),
        VariantAlternates::Swash("e".to_string()),
        VariantAlternates::Ornaments("f".to_string()),
        VariantAlternates::Annotation("g".to_string()),
    ]);
    assert_eq!(v.len(), 7);
}

#[test]
fn east_asian_flags() {
    assert!(FontVariantEastAsian(0).validate_mixed_flags());
    assert!(FontVariantEastAsian(EAST_ASIAN_JIS78 | EAST_ASIAN_FULL_WIDTH | EAST_ASIAN_RUBY).validate_mixed_flags());
    assert!(FontVariantEastAsian(EAST_ASIAN_TRADITIONAL | EAST_ASIAN_PROPORTIONAL_WIDTH).validate_mixed_flags());
    assert!(!FontVariantEastAsian(EAST_ASIAN_FULL_WIDTH | EAST_ASIAN_PROPORTIONAL_WIDTH).validate_mixed_flags());
    assert!(!FontVariantEastAsian(EAST_ASIAN_JIS78 | EAST_ASIAN_JIS04).validate_mixed_flags());
    assert!(!FontVariantEastAsian(EAST_ASIAN_JIS04 | EAST_ASIAN_TRADITIONAL | EAST_ASIAN_RUBY).validate_mixed_flags());
}

#[test]
fn ligature_flags() {
    assert!(FontVariantLigatures(0).validate_mixed_flags());
    assert!(FontVariantLigatures(LIGATURES_COMMON | LIGATURES_NO_HISTORICAL | LIGATURES_CONTEXTUAL).validate_mixed_flags());
    assert!(!FontVariantLigatures(LIGATURES_COMMON | LIGATURES_NO_COMMON).validate_mixed_flags());
    assert!(!FontVariantLigatures(LIGATURES_CONTEXTUAL | LIGATURES_NO_CONTEXTUAL | LIGATURES_COMMON).validate_mixed_flags());
}

#[test]
fn numeric_flags() {
    assert!(FontVariantNumeric(0).validate_mixed_flags());
    assert!(FontVariantNumeric(NUMERIC_LINING_NUMS | NUMERIC_TABULAR_NUMS | NUMERIC_ORDINAL).validate_mixed_flags());
    assert!(!FontVariantNumeric(NUMERIC_LINING_NUMS | NUMERIC_OLDSTYLE_NUMS).validate_mixed_flags());
    assert!(!FontVariantNumeric(NUMERIC_DIAGONAL_FRACTIONS | NUMERIC_STACKED_FRACTIONS).validate_mixed_flags());
}

#[test]
fn palettes_and_initial_values() {
    assert_eq!(FontPalette::normal(), FontPalette("normal".to_string()));
    assert_eq!(FontPalette::light(), FontPalette("light".to_string()));
    assert_eq!(FontPalette::dark(), FontPalette("dark".to_string()));
    assert_eq!(XLang::get_initial_value(), XLang(String::new()));
    assert_eq!(MozScriptMinSize::get_initial_value(), Length { au: 640 });
    assert_eq!(MetricsOverride::normal(), MetricsOverride::Normal);
    assert_eq!(MetricsOverride::Normal.compute().value, -64);
    assert_eq!(MetricsOverride::Override(Number::new(96)).compute().value, 96);
    assert!(XTextScale::All.text_zoom_enabled());
    assert!(XTextScale::ZoomOnly.text_zoom_enabled());
    assert!(!XTextScale::Neither.text_zoom_enabled());
    assert_eq!(FontFamily::system_font(SystemFont::Caption).get_system(), Some(SystemFont::Caption));
    assert_eq!(FontFamily::Values(vec!["serif".to_string()]).get_system(), None);
}

#[test]
fn lengths_round_to_pixels_and_stay_in_range() {
    assert_eq!(Length::new(1 << 40), Length { au: MAX_AU });
    assert_eq!(Length::new(-(1 << 40)), Length { au: -MAX_AU });
    assert_eq!(Length::new(61), Length { au: 61 });
    assert_eq!(Length { au: 29 }.px_round(), 0);
    assert_eq!(Length { au: 30 }.px_round(), 1);
    assert_eq!(Length { au: -30 }.px_round(), -1);
    assert_eq!(Length { au: -29 }.px_round(), 0);
    assert_eq!(Length { au: 960 }.px_round(), 16);
}
