use wgpu_bindings::font::{
    AbsoluteFontWeight, Angle, FontLanguageOverride, FontPalette, FontSize, FontSizeKeyword,
    FontVariantAlternates, Integer, KeywordInfo, Length, MathDepth, Number, SpecifiedFontStyle,
    SystemFont, VariantAlternates,
};
use wgpu_bindings::font_parse::{
    font_style_keyword, is_custom_ident, is_keyword, parse_one_feature_value, tokenize, CssToken,
    FontStyleKeyword,
};

fn s(text: &str) -> String {
    text.to_string()
}

#[test]
fn text_is_cut_into_tokens() {
    assert_eq!(tokenize(""), Some(vec![]));
    assert_eq!(tokenize("   /* nothing */ "), Some(vec![]));
    assert_eq!(
        tokenize("swash(flowing) , 'q' 12px )"),
        Some(vec![
            CssToken::Function(s("swash")),
            CssToken::Ident(s("flowing")),
            CssToken::CloseParenthesis,
            CssToken::Comma,
            CssToken::QuotedString(s("q")),
            CssToken::Other,
            CssToken::CloseParenthesis,
        ])
    );
    assert_eq!(
        tokenize("gr\u{fc}n(\u{1f600})"),
        Some(vec![
            CssToken::Function(s("gr\u{fc}n")),
            CssToken::Ident(s("\u{1f600}")),
            CssToken::CloseParenthesis,
        ])
    );
}

#[test]
fn keywords_ignore_ascii_case() {
    assert!(is_keyword("NoRmAl", "normal"));
    assert!(is_keyword("historical-forms", "historical-forms"));
    assert!(!is_keyword("normal ", "normal"));
    assert!(!is_keyword("norma1", "normal"));
    assert!(!is_keyword("", "normal"));
    assert!(is_custom_ident("flowing"));
    assert!(!is_custom_ident("Inherit"));
    assert!(!is_custom_ident("default"));
    assert!(!is_custom_ident("REVERT-LAYER"));
    assert!(is_custom_ident("reverted"));
}

#[test]
fn normal_stands_for_no_alternates() {
    assert_eq!(FontVariantAlternates::parse("normal"), Some(FontVariantAlternates(vec![])));
    assert_eq!(FontVariantAlternates::parse(" NORMAL "), Some(FontVariantAlternates(vec![])));
    assert_eq!(FontVariantAlternates::parse("normal swash(a)"), None);
}

#[test]
fn alternates_come_out_in_written_order() {
    assert_eq!(
        FontVariantAlternates::parse(
            "annotation(n) swash(flowing) historical-forms character-variant(c1, c2) \
             styleset(s1,s2 , s3) ornaments(o) stylistic(st)"
        ),
        Some(FontVariantAlternates(vec![
            VariantAlternates::Stylistic(s("st")),
            VariantAlternates::HistoricalForms,
            VariantAlternates::Styleset(vec![s("s1"), s("s2"), s("s3")]),
            VariantAlternates::CharacterVariant(vec![s("c1"), s("c2")]),
            VariantAlternates::Swash(s("flowing")),
            VariantAlternates::Ornaments(s("o")),
            VariantAlternates::Annotation(s("n")),
        ]))
    );
    assert_eq!(
        FontVariantAlternates::parse("SWASH(x)"),
        Some(FontVariantAlternates(vec![VariantAlternates::Swash(s("x"))]))
    );
    assert_eq!(
        FontVariantAlternates::parse("Historical-Forms"),
        Some(FontVariantAlternates(vec![VariantAlternates::HistoricalForms]))
    );
}

#[test]
fn values_that_are_no_alternates_are_refused() {
    for text in [
        "",
        "bogus",
        "swash(a) swash(b)",
        "historical-forms historical-forms",
        "swash()",
        "swash(a, b)",
        "swash(a b)",
        "swash(initial)",
        "styleset()",
        "styleset(a,)",
        "styleset(a b)",
        "styleset(a, inherit)",
        "unknown(a)",
        "swash(",
        "styleset(",
        "styleset(a,",
        "swash(a,",
        "swash(initial",
        "swash(a) 12px",
        "'swash'",
    ] {
        assert_eq!(FontVariantAlternates::parse(text), None, "{}", text);
    }
}

#[test]
fn reading_stops_where_no_alternate_stands() {
    let tokens = vec![
        CssToken::Function(s("swash")),
        CssToken::Ident(s("a")),
        CssToken::CloseParenthesis,
        CssToken::Function(s("swash")),
        CssToken::Ident(s("b")),
        CssToken::CloseParenthesis,
    ];
    assert_eq!(
        FontVariantAlternates::from_tokens(&tokens),
        Some((FontVariantAlternates(vec![VariantAlternates::Swash(s("a"))]), 3))
    );
    // A kind that is begun counts though its value cannot be read.
    let begun = vec![CssToken::Function(s("swash")), CssToken::Ident(s("initial")), CssToken::CloseParenthesis];
    assert_eq!(FontVariantAlternates::from_tokens(&begun), Some((FontVariantAlternates(vec![]), 0)));
    assert_eq!(FontVariantAlternates::from_tokens(&vec![CssToken::Comma]), None);
    assert_eq!(FontVariantAlternates::from_tokens(&vec![]), None);
    assert_eq!(
        FontVariantAlternates::from_tokens(&vec![CssToken::Ident(s("normal")), CssToken::Comma]),
        Some((FontVariantAlternates(vec![]), 1))
    );
}

#[test]
fn html_font_sizes() {
    let kw = |size| match FontSize::from_html_size(size) {
        FontSize::Keyword(info) => {
            assert_eq!(info.factor, 64);
            assert_eq!(info.offset, Length { au: 0 });
            info.kw
        }
        _ => panic!("not a keyword"),
    };
    assert_eq!(kw(0), FontSizeKeyword::XSmall);
    assert_eq!(kw(1), FontSizeKeyword::XSmall);
    assert_eq!(kw(2), FontSizeKeyword::Small);
    assert_eq!(kw(3), FontSizeKeyword::Medium);
    assert_eq!(kw(4), FontSizeKeyword::Large);
    assert_eq!(kw(5), FontSizeKeyword::XLarge);
    assert_eq!(kw(6), FontSizeKeyword::XXLarge);
    assert_eq!(kw(7), FontSizeKeyword::XXXLarge);
    assert_eq!(kw(200), FontSizeKeyword::XXXLarge);
    assert_eq!(FontSize::medium(), FontSize::Keyword(KeywordInfo::medium()));
    assert_eq!(FontSize::system_font(SystemFont::Menu).get_system(), Some(SystemFont::Menu));
    assert_eq!(FontSize::Smaller.get_system(), None);
}

#[test]
fn keyword_info_composes_factors() {
    let medium = KeywordInfo::medium();
    assert_eq!(medium, KeywordInfo { kw: FontSizeKeyword::Medium, factor: 64, offset: Length { au: 0 } });
    // 1.5 times 1.5 is 2.25.
    let once = medium.compose(96);
    assert_eq!(once.factor, 96);
    let twice = once.compose(96);
    assert_eq!(twice.factor, 144);
    let with_offset = KeywordInfo { kw: FontSizeKeyword::Large, factor: 64, offset: Length { au: 120 } };
    assert_eq!(
        with_offset.compose(32),
        KeywordInfo { kw: FontSizeKeyword::Large, factor: 32, offset: Length { au: 60 } }
    );
    assert_eq!(with_offset.compose(-32).offset, Length { au: -60 });
    assert_eq!(KeywordInfo::none().compose(640), KeywordInfo::none());
    assert_eq!(KeywordInfo::none().kw, FontSizeKeyword::NoKeyword);
}

#[test]
fn language_override_tags() {
    assert_eq!(FontLanguageOverride::normal(), FontLanguageOverride(0));
    assert_eq!(FontLanguageOverride::from_tag(b"SRB"), Some(FontLanguageOverride(0x5352_4220)));
    assert_eq!(FontLanguageOverride::from_tag(b"DEU "), Some(FontLanguageOverride(0x4445_5520)));
    assert_eq!(FontLanguageOverride::from_tag(b"x"), Some(FontLanguageOverride(0x7820_2020)));
    assert_eq!(FontLanguageOverride::from_tag(b"abcd"), Some(FontLanguageOverride(0x6162_6364)));
    assert_eq!(FontLanguageOverride::from_tag(b""), None);
    assert_eq!(FontLanguageOverride::from_tag(b"abcde"), None);
    assert_eq!(FontLanguageOverride::from_tag("d\u{e9}".as_bytes()), None);
}

#[test]
fn language_override_is_normal_or_a_tag() {
    assert_eq!(FontLanguageOverride::parse("normal"), Some(FontLanguageOverride(0)));
    assert_eq!(FontLanguageOverride::parse("  NorMal "), Some(FontLanguageOverride(0)));
    assert_eq!(FontLanguageOverride::parse("\"TRK\""), Some(FontLanguageOverride(0x5452_4b20)));
    assert_eq!(FontLanguageOverride::parse("'a'"), Some(FontLanguageOverride(0x6120_2020)));
    assert_eq!(FontLanguageOverride::parse("\"DEUx\""), Some(FontLanguageOverride(0x4445_5578)));
    // A tag has one to four characters, all of them ASCII.
    assert_eq!(FontLanguageOverride::parse("\"\""), None);
    assert_eq!(FontLanguageOverride::parse("\"abcde\""), None);
    assert_eq!(FontLanguageOverride::parse("\"\u{e9}\""), None);
    // Nothing else is a value.
    assert_eq!(FontLanguageOverride::parse("TRK"), None);
    assert_eq!(FontLanguageOverride::parse("normal normal"), None);
    assert_eq!(FontLanguageOverride::parse("\"TRK\" \"DEU\""), None);
    assert_eq!(FontLanguageOverride::parse(""), None);
    assert_eq!(FontLanguageOverride::parse("12"), None);
    assert_eq!(
        FontLanguageOverride::from_token(&CssToken::QuotedString("ab".to_string())),
        Some(FontLanguageOverride(0x6162_2020))
    );
    assert_eq!(FontLanguageOverride::from_token(&CssToken::Comma), None);
}

#[test]
fn palette_is_a_keyword_or_a_dashed_name() {
    assert_eq!(FontPalette::parse("normal"), Some(FontPalette("normal".to_string())));
    assert_eq!(FontPalette::parse("LIGHT"), Some(FontPalette("light".to_string())));
    assert_eq!(FontPalette::parse(" Dark"), Some(FontPalette("dark".to_string())));
    assert_eq!(FontPalette::parse("--Mine"), Some(FontPalette("--Mine".to_string())));
    assert_eq!(FontPalette::parse("--"), Some(FontPalette("--".to_string())));
    assert_eq!(FontPalette::parse("mine"), None);
    assert_eq!(FontPalette::parse("-mine"), None);
    assert_eq!(FontPalette::parse("\"--mine\""), None);
    assert_eq!(FontPalette::parse("light dark"), None);
    assert_eq!(FontPalette::parse(""), None);
    assert_eq!(FontPalette::from_token(&CssToken::Ident("--p".to_string())), Some(FontPalette("--p".to_string())));
    assert_eq!(FontPalette::from_token(&CssToken::Function("--p".to_string())), None);
}

fn whole(value: i32) -> Integer {
    Integer { value, calc: false }
}

#[test]
fn numbers_are_tokens_with_their_integer() {
    assert_eq!(
        tokenize("7 -3 +2 1.5 4px 50%"),
        Some(vec![
            CssToken::Number(Some(7)),
            CssToken::Number(Some(-3)),
            CssToken::Number(Some(2)),
            CssToken::Number(None),
            CssToken::Other,
            CssToken::Other,
        ])
    );
}

#[test]
fn math_depth_is_auto_add_an_integer_or_an_addition() {
    assert_eq!(MathDepth::parse("auto-add"), Some(MathDepth::AutoAdd));
    assert_eq!(MathDepth::parse("AUTO-ADD"), Some(MathDepth::AutoAdd));
    assert_eq!(MathDepth::parse("3"), Some(MathDepth::Absolute(whole(3))));
    assert_eq!(MathDepth::parse("-2"), Some(MathDepth::Absolute(whole(-2))));
    assert_eq!(MathDepth::parse("add(1)"), Some(MathDepth::Add(whole(1))));
    assert_eq!(MathDepth::parse(" Add( -4 ) "), Some(MathDepth::Add(whole(-4))));
    assert_eq!(MathDepth::parse("1.5"), None);
    assert_eq!(MathDepth::parse("add()"), None);
    assert_eq!(MathDepth::parse("add(1, 2)"), None);
    assert_eq!(MathDepth::parse("add(x)"), None);
    assert_eq!(MathDepth::parse("sub(1)"), None);
    assert_eq!(MathDepth::parse("auto"), None);
    assert_eq!(MathDepth::parse("3 4"), None);
    assert_eq!(MathDepth::parse(""), None);
    // The tokens may go on after the value.
    assert_eq!(
        MathDepth::from_tokens(&vec![CssToken::Number(Some(3)), CssToken::Comma]),
        Some((MathDepth::Absolute(whole(3)), 1))
    );
    assert_eq!(
        MathDepth::from_tokens(&vec![
            CssToken::Function(s("add")),
            CssToken::Number(Some(2)),
            CssToken::CloseParenthesis,
            CssToken::Ident(s("x")),
        ]),
        Some((MathDepth::Add(whole(2)), 3))
    );
    // The end of the tokens ends the function as the parenthesis does.
    assert_eq!(
        MathDepth::from_tokens(&vec![CssToken::Function(s("add")), CssToken::Number(Some(2))]),
        Some((MathDepth::Add(whole(2)), 2))
    );
    assert_eq!(MathDepth::parse("add(1"), Some(MathDepth::Add(whole(1))));
    assert_eq!(MathDepth::parse("add( -7 "), Some(MathDepth::Add(whole(-7))));
    assert_eq!(MathDepth::parse("add("), None);
    assert_eq!(MathDepth::parse("add(1 2"), None);
    assert_eq!(MathDepth::from_tokens(&vec![CssToken::Function(s("add"))]), None);
}

#[test]
fn feature_value_is_a_count_or_a_switch() {
    assert_eq!(parse_one_feature_value(&CssToken::Number(Some(0))), Some(whole(0)));
    assert_eq!(parse_one_feature_value(&CssToken::Number(Some(3))), Some(whole(3)));
    assert_eq!(parse_one_feature_value(&CssToken::Number(Some(-1))), None);
    assert_eq!(parse_one_feature_value(&CssToken::Number(None)), None);
    assert_eq!(parse_one_feature_value(&CssToken::Ident(s("on"))), Some(whole(1)));
    assert_eq!(parse_one_feature_value(&CssToken::Ident(s("OFF"))), Some(whole(0)));
    assert_eq!(parse_one_feature_value(&CssToken::Ident(s("maybe"))), None);
    assert_eq!(parse_one_feature_value(&CssToken::QuotedString(s("on"))), None);
}

#[test]
fn weight_is_a_number_in_range_or_a_keyword() {
    let number = |value: i64, calc: bool| Number { value, calc };
    assert_eq!(
        AbsoluteFontWeight::from_number(number(400 * 64, false)),
        Some(AbsoluteFontWeight::Weight(number(400 * 64, false)))
    );
    assert_eq!(
        AbsoluteFontWeight::from_number(number(64, false)),
        Some(AbsoluteFontWeight::Weight(number(64, false)))
    );
    assert_eq!(
        AbsoluteFontWeight::from_number(number(64000, false)),
        Some(AbsoluteFontWeight::Weight(number(64000, false)))
    );
    assert_eq!(AbsoluteFontWeight::from_number(number(63, false)), None);
    assert_eq!(AbsoluteFontWeight::from_number(number(64001, false)), None);
    assert_eq!(AbsoluteFontWeight::from_number(number(-5, false)), None);
    // What comes out of a calculation is taken and clamped later.
    assert_eq!(
        AbsoluteFontWeight::from_number(number(0, true)),
        Some(AbsoluteFontWeight::Weight(number(0, true)))
    );
    assert_eq!(AbsoluteFontWeight::from_number(number(0, true)).unwrap().compute().value, 64);
    assert_eq!(AbsoluteFontWeight::from_keyword("normal"), Some(AbsoluteFontWeight::Normal));
    assert_eq!(AbsoluteFontWeight::from_keyword("BOLD"), Some(AbsoluteFontWeight::Bold));
    assert_eq!(AbsoluteFontWeight::from_keyword("bolder"), None);
    assert_eq!(AbsoluteFontWeight::from_keyword(""), None);
}

#[test]
fn style_is_a_keyword_with_an_angle_for_oblique() {
    assert_eq!(font_style_keyword("normal"), Some(FontStyleKeyword::Normal));
    assert_eq!(font_style_keyword("Italic"), Some(FontStyleKeyword::Italic));
    assert_eq!(font_style_keyword("OBLIQUE"), Some(FontStyleKeyword::Oblique));
    assert_eq!(font_style_keyword("slanted"), None);
    let angle = |value: i32, calc: bool| Angle { value, calc };
    assert_eq!(
        SpecifiedFontStyle::from_keyword(FontStyleKeyword::Normal, None),
        SpecifiedFontStyle::Oblique(angle(0, false))
    );
    assert_eq!(
        SpecifiedFontStyle::from_keyword(FontStyleKeyword::Italic, Some(angle(10, false))),
        SpecifiedFontStyle::Italic
    );
    // Fourteen degrees where no angle is written.
    assert_eq!(
        SpecifiedFontStyle::from_keyword(FontStyleKeyword::Oblique, None),
        SpecifiedFontStyle::Oblique(angle(14 * 256, false))
    );
    assert_eq!(
        SpecifiedFontStyle::from_keyword(FontStyleKeyword::Oblique, Some(angle(-90 * 256, false))),
        SpecifiedFontStyle::Oblique(angle(-90 * 256, false))
    );
    // An angle beyond a right angle may not be written.
    assert_eq!(
        SpecifiedFontStyle::from_keyword(FontStyleKeyword::Oblique, Some(angle(90 * 256 + 1, false))),
        SpecifiedFontStyle::Oblique(angle(14 * 256, false))
    );
    // Unless it comes out of a calculation.
    assert_eq!(
        SpecifiedFontStyle::from_keyword(FontStyleKeyword::Oblique, Some(angle(100 * 256, true))),
        SpecifiedFontStyle::Oblique(angle(100 * 256, true))
    );
}

#[test]
fn the_end_of_the_text_ends_an_open_function() {
    assert_eq!(
        FontVariantAlternates::parse("swash(a"),
        Some(FontVariantAlternates(vec![VariantAlternates::Swash(s("a"))]))
    );
    assert_eq!(
        FontVariantAlternates::parse("styleset(a, b"),
        Some(FontVariantAlternates(vec![VariantAlternates::Styleset(vec![s("a"), s("b")])]))
    );
    assert_eq!(
        FontVariantAlternates::parse("historical-forms character-variant(x"),
        Some(FontVariantAlternates(vec![
            VariantAlternates::HistoricalForms,
            VariantAlternates::CharacterVariant(vec![s("x")]),
        ]))
    );
    assert_eq!(
        FontVariantAlternates::parse("stylistic(x) swash(y  "),
        Some(FontVariantAlternates(vec![
            VariantAlternates::Stylistic(s("x")),
            VariantAlternates::Swash(s("y")),
        ]))
    );
    // The tokens of a function that the tokens end in.
    assert_eq!(
        FontVariantAlternates::from_tokens(&vec![CssToken::Function(s("swash")), CssToken::Ident(s("a"))]),
        Some((FontVariantAlternates(vec![VariantAlternates::Swash(s("a"))]), 2))
    );
    // A list that ends in a comma is no list: the kind was begun, and
    // nothing of it is read.
    assert_eq!(
        FontVariantAlternates::from_tokens(&vec![
            CssToken::Function(s("styleset")),
            CssToken::Ident(s("a")),
            CssToken::Comma,
        ]),
        Some((FontVariantAlternates(vec![]), 0))
    );
    assert_eq!(FontVariantAlternates::parse("styleset(a,"), None);
    // A function that goes on after its one value is no alternate.
    assert_eq!(FontVariantAlternates::parse("swash(a ornaments(b)"), None);
}
