//! Specified values of the font properties.
//!
//! Numbers are kept in fixed point, in the units that computed font values
//! use: weights and stretch percentages in 64ths, angles in 256ths of a
//! degree, lengths in app units (60ths of a CSS pixel), clamped to the
//! range of app units.

use vstd::prelude::*;

verus! {

/// The number of fractional units in one unit of a `Number`.
pub const NUMBER_SCALE: i64 = 64;

/// The number of fractional units in one degree of an `Angle`.
pub const ANGLE_SCALE: i32 = 256;

/// The number of app units in one CSS pixel.
pub const AU_PER_PX: i32 = 60;

/// The largest length in app units.
pub const MAX_AU: i32 = 0x3fff_ffff;

/// The smallest font weight, in 64ths.
pub const MIN_FONT_WEIGHT: u16 = 64;

/// The largest font weight, in 64ths.
pub const MAX_FONT_WEIGHT: u16 = 64000;

/// The largest angle that `font-style: oblique` computes to, in 256ths of a
/// degree.
pub const FONT_STYLE_OBLIQUE_MAX_ANGLE_DEGREES: i32 = 23040;

/// The smallest angle that `font-style: oblique` computes to, in 256ths of
/// a degree.
pub const FONT_STYLE_OBLIQUE_MIN_ANGLE_DEGREES: i32 = -23040;

/// The angle of `font-style: oblique` without an angle, in degrees.
pub const DEFAULT_OBLIQUE_DEGREES: i32 = 14;

/// The default font size, in app units.
pub const FONT_MEDIUM_PX: i32 = 960;

/// The smallest size that script levels shrink text to, in points.
pub const DEFAULT_SCRIPT_MIN_SIZE_PT: i32 = 8;

/// System fonts.
#[derive(Clone, Copy, Debug, PartialEq, Eq, Structural, Hash)]
pub enum SystemFont {
    Caption,
    Icon,
    Menu,
    MessageBox,
    SmallCaption,
    StatusBar,
    MozPullDownMenu,
    MozButton,
    MozList,
    MozField,
    End,
}

/// A specified number, in 64ths.
#[derive(Clone, Copy, Debug, PartialEq, Eq, Structural)]
pub struct Number {
    pub value: i64,
    /// Whether the number came out of a `calc()` expression.
    pub calc: bool,
}

impl Number {
    /// The number with the given value, not from `calc()`.
    pub fn new(value: i64) -> (n: Self)
        ensures
            n == (Number { value, calc: false }),
    {
        Number { value, calc: false }
    }

    pub fn get(&self) -> (v: i64)
        ensures
            v == self.value,
    {
        self.value
    }

    pub fn was_calc(&self) -> (c: bool)
        ensures
            c == self.calc,
    {
        self.calc
    }
}

/// A specified integer.
#[derive(Clone, Copy, Debug, PartialEq, Eq, Structural)]
pub struct Integer {
    pub value: i32,
    pub calc: bool,
}

/// A specified angle, in 256ths of a degree.
#[derive(Clone, Copy, Debug, PartialEq, Eq, Structural)]
pub struct Angle {
    pub value: i32,
    pub calc: bool,
}

impl Angle {
    /// The angle of the given size.
    pub fn from_degrees(value: i32, was_calc: bool) -> (a: Self)
        ensures
            a == (Angle { value, calc: was_calc }),
    {
        Angle { value, calc: was_calc }
    }

    /// The angle of no degrees.
    pub fn zero() -> (a: Self)
        ensures
            a == (Angle { value: 0, calc: false }),
    {
        Angle { value: 0, calc: false }
    }

    pub fn degrees(&self) -> (v: i32)
        ensures
            v == self.value,
    {
        self.value
    }

    pub fn was_calc(&self) -> (c: bool)
        ensures
            c == self.calc,
    {
        self.calc
    }
}

/// A length in app units.
#[derive(Clone, Copy, Debug, PartialEq, Eq, Structural)]
pub struct Length {
    pub au: i32,
}

/// The length nearest to a number of app units.
pub open spec fn clamp_au(au: int) -> int {
    if au > MAX_AU {
        MAX_AU as int
    } else if au < -MAX_AU {
        -MAX_AU
    } else {
        au
    }
}

impl Length {
    /// The length nearest to the given number of app units.
    pub fn new(au: i64) -> (l: Self)
        ensures
            l.au == clamp_au(au as int),
    {
        if au > MAX_AU as i64 {
            Length { au: MAX_AU }
        } else if au < -(MAX_AU as i64) {
            Length { au: -MAX_AU }
        } else {
            Length { au: au as i32 }
        }
    }

    /// The whole number of pixels nearest to the length, halves going away
    /// from zero.
    pub open spec fn spec_px_round(self) -> int {
        if self.au >= 0 {
            (self.au + 30) / 60
        } else {
            -((30 - self.au) / 60)
        }
    }

    /// Rounds the length to whole pixels.
    pub fn px_round(self) -> (px: i32)
        ensures
            px == self.spec_px_round(),
    {
        let au = self.au as i64;
        if au >= 0 {
            ((au + 30) / 60) as i32
        } else {
            (-((30 - au) / 60)) as i32
        }
    }
}

/// A computed font weight: between 1 and 1000, in 64ths.
#[derive(Clone, Copy, Debug, PartialEq, Eq, Structural)]
pub struct ComputedFontWeight {
    pub value: u16,
}

/// The weight `normal`.
pub const COMPUTED_WEIGHT_NORMAL: u16 = 25600;

/// The weight `bold`.
pub const COMPUTED_WEIGHT_BOLD: u16 = 44800;

/// The font weight nearest to a number.
pub open spec fn clamp_weight(value: i64) -> u16 {
    if value < MIN_FONT_WEIGHT as i64 {
        MIN_FONT_WEIGHT
    } else if value > MAX_FONT_WEIGHT as i64 {
        MAX_FONT_WEIGHT
    } else {
        value as u16
    }
}

/// An absolute font weight.
#[derive(Clone, Copy, Debug, PartialEq, Eq, Structural)]
pub enum AbsoluteFontWeight {
    /// A number; values outside 1..=1000 compute to the nearest bound.
    Weight(Number),
    /// The same as 400.
    Normal,
    /// The same as 700.
    Bold,
}

impl AbsoluteFontWeight {
    /// The weight this value computes to.
    pub open spec fn spec_compute(&self) -> ComputedFontWeight {
        match *self {
            AbsoluteFontWeight::Weight(n) => ComputedFontWeight { value: clamp_weight(n.value) },
            AbsoluteFontWeight::Normal => ComputedFontWeight { value: COMPUTED_WEIGHT_NORMAL },
            AbsoluteFontWeight::Bold => ComputedFontWeight { value: COMPUTED_WEIGHT_BOLD },
        }
    }

    /// Returns the computed value for this absolute font weight.
    #[verifier::when_used_as_spec(spec_compute)]
    pub fn compute(&self) -> (w: ComputedFontWeight)
        ensures
            w == self.spec_compute(),
            MIN_FONT_WEIGHT <= w.value <= MAX_FONT_WEIGHT,
    {
        match *self {
            AbsoluteFontWeight::Weight(n) => {
                let v = n.get();
                if v < MIN_FONT_WEIGHT as i64 {
                    ComputedFontWeight { value: MIN_FONT_WEIGHT }
                } else if v > MAX_FONT_WEIGHT as i64 {
                    ComputedFontWeight { value: MAX_FONT_WEIGHT }
                } else {
                    ComputedFontWeight { value: v as u16 }
                }
            },
            AbsoluteFontWeight::Normal => ComputedFontWeight { value: COMPUTED_WEIGHT_NORMAL },
            AbsoluteFontWeight::Bold => ComputedFontWeight { value: COMPUTED_WEIGHT_BOLD },
        }
    }
}

/// A specified font-weight value.
#[derive(Clone, Copy, Debug, PartialEq, Eq, Structural)]
pub enum FontWeight {
    Absolute(AbsoluteFontWeight),
    Bolder,
    Lighter,
    System(SystemFont),
}

impl FontWeight {
    /// `normal`
    pub fn normal() -> (w: Self)
        ensures
            w == FontWeight::Absolute(AbsoluteFontWeight::Normal),
    {
        FontWeight::Absolute(AbsoluteFontWeight::Normal)
    }

    /// The weight that a keyword given as a whole number stands for.
    pub fn from_gecko_keyword(kw: u32) -> (w: Self)
        ensures
            w == FontWeight::Absolute(
                AbsoluteFontWeight::Weight(Number { value: (kw as i64 * 64) as i64, calc: false }),
            ),
    {
        FontWeight::Absolute(AbsoluteFontWeight::Weight(Number::new(kw as i64 * 64)))
    }

    /// The value that stands for a system font.
    pub fn system_font(f: SystemFont) -> (w: Self)
        ensures
            w == FontWeight::System(f),
    {
        FontWeight::System(f)
    }

    /// The system font the value stands for, if it stands for one.
    pub fn get_system(&self) -> (s: Option<SystemFont>)
        ensures
            s == match *self {
                FontWeight::System(f) => Some(f),
                _ => None,
            },
    {
        if let FontWeight::System(s) = *self {
            Some(s)
        } else {
            None
        }
    }
}

/// The specified value of `font-style`, system fonts apart.
#[derive(Clone, Copy, Debug, PartialEq, Eq, Structural)]
pub enum SpecifiedFontStyle {
    Italic,
    Oblique(Angle),
}

/// The angle nearest to the given one that `oblique` can compute to.
pub open spec fn clamp_oblique(value: i32) -> i32 {
    if value < FONT_STYLE_OBLIQUE_MIN_ANGLE_DEGREES {
        FONT_STYLE_OBLIQUE_MIN_ANGLE_DEGREES
    } else if value > FONT_STYLE_OBLIQUE_MAX_ANGLE_DEGREES {
        FONT_STYLE_OBLIQUE_MAX_ANGLE_DEGREES
    } else {
        value
    }
}

impl SpecifiedFontStyle {
    /// `normal`: oblique by no angle.
    pub fn normal() -> (s: Self)
        ensures
            s == SpecifiedFontStyle::Oblique(Angle { value: 0, calc: false }),
    {
        SpecifiedFontStyle::Oblique(Angle::zero())
    }

    /// Gets a clamped angle from a specified angle.
    pub fn compute_angle_degrees(angle: &Angle) -> (d: i32)
        ensures
            d == clamp_oblique(angle.value),
            FONT_STYLE_OBLIQUE_MIN_ANGLE_DEGREES <= d <= FONT_STYLE_OBLIQUE_MAX_ANGLE_DEGREES,
    {
        let v = angle.degrees();
        if v < FONT_STYLE_OBLIQUE_MIN_ANGLE_DEGREES {
            FONT_STYLE_OBLIQUE_MIN_ANGLE_DEGREES
        } else if v > FONT_STYLE_OBLIQUE_MAX_ANGLE_DEGREES {
            FONT_STYLE_OBLIQUE_MAX_ANGLE_DEGREES
        } else {
            v
        }
    }

    /// Whether an angle may be written after `oblique`: any angle out of
    /// `calc()`, and else one between -90 and 90 degrees.
    pub fn angle_is_valid(angle: &Angle) -> (ok: bool)
        ensures
            ok == (angle.calc || (FONT_STYLE_OBLIQUE_MIN_ANGLE_DEGREES <= angle.value
                <= FONT_STYLE_OBLIQUE_MAX_ANGLE_DEGREES)),
    {
        angle.was_calc() || (angle.degrees() >= FONT_STYLE_OBLIQUE_MIN_ANGLE_DEGREES
            && angle.degrees() <= FONT_STYLE_OBLIQUE_MAX_ANGLE_DEGREES)
    }

    /// The default angle for `font-style: oblique`.
    pub fn default_angle() -> (a: Angle)
        ensures
            a == (Angle { value: 3584, calc: false }),
            a.value == 3584,
    {
        Angle::from_degrees(DEFAULT_OBLIQUE_DEGREES * ANGLE_SCALE, false)
    }
}

/// The specified value of the `font-style` property.
#[derive(Clone, Copy, Debug, PartialEq, Eq, Structural)]
pub enum FontStyle {
    Specified(SpecifiedFontStyle),
    System(SystemFont),
}

impl FontStyle {
    /// Return the `normal` value.
    pub fn normal() -> (s: Self)
        ensures
            s == FontStyle::Specified(
                SpecifiedFontStyle::Oblique(Angle { value: 0, calc: false }),
            ),
    {
        FontStyle::Specified(SpecifiedFontStyle::normal())
    }

    /// The value that stands for a system font.
    pub fn system_font(f: SystemFont) -> (s: Self)
        ensures
            s == FontStyle::System(f),
    {
        FontStyle::System(f)
    }

    /// The system font the value stands for, if it stands for one.
    pub fn get_system(&self) -> (s: Option<SystemFont>)
        ensures
            s == match *self {
                FontStyle::System(f) => Some(f),
                _ => None,
            },
    {
        if let FontStyle::System(s) = *self {
            Some(s)
        } else {
            None
        }
    }
}

/// A computed font stretch: a percentage, in 64ths.
#[derive(Clone, Copy, Debug, PartialEq, Eq, Structural)]
pub struct ComputedFontStretch {
    pub value: u16,
}

/// A keyword value for `font-stretch`.
#[derive(Clone, Copy, Debug, PartialEq, Eq, Structural)]
pub enum FontStretchKeyword {
    Normal,
    Condensed,
    UltraCondensed,
    ExtraCondensed,
    SemiCondensed,
    SemiExpanded,
    Expanded,
    ExtraExpanded,
    UltraExpanded,
}

impl FontStretchKeyword {
    /// The percentage of each keyword, in 64ths: from 50% for
    /// `ultra-condensed` to 200% for `ultra-expanded`.
    pub open spec fn spec_compute(&self) -> ComputedFontStretch {
        ComputedFontStretch {
            value: match *self {
                FontStretchKeyword::UltraCondensed => 3200,
                FontStretchKeyword::ExtraCondensed => 4000,
                FontStretchKeyword::Condensed => 4800,
                FontStretchKeyword::SemiCondensed => 5600,
                FontStretchKeyword::Normal => 6400,
                FontStretchKeyword::SemiExpanded => 7200,
                FontStretchKeyword::Expanded => 8000,
                FontStretchKeyword::ExtraExpanded => 9600,
                FontStretchKeyword::UltraExpanded => 12800,
            },
        }
    }

    /// Turns the keyword into a computed value.
    #[verifier::when_used_as_spec(spec_compute)]
    pub fn compute(&self) -> (s: ComputedFontStretch)
        ensures
            s == self.spec_compute(),
    {
        ComputedFontStretch {
            value: match *self {
                FontStretchKeyword::UltraCondensed => 3200,
                FontStretchKeyword::ExtraCondensed => 4000,
                FontStretchKeyword::Condensed => 4800,
                FontStretchKeyword::SemiCondensed => 5600,
                FontStretchKeyword::Normal => 6400,
                FontStretchKeyword::SemiExpanded => 7200,
                FontStretchKeyword::Expanded => 8000,
                FontStretchKeyword::ExtraExpanded => 9600,
                FontStretchKeyword::UltraExpanded => 12800,
            },
        }
    }

    /// Does the opposite operation to `compute`, in order to serialize
    /// keywords if possible: the keyword that computes to the percentage,
    /// if there is one.
    pub fn from_percentage(p: u16) -> (k: Option<Self>)
        ensures
            match k {
                Some(kw) => kw.spec_compute().value == p,
                None => forall|kw: FontStretchKeyword| kw.spec_compute().value != p,
            },
    {
        if p == 3200 {
            Some(FontStretchKeyword::UltraCondensed)
        } else if p == 4000 {
            Some(FontStretchKeyword::ExtraCondensed)
        } else if p == 4800 {
            Some(FontStretchKeyword::Condensed)
        } else if p == 5600 {
            Some(FontStretchKeyword::SemiCondensed)
        } else if p == 6400 {
            Some(FontStretchKeyword::Normal)
        } else if p == 7200 {
            Some(FontStretchKeyword::SemiExpanded)
        } else if p == 8000 {
            Some(FontStretchKeyword::Expanded)
        } else if p == 9600 {
            Some(FontStretchKeyword::ExtraExpanded)
        } else if p == 12800 {
            Some(FontStretchKeyword::UltraExpanded)
        } else {
            None
        }
    }

    /// No two keywords compute to the same percentage, so a keyword can be
    /// had back from what it computes to.
    pub proof fn law_compute_is_injective(a: FontStretchKeyword, b: FontStretchKeyword)
        requires
            a.spec_compute() == b.spec_compute(),
        ensures
            a == b,
    {
    }
}

/// A value for the `font-stretch` property.
#[derive(Clone, Copy, Debug, PartialEq, Eq, Structural)]
pub enum FontStretch {
    /// A percentage that is not negative, in 64ths.
    Stretch(Number),
    Keyword(FontStretchKeyword),
    System(SystemFont),
}

impl FontStretch {
    /// `normal`.
    pub fn normal() -> (s: Self)
        ensures
            s == FontStretch::Keyword(FontStretchKeyword::Normal),
    {
        FontStretch::Keyword(FontStretchKeyword::Normal)
    }

    /// The value that stands for a system font.
    pub fn system_font(f: SystemFont) -> (s: Self)
        ensures
            s == FontStretch::System(f),
    {
        FontStretch::System(f)
    }

    /// The system font the value stands for, if it stands for one.
    pub fn get_system(&self) -> (s: Option<SystemFont>)
        ensures
            s == match *self {
                FontStretch::System(f) => Some(f),
                _ => None,
            },
    {
        if let FontStretch::System(s) = *self {
            Some(s)
        } else {
            None
        }
    }
}

/// Whether a document is rendered as old browsers would.
#[derive(Clone, Copy, Debug, PartialEq, Eq, Structural)]
pub enum QuirksMode {
    Quirks,
    LimitedQuirks,
    NoQuirks,
}

/// CSS font size keywords.
#[derive(Clone, Copy, Debug, PartialEq, Eq, Structural)]
pub enum FontSizeKeyword {
    XXSmall,
    XSmall,
    Small,
    Medium,
    Large,
    XLarge,
    XXLarge,
    XXXLarge,
    /// `math`: scaled later, as the math depth changes.
    Math,
    /// No keyword.
    NoKeyword,
}

/// The size in pixels of each keyword, from `xx-small` to `xxx-large`, for
/// a base size of `row + 9` pixels.
pub open spec fn size_mapping(quirks: bool, row: int) -> Seq<int> {
    if quirks {
        if row == 0 {
            seq![9, 9, 9, 9, 11, 14, 18, 28]
        } else if row == 1 {
            seq![9, 9, 9, 10, 12, 15, 20, 31]
        } else if row == 2 {
            seq![9, 9, 9, 11, 13, 17, 22, 34]
        } else if row == 3 {
            seq![9, 9, 10, 12, 14, 18, 24, 37]
        } else if row == 4 {
            seq![9, 9, 10, 13, 16, 20, 26, 40]
        } else if row == 5 {
            seq![9, 9, 11, 14, 17, 21, 28, 42]
        } else if row == 6 {
            seq![9, 10, 12, 15, 17, 23, 30, 45]
        } else {
            seq![9, 10, 13, 16, 18, 24, 32, 48]
        }
    } else {
        if row == 0 {
            seq![9, 9, 9, 9, 11, 14, 18, 27]
        } else if row == 1 {
            seq![9, 9, 9, 10, 12, 15, 20, 30]
        } else if row == 2 {
            seq![9, 9, 10, 11, 13, 17, 22, 33]
        } else if row == 3 {
            seq![9, 9, 10, 12, 14, 18, 24, 36]
        } else if row == 4 {
            seq![9, 10, 12, 13, 16, 20, 26, 39]
        } else if row == 5 {
            seq![9, 10, 12, 14, 17, 21, 28, 42]
        } else if row == 6 {
            seq![9, 10, 13, 15, 18, 23, 30, 45]
        } else {
            seq![9, 10, 13, 16, 18, 24, 32, 48]
        }
    }
}

/// The percentage of the base size that each keyword stands for, from
/// `xx-small` to `xxx-large`.
pub open spec fn size_factors() -> Seq<int> {
    seq![60, 75, 89, 100, 120, 150, 200, 300]
}

fn mapping_row(quirks: bool, row: usize) -> (r: [i32; 8])
    ensures
        r@.len() == 8,
        forall|i: int| 0 <= i < 8 ==> r@[i] == size_mapping(quirks, row as int)[i],
        forall|i: int| 0 <= i < 8 ==> 9 <= #[trigger] r@[i] <= 48,
{
    if quirks {
        if row == 0 {
            [9, 9, 9, 9, 11, 14, 18, 28]
        } else if row == 1 {
            [9, 9, 9, 10, 12, 15, 20, 31]
        } else if row == 2 {
            [9, 9, 9, 11, 13, 17, 22, 34]
        } else if row == 3 {
            [9, 9, 10, 12, 14, 18, 24, 37]
        } else if row == 4 {
            [9, 9, 10, 13, 16, 20, 26, 40]
        } else if row == 5 {
            [9, 9, 11, 14, 17, 21, 28, 42]
        } else if row == 6 {
            [9, 10, 12, 15, 17, 23, 30, 45]
        } else {
            [9, 10, 13, 16, 18, 24, 32, 48]
        }
    } else {
        if row == 0 {
            [9, 9, 9, 9, 11, 14, 18, 27]
        } else if row == 1 {
            [9, 9, 9, 10, 12, 15, 20, 30]
        } else if row == 2 {
            [9, 9, 10, 11, 13, 17, 22, 33]
        } else if row == 3 {
            [9, 9, 10, 12, 14, 18, 24, 36]
        } else if row == 4 {
            [9, 10, 12, 13, 16, 20, 26, 39]
        } else if row == 5 {
            [9, 10, 12, 14, 17, 21, 28, 42]
        } else if row == 6 {
            [9, 10, 13, 15, 18, 23, 30, 45]
        } else {
            [9, 10, 13, 16, 18, 24, 32, 48]
        }
    }
}

impl FontSizeKeyword {
    /// The HTML font size of each keyword: 0 for `xx-small` up to 7 for
    /// `xxx-large`, then 8 for `math` and 9 for no keyword.
    pub open spec fn spec_html_size(self) -> u8 {
        match self {
            FontSizeKeyword::XXSmall => 0,
            FontSizeKeyword::XSmall => 1,
            FontSizeKeyword::Small => 2,
            FontSizeKeyword::Medium => 3,
            FontSizeKeyword::Large => 4,
            FontSizeKeyword::XLarge => 5,
            FontSizeKeyword::XXLarge => 6,
            FontSizeKeyword::XXXLarge => 7,
            FontSizeKeyword::Math => 8,
            FontSizeKeyword::NoKeyword => 9,
        }
    }

    /// Convert to an HTML <font size> value
    #[verifier::when_used_as_spec(spec_html_size)]
    pub fn html_size(self) -> (size: u8)
        ensures
            size == self.spec_html_size(),
    {
        match self {
            FontSizeKeyword::XXSmall => 0,
            FontSizeKeyword::XSmall => 1,
            FontSizeKeyword::Small => 2,
            FontSizeKeyword::Medium => 3,
            FontSizeKeyword::Large => 4,
            FontSizeKeyword::XLarge => 5,
            FontSizeKeyword::XXLarge => 6,
            FontSizeKeyword::XXXLarge => 7,
            FontSizeKeyword::Math => 8,
            FontSizeKeyword::NoKeyword => 9,
        }
    }

    /// Returns true if the font size is the math keyword
    pub fn is_math(self) -> (b: bool)
        ensures
            b == (self == FontSizeKeyword::Math),
    {
        matches!(self, FontSizeKeyword::Math)
    }

    /// The length that a keyword stands for at a base size: for a base of
    /// 9 to 16 pixels the size that the table gives, else the percentage of
    /// the base size that the keyword stands for, rounded towards zero.
    pub open spec fn spec_to_length(self, quirks_mode: QuirksMode, base_size: Length) -> Length {
        let px = base_size.spec_px_round();
        let column = self.spec_html_size() as int;
        if 9 <= px <= 16 {
            Length {
                au: (size_mapping(quirks_mode == QuirksMode::Quirks, px - 9)[column] * 60) as i32,
            }
        } else if base_size.au >= 0 {
            Length { au: clamp_au(base_size.au * size_factors()[column] / 100) as i32 }
        } else {
            Length { au: clamp_au(-((-base_size.au) * size_factors()[column] / 100)) as i32 }
        }
    }

    /// Resolve a keyword length without any context, with explicit
    /// arguments. The keyword must be one of `xx-small` to `xxx-large`.
    pub fn to_length_without_context(&self, quirks_mode: QuirksMode, base_size: Length) -> (l:
        Length)
        requires
            self.spec_html_size() < 8,
        ensures
            l == self.spec_to_length(quirks_mode, base_size),
            base_size.au >= 0 ==> l.au >= 0,
    {
        let px = base_size.px_round();
        let column = self.html_size() as usize;
        if px >= 9 && px <= 16 {
            let quirks = matches!(quirks_mode, QuirksMode::Quirks);
            let row = mapping_row(quirks, (px - 9) as usize);
            assert(row@[column as int] == size_mapping(quirks, px - 9)[column as int]);
            Length { au: row[column] * 60 }
        } else {
            let factors: [i64; 8] = [60, 75, 89, 100, 120, 150, 200, 300];
            assert(factors@[column as int] == size_factors()[column as int]);
            let factor = factors[column];
            if base_size.au >= 0 {
                Length::new(base_size.au as i64 * factor / 100)
            } else {
                Length::new(-((-(base_size.au as i64)) * factor / 100))
            }
        }
    }
}

/// Specifies a prioritized list of font family names or generic family
/// names.
#[derive(Clone, Debug, PartialEq, Eq)]
pub enum FontFamily {
    /// The names, the first to be tried first.
    Values(Vec<String>),
    System(SystemFont),
}

impl FontFamily {
    /// The value that stands for a system font.
    pub fn system_font(f: SystemFont) -> (s: Self)
        ensures
            s == FontFamily::System(f),
    {
        FontFamily::System(f)
    }

    /// The system font the value stands for, if it stands for one.
    pub fn get_system(&self) -> (s: Option<SystemFont>)
        ensures
            s == match *self {
                FontFamily::System(f) => Some(f),
                _ => None,
            },
    {
        match self {
            FontFamily::System(s) => Some(*s),
            _ => None,
        }
    }
}

/// A factor for one of the font-size-adjust metrics.
#[derive(Clone, Copy, Debug, PartialEq, Eq, Structural)]
pub enum FontSizeAdjustFactor {
    /// An explicitly-specified number that is not negative.
    Number(Number),
    /// The from-font keyword: resolve the number from font metrics.
    FromFont,
}

/// Set of variant alternates.
#[derive(Clone, Debug, PartialEq, Eq)]
pub enum VariantAlternates {
    Stylistic(String),
    Styleset(Vec<String>),
    CharacterVariant(Vec<String>),
    Swash(String),
    Ornaments(String),
    Annotation(String),
    HistoricalForms,
}

impl VariantAlternates {
    /// How many feature values the alternate names: one, or as many as its
    /// list holds, or none for `historical-forms`.
    pub open spec fn count(&self) -> nat {
        match self {
            VariantAlternates::Swash(_) => 1,
            VariantAlternates::Stylistic(_) => 1,
            VariantAlternates::Ornaments(_) => 1,
            VariantAlternates::Annotation(_) => 1,
            VariantAlternates::Styleset(names) => names@.len(),
            VariantAlternates::CharacterVariant(names) => names@.len(),
            VariantAlternates::HistoricalForms => 0,
        }
    }
}

/// How many feature values the first `n` alternates name.
pub open spec fn alternates_count(list: Seq<VariantAlternates>, n: nat) -> nat
    decreases n,
{
    if n == 0 {
        0
    } else {
        alternates_count(list, (n - 1) as nat) + list[n - 1].count()
    }
}

/// List of variant alternates.
#[derive(Clone, Debug, PartialEq, Eq)]
pub struct FontVariantAlternates(pub Vec<VariantAlternates>);

impl FontVariantAlternates {
    /// How many feature values all alternates name.
    pub open spec fn spec_len(&self) -> nat {
        alternates_count(self.0@, self.0@.len())
    }

    /// Returns the length of all variant alternates.
    pub fn len(&self) -> (n: usize)
        requires
            self.spec_len() <= usize::MAX,
        ensures
            n == self.spec_len(),
    {
        let mut acc: usize = 0;
        let mut i: usize = 0;
        while i < self.0.len()
            invariant
                i <= self.0@.len(),
                acc == alternates_count(self.0@, i as nat),
                alternates_count(self.0@, self.0@.len()) <= usize::MAX,
            decreases self.0@.len() - i,
        {
            proof {
                lemma_alternates_count_grows(self.0@, (i + 1) as nat, self.0@.len());
            }
            let step = match &self.0[i] {
                VariantAlternates::Swash(_) => 1,
                VariantAlternates::Stylistic(_) => 1,
                VariantAlternates::Ornaments(_) => 1,
                VariantAlternates::Annotation(_) => 1,
                VariantAlternates::Styleset(names) => names.len(),
                VariantAlternates::CharacterVariant(names) => names.len(),
                VariantAlternates::HistoricalForms => 0,
            };
            acc = acc + step;
            i += 1;
        }
        acc
    }

    /// Get initial specified value with VariantAlternatesList
    pub fn get_initial_specified_value() -> (v: Self)
        ensures
            v.0@.len() == 0,
            v.spec_len() == 0,
    {
        FontVariantAlternates(Vec::new())
    }
}

/// The count of a longer run of alternates is no smaller.
pub proof fn lemma_alternates_count_grows(list: Seq<VariantAlternates>, n: nat, m: nat)
    requires
        n <= m,
    ensures
        alternates_count(list, n) <= alternates_count(list, m),
    decreases m,
{
    if n < m {
        lemma_alternates_count_grows(list, n, (m - 1) as nat);
    }
}

/// East Asian variant: renders JIS78 forms.
pub const EAST_ASIAN_JIS78: u16 = 0x001;

/// East Asian variant: renders JIS83 forms.
pub const EAST_ASIAN_JIS83: u16 = 0x002;

/// East Asian variant: renders JIS90 forms.
pub const EAST_ASIAN_JIS90: u16 = 0x004;

/// East Asian variant: renders JIS2004 forms.
pub const EAST_ASIAN_JIS04: u16 = 0x008;

/// East Asian variant: renders simplified forms.
pub const EAST_ASIAN_SIMPLIFIED: u16 = 0x010;

/// East Asian variant: renders traditional forms.
pub const EAST_ASIAN_TRADITIONAL: u16 = 0x020;

/// The East Asian variants of which only one can be set.
pub const EAST_ASIAN_JIS_GROUP: u16 = 0x03f;

/// East Asian variant: renders full-width variants.
pub const EAST_ASIAN_FULL_WIDTH: u16 = 0x040;

/// East Asian variant: renders proportionally-spaced variants.
pub const EAST_ASIAN_PROPORTIONAL_WIDTH: u16 = 0x080;

/// East Asian variant: displays ruby variant glyphs.
pub const EAST_ASIAN_RUBY: u16 = 0x100;

/// Variants for east asian variant.
#[derive(Clone, Copy, Debug, PartialEq, Eq, Structural)]
pub struct FontVariantEastAsian(pub u16);

impl FontVariantEastAsian {
    /// Whether the flags go together: full-width and proportional-width
    /// are not both set, and of the JIS group at most one is set.
    pub open spec fn spec_validate(&self) -> bool {
        let jis = self.0 & EAST_ASIAN_JIS_GROUP;
        &&& !(self.0 & EAST_ASIAN_FULL_WIDTH != 0 && self.0 & EAST_ASIAN_PROPORTIONAL_WIDTH != 0)
        &&& (jis == 0 || jis == 1 || jis == 2 || jis == 4 || jis == 8 || jis == 16 || jis == 32)
    }

    #[verifier::when_used_as_spec(spec_validate)]
    pub fn validate_mixed_flags(&self) -> (ok: bool)
        ensures
            ok == self.spec_validate(),
    {
        let bits = self.0;
        if bits & EAST_ASIAN_FULL_WIDTH != 0 && bits & EAST_ASIAN_PROPORTIONAL_WIDTH != 0 {
            return false;
        }
        let jis = bits & EAST_ASIAN_JIS_GROUP;
        if jis != 0 {
            assert(jis & ((jis - 1) as u16) == 0 <==> (jis == 1 || jis == 2 || jis == 4 || jis == 8
                || jis == 16 || jis == 32)) by (bit_vector)
                requires
                    jis == bits & 0x3fu16,
                    jis != 0,
            ;
            if jis & (jis - 1) != 0 {
                return false;
            }
        }
        true
    }
}

/// Ligature variant: no features are enabled.
pub const LIGATURES_NONE: u16 = 0x001;

/// Ligature variant: common ligatures.
pub const LIGATURES_COMMON: u16 = 0x002;

/// Ligature variant: no common ligatures.
pub const LIGATURES_NO_COMMON: u16 = 0x004;

/// Ligature variant: discretionary ligatures.
pub const LIGATURES_DISCRETIONARY: u16 = 0x008;

/// Ligature variant: no discretionary ligatures.
pub const LIGATURES_NO_DISCRETIONARY: u16 = 0x010;

/// Ligature variant: historical ligatures.
pub const LIGATURES_HISTORICAL: u16 = 0x020;

/// Ligature variant: no historical ligatures.
pub const LIGATURES_NO_HISTORICAL: u16 = 0x040;

/// Ligature variant: contextual alternates.
pub const LIGATURES_CONTEXTUAL: u16 = 0x080;

/// Ligature variant: no contextual alternates.
pub const LIGATURES_NO_CONTEXTUAL: u16 = 0x100;

/// Whether both flags of a pair are set.
pub open spec fn has_both(bits: u16, a: u16, b: u16) -> bool {
    bits & a != 0 && bits & b != 0
}

fn both_set(bits: u16, a: u16, b: u16) -> (r: bool)
    ensures
        r == has_both(bits, a, b),
{
    bits & a != 0 && bits & b != 0
}

/// Variants of ligatures.
#[derive(Clone, Copy, Debug, PartialEq, Eq, Structural)]
pub struct FontVariantLigatures(pub u16);

impl FontVariantLigatures {
    /// Whether the flags go together: no feature is both enabled and
    /// disabled.
    pub open spec fn spec_validate(&self) -> bool {
        &&& !has_both(self.0, LIGATURES_COMMON, LIGATURES_NO_COMMON)
        &&& !has_both(self.0, LIGATURES_DISCRETIONARY, LIGATURES_NO_DISCRETIONARY)
        &&& !has_both(self.0, LIGATURES_HISTORICAL, LIGATURES_NO_HISTORICAL)
        &&& !has_both(self.0, LIGATURES_CONTEXTUAL, LIGATURES_NO_CONTEXTUAL)
    }

    #[verifier::when_used_as_spec(spec_validate)]
    pub fn validate_mixed_flags(&self) -> (ok: bool)
        ensures
            ok == self.spec_validate(),
    {
        !(both_set(self.0, LIGATURES_COMMON, LIGATURES_NO_COMMON) || both_set(
            self.0,
            LIGATURES_DISCRETIONARY,
            LIGATURES_NO_DISCRETIONARY,
        ) || both_set(self.0, LIGATURES_HISTORICAL, LIGATURES_NO_HISTORICAL) || both_set(
            self.0,
            LIGATURES_CONTEXTUAL,
            LIGATURES_NO_CONTEXTUAL,
        ))
    }
}

/// Numeric variant: lining numerals.
pub const NUMERIC_LINING_NUMS: u8 = 0x01;

/// Numeric variant: old-style numerals.
pub const NUMERIC_OLDSTYLE_NUMS: u8 = 0x02;

/// Numeric variant: proportional numerals.
pub const NUMERIC_PROPORTIONAL_NUMS: u8 = 0x04;

/// Numeric variant: tabular numerals.
pub const NUMERIC_TABULAR_NUMS: u8 = 0x08;

/// Numeric variant: diagonal fractions.
pub const NUMERIC_DIAGONAL_FRACTIONS: u8 = 0x10;

/// Numeric variant: stacked fractions.
pub const NUMERIC_STACKED_FRACTIONS: u8 = 0x20;

/// Numeric variant: slashed zeros.
pub const NUMERIC_SLASHED_ZERO: u8 = 0x40;

/// Numeric variant: ordinal forms.
pub const NUMERIC_ORDINAL: u8 = 0x80;

/// Variants of numeric values.
#[derive(Clone, Copy, Debug, PartialEq, Eq, Structural)]
pub struct FontVariantNumeric(pub u8);

impl FontVariantNumeric {
    /// Whether the flags go together: of the two figure values, of the two
    /// spacing values and of the two fraction values at most one each is
    /// set.
    pub open spec fn spec_validate(&self) -> bool {
        &&& !(self.0 & NUMERIC_LINING_NUMS != 0 && self.0 & NUMERIC_OLDSTYLE_NUMS != 0)
        &&& !(self.0 & NUMERIC_PROPORTIONAL_NUMS != 0 && self.0 & NUMERIC_TABULAR_NUMS != 0)
        &&& !(self.0 & NUMERIC_DIAGONAL_FRACTIONS != 0 && self.0 & NUMERIC_STACKED_FRACTIONS != 0)
    }

    #[verifier::when_used_as_spec(spec_validate)]
    pub fn validate_mixed_flags(&self) -> (ok: bool)
        ensures
            ok == self.spec_validate(),
    {
        let b = self.0;
        !((b & NUMERIC_LINING_NUMS != 0 && b & NUMERIC_OLDSTYLE_NUMS != 0) || (b
            & NUMERIC_PROPORTIONAL_NUMS != 0 && b & NUMERIC_TABULAR_NUMS != 0) || (b
            & NUMERIC_DIAGONAL_FRACTIONS != 0 && b & NUMERIC_STACKED_FRACTIONS != 0))
    }
}

/// A value for any of the font-synthesis-{weight,small-caps,position}
/// properties.
#[derive(Clone, Copy, Debug, PartialEq, Eq, Structural)]
pub enum FontSynthesis {
    /// This attribute may be synthesized if not supported by a face.
    Auto,
    /// Do not attempt to synthesize this style attribute.
    Never,
}

/// A value for the font-synthesis-style property.
#[derive(Clone, Copy, Debug, PartialEq, Eq, Structural)]
pub enum FontSynthesisStyle {
    /// This attribute may be synthesized if not supported by a face.
    Auto,
    /// Do not attempt to synthesize this style attribute.
    Never,
    /// Allow synthesis for oblique, but not for italic.
    ObliqueOnly,
}

/// Allows authors to choose a palette from those supported by a color font.
#[derive(Clone, Debug, PartialEq, Eq)]
pub struct FontPalette(pub String);

impl FontPalette {
    pub fn normal() -> (p: Self)
        ensures
            p.0@ == "normal"@,
    {
        FontPalette("normal".to_owned())
    }

    pub fn light() -> (p: Self)
        ensures
            p.0@ == "light"@,
    {
        FontPalette("light".to_owned())
    }

    pub fn dark() -> (p: Self)
        ensures
            p.0@ == "dark"@,
    {
        FontPalette("dark".to_owned())
    }
}

/// A computed percentage, in 64ths of the whole.
#[derive(Clone, Copy, Debug, PartialEq, Eq, Structural)]
pub struct ComputedPercentage {
    pub value: i64,
}

/// A metrics override value for a @font-face descriptor.
#[derive(Clone, Copy, Debug, PartialEq, Eq, Structural)]
pub enum MetricsOverride {
    /// A percentage of the computed font size that is not negative.
    Override(Number),
    /// Normal metrics from the font.
    Normal,
}

impl MetricsOverride {
    /// Get default value with `normal`
    pub fn normal() -> (m: MetricsOverride)
        ensures
            m == MetricsOverride::Normal,
    {
        MetricsOverride::Normal
    }

    /// The computed value, used for @font-face descriptors: the percentage
    /// of an override, and minus one for `normal`, which no override has.
    pub fn compute(&self) -> (p: ComputedPercentage)
        ensures
            p.value == match *self {
                MetricsOverride::Normal => -NUMBER_SCALE,
                MetricsOverride::Override(n) => n.value as int,
            },
    {
        match *self {
            MetricsOverride::Normal => ComputedPercentage { value: -NUMBER_SCALE },
            MetricsOverride::Override(percent) => ComputedPercentage { value: percent.get() },
        }
    }
}

/// How to do font-size scaling.
#[derive(Clone, Copy, Debug, PartialEq, Eq, Structural)]
pub enum XTextScale {
    /// Both min-font-size and text zoom are enabled.
    All,
    /// Text-only zoom is enabled, but min-font-size is not honored.
    ZoomOnly,
    /// Neither of them is enabled.
    Neither,
}

impl XTextScale {
    /// Returns whether text zoom is enabled.
    pub fn text_zoom_enabled(self) -> (b: bool)
        ensures
            b == (self != XTextScale::Neither),
    {
        self != XTextScale::Neither
    }
}

/// Internal property that reflects the lang attribute.
#[derive(Clone, Debug, PartialEq, Eq)]
pub struct XLang(pub String);

impl XLang {
    /// Get default value for `-x-lang`
    pub fn get_initial_value() -> (l: XLang)
        ensures
            l.0@ == Seq::<char>::empty(),
    {
        XLang(String::new())
    }
}

/// Specifies the minimum font size allowed due to changes in scriptlevel.
#[derive(Clone, Copy, Debug, PartialEq, Eq, Structural)]
pub struct MozScriptMinSize(pub Length);

impl MozScriptMinSize {
    /// Calculate initial value of -moz-script-min-size: eight points, at
    /// four thirds of a pixel to the point.
    pub fn get_initial_value() -> (l: Length)
        ensures
            l.au == DEFAULT_SCRIPT_MIN_SIZE_PT * AU_PER_PX * 4 / 3,
            l.au == 640,
    {
        Length { au: DEFAULT_SCRIPT_MIN_SIZE_PT * AU_PER_PX * 4 / 3 }
    }
}

/// A value for the `math-depth` property.
#[derive(Clone, Copy, Debug, PartialEq, Eq, Structural)]
pub enum MathDepth {
    /// Increment math-depth if math-style is compact.
    AutoAdd,
    /// Add the function's argument to math-depth.
    Add(Integer),
    /// Set math-depth to the specified value.
    Absolute(Integer),
}

/// Additional information for keyword-derived font sizes.
#[derive(Clone, Copy, Debug, PartialEq, Eq, Structural)]
pub struct KeywordInfo {
    /// The keyword used.
    pub kw: FontSizeKeyword,
    /// A factor to be multiplied by the computed size of the keyword, in
    /// 64ths.
    pub factor: i64,
    /// An additional fixed offset to add to the keyword's size times the
    /// factor, in the case of `calc()`.
    pub offset: Length,
}

/// The product of two numbers in 64ths, rounded towards zero.
pub open spec fn scale(value: int, factor: int) -> int {
    if value * factor >= 0 {
        value * factor / 64
    } else {
        -((-(value * factor)) / 64)
    }
}

/// The number nearest to the given one that 64 bits can hold.
pub open spec fn clamp_i64(v: int) -> i64 {
    if v > i64::MAX {
        i64::MAX
    } else if v < i64::MIN {
        i64::MIN
    } else {
        v as i64
    }
}

/// Multiplies two numbers in 64ths.
fn scale_by(value: i64, factor: i64) -> (r: i64)
    ensures
        r == clamp_i64(scale(value as int, factor as int)),
{
    assert(-0x4000_0000_0000_0000_0000_0000_0000_0000 <= (value as int) * (factor as int)
        <= 0x4000_0000_0000_0000_0000_0000_0000_0000) by (nonlinear_arith)
        requires
            -0x8000_0000_0000_0000 <= value as int <= 0x8000_0000_0000_0000,
            -0x8000_0000_0000_0000 <= factor as int <= 0x8000_0000_0000_0000,
    ;
    let product = value as i128 * factor as i128;
    let scaled = if product >= 0 {
        product / 64
    } else {
        -((-product) / 64)
    };
    if scaled > i64::MAX as i128 {
        i64::MAX
    } else if scaled < i64::MIN as i128 {
        i64::MIN
    } else {
        scaled as i64
    }
}

impl KeywordInfo {
    /// KeywordInfo value for font-size: medium
    pub fn medium() -> (k: Self)
        ensures
            k == (KeywordInfo { kw: FontSizeKeyword::Medium, factor: 64, offset: Length { au: 0 } }),
    {
        Self::new(FontSizeKeyword::Medium)
    }

    /// KeywordInfo value for no keyword.
    pub fn none() -> (k: Self)
        ensures
            k == (KeywordInfo {
                kw: FontSizeKeyword::NoKeyword,
                factor: 64,
                offset: Length { au: 0 },
            }),
    {
        Self::new(FontSizeKeyword::NoKeyword)
    }

    /// The information of a keyword as it is specified: with the factor one
    /// and no offset.
    pub fn new(kw: FontSizeKeyword) -> (k: Self)
        ensures
            k == (KeywordInfo { kw, factor: 64, offset: Length { au: 0 } }),
    {
        KeywordInfo { kw, factor: NUMBER_SCALE, offset: Length { au: 0 } }
    }

    /// Given a parent keyword info (self), apply an additional factor to it:
    /// the factor and the offset are multiplied by it, unless there is no
    /// keyword.
    pub fn compose(self, factor: i64) -> (k: Self)
        ensures
            self.kw == FontSizeKeyword::NoKeyword ==> k == self,
            self.kw != FontSizeKeyword::NoKeyword ==> k == (KeywordInfo {
                kw: self.kw,
                factor: clamp_i64(scale(self.factor as int, factor as int)),
                offset: Length {
                    au: clamp_au(clamp_i64(scale(self.offset.au as int, factor as int)) as int) as i32,
                },
            }),
    {
        if matches!(self.kw, FontSizeKeyword::NoKeyword) {
            return self;
        }
        KeywordInfo {
            kw: self.kw,
            factor: scale_by(self.factor, factor),
            offset: Length::new(scale_by(self.offset.au as i64, factor)),
        }
    }
}

/// A specified font-size value.
#[derive(Clone, Copy, Debug, PartialEq, Eq, Structural)]
pub enum FontSize {
    /// A length.
    Length(Length),
    /// A keyword value, along with a factor and an offset.
    Keyword(KeywordInfo),
    /// font-size: smaller
    Smaller,
    /// font-size: larger
    Larger,
    /// Derived from a specified system font.
    System(SystemFont),
}

impl FontSize {
    /// The keyword of an HTML font size: sizes below one count as one,
    /// sizes above seven as seven.
    pub open spec fn keyword_of_html_size(size: u8) -> FontSizeKeyword {
        if size <= 1 {
            FontSizeKeyword::XSmall
        } else if size == 2 {
            FontSizeKeyword::Small
        } else if size == 3 {
            FontSizeKeyword::Medium
        } else if size == 4 {
            FontSizeKeyword::Large
        } else if size == 5 {
            FontSizeKeyword::XLarge
        } else if size == 6 {
            FontSizeKeyword::XXLarge
        } else {
            FontSizeKeyword::XXXLarge
        }
    }

    /// The font size of a legacy HTML font size.
    pub fn from_html_size(size: u8) -> (s: Self)
        ensures
            s == FontSize::Keyword(
                KeywordInfo {
                    kw: Self::keyword_of_html_size(size),
                    factor: 64,
                    offset: Length { au: 0 },
                },
            ),
    {
        FontSize::Keyword(
            KeywordInfo::new(
                if size <= 1 {
                    FontSizeKeyword::XSmall
                } else if size == 2 {
                    FontSizeKeyword::Small
                } else if size == 3 {
                    FontSizeKeyword::Medium
                } else if size == 4 {
                    FontSizeKeyword::Large
                } else if size == 5 {
                    FontSizeKeyword::XLarge
                } else if size == 6 {
                    FontSizeKeyword::XXLarge
                } else {
                    FontSizeKeyword::XXXLarge
                },
            ),
        )
    }

    /// Get initial value for specified font size.
    pub fn medium() -> (s: Self)
        ensures
            s == FontSize::Keyword(
                KeywordInfo { kw: FontSizeKeyword::Medium, factor: 64, offset: Length { au: 0 } },
            ),
    {
        FontSize::Keyword(KeywordInfo::medium())
    }

    /// The value that stands for a system font.
    pub fn system_font(f: SystemFont) -> (s: Self)
        ensures
            s == FontSize::System(f),
    {
        FontSize::System(f)
    }

    /// The system font the value stands for, if it stands for one.
    pub fn get_system(&self) -> (s: Option<SystemFont>)
        ensures
            s == match *self {
                FontSize::System(f) => Some(f),
                _ => None,
            },
    {
        if let FontSize::System(s) = *self {
            Some(s)
        } else {
            None
        }
    }
}

/// An OpenType language system tag: up to four characters, the first in
/// the highest byte, padded with spaces; zero stands for `normal`.
#[derive(Clone, Copy, Debug, PartialEq, Eq, Structural)]
pub struct FontLanguageOverride(pub u32);

/// The byte of a tag at a place: the character of the text there, or a
/// space beyond the text.
pub open spec fn tag_byte(text: Seq<u8>, i: int) -> u8 {
    if i < text.len() {
        text[i]
    } else {
        0x20
    }
}

/// Whether every byte of the text is ASCII.
pub open spec fn all_ascii(text: Seq<u8>) -> bool {
    forall|i: int| 0 <= i < text.len() ==> #[trigger] text[i] < 0x80
}

/// The number of a tag: its four bytes, the first one highest.
pub open spec fn tag_of(text: Seq<u8>) -> int {
    tag_byte(text, 0) * 0x100_0000 + tag_byte(text, 1) * 0x1_0000 + tag_byte(text, 2) * 0x100
        + tag_byte(text, 3)
}

impl FontLanguageOverride {
    /// `normal`
    pub fn normal() -> (t: Self)
        ensures
            t == FontLanguageOverride(0),
    {
        FontLanguageOverride(0)
    }

    /// The tag that a string names: the string must have one to four
    /// characters, all of them ASCII.
    pub fn from_tag(text: &[u8]) -> (t: Option<Self>)
        ensures
            t is Some <==> 1 <= text@.len() <= 4 && all_ascii(text@),
            t matches Some(tag) ==> tag.0 == tag_of(text@),
    {
        if text.len() == 0 || text.len() > 4 {
            return None;
        }
        let mut i: usize = 0;
        while i < text.len()
            invariant
                i <= text@.len() <= 4,
                forall|j: int| 0 <= j < i ==> #[trigger] text@[j] < 0x80,
            decreases text@.len() - i,
        {
            if text[i] >= 0x80 {
                return None;
            }
            i += 1;
        }
        let b0 = text[0] as u32;
        let b1 = if text.len() > 1 {
            text[1] as u32
        } else {
            0x20
        };
        let b2 = if text.len() > 2 {
            text[2] as u32
        } else {
            0x20
        };
        let b3 = if text.len() > 3 {
            text[3] as u32
        } else {
            0x20
        };
        Some(FontLanguageOverride(b0 * 0x100_0000 + b1 * 0x1_0000 + b2 * 0x100 + b3))
    }
}

} // verus!
