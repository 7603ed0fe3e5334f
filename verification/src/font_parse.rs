//! Reading font values from CSS text: the text is cut into tokens, and
//! the tokens are read as the value they name. `font-variant-alternates`
//! takes most of the work; `font-language-override`, `font-palette`,
//! `math-depth` and the value of a font feature are a few tokens each.

use vstd::prelude::*;
use vstd::string::StringSliceAdditionalSpecFns;
use vstd::utf8::{decode_utf8, is_char_boundary};
use crate::font::{
    all_ascii, tag_of, AbsoluteFontWeight, Angle, FontLanguageOverride, FontPalette,
    FontVariantAlternates, Integer, MathDepth, Number, SpecifiedFontStyle, VariantAlternates,
    FONT_STYLE_OBLIQUE_MAX_ANGLE_DEGREES, FONT_STYLE_OBLIQUE_MIN_ANGLE_DEGREES, MAX_FONT_WEIGHT,
    MIN_FONT_WEIGHT,
};

verus! {

/// A CSS token, as far as font values tell tokens apart.
#[derive(Clone, Debug, PartialEq, Eq)]
pub enum CssToken {
    Ident(String),
    /// The name of a function with its opening parenthesis.
    Function(String),
    QuotedString(String),
    Comma,
    CloseParenthesis,
    /// A number without a unit, with its value if it is written as an
    /// integer.
    Number(Option<i32>),
    /// Any other token.
    Other,
    /// The end of the text.
    End,
}

/// What a CSS token says.
pub enum TokenView {
    Ident(Seq<char>),
    Function(Seq<char>),
    QuotedString(Seq<char>),
    Comma,
    CloseParenthesis,
    Number(Option<i32>),
    Other,
    End,
}

impl CssToken {
    pub open spec fn view(&self) -> TokenView {
        match self {
            CssToken::Ident(s) => TokenView::Ident(s@),
            CssToken::Function(s) => TokenView::Function(s@),
            CssToken::QuotedString(s) => TokenView::QuotedString(s@),
            CssToken::Comma => TokenView::Comma,
            CssToken::CloseParenthesis => TokenView::CloseParenthesis,
            CssToken::Number(v) => TokenView::Number(*v),
            CssToken::Other => TokenView::Other,
            CssToken::End => TokenView::End,
        }
    }
}

/// What a list of tokens says.
pub open spec fn tokens_view(tokens: Seq<CssToken>) -> Seq<TokenView> {
    Seq::new(tokens.len(), |i: int| tokens[i]@)
}

/// The token that `cssparser::Parser::next` finds first in a text, and
/// the number of bytes of the text up to the end of the token.
pub uninterp spec fn css_token_of(text: Seq<char>) -> (TokenView, int);

/// `cssparser::Parser::next`, on a parser that is made for the text. It
/// passes over white space and comments and gives the next token, or says
/// that the text has ended; with the token comes the place of the parser
/// after it, in bytes from the start of the text. Both depend on the text
/// alone.
#[verifier::external_body]
fn next_token(text: &str) -> (r: (CssToken, usize))
    ensures
        (r.0@, r.1 as int) == css_token_of(text@),
{
    let mut parser = cssparser::Parser::new(text);
    let token = match parser.next() {
        Ok(cssparser::Token::Ident(s)) => CssToken::Ident(s.to_string()),
        Ok(cssparser::Token::Function(s)) => CssToken::Function(s.to_string()),
        Ok(cssparser::Token::QuotedString(s)) => CssToken::QuotedString(s.to_string()),
        Ok(cssparser::Token::Comma) => CssToken::Comma,
        Ok(cssparser::Token::CloseParenthesis) => CssToken::CloseParenthesis,
        Ok(cssparser::Token::Number { int_value, .. }) => CssToken::Number(*int_value),
        Ok(_) => CssToken::Other,
        Err(_) => CssToken::End,
    };
    (token, parser.position().byte_index())
}

/// How far the cutting of a text into tokens has come.
pub struct Cut {
    /// The tokens so far.
    pub tokens: Seq<TokenView>,
    /// The byte that the next token is looked for at.
    pub pos: int,
    /// Whether the end of the text was reached.
    pub done: bool,
    /// Whether the cutting had to be given up: a token took no byte, or
    /// ended beyond the text or off a character.
    pub failed: bool,
}

/// The rest of a text in UTF-8 from a byte on.
pub open spec fn rest_of(bytes: Seq<u8>, pos: int) -> Seq<char> {
    decode_utf8(bytes.subrange(pos, bytes.len() as int))
}

/// The cutting of a text, given in UTF-8, after at most `k` tokens: each
/// token is the first one of the rest of the text after the token before.
pub open spec fn cut(bytes: Seq<u8>, k: nat) -> Cut
    decreases k,
{
    if k == 0 {
        Cut { tokens: Seq::empty(), pos: 0, done: false, failed: false }
    } else {
        let before = cut(bytes, (k - 1) as nat);
        if before.done || before.failed {
            before
        } else {
            let found = css_token_of(rest_of(bytes, before.pos));
            let next = before.pos + found.1;
            if found.0 is End {
                Cut { done: true, ..before }
            } else if found.1 <= 0 || next > bytes.len() || !is_char_boundary(bytes, next) {
                Cut { failed: true, ..before }
            } else {
                Cut { tokens: before.tokens.push(found.0), pos: next, ..before }
            }
        }
    }
}

/// Once the cutting is over, it stays as it is.
pub proof fn lemma_cut_stops(bytes: Seq<u8>, k: nat, m: nat)
    requires
        k <= m,
        cut(bytes, k).done || cut(bytes, k).failed,
    ensures
        cut(bytes, m) == cut(bytes, k),
    decreases m,
{
    if k < m {
        lemma_cut_stops(bytes, k, (m - 1) as nat);
    }
}

/// Cuts a text into its tokens, up to the end of the text. Fails when a
/// token cannot be placed in the text.
pub fn tokenize(input: &str) -> (r: Option<Vec<CssToken>>)
    ensures
        ({
            let last = cut(input.spec_bytes(), (input.spec_bytes().len() + 1) as nat);
            match r {
                Some(tokens) => last.done && tokens_view(tokens@) == last.tokens,
                None => !last.done,
            }
        }),
{
    let len = input.as_bytes().len();
    let ghost bytes = input.spec_bytes();
    let mut tokens: Vec<CssToken> = Vec::new();
    let mut pos: usize = 0;
    let mut k: usize = 0;
    proof {
        vstd::utf8::encode_utf8_valid_utf8(input@);
        assert(tokens_view(tokens@) =~= Seq::<TokenView>::empty());
    }
    while k <= len
        invariant
            len == bytes.len(),
            bytes == input.spec_bytes(),
            k <= len + 1,
            pos <= len,
            pos as int >= k as int,
            is_char_boundary(bytes, pos as int),
            cut(bytes, k as nat) == (Cut {
                tokens: tokens_view(tokens@),
                pos: pos as int,
                done: false,
                failed: false,
            }),
        decreases len + 1 - k,
    {
        let (_, rest) = input.split_at(pos);
        let (token, step) = next_token(rest);
        proof {
            vstd::utf8::encode_utf8_decode_utf8(rest@);
            assert(rest@ == rest_of(bytes, pos as int));
        }
        if let CssToken::End = token {
            proof {
                assert(cut(bytes, (k + 1) as nat).done);
                lemma_cut_stops(bytes, (k + 1) as nat, (len + 1) as nat);
            }
            return Some(tokens);
        }
        if step == 0 || step > len - pos || !input.is_char_boundary(pos + step) {
            proof {
                assert(cut(bytes, (k + 1) as nat).failed);
                lemma_cut_stops(bytes, (k + 1) as nat, (len + 1) as nat);
            }
            return None;
        }
        let ghost before = tokens_view(tokens@);
        tokens.push(token);
        assert(tokens_view(tokens@) =~= before.push(token@));
        pos = pos + step;
        k += 1;
    }
    None
}

/// The lower-case form of an ASCII letter, and any other byte as it is.
pub open spec fn lower(b: u8) -> u8 {
    if 0x41 <= b <= 0x5a {
        (b + 0x20) as u8
    } else {
        b
    }
}

/// Whether two texts are the same but for the case of ASCII letters.
pub open spec fn same_ignoring_case(a: Seq<u8>, b: Seq<u8>) -> bool {
    &&& a.len() == b.len()
    &&& forall|i: int| 0 <= i < a.len() ==> lower(#[trigger] a[i]) == lower(b[i])
}

/// Decides whether a text is a keyword but for the case of ASCII letters.
pub fn is_keyword(name: &str, keyword: &str) -> (b: bool)
    ensures
        b == same_ignoring_case(name.spec_bytes(), keyword.spec_bytes()),
{
    let text = name.as_bytes();
    let word = keyword.as_bytes();
    if text.len() != word.len() {
        return false;
    }
    let mut i: usize = 0;
    while i < text.len()
        invariant
            text@ == name.spec_bytes(),
            word@ == keyword.spec_bytes(),
            text@.len() == word@.len(),
            i <= text@.len(),
            forall|j: int| 0 <= j < i ==> lower(#[trigger] text@[j]) == lower(word@[j]),
        decreases text@.len() - i,
    {
        let a = text[i];
        let b = word[i];
        let la = if a >= 0x41 && a <= 0x5a {
            a + 0x20
        } else {
            a
        };
        let lb = if b >= 0x41 && b <= 0x5a {
            b + 0x20
        } else {
            b
        };
        if la != lb {
            assert(lower(text@[i as int]) != lower(word@[i as int]));
            return false;
        }
        i += 1;
    }
    true
}

/// Whether an identifier can name a feature value: it is none of the
/// words that CSS keeps for itself.
pub open spec fn custom_ident(name: Seq<char>) -> bool {
    let text = vstd::utf8::encode_utf8(name);
    &&& !same_ignoring_case(text, "initial".spec_bytes())
    &&& !same_ignoring_case(text, "inherit".spec_bytes())
    &&& !same_ignoring_case(text, "unset".spec_bytes())
    &&& !same_ignoring_case(text, "default".spec_bytes())
    &&& !same_ignoring_case(text, "revert".spec_bytes())
    &&& !same_ignoring_case(text, "revert-layer".spec_bytes())
}

/// Decides `custom_ident`.
pub fn is_custom_ident(text: &str) -> (b: bool)
    ensures
        b == custom_ident(text@),
{
    !(is_keyword(text, "initial") || is_keyword(text, "inherit") || is_keyword(text, "unset")
        || is_keyword(text, "default") || is_keyword(text, "revert") || is_keyword(
        text,
        "revert-layer",
    ))
}

/// Alternates of the kind were read.
pub const PARSED_HISTORICAL_FORMS: u8 = 0x01;

pub const PARSED_STYLISTIC: u8 = 0x02;

pub const PARSED_STYLESET: u8 = 0x04;

pub const PARSED_CHARACTER_VARIANT: u8 = 0x08;

pub const PARSED_SWASH: u8 = 0x10;

pub const PARSED_ORNAMENTS: u8 = 0x20;

pub const PARSED_ANNOTATION: u8 = 0x40;

/// The kinds of alternates that take feature values.
#[derive(Clone, Copy, Debug, PartialEq, Eq, Structural)]
pub enum AlternateKind {
    Stylistic,
    Styleset,
    CharacterVariant,
    Swash,
    Ornaments,
    Annotation,
}

/// The kind of alternates that a function name stands for.
pub open spec fn kind_of_name(text: Seq<char>) -> Option<AlternateKind> {
    let name = vstd::utf8::encode_utf8(text);
    if same_ignoring_case(name, "swash".spec_bytes()) {
        Some(AlternateKind::Swash)
    } else if same_ignoring_case(name, "stylistic".spec_bytes()) {
        Some(AlternateKind::Stylistic)
    } else if same_ignoring_case(name, "ornaments".spec_bytes()) {
        Some(AlternateKind::Ornaments)
    } else if same_ignoring_case(name, "annotation".spec_bytes()) {
        Some(AlternateKind::Annotation)
    } else if same_ignoring_case(name, "styleset".spec_bytes()) {
        Some(AlternateKind::Styleset)
    } else if same_ignoring_case(name, "character-variant".spec_bytes()) {
        Some(AlternateKind::CharacterVariant)
    } else {
        None
    }
}

/// The flag of a kind of alternates.
pub open spec fn flag_of(kind: AlternateKind) -> u8 {
    match kind {
        AlternateKind::Stylistic => PARSED_STYLISTIC,
        AlternateKind::Styleset => PARSED_STYLESET,
        AlternateKind::CharacterVariant => PARSED_CHARACTER_VARIANT,
        AlternateKind::Swash => PARSED_SWASH,
        AlternateKind::Ornaments => PARSED_ORNAMENTS,
        AlternateKind::Annotation => PARSED_ANNOTATION,
    }
}

/// Whether the kind takes a list of values and not one value.
pub open spec fn takes_list(kind: AlternateKind) -> bool {
    kind == AlternateKind::Styleset || kind == AlternateKind::CharacterVariant
}

/// The feature values from token `pos` on, separated by commas, up to the
/// closing parenthesis or the end of the tokens, which ends every function
/// that is open; and the place after the parenthesis, if there is one.
/// `first` says whether a value is due at `pos`, and not a comma or the
/// end of the function.
pub open spec fn value_list(tokens: Seq<TokenView>, pos: int, first: bool) -> Option<
    (Seq<Seq<char>>, int),
>
    decreases tokens.len() - pos,
{
    if pos < 0 || pos > tokens.len() {
        None
    } else if pos == tokens.len() {
        if first {
            None
        } else {
            Some((Seq::empty(), pos))
        }
    } else if first {
        match tokens[pos] {
            TokenView::Ident(text) => if custom_ident(text) {
                match value_list(tokens, pos + 1, false) {
                    Some((rest, end)) => Some((seq![text] + rest, end)),
                    None => None,
                }
            } else {
                None
            },
            _ => None,
        }
    } else {
        match tokens[pos] {
            TokenView::CloseParenthesis => Some((Seq::empty(), pos + 1)),
            TokenView::Comma => value_list(tokens, pos + 1, true),
            _ => None,
        }
    }
}

/// The one feature value at token `pos`, with the end of its function
/// after it: the closing parenthesis, or the end of the tokens, which ends
/// every function that is open. With it comes the place after the
/// parenthesis, if there is one.
pub open spec fn single_value(tokens: Seq<TokenView>, pos: int) -> Option<(Seq<char>, int)> {
    if 0 <= pos < tokens.len() {
        match tokens[pos] {
            TokenView::Ident(text) => if !custom_ident(text) {
                None
            } else if pos + 1 == tokens.len() {
                Some((text, pos + 1))
            } else if tokens[pos + 1] is CloseParenthesis {
                Some((text, pos + 2))
            } else {
                None
            },
            _ => None,
        }
    } else {
        None
    }
}

/// What was read of the alternates so far.
pub struct Alternates {
    /// The kinds that were begun, whether their values could be read or
    /// not.
    pub flags: u8,
    pub stylistic: Option<Seq<char>>,
    pub historical: bool,
    pub styleset: Option<Seq<Seq<char>>>,
    pub character_variant: Option<Seq<Seq<char>>>,
    pub swash: Option<Seq<char>>,
    pub ornaments: Option<Seq<char>>,
    pub annotation: Option<Seq<char>>,
}

/// The alternates with one more value.
pub open spec fn with_single(a: Alternates, kind: AlternateKind, value: Seq<char>) -> Alternates {
    match kind {
        AlternateKind::Stylistic => Alternates { stylistic: Some(value), ..a },
        AlternateKind::Swash => Alternates { swash: Some(value), ..a },
        AlternateKind::Ornaments => Alternates { ornaments: Some(value), ..a },
        _ => Alternates { annotation: Some(value), ..a },
    }
}

/// The alternates with one more list of values.
pub open spec fn with_list(a: Alternates, kind: AlternateKind, values: Seq<Seq<char>>) -> Alternates {
    if kind == AlternateKind::Styleset {
        Alternates { styleset: Some(values), ..a }
    } else {
        Alternates { character_variant: Some(values), ..a }
    }
}

/// Reads one alternate at token `pos`. Gives what is read then, and the
/// place after the alternate, or no place if none could be read there. A
/// kind that is begun is remembered even when its values cannot be read.
#[verifier::opaque]
pub open spec fn read_one(tokens: Seq<TokenView>, pos: int, a: Alternates) -> (
    Alternates,
    Option<int>,
) {
    if pos < 0 || pos >= tokens.len() {
        (a, None)
    } else {
        match tokens[pos] {
            TokenView::Ident(text) => if same_ignoring_case(
                vstd::utf8::encode_utf8(text),
                "historical-forms".spec_bytes(),
            ) {
                if a.flags & PARSED_HISTORICAL_FORMS != 0 {
                    (a, None)
                } else {
                    (
                        Alternates {
                            flags: a.flags | PARSED_HISTORICAL_FORMS,
                            historical: true,
                            ..a
                        },
                        Some(pos + 1),
                    )
                }
            } else {
                (a, None)
            },
            TokenView::Function(name) => match kind_of_name(name) {
                None => (a, None),
                Some(kind) => if a.flags & flag_of(kind) != 0 {
                    (a, None)
                } else {
                    let begun = Alternates { flags: a.flags | flag_of(kind), ..a };
                    if takes_list(kind) {
                        match value_list(tokens, pos + 1, true) {
                            Some((values, end)) => (with_list(begun, kind, values), Some(end)),
                            None => (begun, None),
                        }
                    } else {
                        match single_value(tokens, pos + 1) {
                            Some((value, end)) => (with_single(begun, kind, value), Some(end)),
                            None => (begun, None),
                        }
                    }
                },
            },
            _ => (a, None),
        }
    }
}

/// Reads alternates from token `pos` on, one after the other, until none
/// can be read. Gives what is read then, and the place where reading
/// stopped.
pub open spec fn read_all(tokens: Seq<TokenView>, pos: int, a: Alternates, fuel: nat) -> (
    Alternates,
    int,
)
    decreases fuel,
{
    let one = read_one(tokens, pos, a);
    match one.1 {
        Some(next) if fuel > 0 && next > pos => read_all(tokens, next, one.0, (fuel - 1) as nat),
        _ => (one.0, pos),
    }
}

/// Nothing read.
pub open spec fn no_alternates() -> Alternates {
    Alternates {
        flags: 0,
        stylistic: None,
        historical: false,
        styleset: None,
        character_variant: None,
        swash: None,
        ornaments: None,
        annotation: None,
    }
}

/// What the alternates say, kind by kind.
pub enum AlternateView {
    Stylistic(Seq<char>),
    HistoricalForms,
    Styleset(Seq<Seq<char>>),
    CharacterVariant(Seq<Seq<char>>),
    Swash(Seq<char>),
    Ornaments(Seq<char>),
    Annotation(Seq<char>),
}

/// The alternates that were read, in the order in which alternates are
/// written: stylistic, historical forms, styleset, character variant,
/// swash, ornaments, annotation.
pub open spec fn in_order(a: Alternates) -> Seq<AlternateView> {
    (match a.stylistic {
        Some(v) => seq![AlternateView::Stylistic(v)],
        None => Seq::empty(),
    }) + (if a.historical {
        seq![AlternateView::HistoricalForms]
    } else {
        Seq::empty()
    }) + (match a.styleset {
        Some(v) => seq![AlternateView::Styleset(v)],
        None => Seq::empty(),
    }) + (match a.character_variant {
        Some(v) => seq![AlternateView::CharacterVariant(v)],
        None => Seq::empty(),
    }) + (match a.swash {
        Some(v) => seq![AlternateView::Swash(v)],
        None => Seq::empty(),
    }) + (match a.ornaments {
        Some(v) => seq![AlternateView::Ornaments(v)],
        None => Seq::empty(),
    }) + (match a.annotation {
        Some(v) => seq![AlternateView::Annotation(v)],
        None => Seq::empty(),
    })
}

/// What reading `font-variant-alternates` from tokens comes to: the
/// alternates and the number of tokens that were read, or nothing if the
/// tokens begin with no alternate. The word `normal` stands for no
/// alternates.
pub open spec fn alternates_of(tokens: Seq<TokenView>) -> Option<(Seq<AlternateView>, int)> {
    if tokens.len() > 0 && tokens[0] is Ident && same_ignoring_case(
        vstd::utf8::encode_utf8(tokens[0]->Ident_0),
        "normal".spec_bytes(),
    ) {
        Some((Seq::empty(), 1))
    } else {
        let read = read_all(tokens, 0, no_alternates(), tokens.len());
        if read.0.flags == 0 {
            None
        } else {
            Some((in_order(read.0), read.1))
        }
    }
}

/// The texts of a list of strings.
pub open spec fn texts(list: Seq<String>) -> Seq<Seq<char>> {
    Seq::new(list.len(), |i: int| list[i]@)
}

/// What one alternate says.
pub open spec fn alternate_view(a: VariantAlternates) -> AlternateView {
    match a {
        VariantAlternates::Stylistic(v) => AlternateView::Stylistic(v@),
        VariantAlternates::HistoricalForms => AlternateView::HistoricalForms,
        VariantAlternates::Styleset(v) => AlternateView::Styleset(texts(v@)),
        VariantAlternates::CharacterVariant(v) => AlternateView::CharacterVariant(texts(v@)),
        VariantAlternates::Swash(v) => AlternateView::Swash(v@),
        VariantAlternates::Ornaments(v) => AlternateView::Ornaments(v@),
        VariantAlternates::Annotation(v) => AlternateView::Annotation(v@),
    }
}

/// What a list of alternates says.
pub open spec fn alternates_view(list: Seq<VariantAlternates>) -> Seq<AlternateView> {
    Seq::new(list.len(), |i: int| alternate_view(list[i]))
}

/// What was read of the alternates so far, as it is held while reading.
struct Reading {
    flags: u8,
    stylistic: Option<String>,
    historical: bool,
    styleset: Option<Vec<String>>,
    character_variant: Option<Vec<String>>,
    swash: Option<String>,
    ornaments: Option<String>,
    annotation: Option<String>,
}

impl Reading {
    spec fn view(&self) -> Alternates {
        Alternates {
            flags: self.flags,
            stylistic: match self.stylistic {
                Some(v) => Some(v@),
                None => None,
            },
            historical: self.historical,
            styleset: match self.styleset {
                Some(v) => Some(texts(v@)),
                None => None,
            },
            character_variant: match self.character_variant {
                Some(v) => Some(texts(v@)),
                None => None,
            },
            swash: match self.swash {
                Some(v) => Some(v@),
                None => None,
            },
            ornaments: match self.ornaments {
                Some(v) => Some(v@),
                None => None,
            },
            annotation: match self.annotation {
                Some(v) => Some(v@),
                None => None,
            },
        }
    }
}

/// Where a list of values stands after some of it was read: the values
/// read so far go before the values that are still to come.
spec fn continue_list(
    tokens: Seq<TokenView>,
    pos: int,
    first: bool,
    so_far: Seq<Seq<char>>,
) -> Option<(Seq<Seq<char>>, int)> {
    match value_list(tokens, pos, first) {
        Some((rest, end)) => Some((so_far + rest, end)),
        None => None,
    }
}

fn read_value_list(tokens: &Vec<CssToken>, start: usize) -> (r: Option<(Vec<String>, usize)>)
    ensures
        match r {
            Some((values, end)) => value_list(tokens_view(tokens@), start as int, true) == Some(
                (texts(values@), end as int),
            ) && start < end <= tokens@.len(),
            None => value_list(tokens_view(tokens@), start as int, true) is None,
        },
{
    let ghost all = tokens_view(tokens@);
    if start >= tokens.len() {
        return None;
    }
    let mut values: Vec<String> = Vec::new();
    let mut pos = start;
    let mut first = true;
    assert(texts(values@) + Seq::<Seq<char>>::empty() =~= texts(values@));
    while pos < tokens.len()
        invariant
            all == tokens_view(tokens@),
            start <= pos <= tokens@.len(),
            !first ==> pos > start,
            value_list(all, start as int, true) == continue_list(
                all,
                pos as int,
                first,
                texts(values@),
            ),
        decreases tokens@.len() - pos,
    {
        assert(all[pos as int] == tokens@[pos as int]@);
        let ghost before = texts(values@);
        if first {
            match &tokens[pos] {
                CssToken::Ident(text) => {
                    if !is_custom_ident(text.as_str()) {
                        return None;
                    }
                    values.push(text.clone());
                    proof {
                        assert(texts(values@) =~= before.push(text@));
                        match value_list(all, pos + 1, false) {
                            Some((rest, end)) => {
                                assert(before + (seq![text@] + rest) =~= before.push(text@) + rest);
                            },
                            None => {},
                        }
                    }
                    first = false;
                },
                _ => {
                    return None;
                },
            }
        } else {
            match &tokens[pos] {
                CssToken::CloseParenthesis => {
                    assert(before + Seq::<Seq<char>>::empty() =~= before);
                    return Some((values, pos + 1));
                },
                CssToken::Comma => {
                    first = true;
                },
                _ => {
                    return None;
                },
            }
        }
        pos += 1;
    }
    if first {
        None
    } else {
        assert(texts(values@) + Seq::<Seq<char>>::empty() =~= texts(values@));
        Some((values, pos))
    }
}

fn read_single_value(tokens: &Vec<CssToken>, pos: usize) -> (r: Option<(String, usize)>)
    ensures
        match r {
            Some((value, end)) => single_value(tokens_view(tokens@), pos as int) == Some(
                (value@, end as int),
            ) && pos < end <= tokens@.len(),
            None => single_value(tokens_view(tokens@), pos as int) is None,
        },
{
    let n = tokens.len();
    if pos >= n {
        return None;
    }
    assert(tokens_view(tokens@)[pos as int] == tokens@[pos as int]@);
    match &tokens[pos] {
        CssToken::Ident(text) => {
            if !is_custom_ident(text.as_str()) {
                return None;
            }
            if n - pos == 1 {
                return Some((text.clone(), pos + 1));
            }
            assert(tokens_view(tokens@)[pos + 1] == tokens@[pos + 1]@);
            match &tokens[pos + 1] {
                CssToken::CloseParenthesis => Some((text.clone(), pos + 2)),
                _ => None,
            }
        },
        _ => None,
    }
}

fn name_kind(name: &str) -> (k: Option<AlternateKind>)
    ensures
        k == kind_of_name(name@),
{
    if is_keyword(name, "swash") {
        Some(AlternateKind::Swash)
    } else if is_keyword(name, "stylistic") {
        Some(AlternateKind::Stylistic)
    } else if is_keyword(name, "ornaments") {
        Some(AlternateKind::Ornaments)
    } else if is_keyword(name, "annotation") {
        Some(AlternateKind::Annotation)
    } else if is_keyword(name, "styleset") {
        Some(AlternateKind::Styleset)
    } else if is_keyword(name, "character-variant") {
        Some(AlternateKind::CharacterVariant)
    } else {
        None
    }
}

fn read_alternate(tokens: &Vec<CssToken>, pos: usize, state: &mut Reading) -> (next: Option<usize>)
    ensures
        final(state)@ == read_one(tokens_view(tokens@), pos as int, old(state)@).0,
        match next {
            Some(n) => read_one(tokens_view(tokens@), pos as int, old(state)@).1 == Some(n as int)
                && n <= tokens@.len(),
            None => read_one(tokens_view(tokens@), pos as int, old(state)@).1 is None,
        },
{
    reveal(read_one);
    if pos >= tokens.len() {
        return None;
    }
    assert(tokens_view(tokens@)[pos as int] == tokens@[pos as int]@);
    match &tokens[pos] {
        CssToken::Ident(text) => {
            if !is_keyword(text.as_str(), "historical-forms") {
                return None;
            }
            if state.flags & PARSED_HISTORICAL_FORMS != 0 {
                return None;
            }
            state.flags = state.flags | PARSED_HISTORICAL_FORMS;
            state.historical = true;
            Some(pos + 1)
        },
        CssToken::Function(name) => {
            let kind = match name_kind(name.as_str()) {
                Some(kind) => kind,
                None => {
                    return None;
                },
            };
            let flag = match kind {
                AlternateKind::Stylistic => PARSED_STYLISTIC,
                AlternateKind::Styleset => PARSED_STYLESET,
                AlternateKind::CharacterVariant => PARSED_CHARACTER_VARIANT,
                AlternateKind::Swash => PARSED_SWASH,
                AlternateKind::Ornaments => PARSED_ORNAMENTS,
                AlternateKind::Annotation => PARSED_ANNOTATION,
            };
            if state.flags & flag != 0 {
                return None;
            }
            state.flags = state.flags | flag;
            match kind {
                AlternateKind::Styleset => match read_value_list(tokens, pos + 1) {
                    Some((values, end)) => {
                        state.styleset = Some(values);
                        Some(end)
                    },
                    None => None,
                },
                AlternateKind::CharacterVariant => match read_value_list(tokens, pos + 1) {
                    Some((values, end)) => {
                        state.character_variant = Some(values);
                        Some(end)
                    },
                    None => None,
                },
                AlternateKind::Stylistic => match read_single_value(tokens, pos + 1) {
                    Some((value, end)) => {
                        state.stylistic = Some(value);
                        Some(end)
                    },
                    None => None,
                },
                AlternateKind::Swash => match read_single_value(tokens, pos + 1) {
                    Some((value, end)) => {
                        state.swash = Some(value);
                        Some(end)
                    },
                    None => None,
                },
                AlternateKind::Ornaments => match read_single_value(tokens, pos + 1) {
                    Some((value, end)) => {
                        state.ornaments = Some(value);
                        Some(end)
                    },
                    None => None,
                },
                AlternateKind::Annotation => match read_single_value(tokens, pos + 1) {
                    Some((value, end)) => {
                        state.annotation = Some(value);
                        Some(end)
                    },
                    None => None,
                },
            }
        },
        _ => None,
    }
}

fn read_alternates(tokens: &Vec<CssToken>) -> (r: (Reading, usize))
    ensures
        (r.0@, r.1 as int) == read_all(
            tokens_view(tokens@),
            0,
            no_alternates(),
            tokens@.len(),
        ),
        r.1 <= tokens@.len(),
{
    let ghost all = tokens_view(tokens@);
    let mut state = Reading {
        flags: 0,
        stylistic: None,
        historical: false,
        styleset: None,
        character_variant: None,
        swash: None,
        ornaments: None,
        annotation: None,
    };
    let mut pos: usize = 0;
    let n = tokens.len();
    let mut fuel: usize = n;
    let mut going = true;
    while going
        invariant
            all == tokens_view(tokens@),
            n == tokens@.len(),
            pos <= n,
            going ==> read_all(all, 0, no_alternates(), n as nat) == read_all(
                all,
                pos as int,
                state@,
                fuel as nat,
            ),
            !going ==> read_all(all, 0, no_alternates(), n as nat) == (state@, pos as int),
        decreases 2 * fuel + (if going {
            1int
        } else {
            0int
        }),
    {
        match read_alternate(tokens, pos, &mut state) {
            Some(next) => {
                if fuel > 0 && next > pos {
                    pos = next;
                    fuel = fuel - 1;
                } else {
                    going = false;
                }
            },
            None => {
                going = false;
            },
        }
    }
    (state, pos)
}

/// What an alternate of one value says.
spec fn single_view(kind: AlternateKind, value: Seq<char>) -> AlternateView {
    match kind {
        AlternateKind::Stylistic => AlternateView::Stylistic(value),
        AlternateKind::Swash => AlternateView::Swash(value),
        AlternateKind::Ornaments => AlternateView::Ornaments(value),
        _ => AlternateView::Annotation(value),
    }
}

fn push_single(list: &mut Vec<VariantAlternates>, kind: AlternateKind, value: Option<String>)
    requires
        !takes_list(kind),
    ensures
        alternates_view(final(list)@) == alternates_view(old(list)@) + (match value {
            Some(v) => seq![single_view(kind, v@)],
            None => Seq::empty(),
        }),
{
    let ghost before = alternates_view(list@);
    match value {
        Some(v) => {
            let ghost text = v@;
            let item = match kind {
                AlternateKind::Stylistic => VariantAlternates::Stylistic(v),
                AlternateKind::Swash => VariantAlternates::Swash(v),
                AlternateKind::Ornaments => VariantAlternates::Ornaments(v),
                _ => VariantAlternates::Annotation(v),
            };
            list.push(item);
            assert(alternates_view(list@) =~= before + seq![single_view(kind, text)]);
        },
        None => {
            assert(alternates_view(list@) =~= before + Seq::<AlternateView>::empty());
        },
    }
}

fn push_list(list: &mut Vec<VariantAlternates>, styleset: bool, values: Option<Vec<String>>)
    ensures
        alternates_view(final(list)@) == alternates_view(old(list)@) + (match values {
            Some(v) => seq![
                if styleset {
                    AlternateView::Styleset(texts(v@))
                } else {
                    AlternateView::CharacterVariant(texts(v@))
                },
            ],
            None => Seq::empty(),
        }),
{
    let ghost before = alternates_view(list@);
    match values {
        Some(v) => {
            let ghost view = if styleset {
                AlternateView::Styleset(texts(v@))
            } else {
                AlternateView::CharacterVariant(texts(v@))
            };
            let item = if styleset {
                VariantAlternates::Styleset(v)
            } else {
                VariantAlternates::CharacterVariant(v)
            };
            list.push(item);
            assert(alternates_view(list@) =~= before + seq![view]);
        },
        None => {
            assert(alternates_view(list@) =~= before + Seq::<AlternateView>::empty());
        },
    }
}

fn push_historical(list: &mut Vec<VariantAlternates>, historical: bool)
    ensures
        alternates_view(final(list)@) == alternates_view(old(list)@) + (if historical {
            seq![AlternateView::HistoricalForms]
        } else {
            Seq::empty()
        }),
{
    let ghost before = alternates_view(list@);
    if historical {
        list.push(VariantAlternates::HistoricalForms);
        assert(alternates_view(list@) =~= before + seq![AlternateView::HistoricalForms]);
    } else {
        assert(alternates_view(list@) =~= before + Seq::<AlternateView>::empty());
    }
}

fn collect(state: Reading) -> (list: Vec<VariantAlternates>)
    ensures
        alternates_view(list@) == in_order(state@),
{
    let mut list: Vec<VariantAlternates> = Vec::new();
    let Reading {
        flags: _,
        stylistic,
        historical,
        styleset,
        character_variant,
        swash,
        ornaments,
        annotation,
    } = state;
    assert(alternates_view(list@) =~= Seq::<AlternateView>::empty());
    push_single(&mut list, AlternateKind::Stylistic, stylistic);
    push_historical(&mut list, historical);
    push_list(&mut list, true, styleset);
    push_list(&mut list, false, character_variant);
    push_single(&mut list, AlternateKind::Swash, swash);
    push_single(&mut list, AlternateKind::Ornaments, ornaments);
    push_single(&mut list, AlternateKind::Annotation, annotation);
    assert(alternates_view(list@) =~= in_order(state@));
    list
}

impl FontVariantAlternates {
    /// Reads `font-variant-alternates` from tokens: `normal`, or alternates
    /// of each kind at most once, in any order. Gives the alternates in the
    /// order in which they are written out, and the number of tokens that
    /// were read; or nothing, if the tokens begin with no alternate.
    pub fn from_tokens(tokens: &Vec<CssToken>) -> (r: Option<(FontVariantAlternates, usize)>)
        ensures
            match r {
                Some((value, count)) => alternates_of(tokens_view(tokens@)) == Some(
                    (alternates_view(value.0@), count as int),
                ) && count <= tokens@.len(),
                None => alternates_of(tokens_view(tokens@)) is None,
            },
    {
        let ghost all = tokens_view(tokens@);
        if tokens.len() > 0 {
            assert(all[0] == tokens@[0]@);
            if let CssToken::Ident(text) = &tokens[0] {
                if is_keyword(text.as_str(), "normal") {
                    let value = FontVariantAlternates(Vec::new());
                    assert(alternates_view(value.0@) =~= Seq::<AlternateView>::empty());
                    return Some((value, 1));
                }
            }
        }
        let (state, pos) = read_alternates(tokens);
        if state.flags == 0 {
            return None;
        }
        Some((FontVariantAlternates(collect(state)), pos))
    }

    /// Reads `font-variant-alternates` from CSS text. Succeeds when the
    /// whole text is a value of the property, and gives the value.
    pub fn parse(input: &str) -> (r: Option<FontVariantAlternates>)
        ensures
            ({
                let last = cut(input.spec_bytes(), (input.spec_bytes().len() + 1) as nat);
                match r {
                    Some(value) => last.done && alternates_of(last.tokens) == Some(
                        (alternates_view(value.0@), last.tokens.len() as int),
                    ),
                    None => !last.done || !(alternates_of(last.tokens) matches Some((_, n)) && n
                        == last.tokens.len()),
                }
            }),
    {
        let tokens = match tokenize(input) {
            Some(tokens) => tokens,
            None => {
                return None;
            },
        };
        match Self::from_tokens(&tokens) {
            Some((value, count)) => {
                if count == tokens.len() {
                    Some(value)
                } else {
                    None
                }
            },
            None => None,
        }
    }
}

/// The text that tokens must be to be one value: the tokens of the whole
/// text, if the text can be cut into tokens at all.
pub open spec fn whole_text(input: &str) -> Option<Seq<TokenView>> {
    let last = cut(input.spec_bytes(), (input.spec_bytes().len() + 1) as nat);
    if last.done {
        Some(last.tokens)
    } else {
        None
    }
}

/// The value of `font-language-override` that a token names: `normal`,
/// which is zero, or the tag that a string of one to four ASCII characters
/// spells.
pub open spec fn language_override_of(token: TokenView) -> Option<int> {
    match token {
        TokenView::Ident(name) => if same_ignoring_case(
            vstd::utf8::encode_utf8(name),
            "normal".spec_bytes(),
        ) {
            Some(0int)
        } else {
            None
        },
        TokenView::QuotedString(text) => {
            let bytes = vstd::utf8::encode_utf8(text);
            if 1 <= bytes.len() <= 4 && all_ascii(bytes) {
                Some(tag_of(bytes))
            } else {
                None
            }
        },
        _ => None,
    }
}

impl FontLanguageOverride {
    /// Reads `font-language-override` from a token.
    pub fn from_token(token: &CssToken) -> (r: Option<FontLanguageOverride>)
        ensures
            match r {
                Some(value) => language_override_of(token@) == Some(value.0 as int),
                None => language_override_of(token@) is None,
            },
    {
        match token {
            CssToken::Ident(name) => {
                if is_keyword(name.as_str(), "normal") {
                    Some(FontLanguageOverride::normal())
                } else {
                    None
                }
            },
            CssToken::QuotedString(text) => FontLanguageOverride::from_tag(
                text.as_str().as_bytes(),
            ),
            _ => None,
        }
    }

    /// Reads `font-language-override` from CSS text. Succeeds when the
    /// whole text is one token that names a value, and gives the value.
    pub fn parse(input: &str) -> (r: Option<FontLanguageOverride>)
        ensures
            match r {
                Some(value) => whole_text(input) matches Some(tokens) && tokens.len() == 1
                    && language_override_of(tokens[0]) == Some(value.0 as int),
                None => !(whole_text(input) matches Some(tokens) && tokens.len() == 1
                    && language_override_of(tokens[0]) is Some),
            },
    {
        let tokens = match tokenize(input) {
            Some(tokens) => tokens,
            None => {
                return None;
            },
        };
        if tokens.len() != 1 {
            return None;
        }
        assert(tokens_view(tokens@)[0] == tokens@[0]@);
        FontLanguageOverride::from_token(&tokens[0])
    }
}

/// Whether a text begins with two hyphens, as the name of a palette that
/// an author defines does.
pub open spec fn dashed(text: Seq<u8>) -> bool {
    text.len() >= 2 && text[0] == 0x2d && text[1] == 0x2d
}

/// The palette that a token names: one of the keywords `normal`, `light`
/// and `dark`, in lower case whatever the case they are written in, or a
/// name that begins with two hyphens, as it is written.
pub open spec fn palette_of(token: TokenView) -> Option<Seq<char>> {
    match token {
        TokenView::Ident(name) => {
            let text = vstd::utf8::encode_utf8(name);
            if same_ignoring_case(text, "normal".spec_bytes()) {
                Some("normal"@)
            } else if same_ignoring_case(text, "light".spec_bytes()) {
                Some("light"@)
            } else if same_ignoring_case(text, "dark".spec_bytes()) {
                Some("dark"@)
            } else if dashed(text) {
                Some(name)
            } else {
                None
            }
        },
        _ => None,
    }
}

impl FontPalette {
    /// Reads `font-palette` from a token.
    pub fn from_token(token: &CssToken) -> (r: Option<FontPalette>)
        ensures
            match r {
                Some(value) => palette_of(token@) == Some(value.0@),
                None => palette_of(token@) is None,
            },
    {
        match token {
            CssToken::Ident(name) => {
                if is_keyword(name.as_str(), "normal") {
                    Some(FontPalette::normal())
                } else if is_keyword(name.as_str(), "light") {
                    Some(FontPalette::light())
                } else if is_keyword(name.as_str(), "dark") {
                    Some(FontPalette::dark())
                } else {
                    let text = name.as_str().as_bytes();
                    if text.len() >= 2 && text[0] == 0x2d && text[1] == 0x2d {
                        Some(FontPalette(name.clone()))
                    } else {
                        None
                    }
                }
            },
            _ => None,
        }
    }

    /// Reads `font-palette` from CSS text. Succeeds when the whole text is
    /// one token that names a palette, and gives the palette.
    pub fn parse(input: &str) -> (r: Option<FontPalette>)
        ensures
            match r {
                Some(value) => whole_text(input) matches Some(tokens) && tokens.len() == 1
                    && palette_of(tokens[0]) == Some(value.0@),
                None => !(whole_text(input) matches Some(tokens) && tokens.len() == 1
                    && palette_of(tokens[0]) is Some),
            },
    {
        let tokens = match tokenize(input) {
            Some(tokens) => tokens,
            None => {
                return None;
            },
        };
        if tokens.len() != 1 {
            return None;
        }
        assert(tokens_view(tokens@)[0] == tokens@[0]@);
        FontPalette::from_token(&tokens[0])
    }
}

/// The value of `math-depth` that tokens begin with, and the number of
/// tokens that it takes: `auto-add`, an integer, or `add(` with an integer
/// and the end of the function, which is the closing parenthesis or the
/// end of the tokens.
pub open spec fn math_depth_of(tokens: Seq<TokenView>) -> Option<(MathDepth, int)> {
    if tokens.len() == 0 {
        None
    } else {
        match tokens[0] {
            TokenView::Ident(name) => if same_ignoring_case(
                vstd::utf8::encode_utf8(name),
                "auto-add".spec_bytes(),
            ) {
                Some((MathDepth::AutoAdd, 1int))
            } else {
                None
            },
            TokenView::Number(Some(value)) => Some(
                (MathDepth::Absolute(Integer { value, calc: false }), 1int),
            ),
            TokenView::Function(name) => if tokens.len() >= 2 && same_ignoring_case(
                vstd::utf8::encode_utf8(name),
                "add".spec_bytes(),
            ) {
                match tokens[1] {
                    TokenView::Number(Some(value)) => if tokens.len() == 2 {
                        Some((MathDepth::Add(Integer { value, calc: false }), 2int))
                    } else if tokens[2] is CloseParenthesis {
                        Some((MathDepth::Add(Integer { value, calc: false }), 3int))
                    } else {
                        None
                    },
                    _ => None,
                }
            } else {
                None
            },
            _ => None,
        }
    }
}

impl MathDepth {
    /// Reads `math-depth` from tokens. Gives the value that the tokens
    /// begin with and the number of tokens that were read; or nothing, if
    /// they begin with no value.
    pub fn from_tokens(tokens: &Vec<CssToken>) -> (r: Option<(MathDepth, usize)>)
        ensures
            match r {
                Some((value, count)) => math_depth_of(tokens_view(tokens@)) == Some(
                    (value, count as int),
                ) && count <= tokens@.len(),
                None => math_depth_of(tokens_view(tokens@)) is None,
            },
    {
        if tokens.len() == 0 {
            return None;
        }
        assert(tokens_view(tokens@)[0] == tokens@[0]@);
        match &tokens[0] {
            CssToken::Ident(name) => {
                if is_keyword(name.as_str(), "auto-add") {
                    Some((MathDepth::AutoAdd, 1))
                } else {
                    None
                }
            },
            CssToken::Number(Some(value)) => Some(
                (MathDepth::Absolute(Integer { value: *value, calc: false }), 1),
            ),
            CssToken::Function(name) => {
                if tokens.len() < 2 || !is_keyword(name.as_str(), "add") {
                    return None;
                }
                assert(tokens_view(tokens@)[1] == tokens@[1]@);
                match &tokens[1] {
                    CssToken::Number(Some(value)) => {
                        if tokens.len() == 2 {
                            return Some(
                                (MathDepth::Add(Integer { value: *value, calc: false }), 2),
                            );
                        }
                        assert(tokens_view(tokens@)[2] == tokens@[2]@);
                        match &tokens[2] {
                            CssToken::CloseParenthesis => Some(
                                (MathDepth::Add(Integer { value: *value, calc: false }), 3),
                            ),
                            _ => None,
                        }
                    },
                    _ => None,
                }
            },
            _ => None,
        }
    }

    /// Reads `math-depth` from CSS text. Succeeds when the whole text is a
    /// value of the property, and gives the value.
    pub fn parse(input: &str) -> (r: Option<MathDepth>)
        ensures
            match r {
                Some(value) => whole_text(input) matches Some(tokens) && math_depth_of(tokens)
                    == Some((value, tokens.len() as int)),
                None => !(whole_text(input) matches Some(tokens) && (math_depth_of(
                    tokens,
                ) matches Some((_, n)) && n == tokens.len())),
            },
    {
        let tokens = match tokenize(input) {
            Some(tokens) => tokens,
            None => {
                return None;
            },
        };
        match MathDepth::from_tokens(&tokens) {
            Some((value, count)) => {
                if count == tokens.len() {
                    Some(value)
                } else {
                    None
                }
            },
            None => None,
        }
    }
}

/// The value of a font feature that a token names: an integer that is not
/// negative, `on` for one, or `off` for zero.
pub open spec fn feature_value_of(token: TokenView) -> Option<Integer> {
    match token {
        TokenView::Number(Some(value)) => if value >= 0 {
            Some(Integer { value, calc: false })
        } else {
            None
        },
        TokenView::Ident(name) => {
            let text = vstd::utf8::encode_utf8(name);
            if same_ignoring_case(text, "on".spec_bytes()) {
                Some(Integer { value: 1, calc: false })
            } else if same_ignoring_case(text, "off".spec_bytes()) {
                Some(Integer { value: 0, calc: false })
            } else {
                None
            }
        },
        _ => None,
    }
}

/// Reads the value of a font feature from a token.
pub fn parse_one_feature_value(token: &CssToken) -> (r: Option<Integer>)
    ensures
        r == feature_value_of(token@),
{
    match token {
        CssToken::Number(Some(value)) => {
            if *value >= 0 {
                Some(Integer { value: *value, calc: false })
            } else {
                None
            }
        },
        CssToken::Ident(name) => {
            if is_keyword(name.as_str(), "on") {
                Some(Integer { value: 1, calc: false })
            } else if is_keyword(name.as_str(), "off") {
                Some(Integer { value: 0, calc: false })
            } else {
                None
            }
        },
        _ => None,
    }
}

/// The weight that a keyword names.
pub open spec fn weight_keyword_of(name: Seq<char>) -> Option<AbsoluteFontWeight> {
    let text = vstd::utf8::encode_utf8(name);
    if same_ignoring_case(text, "normal".spec_bytes()) {
        Some(AbsoluteFontWeight::Normal)
    } else if same_ignoring_case(text, "bold".spec_bytes()) {
        Some(AbsoluteFontWeight::Bold)
    } else {
        None
    }
}

impl AbsoluteFontWeight {
    /// The weight that a number stands for. A number that is written out
    /// must lie between 1 and 1000; a number out of `calc()` is taken as it
    /// is, and brought into the range when the weight is computed.
    pub fn from_number(number: Number) -> (r: Option<AbsoluteFontWeight>)
        ensures
            r == if number.calc || MIN_FONT_WEIGHT <= number.value <= MAX_FONT_WEIGHT {
                Some(AbsoluteFontWeight::Weight(number))
            } else {
                None
            },
    {
        if !number.was_calc() && (number.get() < MIN_FONT_WEIGHT as i64 || number.get()
            > MAX_FONT_WEIGHT as i64) {
            return None;
        }
        Some(AbsoluteFontWeight::Weight(number))
    }

    /// Reads a weight from a keyword: `normal` or `bold`.
    pub fn from_keyword(name: &str) -> (r: Option<AbsoluteFontWeight>)
        ensures
            r == weight_keyword_of(name@),
    {
        if is_keyword(name, "normal") {
            Some(AbsoluteFontWeight::Normal)
        } else if is_keyword(name, "bold") {
            Some(AbsoluteFontWeight::Bold)
        } else {
            None
        }
    }
}

/// The keywords of `font-style`.
#[derive(Clone, Copy, Debug, PartialEq, Eq, Structural)]
pub enum FontStyleKeyword {
    Normal,
    Italic,
    Oblique,
}

/// The keyword of `font-style` that a name is.
pub open spec fn style_keyword_of(name: Seq<char>) -> Option<FontStyleKeyword> {
    let text = vstd::utf8::encode_utf8(name);
    if same_ignoring_case(text, "normal".spec_bytes()) {
        Some(FontStyleKeyword::Normal)
    } else if same_ignoring_case(text, "italic".spec_bytes()) {
        Some(FontStyleKeyword::Italic)
    } else if same_ignoring_case(text, "oblique".spec_bytes()) {
        Some(FontStyleKeyword::Oblique)
    } else {
        None
    }
}

/// Reads a keyword of `font-style`.
pub fn font_style_keyword(name: &str) -> (r: Option<FontStyleKeyword>)
    ensures
        r == style_keyword_of(name@),
{
    if is_keyword(name, "normal") {
        Some(FontStyleKeyword::Normal)
    } else if is_keyword(name, "italic") {
        Some(FontStyleKeyword::Italic)
    } else if is_keyword(name, "oblique") {
        Some(FontStyleKeyword::Oblique)
    } else {
        None
    }
}

impl SpecifiedFontStyle {
    /// The style that a keyword stands for, with the angle that is written
    /// after it, if one is. `normal` is oblique by no angle. `oblique`
    /// takes the angle if it may be written there, and else the default
    /// angle.
    pub fn from_keyword(keyword: FontStyleKeyword, angle: Option<Angle>) -> (s: SpecifiedFontStyle)
        ensures
            s == match keyword {
                FontStyleKeyword::Normal => SpecifiedFontStyle::Oblique(
                    Angle { value: 0, calc: false },
                ),
                FontStyleKeyword::Italic => SpecifiedFontStyle::Italic,
                FontStyleKeyword::Oblique => SpecifiedFontStyle::Oblique(
                    match angle {
                        Some(a) => if a.calc || (FONT_STYLE_OBLIQUE_MIN_ANGLE_DEGREES <= a.value
                            <= FONT_STYLE_OBLIQUE_MAX_ANGLE_DEGREES) {
                            a
                        } else {
                            Angle { value: 3584, calc: false }
                        },
                        None => Angle { value: 3584, calc: false },
                    },
                ),
            },
    {
        match keyword {
            FontStyleKeyword::Normal => SpecifiedFontStyle::normal(),
            FontStyleKeyword::Italic => SpecifiedFontStyle::Italic,
            FontStyleKeyword::Oblique => {
                let angle = match angle {
                    Some(a) => {
                        if SpecifiedFontStyle::angle_is_valid(&a) {
                            a
                        } else {
                            SpecifiedFontStyle::default_angle()
                        }
                    },
                    None => SpecifiedFontStyle::default_angle(),
                };
                SpecifiedFontStyle::Oblique(angle)
            },
        }
    }
}

} // verus!
