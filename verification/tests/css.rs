use cssparser::{
    AtRuleParser, CowRcStr, DeclarationParser, ParseError, Parser, ParserInput, ParserState,
    QualifiedRuleParser, RuleBodyItemParser, RuleBodyParser, SourceLocation, StyleSheetParser,
    ToCss,
};
use lightningcss::media_query as outer_media;
use lightningcss::stylesheet::ParserOptions;
use lightningcss::values::length::{Length, LengthValue};
use lumen::browser::animation::{
    frame_candidates, frame_segment, spawn_tracks, Animated, Animations, FrameValue, Progress, Track,
};
use lumen::browser::document::{Document, Node, NodeKind};
use lumen::css::color::{AngleUnit, Color, ColorForm, Notation, Part};
use lumen::css::declaration::collect_declarations;
use lumen::css::font_face::parse_font_face;
use lumen::css::media::{
    enter_media, parse_media_query, Comparison, MediaCondition, MediaFeature, MediaPrelude,
    MediaQuery, MAX_MEDIA_NESTING,
};
use lumen::css::number::{Number, Scale};
use lumen::css::properties::{inherited, is_inherited, is_supported, keeps_raw, property};
use lumen::css::selector as names;
use lumen::css::shorthand;
use lumen::css::stylesheet::{
    at_rule, frame_offsets, keyframes_name, sort_keyframes, AtRule, FrameOffset, SheetBuilder,
    Stylesheet,
};
use lumen::css::value::{split_components, CssValue, Unit};
use parcel_selectors::parser::{
    Component, NestingRequirement, ParseErrorRecovery, SelectorImpl, SelectorList,
    SelectorParseErrorKind,
};
use std::fmt;
use std::sync::Arc;

// ---------------------------------------------------------------------------
// What literals and color forms come to in single precision
// ---------------------------------------------------------------------------

fn literal(text: &str) -> f32 {
    text.parse().unwrap()
}

fn number(n: &Number) -> f32 {
    let value = literal(&n.literal);
    match n.scale {
        Scale::One => value,
        Scale::Pt => value * (96.0 / 72.0),
        Scale::Pc => value * 16.0,
        Scale::Cm => value * (96.0 / 2.54),
        Scale::Mm => value * (96.0 / 25.4),
        Scale::In => value * 96.0,
        Scale::Q => value * (96.0 / 101.6),
        Scale::Half => value * 0.5,
    }
}

fn fraction(part: &Part) -> f32 {
    match part {
        Part::Percent(p) => literal(p) / 100.0,
        Part::Number(n) => literal(n),
        other => panic!("no fraction: {other:?}"),
    }
}

fn byte(value: f32) -> u8 {
    (value.clamp(0.0, 1.0) * 255.0).round() as u8
}

fn unit_rgb(r: f32, g: f32, b: f32, alpha: f32) -> Color {
    Color::rgba(byte(r), byte(g), byte(b), byte(alpha))
}

fn share(part: &Part) -> f32 {
    match part {
        Part::Missing => 0.0,
        other => fraction(other).clamp(0.0, 1.0),
    }
}

fn scaled(part: &Part, full: f32) -> f32 {
    match part {
        Part::Missing => 0.0,
        Part::Percent(p) => literal(p) / 100.0 * full,
        Part::Number(n) => literal(n),
        other => panic!("no number: {other:?}"),
    }
}

fn hue(part: &Part) -> f32 {
    let degrees = match part {
        Part::Missing => return 0.0,
        Part::Number(n) => literal(n),
        Part::Angle(n, AngleUnit::Deg) => literal(n),
        Part::Angle(n, AngleUnit::Grad) => literal(n) * (360.0 / 400.0),
        Part::Angle(n, AngleUnit::Rad) => literal(n) * (360.0 / std::f32::consts::TAU),
        Part::Angle(n, AngleUnit::Turn) => literal(n) * 360.0,
        other => panic!("no hue: {other:?}"),
    };
    degrees.rem_euclid(360.0)
}

fn gamma_encode(channel: f32) -> f32 {
    if channel <= 0.003_130_8 {
        channel * 12.92
    } else {
        1.055 * channel.powf(1.0 / 2.4) - 0.055
    }
}

fn gamma_decode(channel: f32) -> f32 {
    if channel <= 0.040_45 {
        channel / 12.92
    } else {
        ((channel + 0.055) / 1.055).powf(2.4)
    }
}

fn oklab_to_linear(l: f32, a: f32, b: f32) -> [f32; 3] {
    let x = (l + 0.396_337_78 * a + 0.215_803_76 * b).powi(3);
    let y = (l - 0.105_561_346 * a - 0.063_854_17 * b).powi(3);
    let z = (l - 0.089_484_18 * a - 1.291_485_5 * b).powi(3);
    [
        4.076_741_7 * x - 3.307_711_6 * y + 0.230_969_94 * z,
        -1.268_438 * x + 2.609_757_4 * y - 0.341_319_38 * z,
        -0.004_196_086_3 * x - 0.703_418_6 * y + 1.707_614_7 * z,
    ]
}

fn linear_to_oklab(r: f32, g: f32, b: f32) -> [f32; 3] {
    let l = (0.412_221_46 * r + 0.536_332_55 * g + 0.051_445_995 * b).cbrt();
    let m = (0.211_903_5 * r + 0.680_699_5 * g + 0.107_396_96 * b).cbrt();
    let s = (0.088_302_46 * r + 0.281_718_85 * g + 0.629_978_5 * b).cbrt();
    [
        0.210_454_26 * l + 0.793_617_8 * m - 0.004_072_047 * s,
        1.977_998_5 * l - 2.428_592_2 * m + 0.450_593_7 * s,
        0.025_904_037 * l + 0.782_771_77 * m - 0.808_675_77 * s,
    ]
}

fn lab_to_linear(l: f32, a: f32, b: f32) -> [f32; 3] {
    let y = (l + 16.0) / 116.0;
    let invert = |f: f32| {
        let cubed = f * f * f;
        if cubed > 216.0 / 24389.0 {
            cubed
        } else {
            (116.0 * f - 16.0) / (24389.0 / 27.0)
        }
    };
    let (x, y, z) = (
        invert(y + a / 500.0) * 0.964_22,
        invert(y),
        invert(y - b / 200.0) * 0.825_21,
    );
    [
        3.134_136 * x - 1.617_386_3 * y - 0.490_661_95 * z,
        -0.978_768_45 * x + 1.916_141_6 * y + 0.033_454_068 * z,
        0.071_945_4 * x - 0.228_999_4 * y + 1.405_356_3 * z,
    ]
}

fn hsl_to_rgb(hue: f32, saturation: f32, lightness: f32) -> (u8, u8, u8) {
    let chroma = (1.0 - (2.0 * lightness - 1.0).abs()) * saturation;
    let sector = hue / 60.0;
    let x = chroma * (1.0 - (sector % 2.0 - 1.0).abs());
    let (r, g, b) = match sector as u32 {
        0 => (chroma, x, 0.0),
        1 => (x, chroma, 0.0),
        2 => (0.0, chroma, x),
        3 => (0.0, x, chroma),
        4 => (x, 0.0, chroma),
        _ => (chroma, 0.0, x),
    };
    let m = lightness - chroma / 2.0;
    (byte(r + m), byte(g + m), byte(b + m))
}

fn color(form: &ColorForm) -> Color {
    match form {
        ColorForm::Srgb(color) => *color,
        ColorForm::Components { notation, parts, alpha } => {
            let (first, second, third) = parts;
            let alpha = match alpha {
                None | Some(Part::Missing) => 1.0,
                Some(part) => fraction(part).clamp(0.0, 1.0),
            };
            match notation {
                Notation::Rgb => {
                    let channel = |part: &Part| match part {
                        Part::Byte(b) => *b,
                        Part::Percent(p) => {
                            (literal(p).clamp(0.0, 100.0) / 100.0 * 255.0).round() as u8
                        }
                        other => panic!("no channel: {other:?}"),
                    };
                    Color::rgba(channel(first), channel(second), channel(third), byte(alpha))
                }
                Notation::Hsl => {
                    let (r, g, b) = hsl_to_rgb(hue(first), share(second), share(third));
                    Color::rgba(r, g, b, byte(alpha))
                }
                Notation::Hwb => {
                    let (hue, white, black) = (hue(first), share(second), share(third));
                    if white + black >= 1.0 {
                        let gray = white / (white + black);
                        unit_rgb(gray, gray, gray, alpha)
                    } else {
                        let (r, g, b) = hsl_to_rgb(hue, 1.0, 0.5);
                        let wash = |c: u8| f32::from(c) / 255.0 * (1.0 - white - black) + white;
                        unit_rgb(wash(r), wash(g), wash(b), alpha)
                    }
                }
                Notation::Perceptual(space) => {
                    let (lightness_full, axis_full, chroma_full) =
                        if space.is_ok() { (1.0, 0.4, 0.4) } else { (100.0, 125.0, 150.0) };
                    let lightness = scaled(first, lightness_full);
                    let (a, b) = if space.is_polar() {
                        let chroma = scaled(second, chroma_full);
                        let angle = hue(third).to_radians();
                        (chroma * angle.cos(), chroma * angle.sin())
                    } else {
                        (scaled(second, axis_full), scaled(third, axis_full))
                    };
                    let [r, g, b] = if space.is_ok() {
                        oklab_to_linear(lightness, a, b)
                    } else {
                        lab_to_linear(lightness, a, b)
                    };
                    unit_rgb(gamma_encode(r), gamma_encode(g), gamma_encode(b), alpha)
                }
            }
        }
        ColorForm::Mix { perceptual, first, first_share, second, second_share } => {
            let stated = |share: &Option<String>| share.as_ref().map(|p| literal(p) / 100.0);
            let (first_weight, second_weight) = match (stated(first_share), stated(second_share)) {
                (Some(a), Some(b)) if a + b > 0.0 => (a / (a + b), b / (a + b)),
                (Some(a), None) => (a.clamp(0.0, 1.0), 1.0 - a.clamp(0.0, 1.0)),
                (None, Some(b)) => (1.0 - b.clamp(0.0, 1.0), b.clamp(0.0, 1.0)),
                _ => (0.5, 0.5),
            };
            let (first, second) = (color(first), color(second));
            let coordinates = |c: Color| {
                let unit =
                    [f32::from(c.r) / 255.0, f32::from(c.g) / 255.0, f32::from(c.b) / 255.0];
                if *perceptual {
                    linear_to_oklab(
                        gamma_decode(unit[0]),
                        gamma_decode(unit[1]),
                        gamma_decode(unit[2]),
                    )
                } else {
                    unit
                }
            };
            let (left, right) = (coordinates(first), coordinates(second));
            let blend = |i: usize| left[i] * first_weight + right[i] * second_weight;
            let mixed = [blend(0), blend(1), blend(2)];
            let [r, g, b] = if *perceptual {
                let linear = oklab_to_linear(mixed[0], mixed[1], mixed[2]);
                [gamma_encode(linear[0]), gamma_encode(linear[1]), gamma_encode(linear[2])]
            } else {
                mixed
            };
            let alpha =
                (f32::from(first.a) * first_weight + f32::from(second.a) * second_weight) / 255.0;
            unit_rgb(r, g, b, alpha)
        }
    }
}

fn parse_color(source: &str) -> Option<Color> {
    Color::parse(source).map(|form| color(&form))
}

/// A value with its numbers in single precision.
#[derive(Debug, Clone, PartialEq)]
enum Value {
    Keyword(String),
    String(String),
    Url(String),
    Unresolved(String),
    Function(String, String),
    Length(f32, Unit),
    Color(Color),
    Number(f32),
    Auto,
}

impl Value {
    fn text(&self) -> String {
        match self {
            Value::Keyword(s) | Value::Unresolved(s) => s.clone(),
            Value::String(s) => format!("\"{s}\""),
            Value::Url(s) => format!("url({s})"),
            Value::Function(name, arguments) => format!("{name}({arguments})"),
            Value::Length(v, unit) => {
                let suffix = match unit {
                    Unit::Px => "px",
                    Unit::Em => "em",
                    Unit::Rem => "rem",
                    Unit::Vw => "vw",
                    Unit::Vh => "vh",
                    Unit::Vmin => "vmin",
                    Unit::Vmax => "vmax",
                    Unit::Percent => "%",
                };
                format!("{v}{suffix}")
            }
            Value::Color(c) => c.to_text(),
            Value::Number(v) => format!("{v}"),
            Value::Auto => "auto".to_string(),
        }
    }
}

fn evaluate(value: &CssValue) -> Value {
    match value {
        CssValue::Keyword(s) => Value::Keyword(s.clone()),
        CssValue::String(s) => Value::String(s.clone()),
        CssValue::Url(s) => Value::Url(s.clone()),
        CssValue::Unresolved(s) => Value::Unresolved(s.clone()),
        CssValue::Function(name, arguments) => Value::Function(name.clone(), arguments.clone()),
        CssValue::Length(n, unit) => Value::Length(number(n), *unit),
        CssValue::Color(form) => Value::Color(color(form)),
        CssValue::Number(n) => Value::Number(number(n)),
        CssValue::Auto => Value::Auto,
        CssValue::Joined(parts) => {
            let texts: Vec<String> = parts.iter().map(|part| evaluate(part).text()).collect();
            Value::Keyword(texts.join(" "))
        }
    }
}

fn component(source: &str) -> Option<Value> {
    CssValue::parse_component(source).map(|value| evaluate(&value))
}

#[derive(Debug, Clone, PartialEq)]
struct Declaration {
    name: String,
    value: Value,
    important: bool,
}

fn declared(list: &[shorthand::Declaration]) -> Vec<Declaration> {
    list.iter()
        .map(|declaration| Declaration {
            name: declaration.name.clone(),
            value: evaluate(&declaration.value),
            important: declaration.important,
        })
        .collect()
}

/// An integer that is ordered as the number is.
fn key(value: f32) -> i64 {
    let magnitude = i64::from(value.to_bits() & 0x7fff_ffff);
    if value.is_sign_negative() {
        -magnitude
    } else {
        magnitude
    }
}

// ---------------------------------------------------------------------------
// Reading style sheets
// ---------------------------------------------------------------------------

struct RawPairs {
    pairs: Vec<(String, String)>,
}

impl<'i> DeclarationParser<'i> for RawPairs {
    type Declaration = ();
    type Error = ();

    fn parse_value<'t>(
        &mut self,
        name: CowRcStr<'i>,
        input: &mut Parser<'i, 't>,
        _start: &ParserState,
    ) -> Result<(), ParseError<'i, ()>> {
        let start = input.position();
        while input.next().is_ok() {}
        let value = input.slice_from(start);
        self.pairs.push((name.to_string(), value.to_string()));
        Ok(())
    }
}

impl<'i> AtRuleParser<'i> for RawPairs {
    type Prelude = ();
    type AtRule = ();
    type Error = ();
}

impl<'i> QualifiedRuleParser<'i> for RawPairs {
    type Prelude = ();
    type QualifiedRule = ();
    type Error = ();
}

impl<'i> RuleBodyItemParser<'i, (), ()> for RawPairs {
    fn parse_declarations(&self) -> bool {
        true
    }
    fn parse_qualified(&self) -> bool {
        false
    }
}

fn raw_pairs(input: &mut Parser) -> Vec<(String, String)> {
    let mut collector = RawPairs { pairs: Vec::new() };
    for _ in RuleBodyParser::new(input, &mut collector) {}
    collector.pairs
}

fn parse_declarations(source: &str) -> Vec<Declaration> {
    let mut input = ParserInput::new(source);
    let mut input = Parser::new(&mut input);
    declared(&collect_declarations(&raw_pairs(&mut input)))
}

fn media_bound(value: &outer_media::MediaFeatureValue) -> Option<i64> {
    let outer_media::MediaFeatureValue::Length(length) = value else {
        return None;
    };
    if let Some(px) = length.to_px() {
        return Some(key(px));
    }
    match length {
        Length::Value(LengthValue::Em(value) | LengthValue::Rem(value)) => {
            Some(key(value * 16.0))
        }
        _ => None,
    }
}

fn comparison(operator: &outer_media::MediaFeatureComparison) -> Comparison {
    match operator {
        outer_media::MediaFeatureComparison::Equal => Comparison::Equal,
        outer_media::MediaFeatureComparison::GreaterThan => Comparison::GreaterThan,
        outer_media::MediaFeatureComparison::GreaterThanEqual => Comparison::GreaterThanEqual,
        outer_media::MediaFeatureComparison::LessThan => Comparison::LessThan,
        outer_media::MediaFeatureComparison::LessThanEqual => Comparison::LessThanEqual,
    }
}

fn media_feature(
    feature: &outer_media::QueryFeature<outer_media::MediaFeatureId>,
) -> MediaFeature {
    let width = outer_media::MediaFeatureId::Width;
    match feature {
        outer_media::QueryFeature::Range {
            name: outer_media::MediaFeatureName::Standard(id),
            operator,
            value,
        } if *id == width => MediaFeature::Width {
            operator: comparison(operator),
            bound: media_bound(value),
        },
        outer_media::QueryFeature::Interval {
            name: outer_media::MediaFeatureName::Standard(id),
            start,
            start_operator,
            end,
            end_operator,
        } if *id == width => MediaFeature::Interval {
            start: media_bound(start),
            start_operator: comparison(start_operator),
            end: media_bound(end),
            end_operator: comparison(end_operator),
        },
        _ => MediaFeature::Other,
    }
}

fn media_condition(condition: &outer_media::MediaCondition) -> MediaCondition {
    match condition {
        outer_media::MediaCondition::Feature(feature) => {
            MediaCondition::Feature(media_feature(feature))
        }
        outer_media::MediaCondition::Operation {
            operator: outer_media::Operator::And,
            conditions,
        } => MediaCondition::And(conditions.iter().map(media_condition).collect()),
        _ => MediaCondition::Other,
    }
}

fn media_query(input: &mut Parser) -> Option<MediaQuery> {
    let list = outer_media::MediaList::parse(input, &ParserOptions::default()).ok()?;
    let preludes: Vec<MediaPrelude> = list
        .media_queries
        .iter()
        .map(|query| MediaPrelude {
            negated: matches!(query.qualifier, Some(outer_media::Qualifier::Not)),
            on_screen: matches!(
                query.media_type,
                outer_media::MediaType::All | outer_media::MediaType::Screen
            ),
            condition: query.condition.as_ref().map(media_condition),
        })
        .collect();
    parse_media_query(&preludes)
}

type Selector = parcel_selectors::parser::Selector<'static, Selectors>;

#[derive(Debug, Clone, PartialEq, Eq, Hash, Default)]
struct Ident(String);

impl AsRef<str> for Ident {
    fn as_ref(&self) -> &str {
        &self.0
    }
}

impl std::borrow::Borrow<str> for Ident {
    fn borrow(&self) -> &str {
        &self.0
    }
}

impl ToCss for Ident {
    fn to_css<W: fmt::Write>(&self, dest: &mut W) -> fmt::Result {
        dest.write_str(&self.0)
    }
}

impl<'i> From<CowRcStr<'i>> for Ident {
    fn from(value: CowRcStr<'i>) -> Self {
        Self(value.to_string())
    }
}

impl<'any> static_self::IntoOwned<'any> for Ident {
    type Owned = Self;

    fn into_owned(self) -> Self {
        self
    }
}

#[derive(Debug, Clone, Copy, PartialEq, Eq, Hash)]
struct Selectors;

impl<'i> SelectorImpl<'i> for Selectors {
    type ExtraMatchingData = ();
    type AttrValue = Ident;
    type Identifier = Ident;
    type LocalName = Ident;
    type NamespaceUrl = Ident;
    type NamespacePrefix = Ident;
    type BorrowedNamespaceUrl = str;
    type BorrowedLocalName = str;
    type NonTSPseudoClass = PseudoClass;
    type VendorPrefix = Ident;
    type PseudoElement = PseudoElement;
}

impl<'any> static_self::IntoOwned<'any> for Selectors {
    type Owned = Selectors;

    fn into_owned(self) -> Selectors {
        self
    }
}

#[derive(Debug, Clone, Copy, PartialEq, Eq, Hash)]
struct PseudoClass(names::PseudoClass);

impl<'any> static_self::IntoOwned<'any> for PseudoClass {
    type Owned = Self;

    fn into_owned(self) -> Self {
        self
    }
}

impl ToCss for PseudoClass {
    fn to_css<W: fmt::Write>(&self, dest: &mut W) -> fmt::Result {
        dest.write_str(self.0.name())
    }
}

impl<'i> parcel_selectors::parser::NonTSPseudoClass<'i> for PseudoClass {
    type Impl = Selectors;

    fn is_active_or_hover(&self) -> bool {
        self.0.is_active_or_hover()
    }

    fn is_user_action_state(&self) -> bool {
        self.0.is_user_action_state()
    }
}

#[derive(Debug, Clone, Copy, PartialEq, Eq, Hash)]
struct PseudoElement(names::PseudoElement);

impl<'any> static_self::IntoOwned<'any> for PseudoElement {
    type Owned = Self;

    fn into_owned(self) -> Self {
        self
    }
}

impl ToCss for PseudoElement {
    fn to_css<W: fmt::Write>(&self, dest: &mut W) -> fmt::Result {
        dest.write_str(self.0.name())
    }
}

impl<'i> parcel_selectors::parser::PseudoElement<'i> for PseudoElement {
    type Impl = Selectors;
}

#[derive(Debug)]
struct SelectorError;

impl<'i> From<SelectorParseErrorKind<'i>> for SelectorError {
    fn from(_kind: SelectorParseErrorKind<'i>) -> Self {
        SelectorError
    }
}

struct SelectorVocabulary;

impl<'i> parcel_selectors::parser::Parser<'i> for SelectorVocabulary {
    type Impl = Selectors;
    type Error = SelectorError;

    fn parse_is_and_where(&self) -> bool {
        true
    }

    fn parse_non_ts_pseudo_class(
        &self,
        location: SourceLocation,
        name: CowRcStr<'i>,
    ) -> Result<PseudoClass, ParseError<'i, SelectorError>> {
        match names::PseudoClass::parse(&name) {
            Some(class) => Ok(PseudoClass(class)),
            None => Err(location.new_custom_error(SelectorError)),
        }
    }

    fn parse_pseudo_element(
        &self,
        location: SourceLocation,
        name: CowRcStr<'i>,
    ) -> Result<PseudoElement, ParseError<'i, SelectorError>> {
        match names::PseudoElement::parse(&name) {
            Some(element) => Ok(PseudoElement(element)),
            None => Err(location.new_custom_error(SelectorError)),
        }
    }
}

fn parse_selector_list(source: &str) -> Option<Vec<Selector>> {
    let mut input = ParserInput::new(source);
    let mut input = Parser::new(&mut input);
    let list = SelectorList::parse(
        &SelectorVocabulary,
        &mut input,
        ParseErrorRecovery::DiscardList,
        NestingRequirement::None,
    )
    .ok()?;
    input.expect_exhausted().ok()?;
    let list: SelectorList<'static, Selectors> = static_self::IntoOwned::into_owned(list);
    Some(list.0.into_vec())
}

fn parse_selector(source: &str) -> Option<Selector> {
    let selectors = parse_selector_list(source)?;
    match selectors.len() {
        1 => selectors.into_iter().next(),
        _ => None,
    }
}

struct SheetReader<'a> {
    sheet: &'a mut SheetBuilder,
    selectors: &'a mut Vec<Selector>,
    media: Option<MediaQuery>,
    depth: usize,
}

enum Prelude {
    Media(Option<MediaQuery>),
    FontFace,
    Keyframes(String),
}

impl<'i> AtRuleParser<'i> for SheetReader<'_> {
    type Prelude = Prelude;
    type AtRule = ();
    type Error = ();

    fn parse_prelude<'t>(
        &mut self,
        name: CowRcStr<'i>,
        input: &mut Parser<'i, 't>,
    ) -> Result<Prelude, ParseError<'i, ()>> {
        match at_rule(&name) {
            AtRule::Media => Ok(Prelude::Media(media_query(input))),
            AtRule::FontFace => Ok(Prelude::FontFace),
            AtRule::Keyframes => {
                let start = input.position();
                while input.next().is_ok() {}
                match keyframes_name(input.slice_from(start)) {
                    Some(name) => Ok(Prelude::Keyframes(name)),
                    None => Err(input.new_error_for_next_token()),
                }
            }
            AtRule::Unsupported => Err(input.new_error_for_next_token()),
        }
    }

    fn parse_block<'t>(
        &mut self,
        prelude: Prelude,
        _start: &ParserState,
        input: &mut Parser<'i, 't>,
    ) -> Result<(), ParseError<'i, ()>> {
        match prelude {
            Prelude::Media(query) => {
                if let Some(media) = enter_media(self.media, query, self.depth) {
                    let mut nested = SheetReader {
                        sheet: self.sheet,
                        selectors: self.selectors,
                        media: Some(media),
                        depth: self.depth + 1,
                    };
                    for _ in RuleBodyParser::new(input, &mut nested) {}
                }
            }
            Prelude::FontFace => {
                self.sheet.push_font_face(parse_font_face(&raw_pairs(input)));
            }
            Prelude::Keyframes(name) => {
                let mut reader = FrameReader { frames: Vec::new() };
                for _ in RuleBodyParser::new(input, &mut reader) {}
                self.sheet.push_keyframes(sort_keyframes(name, reader.frames));
            }
        }
        Ok(())
    }
}

impl<'i> DeclarationParser<'i> for SheetReader<'_> {
    type Declaration = ();
    type Error = ();
}

impl<'i> QualifiedRuleParser<'i> for SheetReader<'_> {
    type Prelude = Vec<Selector>;
    type QualifiedRule = ();
    type Error = ();

    fn parse_prelude<'t>(
        &mut self,
        input: &mut Parser<'i, 't>,
    ) -> Result<Vec<Selector>, ParseError<'i, ()>> {
        let start = input.position();
        while input.next().is_ok() {}
        let source = input.slice_from(start);
        parse_selector_list(source.trim()).ok_or_else(|| input.new_error_for_next_token())
    }

    fn parse_block<'t>(
        &mut self,
        selectors: Vec<Selector>,
        _start: &ParserState,
        input: &mut Parser<'i, 't>,
    ) -> Result<(), ParseError<'i, ()>> {
        let first = self.selectors.len();
        let numbers = (first..first + selectors.len()).collect();
        self.selectors.extend(selectors);
        let declarations = collect_declarations(&raw_pairs(input));
        self.sheet.push_rule(numbers, declarations, self.media);
        Ok(())
    }
}

impl<'i> RuleBodyItemParser<'i, (), ()> for SheetReader<'_> {
    fn parse_declarations(&self) -> bool {
        false
    }
    fn parse_qualified(&self) -> bool {
        true
    }
}

struct FrameReader {
    frames: Vec<(i64, Vec<shorthand::Declaration>)>,
}

impl<'i> QualifiedRuleParser<'i> for FrameReader {
    type Prelude = Vec<i64>;
    type QualifiedRule = ();
    type Error = ();

    fn parse_prelude<'t>(
        &mut self,
        input: &mut Parser<'i, 't>,
    ) -> Result<Vec<i64>, ParseError<'i, ()>> {
        let start = input.position();
        while input.next().is_ok() {}
        let offsets: Vec<i64> = frame_offsets(input.slice_from(start))
            .iter()
            .map(|offset| match offset {
                FrameOffset::From => key(0.0),
                FrameOffset::To => key(1.0),
                FrameOffset::Percent(p) => key((literal(p) / 100.0).clamp(0.0, 1.0)),
            })
            .collect();
        if offsets.is_empty() {
            return Err(input.new_error_for_next_token());
        }
        Ok(offsets)
    }

    fn parse_block<'t>(
        &mut self,
        offsets: Vec<i64>,
        _start: &ParserState,
        input: &mut Parser<'i, 't>,
    ) -> Result<(), ParseError<'i, ()>> {
        let declarations = collect_declarations(&raw_pairs(input));
        for offset in offsets {
            self.frames.push((offset, declarations.clone()));
        }
        Ok(())
    }
}

impl<'i> DeclarationParser<'i> for FrameReader {
    type Declaration = ();
    type Error = ();
}

impl<'i> AtRuleParser<'i> for FrameReader {
    type Prelude = ();
    type AtRule = ();
    type Error = ();
}

impl<'i> RuleBodyItemParser<'i, (), ()> for FrameReader {
    fn parse_declarations(&self) -> bool {
        false
    }
    fn parse_qualified(&self) -> bool {
        true
    }
}

fn read_sheet(source: &str) -> (Stylesheet, Vec<Selector>) {
    let mut sheet = SheetBuilder::new();
    let mut selectors = Vec::new();
    let mut input = ParserInput::new(source);
    let mut input = Parser::new(&mut input);
    {
        let mut reader = SheetReader {
            sheet: &mut sheet,
            selectors: &mut selectors,
            media: None,
            depth: 0,
        };
        for _ in StyleSheetParser::new(&mut input, &mut reader) {}
    }
    (sheet.finish(), selectors)
}

fn parse_stylesheet(source: &str) -> Stylesheet {
    read_sheet(source).0
}

// ---------------------------------------------------------------------------
// Values
// ---------------------------------------------------------------------------


#[test]
fn modern_color_spaces_land_on_their_srgb_equivalents() {
    let parse = |source: &str| parse_color(source).unwrap().to_text();
    // White and black survive every round trip.
    assert_eq!(parse("oklch(1 0 0)"), "#ffffff");
    assert_eq!(parse("oklab(0 0 0)"), "#000000");
    assert_eq!(parse("lab(100% 0 0)"), "#ffffff");
    assert_eq!(parse("lch(0% 0 0)"), "#000000");
    // hwb with no wash is the pure hue; equal wash is mid gray.
    assert_eq!(parse("hwb(0 0% 0%)"), "#ff0000");
    assert_eq!(parse("hwb(120deg 0% 0%)"), "#00ff00");
    assert_eq!(parse("hwb(0 50% 50%)"), "#808080");
    // A known sRGB primary through the Lab path, within rounding.
    let red = parse_color("lab(54.29% 80.8 69.89)").unwrap();
    assert!(red.r > 250 && red.g < 6 && red.b < 6, "lab red: {red:?}");
    let blue = parse_color("oklch(0.452 0.313 264.05)").unwrap();
    assert!(
        blue.b > 248 && blue.r < 8 && blue.g < 8,
        "oklch blue: {blue:?}"
    );
}

#[test]
fn a_hue_reads_in_any_angle_unit() {
    let green = parse_color("hwb(120deg 0% 0%)").unwrap();
    for same in [
        "hwb(120 0% 0%)",
        "hwb(0.3333turn 0% 0%)",
        "hwb(2.0944rad 0% 0%)",
    ] {
        assert_eq!(parse_color(same).unwrap(), green, "{same}");
    }
}

#[test]
fn color_mix_weighs_its_two_sides() {
    let parse = |source: &str| parse_color(source).unwrap();
    // Half and half in sRGB is the arithmetic midpoint.
    assert_eq!(
        parse("color-mix(in srgb, #000000, #ffffff)").to_text(),
        "#808080"
    );
    // A stated share moves the midpoint, and the other side takes
    // what is left.
    assert_eq!(
        parse("color-mix(in srgb, #000000 25%, #ffffff)").to_text(),
        "#bfbfbf"
    );
    // Halfway up Oklab's lightness is the gray that looks mid, which is
    // darker than sRGB's arithmetic middle.
    assert_eq!(
        parse("color-mix(in oklab, #000000, #ffffff)").to_text(),
        "#636363"
    );
    // Alpha mixes with the color.
    assert_eq!(parse("color-mix(in srgb, #ff000000, #ff0000)").a, 128);
}

#[test]
fn a_modern_color_survives_as_a_declaration_value() {
    assert_eq!(
        component("oklch(1 0 0)"),
        Some(Value::Color(Color::rgb(0xff, 0xff, 0xff)))
    );
    assert_eq!(
        component("color-mix(in srgb, red, red)"),
        Some(Value::Color(Color::rgb(0xff, 0, 0)))
    );
}

#[test]
fn absolute_and_font_relative_units_fold() {
    assert_eq!(
        component("72pt"),
        Some(Value::Length(96.0, Unit::Px))
    );
    assert_eq!(
        component("1in"),
        Some(Value::Length(96.0, Unit::Px))
    );
    assert_eq!(
        component("2.54cm"),
        Some(Value::Length(96.0, Unit::Px))
    );
    assert_eq!(
        component("1pc"),
        Some(Value::Length(16.0, Unit::Px))
    );
    assert_eq!(
        component("2ch"),
        Some(Value::Length(1.0, Unit::Em))
    );
    assert_eq!(
        component("10vmin"),
        Some(Value::Length(10.0, Unit::Vmin))
    );
    assert_eq!(
        component("10vmax"),
        Some(Value::Length(10.0, Unit::Vmax))
    );
}

#[test]
fn quoted_strings_survive_splitting_and_parse() {
    let components = split_components("\"hello world\" 4px");
    assert_eq!(components, vec!["\"hello world\"", "4px"]);
    assert_eq!(
        component("\"hello world\""),
        Some(Value::String("hello world".to_string()))
    );
    assert_eq!(
        component("'x'"),
        Some(Value::String("x".to_string()))
    );
}

#[test]
fn parses_hex_colors() {
    assert_eq!(parse_color("#fff"), Some(Color::rgb(255, 255, 255)));
    assert_eq!(parse_color("#1f2937"), Some(Color::rgb(31, 41, 55)));
    assert_eq!(parse_color("#12"), None);
    assert_eq!(parse_color("#zzz"), None);
}

#[test]
fn parses_rgb_function() {
    assert_eq!(
        parse_color("rgb(255, 0, 10)"),
        Some(Color::rgb(255, 0, 10))
    );
    assert_eq!(parse_color("rgb(300, 0, 0)"), None);
    assert_eq!(parse_color("rgb(1, 2)"), None);
}

#[test]
fn parses_rgb_percentage_channels_and_alpha() {
    assert_eq!(
        parse_color("rgb(100%, 0%, 0%)"),
        Some(Color::rgb(255, 0, 0))
    );
    assert_eq!(
        parse_color("rgb(50%, 50%, 50%)"),
        Some(Color::rgb(128, 128, 128))
    );
    assert_eq!(
        parse_color("rgba(0, 0, 0, 50%)"),
        Some(Color::rgba(0, 0, 0, 128))
    );
    assert_eq!(parse_color("rgb(150%, 0, 0)"), Some(Color::rgb(255, 0, 0)));
}

#[test]
fn parses_named_colors() {
    assert_eq!(parse_color("RED"), Some(Color::rgb(255, 0, 0)));
    assert_eq!(
        parse_color("rebeccapurple"),
        Some(Color::rgb(102, 51, 153))
    );
    assert_eq!(parse_color("dodgerblue"), Some(Color::rgb(30, 144, 255)));
    assert_eq!(parse_color("mauve"), None);
}

#[test]
fn parses_alpha_forms() {
    assert_eq!(
        parse_color("#ff000080"),
        Some(Color::rgba(255, 0, 0, 0x80))
    );
    assert_eq!(parse_color("#f008"), Some(Color::rgba(255, 0, 0, 0x88)));
    assert_eq!(
        parse_color("rgba(10, 20, 30, 0.5)"),
        Some(Color::rgba(10, 20, 30, 128))
    );
    assert_eq!(
        parse_color("rgba(10, 20, 30, 2.0)"),
        Some(Color::rgba(10, 20, 30, 255))
    );
}

#[test]
fn parses_hsl() {
    assert_eq!(
        parse_color("hsl(0, 100%, 50%)"),
        Some(Color::rgb(255, 0, 0))
    );
    assert_eq!(
        parse_color("hsl(120, 100%, 25%)"),
        Some(Color::rgb(0, 128, 0))
    );
    assert_eq!(
        parse_color("hsla(240, 100%, 50%, 0.5)"),
        Some(Color::rgba(0, 0, 255, 128))
    );
}

#[test]
fn parses_modern_hsl_forms() {
    // Space-separated channels and slash alpha.
    assert_eq!(
        parse_color("hsl(0 100% 50% / .5)"),
        Some(Color::rgba(255, 0, 0, 128))
    );
    assert_eq!(
        parse_color("hsl(120 100% 25%)"),
        Some(Color::rgb(0, 128, 0))
    );
    assert_eq!(
        parse_color("hsl(240 100% 50% / 50%)"),
        Some(Color::rgba(0, 0, 255, 128))
    );
    // An explicit deg unit on the hue is accepted.
    assert_eq!(
        parse_color("hsl(120deg 100% 25%)"),
        Some(Color::rgb(0, 128, 0))
    );
}

#[test]
fn url_keyword_is_case_insensitive() {
    assert_eq!(
        component("URL(bg.png)"),
        Some(Value::Url("bg.png".to_string()))
    );
    assert_eq!(
        component("Url('a b.png')"),
        Some(Value::Url("a b.png".to_string()))
    );
}

#[test]
fn non_finite_numbers_are_rejected() {
    // f32 parsing accepts these spellings; they must not become values.
    assert_eq!(component("NaN"), None);
    assert_eq!(component("NaNpx"), None);
    assert_eq!(component("inf%"), None);
    assert_eq!(component("1e999px"), None);
    // Finite values are untouched.
    assert_eq!(
        component("1e3px"),
        Some(Value::Length(1000.0, Unit::Px))
    );
}

#[test]
fn alpha_colors_display_as_rgba() {
    assert_eq!(
        Color::rgba(255, 0, 0, 128).to_text(),
        "rgba(255,0,0,0.502)"
    );
    assert_eq!(Color::rgb(255, 0, 0).to_text(), "#ff0000");
}

#[test]
fn color_displays_as_rrggbb() {
    assert_eq!(Color::rgb(255, 0, 10).to_text(), "#ff000a");
}

#[test]
fn parses_lengths_numbers_and_keywords() {
    assert_eq!(
        component("16px"),
        Some(Value::Length(16.0, Unit::Px))
    );
    assert_eq!(
        component("50%"),
        Some(Value::Length(50.0, Unit::Percent))
    );
    assert_eq!(
        component("1.5em"),
        Some(Value::Length(1.5, Unit::Em))
    );
    assert_eq!(
        component("0"),
        Some(Value::Length(0.0, Unit::Px))
    );
    assert_eq!(
        component("700"),
        Some(Value::Number(700.0))
    );
    assert_eq!(component("Auto"), Some(Value::Auto));
    assert_eq!(
        component("Block"),
        Some(Value::Keyword("block".to_string()))
    );
    assert_eq!(
        component("transparent"),
        Some(Value::Keyword("transparent".to_string()))
    );
    assert_eq!(
        component("url(x)"),
        Some(Value::Url("x".to_string()))
    );
    assert_eq!(
        component("linear-gradient(to right, #000, #fff)"),
        Some(Value::Function(
            "linear-gradient".to_string(),
            "to right, #000, #fff".to_string()
        ))
    );
}

#[test]
fn splits_components_respecting_parentheses() {
    assert_eq!(
        split_components("1px  rgb(0, 0, 0)   solid"),
        vec!["1px", "rgb(0, 0, 0)", "solid"]
    );
}

// ---------------------------------------------------------------------------
// Style sheets
// ---------------------------------------------------------------------------


fn px(value: f32) -> Value {
    Value::Length(value, Unit::Px)
}

#[test]
fn parses_selector_list_and_declarations() {
    let sheet = parse_stylesheet(".card, #main { width: 400px; color: #222; }");
    assert_eq!(sheet.rules.len(), 1);
    assert_eq!(sheet.rules[0].selectors.len(), 2);
    assert_eq!(
        declared(&sheet.rules[0].declarations),
        vec![
            Declaration {
                name: "width".to_string(),
                value: px(400.0),
                important: false,
            },
            Declaration {
                name: "color".to_string(),
                value: Value::Color(Color::rgb(0x22, 0x22, 0x22)),
                important: false,
            },
        ]
    );
}

#[test]
fn expands_margin_shorthand() {
    let cases: &[(&str, [f32; 4])] = &[
        ("margin: 8px", [8.0, 8.0, 8.0, 8.0]),
        ("margin: 8px 16px", [8.0, 16.0, 8.0, 16.0]),
        ("margin: 1px 2px 3px", [1.0, 2.0, 3.0, 2.0]),
        ("margin: 1px 2px 3px 4px", [1.0, 2.0, 3.0, 4.0]),
    ];
    for (source, [top, right, bottom, left]) in cases {
        let declarations = parse_declarations(source);
        let expect = |name: &str, value: f32| {
            assert!(
                declarations
                    .iter()
                    .any(|declaration| declaration.name == name
                        && declaration.value == px(value)),
                "{source}: expected {name}={value}px in {declarations:?}"
            );
        };
        expect("margin-top", *top);
        expect("margin-right", *right);
        expect("margin-bottom", *bottom);
        expect("margin-left", *left);
    }
}

#[test]
fn expands_flex_shorthand() {
    let sheet = parse_stylesheet("a { flex: 2; } b { flex: none; } c { flex: 1 3; }");
    let decls = |index: usize| -> Vec<(String, String)> {
        declared(&sheet.rules[index].declarations)
            .iter()
            .map(|d| (d.name.clone(), format!("{:?}", d.value)))
            .collect()
    };
    assert_eq!(
        decls(0),
        vec![
            ("flex-grow".to_string(), "Number(2.0)".to_string()),
            ("flex-shrink".to_string(), "Number(1.0)".to_string()),
        ]
    );
    assert_eq!(
        decls(1),
        vec![
            ("flex-grow".to_string(), "Number(0.0)".to_string()),
            ("flex-shrink".to_string(), "Number(0.0)".to_string()),
        ]
    );
    assert_eq!(
        decls(2),
        vec![
            ("flex-grow".to_string(), "Number(1.0)".to_string()),
            ("flex-shrink".to_string(), "Number(3.0)".to_string()),
        ]
    );
}

#[test]
fn expands_border_width_shorthand() {
    let declarations = parse_declarations("border-width: 1px 2px");
    let names: Vec<&str> = declarations
        .iter()
        .map(|declaration| declaration.name.as_str())
        .collect();
    assert_eq!(
        names,
        vec![
            "border-top-width",
            "border-right-width",
            "border-bottom-width",
            "border-left-width"
        ]
    );
    assert_eq!(declarations[1].value, px(2.0));
}

#[test]
fn border_shorthand_expands_width_style_color() {
    let declarations = parse_declarations("border: 1px solid #cccccc");
    assert_eq!(declarations.len(), 12);
    let find = |name: &str| {
        declarations
            .iter()
            .find(|declaration| declaration.name == name)
            .map(|declaration| declaration.value.clone())
    };
    assert_eq!(find("border-top-width"), Some(px(1.0)));
    assert_eq!(
        find("border-left-style"),
        Some(Value::Keyword("solid".to_string()))
    );
    assert_eq!(
        find("border-bottom-color"),
        Some(Value::Color(Color::rgb(0xcc, 0xcc, 0xcc)))
    );
    // Order-independent, defaults for missing parts (medium = 3px).
    let declarations = parse_declarations("border: red");
    let find = |name: &str| {
        declarations
            .iter()
            .find(|declaration| declaration.name == name)
            .map(|declaration| declaration.value.clone())
    };
    assert_eq!(find("border-top-width"), Some(px(3.0)));
    assert_eq!(
        find("border-top-color"),
        Some(Value::Color(Color::rgb(255, 0, 0)))
    );
}

#[test]
fn border_radius_expands_clockwise_from_top_left() {
    let declarations = parse_declarations("border-radius: 1px 2px");
    let names: Vec<&str> = declarations
        .iter()
        .map(|declaration| declaration.name.as_str())
        .collect();
    assert_eq!(
        names,
        vec![
            "border-top-left-radius",
            "border-top-right-radius",
            "border-bottom-right-radius",
            "border-bottom-left-radius"
        ]
    );
    assert_eq!(declarations[2].value, px(1.0));
    assert_eq!(declarations[3].value, px(2.0));
}

#[test]
fn logical_properties_map_to_physical_ltr() {
    let declarations = parse_declarations(
        "margin-inline: 1px 2px; margin-block-start: 3px; padding-inline-start: 4px; \
         padding-block: 5px 6px; inline-size: 7px; block-size: 8px",
    );
    let find = |name: &str| {
        declarations
            .iter()
            .find(|declaration| declaration.name == name)
            .map(|declaration| declaration.value.clone())
    };
    assert_eq!(find("margin-left"), Some(px(1.0)));
    assert_eq!(find("margin-right"), Some(px(2.0)));
    assert_eq!(find("margin-top"), Some(px(3.0)));
    assert_eq!(find("padding-left"), Some(px(4.0)));
    assert_eq!(find("padding-top"), Some(px(5.0)));
    assert_eq!(find("padding-bottom"), Some(px(6.0)));
    assert_eq!(find("width"), Some(px(7.0)));
    assert_eq!(find("height"), Some(px(8.0)));
}

#[test]
fn logical_border_shorthands_expand_to_physical_sides() {
    let declarations =
        parse_declarations("border-inline: 2px dashed red; border-block-start-width: 5px");
    let find = |name: &str| {
        declarations
            .iter()
            .find(|declaration| declaration.name == name)
            .map(|declaration| declaration.value.clone())
    };
    assert_eq!(find("border-left-width"), Some(px(2.0)));
    assert_eq!(find("border-right-width"), Some(px(2.0)));
    assert_eq!(
        find("border-left-style"),
        Some(Value::Keyword("dashed".to_string()))
    );
    assert_eq!(
        find("border-right-color"),
        Some(Value::Color(Color::rgb(255, 0, 0)))
    );
    assert_eq!(find("border-top-width"), Some(px(5.0)));
}

#[test]
fn inset_shorthand_and_logical_longhands_expand() {
    let declarations = parse_declarations("inset: 1px 2px; inset-inline-end: 9px");
    // Last expansion wins, mirroring source-order cascade.
    let find = |name: &str| {
        declarations
            .iter()
            .rev()
            .find(|declaration| declaration.name == name)
            .map(|declaration| declaration.value.clone())
    };
    assert_eq!(find("top"), Some(px(1.0)));
    assert_eq!(find("bottom"), Some(px(1.0)));
    assert_eq!(find("left"), Some(px(2.0)));
    // inset-inline-end later in source order wins for `right`.
    assert_eq!(find("right"), Some(px(9.0)));
    let declarations = parse_declarations("inset: 1px 2px 3px 4px");
    let find = |name: &str| {
        declarations
            .iter()
            .find(|declaration| declaration.name == name)
            .map(|declaration| declaration.value.clone())
    };
    assert_eq!(find("top"), Some(px(1.0)));
    assert_eq!(find("right"), Some(px(2.0)));
    assert_eq!(find("bottom"), Some(px(3.0)));
    assert_eq!(find("left"), Some(px(4.0)));
}

#[test]
fn overflow_keeps_both_axis_values() {
    let declarations = parse_declarations("overflow: hidden auto");
    assert_eq!(declarations.len(), 1);
    assert_eq!(
        declarations[0].value,
        Value::Keyword("hidden auto".to_string())
    );
}

#[test]
fn flex_shorthand_emits_flex_basis() {
    let declarations = parse_declarations("flex: 1 0 200px");
    let find = |name: &str| {
        declarations
            .iter()
            .find(|declaration| declaration.name == name)
            .map(|declaration| declaration.value.clone())
    };
    assert_eq!(find("flex-grow"), Some(Value::Number(1.0)));
    assert_eq!(find("flex-shrink"), Some(Value::Number(0.0)));
    assert_eq!(find("flex-basis"), Some(px(200.0)));
    // Basis without an explicit shrink: `flex: 2 50%`.
    let declarations = parse_declarations("flex: 2 50%");
    let find = |name: &str| {
        declarations
            .iter()
            .find(|declaration| declaration.name == name)
            .map(|declaration| declaration.value.clone())
    };
    assert_eq!(find("flex-shrink"), Some(Value::Number(1.0)));
    assert_eq!(
        find("flex-basis"),
        Some(Value::Length(50.0, Unit::Percent))
    );
}

#[test]
fn border_side_shorthand_targets_one_side() {
    let declarations = parse_declarations("border-top: 2px dashed #112233");
    let names: Vec<&str> = declarations
        .iter()
        .map(|declaration| declaration.name.as_str())
        .collect();
    assert_eq!(
        names,
        vec!["border-top-width", "border-top-style", "border-top-color"]
    );
}

#[test]
fn border_color_and_style_expand_per_side() {
    let declarations = parse_declarations("border-color: red blue; border-style: solid none");
    let find = |name: &str| {
        declarations
            .iter()
            .find(|declaration| declaration.name == name)
            .map(|declaration| declaration.value.clone())
    };
    assert_eq!(
        find("border-right-color"),
        Some(Value::Color(Color::rgb(0, 0, 255)))
    );
    assert_eq!(
        find("border-bottom-color"),
        Some(Value::Color(Color::rgb(255, 0, 0)))
    );
    assert_eq!(
        find("border-left-style"),
        Some(Value::Keyword("none".to_string()))
    );
}

#[test]
fn longhand_overrides_survive_in_source_order() {
    let declarations = parse_declarations("margin: 8px; margin-left: 2px");
    let names: Vec<&str> = declarations
        .iter()
        .map(|declaration| declaration.name.as_str())
        .collect();
    assert_eq!(
        names,
        vec![
            "margin-top",
            "margin-right",
            "margin-bottom",
            "margin-left",
            "margin-left"
        ]
    );
}

#[test]
fn skips_malformed_declarations_and_extra_semicolons() {
    let declarations = parse_declarations(";; color: red; oops; width: ; height: 10px; x: !!;");
    assert_eq!(declarations.len(), 2);
    assert_eq!(declarations[0].name, "color");
    assert_eq!(declarations[1].name, "height");
}

#[test]
fn font_face_blocks_collect_family_and_sources() {
    let sheet = parse_stylesheet(
        "@font-face { font-family: 'My Font'; \
                      src: url(a.woff2) format('woff2'), url('b.ttf') format(\"truetype\"); } \
         p { color: red; }",
    );
    assert_eq!(sheet.rules.len(), 1);
    assert_eq!(sheet.font_faces.len(), 1);
    let face = &sheet.font_faces[0];
    assert_eq!(face.family, "My Font");
    assert_eq!(
        face.sources,
        vec![
            ("a.woff2".to_string(), Some("woff2".to_string())),
            ("b.ttf".to_string(), Some("truetype".to_string())),
        ]
    );
}

#[test]
fn media_rules_carry_conditions_and_filter_by_width() {
    let sheet = parse_stylesheet(
        "p { color: red; }
         @media screen and (max-width: 700px) {
             div { margin: 0; }
         }
         @media (min-width: 400px) and (max-width: 900px) {
             b { color: blue; }
         }
         @media print { i { color: green; } }
         h1 { color: blue; }",
    );
    // print block is skipped entirely; the rest parse.
    assert_eq!(sheet.rules.len(), 4);
    let media = sheet.rules[1].media.unwrap();
    assert_eq!(media.max_width, Some(key(700.0)));
    assert!(media.matches(key(500.0)));
    assert!(!media.matches(key(800.0)));

    let narrow = sheet.for_width(key(300.0));
    assert_eq!(narrow.rules.len(), 3); // p, div, h1
    let middle = sheet.for_width(key(600.0));
    assert_eq!(middle.rules.len(), 4);
    let wide = sheet.for_width(key(1200.0));
    assert_eq!(wide.rules.len(), 2); // p, h1
}

/// The background that the last matching rule of a sheet gives a `div`.
fn div_background(sheet: &Stylesheet) -> String {
    let declarations: Vec<Declaration> =
        sheet.rules.iter().flat_map(|rule| declared(&rule.declarations)).collect();
    let last = declarations.iter().rev().find(|entry| entry.name == "background-color").unwrap();
    last.value.text()
}

#[test]
fn media_queries_restyle_on_viewport_change() {
    let sheet = parse_stylesheet(
        "div { height: 10px; background-color: #111111; }\
         @media (max-width: 600px) { div { background-color: #222222; } }",
    );
    assert_eq!(div_background(&sheet.for_width(key(800.0))), "#111111");
    assert_eq!(div_background(&sheet.for_width(key(500.0))), "#222222");
}

#[test]
fn media_range_syntax_maps_inclusive_bounds() {
    let sheet = parse_stylesheet(
        "@media (400px <= width <= 900px) { p { color: red; } }
         @media (width >= 600px) { div { color: blue; } }",
    );
    assert_eq!(sheet.rules.len(), 2);
    let interval = sheet.rules[0].media.unwrap();
    assert_eq!(interval.min_width, Some(key(400.0)));
    assert_eq!(interval.max_width, Some(key(900.0)));
    let range = sheet.rules[1].media.unwrap();
    assert_eq!(range.min_width, Some(key(600.0)));
    assert_eq!(range.max_width, None);
}

#[test]
fn media_strict_range_maps_exclusive_bounds() {
    // Strict bounds keep their exclusive semantics: the bound itself
    // does not match.
    let sheet = parse_stylesheet(
        "@media (width > 600px) { p { color: red; } }
         @media (400px < width <= 900px) { div { color: blue; } }
         h1 { color: green; }",
    );
    assert_eq!(sheet.rules.len(), 3);
    let strict = sheet.rules[0].media.unwrap();
    assert_eq!(strict.min_width, Some(key(600.0)));
    assert!(strict.min_exclusive);
    assert!(!strict.matches(key(600.0)));
    assert!(strict.matches(key(601.0)));
    let interval = sheet.rules[1].media.unwrap();
    assert_eq!(interval.min_width, Some(key(400.0)));
    assert_eq!(interval.max_width, Some(key(900.0)));
    assert!(interval.min_exclusive);
    assert!(!interval.max_exclusive);
    assert!(!interval.matches(key(400.0)));
    assert!(interval.matches(key(900.0)));
    assert!(!interval.matches(key(901.0)));
    // Strict max bound as well.
    let sheet = parse_stylesheet("@media (width < 500px) { p { color: red; } }");
    let strict_max = sheet.rules[0].media.unwrap();
    assert_eq!(strict_max.max_width, Some(key(500.0)));
    assert!(strict_max.max_exclusive);
    assert!(strict_max.matches(key(499.0)));
    assert!(!strict_max.matches(key(500.0)));
}

#[test]
fn background_none_emits_background_image_none() {
    // `background: none` must survive as background-image: none so it
    // resets an earlier image in the cascade.
    let declarations = parse_declarations("background: none");
    assert_eq!(declarations.len(), 1);
    assert_eq!(declarations[0].name, "background-image");
    assert_eq!(declarations[0].value, Value::Keyword("none".to_string()));
    // A color alongside still expands.
    let declarations = parse_declarations("background: none red");
    assert_eq!(declarations.len(), 2);
    assert_eq!(declarations[0].name, "background-color");
    assert_eq!(declarations[1].name, "background-image");
}

#[test]
fn keyframes_with_non_finite_offsets_are_dropped() {
    // "NaN%" parses as f32::NAN; the offset must not reach the engine.
    let sheet = parse_stylesheet(
        "@keyframes k { NaN% { opacity: 0; } 50% { opacity: 1; } 1e999% { opacity: 0; } }",
    );
    let block = sheet.keyframes("k").expect("keyframes block");
    assert_eq!(block.frames.len(), 1);
    assert_eq!(block.frames[0].0, key(0.5));
}

#[test]
fn for_width_shares_instead_of_cloning() {
    // No media queries: every rule applies, so the filtered sheet is
    // the same storage, not a deep clone.
    let sheet = parse_stylesheet("p { color: red; } div { color: blue; }");
    let filtered = sheet.for_width(key(800.0));
    assert!(Arc::ptr_eq(&sheet.rules, &filtered.rules));
    assert_eq!(filtered, sheet);

    // With media queries, only the surviving rules are cloned;
    // font faces and keyframes stay shared.
    let sheet = parse_stylesheet(
        "@font-face { font-family: x; src: url(x.ttf); }
         @keyframes spin { from { opacity: 0; } to { opacity: 1; } }
         p { color: red; }
         @media (max-width: 500px) { div { color: blue; } }",
    );
    // 600px: the media rule drops out, so rules are re-collected.
    let narrow = sheet.for_width(key(600.0));
    assert_eq!(narrow.rules.len(), 1);
    assert!(!Arc::ptr_eq(&sheet.rules, &narrow.rules));
    assert!(Arc::ptr_eq(
        &sheet.font_faces,
        &narrow.font_faces
    ));
    assert!(Arc::ptr_eq(&sheet.keyframes, &narrow.keyframes));
    // The surviving rule itself is untouched.
    assert_eq!(narrow.rules[0].source_order, sheet.rules[0].source_order);
    assert_eq!(narrow.rules[0], sheet.rules[0]);
}

#[test]
fn nested_media_conditions_intersect() {
    let sheet = parse_stylesheet(
        "@media (min-width: 400px) { @media (max-width: 800px) { p { color: red; } } }",
    );
    assert_eq!(sheet.rules.len(), 1);
    let media = sheet.rules[0].media.unwrap();
    assert_eq!(media.min_width, Some(key(400.0)));
    assert_eq!(media.max_width, Some(key(800.0)));
}

#[test]
fn too_deeply_nested_media_is_dropped_without_recursing() {
    // Nesting within the limit keeps working.
    let ok = format!(
        "{}p {{ color: red; }}{}",
        "@media (min-width: 1px) { ".repeat(8),
        "}".repeat(8)
    );
    assert_eq!(parse_stylesheet(&ok).rules.len(), 1);
    // Past the limit the innermost rules are dropped, outer ones kept.
    let deep = format!(
        "a {{ color: blue; }} {}p {{ color: red; }}{}",
        "@media (min-width: 1px) { ".repeat(MAX_MEDIA_NESTING + 16),
        "}".repeat(MAX_MEDIA_NESTING + 16)
    );
    let sheet = parse_stylesheet(&deep);
    assert_eq!(sheet.rules.len(), 1);
    assert!(sheet.rules[0].media.is_none());
}

#[test]
fn drops_rule_with_invalid_selector() {
    let sheet =
        parse_stylesheet("p ! a { color: red; } h1 { color: blue; } a:blur { color: red; }");
    assert_eq!(sheet.rules.len(), 1);
    assert_eq!(sheet.rules[0].source_order, 0);
}

#[test]
fn skips_comments() {
    let sheet = parse_stylesheet("/* x */ p { /* y */ color: red; }");
    assert_eq!(sheet.rules.len(), 1);
    assert_eq!(sheet.rules[0].declarations.len(), 1);
}

#[test]
fn unterminated_rule_recovers_at_end_of_input() {
    let sheet = parse_stylesheet("p { color: red;");
    assert_eq!(sheet.rules.len(), 1);
    assert_eq!(sheet.rules[0].declarations.len(), 1);
}

#[test]
fn background_shorthand_keeps_color_and_image() {
    // Color-only: placement without an image is dropped.
    let declarations = parse_declarations("background: #fdfcff left top no-repeat");
    assert_eq!(declarations.len(), 1);
    assert_eq!(declarations[0].name, "background-color");
    assert_eq!(
        declarations[0].value,
        Value::Color(Color::rgb(0xfd, 0xfc, 0xff))
    );
    // Layered: images/repeats/positions expand as comma lists.
    let layered = parse_declarations("background: url(a.png) no-repeat left top, url(b.png)");
    let names: Vec<&str> = layered
        .iter()
        .map(|declaration| declaration.name.as_str())
        .collect();
    assert_eq!(
        names,
        vec![
            "background-image",
            "background-repeat",
            "background-position"
        ]
    );
    assert_eq!(
        layered[0].value,
        Value::String("url(a.png), url(b.png)".to_string())
    );
    assert_eq!(
        layered[1].value,
        Value::String("no-repeat, repeat".to_string())
    );
}

#[test]
fn data_uri_semicolon_does_not_split_declaration() {
    // The `;` inside an unquoted data URI belongs to the URL.
    let declarations =
        parse_declarations("background: url(data:image/png;base64,iVBORw0KGgo=) ; color: red");
    let image = declarations
        .iter()
        .find(|declaration| declaration.name == "background-image")
        .expect("background-image survives");
    assert_eq!(
        image.value,
        Value::String("url(data:image/png;base64,iVBORw0KGgo=)".to_string())
    );
    let color = declarations
        .iter()
        .find(|declaration| declaration.name == "color")
        .expect("color survives");
    assert_eq!(color.value, Value::Color(Color::rgb(255, 0, 0)));
}

#[test]
fn quoted_brace_does_not_close_rule_early() {
    let sheet = parse_stylesheet("p::before { content: \"}\"; color: red; }");
    assert_eq!(sheet.rules.len(), 1);
    let declarations = declared(&sheet.rules[0].declarations);
    assert_eq!(declarations[0].value, Value::String("}".to_string()));
    assert_eq!(declarations[1].name, "color");
    assert_eq!(
        declarations[1].value,
        Value::Color(Color::rgb(255, 0, 0))
    );
}

#[test]
fn comment_opener_inside_string_is_not_a_comment() {
    let sheet = parse_stylesheet("p { content: \"/*\"; color: red; } div { color: blue; }");
    assert_eq!(sheet.rules.len(), 2);
    assert_eq!(
        declared(&sheet.rules[0].declarations)[0].value,
        Value::String("/*".to_string())
    );
    assert_eq!(sheet.rules[0].declarations[1].name, "color");
}

#[test]
fn modern_rgb_forms_parse_as_colors() {
    // Space-separated channels and slash alpha.
    assert_eq!(
        parse_color("rgb(255 0 0 / 50%)"),
        Some(Color::rgba(255, 0, 0, 128))
    );
    assert_eq!(parse_color("rgb(100% 0% 0%)"), Some(Color::rgb(255, 0, 0)));
}

#[test]
fn media_block_is_skipped_without_desync() {
    // An unsupported at-block closes at its own `}`.
    let (sheet, selectors) = read_sheet(
        "p { color: red; }
         @supports (display: grid) {
             div { margin: 0; }
             body { background-color: white; }
         }
         h1 { color: blue; }",
    );
    assert_eq!(sheet.rules.len(), 2);
    assert!(
        selectors[sheet.rules[1].selectors[0]]
            .iter_raw_match_order()
            .any(|component| matches!(
                component,
                Component::LocalName(name) if name.lower_name.0 == "h1"
            ))
    );
}

#[test]
fn statement_at_rules_are_skipped() {
    let sheet = parse_stylesheet("@charset \"utf-8\"; @import url(x.css); p { color: red; }");
    assert_eq!(sheet.rules.len(), 1);
}

#[test]
fn unterminated_at_rule_consumes_rest() {
    let sheet = parse_stylesheet("p { color: red; } @media (x) { div { color: blue; }");
    assert_eq!(sheet.rules.len(), 1);
}

#[test]
fn preserves_source_order() {
    let sheet = parse_stylesheet("p { color: red; } div { color: blue; }");
    assert_eq!(sheet.rules[0].source_order, 0);
    assert_eq!(sheet.rules[1].source_order, 1);
}

// ---------------------------------------------------------------------------
// Selectors
// ---------------------------------------------------------------------------


fn specificity(source: &str) -> u32 {
    parse_selector(source).unwrap().specificity()
}

fn to_css(selector: &Selector) -> String {
    let list = SelectorList::from(selector.clone());
    let mut out = String::new();
    Selectors::to_css(&list, &mut out).unwrap();
    out
}

#[test]
fn parses_simple_selectors() {
    assert_eq!(to_css(&parse_selector("div").unwrap()), "div");
    assert_eq!(to_css(&parse_selector(".card").unwrap()), ".card");
    assert_eq!(to_css(&parse_selector("#header").unwrap()), "#header");
    assert_eq!(to_css(&parse_selector("*").unwrap()), "*");
    assert_eq!(
        to_css(&parse_selector("div.card#main").unwrap()),
        "div.card#main"
    );
    assert_eq!(
        to_css(&parse_selector("ul > li + li ~ b").unwrap()),
        "ul > li + li ~ b"
    );
    assert_eq!(to_css(&parse_selector(".card  p").unwrap()), ".card p");
}

#[test]
fn uppercase_tag_is_normalized() {
    // Matching lowercases for HTML elements; serialization keeps the
    // parsed name.
    let selector = parse_selector("DIV").unwrap();
    assert!(selector.iter_raw_match_order().any(|component| matches!(
        component,
        Component::LocalName(name) if name.lower_name.0 == "div"
    )));
}

#[test]
fn parses_attribute_selectors() {
    assert!(parse_selector("a[href]").is_some());
    assert!(parse_selector("input[type=\"text\"]").is_some());
    assert!(parse_selector("a[href^='https']").is_some());
    assert!(parse_selector("a[href$=\".pdf\"]").is_some());
    assert!(parse_selector("a[href*=example]").is_some());
    assert!(parse_selector("a[rel~=nofollow]").is_some());
    assert!(parse_selector("p[lang|=en]").is_some());
    assert!(parse_selector("a[href=\"X\" i]").is_some());
}

#[test]
fn parses_pseudo_classes() {
    assert!(parse_selector("li:first-child").is_some());
    assert!(parse_selector("li:nth-child(2n+1)").is_some());
    assert!(parse_selector("li:nth-last-child(-n+2)").is_some());
    assert!(parse_selector("li:first-of-type").is_some());
    assert!(parse_selector("li:nth-of-type(2n)").is_some());
    assert!(parse_selector(":link").is_some());
    assert!(parse_selector("a:visited").is_some());
    assert!(parse_selector("a:hover").is_some());
    assert!(parse_selector("input:checked").is_some());
    assert!(parse_selector("input:enabled").is_some());
    assert!(parse_selector("input:disabled").is_some());
    assert!(parse_selector("p:empty").is_some());
    assert!(parse_selector(":root").is_some());
}

#[test]
fn parses_is_where_not_at_full_depth() {
    assert!(parse_selector("p:not(.muted)").is_some());
    assert!(parse_selector("p:not(.a, #b)").is_some());
    assert!(parse_selector("p:not(div > span)").is_some());
    assert!(parse_selector("p:is(.a, #b)").is_some());
    assert!(parse_selector("p:where(.a, #b)").is_some());
    // Deep nesting: parcel manages its own recursion limit.
    let deep = format!("p{}.a{}", ":not(".repeat(8), ")".repeat(8));
    assert!(parse_selector(&deep).is_some());
}

#[test]
fn parses_has() {
    assert!(parse_selector("div:has(> img)").is_some());
    assert!(parse_selector("div:has(img)").is_some());
}

#[test]
fn pseudo_elements_parse_in_both_colon_forms() {
    for (source, expected) in [
        ("p::before", names::PseudoElement::Before),
        ("p:before", names::PseudoElement::Before),
        ("p::after", names::PseudoElement::After),
        ("p:after", names::PseudoElement::After),
        ("p::selection", names::PseudoElement::Selection),
        ("::selection", names::PseudoElement::Selection),
        ("p::first-letter", names::PseudoElement::FirstLetter),
        ("p:first-letter", names::PseudoElement::FirstLetter),
        ("p::first-line", names::PseudoElement::FirstLine),
        ("p:first-line", names::PseudoElement::FirstLine),
    ] {
        let selector = parse_selector(source).unwrap();
        assert_eq!(selector.pseudo_element(), Some(&PseudoElement(expected)), "{source}");
    }
}

#[test]
fn rejects_unsupported_selectors() {
    assert!(parse_selector("").is_none());
    assert!(parse_selector(":blur").is_none()); // Unsupported pseudo.
    assert!(parse_selector(".").is_none());
    assert!(parse_selector("#").is_none());
    assert!(parse_selector("div..x").is_none());
    assert!(parse_selector("p >").is_none()); // Trailing combinator.
    assert!(parse_selector("> p").is_none()); // Leading combinator.
    assert!(parse_selector("a > > b").is_none()); // Doubled.
    assert!(parse_selector("p:nth-child(x)").is_none());
    assert!(parse_selector("p::selection span").is_none()); // Non-subject pseudo-element.
}

#[test]
fn specificity_is_layered() {
    let id = 1 << 20;
    let class = 1 << 10;
    assert_eq!(specificity("#a"), id);
    assert_eq!(specificity("div.card p"), class + 2);
    assert_eq!(specificity("a[href]:first-child"), 2 * class + 1);
    assert_eq!(specificity("*"), 0);
    // :is() takes its most specific argument; :where() none;
    // :not() its argument's.
    assert_eq!(specificity("p:is(.a, #b)"), id + 1);
    assert_eq!(specificity("p:where(.a, #b)"), 1);
    assert_eq!(specificity("p:not(.muted)"), class + 1);
    assert_eq!(specificity("a:link"), class + 1);
    // Pseudo-elements count as element selectors.
    assert_eq!(specificity("p::selection"), 2);
}

#[test]
fn id_beats_any_number_of_classes() {
    assert!(specificity("#a") > specificity(".a.b.c.d.e"));
    assert!(specificity(".a") > specificity("html body div p"));
}

#[test]
fn huge_selector_specificity_does_not_overflow() {
    // Parcel clamps each specificity layer at 10 bits.
    let selector = parse_selector(&format!("p{}", ":hover".repeat(70_000))).unwrap();
    assert_eq!(selector.specificity(), (1023 << 10) | 1);
}

// ---------------------------------------------------------------------------
// Properties
// ---------------------------------------------------------------------------


#[test]
fn supported_properties_are_what_the_engine_reads() {
    for name in ["color", "margin-top", "flex-grow", "border-top", " --accent "] {
        assert!(is_supported(name), "{name}");
    }
    for name in ["", "colour", "COLOR", "-webkit-transform", "margin-middle"] {
        assert!(!is_supported(name), "{name}");
    }
}

#[test]
fn values_answer_for_what_they_are() {
    let value = |source: &str| CssValue::parse_component(source).unwrap();
    assert_eq!(value("4px").as_px().map(number), Some(4.0));
    assert!(value("4em").as_px().is_none() && value("4").as_px().is_none());
    assert_eq!(value("1.5").as_number().map(|n| number(&n)), Some(1.5));
    // A zero length is a number, too.
    assert_eq!(value("0px").as_number().map(|n| number(&n)), Some(0.0));
    assert!(value("1px").as_number().is_none());
    assert_eq!(value("#fff").as_color().map(color), Some(Color::rgb(255, 255, 255)));
    assert!(value("auto").as_color().is_none());
    assert_eq!(value("block").as_keyword(), Some("block"));
    assert!(value("auto").as_keyword().is_none());
}

#[test]
fn vertical_align_and_transition_are_not_inherited() {
    // Per CSS both are non-inherited; `transition` still keeps raw.
    assert!(!is_inherited("vertical-align"));
    assert!(!is_inherited("transition"));
    assert!(keeps_raw("transition"));
    assert!(!inherited().iter().any(|name| *name == "vertical-align" || *name == "transition"));
    // Genuine inherited properties are unaffected.
    assert!(is_inherited("color"));
    assert!(is_inherited("font-size"));
}

// ---------------------------------------------------------------------------
// Animations
// ---------------------------------------------------------------------------

fn unkey(key: i64) -> f32 {
    let magnitude = f32::from_bits(key.unsigned_abs() as u32);
    if key < 0 {
        -magnitude
    } else {
        magnitude
    }
}

/// The tracks of a keyframes block of a style sheet.
fn tracks(css: &str, name: &str) -> Vec<Track> {
    let sheet = parse_stylesheet(css);
    let block = sheet.keyframes(name).expect("keyframes block");
    let readable = vec![true; frame_candidates(block, Animated::Transform).len()];
    spawn_tracks(block, &readable)
}

/// The number that a track holds at a place of its iteration.
fn sample(track: &Track, t: f32) -> f32 {
    let offsets: Vec<i64> = track.frames.iter().map(|frame| frame.0).collect();
    let (from, to) = frame_segment(&offsets, key(t));
    let at = |index: usize| match &track.frames[index].1 {
        FrameValue::Number(n) => number(n),
        FrameValue::Angle(degrees) => literal(degrees),
        other => panic!("no number: {other:?}"),
    };
    let (start, end) = (unkey(offsets[from]), unkey(offsets[to]));
    let share = if end > start { (t - start) / (end - start) } else { 1.0 };
    at(from) + (at(to) - at(from)) * share
}

#[test]
fn keyframes_animations_drive_styles_and_finish() {
    let tracks = tracks(
        "@keyframes belir { from { opacity: 0; } to { opacity: 1; } }\
         .kut { animation: belir 1s linear 1; }",
        "belir",
    );
    assert_eq!(tracks.len(), 1);
    assert_eq!(tracks[0].property, Animated::Opacity);
    assert!(sample(&tracks[0], 0.0) < 0.05);
    assert!((sample(&tracks[0], 0.5) - 0.5).abs() < 0.05);
    assert!((sample(&tracks[0], 1.0) - 1.0).abs() < 0.01);
    // One iteration only: the animation retires.
    let root = Node { kind: NodeKind::Other, parent: None, children: Vec::new() };
    let page = Document { nodes: vec![root] };
    let mut animations = Animations::new();
    assert!(animations.start_animation(0, tracks, 0));
    let running = vec![Progress { running: true, kept: true }];
    assert!(animations.tick(Some(&page), &Vec::new(), &running).any_active);
    let ended = vec![Progress { running: false, kept: false }];
    assert!(!animations.tick(Some(&page), &Vec::new(), &ended).any_active);
    assert!(animations.animations.is_empty());
}

#[test]
fn rotation_animations_spin_through_midpoints() {
    let tracks = tracks(
        "@keyframes don { from { transform: rotate(0deg); }\
         to { transform: rotate(360deg); } }\
         .d { animation: don 1s linear infinite; }",
        "don",
    );
    assert_eq!(tracks.len(), 1);
    assert_eq!(tracks[0].property, Animated::Transform);
    // A quarter turn: rotate(90deg), b is about 1.
    let angle = sample(&tracks[0], 0.25);
    assert!((angle.to_radians().sin() - 1.0).abs() < 0.01, "{angle}");
}

// ---------------------------------------------------------------------------
// Malformed and extreme input
// ---------------------------------------------------------------------------

/// xorshift64* — tiny, dependency-free, deterministic on every platform.
struct Rng(u64);

impl Rng {
    fn new(seed: u64) -> Self {
        // Mix so seed 0 does not start from a zero (fixed-point) state.
        Self(seed.wrapping_mul(0x9E37_79B9_7F4A_7C15) | 1)
    }

    fn next(&mut self) -> u64 {
        let mut x = self.0;
        x ^= x >> 12;
        x ^= x << 25;
        x ^= x >> 27;
        self.0 = x;
        x.wrapping_mul(0x2545_F491_4F6C_DD1D)
    }

    fn below(&mut self, n: usize) -> usize {
        (self.next() % n as u64) as usize
    }

    fn chance(&mut self, percent: u64) -> bool {
        self.next() % 100 < percent
    }

    fn pick<'a>(&mut self, items: &'a [&'a str]) -> &'a str {
        items[self.below(items.len())]
    }
}

const PROPERTIES: &[&str] = &[
    "width",
    "height",
    "min-width",
    "max-height",
    "margin",
    "margin-left",
    "padding",
    "padding-top",
    "border",
    "border-width",
    "border-radius",
    "display",
    "position",
    "top",
    "left",
    "right",
    "bottom",
    "float",
    "clear",
    "color",
    "background",
    "background-color",
    "background-image",
    "font",
    "font-size",
    "font-weight",
    "font-family",
    "line-height",
    "text-align",
    "text-decoration",
    "vertical-align",
    "overflow",
    "z-index",
    "opacity",
    "flex",
    "flex-direction",
    "flex-wrap",
    "flex-grow",
    "justify-content",
    "align-items",
    "gap",
    "grid-template-columns",
    "grid-column",
    "transform",
    "transition",
    "animation",
    "content",
    "list-style",
    "white-space",
    "box-shadow",
    "text-shadow",
    "visibility",
    "cursor",
    "box-sizing",
    "unknown-property",
    "--custom-prop",
    "-webkit-flex",
];

const VALUES: &[&str] = &[
    "0",
    "1px",
    "-5px",
    "999999999999999999px",
    "1e30px",
    "-1e30em",
    "1e-30vh",
    "0.000000001%",
    "3.4028235e38px",
    "1e309px",
    "50%",
    "100vw",
    "calc(100% - 10px)",
    "calc(1px + )",
    "calc()",
    "calc((((((1px))))))",
    "auto",
    "none",
    "inherit",
    "initial",
    "unset",
    "red",
    "#fff",
    "#ffff",
    "#ff000080",
    "#12345",
    "#1234567",
    "#gggggg",
    "#",
    "rgb(255, 0, 0)",
    "rgb(300, -5, 1e10)",
    "rgba(0, 0, 0, 2)",
    "rgba(0,0,0,)",
    "hsl(120, 50%, 50%)",
    "hsla(720deg, 200%, -50%, 5)",
    "url(http://example.com/x.png)",
    "url()",
    "url(unclosed",
    "linear-gradient(red, blue)",
    "linear-gradient(to left, #fff 10%, rgb(1,2,3) 1e10%)",
    "radial-gradient(circle at 10% 20%, red, blue)",
    "repeating-linear-gradient(45deg, red 0 10px, blue 10px 20px)",
    "translate(10px, 20px)",
    "rotate(45deg)",
    "rotate(1e30turn)",
    "scale(2)",
    "scale(-1e10, 0)",
    "matrix(1, 0, 0, 1, 0, 0)",
    "matrix(1e30, 1e-30, -1e30, 0, 999999999, -999999999)",
    "skew(89deg, -89deg)",
    "1px 2px 3px 4px 5px",
    "solid",
    "1px solid red",
    "1e30px dashed #123456",
    "bold",
    "900",
    "1e10",
    "16px/1.5 serif",
    "Arial, 'Times New Roman', sans-serif",
    "\"unterminated",
    "'quo\\'te'",
    "attr(data-x)",
    "var(--x)",
    "var(--x, 10px)",
    "var(--undefined, var(--also-undefined, red))",
    "counter(item)",
    "url(a) url(b) url(c)",
    "\u{0}\u{1}\u{8}",
    "çğı şİı 🦀",
    "\\61 bc",
    "10px !important",
    "!important",
    "10px ! important",
    "10px !IMPORTANT",
    "10px !bogus",
    "1px;",
    "1px}",
    "1px{",
];

const SELECTOR_PARTS: &[&str] = &[
    "div",
    "p",
    "*",
    ".a",
    ".b",
    "#id",
    "#main",
    ":hover",
    ":active",
    ":focus",
    ":checked",
    ":disabled",
    ":first-child",
    ":last-child",
    ":nth-child(2n+1)",
    ":nth-child(1e10)",
    ":nth-child(odd)",
    ":nth-child(-n+3)",
    ":not(.a)",
    ":not(:not(div))",
    ":root",
    ":empty",
    "::before",
    "::after",
    "::marker",
    "::first-line",
    ":link",
    ":visited",
    "input[type='text']",
    "[href]",
    "[href='x']",
    "[class~='a b']",
    "[lang|='en']",
    "[src^='http']",
    "[alt$='.png']",
    "[title*='x']",
    "div.a#b",
    "ul li",
    "div > p",
    "h1 + p",
    "h2 ~ p",
    "a:b",
    "#",
    ".",
    ":",
    "::",
    ":",
    ":nth-child(",
    "[",
    "]",
    "[=",
    "..a",
    "##b",
    ":bogus-pseudo",
    ":nth-child(xyz)",
];

const AT_RULES: &[&str] = &[
    "@media (max-width: 600px)",
    "@media (min-width: 1e30px)",
    "@media (max-width: -5px)",
    "@media screen and (min-width: 100px)",
    "@media (max-width: 600px",
    "@media",
    "@media (",
    "@keyframes spin",
    "@keyframes",
    "@font-face",
    "@import url(x.css)",
    "@import",
    "@charset \"utf-8\"",
    "@supports (display: grid)",
    "@bogus-rule foo bar",
    "@",
];

/// Broken fragments spliced in raw to hit error-recovery paths.
const BROKEN: &[&str] = &[
    "{",
    "}",
    "}",
    "{",
    "{{{",
    "}}}",
    ";",
    ";;",
    ":",
    "::",
    "(",
    ")",
    "(()",
    "))",
    "[",
    "]",
    "/*",
    "*/",
    "/* unterminated",
    "<!--",
    "-->",
    "\"",
    "'",
    "\\",
    "\\61",
    "@",
    "#",
    ".",
    ",",
    ",,,",
    "!",
    "!important",
    "url(",
    "calc(",
    "rgba(",
    "var(",
    "{ color: red",
];

fn generate_value(rng: &mut Rng) -> String {
    let mut value = String::new();
    for _ in 0..1 + rng.below(3) {
        if !value.is_empty() && rng.chance(70) {
            value.push(' ');
        }
        value.push_str(rng.pick(VALUES));
    }
    value
}

fn generate_declaration(rng: &mut Rng) -> String {
    let mut declaration = String::new();
    declaration.push_str(rng.pick(PROPERTIES));
    if rng.chance(90) {
        declaration.push(':');
        declaration.push_str(&generate_value(rng));
    }
    declaration
}

fn generate_selector(rng: &mut Rng) -> String {
    let mut selector = String::new();
    for _ in 0..1 + rng.below(4) {
        if !selector.is_empty() {
            selector.push_str(rng.pick(&[" ", ">", "+", "~", ",", " ", "  "]));
        }
        selector.push_str(rng.pick(SELECTOR_PARTS));
    }
    selector
}

fn generate_stylesheet(rng: &mut Rng) -> String {
    let mut css = String::new();
    let budget = 3 + rng.below(14);
    for _ in 0..budget {
        match rng.below(8) {
            0..=4 => {
                css.push_str(&generate_selector(rng));
                css.push('{');
                for _ in 0..rng.below(5) {
                    css.push_str(&generate_declaration(rng));
                    if rng.chance(80) {
                        css.push(';');
                    }
                }
                if rng.chance(90) {
                    css.push('}');
                }
            }
            5 => {
                // At-rule, possibly with a nested block.
                css.push_str(rng.pick(AT_RULES));
                match rng.below(3) {
                    0 => {
                        css.push('{');
                        css.push_str(rng.pick(&["div", "from", "to", "50%", "0%"]));
                        css.push('{');
                        css.push_str(&generate_declaration(rng));
                        css.push_str("}}");
                    }
                    1 => css.push(';'),
                    _ => {}
                }
            }
            6 => css.push_str(rng.pick(BROKEN)),
            _ => {
                // Raw bytes near UTF-8 boundaries, lossy-decoded.
                let bytes: Vec<u8> = (0..1 + rng.below(16))
                    .map(|_| {
                        if rng.chance(50) {
                            rng.next() as u8
                        } else {
                            *b"{}:;()@#.\"'\xC3\x28\xED\xA0\x80\xF4\x90\x80\x80\xFF\xFE"
                                .get(rng.below(22))
                                .unwrap_or(&b'x')
                        }
                    })
                    .collect();
                css.push_str(&String::from_utf8_lossy(&bytes));
            }
        }
    }
    css
}

#[test]
fn stress_parse_stylesheet_never_panics() {
    for seed in 0..2000u64 {
        let mut rng = Rng::new(seed);
        let css = generate_stylesheet(&mut rng);
        let sheet = parse_stylesheet(&css);
        // Exercise the follow-up APIs: media filtering at extreme
        // viewport widths and keyframes lookup.
        let widths = [0.0, -1.0, 600.0, 1e30, f32::MAX, f32::MIN_POSITIVE];
        let _ = sheet.for_width(key(widths[seed as usize % widths.len()]));
        let _ = sheet.keyframes("spin");
    }
}

#[test]
fn stress_parse_declarations_never_panics() {
    for seed in 0..2000u64 {
        let mut rng = Rng::new(seed ^ 0xDEC1_A3A7);
        let mut source = String::new();
        for _ in 0..rng.below(8) {
            source.push_str(&generate_declaration(&mut rng));
            source.push(';');
            if rng.chance(20) {
                source.push_str(rng.pick(BROKEN));
            }
        }
        let _ = parse_declarations(&source);
    }
}

#[test]
fn stress_parse_selector_never_panics() {
    for seed in 0..2000u64 {
        let mut rng = Rng::new(seed ^ 0x5E1E_C70A);
        let source = generate_selector(&mut rng);
        let _ = parse_selector(&source);
    }
}

#[test]
fn stress_value_and_color_parsing_never_panics() {
    for seed in 0..1000u64 {
        let mut rng = Rng::new(seed ^ 0xC010_5EED);
        let value = generate_value(&mut rng);
        let _ = component(&value);
        let _ = parse_color(&value);
    }
}

/// Huge declaration blocks: the parser must stay linear-ish and never
/// recurse past the stack.
#[test]
fn stress_huge_inputs_stay_bounded() {
    // 20k declarations in one block.
    let mut big = String::from("div{");
    for index in 0..20_000 {
        big.push_str(&format!("margin: {index}px; color: #{index:06x};"));
    }
    big.push('}');
    let sheet = parse_stylesheet(&big);
    assert!(!sheet.rules.is_empty());

    // 5k selectors in one rule.
    let selectors = (0..5_000)
        .map(|index| format!(".c{index} > :nth-child({index}n+1)"))
        .collect::<Vec<_>>()
        .join(",");
    let sheet = parse_stylesheet(&format!("{selectors}{{ color: red }}"));
    assert!(!sheet.rules.is_empty());

    // Deeply nested calc() and var().
    let deep_calc = format!("width: {}1px{}", "calc(".repeat(500), ")".repeat(500));
    let deep_var = format!("color: var(--a{})", ", var(--b".repeat(500));
    let _ = parse_declarations(&deep_calc);
    let _ = parse_declarations(&deep_var);
}
