//! Colors and the notations that write them.
//!
//! A notation with whole channels (`#rrggbb`, a name, `rgb(1, 2, 3)`) is a
//! [`Color`] at once. The others keep their components as the literals they
//! were written with: what they come to in sRGB is single-precision
//! arithmetic, which a consumer performs on a form that is known to be valid.
use crate::css::named;
use crate::css::number;
use crate::text;
use vstd::prelude::*;
use vstd::slice::slice_subrange;

verus! {

/// An sRGB color with alpha (255 = opaque).
#[derive(Debug, Clone, Copy, PartialEq, Eq, Structural)]
pub struct Color {
    pub r: u8,
    pub g: u8,
    pub b: u8,
    pub a: u8,
}

/// The functional notations whose components need arithmetic.
#[derive(Debug, Clone, Copy, PartialEq, Eq, Structural)]
pub enum Notation {
    Rgb,
    Hsl,
    Hwb,
    Perceptual(Space),
}

/// Which Lab-family function a value came from. They share a parser and
/// differ only in the scale of their components.
#[derive(Debug, Clone, Copy, PartialEq, Eq, Structural)]
pub enum Space {
    Lab,
    Lch,
    Oklab,
    Oklch,
}

#[derive(Debug, Clone, Copy, PartialEq, Eq, Structural)]
pub enum AngleUnit {
    Deg,
    Grad,
    Rad,
    Turn,
}

/// One component of a color notation.
#[derive(Debug, PartialEq, Eq)]
pub enum Part {
    /// The keyword `none`.
    Missing,
    /// A whole channel.
    Byte(u8),
    /// A float literal on the component's own scale.
    Number(String),
    /// A float literal before a percent sign.
    Percent(String),
    /// A float literal before an angle unit.
    Angle(String, AngleUnit),
}

/// What a color notation says.
#[derive(Debug, PartialEq, Eq)]
pub enum ColorForm {
    /// The channels themselves.
    Srgb(Color),
    /// Three components and an alpha; without one the color is opaque.
    Components { notation: Notation, parts: (Part, Part, Part), alpha: Option<Part> },
    /// `color-mix()`: two colors with the percentages that are stated, mixed
    /// in Oklab where `perceptual`, else in sRGB.
    Mix {
        perceptual: bool,
        first: Box<ColorForm>,
        first_share: Option<String>,
        second: Box<ColorForm>,
        second_share: Option<String>,
    },
}

pub enum PartModel {
    Missing,
    Byte(u8),
    Number(Seq<char>),
    Percent(Seq<char>),
    Angle(Seq<char>, AngleUnit),
}

pub enum ColorModel {
    Srgb(Color),
    Components {
        notation: Notation,
        parts: (PartModel, PartModel, PartModel),
        alpha: Option<PartModel>,
    },
    Mix {
        perceptual: bool,
        first: Box<ColorModel>,
        first_share: Option<Seq<char>>,
        second: Box<ColorModel>,
        second_share: Option<Seq<char>>,
    },
}

impl View for Part {
    type V = PartModel;

    open spec fn view(&self) -> PartModel {
        match self {
            Part::Missing => PartModel::Missing,
            Part::Byte(b) => PartModel::Byte(*b),
            Part::Number(s) => PartModel::Number(s@),
            Part::Percent(s) => PartModel::Percent(s@),
            Part::Angle(s, unit) => PartModel::Angle(s@, *unit),
        }
    }
}

pub open spec fn opt_part(part: Option<Part>) -> Option<PartModel> {
    match part {
        Some(p) => Some(p@),
        None => None,
    }
}

impl ColorForm {
    pub open spec fn model(&self) -> ColorModel
        decreases self,
    {
        match self {
            ColorForm::Srgb(color) => ColorModel::Srgb(*color),
            ColorForm::Components { notation, parts, alpha } => ColorModel::Components {
                notation: *notation,
                parts: (parts.0@, parts.1@, parts.2@),
                alpha: opt_part(*alpha),
            },
            ColorForm::Mix { perceptual, first, first_share, second, second_share } => {
                ColorModel::Mix {
                    perceptual: *perceptual,
                    first: Box::new(first.model()),
                    first_share: text::opt_text(*first_share),
                    second: Box::new(second.model()),
                    second_share: text::opt_text(*second_share),
                }
            },
        }
    }
}

impl View for ColorForm {
    type V = ColorModel;

    open spec fn view(&self) -> ColorModel {
        self.model()
    }
}

pub open spec fn opt_form(form: Option<ColorForm>) -> Option<ColorModel> {
    match form {
        Some(f) => Some(f.model()),
        None => None,
    }
}

impl Clone for Part {
    fn clone(&self) -> (r: Part)
        ensures
            r == *self,
    {
        match self {
            Part::Missing => Part::Missing,
            Part::Byte(b) => Part::Byte(*b),
            Part::Number(s) => Part::Number(s.clone()),
            Part::Percent(s) => Part::Percent(s.clone()),
            Part::Angle(s, unit) => Part::Angle(s.clone(), *unit),
        }
    }
}

fn clone_part(part: &Option<Part>) -> (r: Option<Part>)
    ensures
        r == *part,
{
    match part {
        Some(p) => Some(p.clone()),
        None => None,
    }
}

fn clone_text(part: &Option<String>) -> (r: Option<String>)
    ensures
        r == *part,
{
    match part {
        Some(p) => Some(p.clone()),
        None => None,
    }
}

impl Clone for ColorForm {
    fn clone(&self) -> (r: ColorForm)
        ensures
            r == *self,
        decreases self,
    {
        match self {
            ColorForm::Srgb(color) => ColorForm::Srgb(*color),
            ColorForm::Components { notation, parts, alpha } => ColorForm::Components {
                notation: *notation,
                parts: (parts.0.clone(), parts.1.clone(), parts.2.clone()),
                alpha: clone_part(alpha),
            },
            ColorForm::Mix { perceptual, first, first_share, second, second_share } => {
                ColorForm::Mix {
                    perceptual: *perceptual,
                    first: Box::new((&**first).clone()),
                    first_share: clone_text(first_share),
                    second: Box::new((&**second).clone()),
                    second_share: clone_text(second_share),
                }
            },
        }
    }
}

impl Space {
    pub open spec fn ok(self) -> bool {
        self == Space::Oklab || self == Space::Oklch
    }

    pub open spec fn polar(self) -> bool {
        self == Space::Lch || self == Space::Oklch
    }

    /// Whether the axes are those of Oklab.
    pub fn is_ok(self) -> (r: bool)
        ensures
            r == self.ok(),
    {
        match self {
            Space::Oklab | Space::Oklch => true,
            _ => false,
        }
    }

    /// Whether the second and third components are chroma and hue.
    pub fn is_polar(self) -> (r: bool)
        ensures
            r == self.polar(),
    {
        match self {
            Space::Lch | Space::Oklch => true,
            _ => false,
        }
    }
}

// ---------------------------------------------------------------------------
// Components
// ---------------------------------------------------------------------------
/// A whole channel: digits, with an optional plus sign, of at most 255.
pub open spec fn byte_literal(s: Seq<char>) -> Option<u8> {
    let digits = if s.len() > 0 && s[0] == '+' {
        s.skip(1)
    } else {
        s
    };
    if digits.len() > 0 && number::all_digits(digits) && number::nat_of(digits) <= 255 {
        Some(number::nat_of(digits) as u8)
    } else {
        None
    }
}

proof fn lemma_nat_prefix(s: Seq<char>, i: int)
    requires
        0 <= i <= s.len(),
    ensures
        number::nat_of(s.take(i)) <= number::nat_of(s),
    decreases s.len(),
{
    if i == s.len() {
        assert(s.take(i) =~= s);
    } else {
        lemma_nat_prefix(s.drop_last(), i);
        assert(s.drop_last().take(i) =~= s.take(i));
    }
}

fn read_byte(s: &[char]) -> (r: Option<u8>)
    ensures
        r == byte_literal(s@),
{
    let digits = if s.len() > 0 && s[0] == '+' {
        slice_subrange(s, 1, s.len())
    } else {
        s
    };
    if digits.len() == 0 {
        return None;
    }
    let mut value: u32 = 0;
    let mut i: usize = 0;
    while i < digits.len()
        invariant
            i <= digits@.len(),
            value <= 255,
            value == number::nat_of(digits@.take(i as int)),
            forall|j: int| 0 <= j < i ==> text::is_digit(#[trigger] digits@[j]),
            digits@ == (if s@.len() > 0 && s@[0] == '+' {
                s@.skip(1)
            } else {
                s@
            }),
        decreases digits@.len() - i,
    {
        let c = digits[i];
        if !text::digit(c) {
            assert(!text::is_digit(digits@[i as int]));
            return None;
        }
        proof {
            let t = digits@.take(i + 1);
            assert(t.drop_last() =~= digits@.take(i as int));
            lemma_nat_prefix(digits@, i + 1);
        }
        value = value * 10 + (c as u32 - '0' as u32);
        if value > 255 {
            return None;
        }
        i = i + 1;
    }
    assert(digits@.take(digits@.len() as int) =~= digits@);
    Some(value as u8)
}

/// A float literal as a component.
pub open spec fn number_part(s: Seq<char>) -> Option<PartModel> {
    if number::float_model(s) is Some {
        Some(PartModel::Number(s))
    } else {
        None
    }
}

/// A float literal that stood before a percent sign.
pub open spec fn percent_of(s: Seq<char>) -> Option<PartModel> {
    if number::float_model(s) is Some {
        Some(PartModel::Percent(s))
    } else {
        None
    }
}

fn read_number_part(s: &[char]) -> (r: Option<Part>)
    ensures
        opt_part(r) == number_part(s@),
{
    if number::is_float(s) {
        Some(Part::Number(text::text_of(s)))
    } else {
        None
    }
}

fn read_percent_of(s: &[char]) -> (r: Option<Part>)
    ensures
        opt_part(r) == percent_of(s@),
{
    if number::is_float(s) {
        Some(Part::Percent(text::text_of(s)))
    } else {
        None
    }
}

/// A channel of `rgb()`: a whole number up to 255 or a percentage.
pub open spec fn channel_part(s: Seq<char>) -> Option<PartModel> {
    match text::before_suffix(s, "%"@) {
        Some(p) => percent_of(p),
        None => match byte_literal(s) {
            Some(b) => Some(PartModel::Byte(b)),
            None => None,
        },
    }
}

fn read_channel(s: &[char]) -> (r: Option<Part>)
    ensures
        opt_part(r) == channel_part(s@),
{
    match text::strip_suffix(s, "%") {
        Some(p) => read_percent_of(p),
        None => match read_byte(s) {
            Some(b) => Some(Part::Byte(b)),
            None => None,
        },
    }
}

/// An alpha of `rgb()` and `hsl()`: a fraction or a percentage.
pub open spec fn plain_alpha(s: Seq<char>) -> Option<PartModel> {
    match text::before_suffix(s, "%"@) {
        Some(p) => percent_of(p),
        None => number_part(s),
    }
}

fn read_plain_alpha(s: &[char]) -> (r: Option<Part>)
    ensures
        opt_part(r) == plain_alpha(s@),
{
    match text::strip_suffix(s, "%") {
        Some(p) => read_percent_of(p),
        None => read_number_part(s),
    }
}

/// An alpha after a `/`: `none`, a fraction or a percentage.
pub open spec fn modern_alpha(s: Seq<char>) -> Option<PartModel> {
    let t = text::trimmed(s);
    if text::eq_ci(t, "none"@) {
        Some(PartModel::Missing)
    } else {
        match text::before_suffix(t, "%"@) {
            Some(p) => percent_of(text::trimmed(p)),
            None => number_part(t),
        }
    }
}

/// An alpha as a fraction or a percentage; `none` counts as opaque.
fn parse_alpha(s: &[char]) -> (r: Option<Part>)
    ensures
        opt_part(r) == modern_alpha(s@),
{
    let t = text::trim(s);
    if text::is_word_ci(t, "none") {
        return Some(Part::Missing);
    }
    match text::strip_suffix(t, "%") {
        Some(p) => read_percent_of(text::trim(p)),
        None => read_number_part(t),
    }
}

/// A component that has to be a percentage or `none`.
pub open spec fn percent_part(s: Seq<char>) -> Option<PartModel> {
    if text::eq_ci(s, "none"@) {
        Some(PartModel::Missing)
    } else {
        match text::before_suffix(s, "%"@) {
            Some(p) => percent_of(text::trimmed(p)),
            None => None,
        }
    }
}

fn parse_percent(s: &[char]) -> (r: Option<Part>)
    ensures
        opt_part(r) == percent_part(s@),
{
    if text::is_word_ci(s, "none") {
        return Some(Part::Missing);
    }
    match text::strip_suffix(s, "%") {
        Some(p) => read_percent_of(text::trim(p)),
        None => None,
    }
}

/// A component that is `none`, a number on its own scale or a percentage.
pub open spec fn scaled_part(s: Seq<char>) -> Option<PartModel> {
    if text::eq_ci(s, "none"@) {
        Some(PartModel::Missing)
    } else {
        match text::before_suffix(s, "%"@) {
            Some(p) => percent_of(text::trimmed(p)),
            None => number_part(s),
        }
    }
}

fn parse_number_or_percent(s: &[char]) -> (r: Option<Part>)
    ensures
        opt_part(r) == scaled_part(s@),
{
    if text::is_word_ci(s, "none") {
        return Some(Part::Missing);
    }
    match text::strip_suffix(s, "%") {
        Some(p) => read_percent_of(text::trim(p)),
        None => read_number_part(s),
    }
}

/// The number and the unit of an angle; degrees where no unit is written.
pub open spec fn angle_split(s: Seq<char>) -> (Seq<char>, AngleUnit) {
    match text::before_suffix(s, "deg"@) {
        Some(n) => (n, AngleUnit::Deg),
        None => match text::before_suffix(s, "grad"@) {
            Some(n) => (n, AngleUnit::Grad),
            None => match text::before_suffix(s, "rad"@) {
                Some(n) => (n, AngleUnit::Rad),
                None => match text::before_suffix(s, "turn"@) {
                    Some(n) => (n, AngleUnit::Turn),
                    None => (s, AngleUnit::Deg),
                },
            },
        },
    }
}

/// A hue: `none` or an angle.
pub open spec fn hue_part(s: Seq<char>) -> Option<PartModel> {
    if text::eq_ci(s, "none"@) {
        Some(PartModel::Missing)
    } else {
        let (n, unit) = angle_split(s);
        if number::float_model(text::trimmed(n)) is Some {
            Some(PartModel::Angle(text::trimmed(n), unit))
        } else {
            None
        }
    }
}

fn parse_hue(s: &[char]) -> (r: Option<Part>)
    ensures
        opt_part(r) == hue_part(s@),
{
    if text::is_word_ci(s, "none") {
        return Some(Part::Missing);
    }
    let (n, unit): (&[char], AngleUnit) = match text::strip_suffix(s, "deg") {
        Some(n) => (n, AngleUnit::Deg),
        None => match text::strip_suffix(s, "grad") {
            Some(n) => (n, AngleUnit::Grad),
            None => match text::strip_suffix(s, "rad") {
                Some(n) => (n, AngleUnit::Rad),
                None => match text::strip_suffix(s, "turn") {
                    Some(n) => (n, AngleUnit::Turn),
                    None => (s, AngleUnit::Deg),
                },
            },
        },
    };
    let t = text::trim(n);
    if number::is_float(t) {
        Some(Part::Angle(text::text_of(t), unit))
    } else {
        None
    }
}

// ---------------------------------------------------------------------------
// Bodies
// ---------------------------------------------------------------------------
pub open spec fn trimmed_all(parts: Seq<Seq<char>>) -> Seq<Seq<char>> {
    Seq::new(parts.len(), |i: int| text::trimmed(parts[i]))
}

/// The components of a body in the legacy, comma-separated form or in the
/// modern, space-separated one.
pub open spec fn body_parts(s: Seq<char>) -> Seq<Seq<char>> {
    if text::has_char(s, ',') {
        trimmed_all(text::split_all(s, ','))
    } else {
        text::words(s)
    }
}

/// The three components of a body and its alpha, which is a fourth component
/// or follows a `/`.
pub open spec fn legacy_body(s: Seq<char>) -> Option<(Seq<Seq<char>>, Option<Seq<char>>)> {
    let (channels, slash) = match text::halves(s, '/') {
        Some((a, b)) => (a, Some(text::trimmed(b))),
        None => (s, None),
    };
    let parts = body_parts(channels);
    if parts.len() == 3 {
        Some((parts, slash))
    } else if parts.len() == 4 && slash is None {
        Some((parts, Some(parts[3])))
    } else {
        None
    }
}

fn split_body<'a>(s: &'a [char]) -> (r: Vec<&'a [char]>)
    ensures
        text::views(r@) == body_parts(s@),
{
    if text::position(s, ',') < s.len() {
        let raw = text::split(s, ',');
        let mut parts: Vec<&'a [char]> = Vec::new();
        let mut i: usize = 0;
        while i < raw.len()
            invariant
                i <= raw@.len(),
                text::views(raw@) == text::split_all(s@, ','),
                text::views(parts@) == body_parts(s@).take(i as int),
                body_parts(s@) == trimmed_all(text::split_all(s@, ',')),
            decreases raw@.len() - i,
        {
            let part = text::trim(raw[i]);
            let ghost before = parts@;
            parts.push(part);
            i = i + 1;
            proof {
                text::lemma_views_push(before, part);
                assert(text::views(raw@)[i - 1] == raw@[i - 1]@);
                assert(body_parts(s@).take(i as int) =~= body_parts(s@).take(i - 1).push(part@));
            }
        }
        proof {
            assert(text::views(raw@).len() == raw@.len());
            assert(body_parts(s@).take(raw@.len() as int) =~= body_parts(s@));
        }
        parts
    } else {
        text::split_whitespace(s)
    }
}

fn split_legacy<'a>(s: &'a [char]) -> (r: Option<(Vec<&'a [char]>, Option<&'a [char]>)>)
    ensures
        match r {
            Some((parts, alpha)) => legacy_body(s@) == Some(
                (text::views(parts@), text::opt_view(alpha)),
            ) && parts@.len() >= 3,
            None => legacy_body(s@) is None,
        },
{
    let (channels, slash): (&'a [char], Option<&'a [char]>) = match text::split_once(s, '/') {
        Some((a, b)) => (a, Some(text::trim(b))),
        None => (s, None),
    };
    let parts = split_body(channels);
    let ghost pv = text::views(parts@);
    assert(pv.len() == parts@.len());
    if parts.len() == 3 {
        Some((parts, slash))
    } else if parts.len() == 4 && slash.is_none() {
        let alpha: &'a [char] = parts[3];
        assert(pv[3] == alpha@);
        Some((parts, Some(alpha)))
    } else {
        None
    }
}

pub open spec fn rgb_body(s: Seq<char>) -> Option<ColorModel> {
    match legacy_body(s) {
        Some((parts, alpha)) => match (
            channel_part(parts[0]),
            channel_part(parts[1]),
            channel_part(parts[2]),
        ) {
            (Some(r), Some(g), Some(b)) => match alpha {
                None => match (r, g, b) {
                    (PartModel::Byte(r), PartModel::Byte(g), PartModel::Byte(b)) => Some(
                        ColorModel::Srgb(Color { r, g, b, a: 255 }),
                    ),
                    _ => Some(
                        ColorModel::Components {
                            notation: Notation::Rgb,
                            parts: (r, g, b),
                            alpha: None,
                        },
                    ),
                },
                Some(a) => match plain_alpha(a) {
                    Some(a) => Some(
                        ColorModel::Components {
                            notation: Notation::Rgb,
                            parts: (r, g, b),
                            alpha: Some(a),
                        },
                    ),
                    None => None,
                },
            },
            _ => None,
        },
        None => None,
    }
}

/// The hue of `hsl()`: a float literal with an optional `deg`.
pub open spec fn degree_part(s: Seq<char>) -> Option<PartModel> {
    let n = match text::before_suffix(s, "deg"@) {
        Some(n) => n,
        None => s,
    };
    if number::float_model(n) is Some {
        Some(PartModel::Angle(n, AngleUnit::Deg))
    } else {
        None
    }
}

/// A percentage without any other form.
pub open spec fn bare_percent(s: Seq<char>) -> Option<PartModel> {
    match text::before_suffix(s, "%"@) {
        Some(p) => percent_of(p),
        None => None,
    }
}

pub open spec fn hsl_body(s: Seq<char>) -> Option<ColorModel> {
    match legacy_body(s) {
        Some((parts, alpha)) => match (
            degree_part(parts[0]),
            bare_percent(parts[1]),
            bare_percent(parts[2]),
        ) {
            (Some(h), Some(sat), Some(light)) => match alpha {
                None => Some(
                    ColorModel::Components {
                        notation: Notation::Hsl,
                        parts: (h, sat, light),
                        alpha: None,
                    },
                ),
                Some(a) => match plain_alpha(a) {
                    Some(a) => Some(
                        ColorModel::Components {
                            notation: Notation::Hsl,
                            parts: (h, sat, light),
                            alpha: Some(a),
                        },
                    ),
                    None => None,
                },
            },
            _ => None,
        },
        None => None,
    }
}

/// The space-separated components of a modern body and its alpha, which
/// follows a `/`.
pub open spec fn modern_body(s: Seq<char>) -> Option<(Seq<Seq<char>>, Option<PartModel>)> {
    match text::halves(s, '/') {
        Some((channels, alpha)) => match modern_alpha(alpha) {
            Some(a) => Some((text::words(channels), Some(a))),
            None => None,
        },
        None => Some((text::words(s), None)),
    }
}

/// Splits a modern color body into its components and an alpha, which
/// follows a `/`. A missing alpha is opaque.
fn split_color_components<'a>(s: &'a [char]) -> (r: Option<(Vec<&'a [char]>, Option<Part>)>)
    ensures
        match r {
            Some((parts, alpha)) => modern_body(s@) == Some(
                (text::views(parts@), opt_part(alpha)),
            ),
            None => modern_body(s@) is None,
        },
{
    match text::split_once(s, '/') {
        Some((channels, alpha)) => match parse_alpha(alpha) {
            Some(a) => Some((text::split_whitespace(channels), Some(a))),
            None => None,
        },
        None => Some((text::split_whitespace(s), None)),
    }
}

pub open spec fn hwb_body(s: Seq<char>) -> Option<ColorModel> {
    match modern_body(s) {
        Some((parts, alpha)) => if parts.len() == 3 {
            match (hue_part(parts[0]), percent_part(parts[1]), percent_part(parts[2])) {
                (Some(h), Some(w), Some(b)) => Some(
                    ColorModel::Components { notation: Notation::Hwb, parts: (h, w, b), alpha },
                ),
                _ => None,
            }
        } else {
            None
        },
        None => None,
    }
}

pub open spec fn perceptual_body(s: Seq<char>, space: Space) -> Option<ColorModel> {
    match modern_body(s) {
        Some((parts, alpha)) => if parts.len() == 3 {
            let third = if space.polar() {
                hue_part(parts[2])
            } else {
                scaled_part(parts[2])
            };
            match (scaled_part(parts[0]), scaled_part(parts[1]), third) {
                (Some(x), Some(y), Some(z)) => Some(
                    ColorModel::Components {
                        notation: Notation::Perceptual(space),
                        parts: (x, y, z),
                        alpha,
                    },
                ),
                _ => None,
            }
        } else {
            None
        },
        None => None,
    }
}

// ---------------------------------------------------------------------------
// Hexadecimal notation
// ---------------------------------------------------------------------------
pub open spec fn hex_digit(c: char) -> Option<u8> {
    if '0' <= c <= '9' {
        Some((c as u8 - '0' as u8) as u8)
    } else if 'a' <= c <= 'f' {
        Some((c as u8 - 'a' as u8 + 10) as u8)
    } else if 'A' <= c <= 'F' {
        Some((c as u8 - 'A' as u8 + 10) as u8)
    } else {
        None
    }
}

pub fn hex_value(c: char) -> (r: Option<u8>)
    ensures
        r == hex_digit(c),
        r matches Some(v) ==> v < 16,
{
    if '0' <= c && c <= '9' {
        Some(c as u8 - '0' as u8)
    } else if 'a' <= c && c <= 'f' {
        Some(c as u8 - 'a' as u8 + 10)
    } else if 'A' <= c && c <= 'F' {
        Some(c as u8 - 'A' as u8 + 10)
    } else {
        None
    }
}

pub open spec fn all_hex(s: Seq<char>) -> bool {
    forall|i: int| 0 <= i < s.len() ==> (#[trigger] hex_digit(s[i])) is Some
}

/// One digit as a channel: written twice.
pub open spec fn short_channel(s: Seq<char>, i: int) -> u8 {
    (hex_digit(s[i])->0 * 17) as u8
}

/// Two digits as a channel.
pub open spec fn long_channel(s: Seq<char>, i: int) -> u8 {
    (hex_digit(s[i])->0 * 16 + hex_digit(s[i + 1])->0) as u8
}

/// What follows the `#`: three or four single digits, or three or four pairs.
pub open spec fn hex_color(s: Seq<char>) -> Option<Color> {
    if !all_hex(s) {
        None
    } else if s.len() == 3 {
        Some(
            Color {
                r: short_channel(s, 0),
                g: short_channel(s, 1),
                b: short_channel(s, 2),
                a: 255,
            },
        )
    } else if s.len() == 4 {
        Some(
            Color {
                r: short_channel(s, 0),
                g: short_channel(s, 1),
                b: short_channel(s, 2),
                a: short_channel(s, 3),
            },
        )
    } else if s.len() == 6 {
        Some(
            Color { r: long_channel(s, 0), g: long_channel(s, 2), b: long_channel(s, 4), a: 255 },
        )
    } else if s.len() == 8 {
        Some(
            Color {
                r: long_channel(s, 0),
                g: long_channel(s, 2),
                b: long_channel(s, 4),
                a: long_channel(s, 6),
            },
        )
    } else {
        None
    }
}

// ---------------------------------------------------------------------------
// Notations
// ---------------------------------------------------------------------------
/// What stands between `prefix` and the closing parenthesis.
pub open spec fn call_body(s: Seq<char>, prefix: Seq<char>) -> Option<Seq<char>> {
    match text::after_prefix(s, prefix) {
        Some(rest) => text::before_suffix(rest, ")"@),
        None => None,
    }
}

fn strip_call<'a>(s: &'a [char], prefix: &str) -> (r: Option<&'a [char]>)
    ensures
        text::opt_view(r) == call_body(s@, prefix@),
        r matches Some(body) ==> body@.len() + prefix@.len() + 1 <= s@.len(),
{
    proof {
        reveal_strlit(")");
    }
    match text::strip_prefix(s, prefix) {
        Some(rest) => text::strip_suffix(rest, ")"),
        None => None,
    }
}

/// The two candidates for the color and the percentage of a mix operand:
/// the percentage may trail or lead the color.
pub open spec fn share_split(
    halves: Option<(Seq<char>, Seq<char>)>,
    trailing: bool,
) -> Option<(Seq<char>, Seq<char>)> {
    match halves {
        Some((a, b)) => {
            let (color, share) = if trailing {
                (a, b)
            } else {
                (b, a)
            };
            match text::before_suffix(text::trimmed(share), "%"@) {
                Some(p) => if number::float_model(p) is Some {
                    Some((text::trimmed(color), p))
                } else {
                    None
                },
                None => None,
            }
        },
        None => None,
    }
}

/// The text of the color in a mix operand, and its stated percentage.
pub open spec fn operand_split(s: Seq<char>) -> (Seq<char>, Option<Seq<char>>) {
    let t = text::trimmed(s);
    match share_split(text::halves_back(t, ' '), true) {
        Some((color, share)) => (color, Some(share)),
        None => match share_split(text::halves(t, ' '), false) {
            Some((color, share)) => (color, Some(share)),
            None => (t, None),
        },
    }
}

/// A `color-mix()` body: the interpolation space and two operands. Operands
/// are shorter than `limit`, the length of the whole notation.
pub open spec fn mix_body(s: Seq<char>, limit: nat) -> Option<ColorModel>
    decreases limit, 0nat,
{
    let parts = text::split_outer(s, ',');
    if parts.len() != 3 {
        None
    } else {
        match text::after_prefix(text::trimmed(parts[0]), "in "@) {
            None => None,
            Some(space) => {
                let name = text::lowered(text::trimmed(space));
                let (first, first_share) = operand_split(parts[1]);
                let (second, second_share) = operand_split(parts[2]);
                if first.len() < limit && second.len() < limit {
                    match (color_model(first), color_model(second)) {
                        (Some(a), Some(b)) => Some(
                            ColorModel::Mix {
                                perceptual: name == "oklab"@ || name == "oklch"@,
                                first: Box::new(a),
                                first_share,
                                second: Box::new(b),
                                second_share,
                            },
                        ),
                        _ => None,
                    }
                } else {
                    None
                }
            },
        }
    }
}

/// What a text says as a color: `#rgb[a]`, `#rrggbb[aa]`, `rgb()`/`rgba()`,
/// `hsl()`/`hsla()`, `hwb()`, the Lab family, `color-mix()` or a named color.
pub open spec fn color_model(source: Seq<char>) -> Option<ColorModel>
    decreases source.len(), 1nat,
{
    let s = text::trimmed(source);
    if text::starts(s, "#"@) {
        match hex_color(s.skip(1)) {
            Some(c) => Some(ColorModel::Srgb(c)),
            None => None,
        }
    } else if call_body(s, "rgba("@) is Some {
        rgb_body(call_body(s, "rgba("@)->0)
    } else if call_body(s, "rgb("@) is Some {
        rgb_body(call_body(s, "rgb("@)->0)
    } else if call_body(s, "hsla("@) is Some {
        hsl_body(call_body(s, "hsla("@)->0)
    } else if call_body(s, "hsl("@) is Some {
        hsl_body(call_body(s, "hsl("@)->0)
    } else if call_body(s, "hwb("@) is Some {
        hwb_body(call_body(s, "hwb("@)->0)
    } else if call_body(s, "oklch("@) is Some {
        perceptual_body(call_body(s, "oklch("@)->0, Space::Oklch)
    } else if call_body(s, "oklab("@) is Some {
        perceptual_body(call_body(s, "oklab("@)->0, Space::Oklab)
    } else if call_body(s, "lch("@) is Some {
        perceptual_body(call_body(s, "lch("@)->0, Space::Lch)
    } else if call_body(s, "lab("@) is Some {
        perceptual_body(call_body(s, "lab("@)->0, Space::Lab)
    } else if call_body(s, "color-mix("@) is Some {
        mix_body(call_body(s, "color-mix("@)->0, source.len())
    } else {
        named_model(s)
    }
}

pub open spec fn named_color(s: Seq<char>) -> Option<Color> {
    match named::find_named(s, 0) {
        Some((r, g, b)) => Some(Color { r, g, b, a: 255 }),
        None => None,
    }
}

pub open spec fn named_model(s: Seq<char>) -> Option<ColorModel> {
    match named_color(s) {
        Some(c) => Some(ColorModel::Srgb(c)),
        None => None,
    }
}

proof fn lemma_trimmed_len(s: Seq<char>)
    ensures
        text::trimmed(s).len() <= s.len(),
{
    text::lemma_skip_space(s, 0);
    let t = text::trimmed_start(s);
    text::lemma_trim_back(t, t.len() as int);
}

proof fn lemma_operand_len(s: Seq<char>)
    ensures
        operand_split(s).0.len() <= s.len(),
{
    let t = text::trimmed(s);
    lemma_trimmed_len(s);
    text::lemma_find_char(t, ' ', 0);
    text::lemma_find_char_back(t, ' ', t.len() as int);
    let back = text::halves_back(t, ' ');
    let front = text::halves(t, ' ');
    if let Some((color, share)) = back {
        lemma_trimmed_len(color);
    }
    if let Some((share, color)) = front {
        lemma_trimmed_len(color);
    }
}

/// One side of a `color-mix()`: the color's text and, when stated, its share.
fn split_operand<'a>(s: &'a [char]) -> (r: (&'a [char], Option<&'a [char]>))
    ensures
        (r.0@, text::opt_view(r.1)) == operand_split(s@),
        r.0@.len() <= s@.len(),
{
    proof {
        lemma_operand_len(s@);
    }
    let t = text::trim(s);
    if let Some((color, share)) = text::rsplit_once(t, ' ') {
        if let Some(p) = text::strip_suffix(text::trim(share), "%") {
            if number::is_float(p) {
                return (text::trim(color), Some(p));
            }
        }
    }
    if let Some((share, color)) = text::split_once(t, ' ') {
        if let Some(p) = text::strip_suffix(text::trim(share), "%") {
            if number::is_float(p) {
                return (text::trim(color), Some(p));
            }
        }
    }
    (t, None)
}

fn share_text(share: Option<&[char]>) -> (r: Option<String>)
    ensures
        text::opt_text(r) == text::opt_view(share),
{
    match share {
        Some(p) => Some(text::text_of(p)),
        None => None,
    }
}

impl Color {
    /// An opaque color.
    pub fn rgb(r: u8, g: u8, b: u8) -> (c: Color)
        ensures
            c == (Color { r, g, b, a: 255 }),
    {
        Color { r, g, b, a: 255 }
    }

    pub fn rgba(r: u8, g: u8, b: u8, a: u8) -> (c: Color)
        ensures
            c == (Color { r, g, b, a }),
    {
        Color { r, g, b, a }
    }

    pub fn is_opaque(&self) -> (r: bool)
        ensures
            r == (self.a == 255),
    {
        self.a == 255
    }

    /// Reads `#rgb[a]`, `#rrggbb[aa]`, `rgb()`/`rgba()`, `hsl()`/`hsla()`,
    /// `hwb()`, `lab()`, `lch()`, `oklab()`, `oklch()`, `color-mix()` or a CSS
    /// named color.
    pub fn parse(source: &str) -> (r: Option<ColorForm>)
        ensures
            opt_form(r) == color_model(source@),
    {
        let chars = text::chars_of(source);
        Color::read(chars.as_slice())
    }

    pub fn read(source: &[char]) -> (r: Option<ColorForm>)
        ensures
            opt_form(r) == color_model(source@),
        decreases source@.len(), 1nat,
    {
        proof {
            lemma_trimmed_len(source@);
            reveal_strlit("#");
        }
        let s = text::trim(source);
        if text::starts_with(s, "#") {
            let hex = slice_subrange(s, 1, s.len());
            assert(hex@ =~= s@.skip(1));
            return match Color::parse_hex(hex) {
                Some(c) => Some(ColorForm::Srgb(c)),
                None => None,
            };
        }
        if let Some(body) = strip_call(s, "rgba(") {
            return Color::parse_rgb_body(body);
        }
        if let Some(body) = strip_call(s, "rgb(") {
            return Color::parse_rgb_body(body);
        }
        if let Some(body) = strip_call(s, "hsla(") {
            return Color::parse_hsl_body(body);
        }
        if let Some(body) = strip_call(s, "hsl(") {
            return Color::parse_hsl_body(body);
        }
        if let Some(body) = strip_call(s, "hwb(") {
            return Color::parse_hwb_body(body);
        }
        if let Some(body) = strip_call(s, "oklch(") {
            return Color::parse_perceptual_body(body, Space::Oklch);
        }
        if let Some(body) = strip_call(s, "oklab(") {
            return Color::parse_perceptual_body(body, Space::Oklab);
        }
        if let Some(body) = strip_call(s, "lch(") {
            return Color::parse_perceptual_body(body, Space::Lch);
        }
        if let Some(body) = strip_call(s, "lab(") {
            return Color::parse_perceptual_body(body, Space::Lab);
        }
        if let Some(body) = strip_call(s, "color-mix(") {
            return Color::parse_mix_body(body, source.len());
        }
        match named::named_channels(s) {
            Some((r, g, b)) => Some(ColorForm::Srgb(Color::rgb(r, g, b))),
            None => None,
        }
    }

    /// `hwb(H W B[ / A])`: a hue washed with white and blackened.
    fn parse_hwb_body(body: &[char]) -> (r: Option<ColorForm>)
        ensures
            opt_form(r) == hwb_body(body@),
    {
        let (parts, alpha) = match split_color_components(body) {
            Some(x) => x,
            None => {
                return None;
            },
        };
        let ghost pv = text::views(parts@);
        if parts.len() != 3 {
            return None;
        }
        assert(pv[0] == parts@[0]@ && pv[1] == parts@[1]@ && pv[2] == parts@[2]@);
        match (parse_hue(parts[0]), parse_percent(parts[1]), parse_percent(parts[2])) {
            (Some(h), Some(w), Some(b)) => Some(
                ColorForm::Components { notation: Notation::Hwb, parts: (h, w, b), alpha },
            ),
            _ => None,
        }
    }

    /// The Lab-family functions, which all describe a color by lightness
    /// plus two axes, either rectangular (`a`/`b`) or polar (chroma and hue).
    fn parse_perceptual_body(body: &[char], space: Space) -> (r: Option<ColorForm>)
        ensures
            opt_form(r) == perceptual_body(body@, space),
    {
        let (parts, alpha) = match split_color_components(body) {
            Some(x) => x,
            None => {
                return None;
            },
        };
        let ghost pv = text::views(parts@);
        if parts.len() != 3 {
            return None;
        }
        assert(pv[0] == parts@[0]@ && pv[1] == parts@[1]@ && pv[2] == parts@[2]@);
        let third = if space.is_polar() {
            parse_hue(parts[2])
        } else {
            parse_number_or_percent(parts[2])
        };
        match (parse_number_or_percent(parts[0]), parse_number_or_percent(parts[1]), third) {
            (Some(x), Some(y), Some(z)) => Some(
                ColorForm::Components {
                    notation: Notation::Perceptual(space),
                    parts: (x, y, z),
                    alpha,
                },
            ),
            _ => None,
        }
    }

    /// `color-mix(in <space>, A [p%], B [q%])`, where `limit` is the length of
    /// the whole notation.
    fn parse_mix_body(body: &[char], limit: usize) -> (r: Option<ColorForm>)
        requires
            body@.len() < limit,
        ensures
            opt_form(r) == mix_body(body@, limit as nat),
        decreases limit, 0nat,
    {
        let parts = text::split_top_level(body, ',');
        let ghost pv = text::views(parts@);
        if parts.len() != 3 {
            return None;
        }
        assert(pv[0] == parts@[0]@ && pv[1] == parts@[1]@ && pv[2] == parts@[2]@);
        proof {
            text::lemma_outer_pieces_len(body@, ',', 0, 0, 0);
        }
        let space = match text::strip_prefix(text::trim(parts[0]), "in ") {
            Some(space) => space,
            None => {
                return None;
            },
        };
        let name = text::to_lowered(text::trim(space));
        let perceptual = text::is_word(name.as_slice(), "oklab") || text::is_word(
            name.as_slice(),
            "oklch",
        );
        let (first, first_share) = split_operand(parts[1]);
        let (second, second_share) = split_operand(parts[2]);
        match (Color::read(first), Color::read(second)) {
            (Some(a), Some(b)) => Some(
                ColorForm::Mix {
                    perceptual,
                    first: Box::new(a),
                    first_share: share_text(first_share),
                    second: Box::new(b),
                    second_share: share_text(second_share),
                },
            ),
            _ => None,
        }
    }

    fn parse_rgb_body(body: &[char]) -> (r: Option<ColorForm>)
        ensures
            opt_form(r) == rgb_body(body@),
    {
        let (parts, alpha) = match split_legacy(body) {
            Some(x) => x,
            None => {
                return None;
            },
        };
        let ghost pv = text::views(parts@);
        assert(pv[0] == parts@[0]@ && pv[1] == parts@[1]@ && pv[2] == parts@[2]@);
        match (read_channel(parts[0]), read_channel(parts[1]), read_channel(parts[2])) {
            (Some(r), Some(g), Some(b)) => match alpha {
                None => match (r, g, b) {
                    (Part::Byte(r), Part::Byte(g), Part::Byte(b)) => Some(
                        ColorForm::Srgb(Color::rgb(r, g, b)),
                    ),
                    (r, g, b) => Some(
                        ColorForm::Components {
                            notation: Notation::Rgb,
                            parts: (r, g, b),
                            alpha: None,
                        },
                    ),
                },
                Some(a) => match read_plain_alpha(a) {
                    Some(a) => Some(
                        ColorForm::Components {
                            notation: Notation::Rgb,
                            parts: (r, g, b),
                            alpha: Some(a),
                        },
                    ),
                    None => None,
                },
            },
            _ => None,
        }
    }

    fn parse_hsl_body(body: &[char]) -> (r: Option<ColorForm>)
        ensures
            opt_form(r) == hsl_body(body@),
    {
        let (parts, alpha) = match split_legacy(body) {
            Some(x) => x,
            None => {
                return None;
            },
        };
        let ghost pv = text::views(parts@);
        assert(pv[0] == parts@[0]@ && pv[1] == parts@[1]@ && pv[2] == parts@[2]@);
        let alpha = match alpha {
            None => None,
            Some(a) => match read_plain_alpha(a) {
                Some(a) => Some(a),
                None => {
                    return None;
                },
            },
        };
        let degrees: &[char] = match text::strip_suffix(parts[0], "deg") {
            Some(n) => n,
            None => parts[0],
        };
        if !number::is_float(degrees) {
            return None;
        }
        let hue = Part::Angle(text::text_of(degrees), AngleUnit::Deg);
        let saturation = match text::strip_suffix(parts[1], "%") {
            Some(p) => read_percent_of(p),
            None => None,
        };
        let lightness = match text::strip_suffix(parts[2], "%") {
            Some(p) => read_percent_of(p),
            None => None,
        };
        match (saturation, lightness) {
            (Some(saturation), Some(lightness)) => Some(
                ColorForm::Components {
                    notation: Notation::Hsl,
                    parts: (hue, saturation, lightness),
                    alpha,
                },
            ),
            _ => None,
        }
    }

    fn parse_hex(hex: &[char]) -> (r: Option<Color>)
        ensures
            r == hex_color(hex@),
    {
        let n: usize = hex.len();
        if n != 3 && n != 4 && n != 6 && n != 8 {
            return None;
        }
        let mut digits: Vec<u8> = Vec::new();
        let mut i: usize = 0;
        while i < n
            invariant
                i <= n == hex@.len(),
                digits@.len() == i,
                forall|j: int|
                    0 <= j < i ==> #[trigger] hex_digit(hex@[j]) == Some(digits@[j]) && digits@[j]
                        < 16,
            decreases n - i,
        {
            match hex_value(hex[i]) {
                Some(v) => {
                    digits.push(v);
                },
                None => {
                    assert(hex_digit(hex@[i as int]) is None);
                    return None;
                },
            }
            i = i + 1;
        }
        assert(all_hex(hex@));
        let ghost d = digits@;
        assert(hex_digit(hex@[0]) == Some(d[0]) && hex_digit(hex@[1]) == Some(d[1]) && hex_digit(hex@[2])
            == Some(d[2]));
        if n == 3 {
            return Some(Color::rgb(digits[0] * 17, digits[1] * 17, digits[2] * 17));
        }
        assert(hex_digit(hex@[3]) == Some(d[3]));
        if n == 4 {
            return Some(
                Color::rgba(digits[0] * 17, digits[1] * 17, digits[2] * 17, digits[3] * 17),
            );
        }
        assert(hex_digit(hex@[4]) == Some(d[4]) && hex_digit(hex@[5]) == Some(d[5]));
        if n == 6 {
            return Some(
                Color::rgb(
                    digits[0] * 16 + digits[1],
                    digits[2] * 16 + digits[3],
                    digits[4] * 16 + digits[5],
                ),
            );
        }
        assert(hex_digit(hex@[6]) == Some(d[6]) && hex_digit(hex@[7]) == Some(d[7]));
        Some(
            Color::rgba(
                digits[0] * 16 + digits[1],
                digits[2] * 16 + digits[3],
                digits[4] * 16 + digits[5],
                digits[6] * 16 + digits[7],
            ),
        )
    }

    /// The full CSS named color table.
    pub fn from_named(name: &str) -> (r: Option<Color>)
        ensures
            r == named_color(name@),
    {
        let chars = text::chars_of(name);
        match named::named_channels(chars.as_slice()) {
            Some((r, g, b)) => Some(Color::rgb(r, g, b)),
            None => None,
        }
    }
}

// ---------------------------------------------------------------------------
// Writing colors
// ---------------------------------------------------------------------------
pub open spec fn hex_char(n: nat) -> char {
    if n < 10 {
        text::digit_char(n)
    } else {
        ('a' as u32 + n - 10) as char
    }
}

/// A channel as two lowercase hexadecimal digits.
pub open spec fn hex_pair(n: u8) -> Seq<char> {
    seq![hex_char(n as nat / 16), hex_char(n as nat % 16)]
}

/// An alpha below 255 in thousandths, rounded to the nearest.
pub open spec fn alpha_thousandths(a: u8) -> nat {
    (a as nat * 2000 + 255) / 510
}

/// The text of a color: `#rrggbb`, or `rgba(r,g,b,a)` with a three-place
/// alpha where it is not opaque.
pub open spec fn color_text(c: Color) -> Seq<char> {
    if c.a == 255 {
        "#"@ + hex_pair(c.r) + hex_pair(c.g) + hex_pair(c.b)
    } else {
        let m = alpha_thousandths(c.a);
        "rgba("@ + text::decimal(c.r as nat) + ","@ + text::decimal(c.g as nat) + ","@
            + text::decimal(c.b as nat) + ",0."@ + seq![
            text::digit_char(m / 100),
            text::digit_char(m / 10 % 10),
            text::digit_char(m % 10),
        ] + ")"@
    }
}

pub fn to_hex(n: u8) -> (c: char)
    requires
        n < 16,
    ensures
        c == hex_char(n as nat),
{
    if n < 10 {
        text::to_digit(n)
    } else {
        (97u8 + (n - 10)) as char
    }
}

fn push_hex(s: &mut String, n: u8)
    ensures
        final(s)@ == old(s)@ + hex_pair(n),
{
    s.push(to_hex(n / 16));
    s.push(to_hex(n % 16));
    assert(s@ =~= old(s)@ + hex_pair(n));
}

impl Color {
    /// The color as `#rrggbb`, or as `rgba(r,g,b,a)` where it is not opaque.
    pub fn to_text(&self) -> (r: String)
        ensures
            r@ == color_text(*self),
    {
        let mut s = String::new();
        if self.is_opaque() {
            text::push_text(&mut s, "#");
            push_hex(&mut s, self.r);
            push_hex(&mut s, self.g);
            push_hex(&mut s, self.b);
            assert(s@ =~= color_text(*self));
            s
        } else {
            let m: u32 = (self.a as u32 * 2000 + 255) / 510;
            text::push_text(&mut s, "rgba(");
            text::push_decimal(&mut s, self.r as u64);
            text::push_text(&mut s, ",");
            text::push_decimal(&mut s, self.g as u64);
            text::push_text(&mut s, ",");
            text::push_decimal(&mut s, self.b as u64);
            text::push_text(&mut s, ",0.");
            s.push(text::to_digit((m / 100) as u8));
            s.push(text::to_digit((m / 10 % 10) as u8));
            s.push(text::to_digit((m % 10) as u8));
            text::push_text(&mut s, ")");
            assert(s@ =~= color_text(*self));
            s
        }
    }
}

/// A name is found in any ASCII case.
pub proof fn law_named_colors_ignore_case(a: Seq<char>, b: Seq<char>)
    requires
        text::eq_ci(a, b),
    ensures
        named_color(a) == named_color(b),
{
    lemma_find_named_ci(a, b, 0);
}

proof fn lemma_find_named_ci(a: Seq<char>, b: Seq<char>, i: int)
    requires
        text::eq_ci(a, b),
    ensures
        named::find_named(a, i) == named::find_named(b, i),
    decreases named::NAMED_COLOR_COUNT - i,
{
    if 0 <= i < named::NAMED_COLOR_COUNT {
        lemma_find_named_ci(a, b, i + 1);
    }
}

proof fn lemma_hex_char(n: nat)
    requires
        n < 16,
    ensures
        hex_digit(hex_char(n)) == Some(n as u8),
        !text::is_space(hex_char(n)),
{
}

/// An opaque color reads back from the text that it is written as.
pub proof fn law_opaque_colors_read_back(c: Color)
    requires
        c.a == 255,
    ensures
        color_model(color_text(c)) == Some(ColorModel::Srgb(c)),
{
    reveal_strlit("#");
    let s = color_text(c);
    let digits = hex_pair(c.r) + hex_pair(c.g) + hex_pair(c.b);
    lemma_hex_char(c.r as nat / 16);
    lemma_hex_char(c.r as nat % 16);
    lemma_hex_char(c.g as nat / 16);
    lemma_hex_char(c.g as nat % 16);
    lemma_hex_char(c.b as nat / 16);
    lemma_hex_char(c.b as nat % 16);
    assert(s =~= seq!['#'] + digits);
    assert(text::trimmed_start(s) =~= s);
    assert(text::trimmed_end(s) =~= s);
    assert(s.skip(1) =~= digits);
    assert(s.take(1) =~= "#"@);
    assert forall|i: int| 0 <= i < digits.len() implies (#[trigger] hex_digit(digits[i])) is Some by {
        assert(i == 0 || i == 1 || i == 2 || i == 3 || i == 4 || i == 5);
    }
    assert(hex_color(digits) == Some(c));
}

} // verus!
