//! Typed CSS values.
use crate::css::color::{self, Color, ColorForm, ColorModel};
use crate::css::number::{self, Number, NumberModel, Scale};
use crate::text;
use vstd::prelude::*;
use vstd::slice::slice_subrange;

verus! {

/// Length units understood by the engine.
#[derive(Debug, Clone, Copy, PartialEq, Eq, Structural)]
pub enum Unit {
    Px,
    /// Relative to the element's font size (parent's, for `font-size`).
    Em,
    /// Relative to the root (html) font size.
    Rem,
    /// Percent of the viewport width / height.
    Vw,
    Vh,
    /// Percent of the smaller / larger viewport dimension.
    Vmin,
    Vmax,
    Percent,
}

/// A single parsed component of a declaration value.
#[derive(Debug, PartialEq, Eq)]
pub enum CssValue {
    /// An identifier the engine interprets later (`block`, `bold`, `transparent`, ...).
    Keyword(String),
    /// A quoted string (`content: "..."`).
    String(String),
    /// `url(...)` with the URL unquoted.
    Url(String),
    /// A raw declaration value containing `var()`, substituted (and then
    /// re-parsed) at style-computation time.
    Unresolved(String),
    /// An unparsed functional value: (lowercase name, raw arguments).
    Function(String, String),
    Length(Number, Unit),
    Color(ColorForm),
    Number(Number),
    Auto,
    /// Components that survive together and hold a number: a keyword whose
    /// text is that of the components, joined by spaces. Writing the text out
    /// takes single-precision arithmetic.
    Joined(Vec<CssValue>),
}

pub enum ValueModel {
    Keyword(Seq<char>),
    String(Seq<char>),
    Url(Seq<char>),
    Unresolved(Seq<char>),
    Function(Seq<char>, Seq<char>),
    Length(NumberModel, Unit),
    Color(ColorModel),
    Number(NumberModel),
    Auto,
    Joined(Seq<ValueModel>),
}

impl CssValue {
    pub open spec fn model(&self) -> ValueModel
        decreases self,
    {
        match self {
            CssValue::Keyword(s) => ValueModel::Keyword(s@),
            CssValue::String(s) => ValueModel::String(s@),
            CssValue::Url(s) => ValueModel::Url(s@),
            CssValue::Unresolved(s) => ValueModel::Unresolved(s@),
            CssValue::Function(name, arguments) => ValueModel::Function(name@, arguments@),
            CssValue::Length(n, unit) => ValueModel::Length(n@, *unit),
            CssValue::Color(form) => ValueModel::Color(form.model()),
            CssValue::Number(n) => ValueModel::Number(n@),
            CssValue::Auto => ValueModel::Auto,
            CssValue::Joined(parts) => ValueModel::Joined(
                Seq::new(
                    parts@.len(),
                    |i: int|
                        if 0 <= i < parts@.len() {
                            parts@[i].model()
                        } else {
                            arbitrary()
                        },
                ),
            ),
        }
    }
}

impl View for CssValue {
    type V = ValueModel;

    open spec fn view(&self) -> ValueModel {
        self.model()
    }
}

/// The models of a run of values.
pub open spec fn models(values: Seq<CssValue>) -> Seq<ValueModel> {
    Seq::new(values.len(), |i: int| values[i].model())
}

pub open spec fn opt_model(value: Option<CssValue>) -> Option<ValueModel> {
    match value {
        Some(v) => Some(v.model()),
        None => None,
    }
}

impl Clone for CssValue {
    fn clone(&self) -> (r: CssValue)
        ensures
            r@ == self@,
        decreases self,
    {
        match self {
            CssValue::Keyword(s) => CssValue::Keyword(s.clone()),
            CssValue::String(s) => CssValue::String(s.clone()),
            CssValue::Url(s) => CssValue::Url(s.clone()),
            CssValue::Unresolved(s) => CssValue::Unresolved(s.clone()),
            CssValue::Function(name, arguments) => CssValue::Function(
                name.clone(),
                arguments.clone(),
            ),
            CssValue::Length(n, unit) => CssValue::Length(n.clone(), *unit),
            CssValue::Color(form) => CssValue::Color(form.clone()),
            CssValue::Number(n) => CssValue::Number(n.clone()),
            CssValue::Auto => CssValue::Auto,
            CssValue::Joined(parts) => {
                let mut copies: Vec<CssValue> = Vec::new();
                let mut i: usize = 0;
                while i < parts.len()
                    invariant
                        i <= parts@.len(),
                        *self == CssValue::Joined(*parts),
                        copies@.len() == i,
                        forall|j: int| 0 <= j < i ==> (#[trigger] copies@[j]).model() == parts@[j].model(),
                    decreases parts@.len() - i,
                {
                    assert(decreases_to!(self => self->Joined_0));
                    assert(decreases_to!(parts => parts@));
                    assert(decreases_to!(parts@ => parts@[i as int]));
                    let copy = parts[i].clone();
                    copies.push(copy);
                    i = i + 1;
                }
                let r = CssValue::Joined(copies);
                assert(r.model()->Joined_0 =~= self.model()->Joined_0);
                r
            },
        }
    }
}

// ---------------------------------------------------------------------------
// Components
// ---------------------------------------------------------------------------
/// What stands between two quotes `q`.
pub open spec fn quoted(s: Seq<char>, q: Seq<char>) -> Option<Seq<char>> {
    match text::after_prefix(s, q) {
        Some(rest) => text::before_suffix(rest, q),
        None => None,
    }
}

/// What stands between double quotes or between single ones.
pub open spec fn any_quoted(s: Seq<char>) -> Option<Seq<char>> {
    match quoted(s, "\""@) {
        Some(inner) => Some(inner),
        None => quoted(s, "'"@),
    }
}

fn strip_quotes<'a>(s: &'a [char]) -> (r: Option<&'a [char]>)
    ensures
        text::opt_view(r) == any_quoted(s@),
{
    if let Some(rest) = text::strip_prefix(s, "\"") {
        if let Some(inner) = text::strip_suffix(rest, "\"") {
            return Some(inner);
        }
    }
    match text::strip_prefix(s, "'") {
        Some(rest) => text::strip_suffix(rest, "'"),
        None => None,
    }
}

/// Whether `url(` stands at the start, in any case, and `)` at the end.
pub open spec fn is_url(s: Seq<char>) -> bool {
    s.len() >= 5 && text::eq_ci(s.take(4), "url("@) && text::ends(s, ")"@)
}

pub open spec fn url_target(s: Seq<char>) -> Seq<char> {
    let inner = text::trimmed(s.subrange(4, s.len() - 1));
    match any_quoted(inner) {
        Some(target) => target,
        None => inner,
    }
}

/// Whether every character may stand in an identifier.
pub open spec fn is_ident(s: Seq<char>) -> bool {
    forall|i: int| 0 <= i < s.len() ==> text::is_ascii_alnum(#[trigger] s[i]) || s[i] == '-'
}

fn ident(s: &[char]) -> (r: bool)
    ensures
        r == is_ident(s@),
{
    let mut i: usize = 0;
    while i < s.len()
        invariant
            i <= s@.len(),
            forall|j: int|
                0 <= j < i ==> text::is_ascii_alnum(#[trigger] s@[j]) || s@[j] == '-',
        decreases s@.len() - i,
    {
        if !(text::ascii_alnum(s[i]) || s[i] == '-') {
            assert(!(text::is_ascii_alnum(s@[i as int]) || s@[i as int] == '-'));
            return false;
        }
        i = i + 1;
    }
    true
}

/// The function names that write colors.
pub open spec fn is_color_function(name: Seq<char>) -> bool {
    ||| name == "rgb"@
    ||| name == "rgba"@
    ||| name == "hsl"@
    ||| name == "hsla"@
    ||| name == "hwb"@
    ||| name == "lab"@
    ||| name == "lch"@
    ||| name == "oklab"@
    ||| name == "oklch"@
    ||| name == "color-mix"@
}

fn color_function(name: &[char]) -> (r: bool)
    ensures
        r == is_color_function(name@),
{
    text::is_word(name, "rgb") || text::is_word(name, "rgba") || text::is_word(name, "hsl")
        || text::is_word(name, "hsla") || text::is_word(name, "hwb") || text::is_word(name, "lab")
        || text::is_word(name, "lch") || text::is_word(name, "oklab") || text::is_word(
        name,
        "oklch",
    ) || text::is_word(name, "color-mix")
}

/// A functional value other than a color: the lowercase name and the raw
/// arguments.
pub open spec fn function_parts(s: Seq<char>) -> Option<(Seq<char>, Seq<char>)> {
    let open = text::find_char(s, '(', 0);
    if open < s.len() && text::ends(s, ")"@) && is_ident(s.take(open)) && open > 0
        && !is_color_function(text::lowered(s.take(open))) {
        Some((text::lowered(s.take(open)), s.subrange(open + 1, s.len() - 1)))
    } else {
        None
    }
}

/// Whether a component is written in a color notation other than a name.
pub open spec fn has_color_prefix(s: Seq<char>) -> bool {
    ||| text::starts(s, "#"@)
    ||| text::starts(s, "rgb("@)
    ||| text::starts(s, "rgba("@)
    ||| text::starts(s, "hsl("@)
    ||| text::starts(s, "hsla("@)
    ||| text::starts(s, "hwb("@)
    ||| text::starts(s, "lab("@)
    ||| text::starts(s, "lch("@)
    ||| text::starts(s, "oklab("@)
    ||| text::starts(s, "oklch("@)
    ||| text::starts(s, "color-mix("@)
}

fn color_prefix(s: &[char]) -> (r: bool)
    ensures
        r == has_color_prefix(s@),
{
    text::starts_with(s, "#") || text::starts_with(s, "rgb(") || text::starts_with(s, "rgba(")
        || text::starts_with(s, "hsl(") || text::starts_with(s, "hsla(") || text::starts_with(
        s,
        "hwb(",
    ) || text::starts_with(s, "lab(") || text::starts_with(s, "lch(") || text::starts_with(
        s,
        "oklab(",
    ) || text::starts_with(s, "oklch(") || text::starts_with(s, "color-mix(")
}

/// A float literal with a scale, as a length.
pub open spec fn length_of(n: Seq<char>, scale: Scale, unit: Unit) -> Option<ValueModel> {
    if number::float_model(n) is Some {
        Some(ValueModel::Length(NumberModel { literal: n, scale }, unit))
    } else {
        None
    }
}

fn read_length(n: &[char], scale: Scale, unit: Unit) -> (r: Option<CssValue>)
    ensures
        opt_model(r) == length_of(n@, scale, unit),
{
    match Number::read(n, scale) {
        Some(n) => Some(CssValue::Length(n, unit)),
        None => None,
    }
}

/// A length whose unit also ends keywords: where what precedes it is no
/// number, the component is not a length at all.
pub open spec fn soft_length(s: Seq<char>, suffix: Seq<char>, scale: Scale, unit: Unit) -> Option<
    ValueModel,
> {
    match text::before_suffix(s, suffix) {
        Some(n) => length_of(text::trimmed(n), scale, unit),
        None => None,
    }
}

fn read_soft_length(s: &[char], suffix: &str, scale: Scale, unit: Unit) -> (r: Option<CssValue>)
    ensures
        opt_model(r) == soft_length(s@, suffix@, scale, unit),
{
    match text::strip_suffix(s, suffix) {
        Some(n) => read_length(text::trim(n), scale, unit),
        None => None,
    }
}

/// The lengths whose unit also ends keywords, in the order they are tried:
/// absolute units fold to pixels, `ch` and `ex` count as half an em.
pub open spec fn soft_lengths(s: Seq<char>) -> Option<ValueModel> {
    if soft_length(s, "pt"@, Scale::Pt, Unit::Px) is Some {
        soft_length(s, "pt"@, Scale::Pt, Unit::Px)
    } else if soft_length(s, "pc"@, Scale::Pc, Unit::Px) is Some {
        soft_length(s, "pc"@, Scale::Pc, Unit::Px)
    } else if soft_length(s, "cm"@, Scale::Cm, Unit::Px) is Some {
        soft_length(s, "cm"@, Scale::Cm, Unit::Px)
    } else if soft_length(s, "mm"@, Scale::Mm, Unit::Px) is Some {
        soft_length(s, "mm"@, Scale::Mm, Unit::Px)
    } else if soft_length(s, "in"@, Scale::In, Unit::Px) is Some {
        soft_length(s, "in"@, Scale::In, Unit::Px)
    } else if soft_length(s, "q"@, Scale::Q, Unit::Px) is Some {
        soft_length(s, "q"@, Scale::Q, Unit::Px)
    } else if soft_length(s, "ch"@, Scale::Half, Unit::Em) is Some {
        soft_length(s, "ch"@, Scale::Half, Unit::Em)
    } else if soft_length(s, "ex"@, Scale::Half, Unit::Em) is Some {
        soft_length(s, "ex"@, Scale::Half, Unit::Em)
    } else if soft_length(s, "vmin"@, Scale::One, Unit::Vmin) is Some {
        soft_length(s, "vmin"@, Scale::One, Unit::Vmin)
    } else {
        soft_length(s, "vmax"@, Scale::One, Unit::Vmax)
    }
}

fn read_soft_lengths(s: &[char]) -> (r: Option<CssValue>)
    ensures
        opt_model(r) == soft_lengths(s@),
{
    if let Some(v) = read_soft_length(s, "pt", Scale::Pt, Unit::Px) {
        return Some(v);
    }
    if let Some(v) = read_soft_length(s, "pc", Scale::Pc, Unit::Px) {
        return Some(v);
    }
    if let Some(v) = read_soft_length(s, "cm", Scale::Cm, Unit::Px) {
        return Some(v);
    }
    if let Some(v) = read_soft_length(s, "mm", Scale::Mm, Unit::Px) {
        return Some(v);
    }
    if let Some(v) = read_soft_length(s, "in", Scale::In, Unit::Px) {
        return Some(v);
    }
    if let Some(v) = read_soft_length(s, "q", Scale::Q, Unit::Px) {
        return Some(v);
    }
    if let Some(v) = read_soft_length(s, "ch", Scale::Half, Unit::Em) {
        return Some(v);
    }
    if let Some(v) = read_soft_length(s, "ex", Scale::Half, Unit::Em) {
        return Some(v);
    }
    if let Some(v) = read_soft_length(s, "vmin", Scale::One, Unit::Vmin) {
        return Some(v);
    }
    read_soft_length(s, "vmax", Scale::One, Unit::Vmax)
}

/// The plain number that a value carries.
pub open spec fn number_of(v: ValueModel) -> Option<NumberModel> {
    match v {
        ValueModel::Number(n) => Some(n),
        ValueModel::Length(n, unit) => if number::zero(n.literal, n.scale) {
            Some(zero_model())
        } else {
            None
        },
        _ => None,
    }
}

/// The number zero.
pub open spec fn zero_model() -> NumberModel {
    NumberModel { literal: "0"@, scale: Scale::One }
}

/// A bare number (a zero is a length), a named color or an identifier.
pub open spec fn word_model(s: Seq<char>) -> Option<ValueModel> {
    if number::float_model(s) is Some {
        if number::zero(s, Scale::One) {
            Some(ValueModel::Length(zero_model(), Unit::Px))
        } else {
            Some(ValueModel::Number(NumberModel { literal: s, scale: Scale::One }))
        }
    } else if color::named_color(s) is Some {
        Some(ValueModel::Color(ColorModel::Srgb(color::named_color(s)->0)))
    } else if is_ident(s) {
        Some(ValueModel::Keyword(text::lowered(s)))
    } else {
        None
    }
}

fn read_word(s: &[char]) -> (r: Option<CssValue>)
    ensures
        opt_model(r) == word_model(s@),
{
    if let Some(n) = Number::read(s, Scale::One) {
        if n.is_zero() {
            return Some(CssValue::Length(Number::new("0"), Unit::Px));
        }
        return Some(CssValue::Number(n));
    }
    match crate::css::named::named_channels(s) {
        Some((r, g, b)) => {
            return Some(CssValue::Color(ColorForm::Srgb(Color::rgb(r, g, b))));
        },
        None => {},
    }
    if ident(s) {
        let name = text::to_lowered(s);
        return Some(CssValue::Keyword(text::text_of(name.as_slice())));
    }
    None
}

/// A component that is no function, string or color notation.
pub open spec fn plain_model(s: Seq<char>) -> Option<ValueModel> {
    match text::before_suffix(s, "px"@) {
        Some(n) => length_of(text::trimmed(n), Scale::One, Unit::Px),
        None => match text::before_suffix(s, "rem"@) {
            Some(n) => length_of(n, Scale::One, Unit::Rem),
            None => match text::before_suffix(s, "em"@) {
                Some(n) => length_of(text::trimmed(n), Scale::One, Unit::Em),
                None => match soft_lengths(s) {
                    Some(v) => Some(v),
                    None => match text::before_suffix(s, "vw"@) {
                        Some(n) => length_of(text::trimmed(n), Scale::One, Unit::Vw),
                        None => match text::before_suffix(s, "vh"@) {
                            Some(n) => length_of(text::trimmed(n), Scale::One, Unit::Vh),
                            None => match text::before_suffix(s, "%"@) {
                                Some(n) => length_of(text::trimmed(n), Scale::One, Unit::Percent),
                                None => word_model(s),
                            },
                        },
                    },
                },
            },
        },
    }
}

fn read_plain(s: &[char]) -> (r: Option<CssValue>)
    ensures
        opt_model(r) == plain_model(s@),
{
    if let Some(n) = text::strip_suffix(s, "px") {
        return read_length(text::trim(n), Scale::One, Unit::Px);
    }
    if let Some(n) = text::strip_suffix(s, "rem") {
        return read_length(n, Scale::One, Unit::Rem);
    }
    if let Some(n) = text::strip_suffix(s, "em") {
        return read_length(text::trim(n), Scale::One, Unit::Em);
    }
    if let Some(v) = read_soft_lengths(s) {
        return Some(v);
    }
    if let Some(n) = text::strip_suffix(s, "vw") {
        return read_length(text::trim(n), Scale::One, Unit::Vw);
    }
    if let Some(n) = text::strip_suffix(s, "vh") {
        return read_length(text::trim(n), Scale::One, Unit::Vh);
    }
    if let Some(n) = text::strip_suffix(s, "%") {
        return read_length(text::trim(n), Scale::One, Unit::Percent);
    }
    read_word(s)
}

/// A component before non-finite numbers are rejected.
pub open spec fn inner_model(source: Seq<char>) -> Option<ValueModel> {
    let s = text::trimmed(source);
    if s.len() == 0 {
        None
    } else if text::eq_ci(s, "auto"@) {
        Some(ValueModel::Auto)
    } else if is_url(s) {
        Some(ValueModel::Url(url_target(s)))
    } else {
        match function_parts(s) {
            Some((name, arguments)) => Some(ValueModel::Function(name, arguments)),
            None => match any_quoted(s) {
                Some(inner) => Some(ValueModel::String(inner)),
                None => if has_color_prefix(s) {
                    match color::color_model(s) {
                        Some(c) => Some(ValueModel::Color(c)),
                        None => None,
                    }
                } else {
                    plain_model(s)
                },
            },
        }
    }
}

/// What one whitespace-delimited component says; a number that is not finite
/// in single precision is none.
pub open spec fn component_model(source: Seq<char>) -> Option<ValueModel> {
    match inner_model(source) {
        Some(ValueModel::Length(n, unit)) => if number::finite(n.literal, n.scale) {
            Some(ValueModel::Length(n, unit))
        } else {
            None
        },
        Some(ValueModel::Number(n)) => if number::finite(n.literal, n.scale) {
            Some(ValueModel::Number(n))
        } else {
            None
        },
        other => other,
    }
}

fn read_inner(source: &[char]) -> (r: Option<CssValue>)
    ensures
        opt_model(r) == inner_model(source@),
{
    let s = text::trim(source);
    if s.len() == 0 {
        return None;
    }
    if text::is_word_ci(s, "auto") {
        return Some(CssValue::Auto);
    }
    proof {
        text::lemma_find_char(s@, '(', 0);
        reveal_strlit(")");
    }
    let closed = text::ends_with(s, ")");
    let last: usize = s.len() - 1;
    proof {
        if closed {
            assert(s@.skip(s@.len() - 1)[0] == ')');
        }
    }
    if s.len() >= 5 && closed && text::is_word_ci(slice_subrange(s, 0, 4), "url(") {
        let inner = text::trim(slice_subrange(s, 4, last));
        let target: &[char] = match strip_quotes(inner) {
            Some(target) => target,
            None => inner,
        };
        return Some(CssValue::Url(text::text_of(target)));
    }
    let open = text::position(s, '(');
    if open < s.len() && closed && open > 0 && ident(slice_subrange(s, 0, open)) {
        let name = text::to_lowered(slice_subrange(s, 0, open));
        if !color_function(name.as_slice()) {
            let arguments = slice_subrange(s, open + 1, last);
            return Some(
                CssValue::Function(text::text_of(name.as_slice()), text::text_of(arguments)),
            );
        }
    }
    if let Some(inner) = strip_quotes(s) {
        return Some(CssValue::String(text::text_of(inner)));
    }
    if color_prefix(s) {
        return match Color::read(s) {
            Some(c) => Some(CssValue::Color(c)),
            None => None,
        };
    }
    read_plain(s)
}

impl CssValue {
    /// Parses one whitespace-delimited value component.
    ///
    /// Returns `None` for components the engine cannot represent (which the
    /// caller then skips, per the "ignore unsupported declarations" rule).
    pub fn parse_component(source: &str) -> (r: Option<CssValue>)
        ensures
            opt_model(r) == component_model(source@),
    {
        let chars = text::chars_of(source);
        CssValue::read_component(chars.as_slice())
    }

    pub fn read_component(source: &[char]) -> (r: Option<CssValue>)
        ensures
            opt_model(r) == component_model(source@),
    {
        match read_inner(source) {
            Some(CssValue::Length(n, unit)) => if n.is_finite() {
                Some(CssValue::Length(n, unit))
            } else {
                None
            },
            Some(CssValue::Number(n)) => if n.is_finite() {
                Some(CssValue::Number(n))
            } else {
                None
            },
            other => other,
        }
    }

    /// The pixel value, if this is a `px` length (or unitless zero).
    pub fn as_px(&self) -> (r: Option<&Number>)
        ensures
            match self {
                CssValue::Length(n, Unit::Px) => r == Some(n),
                _ => r is None,
            },
    {
        match self {
            CssValue::Length(n, Unit::Px) => Some(n),
            _ => None,
        }
    }

    /// The plain number this value carries. A bare `0` parses as a length
    /// (so `margin: 0` works), so the number-typed properties (`opacity`,
    /// `z-index`, `flex-grow`, `order`) have to accept a zero length back as
    /// the number it was written as.
    pub fn as_number(&self) -> (r: Option<Number>)
        ensures
            match r {
                Some(n) => number_of(self@) == Some(n@),
                None => number_of(self@) is None,
            },
    {
        match self {
            CssValue::Number(n) => Some(n.clone()),
            CssValue::Length(n, _) => if n.is_zero() {
                Some(Number::new("0"))
            } else {
                None
            },
            _ => None,
        }
    }

    pub fn as_color(&self) -> (r: Option<&ColorForm>)
        ensures
            match self {
                CssValue::Color(c) => r == Some(c),
                _ => r is None,
            },
    {
        match self {
            CssValue::Color(c) => Some(c),
            _ => None,
        }
    }

    pub fn as_keyword(&self) -> (r: Option<&str>)
        ensures
            match self@ {
                ValueModel::Keyword(k) => r is Some && r->0@ == k,
                _ => r is None,
            },
    {
        match self {
            CssValue::Keyword(k) => Some(k.as_str()),
            _ => None,
        }
    }
}

// ---------------------------------------------------------------------------
// Writing values
// ---------------------------------------------------------------------------
/// A value as a style sheet writes it, where that takes no arithmetic.
pub open spec fn display_model(v: ValueModel) -> Option<Seq<char>> {
    match v {
        ValueModel::Keyword(s) => Some(s),
        ValueModel::Unresolved(s) => Some(s),
        ValueModel::String(s) => Some("\""@ + s + "\""@),
        ValueModel::Url(s) => Some("url("@ + s + ")"@),
        ValueModel::Function(name, arguments) => Some(name + "("@ + arguments + ")"@),
        ValueModel::Color(ColorModel::Srgb(c)) => Some(color::color_text(c)),
        ValueModel::Auto => Some("auto"@),
        _ => None,
    }
}

/// A value's text without quotes, where that takes no arithmetic.
pub open spec fn raw_model(v: ValueModel) -> Option<Seq<char>> {
    match v {
        ValueModel::String(s) => Some(s),
        _ => display_model(v),
    }
}

impl CssValue {
    /// The value as a style sheet writes it. `None` for a value with numbers
    /// in it, which are written from their single-precision value.
    pub fn display_text(&self) -> (r: Option<String>)
        ensures
            text::opt_text(r) == display_model(self@),
    {
        match self {
            CssValue::Keyword(s) => Some(s.clone()),
            CssValue::Unresolved(s) => Some(s.clone()),
            CssValue::String(s) => {
                let mut r = text::concat("\"", s.as_str());
                text::push_text(&mut r, "\"");
                Some(r)
            },
            CssValue::Url(s) => {
                let mut r = text::concat("url(", s.as_str());
                text::push_text(&mut r, ")");
                Some(r)
            },
            CssValue::Function(name, arguments) => {
                let mut r = text::concat(name.as_str(), "(");
                text::push_text(&mut r, arguments.as_str());
                text::push_text(&mut r, ")");
                Some(r)
            },
            CssValue::Color(ColorForm::Srgb(c)) => Some(c.to_text()),
            CssValue::Auto => Some("auto".to_owned()),
            _ => None,
        }
    }

    /// The raw text of string-ish values (without quotes); other values as
    /// [`CssValue::display_text`] writes them.
    pub fn raw_text(&self) -> (r: Option<String>)
        ensures
            text::opt_text(r) == raw_model(self@),
    {
        match self {
            CssValue::String(s) => Some(s.clone()),
            _ => self.display_text(),
        }
    }
}

/// Whether every value can be written without arithmetic.
pub open spec fn all_shown(c: Seq<ValueModel>) -> bool {
    forall|i: int| 0 <= i < c.len() ==> display_model(#[trigger] c[i]) is Some
}

/// The texts of values that can be written without arithmetic.
pub open spec fn shown_texts(c: Seq<ValueModel>) -> Seq<Seq<char>> {
    Seq::new(c.len(), |i: int| display_model(c[i])->0)
}

/// The values as one keyword: their texts joined by spaces, or the values
/// themselves where a number is among them.
pub open spec fn joined_model(c: Seq<ValueModel>) -> ValueModel {
    if all_shown(c) {
        ValueModel::Keyword(text::joined(shown_texts(c), " "@))
    } else {
        ValueModel::Joined(c)
    }
}

fn copy_all(values: &Vec<CssValue>) -> (r: Vec<CssValue>)
    ensures
        models(r@) == models(values@),
{
    let mut copies: Vec<CssValue> = Vec::new();
    let mut i: usize = 0;
    while i < values.len()
        invariant
            i <= values@.len(),
            copies@.len() == i,
            forall|j: int| 0 <= j < i ==> (#[trigger] copies@[j])@ == values@[j]@,
        decreases values@.len() - i,
    {
        copies.push(values[i].clone());
        i = i + 1;
    }
    assert(models(copies@) =~= models(values@));
    copies
}

/// Keeps values together as one keyword.
pub fn join_values(values: &Vec<CssValue>) -> (r: CssValue)
    ensures
        r@ == joined_model(models(values@)),
{
    let ghost c = models(values@);
    let mut parts: Vec<String> = Vec::new();
    let mut i: usize = 0;
    while i < values.len()
        invariant
            i <= values@.len(),
            c == models(values@),
            parts@.len() == i,
            forall|j: int|
                0 <= j < i ==> display_model(#[trigger] c[j]) == Some(parts@[j]@),
        decreases values@.len() - i,
    {
        assert(c[i as int] == values@[i as int]@);
        match values[i].display_text() {
            Some(part) => parts.push(part),
            None => {
                assert(!all_shown(c));
                let r = CssValue::Joined(copy_all(values));
                assert(r.model()->Joined_0 =~= c);
                return r;
            },
        }
        i = i + 1;
    }
    assert(all_shown(c));
    assert(text::texts(parts@) =~= shown_texts(c));
    CssValue::Keyword(text::join(parts.as_slice(), " "))
}

// ---------------------------------------------------------------------------
// Splitting values into components
// ---------------------------------------------------------------------------
pub open spec fn flushed(current: Seq<char>) -> Seq<Seq<char>> {
    if current.len() == 0 {
        seq![]
    } else {
        seq![current]
    }
}

/// The components from `i` on: white space outside quotes and parentheses
/// ends a component. `current` is what the open component holds so far.
pub open spec fn components_from(
    s: Seq<char>,
    i: int,
    current: Seq<char>,
    depth: nat,
    quote: Option<char>,
) -> Seq<Seq<char>>
    decreases s.len() - i,
{
    if i < 0 || i >= s.len() {
        flushed(current)
    } else {
        let c = s[i];
        match quote {
            Some(open) => components_from(
                s,
                i + 1,
                current.push(c),
                depth,
                if c == open {
                    None
                } else {
                    quote
                },
            ),
            None => if c == '"' || c == '\'' {
                components_from(s, i + 1, current.push(c), depth, Some(c))
            } else if c == '(' || c == ')' {
                components_from(s, i + 1, current.push(c), text::depth_after(depth, c), None)
            } else if text::is_space(c) && depth == 0 {
                flushed(current) + components_from(s, i + 1, seq![], depth, None)
            } else {
                components_from(s, i + 1, current.push(c), depth, None)
            },
        }
    }
}

pub open spec fn components(s: Seq<char>) -> Seq<Seq<char>> {
    components_from(s, 0, seq![], 0, None)
}

/// Splits a declaration value into components, keeping `rgb(...)` together.
pub fn split_components(source: &str) -> (r: Vec<String>)
    ensures
        text::texts(r@) == components(source@),
{
    let chars = text::chars_of(source);
    components_of(chars.as_slice())
}

pub fn components_of(s: &[char]) -> (r: Vec<String>)
    ensures
        text::texts(r@) == components(s@),
{
    let mut parts: Vec<String> = Vec::new();
    let mut current: Vec<char> = Vec::new();
    let mut depth: usize = 0;
    let mut quote: Option<char> = None;
    let mut i: usize = 0;
    assert(text::texts(parts@) + components(s@) =~= components(s@));
    assert(current@ =~= seq![]);
    while i < s.len()
        invariant
            i <= s@.len(),
            depth <= i,
            text::texts(parts@) + components_from(s@, i as int, current@, depth as nat, quote)
                == components(s@),
        decreases s@.len() - i,
    {
        let c = s[i];
        match quote {
            Some(open) => {
                current.push(c);
                if c == open {
                    quote = None;
                }
            },
            None => {
                if c == '"' || c == '\'' {
                    quote = Some(c);
                    current.push(c);
                } else if c == '(' {
                    depth = depth + 1;
                    current.push(c);
                } else if c == ')' {
                    if depth > 0 {
                        depth = depth - 1;
                    }
                    current.push(c);
                } else if text::space(c) && depth == 0 {
                    let ghost rest = components_from(s@, i + 1, seq![], depth as nat, None);
                    let ghost before = parts@;
                    if current.len() > 0 {
                        let part = text::text_of(current.as_slice());
                        parts.push(part);
                        proof {
                            text::lemma_texts_push(before, part);
                            assert(text::texts(parts@) + rest =~= text::texts(before) + (flushed(
                                current@,
                            ) + rest));
                        }
                        current = Vec::new();
                        assert(current@ =~= seq![]);
                    } else {
                        proof {
                            assert(flushed(current@) + rest =~= rest);
                            assert(current@ =~= seq![]);
                        }
                    }
                } else {
                    current.push(c);
                }
            },
        }
        i = i + 1;
    }
    if current.len() > 0 {
        let part = text::text_of(current.as_slice());
        let ghost before = parts@;
        parts.push(part);
        proof {
            text::lemma_texts_push(before, part);
            assert(text::texts(parts@) =~= text::texts(before) + flushed(current@));
        }
    } else {
        assert(text::texts(parts@) + flushed(current@) =~= text::texts(parts@));
    }
    parts
}

// ---------------------------------------------------------------------------
// A trailing space
// ---------------------------------------------------------------------------
/// Whether a value read from `i` on, inside `depth` parentheses and the open
/// quote, ends outside quotes and parentheses.
pub open spec fn closes(s: Seq<char>, i: int, depth: nat, quote: Option<char>) -> bool
    decreases s.len() - i,
{
    if i < 0 || i >= s.len() {
        depth == 0 && quote is None
    } else {
        let c = s[i];
        match quote {
            Some(open) => closes(
                s,
                i + 1,
                depth,
                if c == open {
                    None
                } else {
                    quote
                },
            ),
            None => if c == '"' || c == '\'' {
                closes(s, i + 1, depth, Some(c))
            } else {
                closes(s, i + 1, text::depth_after(depth, c), None)
            },
        }
    }
}

/// Whether a value ends outside quotes and parentheses.
pub open spec fn closed(s: Seq<char>) -> bool {
    closes(s, 0, 0, None)
}

/// Whether a text holds a quote or an opening parenthesis.
pub open spec fn opens(s: Seq<char>) -> bool {
    exists|i: int|
        0 <= i < s.len() && ((#[trigger] s[i]) == '(' || s[i] == '"' || s[i] == '\'')
}

proof fn lemma_opens_push(s: Seq<char>, c: char)
    ensures
        opens(s) ==> opens(s.push(c)),
        c == '(' || c == '"' || c == '\'' ==> opens(s.push(c)),
{
    let t = s.push(c);
    assert(t[s.len() as int] == c);
    if opens(s) {
        let i = choose|i: int|
            0 <= i < s.len() && ((#[trigger] s[i]) == '(' || s[i] == '"' || s[i] == '\'');
        assert(t[i] == s[i]);
    }
}

proof fn lemma_components_from_space(
    s: Seq<char>,
    i: int,
    current: Seq<char>,
    depth: nat,
    quote: Option<char>,
)
    requires
        0 <= i <= s.len(),
        depth > 0 || quote is Some ==> opens(current),
    ensures
        ({
            let parts = components_from(s, i, current, depth, quote);
            let other = components_from(s.push(' '), i, current, depth, quote);
            if closes(s, i, depth, quote) {
                other == parts
            } else {
                parts.len() > 0 && opens(parts.last()) && other == text::spaced(parts)
            }
        }),
    decreases s.len() - i,
{
    let t = s.push(' ');
    let parts = components_from(s, i, current, depth, quote);
    if i >= s.len() {
        assert(components_from(t, i + 1, current.push(' '), depth, quote) =~= flushed(
            current.push(' '),
        ));
        assert(components_from(t, i + 1, current.push(' '), depth, None) =~= flushed(
            current.push(' '),
        ));
        assert(components_from(t, i + 1, seq![], depth, None) =~= seq![]);
        if depth > 0 || quote is Some {
            assert(parts =~= seq![current]);
            assert(text::spaced(parts) =~= seq![current.push(' ')]);
        } else {
            assert(flushed(current) + seq![] =~= flushed(current));
        }
    } else {
        let c = s[i];
        assert(t[i] == c);
        lemma_opens_push(current, c);
        match quote {
            Some(open) => {
                let next: Option<char> = if c == open {
                    None
                } else {
                    quote
                };
                lemma_components_from_space(s, i + 1, current.push(c), depth, next);
            },
            None => {
                if c == '"' || c == '\'' {
                    lemma_components_from_space(s, i + 1, current.push(c), depth, Some(c));
                } else if c == '(' || c == ')' {
                    lemma_components_from_space(
                        s,
                        i + 1,
                        current.push(c),
                        text::depth_after(depth, c),
                        None,
                    );
                } else if text::is_space(c) && depth == 0 {
                    lemma_components_from_space(s, i + 1, seq![], depth, None);
                    let rest = components_from(s, i + 1, seq![], depth, None);
                    if rest.len() > 0 {
                        assert(text::spaced(flushed(current) + rest) =~= flushed(current)
                            + text::spaced(rest));
                        assert((flushed(current) + rest).last() == rest.last());
                    }
                } else {
                    lemma_components_from_space(s, i + 1, current.push(c), depth, None);
                }
            },
        }
    }
}

/// A space behind a value that ends outside quotes and parentheses changes
/// none of its components; otherwise it stays behind the last one.
pub proof fn lemma_components_space(s: Seq<char>)
    ensures
        closed(s) ==> components(s.push(' ')) == components(s),
        !closed(s) ==> components(s).len() > 0 && opens(components(s).last()) && components(
            s.push(' '),
        ) == text::spaced(components(s)),
{
    lemma_components_from_space(s, 0, seq![], 0, None);
}

/// A space behind a component does not change what it says.
pub proof fn lemma_component_space(s: Seq<char>)
    ensures
        component_model(s.push(' ')) == component_model(s),
{
    text::lemma_trimmed_space(s);
}

/// A number is one as it is, and so is a length of zero, whose number is zero;
/// nothing else is.
pub proof fn law_what_counts_as_a_number(n: NumberModel, unit: Unit, s: Seq<char>)
    ensures
        number_of(ValueModel::Number(n)) == Some(n),
        number::zero(n.literal, n.scale) ==> number_of(ValueModel::Length(n, unit)) == Some(
            NumberModel { literal: seq!['0'], scale: Scale::One },
        ),
        !number::zero(n.literal, n.scale) ==> number_of(ValueModel::Length(n, unit)) is None,
        number_of(ValueModel::Keyword(s)) is None,
        number_of(ValueModel::Auto) is None,
{
    reveal_strlit("0");
    assert("0"@ =~= seq!['0']);
}

} // verus!
