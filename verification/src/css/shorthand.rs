//! Expansion of shorthand declarations into longhands.
use crate::css::number::{self, Number, NumberModel, Scale};
use crate::css::value::{self, CssValue, Unit, ValueModel};
use crate::text;
use vstd::prelude::*;

verus! {

/// A single longhand `name: value` pair. Shorthands are expanded at parse
/// time, so consumers never see `margin`, only `margin-top` etc.
#[derive(Debug, PartialEq, Eq)]
pub struct Declaration {
    /// Lowercase property name.
    pub name: String,
    pub value: CssValue,
    /// Declared with `!important`.
    pub important: bool,
}

pub struct DeclarationModel {
    pub name: Seq<char>,
    pub value: ValueModel,
    pub important: bool,
}

impl View for Declaration {
    type V = DeclarationModel;

    open spec fn view(&self) -> DeclarationModel {
        DeclarationModel { name: self.name@, value: self.value@, important: self.important }
    }
}

impl Clone for Declaration {
    fn clone(&self) -> (r: Declaration)
        ensures
            r@ == self@,
    {
        Declaration {
            name: self.name.clone(),
            value: self.value.clone(),
            important: self.important,
        }
    }
}

/// The models of a run of declarations.
pub open spec fn declared(list: Seq<Declaration>) -> Seq<DeclarationModel> {
    Seq::new(list.len(), |i: int| list[i]@)
}

/// A declaration without `!important`.
pub open spec fn plain(name: Seq<char>, value: ValueModel) -> DeclarationModel {
    DeclarationModel { name, value, important: false }
}

/// Appends a declaration.
pub fn emit(output: &mut Vec<Declaration>, name: String, value: CssValue, important: bool)
    ensures
        declared(final(output)@) == declared(old(output)@).push(
            DeclarationModel { name: name@, value: value@, important },
        ),
{
    output.push(Declaration { name, value, important });
    assert(declared(output@) =~= declared(old(output)@).push(
        DeclarationModel { name: name@, value: value@, important },
    ));
}

// ---------------------------------------------------------------------------
// Boxes
// ---------------------------------------------------------------------------
/// CSS 1-to-4 value expansion: the places of the values of top, right, bottom
/// and left.
pub open spec fn edge_places(n: int) -> Option<(int, int, int, int)> {
    if n == 1 {
        Some((0, 0, 0, 0))
    } else if n == 2 {
        Some((0, 1, 0, 1))
    } else if n == 3 {
        Some((0, 1, 2, 1))
    } else if n == 4 {
        Some((0, 1, 2, 3))
    } else {
        None
    }
}

/// One declaration per place, called `prefix`, a part of the box, `suffix`.
pub open spec fn edge_declarations(
    prefix: Seq<char>,
    parts: (Seq<char>, Seq<char>, Seq<char>, Seq<char>),
    suffix: Seq<char>,
    c: Seq<ValueModel>,
) -> Seq<DeclarationModel> {
    match edge_places(c.len() as int) {
        Some((top, right, bottom, left)) => seq![
            plain(prefix + parts.0 + suffix, c[top]),
            plain(prefix + parts.1 + suffix, c[right]),
            plain(prefix + parts.2 + suffix, c[bottom]),
            plain(prefix + parts.3 + suffix, c[left]),
        ],
        None => seq![],
    }
}

pub open spec fn sides() -> (Seq<char>, Seq<char>, Seq<char>, Seq<char>) {
    ("top"@, "right"@, "bottom"@, "left"@)
}

/// Clockwise from the top left.
pub open spec fn corners() -> (Seq<char>, Seq<char>, Seq<char>, Seq<char>) {
    ("top-left"@, "top-right"@, "bottom-right"@, "bottom-left"@)
}

/// The places of the values of top, right, bottom and left.
fn edge_values(n: usize) -> (r: Option<(usize, usize, usize, usize)>)
    ensures
        match r {
            Some((a, b, c, d)) => edge_places(n as int) == Some(
                (a as int, b as int, c as int, d as int),
            ) && a < n && b < n && c < n && d < n,
            None => edge_places(n as int) is None,
        },
{
    match n {
        1 => Some((0, 0, 0, 0)),
        2 => Some((0, 1, 0, 1)),
        3 => Some((0, 1, 2, 1)),
        4 => Some((0, 1, 2, 3)),
        _ => None,
    }
}

fn part_name(prefix: &str, part: &str, suffix: &str) -> (r: String)
    ensures
        r@ == prefix@ + part@ + suffix@,
{
    let mut name = text::concat(prefix, part);
    text::push_text(&mut name, suffix);
    name
}

fn expand_edges(
    prefix: &str,
    parts: (&str, &str, &str, &str),
    suffix: &str,
    components: &Vec<CssValue>,
    output: &mut Vec<Declaration>,
)
    ensures
        declared(final(output)@) == declared(old(output)@) + edge_declarations(
            prefix@,
            (parts.0@, parts.1@, parts.2@, parts.3@),
            suffix@,
            value::models(components@),
        ),
{
    let ghost before = declared(output@);
    let ghost c = value::models(components@);
    match edge_values(components.len()) {
        Some((top, right, bottom, left)) => {
            emit(output, part_name(prefix, parts.0, suffix), components[top].clone(), false);
            emit(output, part_name(prefix, parts.1, suffix), components[right].clone(), false);
            emit(output, part_name(prefix, parts.2, suffix), components[bottom].clone(), false);
            emit(output, part_name(prefix, parts.3, suffix), components[left].clone(), false);
            proof {
                assert(c[top as int] == components@[top as int]@);
                assert(c[right as int] == components@[right as int]@);
                assert(c[bottom as int] == components@[bottom as int]@);
                assert(c[left as int] == components@[left as int]@);
                assert(declared(output@) =~= before + edge_declarations(
                    prefix@,
                    (parts.0@, parts.1@, parts.2@, parts.3@),
                    suffix@,
                    c,
                ));
            }
        },
        None => {
            assert(declared(output@) =~= before + seq![]);
        },
    }
}

// ---------------------------------------------------------------------------
// Borders and outlines
// ---------------------------------------------------------------------------
pub open spec fn is_border_style(keyword: Seq<char>) -> bool {
    ||| keyword == "none"@
    ||| keyword == "hidden"@
    ||| keyword == "solid"@
    ||| keyword == "dashed"@
    ||| keyword == "dotted"@
}

fn border_style(keyword: &String) -> (r: bool)
    ensures
        r == is_border_style(keyword@),
{
    let chars = text::chars_of(keyword.as_str());
    let s = chars.as_slice();
    text::is_word(s, "none") || text::is_word(s, "hidden") || text::is_word(s, "solid")
        || text::is_word(s, "dashed") || text::is_word(s, "dotted")
}

/// What a component says about a line.
#[derive(Clone, Copy, Debug, PartialEq, Eq, Structural)]
pub enum LinePart {
    Width,
    Style,
    Color,
    Nothing,
}

pub open spec fn line_part(v: ValueModel) -> LinePart {
    match v {
        ValueModel::Length(n, unit) => LinePart::Width,
        ValueModel::Number(n) => LinePart::Width,
        ValueModel::Color(c) => LinePart::Color,
        ValueModel::Keyword(k) => if is_border_style(k) {
            LinePart::Style
        } else {
            LinePart::Nothing
        },
        _ => LinePart::Nothing,
    }
}

fn classify_line(v: &CssValue) -> (r: LinePart)
    ensures
        r == line_part(v@),
{
    match v {
        CssValue::Length(..) => LinePart::Width,
        CssValue::Number(..) => LinePart::Width,
        CssValue::Color(..) => LinePart::Color,
        CssValue::Keyword(k) => if border_style(k) {
            LinePart::Style
        } else {
            LinePart::Nothing
        },
        _ => LinePart::Nothing,
    }
}

/// The last component that says `part` of a line, if one does.
pub open spec fn last_part(c: Seq<ValueModel>, part: LinePart) -> Option<ValueModel>
    decreases c.len(),
{
    if c.len() == 0 {
        None
    } else if line_part(c.last()) == part {
        Some(c.last())
    } else {
        last_part(c.drop_last(), part)
    }
}

pub open spec fn or_value(v: Option<ValueModel>, default: ValueModel) -> ValueModel {
    match v {
        Some(v) => v,
        None => default,
    }
}

/// Three pixels, the width of a line whose width is not stated.
pub open spec fn medium_width() -> ValueModel {
    ValueModel::Length(NumberModel { literal: "3"@, scale: Scale::One }, Unit::Px)
}

/// One border side: width, style and color in any order. The width falls back
/// to three pixels and the style to `none`; a missing color is left to the
/// element's own.
pub open spec fn border_side_declarations(side: Seq<char>, c: Seq<ValueModel>) -> Seq<
    DeclarationModel,
> {
    let base = seq![
        plain(
            "border-"@ + side + "-width"@,
            or_value(last_part(c, LinePart::Width), medium_width()),
        ),
        plain(
            "border-"@ + side + "-style"@,
            or_value(last_part(c, LinePart::Style), ValueModel::Keyword("none"@)),
        ),
    ];
    match last_part(c, LinePart::Color) {
        Some(color) => base.push(plain("border-"@ + side + "-color"@, color)),
        None => base,
    }
}

/// The last component that says `part` of a line, if one does.
fn find_last_part(components: &Vec<CssValue>, part: LinePart) -> (r: Option<CssValue>)
    ensures
        value::opt_model(r) == last_part(value::models(components@), part),
{
    let ghost c = value::models(components@);
    let mut i: usize = components.len();
    assert(c.take(i as int) =~= c);
    while i > 0
        invariant
            i <= components@.len(),
            c == value::models(components@),
            last_part(c.take(i as int), part) == last_part(c, part),
        decreases i,
    {
        assert(c.take(i as int).last() == components@[i - 1]@);
        assert(c.take(i as int).drop_last() =~= c.take(i - 1));
        if classify_line(&components[i - 1]) == part {
            return Some(components[i - 1].clone());
        }
        i = i - 1;
    }
    None
}

fn expand_border_side(side: &str, components: &Vec<CssValue>, output: &mut Vec<Declaration>)
    ensures
        declared(final(output)@) == declared(old(output)@) + border_side_declarations(
            side@,
            value::models(components@),
        ),
{
    let ghost before = declared(output@);
    let width = match find_last_part(components, LinePart::Width) {
        Some(v) => v,
        None => CssValue::Length(Number::new("3"), Unit::Px),
    };
    let style = match find_last_part(components, LinePart::Style) {
        Some(v) => v,
        None => CssValue::Keyword("none".to_owned()),
    };
    emit(output, part_name("border-", side, "-width"), width, false);
    emit(output, part_name("border-", side, "-style"), style, false);
    if let Some(color) = find_last_part(components, LinePart::Color) {
        emit(output, part_name("border-", side, "-color"), color, false);
    }
    assert(declared(output@) =~= before + border_side_declarations(
        side@,
        value::models(components@),
    ));
}

/// `outline`: each component that says something about the line, in order.
pub open spec fn outline_declarations(c: Seq<ValueModel>) -> Seq<DeclarationModel>
    decreases c.len(),
{
    if c.len() == 0 {
        seq![]
    } else {
        let rest = outline_declarations(c.drop_last());
        match line_part(c.last()) {
            LinePart::Width => rest.push(plain("outline-width"@, c.last())),
            LinePart::Color => rest.push(plain("outline-color"@, c.last())),
            LinePart::Style => rest.push(plain("outline-style"@, c.last())),
            LinePart::Nothing => rest,
        }
    }
}

fn expand_outline(components: &Vec<CssValue>, output: &mut Vec<Declaration>)
    ensures
        declared(final(output)@) == declared(old(output)@) + outline_declarations(
            value::models(components@),
        ),
{
    let ghost before = declared(output@);
    let ghost c = value::models(components@);
    let mut i: usize = 0;
    assert(before + outline_declarations(c.take(0)) =~= before);
    while i < components.len()
        invariant
            i <= components@.len(),
            c == value::models(components@),
            declared(output@) == before + outline_declarations(c.take(i as int)),
        decreases components@.len() - i,
    {
        let component = &components[i];
        match classify_line(component) {
            LinePart::Width => emit(output, "outline-width".to_owned(), component.clone(), false),
            LinePart::Color => emit(output, "outline-color".to_owned(), component.clone(), false),
            LinePart::Style => emit(output, "outline-style".to_owned(), component.clone(), false),
            LinePart::Nothing => {},
        }
        i = i + 1;
        proof {
            let t = c.take(i as int);
            assert(t.drop_last() =~= c.take(i - 1));
            assert(t.last() == components@[i - 1]@);
            assert(declared(output@) =~= before + outline_declarations(t));
        }
    }
    assert(c.take(components@.len() as int) =~= c);
}

// ---------------------------------------------------------------------------
// Logical properties (left to right: inline is left/right, block is
// top/bottom)
// ---------------------------------------------------------------------------
/// The physical longhand that a logical longhand stands for.
pub open spec fn physical(name: Seq<char>) -> Option<Seq<char>> {
    if name == "margin-inline-start"@ {
        Some("margin-left"@)
    } else if name == "margin-inline-end"@ {
        Some("margin-right"@)
    } else if name == "margin-block-start"@ {
        Some("margin-top"@)
    } else if name == "margin-block-end"@ {
        Some("margin-bottom"@)
    } else if name == "padding-inline-start"@ {
        Some("padding-left"@)
    } else if name == "padding-inline-end"@ {
        Some("padding-right"@)
    } else if name == "padding-block-start"@ {
        Some("padding-top"@)
    } else if name == "padding-block-end"@ {
        Some("padding-bottom"@)
    } else if name == "inline-size"@ {
        Some("width"@)
    } else if name == "block-size"@ {
        Some("height"@)
    } else if name == "border-inline-start-width"@ {
        Some("border-left-width"@)
    } else if name == "border-inline-start-style"@ {
        Some("border-left-style"@)
    } else if name == "border-inline-start-color"@ {
        Some("border-left-color"@)
    } else if name == "border-inline-end-width"@ {
        Some("border-right-width"@)
    } else if name == "border-inline-end-style"@ {
        Some("border-right-style"@)
    } else if name == "border-inline-end-color"@ {
        Some("border-right-color"@)
    } else if name == "border-block-start-width"@ {
        Some("border-top-width"@)
    } else if name == "border-block-start-style"@ {
        Some("border-top-style"@)
    } else if name == "border-block-start-color"@ {
        Some("border-top-color"@)
    } else if name == "border-block-end-width"@ {
        Some("border-bottom-width"@)
    } else if name == "border-block-end-style"@ {
        Some("border-bottom-style"@)
    } else if name == "border-block-end-color"@ {
        Some("border-bottom-color"@)
    } else if name == "inset-inline-start"@ {
        Some("left"@)
    } else if name == "inset-inline-end"@ {
        Some("right"@)
    } else if name == "inset-block-start"@ {
        Some("top"@)
    } else if name == "inset-block-end"@ {
        Some("bottom"@)
    } else {
        None
    }
}

fn physical_name(name: &[char]) -> (r: Option<&'static str>)
    ensures
        match r {
            Some(p) => physical(name@) == Some(p@),
            None => physical(name@) is None,
        },
{
    if text::is_word(name, "margin-inline-start") {
        Some("margin-left")
    } else if text::is_word(name, "margin-inline-end") {
        Some("margin-right")
    } else if text::is_word(name, "margin-block-start") {
        Some("margin-top")
    } else if text::is_word(name, "margin-block-end") {
        Some("margin-bottom")
    } else if text::is_word(name, "padding-inline-start") {
        Some("padding-left")
    } else if text::is_word(name, "padding-inline-end") {
        Some("padding-right")
    } else if text::is_word(name, "padding-block-start") {
        Some("padding-top")
    } else if text::is_word(name, "padding-block-end") {
        Some("padding-bottom")
    } else if text::is_word(name, "inline-size") {
        Some("width")
    } else if text::is_word(name, "block-size") {
        Some("height")
    } else if text::is_word(name, "border-inline-start-width") {
        Some("border-left-width")
    } else if text::is_word(name, "border-inline-start-style") {
        Some("border-left-style")
    } else if text::is_word(name, "border-inline-start-color") {
        Some("border-left-color")
    } else if text::is_word(name, "border-inline-end-width") {
        Some("border-right-width")
    } else if text::is_word(name, "border-inline-end-style") {
        Some("border-right-style")
    } else if text::is_word(name, "border-inline-end-color") {
        Some("border-right-color")
    } else if text::is_word(name, "border-block-start-width") {
        Some("border-top-width")
    } else if text::is_word(name, "border-block-start-style") {
        Some("border-top-style")
    } else if text::is_word(name, "border-block-start-color") {
        Some("border-top-color")
    } else if text::is_word(name, "border-block-end-width") {
        Some("border-bottom-width")
    } else if text::is_word(name, "border-block-end-style") {
        Some("border-bottom-style")
    } else if text::is_word(name, "border-block-end-color") {
        Some("border-bottom-color")
    } else if text::is_word(name, "inset-inline-start") {
        Some("left")
    } else if text::is_word(name, "inset-inline-end") {
        Some("right")
    } else if text::is_word(name, "inset-block-start") {
        Some("top")
    } else if text::is_word(name, "inset-block-end") {
        Some("bottom")
    } else {
        None
    }
}

/// The two longhands of an axis.
pub open spec fn axis(name: Seq<char>) -> Option<(Seq<char>, Seq<char>)> {
    if name == "margin-inline"@ {
        Some(("margin-left"@, "margin-right"@))
    } else if name == "margin-block"@ {
        Some(("margin-top"@, "margin-bottom"@))
    } else if name == "padding-inline"@ {
        Some(("padding-left"@, "padding-right"@))
    } else if name == "padding-block"@ {
        Some(("padding-top"@, "padding-bottom"@))
    } else if name == "border-inline-width"@ {
        Some(("border-left-width"@, "border-right-width"@))
    } else if name == "border-inline-style"@ {
        Some(("border-left-style"@, "border-right-style"@))
    } else if name == "border-inline-color"@ {
        Some(("border-left-color"@, "border-right-color"@))
    } else if name == "border-block-width"@ {
        Some(("border-top-width"@, "border-bottom-width"@))
    } else if name == "border-block-style"@ {
        Some(("border-top-style"@, "border-bottom-style"@))
    } else if name == "border-block-color"@ {
        Some(("border-top-color"@, "border-bottom-color"@))
    } else if name == "inset-inline"@ {
        Some(("left"@, "right"@))
    } else if name == "inset-block"@ {
        Some(("top"@, "bottom"@))
    } else {
        None
    }
}

fn axis_names(name: &[char]) -> (r: Option<(&'static str, &'static str)>)
    ensures
        match r {
            Some((a, b)) => axis(name@) == Some((a@, b@)),
            None => axis(name@) is None,
        },
{
    if text::is_word(name, "margin-inline") {
        Some(("margin-left", "margin-right"))
    } else if text::is_word(name, "margin-block") {
        Some(("margin-top", "margin-bottom"))
    } else if text::is_word(name, "padding-inline") {
        Some(("padding-left", "padding-right"))
    } else if text::is_word(name, "padding-block") {
        Some(("padding-top", "padding-bottom"))
    } else if text::is_word(name, "border-inline-width") {
        Some(("border-left-width", "border-right-width"))
    } else if text::is_word(name, "border-inline-style") {
        Some(("border-left-style", "border-right-style"))
    } else if text::is_word(name, "border-inline-color") {
        Some(("border-left-color", "border-right-color"))
    } else if text::is_word(name, "border-block-width") {
        Some(("border-top-width", "border-bottom-width"))
    } else if text::is_word(name, "border-block-style") {
        Some(("border-top-style", "border-bottom-style"))
    } else if text::is_word(name, "border-block-color") {
        Some(("border-top-color", "border-bottom-color"))
    } else if text::is_word(name, "inset-inline") {
        Some(("left", "right"))
    } else if text::is_word(name, "inset-block") {
        Some(("top", "bottom"))
    } else {
        None
    }
}

/// The border sides that a name sets.
pub open spec fn border_sides(name: Seq<char>) -> Seq<Seq<char>> {
    if name == "border"@ {
        seq!["top"@, "right"@, "bottom"@, "left"@]
    } else if name == "border-inline"@ {
        seq!["left"@, "right"@]
    } else if name == "border-block"@ {
        seq!["top"@, "bottom"@]
    } else if name == "border-inline-start"@ || name == "border-left"@ {
        seq!["left"@]
    } else if name == "border-inline-end"@ || name == "border-right"@ {
        seq!["right"@]
    } else if name == "border-block-start"@ || name == "border-top"@ {
        seq!["top"@]
    } else if name == "border-block-end"@ || name == "border-bottom"@ {
        seq!["bottom"@]
    } else {
        seq![]
    }
}

fn border_side_names(name: &[char]) -> (r: Vec<&'static str>)
    ensures
        crate::css::properties::str_views(r@) == border_sides(name@),
{
    let r: Vec<&'static str> = if text::is_word(name, "border") {
        vec!["top", "right", "bottom", "left"]
    } else if text::is_word(name, "border-inline") {
        vec!["left", "right"]
    } else if text::is_word(name, "border-block") {
        vec!["top", "bottom"]
    } else if text::is_word(name, "border-inline-start") || text::is_word(name, "border-left") {
        vec!["left"]
    } else if text::is_word(name, "border-inline-end") || text::is_word(name, "border-right") {
        vec!["right"]
    } else if text::is_word(name, "border-block-start") || text::is_word(name, "border-top") {
        vec!["top"]
    } else if text::is_word(name, "border-block-end") || text::is_word(name, "border-bottom") {
        vec!["bottom"]
    } else {
        Vec::new()
    };
    assert(crate::css::properties::str_views(r@) =~= border_sides(name@));
    r
}

/// The declarations of the first `n` of some border sides.
pub open spec fn sides_declarations(sides: Seq<Seq<char>>, n: int, c: Seq<ValueModel>) -> Seq<
    DeclarationModel,
>
    decreases n,
{
    if n <= 0 {
        seq![]
    } else {
        sides_declarations(sides, n - 1, c) + border_side_declarations(sides[n - 1], c)
    }
}

// ---------------------------------------------------------------------------
// Flex
// ---------------------------------------------------------------------------
pub open spec fn whole(literal: Seq<char>) -> NumberModel {
    NumberModel { literal, scale: Scale::One }
}

/// A value as a flex factor: a number, or a zero length (a bare `0`).
pub open spec fn flex_factor(v: ValueModel) -> Option<NumberModel> {
    match v {
        ValueModel::Number(n) => Some(n),
        ValueModel::Length(n, unit) => if number::zero(n.literal, n.scale) {
            Some(whole("0"@))
        } else {
            None
        },
        _ => None,
    }
}

/// The basis at place `at`: a component there that is no factor.
pub open spec fn flex_basis(c: Seq<ValueModel>, at: int) -> Option<ValueModel> {
    if at < c.len() && flex_factor(c[at]) is None {
        Some(c[at])
    } else {
        None
    }
}

/// Grow, shrink and basis of a `flex` shorthand: `none`, `auto`, `initial`,
/// or a number with an optional second factor and an optional basis.
pub open spec fn flex_parts(c: Seq<ValueModel>) -> Option<
    (NumberModel, NumberModel, Option<ValueModel>),
> {
    match c[0] {
        ValueModel::Keyword(k) => if k == "none"@ {
            Some((whole("0"@), whole("0"@), None))
        } else if k == "auto"@ {
            Some((whole("1"@), whole("1"@), None))
        } else if k == "initial"@ {
            Some((whole("0"@), whole("1"@), None))
        } else {
            None
        },
        ValueModel::Number(grow) => if c.len() > 1 && flex_factor(c[1]) is Some {
            Some((grow, flex_factor(c[1])->0, flex_basis(c, 2)))
        } else {
            Some((grow, whole("1"@), flex_basis(c, 1)))
        },
        _ => None,
    }
}

pub open spec fn flex_declarations(c: Seq<ValueModel>) -> Seq<DeclarationModel> {
    match flex_parts(c) {
        Some((grow, shrink, basis)) => {
            let base = seq![
                plain("flex-grow"@, ValueModel::Number(grow)),
                plain("flex-shrink"@, ValueModel::Number(shrink)),
            ];
            match basis {
                Some(v) => base.push(plain("flex-basis"@, v)),
                None => base,
            }
        },
        None => seq![],
    }
}

fn read_factor(v: &CssValue) -> (r: Option<Number>)
    ensures
        match r {
            Some(n) => flex_factor(v@) == Some(n@),
            None => flex_factor(v@) is None,
        },
{
    match v {
        CssValue::Number(n) => Some(n.clone()),
        CssValue::Length(n, _) => if n.is_zero() {
            Some(Number::new("0"))
        } else {
            None
        },
        _ => None,
    }
}

fn read_basis(components: &Vec<CssValue>, at: usize) -> (r: Option<CssValue>)
    ensures
        value::opt_model(r) == flex_basis(value::models(components@), at as int),
{
    if at < components.len() {
        assert(value::models(components@)[at as int] == components@[at as int]@);
        if read_factor(&components[at]).is_none() {
            return Some(components[at].clone());
        }
    }
    None
}

fn expand_flex(components: &Vec<CssValue>, output: &mut Vec<Declaration>)
    requires
        components@.len() > 0,
    ensures
        declared(final(output)@) == declared(old(output)@) + flex_declarations(
            value::models(components@),
        ),
{
    let ghost before = declared(output@);
    let ghost c = value::models(components@);
    assert(c[0] == components@[0]@);
    assert(before + Seq::<DeclarationModel>::empty() =~= before);
    let (grow, shrink, basis): (Number, Number, Option<CssValue>) = match &components[0] {
        CssValue::Keyword(k) => {
            if text::same_str(k.as_str(), "none") {
                (Number::new("0"), Number::new("0"), None)
            } else if text::same_str(k.as_str(), "auto") {
                (Number::new("1"), Number::new("1"), None)
            } else if text::same_str(k.as_str(), "initial") {
                (Number::new("0"), Number::new("1"), None)
            } else {
                return;
            }
        },
        CssValue::Number(grow) => {
            let second = if components.len() > 1 {
                assert(c[1] == components@[1]@);
                read_factor(&components[1])
            } else {
                None
            };
            match second {
                Some(shrink) => (grow.clone(), shrink, read_basis(components, 2)),
                None => (grow.clone(), Number::new("1"), read_basis(components, 1)),
            }
        },
        _ => {
            return;
        },
    };
    emit(output, "flex-grow".to_owned(), CssValue::Number(grow), false);
    emit(output, "flex-shrink".to_owned(), CssValue::Number(shrink), false);
    if let Some(value) = basis {
        emit(output, "flex-basis".to_owned(), value, false);
    }
    assert(declared(output@) =~= before + flex_declarations(c));
}

// ---------------------------------------------------------------------------
// All properties
// ---------------------------------------------------------------------------
/// The names whose components stay together.
pub open spec fn stays_joined(name: Seq<char>) -> bool {
    ||| name == "text-decoration"@
    ||| name == "background-position"@
    ||| name == "background-size"@
    ||| name == "overflow"@
    ||| name == "object-position"@
}

/// The longhands that `name` with the components `c` stands for. A bare
/// `background` is a color; a name that is no shorthand keeps its first
/// component.
pub open spec fn expansion(name: Seq<char>, c: Seq<ValueModel>) -> Seq<DeclarationModel> {
    if name == "margin"@ || name == "padding"@ {
        edge_declarations(name + "-"@, sides(), ""@, c)
    } else if name == "inset"@ {
        edge_declarations(""@, sides(), ""@, c)
    } else if name == "border-width"@ {
        edge_declarations("border-"@, sides(), "-width"@, c)
    } else if name == "border-style"@ {
        edge_declarations("border-"@, sides(), "-style"@, c)
    } else if name == "border-color"@ {
        edge_declarations("border-"@, sides(), "-color"@, c)
    } else if name == "border-radius"@ {
        edge_declarations("border-"@, corners(), "-radius"@, c)
    } else if axis(name) is Some {
        let (start, end) = axis(name)->0;
        seq![
            plain(start, c[0]),
            plain(
                end,
                if c.len() > 1 {
                    c[1]
                } else {
                    c[0]
                },
            ),
        ]
    } else if physical(name) is Some {
        seq![plain(physical(name)->0, c[0])]
    } else if border_sides(name).len() > 0 {
        sides_declarations(border_sides(name), border_sides(name).len() as int, c)
    } else if name == "outline"@ {
        outline_declarations(c)
    } else if stays_joined(name) {
        seq![plain(name, value::joined_model(c))]
    } else if name == "flex"@ {
        flex_declarations(c)
    } else if name == "background"@ {
        seq![plain("background-color"@, c[0])]
    } else {
        seq![plain(name, c[0])]
    }
}

/// Expands shorthands into longhands and `background` to `background-color`;
/// every other property keeps its first component (multi-value forms of other
/// properties are unsupported).
pub fn expand_declaration(
    name: &str,
    components: &Vec<CssValue>,
    output: &mut Vec<Declaration>,
)
    requires
        components@.len() > 0,
    ensures
        declared(final(output)@) == declared(old(output)@) + expansion(
            name@,
            value::models(components@),
        ),
{
    let ghost before = declared(output@);
    let ghost c = value::models(components@);
    assert(c[0] == components@[0]@);
    let chars = text::chars_of(name);
    let n = chars.as_slice();
    let box_sides = ("top", "right", "bottom", "left");
    if text::is_word(n, "margin") || text::is_word(n, "padding") {
        let prefix = text::concat(name, "-");
        expand_edges(prefix.as_str(), box_sides, "", components, output);
        return;
    }
    if text::is_word(n, "inset") {
        expand_edges("", box_sides, "", components, output);
        return;
    }
    if text::is_word(n, "border-width") {
        expand_edges("border-", box_sides, "-width", components, output);
        return;
    }
    if text::is_word(n, "border-style") {
        expand_edges("border-", box_sides, "-style", components, output);
        return;
    }
    if text::is_word(n, "border-color") {
        expand_edges("border-", box_sides, "-color", components, output);
        return;
    }
    if text::is_word(n, "border-radius") {
        let box_corners = ("top-left", "top-right", "bottom-right", "bottom-left");
        expand_edges("border-", box_corners, "-radius", components, output);
        return;
    }
    if let Some((start, end)) = axis_names(n) {
        emit(output, start.to_owned(), components[0].clone(), false);
        if components.len() > 1 {
            assert(c[1] == components@[1]@);
            emit(output, end.to_owned(), components[1].clone(), false);
        } else {
            emit(output, end.to_owned(), components[0].clone(), false);
        }
        assert(declared(output@) =~= before + expansion(name@, c));
        return;
    }
    if let Some(longhand) = physical_name(n) {
        emit(output, longhand.to_owned(), components[0].clone(), false);
        assert(declared(output@) =~= before + expansion(name@, c));
        return;
    }
    let line_sides = border_side_names(n);
    if line_sides.len() > 0 {
        let ghost sv = border_sides(name@);
        let mut i: usize = 0;
        assert(before + sides_declarations(sv, 0, c) =~= before);
        while i < line_sides.len()
            invariant
                i <= line_sides@.len(),
                sv == crate::css::properties::str_views(line_sides@),
                c == value::models(components@),
                declared(output@) == before + sides_declarations(sv, i as int, c),
            decreases line_sides@.len() - i,
        {
            expand_border_side(line_sides[i], components, output);
            i = i + 1;
            proof {
                assert(sv[i - 1] == line_sides@[i - 1]@);
                assert(declared(output@) =~= before + sides_declarations(sv, i as int, c));
            }
        }
        return;
    }
    if text::is_word(n, "outline") {
        expand_outline(components, output);
        return;
    }
    if text::is_word(n, "text-decoration") || text::is_word(n, "background-position")
        || text::is_word(n, "background-size") || text::is_word(n, "overflow") || text::is_word(
        n,
        "object-position",
    ) {
        emit(output, name.to_owned(), value::join_values(components), false);
        assert(declared(output@) =~= before + expansion(name@, c));
        return;
    }
    if text::is_word(n, "flex") {
        expand_flex(components, output);
        return;
    }
    if text::is_word(n, "background") {
        emit(output, "background-color".to_owned(), components[0].clone(), false);
        assert(declared(output@) =~= before + expansion(name@, c));
        return;
    }
    emit(output, name.to_owned(), components[0].clone(), false);
    assert(declared(output@) =~= before + expansion(name@, c));
}

// ---------------------------------------------------------------------------
// Laws
// ---------------------------------------------------------------------------
/// Four places of a box never disagree about where their values come from: one
/// value is on every side, two are on opposite sides, and the left side of
/// three is the right one's.
pub proof fn law_missing_edges_mirror_their_opposite(
    prefix: Seq<char>,
    parts: (Seq<char>, Seq<char>, Seq<char>, Seq<char>),
    suffix: Seq<char>,
    c: Seq<ValueModel>,
)
    requires
        1 <= c.len() <= 4,
    ensures
        ({
            let d = edge_declarations(prefix, parts, suffix, c);
            &&& d.len() == 4
            &&& d[0].value == c[0]
            &&& c.len() == 1 ==> d[1].value == d[0].value
            &&& c.len() <= 2 ==> d[2].value == d[0].value
            &&& c.len() <= 3 ==> d[3].value == d[1].value
        }),
{
}

proof fn lemma_outline_is_plain(c: Seq<ValueModel>)
    ensures
        forall|i: int|
            0 <= i < outline_declarations(c).len() ==> !(#[trigger] outline_declarations(
                c,
            )[i]).important,
    decreases c.len(),
{
    if c.len() > 0 {
        lemma_outline_is_plain(c.drop_last());
    }
}

proof fn lemma_sides_are_plain(sides: Seq<Seq<char>>, n: int, c: Seq<ValueModel>)
    ensures
        forall|i: int|
            0 <= i < sides_declarations(sides, n, c).len() ==> !(#[trigger] sides_declarations(
                sides,
                n,
                c,
            )[i]).important,
    decreases n,
{
    if n > 0 {
        lemma_sides_are_plain(sides, n - 1, c);
        let side = border_side_declarations(sides[n - 1], c);
        assert forall|i: int| 0 <= i < side.len() implies !(#[trigger] side[i]).important by {}
    }
}

/// An expansion says nothing about importance: none of its longhands is
/// important by itself.
pub proof fn law_expansions_are_plain(name: Seq<char>, c: Seq<ValueModel>, i: int)
    requires
        0 <= i < expansion(name, c).len(),
    ensures
        !expansion(name, c)[i].important,
{
    lemma_outline_is_plain(c);
    lemma_sides_are_plain(border_sides(name), border_sides(name).len() as int, c);
}

} // verus!
