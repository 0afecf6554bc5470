//! The property registry: one row per CSS property that needs special
//! cascade or parse treatment. This is the single source of truth shared
//! by the parser (which values skip component parsing) and the cascade
//! (which properties inherit): adding a property means adding one row here
//! plus its apply logic, nothing to keep in sync.
//!
//! Properties without a row default to: not inherited, component-parsed.
use crate::text;
use vstd::prelude::*;

verus! {

/// Cascade/parse flags for one property.
#[derive(Debug, Clone, Copy, PartialEq, Eq)]
pub struct PropertyMeta {
    pub name: &'static str,
    /// Inherits from the parent element per CSS.
    pub inherited: bool,
    /// Kept as raw text at parse time (component parsing would mangle
    /// the value: slashes, commas, function lists).
    pub keep_raw: bool,
}

/// How many properties have non-default flags.
pub const PROPERTY_COUNT: usize = 47;

/// The properties with non-default flags: the name, whether it inherits,
/// whether it keeps its raw text.
pub open spec fn property_row(i: int) -> (Seq<char>, bool, bool) {
    if i == 0 {
        ("color"@, true, false)
    } else if i == 1 {
        ("font-family"@, true, false)
    } else if i == 2 {
        ("font-size"@, true, false)
    } else if i == 3 {
        ("font-style"@, true, false)
    } else if i == 4 {
        ("font-weight"@, true, false)
    } else if i == 5 {
        ("letter-spacing"@, true, false)
    } else if i == 6 {
        ("list-style"@, true, false)
    } else if i == 7 {
        ("list-style-type"@, true, false)
    } else if i == 8 {
        ("line-height"@, true, false)
    } else if i == 9 {
        ("text-align"@, true, false)
    } else if i == 10 {
        ("text-decoration"@, true, false)
    } else if i == 11 {
        ("text-decoration-color"@, true, false)
    } else if i == 12 {
        ("text-decoration-style"@, true, false)
    } else if i == 13 {
        ("text-indent"@, true, false)
    } else if i == 14 {
        ("text-transform"@, true, false)
    } else if i == 15 {
        ("user-select"@, true, false)
    } else if i == 16 {
        ("visibility"@, true, false)
    } else if i == 17 {
        ("white-space"@, true, false)
    } else if i == 18 {
        ("word-break"@, true, false)
    } else if i == 19 {
        ("word-spacing"@, true, false)
    } else if i == 20 {
        ("word-wrap"@, true, false)
    } else if i == 21 {
        ("overflow-wrap"@, true, false)
    } else if i == 22 {
        ("tab-size"@, true, false)
    } else if i == 23 {
        ("caret-color"@, true, false)
    } else if i == 24 {
        ("accent-color"@, true, false)
    } else if i == 25 {
        ("::selection-background"@, true, false)
    } else if i == 26 {
        ("::selection-color"@, true, false)
    } else if i == 27 {
        ("text-shadow"@, true, true)
    } else if i == 28 {
        ("animation"@, false, true)
    } else if i == 29 {
        ("aspect-ratio"@, false, true)
    } else if i == 30 {
        ("box-shadow"@, false, true)
    } else if i == 31 {
        ("background-image"@, false, true)
    } else if i == 32 {
        ("background-position"@, false, true)
    } else if i == 33 {
        ("background-size"@, false, true)
    } else if i == 34 {
        ("background-repeat"@, false, true)
    } else if i == 35 {
        ("grid-template-columns"@, false, true)
    } else if i == 36 {
        ("grid-template-rows"@, false, true)
    } else if i == 37 {
        ("grid-column"@, false, true)
    } else if i == 38 {
        ("grid-row"@, false, true)
    } else if i == 39 {
        ("transform"@, false, true)
    } else if i == 40 {
        ("transform-origin"@, false, true)
    } else if i == 41 {
        ("transition"@, false, true)
    } else if i == 42 {
        ("filter"@, false, true)
    } else if i == 43 {
        ("rotate"@, false, true)
    } else if i == 44 {
        ("scale"@, false, true)
    } else if i == 45 {
        ("translate"@, false, true)
    } else if i == 46 {
        ("border-spacing"@, true, true)
    } else {
        (""@, false, false)
    }
}

fn row(name: &'static str, inherited: bool, keep_raw: bool) -> (r: PropertyMeta)
    ensures
        r == (PropertyMeta { name, inherited, keep_raw }),
{
    PropertyMeta { name, inherited, keep_raw }
}

/// The property with non-default flags at place `i`.
pub fn property(i: usize) -> (r: PropertyMeta)
    requires
        i < PROPERTY_COUNT,
    ensures
        (r.name@, r.inherited, r.keep_raw) == property_row(i as int),
{
    match i {
        0 => row("color", true, false),
        1 => row("font-family", true, false),
        2 => row("font-size", true, false),
        3 => row("font-style", true, false),
        4 => row("font-weight", true, false),
        5 => row("letter-spacing", true, false),
        6 => row("list-style", true, false),
        7 => row("list-style-type", true, false),
        8 => row("line-height", true, false),
        9 => row("text-align", true, false),
        10 => row("text-decoration", true, false),
        11 => row("text-decoration-color", true, false),
        12 => row("text-decoration-style", true, false),
        13 => row("text-indent", true, false),
        14 => row("text-transform", true, false),
        15 => row("user-select", true, false),
        16 => row("visibility", true, false),
        17 => row("white-space", true, false),
        18 => row("word-break", true, false),
        19 => row("word-spacing", true, false),
        20 => row("word-wrap", true, false),
        21 => row("overflow-wrap", true, false),
        22 => row("tab-size", true, false),
        23 => row("caret-color", true, false),
        24 => row("accent-color", true, false),
        25 => row("::selection-background", true, false),
        26 => row("::selection-color", true, false),
        27 => row("text-shadow", true, true),
        28 => row("animation", false, true),
        29 => row("aspect-ratio", false, true),
        30 => row("box-shadow", false, true),
        31 => row("background-image", false, true),
        32 => row("background-position", false, true),
        33 => row("background-size", false, true),
        34 => row("background-repeat", false, true),
        35 => row("grid-template-columns", false, true),
        36 => row("grid-template-rows", false, true),
        37 => row("grid-column", false, true),
        38 => row("grid-row", false, true),
        39 => row("transform", false, true),
        40 => row("transform-origin", false, true),
        41 => row("transition", false, true),
        42 => row("filter", false, true),
        43 => row("rotate", false, true),
        44 => row("scale", false, true),
        45 => row("translate", false, true),
        46 => row("border-spacing", true, true),
        _ => row("", false, false),
    }
}

/// Whether a row says that `name` inherits.
pub open spec fn inherits(name: Seq<char>) -> bool {
    exists|i: int|
        0 <= i < PROPERTY_COUNT && (#[trigger] property_row(i)).1 && property_row(i).0 == name
}

/// Whether a row says that `name` keeps its raw text.
pub open spec fn raw_kept(name: Seq<char>) -> bool {
    exists|i: int|
        0 <= i < PROPERTY_COUNT && (#[trigger] property_row(i)).2 && property_row(i).0 == name
}

/// Whether `name` inherits from the parent element.
pub fn is_inherited(name: &str) -> (r: bool)
    ensures
        r == inherits(name@),
{
    let chars = text::chars_of(name);
    let mut i: usize = 0;
    while i < PROPERTY_COUNT
        invariant
            i <= PROPERTY_COUNT,
            chars@ == name@,
            forall|j: int|
                0 <= j < i ==> !((#[trigger] property_row(j)).1 && property_row(j).0 == name@),
        decreases PROPERTY_COUNT - i,
    {
        let meta = property(i);
        if meta.inherited && text::is_word(chars.as_slice(), meta.name) {
            assert(property_row(i as int).1 && property_row(i as int).0 == name@);
            return true;
        }
        i = i + 1;
    }
    false
}

/// Whether `name`'s value skips component parsing.
pub fn keeps_raw(name: &str) -> (r: bool)
    ensures
        r == raw_kept(name@),
{
    let chars = text::chars_of(name);
    let mut i: usize = 0;
    while i < PROPERTY_COUNT
        invariant
            i <= PROPERTY_COUNT,
            chars@ == name@,
            forall|j: int|
                0 <= j < i ==> !((#[trigger] property_row(j)).2 && property_row(j).0 == name@),
        decreases PROPERTY_COUNT - i,
    {
        let meta = property(i);
        if meta.keep_raw && text::is_word(chars.as_slice(), meta.name) {
            assert(property_row(i as int).2 && property_row(i as int).0 == name@);
            return true;
        }
        i = i + 1;
    }
    false
}

/// The inherited properties among the first `n` rows, in order.
pub open spec fn inherited_names(n: int) -> Seq<Seq<char>>
    decreases n,
{
    if n <= 0 {
        seq![]
    } else if property_row(n - 1).1 {
        inherited_names(n - 1).push(property_row(n - 1).0)
    } else {
        inherited_names(n - 1)
    }
}

pub open spec fn str_views(parts: Seq<&'static str>) -> Seq<Seq<char>> {
    Seq::new(parts.len(), |i: int| parts[i]@)
}

/// The names of all inherited properties.
pub fn inherited() -> (r: Vec<&'static str>)
    ensures
        str_views(r@) == inherited_names(PROPERTY_COUNT as int),
{
    let mut names: Vec<&'static str> = Vec::new();
    let mut i: usize = 0;
    assert(str_views(names@) =~= inherited_names(0));
    while i < PROPERTY_COUNT
        invariant
            i <= PROPERTY_COUNT,
            str_views(names@) == inherited_names(i as int),
        decreases PROPERTY_COUNT - i,
    {
        let meta = property(i);
        let ghost before = names@;
        if meta.inherited {
            names.push(meta.name);
            assert(str_views(names@) =~= str_views(before).push(meta.name@));
        }
        i = i + 1;
    }
    names
}

/// Properties the engine reads by name.
pub open spec fn is_listed(name: Seq<char>) -> bool {
    ||| name == "accent-color"@
    ||| name == "align-content"@
    ||| name == "align-items"@
    ||| name == "align-self"@
    ||| name == "animation"@
    ||| name == "aspect-ratio"@
    ||| name == "background"@
    ||| name == "background-clip"@
    ||| name == "background-color"@
    ||| name == "background-image"@
    ||| name == "background-origin"@
    ||| name == "background-position"@
    ||| name == "background-repeat"@
    ||| name == "background-size"@
    ||| name == "border"@
    ||| name == "border-collapse"@
    ||| name == "border-radius"@
    ||| name == "border-spacing"@
    ||| name == "bottom"@
    ||| name == "box-shadow"@
    ||| name == "box-sizing"@
    ||| name == "caret-color"@
    ||| name == "clear"@
    ||| name == "color"@
    ||| name == "content"@
    ||| name == "cursor"@
    ||| name == "display"@
    ||| name == "filter"@
    ||| name == "flex"@
    ||| name == "flex-basis"@
    ||| name == "flex-direction"@
    ||| name == "flex-grow"@
    ||| name == "flex-shrink"@
    ||| name == "flex-wrap"@
    ||| name == "float"@
    ||| name == "font"@
    ||| name == "font-family"@
    ||| name == "font-size"@
    ||| name == "font-style"@
    ||| name == "font-weight"@
    ||| name == "gap"@
    ||| name == "grid-column"@
    ||| name == "grid-row"@
    ||| name == "grid-template-columns"@
    ||| name == "grid-template-rows"@
    ||| name == "height"@
    ||| name == "inset"@
    ||| name == "justify-content"@
    ||| name == "left"@
    ||| name == "letter-spacing"@
    ||| name == "line-height"@
    ||| name == "list-style"@
    ||| name == "list-style-type"@
    ||| name == "margin"@
    ||| name == "max-height"@
    ||| name == "max-width"@
    ||| name == "min-height"@
    ||| name == "min-width"@
    ||| name == "object-fit"@
    ||| name == "object-position"@
    ||| name == "opacity"@
    ||| name == "order"@
    ||| name == "outline"@
    ||| name == "outline-color"@
    ||| name == "outline-offset"@
    ||| name == "outline-style"@
    ||| name == "outline-width"@
    ||| name == "overflow"@
    ||| name == "overflow-wrap"@
    ||| name == "overflow-x"@
    ||| name == "overflow-y"@
    ||| name == "padding"@
    ||| name == "pointer-events"@
    ||| name == "position"@
    ||| name == "right"@
    ||| name == "rotate"@
    ||| name == "scale"@
    ||| name == "tab-size"@
    ||| name == "text-align"@
    ||| name == "text-decoration"@
    ||| name == "text-decoration-color"@
    ||| name == "text-decoration-style"@
    ||| name == "text-indent"@
    ||| name == "text-overflow"@
    ||| name == "text-shadow"@
    ||| name == "text-transform"@
    ||| name == "top"@
    ||| name == "transform"@
    ||| name == "transform-origin"@
    ||| name == "transition"@
    ||| name == "translate"@
    ||| name == "user-select"@
    ||| name == "vertical-align"@
    ||| name == "visibility"@
    ||| name == "white-space"@
    ||| name == "width"@
    ||| name == "word-break"@
    ||| name == "word-spacing"@
    ||| name == "word-wrap"@
    ||| name == "z-index"@
}

fn listed(name: &[char]) -> (r: bool)
    ensures
        r == is_listed(name@),
{
    text::is_word(name, "accent-color")
        || text::is_word(name, "align-content")
        || text::is_word(name, "align-items")
        || text::is_word(name, "align-self")
        || text::is_word(name, "animation")
        || text::is_word(name, "aspect-ratio")
        || text::is_word(name, "background")
        || text::is_word(name, "background-clip")
        || text::is_word(name, "background-color")
        || text::is_word(name, "background-image")
        || text::is_word(name, "background-origin")
        || text::is_word(name, "background-position")
        || text::is_word(name, "background-repeat")
        || text::is_word(name, "background-size")
        || text::is_word(name, "border")
        || text::is_word(name, "border-collapse")
        || text::is_word(name, "border-radius")
        || text::is_word(name, "border-spacing")
        || text::is_word(name, "bottom")
        || text::is_word(name, "box-shadow")
        || text::is_word(name, "box-sizing")
        || text::is_word(name, "caret-color")
        || text::is_word(name, "clear")
        || text::is_word(name, "color")
        || text::is_word(name, "content")
        || text::is_word(name, "cursor")
        || text::is_word(name, "display")
        || text::is_word(name, "filter")
        || text::is_word(name, "flex")
        || text::is_word(name, "flex-basis")
        || text::is_word(name, "flex-direction")
        || text::is_word(name, "flex-grow")
        || text::is_word(name, "flex-shrink")
        || text::is_word(name, "flex-wrap")
        || text::is_word(name, "float")
        || text::is_word(name, "font")
        || text::is_word(name, "font-family")
        || text::is_word(name, "font-size")
        || text::is_word(name, "font-style")
        || text::is_word(name, "font-weight")
        || text::is_word(name, "gap")
        || text::is_word(name, "grid-column")
        || text::is_word(name, "grid-row")
        || text::is_word(name, "grid-template-columns")
        || text::is_word(name, "grid-template-rows")
        || text::is_word(name, "height")
        || text::is_word(name, "inset")
        || text::is_word(name, "justify-content")
        || text::is_word(name, "left")
        || text::is_word(name, "letter-spacing")
        || text::is_word(name, "line-height")
        || text::is_word(name, "list-style")
        || text::is_word(name, "list-style-type")
        || text::is_word(name, "margin")
        || text::is_word(name, "max-height")
        || text::is_word(name, "max-width")
        || text::is_word(name, "min-height")
        || text::is_word(name, "min-width")
        || text::is_word(name, "object-fit")
        || text::is_word(name, "object-position")
        || text::is_word(name, "opacity")
        || text::is_word(name, "order")
        || text::is_word(name, "outline")
        || text::is_word(name, "outline-color")
        || text::is_word(name, "outline-offset")
        || text::is_word(name, "outline-style")
        || text::is_word(name, "outline-width")
        || text::is_word(name, "overflow")
        || text::is_word(name, "overflow-wrap")
        || text::is_word(name, "overflow-x")
        || text::is_word(name, "overflow-y")
        || text::is_word(name, "padding")
        || text::is_word(name, "pointer-events")
        || text::is_word(name, "position")
        || text::is_word(name, "right")
        || text::is_word(name, "rotate")
        || text::is_word(name, "scale")
        || text::is_word(name, "tab-size")
        || text::is_word(name, "text-align")
        || text::is_word(name, "text-decoration")
        || text::is_word(name, "text-decoration-color")
        || text::is_word(name, "text-decoration-style")
        || text::is_word(name, "text-indent")
        || text::is_word(name, "text-overflow")
        || text::is_word(name, "text-shadow")
        || text::is_word(name, "text-transform")
        || text::is_word(name, "top")
        || text::is_word(name, "transform")
        || text::is_word(name, "transform-origin")
        || text::is_word(name, "transition")
        || text::is_word(name, "translate")
        || text::is_word(name, "user-select")
        || text::is_word(name, "vertical-align")
        || text::is_word(name, "visibility")
        || text::is_word(name, "white-space")
        || text::is_word(name, "width")
        || text::is_word(name, "word-break")
        || text::is_word(name, "word-spacing")
        || text::is_word(name, "word-wrap")
        || text::is_word(name, "z-index")
}

/// What may follow `margin-`.
pub open spec fn is_margin_side(rest: Seq<char>) -> bool {
    ||| rest == "top"@
    ||| rest == "right"@
    ||| rest == "bottom"@
    ||| rest == "left"@
    ||| rest == "inline"@
    ||| rest == "block"@
}

fn margin_side(rest: &[char]) -> (r: bool)
    ensures
        r == is_margin_side(rest@),
{
    text::is_word(rest, "top")
        || text::is_word(rest, "right")
        || text::is_word(rest, "bottom")
        || text::is_word(rest, "left")
        || text::is_word(rest, "inline")
        || text::is_word(rest, "block")
}

/// What may follow `padding-`.
pub open spec fn is_padding_side(rest: Seq<char>) -> bool {
    ||| rest == "top"@
    ||| rest == "right"@
    ||| rest == "bottom"@
    ||| rest == "left"@
    ||| rest == "inline"@
    ||| rest == "block"@
}

fn padding_side(rest: &[char]) -> (r: bool)
    ensures
        r == is_padding_side(rest@),
{
    text::is_word(rest, "top")
        || text::is_word(rest, "right")
        || text::is_word(rest, "bottom")
        || text::is_word(rest, "left")
        || text::is_word(rest, "inline")
        || text::is_word(rest, "block")
}

/// What may follow `inset-`.
pub open spec fn is_inset_side(rest: Seq<char>) -> bool {
    ||| rest == "inline"@
    ||| rest == "block"@
}

fn inset_side(rest: &[char]) -> (r: bool)
    ensures
        r == is_inset_side(rest@),
{
    text::is_word(rest, "inline")
        || text::is_word(rest, "block")
}

/// What may follow `border-`.
pub open spec fn is_border_side(rest: Seq<char>) -> bool {
    ||| rest == "top-width"@
    ||| rest == "right-width"@
    ||| rest == "bottom-width"@
    ||| rest == "left-width"@
    ||| rest == "top-style"@
    ||| rest == "right-style"@
    ||| rest == "bottom-style"@
    ||| rest == "left-style"@
    ||| rest == "top-color"@
    ||| rest == "right-color"@
    ||| rest == "bottom-color"@
    ||| rest == "left-color"@
    ||| rest == "top-left-radius"@
    ||| rest == "top-right-radius"@
    ||| rest == "bottom-left-radius"@
    ||| rest == "bottom-right-radius"@
    ||| rest == "top"@
    ||| rest == "right"@
    ||| rest == "bottom"@
    ||| rest == "left"@
    ||| rest == "width"@
    ||| rest == "style"@
    ||| rest == "color"@
}

fn border_side(rest: &[char]) -> (r: bool)
    ensures
        r == is_border_side(rest@),
{
    text::is_word(rest, "top-width")
        || text::is_word(rest, "right-width")
        || text::is_word(rest, "bottom-width")
        || text::is_word(rest, "left-width")
        || text::is_word(rest, "top-style")
        || text::is_word(rest, "right-style")
        || text::is_word(rest, "bottom-style")
        || text::is_word(rest, "left-style")
        || text::is_word(rest, "top-color")
        || text::is_word(rest, "right-color")
        || text::is_word(rest, "bottom-color")
        || text::is_word(rest, "left-color")
        || text::is_word(rest, "top-left-radius")
        || text::is_word(rest, "top-right-radius")
        || text::is_word(rest, "bottom-left-radius")
        || text::is_word(rest, "bottom-right-radius")
        || text::is_word(rest, "top")
        || text::is_word(rest, "right")
        || text::is_word(rest, "bottom")
        || text::is_word(rest, "left")
        || text::is_word(rest, "width")
        || text::is_word(rest, "style")
        || text::is_word(rest, "color")
}

/// Whether the engine reads the property called `name`: a custom property, a
/// listed one, or a longhand built from a shorthand plus a side or a corner.
pub open spec fn supported(name: Seq<char>) -> bool {
    ||| text::starts(name, "--"@)
    ||| is_listed(name)
    ||| text::starts(name, "margin-"@) && is_margin_side(name.skip("margin-"@.len() as int))
    ||| text::starts(name, "padding-"@) && is_padding_side(name.skip("padding-"@.len() as int))
    ||| text::starts(name, "inset-"@) && is_inset_side(name.skip("inset-"@.len() as int))
    ||| text::starts(name, "border-"@) && is_border_side(name.skip("border-"@.len() as int))
}

/// Whether the engine reads this property at all, which is the question
/// `@supports` asks. Everything named here reaches a computed style;
/// anything else is parsed and then ignored, so a page is better served
/// by its fallback.
///
/// Directional longhands are matched by shape rather than listed one by
/// one: `margin-top` and `border-left-color` come from the same
/// expansion as the shorthands above them.
pub fn is_supported(name: &str) -> (r: bool)
    ensures
        r == supported(text::trimmed(name@)),
{
    let chars = text::chars_of(name);
    let name = text::trim(chars.as_slice());
    if text::starts_with(name, "--") || listed(name) {
        return true;
    }
    if let Some(rest) = text::strip_prefix(name, "margin-") {
        if margin_side(rest) {
            return true;
        }
    }
    if let Some(rest) = text::strip_prefix(name, "padding-") {
        if padding_side(rest) {
            return true;
        }
    }
    if let Some(rest) = text::strip_prefix(name, "inset-") {
        if inset_side(rest) {
            return true;
        }
    }
    if let Some(rest) = text::strip_prefix(name, "border-") {
        if border_side(rest) {
            return true;
        }
    }
    false
}

// ---------------------------------------------------------------------------
// Laws
// ---------------------------------------------------------------------------
/// The properties that inherit: those of text, lists and white space, the
/// colors of carets, accents and selections, and the spacing of borders.
pub proof fn law_what_inherits(name: Seq<char>)
    ensures
        inherits(name) <==> {
            ||| name == "color"@
            ||| name == "font-family"@
            ||| name == "font-size"@
            ||| name == "font-style"@
            ||| name == "font-weight"@
            ||| name == "letter-spacing"@
            ||| name == "list-style"@
            ||| name == "list-style-type"@
            ||| name == "line-height"@
            ||| name == "text-align"@
            ||| name == "text-decoration"@
            ||| name == "text-decoration-color"@
            ||| name == "text-decoration-style"@
            ||| name == "text-indent"@
            ||| name == "text-transform"@
            ||| name == "user-select"@
            ||| name == "visibility"@
            ||| name == "white-space"@
            ||| name == "word-break"@
            ||| name == "word-spacing"@
            ||| name == "word-wrap"@
            ||| name == "overflow-wrap"@
            ||| name == "tab-size"@
            ||| name == "caret-color"@
            ||| name == "accent-color"@
            ||| name == "::selection-background"@
            ||| name == "::selection-color"@
            ||| name == "text-shadow"@
            ||| name == "border-spacing"@
        },
{
    assert(property_row(0).1 && property_row(0).0 == "color"@);
    assert(property_row(1).1 && property_row(1).0 == "font-family"@);
    assert(property_row(2).1 && property_row(2).0 == "font-size"@);
    assert(property_row(3).1 && property_row(3).0 == "font-style"@);
    assert(property_row(4).1 && property_row(4).0 == "font-weight"@);
    assert(property_row(5).1 && property_row(5).0 == "letter-spacing"@);
    assert(property_row(6).1 && property_row(6).0 == "list-style"@);
    assert(property_row(7).1 && property_row(7).0 == "list-style-type"@);
    assert(property_row(8).1 && property_row(8).0 == "line-height"@);
    assert(property_row(9).1 && property_row(9).0 == "text-align"@);
    assert(property_row(10).1 && property_row(10).0 == "text-decoration"@);
    assert(property_row(11).1 && property_row(11).0 == "text-decoration-color"@);
    assert(property_row(12).1 && property_row(12).0 == "text-decoration-style"@);
    assert(property_row(13).1 && property_row(13).0 == "text-indent"@);
    assert(property_row(14).1 && property_row(14).0 == "text-transform"@);
    assert(property_row(15).1 && property_row(15).0 == "user-select"@);
    assert(property_row(16).1 && property_row(16).0 == "visibility"@);
    assert(property_row(17).1 && property_row(17).0 == "white-space"@);
    assert(property_row(18).1 && property_row(18).0 == "word-break"@);
    assert(property_row(19).1 && property_row(19).0 == "word-spacing"@);
    assert(property_row(20).1 && property_row(20).0 == "word-wrap"@);
    assert(property_row(21).1 && property_row(21).0 == "overflow-wrap"@);
    assert(property_row(22).1 && property_row(22).0 == "tab-size"@);
    assert(property_row(23).1 && property_row(23).0 == "caret-color"@);
    assert(property_row(24).1 && property_row(24).0 == "accent-color"@);
    assert(property_row(25).1 && property_row(25).0 == "::selection-background"@);
    assert(property_row(26).1 && property_row(26).0 == "::selection-color"@);
    assert(property_row(27).1 && property_row(27).0 == "text-shadow"@);
    assert(property_row(46).1 && property_row(46).0 == "border-spacing"@);
}

/// The properties that keep their raw text.
pub proof fn law_what_keeps_its_text(name: Seq<char>)
    ensures
        raw_kept(name) <==> {
            ||| name == "text-shadow"@
            ||| name == "animation"@
            ||| name == "aspect-ratio"@
            ||| name == "box-shadow"@
            ||| name == "background-image"@
            ||| name == "background-position"@
            ||| name == "background-size"@
            ||| name == "background-repeat"@
            ||| name == "grid-template-columns"@
            ||| name == "grid-template-rows"@
            ||| name == "grid-column"@
            ||| name == "grid-row"@
            ||| name == "transform"@
            ||| name == "transform-origin"@
            ||| name == "transition"@
            ||| name == "filter"@
            ||| name == "rotate"@
            ||| name == "scale"@
            ||| name == "translate"@
            ||| name == "border-spacing"@
        },
{
    assert(property_row(27).2 && property_row(27).0 == "text-shadow"@);
    assert(property_row(28).2 && property_row(28).0 == "animation"@);
    assert(property_row(29).2 && property_row(29).0 == "aspect-ratio"@);
    assert(property_row(30).2 && property_row(30).0 == "box-shadow"@);
    assert(property_row(31).2 && property_row(31).0 == "background-image"@);
    assert(property_row(32).2 && property_row(32).0 == "background-position"@);
    assert(property_row(33).2 && property_row(33).0 == "background-size"@);
    assert(property_row(34).2 && property_row(34).0 == "background-repeat"@);
    assert(property_row(35).2 && property_row(35).0 == "grid-template-columns"@);
    assert(property_row(36).2 && property_row(36).0 == "grid-template-rows"@);
    assert(property_row(37).2 && property_row(37).0 == "grid-column"@);
    assert(property_row(38).2 && property_row(38).0 == "grid-row"@);
    assert(property_row(39).2 && property_row(39).0 == "transform"@);
    assert(property_row(40).2 && property_row(40).0 == "transform-origin"@);
    assert(property_row(41).2 && property_row(41).0 == "transition"@);
    assert(property_row(42).2 && property_row(42).0 == "filter"@);
    assert(property_row(43).2 && property_row(43).0 == "rotate"@);
    assert(property_row(44).2 && property_row(44).0 == "scale"@);
    assert(property_row(45).2 && property_row(45).0 == "translate"@);
    assert(property_row(46).2 && property_row(46).0 == "border-spacing"@);
}

/// The properties that are read: custom ones, the sides of margins and
/// paddings, the axes of insets, the sides, corners and parts of borders, and
/// those with a name of their own.
pub proof fn law_what_is_supported(name: Seq<char>, side: Seq<char>, part: Seq<char>)
    requires
        side == "top"@ || side == "right"@ || side == "bottom"@ || side == "left"@,
        part == "width"@ || part == "style"@ || part == "color"@,
    ensures
        supported("--"@ + name),
        supported("margin-"@ + side),
        supported("padding-"@ + side),
        supported("margin-"@ + "inline"@) && supported("margin-"@ + "block"@),
        supported("padding-"@ + "inline"@) && supported("padding-"@ + "block"@),
        supported("inset-"@ + "inline"@) && supported("inset-"@ + "block"@),
        supported("border-"@ + side),
        supported("border-"@ + part),
        supported("border-"@ + (side + "-"@ + part)),
        ({
            ||| name == "accent-color"@
            ||| name == "align-content"@
            ||| name == "align-items"@
            ||| name == "align-self"@
            ||| name == "animation"@
            ||| name == "aspect-ratio"@
            ||| name == "background"@
            ||| name == "background-clip"@
            ||| name == "background-color"@
            ||| name == "background-image"@
            ||| name == "background-origin"@
            ||| name == "background-position"@
            ||| name == "background-repeat"@
            ||| name == "background-size"@
            ||| name == "border"@
            ||| name == "border-collapse"@
            ||| name == "border-radius"@
            ||| name == "border-spacing"@
            ||| name == "bottom"@
            ||| name == "box-shadow"@
            ||| name == "box-sizing"@
            ||| name == "caret-color"@
            ||| name == "clear"@
            ||| name == "color"@
            ||| name == "content"@
            ||| name == "cursor"@
            ||| name == "display"@
            ||| name == "filter"@
            ||| name == "flex"@
            ||| name == "flex-basis"@
            ||| name == "flex-direction"@
            ||| name == "flex-grow"@
            ||| name == "flex-shrink"@
            ||| name == "flex-wrap"@
            ||| name == "float"@
            ||| name == "font"@
            ||| name == "font-family"@
            ||| name == "font-size"@
            ||| name == "font-style"@
            ||| name == "font-weight"@
            ||| name == "gap"@
            ||| name == "grid-column"@
            ||| name == "grid-row"@
            ||| name == "grid-template-columns"@
            ||| name == "grid-template-rows"@
            ||| name == "height"@
            ||| name == "inset"@
            ||| name == "justify-content"@
            ||| name == "left"@
            ||| name == "letter-spacing"@
            ||| name == "line-height"@
            ||| name == "list-style"@
            ||| name == "list-style-type"@
            ||| name == "margin"@
            ||| name == "max-height"@
            ||| name == "max-width"@
            ||| name == "min-height"@
            ||| name == "min-width"@
            ||| name == "object-fit"@
            ||| name == "object-position"@
            ||| name == "opacity"@
            ||| name == "order"@
            ||| name == "outline"@
            ||| name == "outline-color"@
            ||| name == "outline-offset"@
            ||| name == "outline-style"@
            ||| name == "outline-width"@
            ||| name == "overflow"@
            ||| name == "overflow-wrap"@
            ||| name == "overflow-x"@
            ||| name == "overflow-y"@
            ||| name == "padding"@
            ||| name == "pointer-events"@
            ||| name == "position"@
            ||| name == "right"@
            ||| name == "rotate"@
            ||| name == "scale"@
            ||| name == "tab-size"@
            ||| name == "text-align"@
            ||| name == "text-decoration"@
            ||| name == "text-decoration-color"@
            ||| name == "text-decoration-style"@
            ||| name == "text-indent"@
            ||| name == "text-overflow"@
            ||| name == "text-shadow"@
            ||| name == "text-transform"@
            ||| name == "top"@
            ||| name == "transform"@
            ||| name == "transform-origin"@
            ||| name == "transition"@
            ||| name == "translate"@
            ||| name == "user-select"@
            ||| name == "vertical-align"@
            ||| name == "visibility"@
            ||| name == "white-space"@
            ||| name == "width"@
            ||| name == "word-break"@
            ||| name == "word-spacing"@
            ||| name == "word-wrap"@
            ||| name == "z-index"@
        }) ==> supported(name),
        supported(name) && !text::starts(name, "--"@) && !text::starts(name, "margin-"@)
            && !text::starts(name, "padding-"@) && !text::starts(name, "inset-"@) && !text::starts(
            name,
            "border-"@,
        ) ==> {
            ||| name == "accent-color"@
            ||| name == "align-content"@
            ||| name == "align-items"@
            ||| name == "align-self"@
            ||| name == "animation"@
            ||| name == "aspect-ratio"@
            ||| name == "background"@
            ||| name == "background-clip"@
            ||| name == "background-color"@
            ||| name == "background-image"@
            ||| name == "background-origin"@
            ||| name == "background-position"@
            ||| name == "background-repeat"@
            ||| name == "background-size"@
            ||| name == "border"@
            ||| name == "border-collapse"@
            ||| name == "border-radius"@
            ||| name == "border-spacing"@
            ||| name == "bottom"@
            ||| name == "box-shadow"@
            ||| name == "box-sizing"@
            ||| name == "caret-color"@
            ||| name == "clear"@
            ||| name == "color"@
            ||| name == "content"@
            ||| name == "cursor"@
            ||| name == "display"@
            ||| name == "filter"@
            ||| name == "flex"@
            ||| name == "flex-basis"@
            ||| name == "flex-direction"@
            ||| name == "flex-grow"@
            ||| name == "flex-shrink"@
            ||| name == "flex-wrap"@
            ||| name == "float"@
            ||| name == "font"@
            ||| name == "font-family"@
            ||| name == "font-size"@
            ||| name == "font-style"@
            ||| name == "font-weight"@
            ||| name == "gap"@
            ||| name == "grid-column"@
            ||| name == "grid-row"@
            ||| name == "grid-template-columns"@
            ||| name == "grid-template-rows"@
            ||| name == "height"@
            ||| name == "inset"@
            ||| name == "justify-content"@
            ||| name == "left"@
            ||| name == "letter-spacing"@
            ||| name == "line-height"@
            ||| name == "list-style"@
            ||| name == "list-style-type"@
            ||| name == "margin"@
            ||| name == "max-height"@
            ||| name == "max-width"@
            ||| name == "min-height"@
            ||| name == "min-width"@
            ||| name == "object-fit"@
            ||| name == "object-position"@
            ||| name == "opacity"@
            ||| name == "order"@
            ||| name == "outline"@
            ||| name == "outline-color"@
            ||| name == "outline-offset"@
            ||| name == "outline-style"@
            ||| name == "outline-width"@
            ||| name == "overflow"@
            ||| name == "overflow-wrap"@
            ||| name == "overflow-x"@
            ||| name == "overflow-y"@
            ||| name == "padding"@
            ||| name == "pointer-events"@
            ||| name == "position"@
            ||| name == "right"@
            ||| name == "rotate"@
            ||| name == "scale"@
            ||| name == "tab-size"@
            ||| name == "text-align"@
            ||| name == "text-decoration"@
            ||| name == "text-decoration-color"@
            ||| name == "text-decoration-style"@
            ||| name == "text-indent"@
            ||| name == "text-overflow"@
            ||| name == "text-shadow"@
            ||| name == "text-transform"@
            ||| name == "top"@
            ||| name == "transform"@
            ||| name == "transform-origin"@
            ||| name == "transition"@
            ||| name == "translate"@
            ||| name == "user-select"@
            ||| name == "vertical-align"@
            ||| name == "visibility"@
            ||| name == "white-space"@
            ||| name == "width"@
            ||| name == "word-break"@
            ||| name == "word-spacing"@
            ||| name == "word-wrap"@
            ||| name == "z-index"@
        },
{
    text::law_prefixes(name, "--"@);
    text::law_prefixes(side, "margin-"@);
    text::law_prefixes(side, "padding-"@);
    text::law_prefixes("inline"@, "margin-"@);
    text::law_prefixes("block"@, "margin-"@);
    text::law_prefixes("inline"@, "padding-"@);
    text::law_prefixes("block"@, "padding-"@);
    text::law_prefixes("inline"@, "inset-"@);
    text::law_prefixes("block"@, "inset-"@);
    text::law_prefixes(side, "border-"@);
    text::law_prefixes(part, "border-"@);
    text::law_prefixes(side + "-"@ + part, "border-"@);
    reveal_strlit("-");
    reveal_strlit("top");
    reveal_strlit("right");
    reveal_strlit("bottom");
    reveal_strlit("left");
    reveal_strlit("width");
    reveal_strlit("style");
    reveal_strlit("color");
    reveal_strlit("top-width");
    assert("top"@ + "-"@ + "width"@ =~= "top-width"@);
    reveal_strlit("top-style");
    assert("top"@ + "-"@ + "style"@ =~= "top-style"@);
    reveal_strlit("top-color");
    assert("top"@ + "-"@ + "color"@ =~= "top-color"@);
    reveal_strlit("right-width");
    assert("right"@ + "-"@ + "width"@ =~= "right-width"@);
    reveal_strlit("right-style");
    assert("right"@ + "-"@ + "style"@ =~= "right-style"@);
    reveal_strlit("right-color");
    assert("right"@ + "-"@ + "color"@ =~= "right-color"@);
    reveal_strlit("bottom-width");
    assert("bottom"@ + "-"@ + "width"@ =~= "bottom-width"@);
    reveal_strlit("bottom-style");
    assert("bottom"@ + "-"@ + "style"@ =~= "bottom-style"@);
    reveal_strlit("bottom-color");
    assert("bottom"@ + "-"@ + "color"@ =~= "bottom-color"@);
    reveal_strlit("left-width");
    assert("left"@ + "-"@ + "width"@ =~= "left-width"@);
    reveal_strlit("left-style");
    assert("left"@ + "-"@ + "style"@ =~= "left-style"@);
    reveal_strlit("left-color");
    assert("left"@ + "-"@ + "color"@ =~= "left-color"@);
}

} // verus!
