//! The declaration pipeline: `!important` peeling, the shorthands that need
//! raw handling, raw-kept and `var()`-carrying properties, then component
//! parsing with longhand expansion.
use crate::css::number;
use crate::css::properties;
use crate::css::shorthand::{self, Declaration, DeclarationModel};
use crate::css::value::{self, CssValue, ValueModel};
use crate::text;
use vstd::prelude::*;
use vstd::slice::slice_subrange;

verus! {

pub open spec fn declaration(name: Seq<char>, value: ValueModel, important: bool) -> DeclarationModel {
    DeclarationModel { name, value, important }
}

/// The value without a trailing `!important`, and whether it had one: the
/// word in any case, with white space tolerated around it.
pub open spec fn importance(v: Seq<char>) -> (Seq<char>, bool) {
    let t = text::trimmed_end(v);
    match text::before_suffix(text::lowered(t), "important"@) {
        Some(rest) => match text::before_suffix(text::trimmed_end(rest), "!"@) {
            Some(prefix) => (t.take(prefix.len() as int), true),
            None => (v, false),
        },
        None => (v, false),
    }
}

fn peel_important<'a>(v: &'a [char]) -> (r: (&'a [char], bool))
    ensures
        (r.0@, r.1) == importance(v@),
{
    let t = text::trim_end(v);
    let low = text::to_lowered(t);
    if let Some(rest) = text::strip_suffix(low.as_slice(), "important") {
        proof {
            text::lemma_trim_back(rest@, rest@.len() as int);
        }
        if let Some(prefix) = text::strip_suffix(text::trim_end(rest), "!") {
            return (slice_subrange(t, 0, prefix.len()), true);
        }
    }
    (v, false)
}

// ---------------------------------------------------------------------------
// Font families
// ---------------------------------------------------------------------------
/// One family name: quotes dropped, inner white space collapsed, lowercase.
pub open spec fn family_name(s: Seq<char>) -> Seq<char> {
    text::lowered(text::joined(text::words(text::unquoted(text::trimmed(s))), " "@))
}

/// The usable names among the first `n` of a list.
pub open spec fn usable_families(parts: Seq<Seq<char>>, n: int) -> Seq<Seq<char>>
    decreases n,
{
    if n <= 0 {
        seq![]
    } else {
        let name = family_name(parts[n - 1]);
        if name.len() > 0 {
            usable_families(parts, n - 1).push(name)
        } else {
            usable_families(parts, n - 1)
        }
    }
}

/// A `font-family` list in author order, its names separated by commas.
pub open spec fn family_list(v: Seq<char>) -> Option<Seq<char>> {
    let parts = text::split_outer(v, ',');
    let names = usable_families(parts, parts.len() as int);
    if names.len() > 0 {
        Some(text::joined(names, ","@))
    } else {
        None
    }
}

fn owned_parts(parts: &Vec<&[char]>) -> (r: Vec<String>)
    ensures
        text::texts(r@) == text::views(parts@),
{
    let mut r: Vec<String> = Vec::new();
    let mut i: usize = 0;
    while i < parts.len()
        invariant
            i <= parts@.len(),
            r@.len() == i,
            forall|j: int| 0 <= j < i ==> (#[trigger] r@[j])@ == parts@[j]@,
        decreases parts@.len() - i,
    {
        r.push(text::text_of(parts[i]));
        i = i + 1;
    }
    assert(text::texts(r@) =~= text::views(parts@));
    r
}

fn normalize_family(s: &[char]) -> (r: String)
    ensures
        r@ == family_name(s@),
{
    let inner = text::trim_quotes(text::trim(s));
    let parts = text::split_whitespace(inner);
    let owned = owned_parts(&parts);
    let name = text::join(owned.as_slice(), " ");
    let chars = text::chars_of(name.as_str());
    let low = text::to_lowered(chars.as_slice());
    text::text_of(low.as_slice())
}

/// A `font-family` list in author order, lowercased, quotes dropped and
/// inner white space collapsed: `"Helvetica Neue", Arial , sans-serif`
/// becomes `helvetica neue,arial,sans-serif`. `None` when the list holds
/// no usable name.
pub fn normalize_font_families(v: &[char]) -> (r: Option<String>)
    ensures
        text::opt_text(r) == family_list(v@),
{
    let parts = text::split_top_level(v, ',');
    let ghost pv = text::split_outer(v@, ',');
    let mut names: Vec<String> = Vec::new();
    let mut i: usize = 0;
    assert(text::texts(names@) =~= usable_families(pv, 0));
    while i < parts.len()
        invariant
            i <= parts@.len(),
            text::views(parts@) == pv,
            text::texts(names@) == usable_families(pv, i as int),
        decreases parts@.len() - i,
    {
        let name = normalize_family(parts[i]);
        let ghost before = names@;
        assert(pv[i as int] == parts@[i as int]@);
        if !name.as_str().is_empty() {
            names.push(name);
            proof {
                text::lemma_texts_push(before, name);
            }
        }
        i = i + 1;
    }
    assert(pv.len() == parts@.len());
    assert(text::texts(names@).len() == names@.len());
    if names.len() > 0 {
        Some(text::join(names.as_slice(), ","))
    } else {
        None
    }
}

// ---------------------------------------------------------------------------
// The font shorthand
// ---------------------------------------------------------------------------
pub struct FontModel {
    pub declarations: Seq<DeclarationModel>,
    /// The size has been read: what follows is the family.
    pub saw_size: bool,
    pub family: Seq<Seq<char>>,
}

/// `size[/line-height]`.
pub open spec fn size_split(component: Seq<char>) -> (Seq<char>, Option<Seq<char>>) {
    match text::halves(component, '/') {
        Some((size, line_height)) => (size, Some(line_height)),
        None => (component, None),
    }
}

pub open spec fn line_height_declarations(line_height: Option<Seq<char>>, important: bool) -> Seq<
    DeclarationModel,
> {
    match line_height {
        Some(t) => match value::component_model(t) {
            Some(v) => seq![declaration("line-height"@, v, important)],
            None => seq![],
        },
        None => seq![],
    }
}

/// One component of a `font` shorthand.
pub open spec fn font_step(state: FontModel, component: Seq<char>, important: bool) -> FontModel {
    if state.saw_size {
        FontModel { family: state.family.push(component), ..state }
    } else if component == "normal"@ || component == "small-caps"@ {
        state
    } else if component == "italic"@ || component == "oblique"@ {
        FontModel {
            declarations: state.declarations.push(
                declaration("font-style"@, ValueModel::Keyword("italic"@), important),
            ),
            ..state
        }
    } else if component == "bold"@ || component == "bolder"@ {
        FontModel {
            declarations: state.declarations.push(
                declaration("font-weight"@, ValueModel::Keyword("bold"@), important),
            ),
            ..state
        }
    } else {
        let (size, line_height) = size_split(component);
        match value::component_model(size) {
            Some(ValueModel::Number(n)) => if number::at_least_hundred(n.literal) {
                FontModel {
                    declarations: state.declarations.push(
                        declaration("font-weight"@, ValueModel::Number(n), important),
                    ),
                    ..state
                }
            } else {
                state
            },
            Some(ValueModel::Length(n, unit)) => FontModel {
                declarations: state.declarations.push(
                    declaration("font-size"@, ValueModel::Length(n, unit), important),
                ) + line_height_declarations(line_height, important),
                saw_size: true,
                family: state.family,
            },
            _ => state,
        }
    }
}

/// The state after the first `n` components.
pub open spec fn font_state(parts: Seq<Seq<char>>, n: int, important: bool) -> FontModel
    decreases n,
{
    if n <= 0 {
        FontModel { declarations: seq![], saw_size: false, family: seq![] }
    } else {
        font_step(font_state(parts, n - 1, important), parts[n - 1], important)
    }
}

/// The keywords that stand for a whole system font.
pub open spec fn is_system_font(k: Seq<char>) -> bool {
    ||| text::eq_ci(k, "caption"@)
    ||| text::eq_ci(k, "icon"@)
    ||| text::eq_ci(k, "menu"@)
    ||| text::eq_ci(k, "message-box"@)
    ||| text::eq_ci(k, "small-caption"@)
    ||| text::eq_ci(k, "status-bar"@)
}

/// Whether one of the first `n` components names a system font.
pub open spec fn names_system_font(parts: Seq<Seq<char>>, n: int) -> bool {
    exists|i: int| 0 <= i < n && is_system_font(#[trigger] parts[i])
}

/// The longhands of a `font` shorthand: `[style] [weight]
/// size[/line-height] family...`. One that names a system font instead of a
/// size declares nothing.
pub open spec fn font_declarations(v: Seq<char>, important: bool) -> Seq<DeclarationModel> {
    let parts = value::components(v);
    let state = font_state(parts, parts.len() as int, important);
    if !state.saw_size && names_system_font(parts, parts.len() as int) {
        seq![]
    } else {
        match family_list(text::joined(state.family, " "@)) {
            Some(families) => state.declarations.push(
                declaration("font-family"@, ValueModel::Keyword(families), important),
            ),
            None => state.declarations,
        }
    }
}

fn system_font(component: &String) -> (r: bool)
    ensures
        r == is_system_font(component@),
{
    let chars = text::chars_of(component.as_str());
    let s = chars.as_slice();
    text::is_word_ci(s, "caption") || text::is_word_ci(s, "icon") || text::is_word_ci(s, "menu")
        || text::is_word_ci(s, "message-box") || text::is_word_ci(s, "small-caption")
        || text::is_word_ci(s, "status-bar")
}

/// A component before the size has been read. Tells whether it was the size.
fn push_font_component(
    component: &String,
    output: &mut Vec<Declaration>,
    important: bool,
    Ghost(base): Ghost<Seq<DeclarationModel>>,
    Ghost(state): Ghost<FontModel>,
) -> (saw_size: bool)
    requires
        !state.saw_size,
        shorthand::declared(old(output)@) == base + state.declarations,
    ensures
        shorthand::declared(final(output)@) == base + font_step(
            state,
            component@,
            important,
        ).declarations,
        saw_size == font_step(state, component@, important).saw_size,
        font_step(state, component@, important).family == state.family,
{
    let chars = text::chars_of(component.as_str());
    let s = chars.as_slice();
    if text::is_word(s, "normal") || text::is_word(s, "small-caps") {
        return false;
    }
    if text::is_word(s, "italic") || text::is_word(s, "oblique") {
        shorthand::emit(
            output,
            "font-style".to_owned(),
            CssValue::Keyword("italic".to_owned()),
            important,
        );
        assert(shorthand::declared(output@) =~= base + font_step(
            state,
            component@,
            important,
        ).declarations);
        return false;
    }
    if text::is_word(s, "bold") || text::is_word(s, "bolder") {
        shorthand::emit(
            output,
            "font-weight".to_owned(),
            CssValue::Keyword("bold".to_owned()),
            important,
        );
        assert(shorthand::declared(output@) =~= base + font_step(
            state,
            component@,
            important,
        ).declarations);
        return false;
    }
    let (size, line_height): (&[char], Option<&[char]>) = match text::split_once(s, '/') {
        Some((size, line_height)) => (size, Some(line_height)),
        None => (s, None),
    };
    match CssValue::read_component(size) {
        Some(CssValue::Number(n)) => {
            if n.reaches_hundred() {
                shorthand::emit(output, "font-weight".to_owned(), CssValue::Number(n), important);
                assert(shorthand::declared(output@) =~= base + font_step(
                    state,
                    component@,
                    important,
                ).declarations);
            }
            false
        },
        Some(CssValue::Length(n, unit)) => {
            shorthand::emit(output, "font-size".to_owned(), CssValue::Length(n, unit), important);
            if let Some(t) = line_height {
                if let Some(v) = CssValue::read_component(t) {
                    shorthand::emit(output, "line-height".to_owned(), v, important);
                }
            }
            assert(shorthand::declared(output@) =~= base + font_step(
                state,
                component@,
                important,
            ).declarations);
            true
        },
        _ => false,
    }
}

/// Expands the `font` shorthand: `[style] [weight] size[/line-height]
/// family...`. Unsupported system-font keywords drop the declaration.
fn expand_font_shorthand(v: &[char], output: &mut Vec<Declaration>, important: bool)
    ensures
        shorthand::declared(final(output)@) == shorthand::declared(old(output)@)
            + font_declarations(v@, important),
{
    let ghost base = shorthand::declared(output@);
    let parts = value::components_of(v);
    let ghost pv = value::components(v@);
    let mut family: Vec<String> = Vec::new();
    let mut saw_size = false;
    let mut system = false;
    let start: usize = output.len();
    let mut i: usize = 0;
    assert(base + font_state(pv, 0, important).declarations =~= base);
    assert(text::texts(family@) =~= seq![]);
    while i < parts.len()
        invariant
            i <= parts@.len(),
            text::texts(parts@) == pv,
            shorthand::declared(output@) == base + font_state(
                pv,
                i as int,
                important,
            ).declarations,
            saw_size == font_state(pv, i as int, important).saw_size,
            system == names_system_font(pv, i as int),
            text::texts(family@) == font_state(pv, i as int, important).family,
        decreases parts@.len() - i,
    {
        assert(pv[i as int] == parts@[i as int]@);
        if system_font(&parts[i]) {
            assert(is_system_font(pv[i as int]));
            system = true;
        }
        if saw_size {
            let part = parts[i].clone();
            let ghost before = family@;
            family.push(part);
            proof {
                text::lemma_texts_push(before, part);
            }
        } else {
            let ghost state = font_state(pv, i as int, important);
            saw_size = push_font_component(
                &parts[i],
                output,
                important,
                Ghost(base),
                Ghost(state),
            );
        }
        i = i + 1;
    }
    assert(pv.len() == parts@.len());
    if !saw_size && system {
        let ghost whole = output@;
        output.truncate(start);
        assert(shorthand::declared(output@) =~= shorthand::declared(whole).take(start as int));
        assert(shorthand::declared(output@) =~= base + font_declarations(v@, important));
        return;
    }
    let joined = text::join(family.as_slice(), " ");
    let chars = text::chars_of(joined.as_str());
    if let Some(families) = normalize_font_families(chars.as_slice()) {
        shorthand::emit(
            output,
            "font-family".to_owned(),
            CssValue::Keyword(families),
            important,
        );
    }
    assert(shorthand::declared(output@) =~= base + font_declarations(v@, important));
}

// ---------------------------------------------------------------------------
// The background shorthand
// ---------------------------------------------------------------------------
pub struct LayerModel {
    pub image: Seq<char>,
    pub repeat: Seq<char>,
    pub position: Seq<Seq<char>>,
    pub color: Option<ValueModel>,
    pub none: bool,
}

pub open spec fn is_repeat(k: Seq<char>) -> bool {
    k == "repeat"@ || k == "no-repeat"@ || k == "repeat-x"@ || k == "repeat-y"@
}

pub open spec fn is_position(k: Seq<char>) -> bool {
    k == "left"@ || k == "right"@ || k == "top"@ || k == "bottom"@ || k == "center"@
}

/// One component of a background layer.
pub open spec fn layer_step(layer: LayerModel, component: Seq<char>) -> LayerModel {
    match value::component_model(component) {
        Some(ValueModel::Url(u)) => LayerModel { image: component, ..layer },
        Some(ValueModel::Function(f, a)) => LayerModel { image: component, ..layer },
        Some(ValueModel::Color(c)) => LayerModel { color: Some(ValueModel::Color(c)), ..layer },
        Some(ValueModel::Keyword(k)) => if is_repeat(k) {
            LayerModel { repeat: k, ..layer }
        } else if is_position(k) {
            if layer.position.len() < 2 {
                LayerModel { position: layer.position.push(k), ..layer }
            } else {
                layer
            }
        } else if k == "transparent"@ {
            LayerModel { color: Some(ValueModel::Keyword(k)), ..layer }
        } else if k == "none"@ {
            LayerModel { none: true, ..layer }
        } else {
            layer
        },
        Some(ValueModel::Length(n, unit)) => if layer.position.len() < 2 {
            LayerModel { position: layer.position.push(component), ..layer }
        } else {
            layer
        },
        _ => layer,
    }
}

/// A layer after its first `n` components; color and `none` carry over from
/// the layers before it.
pub open spec fn layer_state(
    parts: Seq<Seq<char>>,
    n: int,
    color: Option<ValueModel>,
    none: bool,
) -> LayerModel
    decreases n,
{
    if n <= 0 {
        LayerModel { image: "none"@, repeat: "repeat"@, position: seq![], color, none }
    } else {
        layer_step(layer_state(parts, n - 1, color, none), parts[n - 1])
    }
}

pub open spec fn layer_of(source: Seq<char>, color: Option<ValueModel>, none: bool) -> LayerModel {
    let parts = value::components(source);
    layer_state(parts, parts.len() as int, color, none)
}

pub open spec fn position_text(position: Seq<Seq<char>>) -> Seq<char> {
    if position.len() == 0 {
        "0px 0px"@
    } else {
        text::joined(position, " "@)
    }
}

pub struct BackgroundModel {
    pub images: Seq<Seq<char>>,
    pub repeats: Seq<Seq<char>>,
    pub positions: Seq<Seq<char>>,
    pub color: Option<ValueModel>,
    pub none: bool,
}

/// The first `n` layers.
pub open spec fn background_state(layers: Seq<Seq<char>>, n: int) -> BackgroundModel
    decreases n,
{
    if n <= 0 {
        BackgroundModel { images: seq![], repeats: seq![], positions: seq![], color: None, none: false }
    } else {
        let before = background_state(layers, n - 1);
        let layer = layer_of(layers[n - 1], before.color, before.none);
        BackgroundModel {
            images: before.images.push(layer.image),
            repeats: before.repeats.push(layer.repeat),
            positions: before.positions.push(position_text(layer.position)),
            color: layer.color,
            none: layer.none,
        }
    }
}

pub open spec fn some_image(images: Seq<Seq<char>>) -> bool {
    exists|i: int| 0 <= i < images.len() && #[trigger] images[i] != "none"@
}

/// What the layers that were read declare. Each contributes its image, repeat
/// and position; the color may appear on any layer. An explicit `none` resets
/// an earlier image.
pub open spec fn layered_declarations(state: BackgroundModel, important: bool) -> Seq<
    DeclarationModel,
> {
    let color = match state.color {
        Some(c) => seq![declaration("background-color"@, c, important)],
        None => seq![],
    };
    if some_image(state.images) {
        color + seq![
            declaration(
                "background-image"@,
                ValueModel::String(text::joined(state.images, ", "@)),
                important,
            ),
            declaration(
                "background-repeat"@,
                ValueModel::String(text::joined(state.repeats, ", "@)),
                important,
            ),
            declaration(
                "background-position"@,
                ValueModel::String(text::joined(state.positions, ", "@)),
                important,
            ),
        ]
    } else if state.none {
        color + seq![declaration("background-image"@, ValueModel::Keyword("none"@), important)]
    } else {
        color
    }
}

/// The longhands of a `background` shorthand, layer by layer (top-level
/// commas).
pub open spec fn background_declarations(v: Seq<char>, important: bool) -> Seq<DeclarationModel> {
    let layers = text::split_outer(v, ',');
    layered_declarations(background_state(layers, layers.len() as int), important)
}

struct Layer {
    image: String,
    repeat: String,
    position: Vec<String>,
    color: Option<CssValue>,
    none: bool,
}

impl Layer {
    spec fn model(&self) -> LayerModel {
        LayerModel {
            image: self.image@,
            repeat: self.repeat@,
            position: text::texts(self.position@),
            color: value::opt_model(self.color),
            none: self.none,
        }
    }
}

fn repeat_word(k: &String) -> (r: bool)
    ensures
        r == is_repeat(k@),
{
    let chars = text::chars_of(k.as_str());
    let s = chars.as_slice();
    text::is_word(s, "repeat") || text::is_word(s, "no-repeat") || text::is_word(s, "repeat-x")
        || text::is_word(s, "repeat-y")
}

fn position_word(k: &String) -> (r: bool)
    ensures
        r == is_position(k@),
{
    let chars = text::chars_of(k.as_str());
    let s = chars.as_slice();
    text::is_word(s, "left") || text::is_word(s, "right") || text::is_word(s, "top")
        || text::is_word(s, "bottom") || text::is_word(s, "center")
}

fn push_position(layer: Layer, part: String) -> (r: Layer)
    ensures
        r.model() == (if layer.model().position.len() < 2 {
            LayerModel { position: layer.model().position.push(part@), ..layer.model() }
        } else {
            layer.model()
        }),
{
    let mut position = layer.position;
    let ghost before = position@;
    assert(text::texts(before).len() == before.len());
    if position.len() < 2 {
        position.push(part);
        proof {
            text::lemma_texts_push(before, part);
        }
    }
    Layer {
        image: layer.image,
        repeat: layer.repeat,
        position,
        color: layer.color,
        none: layer.none,
    }
}

fn push_layer_component(layer: Layer, component: &String) -> (r: Layer)
    ensures
        r.model() == layer_step(layer.model(), component@),
{
    match CssValue::parse_component(component.as_str()) {
        Some(CssValue::Url(_)) => Layer { image: component.clone(), ..layer },
        Some(CssValue::Function(_, _)) => Layer { image: component.clone(), ..layer },
        Some(CssValue::Color(c)) => Layer { color: Some(CssValue::Color(c)), ..layer },
        Some(CssValue::Keyword(k)) => {
            if repeat_word(&k) {
                Layer { repeat: k, ..layer }
            } else if position_word(&k) {
                push_position(layer, k)
            } else if text::same_str(k.as_str(), "transparent") {
                Layer { color: Some(CssValue::Keyword(k)), ..layer }
            } else if text::same_str(k.as_str(), "none") {
                Layer { none: true, ..layer }
            } else {
                layer
            }
        },
        Some(CssValue::Length(_, _)) => push_position(layer, component.clone()),
        _ => layer,
    }
}

fn read_layer(source: &[char], color: Option<CssValue>, none: bool) -> (r: Layer)
    ensures
        r.model() == layer_of(source@, value::opt_model(color), none),
{
    let parts = value::components_of(source);
    let ghost pv = value::components(source@);
    let ghost cm = value::opt_model(color);
    let mut layer = Layer {
        image: "none".to_owned(),
        repeat: "repeat".to_owned(),
        position: Vec::new(),
        color,
        none,
    };
    assert(layer.model().position =~= seq![]);
    let mut i: usize = 0;
    while i < parts.len()
        invariant
            i <= parts@.len(),
            text::texts(parts@) == pv,
            layer.model() == layer_state(pv, i as int, cm, none),
        decreases parts@.len() - i,
    {
        assert(pv[i as int] == parts@[i as int]@);
        layer = push_layer_component(layer, &parts[i]);
        i = i + 1;
    }
    assert(pv.len() == parts@.len());
    layer
}

fn any_image(images: &Vec<String>) -> (r: bool)
    ensures
        r == some_image(text::texts(images@)),
{
    let ghost iv = text::texts(images@);
    let mut i: usize = 0;
    while i < images.len()
        invariant
            i <= images@.len(),
            iv == text::texts(images@),
            forall|j: int| 0 <= j < i ==> #[trigger] iv[j] == "none"@,
        decreases images@.len() - i,
    {
        assert(iv[i as int] == images@[i as int]@);
        if !text::same_str(images[i].as_str(), "none") {
            return true;
        }
        i = i + 1;
    }
    false
}

/// Expands the `background` shorthand at raw level, layer by layer
/// (top-level commas). Unsupported parts (attachment, origin/clip keywords)
/// are ignored. An explicit `none` emits `background-image: none` so the
/// declaration resets an earlier image in the cascade instead of vanishing.
fn expand_background_shorthand(v: &[char], output: &mut Vec<Declaration>, important: bool)
    ensures
        shorthand::declared(final(output)@) == shorthand::declared(old(output)@)
            + background_declarations(v@, important),
{
    let ghost base = shorthand::declared(output@);
    let layers = text::split_top_level(v, ',');
    let ghost lv = text::split_outer(v@, ',');
    let mut images: Vec<String> = Vec::new();
    let mut repeats: Vec<String> = Vec::new();
    let mut positions: Vec<String> = Vec::new();
    let mut color: Option<CssValue> = None;
    let mut none = false;
    let mut i: usize = 0;
    assert(text::texts(images@) =~= seq![]);
    assert(text::texts(repeats@) =~= seq![]);
    assert(text::texts(positions@) =~= seq![]);
    while i < layers.len()
        invariant
            i <= layers@.len(),
            text::views(layers@) == lv,
            text::texts(images@) == background_state(lv, i as int).images,
            text::texts(repeats@) == background_state(lv, i as int).repeats,
            text::texts(positions@) == background_state(lv, i as int).positions,
            value::opt_model(color) == background_state(lv, i as int).color,
            none == background_state(lv, i as int).none,
        decreases layers@.len() - i,
    {
        assert(lv[i as int] == layers@[i as int]@);
        let layer = read_layer(layers[i], color, none);
        let position: String = if layer.position.len() == 0 {
            "0px 0px".to_owned()
        } else {
            text::join(layer.position.as_slice(), " ")
        };
        assert(text::texts(layer.position@).len() == layer.position@.len());
        let ghost a = images@;
        let ghost b = repeats@;
        let ghost c = positions@;
        proof {
            text::lemma_texts_push(a, layer.image);
            text::lemma_texts_push(b, layer.repeat);
            text::lemma_texts_push(c, position);
        }
        images.push(layer.image);
        repeats.push(layer.repeat);
        positions.push(position);
        color = layer.color;
        none = layer.none;
        i = i + 1;
    }
    assert(lv.len() == layers@.len());
    if let Some(c) = color {
        shorthand::emit(output, "background-color".to_owned(), c, important);
    }
    if any_image(&images) {
        shorthand::emit(
            output,
            "background-image".to_owned(),
            CssValue::String(text::join(images.as_slice(), ", ")),
            important,
        );
        shorthand::emit(
            output,
            "background-repeat".to_owned(),
            CssValue::String(text::join(repeats.as_slice(), ", ")),
            important,
        );
        shorthand::emit(
            output,
            "background-position".to_owned(),
            CssValue::String(text::join(positions.as_slice(), ", ")),
            important,
        );
    } else if none {
        shorthand::emit(
            output,
            "background-image".to_owned(),
            CssValue::Keyword("none".to_owned()),
            important,
        );
    }
    assert(shorthand::declared(output@) =~= base + background_declarations(v@, important));
}

// ---------------------------------------------------------------------------
// One declaration
// ---------------------------------------------------------------------------
/// The components among the first `n` parts that the engine can represent.
pub open spec fn represented(parts: Seq<Seq<char>>, n: int) -> Seq<ValueModel>
    decreases n,
{
    if n <= 0 {
        seq![]
    } else {
        match value::component_model(parts[n - 1]) {
            Some(v) => represented(parts, n - 1).push(v),
            None => represented(parts, n - 1),
        }
    }
}

pub open spec fn component_models(v: Seq<char>) -> Seq<ValueModel> {
    let parts = value::components(v);
    represented(parts, parts.len() as int)
}

/// The declarations with `!important` set.
pub open spec fn marked(list: Seq<DeclarationModel>, important: bool) -> Seq<DeclarationModel> {
    if important {
        Seq::new(list.len(), |i: int| DeclarationModel { important: true, ..list[i] })
    } else {
        list
    }
}

/// What one declaration adds to a block.
pub open spec fn declaration_models(name: Seq<char>, source: Seq<char>) -> Seq<DeclarationModel> {
    let (v, important) = importance(source);
    if name.len() == 0 {
        seq![]
    } else if name == "font"@ {
        font_declarations(v, important)
    } else if name == "background"@ {
        background_declarations(v, important)
    } else if properties::raw_kept(name) {
        seq![declaration(name, ValueModel::Keyword(text::trimmed(v)), important)]
    } else if text::starts(name, "--"@) {
        seq![declaration(name, ValueModel::String(text::trimmed(v)), important)]
    } else if text::found_word(v, "var("@) is Some {
        seq![declaration(name, ValueModel::Unresolved(text::trimmed(v)), important)]
    } else if name == "font-family"@ {
        match family_list(v) {
            Some(families) => seq![declaration(name, ValueModel::Keyword(families), important)],
            None => seq![],
        }
    } else if component_models(v).len() == 0 {
        seq![]
    } else {
        marked(shorthand::expansion(name, component_models(v)), important)
    }
}

fn read_components(v: &[char]) -> (r: Vec<CssValue>)
    ensures
        value::models(r@) == component_models(v@),
{
    let parts = value::components_of(v);
    let ghost pv = value::components(v@);
    let mut values: Vec<CssValue> = Vec::new();
    let mut i: usize = 0;
    assert(value::models(values@) =~= represented(pv, 0));
    while i < parts.len()
        invariant
            i <= parts@.len(),
            text::texts(parts@) == pv,
            value::models(values@) == represented(pv, i as int),
        decreases parts@.len() - i,
    {
        assert(pv[i as int] == parts@[i as int]@);
        let ghost before = values@;
        if let Some(v) = CssValue::parse_component(parts[i].as_str()) {
            values.push(v);
            assert(value::models(values@) =~= value::models(before).push(v@));
        }
        i = i + 1;
    }
    assert(pv.len() == parts@.len());
    values
}

fn mark_important(list: &mut Vec<Declaration>, start: usize)
    requires
        start <= old(list)@.len(),
    ensures
        shorthand::declared(final(list)@) == shorthand::declared(old(list)@).take(start as int)
            + marked(shorthand::declared(old(list)@).skip(start as int), true),
{
    let ghost before = shorthand::declared(list@);
    let ghost goal = before.take(start as int) + marked(before.skip(start as int), true);
    let mut i: usize = start;
    while i < list.len()
        invariant
            start <= i <= list@.len(),
            list@.len() == before.len(),
            forall|j: int|
                0 <= j < list@.len() ==> (#[trigger] list@[j])@ == if start <= j < i {
                    DeclarationModel { important: true, ..before[j] }
                } else {
                    before[j]
                },
        decreases list@.len() - i,
    {
        let mut item = list[i].clone();
        item.important = true;
        list.set(i, item);
        i = i + 1;
    }
    assert(shorthand::declared(list@) =~= goal);
}

/// Runs one declaration through the value pipeline: `!important` peeling,
/// shorthand expansion, raw-kept and `var()`-carrying properties, then
/// component parsing with longhand expansion.
pub fn push_declaration(name: &str, source: &str, output: &mut Vec<Declaration>)
    ensures
        shorthand::declared(final(output)@) == shorthand::declared(old(output)@)
            + declaration_models(name@, source@),
{
    let ghost base = shorthand::declared(output@);
    assert(base + Seq::<DeclarationModel>::empty() =~= base);
    if name.is_empty() {
        return;
    }
    let chars = text::chars_of(source);
    let (v, important) = peel_important(chars.as_slice());
    if text::same_str(name, "font") {
        expand_font_shorthand(v, output, important);
        return;
    }
    if text::same_str(name, "background") {
        expand_background_shorthand(v, output, important);
        return;
    }
    let name_chars = text::chars_of(name);
    let n = name_chars.as_slice();
    if properties::keeps_raw(name) {
        let raw = CssValue::Keyword(text::text_of(text::trim(v)));
        shorthand::emit(output, name.to_owned(), raw, important);
        assert(shorthand::declared(output@) =~= base + declaration_models(name@, source@));
        return;
    }
    if text::starts_with(n, "--") {
        let raw = CssValue::String(text::text_of(text::trim(v)));
        shorthand::emit(output, name.to_owned(), raw, important);
        assert(shorthand::declared(output@) =~= base + declaration_models(name@, source@));
        return;
    }
    if text::find(v, "var(").is_some() {
        let raw = CssValue::Unresolved(text::text_of(text::trim(v)));
        shorthand::emit(output, name.to_owned(), raw, important);
        assert(shorthand::declared(output@) =~= base + declaration_models(name@, source@));
        return;
    }
    if text::is_word(n, "font-family") {
        if let Some(families) = normalize_font_families(v) {
            shorthand::emit(output, name.to_owned(), CssValue::Keyword(families), important);
        }
        assert(shorthand::declared(output@) =~= base + declaration_models(name@, source@));
        return;
    }
    let components = read_components(v);
    assert(component_models(v@).len() == components@.len());
    if components.len() == 0 {
        return;
    }
    let start: usize = output.len();
    shorthand::expand_declaration(name, &components, output);
    if important {
        let ghost whole = shorthand::declared(output@);
        assert(start == base.len() && whole.len() == output@.len());
        mark_important(output, start);
        proof {
            assert(whole.take(start as int) =~= base);
            assert(whole.skip(start as int) =~= shorthand::expansion(
                name@,
                component_models(v@),
            ));
        }
    }
}

/// What the first `n` raw `name: value` pairs of a block declare.
pub open spec fn block_models(pairs: Seq<(String, String)>, n: int) -> Seq<DeclarationModel>
    decreases n,
{
    if n <= 0 {
        seq![]
    } else {
        block_models(pairs, n - 1) + declaration_models(
            text::lowered(pairs[n - 1].0@),
            text::trimmed(pairs[n - 1].1@),
        )
    }
}

/// Runs the declaration pipeline over the raw pairs of one block (a style
/// rule body, an inline `style=` attribute, a `@keyframes` frame).
pub fn collect_declarations(pairs: &Vec<(String, String)>) -> (r: Vec<Declaration>)
    ensures
        shorthand::declared(r@) == block_models(pairs@, pairs@.len() as int),
{
    let mut output: Vec<Declaration> = Vec::new();
    let mut i: usize = 0;
    assert(shorthand::declared(output@) =~= block_models(pairs@, 0));
    while i < pairs.len()
        invariant
            i <= pairs@.len(),
            shorthand::declared(output@) == block_models(pairs@, i as int),
        decreases pairs@.len() - i,
    {
        let name_chars = text::chars_of(pairs[i].0.as_str());
        let name = text::text_of(text::to_lowered(name_chars.as_slice()).as_slice());
        let value_chars = text::chars_of(pairs[i].1.as_str());
        let source = text::text_of(text::trim(value_chars.as_slice()));
        push_declaration(name.as_str(), source.as_str(), &mut output);
        i = i + 1;
    }
    output
}

// ---------------------------------------------------------------------------
// Laws
// ---------------------------------------------------------------------------
proof fn lemma_font_importance(parts: Seq<Seq<char>>, n: int, important: bool)
    ensures
        forall|i: int|
            0 <= i < font_state(parts, n, important).declarations.len() ==> (
            #[trigger] font_state(parts, n, important).declarations[i]).important == important,
    decreases n,
{
    if n > 0 {
        lemma_font_importance(parts, n - 1, important);
        let before = font_state(parts, n - 1, important);
        let after = font_state(parts, n, important);
        assert forall|i: int| 0 <= i < after.declarations.len() implies (
        #[trigger] after.declarations[i]).important == important by {
            if i < before.declarations.len() {
                assert(after.declarations[i] == before.declarations[i]);
            }
        }
    }
}

proof fn lemma_layered_importance(state: BackgroundModel, important: bool, i: int)
    requires
        0 <= i < layered_declarations(state, important).len(),
    ensures
        layered_declarations(state, important)[i].important == important,
{
}

proof fn lemma_plain_importance(name: Seq<char>, source: Seq<char>, i: int)
    requires
        0 <= i < declaration_models(name, source).len(),
        name != "font"@,
        name != "background"@,
    ensures
        declaration_models(name, source)[i].important == importance(source).1,
{
    let c = component_models(importance(source).0);
    if i < shorthand::expansion(name, c).len() {
        shorthand::law_expansions_are_plain(name, c, i);
    }
}

/// Every declaration that a source stands for is as important as the source:
/// `!important` on a shorthand reaches each of its longhands, and nothing else
/// makes one important.
pub proof fn law_importance_is_shared(name: Seq<char>, source: Seq<char>, i: int)
    requires
        0 <= i < declaration_models(name, source).len(),
    ensures
        declaration_models(name, source)[i].important == importance(source).1,
{
    let (v, important) = importance(source);
    if name == "font"@ {
        let parts = value::components(v);
        lemma_font_importance(parts, parts.len() as int, important);
    } else if name == "background"@ {
        let layers = text::split_outer(v, ',');
        lemma_layered_importance(
            background_state(layers, layers.len() as int),
            important,
            i,
        );
    } else {
        lemma_plain_importance(name, source, i);
    }
}

proof fn lemma_importance_appended(v: Seq<char>)
    ensures
        importance(v + " !important"@) == (v.push(' '), true),
{
    reveal_strlit(" !important");
    reveal_strlit("important");
    reveal_strlit("!");
    let s = v + " !important"@;
    let n = v.len() as int;
    assert(s.last() == 't');
    assert(text::trim_back(s, s.len() as int) == s.len());
    assert(text::trimmed_end(s) =~= s);
    let low = text::lowered(s);
    assert(low.skip(low.len() - 9) =~= "important"@);
    let rest = low.take(low.len() - 9);
    assert(rest.len() == n + 2 && rest.last() == '!');
    assert(text::trim_back(rest, rest.len() as int) == rest.len());
    assert(text::trimmed_end(rest) =~= rest);
    assert(rest.skip(rest.len() - 1) =~= "!"@);
    assert(s.take(n + 1) =~= v.push(' '));
}

proof fn lemma_represented_space(parts: Seq<Seq<char>>, other: Seq<Seq<char>>, n: int)
    requires
        0 <= n <= parts.len(),
        other == parts || other == text::spaced(parts),
    ensures
        represented(other, n) == represented(parts, n),
    decreases n,
{
    if n > 0 {
        lemma_represented_space(parts, other, n - 1);
        value::lemma_component_space(parts[n - 1]);
    }
}

proof fn lemma_component_models_space(v: Seq<char>)
    ensures
        component_models(v.push(' ')) == component_models(v),
{
    value::lemma_components_space(v);
    let parts = value::components(v);
    lemma_represented_space(parts, value::components(v.push(' ')), parts.len() as int);
}

proof fn lemma_usable_families_space(parts: Seq<Seq<char>>, n: int)
    requires
        0 <= n <= parts.len(),
    ensures
        usable_families(text::spaced(parts), n) == usable_families(parts, n),
    decreases n,
{
    if n > 0 {
        lemma_usable_families_space(parts, n - 1);
        text::lemma_trimmed_space(parts[n - 1]);
    }
}

proof fn lemma_family_list_space(v: Seq<char>)
    ensures
        family_list(v.push(' ')) == family_list(v),
{
    text::lemma_split_outer_space(v, ',');
    let parts = text::split_outer(v, ',');
    lemma_usable_families_space(parts, parts.len() as int);
}

/// A `font` shorthand reads the same with and without `!important`.
proof fn lemma_font_marked(parts: Seq<Seq<char>>, n: int)
    ensures
        ({
            let plain = font_state(parts, n, false);
            font_state(parts, n, true) == (FontModel {
                declarations: marked(plain.declarations, true),
                ..plain
            })
        }),
    decreases n,
{
    let plain = font_state(parts, n, false);
    let flagged = font_state(parts, n, true);
    if n > 0 {
        lemma_font_marked(parts, n - 1);
    }
    assert(flagged.declarations =~= marked(plain.declarations, true));
}

/// No keyword of a `font` shorthand holds a quote or an opening parenthesis.
proof fn lemma_words_open_nothing(s: Seq<char>, i: int)
    requires
        0 <= i < s.len(),
        s[i] == '(' || s[i] == '"' || s[i] == '\'',
    ensures
        s != "normal"@,
        s != "small-caps"@,
        s != "italic"@,
        s != "oblique"@,
        s != "bold"@,
        s != "bolder"@,
        !is_system_font(s),
{
    reveal_strlit("normal");
    reveal_strlit("small-caps");
    reveal_strlit("italic");
    reveal_strlit("oblique");
    reveal_strlit("bold");
    reveal_strlit("bolder");
    reveal_strlit("caption");
    reveal_strlit("icon");
    reveal_strlit("menu");
    reveal_strlit("message-box");
    reveal_strlit("small-caption");
    reveal_strlit("status-bar");
    assert(text::lowered(s)[i] == s[i]);
    if s.len() <= 13 {
        assert(i == 0 || i == 1 || i == 2 || i == 3 || i == 4 || i == 5 || i == 6 || i == 7 || i
            == 8 || i == 9 || i == 10 || i == 11 || i == 12);
    }
    assert forall|k: Seq<char>| text::eq_ci(s, k) implies k.len() == s.len() by {
        assert(text::lowered(s).len() == s.len() && text::lowered(k).len() == k.len());
    }
    assert(!text::eq_ci(s, "caption"@)) by {
        if text::eq_ci(s, "caption"@) {
            assert(text::lowered("caption"@)[i] == s[i]);
        }
    }
    assert(!text::eq_ci(s, "icon"@)) by {
        if text::eq_ci(s, "icon"@) {
            assert(text::lowered("icon"@)[i] == s[i]);
        }
    }
    assert(!text::eq_ci(s, "menu"@)) by {
        if text::eq_ci(s, "menu"@) {
            assert(text::lowered("menu"@)[i] == s[i]);
        }
    }
    assert(!text::eq_ci(s, "message-box"@)) by {
        if text::eq_ci(s, "message-box"@) {
            assert(text::lowered("message-box"@)[i] == s[i]);
        }
    }
    assert(!text::eq_ci(s, "small-caption"@)) by {
        if text::eq_ci(s, "small-caption"@) {
            assert(text::lowered("small-caption"@)[i] == s[i]);
        }
    }
    assert(!text::eq_ci(s, "status-bar"@)) by {
        if text::eq_ci(s, "status-bar"@) {
            assert(text::lowered("status-bar"@)[i] == s[i]);
        }
    }
}

/// A space behind an open component of a `font` shorthand matters only in the
/// family, where it stays.
proof fn lemma_font_step_space(state: FontModel, component: Seq<char>, important: bool)
    requires
        value::opens(component),
    ensures
        ({
            let with = font_step(state, component.push(' '), important);
            let without = font_step(state, component, important);
            if state.saw_size {
                &&& without.family == state.family.push(component)
                &&& with == (FontModel {
                    family: state.family.push(component.push(' ')),
                    ..without
                })
            } else {
                with == without && without.family == state.family
            }
        }),
        !is_system_font(component),
        !is_system_font(component.push(' ')),
{
    let i = choose|i: int|
        0 <= i < component.len() && ((#[trigger] component[i]) == '(' || component[i] == '"'
            || component[i] == '\'');
    assert(component.push(' ')[i] == component[i]);
    lemma_words_open_nothing(component, i);
    lemma_words_open_nothing(component.push(' '), i);
    text::lemma_halves_space(component, '/');
    value::lemma_component_space(component);
    if let Some((size, line_height)) = text::halves(component, '/') {
        value::lemma_component_space(line_height);
    }
}

proof fn lemma_font_state_space(parts: Seq<Seq<char>>, n: int, important: bool)
    requires
        0 <= n < parts.len(),
    ensures
        font_state(text::spaced(parts), n, important) == font_state(parts, n, important),
    decreases n,
{
    if n > 0 {
        lemma_font_state_space(parts, n - 1, important);
    }
}

proof fn lemma_system_font_space(parts: Seq<Seq<char>>)
    requires
        parts.len() > 0,
        !is_system_font(parts.last()),
        !is_system_font(parts.last().push(' ')),
    ensures
        names_system_font(text::spaced(parts), parts.len() as int) == names_system_font(
            parts,
            parts.len() as int,
        ),
{
    let other = text::spaced(parts);
    let n = parts.len() as int;
    if names_system_font(parts, n) {
        let i = choose|i: int| 0 <= i < n && is_system_font(#[trigger] parts[i]);
        assert(is_system_font(other[i]));
    }
    if names_system_font(other, n) {
        let i = choose|i: int| 0 <= i < n && is_system_font(#[trigger] other[i]);
        assert(is_system_font(parts[i]));
    }
}

proof fn lemma_font_space(v: Seq<char>, important: bool)
    ensures
        font_declarations(v.push(' '), important) == font_declarations(v, important),
{
    value::lemma_components_space(v);
    if !value::closed(v) {
        let parts = value::components(v);
        let last = parts.len() - 1;
        let state = font_state(parts, last, important);
        lemma_font_state_space(parts, last, important);
        lemma_font_step_space(state, parts[last], important);
        lemma_system_font_space(parts);
        if state.saw_size {
            let family = state.family.push(parts[last]);
            assert(text::spaced(family) =~= state.family.push(parts[last].push(' ')));
            text::lemma_joined_space(family, " "@);
            lemma_family_list_space(text::joined(family, " "@));
        }
    }
}

/// Whether the last layer of a background ends inside quotes or parentheses,
/// in a component whose text is kept as written.
pub open spec fn ends_in_open_image(v: Seq<char>) -> bool {
    let layer = text::split_outer(v, ',').last();
    let parts = value::components(layer);
    !value::closed(layer) && match value::component_model(parts.last()) {
        Some(ValueModel::Url(u)) => true,
        Some(ValueModel::Function(f, a)) => true,
        Some(ValueModel::Length(n, unit)) => true,
        _ => false,
    }
}

proof fn lemma_layer_state_space(
    parts: Seq<Seq<char>>,
    n: int,
    color: Option<ValueModel>,
    none: bool,
)
    requires
        0 <= n < parts.len(),
    ensures
        layer_state(text::spaced(parts), n, color, none) == layer_state(parts, n, color, none),
    decreases n,
{
    if n > 0 {
        lemma_layer_state_space(parts, n - 1, color, none);
    }
}

proof fn lemma_background_state_space(layers: Seq<Seq<char>>, n: int)
    requires
        0 <= n < layers.len(),
    ensures
        background_state(text::spaced(layers), n) == background_state(layers, n),
    decreases n,
{
    if n > 0 {
        lemma_background_state_space(layers, n - 1);
    }
}

proof fn lemma_background_space(v: Seq<char>, important: bool)
    requires
        !ends_in_open_image(v),
    ensures
        background_declarations(v.push(' '), important) == background_declarations(v, important),
{
    text::lemma_split_outer_space(v, ',');
    let layers = text::split_outer(v, ',');
    let last = layers.len() - 1;
    let layer = layers[last];
    let before = background_state(layers, last);
    lemma_background_state_space(layers, last);
    value::lemma_components_space(layer);
    if !value::closed(layer) {
        let parts = value::components(layer);
        lemma_layer_state_space(parts, parts.len() - 1, before.color, before.none);
        value::lemma_component_space(parts.last());
    }
    assert(text::spaced(layers)[last] == layer.push(' '));
    assert(layer_of(layer.push(' '), before.color, before.none) == layer_of(
        layer,
        before.color,
        before.none,
    ));
}

proof fn lemma_font_flag(v: Seq<char>)
    ensures
        font_declarations(v.push(' '), true) == marked(font_declarations(v, false), true),
{
    let parts = value::components(v);
    lemma_font_space(v, true);
    lemma_font_marked(parts, parts.len() as int);
    assert(font_declarations(v, true) =~= marked(font_declarations(v, false), true));
}

proof fn lemma_layered_marked(state: BackgroundModel)
    ensures
        layered_declarations(state, true) == marked(layered_declarations(state, false), true),
{
    assert(layered_declarations(state, true) =~= marked(layered_declarations(state, false), true));
}

proof fn lemma_background_flag(v: Seq<char>)
    requires
        !ends_in_open_image(v),
    ensures
        background_declarations(v.push(' '), true) == marked(
            background_declarations(v, false),
            true,
        ),
{
    lemma_background_space(v, true);
    let layers = text::split_outer(v, ',');
    lemma_layered_marked(background_state(layers, layers.len() as int));
}

proof fn lemma_plain_flag(name: Seq<char>, v: Seq<char>)
    requires
        !importance(v).1,
        name != "font"@,
        name != "background"@,
    ensures
        declaration_models(name, v + " !important"@) == marked(declaration_models(name, v), true),
{
    lemma_importance_appended(v);
    reveal_strlit("var(");
    text::lemma_trimmed_space(v);
    text::lemma_found_word_space(v, "var("@);
    lemma_family_list_space(v);
    lemma_component_models_space(v);
    assert(declaration_models(name, v + " !important"@) =~= marked(
        declaration_models(name, v),
        true,
    ));
}

/// ` !important` behind a value sets the flag of each declaration and changes
/// nothing else: neither which are declared, nor what they say. A background
/// that ends inside an open image is left out: its text is kept as written,
/// with the space.
pub proof fn law_important_only_sets_the_flag(name: Seq<char>, v: Seq<char>)
    requires
        !importance(v).1,
        name == "background"@ ==> !ends_in_open_image(v),
    ensures
        ({
            let plain = declaration_models(name, v);
            let flagged = declaration_models(name, v + " !important"@);
            &&& flagged.len() == plain.len()
            &&& forall|i: int|
                0 <= i < plain.len() ==> !(#[trigger] plain[i]).important && flagged[i] == (
                DeclarationModel { important: true, ..plain[i] })
        }),
{
    let plain = declaration_models(name, v);
    let flagged = declaration_models(name, v + " !important"@);
    lemma_importance_appended(v);
    assert forall|i: int| 0 <= i < plain.len() implies !(#[trigger] plain[i]).important by {
        law_importance_is_shared(name, v, i);
    }
    if name == "font"@ {
        lemma_font_flag(v);
    } else if name == "background"@ {
        lemma_background_flag(v);
    } else {
        lemma_plain_flag(name, v);
    }
}

// ---------------------------------------------------------------------------
// What the words of a font shorthand declare
// ---------------------------------------------------------------------------
/// The words that a `font` shorthand may hold before its size.
pub open spec fn is_font_word(part: Seq<char>) -> bool {
    ||| part == "normal"@
    ||| part == "small-caps"@
    ||| part == "italic"@
    ||| part == "oblique"@
    ||| part == "bold"@
    ||| part == "bolder"@
}

/// What a component says before its first slash.
pub open spec fn before_slash(part: Seq<char>) -> Seq<char> {
    if part.contains('/') {
        part.take(part.index_of_first('/')->0)
    } else {
        part
    }
}

/// A component that reads as a size.
pub open spec fn reads_as_size(part: Seq<char>) -> bool {
    !is_font_word(part) && (value::component_model(before_slash(part)) matches Some(v) && v is Length)
}

/// Of an absent character nothing is cut off, and a present one is cut at its
/// first place.
proof fn lemma_size_split(part: Seq<char>)
    ensures
        size_split(part).0 == before_slash(part),
        part.contains('/') ==> size_split(part).1 == Some(
            part.skip(part.index_of_first('/')->0 + 1),
        ),
        !part.contains('/') ==> size_split(part).1 is None,
{
    text::lemma_find_char(part, '/', 0);
    part.index_of_first_ensures('/');
}

/// What one component before the size declares.
proof fn lemma_font_word(state: FontModel, part: Seq<char>, important: bool)
    requires
        !state.saw_size,
        !reads_as_size(part),
    ensures
        !font_step(state, part, important).saw_size,
        font_step(state, part, important).family == state.family,
        ({
            let before = state.declarations;
            let after = font_step(state, part, important).declarations;
            let weight = value::component_model(before_slash(part));
            if part == "bold"@ || part == "bolder"@ {
                after == before.push(
                    DeclarationModel {
                        name: "font-weight"@,
                        value: ValueModel::Keyword("bold"@),
                        important,
                    },
                )
            } else if part == "italic"@ || part == "oblique"@ {
                after == before.push(
                    DeclarationModel {
                        name: "font-style"@,
                        value: ValueModel::Keyword("italic"@),
                        important,
                    },
                )
            } else if !is_font_word(part) && (weight matches Some(ValueModel::Number(w))
                && number::at_least_hundred(w.literal)) {
                after == before.push(
                    DeclarationModel { name: "font-weight"@, value: weight->0, important },
                )
            } else {
                after == before
            }
        }),
        ({
            let before = state.declarations;
            let after = font_step(state, part, important).declarations;
            ||| after == before
            ||| after == before.push(after.last()) && word_declares(part, after.last())
        }),
        forall|d: DeclarationModel|
            d.important == important && #[trigger] word_declares(part, d) ==> font_step(
                state,
                part,
                important,
            ).declarations == state.declarations.push(d),
{
    reveal(word_declares);
    lemma_size_split(part);
    reveal_strlit("normal");
    reveal_strlit("small-caps");
    reveal_strlit("italic");
    reveal_strlit("oblique");
    reveal_strlit("bold");
    reveal_strlit("bolder");
    assert("normal"@.len() == 6 && "small-caps"@.len() == 10 && "italic"@.len() == 6);
    assert("oblique"@.len() == 7 && "bold"@.len() == 4 && "bolder"@.len() == 6);
    assert("normal"@[0] == 'n' && "italic"@[0] == 'i' && "bolder"@[0] == 'b');
}

/// A declaration that a component before the size makes.
#[verifier::opaque]
pub open spec fn word_declares(part: Seq<char>, d: DeclarationModel) -> bool {
    ||| (part == "bold"@ || part == "bolder"@) && d.name == "font-weight"@ && d.value
        == ValueModel::Keyword("bold"@)
    ||| (part == "italic"@ || part == "oblique"@) && d.name == "font-style"@ && d.value
        == ValueModel::Keyword("italic"@)
    ||| !is_font_word(part) && (value::component_model(before_slash(part)) matches Some(
        ValueModel::Number(w),
    ) && number::at_least_hundred(w.literal)) && d.name == "font-weight"@ && Some(d.value)
        == value::component_model(before_slash(part))
}

/// A declaration that one of the first `n` components makes.
pub open spec fn words_declare(parts: Seq<Seq<char>>, n: int, d: DeclarationModel) -> bool {
    exists|i: int| 0 <= i < n && #[trigger] word_declares(parts[i], d)
}

/// What the components before the size declare.
#[verifier::rlimit(40)]
proof fn lemma_font_words(parts: Seq<Seq<char>>, n: int, important: bool)
    requires
        0 <= n <= parts.len(),
        forall|i: int| 0 <= i < n ==> !reads_as_size(#[trigger] parts[i]),
    ensures
        !font_state(parts, n, important).saw_size,
        font_state(parts, n, important).family == Seq::<Seq<char>>::empty(),
        forall|i: int, d: DeclarationModel|
            0 <= i < n && d.important == important && #[trigger] word_declares(parts[i], d)
                ==> font_state(parts, n, important).declarations.contains(d),
        forall|j: int|
            0 <= j < font_state(parts, n, important).declarations.len() ==> words_declare(
                parts,
                n,
                #[trigger] font_state(parts, n, important).declarations[j],
            ),
    decreases n,
{
    if n > 0 {
        lemma_font_words(parts, n - 1, important);
        let state = font_state(parts, n - 1, important);
        let part = parts[n - 1];
        lemma_font_word(state, part, important);
        let before = state.declarations;
        let after = font_state(parts, n, important).declarations;
        assert forall|i: int, d: DeclarationModel|
            0 <= i < n && d.important == important && #[trigger] word_declares(
                parts[i],
                d,
            ) implies after.contains(d) by {
            if i < n - 1 {
                let j = choose|j: int| 0 <= j < before.len() && before[j] == d;
                assert(after[j] == d);
            } else {
                assert(after[before.len() as int] == d);
            }
        }
        assert forall|j: int| 0 <= j < after.len() implies words_declare(
            parts,
            n,
            #[trigger] after[j],
        ) by {
            if j < before.len() {
                assert(after[j] == before[j]);
                assert(words_declare(parts, n - 1, before[j]));
                let i = choose|i: int|
                    0 <= i < n - 1 && #[trigger] word_declares(parts[i], before[j]);
                assert(word_declares(parts[i], after[j]));
            } else {
                assert(word_declares(parts[n - 1], after[j]));
            }
        }
    }
}

/// What follows the size only names families.
#[verifier::rlimit(40)]
proof fn lemma_font_families(parts: Seq<Seq<char>>, s: int, n: int, important: bool)
    requires
        0 <= s < n <= parts.len(),
        font_state(parts, s + 1, important).saw_size,
        font_state(parts, s + 1, important).family == Seq::<Seq<char>>::empty(),
    ensures
        font_state(parts, n, important).saw_size,
        font_state(parts, n, important).declarations == font_state(
            parts,
            s + 1,
            important,
        ).declarations,
        font_state(parts, n, important).family == parts.subrange(s + 1, n),
    decreases n,
{
    if n > s + 1 {
        lemma_font_families(parts, s, n - 1, important);
        assert(parts.subrange(s + 1, n) =~= parts.subrange(s + 1, n - 1).push(parts[n - 1]));
    } else {
        assert(parts.subrange(s + 1, n) =~= seq![]);
    }
}

/// In a `font` shorthand with a size, `bold` and `bolder` before the size
/// declare the weight `bold`, `italic` and `oblique` the style `italic`, and a
/// number of at least one hundred its own weight. Nothing else declares a
/// weight or a style: in particular none is declared `normal`. The size is
/// declared as written, what follows its slash is the line height, and the
/// components behind it are the families.
pub proof fn law_font_words_declare(source: Seq<char>, s: int)
    requires
        0 <= s < value::components(importance(source).0).len(),
        reads_as_size(value::components(importance(source).0)[s]),
        forall|i: int|
            0 <= i < s ==> !reads_as_size(#[trigger] value::components(importance(source).0)[i]),
    ensures
        ({
            let parts = value::components(importance(source).0);
            let important = importance(source).1;
            let list = declaration_models("font"@, source);
            let size = parts[s];
            let rest = text::joined(parts.skip(s + 1), seq![' ']);
            &&& forall|i: int|
                0 <= i < s && (#[trigger] parts[i] == "bold"@ || parts[i] == "bolder"@)
                    ==> list.contains(
                    (DeclarationModel {
                        name: "font-weight"@,
                        value: ValueModel::Keyword("bold"@),
                        important,
                    }),
                )
            &&& forall|i: int|
                0 <= i < s && (#[trigger] parts[i] == "italic"@ || parts[i] == "oblique"@)
                    ==> list.contains(
                    (DeclarationModel {
                        name: "font-style"@,
                        value: ValueModel::Keyword("italic"@),
                        important,
                    }),
                )
            &&& forall|i: int|
                0 <= i < s && !is_font_word(#[trigger] parts[i]) && (value::component_model(
                    before_slash(parts[i]),
                ) matches Some(ValueModel::Number(w)) && number::at_least_hundred(w.literal))
                    ==> list.contains(
                    (DeclarationModel {
                        name: "font-weight"@,
                        value: value::component_model(before_slash(parts[i]))->0,
                        important,
                    }),
                )
            &&& forall|j: int|
                0 <= j < list.len() && (#[trigger] list[j]).name == "font-weight"@
                    ==> list[j].value != ValueModel::Keyword("normal"@) && (if exists|i: int|
                    0 <= i < s && (#[trigger] parts[i] == "bold"@ || parts[i] == "bolder"@) {
                    list[j].value == ValueModel::Keyword("bold"@) || list[j].value is Number
                } else {
                    list[j].value is Number
                })
            &&& forall|j: int|
                0 <= j < list.len() && (#[trigger] list[j]).name == "font-style"@ ==> list[j].value
                    == ValueModel::Keyword("italic"@) && (exists|i: int|
                    0 <= i < s && (#[trigger] parts[i] == "italic"@ || parts[i] == "oblique"@))
            &&& list.contains(
                (DeclarationModel {
                    name: "font-size"@,
                    value: value::component_model(before_slash(size))->0,
                    important,
                }),
            )
            &&& size.contains('/') ==> (value::component_model(
                size.skip(size.index_of_first('/')->0 + 1),
            ) matches Some(height) ==> list.contains(
                (DeclarationModel { name: "line-height"@, value: height, important }),
            ))
            &&& family_list(rest) matches Some(families) ==> list.contains(
                (DeclarationModel {
                    name: "font-family"@,
                    value: ValueModel::Keyword(families),
                    important,
                }),
            )
            &&& forall|j: int|
                0 <= j < list.len() && (#[trigger] list[j]).name == "font-family"@
                    ==> family_list(rest) is Some
        }),
{
    let parts = value::components(importance(source).0);
    let important = importance(source).1;
    let n = parts.len() as int;
    let list = declaration_models("font"@, source);
    let words = font_state(parts, s, important).declarations;
    let sized = font_state(parts, s + 1, important).declarations;
    let part = parts[s];
    reveal(word_declares);
    reveal_strlit("font");
    reveal_strlit("bold");
    reveal_strlit("normal");
    reveal_strlit("font-weight");
    reveal_strlit("font-style");
    reveal_strlit("font-size");
    reveal_strlit("font-family");
    reveal_strlit("line-height");
    reveal_strlit(" ");
    assert(" "@ =~= seq![' ']);
    assert("normal"@.len() != "bold"@.len());
    assert("font-weight"@.len() == 11 && "font-style"@.len() == 10 && "font-size"@.len() == 9);
    assert("font-family"@.len() == 11 && "line-height"@.len() == 11);
    assert("font-weight"@[5] == 'w' && "font-family"@[5] == 'f' && "line-height"@[5] == 'h');
    lemma_font_words(parts, s, important);
    lemma_size_split(part);
    let size = declaration("font-size"@, value::component_model(before_slash(part))->0, important);
    let height = line_height_declarations(size_split(part).1, important);
    assert(sized == words.push(size) + height);
    lemma_font_families(parts, s, n, important);
    assert(parts.subrange(s + 1, n) =~= parts.skip(s + 1));
    assert forall|j: int| 0 <= j < sized.len() implies list[j] == sized[j] by {}
    assert forall|d: DeclarationModel| sized.contains(d) implies list.contains(d) by {
        let j = choose|j: int| 0 <= j < sized.len() && sized[j] == d;
        assert(list[j] == d);
    }
    assert forall|d: DeclarationModel| words.contains(d) implies list.contains(d) by {
        let j = choose|j: int| 0 <= j < words.len() && words[j] == d;
        assert(sized[j] == d);
        assert(list[j] == d);
    }
    assert(sized[words.len() as int] == size);
    if height.len() > 0 {
        assert(sized[words.len() as int + 1] == height[0]);
    }
    if list.len() > sized.len() {
        assert(list.contains(list[sized.len() as int]));
    }
    let bold = declaration("font-weight"@, ValueModel::Keyword("bold"@), important);
    let italic = declaration("font-style"@, ValueModel::Keyword("italic"@), important);
    assert forall|i: int|
        0 <= i < s && (#[trigger] parts[i] == "bold"@ || parts[i] == "bolder"@) implies list.contains(
        bold,
    ) by {
        assert(word_declares(parts[i], bold));
    }
    assert forall|i: int|
        0 <= i < s && (#[trigger] parts[i] == "italic"@ || parts[i] == "oblique"@) implies list.contains(
        italic,
    ) by {
        assert(word_declares(parts[i], italic));
    }
    assert forall|i: int|
        0 <= i < s && !is_font_word(#[trigger] parts[i]) && (value::component_model(
            before_slash(parts[i]),
        ) matches Some(ValueModel::Number(w)) && number::at_least_hundred(
            w.literal,
        )) implies list.contains(
        declaration(
            "font-weight"@,
            value::component_model(before_slash(parts[i]))->0,
            important,
        ),
    ) by {
        let weight = value::component_model(before_slash(parts[i]))->0;
        assert(word_declares(parts[i], declaration("font-weight"@, weight, important)));
    }
    assert forall|j: int| 0 <= j < list.len() implies (j < words.len() && #[trigger] list[j]
        == words[j]) || list[j].name == "font-size"@ || list[j].name == "line-height"@
        || list[j].name == "font-family"@ by {
        if j < words.len() {
            assert(sized[j] == words[j]);
        } else if j < sized.len() {
            assert(list[j] == sized[j]);
        }
    }
}

/// A `font` shorthand that holds one of the system font names and no size
/// declares nothing.
pub proof fn law_system_fonts_declare_nothing(source: Seq<char>, k: int)
    requires
        0 <= k < value::components(importance(source).0).len(),
        forall|i: int|
            0 <= i < value::components(importance(source).0).len() ==> !reads_as_size(
                #[trigger] value::components(importance(source).0)[i],
            ),
        ({
            let name = value::components(importance(source).0)[k];
            ||| name == "caption"@
            ||| name == "icon"@
            ||| name == "menu"@
            ||| name == "message-box"@
            ||| name == "small-caption"@
            ||| name == "status-bar"@
        }),
    ensures
        declaration_models("font"@, source) == Seq::<DeclarationModel>::empty(),
{
    let parts = value::components(importance(source).0);
    reveal_strlit("font");
    lemma_font_words(parts, parts.len() as int, importance(source).1);
    assert(is_system_font(parts[k]));
}

} // verus!
