//! What the components of a background shorthand declare.
use crate::css::declaration;
use crate::css::shorthand::DeclarationModel;
use crate::css::value::{self, ValueModel};
use crate::text;
use vstd::prelude::*;

verus! {

/// A component that gives the color: a color, or `transparent`.
#[verifier::opaque]
pub open spec fn says_color(part: Seq<char>) -> bool {
    value::component_model(part) matches Some(v) && (v is Color || v == ValueModel::Keyword(
        "transparent"@,
    ))
}

/// A component that gives an image: a URL or a function.
#[verifier::opaque]
pub open spec fn says_image(part: Seq<char>) -> bool {
    value::component_model(part) matches Some(v) && (v is Url || v is Function)
}

/// The word of a component that says how an image repeats.
#[verifier::opaque]
pub open spec fn repeat_said(part: Seq<char>) -> Option<Seq<char>> {
    match value::component_model(part) {
        Some(ValueModel::Keyword(k)) => if k == "repeat"@ || k == "no-repeat"@ || k == "repeat-x"@
            || k == "repeat-y"@ {
            Some(k)
        } else {
            None
        },
        _ => None,
    }
}

/// What a component says of the position: one of the words for a side or the
/// center, or a length as it is written.
#[verifier::opaque]
pub open spec fn position_said(part: Seq<char>) -> Option<Seq<char>> {
    match value::component_model(part) {
        Some(ValueModel::Keyword(k)) => if k == "left"@ || k == "right"@ || k == "top"@ || k
            == "bottom"@ || k == "center"@ {
            Some(k)
        } else {
            None
        },
        Some(ValueModel::Length(n, unit)) => Some(part),
        _ => None,
    }
}

/// A component that resets the image.
#[verifier::opaque]
pub open spec fn says_none(part: Seq<char>) -> bool {
    value::component_model(part) == Some(ValueModel::Keyword("none"@))
}

proof fn lemma_words_differ()
    ensures
        "transparent"@ != "none"@,
        forall|k: Seq<char>|
            #![trigger declaration::is_repeat(k)]
            declaration::is_repeat(k) ==> k != "transparent"@ && k != "none"@
                && !declaration::is_position(k),
        forall|k: Seq<char>|
            #![trigger declaration::is_position(k)]
            declaration::is_position(k) ==> k != "transparent"@ && k != "none"@,
{
    reveal_strlit("transparent");
    reveal_strlit("none");
    reveal_strlit("repeat");
    reveal_strlit("no-repeat");
    reveal_strlit("repeat-x");
    reveal_strlit("repeat-y");
    reveal_strlit("left");
    reveal_strlit("right");
    reveal_strlit("top");
    reveal_strlit("bottom");
    reveal_strlit("center");
    assert("transparent"@.len() == 11 && "none"@.len() == 4 && "left"@.len() == 4);
    assert("none"@[0] == 'n' && "left"@[0] == 'l' && "repeat"@[0] == 'r');
    assert("repeat"@.len() == 6 && "bottom"@.len() == 6 && "center"@.len() == 6);
    assert("bottom"@[0] == 'b' && "center"@[0] == 'c');
    assert("no-repeat"@.len() == 9 && "repeat-x"@.len() == 8 && "repeat-y"@.len() == 8);
    assert("right"@.len() == 5 && "top"@.len() == 3);
}

/// What one component adds to a layer.
#[verifier::rlimit(40)]
proof fn lemma_layer_step(layer: declaration::LayerModel, part: Seq<char>)
    ensures
        ({
            let next = declaration::layer_step(layer, part);
            &&& next.color == if says_color(part) {
                value::component_model(part)
            } else {
                layer.color
            }
            &&& next.image == if says_image(part) {
                part
            } else {
                layer.image
            }
            &&& next.repeat == match repeat_said(part) {
                Some(k) => k,
                None => layer.repeat,
            }
            &&& next.none == (layer.none || says_none(part))
            &&& next.position == match position_said(part) {
                Some(p) => if layer.position.len() < 2 {
                    layer.position.push(p)
                } else {
                    layer.position
                },
                None => layer.position,
            }
        }),
{
    reveal(says_color);
    reveal(says_image);
    reveal(repeat_said);
    reveal(position_said);
    reveal(says_none);
    lemma_words_differ();
    if let Some(ValueModel::Keyword(k)) = value::component_model(part) {
        assert(declaration::is_repeat(k) || !declaration::is_repeat(k));
        assert(declaration::is_position(k) || !declaration::is_position(k));
    }
}

/// The place of the last of the first `n` components that give the color; `-1`
/// where none does.
pub open spec fn last_color(parts: Seq<Seq<char>>, n: int) -> int
    decreases n,
{
    if n <= 0 {
        -1
    } else if says_color(parts[n - 1]) {
        n - 1
    } else {
        last_color(parts, n - 1)
    }
}

pub open spec fn last_image(parts: Seq<Seq<char>>, n: int) -> int
    decreases n,
{
    if n <= 0 {
        -1
    } else if says_image(parts[n - 1]) {
        n - 1
    } else {
        last_image(parts, n - 1)
    }
}

pub open spec fn last_repeat(parts: Seq<Seq<char>>, n: int) -> int
    decreases n,
{
    if n <= 0 {
        -1
    } else if repeat_said(parts[n - 1]) is Some {
        n - 1
    } else {
        last_repeat(parts, n - 1)
    }
}

/// The positions that the first `n` components say.
pub open spec fn positions_said(parts: Seq<Seq<char>>, n: int) -> Seq<Seq<char>>
    decreases n,
{
    if n <= 0 {
        seq![]
    } else {
        match position_said(parts[n - 1]) {
            Some(p) => positions_said(parts, n - 1).push(p),
            None => positions_said(parts, n - 1),
        }
    }
}

#[verifier::rlimit(40)]
proof fn lemma_layer(parts: Seq<Seq<char>>, n: int, color: Option<ValueModel>, none: bool)
    requires
        0 <= n <= parts.len(),
    ensures
        ({
            let layer = declaration::layer_state(parts, n, color, none);
            let c = last_color(parts, n);
            let i = last_image(parts, n);
            let r = last_repeat(parts, n);
            let p = positions_said(parts, n);
            &&& -1 <= c < n && -1 <= i < n && -1 <= r < n
            &&& layer.color == if c >= 0 {
                value::component_model(parts[c])
            } else {
                color
            }
            &&& layer.image == if i >= 0 {
                parts[i]
            } else {
                "none"@
            }
            &&& layer.repeat == if r >= 0 {
                repeat_said(parts[r])->0
            } else {
                "repeat"@
            }
            &&& layer.none == (none || exists|k: int| 0 <= k < n && says_none(#[trigger] parts[k]))
            &&& layer.position == if p.len() <= 2 {
                p
            } else {
                p.take(2)
            }
        }),
    decreases n,
{
    if n > 0 {
        lemma_layer(parts, n - 1, color, none);
        let before = declaration::layer_state(parts, n - 1, color, none);
        let after = declaration::layer_state(parts, n, color, none);
        lemma_layer_step(before, parts[n - 1]);
        let p = positions_said(parts, n - 1);
        let q = positions_said(parts, n);
        assert(after.position =~= if q.len() <= 2 {
            q
        } else {
            q.take(2)
        });
        if says_none(parts[n - 1]) {
            assert(says_none(parts[n - 1]));
        }
    }
}

/// A background of one layer declares the last color that it holds. With an
/// image it declares the last one as it is written, how it repeats, which is
/// `repeat` where nothing says otherwise, and its position, which is made of
/// the first two that are given and is the top left corner where none is.
/// Without an image, `none` declares that there is none.
#[verifier::rlimit(60)]
pub proof fn law_backgrounds_declare_their_parts(v: Seq<char>, important: bool)
    requires
        text::split_outer(v, ',') == seq![v],
    ensures
        ({
            let parts = value::components(v);
            let n = parts.len() as int;
            let list = declaration::background_declarations(v, important);
            let c = last_color(parts, n);
            let i = last_image(parts, n);
            let r = last_repeat(parts, n);
            let p = positions_said(parts, n);
            let position = if p.len() == 0 {
                "0px 0px"@
            } else if p.len() == 1 {
                p[0]
            } else {
                p[0] + seq![' '] + p[1]
            };
            &&& c >= 0 ==> list.len() > 0 && list[0] == (DeclarationModel {
                name: "background-color"@,
                value: value::component_model(parts[c])->0,
                important,
            })
            &&& i >= 0 && parts[i] != "none"@ ==> {
                let k = if c >= 0 {
                    1int
                } else {
                    0
                };
                &&& list.len() == k + 3
                &&& list[k] == (DeclarationModel {
                    name: "background-image"@,
                    value: ValueModel::String(parts[i]),
                    important,
                })
                &&& list[k + 1] == (DeclarationModel {
                    name: "background-repeat"@,
                    value: ValueModel::String(
                        if r >= 0 {
                            repeat_said(parts[r])->0
                        } else {
                            "repeat"@
                        },
                    ),
                    important,
                })
                &&& list[k + 2] == (DeclarationModel {
                    name: "background-position"@,
                    value: ValueModel::String(position),
                    important,
                })
            }
            &&& i < 0 && c < 0 && (exists|k: int| 0 <= k < n && says_none(#[trigger] parts[k]))
                ==> list == seq![
                DeclarationModel {
                    name: "background-image"@,
                    value: ValueModel::Keyword("none"@),
                    important,
                },
            ]
            &&& i < 0 && (forall|k: int| 0 <= k < n ==> !says_none(#[trigger] parts[k]))
                ==> list.len() == if c >= 0 {
                1int
            } else {
                0
            }
        }),
{
    let parts = value::components(v);
    let n = parts.len() as int;
    let layers = seq![v];
    lemma_layer(parts, n, None, false);
    let layer = declaration::layer_of(v, None, false);
    let first = declaration::background_state(layers, 0);
    let state = declaration::background_state(layers, 1);
    assert(state.images =~= seq![layer.image]);
    assert(state.repeats =~= seq![layer.repeat]);
    assert(state.positions =~= seq![declaration::position_text(layer.position)]);
    assert(text::joined(state.images, ", "@) == layer.image);
    assert(text::joined(state.repeats, ", "@) == layer.repeat);
    assert(text::joined(state.positions, ", "@) == declaration::position_text(layer.position));
    assert(state.images[0] == layer.image);
    let p = positions_said(parts, n);
    reveal_strlit(" ");
    assert(" "@ =~= seq![' ']);
    if p.len() == 1 {
        assert(layer.position =~= seq![p[0]]);
        assert(text::joined(seq![p[0]], " "@) == p[0]);
    } else if p.len() >= 2 {
        assert(layer.position =~= seq![p[0]].push(p[1]));
        text::law_joining(seq![p[0]], p[1], " "@);
    }
    let c = last_color(parts, n);
    if c >= 0 {
        lemma_color_reads(parts, n);
    }
}

proof fn lemma_color_reads(parts: Seq<Seq<char>>, n: int)
    requires
        0 <= n <= parts.len(),
        last_color(parts, n) >= 0,
    ensures
        last_color(parts, n) < n,
        value::component_model(parts[last_color(parts, n)]) is Some,
    decreases n,
{
    reveal(says_color);
    if n > 0 && !says_color(parts[n - 1]) {
        lemma_color_reads(parts, n - 1);
    }
}

/// A background shorthand is read as such: what it declares is declared with
/// its importance.
pub proof fn law_background_is_a_shorthand(source: Seq<char>)
    ensures
        declaration::declaration_models("background"@, source)
            == declaration::background_declarations(
            declaration::importance(source).0,
            declaration::importance(source).1,
        ),
{
    reveal_strlit("background");
    reveal_strlit("font");
    assert("background"@.len() == 10 && "font"@.len() == 4);
}

} // verus!
