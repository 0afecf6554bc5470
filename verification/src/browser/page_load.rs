//! Decisions of a page load: which fonts and images it fetches, and what its
//! stylesheet animates.
use crate::browser::document::NodeId;
use crate::css::font_face::{self, FontFace, FontFaceModel};
use crate::css::shorthand::{self, Declaration, DeclarationModel};
use crate::css::stylesheet::{self, RuleModel, Stylesheet};
use crate::text;
use vstd::prelude::*;

verus! {

/// Image-heavy pages stay bounded.
pub const MAX_IMAGES_PER_PAGE: usize = 32;

// ---------------------------------------------------------------------------
// Fonts
// ---------------------------------------------------------------------------
/// Whether a font source is worth fetching: TrueType, OpenType or WOFF, by its
/// format hint, else by its extension. What the engine cannot parse is passed
/// over once it is fetched.
pub open spec fn is_usable_font(source: Seq<char>, format: Option<Seq<char>>) -> bool {
    match format {
        Some(f) => f == "truetype"@ || f == "opentype"@ || f == "woff"@ || f == "woff2"@,
        None => {
            let low = text::lowered(source);
            text::ends(low, ".ttf"@) || text::ends(low, ".otf"@) || text::ends(low, ".woff"@)
                || text::ends(low, ".woff2"@)
        },
    }
}

/// Whether a font source is worth fetching.
pub fn usable_font(source: &str, format: &Option<String>) -> (r: bool)
    ensures
        r == is_usable_font(source@, text::opt_text(*format)),
{
    match format {
        Some(f) => {
            let f = f.as_str();
            text::same_str(f, "truetype") || text::same_str(f, "opentype") || text::same_str(
                f,
                "woff",
            ) || text::same_str(f, "woff2")
        },
        None => {
            let chars = text::chars_of(source);
            let low = text::to_lowered(chars.as_slice());
            let s = low.as_slice();
            text::ends_with(s, ".ttf") || text::ends_with(s, ".otf") || text::ends_with(s, ".woff")
                || text::ends_with(s, ".woff2")
        },
    }
}

/// The usable ones among the first `n` sources of a face.
pub open spec fn usable_sources(sources: Seq<(Seq<char>, Option<Seq<char>>)>, n: int) -> Seq<
    Seq<char>,
>
    decreases n,
{
    if n <= 0 {
        seq![]
    } else {
        let before = usable_sources(sources, n - 1);
        if is_usable_font(sources[n - 1].0, sources[n - 1].1) {
            before.push(sources[n - 1].0)
        } else {
            before
        }
    }
}

/// The usable sources of the first `n` faces, in source order.
pub open spec fn font_candidates(faces: Seq<FontFaceModel>, n: int) -> Seq<Seq<char>>
    decreases n,
{
    if n <= 0 {
        seq![]
    } else {
        font_candidates(faces, n - 1) + usable_sources(
            faces[n - 1].sources,
            faces[n - 1].sources.len() as int,
        )
    }
}

fn push_usable(face: &FontFace, output: &mut Vec<String>)
    ensures
        text::texts(final(output)@) == text::texts(old(output)@) + usable_sources(
            face@.sources,
            face@.sources.len() as int,
        ),
{
    let ghost start = text::texts(output@);
    let ghost sv = font_face::source_models(face.sources@);
    let mut i: usize = 0;
    assert(start + usable_sources(sv, 0) =~= start);
    while i < face.sources.len()
        invariant
            i <= face.sources@.len(),
            sv == font_face::source_models(face.sources@),
            text::texts(output@) == start + usable_sources(sv, i as int),
        decreases face.sources@.len() - i,
    {
        let ghost before = output@;
        assert(sv[i as int] == (
            face.sources@[i as int].0@,
            text::opt_text(face.sources@[i as int].1),
        ));
        if usable_font(face.sources[i].0.as_str(), &face.sources[i].1) {
            let source = face.sources[i].0.clone();
            proof {
                text::lemma_texts_push(before, source);
            }
            output.push(source);
        }
        i = i + 1;
        assert(text::texts(output@) =~= start + usable_sources(sv, i as int));
    }
}

/// The font sources of a stylesheet that are worth fetching, in the order in
/// which they are tried.
pub fn font_sources(sheet: &Stylesheet) -> (r: Vec<String>)
    ensures
        text::texts(r@) == font_candidates(sheet@.font_faces, sheet@.font_faces.len() as int),
{
    let ghost fv = stylesheet::face_models(sheet.font_faces@);
    let mut output: Vec<String> = Vec::new();
    let mut i: usize = 0;
    assert(text::texts(output@) =~= font_candidates(fv, 0));
    while i < sheet.font_faces.len()
        invariant
            i <= sheet.font_faces@.len(),
            fv == stylesheet::face_models(sheet.font_faces@),
            text::texts(output@) == font_candidates(fv, i as int),
        decreases sheet.font_faces@.len() - i,
    {
        assert(fv[i as int] == sheet.font_faces@[i as int]@);
        push_usable(&sheet.font_faces[i], &mut output);
        i = i + 1;
    }
    output
}

// ---------------------------------------------------------------------------
// Transitions
// ---------------------------------------------------------------------------
pub open spec fn declares(list: Seq<DeclarationModel>, name: Seq<char>, n: int) -> bool
    decreases n,
{
    n > 0 && (declares(list, name, n - 1) || list[n - 1].name == name)
}

/// Whether one of the first `n` rules declares a property.
pub open spec fn rules_declare(rules: Seq<RuleModel>, name: Seq<char>, n: int) -> bool
    decreases n,
{
    n > 0 && (rules_declare(rules, name, n - 1) || declares(
        rules[n - 1].declarations,
        name,
        rules[n - 1].declarations.len() as int,
    ))
}

fn block_declares(list: &Vec<Declaration>, name: &str) -> (r: bool)
    ensures
        r == declares(shorthand::declared(list@), name@, list@.len() as int),
{
    let ghost lv = shorthand::declared(list@);
    let mut found = false;
    let mut i: usize = 0;
    while i < list.len()
        invariant
            i <= list@.len(),
            lv == shorthand::declared(list@),
            found == declares(lv, name@, i as int),
        decreases list@.len() - i,
    {
        assert(lv[i as int] == list@[i as int]@);
        if text::same_str(list[i].name.as_str(), name) {
            found = true;
        }
        i = i + 1;
    }
    found
}

/// Whether a stylesheet declares any `transition` at all.
pub fn has_transitions(sheet: &Stylesheet) -> (r: bool)
    ensures
        r == rules_declare(sheet@.rules, "transition"@, sheet@.rules.len() as int),
{
    let ghost rv = stylesheet::rule_models(sheet.rules@);
    let mut found = false;
    let mut i: usize = 0;
    while i < sheet.rules.len()
        invariant
            i <= sheet.rules@.len(),
            rv == stylesheet::rule_models(sheet.rules@),
            found == rules_declare(rv, "transition"@, i as int),
        decreases sheet.rules@.len() - i,
    {
        assert(rv[i as int] == sheet.rules@[i as int]@);
        if block_declares(&sheet.rules[i].declarations, "transition") {
            found = true;
        }
        i = i + 1;
    }
    found
}

// ---------------------------------------------------------------------------
// Images
// ---------------------------------------------------------------------------
pub type Sources = Seq<(NodeId, Seq<char>)>;

pub open spec fn source_models(list: Seq<(NodeId, String)>) -> Sources {
    Seq::new(list.len(), |i: int| (list[i].0, list[i].1@))
}

/// The place behind the items of `list`, looking back from `i`, whose node
/// does not come after `node`.
pub open spec fn place_for(list: Sources, node: NodeId, i: int) -> int
    decreases i,
{
    if i <= 0 || list[i - 1].0 <= node {
        i
    } else {
        place_for(list, node, i - 1)
    }
}

/// The first `n` sources, ordered by node.
pub open spec fn by_node(list: Sources, n: int) -> Sources
    decreases n,
{
    if n <= 0 {
        seq![]
    } else {
        let before = by_node(list, n - 1);
        let item = list[n - 1];
        before.insert(place_for(before, item.0, before.len() as int), item)
    }
}

/// The image sources that a page fetches: those of its elements in document
/// order, then the backgrounds by node, as far as the cap goes.
pub open spec fn planned_images(sources: Sources, backgrounds: Sources) -> Sources {
    let all = sources + by_node(backgrounds, backgrounds.len() as int);
    if all.len() <= MAX_IMAGES_PER_PAGE {
        all
    } else {
        all.take(MAX_IMAGES_PER_PAGE as int)
    }
}

fn sort_by_node(list: &Vec<(NodeId, String)>) -> (r: Vec<(NodeId, String)>)
    ensures
        source_models(r@) == by_node(source_models(list@), list@.len() as int),
{
    let ghost lv = source_models(list@);
    let mut sorted: Vec<(NodeId, String)> = Vec::new();
    let mut i: usize = 0;
    assert(source_models(sorted@) =~= by_node(lv, 0));
    while i < list.len()
        invariant
            i <= list@.len(),
            lv == source_models(list@),
            source_models(sorted@) == by_node(lv, i as int),
        decreases list@.len() - i,
    {
        let ghost before = source_models(sorted@);
        let node: NodeId = list[i].0;
        let source = list[i].1.clone();
        let mut at: usize = sorted.len();
        while at > 0 && sorted[at - 1].0 > node
            invariant
                at <= sorted@.len(),
                before == source_models(sorted@),
                place_for(before, node, at as int) == place_for(before, node, before.len() as int),
            decreases at,
        {
            assert(before[at - 1].0 == sorted@[at - 1].0);
            at = at - 1;
        }
        assert(at > 0 ==> before[at - 1].0 == sorted@[at - 1].0);
        assert(place_for(before, node, at as int) == at);
        let ghost old_sorted = sorted@;
        sorted.insert(at, (node, source));
        assert(source_models(sorted@) =~= before.insert(at as int, (node, source@)));
        assert(lv[i as int] == (node, source@));
        i = i + 1;
    }
    sorted
}

/// The image sources that a page fetches.
pub fn plan_images(
    sources: &Vec<(NodeId, String)>,
    backgrounds: &Vec<(NodeId, String)>,
) -> (r: Vec<(NodeId, String)>)
    ensures
        source_models(r@) == planned_images(source_models(sources@), source_models(backgrounds@)),
{
    let sorted = sort_by_node(backgrounds);
    let ghost all = source_models(sources@) + source_models(sorted@);
    let mut output: Vec<(NodeId, String)> = Vec::new();
    let mut i: usize = 0;
    assert(source_models(output@) =~= all.take(0));
    while i < sources.len() && i < MAX_IMAGES_PER_PAGE
        invariant
            i <= sources@.len(),
            i <= MAX_IMAGES_PER_PAGE,
            all == source_models(sources@) + source_models(sorted@),
            output@.len() == i,
            source_models(output@) == all.take(i as int),
        decreases sources@.len() - i,
    {
        let source = sources[i].1.clone();
        output.push((sources[i].0, source));
        i = i + 1;
        assert(source_models(output@) =~= all.take(i as int));
    }
    let mut k: usize = 0;
    while k < sorted.len() && output.len() < MAX_IMAGES_PER_PAGE
        invariant
            k <= sorted@.len(),
            k > 0 ==> i == sources@.len(),
            i == sources@.len() || i == MAX_IMAGES_PER_PAGE,
            i <= sources@.len(),
            output@.len() == i + k,
            i + k <= MAX_IMAGES_PER_PAGE,
            all == source_models(sources@) + source_models(sorted@),
            source_models(output@) == all.take(i + k),
        decreases sorted@.len() - k,
    {
        let source = sorted[k].1.clone();
        output.push((sorted[k].0, source));
        k = k + 1;
        assert(source_models(output@) =~= all.take(i + k));
    }
    proof {
        assert(all.len() == sources@.len() + sorted@.len());
        if all.len() <= MAX_IMAGES_PER_PAGE {
            assert(all.take(i + k) =~= all);
        }
    }
    output
}

pub open spec fn ascending(list: Sources) -> bool {
    forall|i: int, j: int| 0 <= i <= j < list.len() ==> #[trigger] list[i].0 <= #[trigger] list[j].0
}

proof fn lemma_place_for(list: Sources, node: NodeId, i: int)
    requires
        0 <= i <= list.len(),
        ascending(list),
    ensures
        0 <= place_for(list, node, i) <= i,
        forall|k: int| 0 <= k < place_for(list, node, i) ==> (#[trigger] list[k]).0 <= node,
        forall|k: int| place_for(list, node, i) <= k < i ==> (#[trigger] list[k]).0 > node,
    decreases i,
{
    if i > 0 && list[i - 1].0 > node {
        lemma_place_for(list, node, i - 1);
    }
}

/// The backgrounds come in the order of their nodes, and every one of them
/// comes as often as it was found.
pub proof fn law_backgrounds_are_ordered(list: Sources, n: int)
    requires
        0 <= n <= list.len(),
    ensures
        ascending(by_node(list, n)),
        by_node(list, n).to_multiset() == list.take(n).to_multiset(),
        by_node(list, n).len() == n,
    decreases n,
{
    if n <= 0 {
        assert(list.take(n) =~= by_node(list, n));
    } else {
        law_backgrounds_are_ordered(list, n - 1);
        let before = by_node(list, n - 1);
        let item = list[n - 1];
        let at = place_for(before, item.0, before.len() as int);
        lemma_place_for(before, item.0, before.len() as int);
        let after = before.insert(at, item);
        assert forall|i: int, j: int| 0 <= i <= j < after.len() implies #[trigger] after[i].0
            <= #[trigger] after[j].0 by {
            let a = if i < at {
                i
            } else {
                i - 1
            };
            let b = if j < at {
                j
            } else {
                j - 1
            };
            if i != at {
                assert(after[i] == before[a]);
            }
            if j != at {
                assert(after[j] == before[b]);
            }
        }
        vstd::seq_lib::to_multiset_insert(before, at, item);
        assert(list.take(n) =~= list.take(n - 1).push(item));
        vstd::seq_lib::to_multiset_insert(list.take(n - 1), n - 1, item);
        assert(list.take(n - 1).push(item) =~= list.take(n - 1).insert(n - 1, item));
    }
}

/// No page fetches more images than the cap.
pub proof fn law_images_are_capped(sources: Sources, backgrounds: Sources)
    ensures
        planned_images(sources, backgrounds).len() <= MAX_IMAGES_PER_PAGE,
{
}

/// A source with a format hint is fetched by the hint alone: TrueType,
/// OpenType and both versions of WOFF are, no other format is.
pub proof fn law_fonts_go_by_their_format(source: Seq<char>, format: Seq<char>)
    ensures
        is_usable_font(source, Some(format)) <==> format == "truetype"@ || format == "opentype"@
            || format == "woff"@ || format == "woff2"@,
{
}

/// A source without a hint is fetched by its extension, in any case.
pub proof fn law_fonts_go_by_their_extension(stem: Seq<char>, ext: Seq<char>)
    ensures
        text::lowered(ext) == ".ttf"@ || text::lowered(ext) == ".otf"@ || text::lowered(ext)
            == ".woff"@ || text::lowered(ext) == ".woff2"@ ==> is_usable_font(stem + ext, None),
        is_usable_font(stem, None) ==> stem.len() > 0 && (text::lowered(stem).last() == 'f'
            || text::lowered(stem).last() == '2'),
        text::lowered(ext) == ".eot"@ || text::lowered(ext) == ".svg"@ || text::lowered(ext)
            == ".png"@ ==> !is_usable_font(stem + ext, None),
{
    assert(text::lowered(stem + ext) =~= text::lowered(stem) + text::lowered(ext));
    text::law_suffixes(text::lowered(stem), text::lowered(ext));
    reveal_strlit(".ttf");
    reveal_strlit(".otf");
    reveal_strlit(".woff");
    reveal_strlit(".woff2");
    reveal_strlit(".eot");
    reveal_strlit(".svg");
    reveal_strlit(".png");
    assert(".ttf"@.len() == 4);
    assert(".otf"@.len() == 4);
    assert(".woff"@.len() == 5);
    assert(".woff2"@.len() == 6);
    assert(".eot"@.len() == 4);
    assert(".svg"@.len() == 4);
    assert(".png"@.len() == 4);
    let low = text::lowered(stem);
    let long = text::lowered(stem + ext);
    let f = text::lowered(ext);
    assert(".ttf"@[3] == 'f' && ".otf"@[3] == 'f' && ".woff"@[4] == 'f' && ".woff2"@[5] == '2');
    assert(".eot"@[3] == 't' && ".svg"@[3] == 'g' && ".png"@[3] == 'g');
    assert forall|s: Seq<char>, p: Seq<char>| p.len() > 0 && #[trigger] text::ends(
        s,
        p,
    ) implies s.len() > 0 && s.last() == p.last() by {
        assert(s.skip(s.len() - p.len()).last() == s.last());
    }
    if f.len() > 0 {
        assert(long.last() == f.last());
    }
}

proof fn lemma_declares(list: Seq<DeclarationModel>, name: Seq<char>, n: int)
    requires
        0 <= n <= list.len(),
    ensures
        declares(list, name, n) <==> exists|i: int| 0 <= i < n && (#[trigger] list[i]).name == name,
    decreases n,
{
    if n > 0 {
        lemma_declares(list, name, n - 1);
        if list[n - 1].name == name {
            assert(list[n - 1].name == name);
        }
    }
}

/// Rules declare a property exactly where one declaration of one rule does.
pub proof fn law_rules_declare_properties(rules: Seq<RuleModel>, name: Seq<char>, n: int)
    requires
        0 <= n <= rules.len(),
    ensures
        rules_declare(rules, name, n) <==> exists|i: int, j: int|
            0 <= i < n && 0 <= j < rules[i].declarations.len() && (
            #[trigger] rules[i].declarations[j]).name == name,
    decreases n,
{
    if n > 0 {
        law_rules_declare_properties(rules, name, n - 1);
        let list = rules[n - 1].declarations;
        lemma_declares(list, name, list.len() as int);
        if declares(list, name, list.len() as int) {
            let j = choose|j: int| 0 <= j < list.len() && (#[trigger] list[j]).name == name;
            assert(rules[n - 1].declarations[j].name == name);
        }
        if exists|i: int, j: int|
            0 <= i < n && 0 <= j < rules[i].declarations.len() && (
            #[trigger] rules[i].declarations[j]).name == name {
            let (i, j): (int, int) = choose|i: int, j: int|
                0 <= i < n && 0 <= j < rules[i].declarations.len() && (
                #[trigger] rules[i].declarations[j]).name == name;
            if i == n - 1 {
                assert(list[j].name == name);
            }
        }
    }
}

/// The images of a page's elements come first, in their order, and at most
/// thirty-two images are fetched.
pub proof fn law_elements_come_before_backgrounds(sources: Sources, backgrounds: Sources, k: int)
    ensures
        planned_images(sources, backgrounds).len() <= 32,
        0 <= k < sources.len() && k < 32 ==> planned_images(sources, backgrounds)[k] == sources[k],
        sources.len() + backgrounds.len() <= 32 ==> planned_images(sources, backgrounds).len()
            == sources.len() + backgrounds.len(),
{
    law_backgrounds_are_ordered(backgrounds, backgrounds.len() as int);
}

/// A face's usable sources stay in their order, and faces in theirs.
pub proof fn law_font_sources_keep_their_order(
    sources: Seq<(Seq<char>, Option<Seq<char>>)>,
    n: int,
)
    requires
        0 < n <= sources.len(),
    ensures
        is_usable_font(sources[n - 1].0, sources[n - 1].1) ==> usable_sources(sources, n)
            == usable_sources(sources, n - 1).push(sources[n - 1].0),
        !is_usable_font(sources[n - 1].0, sources[n - 1].1) ==> usable_sources(sources, n)
            == usable_sources(sources, n - 1),
        usable_sources(sources, 0).len() == 0,
{
}

} // verus!
