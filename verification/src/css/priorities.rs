//! How a declaration is read: its importance, the properties that keep their
//! text, custom properties, unresolved values and families.
use crate::css::declaration;
use crate::css::lengths;
use crate::css::properties;
use crate::css::shorthand::DeclarationModel;
use crate::css::value::ValueModel;
use crate::text;
use vstd::prelude::*;

verus! {

proof fn lemma_trimmed_end(s: Seq<char>)
    requires
        s.len() > 0,
        !text::is_space(s.last()),
    ensures
        text::trimmed_end(s) == s,
        text::trimmed_end(s.push(' ')) == s,
{
    assert(text::trim_back(s, s.len() as int) == s.len());
    assert(s.take(s.len() as int) =~= s);
    let t = s.push(' ');
    assert(t[t.len() - 1] == ' ' && t[t.len() - 2] == s.last());
    assert(text::trim_back(t, s.len() as int) == s.len());
    assert(text::trim_back(t, t.len() as int) == s.len());
    assert(t.take(s.len() as int) =~= s);
}

/// An exclamation mark and the word `important`, in any case, at the end of a
/// value, with or without a space between or behind them, are taken off and
/// make it important; a value that does not end with the word is not.
pub proof fn law_importance_is_taken_off(v: Seq<char>, word: Seq<char>)
    requires
        text::lowered(word) == "important"@,
    ensures
        declaration::importance(v + seq!['!'] + word) == (v, true),
        declaration::importance(v + seq!['!', ' '] + word) == (v, true),
        declaration::importance((v + seq!['!'] + word).push(' ')) == (v, true),
        !text::ends(text::lowered(text::trimmed_end(v)), "important"@) ==> declaration::importance(
            v,
        ) == (v, false),
{
    reveal_strlit("important");
    reveal_strlit("!");
    assert("!"@ =~= seq!['!']);
    assert("important"@.len() == 9 && "important"@[8] == 't');
    assert(text::lowered(word)[8] == text::lower(word[8]));
    assert(word.len() == 9);
    assert(!text::is_space(word.last()));
    let a = v + seq!['!'] + word;
    let b = v + seq!['!', ' '] + word;
    assert(a.last() == word.last());
    assert(b.last() == word.last());
    lemma_trimmed_end(a);
    lemma_trimmed_end(b);
    let low = text::lowered(v) + seq!['!'];
    assert(text::lowered(a) =~= low + "important"@);
    text::law_suffixes(low, "important"@);
    lemma_trimmed_end(low);
    text::law_suffixes(text::lowered(v), "!"@);
    assert(a.take(v.len() as int) =~= v);
    assert(text::lowered(b) =~= low.push(' ') + "important"@);
    text::law_suffixes(low.push(' '), "important"@);
    assert(b.take(v.len() as int) =~= v);
}

/// A property that keeps its text declares it trimmed, without reading it.
pub proof fn law_kept_text_is_trimmed(name: Seq<char>, source: Seq<char>)
    requires
        properties::raw_kept(name),
    ensures
        declaration::declaration_models(name, source) == seq![
            DeclarationModel {
                name,
                value: ValueModel::Keyword(text::trimmed(declaration::importance(source).0)),
                important: declaration::importance(source).1,
            },
        ],
{
    properties::law_what_keeps_its_text(name);
    reveal_strlit("font");
    reveal_strlit("background");
    assert("font"@.len() == 4 && "background"@.len() == 10);
    reveal_strlit("text-shadow");
    reveal_strlit("animation");
    reveal_strlit("aspect-ratio");
    reveal_strlit("box-shadow");
    reveal_strlit("background-image");
    reveal_strlit("background-position");
    reveal_strlit("background-size");
    reveal_strlit("background-repeat");
    reveal_strlit("grid-template-columns");
    reveal_strlit("grid-template-rows");
    reveal_strlit("grid-column");
    reveal_strlit("grid-row");
    reveal_strlit("transform");
    reveal_strlit("transform-origin");
    reveal_strlit("transition");
    reveal_strlit("filter");
    reveal_strlit("rotate");
    reveal_strlit("scale");
    reveal_strlit("translate");
    reveal_strlit("border-spacing");
    assert("text-shadow"@.len() == 11 && "animation"@.len() == 9 && "aspect-ratio"@.len() == 12);
    assert("box-shadow"@.len() == 10 && "box-shadow"@[1] == 'o' && "background"@[1] == 'a');
    assert("background-image"@.len() == 16 && "background-position"@.len() == 19);
    assert("background-size"@.len() == 15 && "background-repeat"@.len() == 17);
    assert("grid-template-columns"@.len() == 21 && "grid-template-rows"@.len() == 18);
    assert("grid-column"@.len() == 11 && "grid-row"@.len() == 8 && "transform"@.len() == 9);
    assert("transform-origin"@.len() == 16 && "transition"@.len() == 10);
    assert("transition"@[0] == 't' && "background"@[0] == 'b');
    assert("filter"@.len() == 6 && "rotate"@.len() == 6 && "scale"@.len() == 5);
    assert("translate"@.len() == 9 && "border-spacing"@.len() == 14);
}

/// A custom property, whose name starts with two hyphens, keeps its trimmed
/// text as a string.
#[verifier::rlimit(40)]
pub proof fn law_custom_properties_keep_their_text(rest: Seq<char>, source: Seq<char>)
    ensures
        declaration::declaration_models("--"@ + rest, source) == seq![
            DeclarationModel {
                name: "--"@ + rest,
                value: ValueModel::String(text::trimmed(declaration::importance(source).0)),
                important: declaration::importance(source).1,
            },
        ],
{
    let name = "--"@ + rest;
    text::law_prefixes(rest, "--"@);
    properties::law_what_keeps_its_text(name);
    reveal_strlit("--");
    assert(name[0] == '-');
    reveal_strlit("font");
    reveal_strlit("background");
    reveal_strlit("text-shadow");
    reveal_strlit("animation");
    reveal_strlit("aspect-ratio");
    reveal_strlit("box-shadow");
    reveal_strlit("background-image");
    reveal_strlit("background-position");
    reveal_strlit("background-size");
    reveal_strlit("background-repeat");
    reveal_strlit("grid-template-columns");
    reveal_strlit("grid-template-rows");
    reveal_strlit("grid-column");
    reveal_strlit("grid-row");
    reveal_strlit("transform");
    reveal_strlit("transform-origin");
    reveal_strlit("transition");
    reveal_strlit("filter");
    reveal_strlit("rotate");
    reveal_strlit("scale");
    reveal_strlit("translate");
    reveal_strlit("border-spacing");
    assert("font"@[0] == 'f' && "background"@[0] == 'b');
    assert("text-shadow"@[0] == 't' && "animation"@[0] == 'a' && "aspect-ratio"@[0] == 'a');
    assert("box-shadow"@[0] == 'b' && "background-image"@[0] == 'b');
    assert("background-position"@[0] == 'b' && "background-size"@[0] == 'b');
    assert("background-repeat"@[0] == 'b' && "grid-template-columns"@[0] == 'g');
    assert("grid-template-rows"@[0] == 'g' && "grid-column"@[0] == 'g' && "grid-row"@[0] == 'g');
    assert("transform"@[0] == 't' && "transform-origin"@[0] == 't' && "transition"@[0] == 't');
    assert("filter"@[0] == 'f' && "rotate"@[0] == 'r' && "scale"@[0] == 's');
    assert("translate"@[0] == 't' && "border-spacing"@[0] == 'b');
}

/// A value that holds `var(` somewhere is kept, trimmed, until it can be
/// resolved; a declaration without a name declares nothing.
pub proof fn law_variables_wait(name: Seq<char>, source: Seq<char>, at: int)
    requires
        name.len() > 0,
        name != "font"@,
        name != "background"@,
        !properties::raw_kept(name),
        !text::starts(name, "--"@),
        0 <= at,
        at + 4 <= declaration::importance(source).0.len(),
        declaration::importance(source).0.subrange(at, at + 4) == seq!['v', 'a', 'r', '('],
    ensures
        declaration::declaration_models(name, source) == seq![
            DeclarationModel {
                name,
                value: ValueModel::Unresolved(text::trimmed(declaration::importance(source).0)),
                important: declaration::importance(source).1,
            },
        ],
        declaration::declaration_models(Seq::empty(), source).len() == 0,
{
    reveal_strlit("var(");
    assert("var("@ =~= seq!['v', 'a', 'r', '(']);
    text::law_words_are_found_first(declaration::importance(source).0, "var("@);
}

/// A family's name is written in lower case, without the quotes around it.
pub proof fn law_families_are_lowered(name: Seq<char>, quote: char)
    requires
        name.len() > 0,
        forall|i: int| 0 <= i < name.len() ==> !text::is_space(#[trigger] name[i]),
        name[0] != '"' && name[0] != '\'' && name.last() != '"' && name.last() != '\'',
        quote == '"' || quote == '\'',
    ensures
        declaration::family_name(name) == text::lowered(name),
        declaration::family_name(seq![quote] + name + seq![quote]) == text::lowered(name),
        declaration::family_name(seq![' '] + name) == text::lowered(name),
{
    lengths::lemma_untrimmed(name);
    text::law_quotes_are_dropped(name, quote, quote);
    text::law_words(name, ' ', Seq::empty());
    assert(text::joined(seq![name], " "@) == name);
    let quoted = seq![quote] + name + seq![quote];
    assert(quoted[0] == quote && quoted.last() == quote);
    lengths::lemma_untrimmed(quoted);
    let led = seq![' '] + name;
    assert(led[0] == ' ' && led[1] == name[0]);
    assert(text::skip_space(led, 1) == 1);
    assert(text::skip_space(led, 0) == 1);
    assert(led.skip(1) =~= name);
    assert(text::trim_back(name, name.len() as int) == name.len());
    assert(name.take(name.len() as int) =~= name);
}

/// A family of two words has one space between them, however it is written.
pub proof fn law_family_words_are_one_space_apart(first: Seq<char>, second: Seq<char>)
    requires
        first.len() > 0,
        second.len() > 0,
        forall|i: int| 0 <= i < first.len() ==> !text::is_space(#[trigger] first[i]),
        forall|i: int| 0 <= i < second.len() ==> !text::is_space(#[trigger] second[i]),
        first[0] != '"' && first[0] != '\'',
        second.last() != '"' && second.last() != '\'',
    ensures
        declaration::family_name(first + seq![' '] + (seq![' '] + second)) == text::lowered(
            first + seq![' '] + second,
        ),
{
    let rest = seq![' '] + second;
    let name = first + seq![' '] + rest;
    assert(name[0] == first[0] && name.last() == second.last());
    lengths::lemma_untrimmed(name);
    text::law_quotes_are_dropped(name, '"', '"');
    text::law_words(first, ' ', rest);
    text::law_words(second, ' ', second);
    assert(text::words(rest) == seq![second]);
    assert(seq![first] + seq![second] =~= seq![first].push(second));
    text::law_joining(seq![first], second, " "@);
    assert(text::joined(seq![first], " "@) == first);
    reveal_strlit(" ");
    assert(" "@ =~= seq![' ']);
}

proof fn lemma_families(parts: Seq<Seq<char>>, n: int)
    requires
        0 <= n <= parts.len(),
        forall|i: int| 0 <= i < n ==> declaration::family_name(#[trigger] parts[i]).len() > 0,
    ensures
        declaration::usable_families(parts, n) == Seq::new(
            n as nat,
            |i: int| declaration::family_name(parts[i]),
        ),
    decreases n,
{
    if n > 0 {
        lemma_families(parts, n - 1);
        assert(declaration::family_name(parts[n - 1]).len() > 0);
    }
    assert(declaration::usable_families(parts, n) =~= Seq::new(
        n as nat,
        |i: int| declaration::family_name(parts[i]),
    ));
}

/// The families of a list keep their order, with a comma between each two.
pub proof fn law_families_keep_their_order(v: Seq<char>, a: Seq<char>, b: Seq<char>)
    requires
        text::split_outer(v, ',') == seq![a, b],
        declaration::family_name(a).len() > 0,
        declaration::family_name(b).len() > 0,
    ensures
        declaration::family_list(v) == Some(
            declaration::family_name(a) + seq![','] + declaration::family_name(b),
        ),
{
    let parts = seq![a, b];
    assert forall|i: int| 0 <= i < 2 implies declaration::family_name(
        #[trigger] parts[i],
    ).len() > 0 by {}
    lemma_families(parts, 2);
    let names = declaration::usable_families(parts, 2);
    let x = declaration::family_name(a);
    let y = declaration::family_name(b);
    assert(names =~= seq![x].push(y));
    text::law_joining(seq![x], y, ","@);
    assert(text::joined(seq![x], ","@) == x);
    reveal_strlit(",");
    assert(","@ =~= seq![',']);
}

} // verus!
