//! `@font-face` blocks.
use crate::text;
use crate::css::lengths;
use vstd::prelude::*;
use vstd::slice::slice_subrange;

verus! {

/// One `@font-face` block: a family name and its source URLs in order.
#[derive(Debug, PartialEq, Eq)]
pub struct FontFace {
    pub family: String,
    /// (url, format hint if any) pairs in source order.
    pub sources: Vec<(String, Option<String>)>,
}

pub struct FontFaceModel {
    pub family: Seq<char>,
    pub sources: Seq<(Seq<char>, Option<Seq<char>>)>,
}

pub open spec fn source_models(sources: Seq<(String, Option<String>)>) -> Seq<
    (Seq<char>, Option<Seq<char>>),
> {
    Seq::new(sources.len(), |i: int| (sources[i].0@, text::opt_text(sources[i].1)))
}

impl View for FontFace {
    type V = FontFaceModel;

    open spec fn view(&self) -> FontFaceModel {
        FontFaceModel { family: self.family@, sources: source_models(self.sources@) }
    }
}

pub open spec fn is_quote(c: char) -> bool {
    c == '"' || c == '\''
}

/// A family name without one quote at each end, where it has both.
pub open spec fn face_family(v: Seq<char>) -> Seq<char> {
    if v.len() >= 2 && is_quote(v[0]) && is_quote(v.last()) {
        v.subrange(1, v.len() - 1)
    } else {
        v
    }
}

/// What stands before the first closing parenthesis, without white space and
/// quotes at its ends.
pub open spec fn argument(s: Seq<char>) -> Option<Seq<char>> {
    let close = text::find_char(s, ')', 0);
    if close < s.len() {
        Some(text::unquoted(text::trimmed(s.take(close))))
    } else {
        None
    }
}

/// The format hint of one source.
pub open spec fn source_format(part: Seq<char>) -> Option<Seq<char>> {
    match text::found_word(part, "format("@) {
        Some(at) => match argument(part.skip(at + 7)) {
            Some(hint) => Some(text::lowered(hint)),
            None => None,
        },
        None => None,
    }
}

/// One source: the argument of `url(`, in any case, and a format hint.
pub open spec fn face_source(part: Seq<char>) -> Option<(Seq<char>, Option<Seq<char>>)> {
    match text::found_word(text::lowered(part), "url("@) {
        Some(at) => match argument(part.skip(at + 4)) {
            Some(url) => Some((url, source_format(part))),
            None => None,
        },
        None => None,
    }
}

/// The usable sources among the first `n` parts of a `src` list.
pub open spec fn face_sources(parts: Seq<Seq<char>>, n: int) -> Seq<(Seq<char>, Option<Seq<char>>)>
    decreases n,
{
    if n <= 0 {
        seq![]
    } else {
        match face_source(parts[n - 1]) {
            Some(source) => face_sources(parts, n - 1).push(source),
            None => face_sources(parts, n - 1),
        }
    }
}

pub struct FaceState {
    pub family: Option<Seq<char>>,
    pub sources: Seq<(Seq<char>, Option<Seq<char>>)>,
}

/// What the first `n` raw `name: value` pairs of the block say.
pub open spec fn face_state(pairs: Seq<(String, String)>, n: int) -> FaceState
    decreases n,
{
    if n <= 0 {
        FaceState { family: None, sources: seq![] }
    } else {
        let before = face_state(pairs, n - 1);
        let name = text::lowered(pairs[n - 1].0@);
        let v = text::trimmed(pairs[n - 1].1@);
        if name == "font-family"@ {
            FaceState { family: Some(face_family(v)), ..before }
        } else if name == "src"@ {
            let parts = text::split_outer(v, ',');
            FaceState { sources: before.sources + face_sources(parts, parts.len() as int), ..before }
        } else {
            before
        }
    }
}

/// The font face of a block; none without a family name.
pub open spec fn face_model(pairs: Seq<(String, String)>) -> Option<FontFaceModel> {
    let state = face_state(pairs, pairs.len() as int);
    match state.family {
        Some(family) => Some(FontFaceModel { family, sources: state.sources }),
        None => None,
    }
}

fn read_argument(s: &[char]) -> (r: Option<&[char]>)
    ensures
        text::opt_view(r) == argument(s@),
{
    let close = text::position(s, ')');
    if close < s.len() {
        Some(text::trim_quotes(text::trim(slice_subrange(s, 0, close))))
    } else {
        None
    }
}

fn read_format(part: &[char]) -> (r: Option<String>)
    ensures
        text::opt_text(r) == source_format(part@),
{
    proof {
        reveal_strlit("format(");
    }
    match text::find(part, "format(") {
        Some(at) => {
            let total: usize = part.len();
            let inner = slice_subrange(part, at + 7, total);
            assert(inner@ =~= part@.skip(at + 7));
            match read_argument(inner) {
                Some(hint) => {
                    let low = text::to_lowered(hint);
                    Some(text::text_of(low.as_slice()))
                },
                None => None,
            }
        },
        None => None,
    }
}

fn read_source(part: &[char]) -> (r: Option<(String, Option<String>)>)
    ensures
        match r {
            Some((url, format)) => face_source(part@) == Some((url@, text::opt_text(format))),
            None => face_source(part@) is None,
        },
{
    proof {
        reveal_strlit("url(");
    }
    let low = text::to_lowered(part);
    match text::find(low.as_slice(), "url(") {
        Some(at) => {
            let total: usize = part.len();
            let after = slice_subrange(part, at + 4, total);
            assert(after@ =~= part@.skip(at + 4));
            match read_argument(after) {
                Some(url) => Some((text::text_of(url), read_format(part))),
                None => None,
            }
        },
        None => None,
    }
}

fn push_sources(v: &[char], sources: &mut Vec<(String, Option<String>)>)
    ensures
        source_models(final(sources)@) == source_models(old(sources)@) + face_sources(
            text::split_outer(v@, ','),
            text::split_outer(v@, ',').len() as int,
        ),
{
    let ghost base = source_models(sources@);
    let parts = text::split_top_level(v, ',');
    let ghost pv = text::split_outer(v@, ',');
    let mut i: usize = 0;
    assert(base + face_sources(pv, 0) =~= base);
    while i < parts.len()
        invariant
            i <= parts@.len(),
            text::views(parts@) == pv,
            source_models(sources@) == base + face_sources(pv, i as int),
        decreases parts@.len() - i,
    {
        assert(pv[i as int] == parts@[i as int]@);
        let ghost before = sources@;
        if let Some(source) = read_source(parts[i]) {
            sources.push(source);
            assert(source_models(sources@) =~= source_models(before).push(
                (source.0@, text::opt_text(source.1)),
            ));
            assert(source_models(sources@) =~= base + face_sources(pv, i + 1));
        }
        i = i + 1;
    }
    assert(pv.len() == parts@.len());
}

/// Reads an `@font-face` block from its raw `name: value` pairs: the family
/// name and its `src` list (`url(x) format('woff2'), url(y.ttf)`).
pub fn parse_font_face(pairs: &Vec<(String, String)>) -> (r: Option<FontFace>)
    ensures
        match r {
            Some(face) => face_model(pairs@) == Some(face@),
            None => face_model(pairs@) is None,
        },
{
    let mut family: Option<String> = None;
    let mut sources: Vec<(String, Option<String>)> = Vec::new();
    let mut i: usize = 0;
    assert(source_models(sources@) =~= seq![]);
    while i < pairs.len()
        invariant
            i <= pairs@.len(),
            text::opt_text(family) == face_state(pairs@, i as int).family,
            source_models(sources@) == face_state(pairs@, i as int).sources,
        decreases pairs@.len() - i,
    {
        let name_chars = text::chars_of(pairs[i].0.as_str());
        let name = text::to_lowered(name_chars.as_slice());
        let value_chars = text::chars_of(pairs[i].1.as_str());
        let v = text::trim(value_chars.as_slice());
        if text::is_word(name.as_slice(), "font-family") {
            let last: usize = v.len();
            let quoted = last >= 2 && (v[0] == '"' || v[0] == '\'') && (v[last - 1] == '"'
                || v[last - 1] == '\'');
            let inner = if quoted {
                slice_subrange(v, 1, last - 1)
            } else {
                v
            };
            family = Some(text::text_of(inner));
        } else if text::is_word(name.as_slice(), "src") {
            push_sources(v, &mut sources);
        }
        i = i + 1;
    }
    match family {
        Some(family) => Some(FontFace { family, sources }),
        None => None,
    }
}

/// A family name loses one quote at each end where it has both, and stays
/// otherwise.
pub proof fn law_face_families(name: Seq<char>, open: char, close: char)
    requires
        open == '"' || open == '\'',
        close == '"' || close == '\'',
    ensures
        face_family(seq![open] + name + seq![close]) == name,
        name.len() > 0 && name[0] != '"' && name[0] != '\'' ==> face_family(name) == name,
        name.len() > 0 && name.last() != '"' && name.last() != '\'' ==> face_family(name) == name,
{
    let q = seq![open] + name + seq![close];
    assert(q[0] == open && q.last() == close);
    assert(q.subrange(1, q.len() - 1) =~= name);
}

/// An argument reaches to the first closing parenthesis, without white space
/// and quotes around it; without one there is no argument.
pub proof fn law_face_arguments(inner: Seq<char>, rest: Seq<char>, quote: char)
    requires
        inner.len() > 0,
        !inner.contains(')'),
        !text::is_space(inner[0]) && inner[0] != '"' && inner[0] != '\'',
        !text::is_space(inner.last()) && inner.last() != '"' && inner.last() != '\'',
        quote == '"' || quote == '\'',
    ensures
        argument(inner + seq![')'] + rest) == Some(inner),
        argument(seq![quote] + inner + seq![quote] + seq![')'] + rest) == Some(inner),
        argument(inner) is None,
{
    lemma_argument(inner, rest);
    let quoted = seq![quote] + inner + seq![quote];
    assert(quoted[0] == quote && quoted.last() == quote);
    assert forall|i: int| 0 <= i < quoted.len() implies quoted[i] != ')' by {
        if 0 < i < quoted.len() - 1 {
            assert(quoted[i] == inner[i - 1]);
        }
    }
    lemma_argument(quoted, rest);
    text::law_quotes_are_dropped(inner, quote, quote);
    lengths::lemma_untrimmed(inner);
    lengths::lemma_untrimmed(quoted);
    text::lemma_find_char(inner, ')', 0);
}

proof fn lemma_argument(inner: Seq<char>, rest: Seq<char>)
    requires
        !inner.contains(')'),
    ensures
        argument(inner + seq![')'] + rest) == Some(text::unquoted(text::trimmed(inner))),
{
    let n = inner.len() as int;
    let all = inner + seq![')'] + rest;
    text::lemma_find_char(all, ')', 0);
    assert(all[n] == ')');
    let at = text::find_char(all, ')', 0);
    if at < n {
        assert(all[at] == inner[at]);
    }
    assert(all.take(n) =~= inner);
}

/// A source is what stands in its `url(`, in any case; a hint stands in its
/// `format(` and is read in lower case; a source without `url(` is none.
pub proof fn law_face_sources(part: Seq<char>, at: int)
    requires
        text::found_word(text::lowered(part), "url("@) == Some(at),
    ensures
        text::found_word(part, "format("@) is None ==> match argument(part.skip(at + 4)) {
            Some(url) => face_source(part) == Some((url, None::<Seq<char>>)),
            None => face_source(part) is None,
        },
        text::found_word(part, "format("@) matches Some(k) ==> match (
            argument(part.skip(at + 4)),
            argument(part.skip(k + 7)),
        ) {
            (Some(url), Some(hint)) => face_source(part) == Some((url, Some(text::lowered(hint)))),
            (Some(url), None) => face_source(part) == Some((url, None::<Seq<char>>)),
            (None, _) => face_source(part) is None,
        },
{
}

/// A block's family is that of its last `font-family`, and its sources are
/// those of its `src` lists, one after the other, the names in any case; other
/// descriptors say nothing, and without a family there is no face.
pub proof fn law_face_blocks(pairs: Seq<(String, String)>, n: int)
    requires
        0 < n <= pairs.len(),
    ensures
        ({
            let before = face_state(pairs, n - 1);
            let after = face_state(pairs, n);
            let name = text::lowered(pairs[n - 1].0@);
            let v = text::trimmed(pairs[n - 1].1@);
            let parts = text::split_outer(v, ',');
            &&& name == "font-family"@ ==> after.family == Some(face_family(v)) && after.sources
                == before.sources
            &&& name == "src"@ ==> after.family == before.family && after.sources == before.sources
                + face_sources(parts, parts.len() as int)
            &&& name != "font-family"@ && name != "src"@ ==> after == before
        }),
        face_state(pairs, pairs.len() as int).family is None <==> face_model(pairs) is None,
{
    reveal_strlit("font-family");
    reveal_strlit("src");
    assert("font-family"@.len() == 11 && "src"@.len() == 3);
}

} // verus!
