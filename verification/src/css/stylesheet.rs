//! Style sheets: rules in source order, font faces, keyframes.
use crate::css::font_face::{self, FontFace, FontFaceModel};
use crate::css::media::MediaQuery;
use crate::css::number::{self, Number, Scale};
use crate::css::shorthand::{self, Declaration, DeclarationModel};
use crate::text;
use std::sync::Arc;
use vstd::prelude::*;

verus! {

/// One rule: a selector list and its declarations. Selectors are numbers
/// under which the parsed selectors are kept.
#[derive(Debug, PartialEq, Eq)]
pub struct Rule {
    pub selectors: Vec<usize>,
    pub declarations: Vec<Declaration>,
    /// Position of the rule in the stylesheet, for cascade tie-breaking.
    pub source_order: usize,
    /// The enclosing `@media` condition, when any.
    pub media: Option<MediaQuery>,
}

pub struct RuleModel {
    pub selectors: Seq<usize>,
    pub declarations: Seq<DeclarationModel>,
    pub source_order: usize,
    pub media: Option<MediaQuery>,
}

impl View for Rule {
    type V = RuleModel;

    open spec fn view(&self) -> RuleModel {
        RuleModel {
            selectors: self.selectors@,
            declarations: shorthand::declared(self.declarations@),
            source_order: self.source_order,
            media: self.media,
        }
    }
}

/// One `@keyframes` block: a name plus (offset, declarations) frames sorted
/// by offset. Offsets are integers ordered as the offsets they stand for.
#[derive(Debug, PartialEq, Eq)]
pub struct Keyframes {
    pub name: String,
    pub frames: Vec<(i64, Vec<Declaration>)>,
}

pub type FrameModel = (i64, Seq<DeclarationModel>);

pub struct KeyframesModel {
    pub name: Seq<char>,
    pub frames: Seq<FrameModel>,
}

pub open spec fn frame_models(frames: Seq<(i64, Vec<Declaration>)>) -> Seq<FrameModel> {
    Seq::new(frames.len(), |i: int| (frames[i].0, shorthand::declared(frames[i].1@)))
}

impl View for Keyframes {
    type V = KeyframesModel;

    open spec fn view(&self) -> KeyframesModel {
        KeyframesModel { name: self.name@, frames: frame_models(self.frames@) }
    }
}

/// A parsed style sheet. Its lists are shared, so that
/// [`Stylesheet::for_width`] can hand out a sheet without copying what it
/// keeps whole.
#[derive(Debug, PartialEq, Eq)]
pub struct Stylesheet {
    pub rules: Arc<Vec<Rule>>,
    pub font_faces: Arc<Vec<FontFace>>,
    pub keyframes: Arc<Vec<Keyframes>>,
}

/// A style sheet while it is read.
#[derive(Debug)]
pub struct SheetBuilder {
    pub rules: Vec<Rule>,
    pub font_faces: Vec<FontFace>,
    pub keyframes: Vec<Keyframes>,
}

pub open spec fn rule_models(rules: Seq<Rule>) -> Seq<RuleModel> {
    Seq::new(rules.len(), |i: int| rules[i]@)
}

pub open spec fn face_models(faces: Seq<FontFace>) -> Seq<FontFaceModel> {
    Seq::new(faces.len(), |i: int| faces[i]@)
}

pub open spec fn keyframes_models(blocks: Seq<Keyframes>) -> Seq<KeyframesModel> {
    Seq::new(blocks.len(), |i: int| blocks[i]@)
}

pub struct SheetModel {
    pub rules: Seq<RuleModel>,
    pub font_faces: Seq<FontFaceModel>,
    pub keyframes: Seq<KeyframesModel>,
}

impl View for Stylesheet {
    type V = SheetModel;

    open spec fn view(&self) -> SheetModel {
        SheetModel {
            rules: rule_models(self.rules@),
            font_faces: face_models(self.font_faces@),
            keyframes: keyframes_models(self.keyframes@),
        }
    }
}

impl View for SheetBuilder {
    type V = SheetModel;

    open spec fn view(&self) -> SheetModel {
        SheetModel {
            rules: rule_models(self.rules@),
            font_faces: face_models(self.font_faces@),
            keyframes: keyframes_models(self.keyframes@),
        }
    }
}

// ---------------------------------------------------------------------------
// Copies
// ---------------------------------------------------------------------------
pub fn copy_declarations(list: &Vec<Declaration>) -> (r: Vec<Declaration>)
    ensures
        shorthand::declared(r@) == shorthand::declared(list@),
{
    let mut r: Vec<Declaration> = Vec::new();
    let mut i: usize = 0;
    while i < list.len()
        invariant
            i <= list@.len(),
            r@.len() == i,
            forall|j: int| 0 <= j < i ==> (#[trigger] r@[j])@ == list@[j]@,
        decreases list@.len() - i,
    {
        r.push(list[i].clone());
        i = i + 1;
    }
    assert(shorthand::declared(r@) =~= shorthand::declared(list@));
    r
}

fn copy_numbers(list: &Vec<usize>) -> (r: Vec<usize>)
    ensures
        r@ == list@,
{
    let mut r: Vec<usize> = Vec::new();
    let mut i: usize = 0;
    while i < list.len()
        invariant
            i <= list@.len(),
            r@ == list@.take(i as int),
        decreases list@.len() - i,
    {
        r.push(list[i]);
        i = i + 1;
        assert(list@.take(i as int) =~= list@.take(i - 1).push(list@[i - 1]));
    }
    assert(list@.take(list@.len() as int) =~= list@);
    r
}

impl Clone for Rule {
    fn clone(&self) -> (r: Rule)
        ensures
            r@ == self@,
    {
        Rule {
            selectors: copy_numbers(&self.selectors),
            declarations: copy_declarations(&self.declarations),
            source_order: self.source_order,
            media: self.media,
        }
    }
}

impl Clone for FontFace {
    fn clone(&self) -> (r: FontFace)
        ensures
            r@ == self@,
    {
        let mut sources: Vec<(String, Option<String>)> = Vec::new();
        let mut i: usize = 0;
        while i < self.sources.len()
            invariant
                i <= self.sources@.len(),
                sources@.len() == i,
                forall|j: int|
                    0 <= j < i ==> (#[trigger] sources@[j]).0@ == self.sources@[j].0@
                        && text::opt_text(sources@[j].1) == text::opt_text(self.sources@[j].1),
            decreases self.sources@.len() - i,
        {
            let url = self.sources[i].0.clone();
            let format = match &self.sources[i].1 {
                Some(hint) => Some(hint.clone()),
                None => None,
            };
            sources.push((url, format));
            i = i + 1;
        }
        assert(font_face::source_models(sources@) =~= font_face::source_models(self.sources@));
        FontFace { family: self.family.clone(), sources }
    }
}

impl Clone for Keyframes {
    fn clone(&self) -> (r: Keyframes)
        ensures
            r@ == self@,
    {
        let mut frames: Vec<(i64, Vec<Declaration>)> = Vec::new();
        let mut i: usize = 0;
        while i < self.frames.len()
            invariant
                i <= self.frames@.len(),
                frames@.len() == i,
                forall|j: int|
                    0 <= j < i ==> (#[trigger] frames@[j]).0 == self.frames@[j].0
                        && shorthand::declared(frames@[j].1@) == shorthand::declared(
                        self.frames@[j].1@,
                    ),
            decreases self.frames@.len() - i,
        {
            frames.push((self.frames[i].0, copy_declarations(&self.frames[i].1)));
            i = i + 1;
        }
        assert(frame_models(frames@) =~= frame_models(self.frames@));
        Keyframes { name: self.name.clone(), frames }
    }
}

/// `Arc::clone` makes another pointer to the same value.
#[verifier::external_body]
fn share<T>(value: &Arc<T>) -> (r: Arc<T>)
    ensures
        r == *value,
{
    Arc::clone(value)
}

impl Clone for Stylesheet {
    fn clone(&self) -> (r: Stylesheet)
        ensures
            r == *self,
    {
        Stylesheet {
            rules: share(&self.rules),
            font_faces: share(&self.font_faces),
            keyframes: share(&self.keyframes),
        }
    }
}

// ---------------------------------------------------------------------------
// Rules by viewport width
// ---------------------------------------------------------------------------
/// Whether a rule applies at a viewport width: it stands outside `@media`, or
/// its condition holds.
pub open spec fn applies(rule: RuleModel, width: int) -> bool {
    rule.media matches Some(query) ==> query.holds(width)
}

fn rule_applies(rule: &Rule, viewport_width: i64) -> (r: bool)
    ensures
        r == applies(rule@, viewport_width as int),
{
    match rule.media {
        Some(query) => query.matches(viewport_width),
        None => true,
    }
}

/// The rules among the first `n` that apply, in order.
pub open spec fn applicable(rules: Seq<RuleModel>, width: int, n: int) -> Seq<RuleModel>
    decreases n,
{
    if n <= 0 {
        seq![]
    } else if applies(rules[n - 1], width) {
        applicable(rules, width, n - 1).push(rules[n - 1])
    } else {
        applicable(rules, width, n - 1)
    }
}

/// Rules stand in source order.
pub open spec fn in_source_order(rules: Seq<RuleModel>) -> bool {
    forall|i: int, j: int|
        0 <= i < j < rules.len() ==> (#[trigger] rules[i]).source_order < (
        #[trigger] rules[j]).source_order
}

/// The last block among the first `n` that has the name.
pub open spec fn last_named(blocks: Seq<KeyframesModel>, name: Seq<char>, n: int) -> Option<int>
    decreases n,
{
    if n <= 0 {
        None
    } else if blocks[n - 1].name == name {
        Some(n - 1)
    } else {
        last_named(blocks, name, n - 1)
    }
}

impl SheetBuilder {
    /// A sheet without rules.
    pub fn new() -> (r: SheetBuilder)
        ensures
            r@ == (SheetModel { rules: seq![], font_faces: seq![], keyframes: seq![] }),
    {
        let r = SheetBuilder { rules: Vec::new(), font_faces: Vec::new(), keyframes: Vec::new() };
        assert(r@.rules =~= seq![]);
        assert(r@.font_faces =~= seq![]);
        assert(r@.keyframes =~= seq![]);
        r
    }

    /// Adds the next rule in source order. A rule whose selector list holds
    /// nothing usable is dropped.
    pub fn push_rule(
        &mut self,
        selectors: Vec<usize>,
        declarations: Vec<Declaration>,
        media: Option<MediaQuery>,
    )
        ensures
            final(self)@ == (if selectors@.len() == 0 {
                old(self)@
            } else {
                SheetModel {
                    rules: old(self)@.rules.push(
                        RuleModel {
                            selectors: selectors@,
                            declarations: shorthand::declared(declarations@),
                            source_order: old(self)@.rules.len() as usize,
                            media,
                        },
                    ),
                    ..old(self)@
                }
            }),
    {
        if selectors.len() == 0 {
            return;
        }
        let source_order: usize = self.rules.len();
        let rule = Rule { selectors, declarations, source_order, media };
        let ghost before = self.rules@;
        self.rules.push(rule);
        assert(rule_models(self.rules@) =~= rule_models(before).push(rule@));
    }

    /// Adds a font face, where the block had a family name.
    pub fn push_font_face(&mut self, face: Option<FontFace>)
        ensures
            final(self)@ == (match face {
                Some(face) => SheetModel {
                    font_faces: old(self)@.font_faces.push(face@),
                    ..old(self)@
                },
                None => old(self)@,
            }),
    {
        if let Some(face) = face {
            let ghost before = self.font_faces@;
            self.font_faces.push(face);
            assert(face_models(self.font_faces@) =~= face_models(before).push(face@));
        }
    }

    /// Adds a keyframes block, where it has frames.
    pub fn push_keyframes(&mut self, block: Keyframes)
        ensures
            final(self)@ == (if block@.frames.len() == 0 {
                old(self)@
            } else {
                SheetModel { keyframes: old(self)@.keyframes.push(block@), ..old(self)@ }
            }),
    {
        if block.frames.len() > 0 {
            let ghost before = self.keyframes@;
            self.keyframes.push(block);
            assert(keyframes_models(self.keyframes@) =~= keyframes_models(before).push(block@));
        }
    }

    /// The sheet that was read.
    pub fn finish(self) -> (r: Stylesheet)
        ensures
            r@ == self@,
    {
        Stylesheet {
            rules: Arc::new(self.rules),
            font_faces: Arc::new(self.font_faces),
            keyframes: Arc::new(self.keyframes),
        }
    }
}

impl Stylesheet {
    /// The rules that apply at a viewport width: everything outside
    /// `@media`, plus matching media blocks. Where every rule applies the
    /// result shares all lists with this sheet; otherwise only the rules that
    /// stay are copied.
    pub fn for_width(&self, viewport_width: i64) -> (r: Stylesheet)
        ensures
            r@ == (SheetModel {
                rules: applicable(
                    self@.rules,
                    viewport_width as int,
                    self@.rules.len() as int,
                ),
                ..self@
            }),
    {
        let ghost w = viewport_width as int;
        let ghost all = self@.rules;
        let list: &Vec<Rule> = &self.rules;
        let mut whole: usize = 0;
        assert(all.take(0) =~= applicable(all, w, 0));
        while whole < list.len() && rule_applies(&list[whole], viewport_width)
            invariant
                whole <= list@.len(),
                all == rule_models(list@),
                w == viewport_width,
                all.take(whole as int) == applicable(all, w, whole as int),
            decreases list@.len() - whole,
        {
            assert(all[whole as int] == list@[whole as int]@);
            whole = whole + 1;
            assert(all.take(whole as int) =~= all.take(whole - 1).push(all[whole - 1]));
        }
        if whole == list.len() {
            assert(all.take(whole as int) =~= all);
            return self.clone();
        }
        let mut rules: Vec<Rule> = Vec::new();
        let mut i: usize = 0;
        assert(rule_models(rules@) =~= applicable(all, w, 0));
        while i < list.len()
            invariant
                i <= list@.len(),
                all == rule_models(list@),
                w == viewport_width,
                rule_models(rules@) == applicable(all, w, i as int),
            decreases list@.len() - i,
        {
            assert(all[i as int] == list@[i as int]@);
            if rule_applies(&list[i], viewport_width) {
                let ghost before = rules@;
                let copy = list[i].clone();
                rules.push(copy);
                assert(rule_models(rules@) =~= rule_models(before).push(copy@));
            }
            i = i + 1;
        }
        Stylesheet {
            rules: Arc::new(rules),
            font_faces: share(&self.font_faces),
            keyframes: share(&self.keyframes),
        }
    }

    /// The `@keyframes` block for an animation name, if declared; the last
    /// one wins.
    pub fn keyframes(&self, name: &str) -> (r: Option<&Keyframes>)
        ensures
            match last_named(self@.keyframes, name@, self@.keyframes.len() as int) {
                Some(i) => r is Some && 0 <= i < self@.keyframes.len() && r->0@
                    == self@.keyframes[i],
                None => r is None,
            },
    {
        let ghost all = self@.keyframes;
        let list: &Vec<Keyframes> = &self.keyframes;
        let mut i: usize = list.len();
        while i > 0
            invariant
                i <= list@.len(),
                all == self@.keyframes,
                all == keyframes_models(list@),
                last_named(all, name@, i as int) == last_named(all, name@, all.len() as int),
            decreases i,
        {
            assert(all[i - 1] == list@[i - 1]@);
            if text::same_str(list[i - 1].name.as_str(), name) {
                return Some(&list[i - 1]);
            }
            i = i - 1;
        }
        None
    }
}

proof fn lemma_applicable(rules: Seq<RuleModel>, width: int, n: int)
    requires
        0 <= n <= rules.len(),
    ensures
        applicable(rules, width, n).len() <= n,
        forall|i: int|
            0 <= i < applicable(rules, width, n).len() ==> applies(
                #[trigger] applicable(rules, width, n)[i],
                width,
            ),
        forall|i: int|
            0 <= i < applicable(rules, width, n).len() ==> exists|k: int|
                0 <= k < n && rules[k] == #[trigger] applicable(rules, width, n)[i],
        forall|k: int|
            0 <= k < n && applies(#[trigger] rules[k], width) ==> applicable(
                rules,
                width,
                n,
            ).contains(rules[k]),
    decreases n,
{
    if n > 0 {
        lemma_applicable(rules, width, n - 1);
        let before = applicable(rules, width, n - 1);
        let after = applicable(rules, width, n);
        assert forall|i: int| 0 <= i < after.len() implies exists|k: int|
            0 <= k < n && rules[k] == #[trigger] after[i] by {
            if i < before.len() {
                assert(after[i] == before[i]);
                let k = choose|k: int| 0 <= k < n - 1 && rules[k] == before[i];
                assert(rules[k] == after[i]);
            } else {
                assert(rules[n - 1] == after[i]);
            }
        }
        assert forall|k: int| 0 <= k < n && applies(#[trigger] rules[k], width) implies after.contains(
            rules[k],
        ) by {
            if k < n - 1 {
                assert(before.contains(rules[k]));
                let i = choose|i: int| 0 <= i < before.len() && before[i] == rules[k];
                assert(after[i] == rules[k]);
            } else {
                assert(after.last() == rules[k]);
            }
        }
    }
}

/// A sheet filtered by width holds exactly the rules that apply.
pub proof fn law_for_width_keeps_what_applies(rules: Seq<RuleModel>, width: int, rule: RuleModel)
    ensures
        applicable(rules, width, rules.len() as int).contains(rule) <==> (rules.contains(rule)
            && applies(rule, width)),
{
    lemma_applicable(rules, width, rules.len() as int);
    let kept = applicable(rules, width, rules.len() as int);
    if kept.contains(rule) {
        let i = choose|i: int| 0 <= i < kept.len() && kept[i] == rule;
        assert(applies(kept[i], width));
    }
}

/// Filtering by one width twice is filtering once.
pub proof fn law_for_width_idempotent(rules: Seq<RuleModel>, width: int)
    ensures
        applicable(
            applicable(rules, width, rules.len() as int),
            width,
            applicable(rules, width, rules.len() as int).len() as int,
        ) == applicable(rules, width, rules.len() as int),
{
    lemma_applicable(rules, width, rules.len() as int);
    lemma_all_apply(
        applicable(rules, width, rules.len() as int),
        width,
        applicable(rules, width, rules.len() as int).len() as int,
    );
    let kept = applicable(rules, width, rules.len() as int);
    assert(kept.take(kept.len() as int) =~= kept);
}

proof fn lemma_all_apply(rules: Seq<RuleModel>, width: int, n: int)
    requires
        0 <= n <= rules.len(),
        forall|i: int| 0 <= i < rules.len() ==> applies(#[trigger] rules[i], width),
    ensures
        applicable(rules, width, n) == rules.take(n),
    decreases n,
{
    if n > 0 {
        lemma_all_apply(rules, width, n - 1);
        assert(rules.take(n) =~= rules.take(n - 1).push(rules[n - 1]));
    } else {
        assert(rules.take(0) =~= seq![]);
    }
}

/// Filtering by width keeps the source order.
pub proof fn law_for_width_keeps_source_order(rules: Seq<RuleModel>, width: int)
    requires
        in_source_order(rules),
    ensures
        in_source_order(applicable(rules, width, rules.len() as int)),
{
    lemma_order_kept(rules, width, rules.len() as int);
}

proof fn lemma_order_kept(rules: Seq<RuleModel>, width: int, n: int)
    requires
        0 <= n <= rules.len(),
        in_source_order(rules),
    ensures
        in_source_order(applicable(rules, width, n)),
    decreases n,
{
    if n > 0 {
        lemma_order_kept(rules, width, n - 1);
        lemma_applicable(rules, width, n - 1);
        let before = applicable(rules, width, n - 1);
        let after = applicable(rules, width, n);
        assert forall|i: int, j: int| 0 <= i < j < after.len() implies (
        #[trigger] after[i]).source_order < (#[trigger] after[j]).source_order by {
            if j < before.len() {
                assert(before[i].source_order < before[j].source_order);
            } else {
                assert(after[i] == before[i]);
                let k = choose|k: int| 0 <= k < n - 1 && rules[k] == before[i];
                assert(rules[k].source_order < rules[n - 1].source_order);
            }
        }
    }
}

// ---------------------------------------------------------------------------
// At-rules
// ---------------------------------------------------------------------------
/// The at-rules that are read; any other is skipped with its block.
#[derive(Debug, Clone, Copy, PartialEq, Eq, Structural)]
pub enum AtRule {
    Media,
    FontFace,
    Keyframes,
    Unsupported,
}

pub open spec fn at_rule_model(name: Seq<char>) -> AtRule {
    if text::eq_ci(name, "media"@) {
        AtRule::Media
    } else if text::eq_ci(name, "font-face"@) {
        AtRule::FontFace
    } else if text::eq_ci(name, "keyframes"@) || text::eq_ci(name, "-webkit-keyframes"@) {
        AtRule::Keyframes
    } else {
        AtRule::Unsupported
    }
}

/// Which at-rule a name stands for, in any case.
pub fn at_rule(name: &str) -> (r: AtRule)
    ensures
        r == at_rule_model(name@),
{
    let chars = text::chars_of(name);
    let n = chars.as_slice();
    if text::is_word_ci(n, "media") {
        AtRule::Media
    } else if text::is_word_ci(n, "font-face") {
        AtRule::FontFace
    } else if text::is_word_ci(n, "keyframes") || text::is_word_ci(n, "-webkit-keyframes") {
        AtRule::Keyframes
    } else {
        AtRule::Unsupported
    }
}

/// The name of a `@keyframes` block: its prelude, which may not be blank.
pub fn keyframes_name(prelude: &str) -> (r: Option<String>)
    ensures
        text::opt_text(r) == (if text::trimmed(prelude@).len() == 0 {
            None
        } else {
            Some(text::trimmed(prelude@))
        }),
{
    let chars = text::chars_of(prelude);
    let name = text::trim(chars.as_slice());
    if name.len() == 0 {
        None
    } else {
        Some(text::text_of(name))
    }
}

// ---------------------------------------------------------------------------
// Keyframes
// ---------------------------------------------------------------------------
/// A frame selector: `from`, `to`, or a percentage that is finite.
#[derive(Debug, PartialEq, Eq)]
pub enum FrameOffset {
    From,
    To,
    Percent(String),
}

pub enum OffsetModel {
    From,
    To,
    Percent(Seq<char>),
}

impl View for FrameOffset {
    type V = OffsetModel;

    open spec fn view(&self) -> OffsetModel {
        match self {
            FrameOffset::From => OffsetModel::From,
            FrameOffset::To => OffsetModel::To,
            FrameOffset::Percent(p) => OffsetModel::Percent(p@),
        }
    }
}

pub open spec fn offset_models(offsets: Seq<FrameOffset>) -> Seq<OffsetModel> {
    Seq::new(offsets.len(), |i: int| offsets[i]@)
}

pub open spec fn offset_model(part: Seq<char>) -> Option<OffsetModel> {
    let t = text::trimmed(part);
    if t == "from"@ {
        Some(OffsetModel::From)
    } else if t == "to"@ {
        Some(OffsetModel::To)
    } else {
        match text::before_suffix(t, "%"@) {
            Some(p) => if number::finite(text::trimmed(p), Scale::One) {
                Some(OffsetModel::Percent(text::trimmed(p)))
            } else {
                None
            },
            None => None,
        }
    }
}

/// The usable selectors among the first `n` parts of a list.
pub open spec fn offsets_of(parts: Seq<Seq<char>>, n: int) -> Seq<OffsetModel>
    decreases n,
{
    if n <= 0 {
        seq![]
    } else {
        match offset_model(parts[n - 1]) {
            Some(offset) => offsets_of(parts, n - 1).push(offset),
            None => offsets_of(parts, n - 1),
        }
    }
}

fn read_offset(part: &[char]) -> (r: Option<FrameOffset>)
    ensures
        match r {
            Some(offset) => offset_model(part@) == Some(offset@),
            None => offset_model(part@) is None,
        },
{
    let t = text::trim(part);
    if text::is_word(t, "from") {
        return Some(FrameOffset::From);
    }
    if text::is_word(t, "to") {
        return Some(FrameOffset::To);
    }
    match text::strip_suffix(t, "%") {
        Some(p) => {
            let literal = text::trim(p);
            match Number::read(literal, Scale::One) {
                Some(n) => if n.is_finite() {
                    Some(FrameOffset::Percent(n.literal))
                } else {
                    None
                },
                None => None,
            }
        },
        None => None,
    }
}

/// Reads the prelude of a frame: `from`/`to`/percent selectors, separated by
/// commas; unusable ones are left out.
pub fn frame_offsets(prelude: &str) -> (r: Vec<FrameOffset>)
    ensures
        offset_models(r@) == offsets_of(
            text::split_all(prelude@, ','),
            text::split_all(prelude@, ',').len() as int,
        ),
{
    let chars = text::chars_of(prelude);
    let parts = text::split(chars.as_slice(), ',');
    let ghost pv = text::split_all(prelude@, ',');
    let mut offsets: Vec<FrameOffset> = Vec::new();
    let mut i: usize = 0;
    assert(offset_models(offsets@) =~= offsets_of(pv, 0));
    while i < parts.len()
        invariant
            i <= parts@.len(),
            text::views(parts@) == pv,
            offset_models(offsets@) == offsets_of(pv, i as int),
        decreases parts@.len() - i,
    {
        assert(pv[i as int] == parts@[i as int]@);
        let ghost before = offsets@;
        if let Some(offset) = read_offset(parts[i]) {
            offsets.push(offset);
            assert(offset_models(offsets@) =~= offset_models(before).push(offset@));
        }
        i = i + 1;
    }
    assert(pv.len() == parts@.len());
    offsets
}

/// Where a frame goes among the first `n` of sorted frames: behind the last
/// one that is not later.
pub open spec fn slot(frames: Seq<FrameModel>, offset: i64, n: int) -> int
    decreases n,
{
    if n <= 0 {
        0
    } else if frames[n - 1].0 <= offset {
        n
    } else {
        slot(frames, offset, n - 1)
    }
}

pub open spec fn inserted(frames: Seq<FrameModel>, frame: FrameModel) -> Seq<FrameModel> {
    frames.insert(slot(frames, frame.0, frames.len() as int), frame)
}

/// The first `n` frames sorted by offset; frames of one offset keep their
/// order.
pub open spec fn sorted_frames(frames: Seq<FrameModel>, n: int) -> Seq<FrameModel>
    decreases n,
{
    if n <= 0 {
        seq![]
    } else {
        inserted(sorted_frames(frames, n - 1), frames[n - 1])
    }
}

pub open spec fn ascending(frames: Seq<FrameModel>) -> bool {
    forall|i: int, j: int|
        0 <= i <= j < frames.len() ==> (#[trigger] frames[i]).0 <= (#[trigger] frames[j]).0
}

proof fn lemma_slot(frames: Seq<FrameModel>, offset: i64, n: int)
    requires
        0 <= n <= frames.len(),
    ensures
        0 <= slot(frames, offset, n) <= n,
        slot(frames, offset, n) > 0 ==> frames[slot(frames, offset, n) - 1].0 <= offset,
        forall|i: int| slot(frames, offset, n) <= i < n ==> (#[trigger] frames[i]).0 > offset,
    decreases n,
{
    if n > 0 && frames[n - 1].0 > offset {
        lemma_slot(frames, offset, n - 1);
    }
}

/// Sorted frames ascend and are the frames that were given.
pub proof fn law_frames_sorted(frames: Seq<FrameModel>, n: int)
    requires
        0 <= n <= frames.len(),
    ensures
        ascending(sorted_frames(frames, n)),
        sorted_frames(frames, n).to_multiset() == frames.take(n).to_multiset(),
        sorted_frames(frames, n).len() == n,
    decreases n,
{
    broadcast use vstd::seq_lib::group_to_multiset_ensures;

    if n > 0 {
        law_frames_sorted(frames, n - 1);
        let before = sorted_frames(frames, n - 1);
        let frame = frames[n - 1];
        lemma_slot(before, frame.0, before.len() as int);
        let at = slot(before, frame.0, before.len() as int);
        let after = sorted_frames(frames, n);
        assert(after == before.insert(at, frame));
        assert forall|i: int, j: int| 0 <= i <= j < after.len() implies (#[trigger] after[i]).0 <= (
        #[trigger] after[j]).0 by {
            if j < at {
                assert(after[i] == before[i] && after[j] == before[j]);
            } else if j == at {
                if i < at {
                    assert(before[i].0 <= before[at - 1].0);
                }
            } else if i > at {
                assert(after[i] == before[i - 1] && after[j] == before[j - 1]);
            } else if i == at {
                assert(after[j] == before[j - 1]);
            } else {
                assert(after[i] == before[i] && after[j] == before[j - 1]);
            }
        }
        before.insert_ensures(at, frame);
        assert(frames.take(n) =~= frames.take(n - 1).push(frame));
        assert(frames.take(n).to_multiset() == frames.take(n - 1).to_multiset().insert(frame));
        vstd::seq_lib::to_multiset_insert(before, at, frame);
    } else {
        assert(frames.take(0) =~= seq![]);
    }
}

/// Builds a keyframes block from its frames: the list is sorted by offset,
/// and frames of one offset keep their order.
pub fn sort_keyframes(name: String, frames: Vec<(i64, Vec<Declaration>)>) -> (r: Keyframes)
    ensures
        r@ == (KeyframesModel {
            name: name@,
            frames: sorted_frames(frame_models(frames@), frames@.len() as int),
        }),
{
    let ghost all = frame_models(frames@);
    let mut sorted: Vec<(i64, Vec<Declaration>)> = Vec::new();
    let mut i: usize = 0;
    assert(frame_models(sorted@) =~= sorted_frames(all, 0));
    while i < frames.len()
        invariant
            i <= frames@.len(),
            all == frame_models(frames@),
            frame_models(sorted@) == sorted_frames(all, i as int),
        decreases frames@.len() - i,
    {
        let offset: i64 = frames[i].0;
        let copy = copy_declarations(&frames[i].1);
        let ghost before = sorted@;
        let ghost model = frame_models(before);
        let mut at: usize = sorted.len();
        while at > 0 && sorted[at - 1].0 > offset
            invariant
                at <= sorted@.len(),
                sorted@ == before,
                model == frame_models(before),
                slot(model, offset, at as int) == slot(model, offset, model.len() as int),
            decreases at,
        {
            assert(model[at - 1].0 == before[at - 1].0);
            at = at - 1;
        }
        proof {
            if at > 0 {
                assert(model[at - 1].0 == before[at - 1].0);
            }
            assert(slot(model, offset, model.len() as int) == at);
            assert(all[i as int] == (offset, shorthand::declared(copy@)));
        }
        sorted.insert(at, (offset, copy));
        assert(frame_models(sorted@) =~= inserted(model, all[i as int]));
        i = i + 1;
    }
    Keyframes { name, frames: sorted }
}

/// The at-rules that are read go by their names, in any case, keyframes also
/// by their prefixed one; every other is unsupported.
pub proof fn law_at_rules_go_by_name(name: Seq<char>)
    ensures
        text::lowered(name) == "media"@ ==> at_rule_model(name) == AtRule::Media,
        text::lowered(name) == "font-face"@ ==> at_rule_model(name) == AtRule::FontFace,
        text::lowered(name) == "keyframes"@ ==> at_rule_model(name) == AtRule::Keyframes,
        text::lowered(name) == "-webkit-keyframes"@ ==> at_rule_model(name) == AtRule::Keyframes,
        !(at_rule_model(name) is Unsupported) ==> text::lowered(name) == "media"@ || text::lowered(name) == "font-face"@ || text::lowered(name) == "keyframes"@ || text::lowered(name) == "-webkit-keyframes"@,
{
    reveal_strlit("media");
    reveal_strlit("font-face");
    reveal_strlit("keyframes");
    reveal_strlit("-webkit-keyframes");
    assert("media"@.len() == 5);
    assert("font-face"@.len() == 9);
    assert("keyframes"@.len() == 9);
    assert("-webkit-keyframes"@.len() == 17);
    assert("font-face"@[0] == 'f');
    assert("keyframes"@[0] == 'k');
    assert(text::lowered("media"@) =~= "media"@);
    assert(text::lowered("font-face"@) =~= "font-face"@);
    assert(text::lowered("keyframes"@) =~= "keyframes"@);
    assert(text::lowered("-webkit-keyframes"@) =~= "-webkit-keyframes"@);
}

/// A frame selector is `from`, `to` or a finite percentage, kept without its
/// sign; white space around it does not count.
pub proof fn law_frame_selectors(part: Seq<char>, n: Seq<char>)
    ensures
        text::trimmed(part) == "from"@ ==> offset_model(part) == Some(OffsetModel::From),
        text::trimmed(part) == "to"@ ==> offset_model(part) == Some(OffsetModel::To),
        text::trimmed(part) == n + seq!['%'] && number::finite(text::trimmed(n), Scale::One)
            ==> offset_model(part) == Some(OffsetModel::Percent(text::trimmed(n))),
        offset_model(part) is Some ==> text::trimmed(part) == "from"@ || text::trimmed(part)
            == "to"@ || text::trimmed(part).last() == '%',
{
    reveal_strlit("from");
    reveal_strlit("to");
    reveal_strlit("%");
    assert("from"@.len() == 4);
    assert("to"@.len() == 2);
    assert("%"@.len() == 1);
    assert("%"@ =~= seq!['%']);
    assert("from"@[3] == 'm' && "to"@[1] == 'o');
    text::law_suffixes(n, "%"@);
    text::law_suffixes(text::trimmed(part), "%"@);
    let t = text::trimmed(part);
    if t == n + seq!['%'] {
        assert(t.last() == '%');
        if t == "from"@ {
            assert("from"@.last() == 'm');
        }
        if t == "to"@ {
            assert("to"@.last() == 'o');
        }
    }
    if text::before_suffix(t, "%"@) is Some {
        let rest = text::before_suffix(t, "%"@)->0;
        assert(t == rest + seq!['%']);
        assert((rest + seq!['%']).last() == '%');
    }
}

/// The usable selectors of a list stay in their order: each part adds its own
/// at the end, or nothing where it is none.
pub proof fn law_frame_selectors_keep_their_order(parts: Seq<Seq<char>>, part: Seq<char>)
    ensures
        ({
            let n = parts.len() as int;
            let all = offsets_of(parts.push(part), n + 1);
            match offset_model(part) {
                Some(offset) => all == offsets_of(parts.push(part), n).push(offset),
                None => all == offsets_of(parts.push(part), n),
            }
        }),
{
}

/// Of blocks of one name the last one counts.
pub proof fn law_the_last_block_of_a_name_counts(
    blocks: Seq<KeyframesModel>,
    name: Seq<char>,
    n: int,
)
    requires
        0 <= n <= blocks.len(),
    ensures
        last_named(blocks, name, n) matches Some(i) ==> 0 <= i < n && blocks[i].name == name
            && forall|j: int| i < j < n ==> (#[trigger] blocks[j]).name != name,
        last_named(blocks, name, n) is None ==> forall|j: int|
            0 <= j < n ==> (#[trigger] blocks[j]).name != name,
    decreases n,
{
    if n > 0 && blocks[n - 1].name != name {
        law_the_last_block_of_a_name_counts(blocks, name, n - 1);
    }
}

/// A rule applies where it has no media condition, and else exactly where its
/// condition holds.
pub proof fn law_rules_apply_by_their_condition(rule: RuleModel, width: int)
    ensures
        rule.media is None ==> applies(rule, width),
        rule.media matches Some(q) ==> (applies(rule, width) <==> {
            &&& q.min_width matches Some(min) ==> if q.min_exclusive {
                min < width
            } else {
                min <= width
            }
            &&& q.max_width matches Some(max) ==> if q.max_exclusive {
                width < max
            } else {
                width <= max
            }
        }),
{
}

} // verus!
