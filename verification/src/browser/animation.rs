//! Transitions and `@keyframes` animations: which properties animate, what a
//! tick repaints, and which animations stay.
use crate::browser::document::{self, Document, DocumentModel, NodeId};
use crate::css::color::{self, Color, ColorForm, ColorModel};
use crate::css::number::{self, Number, NumberModel};
use crate::css::shorthand::{self, Declaration, DeclarationModel};
use crate::css::stylesheet::{self, FrameModel, Keyframes};
use crate::css::value::{self, CssValue, ValueModel};
use crate::text;
use crate::css::lengths;
use vstd::prelude::*;

verus! {

/// The properties that animate without a relayout.
#[derive(Debug, Clone, Copy, PartialEq, Eq, Structural)]
pub enum Animated {
    Opacity,
    Transform,
    BackgroundColor,
    Color,
}

impl Animated {
    pub open spec fn text(self) -> Seq<char> {
        match self {
            Animated::Opacity => "opacity"@,
            Animated::Transform => "transform"@,
            Animated::BackgroundColor => "background-color"@,
            Animated::Color => "color"@,
        }
    }

    /// The property's name.
    pub fn name(self) -> (r: &'static str)
        ensures
            r@ == self.text(),
    {
        match self {
            Animated::Opacity => "opacity",
            Animated::Transform => "transform",
            Animated::BackgroundColor => "background-color",
            Animated::Color => "color",
        }
    }
}

// ---------------------------------------------------------------------------
// Transitions
// ---------------------------------------------------------------------------
/// A property transition in flight; its values and times are found by `key`.
#[derive(Debug, Clone, Copy, PartialEq, Eq, Structural)]
pub struct ActiveTransition {
    pub node: NodeId,
    pub property: Animated,
    pub key: u64,
}

/// How a node's computed style changed: whether the opacity and the transform
/// did, and the colors before and after.
#[derive(Debug, Clone, Copy)]
pub struct StyleChange {
    pub opacity: bool,
    pub color: (Color, Color),
    pub background: (Option<Color>, Option<Color>),
    pub transform: bool,
}

pub open spec fn or_transparent(c: Option<Color>) -> Color {
    match c {
        Some(c) => c,
        None => Color { r: 0, g: 0, b: 0, a: 0 },
    }
}

impl StyleChange {
    /// Whether a property changed. No background is a transparent one.
    pub open spec fn touches(self, property: Animated) -> bool {
        match property {
            Animated::Opacity => self.opacity,
            Animated::Transform => self.transform,
            Animated::BackgroundColor => or_transparent(self.background.0) != or_transparent(
                self.background.1,
            ),
            Animated::Color => self.color.0 != self.color.1,
        }
    }
}

/// Whether a `transition` entry covers a property.
pub open spec fn wants(entry: Seq<char>, property: Animated) -> bool {
    entry == "all"@ || entry == property.text()
}

pub open spec fn planned_if(
    entry: Seq<char>,
    change: StyleChange,
    property: Animated,
    place: int,
) -> Seq<(int, Animated)> {
    if wants(entry, property) && change.touches(property) {
        seq![(place, property)]
    } else {
        seq![]
    }
}

/// The transitions that one entry starts, in order.
pub open spec fn planned_by(entry: Seq<char>, change: StyleChange, place: int) -> Seq<
    (int, Animated),
> {
    planned_if(entry, change, Animated::Opacity, place) + planned_if(
        entry,
        change,
        Animated::Color,
        place,
    ) + planned_if(entry, change, Animated::BackgroundColor, place) + planned_if(
        entry,
        change,
        Animated::Transform,
        place,
    )
}

/// The transitions that the first `n` entries start, each with the place of
/// its entry.
pub open spec fn planned(entries: Seq<Seq<char>>, change: StyleChange, n: int) -> Seq<
    (int, Animated),
>
    decreases n,
{
    if n <= 0 {
        seq![]
    } else {
        planned(entries, change, n - 1) + planned_by(entries[n - 1], change, n - 1)
    }
}

pub open spec fn plan_models(list: Seq<(usize, Animated)>) -> Seq<(int, Animated)> {
    Seq::new(list.len(), |i: int| (list[i].0 as int, list[i].1))
}

fn visible(c: Option<Color>) -> (r: Color)
    ensures
        r == or_transparent(c),
{
    match c {
        Some(c) => c,
        None => Color::rgba(0, 0, 0, 0),
    }
}

fn push_planned(
    list: &mut Vec<(usize, Animated)>,
    entry: &str,
    change: &StyleChange,
    property: Animated,
    place: usize,
)
    ensures
        plan_models(final(list)@) == plan_models(old(list)@) + planned_if(
            entry@,
            *change,
            property,
            place as int,
        ),
{
    let touched = match property {
        Animated::Opacity => change.opacity,
        Animated::Transform => change.transform,
        Animated::BackgroundColor => {
            visible(change.background.0) != visible(change.background.1)
        },
        Animated::Color => change.color.0 != change.color.1,
    };
    if touched && (text::same_str(entry, "all") || text::same_str(entry, property.name())) {
        list.push((place, property));
    }
    assert(plan_models(list@) =~= plan_models(old(list)@) + planned_if(
        entry@,
        *change,
        property,
        place as int,
    ));
}

/// The transitions that a style change starts on a node, by the entries of
/// its `transition` declaration: the place of the entry and the property.
pub fn plan_transitions(entries: &Vec<String>, change: &StyleChange) -> (r: Vec<(usize, Animated)>)
    ensures
        plan_models(r@) == planned(text::texts(entries@), *change, entries@.len() as int),
{
    let ghost ev = text::texts(entries@);
    let mut list: Vec<(usize, Animated)> = Vec::new();
    let mut i: usize = 0;
    assert(plan_models(list@) =~= planned(ev, *change, 0));
    while i < entries.len()
        invariant
            i <= entries@.len(),
            ev == text::texts(entries@),
            plan_models(list@) == planned(ev, *change, i as int),
        decreases entries@.len() - i,
    {
        let entry = entries[i].as_str();
        let ghost before = plan_models(list@);
        push_planned(&mut list, entry, change, Animated::Opacity, i);
        push_planned(&mut list, entry, change, Animated::Color, i);
        push_planned(&mut list, entry, change, Animated::BackgroundColor, i);
        push_planned(&mut list, entry, change, Animated::Transform, i);
        assert(plan_models(list@) =~= before + planned_by(ev[i as int], *change, i as int));
        i = i + 1;
    }
    list
}

/// The first `n` transitions without those of one property of one node.
pub open spec fn others(
    list: Seq<ActiveTransition>,
    node: NodeId,
    property: Animated,
    n: int,
) -> Seq<ActiveTransition>
    decreases n,
{
    if n <= 0 {
        seq![]
    } else {
        let before = others(list, node, property, n - 1);
        if list[n - 1].node == node && list[n - 1].property == property {
            before
        } else {
            before.push(list[n - 1])
        }
    }
}

/// The transitions with one more: it replaces those of the same property of
/// the same node.
pub open spec fn started(list: Seq<ActiveTransition>, t: ActiveTransition) -> Seq<
    ActiveTransition,
> {
    others(list, t.node, t.property, list.len() as int).push(t)
}

// ---------------------------------------------------------------------------
// Keyframe tracks
// ---------------------------------------------------------------------------
/// A value of one keyframe.
#[derive(Debug)]
pub enum FrameValue {
    Number(Number),
    Color(ColorForm),
    /// A `transform` value.
    Transform(String),
    /// A pure rotation in degrees — matrix interpolation cannot represent
    /// spins (`rotate(0deg)` and `rotate(360deg)` are the same matrix),
    /// angles can.
    Angle(String),
}

pub enum FrameValueModel {
    Number(NumberModel),
    Color(ColorModel),
    Transform(Seq<char>),
    Angle(Seq<char>),
}

impl View for FrameValue {
    type V = FrameValueModel;

    open spec fn view(&self) -> FrameValueModel {
        match self {
            FrameValue::Number(n) => FrameValueModel::Number(n@),
            FrameValue::Color(c) => FrameValueModel::Color(c@),
            FrameValue::Transform(s) => FrameValueModel::Transform(s@),
            FrameValue::Angle(s) => FrameValueModel::Angle(s@),
        }
    }
}

pub type FrameSeq = Seq<(i64, FrameValueModel)>;

pub open spec fn value_models(frames: Seq<(i64, FrameValue)>) -> FrameSeq {
    Seq::new(frames.len(), |i: int| (frames[i].0, frames[i].1@))
}

pub open spec fn opt_value(v: Option<FrameValue>) -> Option<FrameValueModel> {
    match v {
        Some(v) => Some(v@),
        None => None,
    }
}

/// The value of the last of the first `n` declarations of a property.
pub open spec fn last_declared(list: Seq<DeclarationModel>, name: Seq<char>, n: int) -> Option<
    ValueModel,
>
    decreases n,
{
    if n <= 0 {
        None
    } else if list[n - 1].name == name {
        Some(list[n - 1].value)
    } else {
        last_declared(list, name, n - 1)
    }
}

/// The number of a text in the form `rotate(<number>deg)`.
pub open spec fn rotation(s: Seq<char>) -> Option<Seq<char>> {
    match text::after_prefix(s, "rotate("@) {
        Some(rest) => match text::before_suffix(rest, ")"@) {
            Some(inner) => match text::before_suffix(text::trimmed(inner), "deg"@) {
                Some(degrees) => if number::float_model(text::trimmed(degrees)) is Some {
                    Some(text::trimmed(degrees))
                } else {
                    None
                },
                None => None,
            },
            None => None,
        },
        None => None,
    }
}

/// What a declared value is as a value of an animated property.
pub open spec fn frame_value(property: Animated, v: ValueModel) -> Option<FrameValueModel> {
    match property {
        Animated::Opacity => match v {
            ValueModel::Number(n) => Some(FrameValueModel::Number(n)),
            ValueModel::Length(n, unit) => Some(FrameValueModel::Number(n)),
            _ => None,
        },
        Animated::Transform => match value::raw_model(v) {
            Some(raw) => match rotation(text::trimmed(raw)) {
                Some(degrees) => Some(FrameValueModel::Angle(degrees)),
                None => Some(FrameValueModel::Transform(text::trimmed(raw))),
            },
            None => None,
        },
        _ => match v {
            ValueModel::Color(c) => Some(FrameValueModel::Color(c)),
            ValueModel::Keyword(k) => match color::color_model(k) {
                Some(c) => Some(FrameValueModel::Color(c)),
                None => None,
            },
            _ => None,
        },
    }
}

/// The values of a property in the first `n` frames.
pub open spec fn candidates(frames: Seq<FrameModel>, property: Animated, n: int) -> FrameSeq
    decreases n,
{
    if n <= 0 {
        seq![]
    } else {
        let before = candidates(frames, property, n - 1);
        let list = frames[n - 1].1;
        match last_declared(list, property.text(), list.len() as int) {
            Some(v) => match frame_value(property, v) {
                Some(value) => before.push((frames[n - 1].0, value)),
                None => before,
            },
            None => before,
        }
    }
}

/// The first `n` frames without the transforms that are not readable.
pub open spec fn readable_frames(frames: FrameSeq, readable: Seq<bool>, n: int) -> FrameSeq
    decreases n,
{
    if n <= 0 {
        seq![]
    } else {
        let before = readable_frames(frames, readable, n - 1);
        if frames[n - 1].1 is Transform && !(n - 1 < readable.len() && readable[n - 1]) {
            before
        } else {
            before.push(frames[n - 1])
        }
    }
}

/// One property of an animation: its frames, ordered by offset.
#[derive(Debug)]
pub struct Track {
    pub property: Animated,
    pub frames: Vec<(i64, FrameValue)>,
}

pub struct TrackModel {
    pub property: Animated,
    pub frames: FrameSeq,
}

impl View for Track {
    type V = TrackModel;

    open spec fn view(&self) -> TrackModel {
        TrackModel { property: self.property, frames: value_models(self.frames@) }
    }
}

pub open spec fn track_models(tracks: Seq<Track>) -> Seq<TrackModel> {
    Seq::new(tracks.len(), |i: int| tracks[i]@)
}

/// The track of a property: it takes at least two frames to animate.
pub open spec fn track_if(
    frames: Seq<FrameModel>,
    property: Animated,
    readable: Seq<bool>,
) -> Seq<TrackModel> {
    let all = candidates(frames, property, frames.len() as int);
    let kept = readable_frames(all, readable, all.len() as int);
    if kept.len() >= 2 {
        seq![TrackModel { property, frames: kept }]
    } else {
        seq![]
    }
}

/// The tracks of a `@keyframes` block, where `readable` tells which of the
/// `transform` values can be read.
pub open spec fn tracks_of(frames: Seq<FrameModel>, readable: Seq<bool>) -> Seq<TrackModel> {
    track_if(frames, Animated::Opacity, readable) + track_if(
        frames,
        Animated::Transform,
        readable,
    ) + track_if(frames, Animated::BackgroundColor, readable) + track_if(
        frames,
        Animated::Color,
        readable,
    )
}

fn last_value<'a>(list: &'a Vec<Declaration>, name: &str) -> (r: Option<&'a CssValue>)
    ensures
        match last_declared(shorthand::declared(list@), name@, list@.len() as int) {
            Some(v) => r is Some && r->0@ == v,
            None => r is None,
        },
{
    let ghost lv = shorthand::declared(list@);
    let mut i: usize = list.len();
    while i > 0
        invariant
            i <= list@.len(),
            lv == shorthand::declared(list@),
            last_declared(lv, name@, i as int) == last_declared(lv, name@, list@.len() as int),
        decreases i,
    {
        assert(lv[i - 1] == list@[i - 1]@);
        if text::same_str(list[i - 1].name.as_str(), name) {
            return Some(&list[i - 1].value);
        }
        i = i - 1;
    }
    None
}

fn read_rotation(s: &[char]) -> (r: Option<String>)
    ensures
        text::opt_text(r) == rotation(s@),
{
    let rest = match text::strip_prefix(s, "rotate(") {
        Some(rest) => rest,
        None => {
            return None;
        },
    };
    let inner = match text::strip_suffix(rest, ")") {
        Some(inner) => inner,
        None => {
            return None;
        },
    };
    let degrees = match text::strip_suffix(text::trim(inner), "deg") {
        Some(degrees) => text::trim(degrees),
        None => {
            return None;
        },
    };
    if number::is_float(degrees) {
        Some(text::text_of(degrees))
    } else {
        None
    }
}

fn read_frame_value(property: Animated, v: &CssValue) -> (r: Option<FrameValue>)
    ensures
        opt_value(r) == frame_value(property, v@),
{
    match property {
        Animated::Opacity => match v {
            CssValue::Number(n) => Some(FrameValue::Number(n.clone())),
            CssValue::Length(n, _) => Some(FrameValue::Number(n.clone())),
            _ => None,
        },
        Animated::Transform => match v.raw_text() {
            Some(raw) => {
                let chars = text::chars_of(raw.as_str());
                let trimmed = text::trim(chars.as_slice());
                match read_rotation(trimmed) {
                    Some(degrees) => Some(FrameValue::Angle(degrees)),
                    None => Some(FrameValue::Transform(text::text_of(trimmed))),
                }
            },
            None => None,
        },
        _ => match v {
            CssValue::Color(c) => Some(FrameValue::Color(c.clone())),
            CssValue::Keyword(k) => match Color::parse(k.as_str()) {
                Some(c) => Some(FrameValue::Color(c)),
                None => None,
            },
            _ => None,
        },
    }
}

/// The values of a property in the frames of a `@keyframes` block: in each
/// the last declaration counts.
pub fn frame_candidates(block: &Keyframes, property: Animated) -> (r: Vec<(i64, FrameValue)>)
    ensures
        value_models(r@) == candidates(block@.frames, property, block@.frames.len() as int),
{
    let ghost fv = stylesheet::frame_models(block.frames@);
    let mut list: Vec<(i64, FrameValue)> = Vec::new();
    let mut i: usize = 0;
    assert(value_models(list@) =~= candidates(fv, property, 0));
    while i < block.frames.len()
        invariant
            i <= block.frames@.len(),
            fv == stylesheet::frame_models(block.frames@),
            value_models(list@) == candidates(fv, property, i as int),
        decreases block.frames@.len() - i,
    {
        let ghost before = value_models(list@);
        assert(fv[i as int].1 == shorthand::declared(block.frames@[i as int].1@));
        if let Some(v) = last_value(&block.frames[i].1, property.name()) {
            if let Some(value) = read_frame_value(property, v) {
                let offset: i64 = block.frames[i].0;
                list.push((offset, value));
                assert(value_models(list@) =~= before.push((offset, value@)));
            }
        }
        i = i + 1;
    }
    list
}

fn keep_readable(frames: Vec<(i64, FrameValue)>, readable: &Vec<bool>) -> (r: Vec<
    (i64, FrameValue),
>)
    ensures
        value_models(r@) == readable_frames(
            value_models(frames@),
            readable@,
            frames@.len() as int,
        ),
{
    let ghost fv = value_models(frames@);
    let mut list: Vec<(i64, FrameValue)> = Vec::new();
    let mut i: usize = 0;
    assert(value_models(list@) =~= readable_frames(fv, readable@, 0));
    while i < frames.len()
        invariant
            i <= frames@.len(),
            fv == value_models(frames@),
            value_models(list@) == readable_frames(fv, readable@, i as int),
        decreases frames@.len() - i,
    {
        let ghost before = value_models(list@);
        assert(fv[i as int] == (frames@[i as int].0, frames@[i as int].1@));
        let offset: i64 = frames[i].0;
        let value = match &frames[i].1 {
            FrameValue::Number(n) => Some(FrameValue::Number(n.clone())),
            FrameValue::Color(c) => Some(FrameValue::Color(c.clone())),
            FrameValue::Angle(s) => Some(FrameValue::Angle(s.clone())),
            FrameValue::Transform(s) => {
                if i < readable.len() && readable[i] {
                    Some(FrameValue::Transform(s.clone()))
                } else {
                    None
                }
            },
        };
        if let Some(value) = value {
            list.push((offset, value));
            assert(value_models(list@) =~= before.push((offset, value@)));
        }
        i = i + 1;
    }
    list
}

fn push_track(
    tracks: &mut Vec<Track>,
    block: &Keyframes,
    property: Animated,
    readable: &Vec<bool>,
)
    ensures
        track_models(final(tracks)@) == track_models(old(tracks)@) + track_if(
            block@.frames,
            property,
            readable@,
        ),
{
    let frames = keep_readable(frame_candidates(block, property), readable);
    let ghost fv = value_models(frames@);
    assert(fv.len() == frames@.len());
    if frames.len() >= 2 {
        tracks.push(Track { property, frames });
    }
    assert(track_models(tracks@) =~= track_models(old(tracks)@) + track_if(
        block@.frames,
        property,
        readable@,
    ));
}

/// The tracks of a `@keyframes` block: only animatable properties with at
/// least two frames. `readable` tells, for each of the `transform` candidates,
/// whether it can be read.
pub fn spawn_tracks(block: &Keyframes, readable: &Vec<bool>) -> (r: Vec<Track>)
    ensures
        track_models(r@) == tracks_of(block@.frames, readable@),
{
    let mut tracks: Vec<Track> = Vec::new();
    push_track(&mut tracks, block, Animated::Opacity, readable);
    push_track(&mut tracks, block, Animated::Transform, readable);
    push_track(&mut tracks, block, Animated::BackgroundColor, readable);
    push_track(&mut tracks, block, Animated::Color, readable);
    assert(track_models(tracks@) =~= tracks_of(block@.frames, readable@));
    tracks
}

/// A track has at least two frames.
pub proof fn law_tracks_have_two_frames(frames: Seq<FrameModel>, readable: Seq<bool>, i: int)
    requires
        0 <= i < tracks_of(frames, readable).len(),
    ensures
        tracks_of(frames, readable)[i].frames.len() >= 2,
{
}

// ---------------------------------------------------------------------------
// Between frames
// ---------------------------------------------------------------------------
/// The first offset, from place `i` on, that is not before `t`.
pub open spec fn reaches(offsets: Seq<i64>, t: i64, i: int) -> int
    decreases offsets.len() - i,
{
    if i < 0 || i >= offsets.len() {
        offsets.len() as int
    } else if offsets[i] >= t {
        i
    } else {
        reaches(offsets, t, i + 1)
    }
}

/// The two frames around a place of an animation.
pub open spec fn segment(offsets: Seq<i64>, t: i64) -> (int, int) {
    let found = reaches(offsets, t, 0);
    let after = if found < offsets.len() {
        found
    } else {
        offsets.len() - 1
    };
    if offsets[after] > t && after > 0 {
        (after - 1, after)
    } else {
        (after, after)
    }
}

/// The frames before and after a place of an animation, by their offsets.
pub fn frame_segment(offsets: &Vec<i64>, t: i64) -> (r: (usize, usize))
    requires
        offsets@.len() > 0,
    ensures
        (r.0 as int, r.1 as int) == segment(offsets@, t),
        r.1 < offsets@.len(),
        r.0 <= r.1 <= r.0 + 1,
{
    let mut after: usize = 0;
    while after < offsets.len() && offsets[after] < t
        invariant
            after <= offsets@.len(),
            reaches(offsets@, t, after as int) == reaches(offsets@, t, 0),
        decreases offsets@.len() - after,
    {
        after = after + 1;
    }
    if after == offsets.len() {
        after = offsets.len() - 1;
    }
    if offsets[after] > t && after > 0 {
        (after - 1, after)
    } else {
        (after, after)
    }
}

proof fn lemma_reaches(offsets: Seq<i64>, t: i64, i: int)
    requires
        0 <= i <= offsets.len(),
    ensures
        i <= reaches(offsets, t, i) <= offsets.len(),
        forall|k: int| i <= k < reaches(offsets, t, i) ==> #[trigger] offsets[k] < t,
        reaches(offsets, t, i) < offsets.len() ==> offsets[reaches(offsets, t, i)] >= t,
    decreases offsets.len() - i,
{
    if i < offsets.len() && offsets[i] < t {
        lemma_reaches(offsets, t, i + 1);
    }
}

/// Between the first and the last offset, the segment holds the place: its
/// first frame is not after it, its second not before it.
pub proof fn law_segment_holds_the_place(offsets: Seq<i64>, t: i64)
    requires
        offsets.len() > 0,
        offsets[0] <= t <= offsets[offsets.len() - 1],
    ensures
        offsets[segment(offsets, t).0] <= t <= offsets[segment(offsets, t).1],
{
    lemma_reaches(offsets, t, 0);
}

// ---------------------------------------------------------------------------
// Ticks
// ---------------------------------------------------------------------------
/// A running `@keyframes` animation; its times are found by `key`.
#[derive(Debug)]
pub struct ActiveAnimation {
    pub node: NodeId,
    pub tracks: Vec<Track>,
    pub key: u64,
}

pub struct AnimationModel {
    pub node: NodeId,
    pub tracks: Seq<TrackModel>,
    pub key: u64,
}

impl View for ActiveAnimation {
    type V = AnimationModel;

    open spec fn view(&self) -> AnimationModel {
        AnimationModel { node: self.node, tracks: track_models(self.tracks@), key: self.key }
    }
}

pub open spec fn animation_models(list: Seq<ActiveAnimation>) -> Seq<AnimationModel> {
    Seq::new(list.len(), |i: int| list[i]@)
}

/// What the clock says of a transition or an animation at a tick: whether it
/// needs more frames, and whether it stays on the list.
#[derive(Debug, Clone, Copy, PartialEq, Eq, Structural)]
pub struct Progress {
    pub running: bool,
    pub kept: bool,
}

/// What a tick repaints and whether animation frames are still needed.
#[derive(Debug)]
pub struct TickPlan {
    pub full_repaint: bool,
    /// The nodes whose paint may differ, in order.
    pub damaged: Vec<NodeId>,
    pub any_active: bool,
}

pub struct TickModel {
    pub full_repaint: bool,
    pub damaged: Seq<NodeId>,
    pub any_active: bool,
}

impl View for TickPlan {
    type V = TickModel;

    open spec fn view(&self) -> TickModel {
        TickModel {
            full_repaint: self.full_repaint,
            damaged: self.damaged@,
            any_active: self.any_active,
        }
    }
}

/// The running transitions and animations of a page.
#[derive(Debug)]
pub struct Animations {
    pub transitions: Vec<ActiveTransition>,
    pub animations: Vec<ActiveAnimation>,
}

#[verifier::ext_equal]
pub struct AnimationsModel {
    pub transitions: Seq<ActiveTransition>,
    pub animations: Seq<AnimationModel>,
}

impl View for Animations {
    type V = AnimationsModel;

    open spec fn view(&self) -> AnimationsModel {
        AnimationsModel {
            transitions: self.transitions@,
            animations: animation_models(self.animations@),
        }
    }
}

/// Whether one of the first `n` frames holds a transform.
pub open spec fn turns(frames: FrameSeq, n: int) -> bool
    decreases n,
{
    n > 0 && (turns(frames, n - 1) || frames[n - 1].1 is Transform || frames[n - 1].1 is Angle)
}

/// Whether one of the first `n` tracks moves the node.
pub open spec fn moves(tracks: Seq<TrackModel>, n: int) -> bool
    decreases n,
{
    n > 0 && (moves(tracks, n - 1) || tracks[n - 1].property == Animated::Transform || turns(
        tracks[n - 1].frames,
        tracks[n - 1].frames.len() as int,
    ))
}

pub open spec fn has_track(tracks: Seq<TrackModel>, property: Animated, n: int) -> bool
    decreases n,
{
    n > 0 && (has_track(tracks, property, n - 1) || tracks[n - 1].property == property)
}

/// Whether an animation's paint can land anywhere: it moves the node, or it
/// animates the background of html or body, which fills the canvas.
pub open spec fn repaints_all(doc: DocumentModel, a: AnimationModel) -> bool {
    ||| moves(a.tracks, a.tracks.len() as int)
    ||| has_track(a.tracks, Animated::BackgroundColor, a.tracks.len() as int) && (
    document::has_tag(doc, a.node, "html"@) || document::has_tag(doc, a.node, "body"@))
}

/// The first `n` transitions' part of a tick.
pub open spec fn after_transitions(
    list: Seq<ActiveTransition>,
    progress: Seq<Progress>,
    n: int,
) -> TickModel
    decreases n,
{
    if n <= 0 {
        TickModel { full_repaint: false, damaged: seq![], any_active: false }
    } else {
        let before = after_transitions(list, progress, n - 1);
        let t = list[n - 1];
        TickModel {
            full_repaint: before.full_repaint || t.property == Animated::Transform,
            damaged: if t.property == Animated::Transform {
                before.damaged
            } else {
                before.damaged.push(t.node)
            },
            any_active: before.any_active || progress[n - 1].running,
        }
    }
}

/// The tick with the first `n` animations' part.
pub open spec fn after_animations(
    start: TickModel,
    doc: DocumentModel,
    list: Seq<AnimationModel>,
    progress: Seq<Progress>,
    n: int,
) -> TickModel
    decreases n,
{
    if n <= 0 {
        start
    } else {
        let before = after_animations(start, doc, list, progress, n - 1);
        let a = list[n - 1];
        TickModel {
            full_repaint: before.full_repaint || repaints_all(doc, a),
            damaged: if repaints_all(doc, a) {
                before.damaged
            } else {
                before.damaged.push(a.node)
            },
            any_active: before.any_active || progress[n - 1].running,
        }
    }
}

/// The items, from place `i` on, that stay.
pub open spec fn kept<T>(list: Seq<T>, progress: Seq<Progress>, i: int) -> Seq<T>
    decreases list.len() - i,
{
    if i < 0 || i >= list.len() {
        seq![]
    } else if progress[i].kept {
        seq![list[i]] + kept(list, progress, i + 1)
    } else {
        kept(list, progress, i + 1)
    }
}

pub open spec fn idle_tick() -> TickModel {
    TickModel { full_repaint: false, damaged: seq![], any_active: false }
}

/// What a tick does on a page.
pub open spec fn tick_model(
    a: AnimationsModel,
    doc: DocumentModel,
    transitions: Seq<Progress>,
    animations: Seq<Progress>,
) -> TickModel {
    after_animations(
        after_transitions(a.transitions, transitions, a.transitions.len() as int),
        doc,
        a.animations,
        animations,
        a.animations.len() as int,
    )
}

pub open spec fn ticked(
    a: AnimationsModel,
    transitions: Seq<Progress>,
    animations: Seq<Progress>,
) -> AnimationsModel {
    AnimationsModel {
        transitions: kept(a.transitions, transitions, 0),
        animations: kept(a.animations, animations, 0),
    }
}

fn frames_turn(frames: &Vec<(i64, FrameValue)>) -> (r: bool)
    ensures
        r == turns(value_models(frames@), frames@.len() as int),
{
    let ghost fv = value_models(frames@);
    let mut found = false;
    let mut i: usize = 0;
    while i < frames.len()
        invariant
            i <= frames@.len(),
            fv == value_models(frames@),
            found == turns(fv, i as int),
        decreases frames@.len() - i,
    {
        assert(fv[i as int].1 == frames@[i as int].1@);
        match &frames[i].1 {
            FrameValue::Transform(_) => {
                found = true;
            },
            FrameValue::Angle(_) => {
                found = true;
            },
            _ => {},
        }
        i = i + 1;
    }
    found
}

fn needs_full_repaint(doc: &Document, a: &ActiveAnimation) -> (r: bool)
    ensures
        r == repaints_all(doc@, a@),
{
    let ghost tv = track_models(a.tracks@);
    let mut moved = false;
    let mut background = false;
    let mut i: usize = 0;
    while i < a.tracks.len()
        invariant
            i <= a.tracks@.len(),
            tv == track_models(a.tracks@),
            moved == moves(tv, i as int),
            background == has_track(tv, Animated::BackgroundColor, i as int),
        decreases a.tracks@.len() - i,
    {
        assert(tv[i as int] == a.tracks@[i as int]@);
        let property = a.tracks[i].property;
        if property == Animated::Transform || frames_turn(&a.tracks[i].frames) {
            moved = true;
        }
        if property == Animated::BackgroundColor {
            background = true;
        }
        i = i + 1;
    }
    moved || (background && (doc.is_tag(a.node, "html") || doc.is_tag(a.node, "body")))
}

impl Animations {
    pub fn new() -> (r: Animations)
        ensures
            r@ == (AnimationsModel { transitions: Seq::empty(), animations: Seq::empty() }),
    {
        let r = Animations { transitions: Vec::new(), animations: Vec::new() };
        assert(r@ =~= (AnimationsModel { transitions: Seq::empty(), animations: Seq::empty() }));
        r
    }

    /// Drops everything: a new page has new nodes.
    pub fn clear(&mut self)
        ensures
            final(self)@ == (AnimationsModel {
                transitions: Seq::empty(),
                animations: Seq::empty(),
            }),
    {
        self.transitions.clear();
        self.animations.clear();
        assert(self@ =~= (AnimationsModel { transitions: Seq::empty(), animations: Seq::empty() }));
    }

    /// Starts a transition: it replaces the one on the same node and property.
    pub fn start_transition(&mut self, transition: ActiveTransition)
        ensures
            final(self)@ == (AnimationsModel {
                transitions: started(old(self)@.transitions, transition),
                ..old(self)@
            }),
    {
        let ghost before = self.transitions@;
        let mut list: Vec<ActiveTransition> = Vec::new();
        let mut i: usize = 0;
        assert(list@ =~= others(before, transition.node, transition.property, 0));
        while i < self.transitions.len()
            invariant
                i <= self.transitions@.len(),
                self.transitions@ == before,
                self.animations@ == old(self).animations@,
                list@ == others(before, transition.node, transition.property, i as int),
            decreases self.transitions@.len() - i,
        {
            let existing = self.transitions[i];
            if !(existing.node == transition.node && existing.property == transition.property) {
                list.push(existing);
            }
            i = i + 1;
        }
        list.push(transition);
        self.transitions = list;
    }

    /// Starts an animation, if any of its properties animates.
    pub fn start_animation(&mut self, node: NodeId, tracks: Vec<Track>, key: u64) -> (r: bool)
        ensures
            r == (tracks@.len() > 0),
            final(self)@ == (AnimationsModel {
                animations: if tracks@.len() > 0 {
                    old(self)@.animations.push(
                        AnimationModel { node, tracks: track_models(tracks@), key },
                    )
                } else {
                    old(self)@.animations
                },
                ..old(self)@
            }),
    {
        if tracks.len() == 0 {
            return false;
        }
        let ghost model = AnimationModel { node, tracks: track_models(tracks@), key };
        let ghost before = self@.animations;
        self.animations.push(ActiveAnimation { node, tracks, key });
        assert(self@.animations =~= before.push(model));
        true
    }

    fn plan(
        &self,
        doc: &Document,
        transitions: &Vec<Progress>,
        animations: &Vec<Progress>,
    ) -> (r: TickPlan)
        requires
            transitions@.len() == self@.transitions.len(),
            animations@.len() == self@.animations.len(),
        ensures
            r@ == tick_model(self@, doc@, transitions@, animations@),
    {
        let mut plan = TickPlan { full_repaint: false, damaged: Vec::new(), any_active: false };
        let ghost list = self.transitions@;
        let mut i: usize = 0;
        assert(plan@.damaged =~= seq![]);
        while i < self.transitions.len()
            invariant
                i <= list.len(),
                list == self.transitions@,
                transitions@.len() == list.len(),
                plan@ == after_transitions(list, transitions@, i as int),
            decreases list.len() - i,
        {
            if self.transitions[i].property == Animated::Transform {
                plan.full_repaint = true;
            } else {
                plan.damaged.push(self.transitions[i].node);
            }
            if transitions[i].running {
                plan.any_active = true;
            }
            i = i + 1;
        }
        let ghost start = plan@;
        let ghost all = animation_models(self.animations@);
        let mut k: usize = 0;
        while k < self.animations.len()
            invariant
                k <= self.animations@.len(),
                all == animation_models(self.animations@),
                animations@.len() == self.animations@.len(),
                plan@ == after_animations(start, doc@, all, animations@, k as int),
            decreases self.animations@.len() - k,
        {
            assert(all[k as int] == self.animations@[k as int]@);
            if needs_full_repaint(doc, &self.animations[k]) {
                plan.full_repaint = true;
            } else {
                plan.damaged.push(self.animations[k].node);
            }
            if animations[k].running {
                plan.any_active = true;
            }
            k = k + 1;
        }
        plan
    }

    fn retain(&mut self, transitions: &Vec<Progress>, animations: &Vec<Progress>)
        requires
            transitions@.len() == old(self)@.transitions.len(),
            animations@.len() == old(self)@.animations.len(),
        ensures
            final(self)@ == ticked(old(self)@, transitions@, animations@),
    {
        let ghost before = self.transitions@;
        let mut i: usize = self.transitions.len();
        assert(before.take(i as int) + kept(before, transitions@, i as int) =~= before);
        while i > 0
            invariant
                i <= before.len(),
                transitions@.len() == before.len(),
                self.transitions@ == before.take(i as int) + kept(before, transitions@, i as int),
                self.animations@ == old(self).animations@,
            decreases i,
        {
            i = i - 1;
            let ghost tail = kept(before, transitions@, i + 1);
            if !transitions[i].kept {
                self.transitions.remove(i);
            }
            assert(self.transitions@ =~= before.take(i as int) + kept(
                before,
                transitions@,
                i as int,
            ));
        }
        assert(self.transitions@ =~= kept(before, transitions@, 0));
        let ghost all = animation_models(self.animations@);
        let mut k: usize = self.animations.len();
        assert(all.take(k as int) + kept(all, animations@, k as int) =~= all);
        while k > 0
            invariant
                k <= all.len(),
                animations@.len() == all.len(),
                self.transitions@ == kept(before, transitions@, 0),
                animation_models(self.animations@) == all.take(k as int) + kept(
                    all,
                    animations@,
                    k as int,
                ),
            decreases k,
        {
            k = k - 1;
            let ghost tail = kept(all, animations@, k + 1);
            let ghost now = self.animations@;
            assert(animation_models(now).len() == now.len());
            if !animations[k].kept {
                self.animations.remove(k);
                assert(animation_models(self.animations@) =~= animation_models(now).remove(
                    k as int,
                ));
            }
            assert(animation_models(self.animations@) =~= all.take(k as int) + kept(
                all,
                animations@,
                k as int,
            ));
        }
        assert(animation_models(self.animations@) =~= kept(all, animations@, 0));
    }

    /// One step of everything that runs, with what the clock says of each:
    /// what has to be repainted, and what stays. Without a page everything is
    /// dropped.
    pub fn tick(
        &mut self,
        page: Option<&Document>,
        transitions: &Vec<Progress>,
        animations: &Vec<Progress>,
    ) -> (r: TickPlan)
        requires
            transitions@.len() == old(self)@.transitions.len(),
            animations@.len() == old(self)@.animations.len(),
        ensures
            match page {
                Some(doc) => {
                    &&& r@ == tick_model(old(self)@, doc@, transitions@, animations@)
                    &&& final(self)@ == ticked(old(self)@, transitions@, animations@)
                },
                None => r@ == idle_tick() && final(self)@ == (AnimationsModel {
                    transitions: Seq::empty(),
                    animations: Seq::empty(),
                }),
            },
    {
        match page {
            Some(doc) => {
                let plan = self.plan(doc, transitions, animations);
                self.retain(transitions, animations);
                plan
            },
            None => {
                self.clear();
                let plan = TickPlan {
                    full_repaint: false,
                    damaged: Vec::new(),
                    any_active: false,
                };
                assert(plan@.damaged =~= seq![]);
                plan
            },
        }
    }
}

// ---------------------------------------------------------------------------
// Laws
// ---------------------------------------------------------------------------
proof fn lemma_others(list: Seq<ActiveTransition>, node: NodeId, property: Animated, n: int)
    requires
        0 <= n <= list.len(),
    ensures
        forall|i: int|
            0 <= i < others(list, node, property, n).len() ==> {
                let t = #[trigger] others(list, node, property, n)[i];
                t.node != node || t.property != property
            },
        forall|k: int|
            0 <= k < n && (list[k].node != node || list[k].property != property) ==> others(
                list,
                node,
                property,
                n,
            ).contains(#[trigger] list[k]),
    decreases n,
{
    if n > 0 {
        lemma_others(list, node, property, n - 1);
        let before = others(list, node, property, n - 1);
        let after = others(list, node, property, n);
        assert forall|k: int|
            0 <= k < n && (list[k].node != node || list[k].property
                != property) implies after.contains(#[trigger] list[k]) by {
            if k < n - 1 {
                let j = choose|j: int| 0 <= j < before.len() && before[j] == list[k];
                assert(after[j] == list[k]);
            } else {
                assert(after[before.len() as int] == list[k]);
            }
        }
    }
}

/// A started transition is the last one and the only one on its node and
/// property; the others stay.
pub proof fn law_started_transition_replaces(
    list: Seq<ActiveTransition>,
    t: ActiveTransition,
    other: ActiveTransition,
)
    ensures
        started(list, t).last() == t,
        forall|i: int|
            0 <= i < started(list, t).len() - 1 ==> {
                let o = #[trigger] started(list, t)[i];
                o.node != t.node || o.property != t.property
            },
        list.contains(other) && (other.node != t.node || other.property != t.property)
            ==> started(list, t).contains(other),
{
    let n = list.len() as int;
    lemma_others(list, t.node, t.property, n);
    let rest = others(list, t.node, t.property, n);
    if list.contains(other) && (other.node != t.node || other.property != t.property) {
        let k = choose|k: int| 0 <= k < list.len() && list[k] == other;
        assert(rest.contains(list[k]));
        let j = choose|j: int| 0 <= j < rest.len() && rest[j] == other;
        assert(started(list, t)[j] == other);
    }
}

/// Whether one of a list is still running.
pub open spec fn any_running(progress: Seq<Progress>) -> bool {
    exists|i: int| 0 <= i < progress.len() && (#[trigger] progress[i]).running
}

/// What stays, from place `i` on, is what the clock kept there.
pub proof fn lemma_kept<T>(list: Seq<T>, progress: Seq<Progress>, i: int, x: T)
    requires
        0 <= i <= list.len(),
    ensures
        kept(list, progress, i).contains(x) <==> exists|j: int|
            i <= j < list.len() && (#[trigger] progress[j]).kept && list[j] == x,
    decreases list.len() - i,
{
    if i < list.len() {
        lemma_kept(list, progress, i + 1, x);
        let rest = kept(list, progress, i + 1);
        let all = kept(list, progress, i);
        if rest.contains(x) {
            let k = choose|k: int| 0 <= k < rest.len() && rest[k] == x;
            assert(all[all.len() - rest.len() + k] == x);
        }
        if progress[i].kept {
            assert(all[0] == list[i]);
        }
        if all.contains(x) && !rest.contains(x) {
            let k = choose|k: int| 0 <= k < all.len() && all[k] == x;
            if k > 0 {
                assert(rest[k - 1] == x);
            }
            assert(progress[i].kept && list[i] == x);
        }
    }
}

proof fn lemma_transitions_active(list: Seq<ActiveTransition>, progress: Seq<Progress>, n: int)
    requires
        0 <= n <= progress.len(),
    ensures
        after_transitions(list, progress, n).any_active == any_running(progress.take(n)),
    decreases n,
{
    if n > 0 {
        lemma_transitions_active(list, progress, n - 1);
        lemma_running(progress, n);
    }
}

proof fn lemma_animations_active(
    start: TickModel,
    doc: DocumentModel,
    list: Seq<AnimationModel>,
    progress: Seq<Progress>,
    n: int,
)
    requires
        0 <= n <= progress.len(),
    ensures
        after_animations(start, doc, list, progress, n).any_active == (start.any_active
            || any_running(progress.take(n))),
    decreases n,
{
    if n > 0 {
        lemma_animations_active(start, doc, list, progress, n - 1);
        lemma_running(progress, n);
    }
}

proof fn lemma_running(progress: Seq<Progress>, n: int)
    requires
        0 < n <= progress.len(),
    ensures
        any_running(progress.take(n)) == (any_running(progress.take(n - 1)) || progress[n
            - 1].running),
{
    let whole = progress.take(n);
    let front = progress.take(n - 1);
    if any_running(front) {
        let i = choose|i: int| 0 <= i < front.len() && (#[trigger] front[i]).running;
        assert(whole[i].running);
    }
    if progress[n - 1].running {
        assert(whole[n - 1].running);
    }
    if any_running(whole) && !progress[n - 1].running {
        let i = choose|i: int| 0 <= i < whole.len() && (#[trigger] whole[i]).running;
        assert(front[i].running);
    }
}

/// A tick asks for another frame exactly while something runs.
pub proof fn law_frames_are_asked_while_something_runs(
    a: AnimationsModel,
    doc: DocumentModel,
    transitions: Seq<Progress>,
    animations: Seq<Progress>,
)
    requires
        transitions.len() == a.transitions.len(),
        animations.len() == a.animations.len(),
    ensures
        tick_model(a, doc, transitions, animations).any_active == (any_running(transitions)
            || any_running(animations)),
{
    let start = after_transitions(a.transitions, transitions, a.transitions.len() as int);
    lemma_transitions_active(a.transitions, transitions, transitions.len() as int);
    lemma_animations_active(start, doc, a.animations, animations, animations.len() as int);
    assert(transitions.take(transitions.len() as int) =~= transitions);
    assert(animations.take(animations.len() as int) =~= animations);
}

/// The animated properties have the names that style sheets give them.
pub proof fn law_animated_names()
    ensures
        Animated::Opacity.text() == "opacity"@,
        Animated::Transform.text() == "transform"@,
        Animated::BackgroundColor.text() == "background-color"@,
        Animated::Color.text() == "color"@,
{
}

/// Whether a change of style changes a property.
pub open spec fn changes(change: StyleChange, property: Animated) -> bool {
    let clear = Color { r: 0, g: 0, b: 0, a: 0 };
    match property {
        Animated::Opacity => change.opacity,
        Animated::Transform => change.transform,
        Animated::Color => change.color.0 != change.color.1,
        Animated::BackgroundColor => match (change.background.0, change.background.1) {
            (Some(a), Some(b)) => a != b,
            (Some(a), None) => a != clear,
            (None, Some(b)) => b != clear,
            (None, None) => false,
        },
    }
}

proof fn lemma_planned_by(entry: Seq<char>, change: StyleChange, place: int, property: Animated)
    ensures
        planned_by(entry, change, place).contains((place, property)) <==> (entry == "all"@ || entry
            == property.text()) && changes(change, property),
        forall|k: int, p: Animated|
            #![trigger planned_by(entry, change, place).contains((k, p))]
            planned_by(entry, change, place).contains((k, p)) ==> k == place,
{
    let a = planned_if(entry, change, Animated::Opacity, place);
    let b = planned_if(entry, change, Animated::Color, place);
    let c = planned_if(entry, change, Animated::BackgroundColor, place);
    let d = planned_if(entry, change, Animated::Transform, place);
    let all = planned_by(entry, change, place);
    assert(all == a + b + c + d);
    let x = (place, property);
    match property {
        Animated::Opacity => {
            if a.len() > 0 {
                assert(all[0] == x);
            }
        },
        Animated::Color => {
            if b.len() > 0 {
                assert(all[a.len() as int] == x);
            }
        },
        Animated::BackgroundColor => {
            if c.len() > 0 {
                assert(all[a.len() as int + b.len()] == x);
            }
        },
        Animated::Transform => {
            if d.len() > 0 {
                assert(all[a.len() as int + b.len() + c.len()] == x);
            }
        },
    }
}

/// A transition starts for an entry and a property exactly where the property
/// changed and the entry names it or says `all`. A missing background is a
/// transparent one.
pub proof fn law_transitions_start_where_styles_change(
    entries: Seq<Seq<char>>,
    change: StyleChange,
    n: int,
    k: int,
    property: Animated,
)
    requires
        0 <= n <= entries.len(),
    ensures
        planned(entries, change, n).contains((k, property)) <==> 0 <= k < n && (entries[k]
            == "all"@ || entries[k] == property.text()) && changes(change, property),
    decreases n,
{
    if n > 0 {
        law_transitions_start_where_styles_change(entries, change, n - 1, k, property);
        let before = planned(entries, change, n - 1);
        let by = planned_by(entries[n - 1], change, n - 1);
        let all = before + by;
        let x = (k, property);
        lemma_planned_by(entries[n - 1], change, n - 1, property);
        if before.contains(x) {
            let j = choose|j: int| 0 <= j < before.len() && before[j] == x;
            assert(all[j] == x);
        }
        if by.contains(x) {
            let j = choose|j: int| 0 <= j < by.len() && by[j] == x;
            assert(all[before.len() + j] == x);
        }
        if all.contains(x) {
            let j = choose|j: int| 0 <= j < all.len() && all[j] == x;
            if j < before.len() {
                assert(before[j] == x);
            } else {
                assert(by[j - before.len()] == x);
                assert(by.contains((k, property)));
            }
        }
    }
}

/// Of the declarations of a frame the last one of a property counts.
pub proof fn law_the_last_declaration_counts(list: Seq<DeclarationModel>, name: Seq<char>, n: int)
    requires
        0 <= n <= list.len(),
    ensures
        last_declared(list, name, n) matches Some(v) ==> exists|i: int|
            0 <= i < n && (#[trigger] list[i]).name == name && list[i].value == v && forall|j: int|
                i < j < n ==> (#[trigger] list[j]).name != name,
        last_declared(list, name, n) is None ==> forall|j: int|
            0 <= j < n ==> (#[trigger] list[j]).name != name,
    decreases n,
{
    if n > 0 {
        if list[n - 1].name == name {
            assert(list[n - 1].value == last_declared(list, name, n)->0);
        } else {
            law_the_last_declaration_counts(list, name, n - 1);
            if last_declared(list, name, n) is Some {
                let v = last_declared(list, name, n)->0;
                let i = choose|i: int|
                    0 <= i < n - 1 && (#[trigger] list[i]).name == name && list[i].value == v
                        && forall|j: int| i < j < n - 1 ==> (#[trigger] list[j]).name != name;
                assert(list[i].name == name);
            }
        }
    }
}

/// An opacity is a number, colors are colors, and a transform is kept as text,
/// but for one rotation in degrees, which is kept as its angle.
pub proof fn law_frames_hold_values(
    n: NumberModel,
    unit: value::Unit,
    c: ColorModel,
    raw: Seq<char>,
    degrees: Seq<char>,
)
    ensures
        frame_value(Animated::Opacity, ValueModel::Number(n)) == Some(FrameValueModel::Number(n)),
        frame_value(Animated::Opacity, ValueModel::Length(n, unit)) == Some(
            FrameValueModel::Number(n),
        ),
        frame_value(Animated::Opacity, ValueModel::Color(c)) is None,
        frame_value(Animated::Color, ValueModel::Color(c)) == Some(FrameValueModel::Color(c)),
        frame_value(Animated::BackgroundColor, ValueModel::Color(c)) == Some(
            FrameValueModel::Color(c),
        ),
        frame_value(Animated::Color, ValueModel::Number(n)) is None,
        rotation(text::trimmed(raw)) is None ==> frame_value(
            Animated::Transform,
            ValueModel::Keyword(raw),
        ) == Some(FrameValueModel::Transform(text::trimmed(raw))),
        rotation(text::trimmed(raw)) matches Some(d) ==> frame_value(
            Animated::Transform,
            ValueModel::Keyword(raw),
        ) == Some(FrameValueModel::Angle(d)),
        degrees.len() > 0 && '0' <= degrees[0] <= '9' && '0' <= degrees.last() <= '9'
            && number::float_model(degrees) is Some ==> rotation(
            "rotate("@ + (degrees + "deg"@) + seq![')'],
        ) == Some(degrees),
{
    if degrees.len() > 0 && '0' <= degrees[0] <= '9' && '0' <= degrees.last() <= '9'
        && number::float_model(degrees) is Some {
        reveal_strlit("deg");
        reveal_strlit(")");
        assert(")"@ =~= seq![')']);
        assert("deg"@.len() == 3 && "deg"@[2] == 'g');
        let inner = degrees + "deg"@;
        assert(inner[0] == degrees[0] && inner.last() == 'g');
        lengths::lemma_untrimmed(inner);
        lengths::lemma_untrimmed(degrees);
        text::law_suffixes(degrees, "deg"@);
        text::law_suffixes(inner, ")"@);
        assert("rotate("@ + inner + seq![')'] =~= "rotate("@ + (inner + seq![')']));
        text::law_prefixes(inner + seq![')'], "rotate("@);
    }
}

proof fn lemma_moves(tracks: Seq<TrackModel>, n: int, k: int)
    requires
        0 <= k < n <= tracks.len(),
        tracks[k].property is Transform,
    ensures
        moves(tracks, n),
    decreases n,
{
    if k < n - 1 {
        lemma_moves(tracks, n - 1, k);
    }
}

proof fn lemma_has_track(tracks: Seq<TrackModel>, property: Animated, n: int)
    requires
        0 <= n <= tracks.len(),
    ensures
        has_track(tracks, property, n) <==> exists|k: int|
            0 <= k < n && (#[trigger] tracks[k]).property == property,
    decreases n,
{
    if n > 0 {
        lemma_has_track(tracks, property, n - 1);
        if tracks[n - 1].property == property {
            assert(tracks[n - 1].property == property);
        }
    }
}

/// An animation that moves its node can paint anywhere, and so can one of the
/// background of the page; one of another node's colors cannot.
pub proof fn law_what_paints_anywhere(doc: DocumentModel, a: AnimationModel, k: int)
    requires
        0 <= k < a.tracks.len(),
    ensures
        a.tracks[k].property is Transform ==> repaints_all(doc, a),
        a.tracks[k].property is BackgroundColor && (document::has_tag(doc, a.node, "html"@)
            || document::has_tag(doc, a.node, "body"@)) ==> repaints_all(doc, a),
        a.tracks.len() == 1 && !(a.tracks[k].property is Transform) && !turns(
            a.tracks[k].frames,
            a.tracks[k].frames.len() as int,
        ) && !document::has_tag(doc, a.node, "html"@) && !document::has_tag(doc, a.node, "body"@)
            ==> !repaints_all(doc, a),
{
    let n = a.tracks.len() as int;
    if a.tracks[k].property is Transform {
        lemma_moves(a.tracks, n, k);
    }
    lemma_has_track(a.tracks, Animated::BackgroundColor, n);
    reveal_with_fuel(moves, 2);
}

/// A tick repaints everything exactly where a transform is in transition or an
/// animation can paint anywhere; what else is in flight damages its node.
pub proof fn law_ticks_damage_what_moves(
    list: Seq<ActiveTransition>,
    progress: Seq<Progress>,
    n: int,
    k: int,
)
    requires
        0 <= k < n <= list.len(),
    ensures
        list[k].property is Transform ==> after_transitions(list, progress, n).full_repaint,
        !(list[k].property is Transform) ==> after_transitions(list, progress, n).damaged.contains(
            list[k].node,
        ),
        (forall|i: int| 0 <= i < n ==> !((#[trigger] list[i]).property is Transform))
            ==> !after_transitions(list, progress, n).full_repaint,
    decreases n,
{
    if n == 1 {
        assert(!after_transitions(list, progress, 0).full_repaint);
        if !(list[0].property is Transform) {
            let after = after_transitions(list, progress, 1).damaged;
            assert(after[after.len() - 1] == list[0].node);
        }
    } else {
        let j = if k < n - 1 {
            k
        } else {
            0
        };
        law_ticks_damage_what_moves(list, progress, n - 1, j);
        let before = after_transitions(list, progress, n - 1).damaged;
        let after = after_transitions(list, progress, n).damaged;
        if k == n - 1 {
            if !(list[k].property is Transform) {
                assert(after[after.len() - 1] == list[k].node);
            }
        } else if before.contains(list[k].node) {
            let i = choose|i: int| 0 <= i < before.len() && before[i] == list[k].node;
            assert(after[i] == list[k].node);
        }
        if forall|i: int| 0 <= i < n ==> !((#[trigger] list[i]).property is Transform) {
            assert(!(list[n - 1].property is Transform));
        }
    }
}

/// The same of animations, on top of what a tick already repaints.
pub proof fn law_ticks_damage_what_animates(
    start: TickModel,
    doc: DocumentModel,
    list: Seq<AnimationModel>,
    progress: Seq<Progress>,
    n: int,
    k: int,
)
    requires
        0 <= k < n <= list.len(),
    ensures
        start.full_repaint || repaints_all(doc, list[k]) ==> after_animations(
            start,
            doc,
            list,
            progress,
            n,
        ).full_repaint,
        !repaints_all(doc, list[k]) ==> after_animations(
            start,
            doc,
            list,
            progress,
            n,
        ).damaged.contains(list[k].node),
        !start.full_repaint && (forall|i: int| 0 <= i < n ==> !repaints_all(doc, #[trigger] list[i]))
            ==> !after_animations(start, doc, list, progress, n).full_repaint,
    decreases n,
{
    let before = after_animations(start, doc, list, progress, n - 1);
    let after = after_animations(start, doc, list, progress, n);
    if n > 1 {
        let j = if k < n - 1 {
            k
        } else {
            0
        };
        law_ticks_damage_what_animates(start, doc, list, progress, n - 1, j);
    }
    if k == n - 1 {
        if !repaints_all(doc, list[k]) {
            assert(after.damaged[after.damaged.len() - 1] == list[k].node);
        }
    } else if before.damaged.contains(list[k].node) {
        let i = choose|i: int| 0 <= i < before.damaged.len() && before.damaged[i] == list[k].node;
        assert(after.damaged[i] == list[k].node);
    }
    if forall|i: int| 0 <= i < n ==> !repaints_all(doc, #[trigger] list[i]) {
        assert(!repaints_all(doc, list[n - 1]));
    }
}

} // verus!
