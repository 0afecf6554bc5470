//! Repaint damage: which part of the painted page may differ on screen.
use vstd::prelude::*;

verus! {

/// A rectangle in page space, by the places of its edges. A place is the
/// ordinal of a coordinate: smaller coordinates have smaller ordinals.
#[derive(Debug, Clone, Copy, PartialEq, Eq, Structural)]
pub struct Rect {
    pub left: i64,
    pub top: i64,
    pub right: i64,
    pub bottom: i64,
}

/// What the session's most recent page mutation did to the painted
/// output — drives the shell's choice between a full re-raster and a
/// cheap damage-region update.
#[derive(Debug, Clone, Copy, PartialEq, Eq, Structural)]
pub enum RepaintDamage {
    /// Everything must be re-rasterized (navigation, relayout, script or
    /// animation changes, or simply no information).
    Full,
    /// A paint-only interaction restyle ran since the last full repaint:
    /// only the union of these page-space rects can differ on screen.
    /// `None` means the restyle changed nothing visible — the cached
    /// frame is still pixel-exact.
    Region(Option<Rect>),
}

pub open spec fn least(a: i64, b: i64) -> i64 {
    if b < a {
        b
    } else {
        a
    }
}

pub open spec fn greatest(a: i64, b: i64) -> i64 {
    if b > a {
        b
    } else {
        a
    }
}

/// The rectangle that two optional ones span together.
pub open spec fn spanned(a: Option<Rect>, b: Option<Rect>) -> Option<Rect> {
    match (a, b) {
        (Some(a), Some(b)) => Some(
            Rect {
                left: least(a.left, b.left),
                top: least(a.top, b.top),
                right: greatest(a.right, b.right),
                bottom: greatest(a.bottom, b.bottom),
            },
        ),
        (Some(a), None) => Some(a),
        (None, b) => b,
    }
}

fn min(a: i64, b: i64) -> (r: i64)
    ensures
        r == least(a, b),
{
    if b < a {
        b
    } else {
        a
    }
}

fn max(a: i64, b: i64) -> (r: i64)
    ensures
        r == greatest(a, b),
{
    if b > a {
        b
    } else {
        a
    }
}

/// The rect two optional damage rects span together (`None` = no damage).
pub fn union_damage(a: Option<Rect>, b: Option<Rect>) -> (r: Option<Rect>)
    ensures
        r == spanned(a, b),
{
    match (a, b) {
        (Some(a), Some(b)) => Some(
            Rect {
                left: min(a.left, b.left),
                top: min(a.top, b.top),
                right: max(a.right, b.right),
                bottom: max(a.bottom, b.bottom),
            },
        ),
        (Some(a), None) => Some(a),
        (None, b) => b,
    }
}

/// The rectangle that the first `n` of a list span together.
pub open spec fn spanned_all(list: Seq<Option<Rect>>, n: int) -> Option<Rect>
    decreases n,
{
    if n <= 0 {
        None
    } else {
        spanned(spanned_all(list, n - 1), list[n - 1])
    }
}

/// The rect that a list of optional damage rects spans.
pub fn union_all(list: &Vec<Option<Rect>>) -> (r: Option<Rect>)
    ensures
        r == spanned_all(list@, list@.len() as int),
{
    let mut whole: Option<Rect> = None;
    let mut i: usize = 0;
    while i < list.len()
        invariant
            i <= list@.len(),
            whole == spanned_all(list@, i as int),
        decreases list@.len() - i,
    {
        whole = union_damage(whole, list[i]);
        i = i + 1;
    }
    whole
}

impl RepaintDamage {
    /// The damage together with more: a pending full repaint subsumes any.
    pub open spec fn with(self, damage: Option<Rect>) -> RepaintDamage {
        match self {
            RepaintDamage::Full => RepaintDamage::Full,
            RepaintDamage::Region(so_far) => RepaintDamage::Region(spanned(so_far, damage)),
        }
    }

    /// Takes more damage in: a pending full repaint subsumes any damage;
    /// consecutive paint-only restyles union together.
    pub fn extend(&mut self, damage: Option<Rect>)
        ensures
            *final(self) == old(self).with(damage),
    {
        *self = match *self {
            RepaintDamage::Full => RepaintDamage::Full,
            RepaintDamage::Region(so_far) => RepaintDamage::Region(union_damage(so_far, damage)),
        };
    }

    /// Whether a point may differ on screen.
    pub open spec fn covers(self, x: i64, y: i64) -> bool {
        match self {
            RepaintDamage::Full => true,
            RepaintDamage::Region(rect) => inside(rect, x, y),
        }
    }
}

pub open spec fn inside(rect: Option<Rect>, x: i64, y: i64) -> bool {
    rect matches Some(r) && r.left <= x <= r.right && r.top <= y <= r.bottom
}

/// Damage is never lost: what was damaged before, and what the new damage
/// holds, is damaged after.
pub proof fn law_damage_only_grows(d: RepaintDamage, damage: Option<Rect>, x: i64, y: i64)
    ensures
        d.covers(x, y) ==> d.with(damage).covers(x, y),
        inside(damage, x, y) ==> d.with(damage).covers(x, y),
{
}

/// A pending full repaint stays one, and damage alone never makes one.
pub proof fn law_full_repaint_absorbs(d: RepaintDamage, damage: Option<Rect>)
    ensures
        d.with(damage) == RepaintDamage::Full <==> d == RepaintDamage::Full,
{
}

/// No damage changes nothing, and the order of damages does not matter.
pub proof fn law_damages_commute(
    d: RepaintDamage,
    a: Option<Rect>,
    b: Option<Rect>,
    c: Option<Rect>,
)
    ensures
        d.with(None) == d,
        d.with(a).with(b) == d.with(b).with(a),
        spanned(a, b) == spanned(b, a),
        spanned(spanned(a, b), c) == spanned(a, spanned(b, c)),
        spanned(a, a) == a,
{
}

/// The spanned rectangle is the smallest: one that holds both holds it.
pub proof fn law_spanned_is_smallest(a: Rect, b: Rect, outer: Rect)
    requires
        outer.left <= a.left && a.right <= outer.right && outer.top <= a.top && a.bottom
            <= outer.bottom,
        outer.left <= b.left && b.right <= outer.right && outer.top <= b.top && b.bottom
            <= outer.bottom,
    ensures
        spanned(Some(a), Some(b)) matches Some(r) && outer.left <= r.left && r.right <= outer.right
            && outer.top <= r.top && r.bottom <= outer.bottom,
{
}

} // verus!
