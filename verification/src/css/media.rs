//! Media conditions on the viewport width.
//!
//! Widths are integers that stand for pixel lengths and are ordered as they
//! are; what a condition decides depends on that order alone.
use vstd::prelude::*;

verus! {

/// A supported media query: width bounds, `and`-combined.
/// Unsupported queries never reach here: their blocks are skipped.
#[derive(Debug, Clone, Copy, PartialEq, Eq, Structural)]
pub struct MediaQuery {
    pub min_width: Option<i64>,
    pub max_width: Option<i64>,
    /// Strict range bounds (`width > 600px`): the bound itself is
    /// excluded, unlike the inclusive `min-width` form.
    pub min_exclusive: bool,
    pub max_exclusive: bool,
}

pub open spec fn above(width: int, min: int, exclusive: bool) -> bool {
    if exclusive {
        width > min
    } else {
        width >= min
    }
}

pub open spec fn below(width: int, max: int, exclusive: bool) -> bool {
    if exclusive {
        width < max
    } else {
        width <= max
    }
}

impl MediaQuery {
    pub open spec fn holds(self, width: int) -> bool {
        &&& self.min_width matches Some(min) ==> above(width, min as int, self.min_exclusive)
        &&& self.max_width matches Some(max) ==> below(width, max as int, self.max_exclusive)
    }

    pub open spec fn everything() -> MediaQuery {
        MediaQuery { min_width: None, max_width: None, min_exclusive: false, max_exclusive: false }
    }

    /// The query that every width meets.
    pub fn all() -> (r: MediaQuery)
        ensures
            r == MediaQuery::everything(),
            forall|w: int| #[trigger] r.holds(w),
    {
        MediaQuery { min_width: None, max_width: None, min_exclusive: false, max_exclusive: false }
    }

    /// Whether a viewport of this width meets the query.
    pub fn matches(&self, viewport_width: i64) -> (r: bool)
        ensures
            r == self.holds(viewport_width as int),
    {
        let above_min = match self.min_width {
            Some(min) => if self.min_exclusive {
                viewport_width > min
            } else {
                viewport_width >= min
            },
            None => true,
        };
        let below_max = match self.max_width {
            Some(max) => if self.max_exclusive {
                viewport_width < max
            } else {
                viewport_width <= max
            },
            None => true,
        };
        above_min && below_max
    }
}

/// The query with its minimum narrowed to the larger candidate; on ties the
/// exclusive (strict) form wins, as it is the tighter constraint.
pub open spec fn with_min(query: MediaQuery, width: i64, exclusive: bool) -> MediaQuery {
    match query.min_width {
        Some(current) => if current > width {
            query
        } else if current == width {
            MediaQuery { min_exclusive: query.min_exclusive || exclusive, ..query }
        } else {
            MediaQuery { min_width: Some(width), min_exclusive: exclusive, ..query }
        },
        None => MediaQuery { min_width: Some(width), min_exclusive: exclusive, ..query },
    }
}

/// The query with its maximum narrowed to the smaller candidate.
pub open spec fn with_max(query: MediaQuery, width: i64, exclusive: bool) -> MediaQuery {
    match query.max_width {
        Some(current) => if current < width {
            query
        } else if current == width {
            MediaQuery { max_exclusive: query.max_exclusive || exclusive, ..query }
        } else {
            MediaQuery { max_width: Some(width), max_exclusive: exclusive, ..query }
        },
        None => MediaQuery { max_width: Some(width), max_exclusive: exclusive, ..query },
    }
}

/// Narrows the min bound to the larger candidate; on ties the exclusive
/// (strict) form wins, as it is the tighter constraint.
pub fn tighten_min(query: &mut MediaQuery, width: i64, exclusive: bool)
    ensures
        *final(query) == with_min(*old(query), width, exclusive),
{
    match query.min_width {
        Some(current) => {
            if current > width {
            } else if current == width {
                query.min_exclusive = query.min_exclusive || exclusive;
            } else {
                query.min_width = Some(width);
                query.min_exclusive = exclusive;
            }
        },
        None => {
            query.min_width = Some(width);
            query.min_exclusive = exclusive;
        },
    }
}

/// Narrows the max bound to the smaller candidate; on ties the exclusive
/// (strict) form wins, as it is the tighter constraint.
pub fn tighten_max(query: &mut MediaQuery, width: i64, exclusive: bool)
    ensures
        *final(query) == with_max(*old(query), width, exclusive),
{
    match query.max_width {
        Some(current) => {
            if current < width {
            } else if current == width {
                query.max_exclusive = query.max_exclusive || exclusive;
            } else {
                query.max_width = Some(width);
                query.max_exclusive = exclusive;
            }
        },
        None => {
            query.max_width = Some(width);
            query.max_exclusive = exclusive;
        },
    }
}

/// Tightening a bound adds exactly that bound to what a query asks.
pub proof fn law_tighten_is_conjunction(query: MediaQuery, bound: i64, exclusive: bool, width: int)
    ensures
        with_min(query, bound, exclusive).holds(width) == (query.holds(width) && above(
            width,
            bound as int,
            exclusive,
        )),
        with_max(query, bound, exclusive).holds(width) == (query.holds(width) && below(
            width,
            bound as int,
            exclusive,
        )),
{
}

// ---------------------------------------------------------------------------
// Preludes
// ---------------------------------------------------------------------------
/// How a range feature compares.
#[derive(Debug, Clone, Copy, PartialEq, Eq, Structural)]
pub enum Comparison {
    Equal,
    GreaterThan,
    GreaterThanEqual,
    LessThan,
    LessThanEqual,
}

/// One feature test. A bound is `None` where it is not a length that is
/// known in pixels.
#[derive(Debug, Clone, Copy, PartialEq, Eq, Structural)]
pub enum MediaFeature {
    /// `width` against one bound.
    Width { operator: Comparison, bound: Option<i64> },
    /// A start bound against `width` against an end bound.
    Interval {
        start: Option<i64>,
        start_operator: Comparison,
        end: Option<i64>,
        end_operator: Comparison,
    },
    /// Any other feature.
    Other,
}

/// A condition of a media query.
#[derive(Debug)]
pub enum MediaCondition {
    Feature(MediaFeature),
    And(Vec<MediaCondition>),
    /// `not`, `or` and unknown conditions.
    Other,
}

/// One query of a media query list.
#[derive(Debug)]
pub struct MediaPrelude {
    /// Starts with `not`.
    pub negated: bool,
    /// Of type `screen` or `all`, or without a type.
    pub on_screen: bool,
    pub condition: Option<MediaCondition>,
}

/// The query that a feature narrows `query` to.
pub open spec fn feature_query(feature: MediaFeature, query: MediaQuery) -> Option<MediaQuery> {
    match feature {
        MediaFeature::Width { operator, bound: Some(width) } => match operator {
            Comparison::GreaterThanEqual => Some(with_min(query, width, false)),
            Comparison::GreaterThan => Some(with_min(query, width, true)),
            Comparison::LessThanEqual => Some(with_max(query, width, false)),
            Comparison::LessThan => Some(with_max(query, width, true)),
            Comparison::Equal => None,
        },
        MediaFeature::Interval { start: Some(min), start_operator, end: Some(max), end_operator } => {
            let strict_start = start_operator == Comparison::LessThan;
            let strict_end = end_operator == Comparison::LessThan;
            if (strict_start || start_operator == Comparison::LessThanEqual) && (strict_end
                || end_operator == Comparison::LessThanEqual) {
                Some(with_max(with_min(query, min, strict_start), max, strict_end))
            } else {
                None
            }
        },
        _ => None,
    }
}

/// The query that a condition narrows `query` to; `None` where it holds
/// anything but width bounds.
pub open spec fn condition_query(condition: MediaCondition, query: MediaQuery) -> Option<MediaQuery>
    decreases condition, 0int,
{
    match condition {
        MediaCondition::Feature(feature) => feature_query(feature, query),
        MediaCondition::And(parts) => conditions_query(parts, parts@.len() as int, query),
        MediaCondition::Other => None,
    }
}

pub open spec fn conditions_query(
    parts: Vec<MediaCondition>,
    n: int,
    query: MediaQuery,
) -> Option<MediaQuery>
    decreases parts, n,
{
    if n <= 0 || n > parts@.len() {
        Some(query)
    } else {
        match conditions_query(parts, n - 1, query) {
            Some(narrowed) => condition_query(parts@[n - 1], narrowed),
            None => None,
        }
    }
}

/// What a list of queries comes to: a single query of type `screen`/`all`
/// (or none) whose `and`-combined conditions only constrain width.
pub open spec fn list_query(list: Seq<MediaPrelude>) -> Option<MediaQuery> {
    if list.len() == 1 && !list[0].negated && list[0].on_screen {
        match list[0].condition {
            Some(condition) => condition_query(condition, MediaQuery::everything()),
            None => Some(MediaQuery::everything()),
        }
    } else {
        None
    }
}

fn apply_media_feature(feature: &MediaFeature, query: MediaQuery) -> (r: Option<MediaQuery>)
    ensures
        r == feature_query(*feature, query),
{
    let mut narrowed = query;
    match *feature {
        MediaFeature::Width { operator, bound } => {
            let width: i64 = match bound {
                Some(width) => width,
                None => {
                    return None;
                },
            };
            match operator {
                Comparison::GreaterThanEqual => tighten_min(&mut narrowed, width, false),
                Comparison::GreaterThan => tighten_min(&mut narrowed, width, true),
                Comparison::LessThanEqual => tighten_max(&mut narrowed, width, false),
                Comparison::LessThan => tighten_max(&mut narrowed, width, true),
                Comparison::Equal => {
                    return None;
                },
            }
            Some(narrowed)
        },
        MediaFeature::Interval { start, start_operator, end, end_operator } => {
            let min_exclusive = match start_operator {
                Comparison::LessThan => true,
                Comparison::LessThanEqual => false,
                _ => {
                    return None;
                },
            };
            let max_exclusive = match end_operator {
                Comparison::LessThan => true,
                Comparison::LessThanEqual => false,
                _ => {
                    return None;
                },
            };
            match (start, end) {
                (Some(min), Some(max)) => {
                    tighten_min(&mut narrowed, min, min_exclusive);
                    tighten_max(&mut narrowed, max, max_exclusive);
                    Some(narrowed)
                },
                _ => None,
            }
        },
        MediaFeature::Other => None,
    }
}

fn apply_media_condition(condition: &MediaCondition, query: MediaQuery) -> (r: Option<MediaQuery>)
    ensures
        r == condition_query(*condition, query),
    decreases condition,
{
    match condition {
        MediaCondition::Feature(feature) => apply_media_feature(feature, query),
        MediaCondition::And(parts) => {
            let mut narrowed = query;
            let mut i: usize = 0;
            while i < parts.len()
                invariant
                    i <= parts@.len(),
                    *condition == MediaCondition::And(*parts),
                    conditions_query(*parts, i as int, query) == Some(narrowed),
                decreases parts@.len() - i,
            {
                assert(decreases_to!(condition => condition->And_0));
                assert(decreases_to!(parts => parts@));
                assert(decreases_to!(parts@ => parts@[i as int]));
                let ghost before = narrowed;
                match apply_media_condition(&parts[i], narrowed) {
                    Some(next) => {
                        narrowed = next;
                    },
                    None => {
                        proof {
                            assert(conditions_query(*parts, i + 1, query) is None);
                            lemma_conditions_none(*parts, i + 1, parts@.len() as int, query);
                        }
                        return None;
                    },
                }
                i = i + 1;
            }
            Some(narrowed)
        },
        MediaCondition::Other => None,
    }
}

proof fn lemma_conditions_none(parts: Vec<MediaCondition>, n: int, m: int, query: MediaQuery)
    requires
        0 <= n <= m <= parts@.len(),
        conditions_query(parts, n, query) is None,
    ensures
        conditions_query(parts, m, query) is None,
    decreases m - n,
{
    if n < m {
        lemma_conditions_none(parts, n, m - 1, query);
    }
}

/// Maps the query list of one `@media` prelude onto width bounds: a single
/// query of type `screen`/`all` (or none) whose `and`-combined conditions
/// only constrain width. Anything richer (comma lists, `not`/`or`, print,
/// equality) is unsupported: `None`, skip the block.
pub fn parse_media_query(list: &Vec<MediaPrelude>) -> (r: Option<MediaQuery>)
    ensures
        r == list_query(list@),
{
    if list.len() != 1 {
        return None;
    }
    let query = &list[0];
    if query.negated || !query.on_screen {
        return None;
    }
    match &query.condition {
        Some(condition) => apply_media_condition(condition, MediaQuery::all()),
        None => Some(MediaQuery::all()),
    }
}

/// Whether a width passes a feature test.
pub open spec fn feature_holds(feature: MediaFeature, width: int) -> bool {
    match feature {
        MediaFeature::Width { operator, bound: Some(bound) } => match operator {
            Comparison::GreaterThanEqual => width >= bound,
            Comparison::GreaterThan => width > bound,
            Comparison::LessThanEqual => width <= bound,
            Comparison::LessThan => width < bound,
            Comparison::Equal => width == bound,
        },
        MediaFeature::Interval { start: Some(min), start_operator, end: Some(max), end_operator } => {
            below(min as int, width, start_operator == Comparison::LessThan) && below(
                width,
                max as int,
                end_operator == Comparison::LessThan,
            )
        },
        _ => false,
    }
}

/// Whether a width passes every test of a condition.
pub open spec fn condition_holds(condition: MediaCondition, width: int) -> bool
    decreases condition, 0int,
{
    match condition {
        MediaCondition::Feature(feature) => feature_holds(feature, width),
        MediaCondition::And(parts) => conditions_hold(parts, parts@.len() as int, width),
        MediaCondition::Other => false,
    }
}

/// Whether a width passes every test of the first `n` conditions.
pub open spec fn conditions_hold(parts: Vec<MediaCondition>, n: int, width: int) -> bool
    decreases parts, n,
{
    n <= 0 || n > parts@.len() || (conditions_hold(parts, n - 1, width) && condition_holds(
        parts@[n - 1],
        width,
    ))
}

/// A condition that is supported comes to the conjunction of its tests: the
/// widths that meet the resulting query are those that met the query before
/// and pass every test.
pub proof fn law_condition_is_conjunction(
    condition: MediaCondition,
    query: MediaQuery,
    width: int,
)
    requires
        condition_query(condition, query) is Some,
    ensures
        condition_query(condition, query)->0.holds(width) == (query.holds(width)
            && condition_holds(condition, width)),
    decreases condition, 0int,
{
    match condition {
        MediaCondition::Feature(feature) => {},
        MediaCondition::And(parts) => {
            lemma_conditions_conjunction(parts, parts@.len() as int, query, width);
        },
        MediaCondition::Other => {},
    }
}

proof fn lemma_conditions_conjunction(
    parts: Vec<MediaCondition>,
    n: int,
    query: MediaQuery,
    width: int,
)
    requires
        0 <= n <= parts@.len(),
        conditions_query(parts, n, query) is Some,
    ensures
        conditions_query(parts, n, query)->0.holds(width) == (query.holds(width)
            && conditions_hold(parts, n, width)),
    decreases parts, n,
{
    if n > 0 {
        lemma_conditions_conjunction(parts, n - 1, query, width);
        let before = conditions_query(parts, n - 1, query)->0;
        law_condition_is_conjunction(parts@[n - 1], before, width);
    }
}

// ---------------------------------------------------------------------------
// Nested blocks
// ---------------------------------------------------------------------------
/// How deep `@media` blocks may nest; deeper blocks are dropped.
pub const MAX_MEDIA_NESTING: usize = 32;

/// `query` narrowed by the bounds of `source`.
pub open spec fn narrowed_by(query: MediaQuery, source: MediaQuery) -> MediaQuery {
    let lower = match source.min_width {
        Some(min) => with_min(query, min, source.min_exclusive),
        None => query,
    };
    match source.max_width {
        Some(max) => with_max(lower, max, source.max_exclusive),
        None => lower,
    }
}

/// The condition inside a block: that of the enclosing block and its own.
pub open spec fn nested_query(outer: Option<MediaQuery>, inner: MediaQuery) -> MediaQuery {
    match outer {
        Some(outer) => narrowed_by(narrowed_by(MediaQuery::everything(), outer), inner),
        None => narrowed_by(MediaQuery::everything(), inner),
    }
}

fn narrow(query: &mut MediaQuery, source: MediaQuery)
    ensures
        *final(query) == narrowed_by(*old(query), source),
{
    if let Some(min) = source.min_width {
        tighten_min(query, min, source.min_exclusive);
    }
    if let Some(max) = source.max_width {
        tighten_max(query, max, source.max_exclusive);
    }
}

/// The condition that the rules inside an `@media` block carry.
pub open spec fn entered(
    outer: Option<MediaQuery>,
    query: Option<MediaQuery>,
    depth: int,
) -> Option<MediaQuery> {
    match query {
        Some(inner) => if depth < MAX_MEDIA_NESTING {
            Some(nested_query(outer, inner))
        } else {
            None
        },
        None => None,
    }
}

/// The condition that the rules inside an `@media` block carry, where the
/// block stands at nesting depth `depth`; `None` where the block is skipped
/// (an unsupported condition, or too deep).
pub fn enter_media(outer: Option<MediaQuery>, query: Option<MediaQuery>, depth: usize) -> (r:
    Option<MediaQuery>)
    ensures
        r == entered(outer, query, depth as int),
{
    match query {
        Some(inner) => {
            if depth >= MAX_MEDIA_NESTING {
                return None;
            }
            let mut combined = MediaQuery::all();
            if let Some(outer) = outer {
                narrow(&mut combined, outer);
            }
            narrow(&mut combined, inner);
            Some(combined)
        },
        None => None,
    }
}

/// Nested media conditions intersect: a width meets the condition inside a
/// block when it meets both the enclosing condition and the block's own.
pub proof fn law_nested_media_intersect(outer: Option<MediaQuery>, inner: MediaQuery, width: int)
    ensures
        nested_query(outer, inner).holds(width) == (inner.holds(width) && (outer matches Some(
            query,
        ) ==> query.holds(width))),
{
}

/// A test of the width against a bound holds exactly where the comparison
/// does; a test for one exact width, or against an unknown bound, cannot be
/// told.
pub proof fn law_width_tests(bound: i64, width: int)
    ensures
        ({
            let all = MediaQuery {
                min_width: None,
                max_width: None,
                min_exclusive: false,
                max_exclusive: false,
            };
            let test = |operator: Comparison|
                feature_query(MediaFeature::Width { operator, bound: Some(bound) }, all);
            &&& test(Comparison::GreaterThanEqual) matches Some(q) && (q.holds(width) <==> width
                >= bound)
            &&& test(Comparison::GreaterThan) matches Some(q) && (q.holds(width) <==> width > bound)
            &&& test(Comparison::LessThanEqual) matches Some(q) && (q.holds(width) <==> width
                <= bound)
            &&& test(Comparison::LessThan) matches Some(q) && (q.holds(width) <==> width < bound)
            &&& test(Comparison::Equal) is None
            &&& forall|operator: Comparison|
                #[trigger] feature_query(MediaFeature::Width { operator, bound: None }, all) is None
            &&& feature_query(MediaFeature::Other, all) is None
        }),
{
}

/// A width between two bounds is tested against both of them.
pub proof fn law_intervals(
    min: i64,
    max: i64,
    start_operator: Comparison,
    end_operator: Comparison,
    width: int,
)
    requires
        start_operator is LessThan || start_operator is LessThanEqual,
        end_operator is LessThan || end_operator is LessThanEqual,
    ensures
        feature_query(
            MediaFeature::Interval {
                start: Some(min),
                start_operator,
                end: Some(max),
                end_operator,
            },
            MediaQuery {
                min_width: None,
                max_width: None,
                min_exclusive: false,
                max_exclusive: false,
            },
        ) matches Some(q) && (q.holds(width) <==> {
            &&& if start_operator is LessThan {
                min < width
            } else {
                min <= width
            }
            &&& if end_operator is LessThan {
                width < max
            } else {
                width <= max
            }
        }),
{
}

/// A list of queries can be told where it is a single one, for screens and not
/// negated; without a condition it holds everywhere.
pub proof fn law_single_queries(list: Seq<MediaPrelude>, width: int)
    ensures
        list.len() != 1 ==> list_query(list) is None,
        list.len() == 1 && (list[0].negated || !list[0].on_screen) ==> list_query(list) is None,
        list.len() == 1 && !list[0].negated && list[0].on_screen && list[0].condition is None
            ==> (list_query(list) matches Some(q) && q.holds(width)),
{
}

/// A block that can be told is entered, up to the nesting limit, and its rules
/// carry its condition and those around it; any other is skipped.
pub proof fn law_blocks_are_entered(outer: Option<MediaQuery>, inner: MediaQuery, depth: int, width: int)
    ensures
        depth < MAX_MEDIA_NESTING ==> (entered(outer, Some(inner), depth) matches Some(q)
            && (q.holds(width) <==> inner.holds(width) && (outer matches Some(o) ==> o.holds(
            width,
        )))),
        depth >= MAX_MEDIA_NESTING ==> entered(outer, Some(inner), depth) is None,
        entered(outer, None, depth) is None,
        MAX_MEDIA_NESTING == 32,
{
    law_nested_media_intersect(outer, inner, width);
}

} // verus!
