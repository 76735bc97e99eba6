//! Which requests are logged: path patterns, and the lists of shown and skipped routes.

use crate::http::{Method, RequestDetails, Route};
use crate::path::{request_segments, segments_of, split_path, split_request};
use crate::text::{join, joined, optional_text, remove_repeats, texts, without_repeats};
use vstd::prelude::*;

verus! {

/// One segment of a route path pattern.
#[derive(Debug, PartialEq)]
pub enum Segment {
    /// A literal segment that must equal the request segment.
    Static(String),
    /// `<name>`: matches exactly one request segment.
    Dynamic,
    /// `<name..>`: matches zero or more remaining request segments.
    /// Ends a pattern.
    Trailing,
}

/// A [`Segment`], its literal taken as the characters that it holds.
#[verifier::ext_equal]
pub enum SegmentView {
    Static(Seq<char>),
    Dynamic,
    Trailing,
}

impl View for Segment {
    type V = SegmentView;

    open spec fn view(&self) -> SegmentView {
        match self {
            Segment::Static(text) => SegmentView::Static(text@),
            Segment::Dynamic => SegmentView::Dynamic,
            Segment::Trailing => SegmentView::Trailing,
        }
    }
}

/// The pattern that the segments spell.
pub open spec fn pattern_of(segments: Seq<Segment>) -> Seq<SegmentView> {
    segments.map_values(|segment: Segment| segment@)
}

/// Whether `text` ends with `end`.
pub open spec fn ends_with(text: Seq<char>, end: Seq<char>) -> bool {
    end.is_suffix_of(text)
}

/// What a segment of a route path stands for.
pub open spec fn segment_meaning(text: Seq<char>) -> SegmentView {
    if text.len() > 0 && text[0] == '<' && ends_with(text, seq!['.', '.', '>']) {
        SegmentView::Trailing
    } else if text.len() > 0 && text[0] == '<' && ends_with(text, seq!['>']) {
        SegmentView::Dynamic
    } else {
        SegmentView::Static(text)
    }
}

/// The pattern that a route path spells.
pub open spec fn parsed(path: Seq<char>) -> Seq<SegmentView> {
    segments_of(path).map_values(|text: Seq<char>| segment_meaning(text))
}

/// How many segments of `pattern` stand before its first trailing segment: all of them where it
/// has none.
pub open spec fn fixed_len(pattern: Seq<SegmentView>) -> nat
    decreases pattern.len(),
{
    if pattern.len() == 0 || pattern[0] is Trailing {
        0
    } else {
        1 + fixed_len(pattern.drop_first())
    }
}

/// Whether a pattern segment that is not trailing matches one request segment.
pub open spec fn segment_matches(segment: SegmentView, text: Seq<char>) -> bool {
    match segment {
        SegmentView::Static(expected) => expected == text,
        SegmentView::Dynamic => true,
        SegmentView::Trailing => false,
    }
}

/// Whether the segments of a request match `pattern`: one by one up to its trailing segment,
/// which takes whatever is left, and none left over where it has no trailing segment.
pub open spec fn request_matches(pattern: Seq<SegmentView>, request: Seq<Seq<char>>) -> bool {
    let fixed = fixed_len(pattern);
    &&& if fixed < pattern.len() {
        request.len() >= fixed
    } else {
        request.len() == fixed
    }
    &&& forall|i: int| 0 <= i < fixed ==> segment_matches(#[trigger] pattern[i], request[i])
}

/// The segments before the first trailing one are not trailing, and the next one is.
pub proof fn lemma_fixed_len(pattern: Seq<SegmentView>)
    ensures
        fixed_len(pattern) <= pattern.len(),
        forall|i: int| 0 <= i < fixed_len(pattern) ==> !(#[trigger] pattern[i] is Trailing),
        fixed_len(pattern) < pattern.len() ==> pattern[fixed_len(pattern) as int] is Trailing,
    decreases pattern.len(),
{
    if pattern.len() > 0 && !(pattern[0] is Trailing) {
        let rest = pattern.drop_first();
        lemma_fixed_len(rest);
        assert forall|i: int| 0 <= i < fixed_len(pattern) implies !(
        #[trigger] pattern[i] is Trailing) by {
            if i > 0 {
                assert(rest[i - 1] == pattern[i]);
            }
        }
        if fixed_len(pattern) < pattern.len() {
            assert(pattern[fixed_len(pattern) as int] == rest[fixed_len(rest) as int]);
        }
    }
}

impl Clone for Segment {
    fn clone(&self) -> (copy: Segment)
        ensures
            copy == *self,
    {
        match self {
            Segment::Static(text) => Segment::Static(text.clone()),
            Segment::Dynamic => Segment::Dynamic,
            Segment::Trailing => Segment::Trailing,
        }
    }
}

/// A text ends with `end` exactly when its last characters are those of `end`.
pub proof fn lemma_ends_with(text: Seq<char>, end: Seq<char>)
    ensures
        ends_with(text, end) <==> text.len() >= end.len() && forall|i: int|
            0 <= i < end.len() ==> #[trigger] end[i] == text[text.len() - end.len() + i],
{
    let last = text.subrange(text.len() - end.len(), text.len() as int);
    if text.len() >= end.len() {
        assert(forall|i: int|
            0 <= i < end.len() ==> last[i] == text[text.len() - end.len() + i]);
        assert(end =~= last <==> forall|i: int| 0 <= i < end.len() ==> #[trigger] end[i] == last[i]);
    }
}

impl Segment {
    /// Reads one segment of a route path.
    fn parse(text: String) -> (segment: Segment)
        ensures
            segment@ == segment_meaning(text@),
    {
        let count = text.as_str().unicode_len();
        let ghost dynamic_end = seq!['>'];
        let ghost trailing_end = seq!['.', '.', '>'];
        proof {
            lemma_ends_with(text@, dynamic_end);
            lemma_ends_with(text@, trailing_end);
            assert(dynamic_end[0] == '>');
            assert(trailing_end[0] == '.' && trailing_end[1] == '.' && trailing_end[2] == '>');
        }
        if count > 0 && text.as_str().get_char(0) == '<' && text.as_str().get_char(count - 1)
            == '>' {
            if count >= 3 && text.as_str().get_char(count - 2) == '.' && text.as_str().get_char(
                count - 3,
            ) == '.' {
                Segment::Trailing
            } else {
                Segment::Dynamic
            }
        } else {
            Segment::Static(text)
        }
    }

    /// Parse route paths like `/users/<id>` or `/files/<rest..>` into segments.
    /// Empty segments (leading/trailing/double slashes) are dropped.
    pub fn parse_path(path: &str) -> (segments: Vec<Segment>)
        ensures
            pattern_of(segments@) == parsed(path@),
    {
        let parts = split_path(path);
        let mut segments: Vec<Segment> = Vec::new();
        for text in it: parts
            invariant
                texts(it.seq()) == segments_of(path@),
                segments.len() == it.index(),
                forall|i: int|
                    0 <= i < segments.len() ==> (#[trigger] segments[i])@ == segment_meaning(
                        it.seq()[i]@,
                    ),
        {
            segments.push(Segment::parse(text));
        }
        proof {
            assert forall|i: int| 0 <= i < segments.len() implies #[trigger] pattern_of(
                segments@,
            )[i] == parsed(path@)[i] by {
                assert(texts(parts@)[i] == parts@[i]@);
            }
        }
        segments
    }
}

/// Does the concrete request `path` match this single `pattern`? Query strings
/// are ignored. This is a single-pattern matcher only: no ranking, no collision
/// detection, no format negotiation.
pub fn path_matches(pattern: &[Segment], path: &str) -> (matched: bool)
    ensures
        matched == request_matches(pattern_of(pattern@), request_segments(path@)),
{
    let request = split_request(path);
    let ghost parsed_pattern = pattern_of(pattern@);
    proof {
        lemma_fixed_len(parsed_pattern);
    }
    let mut index: usize = 0;
    while index < pattern.len()
        invariant
            parsed_pattern == pattern_of(pattern@),
            texts(request@) == request_segments(path@),
            index <= pattern.len(),
            index <= request.len(),
            index <= fixed_len(parsed_pattern) <= pattern.len(),
            forall|i: int|
                0 <= i < fixed_len(parsed_pattern) ==> !(#[trigger] parsed_pattern[i] is Trailing),
            fixed_len(parsed_pattern) < pattern.len() ==> parsed_pattern[fixed_len(
                parsed_pattern,
            ) as int] is Trailing,
            forall|i: int|
                0 <= i < index ==> segment_matches(
                    #[trigger] parsed_pattern[i],
                    request_segments(path@)[i],
                ),
        decreases pattern.len() - index,
    {
        assert(parsed_pattern[index as int] == pattern[index as int]@);
        match &pattern[index] {
            Segment::Trailing => {
                return true;
            },
            Segment::Dynamic => {
                if index >= request.len() {
                    return false;
                }
            },
            Segment::Static(expected) => {
                if index >= request.len() {
                    return false;
                }
                assert(texts(request@)[index as int] == request[index as int]@);
                if request[index] != *expected {
                    assert(!segment_matches(
                        parsed_pattern[index as int],
                        request_segments(path@)[index as int],
                    ));
                    return false;
                }
            },
        }
        index = index + 1;
    }
    index == request.len()
}

/// How a route pattern relates to a single filter pattern.
#[derive(Clone, Copy, Debug, PartialEq, Eq, Structural)]
pub enum Coverage {
    /// Every concrete request to the route matches the filter pattern.
    Full,
    /// Only some concrete requests to the route match: the route's dynamic or
    /// trailing segments make it request-dependent.
    Partial,
    /// No concrete request to the route can match the filter pattern.
    Disjoint,
}

/// Whether a filter segment and a route segment are two different literals.
pub open spec fn clash(filter: SegmentView, route: SegmentView) -> bool {
    match (filter, route) {
        (SegmentView::Static(expected), SegmentView::Static(actual)) => expected != actual,
        _ => false,
    }
}

/// Whether a filter segment is a literal where the route segment may be anything.
pub open spec fn narrows(filter: SegmentView, route: SegmentView) -> bool {
    filter is Static && route is Dynamic
}

/// How `filter` covers `route`, read off the segments before the first trailing one of each.
pub open spec fn covers(filter: Seq<SegmentView>, route: Seq<SegmentView>) -> Coverage {
    let filter_len = fixed_len(filter);
    let route_len = fixed_len(route);
    if exists|i: int|
        0 <= i < filter_len && i < route_len && #[trigger] clash(filter[i], route[i]) {
        // Two literals differ.
        Coverage::Disjoint
    } else if route_len < filter_len {
        // Only a trailing segment of the route can reach the length of the filter.
        if route_len < route.len() {
            Coverage::Partial
        } else {
            Coverage::Disjoint
        }
    } else if filter_len < filter.len() || filter_len == route.len() {
        // The lengths always fit.
        if exists|i: int| 0 <= i < filter_len && #[trigger] narrows(filter[i], route[i]) {
            Coverage::Partial
        } else {
            Coverage::Full
        }
    } else if filter_len + 1 == route.len() && route[filter_len as int] is Trailing {
        // The lengths fit when the trailing segment of the route takes nothing.
        Coverage::Partial
    } else {
        Coverage::Disjoint
    }
}

/// Does `filter` cover requests dispatched to `route`, fully, partially, or not
/// at all? Both are route patterns. This is the pattern-level analogue of
/// `path_matches` used to describe (not decide) a route's logging at launch.
pub fn coverage(filter: &[Segment], route: &[Segment]) -> (found: Coverage)
    ensures
        found == covers(pattern_of(filter@), pattern_of(route@)),
{
    let ghost filter_pattern = pattern_of(filter@);
    let ghost route_pattern = pattern_of(route@);
    proof {
        lemma_fixed_len(filter_pattern);
        lemma_fixed_len(route_pattern);
    }
    let mut partial = false;
    let mut index: usize = 0;
    while index < filter.len()
        invariant
            filter_pattern == pattern_of(filter@),
            route_pattern == pattern_of(route@),
            index <= filter.len(),
            index <= route.len(),
            index <= fixed_len(filter_pattern) <= filter.len(),
            index <= fixed_len(route_pattern) <= route.len(),
            forall|i: int|
                0 <= i < fixed_len(filter_pattern) ==> !(#[trigger] filter_pattern[i] is Trailing),
            forall|i: int|
                0 <= i < fixed_len(route_pattern) ==> !(#[trigger] route_pattern[i] is Trailing),
            fixed_len(filter_pattern) < filter.len() ==> filter_pattern[fixed_len(
                filter_pattern,
            ) as int] is Trailing,
            fixed_len(route_pattern) < route.len() ==> route_pattern[fixed_len(
                route_pattern,
            ) as int] is Trailing,
            forall|i: int|
                0 <= i < index ==> !#[trigger] clash(filter_pattern[i], route_pattern[i]),
            partial == exists|i: int|
                0 <= i < index && #[trigger] narrows(filter_pattern[i], route_pattern[i]),
        decreases filter.len() - index,
    {
        assert(filter_pattern[index as int] == filter[index as int]@);
        match &filter[index] {
            // A trailing filter segment swallows everything left.
            Segment::Trailing => {
                return if partial {
                    Coverage::Partial
                } else {
                    Coverage::Full
                };
            },
            Segment::Dynamic => {
                if index >= route.len() {
                    return Coverage::Disjoint;
                }
                assert(route_pattern[index as int] == route[index as int]@);
                if let Segment::Trailing = &route[index] {
                    // Trailing route can expand to zero or many; one dynamic slot
                    // matches some expansions but not others.
                    return Coverage::Partial;
                }
                assert(!narrows(filter_pattern[index as int], route_pattern[index as int]));
            },
            Segment::Static(expected) => {
                if index >= route.len() {
                    return Coverage::Disjoint;
                }
                assert(route_pattern[index as int] == route[index as int]@);
                match &route[index] {
                    Segment::Static(actual) => {
                        if *actual != *expected {
                            assert(clash(filter_pattern[index as int], route_pattern[index as int]));
                            return Coverage::Disjoint;
                        }
                    },
                    // A dynamic route segment equals this literal only sometimes.
                    Segment::Dynamic => {
                        partial = true;
                        assert(narrows(filter_pattern[index as int], route_pattern[index as int]));
                    },
                    // A trailing route segment can produce this literal or not.
                    Segment::Trailing => {
                        return Coverage::Partial;
                    },
                }
            },
        }
        index = index + 1;
    }
    if index == route.len() {
        return if partial {
            Coverage::Partial
        } else {
            Coverage::Full
        };
    }
    // The filter is consumed but the route has segments left. A lone trailing one can
    // expand to match the filter length or overshoot it, which depends on the request.
    assert(route_pattern[index as int] == route[index as int]@);
    if index == route.len() - 1 {
        if let Segment::Trailing = &route[index] {
            return Coverage::Partial;
        }
    }
    Coverage::Disjoint
}

/// A mount-independent identity for a route. Method, name, and the unmounted path are all
/// preserved when a route is mounted at a base, so the same key is computed
/// before and after mounting. This is what lets us correlate a listed route to
/// its live, mounted entry without the developer repeating the mount base.
#[derive(Debug)]
pub struct RouteKey {
    pub method: Method,
    pub name: Option<String>,
    pub unmounted: String,
}

/// A [`RouteKey`], its texts taken as the characters that they hold.
#[verifier::ext_equal]
pub struct RouteKeyView {
    pub method: Method,
    pub name: Option<Seq<char>>,
    pub unmounted: Seq<char>,
}

impl View for RouteKey {
    type V = RouteKeyView;

    open spec fn view(&self) -> RouteKeyView {
        RouteKeyView {
            method: self.method,
            name: optional_text(self.name),
            unmounted: self.unmounted@,
        }
    }
}

impl Clone for RouteKey {
    fn clone(&self) -> (copy: RouteKey)
        ensures
            copy == *self,
    {
        RouteKey {
            method: self.method,
            name: match &self.name {
                Some(name) => Some(name.clone()),
                None => None,
            },
            unmounted: self.unmounted.clone(),
        }
    }
}

impl PartialEq for RouteKey {
    fn eq(&self, other: &RouteKey) -> (same: bool) {
        let same_name = match (&self.name, &other.name) {
            (Some(name), Some(other_name)) => *name == *other_name,
            (None, None) => true,
            _ => false,
        };
        self.method == other.method && same_name && self.unmounted == other.unmounted
    }
}

impl vstd::std_specs::cmp::PartialEqSpecImpl for RouteKey {
    open spec fn obeys_eq_spec() -> bool {
        true
    }

    open spec fn eq_spec(&self, other: &RouteKey) -> bool {
        self@ == other@
    }
}

/// The keys that the values stand for.
pub open spec fn keys_of(keys: Seq<RouteKey>) -> Seq<RouteKeyView> {
    keys.map_values(|key: RouteKey| key@)
}

/// The key of a route.
pub open spec fn route_key(route: Route) -> RouteKeyView {
    RouteKeyView {
        method: route.method,
        name: optional_text(route.name),
        unmounted: route.unmounted@,
    }
}

impl RouteKey {
    /// Takes the key of `route`.
    pub fn from_route(route: &Route) -> (key: RouteKey)
        ensures
            key@ == route_key(*route),
    {
        RouteKey {
            method: route.method,
            name: match &route.name {
                Some(name) => Some(name.clone()),
                None => None,
            },
            unmounted: route.unmounted.clone(),
        }
    }

    /// Whether this key is one of `keys`.
    pub fn is_listed(&self, keys: &[RouteKey]) -> (listed: bool)
        ensures
            listed == keys_of(keys@).contains(self@),
    {
        let mut index: usize = 0;
        while index < keys.len()
            invariant
                index <= keys.len(),
                forall|i: int| 0 <= i < index ==> #[trigger] keys_of(keys@)[i] != self@,
            decreases keys.len() - index,
        {
            assert(keys_of(keys@)[index as int] == keys[index as int]@);
            if keys[index] == *self {
                return true;
            }
            index = index + 1;
        }
        false
    }
}

/// One resolved filter pattern: its method, a display string for the
/// `auto_log_overlaps` field (e.g. `/users/<id>`), and the parsed segments used
/// for matching.
#[derive(Debug)]
pub struct FilterPattern {
    pub method: Method,
    pub display: String,
    pub segments: Vec<Segment>,
}

/// A [`FilterPattern`], its texts taken as the characters that they hold.
#[verifier::ext_equal]
pub struct FilterPatternView {
    pub method: Method,
    pub display: Seq<char>,
    pub segments: Seq<SegmentView>,
}

impl View for FilterPattern {
    type V = FilterPatternView;

    open spec fn view(&self) -> FilterPatternView {
        FilterPatternView {
            method: self.method,
            display: self.display@,
            segments: pattern_of(self.segments@),
        }
    }
}

/// The patterns that the values stand for.
pub open spec fn patterns_of(patterns: Seq<FilterPattern>) -> Seq<FilterPatternView> {
    patterns.map_values(|pattern: FilterPattern| pattern@)
}

/// The show/skip lists resolved to concrete mounted path patterns. Built once
/// from the live route table.
///
/// Matching is pattern-based and leaky: a request is filtered by which pattern
/// it matches, not by which route handles it. Overlapping patterns therefore
/// make a route's logging request-dependent: see [`ResolvedFilter::classify`]
/// and the [`AutoLog::Conditional`] status reported at launch.
#[derive(Debug)]
pub struct ResolvedFilter {
    pub shown: Vec<FilterPattern>,
    pub skipped: Vec<FilterPattern>,
}

/// A [`ResolvedFilter`], its texts taken as the characters that they hold.
#[verifier::ext_equal]
pub struct ResolvedFilterView {
    pub shown: Seq<FilterPatternView>,
    pub skipped: Seq<FilterPatternView>,
}

impl View for ResolvedFilter {
    type V = ResolvedFilterView;

    open spec fn view(&self) -> ResolvedFilterView {
        ResolvedFilterView { shown: patterns_of(self.shown@), skipped: patterns_of(self.skipped@) }
    }
}

/// The filter pattern of a mounted route.
pub open spec fn route_pattern(route: Route) -> FilterPatternView {
    FilterPatternView {
        method: route.method,
        display: route.path@,
        segments: parsed(route.path@),
    }
}

/// The patterns of the routes whose key is one of `keys`, in the order of the routes.
pub open spec fn listed_patterns(routes: Seq<Route>, keys: Seq<RouteKeyView>) -> Seq<
    FilterPatternView,
> {
    routes.filter(|route: Route| keys.contains(route_key(route))).map_values(
        |route: Route| route_pattern(route),
    )
}

/// Collects the patterns of the listed routes.
fn collect_listed(routes: &[Route], keys: &[RouteKey]) -> (patterns: Vec<FilterPattern>)
    ensures
        patterns_of(patterns@) == listed_patterns(routes@, keys_of(keys@)),
{
    let mut patterns: Vec<FilterPattern> = Vec::new();
    let mut index: usize = 0;
    proof {
        reveal(Seq::filter);
    }
    while index < routes.len()
        invariant
            index <= routes.len(),
            patterns_of(patterns@) == listed_patterns(
                routes@.take(index as int),
                keys_of(keys@),
            ),
        decreases routes.len() - index,
    {
        let ghost before = patterns@;
        let route = &routes[index];
        proof {
            reveal(Seq::filter);
            assert(routes@.take(index + 1).drop_last() == routes@.take(index as int));
        }
        if RouteKey::from_route(route).is_listed(keys) {
            patterns.push(
                FilterPattern {
                    method: route.method,
                    display: route.path.clone(),
                    segments: Segment::parse_path(route.path.as_str()),
                },
            );
            assert(patterns_of(patterns@) == patterns_of(before).push(route_pattern(*route)));
            assert(listed_patterns(routes@.take(index + 1), keys_of(keys@)) == listed_patterns(
                routes@.take(index as int),
                keys_of(keys@),
            ).push(route_pattern(*route)));
        }
        index = index + 1;
    }
    assert(routes@.take(routes@.len() as int) == routes@);
    patterns
}

/// Whether a request with this method and these segments matches `pattern`.
pub open spec fn pattern_matches(
    pattern: FilterPatternView,
    method: Method,
    request: Seq<Seq<char>>,
) -> bool {
    pattern.method == method && request_matches(pattern.segments, request)
}

/// Whether a request matches one of the patterns.
pub open spec fn any_matches(
    patterns: Seq<FilterPatternView>,
    method: Method,
    request: Seq<Seq<char>>,
) -> bool {
    exists|i: int|
        0 <= i < patterns.len() && #[trigger] pattern_matches(patterns[i], method, request)
}

impl ResolvedFilterView {
    /// Whether the show list lets a request through: an empty one lets everything through.
    pub open spec fn eligible(self, method: Method, request: Seq<Seq<char>>) -> bool {
        self.shown.len() == 0 || any_matches(self.shown, method, request)
    }

    /// Whether a request is logged: the show list gates, the skip list subtracts.
    pub open spec fn logs(self, method: Method, request: Seq<Seq<char>>) -> bool {
        self.eligible(method, request) && !any_matches(self.skipped, method, request)
    }
}

/// Whether a request with this method and path matches one of the patterns.
fn matches_in(patterns: &Vec<FilterPattern>, method: Method, path: &str) -> (matched: bool)
    ensures
        matched == any_matches(patterns_of(patterns@), method, request_segments(path@)),
{
    let mut index: usize = 0;
    while index < patterns.len()
        invariant
            index <= patterns.len(),
            forall|i: int|
                0 <= i < index ==> !#[trigger] pattern_matches(
                    patterns_of(patterns@)[i],
                    method,
                    request_segments(path@),
                ),
        decreases patterns.len() - index,
    {
        assert(patterns_of(patterns@)[index as int] == patterns[index as int]@);
        if patterns[index].method == method && path_matches(
            patterns[index].segments.as_slice(),
            path,
        ) {
            assert(pattern_matches(
                patterns_of(patterns@)[index as int],
                method,
                request_segments(path@),
            ));
            return true;
        }
        index = index + 1;
    }
    false
}

impl ResolvedFilter {
    /// Resolves the listed keys to the patterns of the mounted routes that carry them.
    pub fn resolve(routes: &[Route], show_keys: &[RouteKey], skip_keys: &[RouteKey]) -> (resolved:
        ResolvedFilter)
        ensures
            resolved@.shown == listed_patterns(routes@, keys_of(show_keys@)),
            resolved@.skipped == listed_patterns(routes@, keys_of(skip_keys@)),
    {
        ResolvedFilter {
            shown: collect_listed(routes, show_keys),
            skipped: collect_listed(routes, skip_keys),
        }
    }

    /// The show list gates, the skip list subtracts. An empty show list means
    /// "everything is eligible".
    pub fn should_log(&self, method: Method, path: &str) -> (logged: bool)
        ensures
            logged == self@.logs(method, request_segments(path@)),
    {
        let eligible = self.shown.is_empty() || matches_in(&self.shown, method, path);
        eligible && !matches_in(&self.skipped, method, path)
    }

    /// Decide whether this request should be logged: by its method and its path.
    pub fn filter_decision(&self, request: &RequestDetails) -> (logged: bool)
        ensures
            logged == self@.logs(request.method, request_segments(request.path@)),
    {
        self.should_log(request.method, request.path.as_str())
    }
}

/// A route's auto-logging status at launch, as reported on `Route Registered`.
/// Runtime decisions stay boolean; this tri-state exists because a route is a
/// pattern and pattern overlap can make logging request-dependent.
#[derive(Debug, PartialEq)]
pub enum AutoLog {
    /// Every request to this route is logged.
    Always,
    /// No request to this route is logged.
    Never,
    /// Request-dependent: this route partially overlaps the named filter
    /// patterns, so some requests may log and others may not. No single pattern
    /// settles it; patterns that cover the route only together can.
    Conditional { overlaps: Vec<String> },
}

/// An [`AutoLog`], its texts taken as the characters that they hold.
#[verifier::ext_equal]
pub enum AutoLogView {
    Always,
    Never,
    Conditional { overlaps: Seq<Seq<char>> },
}

impl View for AutoLog {
    type V = AutoLogView;

    open spec fn view(&self) -> AutoLogView {
        match self {
            AutoLog::Always => AutoLogView::Always,
            AutoLog::Never => AutoLogView::Never,
            AutoLog::Conditional { overlaps } => AutoLogView::Conditional {
                overlaps: texts(overlaps@),
            },
        }
    }
}

impl Clone for AutoLog {
    fn clone(&self) -> (copy: AutoLog)
        ensures
            copy@ == self@,
    {
        match self {
            AutoLog::Always => AutoLog::Always,
            AutoLog::Never => AutoLog::Never,
            AutoLog::Conditional { overlaps } => {
                let copied = overlaps.clone();
                assert(texts(copied@) =~= texts(overlaps@));
                AutoLog::Conditional { overlaps: copied }
            },
        }
    }
}

impl AutoLogView {
    /// The word for the status.
    pub open spec fn label(self) -> Seq<char> {
        match self {
            AutoLogView::Always => "always"@,
            AutoLogView::Never => "never"@,
            AutoLogView::Conditional { .. } => "conditional"@,
        }
    }

    /// The overlapping patterns in one text, only for a conditional status.
    pub open spec fn overlaps_text(self) -> Option<Seq<char>> {
        match self {
            AutoLogView::Conditional { overlaps } => Some(joined(overlaps, ", "@)),
            _ => None,
        }
    }
}

impl AutoLog {
    /// The word for the status.
    pub fn label(&self) -> (label: &'static str)
        ensures
            label@ == self@.label(),
    {
        match self {
            AutoLog::Always => "always",
            AutoLog::Never => "never",
            AutoLog::Conditional { .. } => "conditional",
        }
    }

    /// The overlapping patterns to log alongside, only for `Conditional`.
    pub fn overlaps_field(&self) -> (field: Option<String>)
        ensures
            optional_text(field) == self@.overlaps_text(),
    {
        match self {
            AutoLog::Conditional { overlaps } => Some(join(overlaps, ", ")),
            _ => None,
        }
    }
}

/// How a pattern covers the requests with this method to `route`.
pub open spec fn pattern_covers(
    pattern: FilterPatternView,
    method: Method,
    route: Seq<SegmentView>,
) -> Coverage {
    if pattern.method == method {
        covers(pattern.segments, route)
    } else {
        Coverage::Disjoint
    }
}

/// Whether one of the patterns covers the requests with this method to `route` in this way.
pub open spec fn any_covers(
    patterns: Seq<FilterPatternView>,
    method: Method,
    route: Seq<SegmentView>,
    coverage: Coverage,
) -> bool {
    exists|i: int|
        0 <= i < patterns.len() && #[trigger] pattern_covers(patterns[i], method, route) == coverage
}

/// A pattern as it is named to the reader of the log: its method and its path.
pub open spec fn pattern_name(pattern: FilterPatternView) -> Seq<char> {
    pattern.method.name() + " "@ + pattern.display
}

/// The names of the patterns that cover only some requests with this method to `route`.
pub open spec fn overlap_names(
    patterns: Seq<FilterPatternView>,
    method: Method,
    route: Seq<SegmentView>,
) -> Seq<Seq<char>> {
    patterns.filter(
        |pattern: FilterPatternView| pattern_covers(pattern, method, route) == Coverage::Partial,
    ).map_values(|pattern: FilterPatternView| pattern_name(pattern))
}

impl ResolvedFilterView {
    /// Whether the show list is seen to let through every request with this method to `route`.
    pub open spec fn shows_all(self, method: Method, route: Seq<SegmentView>) -> bool {
        self.shown.len() == 0 || any_covers(self.shown, method, route, Coverage::Full)
    }

    /// Whether the show list is seen to let through some request with this method to `route`.
    pub open spec fn shows_some(self, method: Method, route: Seq<SegmentView>) -> bool {
        self.shows_all(method, route) || any_covers(self.shown, method, route, Coverage::Partial)
    }

    /// The status of `route`, as the coverage of the single patterns tells it.
    pub open spec fn classification(self, method: Method, route: Seq<SegmentView>) -> AutoLogView {
        if !self.shows_some(method, route) || any_covers(
            self.skipped,
            method,
            route,
            Coverage::Full,
        ) {
            AutoLogView::Never
        } else if self.shows_all(method, route) && !any_covers(
            self.skipped,
            method,
            route,
            Coverage::Partial,
        ) {
            AutoLogView::Always
        } else {
            let skip_names = overlap_names(self.skipped, method, route);
            let show_names = overlap_names(self.shown, method, route);
            AutoLogView::Conditional {
                overlaps: without_repeats(
                    if self.shows_all(method, route) {
                        skip_names
                    } else {
                        skip_names + show_names
                    },
                ),
            }
        }
    }
}

impl FilterPattern {
    /// The pattern as it is named to the reader of the log.
    fn name(&self) -> (name: String)
        ensures
            name@ == pattern_name(self@),
    {
        let mut name = String::new();
        name.append(self.method.as_str());
        name.append(" ");
        name.append(self.display.as_str());
        name
    }
}

/// How the patterns cover the requests with a method to a route, taken together.
struct Reduced {
    full: bool,
    partial: bool,
    overlaps: Vec<String>,
}

/// Reduces the patterns to: is there a full cover, is there a partial one, and the names of the
/// partial ones.
fn reduce(patterns: &Vec<FilterPattern>, method: Method, route: &[Segment]) -> (reduced: Reduced)
    ensures
        reduced.full == any_covers(
            patterns_of(patterns@),
            method,
            pattern_of(route@),
            Coverage::Full,
        ),
        reduced.partial == any_covers(
            patterns_of(patterns@),
            method,
            pattern_of(route@),
            Coverage::Partial,
        ),
        texts(reduced.overlaps@) == overlap_names(
            patterns_of(patterns@),
            method,
            pattern_of(route@),
        ),
{
    let mut full = false;
    let mut partial = false;
    let mut overlaps: Vec<String> = Vec::new();
    let ghost set = patterns_of(patterns@);
    let ghost target = pattern_of(route@);
    let mut index: usize = 0;
    proof {
        reveal(Seq::filter);
    }
    while index < patterns.len()
        invariant
            set == patterns_of(patterns@),
            target == pattern_of(route@),
            index <= patterns.len(),
            full == exists|i: int|
                0 <= i < index && #[trigger] pattern_covers(set[i], method, target)
                    == Coverage::Full,
            partial == exists|i: int|
                0 <= i < index && #[trigger] pattern_covers(set[i], method, target)
                    == Coverage::Partial,
            texts(overlaps@) == overlap_names(set.take(index as int), method, target),
        decreases patterns.len() - index,
    {
        let ghost before = overlaps@;
        let pattern = &patterns[index];
        let found = if pattern.method == method {
            coverage(pattern.segments.as_slice(), route)
        } else {
            Coverage::Disjoint
        };
        proof {
            reveal(Seq::filter);
            assert(set[index as int] == pattern@);
            assert(set.take(index + 1).drop_last() == set.take(index as int));
            assert(found == pattern_covers(set[index as int], method, target));
        }
        match found {
            Coverage::Full => {
                full = true;
            },
            Coverage::Partial => {
                partial = true;
                overlaps.push(pattern.name());
                assert(texts(overlaps@) == texts(before).push(pattern_name(pattern@)));
                assert(overlap_names(set.take(index + 1), method, target) == overlap_names(
                    set.take(index as int),
                    method,
                    target,
                ).push(pattern_name(pattern@)));
            },
            Coverage::Disjoint => {},
        }
        index = index + 1;
    }
    assert(set.take(set.len() as int) == set);
    Reduced { full, partial, overlaps }
}

impl ResolvedFilter {
    /// Describe (not decide) a registered route's auto-logging, matching the
    /// same show-gates/skip-subtracts logic as `should_log` but at the pattern
    /// level. Overlap makes the answer request-dependent: `Conditional`.
    ///
    /// `Conditional` is the deliberately uncertain bucket: this is a descriptive
    /// launch hint, and runtime decisions ([`ResolvedFilter::should_log`]) stay
    /// exact regardless. The classification is safe-directional: it never
    /// reports `Always` for a route any request could skip, nor `Never` for a
    /// route any request could log. It is imprecise in the other,
    /// harmless direction, in two ways. When a show pattern and a skip pattern both
    /// *partially* overlap the same dynamic route, a route that is in truth never
    /// logged is reported `Conditional` rather than `Never`. And patterns are judged one
    /// by one: where several of them cover a route with a trailing segment only together,
    /// as `/f` and `/f/<a>/<r..>` cover `/f/<r..>`, the route is reported `Conditional`
    /// although, skipped, it is never logged, or, shown, it always is.
    pub fn classify(&self, method: Method, route: &[Segment]) -> (status: AutoLog)
        ensures
            status@ == self@.classification(method, pattern_of(route@)),
    {
        let show = reduce(&self.shown, method, route);
        let skip = reduce(&self.skipped, method, route);
        let shows_all = self.shown.is_empty() || show.full;
        let shows_some = shows_all || show.partial;
        if !shows_some || skip.full {
            return AutoLog::Never;
        }
        if shows_all && !skip.partial {
            return AutoLog::Always;
        }
        let mut overlaps = skip.overlaps;
        if !shows_all {
            let mut show_overlaps = show.overlaps;
            let ghost skip_names = texts(overlaps@);
            let ghost show_names = texts(show_overlaps@);
            overlaps.append(&mut show_overlaps);
            assert(texts(overlaps@) == skip_names + show_names);
        }
        // A show and a skip pattern can name the same overlap; keep each once.
        AutoLog::Conditional { overlaps: remove_repeats(overlaps) }
    }
}

} // verus!
