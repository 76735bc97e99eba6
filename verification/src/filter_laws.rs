//! What holds of the filter as a whole.

use crate::filter::{
    any_covers, any_matches, clash, covers, fixed_len, lemma_fixed_len, listed_patterns,
    narrows, overlap_names, parsed, pattern_covers, pattern_matches, pattern_name,
    request_matches, route_key, route_pattern, segment_matches, segment_meaning, AutoLogView,
    Coverage, FilterPatternView, ResolvedFilterView, RouteKeyView, SegmentView,
};
use crate::http::{Method, Route};
use crate::path::{
    is_segment_text, law_path_without_query_is_whole, law_query_is_ignored,
    law_request_segments_are_free_of_queries, law_split_request_undoes_path_of, lemma_filter_keeps,
    path_of, request_segments, segments_of,
};
use crate::text::without_repeats;
use vstd::prelude::*;

verus! {

/// Whether a trailing segment, if the pattern has one, ends it.
pub open spec fn trailing_ends(pattern: Seq<SegmentView>) -> bool {
    forall|i: int| 0 <= i < pattern.len() - 1 ==> !(#[trigger] pattern[i] is Trailing)
}

/// Whether `text` can be a segment of the path of a request: not empty, and free of slashes and
/// question marks.
pub open spec fn is_request_text(text: Seq<char>) -> bool {
    is_segment_text(text) && !text.contains('?')
}

/// Whether each literal of the pattern can be a segment of the path of a request.
pub open spec fn literals_fit(pattern: Seq<SegmentView>) -> bool {
    forall|i: int|
        0 <= i < pattern.len() && #[trigger] pattern[i] is Static ==> is_request_text(
            pattern[i]->Static_0,
        )
}

/// Whether `path` is the path of a request to `pattern`.
pub open spec fn path_fits(pattern: Seq<SegmentView>, path: Seq<char>) -> bool {
    request_matches(pattern, request_segments(path))
}

/// A filter pattern that fully covers a route matches every request to the route.
pub proof fn law_full_coverage_matches_every_request(
    filter: Seq<SegmentView>,
    route: Seq<SegmentView>,
    request: Seq<Seq<char>>,
)
    requires
        covers(filter, route) == Coverage::Full,
        request_matches(route, request),
    ensures
        request_matches(filter, request),
{
    lemma_fixed_len(filter);
    lemma_fixed_len(route);
    let filter_len = fixed_len(filter);
    assert forall|i: int| 0 <= i < filter_len implies segment_matches(
        #[trigger] filter[i],
        request[i],
    ) by {
        assert(!clash(filter[i], route[i]));
        assert(!narrows(filter[i], route[i]));
        assert(segment_matches(route[i], request[i]));
    }
}

/// A filter pattern that does not cover a route matches no request to the route.
pub proof fn law_no_coverage_matches_no_request(
    filter: Seq<SegmentView>,
    route: Seq<SegmentView>,
    request: Seq<Seq<char>>,
)
    requires
        trailing_ends(route),
        covers(filter, route) == Coverage::Disjoint,
        request_matches(route, request),
    ensures
        !request_matches(filter, request),
{
    lemma_fixed_len(filter);
    lemma_fixed_len(route);
    if exists|i: int|
        0 <= i < fixed_len(filter) && i < fixed_len(route) && #[trigger] clash(filter[i], route[i]) {
        let i = choose|i: int|
            0 <= i < fixed_len(filter) && i < fixed_len(route) && #[trigger] clash(
                filter[i],
                route[i],
            );
        assert(segment_matches(route[i], request[i]));
        assert(!segment_matches(filter[i], request[i]));
    }
}

/// The segments of a request that follows the literals of `filter`, then those of `route`.
spec fn sample(filter: Seq<SegmentView>, route: Seq<SegmentView>, len: nat) -> Seq<Seq<char>> {
    Seq::new(
        len,
        |i: int|
            if i < fixed_len(filter) && filter[i] is Static {
                filter[i]->Static_0
            } else if i < fixed_len(route) && route[i] is Static {
                route[i]->Static_0
            } else {
                seq!['x']
            },
    )
}

/// The segments of a sample can be written as a path.
proof fn lemma_sample_path(filter: Seq<SegmentView>, route: Seq<SegmentView>, len: nat)
    requires
        literals_fit(filter),
        literals_fit(route),
    ensures
        forall|i: int| 0 <= i < len ==> is_request_text(#[trigger] sample(filter, route, len)[i]),
        request_segments(path_of(sample(filter, route, len))) == sample(filter, route, len),
{
    lemma_fixed_len(filter);
    lemma_fixed_len(route);
    let request = sample(filter, route, len);
    assert forall|i: int| 0 <= i < len implies is_request_text(#[trigger] request[i]) by {
        let plain = seq!['x'];
        assert(plain[0] == 'x');
        assert(!plain.contains('/') && !plain.contains('?'));
        if i < fixed_len(filter) && filter[i] is Static {
            assert(is_request_text(filter[i]->Static_0));
        } else if i < fixed_len(route) && route[i] is Static {
            assert(is_request_text(route[i]->Static_0));
        }
    }
    law_split_request_undoes_path_of(request);
}

/// Every pattern whose literals fit has a request.
proof fn lemma_pattern_has_a_request(route: Seq<SegmentView>) -> (path: Seq<char>)
    requires
        literals_fit(route),
    ensures
        path_fits(route, path),
{
    lemma_fixed_len(route);
    let request = sample(route, route, fixed_len(route));
    lemma_sample_path(route, route, fixed_len(route));
    path_of(request)
}

/// A route that is partially covered has a request that the filter pattern matches.
proof fn lemma_partial_coverage_matches_some(
    filter: Seq<SegmentView>,
    route: Seq<SegmentView>,
) -> (path: Seq<char>)
    requires
        trailing_ends(route),
        literals_fit(filter),
        literals_fit(route),
        covers(filter, route) == Coverage::Partial,
    ensures
        path_fits(route, path),
        path_fits(filter, path),
{
    lemma_fixed_len(filter);
    lemma_fixed_len(route);
    let len = if fixed_len(filter) < fixed_len(route) {
        fixed_len(route)
    } else {
        fixed_len(filter)
    };
    let request = sample(filter, route, len);
    lemma_sample_path(filter, route, len);
    assert forall|i: int| 0 <= i < fixed_len(route) implies segment_matches(
        #[trigger] route[i],
        request[i],
    ) by {
        if i < fixed_len(filter) {
            assert(!clash(filter[i], route[i]));
        }
    }
    assert forall|i: int| 0 <= i < fixed_len(filter) implies segment_matches(
        #[trigger] filter[i],
        request[i],
    ) by {}
    path_of(request)
}

/// A route that is partially covered has a request that the filter pattern does not match.
proof fn lemma_partial_coverage_misses_some(
    filter: Seq<SegmentView>,
    route: Seq<SegmentView>,
) -> (path: Seq<char>)
    requires
        trailing_ends(route),
        literals_fit(filter),
        literals_fit(route),
        covers(filter, route) == Coverage::Partial,
    ensures
        path_fits(route, path),
        !path_fits(filter, path),
{
    lemma_fixed_len(filter);
    lemma_fixed_len(route);
    let filter_len = fixed_len(filter);
    let route_len = fixed_len(route);
    if route_len < filter_len {
        // The trailing segment of the route takes nothing: the request is too short.
        let request = sample(route, route, route_len);
        lemma_sample_path(route, route, route_len);
        path_of(request)
    } else if filter_len < filter.len() || filter_len == route.len() {
        // One segment differs from the literal of the filter.
        let k = choose|k: int| 0 <= k < filter_len && #[trigger] narrows(filter[k], route[k]);
        let other = filter[k]->Static_0.push('x');
        let request = sample(route, route, route_len).update(k, other);
        lemma_sample_path(route, route, route_len);
        assert(is_request_text(filter[k]->Static_0));
        assert(is_request_text(other)) by {
            if other.contains('/') {
                assert(filter[k]->Static_0[other.index_of('/')] == '/');
            }
            if other.contains('?') {
                assert(filter[k]->Static_0[other.index_of('?')] == '?');
            }
        }
        assert forall|i: int| 0 <= i < request.len() implies is_request_text(
            #[trigger] request[i],
        ) by {
            if i != k {
                assert(request[i] == sample(route, route, route_len)[i]);
            }
        }
        law_split_request_undoes_path_of(request);
        assert forall|i: int| 0 <= i < route_len implies segment_matches(
            #[trigger] route[i],
            request[i],
        ) by {}
        assert(!segment_matches(filter[k], request[k])) by {
            assert(other.len() == filter[k]->Static_0.len() + 1);
        }
        path_of(request)
    } else {
        // The trailing segment of the route takes one: the request is too long.
        let request = sample(route, route, route_len + 1);
        lemma_sample_path(route, route, route_len + 1);
        path_of(request)
    }
}

/// Coverage says exactly what the requests to a route do: all of them match the filter pattern,
/// none of them, or some and not others.
pub proof fn law_coverage_is_exact(filter: Seq<SegmentView>, route: Seq<SegmentView>)
    requires
        trailing_ends(route),
        literals_fit(filter),
        literals_fit(route),
    ensures
        covers(filter, route) == Coverage::Full <==> forall|path: Seq<char>| #[trigger]
            path_fits(route, path) ==> path_fits(filter, path),
        covers(filter, route) == Coverage::Disjoint <==> forall|path: Seq<char>| #[trigger]
            path_fits(route, path) ==> !path_fits(filter, path),
        covers(filter, route) == Coverage::Partial <==> {
            &&& exists|path: Seq<char>| #[trigger]
                path_fits(route, path) && path_fits(filter, path)
            &&& exists|path: Seq<char>| #[trigger]
                path_fits(route, path) && !path_fits(filter, path)
        },
{
    let some_path = lemma_pattern_has_a_request(route);
    match covers(filter, route) {
        Coverage::Full => {
            assert forall|path: Seq<char>| #[trigger] path_fits(route, path) implies path_fits(
                filter,
                path,
            ) by {
                law_full_coverage_matches_every_request(filter, route, request_segments(path));
            }
        },
        Coverage::Disjoint => {
            assert forall|path: Seq<char>| #[trigger] path_fits(route, path) implies !path_fits(
                filter,
                path,
            ) by {
                law_no_coverage_matches_no_request(filter, route, request_segments(path));
            }
        },
        Coverage::Partial => {
            let matched = lemma_partial_coverage_matches_some(filter, route);
            let missed = lemma_partial_coverage_misses_some(filter, route);
        },
    }
}

/// A pattern fully covers itself.
pub proof fn law_a_pattern_covers_itself(pattern: Seq<SegmentView>)
    ensures
        covers(pattern, pattern) == Coverage::Full,
{
    lemma_fixed_len(pattern);
}

/// The literals of a parsed route path, which carries no query, can be segments of the path of a
/// request.
pub proof fn law_parsed_literals_fit(path: Seq<char>)
    requires
        !path.contains('?'),
    ensures
        literals_fit(parsed(path)),
{
    law_path_without_query_is_whole(path);
    law_request_segments_are_free_of_queries(path);
    assert forall|i: int|
        0 <= i < parsed(path).len() && #[trigger] parsed(path)[i] is Static implies is_request_text(
        parsed(path)[i]->Static_0,
    ) by {
        assert(parsed(path)[i] == segment_meaning(segments_of(path)[i]));
        assert(is_request_text(request_segments(path)[i]));
    }
}

/// A route path without dynamic segments matches exactly the paths with its own segments.
pub proof fn law_literal_pattern_matches_its_own_segments(path: Seq<char>, other: Seq<char>)
    requires
        forall|i: int| 0 <= i < segments_of(path).len() ==> #[trigger] segments_of(path)[i][0] != '<',
    ensures
        path_fits(parsed(path), other) <==> request_segments(other) == segments_of(path),
{
    let pattern = parsed(path);
    let segments = segments_of(path);
    lemma_fixed_len(pattern);
    assert forall|i: int| 0 <= i < pattern.len() implies #[trigger] pattern[i]
        == SegmentView::Static(segments[i]) by {
        assert(segments[i][0] != '<');
        assert(pattern[i] == segment_meaning(segments[i]));
    }
    assert(fixed_len(pattern) == pattern.len());
    if path_fits(pattern, other) {
        assert forall|i: int| 0 <= i < segments.len() implies #[trigger] request_segments(other)[i]
            == segments[i] by {
            assert(segment_matches(pattern[i], request_segments(other)[i]));
        }
        assert(request_segments(other) =~= segments);
    }
}

/// With neither list set, everything is logged.
pub proof fn law_without_lists_everything_is_logged(
    filter: ResolvedFilterView,
    method: Method,
    path: Seq<char>,
)
    requires
        filter.shown.len() == 0,
        filter.skipped.len() == 0,
    ensures
        filter.logs(method, request_segments(path)),
{
}

/// With only a skip list, everything is logged except what a skipped pattern matches.
pub proof fn law_skip_list_subtracts(filter: ResolvedFilterView, method: Method, path: Seq<char>)
    requires
        filter.shown.len() == 0,
    ensures
        filter.logs(method, request_segments(path)) <==> !any_matches(
            filter.skipped,
            method,
            request_segments(path),
        ),
{
}

/// With only a show list, nothing is logged except what a shown pattern matches.
pub proof fn law_show_list_gates(filter: ResolvedFilterView, method: Method, path: Seq<char>)
    requires
        filter.shown.len() > 0,
        filter.skipped.len() == 0,
    ensures
        filter.logs(method, request_segments(path)) <==> any_matches(
            filter.shown,
            method,
            request_segments(path),
        ),
{
}

/// What a skipped pattern matches is not logged, whatever the show list says.
pub proof fn law_skip_wins_over_show(filter: ResolvedFilterView, method: Method, path: Seq<char>)
    requires
        any_matches(filter.skipped, method, request_segments(path)),
    ensures
        !filter.logs(method, request_segments(path)),
{
}

/// A pattern of another method plays no part.
pub proof fn law_patterns_act_on_their_own_method(
    pattern: FilterPatternView,
    method: Method,
    path: Seq<char>,
    route: Seq<SegmentView>,
)
    requires
        pattern.method != method,
    ensures
        !pattern_matches(pattern, method, request_segments(path)),
        pattern_covers(pattern, method, route) == Coverage::Disjoint,
{
}

/// A path is judged by its segments alone: slashes in front, behind and doubled play no part.
pub proof fn law_extra_slashes_play_no_part(
    filter: ResolvedFilterView,
    method: Method,
    path: Seq<char>,
)
    ensures
        filter.logs(method, request_segments(path_of(request_segments(path)))) == filter.logs(
            method,
            request_segments(path),
        ),
{
    law_request_segments_are_free_of_queries(path);
    law_split_request_undoes_path_of(request_segments(path));
}

/// Query strings are ignored: a path is judged alike with a query behind it and without.
pub proof fn law_query_plays_no_part(
    filter: ResolvedFilterView,
    pattern: Seq<SegmentView>,
    method: Method,
    path: Seq<char>,
    query: Seq<char>,
)
    requires
        !path.contains('?'),
    ensures
        path_fits(pattern, path.push('?') + query) == path_fits(pattern, path),
        filter.logs(method, request_segments(path.push('?') + query)) == filter.logs(
            method,
            request_segments(path),
        ),
{
    law_query_is_ignored(path, query);
}

/// A listed route that is in the route table contributes its pattern.
proof fn lemma_listed_route_has_its_pattern(
    routes: Seq<Route>,
    keys: Seq<RouteKeyView>,
    route: Route,
)
    requires
        routes.contains(route),
        keys.contains(route_key(route)),
    ensures
        listed_patterns(routes, keys).contains(route_pattern(route)),
{
    let keep = |r: Route| keys.contains(route_key(r));
    let at = routes.index_of(route);
    assert(keep(routes[at]));
    routes.lemma_filter_contains(keep, at);
    let kept = routes.filter(keep);
    let k = kept.index_of(route);
    assert(listed_patterns(routes, keys)[k] == route_pattern(route));
}

/// The filter that the lists resolve to against a route table.
pub open spec fn resolution(
    routes: Seq<Route>,
    show_keys: Seq<RouteKeyView>,
    skip_keys: Seq<RouteKeyView>,
) -> ResolvedFilterView {
    ResolvedFilterView {
        shown: listed_patterns(routes, show_keys),
        skipped: listed_patterns(routes, skip_keys),
    }
}

/// A mounted route on the skip list is never logged, wherever it is mounted: no request with its
/// method whose path fits its mounted pattern is, and the route is reported so.
pub proof fn law_skipped_route_is_never_logged(
    routes: Seq<Route>,
    show_keys: Seq<RouteKeyView>,
    skip_keys: Seq<RouteKeyView>,
    route: Route,
    path: Seq<char>,
)
    requires
        routes.contains(route),
        skip_keys.contains(route_key(route)),
    ensures
        path_fits(parsed(route.path@), path) ==> !resolution(routes, show_keys, skip_keys).logs(
            route.method,
            request_segments(path),
        ),
        resolution(routes, show_keys, skip_keys).classification(route.method, parsed(route.path@))
            == AutoLogView::Never,
{
    lemma_listed_route_has_its_pattern(routes, skip_keys, route);
    law_a_pattern_covers_itself(parsed(route.path@));
    let skipped = listed_patterns(routes, skip_keys);
    let k = skipped.index_of(route_pattern(route));
    assert(pattern_covers(skipped[k], route.method, parsed(route.path@)) == Coverage::Full);
    if path_fits(parsed(route.path@), path) {
        assert(pattern_matches(skipped[k], route.method, request_segments(path)));
    }
}

/// With no skip list, a mounted route on the show list is always logged, wherever it is mounted:
/// every request with its method whose path fits its mounted pattern is, and the route is
/// reported so.
pub proof fn law_shown_route_is_always_logged(
    routes: Seq<Route>,
    show_keys: Seq<RouteKeyView>,
    route: Route,
    path: Seq<char>,
)
    requires
        routes.contains(route),
        show_keys.contains(route_key(route)),
    ensures
        path_fits(parsed(route.path@), path) ==> resolution(routes, show_keys, seq![]).logs(
            route.method,
            request_segments(path),
        ),
        resolution(routes, show_keys, seq![]).classification(route.method, parsed(route.path@))
            == AutoLogView::Always,
{
    lemma_listed_route_has_its_pattern(routes, show_keys, route);
    law_a_pattern_covers_itself(parsed(route.path@));
    lemma_nothing_listed(routes, seq![]);
    let shown = listed_patterns(routes, show_keys);
    let k = shown.index_of(route_pattern(route));
    assert(pattern_covers(shown[k], route.method, parsed(route.path@)) == Coverage::Full);
    if path_fits(parsed(route.path@), path) {
        assert(pattern_matches(shown[k], route.method, request_segments(path)));
    }
}

/// Keys that no route carries list no pattern.
proof fn lemma_nothing_listed(routes: Seq<Route>, keys: Seq<RouteKeyView>)
    requires
        forall|i: int| 0 <= i < routes.len() ==> !keys.contains(route_key(#[trigger] routes[i])),
    ensures
        listed_patterns(routes, keys).len() == 0,
{
    let keep = |r: Route| keys.contains(route_key(r));
    if routes.filter(keep).len() > 0 {
        lemma_filter_keeps(routes, keep, 0);
        let at = routes.index_of(routes.filter(keep)[0]);
        assert(!keys.contains(route_key(routes[at])));
    }
}

/// Handles on the show list that are never mounted leave the show list empty, so that everything
/// is eligible and only the skip list decides.
pub proof fn law_unmounted_show_list_logs_everything(
    routes: Seq<Route>,
    show_keys: Seq<RouteKeyView>,
    skip_keys: Seq<RouteKeyView>,
    method: Method,
    path: Seq<char>,
)
    requires
        forall|i: int|
            0 <= i < routes.len() ==> !show_keys.contains(route_key(#[trigger] routes[i])),
    ensures
        resolution(routes, show_keys, skip_keys).logs(method, request_segments(path)) <==> !any_matches(
            listed_patterns(routes, skip_keys),
            method,
            request_segments(path),
        ),
{
    lemma_nothing_listed(routes, show_keys);
}

/// A route reported as always logged: every request to it is logged.
pub proof fn law_always_is_always(
    filter: ResolvedFilterView,
    method: Method,
    route: Seq<SegmentView>,
    path: Seq<char>,
)
    requires
        trailing_ends(route),
        filter.classification(method, route) == AutoLogView::Always,
        path_fits(route, path),
    ensures
        filter.logs(method, request_segments(path)),
{
    let request = request_segments(path);
    if filter.shown.len() > 0 {
        let k = choose|k: int|
            0 <= k < filter.shown.len() && #[trigger] pattern_covers(filter.shown[k], method, route)
                == Coverage::Full;
        law_full_coverage_matches_every_request(filter.shown[k].segments, route, request);
        assert(pattern_matches(filter.shown[k], method, request));
    }
    assert forall|i: int| 0 <= i < filter.skipped.len() implies !#[trigger] pattern_matches(
        filter.skipped[i],
        method,
        request,
    ) by {
        lemma_uncovering_pattern_matches_nothing(filter.skipped, method, route, request, i);
    }
}

/// Where the patterns cover a route neither fully nor partially, none matches a request to it.
proof fn lemma_uncovering_pattern_matches_nothing(
    patterns: Seq<FilterPatternView>,
    method: Method,
    route: Seq<SegmentView>,
    request: Seq<Seq<char>>,
    i: int,
)
    requires
        trailing_ends(route),
        !any_covers(patterns, method, route, Coverage::Full),
        !any_covers(patterns, method, route, Coverage::Partial),
        request_matches(route, request),
        0 <= i < patterns.len(),
    ensures
        !pattern_matches(patterns[i], method, request),
{
    assert(pattern_covers(patterns[i], method, route) != Coverage::Full);
    assert(pattern_covers(patterns[i], method, route) != Coverage::Partial);
    if patterns[i].method == method {
        law_no_coverage_matches_no_request(patterns[i].segments, route, request);
    }
}

/// A route reported as never logged: no request to it is logged.
pub proof fn law_never_is_never(
    filter: ResolvedFilterView,
    method: Method,
    route: Seq<SegmentView>,
    path: Seq<char>,
)
    requires
        trailing_ends(route),
        filter.classification(method, route) == AutoLogView::Never,
        path_fits(route, path),
    ensures
        !filter.logs(method, request_segments(path)),
{
    let request = request_segments(path);
    if any_covers(filter.skipped, method, route, Coverage::Full) {
        let k = choose|k: int|
            0 <= k < filter.skipped.len() && #[trigger] pattern_covers(
                filter.skipped[k],
                method,
                route,
            ) == Coverage::Full;
        law_full_coverage_matches_every_request(filter.skipped[k].segments, route, request);
        assert(pattern_matches(filter.skipped[k], method, request));
    } else {
        assert forall|i: int| 0 <= i < filter.shown.len() implies !#[trigger] pattern_matches(
            filter.shown[i],
            method,
            request,
        ) by {
            lemma_uncovering_pattern_matches_nothing(filter.shown, method, route, request, i);
        }
    }
}

/// With no lists, every route is reported as always logged.
pub proof fn law_without_lists_every_route_is_always_logged(
    filter: ResolvedFilterView,
    method: Method,
    route: Seq<SegmentView>,
)
    requires
        filter.shown.len() == 0,
        filter.skipped.len() == 0,
    ensures
        filter.classification(method, route) == AutoLogView::Always,
{
}

/// Dropping repeats keeps every text and lists none twice.
proof fn lemma_without_repeats(texts: Seq<Seq<char>>)
    ensures
        forall|text: Seq<char>|
            #[trigger] without_repeats(texts).contains(text) <==> texts.contains(text),
        without_repeats(texts).no_duplicates(),
    decreases texts.len(),
{
    if texts.len() > 0 {
        let shorter = texts.drop_last();
        lemma_without_repeats(shorter);
        let before = without_repeats(shorter);
        assert forall|text: Seq<char>|
            #[trigger] without_repeats(texts).contains(text) <==> texts.contains(text) by {
            if texts.contains(text) {
                let i = texts.index_of(text);
                if i < shorter.len() {
                    assert(shorter[i] == text);
                    assert(shorter.contains(text));
                    assert(before.contains(text));
                    let j = before.index_of(text);
                    assert(without_repeats(texts)[j] == text);
                } else if !before.contains(texts.last()) {
                    assert(without_repeats(texts)[before.len() as int] == text);
                }
            }
            if without_repeats(texts).contains(text) {
                let j = without_repeats(texts).index_of(text);
                if j < before.len() {
                    assert(before[j] == text);
                    assert(before.contains(text));
                    assert(shorter.contains(text));
                    let i = shorter.index_of(text);
                    assert(texts[i] == text);
                } else {
                    assert(texts[texts.len() - 1] == text);
                }
            }
        }
    }
}

/// A text is an overlap name exactly when it names a pattern that covers only some requests.
proof fn lemma_overlap_names(
    patterns: Seq<FilterPatternView>,
    method: Method,
    route: Seq<SegmentView>,
    name: Seq<char>,
)
    ensures
        overlap_names(patterns, method, route).contains(name) <==> names_overlap(
            patterns,
            method,
            route,
            name,
        ),
{
    let keep = |p: FilterPatternView| pattern_covers(p, method, route) == Coverage::Partial;
    let kept = patterns.filter(keep);
    let names = overlap_names(patterns, method, route);
    if names.contains(name) {
        let k = names.index_of(name);
        lemma_filter_keeps(patterns, keep, k);
        let i = patterns.index_of(kept[k]);
        assert(pattern_covers(patterns[i], method, route) == Coverage::Partial);
    }
    if names_overlap(patterns, method, route, name) {
        let i = choose|i: int|
            0 <= i < patterns.len() && #[trigger] pattern_covers(patterns[i], method, route)
                == Coverage::Partial && pattern_name(patterns[i]) == name;
        assert(keep(patterns[i]));
        patterns.lemma_filter_contains(keep, i);
        let k = kept.index_of(patterns[i]);
        assert(names[k] == name);
    }
}

/// Whether `name` names one of the patterns that cover only some requests to `route`.
pub open spec fn names_overlap(
    patterns: Seq<FilterPatternView>,
    method: Method,
    route: Seq<SegmentView>,
    name: Seq<char>,
) -> bool {
    exists|i: int|
        0 <= i < patterns.len() && #[trigger] pattern_covers(patterns[i], method, route)
            == Coverage::Partial && pattern_name(patterns[i]) == name
}

/// A conditional status names overlaps, each once, and only patterns that cover some requests to
/// the route and not others: all such patterns of the skip list, and those of the show list
/// where no shown pattern covers the whole route.
pub proof fn law_conditional_names_each_overlap_once(
    filter: ResolvedFilterView,
    method: Method,
    route: Seq<SegmentView>,
    name: Seq<char>,
)
    requires
        filter.classification(method, route) is Conditional,
    ensures
        ({
            let overlaps = filter.classification(method, route)->overlaps;
            &&& overlaps.len() > 0
            &&& overlaps.no_duplicates()
            &&& overlaps.contains(name) <==> {
                ||| names_overlap(filter.skipped, method, route, name)
                ||| !filter.shows_all(method, route) && names_overlap(
                    filter.shown,
                    method,
                    route,
                    name,
                )
            }
        }),
{
    let overlaps = filter.classification(method, route)->overlaps;
    let skip_names = overlap_names(filter.skipped, method, route);
    let show_names = overlap_names(filter.shown, method, route);
    let all = if filter.shows_all(method, route) {
        skip_names
    } else {
        skip_names + show_names
    };
    lemma_without_repeats(all);
    assert(all.contains(name) <==> {
        ||| skip_names.contains(name)
        ||| !filter.shows_all(method, route) && show_names.contains(name)
    }) by {
        if skip_names.contains(name) {
            assert(all[skip_names.index_of(name)] == name);
        }
        if !filter.shows_all(method, route) && show_names.contains(name) {
            assert(all[skip_names.len() + show_names.index_of(name)] == name);
        }
        if all.contains(name) {
            let i = all.index_of(name);
            if i < skip_names.len() {
                assert(skip_names[i] == name);
            } else {
                assert(show_names[i - skip_names.len()] == name);
            }
        }
    }
    lemma_overlap_names(filter.skipped, method, route, name);
    lemma_overlap_names(filter.shown, method, route, name);
    // Some pattern is partial, and its name is listed.
    let patterns = if any_covers(filter.skipped, method, route, Coverage::Partial) {
        filter.skipped
    } else {
        filter.shown
    };
    let k = choose|k: int|
        0 <= k < patterns.len() && #[trigger] pattern_covers(patterns[k], method, route)
            == Coverage::Partial;
    lemma_overlap_names(patterns, method, route, pattern_name(patterns[k]));
    let names = overlap_names(patterns, method, route);
    let at = names.index_of(pattern_name(patterns[k]));
    assert(all.len() > 0);
    assert(all.contains(all[0]));
    assert(overlaps.contains(all[0]));
}

/// Whether a request to `route` can have `len` segments.
pub open spec fn can_have(route: Seq<SegmentView>, len: nat) -> bool {
    if fixed_len(route) < route.len() {
        len >= fixed_len(route)
    } else {
        len == fixed_len(route)
    }
}

/// Whether a pattern matches all requests to `route` with this method and `len` segments: it takes
/// that many, and where it has a literal, the route has the same.
pub open spec fn covers_length(
    pattern: FilterPatternView,
    method: Method,
    route: Seq<SegmentView>,
    len: nat,
) -> bool {
    &&& pattern.method == method
    &&& can_have(pattern.segments, len)
    &&& forall|i: int|
        0 <= i < fixed_len(pattern.segments) ==> {
            ||| #[trigger] pattern.segments[i] is Dynamic
            ||| i < fixed_len(route) && pattern.segments[i] == route[i]
        }
}

/// Whether requests to `route` can have a length that no pattern covers as a whole.
pub open spec fn leaves_a_length(
    patterns: Seq<FilterPatternView>,
    method: Method,
    route: Seq<SegmentView>,
) -> bool {
    exists|len: nat| #[trigger]
        can_have(route, len) && forall|i: int|
            0 <= i < patterns.len() ==> !#[trigger] covers_length(patterns[i], method, route, len)
}

/// Whether some request to `route` with this method matches none of the patterns.
pub open spec fn misses_some(
    patterns: Seq<FilterPatternView>,
    method: Method,
    route: Seq<SegmentView>,
) -> bool {
    exists|path: Seq<char>| #[trigger]
        path_fits(route, path) && !any_matches(patterns, method, request_segments(path))
}

/// The length of the longest literal of a pattern.
spec fn longest_literal(pattern: Seq<SegmentView>) -> nat
    decreases pattern.len(),
{
    if pattern.len() == 0 {
        0
    } else {
        let before = longest_literal(pattern.drop_last());
        match pattern.last() {
            SegmentView::Static(text) => if text.len() > before {
                text.len()
            } else {
                before
            },
            _ => before,
        }
    }
}

/// The length of the longest literal of the patterns.
spec fn longest_of(patterns: Seq<FilterPatternView>) -> nat
    decreases patterns.len(),
{
    if patterns.len() == 0 {
        0
    } else {
        let before = longest_of(patterns.drop_last());
        let last = longest_literal(patterns.last().segments);
        if last > before {
            last
        } else {
            before
        }
    }
}

/// No literal of a pattern is longer than its longest.
proof fn lemma_longest_literal(pattern: Seq<SegmentView>, i: int)
    requires
        0 <= i < pattern.len(),
        pattern[i] is Static,
    ensures
        pattern[i]->Static_0.len() <= longest_literal(pattern),
    decreases pattern.len(),
{
    if i < pattern.len() - 1 {
        lemma_longest_literal(pattern.drop_last(), i);
    }
}

/// No literal of a pattern is longer than the longest of all patterns.
proof fn lemma_longest_of(patterns: Seq<FilterPatternView>, k: int)
    requires
        0 <= k < patterns.len(),
    ensures
        longest_literal(patterns[k].segments) <= longest_of(patterns),
    decreases patterns.len(),
{
    if k < patterns.len() - 1 {
        lemma_longest_of(patterns.drop_last(), k);
    }
}

/// A length that no pattern covers as a whole has a request that none of them matches: one whose
/// free segments are longer than every literal.
proof fn lemma_left_length_is_missed(
    patterns: Seq<FilterPatternView>,
    method: Method,
    route: Seq<SegmentView>,
    len: nat,
) -> (path: Seq<char>)
    requires
        literals_fit(route),
        can_have(route, len),
        forall|i: int|
            0 <= i < patterns.len() ==> !#[trigger] covers_length(patterns[i], method, route, len),
    ensures
        path_fits(route, path),
        !any_matches(patterns, method, request_segments(path)),
{
    lemma_fixed_len(route);
    let free = Seq::new(longest_of(patterns) + 1, |i: int| 'x');
    let request = Seq::new(
        len,
        |i: int|
            if i < fixed_len(route) && route[i] is Static {
                route[i]->Static_0
            } else {
                free
            },
    );
    assert forall|i: int| 0 <= i < request.len() implies is_request_text(#[trigger] request[i]) by {
        if i < fixed_len(route) && route[i] is Static {
            assert(is_request_text(route[i]->Static_0));
        } else {
            assert(!free.contains('/') && !free.contains('?'));
        }
    }
    law_split_request_undoes_path_of(request);
    assert forall|k: int| 0 <= k < patterns.len() implies !#[trigger] pattern_matches(
        patterns[k],
        method,
        request,
    ) by {
        let pattern = patterns[k].segments;
        lemma_fixed_len(pattern);
        if pattern_matches(patterns[k], method, request) {
            assert forall|i: int| 0 <= i < fixed_len(pattern) implies {
                ||| #[trigger] pattern[i] is Dynamic
                ||| i < fixed_len(route) && pattern[i] == route[i]
            } by {
                assert(segment_matches(pattern[i], request[i]));
                if pattern[i] is Static {
                    lemma_longest_literal(pattern, i);
                    lemma_longest_of(patterns, k);
                    assert(pattern[i]->Static_0 != free);
                }
            }
            assert(covers_length(patterns[k], method, route, len));
        }
    }
    path_of(request)
}

/// Patterns together cover a route exactly when for every length that its requests can have, one
/// of them covers that length as a whole.
pub proof fn law_patterns_cover_a_route_length_by_length(
    patterns: Seq<FilterPatternView>,
    method: Method,
    route: Seq<SegmentView>,
)
    requires
        literals_fit(route),
    ensures
        misses_some(patterns, method, route) <==> leaves_a_length(patterns, method, route),
{
    lemma_fixed_len(route);
    if leaves_a_length(patterns, method, route) {
        let len = choose|len: nat| #[trigger]
            can_have(route, len) && forall|i: int|
                0 <= i < patterns.len() ==> !#[trigger] covers_length(
                    patterns[i],
                    method,
                    route,
                    len,
                );
        let path = lemma_left_length_is_missed(patterns, method, route, len);
    }
    if misses_some(patterns, method, route) {
        let path = choose|path: Seq<char>| #[trigger]
            path_fits(route, path) && !any_matches(patterns, method, request_segments(path));
        let request = request_segments(path);
        assert(can_have(route, request.len()));
        assert forall|k: int| 0 <= k < patterns.len() implies !#[trigger] covers_length(
            patterns[k],
            method,
            route,
            request.len(),
        ) by {
            let pattern = patterns[k].segments;
            lemma_fixed_len(pattern);
            if covers_length(patterns[k], method, route, request.len()) {
                assert forall|i: int| 0 <= i < fixed_len(pattern) implies segment_matches(
                    #[trigger] pattern[i],
                    request[i],
                ) by {
                    if !(pattern[i] is Dynamic) {
                        assert(segment_matches(route[i], request[i]));
                    }
                }
                assert(pattern_matches(patterns[k], method, request));
            }
        }
    }
}

/// Patterns never cover a route without a trailing segment together where none covers it alone.
pub proof fn law_no_joint_coverage_without_trailing(
    patterns: Seq<FilterPatternView>,
    method: Method,
    route: Seq<SegmentView>,
)
    requires
        fixed_len(route) == route.len(),
        !any_covers(patterns, method, route, Coverage::Full),
    ensures
        leaves_a_length(patterns, method, route),
{
    lemma_fixed_len(route);
    assert(can_have(route, route.len()));
    assert forall|k: int| 0 <= k < patterns.len() implies !#[trigger] covers_length(
        patterns[k],
        method,
        route,
        route.len(),
    ) by {
        let pattern = patterns[k].segments;
        lemma_fixed_len(pattern);
        if covers_length(patterns[k], method, route, route.len()) {
            assert forall|i: int| 0 <= i < fixed_len(pattern) implies !#[trigger] clash(
                pattern[i],
                route[i],
            ) && !narrows(pattern[i], route[i]) by {}
            assert forall|i: int| 0 <= i < fixed_len(pattern) implies !#[trigger] narrows(
                pattern[i],
                route[i],
            ) by {
                assert(!clash(pattern[i], route[i]));
            }
            assert(pattern_covers(patterns[k], method, route) == Coverage::Full);
        }
    }
}

/// One partially covering pattern never covers a route as a whole, nor do others that do not cover
/// it at all.
pub proof fn law_no_joint_coverage_by_one_pattern(
    patterns: Seq<FilterPatternView>,
    method: Method,
    route: Seq<SegmentView>,
    k: int,
)
    requires
        trailing_ends(route),
        literals_fit(route),
        0 <= k < patterns.len(),
        literals_fit(patterns[k].segments),
        pattern_covers(patterns[k], method, route) == Coverage::Partial,
        forall|i: int|
            0 <= i < patterns.len() && i != k ==> #[trigger] pattern_covers(
                patterns[i],
                method,
                route,
            ) == Coverage::Disjoint,
    ensures
        leaves_a_length(patterns, method, route),
{
    let path = lemma_partial_coverage_misses_some(patterns[k].segments, route);
    let request = request_segments(path);
    assert forall|i: int| 0 <= i < patterns.len() implies !#[trigger] pattern_matches(
        patterns[i],
        method,
        request,
    ) by {
        if i != k && patterns[i].method == method {
            assert(pattern_covers(patterns[i], method, route) == Coverage::Disjoint);
            law_no_coverage_matches_no_request(patterns[i].segments, route, request);
        }
    }
    assert(misses_some(patterns, method, route));
    law_patterns_cover_a_route_length_by_length(patterns, method, route);
}

/// Whether some request to `route` with this method is logged.
pub open spec fn logs_some(
    filter: ResolvedFilterView,
    method: Method,
    route: Seq<SegmentView>,
) -> bool {
    exists|path: Seq<char>| #[trigger]
        path_fits(route, path) && filter.logs(method, request_segments(path))
}

/// Whether some request to `route` with this method is not logged.
pub open spec fn leaves_some_unlogged(
    filter: ResolvedFilterView,
    method: Method,
    route: Seq<SegmentView>,
) -> bool {
    exists|path: Seq<char>| #[trigger]
        path_fits(route, path) && !filter.logs(method, request_segments(path))
}

/// A route reported as conditional: some requests to it are logged and others are not, unless the
/// patterns that overlap it only in part cover it together.
///
/// Where a skipped pattern overlaps the route in part, some request is not logged. Where a shown
/// one does too and none shows the whole route, whether any request is logged is left open: the
/// skipped patterns may take just what the shown ones let through.
pub proof fn law_conditional_is_request_dependent(
    filter: ResolvedFilterView,
    method: Method,
    route: Seq<SegmentView>,
)
    requires
        trailing_ends(route),
        literals_fit(route),
        forall|i: int|
            0 <= i < filter.shown.len() ==> literals_fit((#[trigger] filter.shown[i]).segments),
        forall|i: int|
            0 <= i < filter.skipped.len() ==> literals_fit((#[trigger] filter.skipped[i]).segments),
        filter.classification(method, route) is Conditional,
    ensures
        any_covers(filter.skipped, method, route, Coverage::Partial) ==> leaves_some_unlogged(
            filter,
            method,
            route,
        ),
        filter.shows_all(method, route) ==> (logs_some(filter, method, route)
            && leaves_some_unlogged(filter, method, route) <==> leaves_a_length(
            filter.skipped,
            method,
            route,
        )),
        !any_covers(filter.skipped, method, route, Coverage::Partial) ==> (logs_some(
            filter,
            method,
            route,
        ) && leaves_some_unlogged(filter, method, route) <==> leaves_a_length(
            filter.shown,
            method,
            route,
        )),
{
    law_patterns_cover_a_route_length_by_length(filter.skipped, method, route);
    law_patterns_cover_a_route_length_by_length(filter.shown, method, route);
    if any_covers(filter.skipped, method, route, Coverage::Partial) {
        let k = choose|k: int|
            0 <= k < filter.skipped.len() && #[trigger] pattern_covers(
                filter.skipped[k],
                method,
                route,
            ) == Coverage::Partial;
        let path = lemma_partial_coverage_matches_some(filter.skipped[k].segments, route);
        assert(pattern_matches(filter.skipped[k], method, request_segments(path)));
        assert(!filter.logs(method, request_segments(path)));
    }
    if filter.shows_all(method, route) {
        assert forall|path: Seq<char>| #[trigger] path_fits(route, path) implies filter.eligible(
            method,
            request_segments(path),
        ) by {
            if filter.shown.len() > 0 {
                let k = choose|k: int|
                    0 <= k < filter.shown.len() && #[trigger] pattern_covers(
                        filter.shown[k],
                        method,
                        route,
                    ) == Coverage::Full;
                law_full_coverage_matches_every_request(
                    filter.shown[k].segments,
                    route,
                    request_segments(path),
                );
                assert(pattern_matches(filter.shown[k], method, request_segments(path)));
            }
        }
    } else if !any_covers(filter.skipped, method, route, Coverage::Partial) {
        assert forall|path: Seq<char>| #[trigger] path_fits(route, path) implies !any_matches(
            filter.skipped,
            method,
            request_segments(path),
        ) by {
            assert forall|i: int| 0 <= i < filter.skipped.len() implies !#[trigger] pattern_matches(
                filter.skipped[i],
                method,
                request_segments(path),
            ) by {
                lemma_uncovering_pattern_matches_nothing(
                    filter.skipped,
                    method,
                    route,
                    request_segments(path),
                    i,
                );
            }
        }
        let k = choose|k: int|
            0 <= k < filter.shown.len() && #[trigger] pattern_covers(filter.shown[k], method, route)
                == Coverage::Partial;
        let path = lemma_partial_coverage_matches_some(filter.shown[k].segments, route);
        assert(pattern_matches(filter.shown[k], method, request_segments(path)));
        assert(filter.logs(method, request_segments(path)));
    }
}

} // verus!
