//! What holds of patterns, route keys and the show and skip lists, said of the calls themselves.

use crate::filter::{
    any_covers, any_matches, clash, coverage, covers, fixed_len, keys_of, lemma_ends_with, lemma_fixed_len,
    listed_patterns, narrows, overlap_names, parsed, path_matches, pattern_covers, pattern_matches,
    pattern_of, patterns_of, request_matches, route_key, route_pattern, segment_matches,
    segment_meaning, AutoLog, Coverage, FilterPattern, FilterPatternView,
    ResolvedFilter, RouteKey, RouteKeyView, Segment, SegmentView,
};
use crate::filter_laws::path_fits;
use crate::http::{Method, RequestDetails, Route};
use crate::path::{request_segments, split_request};
use crate::route_keys;
use crate::text::{joined, texts, without_repeats};
use crate::text_laws::lemma_segments;
use crate::Slogger;
use vstd::prelude::*;

verus! {

/// Whether the one segment of a pattern is what `text` spells: `<` and `..>` make it trailing,
/// `<` and `>` dynamic, and everything else is a literal.
pub open spec fn is_spelled(segment: Segment, text: Seq<char>) -> bool {
    let last = text.len() - 1;
    let bracketed = text[0] == '<' && text[last] == '>';
    let dotted = last >= 2 && text[last - 1] == '.' && text[last - 2] == '.';
    match segment {
        Segment::Trailing => bracketed && dotted,
        Segment::Dynamic => bracketed && !dotted,
        Segment::Static(literal) => !bracketed && literal@ == text,
    }
}

/// Whether two segments are the same.
pub open spec fn same_segment(a: Segment, b: Segment) -> bool {
    match (a, b) {
        (Segment::Static(x), Segment::Static(y)) => x@ == y@,
        (Segment::Dynamic, Segment::Dynamic) => true,
        (Segment::Trailing, Segment::Trailing) => true,
        _ => false,
    }
}

/// A route path that is put together from two at a slash parses into the segments of both, in
/// their order. A path without slashes parses into the one segment that it spells, or into none
/// where it is empty.
pub proof fn law_route_paths_parse_segment_by_segment(
    front: &str,
    back: &str,
    whole: &str,
    first: Vec<Segment>,
    second: Vec<Segment>,
    all: Vec<Segment>,
)
    requires
        whole@ == front@.push('/') + back@,
        call_ensures(Segment::parse_path, (front,), first),
        call_ensures(Segment::parse_path, (back,), second),
        call_ensures(Segment::parse_path, (whole,), all),
    ensures
        all@.len() == first@.len() + second@.len(),
        forall|i: int| 0 <= i < first@.len() ==> same_segment(#[trigger] first@[i], all@[i]),
        forall|i: int|
            0 <= i < second@.len() ==> same_segment(
                #[trigger] second@[i],
                all@[first@.len() + i],
            ),
        !front@.contains('/') && front@.len() > 0 ==> first@.len() == 1 && is_spelled(
            first@[0],
            front@,
        ),
        front@.len() == 0 ==> first@.len() == 0,
{
    lemma_segments(front@, back@);
    let parsed_first = pattern_of(first@);
    let parsed_second = pattern_of(second@);
    let parsed_all = pattern_of(all@);
    assert(parsed_all =~= parsed_first + parsed_second);
    assert forall|i: int| 0 <= i < first@.len() implies same_segment(
        #[trigger] first@[i],
        all@[i],
    ) by {
        assert(parsed_first[i] == first@[i]@);
        assert(parsed_all[i] == all@[i]@);
        assert(parsed_all[i] == parsed_first[i]);
    }
    assert forall|i: int| 0 <= i < second@.len() implies same_segment(
        #[trigger] second@[i],
        all@[first@.len() + i],
    ) by {
        let at = first@.len() + i;
        assert(parsed_second[i] == second@[i]@);
        assert(parsed_all[at] == all@[at]@);
        assert(parsed_all[at] == parsed_second[i]);
    }
    if !front@.contains('/') && front@.len() > 0 {
        assert(parsed_first.len() == 1);
        assert(parsed_first[0] == first@[0]@);
        assert(parsed_first[0] == segment_meaning(front@));
        let short_end = seq!['>'];
        let long_end = seq!['.', '.', '>'];
        lemma_ends_with(front@, short_end);
        lemma_ends_with(front@, long_end);
        assert(short_end[0] == '>');
        assert(long_end[0] == '.' && long_end[1] == '.' && long_end[2] == '>');
    }
    if front@.len() == 0 {
        assert(parsed_first.len() == 0);
    }
}

/// Whether the segments of a request fit a pattern, taken one by one from the front: a trailing
/// segment takes all that is left, a dynamic one any one, a literal its own.
pub open spec fn fits(pattern: Seq<Segment>, request: Seq<Seq<char>>) -> bool
    decreases pattern.len(),
{
    if pattern.len() == 0 {
        request.len() == 0
    } else {
        match pattern[0] {
            Segment::Trailing => true,
            Segment::Dynamic => request.len() > 0 && fits(
                pattern.drop_first(),
                request.drop_first(),
            ),
            Segment::Static(literal) => request.len() > 0 && literal@ == request[0] && fits(
                pattern.drop_first(),
                request.drop_first(),
            ),
        }
    }
}

/// Matching by position and matching from the front agree.
proof fn lemma_fits(pattern: Seq<Segment>, request: Seq<Seq<char>>)
    ensures
        request_matches(pattern_of(pattern), request) == fits(pattern, request),
    decreases pattern.len(),
{
    let view = pattern_of(pattern);
    lemma_fixed_len(view);
    if pattern.len() > 0 {
        assert(view[0] == pattern[0]@);
        if !(pattern[0] is Trailing) {
            let rest = pattern.drop_first();
            let rest_view = pattern_of(rest);
            assert(view.drop_first() =~= rest_view);
            lemma_fixed_len(rest_view);
            if request.len() > 0 {
                let tail = request.drop_first();
                lemma_fits(rest, tail);
                if request_matches(view, request) {
                    assert(segment_matches(view[0], request[0]));
                    assert forall|i: int| 0 <= i < fixed_len(rest_view) implies segment_matches(
                        #[trigger] rest_view[i],
                        tail[i],
                    ) by {
                        assert(segment_matches(view[i + 1], request[i + 1]));
                    }
                }
                if fits(pattern, request) {
                    assert forall|i: int| 0 <= i < fixed_len(view) implies segment_matches(
                        #[trigger] view[i],
                        request[i],
                    ) by {
                        if i > 0 {
                            assert(segment_matches(rest_view[i - 1], tail[i - 1]));
                        }
                    }
                }
            }
        }
    }
}

/// A path matches a pattern exactly when its segments fit it one by one.
pub proof fn law_paths_match_segment_by_segment(
    pattern: &[Segment],
    path: &str,
    request: Vec<String>,
    matched: bool,
)
    requires
        call_ensures(split_request, (path,), request),
        call_ensures(path_matches, (pattern, path), matched),
    ensures
        matched == fits(pattern@, texts(request@)),
{
    lemma_fits(pattern@, request_segments(path@));
}

/// Whether a request with this method fits one of the patterns.
pub open spec fn fits_one(
    patterns: Seq<FilterPattern>,
    method: Method,
    request: Seq<Seq<char>>,
) -> bool {
    exists|i: int|
        0 <= i < patterns.len() && (#[trigger] patterns[i]).method == method && fits(
            patterns[i].segments@,
            request,
        )
}

/// Fitting one of the patterns is matching one of them.
proof fn lemma_fits_one(patterns: Seq<FilterPattern>, method: Method, request: Seq<Seq<char>>)
    ensures
        any_matches(patterns_of(patterns), method, request) == fits_one(patterns, method, request),
{
    let views = patterns_of(patterns);
    if any_matches(views, method, request) {
        let i = choose|i: int|
            0 <= i < views.len() && #[trigger] pattern_matches(views[i], method, request);
        assert(views[i] == patterns[i]@);
        lemma_fits(patterns[i].segments@, request);
    }
    if fits_one(patterns, method, request) {
        let i = choose|i: int|
            0 <= i < patterns.len() && (#[trigger] patterns[i]).method == method && fits(
                patterns[i].segments@,
                request,
            );
        assert(views[i] == patterns[i]@);
        lemma_fits(patterns[i].segments@, request);
        assert(pattern_matches(views[i], method, request));
    }
}

/// A request is logged exactly when it fits a shown pattern of its method, or nothing is shown,
/// and it fits no skipped pattern of its method.
pub proof fn law_shown_and_not_skipped_is_logged(
    filter: ResolvedFilter,
    method: Method,
    path: &str,
    request: Vec<String>,
    logged: bool,
)
    requires
        call_ensures(split_request, (path,), request),
        call_ensures(ResolvedFilter::should_log, (&filter, method, path), logged),
    ensures
        logged <==> (filter.shown@.len() == 0 || fits_one(
            filter.shown@,
            method,
            texts(request@),
        )) && !fits_one(filter.skipped@, method, texts(request@)),
{
    lemma_fits_one(filter.shown@, method, request_segments(path@));
    lemma_fits_one(filter.skipped@, method, request_segments(path@));
}

/// The decision on a request is the one on its method and its path.
pub proof fn law_requests_are_judged_by_method_and_path(
    filter: ResolvedFilter,
    request: RequestDetails,
    path: &str,
    decided: bool,
    logged: bool,
)
    requires
        path@ == request.path@,
        call_ensures(ResolvedFilter::filter_decision, (&filter, &request), decided),
        call_ensures(ResolvedFilter::should_log, (&filter, request.method, path), logged),
    ensures
        decided == logged,
{
}

/// Whether two texts that may be absent are the same.
pub open spec fn same_optional(a: Option<String>, b: Option<String>) -> bool {
    match (a, b) {
        (Some(x), Some(y)) => x@ == y@,
        (None, None) => true,
        _ => false,
    }
}

/// Whether two routes come from one handle: they answer the same method under the same name, and
/// their paths before mounting are the same.
pub open spec fn same_handle(a: Route, b: Route) -> bool {
    &&& a.method == b.method
    &&& same_optional(a.name, b.name)
    &&& a.unmounted@ == b.unmounted@
}

/// Whether a key is the key of a route.
pub open spec fn carries(route: Route, key: RouteKey) -> bool {
    &&& key.method == route.method
    &&& same_optional(key.name, route.name)
    &&& key.unmounted@ == route.unmounted@
}

/// The key of a route tells its method, its name and its path before mounting: routes with the
/// same key come from one handle, and routes from one handle have the same key.
pub proof fn law_route_keys_tell_handles_apart(
    a: Route,
    b: Route,
    key_of_a: RouteKey,
    key_of_b: RouteKey,
    same: bool,
)
    requires
        call_ensures(RouteKey::from_route, (&a,), key_of_a),
        call_ensures(RouteKey::from_route, (&b,), key_of_b),
        call_ensures(<RouteKey as PartialEq>::eq, (&key_of_a, &key_of_b), same),
    ensures
        carries(a, key_of_a),
        same <==> same_handle(a, b),
{
    lemma_carries(a, key_of_a);
    lemma_carries(b, key_of_a);
}

/// A key is that of a route exactly when their views agree.
proof fn lemma_carries(route: Route, key: RouteKey)
    ensures
        carries(route, key) <==> key@ == route_key(route),
{
}

/// A key is listed exactly when one of the keys is the same: in method, name and path.
pub proof fn law_listed_key_is_found(route: Route, key: RouteKey, keys: &[RouteKey], listed: bool)
    requires
        call_ensures(RouteKey::from_route, (&route,), key),
        call_ensures(RouteKey::is_listed, (&key, keys), listed),
    ensures
        listed <==> exists|i: int| 0 <= i < keys@.len() && carries(route, #[trigger] keys@[i]),
{
    lemma_listed(keys@, route);
}

/// The key of a route is among the keys exactly when one of them is its key.
proof fn lemma_listed(keys: Seq<RouteKey>, route: Route)
    ensures
        keys_of(keys).contains(route_key(route)) <==> exists|i: int|
            0 <= i < keys.len() && carries(route, #[trigger] keys[i]),
{
    if keys_of(keys).contains(route_key(route)) {
        let i = keys_of(keys).index_of(route_key(route));
        assert(keys_of(keys)[i] == keys[i]@);
        lemma_carries(route, keys[i]);
    }
    if exists|i: int| 0 <= i < keys.len() && carries(route, #[trigger] keys[i]) {
        let i = choose|i: int| 0 <= i < keys.len() && carries(route, #[trigger] keys[i]);
        lemma_carries(route, keys[i]);
        assert(keys_of(keys)[i] == keys[i]@);
    }
}

/// Whether a pattern is that of a mounted route: of its method, and of its path with the base that
/// it is mounted at.
pub open spec fn mirrors(pattern: FilterPattern, route: Route) -> bool {
    &&& pattern.method == route.method
    &&& pattern.display@ == route.path@
    &&& pattern_of(pattern.segments@) == parsed(route.path@)
}

/// One route more in the table adds its pattern where it is listed, and nothing where it is not.
proof fn lemma_listed_patterns_one_more(
    routes: Seq<Route>,
    route: Route,
    keys: Seq<RouteKeyView>,
)
    ensures
        listed_patterns(routes.push(route), keys) == if keys.contains(route_key(route)) {
            listed_patterns(routes, keys).push(route_pattern(route))
        } else {
            listed_patterns(routes, keys)
        },
{
    reveal(Seq::filter);
    assert(routes.push(route).drop_last() =~= routes);
    let keep = |r: Route| keys.contains(route_key(r));
    assert(listed_patterns(routes.push(route), keys) =~= if keys.contains(route_key(route)) {
        listed_patterns(routes, keys).push(route_pattern(route))
    } else {
        listed_patterns(routes, keys)
    });
}

/// Whether two lists of patterns are the same.
pub open spec fn same_patterns(a: Seq<FilterPattern>, b: Seq<FilterPattern>) -> bool {
    patterns_of(a) == patterns_of(b)
}

/// One mounted route more adds its pattern to the skipped ones exactly when a skipped key is its
/// key, and likewise to the shown ones. What the routes before it resolve to stays, in its order;
/// an empty route table resolves to nothing.
pub proof fn law_routes_resolve_one_by_one(
    routes: &[Route],
    more: &[Route],
    route: Route,
    show_keys: &[RouteKey],
    skip_keys: &[RouteKey],
    before: ResolvedFilter,
    after: ResolvedFilter,
)
    requires
        more@ == routes@.push(route),
        call_ensures(ResolvedFilter::resolve, (routes, show_keys, skip_keys), before),
        call_ensures(ResolvedFilter::resolve, (more, show_keys, skip_keys), after),
    ensures
        routes@.len() == 0 ==> before.shown@.len() == 0 && before.skipped@.len() == 0,
        if exists|i: int| 0 <= i < skip_keys@.len() && carries(route, #[trigger] skip_keys@[i]) {
            after.skipped@.len() == before.skipped@.len() + 1 && same_patterns(
                after.skipped@.drop_last(),
                before.skipped@,
            ) && mirrors(after.skipped@.last(), route)
        } else {
            same_patterns(after.skipped@, before.skipped@)
        },
        if exists|i: int| 0 <= i < show_keys@.len() && carries(route, #[trigger] show_keys@[i]) {
            after.shown@.len() == before.shown@.len() + 1 && same_patterns(
                after.shown@.drop_last(),
                before.shown@,
            ) && mirrors(after.shown@.last(), route)
        } else {
            same_patterns(after.shown@, before.shown@)
        },
{
    lemma_listed(skip_keys@, route);
    lemma_listed(show_keys@, route);
    lemma_listed_patterns_one_more(routes@, route, keys_of(skip_keys@));
    lemma_listed_patterns_one_more(routes@, route, keys_of(show_keys@));
    if routes@.len() == 0 {
        reveal(Seq::filter);
        assert(patterns_of(before.shown@).len() == 0);
        assert(patterns_of(before.skipped@).len() == 0);
    }
    if keys_of(skip_keys@).contains(route_key(route)) {
        lemma_last_pattern(before.skipped@, after.skipped@, route);
    }
    if keys_of(show_keys@).contains(route_key(route)) {
        lemma_last_pattern(before.shown@, after.shown@, route);
    }
}

/// Where the views of a list end in the pattern of a route, so does the list.
proof fn lemma_last_pattern(before: Seq<FilterPattern>, after: Seq<FilterPattern>, route: Route)
    requires
        patterns_of(after) == patterns_of(before).push(route_pattern(route)),
    ensures
        after.len() == before.len() + 1,
        same_patterns(after.drop_last(), before),
        mirrors(after.last(), route),
{
    assert(patterns_of(after).len() == before.len() + 1);
    assert(patterns_of(after).drop_last() =~= patterns_of(before));
    assert(patterns_of(after.drop_last()) =~= patterns_of(after).drop_last());
    assert(patterns_of(after)[before.len() as int] == after.last()@);
}

/// Whether one of the mounted routes that come from a listed handle answers this method at this
/// path.
pub open spec fn a_listed_route_answers(
    mounted: Seq<Route>,
    listed: Seq<Route>,
    method: Method,
    path: Seq<char>,
) -> bool {
    exists|i: int, j: int|
        0 <= i < mounted.len() && 0 <= j < listed.len() && #[trigger] same_handle(
            mounted[i],
            listed[j],
        ) && mounted[i].method == method && path_fits(parsed(mounted[i].path@), path)
}

/// A pattern of the listed routes matches exactly where a listed route answers.
proof fn lemma_listed_route_answers(
    mounted: Seq<Route>,
    listed: Seq<Route>,
    method: Method,
    path: Seq<char>,
)
    ensures
        any_matches(
            listed_patterns(mounted, route_keys(listed)),
            method,
            request_segments(path),
        ) <==> a_listed_route_answers(mounted, listed, method, path),
    decreases mounted.len(),
{
    let keys = route_keys(listed);
    let request = request_segments(path);
    if mounted.len() == 0 {
        reveal(Seq::filter);
        assert(listed_patterns(mounted, keys).len() == 0);
    } else {
        let shorter = mounted.drop_last();
        let last = mounted.last();
        assert(shorter.push(last) =~= mounted);
        lemma_listed_route_answers(shorter, listed, method, path);
        lemma_listed_patterns_one_more(shorter, last, keys);
        let before = listed_patterns(shorter, keys);
        let after = listed_patterns(mounted, keys);
        let hit = last.method == method && path_fits(parsed(last.path@), path);
        assert(keys.contains(route_key(last)) <==> exists|j: int|
            0 <= j < listed.len() && same_handle(last, #[trigger] listed[j])) by {
            if keys.contains(route_key(last)) {
                let j = keys.index_of(route_key(last));
                assert(keys[j] == route_key(listed[j]));
                assert(same_handle(last, listed[j]));
            }
            if exists|j: int| 0 <= j < listed.len() && same_handle(last, #[trigger] listed[j]) {
                let j = choose|j: int|
                    0 <= j < listed.len() && same_handle(last, #[trigger] listed[j]);
                assert(keys[j] == route_key(listed[j]));
                assert(route_key(listed[j]) == route_key(last));
            }
        }
        if any_matches(after, method, request) {
            let k = choose|k: int|
                0 <= k < after.len() && #[trigger] pattern_matches(after[k], method, request);
            if k < before.len() {
                assert(pattern_matches(before[k], method, request));
                let (i, j) = choose|i: int, j: int|
                    0 <= i < shorter.len() && 0 <= j < listed.len() && #[trigger] same_handle(
                        shorter[i],
                        listed[j],
                    ) && shorter[i].method == method && path_fits(parsed(shorter[i].path@), path);
                assert(same_handle(mounted[i], listed[j]));
            } else {
                let j = choose|j: int|
                    0 <= j < listed.len() && same_handle(last, #[trigger] listed[j]);
                assert(same_handle(mounted[mounted.len() - 1], listed[j]));
            }
        }
        if a_listed_route_answers(mounted, listed, method, path) {
            let (i, j) = choose|i: int, j: int|
                0 <= i < mounted.len() && 0 <= j < listed.len() && #[trigger] same_handle(
                    mounted[i],
                    listed[j],
                ) && mounted[i].method == method && path_fits(parsed(mounted[i].path@), path);
            if i < shorter.len() {
                assert(same_handle(shorter[i], listed[j]));
                let k = choose|k: int|
                    0 <= k < before.len() && #[trigger] pattern_matches(before[k], method, request);
                assert(after[k] == before[k]);
                assert(pattern_matches(after[k], method, request));
            } else {
                assert(same_handle(last, listed[j]));
                assert(pattern_matches(after[before.len() as int], method, request));
            }
        }
    }
}

/// With a skip list alone, a request is logged exactly when no mounted route that comes from a
/// skipped handle answers its method at its path. A route that differs from every skipped one in
/// method, name or path before mounting plays no part, and where it is mounted plays none either.
pub proof fn law_only_skipped_handles_are_skipped<L>(
    logger: L,
    skipped: Vec<Route>,
    mounted: &[Route],
    method: Method,
    path: &str,
    plain: Slogger<L>,
    slogger: Slogger<L>,
    resolved: ResolvedFilter,
    logged: bool,
)
    requires
        call_ensures(Slogger::<L>::from_logger, (logger,), plain),
        call_ensures(Slogger::<L>::skip_reqres_logs, (plain, skipped), slogger),
        call_ensures(Slogger::<L>::resolved_filter, (&slogger, mounted), resolved),
        call_ensures(ResolvedFilter::should_log, (&resolved, method, path), logged),
    ensures
        logged <==> !a_listed_route_answers(mounted@, skipped@, method, path@),
{
    assert(keys_of(plain.filter_skip@) =~= Seq::empty());
    assert(keys_of(slogger.filter_skip@) =~= route_keys(skipped@));
    lemma_listed_route_answers(mounted@, skipped@, method, path@);
    lemma_listed_route_answers(mounted@, Seq::empty(), method, path@);
    assert(keys_of(slogger.filter_show@) =~= Seq::empty());
    lemma_nothing_is_listed(mounted@);
}

/// Nothing is resolved where nothing is listed.
proof fn lemma_nothing_is_listed(mounted: Seq<Route>)
    ensures
        listed_patterns(mounted, Seq::empty()).len() == 0,
    decreases mounted.len(),
{
    if mounted.len() == 0 {
        reveal(Seq::filter);
    } else {
        lemma_nothing_is_listed(mounted.drop_last());
        lemma_listed_patterns_one_more(mounted.drop_last(), mounted.last(), Seq::empty());
        assert(mounted.drop_last().push(mounted.last()) =~= mounted);
    }
}

/// With a show list alone of which some handle is mounted, a request is logged exactly when a
/// mounted route that comes from a shown handle answers its method at its path.
pub proof fn law_only_shown_handles_are_shown<L>(
    logger: L,
    shown: Vec<Route>,
    mounted: &[Route],
    method: Method,
    path: &str,
    plain: Slogger<L>,
    slogger: Slogger<L>,
    resolved: ResolvedFilter,
    logged: bool,
)
    requires
        exists|i: int, j: int|
            0 <= i < mounted@.len() && 0 <= j < shown@.len() && #[trigger] same_handle(
                mounted@[i],
                shown@[j],
            ),
        call_ensures(Slogger::<L>::from_logger, (logger,), plain),
        call_ensures(Slogger::<L>::show_reqres_logs, (plain, shown), slogger),
        call_ensures(Slogger::<L>::resolved_filter, (&slogger, mounted), resolved),
        call_ensures(ResolvedFilter::should_log, (&resolved, method, path), logged),
    ensures
        logged <==> a_listed_route_answers(mounted@, shown@, method, path@),
{
    assert(keys_of(slogger.filter_show@) =~= route_keys(shown@));
    assert(keys_of(slogger.filter_skip@) =~= Seq::empty());
    lemma_listed_route_answers(mounted@, shown@, method, path@);
    lemma_nothing_is_listed(mounted@);
    let (i, j) = choose|i: int, j: int|
        0 <= i < mounted@.len() && 0 <= j < shown@.len() && #[trigger] same_handle(
            mounted@[i],
            shown@[j],
        );
    assert(route_keys(shown@)[j] == route_key(shown@[j]));
    assert(route_key(shown@[j]) == route_key(mounted@[i]));
    assert(route_keys(shown@).contains(route_key(mounted@[i])));
    lemma_some_is_listed(mounted@, route_keys(shown@), i);
}

/// Something is resolved where a mounted route is listed.
proof fn lemma_some_is_listed(mounted: Seq<Route>, keys: Seq<RouteKeyView>, i: int)
    requires
        0 <= i < mounted.len(),
        keys.contains(route_key(mounted[i])),
    ensures
        listed_patterns(mounted, keys).len() > 0,
    decreases mounted.len(),
{
    let shorter = mounted.drop_last();
    lemma_listed_patterns_one_more(shorter, mounted.last(), keys);
    assert(shorter.push(mounted.last()) =~= mounted);
    if i < shorter.len() {
        lemma_some_is_listed(shorter, keys, i);
    }
}

/// The lists grow by the handles that are given, in their order and behind those that are there;
/// each call leaves the logger, the other list and the header as they are.
pub proof fn law_lists_grow_by_the_given_routes<L>(
    before: Slogger<L>,
    routes: Vec<Route>,
    skipping: Slogger<L>,
    showing: Slogger<L>,
    i: int,
)
    requires
        call_ensures(Slogger::<L>::skip_reqres_logs, (before, routes), skipping),
        call_ensures(Slogger::<L>::show_reqres_logs, (before, routes), showing),
        0 <= i < routes@.len(),
    ensures
        skipping.filter_skip@.len() == before.filter_skip@.len() + routes@.len(),
        carries(routes@[i], skipping.filter_skip@[before.filter_skip@.len() + i]),
        skipping.filter_show == before.filter_show,
        skipping.logger == before.logger,
        skipping.emit_request_id_header == before.emit_request_id_header,
        showing.filter_show@.len() == before.filter_show@.len() + routes@.len(),
        carries(routes@[i], showing.filter_show@[before.filter_show@.len() + i]),
        showing.filter_skip == before.filter_skip,
        showing.logger == before.logger,
        showing.emit_request_id_header == before.emit_request_id_header,
        forall|k: int|
            0 <= k < before.filter_skip@.len() ==> (#[trigger] skipping.filter_skip@[k])@
                == before.filter_skip@[k]@,
        forall|k: int|
            0 <= k < before.filter_show@.len() ==> (#[trigger] showing.filter_show@[k])@
                == before.filter_show@[k]@,
{
    let added = route_keys(routes@);
    let skipped = keys_of(skipping.filter_skip@);
    let shown = keys_of(showing.filter_show@);
    assert(skipped.len() == before.filter_skip@.len() + routes@.len());
    assert(shown.len() == before.filter_show@.len() + routes@.len());
    let at_skip = before.filter_skip@.len() + i;
    let at_show = before.filter_show@.len() + i;
    assert(skipped[at_skip] == added[i]);
    assert(shown[at_show] == added[i]);
    assert(skipped[at_skip] == skipping.filter_skip@[at_skip]@);
    assert(shown[at_show] == showing.filter_show@[at_show]@);
    lemma_carries(routes@[i], skipping.filter_skip@[at_skip]);
    lemma_carries(routes@[i], showing.filter_show@[at_show]);
    assert forall|k: int| 0 <= k < before.filter_skip@.len() implies (
    #[trigger] skipping.filter_skip@[k])@ == before.filter_skip@[k]@ by {
        assert(skipped[k] == keys_of(before.filter_skip@)[k]);
    }
    assert forall|k: int| 0 <= k < before.filter_show@.len() implies (
    #[trigger] showing.filter_show@[k])@ == before.filter_show@[k]@ by {
        assert(shown[k] == keys_of(before.filter_show@)[k]);
    }
}

/// A wrapped logger starts without lists and without the header, and asking for the header changes
/// nothing else.
pub proof fn law_nothing_is_listed_unasked<L>(
    logger: L,
    plain: Slogger<L>,
    slogger: Slogger<L>,
    asked: Slogger<L>,
)
    requires
        call_ensures(Slogger::<L>::from_logger, (logger,), plain),
        call_ensures(Slogger::<L>::with_request_id_header, (slogger,), asked),
    ensures
        plain.logger == logger,
        plain.filter_show@.len() == 0,
        plain.filter_skip@.len() == 0,
        !plain.emit_request_id_header,
        asked.emit_request_id_header,
        asked.logger == slogger.logger,
        asked.filter_show == slogger.filter_show,
        asked.filter_skip == slogger.filter_skip,
{
}

/// Whether one of the patterns of this method covers the route in this way.
pub open spec fn one_covers(
    patterns: Seq<FilterPattern>,
    method: Method,
    route: Seq<SegmentView>,
    coverage: Coverage,
) -> bool {
    exists|i: int|
        0 <= i < patterns.len() && (#[trigger] patterns[i]).method == method && covers(
            pattern_of(patterns[i].segments@),
            route,
        ) == coverage
}

/// One of the patterns covering a route is one of their views covering it.
proof fn lemma_one_covers(
    patterns: Seq<FilterPattern>,
    method: Method,
    route: Seq<SegmentView>,
    coverage: Coverage,
)
    requires
        coverage != Coverage::Disjoint,
    ensures
        any_covers(patterns_of(patterns), method, route, coverage) == one_covers(
            patterns,
            method,
            route,
            coverage,
        ),
{
    let views = patterns_of(patterns);
    if any_covers(views, method, route, coverage) {
        let i = choose|i: int|
            0 <= i < views.len() && #[trigger] pattern_covers(views[i], method, route) == coverage;
        assert(views[i] == patterns[i]@);
        assert(patterns[i].method == method);
    }
    if one_covers(patterns, method, route, coverage) {
        let i = choose|i: int|
            0 <= i < patterns.len() && (#[trigger] patterns[i]).method == method && covers(
                pattern_of(patterns[i].segments@),
                route,
            ) == coverage;
        assert(views[i] == patterns[i]@);
        assert(pattern_covers(views[i], method, route) == coverage);
    }
}

/// The status of a route goes by the patterns of its method. It is never logged exactly when a
/// skipped one covers it fully or the shown ones do not touch it; of the others, those are always
/// logged of which nothing is skipped and which are shown fully, or nothing is shown. The rest is
/// conditional.
pub proof fn law_status_goes_by_coverage(
    filter: ResolvedFilter,
    method: Method,
    route: &[Segment],
    status: AutoLog,
)
    requires
        call_ensures(ResolvedFilter::classify, (&filter, method, route), status),
    ensures
        ({
            let target = pattern_of(route@);
            let shown_fully = one_covers(filter.shown@, method, target, Coverage::Full);
            let shown_partly = one_covers(filter.shown@, method, target, Coverage::Partial);
            let skipped_fully = one_covers(filter.skipped@, method, target, Coverage::Full);
            let skipped_partly = one_covers(filter.skipped@, method, target, Coverage::Partial);
            let all = filter.shown@.len() == 0 || shown_fully;
            match status {
                AutoLog::Never => skipped_fully || !all && !shown_partly,
                AutoLog::Always => !skipped_fully && all && !skipped_partly,
                AutoLog::Conditional { .. } => !skipped_fully && (all && skipped_partly || !all
                    && shown_partly),
            }
        }),
{
    let target = pattern_of(route@);
    lemma_one_covers(filter.shown@, method, target, Coverage::Full);
    lemma_one_covers(filter.shown@, method, target, Coverage::Partial);
    lemma_one_covers(filter.skipped@, method, target, Coverage::Full);
    lemma_one_covers(filter.skipped@, method, target, Coverage::Partial);
}

/// One pattern more adds its method and path to the names of the overlaps where it is of the method
/// and covers the route in part, and nothing where not.
pub proof fn law_overlaps_are_named_one_by_one(
    patterns: Seq<FilterPatternView>,
    pattern: FilterPatternView,
    method: Method,
    route: Seq<SegmentView>,
)
    ensures
        overlap_names(Seq::empty(), method, route) == Seq::<Seq<char>>::empty(),
        overlap_names(patterns.push(pattern), method, route) == if pattern.method == method
            && covers(pattern.segments, route) == Coverage::Partial {
            overlap_names(patterns, method, route).push(
                pattern.method.name() + " "@ + pattern.display,
            )
        } else {
            overlap_names(patterns, method, route)
        },
{
    reveal(Seq::filter);
    assert(patterns.push(pattern).drop_last() =~= patterns);
    assert(overlap_names(Seq::empty(), method, route) =~= Seq::empty());
    assert(overlap_names(patterns.push(pattern), method, route) =~= if pattern.method == method
        && covers(pattern.segments, route) == Coverage::Partial {
        overlap_names(patterns, method, route).push(pattern.method.name() + " "@ + pattern.display)
    } else {
        overlap_names(patterns, method, route)
    });
}

/// A conditional status names the overlaps of the skipped patterns, and behind them those of the
/// shown ones where these do not cover the whole route; each name once, where it first comes.
pub proof fn law_skipped_overlaps_are_named_first(
    filter: ResolvedFilter,
    method: Method,
    route: &[Segment],
    overlaps: Vec<String>,
)
    requires
        call_ensures(
            ResolvedFilter::classify,
            (&filter, method, route),
            AutoLog::Conditional { overlaps },
        ),
    ensures
        ({
            let target = pattern_of(route@);
            let skipped = overlap_names(patterns_of(filter.skipped@), method, target);
            let shown = overlap_names(patterns_of(filter.shown@), method, target);
            let all = filter.shown@.len() == 0 || one_covers(
                filter.shown@,
                method,
                target,
                Coverage::Full,
            );
            texts(overlaps@) == without_repeats(
                if all {
                    skipped
                } else {
                    skipped + shown
                },
            )
        }),
{
    lemma_one_covers(filter.shown@, method, pattern_of(route@), Coverage::Full);
}

/// The three statuses have their words, and only a conditional one names overlaps.
pub proof fn law_statuses_have_their_words(
    status: AutoLog,
    label: &'static str,
    field: Option<String>,
)
    requires
        call_ensures(AutoLog::label, (&status,), label),
        call_ensures(AutoLog::overlaps_field, (&status,), field),
    ensures
        label@ == "always"@ <==> status is Always,
        label@ == "never"@ <==> status is Never,
        label@ == "conditional"@ <==> status is Conditional,
        field is Some <==> status is Conditional,
        status matches AutoLog::Conditional { overlaps } ==> field->0@ == joined(
            texts(overlaps@),
            ", "@,
        ),
{
    reveal_strlit("always");
    reveal_strlit("never");
    reveal_strlit("conditional");
    assert("always"@.len() == 6 && "never"@.len() == 5 && "conditional"@.len() == 11);
}

/// The coverage of two patterns by that of what is behind their first segments.
proof fn lemma_coverage_step(filter: Seq<SegmentView>, route: Seq<SegmentView>)
    requires
        filter.len() > 0,
        route.len() > 0,
        !(filter[0] is Trailing),
        !(route[0] is Trailing),
    ensures
        covers(filter, route) == {
            let rest = covers(filter.drop_first(), route.drop_first());
            match (filter[0], route[0]) {
                (SegmentView::Static(x), SegmentView::Static(y)) => if x == y {
                    rest
                } else {
                    Coverage::Disjoint
                },
                (SegmentView::Static(_), SegmentView::Dynamic) => if rest == Coverage::Full {
                    Coverage::Partial
                } else {
                    rest
                },
                _ => rest,
            }
        },
{
    let f = filter.drop_first();
    let r = route.drop_first();
    lemma_fixed_len(filter);
    lemma_fixed_len(route);
    lemma_fixed_len(f);
    lemma_fixed_len(r);
    assert(fixed_len(filter) == fixed_len(f) + 1);
    assert(fixed_len(route) == fixed_len(r) + 1);
    let clashes = exists|i: int|
        0 <= i < fixed_len(filter) && i < fixed_len(route) && #[trigger] clash(filter[i], route[i]);
    let clashes_behind = exists|i: int|
        0 <= i < fixed_len(f) && i < fixed_len(r) && #[trigger] clash(f[i], r[i]);
    assert(clashes <==> clash(filter[0], route[0]) || clashes_behind) by {
        if clashes {
            let i = choose|i: int|
                0 <= i < fixed_len(filter) && i < fixed_len(route) && #[trigger] clash(
                    filter[i],
                    route[i],
                );
            if i > 0 {
                assert(clash(f[i - 1], r[i - 1]));
            }
        }
        if clashes_behind {
            let i = choose|i: int|
                0 <= i < fixed_len(f) && i < fixed_len(r) && #[trigger] clash(f[i], r[i]);
            assert(clash(filter[i + 1], route[i + 1]));
        }
    }
    let narrow = exists|i: int|
        0 <= i < fixed_len(filter) && #[trigger] narrows(filter[i], route[i]);
    let narrow_behind = exists|i: int| 0 <= i < fixed_len(f) && #[trigger] narrows(f[i], r[i]);
    if fixed_len(filter) <= fixed_len(route) {
        if narrow {
            let i = choose|i: int|
                0 <= i < fixed_len(filter) && #[trigger] narrows(filter[i], route[i]);
            if i > 0 {
                assert(narrows(f[i - 1], r[i - 1]));
            }
        }
        if narrow_behind {
            let i = choose|i: int| 0 <= i < fixed_len(f) && #[trigger] narrows(f[i], r[i]);
            assert(narrows(filter[i + 1], route[i + 1]));
        }
        assert(narrow <==> narrows(filter[0], route[0]) || narrow_behind);
    }
}

/// Coverage goes by the first segments and the coverage of what is behind them. A trailing filter
/// segment covers all that is left; a trailing route segment is covered in part by anything else,
/// and by an empty filter only where nothing is behind it. Two different literals have nothing in
/// common, and a literal covers a dynamic segment in part.
pub proof fn law_coverage_goes_segment_by_segment(
    filter: &[Segment],
    route: &[Segment],
    filter_rest: &[Segment],
    route_rest: &[Segment],
    found: Coverage,
    rest: Coverage,
)
    requires
        call_ensures(coverage, (filter, route), found),
        call_ensures(coverage, (filter_rest, route_rest), rest),
        filter@.len() > 0 ==> filter_rest@ == filter@.drop_first(),
        route@.len() > 0 ==> route_rest@ == route@.drop_first(),
    ensures
        if filter@.len() == 0 {
            found == if route@.len() == 0 {
                Coverage::Full
            } else if route@.len() == 1 && route@[0] is Trailing {
                Coverage::Partial
            } else {
                Coverage::Disjoint
            }
        } else if filter@[0] is Trailing {
            found == Coverage::Full
        } else if route@.len() == 0 {
            found == Coverage::Disjoint
        } else if route@[0] is Trailing {
            found == Coverage::Partial
        } else {
            match (filter@[0], route@[0]) {
                (Segment::Static(x), Segment::Static(y)) => if x@ == y@ {
                    found == rest
                } else {
                    found == Coverage::Disjoint
                },
                (Segment::Static(_), Segment::Dynamic) => if rest == Coverage::Full {
                    found == Coverage::Partial
                } else {
                    found == rest
                },
                _ => found == rest,
            }
        },
{
    let f = pattern_of(filter@);
    let r = pattern_of(route@);
    lemma_fixed_len(f);
    lemma_fixed_len(r);
    if filter@.len() > 0 {
        assert(f[0] == filter@[0]@);
        assert(f.drop_first() =~= pattern_of(filter_rest@));
    }
    if route@.len() > 0 {
        assert(r[0] == route@[0]@);
        assert(r.drop_first() =~= pattern_of(route_rest@));
    }
    if filter@.len() > 0 && route@.len() > 0 && !(filter@[0] is Trailing) && !(
    route@[0] is Trailing) {
        lemma_coverage_step(f, r);
    }
}

/// What the lists of a slogger resolve to is what its keys resolve to.
pub proof fn law_lists_resolve_as_their_keys<L>(
    slogger: Slogger<L>,
    routes: &[Route],
    show_keys: &[RouteKey],
    skip_keys: &[RouteKey],
    by_lists: ResolvedFilter,
    by_keys: ResolvedFilter,
)
    requires
        show_keys@ == slogger.filter_show@,
        skip_keys@ == slogger.filter_skip@,
        call_ensures(Slogger::<L>::resolved_filter, (&slogger, routes), by_lists),
        call_ensures(ResolvedFilter::resolve, (routes, show_keys, skip_keys), by_keys),
    ensures
        same_patterns(by_lists.shown@, by_keys.shown@),
        same_patterns(by_lists.skipped@, by_keys.skipped@),
{
}

/// Copies are what they were made from: segments, keys and statuses, and a slogger its lists and
/// its header.
pub proof fn law_copies_are_the_same<L: Clone>(
    segment: Segment,
    segment_copy: Segment,
    key: RouteKey,
    key_copy: RouteKey,
    status: AutoLog,
    status_copy: AutoLog,
    slogger: Slogger<L>,
    slogger_copy: Slogger<L>,
)
    ensures
        call_ensures(<Segment as Clone>::clone, (&segment,), segment_copy) ==> same_segment(
            segment,
            segment_copy,
        ),
        call_ensures(<RouteKey as Clone>::clone, (&key,), key_copy) ==> key_copy == key,
        call_ensures(<AutoLog as Clone>::clone, (&status,), status_copy) ==> match (
            status,
            status_copy,
        ) {
            (AutoLog::Always, AutoLog::Always) => true,
            (AutoLog::Never, AutoLog::Never) => true,
            (
                AutoLog::Conditional { overlaps },
                AutoLog::Conditional { overlaps: copied },
            ) => texts(overlaps@) == texts(copied@),
            _ => false,
        },
        call_ensures(<Slogger<L> as Clone>::clone, (&slogger,), slogger_copy) ==> cloned(
            slogger.logger,
            slogger_copy.logger,
        ) && slogger_copy.filter_show@ == slogger.filter_show@ && slogger_copy.filter_skip@
            == slogger.filter_skip@ && slogger_copy.emit_request_id_header
            == slogger.emit_request_id_header,
{
}

/// A slogger made from a logger is one that wraps it, without lists or header, and it stands for
/// its logger wherever one is asked for.
pub proof fn law_slogger_stands_for_its_logger<L: Clone>(
    logger: L,
    owned: Slogger<L>,
    borrowed: Slogger<L>,
    slogger: Slogger<L>,
    got: &L,
    dereferenced: &L,
)
    ensures
        call_ensures(<Slogger<L> as From<L>>::from, (logger,), owned) ==> owned.logger == logger
            && owned.filter_show@.len() == 0 && owned.filter_skip@.len() == 0
            && !owned.emit_request_id_header,
        call_ensures(<Slogger<L> as From<&L>>::from, (&logger,), borrowed) ==> cloned(
            logger,
            borrowed.logger,
        ) && borrowed.filter_show@.len() == 0 && borrowed.filter_skip@.len() == 0
            && !borrowed.emit_request_id_header,
        call_ensures(Slogger::<L>::get, (&slogger,), got) ==> *got == slogger.logger,
        call_ensures(<Slogger<L> as std::ops::Deref>::deref, (&slogger,), dereferenced)
            ==> *dereferenced == slogger.logger,
{
}

} // verus!
