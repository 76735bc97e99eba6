//! Splitting a path at its slashes.

use crate::text::{joined, texts};
use vstd::prelude::*;

verus! {

/// What lies between the slashes of `path`, empty pieces included: a path with `n` slashes has
/// `n + 1` pieces.
pub open spec fn pieces(path: Seq<char>) -> Seq<Seq<char>>
    decreases path.len(),
{
    if path.len() == 0 {
        seq![Seq::empty()]
    } else {
        let before = pieces(path.drop_last());
        if path.last() == '/' {
            before.push(Seq::empty())
        } else {
            before.drop_last().push(before.last().push(path.last()))
        }
    }
}

/// Whether a piece is a segment: empty pieces are not.
pub open spec fn is_segment(piece: Seq<char>) -> bool {
    piece.len() > 0
}

/// The segments of `path`: its pieces without the empty ones, which leading, trailing and
/// doubled slashes leave.
pub open spec fn segments_of(path: Seq<char>) -> Seq<Seq<char>> {
    pieces(path).filter(|piece: Seq<char>| is_segment(piece))
}

/// How many characters of `path` stand before its query: all of them where it has none.
pub open spec fn query_start(path: Seq<char>) -> nat
    decreases path.len(),
{
    if path.len() == 0 || path[0] == '?' {
        0
    } else {
        1 + query_start(path.drop_first())
    }
}

/// The segments of the path of a request: a query behind it plays no part.
pub open spec fn request_segments(path: Seq<char>) -> Seq<Seq<char>> {
    segments_of(path.take(query_start(path) as int))
}

/// A text that can be a segment of a path: not empty, and free of slashes.
pub open spec fn is_segment_text(text: Seq<char>) -> bool {
    &&& text.len() > 0
    &&& !text.contains('/')
}

/// The path with the given segments: each of them behind a slash.
pub open spec fn path_of(segments: Seq<Seq<char>>) -> Seq<char>
    decreases segments.len(),
{
    if segments.len() == 0 {
        Seq::empty()
    } else {
        path_of(segments.drop_last()).push('/') + segments.last()
    }
}

/// Splits `path` into its segments.
pub fn split_path(path: &str) -> (segments: Vec<String>)
    ensures
        texts(segments@) == segments_of(path@),
{
    let mut segments: Vec<String> = Vec::new();
    let mut current = String::new();
    proof {
        reveal(Seq::filter);
    }
    for c in it: path.chars()
        invariant
            it.seq() == path@,
            pieces(path@.take(it.index() as int)).len() > 0,
            current@ == pieces(path@.take(it.index() as int)).last(),
            texts(segments@) == pieces(path@.take(it.index() as int)).drop_last().filter(
                |piece: Seq<char>| is_segment(piece),
            ),
    {
        proof {
            reveal(Seq::filter);
            assert(path@.take(it.index() + 1).drop_last() == path@.take(it.index() as int));
            let before = pieces(path@.take(it.index() as int));
            assert(before.push(Seq::empty()).drop_last() == before);
            assert(before.drop_last().push(before.last().push(c)).drop_last() == before.drop_last());
        }
        if c == '/' {
            if !current.as_str().is_empty() {
                segments.push(current);
                assert(texts(segments@).drop_last() == texts(segments@.drop_last()));
            }
            current = String::new();
        } else {
            current.push(c);
        }
    }
    proof {
        reveal(Seq::filter);
        assert(path@.take(path@.len() as int) == path@);
    }
    if !current.as_str().is_empty() {
        segments.push(current);
    }
    segments
}

/// No question mark stands before the query, and one begins it.
proof fn lemma_query_start(path: Seq<char>)
    ensures
        query_start(path) <= path.len(),
        forall|i: int| 0 <= i < query_start(path) ==> #[trigger] path[i] != '?',
        query_start(path) < path.len() ==> path[query_start(path) as int] == '?',
    decreases path.len(),
{
    if path.len() > 0 && path[0] != '?' {
        let rest = path.drop_first();
        lemma_query_start(rest);
        assert forall|i: int| 0 <= i < query_start(path) implies #[trigger] path[i] != '?' by {
            if i > 0 {
                assert(rest[i - 1] == path[i]);
            }
        }
        if query_start(path) < path.len() {
            assert(path[query_start(path) as int] == rest[query_start(rest) as int]);
        }
    }
}

/// Where the query starts is settled by the first question mark.
proof fn lemma_query_start_is(path: Seq<char>, at: nat)
    requires
        at <= path.len(),
        forall|i: int| 0 <= i < at ==> #[trigger] path[i] != '?',
        at < path.len() ==> path[at as int] == '?',
    ensures
        query_start(path) == at,
{
    lemma_query_start(path);
    let found = query_start(path);
    if found < at {
        assert(path[found as int] != '?');
    }
    if at < found {
        assert(path[at as int] != '?');
    }
}

/// Splits the path of a request into its segments, without a query behind it.
pub fn split_request(path: &str) -> (segments: Vec<String>)
    ensures
        texts(segments@) == request_segments(path@),
{
    let mut part = String::new();
    let mut in_query = false;
    for c in it: path.chars()
        invariant
            it.seq() == path@,
            part@.len() <= it.index(),
            part@ == path@.take(part@.len() as int),
            forall|i: int| 0 <= i < part@.len() ==> #[trigger] part@[i] != '?',
            in_query ==> part@.len() < it.index() && path@[part@.len() as int] == '?',
            !in_query ==> part@.len() == it.index(),
    {
        if c == '?' {
            in_query = true;
        }
        if !in_query {
            let ghost before = part@;
            part.push(c);
            assert(part@ =~= path@.take(before.len() as int + 1));
        }
    }
    proof {
        assert forall|i: int| 0 <= i < part@.len() implies #[trigger] path@[i] != '?' by {
            assert(part@[i] == path@[i]);
        }
        lemma_query_start_is(path@, part@.len());
    }
    split_path(part.as_str())
}

/// A path without a query is left whole.
pub proof fn law_path_without_query_is_whole(path: Seq<char>)
    requires
        !path.contains('?'),
    ensures
        request_segments(path) == segments_of(path),
{
    assert forall|i: int| 0 <= i < path.len() implies #[trigger] path[i] != '?' by {
        assert(path.contains(path[i]));
    }
    lemma_query_start_is(path, path.len());
    assert(path.take(path.len() as int) == path);
}

/// A query behind a path plays no part in its segments.
pub proof fn law_query_is_ignored(path: Seq<char>, query: Seq<char>)
    requires
        !path.contains('?'),
    ensures
        request_segments(path.push('?') + query) == request_segments(path),
{
    let whole = path.push('?') + query;
    assert forall|i: int| 0 <= i < path.len() implies #[trigger] whole[i] != '?' by {
        assert(path.contains(path[i]));
    }
    lemma_query_start_is(whole, path.len());
    assert(whole.take(path.len() as int) == path);
    law_path_without_query_is_whole(path);
}

/// A path is its pieces with a slash between each two of them, and no piece holds a slash.
pub proof fn law_pieces_make_the_path(path: Seq<char>)
    ensures
        pieces(path).len() > 0,
        joined(pieces(path), seq!['/']) == path,
        forall|i: int| 0 <= i < pieces(path).len() ==> !(#[trigger] pieces(path)[i]).contains('/'),
    decreases path.len(),
{
    if path.len() > 0 {
        let shorter = path.drop_last();
        law_pieces_make_the_path(shorter);
        let before = pieces(shorter);
        let now = pieces(path);
        let slash = seq!['/'];
        if path.last() == '/' {
            assert(now.drop_last() == before);
            assert(joined(now, slash) == joined(before, slash) + slash + Seq::<char>::empty());
            assert(joined(now, slash) == path);
        } else {
            let piece = before.last().push(path.last());
            assert(now.drop_last() == before.drop_last());
            assert(joined(now, slash) == joined(before, slash).push(path.last()));
            assert(joined(now, slash) == path);
            assert(!piece.contains('/')) by {
                if piece.contains('/') {
                    let k = choose|k: int| 0 <= k < piece.len() && piece[k] == '/';
                    assert(before.last()[k] == '/');
                    assert(before[before.len() - 1].contains('/'));
                }
            }
        }
    }
}

/// What a filter keeps of a sequence satisfies the predicate and comes from the sequence.
pub proof fn lemma_filter_keeps<A>(elements: Seq<A>, keep: spec_fn(A) -> bool, i: int)
    requires
        0 <= i < elements.filter(keep).len(),
    ensures
        keep(elements.filter(keep)[i]),
        elements.contains(elements.filter(keep)[i]),
    decreases elements.len(),
{
    reveal(Seq::filter);
    let shorter = elements.drop_last();
    if i < shorter.filter(keep).len() {
        lemma_filter_keeps(shorter, keep, i);
        let k = choose|k: int| 0 <= k < shorter.len() && shorter[k] == shorter.filter(keep)[i];
        assert(elements[k] == elements.filter(keep)[i]);
    } else {
        assert(elements[elements.len() - 1] == elements.filter(keep)[i]);
    }
}

/// The segments of a path are never empty and never hold a slash.
pub proof fn law_segments_are_segment_texts(path: Seq<char>)
    ensures
        forall|i: int|
            0 <= i < segments_of(path).len() ==> is_segment_text(#[trigger] segments_of(path)[i]),
{
    law_pieces_make_the_path(path);
    let keep = |piece: Seq<char>| is_segment(piece);
    assert forall|i: int| 0 <= i < segments_of(path).len() implies is_segment_text(
        #[trigger] segments_of(path)[i],
    ) by {
        lemma_filter_keeps(pieces(path), keep, i);
    }
}

/// What does not stand in a path does not stand in its pieces.
proof fn lemma_pieces_hold_nothing_new(path: Seq<char>, c: char)
    requires
        !path.contains(c),
    ensures
        forall|i: int| 0 <= i < pieces(path).len() ==> !(#[trigger] pieces(path)[i]).contains(c),
    decreases path.len(),
{
    law_pieces_make_the_path(path);
    if path.len() > 0 {
        let shorter = path.drop_last();
        assert(path.contains(path.last()));
        assert(!shorter.contains(c)) by {
            if shorter.contains(c) {
                assert(path[shorter.index_of(c)] == c);
            }
        }
        lemma_pieces_hold_nothing_new(shorter, c);
        law_pieces_make_the_path(shorter);
        let before = pieces(shorter);
        assert(!before[before.len() - 1].contains(c));
        let piece = before.last().push(path.last());
        assert(!piece.contains(c)) by {
            if piece.contains(c) {
                let k = piece.index_of(c);
                assert(before.last()[k] == c);
            }
        }
    }
}

/// The segments of the path of a request are never empty and hold neither a slash nor a question
/// mark.
pub proof fn law_request_segments_are_free_of_queries(path: Seq<char>)
    ensures
        forall|i: int|
            0 <= i < request_segments(path).len() ==> is_segment_text(
                #[trigger] request_segments(path)[i],
            ) && !request_segments(path)[i].contains('?'),
{
    lemma_query_start(path);
    let part = path.take(query_start(path) as int);
    assert(!part.contains('?')) by {
        if part.contains('?') {
            assert(path[part.index_of('?')] == '?');
        }
    }
    law_segments_are_segment_texts(part);
    lemma_pieces_hold_nothing_new(part, '?');
    let keep = |piece: Seq<char>| is_segment(piece);
    assert forall|i: int| 0 <= i < request_segments(path).len() implies is_segment_text(
        #[trigger] request_segments(path)[i],
    ) && !request_segments(path)[i].contains('?') by {
        assert(is_segment_text(segments_of(part)[i]));
        lemma_filter_keeps(pieces(part), keep, i);
    }
}

/// What stands in no segment does not stand in their path, unless it is the slash.
proof fn lemma_path_of_holds_nothing_new(segments: Seq<Seq<char>>, c: char)
    requires
        c != '/',
        forall|i: int| 0 <= i < segments.len() ==> !(#[trigger] segments[i]).contains(c),
    ensures
        !path_of(segments).contains(c),
    decreases segments.len(),
{
    if segments.len() > 0 {
        let shorter = segments.drop_last();
        assert forall|i: int| 0 <= i < shorter.len() implies !(#[trigger] shorter[i]).contains(
            c,
        ) by {
            assert(shorter[i] == segments[i]);
        }
        lemma_path_of_holds_nothing_new(shorter, c);
        let path = path_of(shorter);
        let last = segments[segments.len() - 1];
        assert(!last.contains(c));
        if path_of(segments).contains(c) {
            let k = path_of(segments).index_of(c);
            if k < path.len() {
                assert(path[k] == c);
            } else if k > path.len() {
                assert(last[k - path.len() - 1] == c);
            }
        }
    }
}

/// Appending slash-free text to a path extends its last piece.
proof fn lemma_pieces_append(path: Seq<char>, text: Seq<char>)
    requires
        !text.contains('/'),
    ensures
        pieces(path).len() > 0,
        pieces(path + text) == pieces(path).drop_last().push(pieces(path).last() + text),
    decreases text.len(),
{
    law_pieces_make_the_path(path);
    if text.len() == 0 {
        assert(path + text == path);
        assert(pieces(path).last() + text == pieces(path).last());
        assert(pieces(path).drop_last().push(pieces(path).last()) == pieces(path));
    } else {
        let shorter = text.drop_last();
        assert(!shorter.contains('/')) by {
            if shorter.contains('/') {
                let k = choose|k: int| 0 <= k < shorter.len() && shorter[k] == '/';
                assert(text[k] == '/');
            }
        }
        lemma_pieces_append(path, shorter);
        assert((path + text).drop_last() == path + shorter);
        assert(text[text.len() - 1] != '/');
        let before = pieces(path + shorter);
        assert(before.drop_last() == pieces(path).drop_last());
        assert(before.last().push(text.last()) == pieces(path).last() + text);
    }
}

/// Writing segments as a path and splitting it gives the segments back.
pub proof fn law_split_undoes_path_of(segments: Seq<Seq<char>>)
    requires
        forall|i: int| 0 <= i < segments.len() ==> is_segment_text(#[trigger] segments[i]),
    ensures
        segments_of(path_of(segments)) == segments,
    decreases segments.len(),
{
    reveal(Seq::filter);
    let keep = |piece: Seq<char>| is_segment(piece);
    if segments.len() == 0 {
        reveal_with_fuel(Seq::filter, 2);
        assert(pieces(path_of(segments)).drop_last() == Seq::<Seq<char>>::empty());
        assert(segments_of(path_of(segments)) == segments);
    } else {
        let shorter = segments.drop_last();
        assert forall|i: int| 0 <= i < shorter.len() implies is_segment_text(
            #[trigger] shorter[i],
        ) by {
            assert(shorter[i] == segments[i]);
        }
        law_split_undoes_path_of(shorter);
        let path = path_of(shorter);
        let slashed = path.push('/');
        assert(slashed.drop_last() == path);
        assert(is_segment_text(segments[segments.len() - 1]));
        lemma_pieces_append(slashed, segments.last());
        assert(pieces(slashed) == pieces(path).push(Seq::empty()));
        assert(pieces(slashed).drop_last() == pieces(path));
        assert(Seq::<char>::empty() + segments.last() == segments.last());
        assert(pieces(slashed + segments.last()) == pieces(path).push(segments.last()));
        assert(pieces(slashed + segments.last()).drop_last() == pieces(path));
        assert(keep(segments.last()));
        assert(segments_of(slashed + segments.last()) == segments_of(path).push(segments.last()));
    }
}

/// Writing segments without question marks as the path of a request and splitting it gives the
/// segments back.
pub proof fn law_split_request_undoes_path_of(segments: Seq<Seq<char>>)
    requires
        forall|i: int|
            0 <= i < segments.len() ==> is_segment_text(#[trigger] segments[i])
                && !segments[i].contains('?'),
    ensures
        request_segments(path_of(segments)) == segments,
{
    lemma_path_of_holds_nothing_new(segments, '?');
    law_path_without_query_is_whole(path_of(segments));
    law_split_undoes_path_of(segments);
}

} // verus!
