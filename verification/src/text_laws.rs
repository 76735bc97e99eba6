//! What holds of joining, splitting and writing texts, said of the calls themselves.

use crate::path::{
    is_segment, law_path_without_query_is_whole, law_pieces_make_the_path, law_query_is_ignored,
    pieces, segments_of, split_path, split_request,
};
use crate::text::{
    decimal, decimal_text, digit_char, holds_text, join, remove_repeats, texts, without_repeats,
};
use vstd::prelude::*;

verus! {

/// Joining nothing gives nothing, joining one text gives it, and one text more adds the separator
/// and that text.
pub proof fn law_joining_one_more(
    parts: Vec<String>,
    more: Vec<String>,
    last: String,
    separator: &str,
    shorter: String,
    longer: String,
)
    requires
        more@ == parts@.push(last),
        call_ensures(join, (&parts, separator), shorter),
        call_ensures(join, (&more, separator), longer),
    ensures
        parts@.len() == 0 ==> shorter@ == Seq::<char>::empty() && longer@ == last@,
        parts@.len() > 0 ==> longer@ == shorter@ + separator@ + last@,
{
    assert(texts(more@).drop_last() =~= texts(parts@));
    assert(texts(more@).last() == last@);
}

/// Whether one of the strings holds `text`.
pub open spec fn holds(strings: Seq<String>, text: Seq<char>) -> bool {
    exists|i: int| 0 <= i < strings.len() && (#[trigger] strings[i])@ == text
}

/// Whether `text` stands among the strings before `other` does.
pub open spec fn stands_before(strings: Seq<String>, text: Seq<char>, other: Seq<char>) -> bool {
    exists|i: int|
        0 <= i < strings.len() && (#[trigger] strings[i])@ == text && forall|j: int|
            0 <= j <= i ==> (#[trigger] strings[j])@ != other
}

/// Whether `text` stands among all texts before `other` does.
spec fn comes_before(all: Seq<Seq<char>>, text: Seq<char>, other: Seq<char>) -> bool {
    exists|a: int|
        0 <= a < all.len() && #[trigger] all[a] == text && forall|b: int|
            0 <= b <= a ==> #[trigger] all[b] != other
}

/// What is kept of the texts: where the last one was not there before, it is kept behind the
/// others.
proof fn lemma_without_repeats_order(all: Seq<Seq<char>>)
    ensures
        forall|text: Seq<char>| #[trigger]
            without_repeats(all).contains(text) <==> all.contains(text),
        without_repeats(all).no_duplicates(),
        forall|i: int, j: int|
            #![trigger without_repeats(all)[i], without_repeats(all)[j]]
            0 <= i < j < without_repeats(all).len() ==> comes_before(
                all,
                without_repeats(all)[i],
                without_repeats(all)[j],
            ),
    decreases all.len(),
{
    if all.len() > 0 {
        let shorter = all.drop_last();
        let before = without_repeats(shorter);
        let kept = without_repeats(all);
        lemma_without_repeats_order(shorter);
        assert forall|text: Seq<char>| #[trigger] kept.contains(text) <==> all.contains(text) by {
            if all.contains(text) {
                let i = all.index_of(text);
                if i < shorter.len() {
                    assert(shorter[i] == text);
                    assert(before.contains(text));
                    assert(kept[before.index_of(text)] == text);
                } else if !before.contains(all.last()) {
                    assert(kept[before.len() as int] == text);
                }
            }
            if kept.contains(text) {
                let j = kept.index_of(text);
                if j < before.len() {
                    assert(before[j] == text);
                    assert(before.contains(text));
                    assert(shorter.contains(text));
                    assert(all[shorter.index_of(text)] == text);
                } else {
                    assert(all[all.len() - 1] == text);
                }
            }
        }
        assert forall|i: int, j: int|
            #![trigger kept[i], kept[j]]
            0 <= i < j < kept.len() implies comes_before(all, kept[i], kept[j]) by {
            if j < before.len() {
                assert(before[i] == kept[i] && before[j] == kept[j]);
                assert(comes_before(shorter, before[i], before[j]));
                let a = choose|a: int|
                    0 <= a < shorter.len() && #[trigger] shorter[a] == before[i] && forall|b: int|
                        0 <= b <= a ==> #[trigger] shorter[b] != before[j];
                assert(all[a] == kept[i]);
                assert forall|b: int| 0 <= b <= a implies #[trigger] all[b] != kept[j] by {
                    assert(shorter[b] == all[b]);
                }
            } else {
                assert(before[i] == kept[i]);
                assert(before.contains(kept[i]));
                assert(shorter.contains(kept[i]));
                let a = shorter.index_of(kept[i]);
                assert(all[a] == kept[i]);
                assert forall|b: int| 0 <= b <= a implies #[trigger] all[b] != kept[j] by {
                    if all[b] == kept[j] {
                        assert(shorter[b] == kept[j]);
                        assert(shorter.contains(kept[j]));
                        assert(before.contains(kept[j]));
                    }
                }
            }
        }
    }
}

/// Removing repeats keeps every text once, and in the order in which they first come.
pub proof fn law_repeats_are_removed(strings: Vec<String>, kept: Vec<String>, text: Seq<char>)
    requires
        call_ensures(remove_repeats, (strings,), kept),
    ensures
        holds(kept@, text) <==> holds(strings@, text),
        forall|i: int, j: int|
            0 <= i < j < kept@.len() ==> (#[trigger] kept@[i])@ != (#[trigger] kept@[j])@,
        forall|i: int, j: int|
            0 <= i < j < kept@.len() ==> stands_before(
                strings@,
                (#[trigger] kept@[i])@,
                (#[trigger] kept@[j])@,
            ),
{
    let all = texts(strings@);
    let left = texts(kept@);
    lemma_without_repeats_order(all);
    if holds(kept@, text) {
        let i = choose|i: int| 0 <= i < kept@.len() && (#[trigger] kept@[i])@ == text;
        assert(left[i] == text);
        assert(left.contains(text));
        assert(all.contains(text));
        assert(strings@[all.index_of(text)]@ == text);
    }
    if holds(strings@, text) {
        let i = choose|i: int| 0 <= i < strings@.len() && (#[trigger] strings@[i])@ == text;
        assert(all[i] == text);
        assert(all.contains(text));
        assert(left.contains(text));
        assert(kept@[left.index_of(text)]@ == text);
    }
    assert forall|i: int, j: int| 0 <= i < j < kept@.len() implies (#[trigger] kept@[i])@
        != (#[trigger] kept@[j])@ by {
        assert(left[i] != left[j]);
    }
    assert forall|i: int, j: int| 0 <= i < j < kept@.len() implies stands_before(
        strings@,
        (#[trigger] kept@[i])@,
        (#[trigger] kept@[j])@,
    ) by {
        assert(left[i] == kept@[i]@ && left[j] == kept@[j]@);
        assert(comes_before(all, left[i], left[j]));
        let a = choose|a: int|
            0 <= a < all.len() && #[trigger] all[a] == left[i] && forall|b: int|
                0 <= b <= a ==> #[trigger] all[b] != left[j];
        assert(strings@[a]@ == kept@[i]@);
        assert forall|b: int| 0 <= b <= a implies (#[trigger] strings@[b])@ != kept@[j]@ by {
            assert(all[b] == strings@[b]@);
        }
    }
}

/// A text is found among the strings exactly when one of them holds it.
pub proof fn law_held_text_is_found(strings: Vec<String>, text: String, found: bool)
    requires
        call_ensures(holds_text, (&strings, &text), found),
    ensures
        found <==> holds(strings@, text@),
{
    if found {
        let i = texts(strings@).index_of(text@);
        assert(strings@[i]@ == text@);
    }
    if holds(strings@, text@) {
        let i = choose|i: int| 0 <= i < strings@.len() && (#[trigger] strings@[i])@ == text@;
        assert(texts(strings@)[i] == text@);
    }
}

/// The number that decimal digits spell.
pub open spec fn decimal_value(text: Seq<char>) -> int
    decreases text.len(),
{
    if text.len() == 0 {
        0
    } else {
        decimal_value(text.drop_last()) * 10 + (text.last() as int - '0' as int)
    }
}

/// The decimal digits of a number spell it, without a zero in front.
proof fn lemma_decimal(number: nat)
    ensures
        decimal_value(decimal(number)) == number,
        decimal(number).len() > 0,
        number > 0 ==> decimal(number)[0] != '0',
        number < 10 ==> decimal(number).len() == 1,
        forall|i: int|
            0 <= i < decimal(number).len() ==> '0' <= #[trigger] decimal(number)[i]
                && decimal(number)[i] <= '9',
    decreases number,
{
    let text = decimal(number);
    let last = digit_char((number % 10) as int);
    assert(last as int == '0' as int + number % 10);
    if number < 10 {
        assert(text.drop_last() =~= Seq::empty());
        assert(decimal_value(text.drop_last()) == 0);
    } else {
        lemma_decimal(number / 10);
        assert(text.drop_last() =~= decimal(number / 10));
        assert(text.last() == last);
    }
}

/// A number in decimal is made of digits, which spell the number, and has no zero in front.
pub proof fn law_decimal_text_spells_the_number(number: u64, text: String)
    requires
        call_ensures(decimal_text, (number,), text),
    ensures
        decimal_value(text@) == number,
        text@.len() > 0,
        number > 0 ==> text@[0] != '0',
        number < 10 ==> text@.len() == 1,
        forall|i: int|
            0 <= i < text@.len() ==> '0' <= #[trigger] text@[i] && text@[i] <= '9',
{
    lemma_decimal(number as nat);
}

/// The pieces of a path that is put together from two at a slash are those of both.
proof fn lemma_pieces_at_a_slash(front: Seq<char>, back: Seq<char>)
    ensures
        pieces(front.push('/') + back) == pieces(front) + pieces(back),
    decreases back.len(),
{
    law_pieces_make_the_path(front);
    law_pieces_make_the_path(back);
    let whole = front.push('/') + back;
    if back.len() == 0 {
        assert(whole =~= front.push('/'));
        assert(whole.drop_last() =~= front);
        assert(pieces(whole) =~= pieces(front) + pieces(back));
    } else {
        let shorter = back.drop_last();
        lemma_pieces_at_a_slash(front, shorter);
        law_pieces_make_the_path(shorter);
        assert(whole.drop_last() =~= front.push('/') + shorter);
        assert(whole.last() == back.last());
        assert(pieces(whole) =~= pieces(front) + pieces(back));
    }
}

/// Filtering two sequences one behind the other filters each of them.
proof fn lemma_filter_both<A>(front: Seq<A>, back: Seq<A>, keep: spec_fn(A) -> bool)
    ensures
        (front + back).filter(keep) == front.filter(keep) + back.filter(keep),
    decreases back.len(),
{
    reveal(Seq::filter);
    if back.len() == 0 {
        assert(front + back =~= front);
        assert(front.filter(keep) + back.filter(keep) =~= front.filter(keep));
    } else {
        let shorter = back.drop_last();
        lemma_filter_both(front, shorter, keep);
        assert((front + back).drop_last() =~= front + shorter);
        assert((front + back).last() == back.last());
        assert((front + back).filter(keep) =~= front.filter(keep) + back.filter(keep));
    }
}

/// The segments of a path that is put together from two at a slash are those of both, and a text
/// without slashes is its own segment where it is not empty.
pub proof fn lemma_segments(front: Seq<char>, back: Seq<char>)
    ensures
        segments_of(front.push('/') + back) == segments_of(front) + segments_of(back),
        !front.contains('/') ==> segments_of(front) == if front.len() == 0 {
            Seq::empty()
        } else {
            seq![front]
        },
{
    let keep = |piece: Seq<char>| is_segment(piece);
    lemma_pieces_at_a_slash(front, back);
    lemma_filter_both(pieces(front), pieces(back), keep);
    if !front.contains('/') {
        lemma_one_piece(front);
        reveal_with_fuel(Seq::filter, 2);
        assert(pieces(front) =~= seq![front]);
        assert(pieces(front).drop_last() =~= Seq::empty());
        assert(pieces(front).last() == front);
        assert(segments_of(front) =~= if front.len() == 0 {
            Seq::empty()
        } else {
            seq![front]
        });
    }
}

/// A text without slashes is its own only piece.
proof fn lemma_one_piece(text: Seq<char>)
    requires
        !text.contains('/'),
    ensures
        pieces(text) == seq![text],
    decreases text.len(),
{
    if text.len() > 0 {
        let shorter = text.drop_last();
        assert(text.contains(text.last()));
        assert(!shorter.contains('/')) by {
            if shorter.contains('/') {
                assert(text[shorter.index_of('/')] == '/');
            }
        }
        lemma_one_piece(shorter);
        assert(pieces(shorter).drop_last() =~= Seq::empty());
        assert(shorter.push(text.last()) =~= text);
        assert(pieces(text) =~= seq![text]);
    } else {
        assert(text =~= Seq::empty());
        assert(pieces(text) =~= seq![text]);
    }
}

/// A path that is put together from two at a slash splits into the segments of both, in their
/// order, and a path without slashes into itself, or into nothing where it is empty.
pub proof fn law_paths_split_at_slashes(
    front: &str,
    back: &str,
    whole: &str,
    first: Vec<String>,
    second: Vec<String>,
    all: Vec<String>,
)
    requires
        whole@ == front@.push('/') + back@,
        call_ensures(split_path, (front,), first),
        call_ensures(split_path, (back,), second),
        call_ensures(split_path, (whole,), all),
    ensures
        all@.len() == first@.len() + second@.len(),
        forall|i: int| 0 <= i < first@.len() ==> (#[trigger] all@[i])@ == first@[i]@,
        forall|i: int|
            0 <= i < second@.len() ==> (#[trigger] second@[i])@ == all@[first@.len() + i]@,
        !front@.contains('/') && front@.len() > 0 ==> first@.len() == 1 && first@[0]@ == front@,
        front@.len() == 0 ==> first@.len() == 0,
{
    lemma_segments(front@, back@);
    assert(texts(all@).len() == texts(first@).len() + texts(second@).len());
    assert forall|i: int| 0 <= i < first@.len() implies (#[trigger] all@[i])@ == first@[i]@ by {
        assert(texts(all@)[i] == texts(first@)[i]);
    }
    assert forall|i: int| 0 <= i < second@.len() implies (#[trigger] second@[i])@ == all@[
    first@.len() + i]@ by {
        assert(texts(second@)[i] == texts(all@)[first@.len() + i]);
    }
    if !front@.contains('/') && front@.len() > 0 {
        assert(texts(first@)[0] == front@);
    }
    if front@.len() == 0 {
        assert(texts(first@).len() == 0);
    }
}

/// The path of a request splits as the path does, whatever query stands behind it.
pub proof fn law_requests_split_without_their_query(
    path: &str,
    with_query: &str,
    query: Seq<char>,
    plain: Vec<String>,
    first: Vec<String>,
    second: Vec<String>,
)
    requires
        !path@.contains('?'),
        with_query@ == path@.push('?') + query,
        call_ensures(split_path, (path,), plain),
        call_ensures(split_request, (path,), first),
        call_ensures(split_request, (with_query,), second),
    ensures
        first@.len() == plain@.len(),
        second@.len() == plain@.len(),
        forall|i: int|
            0 <= i < plain@.len() ==> (#[trigger] plain@[i])@ == first@[i]@ && plain@[i]@
                == second@[i]@,
{
    law_path_without_query_is_whole(path@);
    law_query_is_ignored(path@, query);
    assert(texts(first@).len() == texts(plain@).len());
    assert(texts(second@).len() == texts(plain@).len());
    assert forall|i: int| 0 <= i < plain@.len() implies (#[trigger] plain@[i])@ == first@[i]@
        && plain@[i]@ == second@[i]@ by {
        assert(texts(plain@)[i] == texts(first@)[i]);
        assert(texts(plain@)[i] == texts(second@)[i]);
    }
}

} // verus!
