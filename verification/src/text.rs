//! Text: what the strings of this crate hold, said over sequences of characters.

use vstd::prelude::*;

verus! {

/// `String::push` of the standard library appends the given character to the string.
pub assume_specification[ String::push ](s: &mut String, c: char)
    ensures
        final(s)@ == old(s)@.push(c),
;

/// `==` of the standard library on string slices: `true` exactly when both hold the same
/// characters.
#[verifier::external_body]
pub(crate) fn same_text(a: &str, b: &str) -> (same: bool)
    ensures
        same == (a@ == b@),
{
    a == b
}

/// The characters of each of the strings.
pub open spec fn texts(strings: Seq<String>) -> Seq<Seq<char>> {
    strings.map_values(|s: String| s@)
}

/// The characters of an optional string.
pub open spec fn optional_text(s: Option<String>) -> Option<Seq<char>> {
    match s {
        Some(s) => Some(s@),
        None => None,
    }
}

/// The parts one after the other, with `separator` between each two of them.
pub open spec fn joined(parts: Seq<Seq<char>>, separator: Seq<char>) -> Seq<char>
    decreases parts.len(),
{
    if parts.len() == 0 {
        Seq::empty()
    } else if parts.len() == 1 {
        parts[0]
    } else {
        joined(parts.drop_last(), separator) + separator + parts.last()
    }
}

/// Joins the strings with `separator` between each two of them.
pub fn join(parts: &Vec<String>, separator: &str) -> (text: String)
    ensures
        text@ == joined(texts(parts@), separator@),
{
    let mut text = String::new();
    let mut index: usize = 0;
    while index < parts.len()
        invariant
            index <= parts.len(),
            text@ == joined(texts(parts@).take(index as int), separator@),
        decreases parts.len() - index,
    {
        let ghost before = texts(parts@).take(index as int);
        let ghost after = texts(parts@).take(index + 1);
        assert(after.drop_last() == before);
        if index > 0 {
            text.append(separator);
        }
        text.append(parts[index].as_str());
        assert(index == 0 ==> text@ == parts[0]@);
        index = index + 1;
    }
    assert(texts(parts@).take(index as int) == texts(parts@));
    text
}

/// Whether one of the strings holds the characters `text`.
pub fn holds_text(strings: &Vec<String>, text: &String) -> (found: bool)
    ensures
        found == texts(strings@).contains(text@),
{
    let mut index: usize = 0;
    while index < strings.len()
        invariant
            index <= strings.len(),
            forall|i: int| 0 <= i < index ==> #[trigger] texts(strings@)[i] != text@,
        decreases strings.len() - index,
    {
        assert(texts(strings@)[index as int] == strings[index as int]@);
        if strings[index] == *text {
            return true;
        }
        index = index + 1;
    }
    false
}

/// The texts in their order, each only where it comes first.
pub open spec fn without_repeats(texts: Seq<Seq<char>>) -> Seq<Seq<char>>
    decreases texts.len(),
{
    if texts.len() == 0 {
        Seq::empty()
    } else {
        let before = without_repeats(texts.drop_last());
        if before.contains(texts.last()) {
            before
        } else {
            before.push(texts.last())
        }
    }
}

/// Keeps each string once, where it comes first.
pub fn remove_repeats(strings: Vec<String>) -> (kept: Vec<String>)
    ensures
        texts(kept@) == without_repeats(texts(strings@)),
{
    let mut kept: Vec<String> = Vec::new();
    for text in it: strings
        invariant
            texts(kept@) == without_repeats(texts(it.seq()).take(it.index() as int)),
    {
        proof {
            let all = texts(it.seq());
            assert(all.take(it.index() + 1).drop_last() == all.take(it.index() as int));
            assert(all[it.index() as int] == text@);
        }
        let ghost before = kept@;
        if !holds_text(&kept, &text) {
            kept.push(text);
            assert(texts(kept@) == texts(before).push(text@));
        }
    }
    assert(texts(strings@).take(strings@.len() as int) == texts(strings@));
    kept
}

/// The character of a digit: `0` to `9`, then `a` to `f`.
pub open spec fn digit_char(digit: int) -> char {
    if digit < 10 {
        ('0' as int + digit) as char
    } else {
        ('a' as int + (digit - 10)) as char
    }
}

/// `number` in decimal, without leading zeros.
pub open spec fn decimal(number: nat) -> Seq<char>
    decreases number,
{
    if number < 10 {
        seq![digit_char(number as int)]
    } else {
        decimal(number / 10).push(digit_char((number % 10) as int))
    }
}

/// Writes `number` in decimal.
pub fn decimal_text(number: u64) -> (text: String)
    ensures
        text@ == decimal(number as nat),
    decreases number,
{
    let mut text = if number < 10 {
        String::new()
    } else {
        decimal_text(number / 10)
    };
    let digit: u8 = (number % 10) as u8;
    text.push((48u8 + digit) as char);
    text
}

} // verus!
