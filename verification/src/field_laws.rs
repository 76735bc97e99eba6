//! What holds of field values and of the bag that collects them, said of the calls themselves.

use crate::response_log::{
    converts_to, fields_of, lemma_position, position, with_field, FieldValue, FieldView,
    ResponseLog, ResponseLogSnapshot,
};
use vstd::prelude::*;

verus! {

/// Whether a field value is the number `number`, whichever of the two kinds of number it is.
pub open spec fn is_number(field: FieldValue, number: int) -> bool {
    match field {
        FieldValue::I64(value) => value == number,
        FieldValue::U64(value) => value == number,
        _ => false,
    }
}

/// Whether a field value is the text `text`.
pub open spec fn is_text(field: FieldValue, text: Seq<char>) -> bool {
    field matches FieldValue::Str(value) && value@ == text
}

/// Whether a field value is the text that may be absent: null exactly where it is.
pub open spec fn is_optional_text(field: FieldValue, text: Option<String>) -> bool {
    match text {
        Some(text) => is_text(field, text@),
        None => field is Null,
    }
}

/// A boolean converts to a boolean, and to itself.
pub proof fn law_booleans_stay_booleans(value: bool, field: FieldValue)
    requires
        call_ensures(<FieldValue as From<bool>>::from, (value,), field),
    ensures
        field is Bool,
        field->Bool_0 == value,
        !(field is Null),
{
}

/// Different booleans convert to different fields.
pub proof fn law_booleans_are_told_apart(a: bool, b: bool, x: FieldValue, y: FieldValue)
    requires
        call_ensures(<FieldValue as From<bool>>::from, (a,), x),
        call_ensures(<FieldValue as From<bool>>::from, (b,), y),
    ensures
        x == y <==> a == b,
{
}

/// Text converts to text with the same characters, however it is held.
pub proof fn law_texts_stay_texts(slice: &str, string: String, field: FieldValue)
    ensures
        call_ensures(<FieldValue as From<&str>>::from, (slice,), field) ==> is_text(field, slice@),
        call_ensures(<FieldValue as From<String>>::from, (string,), field) ==> is_text(
            field,
            string@,
        ),
        call_ensures(<FieldValue as From<&String>>::from, (&string,), field) ==> is_text(
            field,
            string@,
        ),
{
}

/// A signed integer of type `i8` converts to a number of that kind with its value.
pub proof fn law_i8_keeps_its_value(value: i8, field: FieldValue)
    requires
        call_ensures(<FieldValue as From<i8>>::from, (value,), field),
    ensures
        field is I64,
        is_number(field, value as int),
{
}

/// A signed integer of type `i16` converts to a number of that kind with its value.
pub proof fn law_i16_keeps_its_value(value: i16, field: FieldValue)
    requires
        call_ensures(<FieldValue as From<i16>>::from, (value,), field),
    ensures
        field is I64,
        is_number(field, value as int),
{
}

/// A signed integer of type `i32` converts to a number of that kind with its value.
pub proof fn law_i32_keeps_its_value(value: i32, field: FieldValue)
    requires
        call_ensures(<FieldValue as From<i32>>::from, (value,), field),
    ensures
        field is I64,
        is_number(field, value as int),
{
}

/// A signed integer of type `i64` converts to a number of that kind with its value.
pub proof fn law_i64_keeps_its_value(value: i64, field: FieldValue)
    requires
        call_ensures(<FieldValue as From<i64>>::from, (value,), field),
    ensures
        field is I64,
        is_number(field, value as int),
{
}

/// A signed integer of type `isize` converts to a number of that kind with its value.
pub proof fn law_isize_keeps_its_value(value: isize, field: FieldValue)
    requires
        call_ensures(<FieldValue as From<isize>>::from, (value,), field),
    ensures
        field is I64,
        is_number(field, value as int),
{
}

/// An unsigned integer of type `u8` converts to a number of that kind with its value.
pub proof fn law_u8_keeps_its_value(value: u8, field: FieldValue)
    requires
        call_ensures(<FieldValue as From<u8>>::from, (value,), field),
    ensures
        field is U64,
        is_number(field, value as int),
{
}

/// An unsigned integer of type `u16` converts to a number of that kind with its value.
pub proof fn law_u16_keeps_its_value(value: u16, field: FieldValue)
    requires
        call_ensures(<FieldValue as From<u16>>::from, (value,), field),
    ensures
        field is U64,
        is_number(field, value as int),
{
}

/// An unsigned integer of type `u32` converts to a number of that kind with its value.
pub proof fn law_u32_keeps_its_value(value: u32, field: FieldValue)
    requires
        call_ensures(<FieldValue as From<u32>>::from, (value,), field),
    ensures
        field is U64,
        is_number(field, value as int),
{
}

/// An unsigned integer of type `u64` converts to a number of that kind with its value.
pub proof fn law_u64_keeps_its_value(value: u64, field: FieldValue)
    requires
        call_ensures(<FieldValue as From<u64>>::from, (value,), field),
    ensures
        field is U64,
        is_number(field, value as int),
{
}

/// An unsigned integer of type `usize` converts to a number of that kind with its value.
pub proof fn law_usize_keeps_its_value(value: usize, field: FieldValue)
    requires
        call_ensures(<FieldValue as From<usize>>::from, (value,), field),
    ensures
        field is U64,
        is_number(field, value as int),
{
}

/// Whether the bits are those of a double-precision number that is not a number.
pub open spec fn is_nan(bits: u64) -> bool {
    bits % 0x8000_0000_0000_0000 > 0x7ff0_0000_0000_0000
}

/// Fields are equal exactly where they are of one kind and hold the same: what is not a number
/// equals nothing, and the two zeros are one number.
pub proof fn law_fields_compare_by_kind_and_value(a: FieldValue, b: FieldValue, same: bool)
    requires
        call_ensures(<FieldValue as PartialEq>::eq, (&a, &b), same),
    ensures
        match (a, b) {
            (FieldValue::Str(x), FieldValue::Str(y)) => same <==> x@ == y@,
            (FieldValue::I64(x), FieldValue::I64(y)) => same <==> x == y,
            (FieldValue::U64(x), FieldValue::U64(y)) => same <==> x == y,
            (FieldValue::F64(x), FieldValue::F64(y)) => {
                &&& is_nan(x) || is_nan(y) ==> !same
                &&& x == y && !is_nan(x) ==> same
                &&& x % 0x8000_0000_0000_0000 != 0 && x != y ==> !same
                &&& x % 0x8000_0000_0000_0000 == 0 && y % 0x8000_0000_0000_0000 == 0 ==> same
            },
            (FieldValue::Bool(x), FieldValue::Bool(y)) => same <==> x == y,
            (FieldValue::Null, FieldValue::Null) => same,
            _ => !same,
        },
{
}

/// A copy of a field is the field.
pub proof fn law_copied_field_is_the_field(field: FieldValue, copy: FieldValue)
    requires
        call_ensures(<FieldValue as Clone>::clone, (&field,), copy),
    ensures
        copy == field,
{
}

/// Whether `after` is `before` with `value` written under `key`: in the first place where the key
/// stands, or behind everything where it does not. All else stays where it was.
pub open spec fn is_written(
    before: Seq<FieldView>,
    after: Seq<FieldView>,
    key: Seq<char>,
    value: FieldValue,
) -> bool {
    exists|at: int|
        {
            &&& 0 <= at < after.len()
            &&& #[trigger] after[at] == (key, value@)
            &&& forall|i: int| 0 <= i < at ==> (#[trigger] before[i]).0 != key
            &&& forall|i: int|
                0 <= i < before.len() && i != at ==> #[trigger] after[i] == before[i]
            &&& at < before.len() ==> before[at].0 == key && after.len() == before.len()
            &&& at >= before.len() ==> at == before.len() && after.len() == at + 1
        }
}

/// Recording a value puts it under its key, and nothing else changes.
pub proof fn law_recorded_field_is_there(
    fields: &mut ResponseLogSnapshot,
    key: &'static str,
    value: FieldValue,
)
    requires
        call_ensures(ResponseLogSnapshot::record, (fields, key, value), ()),
    ensures
        is_written(old(fields)@, final(fields)@, key@, value),
{
    let before = old(fields)@;
    let after = final(fields)@;
    lemma_position(before, key@);
    let at = position(before, key@) as int;
    assert(after[at] == (key@, value@));
}

/// Recording a value that may be absent records it where it is there, and changes nothing where it
/// is not.
pub proof fn law_absent_field_is_not_recorded(
    fields: &mut ResponseLogSnapshot,
    key: &'static str,
    value: Option<FieldValue>,
)
    requires
        call_ensures(ResponseLogSnapshot::record_some, (fields, key, value), ()),
    ensures
        match value {
            Some(value) => is_written(old(fields)@, final(fields)@, key@, value),
            None => final(fields)@ == old(fields)@,
        },
{
    if let Some(value) = value {
        let before = old(fields)@;
        let after = final(fields)@;
        lemma_position(before, key@);
        let at = position(before, key@) as int;
        assert(after[at] == (key@, value@));
    }
}

/// Setting a value puts what it converts to under its key, and nothing else changes.
pub proof fn law_set_field_is_there<V: Into<FieldValue>>(
    log: &mut ResponseLog,
    key: &'static str,
    value: V,
)
    requires
        call_ensures(ResponseLog::set::<V>, (log, key, value), ()),
    ensures
        exists|field: FieldValue| #[trigger]
            call_ensures(<V as Into<FieldValue>>::into, (value,), field) && is_written(
                old(log)@,
                final(log)@,
                key@,
                field,
            ),
{
    let before = old(log)@;
    let after = final(log)@;
    let field = choose|field: FieldValue| #[trigger]
        converts_to(value, field) && after
            == with_field(before, key@, field@);
    lemma_position(before, key@);
    let at = position(before, key@) as int;
    assert(after[at] == (key@, field@));
    assert(is_written(before, after, key@, field));
    assert(call_ensures(<V as Into<FieldValue>>::into, (value,), field));
}

/// Setting a value that may be absent sets it where it is there, and changes nothing where it is
/// not.
pub proof fn law_absent_field_is_not_set<V: Into<FieldValue>>(
    log: &mut ResponseLog,
    key: &'static str,
    value: Option<V>,
)
    requires
        call_ensures(ResponseLog::set_some::<V>, (log, key, value), ()),
    ensures
        match value {
            Some(value) => exists|field: FieldValue| #[trigger]
                call_ensures(<V as Into<FieldValue>>::into, (value,), field) && is_written(
                    old(log)@,
                    final(log)@,
                    key@,
                    field,
                ),
            None => final(log)@ == old(log)@,
        },
{
    if let Some(value) = value {
        let before = old(log)@;
        let after = final(log)@;
        let field = choose|field: FieldValue| #[trigger]
            converts_to(value, field) && after
                == with_field(before, key@, field@);
        lemma_position(before, key@);
        let at = position(before, key@) as int;
        assert(after[at] == (key@, field@));
        assert(is_written(before, after, key@, field));
        assert(call_ensures(<V as Into<FieldValue>>::into, (value,), field));
    }
}

/// A boolean that is set in an empty bag is all that its snapshot holds: the boolean itself.
pub proof fn law_set_boolean_is_in_the_snapshot(
    log: &mut ResponseLog,
    key: &'static str,
    value: bool,
    snapshot: ResponseLogSnapshot,
)
    requires
        call_ensures(<ResponseLog as Default>::default, (), *old(log)),
        call_ensures(ResponseLog::set::<bool>, (log, key, value), ()),
        call_ensures(ResponseLog::snapshot, (&*final(log),), snapshot),
    ensures
        snapshot.0@.len() == 1,
        snapshot.0@[0].0@ == key@,
        snapshot.0@[0].1 == FieldValue::Bool(value),
{
    law_set_field_is_there(log, key, value);
    let fields = snapshot.0@;
    assert(fields_of(fields)[0] == (fields[0].0@, fields[0].1@));
}

/// A new bag has no fields, and a snapshot has just those of its bag.
pub proof fn law_snapshot_holds_the_fields_of_its_bag(
    log: ResponseLog,
    snapshot: ResponseLogSnapshot,
    empty: bool,
)
    requires
        call_ensures(ResponseLog::snapshot, (&log,), snapshot),
        call_ensures(ResponseLogSnapshot::is_empty, (&snapshot,), empty),
    ensures
        snapshot.0@.len() == log@.len(),
        forall|i: int|
            0 <= i < log@.len() ==> (#[trigger] snapshot.0@[i]).0@ == log@[i].0
                && snapshot.0@[i].1@ == log@[i].1,
        empty <==> log@.len() == 0,
        call_ensures(<ResponseLog as Default>::default, (), log) ==> empty,
        call_ensures(ResponseLogSnapshot::new, (), snapshot) ==> empty,
{
    let fields = snapshot.0@;
    assert forall|i: int| 0 <= i < log@.len() implies (#[trigger] fields[i]).0@ == log@[i].0
        && fields[i].1@ == log@[i].1 by {
        assert(fields_of(fields)[i] == (fields[i].0@, fields[i].1@));
    }
}

/// A copy of a snapshot has the same fields.
pub proof fn law_copied_snapshot_has_the_same_fields(
    snapshot: ResponseLogSnapshot,
    copy: ResponseLogSnapshot,
)
    requires
        call_ensures(<ResponseLogSnapshot as Clone>::clone, (&snapshot,), copy),
    ensures
        copy@ == snapshot@,
{
}

} // verus!
