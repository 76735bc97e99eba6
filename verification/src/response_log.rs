//! The fields that request code attaches to the automatic response log line.

use crate::text::same_text;
use vstd::prelude::*;

verus! {

/// A single field value, kept as a typed variant so numeric and boolean fields
/// survive to the output drain as JSON numbers and booleans rather than being
/// stringified.
#[derive(Debug)]
pub enum FieldValue {
    Str(String),
    I64(i64),
    U64(u64),
    /// A double-precision number, by its IEEE 754 bit pattern.
    F64(u64),
    Bool(bool),
    /// An explicit null. Distinct from a field that was never set, which is
    /// simply absent. Use `set_some` when you want absence instead of null.
    Null,
}

/// A [`FieldValue`], its text taken as the characters that it holds.
#[verifier::ext_equal]
pub enum FieldValueView {
    Str(Seq<char>),
    I64(i64),
    U64(u64),
    F64(u64),
    Bool(bool),
    Null,
}

impl View for FieldValue {
    type V = FieldValueView;

    open spec fn view(&self) -> FieldValueView {
        match self {
            FieldValue::Str(text) => FieldValueView::Str(text@),
            FieldValue::I64(number) => FieldValueView::I64(*number),
            FieldValue::U64(number) => FieldValueView::U64(*number),
            FieldValue::F64(bits) => FieldValueView::F64(*bits),
            FieldValue::Bool(flag) => FieldValueView::Bool(*flag),
            FieldValue::Null => FieldValueView::Null,
        }
    }
}

/// The bits of a double-precision number without its sign.
pub open spec fn float_magnitude(bits: u64) -> u64 {
    bits % 0x8000_0000_0000_0000
}

/// Whether two bit patterns are equal as numbers: not-a-number equals nothing, and the two zeros
/// equal each other.
pub open spec fn float_equal(a: u64, b: u64) -> bool {
    ||| a == b && float_magnitude(a) <= 0x7ff0_0000_0000_0000
    ||| float_magnitude(a) == 0 && float_magnitude(b) == 0
}

impl Clone for FieldValue {
    fn clone(&self) -> (copy: FieldValue)
        ensures
            copy == *self,
    {
        match self {
            FieldValue::Str(text) => FieldValue::Str(text.clone()),
            FieldValue::I64(number) => FieldValue::I64(*number),
            FieldValue::U64(number) => FieldValue::U64(*number),
            FieldValue::F64(bits) => FieldValue::F64(*bits),
            FieldValue::Bool(flag) => FieldValue::Bool(*flag),
            FieldValue::Null => FieldValue::Null,
        }
    }
}

impl PartialEq for FieldValue {
    fn eq(&self, other: &FieldValue) -> (same: bool) {
        match (self, other) {
            (FieldValue::Str(a), FieldValue::Str(b)) => *a == *b,
            (FieldValue::I64(a), FieldValue::I64(b)) => *a == *b,
            (FieldValue::U64(a), FieldValue::U64(b)) => *a == *b,
            (FieldValue::F64(a), FieldValue::F64(b)) => {
                let size: u64 = *a % 0x8000_0000_0000_0000;
                let other_size: u64 = *b % 0x8000_0000_0000_0000;
                (*a == *b && size <= 0x7ff0_0000_0000_0000) || (size == 0 && other_size == 0)
            },
            (FieldValue::Bool(a), FieldValue::Bool(b)) => *a == *b,
            (FieldValue::Null, FieldValue::Null) => true,
            _ => false,
        }
    }
}

impl vstd::std_specs::cmp::PartialEqSpecImpl for FieldValue {
    open spec fn obeys_eq_spec() -> bool {
        true
    }

    open spec fn eq_spec(&self, other: &FieldValue) -> bool {
        match (self@, other@) {
            (FieldValueView::F64(a), FieldValueView::F64(b)) => float_equal(a, b),
            _ => self@ == other@,
        }
    }
}

impl From<&str> for FieldValue {
    fn from(value: &str) -> (field: FieldValue)
        ensures
            field@ == FieldValueView::Str(value@),
    {
        FieldValue::Str(value.to_owned())
    }
}

impl vstd::std_specs::convert::FromSpecImpl<&str> for FieldValue {
    open spec fn obeys_from_spec() -> bool {
        false
    }

    open spec fn from_spec(value: &str) -> FieldValue {
        choose|field: FieldValue| field@ == FieldValueView::Str(value@)
    }
}

impl From<&String> for FieldValue {
    fn from(value: &String) -> (field: FieldValue) {
        FieldValue::Str(value.clone())
    }
}

impl vstd::std_specs::convert::FromSpecImpl<&String> for FieldValue {
    open spec fn obeys_from_spec() -> bool {
        true
    }

    open spec fn from_spec(value: &String) -> FieldValue {
        FieldValue::Str(*value)
    }
}

impl From<String> for FieldValue {
    fn from(value: String) -> (field: FieldValue) {
        FieldValue::Str(value)
    }
}

impl vstd::std_specs::convert::FromSpecImpl<String> for FieldValue {
    open spec fn obeys_from_spec() -> bool {
        true
    }

    open spec fn from_spec(value: String) -> FieldValue {
        FieldValue::Str(value)
    }
}

impl From<bool> for FieldValue {
    fn from(value: bool) -> (field: FieldValue) {
        FieldValue::Bool(value)
    }
}

impl vstd::std_specs::convert::FromSpecImpl<bool> for FieldValue {
    open spec fn obeys_from_spec() -> bool {
        true
    }

    open spec fn from_spec(value: bool) -> FieldValue {
        FieldValue::Bool(value)
    }
}

impl From<i8> for FieldValue {
    fn from(value: i8) -> (field: FieldValue) {
        FieldValue::I64(value as i64)
    }
}

impl vstd::std_specs::convert::FromSpecImpl<i8> for FieldValue {
    open spec fn obeys_from_spec() -> bool {
        true
    }

    open spec fn from_spec(value: i8) -> FieldValue {
        FieldValue::I64(value as i64)
    }
}

impl From<i16> for FieldValue {
    fn from(value: i16) -> (field: FieldValue) {
        FieldValue::I64(value as i64)
    }
}

impl vstd::std_specs::convert::FromSpecImpl<i16> for FieldValue {
    open spec fn obeys_from_spec() -> bool {
        true
    }

    open spec fn from_spec(value: i16) -> FieldValue {
        FieldValue::I64(value as i64)
    }
}

impl From<i32> for FieldValue {
    fn from(value: i32) -> (field: FieldValue) {
        FieldValue::I64(value as i64)
    }
}

impl vstd::std_specs::convert::FromSpecImpl<i32> for FieldValue {
    open spec fn obeys_from_spec() -> bool {
        true
    }

    open spec fn from_spec(value: i32) -> FieldValue {
        FieldValue::I64(value as i64)
    }
}

impl From<i64> for FieldValue {
    fn from(value: i64) -> (field: FieldValue) {
        FieldValue::I64(value)
    }
}

impl vstd::std_specs::convert::FromSpecImpl<i64> for FieldValue {
    open spec fn obeys_from_spec() -> bool {
        true
    }

    open spec fn from_spec(value: i64) -> FieldValue {
        FieldValue::I64(value)
    }
}

impl From<isize> for FieldValue {
    fn from(value: isize) -> (field: FieldValue) {
        FieldValue::I64(value as i64)
    }
}

impl vstd::std_specs::convert::FromSpecImpl<isize> for FieldValue {
    open spec fn obeys_from_spec() -> bool {
        true
    }

    open spec fn from_spec(value: isize) -> FieldValue {
        FieldValue::I64(value as i64)
    }
}

impl From<u8> for FieldValue {
    fn from(value: u8) -> (field: FieldValue) {
        FieldValue::U64(value as u64)
    }
}

impl vstd::std_specs::convert::FromSpecImpl<u8> for FieldValue {
    open spec fn obeys_from_spec() -> bool {
        true
    }

    open spec fn from_spec(value: u8) -> FieldValue {
        FieldValue::U64(value as u64)
    }
}

impl From<u16> for FieldValue {
    fn from(value: u16) -> (field: FieldValue) {
        FieldValue::U64(value as u64)
    }
}

impl vstd::std_specs::convert::FromSpecImpl<u16> for FieldValue {
    open spec fn obeys_from_spec() -> bool {
        true
    }

    open spec fn from_spec(value: u16) -> FieldValue {
        FieldValue::U64(value as u64)
    }
}

impl From<u32> for FieldValue {
    fn from(value: u32) -> (field: FieldValue) {
        FieldValue::U64(value as u64)
    }
}

impl vstd::std_specs::convert::FromSpecImpl<u32> for FieldValue {
    open spec fn obeys_from_spec() -> bool {
        true
    }

    open spec fn from_spec(value: u32) -> FieldValue {
        FieldValue::U64(value as u64)
    }
}

impl From<u64> for FieldValue {
    fn from(value: u64) -> (field: FieldValue) {
        FieldValue::U64(value)
    }
}

impl vstd::std_specs::convert::FromSpecImpl<u64> for FieldValue {
    open spec fn obeys_from_spec() -> bool {
        true
    }

    open spec fn from_spec(value: u64) -> FieldValue {
        FieldValue::U64(value)
    }
}

impl From<usize> for FieldValue {
    fn from(value: usize) -> (field: FieldValue) {
        FieldValue::U64(value as u64)
    }
}

impl vstd::std_specs::convert::FromSpecImpl<usize> for FieldValue {
    open spec fn obeys_from_spec() -> bool {
        true
    }

    open spec fn from_spec(value: usize) -> FieldValue {
        FieldValue::U64(value as u64)
    }
}

/// A field of a log line: its key and its value.
pub type Field = (&'static str, FieldValue);

/// A [`Field`], its texts taken as the characters that they hold.
pub type FieldView = (Seq<char>, FieldValueView);

/// The fields that the values stand for.
pub open spec fn fields_of(fields: Seq<Field>) -> Seq<FieldView> {
    fields.map_values(|field: Field| (field.0@, field.1@))
}

/// Where `key` first stands among the fields: behind all of them where it does not.
pub open spec fn position(fields: Seq<FieldView>, key: Seq<char>) -> nat
    decreases fields.len(),
{
    if fields.len() == 0 || fields[0].0 == key {
        0
    } else {
        1 + position(fields.drop_first(), key)
    }
}

/// The value that the fields hold for `key`.
pub open spec fn lookup(fields: Seq<FieldView>, key: Seq<char>) -> Option<FieldValueView> {
    let at = position(fields, key);
    if at < fields.len() {
        Some(fields[at as int].1)
    } else {
        None
    }
}

/// The fields with `value` under `key`: in place of the value that stood there, or else behind
/// all other fields.
pub open spec fn with_field(fields: Seq<FieldView>, key: Seq<char>, value: FieldValueView) -> Seq<
    FieldView,
> {
    let at = position(fields, key);
    if at < fields.len() {
        fields.update(at as int, (key, value))
    } else {
        fields.push((key, value))
    }
}

/// Whether no key stands twice among the fields.
pub open spec fn keys_are_distinct(fields: Seq<FieldView>) -> bool {
    forall|i: int, j: int|
        0 <= i < j < fields.len() ==> (#[trigger] fields[i]).0 != (#[trigger] fields[j]).0
}

/// The key does not stand before its position, and stands there.
pub proof fn lemma_position(fields: Seq<FieldView>, key: Seq<char>)
    ensures
        position(fields, key) <= fields.len(),
        forall|i: int| 0 <= i < position(fields, key) ==> (#[trigger] fields[i]).0 != key,
        position(fields, key) < fields.len() ==> fields[position(fields, key) as int].0 == key,
    decreases fields.len(),
{
    if fields.len() > 0 && fields[0].0 != key {
        let rest = fields.drop_first();
        lemma_position(rest, key);
        assert forall|i: int| 0 <= i < position(fields, key) implies (#[trigger] fields[i]).0
            != key by {
            if i > 0 {
                assert(rest[i - 1] == fields[i]);
            }
        }
        if position(fields, key) < fields.len() {
            assert(fields[position(fields, key) as int] == rest[position(rest, key) as int]);
        }
    }
}

/// Where a key stands is settled by where it first stands.
proof fn lemma_position_is(fields: Seq<FieldView>, key: Seq<char>, at: nat)
    requires
        at <= fields.len(),
        forall|i: int| 0 <= i < at ==> (#[trigger] fields[i]).0 != key,
        at < fields.len() ==> fields[at as int].0 == key,
    ensures
        position(fields, key) == at,
{
    lemma_position(fields, key);
    let found = position(fields, key);
    if found < at {
        assert(fields[found as int].0 != key);
    }
    if at < found {
        assert(fields[at as int].0 != key);
    }
}

/// The last write for a key wins, and it touches no other key.
pub proof fn law_last_write_wins(
    fields: Seq<FieldView>,
    key: Seq<char>,
    value: FieldValueView,
    other: Seq<char>,
)
    ensures
        lookup(with_field(fields, key, value), key) == Some(value),
        other != key ==> lookup(with_field(fields, key, value), other) == lookup(fields, other),
{
    lemma_position(fields, key);
    lemma_position(fields, other);
    let after = with_field(fields, key, value);
    lemma_position_is(after, key, position(fields, key));
    if other != key {
        let at = position(fields, other);
        if at < fields.len() || position(fields, key) < fields.len() {
            lemma_position_is(after, other, at);
        } else {
            lemma_position_is(after, other, at + 1);
        }
    }
}

/// A second write for a key leaves nothing of the first.
pub proof fn law_second_write_replaces_the_first(
    fields: Seq<FieldView>,
    key: Seq<char>,
    first: FieldValueView,
    second: FieldValueView,
)
    ensures
        with_field(with_field(fields, key, first), key, second) == with_field(fields, key, second),
{
    lemma_position(fields, key);
    let after = with_field(fields, key, first);
    lemma_position_is(after, key, position(fields, key));
    assert(with_field(after, key, second) =~= with_field(fields, key, second));
}

/// Writing a field never makes a key stand twice, and keeps the order of the keys that were
/// there.
pub proof fn law_keys_stay_distinct_and_in_order(
    fields: Seq<FieldView>,
    key: Seq<char>,
    value: FieldValueView,
)
    requires
        keys_are_distinct(fields),
    ensures
        keys_are_distinct(with_field(fields, key, value)),
        fields.len() <= with_field(fields, key, value).len() <= fields.len() + 1,
        forall|i: int|
            0 <= i < fields.len() ==> (#[trigger] with_field(fields, key, value)[i]).0
                == fields[i].0,
{
    lemma_position(fields, key);
}

/// The fields that a history of writes leaves in a bag that was empty before.
pub open spec fn after_writes(writes: Seq<FieldView>) -> Seq<FieldView>
    decreases writes.len(),
{
    if writes.len() == 0 {
        Seq::empty()
    } else {
        with_field(after_writes(writes.drop_last()), writes.last().0, writes.last().1)
    }
}

/// The value of the last write to `key`, where there is one.
pub open spec fn last_written(writes: Seq<FieldView>, key: Seq<char>) -> Option<FieldValueView>
    decreases writes.len(),
{
    if writes.len() == 0 {
        None
    } else if writes.last().0 == key {
        Some(writes.last().1)
    } else {
        last_written(writes.drop_last(), key)
    }
}

/// A further write takes a bag from what its history left to what the longer history leaves.
pub proof fn law_a_write_extends_the_history(
    writes: Seq<FieldView>,
    key: Seq<char>,
    value: FieldValueView,
)
    ensures
        after_writes(Seq::empty()) == Seq::<FieldView>::empty(),
        with_field(after_writes(writes), key, value) == after_writes(writes.push((key, value))),
{
    assert(writes.push((key, value)).drop_last() == writes);
}

/// Where a key first stands does not change when something is appended; a key that was missing
/// stands at the end if it is what was appended.
proof fn lemma_position_after_push(writes: Seq<FieldView>, write: FieldView, key: Seq<char>)
    ensures
        position(writes, key) < writes.len() ==> position(writes.push(write), key) == position(
            writes,
            key,
        ),
        position(writes, key) == writes.len() && write.0 == key ==> position(
            writes.push(write),
            key,
        ) == writes.len(),
{
    lemma_position(writes, key);
    let at = position(writes, key);
    if at < writes.len() || write.0 == key {
        assert forall|i: int| 0 <= i < at implies (#[trigger] writes.push(write)[i]).0 != key by {
            assert(writes[i].0 != key);
        }
        lemma_position_is(writes.push(write), key, at);
    }
}

/// A key that was never written last was never written.
proof fn lemma_unwritten(writes: Seq<FieldView>, key: Seq<char>)
    requires
        last_written(writes, key) is None,
    ensures
        position(writes, key) == writes.len(),
    decreases writes.len(),
{
    if writes.len() > 0 {
        let shorter = writes.drop_last();
        lemma_unwritten(shorter, key);
        lemma_position(shorter, key);
        assert forall|i: int| 0 <= i < writes.len() implies (#[trigger] writes[i]).0 != key by {
            if i < shorter.len() {
                assert(shorter[i].0 != key);
            }
        }
    }
    lemma_position_is(writes, key, writes.len());
}

/// After any history of writes, no key stands twice, the keys stand in the order of their first
/// write, each holds the value of the last write to it, and no other key is there.
pub proof fn law_history_keeps_first_order_and_last_values(writes: Seq<FieldView>)
    ensures
        keys_are_distinct(after_writes(writes)),
        forall|i: int, j: int|
            #![trigger after_writes(writes)[i], after_writes(writes)[j]]
            0 <= i < j < after_writes(writes).len() ==> position(
                writes,
                after_writes(writes)[i].0,
            ) < position(writes, after_writes(writes)[j].0) < writes.len(),
        forall|i: int|
            0 <= i < after_writes(writes).len() ==> position(
                writes,
                (#[trigger] after_writes(writes)[i]).0,
            ) < writes.len(),
        forall|key: Seq<char>| #[trigger]
            lookup(after_writes(writes), key) == last_written(writes, key),
    decreases writes.len(),
{
    if writes.len() > 0 {
        let shorter = writes.drop_last();
        let (key, value) = writes.last();
        let before = after_writes(shorter);
        let after = after_writes(writes);
        assert(shorter.push((key, value)) == writes);
        law_history_keeps_first_order_and_last_values(shorter);
        law_keys_stay_distinct_and_in_order(before, key, value);
        lemma_position(before, key);
        if position(before, key) == before.len() {
            assert(lookup(before, key) is None);
            lemma_unwritten(shorter, key);
            lemma_position_after_push(shorter, (key, value), key);
        }
        assert forall|i: int| 0 <= i < before.len() implies (#[trigger] after[i]).0 == before[i].0
            && position(writes, after[i].0) == position(shorter, before[i].0) && position(
            shorter,
            before[i].0,
        ) < shorter.len() by {
            lemma_position_after_push(shorter, (key, value), before[i].0);
        }
        assert forall|i: int, j: int|
            #![trigger after[i], after[j]]
            0 <= i < j < after.len() implies position(writes, after[i].0) < position(
            writes,
            after[j].0,
        ) < writes.len() by {
            if j < before.len() {
                assert(position(shorter, before[i].0) < position(shorter, before[j].0));
            }
        }
        assert forall|i: int| 0 <= i < after.len() implies position(
            writes,
            (#[trigger] after[i]).0,
        ) < writes.len() by {}
        assert forall|other: Seq<char>| #[trigger]
            lookup(after, other) == last_written(writes, other) by {
            law_last_write_wins(before, key, value, other);
            assert(lookup(before, other) == last_written(shorter, other));
        }
    }
}

/// An owned snapshot of a [`ResponseLog`]: the accumulated fields, in the order in which their
/// keys were first set.
#[derive(Debug)]
pub struct ResponseLogSnapshot(pub Vec<Field>);

impl View for ResponseLogSnapshot {
    type V = Seq<FieldView>;

    open spec fn view(&self) -> Seq<FieldView> {
        fields_of(self.0@)
    }
}

impl Clone for ResponseLogSnapshot {
    fn clone(&self) -> (copy: ResponseLogSnapshot)
        ensures
            copy@ == self@,
    {
        let mut fields: Vec<Field> = Vec::new();
        let mut index: usize = 0;
        while index < self.0.len()
            invariant
                index <= self.0.len(),
                fields@ == self.0@.take(index as int),
            decreases self.0.len() - index,
        {
            fields.push((self.0[index].0, self.0[index].1.clone()));
            assert(fields@ == self.0@.take(index + 1));
            index = index + 1;
        }
        assert(self.0@.take(index as int) == self.0@);
        ResponseLogSnapshot(fields)
    }
}

impl ResponseLogSnapshot {
    /// A snapshot without fields.
    pub fn new() -> (snapshot: ResponseLogSnapshot)
        ensures
            snapshot@ == Seq::<FieldView>::empty(),
    {
        ResponseLogSnapshot(Vec::new())
    }

    /// Whether there are no fields.
    pub fn is_empty(&self) -> (empty: bool)
        ensures
            empty == (self@.len() == 0),
    {
        self.0.is_empty()
    }

    /// Records `value` under `key`, replacing any prior value for the same key.
    pub fn record(&mut self, key: &'static str, value: FieldValue)
        ensures
            final(self)@ == with_field(old(self)@, key@, value@),
    {
        let mut index: usize = 0;
        while index < self.0.len()
            invariant
                self.0 == old(self).0,
                index <= self.0.len(),
                forall|i: int| 0 <= i < index ==> (#[trigger] self@[i]).0 != key@,
            decreases self.0.len() - index,
        {
            assert(self@[index as int].0 == self.0[index as int].0@);
            if same_text(self.0[index].0, key) {
                proof {
                    lemma_position_is(self@, key@, index as nat);
                }
                self.0.set(index, (key, value));
                assert(self@ =~= with_field(old(self)@, key@, value@));
                return ;
            }
            index = index + 1;
        }
        proof {
            lemma_position_is(self@, key@, index as nat);
        }
        self.0.push((key, value));
        assert(self@ =~= with_field(old(self)@, key@, value@));
    }

    /// Records `value` under `key` where there is one; otherwise nothing changes.
    pub fn record_some(&mut self, key: &'static str, value: Option<FieldValue>)
        ensures
            final(self)@ == match value {
                Some(value) => with_field(old(self)@, key@, value@),
                None => old(self)@,
            },
    {
        if let Some(value) = value {
            self.record(key, value);
        }
    }
}

/// `From::from` of the standard library, from a type to itself: it returns its argument
/// unchanged. A [`FieldValue`] that is set as it stands goes through it.
pub assume_specification<T>[ <T as From<T>>::from ](t: T) -> (same: T)
    ensures
        same == t,
;

/// Whether `field` is what `value` converts to: each `From` of [`FieldValue`] in this module says
/// what that is, and a [`FieldValue`] converts to itself.
pub open spec fn converts_to<V: Into<FieldValue>>(value: V, field: FieldValue) -> bool {
    call_ensures(<V as Into<FieldValue>>::into, (value,), field)
}

/// A request-scoped bag of fields that the fairing merges onto the auto-emitted
/// "Response" log line. Unrelated layers accumulate fields without coordinating.
///
/// Fields only ever reach the Response line. The Request line is emitted before
/// routing, so it has already been written by the time a handler or guard runs.
#[derive(Debug)]
pub struct ResponseLog {
    inner: ResponseLogSnapshot,
}

impl View for ResponseLog {
    type V = Seq<FieldView>;

    closed spec fn view(&self) -> Seq<FieldView> {
        self.inner@
    }
}

impl ResponseLog {
    /// Record `value` under `key`, replacing any prior value for the same key
    /// so the last write wins. Pass a `Null` (via `FieldValue::Null`) to record
    /// an explicit null; pass nothing through `set_some` to leave the field
    /// absent.
    pub fn set<V: Into<FieldValue>>(&mut self, key: &'static str, value: V)
        ensures
            exists|field: FieldValue| #[trigger]
                converts_to(value, field) && final(self)@ == with_field(old(self)@, key@, field@),
            keys_are_distinct(old(self)@) ==> keys_are_distinct(final(self)@),
    {
        let field: FieldValue = value.into();
        assert(converts_to(value, field));
        proof {
            if keys_are_distinct(self@) {
                law_keys_stay_distinct_and_in_order(self@, key@, field@);
            }
        }
        self.inner.record(key, field);
    }

    /// Record `value` only when it is `Some`. A `None` records nothing, so the
    /// field is absent from the line rather than emitted as null.
    pub fn set_some<V: Into<FieldValue>>(&mut self, key: &'static str, value: Option<V>)
        ensures
            match value {
                Some(value) => exists|field: FieldValue| #[trigger]
                    converts_to(value, field) && final(self)@ == with_field(
                        old(self)@,
                        key@,
                        field@,
                    ),
                None => final(self)@ == old(self)@,
            },
            keys_are_distinct(old(self)@) ==> keys_are_distinct(final(self)@),
    {
        let field: Option<FieldValue> = match value {
            Some(value) => {
                let field: FieldValue = value.into();
                assert(converts_to(value, field));
                proof {
                    if keys_are_distinct(self@) {
                        law_keys_stay_distinct_and_in_order(self@, key@, field@);
                    }
                }
                Some(field)
            },
            None => None,
        };
        self.inner.record_some(key, field);
    }

    /// A point-in-time copy of the accumulated fields, used by the fairing to
    /// merge them onto the Response line.
    pub fn snapshot(&self) -> (snapshot: ResponseLogSnapshot)
        ensures
            snapshot@ == self@,
    {
        self.inner.clone()
    }
}

impl Default for ResponseLog {
    fn default() -> (log: ResponseLog)
        ensures
            log@ == Seq::<FieldView>::empty(),
    {
        ResponseLog { inner: ResponseLogSnapshot::new() }
    }
}

} // verus!
