use rocket_slogger::response_log::{FieldValue, ResponseLog};

fn is_send_and_sync<Value: Send + Sync + 'static>(_value: &Value) -> bool {
    true
}

#[test]
fn response_logs_cross_threads() {
    assert!(is_send_and_sync(&ResponseLog::default()));
}

#[test]
fn test_integer_converts_to_typed_i64() {
    assert_eq!(
        FieldValue::from(-7_i32),
        FieldValue::I64(-7),
        "I expect a signed integer to convert to a typed I64, not a string"
    );
}

#[test]
fn test_unsigned_converts_to_typed_u64() {
    assert_eq!(
        FieldValue::from(42_u16),
        FieldValue::U64(42),
        "I expect an unsigned integer to convert to a typed U64"
    );
}

#[test]
fn test_bool_converts_to_typed_bool() {
    assert_eq!(
        FieldValue::from(true),
        FieldValue::Bool(true),
        "I expect a bool to convert to a typed Bool"
    );
}

#[test]
fn test_set_then_snapshot_carries_the_field() {
    let mut log = ResponseLog::default();
    log.set("user_id", "abc");
    let snapshot = log.snapshot();
    assert_eq!(
        snapshot.0,
        vec![("user_id", FieldValue::Str("abc".to_owned()))],
        "I expect a set field to appear in the snapshot"
    );
}

#[test]
fn test_set_replaces_prior_value_for_same_key() {
    let mut log = ResponseLog::default();
    log.set("count", 1_i64);
    log.set("count", 2_i64);
    let snapshot = log.snapshot();
    assert_eq!(
        snapshot.0,
        vec![("count", FieldValue::I64(2))],
        "I expect the last write for a key to win and not duplicate the key"
    );
}

#[test]
fn test_set_some_with_none_records_nothing() {
    let mut log = ResponseLog::default();
    log.set_some("tenant", None::<String>);
    assert!(
        log.snapshot().is_empty(),
        "I expect set_some(None) to leave the field absent"
    );
}

#[test]
fn test_set_some_with_value_records_it() {
    let mut log = ResponseLog::default();
    log.set_some("tenant", Some(99_u64));
    let snapshot = log.snapshot();
    assert_eq!(
        snapshot.0,
        vec![("tenant", FieldValue::U64(99))],
        "I expect set_some(Some) to record the field"
    );
}

#[test]
fn an_explicit_null_is_recorded_as_it_stands() {
    let mut log = ResponseLog::default();
    log.set("plan", FieldValue::Null);
    log.set_some("seats", Some(FieldValue::U64(3)));
    assert_eq!(
        log.snapshot().0,
        vec![("plan", FieldValue::Null), ("seats", FieldValue::U64(3))]
    );
}

#[test]
fn values_keep_their_kind() {
    assert_eq!(FieldValue::from("a"), FieldValue::Str("a".to_owned()));
    assert_eq!(
        FieldValue::from("b".to_string()),
        FieldValue::Str("b".to_owned())
    );
    assert_eq!(
        FieldValue::from(&"c".to_string()),
        FieldValue::Str("c".to_owned())
    );
    assert_eq!(FieldValue::from(i8::MIN), FieldValue::I64(-128));
    assert_eq!(FieldValue::from(i16::MIN), FieldValue::I64(-32_768));
    assert_eq!(FieldValue::from(i64::MIN), FieldValue::I64(i64::MIN));
    assert_eq!(FieldValue::from(-5_isize), FieldValue::I64(-5));
    assert_eq!(FieldValue::from(u8::MAX), FieldValue::U64(255));
    assert_eq!(FieldValue::from(u32::MAX), FieldValue::U64(4_294_967_295));
    assert_eq!(FieldValue::from(u64::MAX), FieldValue::U64(u64::MAX));
    assert_eq!(FieldValue::from(5_usize), FieldValue::U64(5));
    assert_ne!(FieldValue::from(5_u64), FieldValue::from(5_i64));
    assert_ne!(FieldValue::from("true"), FieldValue::from(true));
    assert_ne!(FieldValue::Null, FieldValue::from(""));
}

#[test]
fn numbers_with_a_fraction_compare_as_numbers() {
    let number = |value: f64| FieldValue::F64(value.to_bits());
    let values = [
        0.0,
        -0.0,
        1.5,
        -1.5,
        f64::MIN_POSITIVE,
        f64::INFINITY,
        f64::NEG_INFINITY,
        f64::NAN,
        -f64::NAN,
    ];
    for a in values {
        for b in values {
            assert_eq!(number(a) == number(b), a == b, "I expect {a} and {b} to agree");
        }
    }
}

#[test]
fn fields_keep_the_order_of_their_first_write() {
    let mut log = ResponseLog::default();
    log.set("a", 1_i64);
    log.set("b", true);
    log.set("c", FieldValue::Null);
    log.set("a", "last");
    log.set_some("d", Some("present"));
    log.set_some("b", None::<bool>);
    let fields = log.snapshot();
    assert_eq!(
        fields.0,
        vec![
            ("a", FieldValue::Str("last".to_owned())),
            ("b", FieldValue::Bool(true)),
            ("c", FieldValue::Null),
            ("d", FieldValue::Str("present".to_owned())),
        ]
    );
    assert_eq!(fields.clone().0, fields.0);

    let mut snapshot = fields;
    snapshot.record("b", FieldValue::U64(2));
    snapshot.record_some("e", None);
    snapshot.record_some("e", Some(FieldValue::I64(3)));
    assert_eq!(snapshot.0[1], ("b", FieldValue::U64(2)));
    assert_eq!(snapshot.0[4], ("e", FieldValue::I64(3)));
    assert_eq!(
        log.snapshot().0.len(),
        4,
        "I expect a snapshot to be a copy of its own"
    );
}

#[test]
fn layers_accumulate_fields_in_one_log() {
    fn guard(log: &mut ResponseLog) {
        log.set("user", "ada");
    }
    fn handler(log: &mut ResponseLog) {
        log.set("rows", 3_u64);
        log.set("user", "grace");
    }
    let mut log = ResponseLog::default();
    guard(&mut log);
    handler(&mut log);
    assert_eq!(
        log.snapshot().0,
        vec![
            ("user", FieldValue::Str("grace".to_owned())),
            ("rows", FieldValue::U64(3)),
        ]
    );
    assert!(
        ResponseLog::default().snapshot().is_empty(),
        "I expect a new log to have no fields"
    );
    assert!(format!("{log:?}").contains("grace"));
}
