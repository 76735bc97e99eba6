use rocket_slogger::transaction::{
    RequestTransaction, TimeZone, Timestamp, FIRST_SECOND, LAST_SECOND,
};
use uuid::Uuid;

fn at(seconds: i64, nanoseconds: u32) -> Timestamp {
    Timestamp::new(seconds, nanoseconds, 0).expect("I expect a point in time")
}

fn received_at(received: Timestamp) -> RequestTransaction {
    RequestTransaction {
        id: 0x936da01f_9abd_4d9d_80c7_02af85c822a8,
        received,
    }
}

#[test]
fn test_id_as_string_round_trips_to_the_same_uuid() {
    let transaction = RequestTransaction::new();
    let rendered = transaction.id_as_string();
    let parsed = Uuid::parse_str(&rendered).expect("I expect the id string to be a valid UUID");
    assert_eq!(
        parsed.as_u128(),
        transaction.id,
        "I expect the rendered id to parse back to the original UUID"
    );
}

#[test]
fn test_received_as_string_is_valid_rfc3339() {
    let transaction = RequestTransaction::new();
    let rendered = transaction.received_as_string();
    chrono::DateTime::parse_from_rfc3339(&rendered)
        .expect("I expect the received timestamp to be valid RFC 3339");
}

#[test]
fn test_elapsed_ns_is_non_negative() {
    let transaction = RequestTransaction::new();
    let elapsed = transaction
        .elapsed_ns()
        .expect("I expect an elapsed nanosecond count");
    assert!(
        elapsed >= 0,
        "I expect elapsed time since creation to be non-negative, got {elapsed}"
    );
}

#[test]
fn test_received_is_utc_without_local_time_feature() {
    let transaction = RequestTransaction::new();
    let rendered = transaction.received_as_string();
    assert!(
        rendered.ends_with("+00:00"),
        "I expect a UTC offset on the received timestamp, got {rendered}"
    );
}

#[test]
fn id_is_written_in_lowercase_groups() {
    assert_eq!(
        received_at(at(0, 0)).id_as_string(),
        "936da01f-9abd-4d9d-80c7-02af85c822a8"
    );
    let zero = RequestTransaction {
        id: 0,
        received: at(0, 0),
    };
    assert_eq!(zero.id_as_string(), "00000000-0000-0000-0000-000000000000");
    let all = RequestTransaction {
        id: u128::MAX,
        received: at(0, 0),
    };
    assert_eq!(all.id_as_string(), "ffffffff-ffff-ffff-ffff-ffffffffffff");
}

#[test]
fn fresh_ids_are_random_uuids_and_differ() {
    let first = RequestTransaction::new();
    let second = RequestTransaction::default();
    let uuid = Uuid::from_u128(first.id);
    assert_eq!(uuid.get_version_num(), 4);
    assert_eq!(uuid.get_variant(), uuid::Variant::RFC4122);
    let text: Vec<char> = second.id_as_string().chars().collect();
    assert_eq!(text[14], '4');
    assert!("89ab".contains(text[19]));
    assert_ne!(first.id, second.id);
    assert_ne!(first.id_as_string(), second.id_as_string());
}

#[test]
fn received_is_written_with_its_offset() {
    assert_eq!(
        received_at(at(0, 0)).received_as_string(),
        "1970-01-01T00:00:00+00:00"
    );
    assert_eq!(
        received_at(at(1_678_853_375, 865_466_064)).received_as_string(),
        "2023-03-15T04:09:35.865466064+00:00"
    );
    let east = Timestamp::new(0, 500_000_000, 3_600).expect("I expect a point in time");
    assert_eq!(
        received_at(east).received_as_string(),
        "1970-01-01T01:00:00.500+01:00"
    );
    let west = Timestamp::new(0, 0, -12_600).expect("I expect a point in time");
    assert_eq!(
        received_at(west).received_as_string(),
        "1969-12-31T20:30:00-03:30"
    );
}

#[test]
fn local_transactions_tell_the_same_instant() {
    let local = RequestTransaction::new_local();
    let rendered = local.received_as_string();
    let parsed = chrono::DateTime::parse_from_rfc3339(&rendered)
        .expect("I expect the received timestamp to be valid RFC 3339");
    let away = chrono::Utc::now().timestamp() - parsed.timestamp();
    assert!((0..60).contains(&away), "I expect the current time, got {rendered}");
}

#[test]
fn timestamps_cover_the_range_of_the_calendar() {
    for seconds in [FIRST_SECOND - 1, FIRST_SECOND, -1, 0, LAST_SECOND, LAST_SECOND + 1] {
        for nanoseconds in [0, 999_999_999, 1_000_000_000, 1_999_999_999, 2_000_000_000] {
            assert_eq!(
                Timestamp::new(seconds, nanoseconds, 0).is_some(),
                chrono::DateTime::from_timestamp(seconds, nanoseconds).is_some(),
                "I expect both to agree on {seconds} and {nanoseconds}"
            );
        }
    }
    for offset in [-86_400, -86_399, 0, 86_399, 86_400] {
        assert_eq!(
            Timestamp::new(0, 0, offset).is_some(),
            chrono::FixedOffset::east_opt(offset).is_some(),
            "I expect both to agree on the offset {offset}"
        );
    }
    for edge in [FIRST_SECOND, LAST_SECOND] {
        for offset in [-86_399, 86_399] {
            let timestamp = Timestamp::new(edge, 0, offset).expect("I expect a point in time");
            assert!(!received_at(timestamp).received_as_string().is_empty());
        }
    }
}

#[test]
fn elapsed_time_is_counted_exactly() {
    let transaction = received_at(at(10, 250));
    assert_eq!(transaction.elapsed_ns_at(at(10, 250)), Some(0));
    assert_eq!(transaction.elapsed_ns_at(at(12, 0)), Some(1_999_999_750));
    assert_eq!(transaction.elapsed_ns_at(at(9, 0)), Some(-1_000_000_250));
    assert_eq!(
        received_at(at(0, 0)).elapsed_ns_at(at(9_223_372_036, 854_775_807)),
        Some(i64::MAX)
    );
    assert_eq!(
        received_at(at(0, 0)).elapsed_ns_at(at(9_223_372_036, 854_775_808)),
        None
    );
    assert_eq!(
        received_at(at(9_223_372_036, 854_775_808)).elapsed_ns_at(at(0, 0)),
        Some(i64::MIN)
    );
    assert_eq!(
        received_at(at(FIRST_SECOND, 0)).elapsed_ns_at(at(LAST_SECOND, 0)),
        None
    );
}

#[test]
fn leap_seconds_are_counted() {
    let leap = at(59, 1_500_000_000);
    assert_eq!(received_at(leap).elapsed_ns_at(at(60, 0)), Some(500_000_000));
    assert_eq!(received_at(at(60, 0)).elapsed_ns_at(leap), Some(-500_000_000));
    assert_eq!(received_at(at(59, 0)).elapsed_ns_at(leap), Some(1_500_000_000));
    assert_eq!(received_at(at(58, 0)).elapsed_ns_at(leap), Some(2_500_000_000));
    let midnight = at(86_399, 1_500_000_000);
    assert_eq!(
        received_at(midnight).elapsed_ns_at(at(86_400, 0)),
        Some(-500_000_000)
    );
    assert_eq!(
        received_at(at(86_400, 0)).elapsed_ns_at(midnight),
        Some(500_000_000)
    );
}

#[test]
fn elapsed_time_is_displayed() {
    let transaction = received_at(at(10, 0));
    assert_eq!(
        transaction.elapsed_as_string_at(at(10, 500_000_000)),
        "PT0.5S"
    );
    assert_eq!(transaction.elapsed_as_string_at(at(12, 0)), "PT2S");
    assert_eq!(transaction.elapsed_as_string_at(at(10, 0)), "P0D");
    assert_eq!(transaction.elapsed_as_string_at(at(9, 0)), "-PT1S");
    assert_eq!(
        transaction.elapsed_as_string_at(at(11, 250_000_000)),
        "PT1.25S"
    );
    assert_eq!(
        transaction.elapsed_as_string_at(at(10, 1)),
        "PT0.000000001S"
    );
    assert_eq!(
        transaction.elapsed_as_string_at(at(9, 999_999_000)),
        "-PT0.000001S"
    );
    assert_eq!(
        transaction.elapsed_as_string_at(at(86_410, 0)),
        "PT86400S"
    );
    let text = RequestTransaction::new().elapsed_as_string();
    assert!(text.starts_with('P'), "I expect a duration, got {text}");
}

#[test]
fn the_first_cached_transaction_wins() {
    let first = received_at(at(1, 0));
    let second = RequestTransaction::new();
    let mut cached = None;
    assert_eq!(first.attach_on(&mut cached).id, first.id);
    assert_eq!(second.attach_on(&mut cached).id, first.id);
    assert_eq!(RequestTransaction::get_or_init(&mut cached, TimeZone::Utc).id, first.id);
    assert_eq!(
        cached.map(|transaction| transaction.id),
        Some(first.id),
        "I expect the first transaction to stay cached"
    );

    let mut fresh = None;
    let made = RequestTransaction::get_or_init(&mut fresh, TimeZone::Local);
    assert_eq!(
        RequestTransaction::get_or_init(&mut fresh, TimeZone::Local).id,
        made.id,
        "I expect a later lookup to find the transaction that was made"
    );
}

#[test]
fn receive_times_are_read_back() {
    let told = [
        (0, 0, 0),
        (1_678_853_375, 865_466_064, 0),
        (1_678_853_375, 500_000_000, -12_600),
        (1_678_853_375, 1_000, 86_340),
        (59, 1_500_000_000, 3_600),
        (-62_167_219_200, 0, 0),
        (253_402_300_799, 999_999_999, 0),
        (253_402_300_799 + 3_600, 0, -3_600),
    ];
    for (seconds, nanoseconds, offset) in told {
        let received =
            Timestamp::new(seconds, nanoseconds, offset).expect("I expect a point in time");
        let rendered = received_at(received).received_as_string();
        let read = Timestamp::parse_rfc3339(&rendered).expect("I expect a point in time");
        assert_eq!(
            format!("{read:?}"),
            format!("{received:?}"),
            "I expect {rendered} to tell the same"
        );
    }
    let fresh = RequestTransaction::new();
    let read = Timestamp::parse_rfc3339(&fresh.received_as_string());
    assert_eq!(
        read.map(|now| fresh.elapsed_ns_at(now)),
        Some(Some(0)),
        "I expect the same instant"
    );
    let late = received_at(at(253_402_300_800, 0)).received_as_string();
    assert_eq!(late, "+10000-01-01T00:00:00+00:00");
    assert!(Timestamp::parse_rfc3339(&late).is_none());
    for text in ["", "2023-03-15", "2023-03-15T04:09:35", "2023-02-30T00:00:00+00:00"] {
        assert!(Timestamp::parse_rfc3339(text).is_none());
    }
}
