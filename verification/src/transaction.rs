//! The identity and the start time of a request.

use crate::text::{decimal, digit_char};
use vstd::arithmetic::div_mod::{
    lemma_basic_div, lemma_div_basics_2, lemma_div_denominator, lemma_fundamental_div_mod,
};
use vstd::arithmetic::power::{lemma_pow0, lemma_pow1, lemma_pow_adds, lemma_pow_positive, pow};
use vstd::prelude::*;

verus! {

/// The first second that a timestamp can hold: the start of the year -262143.
pub const FIRST_SECOND: i64 = -8_334_601_228_800;

/// The last second that a timestamp can hold: the end of the year 262142.
pub const LAST_SECOND: i64 = 8_210_266_876_799;

/// A point in time, with the offset of the clock that read it.
#[verifier::ext_equal]
pub struct TimestampView {
    /// Seconds since the start of 1970 in UTC.
    pub seconds: int,
    /// Nanoseconds within the second. A leap second counts on past its last whole second.
    pub nanoseconds: int,
    /// Seconds to add to UTC for the local time.
    pub offset: int,
}

impl TimestampView {
    /// Whether this is a point in time: within range, with a leap second only at the end of a
    /// minute, and with an offset below a day.
    pub open spec fn is_valid(self) -> bool {
        &&& FIRST_SECOND <= self.seconds <= LAST_SECOND
        &&& 0 <= self.nanoseconds < 2_000_000_000
        &&& self.nanoseconds >= 1_000_000_000 ==> self.seconds % 60 == 59
        &&& -86_400 < self.offset < 86_400
    }

    /// Whether a clock can read this: a point in time since 1970, outside any leap second.
    pub open spec fn is_clock_reading(self) -> bool {
        &&& self.is_valid()
        &&& self.seconds >= 0
        &&& self.nanoseconds < 1_000_000_000
    }

    /// Whether an RFC 3339 text tells this exactly: its local year has four digits, and its offset
    /// is one of whole minutes.
    pub open spec fn is_told_by_rfc3339(self) -> bool {
        &&& self.is_valid()
        &&& -62_167_219_200 <= self.seconds + self.offset <= 253_402_300_799
        &&& self.offset % 60 == 0
    }

    /// Whether this is what the clock gave to a call that read it, in `zone`.
    pub closed spec fn was_read(self, zone: TimeZone) -> bool {
        match zone {
            TimeZone::Utc => exists|now: (i64, u32)| #[trigger]
                call_ensures(utc_now, (), now) && self.numbers() == (
                    now.0 as int,
                    now.1 as int,
                    0int,
                ),
            TimeZone::Local => exists|now: (i64, u32, i32)| #[trigger]
                call_ensures(local_now, (), now) && self.numbers() == (
                    now.0 as int,
                    now.1 as int,
                    now.2 as int,
                ),
        }
    }

    /// The three numbers.
    pub open spec fn numbers(self) -> (int, int, int) {
        (self.seconds, self.nanoseconds, self.offset)
    }
}

/// A leap second that lies between two times of day counts as one more second.
pub open spec fn leap_second_between(from: TimestampView, to: TimestampView) -> int {
    if to.seconds % 86_400 > from.seconds % 86_400 && from.nanoseconds >= 1_000_000_000 {
        1
    } else if to.seconds % 86_400 < from.seconds % 86_400 && to.nanoseconds >= 1_000_000_000 {
        -1
    } else {
        0
    }
}

/// The nanoseconds from one point in time to another: negative where the other lies before it.
pub open spec fn nanoseconds_from(from: TimestampView, to: TimestampView) -> int {
    (to.seconds - from.seconds + leap_second_between(from, to)) * 1_000_000_000 + to.nanoseconds
        - from.nanoseconds
}

/// The nanoseconds as a 64-bit number, where they fit.
pub open spec fn counted(nanoseconds: int) -> Option<i64> {
    if i64::MIN <= nanoseconds <= i64::MAX {
        Some(nanoseconds as i64)
    } else {
        None
    }
}

/// The text that chrono's `DateTime::to_rfc3339` writes for a point in time and an offset.
pub uninterp spec fn rfc3339_text(seconds: int, nanoseconds: int, offset: int) -> Seq<char>;

/// The seconds, nanoseconds and offset that chrono's `DateTime::parse_from_rfc3339` reads from a
/// text.
pub uninterp spec fn rfc3339_reading(text: Seq<char>) -> Option<(int, int, int)>;

/// The last `width` decimal digits of `number`, zeros in front included.
pub open spec fn padded(number: nat, width: nat) -> Seq<char>
    decreases width,
{
    if width == 0 {
        Seq::empty()
    } else {
        padded(number / 10, (width - 1) as nat).push(digit_char((number % 10) as int))
    }
}

/// The digits behind a decimal point, without the zeros at their end.
pub open spec fn fraction(number: nat, width: nat) -> Seq<char>
    decreases width,
{
    if width > 0 && number % 10 == 0 {
        fraction(number / 10, (width - 1) as nat)
    } else {
        padded(number, width)
    }
}

/// A duration as ISO 8601 writes it, in seconds; an empty one is `P0D`, and a negative one has a
/// sign in front.
pub open spec fn duration_text(nanoseconds: int) -> Seq<char> {
    let size: nat = if nanoseconds < 0 {
        -nanoseconds as nat
    } else {
        nanoseconds as nat
    };
    let sign = if nanoseconds < 0 {
        "-"@
    } else {
        Seq::empty()
    };
    let seconds = size / 1_000_000_000;
    let rest = size % 1_000_000_000;
    if size == 0 {
        "P0D"@
    } else if rest == 0 {
        sign + "PT"@ + decimal(seconds) + "S"@
    } else {
        sign + "PT"@ + decimal(seconds) + "."@ + fraction(rest, 9) + "S"@
    }
}

/// `chrono::Utc::now`: some point in time since 1970, in whole seconds and the nanoseconds of
/// the second. Nothing ties two readings to each other. A system clock set before 1970 makes it
/// panic.
#[verifier::external_body]
fn utc_now() -> (now: (i64, u32))
    ensures
        0 <= now.0 <= LAST_SECOND,
        now.1 < 1_000_000_000,
{
    let now = chrono::Utc::now();
    (now.timestamp(), now.timestamp_subsec_nanos())
}

/// `chrono::Local::now`: some point in time since 1970, in whole seconds and the nanoseconds of
/// the second, and the offset of the machine's time zone from UTC, which is below a day. A
/// system clock set before 1970 makes it panic.
#[verifier::external_body]
fn local_now() -> (now: (i64, u32, i32))
    ensures
        0 <= now.0 <= LAST_SECOND,
        now.1 < 1_000_000_000,
        -86_400 < now.2 < 86_400,
{
    let now = chrono::Local::now();
    (now.timestamp(), now.timestamp_subsec_nanos(), now.offset().local_minus_utc())
}

/// chrono's `DateTime::to_rfc3339` of a point in time, taken to the given offset: the text is a
/// function of the three numbers, and for the offset 0 it ends in `+00:00`. Where the local year
/// has four digits and the offset is one of whole minutes, `DateTime::parse_from_rfc3339` reads
/// the same numbers from it. Other years are written with a sign, which that function does not
/// read, and other offsets are rounded to a minute.
#[verifier::external_body]
fn to_rfc3339(seconds: i64, nanoseconds: u32, offset: i32) -> (text: String)
    requires
        (TimestampView {
            seconds: seconds as int,
            nanoseconds: nanoseconds as int,
            offset: offset as int,
        }).is_valid(),
    ensures
        text@ == rfc3339_text(seconds as int, nanoseconds as int, offset as int),
        offset == 0 ==> "+00:00"@.is_suffix_of(text@),
        (TimestampView {
            seconds: seconds as int,
            nanoseconds: nanoseconds as int,
            offset: offset as int,
        }).is_told_by_rfc3339() ==> rfc3339_reading(text@) == Some(
            (seconds as int, nanoseconds as int, offset as int),
        ),
{
    let instant = chrono::DateTime::from_timestamp(seconds, nanoseconds).unwrap();
    instant.with_timezone(&chrono::FixedOffset::east_opt(offset).unwrap()).to_rfc3339()
}

/// chrono's `DateTime::parse_from_rfc3339`: the point in time and the offset that it reads are a
/// function of the text, and they are within the range of a timestamp. `None` where it gives an
/// error.
#[verifier::external_body]
fn parse_from_rfc3339(text: &str) -> (read: Option<(i64, u32, i32)>)
    ensures
        rfc3339_reading(text@) == match read {
            Some(read) => Some((read.0 as int, read.1 as int, read.2 as int)),
            None => None,
        },
        read matches Some(read) ==> (TimestampView {
            seconds: read.0 as int,
            nanoseconds: read.1 as int,
            offset: read.2 as int,
        }).is_valid(),
{
    let read = chrono::DateTime::parse_from_rfc3339(text).ok()?;
    Some((read.timestamp(), read.timestamp_subsec_nanos(), read.offset().local_minus_utc()))
}

/// The difference of two of chrono's `DateTime` values, counted by `TimeDelta::num_nanoseconds`:
/// the exact number of nanoseconds, or `None` where it does not fit.
#[verifier::external_body]
fn count_nanoseconds(from: (i64, u32), to: (i64, u32)) -> (count: Option<i64>)
    requires
        (TimestampView { seconds: from.0 as int, nanoseconds: from.1 as int, offset: 0 }).is_valid(),
        (TimestampView { seconds: to.0 as int, nanoseconds: to.1 as int, offset: 0 }).is_valid(),
    ensures
        count == counted(
            nanoseconds_from(
                (TimestampView { seconds: from.0 as int, nanoseconds: from.1 as int, offset: 0 }),
                (TimestampView { seconds: to.0 as int, nanoseconds: to.1 as int, offset: 0 }),
            ),
        ),
{
    let earlier = chrono::DateTime::from_timestamp(from.0, from.1).unwrap();
    let later = chrono::DateTime::from_timestamp(to.0, to.1).unwrap();
    (later - earlier).num_nanoseconds()
}

/// The difference of two of chrono's `DateTime` values, displayed by `TimeDelta`: the ISO 8601
/// text of the exact number of nanoseconds between them, in seconds, without zeros at the end of
/// the fraction.
#[verifier::external_body]
fn display_duration(from: (i64, u32), to: (i64, u32)) -> (text: String)
    requires
        (TimestampView { seconds: from.0 as int, nanoseconds: from.1 as int, offset: 0 }).is_valid(),
        (TimestampView { seconds: to.0 as int, nanoseconds: to.1 as int, offset: 0 }).is_valid(),
    ensures
        text@ == duration_text(
            nanoseconds_from(
                (TimestampView { seconds: from.0 as int, nanoseconds: from.1 as int, offset: 0 }),
                (TimestampView { seconds: to.0 as int, nanoseconds: to.1 as int, offset: 0 }),
            ),
        ),
{
    let earlier = chrono::DateTime::from_timestamp(from.0, from.1).unwrap();
    let later = chrono::DateTime::from_timestamp(to.0, to.1).unwrap();
    (later - earlier).to_string()
}

/// A point in time, with the offset of the clock that read it.
#[derive(Clone, Copy, Debug)]
pub struct Timestamp {
    seconds: i64,
    nanoseconds: u32,
    offset: i32,
}

impl View for Timestamp {
    type V = TimestampView;

    closed spec fn view(&self) -> TimestampView {
        TimestampView {
            seconds: self.seconds as int,
            nanoseconds: self.nanoseconds as int,
            offset: self.offset as int,
        }
    }
}

impl Timestamp {
    #[verifier::type_invariant]
    spec fn holds_a_point_in_time(self) -> bool {
        self@.is_valid()
    }

    /// The point in time with these numbers, where there is one.
    pub fn new(seconds: i64, nanoseconds: u32, offset: i32) -> (timestamp: Option<Timestamp>)
        ensures
            ({
                let view = TimestampView {
                    seconds: seconds as int,
                    nanoseconds: nanoseconds as int,
                    offset: offset as int,
                };
                &&& timestamp is Some <==> view.is_valid()
                &&& timestamp matches Some(timestamp) ==> timestamp@ == view
            }),
    {
        let whole = nanoseconds < 1_000_000_000;
        let leap = nanoseconds < 2_000_000_000 && (seconds % 60 == 59 || seconds % 60 == -1);
        if seconds >= FIRST_SECOND && seconds <= LAST_SECOND && (whole || leap) && offset > -86_400
            && offset < 86_400 {
            Some(Timestamp { seconds, nanoseconds, offset })
        } else {
            None
        }
    }

    /// Reads the clock, in UTC. Which point in time since 1970 this is, the clock decides.
    pub fn now_utc() -> (now: Timestamp)
        ensures
            now@.is_clock_reading(),
            now@.offset == 0,
            now@.was_read(TimeZone::Utc),
    {
        let now = utc_now();
        Timestamp { seconds: now.0, nanoseconds: now.1, offset: 0 }
    }

    /// Reads the clock, in the time zone of the machine. Which point in time since 1970 this is,
    /// the clock decides, and the machine decides on the offset.
    pub fn now_local() -> (now: Timestamp)
        ensures
            now@.is_clock_reading(),
            now@.was_read(TimeZone::Local),
    {
        let now = local_now();
        Timestamp { seconds: now.0, nanoseconds: now.1, offset: now.2 }
    }

    /// Reads back the point in time that an RFC 3339 text tells, where it tells one.
    pub fn parse_rfc3339(text: &str) -> (timestamp: Option<Timestamp>)
        ensures
            rfc3339_reading(text@) == match timestamp {
                Some(timestamp) => Some(timestamp@.numbers()),
                None => None,
            },
    {
        match parse_from_rfc3339(text) {
            Some(read) => Some(Timestamp { seconds: read.0, nanoseconds: read.1, offset: read.2 }),
            None => None,
        }
    }
}

/// The hexadecimal digit of an id at `index`, counted from the most significant of its 32 digits.
pub open spec fn hex_digit(id: u128, index: int) -> int {
    (id as int / pow(16, (31 - index) as nat)) % 16
}

/// Whether the hyphenated form of an id has a hyphen at `index`.
pub open spec fn is_hyphen_index(index: int) -> bool {
    index == 8 || index == 13 || index == 18 || index == 23
}

/// How many hyphens the hyphenated form of an id has before `index`.
pub open spec fn hyphens_before(index: int) -> int {
    if index <= 8 {
        0
    } else if index <= 13 {
        1
    } else if index <= 18 {
        2
    } else if index <= 23 {
        3
    } else {
        4
    }
}

/// The lowercase hyphenated form of an id: its 32 hexadecimal digits, in groups of 8, 4, 4, 4
/// and 12.
pub open spec fn uuid_text(id: u128) -> Seq<char> {
    Seq::new(
        36,
        |i: int|
            if is_hyphen_index(i) {
                '-'
            } else {
                digit_char(hex_digit(id, i - hyphens_before(i)))
            },
    )
}

/// Whether an id carries the marks of a random (version 4) UUID: the version digit is 4, and the
/// variant digit is one of 8, 9, a and b.
pub open spec fn is_random_uuid(id: u128) -> bool {
    &&& hex_digit(id, 12) == 4
    &&& 8 <= hex_digit(id, 16) <= 11
}

/// `uuid::Uuid::new_v4`: some id with the version and variant marks of a random UUID. The other
/// digits are random: nothing ties two ids to each other. It panics where the system has no
/// random bytes to give.
#[verifier::external_body]
fn new_v4() -> (id: u128)
    ensures
        is_random_uuid(id),
{
    uuid::Uuid::new_v4().as_u128()
}

/// Whether `id` is what a call that mints an id gave.
pub closed spec fn was_minted(id: u128) -> bool {
    call_ensures(new_v4, (), id)
}

/// uuid's `Hyphenated::encode_lower`: the 32 digits of the id in lowercase hexadecimal, with
/// hyphens behind the 8th, 12th, 16th and 20th.
#[verifier::external_body]
fn encode_hyphenated(id: u128) -> (text: String)
    ensures
        text@ == uuid_text(id),
{
    let id = uuid::Uuid::from_u128(id);
    id.hyphenated().encode_lower(&mut uuid::Uuid::encode_buffer()).to_string()
}

/// A per-request identity and start time, cached on the request so every log
/// line from one request shares the same id and the response line can report
/// elapsed time. The time zone of the start time is UTC or that of the machine, as
/// [`RequestTransaction::new`] or [`RequestTransaction::new_local`] made it.
#[derive(Copy, Clone, Debug)]
pub struct RequestTransaction {
    /// The 128 bits of the UUID.
    pub id: u128,
    /// When the request was received.
    pub received: Timestamp,
}

/// The time zone in which receive times are told.
#[derive(Clone, Copy, Debug, PartialEq, Eq, Structural)]
pub enum TimeZone {
    Utc,
    /// The time zone of the machine.
    Local,
}

impl RequestTransaction {
    /// Whether this can be a transaction minted in `zone`: its id is one that a call minted, and
    /// its time one that a call read from the clock, which in UTC has no offset.
    pub open spec fn is_fresh(self, zone: TimeZone) -> bool {
        &&& is_random_uuid(self.id)
        &&& was_minted(self.id)
        &&& self.received@.is_clock_reading()
        &&& self.received@.was_read(zone)
        &&& zone is Utc ==> self.received@.offset == 0
    }
}

impl Default for RequestTransaction {
    fn default() -> (transaction: RequestTransaction)
        ensures
            transaction.is_fresh(TimeZone::Utc),
    {
        RequestTransaction::new()
    }
}

impl RequestTransaction {
    /// Mint a fresh transaction: a new v4 UUID and the current time in UTC. Most callers
    /// want [`get_or_init`](Self::get_or_init) instead, which reuses the one
    /// already cached on the request.
    pub fn new() -> (transaction: RequestTransaction)
        ensures
            transaction.is_fresh(TimeZone::Utc),
    {
        RequestTransaction { id: new_v4(), received: Timestamp::now_utc() }
    }

    /// Mint a fresh transaction: a new v4 UUID and the current time in the time zone of the
    /// machine. The clock, the machine and chance decide on them; whatever they are, the id is
    /// marked as random and the time lies since 1970, outside any leap second.
    pub fn new_local() -> (transaction: RequestTransaction)
        ensures
            transaction.is_fresh(TimeZone::Local),
    {
        RequestTransaction { id: new_v4(), received: Timestamp::now_local() }
    }

    /// Cache this exact transaction on the request, or return the one already
    /// cached if there is one: a pre-existing transaction wins and the `self` passed here is
    /// dropped. To let the request lazily create its own, use
    /// [`get_or_init`](Self::get_or_init).
    pub fn attach_on(self, cached: &mut Option<RequestTransaction>) -> (kept: RequestTransaction)
        ensures
            kept == match *old(cached) {
                Some(transaction) => transaction,
                None => self,
            },
            *final(cached) == Some(kept),
    {
        match *cached {
            Some(transaction) => transaction,
            None => {
                *cached = Some(self);
                self
            },
        }
    }

    /// Return the transaction cached on this request, creating one only
    /// if none exists yet, so that a request that already
    /// has a transaction does not pay for a throwaway UUID
    /// and clock read on every later lookup.
    pub fn get_or_init(cached: &mut Option<RequestTransaction>, zone: TimeZone) -> (kept:
        RequestTransaction)
        ensures
            *final(cached) == Some(kept),
            match *old(cached) {
                Some(transaction) => kept == transaction,
                None => kept.is_fresh(zone),
            },
    {
        match *cached {
            Some(transaction) => transaction,
            None => {
                let transaction = match zone {
                    TimeZone::Utc => RequestTransaction::new(),
                    TimeZone::Local => RequestTransaction::new_local(),
                };
                *cached = Some(transaction);
                transaction
            },
        }
    }

    /// The transaction id as a lowercase hyphenated UUID string.
    pub fn id_as_string(&self) -> (text: String)
        ensures
            text@ == uuid_text(self.id),
    {
        encode_hyphenated(self.id)
    }

    /// The receive time as an RFC 3339 timestamp.
    pub fn received_as_string(&self) -> (text: String)
        ensures
            text@ == rfc3339_text(
                self.received@.seconds,
                self.received@.nanoseconds,
                self.received@.offset,
            ),
            self.received@.offset == 0 ==> "+00:00"@.is_suffix_of(text@),
            self.received@.is_told_by_rfc3339() ==> rfc3339_reading(text@) == Some(
                self.received@.numbers(),
            ),
    {
        let received = self.received;
        proof {
            use_type_invariant(&received);
        }
        to_rfc3339(received.seconds, received.nanoseconds, received.offset)
    }

    /// Time from when the request was received to `now`, as a display
    /// string (for example `PT0.5S`).
    pub fn elapsed_as_string_at(&self, now: Timestamp) -> (text: String)
        ensures
            text@ == duration_text(nanoseconds_from(self.received@, now@)),
    {
        let received = self.received;
        proof {
            use_type_invariant(&received);
            use_type_invariant(&now);
        }
        display_duration((received.seconds, received.nanoseconds), (now.seconds, now.nanoseconds))
    }

    /// Time since the request was received, as a display
    /// string (for example `PT0.5S`).
    pub fn elapsed_as_string(&self) -> (text: String)
        ensures
            exists|now: TimestampView| #[trigger]
                now.is_clock_reading() && now.offset == 0 && now.was_read(TimeZone::Utc)
                    && text@ == duration_text(nanoseconds_from(self.received@, now)),
    {
        let now = Timestamp::now_utc();
        self.elapsed_as_string_at(now)
    }

    /// Time from when the request was received to `now`, in nanoseconds. `None` only if the
    /// duration overflows an `i64`, which a single request cannot reach.
    pub fn elapsed_ns_at(&self, now: Timestamp) -> (elapsed: Option<i64>)
        ensures
            elapsed == counted(nanoseconds_from(self.received@, now@)),
    {
        let received = self.received;
        proof {
            use_type_invariant(&received);
            use_type_invariant(&now);
        }
        count_nanoseconds((received.seconds, received.nanoseconds), (now.seconds, now.nanoseconds))
    }

    /// Time since the request was received, in nanoseconds. `None` only if the
    /// duration overflows an `i64`, which a single request cannot reach.
    pub fn elapsed_ns(&self) -> (elapsed: Option<i64>)
        ensures
            exists|now: TimestampView| #[trigger]
                now.is_clock_reading() && now.offset == 0 && now.was_read(TimeZone::Utc)
                    && elapsed == counted(nanoseconds_from(self.received@, now)),
    {
        let now = Timestamp::now_utc();
        self.elapsed_ns_at(now)
    }
}

/// 32 hexadecimal digits hold every id.
proof fn lemma_pow_16_32()
    ensures
        pow(16, 32) == u128::MAX + 1,
{
    reveal_with_fuel(pow, 9);
    assert(pow(16, 8) == 0x1_0000_0000);
    lemma_pow_adds(16, 8, 8);
    lemma_pow_adds(16, 16, 16);
    assert(0x1_0000_0000int * 0x1_0000_0000int == 0x1_0000_0000_0000_0000int);
    assert(0x1_0000_0000_0000_0000int * 0x1_0000_0000_0000_0000int
        == 0x1_0000_0000_0000_0000_0000_0000_0000_0000int);
}

/// The number that a hexadecimal digit stands for.
pub open spec fn digit_value(c: char) -> int {
    if '0' <= c && c <= '9' {
        c as int - '0' as int
    } else {
        c as int - 'a' as int + 10
    }
}

/// The number that the hexadecimal digits of a text spell, whatever its hyphens.
pub open spec fn read_id(text: Seq<char>) -> int
    decreases text.len(),
{
    if text.len() == 0 {
        0
    } else if text.last() == '-' {
        read_id(text.drop_last())
    } else {
        read_id(text.drop_last()) * 16 + digit_value(text.last())
    }
}

/// The first characters of the text of an id spell its first digits.
proof fn lemma_read_id_prefix(id: u128, count: int)
    requires
        0 <= count <= 36,
    ensures
        read_id(uuid_text(id).take(count)) == id as int / pow(
            16,
            (32 - (count - hyphens_before(count))) as nat,
        ),
    decreases count,
{
    if count == 0 {
        lemma_pow_16_32();
        lemma_basic_div(id as int, pow(16, 32));
    } else {
        let at = count - 1;
        let prefix = uuid_text(id).take(count);
        lemma_read_id_prefix(id, at);
        assert(prefix.drop_last() == uuid_text(id).take(at));
        assert(prefix.last() == uuid_text(id)[at]);
        if !is_hyphen_index(at) {
            let index = at - hyphens_before(at);
            let digit = hex_digit(id, index);
            let unit = pow(16, (31 - index) as nat);
            assert(hyphens_before(count) == hyphens_before(at));
            assert(0 <= digit < 16);
            assert(digit_value(digit_char(digit)) == digit);
            lemma_pow_positive(16, (31 - index) as nat);
            lemma_pow1(16);
            lemma_pow_adds(16, (31 - index) as nat, 1);
            lemma_div_denominator(id as int, unit, 16);
            lemma_fundamental_div_mod(id as int / unit, 16);
        }
    }
}

/// Reading the text of an id gives the id back.
pub proof fn law_id_text_reads_back(id: u128)
    ensures
        read_id(uuid_text(id)) == id,
{
    lemma_read_id_prefix(id, 36);
    lemma_pow0(16);
    lemma_div_basics_2(id as int);
    assert(uuid_text(id).take(36) == uuid_text(id));
}

/// The text of an id tells the id: two ids with the same text are the same.
pub proof fn law_id_text_tells_the_id(a: u128, b: u128)
    requires
        uuid_text(a) == uuid_text(b),
    ensures
        a == b,
{
    law_id_text_reads_back(a);
    law_id_text_reads_back(b);
}

/// The text of every id has 36 characters: four hyphens, in groups of 8, 4, 4, 4 and 12, and
/// lowercase hexadecimal digits otherwise.
pub proof fn law_id_text_is_hyphenated_and_lowercase(id: u128)
    ensures
        uuid_text(id).len() == 36,
        forall|i: int|
            0 <= i < 36 ==> if is_hyphen_index(i) {
                #[trigger] uuid_text(id)[i] == '-'
            } else {
                "0123456789abcdef"@.contains(uuid_text(id)[i])
            },
{
    reveal_strlit("0123456789abcdef");
    let digits = "0123456789abcdef"@;
    assert forall|i: int| 0 <= i < 36 implies if is_hyphen_index(i) {
        #[trigger] uuid_text(id)[i] == '-'
    } else {
        digits.contains(uuid_text(id)[i])
    } by {
        if !is_hyphen_index(i) {
            let digit = hex_digit(id, i - hyphens_before(i));
            assert(0 <= digit < 16);
            assert(digits[digit] == digit_char(digit));
        }
    }
}

/// The text of a random id has the version digit `4`, and one of `8`, `9`, `a` and `b` for the
/// variant.
pub proof fn law_random_id_text_is_a_version_4_uuid(id: u128)
    requires
        is_random_uuid(id),
    ensures
        uuid_text(id)[14] == '4',
        "89ab"@.contains(uuid_text(id)[19]),
{
    reveal_strlit("89ab");
    let variants = "89ab"@;
    assert(uuid_text(id)[14] == digit_char(hex_digit(id, 12)));
    assert(uuid_text(id)[19] == digit_char(hex_digit(id, 16)));
    assert(variants[hex_digit(id, 16) - 8] == uuid_text(id)[19]);
}

/// A transaction that is minted holds an id that was minted for a call, and the time that the
/// clock gave to a call.
pub proof fn law_minted_transaction_tells_the_time(transaction: RequestTransaction)
    ensures
        call_ensures(RequestTransaction::new, (), transaction) || call_ensures(
            <RequestTransaction as Default>::default,
            (),
            transaction,
        ) ==> was_minted(transaction.id) && transaction.received@.was_read(TimeZone::Utc),
        call_ensures(RequestTransaction::new_local, (), transaction) ==> was_minted(transaction.id)
            && transaction.received@.was_read(TimeZone::Local),
{
}

/// The first lookup mints a transaction, in the zone that is asked for, and every later one gives
/// it back: its id and its receive time never change.
pub proof fn law_first_transaction_is_kept(
    cached: &mut Option<RequestTransaction>,
    zone: TimeZone,
    kept: RequestTransaction,
)
    requires
        call_ensures(RequestTransaction::get_or_init, (cached, zone), kept),
    ensures
        *final(cached) == Some(kept),
        *old(cached) is Some ==> *old(cached) == Some(kept),
        *old(cached) is None ==> was_minted(kept.id) && kept.received@.was_read(zone),
{
}

/// Attaching caches the given transaction on a request that has none, and gives back the one that
/// is there otherwise.
pub proof fn law_attached_transaction_is_kept(
    transaction: RequestTransaction,
    cached: &mut Option<RequestTransaction>,
    kept: RequestTransaction,
)
    requires
        call_ensures(RequestTransaction::attach_on, (transaction, cached), kept),
    ensures
        *final(cached) == Some(kept),
        *old(cached) is Some ==> *old(cached) == Some(kept),
        *old(cached) is None ==> kept == transaction,
{
}

/// The elapsed time of a minted transaction is the difference of two readings of the clock: the
/// one that it holds, and one that was taken for the elapsed time. It is missing only where it is
/// too long for its type.
pub proof fn law_elapsed_time_is_the_difference_of_two_readings(
    transaction: RequestTransaction,
    zone: TimeZone,
    elapsed: Option<i64>,
)
    requires
        transaction.is_fresh(zone),
        call_ensures(RequestTransaction::elapsed_ns, (&transaction,), elapsed),
    ensures
        exists|now: TimestampView| #[trigger]
            now.was_read(TimeZone::Utc) && ({
                let received = transaction.received@;
                let passed = (now.seconds - received.seconds) * 1_000_000_000 + now.nanoseconds
                    - received.nanoseconds;
                match elapsed {
                    Some(elapsed) => elapsed == passed,
                    None => passed < i64::MIN || passed > i64::MAX,
                }
            }),
{
}

/// Time runs both ways alike: from one point in time to another is as long as back, with the
/// other sign, and from a point in time to itself it is nothing.
pub proof fn law_elapsed_time_has_a_direction(
    a: RequestTransaction,
    b: RequestTransaction,
    there: Option<i64>,
    back: Option<i64>,
)
    requires
        call_ensures(RequestTransaction::elapsed_ns_at, (&a, b.received), there),
        call_ensures(RequestTransaction::elapsed_ns_at, (&b, a.received), back),
    ensures
        there is Some && there->0 != i64::MIN ==> back is Some && back->0 == -there->0,
        a.received == b.received ==> there == Some(0i64),
        a.received@.nanoseconds < 1_000_000_000 && b.received@.nanoseconds < 1_000_000_000
            && there is Some ==> there->0 == (b.received@.seconds - a.received@.seconds)
            * 1_000_000_000 + b.received@.nanoseconds - a.received@.nanoseconds,
{
}

/// A timestamp holds the numbers that it is made from, and there is one for every point in time.
pub proof fn law_timestamp_holds_its_numbers(
    seconds: i64,
    nanoseconds: u32,
    offset: i32,
    timestamp: Option<Timestamp>,
)
    requires
        call_ensures(Timestamp::new, (seconds, nanoseconds, offset), timestamp),
    ensures
        timestamp matches Some(timestamp) ==> timestamp@.seconds == seconds
            && timestamp@.nanoseconds == nanoseconds && timestamp@.offset == offset,
        FIRST_SECOND <= seconds <= LAST_SECOND && nanoseconds < 1_000_000_000 && -86_400 < offset
            < 86_400 ==> timestamp is Some,
        nanoseconds >= 1_000_000_000 && seconds % 60 != 59 ==> timestamp is None,
{
}

/// The texts of a transaction tell its id and, where its receive time is told exactly, the receive
/// time: reading them gives both back.
pub proof fn law_texts_of_a_transaction_read_back(
    transaction: RequestTransaction,
    id: String,
    received: String,
)
    requires
        call_ensures(RequestTransaction::id_as_string, (&transaction,), id),
        call_ensures(RequestTransaction::received_as_string, (&transaction,), received),
    ensures
        read_id(id@) == transaction.id,
        id@.len() == 36,
        transaction.received@.is_told_by_rfc3339() ==> rfc3339_reading(received@) == Some(
            (
                transaction.received@.seconds,
                transaction.received@.nanoseconds,
                transaction.received@.offset,
            ),
        ),
        transaction.received@.offset == 0 ==> "+00:00"@.is_suffix_of(received@),
{
    law_id_text_reads_back(transaction.id);
}

/// Reading back the receive time that a transaction tells gives its numbers.
pub proof fn law_receive_time_reads_back(
    transaction: RequestTransaction,
    received: String,
    text: &str,
    read: Option<Timestamp>,
)
    requires
        call_ensures(RequestTransaction::received_as_string, (&transaction,), received),
        text@ == received@,
        call_ensures(Timestamp::parse_rfc3339, (text,), read),
    ensures
        transaction.received@.is_told_by_rfc3339() ==> read is Some && read->0@
            == transaction.received@,
{
}

/// The text of the elapsed time is that of the time from the receive time to the other, and where
/// the clock is read, to a reading of the clock. It tells the very time that is counted.
pub proof fn law_elapsed_text_tells_the_elapsed_time(
    transaction: RequestTransaction,
    now: Timestamp,
    text: String,
    count: Option<i64>,
    read_text: String,
)
    requires
        call_ensures(RequestTransaction::elapsed_as_string_at, (&transaction, now), text),
        call_ensures(RequestTransaction::elapsed_ns_at, (&transaction, now), count),
        call_ensures(RequestTransaction::elapsed_as_string, (&transaction,), read_text),
    ensures
        count matches Some(count) ==> text@ == duration_text(count as int),
        exists|reading: TimestampView| #[trigger]
            reading.was_read(TimeZone::Utc) && read_text@ == duration_text(
                nanoseconds_from(transaction.received@, reading),
            ),
{
}

} // verus!
