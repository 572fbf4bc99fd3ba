//! A timestamp that keeps the text it was read from.
//!
//! An [`ISO8601Date`] holds six numeric fields, a timezone suffix and the exact
//! string it was parsed from. Its calendar-date key, `year-month-day` with month
//! and day padded to two digits, names the file that a data point is stored in.

use crate::text::{
    all_digits, decimal, decimal_padded, digits_value, field, first_three_fields, is_digit,
    lemma_decimal_of_value, lemma_decimal_padded_of_value, lemma_decimal_padded_value,
    lemma_decimal_value, lemma_digits_value_bound, lemma_padded_number, lemma_prefix_len_is,
    lemma_split_joined, lemma_three_fields, opt_parse, padded_number, parse_u8, pow10,
    push_decimal, push_decimal_padded, remove_padding, split_once, split_once_spec,
};
use chrono::{Datelike, Timelike};
use vstd::prelude::*;
use vstd::string::StringExecFns;

verus! {

/// Why a string is no timestamp.
#[derive(Debug, Clone, Copy, PartialEq, Eq, Structural)]
pub enum DateErrorKind {
    /// The date was asked for and the string holds no `T`.
    DateSeparator,
    /// What stands before the `T` is not three numbers cut by `-`.
    DateFields,
    /// The time was asked for and the string holds no `T`.
    TimeSeparator,
    /// What stands after the `T` does not begin with eight characters that are
    /// three numbers cut by `:`.
    TimeFields,
}

/// A failed parse: the reason, and the string that was refused.
#[derive(Debug)]
pub struct DateError {
    pub kind: DateErrorKind,
    pub input: String,
}

/// The mathematical value of a timestamp.
pub struct DateView {
    pub year: nat,
    pub month: nat,
    pub day: nat,
    pub hours: nat,
    pub minutes: nat,
    pub seconds: nat,
    pub tz: Seq<char>,
    pub raw: Seq<char>,
}

/// A date and time of day, with the timezone suffix and the text it was read
/// from.
#[derive(Debug)]
pub struct ISO8601Date {
    pub year: u16,
    pub month: u8,
    pub day: u8,
    pub hours: u8,
    pub minutes: u8,
    pub seconds: u8,
    pub tz: String,
    /// The text that the timestamp was read from, and is written as.
    pub raw: String,
}

/// The calendar fields of an instant in UTC, as a clock reports them.
#[derive(Debug, Clone, Copy)]
pub struct UtcFields {
    pub year: i32,
    pub month: u32,
    pub day: u32,
    pub hour: u32,
    pub minute: u32,
    pub second: u32,
}

// ---------------------------------------------------------------------------
// What a string denotes
// ---------------------------------------------------------------------------

/// The number in piece `k` of `s` cut at `sep`, read without its zero padding.
pub open spec fn number_field(s: Seq<char>, sep: char, k: nat, max: nat) -> Option<nat> {
    match field(s, sep, k) {
        Some(f) => padded_number(f, max),
        None => None,
    }
}

/// Year, month and day of `s`: the first three `-`-separated numbers before
/// its first `T`.
pub open spec fn date_component(s: Seq<char>) -> Result<(nat, nat, nat), DateErrorKind> {
    match split_once_spec(s, 'T') {
        None => Err(DateErrorKind::DateSeparator),
        Some((date, _)) => match (
            number_field(date, '-', 0, 0xffff),
            number_field(date, '-', 1, 0xff),
            number_field(date, '-', 2, 0xff),
        ) {
            (Some(y), Some(m), Some(d)) => Ok((y, m, d)),
            _ => Err(DateErrorKind::DateFields),
        },
    }
}

/// Hours, minutes, seconds and timezone suffix of `s`: the first three
/// `:`-separated numbers in the eight characters after its first `T`, and
/// whatever follows those eight characters.
pub open spec fn time_component(s: Seq<char>) -> Result<
    (nat, nat, nat, Seq<char>),
    DateErrorKind,
> {
    match split_once_spec(s, 'T') {
        None => Err(DateErrorKind::TimeSeparator),
        Some((_, time)) => if time.len() < 8 {
            Err(DateErrorKind::TimeFields)
        } else {
            match (
                number_field(time.take(8), ':', 0, 0xff),
                number_field(time.take(8), ':', 1, 0xff),
                number_field(time.take(8), ':', 2, 0xff),
            ) {
                (Some(h), Some(m), Some(sec)) => Ok((h, m, sec, time.skip(8))),
                _ => Err(DateErrorKind::TimeFields),
            }
        },
    }
}

/// The timestamp that `s` denotes. The date is read first, so a string without
/// `T` is refused for its date.
pub open spec fn parse_timestamp(s: Seq<char>) -> Result<DateView, DateErrorKind> {
    match date_component(s) {
        Err(e) => Err(e),
        Ok((year, month, day)) => match time_component(s) {
            Err(e) => Err(e),
            Ok((hours, minutes, seconds, tz)) => Ok(
                DateView { year, month, day, hours, minutes, seconds, tz, raw: s },
            ),
        },
    }
}

/// The calendar-date key: the year unpadded, month and day with two digits.
pub open spec fn date_key(year: nat, month: nat, day: nat) -> Seq<char> {
    decimal(year) + seq!['-'] + decimal_padded(month) + seq!['-'] + decimal_padded(day)
}

/// The text of a timestamp that was taken from the clock and not parsed.
pub open spec fn raw_placeholder() -> Seq<char> {
    seq!['F', 'I', 'X', 'M', 'E']
}

/// Reads a number field: the zero padding goes, the rest must fit sixteen bits.
fn read_u16(s: &str) -> (r: Option<u16>)
    ensures
        match r {
            Some(v) => padded_number(s@, 0xffff) == Some(v as nat),
            None => padded_number(s@, 0xffff) is None,
        },
{
    match remove_padding(s) {
        Some(t) => opt_parse(t),
        None => None,
    }
}

/// Reads a number field: the zero padding goes, the rest must fit eight bits.
fn read_u8(s: &str) -> (r: Option<u8>)
    ensures
        match r {
            Some(v) => padded_number(s@, 0xff) == Some(v as nat),
            None => padded_number(s@, 0xff) is None,
        },
{
    match remove_padding(s) {
        Some(t) => parse_u8(t),
        None => None,
    }
}

impl DateError {
    /// The refusal of `input` for the reason `kind`.
    pub fn new(kind: DateErrorKind, input: &str) -> (e: DateError)
        ensures
            e.kind == kind,
            e.input@ == input@,
    {
        DateError { kind, input: String::from_str(input) }
    }

    /// The sentence with which the refusal is reported; it quotes the input.
    pub open spec fn message_spec(kind: DateErrorKind, input: Seq<char>) -> Seq<char> {
        match kind {
            DateErrorKind::DateSeparator => "Failed to parse date ("@ + input + ")."@,
            DateErrorKind::DateFields => "Failed to parse year, month, date ("@ + input + ")."@,
            DateErrorKind::TimeSeparator => "Failed to parse time component ("@ + input + ")."@,
            DateErrorKind::TimeFields => "Failed to parse hours, minutes, seconds, tz ("@ + input
                + ")."@,
        }
    }

    /// The sentence with which the refusal is reported.
    pub fn message(&self) -> (m: String)
        ensures
            m@ == Self::message_spec(self.kind, self.input@),
    {
        let head = match self.kind {
            DateErrorKind::DateSeparator => "Failed to parse date (",
            DateErrorKind::DateFields => "Failed to parse year, month, date (",
            DateErrorKind::TimeSeparator => "Failed to parse time component (",
            DateErrorKind::TimeFields => "Failed to parse hours, minutes, seconds, tz (",
        };
        let mut m = String::from_str(head);
        m.append(self.input.as_str());
        m.append(").");
        m
    }
}

impl UtcFields {
    /// Whether the fields lie in the ranges of a calendar date and a time of day.
    pub open spec fn in_range(&self) -> bool {
        &&& 1 <= self.month <= 12
        &&& 1 <= self.day <= 31
        &&& self.hour <= 23
        &&& self.minute <= 59
        &&& self.second <= 59
    }
}

/// The calendar fields, in UTC, of the instant that lies `secs` seconds and
/// `nanos` nanoseconds after the beginning of 1970, as
/// `chrono::DateTime::from_timestamp` and the getters of `chrono::Datelike`
/// and `chrono::Timelike` give them. `None` where chrono has no such instant.
pub uninterp spec fn utc_fields_at(secs: i64, nanos: u32) -> Option<UtcFields>;

/// Asks `std::time::UNIX_EPOCH.elapsed` how long ago 1970 began, and gives the
/// whole seconds and the nanoseconds beyond them. `None` where the system
/// clock stands before 1970.
///
/// The contract claims nothing of the result: it is whatever the clock says.
#[verifier::external_body]
fn unix_time() -> Option<(u64, u32)> {
    match std::time::UNIX_EPOCH.elapsed() {
        Ok(elapsed) => Some((elapsed.as_secs(), elapsed.subsec_nanos())),
        Err(_) => None,
    }
}

/// Calls `chrono::DateTime::from_timestamp` and takes the calendar fields of
/// its result with the getters of `chrono::Datelike` and `chrono::Timelike`.
///
/// The contract gives the result the name [`utc_fields_at`], which it owes to
/// its arguments alone, and claims of it what chrono documents of the getters:
/// the month is between 1 and 12, the day between 1 and 31, the hour at most
/// 23, minute and second at most 59. Nothing is claimed of the year, nor of
/// the instants for which there is a result.
#[verifier::external_body]
fn utc_fields(secs: i64, nanos: u32) -> (fields: Option<UtcFields>)
    ensures
        fields == utc_fields_at(secs, nanos),
        fields matches Some(now) ==> now.in_range(),
{
    match chrono::DateTime::from_timestamp(secs, nanos) {
        Some(now) => Some(
            UtcFields {
                year: now.year(),
                month: now.month(),
                day: now.day(),
                hour: now.hour(),
                minute: now.minute(),
                second: now.second(),
            },
        ),
        None => None,
    }
}

impl View for ISO8601Date {
    type V = DateView;

    open spec fn view(&self) -> DateView {
        DateView {
            year: self.year as nat,
            month: self.month as nat,
            day: self.day as nat,
            hours: self.hours as nat,
            minutes: self.minutes as nat,
            seconds: self.seconds as nat,
            tz: self.tz@,
            raw: self.raw@,
        }
    }
}

impl ISO8601Date {
    /// What `from_utc` makes of the fields of an instant: the timezone is `Z`,
    /// the text a placeholder. `None` where a field does not fit its width.
    pub open spec fn utc_view(now: UtcFields) -> Option<DateView> {
        if 0 <= now.year <= 0xffff && now.month <= 0xff && now.day <= 0xff && now.hour <= 0xff
            && now.minute <= 0xff && now.second <= 0xff {
            Some(
                DateView {
                    year: now.year as nat,
                    month: now.month as nat,
                    day: now.day as nat,
                    hours: now.hour as nat,
                    minutes: now.minute as nat,
                    seconds: now.second as nat,
                    tz: seq!['Z'],
                    raw: raw_placeholder(),
                },
            )
        } else {
            None
        }
    }

    /// What `from_unix_time` makes of an instant given by its distance from
    /// the beginning of 1970.
    pub open spec fn unix_view(secs: u64, nanos: u32) -> Option<DateView> {
        if secs > i64::MAX as u64 {
            None
        } else {
            match utc_fields_at(secs as i64, nanos) {
                Some(now) => Self::utc_view(now),
                None => None,
            }
        }
    }

    /// Whether `date` can have come from a clock: its fields lie in the ranges
    /// of a calendar date and a time of day, the timezone is `Z` and the text
    /// is the placeholder.
    pub open spec fn is_clock_reading(date: DateView) -> bool {
        &&& 1 <= date.month <= 12
        &&& 1 <= date.day <= 31
        &&& date.hours <= 23
        &&& date.minutes <= 59
        &&& date.seconds <= 59
        &&& date.tz == seq!['Z']
        &&& date.raw == raw_placeholder()
    }

    /// Year, month and day of `s`.
    pub fn parse_date_component(s: &str) -> (r: Result<(u16, u8, u8), DateError>)
        ensures
            match r {
                Ok((y, m, d)) => date_component(s@) == Ok::<(nat, nat, nat), DateErrorKind>(
                    (y as nat, m as nat, d as nat),
                ),
                Err(e) => date_component(s@) == Err::<(nat, nat, nat), DateErrorKind>(e.kind)
                    && e.input@ == s@,
            },
    {
        match split_once(s, 'T') {
            None => Err(DateError::new(DateErrorKind::DateSeparator, s)),
            Some((date, _)) => match first_three_fields(date, '-') {
                None => Err(DateError::new(DateErrorKind::DateFields, s)),
                Some((a, b, c)) => {
                    let year = read_u16(a);
                    let month = read_u8(b);
                    let day = read_u8(c);
                    match (year, month, day) {
                        (Some(y), Some(m), Some(d)) => Ok((y, m, d)),
                        _ => Err(DateError::new(DateErrorKind::DateFields, s)),
                    }
                },
            },
        }
    }

    /// Hours, minutes, seconds and timezone suffix of `s`.
    pub fn parse_time_component(s: &str) -> (r: Result<(u8, u8, u8, String), DateError>)
        ensures
            match r {
                Ok((h, m, sec, tz)) => time_component(s@) == Ok::<
                    (nat, nat, nat, Seq<char>),
                    DateErrorKind,
                >((h as nat, m as nat, sec as nat, tz@)),
                Err(e) => time_component(s@) == Err::<(nat, nat, nat, Seq<char>), DateErrorKind>(
                    e.kind,
                ) && e.input@ == s@,
            },
    {
        match split_once(s, 'T') {
            None => Err(DateError::new(DateErrorKind::TimeSeparator, s)),
            Some((_, time)) => {
                let n = time.unicode_len();
                if n < 8 {
                    return Err(DateError::new(DateErrorKind::TimeFields, s));
                }
                let window = time.substring_char(0, 8);
                let tz = time.substring_char(8, n);
                match first_three_fields(window, ':') {
                    None => Err(DateError::new(DateErrorKind::TimeFields, s)),
                    Some((a, b, c)) => {
                        let hours = read_u8(a);
                        let minutes = read_u8(b);
                        let seconds = read_u8(c);
                        match (hours, minutes, seconds) {
                            (Some(h), Some(m), Some(sec)) => Ok((h, m, sec, String::from_str(tz))),
                            _ => Err(DateError::new(DateErrorKind::TimeFields, s)),
                        }
                    },
                }
            },
        }
    }

    /// Parses a timestamp. The result keeps `s` as its text, unchanged.
    pub fn from_str(s: &str) -> (r: Result<ISO8601Date, DateError>)
        ensures
            match r {
                Ok(date) => parse_timestamp(s@) == Ok::<DateView, DateErrorKind>(date@),
                Err(e) => parse_timestamp(s@) == Err::<DateView, DateErrorKind>(e.kind) && e.input@
                    == s@,
            },
    {
        let (year, month, day) = match Self::parse_date_component(s) {
            Ok(fields) => fields,
            Err(e) => {
                return Err(e);
            },
        };
        let (hours, minutes, seconds, tz) = match Self::parse_time_component(s) {
            Ok(fields) => fields,
            Err(e) => {
                return Err(e);
            },
        };
        Ok(ISO8601Date { year, month, day, hours, minutes, seconds, tz, raw: String::from_str(s) })
    }

    /// The timestamp of an instant whose calendar fields are `now`, with the
    /// timezone `Z`. It was not read from a text, so it holds a placeholder in
    /// place of one.
    pub fn from_utc(now: UtcFields) -> (r: Option<ISO8601Date>)
        ensures
            match r {
                Some(date) => Self::utc_view(now) == Some(date@),
                None => Self::utc_view(now) is None,
            },
    {
        if now.year < 0 || now.year > 0xffff || now.month > 0xff || now.day > 0xff || now.hour
            > 0xff || now.minute > 0xff || now.second > 0xff {
            return None;
        }
        proof {
            reveal_strlit("Z");
            reveal_strlit("FIXME");
            assert("Z"@ =~= seq!['Z']);
            assert("FIXME"@ =~= raw_placeholder());
        }
        Some(
            ISO8601Date {
                year: now.year as u16,
                month: now.month as u8,
                day: now.day as u8,
                hours: now.hour as u8,
                minutes: now.minute as u8,
                seconds: now.second as u8,
                tz: String::from_str("Z"),
                raw: String::from_str("FIXME"),
            },
        )
    }

    /// The timestamp of the instant that lies `secs` seconds and `nanos`
    /// nanoseconds after the beginning of 1970, in UTC. `None` where the
    /// calendar has no such instant, or where its year does not fit sixteen
    /// bits.
    pub fn from_unix_time(secs: u64, nanos: u32) -> (r: Option<ISO8601Date>)
        ensures
            match r {
                Some(date) => Self::unix_view(secs, nanos) == Some(date@),
                None => Self::unix_view(secs, nanos) is None,
            },
            r matches Some(date) ==> Self::is_clock_reading(date@),
    {
        if secs > i64::MAX as u64 {
            return None;
        }
        match utc_fields(secs as i64, nanos) {
            Some(now) => Self::from_utc(now),
            None => None,
        }
    }

    /// The current instant in UTC. `None` where the clock stands before 1970,
    /// or so late that the year does not fit sixteen bits. Whatever the clock
    /// says, the fields lie in their calendar ranges, the timezone is `Z` and
    /// the text is the placeholder.
    pub fn now_utc() -> (r: Option<ISO8601Date>)
        ensures
            r matches Some(date) ==> Self::is_clock_reading(date@),
    {
        match unix_time() {
            Some((secs, nanos)) => Self::from_unix_time(secs, nanos),
            None => None,
        }
    }

    /// The calendar-date key of the timestamp.
    pub fn as_date_str(&self) -> (key: String)
        ensures
            key@ == date_key(self@.year, self@.month, self@.day),
    {
        let mut key = String::new();
        push_decimal(&mut key, self.year as u32);
        key.append("-");
        push_decimal_padded(&mut key, self.month as u32);
        key.append("-");
        push_decimal_padded(&mut key, self.day as u32);
        proof {
            reveal_strlit("-");
            assert("-"@ =~= seq!['-']);
            assert(key@ =~= date_key(self.year as nat, self.month as nat, self.day as nat));
        }
        key
    }

    /// The timestamp as text: the string it was parsed from, character for
    /// character.
    pub fn to_string(&self) -> (text: String)
        ensures
            text@ == self@.raw,
    {
        self.raw.clone()
    }
}

// ---------------------------------------------------------------------------
// Laws
// ---------------------------------------------------------------------------

/// Whether `s` has the shape `YYYY-MM-DDTHH:MM:SS` with digits in the place of
/// the letters, followed by a suffix of any kind.
pub open spec fn is_canonical(s: Seq<char>) -> bool {
    &&& s.len() >= 19
    &&& all_digits(s.subrange(0, 4))
    &&& s[4] == '-'
    &&& all_digits(s.subrange(5, 7))
    &&& s[7] == '-'
    &&& all_digits(s.subrange(8, 10))
    &&& s[10] == 'T'
    &&& all_digits(s.subrange(11, 13))
    &&& s[13] == ':'
    &&& all_digits(s.subrange(14, 16))
    &&& s[16] == ':'
    &&& all_digits(s.subrange(17, 19))
}

/// The timestamp that a string of the canonical shape is expected to denote:
/// each field is the number that its digits write, the suffix is what follows
/// the seconds, and the text is the string itself.
pub open spec fn canonical_view(s: Seq<char>) -> DateView {
    DateView {
        year: digits_value(s.subrange(0, 4)),
        month: digits_value(s.subrange(5, 7)),
        day: digits_value(s.subrange(8, 10)),
        hours: digits_value(s.subrange(11, 13)),
        minutes: digits_value(s.subrange(14, 16)),
        seconds: digits_value(s.subrange(17, 19)),
        tz: s.skip(19),
        raw: s,
    }
}

/// A field of digits that is cut out of `s` holds no character but digits.
proof fn lemma_digit_field(s: Seq<char>, from: int, to: int, other: char)
    requires
        0 <= from <= to <= s.len(),
        all_digits(s.subrange(from, to)),
        !is_digit(other),
    ensures
        forall|j: int| from <= j < to ==> is_digit(s[j]) && s[j] != other,
        forall|j: int| 0 <= j < to - from ==> (#[trigger] s.subrange(from, to)[j]) != other,
{
    let f = s.subrange(from, to);
    assert forall|j: int| from <= j < to implies is_digit(s[j]) && s[j] != other by {
        assert(is_digit(f[j - from]));
    }
    assert forall|j: int| 0 <= j < to - from implies (#[trigger] f[j]) != other by {
        assert(is_digit(f[j]));
    }
}

/// Every string of the canonical shape is a timestamp, and the one expected.
pub proof fn lemma_canonical_parses(s: Seq<char>)
    requires
        is_canonical(s),
    ensures
        parse_timestamp(s) == Ok::<DateView, DateErrorKind>(canonical_view(s)),
{
    let year = s.subrange(0, 4);
    let month = s.subrange(5, 7);
    let day = s.subrange(8, 10);
    let hours = s.subrange(11, 13);
    let minutes = s.subrange(14, 16);
    let seconds = s.subrange(17, 19);
    lemma_digit_field(s, 0, 4, 'T');
    lemma_digit_field(s, 5, 7, 'T');
    lemma_digit_field(s, 8, 10, 'T');
    lemma_prefix_len_is(s, 'T', 10);
    let date = s.take(10);
    let time = s.skip(11);
    assert(split_once_spec(s, 'T') == Some((date, time)));
    lemma_digit_field(s, 0, 4, '-');
    lemma_digit_field(s, 5, 7, '-');
    lemma_digit_field(s, 8, 10, '-');
    assert(date =~= year + seq!['-'] + month + seq!['-'] + day);
    lemma_three_fields(year, month, day, '-');
    let window = time.take(8);
    lemma_digit_field(s, 11, 13, ':');
    lemma_digit_field(s, 14, 16, ':');
    lemma_digit_field(s, 17, 19, ':');
    assert(window =~= hours + seq![':'] + minutes + seq![':'] + seconds);
    lemma_three_fields(hours, minutes, seconds, ':');
    assert(time.skip(8) =~= s.skip(19));
    assert(pow10(4) == 10000 && pow10(2) == 100) by {
        reveal_with_fuel(pow10, 5);
    }
    lemma_digits_value_bound(year);
    lemma_digits_value_bound(month);
    lemma_digits_value_bound(day);
    lemma_digits_value_bound(hours);
    lemma_digits_value_bound(minutes);
    lemma_digits_value_bound(seconds);
    lemma_padded_number(year, 0xffff);
    lemma_padded_number(month, 0xff);
    lemma_padded_number(day, 0xff);
    lemma_padded_number(hours, 0xff);
    lemma_padded_number(minutes, 0xff);
    lemma_padded_number(seconds, 0xff);
}

/// Whatever string is a timestamp, the timestamp is written as that string:
/// parsing and writing again gives the input back, character for character.
pub proof fn lemma_raw_round_trip(s: Seq<char>)
    ensures
        parse_timestamp(s) matches Ok(date) ==> date.raw == s,
        is_canonical(s) ==> parse_timestamp(s) is Ok,
{
    if is_canonical(s) {
        lemma_canonical_parses(s);
    }
}

/// A string without `T` is no timestamp, and is refused for its date.
pub proof fn lemma_missing_separator(s: Seq<char>)
    requires
        !s.contains('T'),
    ensures
        parse_timestamp(s) == Err::<DateView, DateErrorKind>(DateErrorKind::DateSeparator),
{
    assert forall|j: int| 0 <= j < s.len() implies s[j] != 'T' by {
        assert(s.contains(s[j]));
    }
    lemma_prefix_len_is(s, 'T', s.len() as int);
}

/// The date key of a timestamp of the canonical shape whose year does not
/// begin with `0` is the date as it stands in the string: its first ten
/// characters.
pub proof fn lemma_canonical_date_key(s: Seq<char>)
    requires
        is_canonical(s),
        s[0] != '0',
    ensures
        parse_timestamp(s) matches Ok(date) && date_key(date.year, date.month, date.day) == s.take(
            10,
        ),
{
    lemma_canonical_parses(s);
    let year = s.subrange(0, 4);
    let month = s.subrange(5, 7);
    let day = s.subrange(8, 10);
    assert(year[0] == s[0]);
    lemma_decimal_of_value(year);
    lemma_decimal_padded_of_value(month);
    lemma_decimal_padded_of_value(day);
    assert(s.take(10) =~= year + seq!['-'] + month + seq!['-'] + day);
}

/// Two dates have the same key only if they are the same date.
pub proof fn lemma_date_key_injective(
    year1: nat,
    month1: nat,
    day1: nat,
    year2: nat,
    month2: nat,
    day2: nat,
)
    requires
        date_key(year1, month1, day1) == date_key(year2, month2, day2),
    ensures
        year1 == year2,
        month1 == month2,
        day1 == day2,
{
    lemma_date_key_parts(year1, month1, day1);
    lemma_date_key_parts(year2, month2, day2);
    lemma_decimal_value(year1);
    lemma_decimal_value(year2);
    lemma_decimal_padded_value(month1);
    lemma_decimal_padded_value(month2);
    lemma_decimal_padded_value(day1);
    lemma_decimal_padded_value(day2);
}

/// A date key cut at its first `-`, and the rest cut at its first `-` again,
/// gives the three numbers as they were written.
proof fn lemma_date_key_parts(year: nat, month: nat, day: nat)
    ensures
        split_once_spec(date_key(year, month, day), '-') == Some(
            (decimal(year), decimal_padded(month) + seq!['-'] + decimal_padded(day)),
        ),
        split_once_spec(decimal_padded(month) + seq!['-'] + decimal_padded(day), '-') == Some(
            (decimal_padded(month), decimal_padded(day)),
        ),
{
    let a = decimal(year);
    let b = decimal_padded(month);
    let c = decimal_padded(day);
    lemma_decimal_value(year);
    lemma_decimal_padded_value(month);
    assert forall|j: int| 0 <= j < a.len() implies a[j] != '-' by {
        assert(is_digit(a[j]));
    }
    assert forall|j: int| 0 <= j < b.len() implies b[j] != '-' by {
        assert(is_digit(b[j]));
    }
    let rest = b + seq!['-'] + c;
    assert(date_key(year, month, day) =~= a + seq!['-'] + rest);
    lemma_split_joined(a, '-', rest);
    lemma_split_joined(b, '-', c);
}

} // verus!
