//! Calendar dates and timestamps as plain integers.

use crate::digits::{digit_value, is_digit, lemma_digit_char, padded_text};
use chrono::{Datelike, Timelike};
use vstd::prelude::*;

verus! {

/// The earliest year a date can carry.
pub const MIN_YEAR: i32 = -262143;

/// The latest year a date can carry.
pub const MAX_YEAR: i32 = 262142;

/// Whether `year` is a leap year of the proleptic Gregorian calendar.
pub open spec fn is_leap_year(year: int) -> bool {
    year % 4 == 0 && (year % 100 != 0 || year % 400 == 0)
}

/// The number of days of `month` in `year`; 0 where `month` is no month.
pub open spec fn days_in_month(year: int, month: int) -> int {
    if month == 2 {
        if is_leap_year(year) {
            29
        } else {
            28
        }
    } else if month == 4 || month == 6 || month == 9 || month == 11 {
        30
    } else if 1 <= month <= 12 {
        31
    } else {
        0
    }
}

/// Whether the three numbers name a day of the calendar within the years
/// that a date can carry.
pub open spec fn valid_date(year: int, month: int, day: int) -> bool {
    &&& MIN_YEAR <= year <= MAX_YEAR
    &&& 1 <= month <= 12
    &&& 1 <= day <= days_in_month(year, month)
}

/// Whether the four numbers name a time of day. A nanosecond count of a
/// billion or more stands for a leap second and is only valid in second 59.
pub open spec fn valid_time(hour: int, minute: int, second: int, nanosecond: int) -> bool {
    &&& 0 <= hour < 24
    &&& 0 <= minute < 60
    &&& 0 <= second < 60
    &&& 0 <= nanosecond < 2_000_000_000
    &&& (nanosecond >= 1_000_000_000 ==> second == 59)
}

/// Executable form of [`is_leap_year`].
pub fn leap_year(year: i32) -> (leap: bool)
    requires
        MIN_YEAR <= year <= MAX_YEAR,
    ensures
        leap == is_leap_year(year as int),
{
    // 262400 is a multiple of 400, so the shift keeps every remainder.
    let shifted: u32 = (year + 262400) as u32;
    shifted % 4 == 0 && (shifted % 100 != 0 || shifted % 400 == 0)
}

/// Executable form of [`days_in_month`].
pub fn month_length(year: i32, month: u32) -> (days: u32)
    requires
        MIN_YEAR <= year <= MAX_YEAR,
    ensures
        days == days_in_month(year as int, month as int),
{
    if month == 2 {
        if leap_year(year) {
            29
        } else {
            28
        }
    } else if month == 4 || month == 6 || month == 9 || month == 11 {
        30
    } else if 1 <= month && month <= 12 {
        31
    } else {
        0
    }
}

/// A calendar day: the key by which records are routed.
#[derive(Clone, Copy, Debug, PartialEq, Eq, Hash, Structural)]
pub struct DateKey {
    pub year: i32,
    pub month: u32,
    pub day: u32,
}

impl DateKey {
    /// The key names a day that exists.
    pub open spec fn wf(&self) -> bool {
        valid_date(self.year as int, self.month as int, self.day as int)
    }

    /// Makes the key of the given day, if there is such a day.
    pub fn new(year: i32, month: u32, day: u32) -> (key: Option<DateKey>)
        ensures
            key == if valid_date(year as int, month as int, day as int) {
                Some(DateKey { year, month, day })
            } else {
                None::<DateKey>
            },
    {
        if year < MIN_YEAR || year > MAX_YEAR {
            return None;
        }
        if month < 1 || month > 12 || day < 1 || day > month_length(year, month) {
            return None;
        }
        Some(DateKey { year, month, day })
    }

    /// Whether the key names a day that exists.
    pub fn is_valid(&self) -> (valid: bool)
        ensures
            valid == self.wf(),
    {
        MIN_YEAR <= self.year && self.year <= MAX_YEAR && 1 <= self.month && self.month <= 12
            && 1 <= self.day && self.day <= month_length(self.year, self.month)
    }
}

/// A point in time without a time zone, as read from a record.
#[derive(Clone, Copy, Debug, PartialEq, Eq, Structural)]
pub struct Timestamp {
    pub date: DateKey,
    pub hour: u32,
    pub minute: u32,
    pub second: u32,
    pub nanosecond: u32,
}

impl Timestamp {
    /// The date exists and the time is a time of day.
    pub open spec fn wf(&self) -> bool {
        &&& self.date.wf()
        &&& valid_time(
            self.hour as int,
            self.minute as int,
            self.second as int,
            self.nanosecond as int,
        )
    }

    /// The day on which the timestamp falls: its date component, unchanged.
    pub fn date_key(&self) -> (key: DateKey)
        ensures
            key == self.date,
    {
        self.date
    }

    /// Whether the date exists and the time is a time of day.
    pub fn is_valid(&self) -> (valid: bool)
        ensures
            valid == self.wf(),
    {
        self.date.is_valid() && self.hour < 24 && self.minute < 60 && self.second < 60
            && self.nanosecond < 2_000_000_000 && (self.nanosecond < 1_000_000_000
            || self.second == 59)
    }
}

/// The pattern in which a record writes its timestamp: date, time of day,
/// a comma and the digits of the fraction.
pub open spec fn timestamp_pattern() -> Seq<char> {
    "%Y-%m-%d %H:%M:%S,%f"@
}

/// The pattern in which a day is written in the name of its target.
pub open spec fn date_pattern() -> Seq<char> {
    "%Y-%m-%d"@
}

/// The text that `chrono` writes for a day under `pattern`.
pub uninterp spec fn chrono_date_text(key: DateKey, pattern: Seq<char>) -> Seq<char>;

/// The text that `chrono` writes for a timestamp under `pattern`.
pub uninterp spec fn chrono_datetime_text(stamp: Timestamp, pattern: Seq<char>) -> Seq<char>;

/// The error of `chrono`'s parser, carried to where it is dropped for
/// `None`.
#[verifier::external_type_specification]
#[verifier::external_body]
pub struct ExChronoParseError(chrono::ParseError);

/// Whether `c` may stand at place `i` of a timestamp: hyphens part the
/// date, a space parts date and time, colons part the time, a comma stands
/// before the fraction, and every other place holds a digit.
pub open spec fn fits_fixed_form(i: int, c: char) -> bool {
    if i == 4 || i == 7 {
        c == '-'
    } else if i == 10 {
        c == ' '
    } else if i == 13 || i == 16 {
        c == ':'
    } else if i == 19 {
        c == ','
    } else {
        is_digit(c)
    }
}

/// Whether the text has the fixed form of a timestamp, `YYYY-MM-DD
/// HH:MM:SS,mmm`: 23 characters, each of the kind its place asks for.
pub open spec fn fixed_form(text: Seq<char>) -> bool {
    &&& text.len() == 23
    &&& forall|i: int| 0 <= i < 23 ==> fits_fixed_form(i, #[trigger] text[i])
}

/// The number written by the `width` digits that begin at `start`.
pub open spec fn number_at(text: Seq<char>, start: int, width: nat) -> nat
    decreases width,
{
    if width == 0 {
        0
    } else {
        number_at(text, start, (width - 1) as nat) * 10 + digit_value(text[start + width - 1])
    }
}

/// The number of nanoseconds in a millisecond.
pub const NANOS_PER_MILLI: u32 = 1_000_000;

/// The number of nanoseconds in a second.
pub const NANOS_PER_SECOND: u32 = 1_000_000_000;

/// The timestamp that the digits of a text of the fixed form write, `None`
/// where they name no day or no time of day. Each of the three digits of
/// the fraction counts `unit` nanoseconds. Second 60 is a leap second: it
/// is held as second 59 with a second of nanoseconds more.
pub open spec fn stamp_of_digits(text: Seq<char>, unit: nat) -> Option<Timestamp> {
    let year = number_at(text, 0, 4);
    let month = number_at(text, 5, 2);
    let day = number_at(text, 8, 2);
    let hour = number_at(text, 11, 2);
    let minute = number_at(text, 14, 2);
    let second = number_at(text, 17, 2);
    let fraction = number_at(text, 20, 3);
    if valid_date(year as int, month as int, day as int) && hour < 24 && minute < 60 && second
        <= 60 {
        Some(
            Timestamp {
                date: DateKey { year: year as i32, month: month as u32, day: day as u32 },
                hour: hour as u32,
                minute: minute as u32,
                second: if second == 60 {
                    59u32
                } else {
                    second as u32
                },
                nanosecond: if second == 60 {
                    (NANOS_PER_SECOND + fraction * unit) as u32
                } else {
                    (fraction * unit) as u32
                },
            },
        )
    } else {
        None
    }
}

/// Calls `chrono::NaiveDateTime::parse_from_str` and hands the fields of what
/// it read out as integers. The contract states two things of `chrono`.
/// Every value of its type is a day that exists, within the years it
/// supports, at a time of day. And a text of the fixed form, under the
/// pattern of a timestamp, is read digit by digit: each item of the pattern
/// takes the digits of its width, the fraction counts nanoseconds, and the
/// text is refused exactly where the numbers name no day or no time.
#[verifier::external_body]
fn read_naive(text: &str, pattern: &str) -> (read: Result<Timestamp, chrono::ParseError>)
    ensures
        read matches Ok(stamp) ==> stamp.wf(),
        pattern@ == timestamp_pattern() && fixed_form(text@) ==> match read {
            Ok(stamp) => stamp_of_digits(text@, 1) == Some(stamp),
            Err(_) => stamp_of_digits(text@, 1) is None,
        },
{
    let naive = chrono::NaiveDateTime::parse_from_str(text, pattern)?;
    Ok(Timestamp {
        date: DateKey { year: naive.year(), month: naive.month(), day: naive.day() },
        hour: naive.hour(),
        minute: naive.minute(),
        second: naive.second(),
        nanosecond: naive.nanosecond(),
    })
}

/// A day written as four digits of the year, two of the month and two of
/// the day, with hyphens between them.
pub open spec fn iso_date_text(key: DateKey) -> Seq<char> {
    padded_text(key.year as nat, 4) + seq!['-'] + padded_text(key.month as nat, 2) + seq!['-']
        + padded_text(key.day as nat, 2)
}

/// Calls `chrono::NaiveDate::format` on the day that the key names. The
/// contract gives the text the name [`chrono_date_text`]; it is asked for
/// the one pattern the library uses, and for days that exist. For the
/// years 0 to 9999 it adds what `chrono` documents of the three items of
/// the pattern: the year padded with zeros to four digits, month and day
/// to two.
#[verifier::external_body]
fn write_naive_date(key: &DateKey, pattern: &str) -> (text: String)
    requires
        key.wf(),
        pattern@ == date_pattern(),
    ensures
        text@ == chrono_date_text(*key, pattern@),
        0 <= key.year <= 9999 ==> text@ == iso_date_text(*key),
{
    chrono::NaiveDate::from_ymd_opt(key.year, key.month, key.day).unwrap().format(
        pattern,
    ).to_string()
}

/// A timestamp written in full: the day, a space, hour, minute and second
/// in two digits each with colons between them, a comma, and the
/// nanoseconds of the second in nine digits. A leap second is written as
/// second 60.
pub open spec fn full_text(stamp: Timestamp) -> Seq<char> {
    iso_date_text(stamp.date) + seq![' '] + padded_text(stamp.hour as nat, 2) + seq![':']
        + padded_text(stamp.minute as nat, 2) + seq![':'] + padded_text(
        (stamp.second + stamp.nanosecond / NANOS_PER_SECOND) as nat,
        2,
    ) + seq![','] + padded_text((stamp.nanosecond % NANOS_PER_SECOND) as nat, 9)
}

/// Calls `chrono::NaiveDateTime::format` on the timestamp. The contract
/// gives the text the name [`chrono_datetime_text`]; it is asked for the one
/// pattern the library uses, and for timestamps that exist. For the years
/// 0 to 9999 it adds what `chrono` writes for the items of the pattern:
/// each number padded with zeros to its width, the nanoseconds to nine
/// digits.
#[verifier::external_body]
fn write_naive(stamp: &Timestamp, pattern: &str) -> (text: String)
    requires
        stamp.wf(),
        pattern@ == timestamp_pattern(),
    ensures
        text@ == chrono_datetime_text(*stamp, pattern@),
        0 <= stamp.date.year <= 9999 ==> text@ == full_text(*stamp),
{
    chrono::NaiveDate::from_ymd_opt(stamp.date.year, stamp.date.month, stamp.date.day)
        .unwrap()
        .and_hms_nano_opt(stamp.hour, stamp.minute, stamp.second, stamp.nanosecond)
        .unwrap()
        .format(pattern)
        .to_string()
}

impl DateKey {
    /// The day as it is written in the name of its target.
    pub open spec fn text(&self) -> Seq<char> {
        chrono_date_text(*self, date_pattern())
    }

    /// Writes the day as year, month and day.
    pub fn to_text(&self) -> (text: String)
        requires
            self.wf(),
        ensures
            text@ == self.text(),
            0 <= self.year <= 9999 ==> text@ == iso_date_text(*self),
    {
        write_naive_date(self, "%Y-%m-%d")
    }
}

impl Timestamp {
    /// The timestamp as a record writes it.
    pub open spec fn text(&self) -> Seq<char> {
        chrono_datetime_text(*self, timestamp_pattern())
    }

    /// Writes the timestamp in the pattern it is read in, with the
    /// fraction in nanoseconds.
    pub fn to_text(&self) -> (text: String)
        requires
            self.wf(),
        ensures
            text@ == self.text(),
            0 <= self.date.year <= 9999 ==> text@ == full_text(*self),
    {
        write_naive(self, "%Y-%m-%d %H:%M:%S,%f")
    }
}

/// The day that the first ten characters of a text write, read on their
/// own: four digits of the year, two of the month, two of the day.
pub open spec fn day_of_digits(text: Seq<char>) -> DateKey {
    DateKey {
        year: number_at(text, 0, 4) as i32,
        month: number_at(text, 5, 2) as u32,
        day: number_at(text, 8, 2) as u32,
    }
}

/// The timestamp written in `text`: `None` on any deviation from the fixed
/// form, and where the numbers name no day or no time of day. The three
/// digits of the fraction are milliseconds.
pub open spec fn timestamp_of_text(text: Seq<char>) -> Option<Timestamp> {
    if fixed_form(text) {
        stamp_of_digits(text, NANOS_PER_MILLI as nat)
    } else {
        None
    }
}

/// Whether the text has the fixed form of a timestamp.
pub fn is_fixed_form(text: &str) -> (fixed: bool)
    ensures
        fixed == fixed_form(text@),
{
    if text.unicode_len() != 23 {
        return false;
    }
    let mut i: usize = 0;
    while i < 23
        invariant
            i <= 23,
            text@.len() == 23,
            forall|j: int| 0 <= j < i ==> fits_fixed_form(j, #[trigger] text@[j]),
        decreases 23 - i,
    {
        let c = text.get_char(i);
        let fits = if i == 4 || i == 7 {
            c == '-'
        } else if i == 10 {
            c == ' '
        } else if i == 13 || i == 16 {
            c == ':'
        } else if i == 19 {
            c == ','
        } else {
            0x30 <= c as u32 && c as u32 <= 0x39
        };
        if !fits {
            assert(!fits_fixed_form(i as int, text@[i as int]));
            return false;
        }
        i += 1;
    }
    true
}

/// In a text of the fixed form, the digits that begin at `start` write a
/// number below ten to the power of their count.
proof fn lemma_number_bounds(text: Seq<char>)
    requires
        fixed_form(text),
    ensures
        number_at(text, 0, 4) <= 9999,
        number_at(text, 5, 2) <= 99,
        number_at(text, 8, 2) <= 99,
        number_at(text, 11, 2) <= 99,
        number_at(text, 14, 2) <= 99,
        number_at(text, 17, 2) <= 99,
        number_at(text, 20, 3) <= 999,
{
    reveal_with_fuel(number_at, 5);
    assert(fits_fixed_form(0, text[0]) && fits_fixed_form(1, text[1]) && fits_fixed_form(
        2,
        text[2],
    ) && fits_fixed_form(3, text[3]));
    assert(fits_fixed_form(5, text[5]) && fits_fixed_form(6, text[6]));
    assert(fits_fixed_form(8, text[8]) && fits_fixed_form(9, text[9]));
    assert(fits_fixed_form(11, text[11]) && fits_fixed_form(12, text[12]));
    assert(fits_fixed_form(14, text[14]) && fits_fixed_form(15, text[15]));
    assert(fits_fixed_form(17, text[17]) && fits_fixed_form(18, text[18]));
    assert(fits_fixed_form(20, text[20]) && fits_fixed_form(21, text[21]) && fits_fixed_form(
        22,
        text[22],
    ));
}

/// Digits that write a number are the number written in as many digits.
proof fn lemma_padded_digits(text: Seq<char>, start: int, width: nat)
    requires
        0 <= start,
        start + width <= text.len(),
        forall|i: int| start <= i < start + width ==> is_digit(#[trigger] text[i]),
    ensures
        padded_text(number_at(text, start, width), width) == text.subrange(
            start,
            start + width,
        ),
    decreases width,
{
    if width == 0 {
        assert(padded_text(number_at(text, start, width), width) =~= text.subrange(
            start,
            start + width,
        ));
    } else {
        let shorter = (width - 1) as nat;
        let c = text[start + width - 1];
        assert(is_digit(c));
        lemma_padded_digits(text, start, shorter);
        let n = number_at(text, start, width);
        assert(n == number_at(text, start, shorter) * 10 + digit_value(c));
        assert(n / 10 == number_at(text, start, shorter));
        assert(n % 10 == digit_value(c));
        lemma_digit_char(c);
        assert(padded_text(n, width) =~= text.subrange(start, start + width));
    }
}

/// A number of milliseconds, counted in nanoseconds and written in nine
/// digits, is its three digits and six zeros.
proof fn lemma_padded_millis(fraction: nat)
    ensures
        padded_text(fraction * 1_000_000, 9) == padded_text(fraction, 3) + seq![
            '0', '0', '0', '0', '0', '0',
        ],
{
    reveal_with_fuel(padded_text, 7);
    assert((fraction * 1_000_000) / 10 == fraction * 100_000);
    assert((fraction * 100_000) / 10 == fraction * 10_000);
    assert((fraction * 10_000) / 10 == fraction * 1_000);
    assert((fraction * 1_000) / 10 == fraction * 100);
    assert((fraction * 100) / 10 == fraction * 10);
    assert((fraction * 10) / 10 == fraction);
    assert(padded_text(fraction * 1_000_000, 9) =~= padded_text(fraction, 3) + seq![
        '0', '0', '0', '0', '0', '0',
    ]);
}

/// Writing a timestamp that was read from a text gives the text back,
/// date and time of day character for character, followed by six zeros:
/// the fraction, read in milliseconds, is written in nanoseconds.
pub proof fn lemma_written_as_read(text: Seq<char>, stamp: Timestamp)
    requires
        timestamp_of_text(text) == Some(stamp),
    ensures
        0 <= stamp.date.year <= 9999,
        full_text(stamp) == text + seq!['0', '0', '0', '0', '0', '0'],
        full_text(stamp).take(19) == text.take(19),
{
    lemma_number_bounds(text);
    assert forall|i: int| 0 <= i < 23 && i != 4 && i != 7 && i != 10 && i != 13 && i != 16 && i
        != 19 implies is_digit(#[trigger] text[i]) by {
        assert(fits_fixed_form(i, text[i]));
    }
    assert(fits_fixed_form(4, text[4]) && fits_fixed_form(7, text[7]) && fits_fixed_form(
        10,
        text[10],
    ) && fits_fixed_form(13, text[13]) && fits_fixed_form(16, text[16]) && fits_fixed_form(
        19,
        text[19],
    ));
    lemma_padded_digits(text, 0, 4);
    lemma_padded_digits(text, 5, 2);
    lemma_padded_digits(text, 8, 2);
    lemma_padded_digits(text, 11, 2);
    lemma_padded_digits(text, 14, 2);
    lemma_padded_digits(text, 17, 2);
    lemma_padded_digits(text, 20, 3);
    let fraction = number_at(text, 20, 3);
    lemma_padded_millis(fraction);
    let second = number_at(text, 17, 2);
    assert((stamp.second + stamp.nanosecond / NANOS_PER_SECOND) as nat == second);
    assert((stamp.nanosecond % NANOS_PER_SECOND) as nat == fraction * 1_000_000);
    let written = full_text(stamp);
    let wanted = text + seq!['0', '0', '0', '0', '0', '0'];
    assert(written =~= wanted);
    assert(written.take(19) =~= text.take(19));
}

/// Reads a timestamp written in the fixed form `YYYY-MM-DD HH:MM:SS,mmm`.
pub fn parse_timestamp(text: &str) -> (read: Option<Timestamp>)
    ensures
        read == timestamp_of_text(text@),
        read matches Some(stamp) ==> stamp.wf(),
{
    if !is_fixed_form(text) {
        return None;
    }
    proof {
        lemma_number_bounds(text@);
    }
    match read_naive(text, "%Y-%m-%d %H:%M:%S,%f") {
        Err(_) => None,
        Ok(counted) => {
            let leap = counted.nanosecond >= NANOS_PER_SECOND;
            let fraction = if leap {
                counted.nanosecond - NANOS_PER_SECOND
            } else {
                counted.nanosecond
            };
            let nanosecond = if leap {
                NANOS_PER_SECOND + fraction * NANOS_PER_MILLI
            } else {
                fraction * NANOS_PER_MILLI
            };
            Some(
                Timestamp {
                    date: counted.date,
                    hour: counted.hour,
                    minute: counted.minute,
                    second: counted.second,
                    nanosecond,
                },
            )
        },
    }
}

} // verus!
