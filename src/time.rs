//! The library's time type: non-leap seconds since 1970-01-01 00:00:00 UTC,
//! and the Gregorian calendar arithmetic that produces it from civil fields.

use vstd::prelude::*;

use crate::der::{der_value, read_tag_and_get_value, slice_range, TAG_GENERALIZED_TIME, TAG_UTC_TIME};
use crate::error::{DerTypeId, Error};

verus! {

/// A count of non-leap seconds since the start of 1970, in UTC.
#[derive(Debug, Clone, Copy, PartialEq, Eq, PartialOrd, Structural)]
pub struct Time(u64);

impl View for Time {
    type V = u64;

    closed spec fn view(&self) -> u64 {
        self.0
    }
}

impl Time {
    /// Creates a time from a UNIX timestamp.
    pub fn from_seconds_since_unix_epoch(secs: u64) -> (r: Self)
        ensures
            r@ == secs,
    {
        Time(secs)
    }

    /// The number of seconds since the UNIX epoch.
    pub fn as_secs(&self) -> (r: u64)
        ensures
            r == self@,
    {
        self.0
    }
}

/// The first year that a time can fall in.
pub const UNIX_EPOCH_YEAR: u64 = 1970;

/// All the days up to and including 1969, plus the 477 leap days since AD
/// began (by Gregorian rules).
pub const DAYS_BEFORE_UNIX_EPOCH_AD: u64 = 1969 * 365 + 477;

/// The largest year that four decimal digits can write.
pub const MAX_YEAR: u64 = 9999;

/// Gregorian leap years: divisible by 4 and not by 100, or divisible by 400.
pub open spec fn is_leap_year(year: int) -> bool {
    year % 4 == 0 && (year % 100 != 0 || year % 400 == 0)
}

/// The length of February in `year`.
pub open spec fn feb_days(year: int) -> int {
    if is_leap_year(year) {
        29
    } else {
        28
    }
}

/// The length of month `month` (1 to 12) of `year`.
pub open spec fn month_days(year: int, month: int) -> int {
    if month == 2 {
        feb_days(year)
    } else if month == 4 || month == 6 || month == 9 || month == 11 {
        30
    } else {
        31
    }
}

/// The number of days in the months of `year` that come before `month`.
pub open spec fn days_before_month(year: int, month: int) -> int {
    let common: int = if month == 1 {
        0
    } else if month == 2 {
        31
    } else if month == 3 {
        59
    } else if month == 4 {
        90
    } else if month == 5 {
        120
    } else if month == 6 {
        151
    } else if month == 7 {
        181
    } else if month == 8 {
        212
    } else if month == 9 {
        243
    } else if month == 10 {
        273
    } else if month == 11 {
        304
    } else {
        334
    };
    if month > 2 && is_leap_year(year) {
        common + 1
    } else {
        common
    }
}

/// The number of days from 0001-01-01 up to the first day of `year`.
pub open spec fn days_before_year(year: int) -> int {
    (year - 1) * 365 + (year - 1) / 4 - (year - 1) / 100 + (year - 1) / 400
}

/// Whether the fields name a second of the civil calendar.
pub open spec fn valid_civil(year: int, month: int, day: int, hours: int, minutes: int, seconds: int) -> bool {
    1 <= month <= 12 && 1 <= day <= month_days(year, month) && 0 <= hours <= 23 && 0 <= minutes
        <= 59 && 0 <= seconds <= 59
}

/// The UNIX time of a civil date and time of day in UTC.
pub open spec fn civil_seconds(
    year: int,
    month: int,
    day: int,
    hours: int,
    minutes: int,
    seconds: int,
) -> int {
    (days_before_year(year) - days_before_year(1970) + days_before_month(year, month) + day - 1)
        * 86400 + hours * 3600 + minutes * 60 + seconds
}

proof fn lemma_days_before_year_bounds(year: int)
    requires
        1 <= year <= 9999,
    ensures
        0 <= days_before_year(year) <= 3652059,
        year >= 1970 ==> days_before_year(year) >= days_before_year(1970),
        days_before_year(1970) == 719162,
{
    let x = year - 1;
    assert(x / 100 <= x / 4) by (nonlinear_arith)
        requires
            x >= 0,
    ;
    assert(x / 4 <= 2499 && x / 100 <= 99 && x / 400 <= 24) by (nonlinear_arith)
        requires
            0 <= x <= 9998,
    ;
    if year >= 1970 {
        assert(x / 4 >= 492 && x / 400 >= 4) by (nonlinear_arith)
            requires
                x >= 1969,
        ;
        assert(x / 100 <= 19 + (x - 1969)) by (nonlinear_arith)
            requires
                x >= 1969,
        ;
    }
}

/// Converts a civil UTC date and time to a `Time`; years before 1970 are
/// rejected with `BadDerTime`.
pub fn time_from_ymdhms_utc(
    year: u64,
    month: u64,
    day_of_month: u64,
    hours: u64,
    minutes: u64,
    seconds: u64,
) -> (r: Result<Time, Error>)
    requires
        year <= MAX_YEAR,
        valid_civil(year as int, month as int, day_of_month as int, hours as int, minutes as int, seconds as int),
    ensures
        year < UNIX_EPOCH_YEAR ==> r == Err::<Time, Error>(Error::BadDerTime),
        year >= UNIX_EPOCH_YEAR ==> (r matches Ok(t) && t@ == civil_seconds(
            year as int,
            month as int,
            day_of_month as int,
            hours as int,
            minutes as int,
            seconds as int,
        )),
{
    let days_before_year_since_unix_epoch = match days_before_year_since_unix_epoch(year) {
        Ok(d) => d,
        Err(e) => return Err(e),
    };
    proof {
        lemma_days_before_year_bounds(year as int);
    }
    let jan: u64 = 31;
    let feb = days_in_feb(year);
    let mar: u64 = 31;
    let apr: u64 = 30;
    let may: u64 = 31;
    let jun: u64 = 30;
    let jul: u64 = 31;
    let aug: u64 = 31;
    let sep: u64 = 30;
    let oct: u64 = 31;
    let nov: u64 = 30;
    let days_before_month_in_year: u64 = match month {
        1 => 0,
        2 => jan,
        3 => jan + feb,
        4 => jan + feb + mar,
        5 => jan + feb + mar + apr,
        6 => jan + feb + mar + apr + may,
        7 => jan + feb + mar + apr + may + jun,
        8 => jan + feb + mar + apr + may + jun + jul,
        9 => jan + feb + mar + apr + may + jun + jul + aug,
        10 => jan + feb + mar + apr + may + jun + jul + aug + sep,
        11 => jan + feb + mar + apr + may + jun + jul + aug + sep + oct,
        _ => jan + feb + mar + apr + may + jun + jul + aug + sep + oct + nov,
    };
    let days_before = days_before_year_since_unix_epoch + days_before_month_in_year + day_of_month
        - 1;
    let seconds_since_unix_epoch = (days_before * 24 * 60 * 60) + (hours * 60 * 60) + (minutes
        * 60) + seconds;
    Ok(Time::from_seconds_since_unix_epoch(seconds_since_unix_epoch))
}

/// The number of days from 1970-01-01 to the first day of `year`; years
/// before 1970 are rejected with `BadDerTime`.
pub fn days_before_year_since_unix_epoch(year: u64) -> (r: Result<u64, Error>)
    requires
        year <= MAX_YEAR,
    ensures
        year < UNIX_EPOCH_YEAR ==> r == Err::<u64, Error>(Error::BadDerTime),
        year >= UNIX_EPOCH_YEAR ==> r == Ok::<u64, Error>(
            (days_before_year(year as int) - days_before_year(1970)) as u64,
        ),
        year >= UNIX_EPOCH_YEAR ==> days_before_year(year as int) >= days_before_year(1970),
{
    if year < UNIX_EPOCH_YEAR {
        return Err(Error::BadDerTime);
    }
    proof {
        lemma_days_before_year_bounds(year as int);
    }
    let days_before_year_ad = days_before_year_ad(year);
    Ok(days_before_year_ad - DAYS_BEFORE_UNIX_EPOCH_AD)
}

/// The number of days from 0001-01-01 to the first day of `year`.
pub fn days_before_year_ad(year: u64) -> (r: u64)
    requires
        1 <= year <= MAX_YEAR,
    ensures
        r == days_before_year(year as int),
{
    proof {
        lemma_days_before_year_bounds(year as int);
    }
    ((year - 1) * 365) + ((year - 1) / 4) - ((year - 1) / 100) + ((year - 1) / 400)
}

/// The length of month `month` (1 to 12) of `year`.
pub fn days_in_month(year: u64, month: u64) -> (r: u64)
    requires
        1 <= month <= 12,
    ensures
        r == month_days(year as int, month as int),
{
    match month {
        1 | 3 | 5 | 7 | 8 | 10 | 12 => 31,
        4 | 6 | 9 | 11 => 30,
        _ => days_in_feb(year),
    }
}

/// The length of February in `year`: 29 in a Gregorian leap year, else 28.
pub fn days_in_feb(year: u64) -> (r: u64)
    ensures
        r == feb_days(year as int),
{
    if (year % 4 == 0) && ((year % 100 != 0) || (year % 400 == 0)) {
        29
    } else {
        28
    }
}

/// February has 29 days exactly in Gregorian leap years, and every other
/// month has its fixed length whatever the year.
pub proof fn lemma_days_in_month_table(year: int, month: int)
    requires
        1 <= month <= 12,
    ensures
        month == 2 ==> (month_days(year, month) == 29 <==> is_leap_year(year)),
        month == 2 ==> (month_days(year, month) == 28 <==> !is_leap_year(year)),
        (month == 4 || month == 6 || month == 9 || month == 11) ==> month_days(year, month) == 30,
        (month == 1 || month == 3 || month == 5 || month == 7 || month == 8 || month == 10 || month
            == 12) ==> month_days(year, month) == 31,
{
}

/// Whether `b` is an ASCII decimal digit.
pub open spec fn is_digit(b: u8) -> bool {
    0x30 <= b <= 0x39
}

/// Whether `v` holds two ASCII digits at `i`.
pub open spec fn digits_at(v: Seq<u8>, i: int) -> bool {
    0 <= i && i + 1 < v.len() && is_digit(v[i]) && is_digit(v[i + 1])
}

/// The number written by the two ASCII digits of `v` at `i`.
pub open spec fn two_digits(v: Seq<u8>, i: int) -> int {
    (v[i] - 0x30) * 10 + (v[i + 1] - 0x30)
}

/// Where the month digits start: after a two-digit year in a UTCTime, after
/// a four-digit year in a GeneralizedTime.
pub open spec fn month_offset(utc: bool) -> int {
    if utc {
        2
    } else {
        4
    }
}

/// The year that a time value writes. A UTCTime's two digits stand for
/// 1950 to 2049.
pub open spec fn encoded_year(v: Seq<u8>, utc: bool) -> int {
    if utc {
        let lo = two_digits(v, 0);
        if lo >= 50 {
            1900 + lo
        } else {
            2000 + lo
        }
    } else {
        two_digits(v, 0) * 100 + two_digits(v, 2)
    }
}

/// Whether the time value `v` begins with a well-formed time of 1970 or
/// later: year, month, day, hours, minutes and seconds as digit pairs, each
/// in its civil range, then `Z`.
pub open spec fn time_fields_valid(v: Seq<u8>, utc: bool) -> bool {
    let o = month_offset(utc);
    let year = encoded_year(v, utc);
    &&& v.len() >= o + 11
    &&& digits_at(v, 0)
    &&& (utc || digits_at(v, 2))
    &&& digits_at(v, o) && digits_at(v, o + 2) && digits_at(v, o + 4)
    &&& digits_at(v, o + 6) && digits_at(v, o + 8)
    &&& valid_civil(
        year,
        two_digits(v, o),
        two_digits(v, o + 2),
        two_digits(v, o + 4),
        two_digits(v, o + 6),
        two_digits(v, o + 8),
    )
    &&& v[o + 10] == 0x5A
    &&& year >= 1970
}

/// The seconds since the epoch that a well-formed time value writes.
pub open spec fn time_value_seconds(v: Seq<u8>, utc: bool) -> int {
    let o = month_offset(utc);
    civil_seconds(
        encoded_year(v, utc),
        two_digits(v, o),
        two_digits(v, o + 2),
        two_digits(v, o + 4),
        two_digits(v, o + 6),
        two_digits(v, o + 8),
    )
}

/// What the contents `v` of a UTCTime (`utc`) or GeneralizedTime decode to.
pub open spec fn time_value(v: Seq<u8>, utc: bool) -> Result<int, Error> {
    if !time_fields_valid(v, utc) {
        Err(Error::BadDerTime)
    } else if v.len() > month_offset(utc) + 11 {
        Err(Error::TrailingData(DerTypeId::Time))
    } else {
        Ok(time_value_seconds(v, utc))
    }
}

/// What a DER time at the start of `input` decodes to: its seconds since
/// the epoch and the number of bytes it takes. The value is a UTCTime when
/// the first byte is that tag, and must otherwise be a GeneralizedTime.
pub open spec fn der_time(input: Seq<u8>) -> Result<(int, int), Error> {
    let utc = input.len() > 0 && input[0] == TAG_UTC_TIME;
    let expected = if utc {
        TAG_UTC_TIME
    } else {
        TAG_GENERALIZED_TIME
    };
    match der_value(input) {
        None => Err(Error::BadDer),
        Some((tag, start, len)) => if tag != expected {
            Err(Error::BadDer)
        } else {
            match time_value(input.subrange(start, start + len), utc) {
                Ok(secs) => Ok((secs, start + len)),
                Err(e) => Err(e),
            }
        },
    }
}

fn read_digit(v: &[u8], i: usize) -> (r: Result<u64, Error>)
    ensures
        match r {
            Ok(d) => i < v@.len() && is_digit(v@[i as int]) && d == v@[i as int] - 0x30,
            Err(e) => e == Error::BadDerTime && !(i < v@.len() && is_digit(v@[i as int])),
        },
{
    if i >= v.len() {
        return Err(Error::BadDerTime);
    }
    let b = v[i];
    if b >= 0x30 && b <= 0x39 {
        Ok((b - 0x30) as u64)
    } else {
        Err(Error::BadDerTime)
    }
}

fn read_two_digits(v: &[u8], i: usize, min: u64, max: u64) -> (r: Result<u64, Error>)
    requires
        i < usize::MAX,
    ensures
        match r {
            Ok(x) => digits_at(v@, i as int) && x == two_digits(v@, i as int) && min <= x <= max,
            Err(e) => e == Error::BadDerTime && !(digits_at(v@, i as int) && min <= two_digits(
                v@,
                i as int,
            ) <= max),
        },
{
    let hi = match read_digit(v, i) {
        Ok(d) => d,
        Err(e) => return Err(e),
    };
    let lo = match read_digit(v, i + 1) {
        Ok(d) => d,
        Err(e) => return Err(e),
    };
    let value = (hi * 10) + lo;
    if value < min || value > max {
        return Err(Error::BadDerTime);
    }
    Ok(value)
}

/// Decodes the contents of a UTCTime (`utc`) or a GeneralizedTime.
pub fn time_from_value(v: &[u8], utc: bool) -> (r: Result<Time, Error>)
    ensures
        match r {
            Ok(t) => time_value(v@, utc) == Ok::<int, Error>(t@ as int),
            Err(e) => time_value(v@, utc) == Err::<int, Error>(e),
        },
{
    let ghost o = month_offset(utc);
    let year: u64 = if utc {
        let lo = match read_two_digits(v, 0, 0, 99) {
            Ok(x) => x,
            Err(e) => return Err(e),
        };
        if lo >= 50 {
            1900 + lo
        } else {
            2000 + lo
        }
    } else {
        let hi = match read_two_digits(v, 0, 0, 99) {
            Ok(x) => x,
            Err(e) => return Err(e),
        };
        let lo = match read_two_digits(v, 2, 0, 99) {
            Ok(x) => x,
            Err(e) => return Err(e),
        };
        (hi * 100) + lo
    };
    assert(year == encoded_year(v@, utc));
    let mo: usize = if utc {
        2
    } else {
        4
    };
    let month = match read_two_digits(v, mo, 1, 12) {
        Ok(x) => x,
        Err(e) => return Err(e),
    };
    let days_in_month = days_in_month(year, month);
    let day_of_month = match read_two_digits(v, mo + 2, 1, days_in_month) {
        Ok(x) => x,
        Err(e) => return Err(e),
    };
    let hours = match read_two_digits(v, mo + 4, 0, 23) {
        Ok(x) => x,
        Err(e) => return Err(e),
    };
    let minutes = match read_two_digits(v, mo + 6, 0, 59) {
        Ok(x) => x,
        Err(e) => return Err(e),
    };
    let seconds = match read_two_digits(v, mo + 8, 0, 59) {
        Ok(x) => x,
        Err(e) => return Err(e),
    };
    if mo + 10 >= v.len() || v[mo + 10] != 0x5A {
        return Err(Error::BadDerTime);
    }
    let t = match time_from_ymdhms_utc(year, month, day_of_month, hours, minutes, seconds) {
        Ok(t) => t,
        Err(e) => return Err(e),
    };
    if v.len() != mo + 11 {
        return Err(Error::TrailingData(DerTypeId::Time));
    }
    Ok(t)
}

impl Time {
    /// Decodes the DER UTCTime or GeneralizedTime at the start of `input`,
    /// and returns it with the number of bytes it takes.
    pub fn from_der(input: &[u8]) -> (r: Result<(Time, usize), Error>)
        ensures
            match r {
                Ok((t, n)) => der_time(input@) == Ok::<(int, int), Error>((t@ as int, n as int)),
                Err(e) => der_time(input@) == Err::<(int, int), Error>(e),
            },
    {
        let is_utc_time = input.len() > 0 && input[0] == TAG_UTC_TIME;
        let expected_tag = if is_utc_time {
            TAG_UTC_TIME
        } else {
            TAG_GENERALIZED_TIME
        };
        let (tag, start, len) = match read_tag_and_get_value(input) {
            Ok(h) => h,
            Err(e) => return Err(e),
        };
        if tag != expected_tag {
            return Err(Error::BadDer);
        }
        let value = slice_range(input, start, start + len);
        match time_from_value(value, is_utc_time) {
            Ok(t) => Ok((t, start + len)),
            Err(e) => Err(e),
        }
    }
}


/// The ASCII digit for `x` (0 to 9).
pub open spec fn digit_byte(x: int) -> u8 {
    (0x30 + x) as u8
}

/// The DER GeneralizedTime `YYYYMMDDHHMMSSZ` for a civil date and time.
pub open spec fn generalized_time_der(
    year: int,
    month: int,
    day: int,
    hours: int,
    minutes: int,
    seconds: int,
) -> Seq<u8> {
    seq![
        TAG_GENERALIZED_TIME, 15u8,
        digit_byte(year / 1000), digit_byte((year / 100) % 10),
        digit_byte((year / 10) % 10), digit_byte(year % 10),
        digit_byte(month / 10), digit_byte(month % 10),
        digit_byte(day / 10), digit_byte(day % 10),
        digit_byte(hours / 10), digit_byte(hours % 10),
        digit_byte(minutes / 10), digit_byte(minutes % 10),
        digit_byte(seconds / 10), digit_byte(seconds % 10),
        0x5Au8,
    ]
}

/// The DER UTCTime `YYMMDDHHMMSSZ` for a civil date and time.
pub open spec fn utc_time_der(
    year: int,
    month: int,
    day: int,
    hours: int,
    minutes: int,
    seconds: int,
) -> Seq<u8> {
    seq![
        TAG_UTC_TIME, 13u8,
        digit_byte((year / 10) % 10), digit_byte(year % 10),
        digit_byte(month / 10), digit_byte(month % 10),
        digit_byte(day / 10), digit_byte(day % 10),
        digit_byte(hours / 10), digit_byte(hours % 10),
        digit_byte(minutes / 10), digit_byte(minutes % 10),
        digit_byte(seconds / 10), digit_byte(seconds % 10),
        0x5Au8,
    ]
}

proof fn lemma_two_digits_of(v: Seq<u8>, i: int, x: int)
    requires
        0 <= x < 100,
        0 <= i,
        i + 1 < v.len(),
        v[i] == digit_byte(x / 10),
        v[i + 1] == digit_byte(x % 10),
    ensures
        digits_at(v, i),
        two_digits(v, i) == x,
{
}

/// Parsing the GeneralizedTime of a civil date and time from 1970 to 9999
/// gives the UNIX time that `time_from_ymdhms_utc` computes for it.
pub proof fn lemma_generalized_time_round_trip(
    year: int,
    month: int,
    day: int,
    hours: int,
    minutes: int,
    seconds: int,
)
    requires
        1970 <= year <= 9999,
        valid_civil(year, month, day, hours, minutes, seconds),
    ensures
        der_time(generalized_time_der(year, month, day, hours, minutes, seconds)) == Ok::<
            (int, int),
            Error,
        >((civil_seconds(year, month, day, hours, minutes, seconds), 17)),
{
    let input = generalized_time_der(year, month, day, hours, minutes, seconds);
    let v = input.subrange(2, 17);
    assert(der_value(input) == Some((TAG_GENERALIZED_TIME, 2int, 15int)));
    let hi = year / 100;
    let lo = year % 100;
    assert(hi / 10 == year / 1000 && hi % 10 == (year / 100) % 10 && lo / 10 == (year / 10) % 10
        && lo % 10 == year % 10 && hi * 100 + lo == year && 0 <= hi < 100) by (nonlinear_arith)
        requires
            0 <= year <= 9999,
            hi == year / 100,
            lo == year % 100,
    ;
    lemma_two_digits_of(v, 0, hi);
    lemma_two_digits_of(v, 2, lo);
    lemma_two_digits_of(v, 4, month);
    lemma_two_digits_of(v, 6, day);
    lemma_two_digits_of(v, 8, hours);
    lemma_two_digits_of(v, 10, minutes);
    lemma_two_digits_of(v, 12, seconds);
    assert(encoded_year(v, false) == year);
    assert(time_fields_valid(v, false));
}

/// Parsing the UTCTime of a civil date and time from 1950 to 2049 gives what
/// `time_from_ymdhms_utc` gives for it: its UNIX time from 1970 on, and
/// `BadDerTime` before.
pub proof fn lemma_utc_time_round_trip(
    year: int,
    month: int,
    day: int,
    hours: int,
    minutes: int,
    seconds: int,
)
    requires
        1950 <= year <= 2049,
        valid_civil(year, month, day, hours, minutes, seconds),
    ensures
        year >= 1970 ==> der_time(utc_time_der(year, month, day, hours, minutes, seconds)) == Ok::<
            (int, int),
            Error,
        >((civil_seconds(year, month, day, hours, minutes, seconds), 15)),
        year < 1970 ==> der_time(utc_time_der(year, month, day, hours, minutes, seconds)) == Err::<
            (int, int),
            Error,
        >(Error::BadDerTime),
{
    let input = utc_time_der(year, month, day, hours, minutes, seconds);
    let v = input.subrange(2, 15);
    assert(der_value(input) == Some((TAG_UTC_TIME, 2int, 13int)));
    let lo = year % 100;
    assert(lo / 10 == (year / 10) % 10 && lo % 10 == year % 10 && 0 <= lo < 100) by (
    nonlinear_arith)
        requires
            0 <= year,
            lo == year % 100,
    ;
    assert(lo >= 50 ==> 1900 + lo == year);
    assert(lo < 50 ==> 2000 + lo == year);
    lemma_two_digits_of(v, 0, lo);
    lemma_two_digits_of(v, 2, month);
    lemma_two_digits_of(v, 4, day);
    lemma_two_digits_of(v, 6, hours);
    lemma_two_digits_of(v, 8, minutes);
    lemma_two_digits_of(v, 10, seconds);
    assert(encoded_year(v, true) == year);
    if year >= 1970 {
        assert(time_fields_valid(v, true));
    }
}

/// A DER time whose year digits write a year before 1970 is rejected with
/// `BadDerTime`, whatever follows them.
pub proof fn lemma_pre_epoch_rejected(input: Seq<u8>)
    requires
        der_value(input) matches Some((tag, start, len)) && (tag == TAG_UTC_TIME
            || tag == TAG_GENERALIZED_TIME) && ({
            let v = input.subrange(start, start + len);
            let utc = tag == TAG_UTC_TIME;
            digits_at(v, 0) && (utc || digits_at(v, 2)) && encoded_year(v, utc) < 1970
        }),
    ensures
        der_time(input) == Err::<(int, int), Error>(Error::BadDerTime),
{
}

/// The civil second after `(year, month, day, hours, minutes, seconds)`.
pub open spec fn next_second(
    year: int,
    month: int,
    day: int,
    hours: int,
    minutes: int,
    seconds: int,
) -> (int, int, int, int, int, int) {
    if seconds < 59 {
        (year, month, day, hours, minutes, seconds + 1)
    } else if minutes < 59 {
        (year, month, day, hours, minutes + 1, 0)
    } else if hours < 23 {
        (year, month, day, hours + 1, 0, 0)
    } else if day < month_days(year, month) {
        (year, month, day + 1, 0, 0, 0)
    } else if month < 12 {
        (year, month + 1, 1, 0, 0, 0)
    } else {
        (year + 1, 1, 1, 0, 0, 0)
    }
}

proof fn lemma_days_before_next_year(year: int)
    requires
        1 <= year,
    ensures
        days_before_year(year + 1) == days_before_year(year) + days_before_month(year, 12) + 31,
{
    let x = year - 1;
    assert((x + 1) / 4 == x / 4 + if (x + 1) % 4 == 0 { 1int } else { 0int }) by (nonlinear_arith)
        requires
            x >= 0,
    ;
    assert((x + 1) / 100 == x / 100 + if (x + 1) % 100 == 0 { 1int } else { 0int }) by (
    nonlinear_arith)
        requires
            x >= 0,
    ;
    assert((x + 1) / 400 == x / 400 + if (x + 1) % 400 == 0 { 1int } else { 0int }) by (
    nonlinear_arith)
        requires
            x >= 0,
    ;
}

/// The civil second after a valid one is valid too, and its UNIX time is
/// one more: time advances by exactly one second across every carry into
/// minutes, hours, days, months and years.
pub proof fn lemma_next_second(
    year: int,
    month: int,
    day: int,
    hours: int,
    minutes: int,
    seconds: int,
)
    requires
        1 <= year,
        valid_civil(year, month, day, hours, minutes, seconds),
    ensures
        ({
            let (y, mo, d, h, mi, s) = next_second(year, month, day, hours, minutes, seconds);
            valid_civil(y, mo, d, h, mi, s) && civil_seconds(y, mo, d, h, mi, s) == civil_seconds(
                year,
                month,
                day,
                hours,
                minutes,
                seconds,
            ) + 1
        }),
{
    if seconds == 59 && minutes == 59 && hours == 23 && day == month_days(year, month) {
        if month == 12 {
            lemma_days_before_next_year(year);
        }
    }
}

/// Parsing the GeneralizedTime of a civil second and of the second after
/// it gives UNIX times that differ by exactly one.
pub proof fn lemma_generalized_time_successor(
    year: int,
    month: int,
    day: int,
    hours: int,
    minutes: int,
    seconds: int,
)
    requires
        1970 <= year,
        valid_civil(year, month, day, hours, minutes, seconds),
        next_second(year, month, day, hours, minutes, seconds).0 <= 9999,
    ensures
        ({
            let (y, mo, d, h, mi, s) = next_second(year, month, day, hours, minutes, seconds);
            let t = civil_seconds(year, month, day, hours, minutes, seconds);
            der_time(generalized_time_der(year, month, day, hours, minutes, seconds)) == Ok::<
                (int, int),
                Error,
            >((t, 17)) && der_time(generalized_time_der(y, mo, d, h, mi, s)) == Ok::<
                (int, int),
                Error,
            >((t + 1, 17))
        }),
{
    let (y, mo, d, h, mi, s) = next_second(year, month, day, hours, minutes, seconds);
    lemma_next_second(year, month, day, hours, minutes, seconds);
    lemma_generalized_time_round_trip(year, month, day, hours, minutes, seconds);
    lemma_generalized_time_round_trip(y, mo, d, h, mi, s);
}

} // verus!
