//! Calendar dates of the form `YYYY-MM-DD` and their day count from
//! 1 January 1970.

use vstd::prelude::*;
use vstd::string::StringSliceAdditionalSpecFns;
use crate::state::SECONDS_PER_DAY;

verus! {

/// The byte `-`, which separates the fields of a date.
pub const DASH: u8 = 45;

/// The byte `+`, which may lead a number.
pub const PLUS: u8 = 43;

/// The byte `0`.
pub const ZERO: u8 = 48;

/// The byte `9`.
pub const NINE: u8 = 57;

/// Largest month number that the day count accepts: the months before
/// month 13 are the twelve months of the year.
pub const MONTH_LIMIT: u32 = 13;

/// Why a date could not be read.
#[derive(Debug, Clone, Copy, PartialEq, Eq, Structural)]
pub enum DateError {
    /// The text does not consist of three fields separated by two dashes.
    Format,
    /// The first field is not a number that fits a year.
    Year,
    /// The second field is not a number, or names no month.
    Month,
    /// The third field is not a number.
    Day,
}

impl DateError {
    /// The sentence that describes the error, as characters.
    pub open spec fn message_text(self) -> Seq<char> {
        match self {
            DateError::Format => "Invalid date format, expected YYYY-MM-DD"@,
            DateError::Year => "Invalid year"@,
            DateError::Month => "Invalid month"@,
            DateError::Day => "Invalid day"@,
        }
    }

    /// The sentence that describes the error.
    pub fn message(self) -> (s: &'static str)
        ensures
            s@ == self.message_text(),
    {
        match self {
            DateError::Format => "Invalid date format, expected YYYY-MM-DD",
            DateError::Year => "Invalid year",
            DateError::Month => "Invalid month",
            DateError::Day => "Invalid day",
        }
    }
}

/// The Gregorian rule: every fourth year, except centuries, except every
/// fourth century.
pub open spec fn leap_year(year: int) -> bool {
    (year % 4 == 0 && year % 100 != 0) || year % 400 == 0
}

/// Number of days in `year`.
pub open spec fn year_length(year: int) -> int {
    if leap_year(year) {
        366
    } else {
        365
    }
}

/// Length of month `month` (1 to 12) of `year`.
pub open spec fn month_length(year: int, month: int) -> int {
    if month == 2 {
        if leap_year(year) {
            29
        } else {
            28
        }
    } else if month == 4 || month == 6 || month == 9 || month == 11 {
        30
    } else {
        31
    }
}

/// Days from 1 January 1970 to 1 January of `year`: the lengths of the
/// years in between, counted forwards after 1970 and backwards, as a
/// negative number, before it.
pub open spec fn days_before_year(year: int) -> int
    decreases (if year >= 1970 { year - 1970 } else { 1970 - year }),
{
    if year == 1970 {
        0
    } else if year > 1970 {
        days_before_year(year - 1) + year_length(year - 1)
    } else {
        days_before_year(year + 1) - year_length(year)
    }
}

/// Days in the months of `year` before `month`.
pub open spec fn days_before_month(year: int, month: int) -> int
    decreases month,
{
    if month <= 1 {
        0
    } else {
        days_before_month(year, month - 1) + month_length(year, month - 1)
    }
}

/// Day count of a date, with 1 January 1970 as day 0; dates before it have
/// negative counts.
pub open spec fn days_since_epoch(year: int, month: int, day: int) -> int {
    days_before_year(year) + days_before_month(year, month) + day - 1
}

/// A leap year puts one more day before each month after February than a
/// common year does, and the same number before January and February.
pub proof fn lemma_leap_day_shifts_later_months(leap: int, common: int, month: int)
    requires
        leap_year(leap),
        !leap_year(common),
        1 <= month <= 13,
    ensures
        month >= 3 ==> days_before_month(leap, month) == days_before_month(common, month) + 1,
        month <= 2 ==> days_before_month(leap, month) == days_before_month(common, month),
    decreases month,
{
    if month > 1 {
        lemma_leap_day_shifts_later_months(leap, common, month - 1);
    }
}

/// Every whole year between 1970 and `year` contributes 365 or 366 days,
/// with a plus sign after 1970 and a minus sign before it.
pub proof fn lemma_days_before_year_bounds(year: int)
    ensures
        year >= 1970 ==> 365 * (year - 1970) <= days_before_year(year) <= 366 * (year - 1970),
        year <= 1970 ==> -366 * (1970 - year) <= days_before_year(year) <= -365 * (1970 - year),
    decreases (if year >= 1970 { year - 1970 } else { 1970 - year }),
{
    if year > 1970 {
        lemma_days_before_year_bounds(year - 1);
    } else if year < 1970 {
        lemma_days_before_year_bounds(year + 1);
    }
}

/// One year's length lies between the first days of two successive years,
/// on either side of 1970.
pub proof fn lemma_year_step(year: int)
    ensures
        days_before_year(year + 1) == days_before_year(year) + year_length(year),
{
}

/// The twelve months of a year add up to the year's length.
pub proof fn lemma_months_fill_the_year(year: int)
    ensures
        days_before_month(year, 13) == year_length(year),
{
    reveal_with_fuel(days_before_month, 14);
}

/// The day count has no gap or overlap at a year's end: 1 January of a
/// year is the day after 31 December of the year before, on either side of
/// 1970. In particular 31 December 1969 is day -1.
pub proof fn lemma_new_year_follows_december_31(year: int)
    ensures
        days_since_epoch(year, 1, 1) == days_since_epoch(year - 1, 12, 31) + 1,
        days_since_epoch(1969, 12, 31) == -1,
{
    lemma_year_step(year - 1);
    lemma_months_fill_the_year(year - 1);
    lemma_year_step(1969);
    lemma_months_fill_the_year(1969);
    assert(days_before_month(year - 1, 13) == days_before_month(year - 1, 12) + month_length(
        year - 1,
        12,
    ));
    assert(days_before_month(1969, 13) == days_before_month(1969, 12) + month_length(1969, 12));
    assert(days_before_month(year, 1) == 0);
}

/// Within a month the day count rises with the day, and within a year it
/// rises from the first of one month to the first of the next.
pub proof fn lemma_day_count_rises_within_a_year(year: int, month: int, day: int)
    requires
        1 <= month <= 12,
    ensures
        days_since_epoch(year, month, day + 1) == days_since_epoch(year, month, day) + 1,
        days_since_epoch(year, month + 1, 1) == days_since_epoch(year, month, 1) + month_length(
            year,
            month,
        ),
{
}

/// Every whole month before `month` contributes between 28 and 31 days.
pub proof fn lemma_days_before_month_bounds(year: int, month: int)
    ensures
        month <= 1 ==> days_before_month(year, month) == 0,
        month >= 1 ==> 28 * (month - 1) <= days_before_month(year, month) <= 31 * (month - 1),
    decreases month,
{
    if month > 1 {
        lemma_days_before_month_bounds(year, month - 1);
    }
}

/// Whether `year` is a leap year of the Gregorian calendar.
pub fn is_leap_year(year: i32) -> (b: bool)
    ensures
        b == leap_year(year as int),
{
    (year % 4 == 0 && year % 100 != 0) || (year % 400 == 0)
}

/// Length of a month of `year`.
fn days_in_month(year: i32, month: u32) -> (d: i64)
    requires
        1 <= month <= 12,
    ensures
        d == month_length(year as int, month as int),
{
    if month == 2 {
        if is_leap_year(year) {
            29
        } else {
            28
        }
    } else if month == 4 || month == 6 || month == 9 || month == 11 {
        30
    } else {
        31
    }
}

/// Smallest and largest day count that a date can have.
pub open spec fn day_count_in_range(days: int) -> bool {
    -366 * (1970 + 0x8000_0000) - 1 <= days <= 366 * 0x8000_0000 + 31 * 12 + 0xffff_ffff
}

/// Counts the days from 1 January 1970 to the given date: whole years,
/// forwards or backwards from 1970, then whole months of the year, then
/// days of the month. A date before 1970 has a negative count.
pub fn calculate_days_since_epoch(year: i32, month: u32, day: u32) -> (days: i64)
    requires
        month <= MONTH_LIMIT,
    ensures
        days == days_since_epoch(year as int, month as int, day as int),
        day_count_in_range(days as int),
{
    let mut days: i64 = 0;
    let mut y: i32 = 1970;
    if year >= 1970 {
        while y < year
            invariant
                1970 <= y <= year,
                days == days_before_year(y as int),
                0 <= days <= 366 * (y - 1970),
            decreases year - y,
        {
            days += if is_leap_year(y) { 366 } else { 365 };
            y += 1;
        }
    } else {
        while y > year
            invariant
                year <= y <= 1970,
                days == days_before_year(y as int),
                -366 * (1970 - y) <= days <= 0,
            decreases y - year,
        {
            y -= 1;
            days -= if is_leap_year(y) { 366 } else { 365 };
        }
    }
    proof {
        lemma_days_before_year_bounds(year as int);
        lemma_days_before_month_bounds(year as int, month as int);
    }
    let ghost whole_years = days;
    let mut m: u32 = 1;
    while m < month
        invariant
            1 <= m,
            month < 1 ==> m == 1,
            month >= 1 ==> m <= month,
            month <= MONTH_LIMIT,
            days == whole_years + days_before_month(year as int, m as int),
            whole_years == days_before_year(year as int),
            -366 * (1970 + 0x8000_0000) <= whole_years <= 366 * 0x8000_0000,
            0 <= days_before_month(year as int, m as int) <= 31 * (m - 1),
        decreases month - m,
    {
        days += days_in_month(year, m);
        m += 1;
        proof {
            lemma_days_before_month_bounds(year as int, m as int);
        }
    }
    proof {
        lemma_days_before_month_bounds(year as int, m as int);
        lemma_days_before_month_bounds(year as int, month as int);
        assert(days_before_month(year as int, m as int) == days_before_month(
            year as int,
            month as int,
        ));
    }
    days += day as i64 - 1;
    days
}

/// Index of the first dash at or after position `k`; the length of the
/// text if there is none.
pub open spec fn dash_from(s: Seq<u8>, k: int) -> int
    decreases s.len() - k,
{
    if k >= s.len() {
        s.len() as int
    } else if s[k] == DASH {
        k
    } else {
        dash_from(s, k + 1)
    }
}

/// The text holds exactly two dashes, and so exactly three fields.
pub open spec fn has_three_fields(s: Seq<u8>) -> bool {
    let first = dash_from(s, 0);
    let second = dash_from(s, first + 1);
    first < s.len() && second < s.len() && dash_from(s, second + 1) == s.len()
}

/// The text before the first dash.
pub open spec fn year_field(s: Seq<u8>) -> Seq<u8> {
    s.subrange(0, dash_from(s, 0))
}

/// The text between the two dashes.
pub open spec fn month_field(s: Seq<u8>) -> Seq<u8> {
    let first = dash_from(s, 0);
    s.subrange(first + 1, dash_from(s, first + 1))
}

/// The text after the second dash.
pub open spec fn day_field(s: Seq<u8>) -> Seq<u8> {
    let first = dash_from(s, 0);
    s.subrange(dash_from(s, first + 1) + 1, s.len() as int)
}

/// Value of a run of decimal digits, most significant first.
pub open spec fn digits_value(s: Seq<u8>) -> nat
    decreases s.len(),
{
    if s.len() == 0 {
        0
    } else {
        digits_value(s.drop_last()) * 10 + (s.last() - ZERO) as nat
    }
}

/// Every byte is a decimal digit.
pub open spec fn all_digits(s: Seq<u8>) -> bool {
    forall|i: int| 0 <= i < s.len() ==> ZERO <= #[trigger] s[i] <= NINE
}

/// The field without its leading plus sign, if it has one.
pub open spec fn unsigned_part(s: Seq<u8>) -> Seq<u8> {
    if s.len() > 0 && s[0] == PLUS {
        s.drop_first()
    } else {
        s
    }
}

/// The number that a dash-free field denotes: an optional plus sign, then
/// one or more decimal digits whose value is at most `max`. Leading zeros
/// are allowed.
pub open spec fn number_value(s: Seq<u8>, max: int) -> Option<int> {
    let body = unsigned_part(s);
    if body.len() > 0 && all_digits(body) && digits_value(body) <= max {
        Some(digits_value(body) as int)
    } else {
        None
    }
}

/// What a date text denotes: the second at which its day begins, counted
/// from the start of 1970, or the first thing that is wrong with it.
pub open spec fn date_timestamp(s: Seq<u8>) -> Result<i64, DateError> {
    if !has_three_fields(s) {
        Err(DateError::Format)
    } else {
        match number_value(year_field(s), i32::MAX as int) {
            None => Err(DateError::Year),
            Some(year) => match number_value(month_field(s), u32::MAX as int) {
                None => Err(DateError::Month),
                Some(month) => match number_value(day_field(s), u32::MAX as int) {
                    None => Err(DateError::Day),
                    Some(day) => if month > MONTH_LIMIT {
                        Err(DateError::Month)
                    } else {
                        Ok((days_since_epoch(year, month, day) * SECONDS_PER_DAY) as i64)
                    },
                },
            },
        }
    }
}

/// A prefix of a digit run is worth no more than the whole run.
pub proof fn lemma_digits_value_grows(s: Seq<u8>, k: int)
    requires
        0 <= k <= s.len(),
        all_digits(s),
    ensures
        digits_value(s.take(k)) <= digits_value(s),
    decreases s.len(),
{
    if k == s.len() {
        assert(s.take(k) =~= s);
    } else {
        let shorter = s.drop_last();
        assert(shorter.take(k) =~= s.take(k));
        assert(all_digits(shorter)) by {
            assert forall|i: int| 0 <= i < shorter.len() implies ZERO <= #[trigger] shorter[i]
                <= NINE by {
                assert(shorter[i] == s[i]);
            }
        }
        lemma_digits_value_grows(shorter, k);
    }
}

/// Position of the first dash at or after `from`.
fn find_dash(bytes: &[u8], from: usize) -> (k: usize)
    requires
        from <= bytes@.len(),
    ensures
        k == dash_from(bytes@, from as int),
        from <= k <= bytes@.len(),
{
    let mut k: usize = from;
    while k < bytes.len()
        invariant
            from <= k <= bytes@.len(),
            dash_from(bytes@, from as int) == dash_from(bytes@, k as int),
        decreases bytes@.len() - k,
    {
        if bytes[k] == DASH {
            return k;
        }
        k += 1;
    }
    k
}

/// Reads the field `bytes[start..end]` as a number of at most `max`.
fn parse_number(bytes: &[u8], start: usize, end: usize, max: u64) -> (r: Option<u64>)
    requires
        start <= end <= bytes@.len(),
        max <= u32::MAX,
    ensures
        match r {
            Some(v) => number_value(bytes@.subrange(start as int, end as int), max as int) == Some(
                v as int,
            ),
            None => number_value(bytes@.subrange(start as int, end as int), max as int) is None,
        },
{
    let ghost field = bytes@.subrange(start as int, end as int);
    let first: usize = if start < end && bytes[start] == PLUS {
        start + 1
    } else {
        start
    };
    let ghost body = unsigned_part(field);
    assert(body =~= bytes@.subrange(first as int, end as int));
    if first == end {
        return None;
    }
    let mut value: u64 = 0;
    let mut k: usize = first;
    assert(body.take(0) =~= Seq::<u8>::empty());
    while k < end
        invariant
            first <= k <= end,
            end <= bytes@.len(),
            max <= u32::MAX,
            start <= first,
            body == bytes@.subrange(first as int, end as int),
            body == unsigned_part(bytes@.subrange(start as int, end as int)),
            all_digits(body.take(k - first)),
            value == digits_value(body.take(k - first)),
            value <= max,
        decreases end - k,
    {
        let c: u8 = bytes[k];
        assert(body[k - first] == c);
        if c < ZERO || c > NINE {
            return None;
        }
        value = value * 10 + (c - ZERO) as u64;
        proof {
            let longer = body.take(k - first + 1);
            assert(longer.drop_last() =~= body.take(k - first));
            assert(longer.last() == c);
            assert forall|i: int| 0 <= i < longer.len() implies ZERO <= #[trigger] longer[i]
                <= NINE by {
                if i < k - first {
                    assert(body.take(k - first)[i] == longer[i]);
                }
            }
        }
        if value > max {
            proof {
                if all_digits(body) {
                    lemma_digits_value_grows(body, k - first + 1);
                }
            }
            return None;
        }
        k += 1;
    }
    assert(body.take(end - first) =~= body);
    Some(value)
}

/// Reads a `YYYY-MM-DD` date and returns the second at which that day
/// begins, counted from the start of 1970.
///
/// The text must be three numbers separated by two dashes. Each number is
/// decimal digits with an optional leading plus sign. The month may be at
/// most 13; the day is not checked against the month's length.
pub fn parse_date_to_timestamp(date_str: &str) -> (r: Result<i64, DateError>)
    ensures
        r == date_timestamp(date_str.spec_bytes()),
{
    let bytes: &[u8] = date_str.as_bytes();
    let n: usize = bytes.len();
    let first: usize = find_dash(bytes, 0);
    if first >= n {
        return Err(DateError::Format);
    }
    let second: usize = find_dash(bytes, first + 1);
    if second >= n {
        return Err(DateError::Format);
    }
    let third: usize = find_dash(bytes, second + 1);
    if third < n {
        return Err(DateError::Format);
    }
    let year: i32 = match parse_number(bytes, 0, first, 0x7fff_ffff) {
        Some(v) => v as i32,
        None => {
            return Err(DateError::Year);
        },
    };
    let month: u32 = match parse_number(bytes, first + 1, second, 0xffff_ffff) {
        Some(v) => v as u32,
        None => {
            return Err(DateError::Month);
        },
    };
    let day: u32 = match parse_number(bytes, second + 1, n, 0xffff_ffff) {
        Some(v) => v as u32,
        None => {
            return Err(DateError::Day);
        },
    };
    if month > MONTH_LIMIT {
        return Err(DateError::Month);
    }
    let days_since_epoch: i64 = calculate_days_since_epoch(year, month, day);
    Ok(days_since_epoch * SECONDS_PER_DAY)
}

} // verus!
