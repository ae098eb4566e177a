//! Dates of the proleptic Gregorian calendar from a count of days.
use vstd::prelude::*;

verus! {

/// Whether `year` has a 29th of February.
pub open spec fn is_leap(year: int) -> bool {
    year % 4 == 0 && (year % 100 != 0 || year % 400 == 0)
}

/// The number of days of a month, where 1 is January.
pub open spec fn days_in_month(year: int, month: int) -> int {
    if month == 2 {
        if is_leap(year) {
            29
        } else {
            28
        }
    } else if month == 4 || month == 6 || month == 9 || month == 11 {
        30
    } else {
        31
    }
}

/// Whether the three numbers name a day of the calendar.
pub open spec fn is_date(year: int, month: int, day: int) -> bool {
    1 <= month <= 12 && 1 <= day <= days_in_month(year, month)
}

/// The number of days of `year` that come before the first of `month`.
pub open spec fn days_before_month(year: int, month: int) -> int
    decreases month,
{
    if month <= 1 {
        0
    } else {
        days_before_month(year, month - 1) + days_in_month(year, month - 1)
    }
}

/// The number of days from the first of January of year 1 to the first of January of `year`,
/// negative for the years before.
pub open spec fn days_before_year(year: int) -> int {
    365 * (year - 1) + (year - 1) / 4 - (year - 1) / 100 + (year - 1) / 400
}

/// The number of days from 1970-01-01 to a date.
pub open spec fn epoch_days(year: int, month: int, day: int) -> int {
    days_before_year(year) - days_before_year(1970) + days_before_month(year, month) + day - 1
}

/// Whether the date is the one that lies `days` days after 1970-01-01.
pub open spec fn is_date_of(days: int, year: int, month: int, day: int) -> bool {
    is_date(year, month, day) && epoch_days(year, month, day) == days
}

/// A year has 365 days, a leap year 366.
pub proof fn law_year_length(year: int)
    ensures
        days_before_year(year + 1) - days_before_year(year) == if is_leap(year) {
            366int
        } else {
            365
        },
{
}

/// The days before each month, written out.
proof fn lemma_month_table(year: int)
    ensures
        days_before_month(year, 1) == 0,
        days_before_month(year, 2) == 31,
        ({
            let leap: int = if is_leap(year) {
                1
            } else {
                0
            };
            &&& days_before_month(year, 3) == 59 + leap
            &&& days_before_month(year, 4) == 90 + leap
            &&& days_before_month(year, 5) == 120 + leap
            &&& days_before_month(year, 6) == 151 + leap
            &&& days_before_month(year, 7) == 181 + leap
            &&& days_before_month(year, 8) == 212 + leap
            &&& days_before_month(year, 9) == 243 + leap
            &&& days_before_month(year, 10) == 273 + leap
            &&& days_before_month(year, 11) == 304 + leap
            &&& days_before_month(year, 12) == 334 + leap
        }),
{
    reveal_with_fuel(days_before_month, 13);
}

/// The year of a 400-year era that starts in March, from the day of the era: the year that the
/// day lies in starts at or before the day, and the next year after it.
proof fn lemma_year_of_era(doe: u32)
    by (bit_vector)
    requires
        doe <= 146_096,
    ensures
        ({
            let yoe = (doe - doe / 1460 + doe / 36_524 - doe / 146_096) / 365;
            &&& 0 <= yoe <= 399
            &&& 365 * yoe + yoe / 4 - yoe / 100 <= doe
            &&& doe < 365 * (yoe + 1) + (yoe + 1) / 4 - (yoe + 1) / 100 + (yoe + 1) / 400
        }),
{
}

/// The date that the arithmetic on eras names is the one that lies `days` days after the epoch.
proof fn lemma_civil(days: int, era: int, doe: int, yoe: int, doy: int, mp: int)
    requires
        days + 719_468 == era * 146_097 + doe,
        0 <= doe <= 146_096,
        0 <= yoe <= 399,
        365 * yoe + yoe / 4 - yoe / 100 <= doe,
        doe < 365 * (yoe + 1) + (yoe + 1) / 4 - (yoe + 1) / 100 + (yoe + 1) / 400,
        doy == doe - (365 * yoe + yoe / 4 - yoe / 100),
        mp == (5 * doy + 2) / 153,
    ensures
        0 <= doy <= 365,
        0 <= mp <= 11,
        0 <= doy - (153 * mp + 2) / 5 <= 30,
        ({
            let month = if mp < 10 {
                mp + 3
            } else {
                mp - 9
            };
            let year = yoe + era * 400 + if month <= 2 {
                1int
            } else {
                0
            };
            is_date_of(days, year, month, doy - (153 * mp + 2) / 5 + 1)
        }),
{
    let march_year = yoe + era * 400;
    lemma_month_table(march_year);
    lemma_month_table(march_year + 1);
    law_year_length(march_year);
    assert(march_year / 4 == era * 100 + yoe / 4);
    assert(march_year / 100 == era * 4 + yoe / 100);
    assert(march_year / 400 == era);
    assert((march_year + 1) / 4 == era * 100 + (yoe + 1) / 4);
    assert((march_year + 1) / 100 == era * 4 + (yoe + 1) / 100);
    assert((march_year + 1) / 400 == era + (yoe + 1) / 400);
    assert(days_before_year(march_year + 1) == 365 * march_year + era * 97 + yoe / 4 - yoe / 100);
    law_year_length(march_year + 1);
    assert(doy <= 364 || is_leap(march_year + 1));
}

/// The count of days starts at the first of January 1970.
pub proof fn law_epoch_is_day_zero()
    ensures
        is_date_of(0, 1970, 1, 1),
{
}

/// The day after a date is the next day of its month, or the first of the next month, or the
/// first of January of the next year. A month has 28 to 31 days, and February has 29 in every
/// fourth year, but for the centuries that 400 does not divide.
pub proof fn law_next_day(days: int, year: int, month: int, day: int)
    requires
        is_date_of(days, year, month, day),
    ensures
        1 <= month <= 12,
        ({
            let length: int = if month == 4 || month == 6 || month == 9 || month == 11 {
                30
            } else if month != 2 {
                31
            } else if year % 4 == 0 && (year % 100 != 0 || year % 400 == 0) {
                29
            } else {
                28
            };
            &&& 1 <= day <= length
            &&& if day < length {
                is_date_of(days + 1, year, month, day + 1)
            } else if month < 12 {
                is_date_of(days + 1, year, month + 1, 1)
            } else {
                is_date_of(days + 1, year + 1, 1, 1)
            }
        }),
{
    lemma_month_table(year);
    lemma_month_table(year + 1);
    law_year_length(year);
}

/// Every day, before and after 1970-01-01, has a date.
pub proof fn law_every_day_has_a_date(days: int)
    ensures
        exists|year: int, month: int, day: int| is_date_of(days, year, month, day),
{
    let z = days + 719_468;
    let era = z / 146_097;
    let doe = z - era * 146_097;
    lemma_year_of_era(doe as u32);
    let yoe = (doe - doe / 1460 + doe / 36_524 - doe / 146_096) / 365;
    let doy = doe - (365 * yoe + yoe / 4 - yoe / 100);
    lemma_civil(days, era, doe, yoe, doy, (5 * doy + 2) / 153);
}

/// A day has one date only.
pub proof fn law_date_unique(
    days: int,
    year: int,
    month: int,
    day: int,
    other_year: int,
    other_month: int,
    other_day: int,
)
    requires
        is_date_of(days, year, month, day),
        is_date_of(days, other_year, other_month, other_day),
    ensures
        year == other_year,
        month == other_month,
        day == other_day,
{
    lemma_within_year(year, month, day);
    lemma_within_year(other_year, other_month, other_day);
    if year < other_year {
        lemma_years_in_order(year + 1, other_year);
    }
    if other_year < year {
        lemma_years_in_order(other_year + 1, year);
    }
    lemma_month_table(year);
}

pub proof fn lemma_years_in_order(year: int, later: int)
    requires
        year <= later,
    ensures
        days_before_year(year) <= days_before_year(later),
    decreases later - year,
{
    if year < later {
        lemma_years_in_order(year + 1, later);
        law_year_length(year);
    }
}

pub proof fn lemma_within_year(year: int, month: int, day: int)
    requires
        is_date(year, month, day),
    ensures
        0 <= days_before_month(year, month) + day - 1,
        days_before_year(year) + days_before_month(year, month) + day - 1 < days_before_year(
            year + 1,
        ),
{
    lemma_month_table(year);
    law_year_length(year);
}

/// The date that lies `days` days after 1970-01-01, with the year in full.
fn civil_date(days: i64) -> (date: (i64, u32, u32))
    requires
        days <= i64::MAX - 719_468,
    ensures
        is_date_of(days as int, date.0 as int, date.1 as int, date.2 as int),
{
    let z: i64 = days + 719_468;
    let era: i64 = if z >= 0 {
        z / 146_097
    } else {
        (z - 146_096) / 146_097
    };
    let doe: u64 = (z - era * 146_097) as u64;
    let yoe: u64 = (doe - doe / 1460 + doe / 36_524 - doe / 146_096) / 365;
    proof {
        lemma_year_of_era(doe as u32);
    }
    let y: i64 = yoe as i64 + era * 400;
    let doy: u64 = doe - (365 * yoe + yoe / 4 - yoe / 100);
    let mp: u64 = (5 * doy + 2) / 153;
    proof {
        lemma_civil(days as int, era as int, doe as int, yoe as int, doy as int, mp as int);
    }
    let d: u32 = (doy - (153 * mp + 2) / 5 + 1) as u32;
    let m: u32 = (if mp < 10 {
        mp + 3
    } else {
        mp - 9
    }) as u32;
    (if m <= 2 {
        y + 1
    } else {
        y
    }, m, d)
}

/// The date that lies `days` days after 1970-01-01, as year, month and day. A year that an `i32`
/// does not hold wraps around.
pub fn days_to_ymd(days: i64) -> (date: (i32, u32, u32))
    requires
        days <= i64::MAX - 719_468,
    ensures
        exists|year: int|
            date.0 == year as i32 && #[trigger] is_date_of(
                days as int,
                year,
                date.1 as int,
                date.2 as int,
            ),
        1 <= date.1 <= 12,
        1 <= date.2 <= 31,
{
    let (year, month, day) = civil_date(days);
    let date: (i32, u32, u32) = (#[verifier::truncate] (year as i32), month, day);
    assert(is_date_of(days as int, year as int, date.1 as int, date.2 as int));
    date
}

}
