//! Points in time as text.
use vstd::prelude::*;
use vstd::string::*;
use vstd::utf8::*;

use crate::drafting::calendar::{
    days_to_ymd, is_date_of, lemma_within_year, lemma_years_in_order,
};
use crate::drafting::report::{date_of, has_date};
use crate::text::{
    digits_value, law_zero_padded_reads_back, lemma_zero_padded, zero_padded, zero_padded_text,
};

verus! {

/// `YYYY-MM-DD`.
pub open spec fn date_text(year: int, month: int, day: int) -> Seq<char> {
    zero_padded(year as nat, 4) + "-"@ + zero_padded(month as nat, 2) + "-"@ + zero_padded(
        day as nat,
        2,
    )
}

/// `HH:MM:SS.mmmZ`, from the milliseconds since midnight.
pub open spec fn time_text(ms_of_day: int) -> Seq<char> {
    zero_padded((ms_of_day / 3_600_000) as nat, 2) + ":"@ + zero_padded(
        (ms_of_day / 60_000 % 60) as nat,
        2,
    ) + ":"@ + zero_padded((ms_of_day / 1000 % 60) as nat, 2) + "."@ + zero_padded(
        (ms_of_day % 1000) as nat,
        3,
    ) + "Z"@
}

/// Whether `text` is the ISO 8601 text, in UTC and with milliseconds, of the point in time that
/// lies `total_ms` milliseconds after the start of 1970.
pub open spec fn is_iso_text(total_ms: int, text: Seq<char>) -> bool {
    exists|year: int, month: int, day: int| #[trigger]
        is_date_of(total_ms / 86_400_000, year, month, day) && text == date_text(year, month, day)
            + "T"@ + time_text(total_ms % 86_400_000)
}

/// The days from the start of 1970 on lie in years that an `i32` holds, as far as a count of
/// milliseconds in an `i64` reaches.
proof fn lemma_year_range(days: int, year: int, month: int, day: int)
    requires
        0 <= days <= i64::MAX / 86_400_000,
        is_date_of(days, year, month, day),
    ensures
        1970 <= year <= i32::MAX,
{
    lemma_within_year(year, month, day);
    if year < 1970 {
        lemma_years_in_order(year + 1, 1970);
    }
}

fn write_date(year: u64, month: u64, day: u64) -> (text: String)
    ensures
        text@ == date_text(year as int, month as int, day as int),
{
    let mut text = zero_padded_text(year, 4);
    text.append("-");
    text.append(zero_padded_text(month, 2).as_str());
    text.append("-");
    text.append(zero_padded_text(day, 2).as_str());
    text
}

fn write_time(ms_of_day: u64) -> (text: String)
    ensures
        text@ == time_text(ms_of_day as int),
{
    let mut text = zero_padded_text(ms_of_day / 3_600_000, 2);
    text.append(":");
    text.append(zero_padded_text(ms_of_day / 60_000 % 60, 2).as_str());
    text.append(":");
    text.append(zero_padded_text(ms_of_day / 1000 % 60, 2).as_str());
    text.append(".");
    text.append(zero_padded_text(ms_of_day % 1000, 3).as_str());
    text.append("Z");
    text
}

/// The ISO 8601 text of the point in time that lies `total_ms` milliseconds after the start of
/// 1970, as in `2024-02-29T23:59:59.999Z`.
pub fn iso_timestamp(total_ms: i64) -> (text: String)
    requires
        total_ms >= 0,
    ensures
        is_iso_text(total_ms as int, text@),
        ({
            let t = text@.len() - 14;
            let h = digits_value(text@.subrange(t + 1, t + 3));
            let m = digits_value(text@.subrange(t + 4, t + 6));
            let s = digits_value(text@.subrange(t + 7, t + 9));
            let ms = digits_value(text@.subrange(t + 10, t + 13));
            &&& t >= 10
            &&& t > 10 ==> text@[0] != '0'
            &&& text@[t - 6] == '-' && text@[t - 3] == '-' && text@[t] == 'T'
            &&& text@[t + 3] == ':' && text@[t + 6] == ':' && text@[t + 9] == '.' && text@[t + 13] == 'Z'
            &&& forall|i: int|
                0 <= i < text@.len() && i != t - 6 && i != t - 3 && i != t && i != t + 3 && i != t + 6
                    && i != t + 9 && i != t + 13 ==> '0' <= #[trigger] text@[i] <= '9'
            &&& is_date_of(
                total_ms as int / 86_400_000,
                digits_value(text@.subrange(0, t - 6)),
                digits_value(text@.subrange(t - 5, t - 3)),
                digits_value(text@.subrange(t - 2, t)),
            )
            &&& 0 <= h < 24 && 0 <= m < 60 && 0 <= s < 60 && 0 <= ms < 1000
            &&& ((h * 60 + m) * 60 + s) * 1000 + ms == total_ms as int % 86_400_000
        }),
{
    let days_since_epoch: i64 = total_ms / 86_400_000;
    let ms_of_day: i64 = total_ms % 86_400_000;
    let (y, mo, d) = days_to_ymd(days_since_epoch);
    proof {
        let year = choose|year: int|
            y == year as i32 && #[trigger] is_date_of(
                days_since_epoch as int,
                year,
                mo as int,
                d as int,
            );
        lemma_year_range(days_since_epoch as int, year, mo as int, d as int);
        assert(is_date_of(total_ms as int / 86_400_000, y as int, mo as int, d as int));
    }
    let mut text = write_date(y as u64, mo as u64, d as u64);
    text.append("T");
    text.append(write_time(ms_of_day as u64).as_str());
    proof {
        law_timestamp_reads_back(total_ms as int, text@);
    }
    text
}

/// The first millisecond of the year 10000.
pub const YEAR_10000_MS: i64 = 253_402_300_800_000;

proof fn lemma_date_text(year: int, month: int, day: int)
    requires
        0 <= year,
        1 <= month <= 12,
        1 <= day <= 31,
    ensures
        is_ascii_chars(date_text(year, month, day)),
        date_text(year, month, day).len() >= 10,
        year <= 9999 ==> date_text(year, month, day).len() == 10,
{
    reveal_with_fuel(vstd::arithmetic::power::pow, 5);
    reveal_strlit("-");
    lemma_zero_padded(year as nat, 4);
    lemma_zero_padded(month as nat, 2);
    lemma_zero_padded(day as nat, 2);
}

proof fn lemma_time_text(ms_of_day: int)
    requires
        0 <= ms_of_day < 86_400_000,
    ensures
        is_ascii_chars(time_text(ms_of_day)),
        time_text(ms_of_day).len() == 13,
{
    reveal_with_fuel(vstd::arithmetic::power::pow, 4);
    reveal_strlit(":");
    reveal_strlit(".");
    reveal_strlit("Z");
    lemma_zero_padded((ms_of_day / 3_600_000) as nat, 2);
    lemma_zero_padded((ms_of_day / 60_000 % 60) as nat, 2);
    lemma_zero_padded((ms_of_day / 1000 % 60) as nat, 2);
    lemma_zero_padded((ms_of_day % 1000) as nat, 3);
}

/// In ASCII text a byte is a character.
proof fn lemma_ascii_prefix(text: Seq<char>)
    requires
        is_ascii_chars(text),
        text.len() > 10,
    ensures
        has_date(text),
        date_of(text) == text.take(10),
{
    let bytes = encode_utf8(text);
    is_ascii_chars_encode_utf8(text);
    encode_utf8_valid_utf8(text);
    is_char_boundary_iff_not_is_continuation_byte(bytes, 10);
    assert(bytes[10] == text[10] as u8);
    assert(is_ascii_chars(text.take(10)));
    is_ascii_chars_encode_utf8(text.take(10));
    assert(bytes.subrange(0, 10) =~= encode_utf8(text.take(10))) by {
        assert forall|i: int| 0 <= i < 10 implies bytes[i] == encode_utf8(text.take(10))[i] by {
            assert(text.take(10)[i] == text[i]);
        }
    }
    encode_utf8_decode_utf8(text.take(10));
}

/// Where the parts of a date are, and what they stand for.
proof fn lemma_date_reads_back(year: int, month: int, day: int)
    requires
        0 <= year,
        1 <= month <= 12,
        1 <= day <= 31,
    ensures
        ({
            let text = date_text(year, month, day);
            let t = text.len() as int;
            &&& t >= 10
            &&& t > 10 ==> text[0] != '0'
            &&& text[t - 6] == '-' && text[t - 3] == '-'
            &&& forall|i: int|
                0 <= i < t && i != t - 6 && i != t - 3 ==> '0' <= #[trigger] text[i] <= '9'
            &&& digits_value(text.subrange(0, t - 6)) == year
            &&& digits_value(text.subrange(t - 5, t - 3)) == month
            &&& digits_value(text.subrange(t - 2, t)) == day
        }),
{
    reveal_with_fuel(vstd::arithmetic::power::pow, 3);
    reveal_strlit("-");
    lemma_zero_padded(month as nat, 2);
    lemma_zero_padded(day as nat, 2);
    law_zero_padded_reads_back(year as nat, 4);
    law_zero_padded_reads_back(month as nat, 2);
    law_zero_padded_reads_back(day as nat, 2);
    let text = date_text(year, month, day);
    let t = text.len() as int;
    assert(text.subrange(0, t - 6) == zero_padded(year as nat, 4));
    assert(text.subrange(t - 5, t - 3) == zero_padded(month as nat, 2));
    assert(text.subrange(t - 2, t) == zero_padded(day as nat, 2));
}

/// Where the parts of a time of day are, and what they stand for.
proof fn lemma_time_reads_back(ms_of_day: int)
    requires
        0 <= ms_of_day < 86_400_000,
    ensures
        ({
            let text = time_text(ms_of_day);
            let h = digits_value(text.subrange(0, 2));
            let m = digits_value(text.subrange(3, 5));
            let s = digits_value(text.subrange(6, 8));
            let ms = digits_value(text.subrange(9, 12));
            &&& text.len() == 13
            &&& text[2] == ':' && text[5] == ':' && text[8] == '.' && text[12] == 'Z'
            &&& forall|i: int|
                0 <= i < 12 && i != 2 && i != 5 && i != 8 ==> '0' <= #[trigger] text[i] <= '9'
            &&& 0 <= h < 24 && 0 <= m < 60 && 0 <= s < 60 && 0 <= ms < 1000
            &&& ((h * 60 + m) * 60 + s) * 1000 + ms == ms_of_day
        }),
{
    reveal_with_fuel(vstd::arithmetic::power::pow, 4);
    reveal_strlit(":");
    reveal_strlit(".");
    reveal_strlit("Z");
    let h = (ms_of_day / 3_600_000) as nat;
    let m = (ms_of_day / 60_000 % 60) as nat;
    let s = (ms_of_day / 1000 % 60) as nat;
    let ms = (ms_of_day % 1000) as nat;
    lemma_zero_padded(h, 2);
    lemma_zero_padded(m, 2);
    lemma_zero_padded(s, 2);
    lemma_zero_padded(ms, 3);
    law_zero_padded_reads_back(h, 2);
    law_zero_padded_reads_back(m, 2);
    law_zero_padded_reads_back(s, 2);
    law_zero_padded_reads_back(ms, 3);
    let text = time_text(ms_of_day);
    assert(text.subrange(0, 2) == zero_padded(h, 2));
    assert(text.subrange(3, 5) == zero_padded(m, 2));
    assert(text.subrange(6, 8) == zero_padded(s, 2));
    assert(text.subrange(9, 12) == zero_padded(ms, 3));
}

/// A timestamp reads back: its parts are digits at fixed places, the date is the one of the day,
/// and hours, minutes, seconds and milliseconds add up to the time of day.
pub proof fn law_timestamp_reads_back(total_ms: int, text: Seq<char>)
    requires
        0 <= total_ms <= i64::MAX,
        is_iso_text(total_ms, text),
    ensures
        ({
            let t = text.len() - 14;
            let h = digits_value(text.subrange(t + 1, t + 3));
            let m = digits_value(text.subrange(t + 4, t + 6));
            let s = digits_value(text.subrange(t + 7, t + 9));
            let ms = digits_value(text.subrange(t + 10, t + 13));
            &&& t >= 10
            &&& t > 10 ==> text[0] != '0'
            &&& text[t - 6] == '-' && text[t - 3] == '-' && text[t] == 'T'
            &&& text[t + 3] == ':' && text[t + 6] == ':' && text[t + 9] == '.' && text[t + 13] == 'Z'
            &&& forall|i: int|
                0 <= i < text.len() && i != t - 6 && i != t - 3 && i != t && i != t + 3 && i != t + 6
                    && i != t + 9 && i != t + 13 ==> '0' <= #[trigger] text[i] <= '9'
            &&& is_date_of(
                total_ms / 86_400_000,
                digits_value(text.subrange(0, t - 6)),
                digits_value(text.subrange(t - 5, t - 3)),
                digits_value(text.subrange(t - 2, t)),
            )
            &&& 0 <= h < 24 && 0 <= m < 60 && 0 <= s < 60 && 0 <= ms < 1000
            &&& ((h * 60 + m) * 60 + s) * 1000 + ms == total_ms % 86_400_000
        }),
{
    reveal_strlit("T");
    let days = total_ms / 86_400_000;
    let ms_of_day = total_ms % 86_400_000;
    let (year, month, day) = choose|year: int, month: int, day: int| #[trigger]
        is_date_of(days, year, month, day) && text == date_text(year, month, day) + "T"@
            + time_text(ms_of_day);
    lemma_year_range(days, year, month, day);
    lemma_date_reads_back(year, month, day);
    lemma_time_reads_back(ms_of_day);
    let date = date_text(year, month, day);
    let time = time_text(ms_of_day);
    let t = date.len() as int;
    assert(text.len() == t + 14);
    assert forall|i: int, j: int| 0 <= i <= j <= t implies #[trigger] text.subrange(i, j)
        == date.subrange(i, j) by {}
    assert forall|i: int, j: int| 0 <= i <= j <= 13 implies time.subrange(i, j) == #[trigger] text.subrange(
        t + 1 + i,
        t + 1 + j,
    ) by {}
    assert(text.subrange(t + 1, t + 3) == time.subrange(0, 2));
    assert(text.subrange(t + 4, t + 6) == time.subrange(3, 5));
    assert(text.subrange(t + 7, t + 9) == time.subrange(6, 8));
    assert(text.subrange(t + 10, t + 13) == time.subrange(9, 12));
    assert forall|i: int|
        0 <= i < text.len() && i != t - 6 && i != t - 3 && i != t && i != t + 3 && i != t + 6 && i
            != t + 9 && i != t + 13 implies '0' <= #[trigger] text[i] <= '9' by {
        if i < t {
            assert(text[i] == date[i]);
        } else {
            assert(text[i] == time[i - t - 1]);
        }
    }
    assert(text[t + 3] == time[2] && text[t + 6] == time[5] && text[t + 9] == time[8] && text[t
        + 13] == time[12]);
    assert(text[t - 6] == date[t - 6] && text[t - 3] == date[t - 3] && text[0] == date[0]);
}

/// A timestamp always has a date in front, so that a row can be made of it. Up to the year 9999
/// that date is the date of the timestamp, and the timestamp has 24 characters.
pub proof fn law_timestamp_starts_with_date(total_ms: int, text: Seq<char>)
    requires
        0 <= total_ms <= i64::MAX,
        is_iso_text(total_ms, text),
    ensures
        has_date(text),
        total_ms < YEAR_10000_MS ==> text.len() == 24 && exists|year: int, month: int, day: int|
            #[trigger] is_date_of(total_ms / 86_400_000, year, month, day) && date_of(text)
                == date_text(year, month, day),
{
    reveal_strlit("T");
    let days = total_ms / 86_400_000;
    let (year, month, day) = choose|year: int, month: int, day: int| #[trigger]
        is_date_of(days, year, month, day) && text == date_text(year, month, day) + "T"@
            + time_text(total_ms % 86_400_000);
    lemma_year_range(days, year, month, day);
    lemma_date_text(year, month, day);
    lemma_time_text(total_ms % 86_400_000);
    lemma_ascii_prefix(text);
    if total_ms < YEAR_10000_MS {
        lemma_within_year(year, month, day);
        if year >= 10000 {
            lemma_years_in_order(10000, year);
        }
        assert(text.take(10) == date_text(year, month, day));
    }
}

}
