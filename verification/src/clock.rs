//! Calendar and clock: the calls into `chrono`, and the date arithmetic of
//! the alerts (days left until an expiry date).

use vstd::prelude::*;
use chrono::Datelike;
use crate::text::{trim_text, blank, trimmed, is_blank};
use crate::models::opt_view;

verus! {

/// Day number (counted from 0001-01-01 as day 1) of the earliest date that
/// `chrono::NaiveDate` represents.
pub const MIN_DAY: i32 = -95746129;

/// Day number of the latest date that `chrono::NaiveDate` represents.
pub const MAX_DAY: i32 = 95745399;

/// A decimal digit.
pub open spec fn is_digit_char(c: char) -> bool {
    '0' <= c && c <= '9'
}

/// The year of a time stamp as `%Y` writes it for years from 0 on: four
/// digits, or `+` and five or six digits for years after 9999.
pub open spec fn year_text(y: Seq<char>) -> bool {
    ||| y.len() == 4 && forall|i: int| 0 <= i < 4 ==> is_digit_char(#[trigger] y[i])
    ||| (y.len() == 6 || y.len() == 7) && y[0] == '+' && forall|i: int|
        1 <= i < y.len() ==> is_digit_char(#[trigger] y[i])
}

/// The part of a time stamp after the year: `-MM-DD HH:MM:SS`.
pub open spec fn date_time_tail(t: Seq<char>) -> bool {
    &&& t.len() == 15
    &&& t[0] == '-' && t[3] == '-' && t[6] == ' ' && t[9] == ':' && t[12] == ':'
    &&& is_digit_char(t[1]) && is_digit_char(t[2]) && is_digit_char(t[4]) && is_digit_char(t[5])
    &&& is_digit_char(t[7]) && is_digit_char(t[8]) && is_digit_char(t[10]) && is_digit_char(t[11])
    &&& is_digit_char(t[13]) && is_digit_char(t[14])
}

/// A local time stamp in the form `YYYY-MM-DD HH:MM:SS` (19 characters for
/// the years 0 to 9999).
pub open spec fn time_stamp(s: Seq<char>) -> bool {
    &&& s.len() >= 19
    &&& year_text(s.take(s.len() - 15))
    &&& date_time_tail(s.skip(s.len() - 15))
}

/// The local date and time now, as `YYYY-MM-DD HH:MM:SS`.
///
/// Calls `chrono::Local::now` and formats it with `%Y-%m-%d %H:%M:%S`:
/// chrono writes the year as four digits (with a `+` and more digits after
/// the year 9999; `Local::now` gives no year before 1969) and every other
/// field as two digits. Which time the text shows is not stated: it depends
/// on the clock.
#[verifier::external_body]
pub(crate) fn now_iso() -> (r: String)
    ensures
        time_stamp(r@),
{
    chrono::Local::now().format("%Y-%m-%d %H:%M:%S").to_string()
}

/// Today's local date, as its day number (`Datelike::num_days_from_ce`).
///
/// Calls `chrono::Local::now`. It states only that the day lies in the range
/// of `NaiveDate`, which holds of every date; the day itself depends on the
/// clock.
#[verifier::external_body]
pub(crate) fn today_day() -> (r: i32)
    ensures
        MIN_DAY <= r <= MAX_DAY,
{
    chrono::Local::now().date_naive().num_days_from_ce()
}

/// `s` is a time stamp that the local clock gave: the text of a reading of
/// `now_iso`, not any other text of that shape.
pub closed spec fn clock_text(s: Seq<char>) -> bool {
    exists|t: String| call_ensures(now_iso, (), t) && t@ == s
}

/// `d` is a day that the local clock gave as today: a reading of
/// `today_day`, not any other day of the calendar.
pub closed spec fn clock_day(d: i32) -> bool {
    call_ensures(today_day, (), d)
}

/// A time stamp the clock gave has the shape `YYYY-MM-DD HH:MM:SS`.
pub proof fn lemma_clock_text_shape(s: Seq<char>)
    requires
        clock_text(s),
    ensures
        time_stamp(s),
{
    let t = choose|t: String| call_ensures(now_iso, (), t) && t@ == s;
}

/// A day the clock gave lies in the calendar.
pub proof fn lemma_clock_day_range(d: i32)
    requires
        clock_day(d),
    ensures
        MIN_DAY <= d <= MAX_DAY,
{
}

/// Reads the local clock: the time stamp now.
pub(crate) fn read_clock() -> (r: String)
    ensures
        clock_text(r@),
        time_stamp(r@),
{
    let r = now_iso();
    assert(call_ensures(now_iso, (), r));
    r
}

/// Reads the local clock: today's day number.
pub(crate) fn read_today() -> (r: i32)
    ensures
        clock_day(r),
        MIN_DAY <= r <= MAX_DAY,
{
    let r = today_day();
    assert(call_ensures(today_day, (), r));
    r
}

/// The day number that `NaiveDate::parse_from_str(text, "%Y-%m-%d")` gives,
/// or `None` when it refuses the text.
pub uninterp spec fn parsed_day(text: Seq<char>) -> Option<i32>;

/// Calls `chrono::NaiveDate::parse_from_str` with the format `%Y-%m-%d` and
/// turns the date into its day number. The result is named by `parsed_day`;
/// a parsed date lies in the range of `NaiveDate`.
#[verifier::external_body]
fn parse_day(s: &str) -> (r: Option<i32>)
    ensures
        r == parsed_day(s@),
        r matches Some(d) ==> MIN_DAY <= d <= MAX_DAY,
{
    match chrono::NaiveDate::parse_from_str(s, "%Y-%m-%d") {
        Ok(d) => Some(d.num_days_from_ce()),
        Err(_) => None,
    }
}

/// The text `%Y-%m-%d` that chrono formats for the date with this day
/// number.
pub uninterp spec fn ymd_text(day: i32) -> Seq<char>;

/// Calls `chrono::NaiveDate::from_num_days_from_ce_opt` and formats the
/// date as `%Y-%m-%d`. The result is named by `ymd_text`.
#[verifier::external_body]
fn ymd_of_day(day: i32) -> (r: String)
    requires
        MIN_DAY <= day <= MAX_DAY,
    ensures
        r@ == ymd_text(day),
{
    match chrono::NaiveDate::from_num_days_from_ce_opt(day) {
        Some(d) => d.format("%Y-%m-%d").to_string(),
        None => String::new(),
    }
}

/// The day number of a `YYYY-MM-DD` date, read after trimming.
pub fn parse_date(s: &str) -> (r: Option<i32>)
    ensures
        r == parsed_day(trimmed(s@)),
        r matches Some(d) ==> MIN_DAY <= d <= MAX_DAY,
{
    let t = trim_text(s);
    parse_day(t.as_str())
}

/// Days from `today` until the expiry date (negative once it has passed);
/// nothing when there is no date, it is blank or it does not parse.
pub open spec fn days_until_spec(expiry: Option<Seq<char>>, today: i32) -> Option<i64> {
    match expiry {
        None => None,
        Some(s) => if is_blank(s) {
            None
        } else {
            match parsed_day(trimmed(s)) {
                Some(d) => Some((d - today) as i64),
                None => None,
            }
        },
    }
}

/// Days until the expiry date, counted from the given day number.
pub fn days_until_from(expiry: &Option<String>, today: i32) -> (r: Option<i64>)
    requires
        MIN_DAY <= today <= MAX_DAY,
    ensures
        r == days_until_spec(opt_view(*expiry), today),
{
    match expiry {
        None => None,
        Some(s) => {
            if blank(s.as_str()) {
                None
            } else {
                match parse_date(s.as_str()) {
                    Some(d) => Some(d as i64 - today as i64),
                    None => None,
                }
            }
        },
    }
}

/// Days until the expiry date, counted from today's local date.
pub fn days_until(expiry: &Option<String>) -> (r: Option<i64>)
    ensures
        exists|today: i32|
            clock_day(today) && MIN_DAY <= today <= MAX_DAY && r == #[trigger] days_until_spec(
                opt_view(*expiry),
                today,
            ),
{
    let today = read_today();
    days_until_from(expiry, today)
}

/// Whether `today + days` is a date of the calendar.
pub open spec fn day_in_range(today: int, days: int) -> bool {
    MIN_DAY <= today + days <= MAX_DAY
}

/// The `YYYY-MM-DD` text of the date `days` after today, or nothing when it
/// would leave the calendar.
pub fn date_after_today(days: i64) -> (r: Option<String>)
    ensures
        exists|today: i32|
            #![trigger day_in_range(today as int, days as int)]
            clock_day(today) && MIN_DAY <= today <= MAX_DAY && match r {
                Some(s) => day_in_range(today as int, days as int) && s@ == ymd_text(
                    (today + days) as i32,
                ),
                None => !day_in_range(today as int, days as int),
            },
{
    let today = read_today();
    if days < MIN_DAY as i64 - today as i64 || days > MAX_DAY as i64 - today as i64 {
        assert(!day_in_range(today as int, days as int));
        None
    } else {
        let day = (today as i64 + days) as i32;
        let s = ymd_of_day(day);
        assert(day_in_range(today as int, days as int) && s@ == ymd_text((today + days) as i32));
        Some(s)
    }
}

} // verus!
