//! The text of the account-age command.

use chrono::Datelike;
use vstd::prelude::*;

use crate::text::{decimal, decimal_text, join2, join4};

verus! {

/// The account-age announcement: the user's name, the date the account was
/// made, and how many days have passed since.
pub open spec fn age_message_of(
    name: Seq<char>,
    year: int,
    month: int,
    day: int,
    days_passed: int,
) -> Seq<char> {
    name + "さんは"@ + decimal_text(year) + "年"@ + decimal_text(month) + "月"@ + decimal_text(day)
        + "日にDiscordに生まれました。\n"@ + decimal_text(days_passed) + "日が経過しています。"@
}

/// The account-age announcement for `name`, whose account was made on
/// `year`-`month`-`day`, `days_passed` days ago.
pub fn age_message(name: &str, year: i32, month: u32, day: u32, days_passed: i64) -> (r: String)
    ensures
        r@ == age_message_of(name@, year as int, month as int, day as int, days_passed as int),
{
    let y = decimal(year as i64);
    let m = decimal(month as i64);
    let d = decimal(day as i64);
    let n = decimal(days_passed);
    let a = join4(name, "さんは", y.as_str(), "年");
    let b = join4(m.as_str(), "月", d.as_str(), "日にDiscordに生まれました。\n");
    let c = join2(n.as_str(), "日が経過しています。");
    let ab = join2(a.as_str(), b.as_str());
    let r = join2(ab.as_str(), c.as_str());
    proof {
        assert(r@ =~= age_message_of(name@, year as int, month as int, day as int, days_passed as int));
    }
    r
}

/// The calendar date (year, month, day) in UTC of the instant `secs` seconds
/// after 1970-01-01 00:00:00 UTC; `None` outside the range of dates that can
/// be represented.
pub uninterp spec fn utc_date_of(secs: i64) -> Option<(i32, u32, u32)>;

/// Relies on chrono's DateTime::<Utc>::from_timestamp (`None` when out of
/// range) and on its Datelike year, month and day.
#[verifier::external_body]
fn utc_date(secs: i64) -> (r: Option<(i32, u32, u32)>)
    ensures
        r == utc_date_of(secs),
{
    chrono::DateTime::<chrono::Utc>::from_timestamp(secs, 0).map(|d| (d.year(), d.month(), d.day()))
}

/// Whole days from `from` to `to` (both in seconds), rounded toward zero, as
/// chrono's `signed_duration_since(..).num_days()` counts them.
pub open spec fn days_between_of(from: int, to: int) -> int {
    if to >= from {
        (to - from) / 86400
    } else {
        -((from - to) / 86400)
    }
}

/// Whole days from `from` to `to`, both in seconds since the epoch, rounded toward zero.
pub fn days_between(from: i64, to: i64) -> (r: i64)
    ensures
        r as int == days_between_of(from as int, to as int),
{
    if to >= from {
        let d: u64 = (to as i128 - from as i128) as u64;
        (d / 86400) as i64
    } else {
        let d: u64 = (from as i128 - to as i128) as u64;
        -((d / 86400) as i64)
    }
}

/// The account-age announcement for `name`, whose account was made at
/// `created` and is looked at `now` (both in seconds since the epoch); `None`
/// when `created` lies outside the range of representable dates.
pub fn account_age_message(name: &str, created: i64, now: i64) -> (r: Option<String>)
    ensures
        match utc_date_of(created) {
            Some((y, m, d)) => r is Some && r->0@ == age_message_of(
                name@,
                y as int,
                m as int,
                d as int,
                days_between_of(created as int, now as int),
            ),
            None => r is None,
        },
{
    match utc_date(created) {
        Some((y, m, d)) => Some(age_message(name, y, m, d, days_between(created, now))),
        None => None,
    }
}

} // verus!
