use std::time::{Duration, SystemTime, UNIX_EPOCH};
use vstd::prelude::*;
use vstd::string::*;

verus! {

/// Whether `y` is a leap year of the proleptic Gregorian calendar.
pub open spec fn is_leap_year(y: int) -> bool {
    (y % 4 == 0 && y % 100 != 0) || y % 400 == 0
}

/// Number of days of month `m` (1 = January) in year `y`.
pub open spec fn days_in_month(y: int, m: int) -> int {
    if m == 2 {
        if is_leap_year(y) { 29 } else { 28 }
    } else if m == 4 || m == 6 || m == 9 || m == 11 {
        30
    } else {
        31
    }
}

/// A year, month (1..=12) and day of month that name a real calendar day.
pub open spec fn is_valid_date(y: int, m: int, d: int) -> bool {
    1 <= m <= 12 && 1 <= d <= days_in_month(y, m)
}

/// Number of leap years among the years strictly before `y` (counted from a fixed origin;
/// only differences of this function matter).
pub open spec fn leap_years_before(y: int) -> int {
    (y - 1) / 4 - (y - 1) / 100 + (y - 1) / 400
}

/// Days from 1970-01-01 to January 1st of year `y`.
pub open spec fn days_before_year(y: int) -> int {
    365 * (y - 1970) + leap_years_before(y) - leap_years_before(1970)
}

/// Days from January 1st to the first day of month `m` in year `y`.
pub open spec fn days_before_month(y: int, m: int) -> int {
    let base: int = if m == 1 { 0 }
        else if m == 2 { 31 }
        else if m == 3 { 59 }
        else if m == 4 { 90 }
        else if m == 5 { 120 }
        else if m == 6 { 151 }
        else if m == 7 { 181 }
        else if m == 8 { 212 }
        else if m == 9 { 243 }
        else if m == 10 { 273 }
        else if m == 11 { 304 }
        else { 334 };
    if m > 2 && is_leap_year(y) { base + 1 } else { base }
}

/// Signed number of days from 1970-01-01 to the given date.
pub open spec fn days_from_civil(y: int, m: int, d: int) -> int {
    days_before_year(y) + days_before_month(y, m) + d - 1
}

/// Days from 0000-03-01 to March 1st of year `y` (years that start in March).
spec fn days_to_march_year(y: int) -> int {
    365 * y + y / 4 - y / 100 + y / 400
}

/// Days from March 1st to the first day of the month `mp` months later.
spec fn days_before_march_month(mp: int) -> int {
    (153 * mp + 2) / 5
}

proof fn lemma_year_of_era(doe: int)
    requires
        0 <= doe <= 146096,
    ensures
        ({
            let yoe = (doe - doe / 1460 + doe / 36524 - doe / 146096) / 365;
            let doy = doe - (365 * yoe + yoe / 4 - yoe / 100);
            &&& 0 <= yoe <= 399
            &&& 0 <= doy <= 365
            &&& doy == 365 ==> is_leap_year(yoe + 1)
        }),
{
}


proof fn lemma_day_of_year(doy: int)
    requires
        0 <= doy <= 365,
    ensures
        ({
            let mp = (5 * doy + 2) / 153;
            let day = doy - days_before_march_month(mp) + 1;
            &&& 0 <= mp <= 11
            &&& 1 <= day
            &&& mp != 11 ==> day <= days_in_month(0, if mp < 10 { mp + 3 } else { mp - 9 })
            &&& mp == 11 ==> day <= 28 || (day == 29 && doy == 365)
        }),
{
}

proof fn lemma_march_year_leaps(y: int)
    ensures
        days_to_march_year(y) == 365 * y + leap_years_before(y) + (if is_leap_year(y) { 1int } else { 0 }),
        days_to_march_year(y - 1) == 365 * (y - 1) + leap_years_before(y),
{
    assert(y / 4 == (y - 1) / 4 + (if y % 4 == 0 { 1int } else { 0 }));
    assert(y / 100 == (y - 1) / 100 + (if y % 100 == 0 { 1int } else { 0 }));
    assert(y / 400 == (y - 1) / 400 + (if y % 400 == 0 { 1int } else { 0 }));
    assert(leap_years_before(1970) == 477);
}

/// January-based and March-based day counts agree.
proof fn lemma_civil_march(year: int, month: int, day: int)
    requires
        1 <= month <= 12,
    ensures
        ({
            let y = if month <= 2 { year - 1 } else { year };
            let mp = if month >= 3 { month - 3 } else { month + 9 };
            days_from_civil(year, month, day) + 719468
                == days_to_march_year(y) + days_before_march_month(mp) + day - 1
        }),
{
    lemma_march_year_leaps(year);
    assert(leap_years_before(1970) == 477);
}

/// Shifting by whole 400-year eras shifts the day count by whole eras.
proof fn lemma_march_year_era(yoe: int, era: int)
    ensures
        days_to_march_year(yoe + 400 * era) == days_to_march_year(yoe) + 146097 * era,
{
    let y = yoe + 400 * era;
    vstd::arithmetic::div_mod::lemma_fundamental_div_mod(yoe, 4);
    vstd::arithmetic::div_mod::lemma_fundamental_div_mod(yoe, 100);
    vstd::arithmetic::div_mod::lemma_fundamental_div_mod(yoe, 400);
    vstd::arithmetic::div_mod::lemma_fundamental_div_mod_converse_div(y, 4, yoe / 4 + 100 * era, yoe % 4);
    vstd::arithmetic::div_mod::lemma_fundamental_div_mod_converse_div(y, 100, yoe / 100 + 4 * era, yoe % 100);
    vstd::arithmetic::div_mod::lemma_fundamental_div_mod_converse_div(y, 400, yoe / 400 + era, yoe % 400);
}


proof fn lemma_leap_era(y: int, era: int)
    ensures
        is_leap_year(y + 400 * era) == is_leap_year(y),
{
    let x = y + 400 * era;
    vstd::arithmetic::div_mod::lemma_fundamental_div_mod(y, 4);
    vstd::arithmetic::div_mod::lemma_fundamental_div_mod(y, 100);
    vstd::arithmetic::div_mod::lemma_fundamental_div_mod(y, 400);
    vstd::arithmetic::div_mod::lemma_fundamental_div_mod_converse(x, 4, y / 4 + 100 * era, y % 4);
    vstd::arithmetic::div_mod::lemma_fundamental_div_mod_converse(x, 100, y / 100 + 4 * era, y % 100);
    vstd::arithmetic::div_mod::lemma_fundamental_div_mod_converse(x, 400, y / 400 + era, y % 400);
}

/// Combines the era, year-of-era and day-of-year steps into a calendar date.
proof fn lemma_days_to_date(
    z: int,
    era: int,
    doe: int,
    yoe: int,
    doy: int,
    mp: int,
    day: int,
    month: int,
    year: int,
)
    requires
        era == z / 146097,
        doe == z - era * 146097,
        yoe == (doe - doe / 1460 + doe / 36524 - doe / 146096) / 365,
        doy == doe - (365 * yoe + yoe / 4 - yoe / 100),
        mp == (5 * doy + 2) / 153,
        day == doy - (153 * mp + 2) / 5 + 1,
        month == if mp < 10 { mp + 3 } else { mp - 9 },
        year == if month <= 2 { yoe + era * 400 + 1 } else { yoe + era * 400 },
    ensures
        0 <= doe <= 146096,
        0 <= yoe <= 399,
        0 <= doy <= 365,
        0 <= mp <= 11,
        is_valid_date(year, month, day),
        days_from_civil(year, month, day) + 719468 == z,
{
    vstd::arithmetic::div_mod::lemma_fundamental_div_mod(z, 146097);
    lemma_year_of_era(doe);
    lemma_day_of_year(doy);
    lemma_civil_march(year, month, day);
    lemma_march_year_era(yoe, era);
    lemma_leap_era(yoe + 1, era);
    assert(days_to_march_year(yoe) == 365 * yoe + yoe / 4 - yoe / 100);
}

/// The calendar date (year, month, day of month) of the day `d` days after 1970-01-01.
/// By `lemma_civil_date_of` it exists and by `lemma_days_from_civil_injective` it is unique.
pub open spec fn civil_date_of(d: int) -> (int, int, int) {
    choose|t: (int, int, int)| is_valid_date(t.0, t.1, t.2) && days_from_civil(t.0, t.1, t.2) == d
}

proof fn lemma_civil_date_is(d: int, y: int, m: int, dd: int)
    requires
        is_valid_date(y, m, dd),
        days_from_civil(y, m, dd) == d,
    ensures
        civil_date_of(d) == (y, m, dd),
{
    let w = (y, m, dd);
    assert(is_valid_date(w.0, w.1, w.2) && days_from_civil(w.0, w.1, w.2) == d);
    let t = civil_date_of(d);
    assert(is_valid_date(t.0, t.1, t.2) && days_from_civil(t.0, t.1, t.2) == d);
    lemma_days_from_civil_injective(t.0, t.1, t.2, y, m, dd);
}

/// Every day, before or after 1970-01-01, has a calendar date.
pub proof fn lemma_civil_date_of(d: int)
    ensures
        is_valid_date(civil_date_of(d).0, civil_date_of(d).1, civil_date_of(d).2),
        days_from_civil(civil_date_of(d).0, civil_date_of(d).1, civil_date_of(d).2) == d,
{
    let z = d + 719468;
    let era = z / 146097;
    let doe = z - era * 146097;
    let yoe = (doe - doe / 1460 + doe / 36524 - doe / 146096) / 365;
    let doy = doe - (365 * yoe + yoe / 4 - yoe / 100);
    let mp = (5 * doy + 2) / 153;
    let day = doy - (153 * mp + 2) / 5 + 1;
    let month = if mp < 10 { mp + 3 } else { mp - 9 };
    let year = if month <= 2 { yoe + era * 400 + 1 } else { yoe + era * 400 };
    lemma_days_to_date(z, era, doe, yoe, doy, mp, day, month, year);
    lemma_civil_date_is(d, year, month, day);
}

/// The calendar date of the day `d` days after 1970-01-01 (negative `d` before it),
/// as (year, month 1..=12, day of month). The year is truncated to `i32`.
#[verifier::spinoff_prover]
pub fn days_to_ymd(d: i64) -> (r: (i32, u32, u32))
    requires
        d <= i64::MAX - 719468,
    ensures
        1 <= r.1 <= 12,
        1 <= r.2 <= 31,
        r.0 == #[verifier::truncate] (civil_date_of(d as int).0 as i32),
        r.1 == civil_date_of(d as int).1,
        r.2 == civil_date_of(d as int).2,
{
    let z = d + 719468;
    let era = (if z >= 0 { z } else { z - 146096 }) / 146097;
    assert(era == z / 146097) by {
        vstd::arithmetic::div_mod::lemma_fundamental_div_mod(z as int, 146097);
        vstd::arithmetic::div_mod::lemma_fundamental_div_mod((146096 - z) as int, 146097);
    }
    assert(0 <= z - era * 146097 <= 146096) by {
        vstd::arithmetic::div_mod::lemma_fundamental_div_mod(z as int, 146097);
    }
    let doe = z - era * 146097;
    let yoe = (doe - doe / 1460 + doe / 36524 - doe / 146096) / 365;
    assert(0 <= yoe <= 399) by {
        lemma_year_of_era(doe as int);
    }
    let y = yoe + era * 400;
    let doy = doe - (365 * yoe + yoe / 4 - yoe / 100);
    assert(0 <= doy <= 365) by {
        lemma_year_of_era(doe as int);
    }
    let mp = (5 * doy + 2) / 153;
    let day_i = doy - (153 * mp + 2) / 5 + 1;
    let month_i = if mp < 10 { mp + 3 } else { mp - 9 };
    let year_i = if month_i <= 2 { y + 1 } else { y };
    proof {
        lemma_days_to_date(
            z as int,
            era as int,
            doe as int,
            yoe as int,
            doy as int,
            mp as int,
            day_i as int,
            month_i as int,
            year_i as int,
        );
    }
    let day = day_i as u32;
    let month = month_i as u32;
    let year = #[verifier::truncate] (year_i as i32);
    proof {
        lemma_civil_date_is(d as int, year_i as int, month as int, day as int);
    }
    (year, month, day)
}


proof fn lemma_leap_years_monotone(y1: int, y2: int)
    requires
        y1 <= y2,
    ensures
        leap_years_before(y1) <= leap_years_before(y2),
{
    let a1 = y1 - 1;
    let a2 = y2 - 1;
    vstd::arithmetic::div_mod::lemma_fundamental_div_mod(a1, 100);
    vstd::arithmetic::div_mod::lemma_fundamental_div_mod(a2, 100);
    vstd::arithmetic::div_mod::lemma_fundamental_div_mod(a1 % 100, 4);
    vstd::arithmetic::div_mod::lemma_fundamental_div_mod(a2 % 100, 4);
    assert(a1 / 4 == 25 * (a1 / 100) + (a1 % 100) / 4) by {
        vstd::arithmetic::div_mod::lemma_fundamental_div_mod_converse_div(
            a1, 4, 25 * (a1 / 100) + (a1 % 100) / 4, (a1 % 100) % 4);
    }
    assert(a2 / 4 == 25 * (a2 / 100) + (a2 % 100) / 4) by {
        vstd::arithmetic::div_mod::lemma_fundamental_div_mod_converse_div(
            a2, 4, 25 * (a2 / 100) + (a2 % 100) / 4, (a2 % 100) % 4);
    }
    vstd::arithmetic::div_mod::lemma_div_is_ordered(a1, a2, 100);
    vstd::arithmetic::div_mod::lemma_div_is_ordered(a1, a2, 400);
    if a1 / 100 == a2 / 100 {
        vstd::arithmetic::div_mod::lemma_div_is_ordered(a1 % 100, a2 % 100, 4);
    }
}

proof fn lemma_next_year(y: int)
    ensures
        days_before_year(y + 1) == days_before_year(y) + 365 + (if is_leap_year(y) { 1int } else { 0 }),
{
    assert(y / 4 == (y - 1) / 4 + (if y % 4 == 0 { 1int } else { 0 }));
    assert(y / 100 == (y - 1) / 100 + (if y % 100 == 0 { 1int } else { 0 }));
    assert(y / 400 == (y - 1) / 400 + (if y % 400 == 0 { 1int } else { 0 }));
}

/// A valid date's day count lies within its year.
proof fn lemma_date_within_year(y: int, m: int, d: int)
    requires
        is_valid_date(y, m, d),
    ensures
        days_before_year(y) <= days_from_civil(y, m, d) < days_before_year(y + 1),
{
    lemma_next_year(y);
}

/// Within one year, a later month or day gives a larger day count.
proof fn lemma_date_order_in_year(y: int, m1: int, d1: int, m2: int, d2: int)
    requires
        is_valid_date(y, m1, d1),
        is_valid_date(y, m2, d2),
        m1 < m2 || (m1 == m2 && d1 < d2),
    ensures
        days_from_civil(y, m1, d1) < days_from_civil(y, m2, d2),
{
}

/// Different calendar dates are different days: the day count of a valid date
/// determines the date.
pub proof fn lemma_days_from_civil_injective(y1: int, m1: int, d1: int, y2: int, m2: int, d2: int)
    requires
        is_valid_date(y1, m1, d1),
        is_valid_date(y2, m2, d2),
        days_from_civil(y1, m1, d1) == days_from_civil(y2, m2, d2),
    ensures
        y1 == y2 && m1 == m2 && d1 == d2,
{
    lemma_date_within_year(y1, m1, d1);
    lemma_date_within_year(y2, m2, d2);
    if y1 < y2 {
        lemma_leap_years_monotone(y1 + 1, y2);
    } else if y2 < y1 {
        lemma_leap_years_monotone(y2 + 1, y1);
    } else if m1 < m2 || (m1 == m2 && d1 < d2) {
        lemma_date_order_in_year(y1, m1, d1, m2, d2);
    } else if m2 < m1 || (m1 == m2 && d2 < d1) {
        lemma_date_order_in_year(y1, m2, d2, m1, d1);
    }
}


/// The point in time that `std::time::SystemTime` stands for.
#[verifier::external_type_specification]
#[verifier::external_body]
pub struct ExSystemTime(std::time::SystemTime);

/// `std::time::SystemTime::now`: the system clock's reading. Nothing is promised of it:
/// it is the time.
#[verifier::external_body]
fn system_now() -> (now: SystemTime) {
    SystemTime::now()
}

/// `SystemTime::duration_since(UNIX_EPOCH)`: the time elapsed since the Unix epoch, or the
/// zero `Duration` (its default) when `t` lies before the epoch. Nothing is promised of
/// the value, which depends on the clock reading `t`.
#[verifier::external_body]
fn elapsed_since_epoch(t: &SystemTime) -> (elapsed: Duration) {
    t.duration_since(UNIX_EPOCH).unwrap_or_default()
}

/// `Duration::as_secs`: the whole seconds of a duration. Nothing is promised of the value:
/// a `Duration` is opaque here.
#[verifier::external_body]
fn whole_seconds(d: &Duration) -> (secs: u64) {
    d.as_secs()
}

/// The number of whole days in `secs` seconds since the Unix epoch.
pub fn days_from_unix_seconds(secs: u64) -> (days: i64)
    ensures
        days == secs / 86400,
{
    (secs / 86400) as i64
}

/// Today, as whole days since 1970-01-01 by the system clock.
pub fn today_days() -> (days: i64)
    ensures
        0 <= days <= u64::MAX / 86400,
{
    let now = system_now();
    let elapsed = elapsed_since_epoch(&now);
    days_from_unix_seconds(whole_seconds(&elapsed))
}

/// The Thursday on or before `today` (1970-01-01 was a Thursday).
pub open spec fn last_thursday(today: int) -> int {
    today - today % 7
}

/// The eight Thursdays offered when a meeting is dated, for the day `today`: the two
/// before the current week's Thursday, that Thursday, and the five after it.
pub open spec fn thursday_options_spec(today: int) -> Seq<i64> {
    Seq::new(8, |i: int| (last_thursday(today) + (i - 2) * 7) as i64)
}

/// The Thursday options for the given day.
pub fn thursday_options_for(today: i64) -> (options: Vec<i64>)
    requires
        0 <= today <= u64::MAX / 86400,
    ensures
        options@ == thursday_options_spec(today as int),
{
    let dow = today % 7;
    let last_thu = today - dow;
    let mut options: Vec<i64> = Vec::new();
    let mut i: i64 = -2;
    while i < 6
        invariant
            -2 <= i <= 6,
            last_thu == last_thursday(today as int),
            0 <= today <= u64::MAX / 86400,
            options@.len() == i + 2,
            forall|k: int| 0 <= k < options@.len() ==> options@[k] == thursday_options_spec(today as int)[k],
        decreases 6 - i,
    {
        options.push(last_thu + i * 7);
        i = i + 1;
    }
    assert(options@ =~= thursday_options_spec(today as int));
    options
}

/// The options are eight Thursdays (day counts divisible by 7, 1970-01-01 being a
/// Thursday), a week apart, and the third one is the Thursday of the current week: on or
/// before `today` and less than a week before it.
pub proof fn lemma_thursday_options(today: int)
    requires
        0 <= today <= u64::MAX / 86400,
    ensures
        thursday_options_spec(today).len() == 8,
        forall|i: int| 0 <= i < 8 ==> #[trigger] thursday_options_spec(today)[i] % 7 == 0,
        forall|i: int|
            0 <= i < 7 ==> #[trigger] thursday_options_spec(today)[i + 1] == thursday_options_spec(today)[i] + 7,
        thursday_options_spec(today)[2] <= today < thursday_options_spec(today)[2] + 7,
{
    let o = thursday_options_spec(today);
    assert forall|i: int| 0 <= i < 8 implies #[trigger] o[i] == last_thursday(today) + (i - 2) * 7 by {}
    assert forall|i: int| 0 <= i < 8 implies #[trigger] o[i] % 7 == 0 by {
        assert(o[i] == last_thursday(today) + (i - 2) * 7);
    }
    assert forall|i: int| 0 <= i < 7 implies #[trigger] o[i + 1] == o[i] + 7 by {
        assert(o[i] == last_thursday(today) + (i - 2) * 7);
        assert(o[i + 1] == last_thursday(today) + (i + 1 - 2) * 7);
    }
    assert(o[2] == last_thursday(today));
}

/// The Thursday options for today by the system clock.
pub fn thursday_options() -> (options: Vec<i64>)
    ensures
        exists|today: int| 0 <= today <= u64::MAX / 86400 && options@ == thursday_options_spec(today),
{
    let today = today_days();
    thursday_options_for(today)
}


/// The three-letter English name of month `m` (1 = January).
pub open spec fn month_abbrev_spec(m: int) -> Seq<char> {
    if m == 1 { "Jan"@ }
    else if m == 2 { "Feb"@ }
    else if m == 3 { "Mar"@ }
    else if m == 4 { "Apr"@ }
    else if m == 5 { "May"@ }
    else if m == 6 { "Jun"@ }
    else if m == 7 { "Jul"@ }
    else if m == 8 { "Aug"@ }
    else if m == 9 { "Sep"@ }
    else if m == 10 { "Oct"@ }
    else if m == 11 { "Nov"@ }
    else { "Dec"@ }
}

/// The three-letter name of a month.
pub fn month_abbrev(month: u32) -> (name: &'static str)
    requires
        1 <= month <= 12,
    ensures
        name@ == month_abbrev_spec(month as int),
{
    match month {
        1 => "Jan",
        2 => "Feb",
        3 => "Mar",
        4 => "Apr",
        5 => "May",
        6 => "Jun",
        7 => "Jul",
        8 => "Aug",
        9 => "Sep",
        10 => "Oct",
        11 => "Nov",
        _ => "Dec",
    }
}

/// The month names are the English three-letter abbreviations, January to December in
/// calendar order, no two alike.
pub proof fn lemma_month_names()
    ensures
        month_abbrev_spec(1) == seq!['J', 'a', 'n'],
        month_abbrev_spec(2) == seq!['F', 'e', 'b'],
        month_abbrev_spec(3) == seq!['M', 'a', 'r'],
        month_abbrev_spec(4) == seq!['A', 'p', 'r'],
        month_abbrev_spec(5) == seq!['M', 'a', 'y'],
        month_abbrev_spec(6) == seq!['J', 'u', 'n'],
        month_abbrev_spec(7) == seq!['J', 'u', 'l'],
        month_abbrev_spec(8) == seq!['A', 'u', 'g'],
        month_abbrev_spec(9) == seq!['S', 'e', 'p'],
        month_abbrev_spec(10) == seq!['O', 'c', 't'],
        month_abbrev_spec(11) == seq!['N', 'o', 'v'],
        month_abbrev_spec(12) == seq!['D', 'e', 'c'],
        forall|m1: int, m2: int|
            1 <= m1 <= 12 && 1 <= m2 <= 12 && m1 != m2 ==> #[trigger] month_abbrev_spec(m1)
                != #[trigger] month_abbrev_spec(m2),
{
    reveal_strlit("Jan");
    reveal_strlit("Feb");
    reveal_strlit("Mar");
    reveal_strlit("Apr");
    reveal_strlit("May");
    reveal_strlit("Jun");
    reveal_strlit("Jul");
    reveal_strlit("Aug");
    reveal_strlit("Sep");
    reveal_strlit("Oct");
    reveal_strlit("Nov");
    reveal_strlit("Dec");
    assert(month_abbrev_spec(1) =~= seq!['J', 'a', 'n']);
    assert(month_abbrev_spec(2) =~= seq!['F', 'e', 'b']);
    assert(month_abbrev_spec(3) =~= seq!['M', 'a', 'r']);
    assert(month_abbrev_spec(4) =~= seq!['A', 'p', 'r']);
    assert(month_abbrev_spec(5) =~= seq!['M', 'a', 'y']);
    assert(month_abbrev_spec(6) =~= seq!['J', 'u', 'n']);
    assert(month_abbrev_spec(7) =~= seq!['J', 'u', 'l']);
    assert(month_abbrev_spec(8) =~= seq!['A', 'u', 'g']);
    assert(month_abbrev_spec(9) =~= seq!['S', 'e', 'p']);
    assert(month_abbrev_spec(10) =~= seq!['O', 'c', 't']);
    assert(month_abbrev_spec(11) =~= seq!['N', 'o', 'v']);
    assert(month_abbrev_spec(12) =~= seq!['D', 'e', 'c']);
    assert forall|m1: int, m2: int|
        1 <= m1 <= 12 && 1 <= m2 <= 12 && m1 != m2 implies #[trigger] month_abbrev_spec(m1)
            != #[trigger] month_abbrev_spec(m2) by {
        let a = month_abbrev_spec(m1);
        let b = month_abbrev_spec(m2);
        if a == b {
            assert(a[0] == b[0] && a[1] == b[1] && a[2] == b[2]);
        }
    }
}

/// The decimal digit character for `d` (0..=9).
pub open spec fn digit_char(d: nat) -> char {
    (48 + d) as char
}

/// The decimal representation of `n`, without leading zeros.
pub open spec fn decimal_digits(n: nat) -> Seq<char>
    decreases n,
{
    if n < 10 {
        seq![digit_char(n)]
    } else {
        decimal_digits(n / 10).push(digit_char(n % 10))
    }
}

/// The one-character string of decimal digit `d`.
fn digit_str(d: u64) -> (s: &'static str)
    requires
        d < 10,
    ensures
        s@ == seq![digit_char(d as nat)],
{
    match d {
        0 => {
            proof { reveal_strlit("0"); }
            "0"
        },
        1 => {
            proof { reveal_strlit("1"); }
            "1"
        },
        2 => {
            proof { reveal_strlit("2"); }
            "2"
        },
        3 => {
            proof { reveal_strlit("3"); }
            "3"
        },
        4 => {
            proof { reveal_strlit("4"); }
            "4"
        },
        5 => {
            proof { reveal_strlit("5"); }
            "5"
        },
        6 => {
            proof { reveal_strlit("6"); }
            "6"
        },
        7 => {
            proof { reveal_strlit("7"); }
            "7"
        },
        8 => {
            proof { reveal_strlit("8"); }
            "8"
        },
        _ => {
            proof { reveal_strlit("9"); }
            "9"
        },
    }
}

/// Appends the decimal digits of `n` to `s`.
fn push_decimal(s: &mut String, n: u64)
    ensures
        final(s)@ == old(s)@ + decimal_digits(n as nat),
    decreases n,
{
    if n >= 10 {
        push_decimal(s, n / 10);
    }
    s.append(digit_str(n % 10));
    proof {
        if n >= 10 {
            assert(decimal_digits(n as nat) == decimal_digits((n / 10) as nat).push(digit_char((n % 10) as nat)));
        }
    }
}

/// `n` in decimal: its digits without sign, padding or leading zeros.
pub fn decimal_string(n: u64) -> (s: String)
    ensures
        s@ == decimal_digits(n as nat),
{
    let mut s = String::new();
    push_decimal(&mut s, n);
    assert(s@ =~= decimal_digits(n as nat));
    s
}

/// What follows the date in a meeting's label: whether it lies before or on `today`.
pub open spec fn label_suffix(date_days: int, today: int) -> Seq<char> {
    if date_days < today {
        " (past)"@
    } else if date_days == today {
        " (Today!)"@
    } else {
        ""@
    }
}

/// The suffix of a label: " (past)" for a day before today, " (Today!)" for today, and
/// nothing for a later day.
pub proof fn lemma_label_suffixes(date_days: int, today: int)
    ensures
        date_days < today ==> label_suffix(date_days, today) == seq![' ', '(', 'p', 'a', 's', 't', ')'],
        date_days == today ==> label_suffix(date_days, today) == seq![
            ' ',
            '(',
            'T',
            'o',
            'd',
            'a',
            'y',
            '!',
            ')',
        ],
        date_days > today ==> label_suffix(date_days, today).len() == 0,
{
    reveal_strlit(" (past)");
    reveal_strlit(" (Today!)");
    reveal_strlit("");
    assert(" (past)"@ =~= seq![' ', '(', 'p', 'a', 's', 't', ')']);
    assert(" (Today!)"@ =~= seq![' ', '(', 'T', 'o', 'd', 'a', 'y', '!', ')']);
}

/// The number that a string of decimal digits stands for.
pub open spec fn digits_value(s: Seq<char>) -> int
    decreases s.len(),
{
    if s.len() == 0 {
        0
    } else {
        digits_value(s.drop_last()) * 10 + ((s.last() as int) - ('0' as int))
    }
}

/// The decimal digits of `n` are characters '0' to '9', stand for `n`, and start with '0'
/// only for 0 itself.
pub proof fn lemma_decimal_digits(n: nat)
    ensures
        decimal_digits(n).len() >= 1,
        forall|i: int| 0 <= i < decimal_digits(n).len() ==> '0' <= #[trigger] decimal_digits(n)[i] <= '9',
        digits_value(decimal_digits(n)) == n,
        decimal_digits(n)[0] == '0' ==> n == 0,
    decreases n,
{
    if n >= 10 {
        let q = (n / 10) as nat;
        lemma_decimal_digits(q);
        let d = decimal_digits(n);
        assert(d == decimal_digits(q).push(digit_char((n % 10) as nat)));
        assert(d.drop_last() =~= decimal_digits(q));
        assert(d[0] == decimal_digits(q)[0]);
        assert(d.last() == digit_char((n % 10) as nat));
        assert((digit_char((n % 10) as nat) as int) == 48 + n % 10);
        assert(digits_value(d) == digits_value(d.drop_last()) * 10 + ((d.last() as int) - ('0' as int)));
        assert(n == q * 10 + n % 10);
        assert forall|i: int| 0 <= i < d.len() implies '0' <= #[trigger] d[i] <= '9' by {
            if i < d.len() - 1 {
                assert(d[i] == decimal_digits(q)[i]);
            }
        }
    } else {
        let d = decimal_digits(n);
        assert(d.drop_last() =~= Seq::<char>::empty());
        assert(digits_value(d.drop_last()) == 0);
        assert((digit_char(n) as int) == 48 + n);
    }
}

/// The label of a meeting on day `date_days`, seen on day `today`: "Thu", the month
/// name and the day of the month, then the suffix.
pub open spec fn o3_label_spec(date_days: int, today: int) -> Seq<char> {
    "Thu "@ + month_abbrev_spec(civil_date_of(date_days).1) + " "@ + decimal_digits(
        civil_date_of(date_days).2 as nat,
    ) + label_suffix(date_days, today)
}

/// The label of the day y-m-d reads "Thu ", the name of month `m`, a space, the day `d`
/// in decimal, then whether it is past or today.
pub proof fn lemma_label_of_date(y: int, m: int, d: int, today: int)
    requires
        is_valid_date(y, m, d),
    ensures
        o3_label_spec(days_from_civil(y, m, d), today) == seq!['T', 'h', 'u', ' '] + month_abbrev_spec(m)
            + seq![' '] + decimal_digits(d as nat) + label_suffix(days_from_civil(y, m, d), today),
        o3_label_spec(days_from_civil(y, m, d), today).subrange(4, 7) == month_abbrev_spec(m),
{
    reveal_strlit("Thu ");
    reveal_strlit(" ");
    lemma_civil_date_is(days_from_civil(y, m, d), y, m, d);
    reveal_strlit("Jan");
    reveal_strlit("Feb");
    reveal_strlit("Mar");
    reveal_strlit("Apr");
    reveal_strlit("May");
    reveal_strlit("Jun");
    reveal_strlit("Jul");
    reveal_strlit("Aug");
    reveal_strlit("Sep");
    reveal_strlit("Oct");
    reveal_strlit("Nov");
    reveal_strlit("Dec");
    assert("Thu "@ =~= seq!['T', 'h', 'u', ' ']);
    assert(" "@ =~= seq![' ']);
    let l = o3_label_spec(days_from_civil(y, m, d), today);
    assert(month_abbrev_spec(m).len() == 3);
    assert(l.subrange(4, 7) =~= month_abbrev_spec(m));
}

/// The label of a meeting on day `date_days`, seen on day `today`.
pub fn o3_label_for(date_days: i64, today: i64) -> (label: String)
    requires
        date_days <= i64::MAX - 719468,
    ensures
        label@ == o3_label_spec(date_days as int, today as int),
{
    let (_, month, day) = days_to_ymd(date_days);
    let mon = month_abbrev(month);
    let suffix = if date_days < today {
        " (past)"
    } else if date_days == today {
        " (Today!)"
    } else {
        ""
    };
    let mut label = String::from_str("Thu ");
    label.append(mon);
    label.append(" ");
    label.append(decimal_string(day as u64).as_str());
    label.append(suffix);
    label
}

/// The label of a meeting on day `date_days`, seen today by the system clock.
pub fn o3_label(date_days: i64) -> (label: String)
    requires
        date_days <= i64::MAX - 719468,
    ensures
        exists|today: int| 0 <= today <= u64::MAX / 86400 && label@ == o3_label_spec(date_days as int, today),
{
    let today = today_days();
    o3_label_for(date_days, today)
}

} // verus!
