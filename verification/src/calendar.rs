//! The Gregorian calendar, and timestamps in it.

use vstd::prelude::*;
use crate::text;

verus! {

/// Whether a year has 366 days.
pub open spec fn leap(y: nat) -> bool {
    y % 4 == 0 && (y % 100 != 0 || y % 400 == 0)
}

/// The number of days of a year.
pub open spec fn year_len(y: nat) -> nat {
    if leap(y) {
        366
    } else {
        365
    }
}

/// The number of days of a month.
pub open spec fn month_len(y: nat, m: nat) -> nat {
    if m == 2 {
        if leap(y) {
            29
        } else {
            28
        }
    } else if m == 4 || m == 6 || m == 9 || m == 11 {
        30
    } else {
        31
    }
}

/// The number of days from the start of year 0 to the start of a year.
pub open spec fn days_before_year(y: nat) -> nat
    decreases y,
{
    if y == 0 {
        0
    } else {
        days_before_year((y - 1) as nat) + year_len((y - 1) as nat)
    }
}

/// The number of days from the start of a year to the start of a month.
pub open spec fn days_before_month(y: nat, m: nat) -> nat
    decreases m,
{
    if m <= 1 {
        0
    } else {
        days_before_month(y, (m - 1) as nat) + month_len(y, (m - 1) as nat)
    }
}

/// The number of a date, counted from the first day of year 0.
pub open spec fn day_number(y: nat, m: nat, d: nat) -> int {
    days_before_year(y) + days_before_month(y, m) + d - 1
}

/// Whether a year, month and day name a date.
pub open spec fn is_date(y: nat, m: nat, d: nat) -> bool {
    1 <= m <= 12 && 1 <= d <= month_len(y, m)
}

/// Whether a date is the one that many days after 1 January 1970.
pub open spec fn is_date_of(date: (nat, nat, nat), days: nat) -> bool {
    is_date(date.0, date.1, date.2) && day_number(date.0, date.1, date.2) == day_number(1970, 1, 1)
        + days
}

/// The date that many days after 1 January 1970.
pub open spec fn date_of(days: nat) -> (nat, nat, nat) {
    choose|date: (nat, nat, nat)| is_date_of(date, days)
}

/// The number of days from 1 March of year 0 to 1 March of a year.
spec fn before_march(y: int) -> int {
    365 * y + y / 4 - y / 100 + y / 400
}

proof fn lemma_before_year(y: nat)
    ensures
        days_before_year(y) + (if leap(y) {
            1int
        } else {
            0
        }) == before_march(y as int) + 1,
        days_before_year(y + 1) == before_march(y as int) + 366,
    decreases y,
{
    if y > 0 {
        lemma_before_year((y - 1) as nat);
    }
}

proof fn lemma_before_month(y: nat)
    ensures
        days_before_month(y, 1) == 0,
        days_before_month(y, 2) == 31,
        days_before_month(y, 3) == 31 + month_len(y, 2),
        days_before_month(y, 4) == 62 + month_len(y, 2),
        days_before_month(y, 5) == 92 + month_len(y, 2),
        days_before_month(y, 6) == 123 + month_len(y, 2),
        days_before_month(y, 7) == 153 + month_len(y, 2),
        days_before_month(y, 8) == 184 + month_len(y, 2),
        days_before_month(y, 9) == 215 + month_len(y, 2),
        days_before_month(y, 10) == 245 + month_len(y, 2),
        days_before_month(y, 11) == 276 + month_len(y, 2),
        days_before_month(y, 12) == 306 + month_len(y, 2),
        days_before_month(y, 13) == year_len(y),
{
    reveal_with_fuel(days_before_month, 14);
}

/// The year of a 400-year era that a day of it falls in, years being counted from March.
proof fn lemma_year_of_era(doe: int, yoe: int)
    requires
        0 <= doe < 146097,
        yoe == (doe - doe / 1460 + doe / 36524 - doe / 146096) / 365,
    ensures
        0 <= yoe < 400,
        before_march(yoe) <= doe < before_march(yoe + 1),
{
    let a = doe / 1460;
    let b = doe / 36524;
    assert(0 <= b <= 4);
    assert(0 <= a <= 100);
}

proof fn lemma_years_grow(a: nat, b: nat)
    requires
        a <= b,
    ensures
        days_before_year(a) <= days_before_year(b),
    decreases b - a,
{
    if a < b {
        lemma_years_grow(a, (b - 1) as nat);
    }
}

proof fn lemma_months_grow(y: nat, a: nat, b: nat)
    requires
        a <= b,
    ensures
        days_before_month(y, a) <= days_before_month(y, b),
    decreases b - a,
{
    if a < b {
        lemma_months_grow(y, a, (b - 1) as nat);
    }
}

proof fn lemma_day_in_year(y: nat, m: nat, d: nat)
    requires
        is_date(y, m, d),
    ensures
        days_before_year(y) <= day_number(y, m, d) < days_before_year(y + 1),
{
    lemma_months_grow(y, m + 1, 13);
    lemma_before_month(y);
}

/// No two dates have the same number.
pub proof fn lemma_day_number_injective(a: (nat, nat, nat), b: (nat, nat, nat))
    requires
        is_date(a.0, a.1, a.2),
        is_date(b.0, b.1, b.2),
        day_number(a.0, a.1, a.2) == day_number(b.0, b.1, b.2),
    ensures
        a == b,
{
    lemma_day_in_year(a.0, a.1, a.2);
    lemma_day_in_year(b.0, b.1, b.2);
    if a.0 < b.0 {
        lemma_years_grow(a.0 + 1, b.0);
    } else if b.0 < a.0 {
        lemma_years_grow(b.0 + 1, a.0);
    } else if a.1 < b.1 {
        lemma_months_grow(a.0, a.1 + 1, b.1);
    } else if b.1 < a.1 {
        lemma_months_grow(a.0, b.1 + 1, a.1);
    }
}

proof fn lemma_epoch()
    ensures
        day_number(1970, 1, 1) == 719528,
{
    lemma_before_year(1970);
}

/// The number of days from 1 March to the start of the month that many months later.
spec fn months_from_march(mp: int) -> int {
    if mp == 0 {
        0
    } else if mp == 1 {
        31
    } else if mp == 2 {
        61
    } else if mp == 3 {
        92
    } else if mp == 4 {
        122
    } else if mp == 5 {
        153
    } else if mp == 6 {
        184
    } else if mp == 7 {
        214
    } else if mp == 8 {
        245
    } else if mp == 9 {
        275
    } else if mp == 10 {
        306
    } else if mp == 11 {
        337
    } else {
        367
    }
}

proof fn lemma_month_of_day(doy: int)
    requires
        0 <= doy <= 365,
    ensures
        0 <= (5 * doy + 2) / 153 <= 11,
        (153 * ((5 * doy + 2) / 153) + 2) / 5 == months_from_march((5 * doy + 2) / 153),
        months_from_march((5 * doy + 2) / 153) <= doy < months_from_march((5 * doy + 2) / 153 + 1),
{
    let mp = (5 * doy + 2) / 153;
    assert(0 <= mp <= 11);
}

proof fn lemma_shift_era(era: int, yoe: int)
    requires
        0 <= era,
        0 <= yoe <= 400,
    ensures
        before_march(yoe + era * 400) == era * 146097 + before_march(yoe),
{
}

proof fn lemma_date(march_year: nat, doy: int, mp: int, y: nat, m: nat, d: nat)
    requires
        0 <= mp <= 11,
        months_from_march(mp) <= doy < months_from_march(mp + 1),
        doy < before_march(march_year + 1 as int) - before_march(march_year as int),
        d == doy - months_from_march(mp) + 1,
        m == if mp < 10 {
            mp + 3
        } else {
            mp - 9
        },
        y == if mp < 10 {
            march_year
        } else {
            march_year + 1
        },
    ensures
        is_date(y, m, d),
        day_number(y, m, d) == before_march(march_year as int) + 60 + doy,
{
    lemma_before_year(march_year);
    lemma_before_year(march_year + 1);
    lemma_before_month(y);
}

/// The date that many days after 1 January 1970, as year, month and day.
pub fn days_to_ymd(days: u64) -> (r: (u64, u64, u64))
    requires
        days + 719468 <= u64::MAX,
    ensures
        is_date_of((r.0 as nat, r.1 as nat, r.2 as nat), days as nat),
        date_of(days as nat) == (r.0 as nat, r.1 as nat, r.2 as nat),
{
    let z: u64 = days + 719468;
    let era: u64 = z / 146097;
    let doe: u64 = z - era * 146097;
    let yoe: u64 = (doe - doe / 1460 + doe / 36524 - doe / 146096) / 365;
    proof {
        lemma_year_of_era(doe as int, yoe as int);
        lemma_shift_era(era as int, yoe as int);
        lemma_shift_era(era as int, yoe + 1);
    }
    let march_year: u64 = yoe + era * 400;
    let doy: u64 = doe - (365 * yoe + yoe / 4 - yoe / 100);
    proof {
        lemma_month_of_day(doy as int);
    }
    let mp: u64 = (5 * doy + 2) / 153;
    let d: u64 = doy - (153 * mp + 2) / 5 + 1;
    let m: u64 = if mp < 10 {
        mp + 3
    } else {
        mp - 9
    };
    let y: u64 = if m <= 2 {
        march_year + 1
    } else {
        march_year
    };
    proof {
        lemma_date(march_year as nat, doy as int, mp as int, y as nat, m as nat, d as nat);
        lemma_epoch();
        assert(is_date_of((y as nat, m as nat, d as nat), days as nat));
        lemma_day_number_injective(date_of(days as nat), (y as nat, m as nat, d as nat));
    }
    (y, m, d)
}

/// Whether a date comes before another: by year, then by month, then by day.
pub open spec fn earlier(a: (nat, nat, nat), b: (nat, nat, nat)) -> bool {
    a.0 < b.0 || (a.0 == b.0 && (a.1 < b.1 || (a.1 == b.1 && a.2 < b.2)))
}

/// Every day has a date.
pub proof fn lemma_date_of(days: nat)
    ensures
        is_date_of(date_of(days), days),
    decreases days,
{
    if days == 0 {
        assert(is_date_of((1970, 1, 1), 0));
    } else {
        lemma_date_of((days - 1) as nat);
        let (y, m, d) = date_of((days - 1) as nat);
        if d < month_len(y, m) {
            assert(is_date_of((y, m, d + 1), days));
        } else if m < 12 {
            assert(is_date_of((y, m + 1, 1), days));
        } else {
            lemma_before_month(y);
            lemma_before_month(y + 1);
            assert(is_date_of((y + 1, 1, 1), days));
        }
    }
}

/// Later days have later dates.
pub proof fn lemma_dates_in_order(a: nat, b: nat)
    requires
        a < b,
    ensures
        earlier(date_of(a), date_of(b)),
{
    lemma_date_of(a);
    lemma_date_of(b);
    let x = date_of(a);
    let y = date_of(b);
    lemma_day_in_year(x.0, x.1, x.2);
    lemma_day_in_year(y.0, y.1, y.2);
    if y.0 < x.0 {
        lemma_years_grow(y.0 + 1, x.0);
    } else if y.0 == x.0 && y.1 < x.1 {
        lemma_months_grow(x.0, y.1 + 1, x.1);
    }
}

/// The days before the year 10000 have dates with four digits for the year.
pub proof fn lemma_four_digit_years(days: nat)
    requires
        days < 2_932_897,
    ensures
        1 <= date_of(days).1 <= 12,
        1 <= date_of(days).2 <= 31,
        date_of(days).0 <= 9999,
{
    lemma_date_of(days);
    lemma_epoch();
    let (y, m, d) = date_of(days);
    lemma_day_in_year(y, m, d);
    if y > 9999 {
        lemma_before_year(9999);
        lemma_years_grow(10000, y);
    }
}

} // verus!
