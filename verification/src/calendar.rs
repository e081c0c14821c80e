//! Gregorian calendar dates of Unix timestamps (UTC).
use vstd::prelude::*;

use crate::text::{dec_pad, push_dec_pad};

verus! {

pub open spec fn is_leap(y: int) -> bool {
    y % 4 == 0 && (y % 100 != 0 || y % 400 == 0)
}

pub open spec fn year_len(y: int) -> int {
    if is_leap(y) {
        366
    } else {
        365
    }
}

/// Days in month `m` (1..=12) of year `y`.
pub open spec fn month_len(y: int, m: int) -> int {
    if m == 2 {
        if is_leap(y) {
            29
        } else {
            28
        }
    } else if m == 4 || m == 6 || m == 9 || m == 11 {
        30
    } else {
        31
    }
}

/// Days from 1970-01-01 to January 1st of year `y` (`y >= 1970`).
pub open spec fn days_before_year(y: int) -> int
    decreases y - 1970,
{
    if y <= 1970 {
        0
    } else {
        days_before_year(y - 1) + year_len(y - 1)
    }
}

/// Days from January 1st to the first of month `m` in year `y`.
pub open spec fn days_before_month(y: int, m: int) -> int
    decreases m,
{
    if m <= 1 {
        0
    } else {
        days_before_month(y, m - 1) + month_len(y, m - 1)
    }
}

/// A real calendar date, not before 1970.
pub open spec fn valid_date(y: int, m: int, d: int) -> bool {
    y >= 1970 && 1 <= m <= 12 && 1 <= d <= month_len(y, m)
}

/// Number of days from 1970-01-01 to the date.
pub open spec fn epoch_day(y: int, m: int, d: int) -> int {
    days_before_year(y) + days_before_month(y, m) + d - 1
}

/// Number of leap years up to and including `x`, counted from year 1.
pub open spec fn leaps(x: int) -> int {
    x / 4 - x / 100 + x / 400
}

proof fn lemma_leaps_step(y: int)
    requires
        y >= 1,
    ensures
        leaps(y) - leaps(y - 1) == (if is_leap(y) {
            1int
        } else {
            0int
        }),
{
}

proof fn lemma_days_before_year_closed(y: int)
    requires
        y >= 1970,
    ensures
        days_before_year(y) == 365 * (y - 1970) + leaps(y - 1) - leaps(1969),
    decreases y - 1970,
{
    if y > 1970 {
        lemma_days_before_year_closed(y - 1);
        lemma_leaps_step(y - 1);
    }
}

/// Four hundred Gregorian years always have 146097 days.
proof fn lemma_400_years(y: int)
    requires
        y >= 1970,
    ensures
        days_before_year(y + 400) == days_before_year(y) + 146097,
{
    lemma_days_before_year_closed(y);
    lemma_days_before_year_closed(y + 400);
    assert(leaps(y + 399) == leaps(y - 1) + 97);
}

proof fn lemma_days_before_month_bounds(y: int, m: int)
    requires
        1 <= m <= 12,
    ensures
        days_before_month(y, m) + month_len(y, m) <= year_len(y),
        days_before_month(y, m) >= 0,
    decreases m,
{
    if m > 1 {
        lemma_days_before_month_bounds(y, m - 1);
    }
    reveal_with_fuel(days_before_month, 12);
}

/// The date `n` days after 1970-01-01.
pub fn civil_from_days(n: u64) -> (r: (u64, u64, u64))
    ensures
        valid_date(r.0 as int, r.1 as int, r.2 as int),
        epoch_day(r.0 as int, r.1 as int, r.2 as int) == n,
{
    let mut y: u64 = 1970;
    let mut rem: u64 = n;
    let blocks = n / 146097;
    proof {
        assert(blocks * 146097 <= n) by (nonlinear_arith)
            requires
                blocks == n / 146097,
        ;
    }
    let mut b: u64 = 0;
    while b < blocks
        invariant
            b <= blocks,
            blocks * 146097 <= n,
            y == 1970 + 400 * b,
            rem == n - 146097 * b,
            days_before_year(y as int) + rem == n,
        decreases blocks - b,
    {
        proof {
            lemma_400_years(y as int);
            assert(146097 * (b + 1) <= 146097 * blocks) by (nonlinear_arith)
                requires
                    b + 1 <= blocks,
            ;
        }
        y = y + 400;
        rem = rem - 146097;
        b = b + 1;
    }
    proof {
        assert(rem < 146097) by (nonlinear_arith)
            requires
                rem == n - 146097 * blocks,
                blocks == n / 146097,
        ;
    }
    let ghost y0 = y as int;
    let ghost rem0 = rem as int;
    proof {
        assert(y0 <= 1970 + 400 * (n / 146097)) by (nonlinear_arith)
            requires
                y0 == 1970 + 400 * blocks,
                blocks == n / 146097,
        ;
        assert(n / 146097 <= 126263674638832) by (nonlinear_arith)
            requires
                n <= u64::MAX,
        ;
    }
    loop
        invariant
            y0 <= 1970 + 400 * 126263674638832,
            y0 >= 1970,
            rem0 < 146097,
            y0 <= y <= y0 + (rem0 - rem),
            rem <= rem0,
            days_before_year(y as int) + rem == n,
        ensures
            y >= 1970,
            days_before_year(y as int) + rem == n,
            rem < year_len(y as int),
        decreases rem,
    {
        let len: u64 = if y % 4 == 0 && (y % 100 != 0 || y % 400 == 0) {
            366
        } else {
            365
        };
        assert(len == year_len(y as int));
        if rem < len {
            break;
        }
        rem = rem - len;
        y = y + 1;
    }
    let ghost rem_year = rem as int;
    let mut m: u64 = 1;
    proof {
        reveal_with_fuel(days_before_month, 13);
    }
    loop
        invariant
            1 <= m <= 12,
            y >= 1970,
            rem_year < year_len(y as int),
            days_before_month(y as int, m as int) + rem == rem_year,
        ensures
            1 <= m <= 12,
            days_before_month(y as int, m as int) + rem == rem_year,
            rem < month_len(y as int, m as int),
        decreases 12 - m,
    {
        let len: u64 = if m == 2 {
            if y % 4 == 0 && (y % 100 != 0 || y % 400 == 0) {
                29
            } else {
                28
            }
        } else if m == 4 || m == 6 || m == 9 || m == 11 {
            30
        } else {
            31
        };
        assert(len == month_len(y as int, m as int));
        if rem < len {
            break;
        }
        proof {
            if m == 12 {
                reveal_with_fuel(days_before_month, 13);
                assert(days_before_month(y as int, 12) + month_len(y as int, 12) == year_len(
                    y as int,
                ));
                assert(false);
            }
        }
        rem = rem - len;
        m = m + 1;
    }
    (y, m, rem + 1)
}

/// The date of a Unix timestamp.
pub open spec fn date_of(secs: u64, y: int, m: int, d: int) -> bool {
    valid_date(y, m, d) && epoch_day(y, m, d) == secs / 86400
}

/// `YYYY-MM-DD` of a timestamp.
pub open spec fn spec_ymd_dashed(y: int, m: int, d: int) -> Seq<char> {
    dec_pad(y as nat, 4) + seq!['-'] + dec_pad(m as nat, 2) + seq!['-'] + dec_pad(d as nat, 2)
}

/// `YYYYMMDD` of a timestamp.
pub open spec fn spec_ymd_compact(y: int, m: int, d: int) -> Seq<char> {
    dec_pad(y as nat, 4) + dec_pad(m as nat, 2) + dec_pad(d as nat, 2)
}

/// `HH:MM:SS` of a second of the day.
pub open spec fn spec_hms(sec: nat) -> Seq<char> {
    dec_pad(sec / 3600, 2) + seq![':'] + dec_pad((sec % 3600) / 60, 2) + seq![':'] + dec_pad(
        sec % 60,
        2,
    )
}

/// `YYYY-MM-DD` for the day of `secs`.
pub fn ymd_dashed(secs: u64) -> (r: String)
    ensures
        exists|y: int, m: int, d: int| date_of(secs, y, m, d) && r@ == spec_ymd_dashed(y, m, d),
{
    let (y, m, d) = civil_from_days(secs / 86400);
    let mut s = String::new();
    push_dec_pad(&mut s, y, 4);
    s.push('-');
    push_dec_pad(&mut s, m, 2);
    s.push('-');
    push_dec_pad(&mut s, d, 2);
    assert(date_of(secs, y as int, m as int, d as int));
    assert(s@ =~= spec_ymd_dashed(y as int, m as int, d as int));
    s
}

/// `YYYYMMDD` for the day of `secs`.
pub fn ymd_compact(secs: u64) -> (r: String)
    ensures
        exists|y: int, m: int, d: int| date_of(secs, y, m, d) && r@ == spec_ymd_compact(y, m, d),
{
    let (y, m, d) = civil_from_days(secs / 86400);
    let mut s = String::new();
    push_dec_pad(&mut s, y, 4);
    push_dec_pad(&mut s, m, 2);
    push_dec_pad(&mut s, d, 2);
    assert(date_of(secs, y as int, m as int, d as int));
    assert(s@ =~= spec_ymd_compact(y as int, m as int, d as int));
    s
}

/// `YYYY-MM-DD HH:MM:SS` of `secs` (UTC).
pub fn datetime_string(secs: u64) -> (r: String)
    ensures
        exists|y: int, m: int, d: int|
            date_of(secs, y, m, d) && r@ == spec_ymd_dashed(y, m, d) + seq![' '] + spec_hms(
                (secs % 86400) as nat,
            ),
{
    let mut s = ymd_dashed(secs);
    let ghost first = s@;
    let sec = secs % 86400;
    s.push(' ');
    push_dec_pad(&mut s, sec / 3600, 2);
    s.push(':');
    push_dec_pad(&mut s, (sec % 3600) / 60, 2);
    s.push(':');
    push_dec_pad(&mut s, sec % 60, 2);
    assert(s@ =~= first + seq![' '] + spec_hms(sec as nat));
    s
}

/// Seconds since the Unix epoch according to the system clock (0 if the
/// clock is before the epoch). Trusted: wraps `SystemTime::now`; nothing is
/// claimed of the value, which depends on the clock.
#[verifier::external_body]
pub(crate) fn unix_now_secs() -> (r: u64) {
    match std::time::SystemTime::now().duration_since(std::time::UNIX_EPOCH) {
        Ok(d) => d.as_secs(),
        Err(_) => 0,
    }
}

/// Consecutive days have consecutive epoch numbers within a month, and the
/// first of the next month follows the last of this one.
pub proof fn law_epoch_day_next(y: int, m: int, d: int)
    requires
        valid_date(y, m, d),
    ensures
        d < month_len(y, m) ==> epoch_day(y, m, d + 1) == epoch_day(y, m, d) + 1,
        d == month_len(y, m) && m < 12 ==> epoch_day(y, m + 1, 1) == epoch_day(y, m, d) + 1,
        d == month_len(y, m) && m == 12 ==> epoch_day(y + 1, 1, 1) == epoch_day(y, m, d) + 1,
{
    if d == month_len(y, m) && m == 12 {
        reveal_with_fuel(days_before_month, 13);
        assert(days_before_year(y + 1) == days_before_year(y) + year_len(y));
    }
}

} // verus!
