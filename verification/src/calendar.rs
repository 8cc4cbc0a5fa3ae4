//! UTC calendar arithmetic: the ISO 8601 date-time of a clock reading given
//! in whole seconds since the Unix epoch (1970-01-01T00:00:00Z), and the
//! reading of the system clock.
use vstd::prelude::*;
use crate::text::{dec_text, hex_digit, hex_digit_str, push_dec};

verus! {

/// Gregorian leap years: divisible by 4, except centuries not divisible by 400.
pub open spec fn is_leap_year(y: int) -> bool {
    (y % 4 == 0 && y % 100 != 0) || y % 400 == 0
}

/// The number of days in year `y`.
pub open spec fn days_in_year(y: int) -> int {
    if is_leap_year(y) {
        366
    } else {
        365
    }
}

/// The number of days in month `m` (1 to 12) of year `y`.
pub open spec fn days_in_month(y: int, m: int) -> int {
    if m == 2 {
        if is_leap_year(y) {
            29
        } else {
            28
        }
    } else if m == 4 || m == 6 || m == 9 || m == 11 {
        30
    } else {
        31
    }
}

/// The number of days of year `y` before the first of month `m`.
pub open spec fn days_before_month(y: int, m: int) -> int
    decreases m,
{
    if m <= 1 {
        0
    } else {
        days_before_month(y, m - 1) + days_in_month(y, m - 1)
    }
}

/// Month and day of month of the day that lies `d` days (counting from 0)
/// after the first of month `m` of year `y`, December taking what is left.
pub open spec fn month_and_day(y: int, m: int, d: int) -> (int, int)
    decreases 12 - m,
{
    if m < 12 && d >= days_in_month(y, m) {
        month_and_day(y, m + 1, d - days_in_month(y, m))
    } else {
        (m, d + 1)
    }
}

/// Year, month and day of the day that lies `days` days after 1 January of
/// year `y`.
pub open spec fn civil_from(y: int, days: nat) -> (int, int, int)
    decreases days,
{
    if days >= days_in_year(y) {
        civil_from(y + 1, (days - days_in_year(y)) as nat)
    } else {
        let (m, d) = month_and_day(y, 1, days as int);
        (y, m, d)
    }
}

/// Year, month and day (UTC) of the `days`-th day after 1970-01-01.
pub open spec fn civil_date(days: nat) -> (int, int, int) {
    civil_from(1970, days)
}

/// Two decimal digits of `n` (below 100), with a leading zero.
pub open spec fn two_digits(n: int) -> Seq<char> {
    seq![hex_digit(n / 10), hex_digit(n % 10)]
}

/// The ISO 8601 UTC date-time `YYYY-MM-DDTHH:MM:SSZ` of a clock reading in
/// whole seconds since the Unix epoch.
pub open spec fn timestamp_text(secs: u64) -> Seq<char> {
    let (y, m, d) = civil_date((secs / 86400) as nat);
    let rem = secs % 86400;
    dec_text(y as nat) + "-"@ + two_digits(m) + "-"@ + two_digits(d) + "T"@ + two_digits(
        (rem / 3600) as int,
    ) + ":"@ + two_digits(((rem % 3600) / 60) as int) + ":"@ + two_digits((rem % 60) as int)
        + "Z"@
}

fn leap_year(y: u64) -> (r: bool)
    ensures
        r == is_leap_year(y as int),
{
    (y % 4 == 0 && y % 100 != 0) || y % 400 == 0
}

fn year_length(y: u64) -> (r: u64)
    ensures
        r == days_in_year(y as int),
{
    if leap_year(y) {
        366
    } else {
        365
    }
}

fn month_length(y: u64, m: u64) -> (r: u64)
    ensures
        r == days_in_month(y as int, m as int),
{
    if m == 2 {
        if leap_year(y) {
            29
        } else {
            28
        }
    } else if m == 4 || m == 6 || m == 9 || m == 11 {
        30
    } else {
        31
    }
}

/// Year, month and day (UTC) of the `days`-th day after 1970-01-01.
pub fn civil_date_of(days: u64) -> (r: (u64, u64, u64))
    requires
        days <= u64::MAX / 86400,
    ensures
        r.0 == civil_date(days as nat).0,
        r.1 == civil_date(days as nat).1,
        r.2 == civil_date(days as nat).2,
        1 <= r.1 <= 12,
        1 <= r.2 <= 31,
{
    let mut y: u64 = 1970;
    let mut rest: u64 = days;
    while rest >= year_length(y)
        invariant
            days <= u64::MAX / 86400,
            1970 <= y,
            rest <= days,
            (y - 1970) * 365 <= days - rest,
            civil_from(y as int, rest as nat) == civil_from(1970, days as nat),
        decreases rest,
    {
        rest = rest - year_length(y);
        y = y + 1;
    }
    let ghost year_rest = rest;
    let mut m: u64 = 1;
    while m < 12 && rest >= month_length(y, m)
        invariant
            1 <= m <= 12,
            year_rest < days_in_year(y as int),
            rest + days_before_month(y as int, m as int) == year_rest,
            month_and_day(y as int, m as int, rest as int) == month_and_day(
                y as int,
                1,
                year_rest as int,
            ),
        decreases 12 - m,
    {
        rest = rest - month_length(y, m);
        m = m + 1;
    }
    proof {
        if m == 12 {
            reveal_with_fuel(days_before_month, 12);
        }
    }
    (y, m, rest + 1)
}

/// Appends the two decimal digits of `n`.
fn push_two_digits(out: &mut String, n: u64)
    requires
        n < 100,
    ensures
        final(out)@ == old(out)@ + two_digits(n as int),
{
    out.append(hex_digit_str((n / 10) as u8));
    out.append(hex_digit_str((n % 10) as u8));
}

/// The ISO 8601 UTC date-time of a clock reading in whole seconds since the
/// Unix epoch.
pub fn timestamp_of(secs: u64) -> (r: String)
    ensures
        r@ == timestamp_text(secs),
{
    let (y, m, d) = civil_date_of(secs / 86400);
    let rem = secs % 86400;
    let mut out = String::new();
    push_dec(&mut out, y);
    out.append("-");
    push_two_digits(&mut out, m);
    out.append("-");
    push_two_digits(&mut out, d);
    out.append("T");
    push_two_digits(&mut out, rem / 3600);
    out.append(":");
    push_two_digits(&mut out, (rem % 3600) / 60);
    out.append(":");
    push_two_digits(&mut out, rem % 60);
    out.append("Z");
    proof {
        reveal_strlit("-");
        reveal_strlit("T");
        reveal_strlit(":");
        reveal_strlit("Z");
    }
    assert(out@ =~= timestamp_text(secs));
    out
}

#[verifier::external_type_specification]
#[verifier::external_body]
pub struct ExSystemTime(std::time::SystemTime);

#[verifier::external_type_specification]
#[verifier::external_body]
pub struct ExSystemTimeError(std::time::SystemTimeError);

/// `SystemTime::now()`. Nothing is claimed of the reading.
#[verifier::external_body]
fn system_now() -> std::time::SystemTime {
    std::time::SystemTime::now()
}

/// `t.duration_since(UNIX_EPOCH)`: an error when `t` is earlier than the
/// epoch. Nothing is claimed of the duration.
#[verifier::external_body]
fn since_epoch(t: &std::time::SystemTime) -> Result<std::time::Duration, std::time::SystemTimeError> {
    t.duration_since(std::time::UNIX_EPOCH)
}

/// `d.as_secs()`, the whole seconds of a duration. Nothing is claimed: the
/// duration is opaque here.
#[verifier::external_body]
fn whole_seconds(d: &std::time::Duration) -> u64 {
    d.as_secs()
}

/// The system clock in whole seconds since the Unix epoch; 0 when the clock
/// reads earlier than the epoch.
pub(crate) fn clock_seconds() -> u64 {
    match since_epoch(&system_now()) {
        Ok(d) => whole_seconds(&d),
        Err(_) => 0,
    }
}

} // verus!
