//! The calendar instant that evaluation produces and consumes.
//!
//! An instant is a count of seconds relative to 1970-01-01T00:00:00 in the
//! proleptic Gregorian calendar, the epoch its callers conventionally use.
//! Every operation the evaluator needs — read the weekday, shift by a
//! duration, replace the clock or the calendar date, build an instant from
//! explicit fields — is defined here over that count and proved against the
//! standard civil-calendar arithmetic.

use vstd::prelude::*;
use vstd::arithmetic::div_mod::lemma_fundamental_div_mod;
use vstd::arithmetic::div_mod::lemma_fundamental_div_mod_converse;
use vstd::arithmetic::div_mod::lemma_mod_multiples_vanish;
use core::cmp::Ordering;

verus! {

/// Day of the week; the discriminant order gives the zero-based index from
/// Monday that the week arithmetic in evaluation uses.
#[derive(Debug, Clone, Copy, PartialEq, Eq, Structural)]
pub enum Weekday {
    Monday,
    Tuesday,
    Wednesday,
    Thursday,
    Friday,
    Saturday,
    Sunday,
}

/// Zero-based index of a weekday counted from Monday.
pub open spec fn weekday_index(w: Weekday) -> int {
    match w {
        Weekday::Monday => 0,
        Weekday::Tuesday => 1,
        Weekday::Wednesday => 2,
        Weekday::Thursday => 3,
        Weekday::Friday => 4,
        Weekday::Saturday => 5,
        Weekday::Sunday => 6,
    }
}

/// The weekday whose index from Monday is `i`.
pub open spec fn weekday_from_index(i: int) -> Weekday
    recommends
        0 <= i < 7,
{
    if i == 0 {
        Weekday::Monday
    } else if i == 1 {
        Weekday::Tuesday
    } else if i == 2 {
        Weekday::Wednesday
    } else if i == 3 {
        Weekday::Thursday
    } else if i == 4 {
        Weekday::Friday
    } else if i == 5 {
        Weekday::Saturday
    } else {
        Weekday::Sunday
    }
}

impl Weekday {
    /// Days from Monday to this weekday within one week: Monday is 0,
    /// Sunday is 6.
    pub fn num_days_from_monday(self) -> (r: u8)
        ensures
            r == weekday_index(self),
    {
        match self {
            Weekday::Monday => 0,
            Weekday::Tuesday => 1,
            Weekday::Wednesday => 2,
            Weekday::Thursday => 3,
            Weekday::Friday => 4,
            Weekday::Saturday => 5,
            Weekday::Sunday => 6,
        }
    }
}

/// Seconds from the start of the calendar day containing instant `t` to `t`.
pub open spec fn time_of_day(t: int) -> int {
    t % 86400
}

/// The instant at the start (midnight) of the calendar day containing `t`.
pub open spec fn day_start(t: int) -> int {
    t - t % 86400
}

/// The weekday of the calendar day containing instant `t`.
/// Day 0 (1970-01-01) was a Thursday, index 3 from Monday.
pub open spec fn weekday_of_instant(t: int) -> Weekday {
    weekday_from_index((t / 86400 + 3) % 7)
}

/// Whether year `y` is a leap year in the proleptic Gregorian calendar.
pub open spec fn is_leap_year(y: int) -> bool {
    (y % 4 == 0 && y % 100 != 0) || y % 400 == 0
}

/// Number of days in month `m` of year `y`.
pub open spec fn days_in_month(y: int, m: int) -> int
    recommends
        1 <= m <= 12,
{
    if m == 2 {
        if is_leap_year(y) {
            29
        } else {
            28
        }
    } else if m == 4 || m == 6 || m == 9 || m == 11 {
        30
    } else {
        31
    }
}

/// Whether year/month/day name a real calendar date.
pub open spec fn valid_ymd(y: int, m: int, d: int) -> bool {
    1 <= m <= 12 && 1 <= d <= days_in_month(y, m)
}

/// Number of days from 1970-01-01 to the civil date `y`-`m`-`d`, negative for
/// earlier dates. This is the standard era-based conversion: years are
/// shifted so they start in March, grouped into 400-year eras of exactly
/// 146097 days, and the day-of-year of a March-based month `m` is
/// `(153 * m + 2) / 5`.
pub open spec fn days_from_civil(y: int, m: int, d: int) -> int
    recommends
        valid_ymd(y, m, d),
{
    let yy = if m <= 2 {
        y - 1
    } else {
        y
    };
    let era = yy / 400;
    let yoe = yy - era * 400;
    let mp = if m > 2 {
        m - 3
    } else {
        m + 9
    };
    let doy = (153 * mp + 2) / 5 + d - 1;
    let doe = yoe * 365 + yoe / 4 - yoe / 100 + doy;
    era * 146097 + doe - 719468
}

/// The instant of the civil date-time `y`-`m`-`d` `h`:`mi`:`s`.
pub open spec fn civil_secs(y: int, m: int, d: int, h: int, mi: int, s: int) -> int {
    days_from_civil(y, m, d) * 86400 + h * 3600 + mi * 60 + s
}

/// A calendar instant: seconds relative to 1970-01-01T00:00:00.
///
/// The abstraction of a `DateTime` is the mathematical second count `self@`;
/// every method's contract is stated over it.
#[derive(Debug, Clone, Copy, PartialEq, Eq, Structural)]
pub struct DateTime {
    secs: i64,
}

impl View for DateTime {
    type V = int;

    closed spec fn view(&self) -> int {
        self.secs as int
    }
}

/// Splits an instant into its day number (floor of division by 86400) and the
/// second within that day.
fn split_days(t: i64) -> (r: (i64, u32))
    ensures
        r.0 == t as int / 86400,
        r.1 == t as int % 86400,
        t == r.0 * 86400 + r.1,
{
    // Shift by 106751991167301 days so the numerator is non-negative;
    // unsigned division then computes the floor, and the shift divides out
    // exactly.
    let n: i128 = t as i128 + 9223372036854806400i128;
    let nu: u128 = n as u128;
    let q: u128 = nu / 86400u128;
    let rem: u32 = (nu % 86400u128) as u32;
    proof {
        assert(0 <= n <= 18446744073709582207);
        assert(nu as int == n as int);
        lemma_fundamental_div_mod(nu as int, 86400);
        assert(nu as int == 86400 * (q as int) + (rem as int));
        assert(q <= 213503982334601) by {
            assert(86400 * (q as int) <= nu as int);
        };
    }
    let day: i64 = (q as i128 - 106751991167301i128) as i64;
    proof {
        assert(t as int == (day as int) * 86400 + rem as int);
        lemma_fundamental_div_mod_converse(t as int, 86400, day as int, rem as int);
    }
    (day, rem)
}

/// Number of days from 1970-01-01 to `y`-`m`-`d`, as executable code.
fn civil_days(y: i32, m: u8, d: u8) -> (r: i64)
    requires
        1 <= m <= 12,
        1 <= d <= 31,
    ensures
        r == days_from_civil(y as int, m as int, d as int),
        -800000000000 <= r <= 800000000000,
{
    let yy: i64 = if m <= 2 {
        y as i64 - 1
    } else {
        y as i64
    };
    // Shift by 5368710 eras of 400 years so the numerator is non-negative.
    let n: u64 = (yy + 2147484000i64) as u64;
    let era: i64 = (n / 400) as i64 - 5368710;
    let yoe: u32 = (n % 400) as u32;
    proof {
        lemma_fundamental_div_mod(n as int, 400);
        assert(yy as int == (era as int) * 400 + yoe as int);
        lemma_fundamental_div_mod_converse(yy as int, 400, era as int, yoe as int);
    }
    let mp: u32 = if m > 2 {
        m as u32 - 3
    } else {
        m as u32 + 9
    };
    let doy: u32 = (153 * mp + 2) / 5 + d as u32 - 1;
    proof {
        lemma_fundamental_div_mod((153 * mp + 2) as int, 5);
        lemma_fundamental_div_mod(yoe as int, 4);
        lemma_fundamental_div_mod(yoe as int, 100);
    }
    let doe: u32 = yoe * 365 + yoe / 4 - yoe / 100 + doy;
    era * 146097 + doe as i64 - 719468
}

impl DateTime {
    /// The instant `secs` seconds after the epoch (before it, if negative).
    pub fn from_timestamp(secs: i64) -> (r: DateTime)
        ensures
            r@ == secs,
    {
        DateTime { secs }
    }

    /// Seconds relative to the epoch.
    pub fn timestamp(&self) -> (r: i64)
        ensures
            r == self@,
    {
        self.secs
    }

    /// The instant of the civil date-time `y`-`mo`-`d` `h`:`mi`:`s`, or
    /// `None` when the fields do not name a real calendar date-time.
    pub fn from_ymd_hms(y: i32, mo: u32, d: u32, h: u32, mi: u32, s: u32) -> (r: Option<DateTime>)
        ensures
            r is Some <==> valid_ymd(y as int, mo as int, d as int) && h < 24 && mi < 60 && s
                < 60,
            r matches Some(v) ==> v@ == civil_secs(
                y as int,
                mo as int,
                d as int,
                h as int,
                mi as int,
                s as int,
            ),
    {
        if !(1 <= mo && mo <= 12) || !(h < 24 && mi < 60 && s < 60) {
            return None;
        }
        let dim = Self::month_length(y, mo as u8);
        if !(1 <= d && d <= dim as u32) {
            return None;
        }
        let days = civil_days(y, mo as u8, d as u8);
        let tod: i64 = h as i64 * 3600 + mi as i64 * 60 + s as i64;
        Some(DateTime { secs: days * 86400 + tod })
    }

    /// Number of days in month `mo` of year `y`.
    pub fn month_length(y: i32, mo: u8) -> (r: u8)
        requires
            1 <= mo <= 12,
        ensures
            r == days_in_month(y as int, mo as int),
    {
        if mo == 2 {
            if Self::leap_year(y) {
                29
            } else {
                28
            }
        } else if mo == 4 || mo == 6 || mo == 9 || mo == 11 {
            30
        } else {
            31
        }
    }

    /// Whether `y` is a leap year.
    pub fn leap_year(y: i32) -> (r: bool)
        ensures
            r == is_leap_year(y as int),
    {
        // Shift by 2147484000, a multiple of 400 (hence of 4 and of 100),
        // to take the remainders of a non-negative number.
        let n: u64 = (y as i64 + 2147484000i64) as u64;
        proof {
            lemma_mod_multiples_vanish(5368710, y as int, 400);
            lemma_mod_multiples_vanish(21474840, y as int, 100);
            lemma_mod_multiples_vanish(536871000, y as int, 4);
        }
        (n % 4 == 0 && n % 100 != 0) || n % 400 == 0
    }

    /// The weekday of the calendar day containing this instant.
    pub fn weekday(&self) -> (r: Weekday)
        ensures
            r == weekday_of_instant(self@),
    {
        let (day, _) = split_days(self.secs);
        // Shift by 7 * 2^61, a multiple of 7, so the remainder is taken of a
        // non-negative number.
        let n: i128 = day as i128 + 3 + 16140901064495857664i128;
        let idx: u8 = ((n as u128) % 7) as u8;
        proof {
            lemma_mod_multiples_vanish(2305843009213693952, day as int + 3, 7);
        }
        if idx == 0 {
            Weekday::Monday
        } else if idx == 1 {
            Weekday::Tuesday
        } else if idx == 2 {
            Weekday::Wednesday
        } else if idx == 3 {
            Weekday::Thursday
        } else if idx == 4 {
            Weekday::Friday
        } else if idx == 5 {
            Weekday::Saturday
        } else {
            Weekday::Sunday
        }
    }

    /// Same calendar day, clock set to `hour`:`min`:`sec`.
    pub fn and_hms(&self, hour: u8, min: u8, sec: u8) -> (r: DateTime)
        requires
            hour < 24,
            min < 60,
            sec < 60,
            i64::MIN + 86400 <= self@ <= i64::MAX - 86400,
        ensures
            r@ == day_start(self@) + hour * 3600 + min * 60 + sec,
    {
        let (_, rem) = split_days(self.secs);
        let ds: i64 = self.secs - rem as i64;
        let tod: i64 = hour as i64 * 3600 + min as i64 * 60 + sec as i64;
        DateTime { secs: ds + tod }
    }

    /// Same clock time, calendar date replaced by `year`-`month`-`day`.
    pub fn and_ymd(&self, year: i32, month: u8, day: u8) -> (r: DateTime)
        requires
            valid_ymd(year as int, month as int, day as int),
        ensures
            r@ == days_from_civil(year as int, month as int, day as int) * 86400 + time_of_day(
                self@,
            ),
    {
        let (_, rem) = split_days(self.secs);
        let days = civil_days(year, month, day);
        DateTime { secs: days * 86400 + rem as i64 }
    }

    /// This instant moved `n` seconds later.
    pub fn add_secs(&self, n: u64) -> (r: DateTime)
        requires
            self@ + n <= i64::MAX,
        ensures
            r@ == self@ + n,
    {
        let v: i128 = self.secs as i128 + n as i128;
        DateTime { secs: v as i64 }
    }

    /// This instant moved `n` seconds earlier.
    pub fn sub_secs(&self, n: u64) -> (r: DateTime)
        requires
            i64::MIN <= self@ - n,
        ensures
            r@ == self@ - n,
    {
        let v: i128 = self.secs as i128 - n as i128;
        DateTime { secs: v as i64 }
    }
}

impl PartialOrd for DateTime {
    fn partial_cmp(&self, other: &DateTime) -> (r: Option<Ordering>) {
        if self.secs < other.secs {
            Some(Ordering::Less)
        } else if self.secs == other.secs {
            Some(Ordering::Equal)
        } else {
            Some(Ordering::Greater)
        }
    }
}

impl vstd::std_specs::cmp::PartialOrdSpecImpl for DateTime {
    open spec fn obeys_partial_cmp_spec() -> bool {
        true
    }

    open spec fn partial_cmp_spec(&self, other: &DateTime) -> Option<Ordering> {
        if self@ < other@ {
            Some(Ordering::Less)
        } else if self@ == other@ {
            Some(Ordering::Equal)
        } else {
            Some(Ordering::Greater)
        }
    }
}


/// Shifting an instant by whole days moves the start of its day by exactly
/// those days.
pub proof fn lemma_day_start_shift(t: int, k: int)
    ensures
        day_start(t + k * 86400) == day_start(t) + k * 86400,
{
    lemma_mod_multiples_vanish(k, t, 86400);
}

/// An instant built from a day start, a whole-day shift and a time of day
/// lies in the shifted day: its day number moves by the shift and its time
/// of day is the one given.
pub proof fn lemma_day_number_of_shift(t: int, k: int, tod: int)
    requires
        0 <= tod < 86400,
    ensures
        (day_start(t) + k * 86400 + tod) / 86400 == t / 86400 + k,
        (day_start(t) + k * 86400 + tod) % 86400 == tod,
{
    lemma_fundamental_div_mod(t, 86400);
    lemma_fundamental_div_mod_converse(
        day_start(t) + k * 86400 + tod,
        86400,
        t / 86400 + k,
        tod,
    );
}

} // verus!

