//! Evaluation of a time clue against a reference instant.
//!
//! Every variant that carries a clock time goes through one shared
//! validation routine, [`check_hms`], so all variants reject out-of-range
//! fields identically; variants without an explicit time default to
//! midnight. The meaning of each variant is fixed by [`spec_evaluate`],
//! and [`evaluate_time_clue`] is proved to return exactly that instant.

use vstd::prelude::*;
use vstd::arithmetic::div_mod::lemma_fundamental_div_mod;
use vstd::arithmetic::div_mod::lemma_mod_multiples_vanish;
use vstd::arithmetic::div_mod::lemma_small_mod;
use crate::parser::{AMPM, HMS, Modifier, Quantifier, ShortcutDay, TimeClue};
use crate::unified::{
    DateTime,
    Weekday,
    day_start,
    time_of_day,
    lemma_day_number_of_shift,
    lemma_day_start_shift,
    weekday_index,
    weekday_from_index,
    weekday_of_instant,
    valid_ymd,
    civil_secs,
};

verus! {

/// Why a time clue failed to evaluate.
#[derive(Debug, PartialEq, Eq, Clone, Copy)]
pub enum EvaluationError {
    /// Out-of-range clock time given with an am/pm marker.
    InvalidTimeAMPM { hour: u32, minute: u32, second: u32, am_or_pm: AMPM },
    /// Out-of-range clock time given without an am/pm marker.
    InvalidTime { hour: u32, minute: u32, second: u32 },
    /// Explicit calendar fields that name no real date-time.
    InvalidISODate { year: i32, month: u32, day: u32, hour: u32, minute: u32, second: u32 },
}

/// What validation of a raw clock time returns: twelve hours are added for a
/// PM marker, then hour, minute and second must be in range.
pub open spec fn spec_check_hms(hms: HMS, am_or_pm_maybe: Option<AMPM>) -> Result<
    HMS,
    EvaluationError,
> {
    let h2 = if am_or_pm_maybe == Some(AMPM::PM) {
        hms.0 + 12
    } else {
        hms.0 as int
    };
    if h2 < 24 && hms.1 < 60 && hms.2 < 60 {
        Ok((h2 as u32, hms.1, hms.2))
    } else {
        match am_or_pm_maybe {
            Some(a) => Err(
                EvaluationError::InvalidTimeAMPM {
                    hour: hms.0,
                    minute: hms.1,
                    second: hms.2,
                    am_or_pm: a,
                },
            ),
            None => Err(
                EvaluationError::InvalidTime { hour: hms.0, minute: hms.1, second: hms.2 },
            ),
        }
    }
}

/// Validates a raw clock time, applying the am/pm marker.
///
/// With a `PM` marker, twelve hours are added to the given hour before range
/// checking, so an hour of twelve or more with `PM` is rejected; `AM` leaves
/// the hour unchanged. Valid means hour below 24, minute and second below
/// 60. The error repeats the raw fields, with the marker when one was given.
pub fn check_hms(hms: HMS, am_or_pm_maybe: Option<AMPM>) -> (r: Result<HMS, EvaluationError>)
    ensures
        r == spec_check_hms(hms, am_or_pm_maybe),
{
    let (h, m, s) = hms;
    let pm = matches!(am_or_pm_maybe, Some(AMPM::PM));
    let ok = if pm {
        h < 12
    } else {
        h < 24
    };
    if ok && m < 60 && s < 60 {
        if pm {
            Ok((h + 12, m, s))
        } else {
            Ok((h, m, s))
        }
    } else {
        match am_or_pm_maybe {
            Some(a) => Err(
                EvaluationError::InvalidTimeAMPM { hour: h, minute: m, second: s, am_or_pm: a },
            ),
            None => Err(EvaluationError::InvalidTime { hour: h, minute: m, second: s }),
        }
    }
}

/// Seconds in one unit: a month counts as exactly thirty days, a documented
/// simplification.
pub open spec fn unit_secs(q: Quantifier) -> int {
    match q {
        Quantifier::Min => 60,
        Quantifier::Hours => 3600,
        Quantifier::Days => 86400,
        Quantifier::Weeks => 604800,
        Quantifier::Months => 2592000,
    }
}

/// The raw clock time of an optional time component: midnight when absent.
pub open spec fn hms_or_midnight(hms_maybe: Option<HMS>) -> HMS {
    match hms_maybe {
        Some(hms) => hms,
        None => (0, 0, 0),
    }
}

/// The instant a time clue names, given the reference instant `now` and the
/// roll-forward flag, or the evaluation error it provokes.
///
/// Week arithmetic works on the Monday-based weekday index: the target day
/// lies `weekday_index(w) - weekday_index(now's weekday)` days from the
/// reference day, shifted a week back for `Last` when the target's index is
/// not strictly below the reference's, and a week forward for `Next` when it
/// is not strictly above.
pub open spec fn spec_evaluate(clue: TimeClue, now: int, assume_next_day: bool) -> Result<
    int,
    EvaluationError,
> {
    match clue {
        TimeClue::Now => Ok(now),
        TimeClue::Time(hms, ap) => match spec_check_hms(hms, ap) {
            Ok((h, m, s)) => {
                let d = day_start(now) + h * 3600 + m * 60 + s;
                if assume_next_day && d < now {
                    Ok(d + 86400)
                } else {
                    Ok(d)
                }
            },
            Err(e) => Err(e),
        },
        TimeClue::Relative(n, q) => Ok(now - n * unit_secs(q)),
        TimeClue::RelativeFuture(n, q) => Ok(now + n * unit_secs(q)),
        TimeClue::RelativeDayAt(md, w, hms_maybe, ap) => match spec_check_hms(
            hms_or_midnight(hms_maybe),
            ap,
        ) {
            Ok((h, m, s)) => {
                let iw = weekday_index(w);
                let inow = weekday_index(weekday_of_instant(now));
                let shift = match md {
                    Modifier::Last => if iw < inow {
                        iw - inow
                    } else {
                        iw - inow - 7
                    },
                    Modifier::Next => if iw > inow {
                        iw - inow
                    } else {
                        iw - inow + 7
                    },
                };
                Ok(day_start(now + shift * 86400) + h * 3600 + m * 60 + s)
            },
            Err(e) => Err(e),
        },
        TimeClue::SameWeekDayAt(w, hms_maybe, ap) => match spec_check_hms(
            hms_or_midnight(hms_maybe),
            ap,
        ) {
            Ok((h, m, s)) => {
                let shift = weekday_index(w) - weekday_index(weekday_of_instant(now));
                Ok(day_start(now + shift * 86400) + h * 3600 + m * 60 + s)
            },
            Err(e) => Err(e),
        },
        TimeClue::ShortcutDayAt(sd, hms_maybe, ap) => match spec_check_hms(
            hms_or_midnight(hms_maybe),
            ap,
        ) {
            Ok((h, m, s)) => {
                let shift: int = match sd {
                    ShortcutDay::Today => 0,
                    ShortcutDay::Yesterday => -1,
                    ShortcutDay::Tomorrow => 1,
                };
                Ok(day_start(now + shift * 86400) + h * 3600 + m * 60 + s)
            },
            Err(e) => Err(e),
        },
        TimeClue::ISO(ymd, hms) => {
            let (y, mo, d) = ymd;
            let (h, mi, s) = hms;
            if valid_ymd(y as int, mo as int, d as int) && h < 24 && mi < 60 && s < 60 {
                Ok(civil_secs(y as int, mo as int, d as int, h as int, mi as int, s as int))
            } else {
                Err(
                    EvaluationError::InvalidISODate {
                        year: y,
                        month: mo,
                        day: d,
                        hour: h,
                        minute: mi,
                        second: s,
                    },
                )
            }
        },
    }
}

/// Whether evaluating `clue` against reference instant `now` stays within
/// the representable range of an instant. Evaluation is only specified on
/// such inputs; the bounds on the weekday and shortcut variants leave a
/// fifteen-day margin at the two ends of the range.
pub open spec fn evaluation_in_range(clue: TimeClue, now: int) -> bool {
    match clue {
        TimeClue::Now => true,
        TimeClue::Time(_, _) => i64::MIN + 2 * 86400 <= now <= i64::MAX - 2 * 86400,
        TimeClue::Relative(n, q) => i64::MIN <= now - n * unit_secs(q) && now <= i64::MAX,
        TimeClue::RelativeFuture(n, q) => now + n * unit_secs(q) <= i64::MAX && i64::MIN <= now,
        TimeClue::RelativeDayAt(_, _, _, _) => i64::MIN + 15 * 86400 <= now <= i64::MAX - 15
            * 86400,
        TimeClue::SameWeekDayAt(_, _, _) => i64::MIN + 15 * 86400 <= now <= i64::MAX - 15 * 86400,
        TimeClue::ShortcutDayAt(_, _, _) => i64::MIN + 15 * 86400 <= now <= i64::MAX - 15 * 86400,
        TimeClue::ISO(_, _) => true,
    }
}

/// How an executable evaluation result realizes the specified one: the same
/// error, or an instant whose second count is the specified value.
pub open spec fn result_matches(
    r: Result<DateTime, EvaluationError>,
    s: Result<int, EvaluationError>,
) -> bool {
    match r {
        Ok(d) => s == Ok::<int, EvaluationError>(d@),
        Err(e) => s == Err::<int, EvaluationError>(e),
    }
}

/// Decides [`evaluation_in_range`] for concrete values, so a caller can
/// test the bound before evaluating.
pub fn evaluation_fits(time_clue: &TimeClue, now: &DateTime) -> (b: bool)
    ensures
        b == evaluation_in_range(*time_clue, now@),
{
    let t = now.timestamp();
    match time_clue {
        TimeClue::Now => true,
        TimeClue::Time(_, _) => i64::MIN + 2 * 86400 <= t && t <= i64::MAX - 2 * 86400,
        TimeClue::Relative(n, q) => {
            let u = unit_secs_exec(*q);
            proof {
                vstd::arithmetic::mul::lemma_mul_upper_bound(
                    *n as int,
                    0xffff_ffff_ffff_ffff,
                    u as int,
                    2592000,
                );
            }
            let prod: i128 = *n as i128 * u as i128;
            i64::MIN as i128 <= t as i128 - prod
        },
        TimeClue::RelativeFuture(n, q) => {
            let u = unit_secs_exec(*q);
            proof {
                vstd::arithmetic::mul::lemma_mul_upper_bound(
                    *n as int,
                    0xffff_ffff_ffff_ffff,
                    u as int,
                    2592000,
                );
            }
            let prod: i128 = *n as i128 * u as i128;
            t as i128 + prod <= i64::MAX as i128
        },
        TimeClue::RelativeDayAt(_, _, _, _) => i64::MIN + 15 * 86400 <= t && t <= i64::MAX - 15
            * 86400,
        TimeClue::SameWeekDayAt(_, _, _) => i64::MIN + 15 * 86400 <= t && t <= i64::MAX - 15
            * 86400,
        TimeClue::ShortcutDayAt(_, _, _) => i64::MIN + 15 * 86400 <= t && t <= i64::MAX - 15
            * 86400,
        TimeClue::ISO(_, _) => true,
    }
}

/// Seconds in one unit, as executable code.
fn unit_secs_exec(q: Quantifier) -> (u: u64)
    ensures
        u == unit_secs(q),
{
    match q {
        Quantifier::Min => 60,
        Quantifier::Hours => 3600,
        Quantifier::Days => 86400,
        Quantifier::Weeks => 604800,
        Quantifier::Months => 2592000,
    }
}

/// Same as `evaluate_time_clue(time_clue, now, false)`.
pub fn evaluate(time_clue: TimeClue, now: DateTime) -> (r: Result<DateTime, EvaluationError>)
    requires
        evaluation_in_range(time_clue, now@),
    ensures
        result_matches(r, spec_evaluate(time_clue, now@, false)),
{
    evaluate_time_clue(time_clue, now, false)
}

/// Evaluates `time_clue` against the reference instant `now`.
///
/// With `assume_next_day` set, a bare clock time that falls strictly before
/// `now` is moved one day forward; otherwise it stays on the reference day.
pub fn evaluate_time_clue(time_clue: TimeClue, now: DateTime, assume_next_day: bool) -> (r: Result<
    DateTime,
    EvaluationError,
>)
    requires
        evaluation_in_range(time_clue, now@),
    ensures
        result_matches(r, spec_evaluate(time_clue, now@, assume_next_day)),
{
    match time_clue {
        TimeClue::Now => Ok(now),
        TimeClue::Time(hms, ap) => {
            let (h, m, s) = match check_hms(hms, ap) {
                Ok(v) => v,
                Err(e) => {
                    return Err(e);
                },
            };
            let d = now.and_hms(h as u8, m as u8, s as u8);
            if assume_next_day && d < now {
                Ok(d.add_secs(86400))
            } else {
                Ok(d)
            }
        },
        TimeClue::Relative(n, q) => {
            let u = unit_secs_exec(q);
            let delta: u64 = n as u64 * u;
            Ok(now.sub_secs(delta))
        },
        TimeClue::RelativeFuture(n, q) => {
            let u = unit_secs_exec(q);
            let delta: u64 = n as u64 * u;
            Ok(now.add_secs(delta))
        },
        TimeClue::RelativeDayAt(md, w, hms_maybe, ap) => {
            let (h, m, s) = match check_hms(hms_or_midnight_exec(hms_maybe), ap) {
                Ok(v) => v,
                Err(e) => {
                    return Err(e);
                },
            };
            let inow = now.weekday().num_days_from_monday() as u64;
            let iw = w.num_days_from_monday() as u64;
            let monday = now.sub_secs(inow * 86400);
            let same_week_day = monday.add_secs(iw * 86400);
            let target = match md {
                Modifier::Last => {
                    if iw < inow {
                        same_week_day
                    } else {
                        same_week_day.sub_secs(7 * 86400)
                    }
                },
                Modifier::Next => {
                    if iw > inow {
                        same_week_day
                    } else {
                        same_week_day.add_secs(7 * 86400)
                    }
                },
            };
            Ok(target.and_hms(h as u8, m as u8, s as u8))
        },
        TimeClue::SameWeekDayAt(w, hms_maybe, ap) => {
            let (h, m, s) = match check_hms(hms_or_midnight_exec(hms_maybe), ap) {
                Ok(v) => v,
                Err(e) => {
                    return Err(e);
                },
            };
            let inow = now.weekday().num_days_from_monday() as u64;
            let iw = w.num_days_from_monday() as u64;
            let monday = now.sub_secs(inow * 86400);
            let same_week_day = monday.add_secs(iw * 86400);
            Ok(same_week_day.and_hms(h as u8, m as u8, s as u8))
        },
        TimeClue::ShortcutDayAt(sd, hms_maybe, ap) => {
            let (h, m, s) = match check_hms(hms_or_midnight_exec(hms_maybe), ap) {
                Ok(v) => v,
                Err(e) => {
                    return Err(e);
                },
            };
            let base = match sd {
                ShortcutDay::Today => now,
                ShortcutDay::Yesterday => now.sub_secs(86400),
                ShortcutDay::Tomorrow => now.add_secs(86400),
            };
            Ok(base.and_hms(h as u8, m as u8, s as u8))
        },
        TimeClue::ISO(ymd, hms) => {
            let (y, mo, d) = ymd;
            let (h, mi, s) = hms;
            match DateTime::from_ymd_hms(y, mo, d, h, mi, s) {
                Some(v) => Ok(v),
                None => Err(
                    EvaluationError::InvalidISODate {
                        year: y,
                        month: mo,
                        day: d,
                        hour: h,
                        minute: mi,
                        second: s,
                    },
                ),
            }
        },
    }
}

/// The raw clock time of an optional time component, as executable code.
fn hms_or_midnight_exec(hms_maybe: Option<HMS>) -> (r: HMS)
    ensures
        r == hms_or_midnight(hms_maybe),
{
    match hms_maybe {
        Some(hms) => hms,
        None => (0, 0, 0),
    }
}

/// An in-range clock time without an am/pm marker passes validation
/// unchanged.
pub proof fn lemma_check_hms_in_range(h: u32, m: u32, s: u32)
    requires
        h < 24,
        m < 60,
        s < 60,
    ensures
        spec_check_hms((h, m, s), None) == Ok::<HMS, EvaluationError>((h, m, s)),
        spec_check_hms((h, m, s), Some(AMPM::AM)) == Ok::<HMS, EvaluationError>((h, m, s)),
{
}

/// A clock time whose hour stays below twelve passes validation with a PM
/// marker, and twelve hours are added to it.
pub proof fn lemma_check_hms_pm(h: u32, m: u32, s: u32)
    requires
        h + 12 < 24,
        m < 60,
        s < 60,
    ensures
        spec_check_hms((h, m, s), Some(AMPM::PM)) == Ok::<HMS, EvaluationError>(
            ((h + 12) as u32, m, s),
        ),
{
}

/// An hour of twenty-four fails validation whatever the am/pm marker.
pub proof fn lemma_check_hms_hour_24(m: u32, s: u32, am_or_pm_maybe: Option<AMPM>)
    ensures
        spec_check_hms((24, m, s), am_or_pm_maybe) is Err,
{
}

/// Evaluating `Now` returns the reference instant unchanged, whatever the
/// reference instant and the roll-forward flag.
pub proof fn lemma_evaluate_now(now: int, assume_next_day: bool)
    ensures
        spec_evaluate(TimeClue::Now, now, assume_next_day) == Ok::<int, EvaluationError>(now),
{
}

/// A bare clock time resolves within the reference day when the
/// roll-forward flag is off; with the flag on, the result is never
/// strictly earlier than the reference instant and lies on the reference
/// day or the one after. Either way the result's time of day is the
/// validated clock time.
pub proof fn lemma_time_resolution(hms: HMS, ap: Option<AMPM>, now: int, assume_next_day: bool)
    ensures
        match spec_evaluate(TimeClue::Time(hms, ap), now, assume_next_day) {
            Ok(r) => (!assume_next_day ==> day_start(r) == day_start(now)) && (assume_next_day
                ==> r >= now && day_start(now) <= day_start(r) <= day_start(now) + 86400) && (
            spec_check_hms(hms, ap) matches Ok(v) && time_of_day(r) == v.0 * 3600 + v.1 * 60
                + v.2),
            Err(_) => true,
        },
{
    match spec_check_hms(hms, ap) {
        Ok((h, m, s)) => {
            let tod = h * 3600 + m * 60 + s;
            assert(h < 24 && m < 60 && s < 60);
            let d = day_start(now) + tod;
            lemma_day_number_of_shift(now, 0, tod);
            lemma_day_number_of_shift(now, 1, tod);
            lemma_fundamental_div_mod(now, 86400);
        },
        Err(_) => {},
    }
}

/// The day a `last`/`next` weekday phrase resolves to falls on the
/// requested weekday: `next` lands between one and seven days after the
/// reference day, `last` between one and seven days before it.
pub proof fn lemma_relative_day_resolution(
    md: Modifier,
    w: Weekday,
    hms_maybe: Option<HMS>,
    ap: Option<AMPM>,
    now: int,
    assume_next_day: bool,
)
    ensures
        match spec_evaluate(TimeClue::RelativeDayAt(md, w, hms_maybe, ap), now, assume_next_day) {
            Ok(r) => weekday_of_instant(r) == w && (md == Modifier::Next ==> day_start(now)
                + 86400 <= day_start(r) <= day_start(now) + 7 * 86400) && (md == Modifier::Last
                ==> day_start(now) - 7 * 86400 <= day_start(r) <= day_start(now) - 86400),
            Err(_) => true,
        },
{
    match spec_check_hms(hms_or_midnight(hms_maybe), ap) {
        Ok((h, m, s)) => {
            let tod = h * 3600 + m * 60 + s;
            assert(h < 24 && m < 60 && s < 60);
            let iw = weekday_index(w);
            let inow = weekday_index(weekday_of_instant(now));
            let shift = match md {
                Modifier::Last => if iw < inow {
                    iw - inow
                } else {
                    iw - inow - 7
                },
                Modifier::Next => if iw > inow {
                    iw - inow
                } else {
                    iw - inow + 7
                },
            };
            let r = day_start(now + shift * 86400) + h * 3600 + m * 60 + s;
            lemma_day_start_shift(now, shift);
            lemma_day_number_of_shift(now, shift, tod);
            assert(day_start(r) == day_start(now) + shift * 86400);
            let x = now / 86400 + 3;
            assert(weekday_index(weekday_from_index(x % 7)) == x % 7);
            assert(weekday_of_instant(r) == weekday_from_index((x + shift) % 7));
            lemma_fundamental_div_mod(x, 7);
            lemma_mod_multiples_vanish(x / 7, inow + shift, 7);
            assert((x + shift) % 7 == (inow + shift) % 7);
            if inow + shift == iw + 7 {
                lemma_mod_multiples_vanish(1, iw, 7);
            } else if inow + shift == iw - 7 {
                lemma_mod_multiples_vanish(-1, iw, 7);
            }
            lemma_small_mod(iw as nat, 7);
            assert((inow + shift) % 7 == iw);
            assert(weekday_from_index(iw) == w);
        },
        Err(_) => {},
    }
}

/// The day a bare weekday phrase resolves to falls on the requested
/// weekday, and lies in the reference day's calendar week: at most the
/// weekday-index distance away from the reference day, in either
/// direction.
pub proof fn lemma_same_week_day_resolution(
    w: Weekday,
    hms_maybe: Option<HMS>,
    ap: Option<AMPM>,
    now: int,
    assume_next_day: bool,
)
    ensures
        match spec_evaluate(TimeClue::SameWeekDayAt(w, hms_maybe, ap), now, assume_next_day) {
            Ok(r) => weekday_of_instant(r) == w && day_start(now) - 6 * 86400 <= day_start(r)
                <= day_start(now) + 6 * 86400,
            Err(_) => true,
        },
{
    match spec_check_hms(hms_or_midnight(hms_maybe), ap) {
        Ok((h, m, s)) => {
            let tod = h * 3600 + m * 60 + s;
            assert(h < 24 && m < 60 && s < 60);
            let iw = weekday_index(w);
            let inow = weekday_index(weekday_of_instant(now));
            let shift = iw - inow;
            let r = day_start(now + shift * 86400) + h * 3600 + m * 60 + s;
            lemma_day_start_shift(now, shift);
            lemma_day_number_of_shift(now, shift, tod);
            assert(day_start(r) == day_start(now) + shift * 86400);
            let x = now / 86400 + 3;
            assert(weekday_index(weekday_from_index(x % 7)) == x % 7);
            assert(weekday_of_instant(r) == weekday_from_index((x + shift) % 7));
            lemma_fundamental_div_mod(x, 7);
            lemma_mod_multiples_vanish(x / 7, inow + shift, 7);
            lemma_small_mod(iw as nat, 7);
            assert((x + shift) % 7 == iw);
            assert(weekday_from_index(iw) == w);
        },
        Err(_) => {},
    }
}

} // verus!
