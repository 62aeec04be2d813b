use htp::interpreter::{check_hms, evaluate, evaluate_time_clue, EvaluationError};
use htp::parser::AMPM::{AM, PM};
use htp::parser::{Modifier, Quantifier, ShortcutDay, TimeClue};
use htp::unified::{DateTime, Weekday};

use chrono::Datelike;

fn chrono_utc(s: &str) -> DateTime {
    let ts = chrono::NaiveDateTime::parse_from_str(s, "%Y-%m-%dT%H:%M:%S")
        .unwrap()
        .and_utc()
        .timestamp();
    DateTime::from_timestamp(ts)
}

fn time_utc(ymd: (i32, u8, u8), hms: (u8, u8, u8)) -> DateTime {
    let month = time::Month::try_from(ymd.1).unwrap();
    let date = time::Date::from_calendar_date(ymd.0, month, ymd.2).unwrap();
    let tod = time::Time::from_hms(hms.0, hms.1, hms.2).unwrap();
    let ts = time::PrimitiveDateTime::new(date, tod)
        .assume_utc()
        .unix_timestamp();
    DateTime::from_timestamp(ts)
}

#[test]
fn test_check_hms() {
    assert_eq!(check_hms((19, 43, 42), None), Ok((19, 43, 42)));
    assert_eq!(check_hms((19, 43, 42), Some(AM)), Ok((19, 43, 42)));
    assert!(check_hms((19, 43, 42), Some(PM)).is_err());
    assert!(check_hms((24, 43, 42), None).is_err());
    assert!(check_hms((19, 63, 42), None).is_err());
    assert!(check_hms((19, 43, 62), None).is_err());
    assert_eq!(check_hms((6, 42, 43), Some(PM)), Ok((18, 42, 43)));
}

#[test]
fn chrono_test_next_weekday() {
    let now = chrono_utc("2020-07-12T12:45:00"); // sunday
    let expected = chrono_utc("2020-07-17T00:00:00");

    assert_eq!(
        evaluate(
            TimeClue::RelativeDayAt(Modifier::Next, Weekday::Friday, None, None),
            now
        )
        .unwrap(),
        expected
    );
}

#[test]
fn time_test_next_weekday() {
    let now = time_utc((2020, 7, 12), (12, 45, 0)); // sunday
    let expected = time_utc((2020, 7, 17), (0, 0, 0));

    assert_eq!(
        evaluate(
            TimeClue::RelativeDayAt(Modifier::Next, Weekday::Friday, None, None),
            now
        )
        .unwrap(),
        expected
    );
}

#[test]
fn chrono_test_assume_next_day() {
    let now = chrono_utc("2020-07-12T12:45:00"); // sunday

    let expected = chrono_utc("2020-07-12T08:00:00");
    assert_eq!(
        evaluate_time_clue(TimeClue::Time((8, 0, 0), None), now, false).unwrap(),
        expected
    );

    let expected = chrono_utc("2020-07-13T08:00:00");
    assert_eq!(
        evaluate_time_clue(TimeClue::Time((8, 0, 0), None), now, true).unwrap(),
        expected
    );
}

#[test]
fn time_test_assume_next_day() {
    let now = time_utc((2020, 7, 12), (12, 45, 0)); // sunday

    let expected = time_utc((2020, 7, 12), (8, 0, 0));
    assert_eq!(
        evaluate_time_clue(TimeClue::Time((8, 0, 0), None), now, false).unwrap(),
        expected
    );

    let expected = time_utc((2020, 7, 13), (8, 0, 0));
    assert_eq!(
        evaluate_time_clue(TimeClue::Time((8, 0, 0), None), now, true).unwrap(),
        expected
    );
}

#[test]
fn test_evaluate_now_unchanged() {
    for ts in [-1234567890i64, 0, 1, 1594557900, 253402300799].iter() {
        let now = DateTime::from_timestamp(*ts);
        assert_eq!(evaluate(TimeClue::Now, now).unwrap(), now);
        assert_eq!(
            evaluate_time_clue(TimeClue::Now, now, true).unwrap(),
            now
        );
    }
}

#[test]
fn test_evaluate_last_weekday() {
    let now = chrono_utc("2020-07-12T12:45:00"); // sunday
    // Friday's index is below Sunday's, so "last friday" falls in the same
    // calendar week.
    assert_eq!(
        evaluate(
            TimeClue::RelativeDayAt(Modifier::Last, Weekday::Friday, None, None),
            now
        )
        .unwrap(),
        chrono_utc("2020-07-10T00:00:00")
    );
    // "last sunday" from a Sunday goes a full week back.
    assert_eq!(
        evaluate(
            TimeClue::RelativeDayAt(Modifier::Last, Weekday::Sunday, None, None),
            now
        )
        .unwrap(),
        chrono_utc("2020-07-05T00:00:00")
    );
    // "next sunday" from a Sunday goes a full week forward.
    assert_eq!(
        evaluate(
            TimeClue::RelativeDayAt(Modifier::Next, Weekday::Sunday, None, None),
            now
        )
        .unwrap(),
        chrono_utc("2020-07-19T00:00:00")
    );
}

#[test]
fn test_evaluate_same_week_day() {
    let now = chrono_utc("2020-07-12T12:45:00"); // sunday
    // The Monday of the current calendar week lies in the past.
    assert_eq!(
        evaluate(
            TimeClue::SameWeekDayAt(Weekday::Monday, None, None),
            now
        )
        .unwrap(),
        chrono_utc("2020-07-06T00:00:00")
    );
    assert_eq!(
        evaluate(
            TimeClue::SameWeekDayAt(Weekday::Friday, Some((19, 43, 0)), None),
            now
        )
        .unwrap(),
        chrono_utc("2020-07-10T19:43:00")
    );
}

#[test]
fn test_evaluate_shortcut_days() {
    let now = chrono_utc("2020-07-12T12:45:00");
    assert_eq!(
        evaluate(
            TimeClue::ShortcutDayAt(ShortcutDay::Today, Some((7, 0, 0)), None),
            now
        )
        .unwrap(),
        chrono_utc("2020-07-12T07:00:00")
    );
    assert_eq!(
        evaluate(
            TimeClue::ShortcutDayAt(ShortcutDay::Yesterday, Some((19, 43, 0)), None),
            now
        )
        .unwrap(),
        chrono_utc("2020-07-11T19:43:00")
    );
    assert_eq!(
        evaluate(
            TimeClue::ShortcutDayAt(ShortcutDay::Tomorrow, None, None),
            now
        )
        .unwrap(),
        chrono_utc("2020-07-13T00:00:00")
    );
}

#[test]
fn test_evaluate_relative_units() {
    let now = chrono_utc("2020-07-12T12:45:00");
    let cases: [(usize, Quantifier, i64); 5] = [
        (2, Quantifier::Min, 2 * 60),
        (2, Quantifier::Hours, 2 * 3600),
        (2, Quantifier::Days, 2 * 86400),
        (2, Quantifier::Weeks, 2 * 7 * 86400),
        // A month counts as exactly thirty days.
        (2, Quantifier::Months, 2 * 30 * 86400),
    ];
    for (n, q, secs) in cases.iter() {
        assert_eq!(
            evaluate(TimeClue::Relative(*n, *q), now).unwrap(),
            DateTime::from_timestamp(now.timestamp() - secs)
        );
        assert_eq!(
            evaluate(TimeClue::RelativeFuture(*n, *q), now).unwrap(),
            DateTime::from_timestamp(now.timestamp() + secs)
        );
    }
}

#[test]
fn test_evaluate_time_with_pm() {
    let now = chrono_utc("2020-07-12T12:45:00");
    assert_eq!(
        evaluate(TimeClue::Time((9, 0, 0), Some(PM)), now).unwrap(),
        chrono_utc("2020-07-12T21:00:00")
    );
}

#[test]
fn test_evaluate_invalid_time() {
    let now = chrono_utc("2020-07-12T12:45:00");
    assert_eq!(
        evaluate(TimeClue::Time((25, 99, 0), None), now),
        Err(EvaluationError::InvalidTime {
            hour: 25,
            minute: 99,
            second: 0
        })
    );
    assert_eq!(
        evaluate(TimeClue::Time((19, 43, 42), Some(PM)), now),
        Err(EvaluationError::InvalidTimeAMPM {
            hour: 19,
            minute: 43,
            second: 42,
            am_or_pm: PM
        })
    );
}

#[test]
fn test_evaluate_invalid_iso_date() {
    let now = chrono_utc("2020-07-12T12:45:00");
    assert_eq!(
        evaluate(TimeClue::ISO((2020, 2, 30), (0, 0, 0)), now),
        Err(EvaluationError::InvalidISODate {
            year: 2020,
            month: 2,
            day: 30,
            hour: 0,
            minute: 0,
            second: 0
        })
    );
    assert_eq!(
        evaluate(TimeClue::ISO((2020, 12, 25), (25, 0, 0)), now),
        Err(EvaluationError::InvalidISODate {
            year: 2020,
            month: 12,
            day: 25,
            hour: 25,
            minute: 0,
            second: 0
        })
    );
    assert_eq!(
        evaluate(TimeClue::ISO((2020, 12, 25), (19, 43, 42)), now).unwrap(),
        chrono_utc("2020-12-25T19:43:42")
    );
}

#[test]
fn test_evaluation_fits() {
    let now = chrono_utc("2020-07-12T12:45:00");
    assert!(htp::interpreter::evaluation_fits(&TimeClue::Now, &now));
    assert!(htp::interpreter::evaluation_fits(
        &TimeClue::Relative(2, Quantifier::Days),
        &now
    ));
    assert!(!htp::interpreter::evaluation_fits(
        &TimeClue::Relative(usize::MAX, Quantifier::Months),
        &now
    ));
    assert!(!htp::interpreter::evaluation_fits(
        &TimeClue::RelativeFuture(usize::MAX, Quantifier::Months),
        &now
    ));
}

#[test]
fn test_weekday_matches_chrono() {
    // One day per day of several weeks around the epoch, leap days
    // included, compared against chrono's weekday.
    for k in 0..1200i64 {
        let ts = (k - 600) * 86400 + (k % 5) * 3600;
        let d = DateTime::from_timestamp(ts);
        let expected = chrono::DateTime::from_timestamp(ts, 0)
            .unwrap()
            .weekday()
            .num_days_from_monday();
        assert_eq!(
            d.weekday().num_days_from_monday() as u32,
            expected,
            "weekday mismatch at timestamp {}",
            ts
        );
    }
}

#[test]
fn test_from_ymd_hms_matches_chrono() {
    let dates = [
        (1970, 1, 1, 0, 0, 0),
        (2020, 7, 12, 12, 45, 0),
        (2020, 2, 29, 23, 59, 59),
        (2000, 2, 29, 1, 2, 3),
        (1900, 2, 28, 0, 0, 0),
        (1969, 12, 31, 23, 59, 59),
        (1, 1, 1, 0, 0, 0),
        (-500, 6, 15, 6, 30, 0),
        (9999, 12, 31, 23, 59, 59),
    ];
    for (y, mo, d, h, mi, s) in dates.iter() {
        let ours = DateTime::from_ymd_hms(*y, *mo, *d, *h, *mi, *s)
            .unwrap()
            .timestamp();
        let theirs = chrono::NaiveDate::from_ymd_opt(*y, *mo, *d)
            .unwrap()
            .and_hms_opt(*h, *mi, *s)
            .unwrap()
            .and_utc()
            .timestamp();
        assert_eq!(ours, theirs, "timestamp mismatch for {}-{}-{}", y, mo, d);
    }
}

#[test]
fn test_from_ymd_hms_matches_time() {
    let dates: [(i32, u8, u8, u8, u8, u8); 5] = [
        (1970, 1, 1, 0, 0, 0),
        (2020, 7, 12, 12, 45, 0),
        (2020, 2, 29, 23, 59, 59),
        (1969, 12, 31, 23, 59, 59),
        (9999, 12, 31, 23, 59, 59),
    ];
    for (y, mo, d, h, mi, s) in dates.iter() {
        let ours = DateTime::from_ymd_hms(*y, *mo as u32, *d as u32, *h as u32, *mi as u32, *s
            as u32)
            .unwrap()
            .timestamp();
        let theirs = time_utc((*y, *mo, *d), (*h, *mi, *s)).timestamp();
        assert_eq!(ours, theirs, "timestamp mismatch for {}-{}-{}", y, mo, d);
    }
}

#[test]
fn test_from_ymd_hms_rejects_invalid() {
    assert!(DateTime::from_ymd_hms(2021, 2, 29, 0, 0, 0).is_none());
    assert!(DateTime::from_ymd_hms(2020, 2, 29, 0, 0, 0).is_some());
    assert!(DateTime::from_ymd_hms(2020, 4, 31, 0, 0, 0).is_none());
    assert!(DateTime::from_ymd_hms(2020, 13, 1, 0, 0, 0).is_none());
    assert!(DateTime::from_ymd_hms(2020, 0, 1, 0, 0, 0).is_none());
    assert!(DateTime::from_ymd_hms(2020, 1, 0, 0, 0, 0).is_none());
    assert!(DateTime::from_ymd_hms(2020, 1, 1, 24, 0, 0).is_none());
    assert!(DateTime::from_ymd_hms(2020, 1, 1, 0, 60, 0).is_none());
    assert!(DateTime::from_ymd_hms(2020, 1, 1, 0, 0, 60).is_none());
}

#[test]
fn test_datetime_ordering() {
    let a = DateTime::from_timestamp(100);
    let b = DateTime::from_timestamp(200);
    assert!(a < b);
    assert!(b > a);
    assert!(a == DateTime::from_timestamp(100));
    assert!(a <= a);
}

#[test]
fn test_num_days_from_monday() {
    assert_eq!(Weekday::Monday.num_days_from_monday(), 0);
    assert_eq!(Weekday::Tuesday.num_days_from_monday(), 1);
    assert_eq!(Weekday::Wednesday.num_days_from_monday(), 2);
    assert_eq!(Weekday::Thursday.num_days_from_monday(), 3);
    assert_eq!(Weekday::Friday.num_days_from_monday(), 4);
    assert_eq!(Weekday::Saturday.num_days_from_monday(), 5);
    assert_eq!(Weekday::Sunday.num_days_from_monday(), 6);
}
