use htp::parser::ParseError;
use htp::unified::DateTime;
use htp::{parse, parse_time_clue, HTPError};

fn utc(s: &str) -> DateTime {
    let ts = chrono::NaiveDateTime::parse_from_str(s, "%Y-%m-%dT%H:%M:%S")
        .unwrap()
        .and_utc()
        .timestamp();
    DateTime::from_timestamp(ts)
}

#[test]
fn test_parse_last_friday_at() {
    let now = utc("2020-12-24T23:45:00");
    let expected = utc("2020-12-18T19:43:00");
    assert_eq!(parse("last friday at 19:43", now).unwrap(), expected);
}

#[test]
fn test_parse_pipeline_roll_forward() {
    let now = utc("2020-07-12T12:45:00");
    assert_eq!(
        parse_time_clue("8", now, false).unwrap(),
        utc("2020-07-12T08:00:00")
    );
    assert_eq!(
        parse_time_clue("8", now, true).unwrap(),
        utc("2020-07-13T08:00:00")
    );
    // A time still ahead of the reference instant stays on the same day
    // whatever the flag.
    assert_eq!(
        parse_time_clue("19:43", now, true).unwrap(),
        utc("2020-07-12T19:43:00")
    );
}

#[test]
fn test_parse_pipeline_iso() {
    let now = utc("2020-07-12T12:45:00");
    assert_eq!(
        parse("2020-12-25T19:43:42", now).unwrap(),
        utc("2020-12-25T19:43:42")
    );
    assert_eq!(parse("25/12/2020", now).unwrap(), utc("2020-12-25T00:00:00"));
}

#[test]
fn test_parse_pipeline_errors() {
    let now = utc("2020-07-12T12:45:00");
    assert_eq!(
        parse("nonsense", now),
        Err(HTPError::ParseError(ParseError::GrammarMismatch))
    );
    match parse("9 xm", now) {
        Err(HTPError::ParseError(ParseError::UnknownAMPM(t))) => assert_eq!(t, "xm"),
        other => panic!("expected unknown am/pm error, got {:?}", other),
    }
    match parse("25:99", now) {
        Err(HTPError::EvaluationError(e)) => {
            assert_eq!(
                e,
                htp::interpreter::EvaluationError::InvalidTime {
                    hour: 25,
                    minute: 99,
                    second: 0
                }
            );
        }
        other => panic!("expected evaluation error, got {:?}", other),
    }
}

#[test]
fn test_parse_pipeline_relative() {
    let now = utc("2020-07-12T12:45:00");
    assert_eq!(
        parse("2 days ago", now).unwrap(),
        utc("2020-07-10T12:45:00")
    );
    assert_eq!(parse("in 2 h", now).unwrap(), utc("2020-07-12T14:45:00"));
    assert_eq!(parse("now", now).unwrap(), now);
}
