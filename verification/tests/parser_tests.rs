use htp::parser::{
    parse_time_clue_from_str, Modifier, ParseError, Quantifier, ShortcutDay, TimeClue, AMPM,
};
use htp::unified::Weekday;

#[test]
fn test_parse_time_ok() {
    assert_eq!(
        TimeClue::Time((9, 0, 0), None),
        parse_time_clue_from_str("9").unwrap()
    );
    assert_eq!(
        TimeClue::Time((9, 0, 0), Some(AMPM::AM)),
        parse_time_clue_from_str("9 am").unwrap()
    );
    assert_eq!(
        TimeClue::Time((9, 0, 0), Some(AMPM::PM)),
        parse_time_clue_from_str("9 pm").unwrap()
    );
    assert_eq!(
        TimeClue::Time((9, 30, 0), None),
        parse_time_clue_from_str("9:30").unwrap()
    );
    assert_eq!(
        TimeClue::Time((9, 30, 56), None),
        parse_time_clue_from_str("9:30:56").unwrap()
    );
}

#[test]
fn test_parse_relative_ok() {
    for s in ["2 min ago", "2min ago", "2minago", "2   min  ago"].iter() {
        assert_eq!(
            TimeClue::Relative(2, Quantifier::Min),
            parse_time_clue_from_str(s).unwrap()
        );
    }
    for s in ["2 h ago", "2 hour ago", "2 hours ago"].iter() {
        assert_eq!(
            TimeClue::Relative(2, Quantifier::Hours),
            parse_time_clue_from_str(s).unwrap()
        );
    }
    for s in ["2 d ago", "2 day ago", "2 days ago"].iter() {
        assert_eq!(
            TimeClue::Relative(2, Quantifier::Days),
            parse_time_clue_from_str(s).unwrap()
        );
    }
}

#[test]
fn test_parse_relative_future_ok() {
    for s in ["in 2 min", "in 2min", "in2min", "in  2   min"].iter() {
        assert_eq!(
            TimeClue::RelativeFuture(2, Quantifier::Min),
            parse_time_clue_from_str(s).unwrap()
        );
    }
    for s in ["in 2 h", "in 2 hour", "in 2 hours"].iter() {
        assert_eq!(
            TimeClue::RelativeFuture(2, Quantifier::Hours),
            parse_time_clue_from_str(s).unwrap()
        );
    }
    for s in ["in 2 d", "in 2 day", "in 2 days"].iter() {
        assert_eq!(
            TimeClue::RelativeFuture(2, Quantifier::Days),
            parse_time_clue_from_str(s).unwrap()
        );
    }
}

#[test]
fn test_parse_shortcut_day_ok() {
    assert_eq!(
        TimeClue::ShortcutDayAt(ShortcutDay::Today, None, None),
        parse_time_clue_from_str("today").unwrap()
    );
    assert_eq!(
        TimeClue::ShortcutDayAt(ShortcutDay::Today, Some((7, 0, 0)), None),
        parse_time_clue_from_str("today at 7").unwrap()
    );
    assert_eq!(
        TimeClue::ShortcutDayAt(ShortcutDay::Yesterday, None, None),
        parse_time_clue_from_str("yesterday").unwrap()
    );
    assert_eq!(
        TimeClue::ShortcutDayAt(ShortcutDay::Yesterday, Some((19, 43, 0)), None),
        parse_time_clue_from_str("yesterday at 19:43").unwrap()
    );
    assert_eq!(
        TimeClue::ShortcutDayAt(ShortcutDay::Yesterday, Some((19, 43, 0)), None),
        parse_time_clue_from_str("yesterday at 19:43:00").unwrap()
    );
    assert_eq!(
        TimeClue::ShortcutDayAt(ShortcutDay::Tomorrow, Some((19, 43, 0)), None),
        parse_time_clue_from_str("tomorrow at 19:43:00").unwrap()
    );
}

#[test]
fn test_parse_relative_day_ok() {
    assert_eq!(TimeClue::Now, parse_time_clue_from_str("now").unwrap());
    assert_eq!(
        TimeClue::SameWeekDayAt(Weekday::Friday, Some((19, 43, 0)), None),
        parse_time_clue_from_str("friday at 19:43").unwrap()
    );
    assert_eq!(
        TimeClue::RelativeDayAt(Modifier::Last, Weekday::Friday, None, None),
        parse_time_clue_from_str("last friday").unwrap()
    );
    assert_eq!(
        TimeClue::RelativeDayAt(Modifier::Last, Weekday::Friday, Some((9, 0, 0)), None),
        parse_time_clue_from_str("last friday at 9").unwrap()
    );
}

#[test]
fn parser_test_parse_relative_day_ok() {
    assert_eq!(TimeClue::Now, parse_time_clue_from_str("now").unwrap());
    assert_eq!(
        TimeClue::SameWeekDayAt(Weekday::Friday, Some((19, 43, 0)), None),
        parse_time_clue_from_str("friday at 19:43").unwrap()
    );
    assert_eq!(
        TimeClue::RelativeDayAt(Modifier::Last, Weekday::Friday, None, None),
        parse_time_clue_from_str("last friday").unwrap()
    );
    assert_eq!(
        TimeClue::RelativeDayAt(Modifier::Last, Weekday::Friday, Some((9, 0, 0)), None),
        parse_time_clue_from_str("last friday at 9").unwrap()
    );
}

#[test]
fn test_parse_same_week_ok() {
    let weekdays = [
        (Weekday::Monday, "monday"),
        (Weekday::Tuesday, "tuesday"),
        (Weekday::Wednesday, "wednesday"),
        (Weekday::Thursday, "thursday"),
        (Weekday::Friday, "friday"),
        (Weekday::Saturday, "saturday"),
        (Weekday::Sunday, "sunday"),
    ];
    for (weekday, weekday_str) in weekdays.iter() {
        assert_eq!(
            TimeClue::SameWeekDayAt(*weekday, None, None),
            parse_time_clue_from_str(weekday_str).unwrap()
        )
    }
    let weekdays = [
        (Weekday::Monday, "mon"),
        (Weekday::Tuesday, "tue"),
        (Weekday::Wednesday, "wed"),
        (Weekday::Thursday, "thu"),
        (Weekday::Friday, "fri"),
        (Weekday::Saturday, "sat"),
        (Weekday::Sunday, "sun"),
    ];
    for (weekday, weekday_str) in weekdays.iter() {
        assert_eq!(
            TimeClue::SameWeekDayAt(*weekday, None, None),
            parse_time_clue_from_str(weekday_str).unwrap()
        )
    }
    assert_eq!(
        TimeClue::SameWeekDayAt(Weekday::Friday, Some((19, 43, 0)), None),
        parse_time_clue_from_str("friday at 19:43").unwrap()
    );
}

#[test]
fn parser_test_parse_same_week_ok() {
    let weekdays = [
        (Weekday::Monday, "monday"),
        (Weekday::Tuesday, "tuesday"),
        (Weekday::Wednesday, "wednesday"),
        (Weekday::Thursday, "thursday"),
        (Weekday::Friday, "friday"),
        (Weekday::Saturday, "saturday"),
        (Weekday::Sunday, "sunday"),
    ];
    for (weekday, weekday_str) in weekdays.iter() {
        assert_eq!(
            TimeClue::SameWeekDayAt(*weekday, None, None),
            parse_time_clue_from_str(weekday_str).unwrap()
        )
    }
    let weekdays = [
        (Weekday::Monday, "mon"),
        (Weekday::Tuesday, "tue"),
        (Weekday::Wednesday, "wed"),
        (Weekday::Thursday, "thu"),
        (Weekday::Friday, "fri"),
        (Weekday::Saturday, "sat"),
        (Weekday::Sunday, "sun"),
    ];
    for (weekday, weekday_str) in weekdays.iter() {
        assert_eq!(
            TimeClue::SameWeekDayAt(*weekday, None, None),
            parse_time_clue_from_str(weekday_str).unwrap()
        )
    }
    assert_eq!(
        TimeClue::SameWeekDayAt(Weekday::Friday, Some((19, 43, 0)), None),
        parse_time_clue_from_str("friday at 19:43").unwrap()
    );
}

#[test]
fn test_parse_now_ok() {
    assert_eq!(TimeClue::Now, parse_time_clue_from_str("now").unwrap());
}

#[test]
fn test_parse_iso_ok() {
    assert_eq!(
        TimeClue::ISO((2020, 12, 25), (19, 43, 42)),
        parse_time_clue_from_str("2020-12-25T19:43:42").unwrap()
    );

    assert_eq!(
        TimeClue::ISO((2020, 12, 25), (0, 0, 0)),
        parse_time_clue_from_str("25/12/2020").unwrap()
    );

    assert_eq!(
        TimeClue::ISO((2020, 12, 25), (0, 0, 0)),
        parse_time_clue_from_str("25-12-2020").unwrap()
    );
}

#[test]
fn test_parse_case_insensitive() {
    assert_eq!(TimeClue::Now, parse_time_clue_from_str("NOW").unwrap());
    assert_eq!(
        TimeClue::Time((9, 0, 0), Some(AMPM::PM)),
        parse_time_clue_from_str("9 PM").unwrap()
    );
    assert_eq!(
        TimeClue::RelativeDayAt(Modifier::Last, Weekday::Friday, Some((9, 0, 0)), None),
        parse_time_clue_from_str("Last Friday at 9").unwrap()
    );
    assert_eq!(
        TimeClue::ISO((2020, 12, 25), (19, 43, 42)),
        parse_time_clue_from_str("2020-12-25t19:43:42").unwrap()
    );
}

#[test]
fn test_parse_unvalidated_ranges() {
    // Parsing performs no range checking; "25:99" parses fine.
    assert_eq!(
        TimeClue::Time((25, 99, 0), None),
        parse_time_clue_from_str("25:99").unwrap()
    );
}

#[test]
fn test_parse_unknown_ampm() {
    match parse_time_clue_from_str("9 xm") {
        Err(ParseError::UnknownAMPM(t)) => assert_eq!(t, "xm"),
        other => panic!("expected unknown am/pm error, got {:?}", other),
    }
    // The reported token keeps the casing of the input.
    match parse_time_clue_from_str("9 Xm") {
        Err(ParseError::UnknownAMPM(t)) => assert_eq!(t, "Xm"),
        other => panic!("expected unknown am/pm error, got {:?}", other),
    }
}

#[test]
fn test_parse_iso_short_times() {
    assert_eq!(
        TimeClue::ISO((2020, 12, 25), (9, 0, 0)),
        parse_time_clue_from_str("2020-12-25T9").unwrap()
    );
    assert_eq!(
        TimeClue::ISO((2020, 12, 25), (19, 43, 0)),
        parse_time_clue_from_str("2020-12-25T19:43").unwrap()
    );
}

#[test]
fn test_parse_week_units() {
    assert_eq!(
        TimeClue::Relative(2, Quantifier::Weeks),
        parse_time_clue_from_str("2 w ago").unwrap()
    );
    assert_eq!(
        TimeClue::Relative(3, Quantifier::Months),
        parse_time_clue_from_str("3 months ago").unwrap()
    );
    assert_eq!(
        TimeClue::RelativeFuture(1, Quantifier::Weeks),
        parse_time_clue_from_str("in 1 week").unwrap()
    );
}

#[test]
fn test_parse_int_too_big() {
    match parse_time_clue_from_str("99999999999999999999999 min ago") {
        Err(ParseError::ParseInt(t)) => assert_eq!(t, "99999999999999999999999"),
        other => panic!("expected integer error, got {:?}", other),
    }
}

#[test]
fn test_parse_mismatch() {
    for s in [
        "",
        "hello world",
        "9 pm extra",
        "friday 19:43",
        "2020-12-25",
        "2 mins ago",
        "monday\u{e9}",
    ]
    .iter()
    {
        assert_eq!(Err(ParseError::GrammarMismatch), parse_time_clue_from_str(s));
    }
}

#[test]
fn test_token_mappings() {
    assert_eq!(Ok(Weekday::Friday), htp::parser::weekday_from("fri"));
    assert_eq!(Ok(AMPM::PM), htp::parser::am_or_pm_from("pm"));
    assert_eq!(Ok(ShortcutDay::Tomorrow), htp::parser::shortcut_day_from("tomorrow"));
    assert_eq!(Ok(Modifier::Next), htp::parser::modifier_from("next"));
    assert_eq!(Ok(Quantifier::Weeks), htp::parser::quantifier_from("w"));
    assert_eq!(
        Err(ParseError::UnknownWeekday("frid".to_string())),
        htp::parser::weekday_from("frid")
    );
    assert_eq!(
        Err(ParseError::UnknownAMPM("xm".to_string())),
        htp::parser::am_or_pm_from("xm")
    );
    assert_eq!(
        Err(ParseError::UnknownShortcutDay("tonight".to_string())),
        htp::parser::shortcut_day_from("tonight")
    );
    assert_eq!(
        Err(ParseError::UnknownModifier("this".to_string())),
        htp::parser::modifier_from("this")
    );
    assert_eq!(
        Err(ParseError::UnknownQuantifier("fortnights".to_string())),
        htp::parser::quantifier_from("fortnights")
    );
}
