//! The time-clue vocabulary and the parser's public face.
//!
//! A phrase is parsed into a [`TimeClue`]: a closed set of variants saying
//! what kind of time expression was given, carrying raw, unvalidated numbers.
//! Range checking happens only later, during evaluation. The surface grammar
//! itself lives in the `grammar` module; this module holds the vocabulary
//! types, the keyword-to-token mappings, and the conversion of a recognized
//! phrase into a `TimeClue`.

use vstd::prelude::*;
use crate::unified::Weekday;
use crate::grammar::{
    chars_as_bytes,
    lower_seq,
    s_conv_ampm,
    s_conv_time,
    s_convert,
    s_outcome,
    eat_kw,
    parse_usize,
    raw_view,
    raw_wf,
    raw_x,
    skip_ws_x,
    span_view,
    time_view,
    to_lower_x,
    EDayAt,
    ERaw,
    ETime,
    etime_wf,
    SDayKind,
    SOutcome,
};


verus! {

/// Raw hour, minute, second as parsed; unvalidated.
pub type HMS = (u32, u32, u32);

/// Raw year, month, day as parsed; unvalidated.
pub type YMD = (i32, u32, u32);

/// Why a phrase failed to parse.
#[derive(Debug, PartialEq, Eq)]
pub enum ParseError {
    /// An integer token whose value does not fit the expected type.
    ParseInt(String),
    /// No production of the grammar matches the input.
    GrammarMismatch,
    /// A token in weekday position that names no known weekday.
    UnknownWeekday(String),
    /// A token in shortcut-day position that names no known shortcut day.
    UnknownShortcutDay(String),
    /// A token in modifier position that names no known modifier.
    UnknownModifier(String),
    /// A token in quantifier position that names no known quantifier.
    UnknownQuantifier(String),
    /// A token in am/pm position that is neither "am" nor "pm".
    UnknownAMPM(String),
}

/// Morning or afternoon marker on a time of day.
#[derive(Debug, PartialEq, Eq, Structural, Clone, Copy)]
pub enum AMPM {
    AM,
    PM,
}

/// A day named relative to the reference day.
#[derive(Debug, PartialEq, Eq, Structural, Clone, Copy)]
pub enum ShortcutDay {
    Today,
    Yesterday,
    Tomorrow,
}

/// Which occurrence of a weekday: the previous or the following one.
#[derive(Debug, PartialEq, Eq, Structural, Clone, Copy)]
pub enum Modifier {
    Last,
    Next,
}

/// Unit of a relative amount of time.
#[derive(Debug, PartialEq, Eq, Structural, Clone, Copy)]
pub enum Quantifier {
    Min,
    Hours,
    Days,
    Weeks,
    Months,
}

/// A parsed time expression, pure data: what was said, not yet what instant
/// it names.
#[derive(Debug, PartialEq, Clone, Copy)]
pub enum TimeClue {
    /// The reference instant itself.
    Now,
    /// Time without a date: "19:43:42", "8", "7pm".
    Time(HMS, Option<AMPM>),
    /// A past offset: "4 min ago".
    Relative(usize, Quantifier),
    /// last/next weekday, optionally at a time: "last friday at 12".
    RelativeDayAt(Modifier, Weekday, Option<HMS>, Option<AMPM>),
    /// A future offset: "in 4 min".
    RelativeFuture(usize, Quantifier),
    /// A weekday of the current calendar week: "monday at 4".
    SameWeekDayAt(Weekday, Option<HMS>, Option<AMPM>),
    /// today/yesterday/tomorrow, optionally at a time: "yesterday at 4".
    ShortcutDayAt(ShortcutDay, Option<HMS>, Option<AMPM>),
    /// An explicit calendar date and time: "2020-12-25T19:43:00".
    ISO(YMD, HMS),
}

/// The weekday a token names, if any.
pub open spec fn weekday_of_token(v: Seq<char>) -> Option<Weekday> {
    if v == "monday"@ || v == "mon"@ {
        Some(Weekday::Monday)
    } else if v == "tuesday"@ || v == "tue"@ {
        Some(Weekday::Tuesday)
    } else if v == "wednesday"@ || v == "wed"@ {
        Some(Weekday::Wednesday)
    } else if v == "thursday"@ || v == "thu"@ {
        Some(Weekday::Thursday)
    } else if v == "friday"@ || v == "fri"@ {
        Some(Weekday::Friday)
    } else if v == "saturday"@ || v == "sat"@ {
        Some(Weekday::Saturday)
    } else if v == "sunday"@ || v == "sun"@ {
        Some(Weekday::Sunday)
    } else {
        None
    }
}

/// The am/pm marker a token names, if any.
pub open spec fn ampm_of_token(v: Seq<char>) -> Option<AMPM> {
    if v == "am"@ {
        Some(AMPM::AM)
    } else if v == "pm"@ {
        Some(AMPM::PM)
    } else {
        None
    }
}

/// The shortcut day a token names, if any.
pub open spec fn shortcut_day_of_token(v: Seq<char>) -> Option<ShortcutDay> {
    if v == "today"@ {
        Some(ShortcutDay::Today)
    } else if v == "yesterday"@ {
        Some(ShortcutDay::Yesterday)
    } else if v == "tomorrow"@ {
        Some(ShortcutDay::Tomorrow)
    } else {
        None
    }
}

/// The modifier a token names, if any.
pub open spec fn modifier_of_token(v: Seq<char>) -> Option<Modifier> {
    if v == "last"@ {
        Some(Modifier::Last)
    } else if v == "next"@ {
        Some(Modifier::Next)
    } else {
        None
    }
}

/// The quantifier a token names, if any.
pub open spec fn quantifier_of_token(v: Seq<char>) -> Option<Quantifier> {
    if v == "min"@ {
        Some(Quantifier::Min)
    } else if v == "hours"@ || v == "hour"@ || v == "h"@ {
        Some(Quantifier::Hours)
    } else if v == "days"@ || v == "day"@ || v == "d"@ {
        Some(Quantifier::Days)
    } else if v == "weeks"@ || v == "week"@ || v == "w"@ {
        Some(Quantifier::Weeks)
    } else if v == "months"@ || v == "month"@ {
        Some(Quantifier::Months)
    } else {
        None
    }
}

/// Character-by-character string comparison, so that equality of views can be
/// concluded in contracts.
fn str_eq(a: &str, b: &str) -> (r: bool)
    ensures
        r == (a@ == b@),
{
    let la = a.unicode_len();
    let lb = b.unicode_len();
    if la != lb {
        proof {
            assert(a@ != b@) by {
                assert(a@.len() != b@.len());
            };
        }
        return false;
    }
    let mut k: usize = 0;
    while k < la
        invariant
            k <= la,
            la == a@.len(),
            la == b@.len(),
            forall|t: int| 0 <= t < k ==> a@[t] == b@[t],
        decreases la - k,
    {
        if a.get_char(k) != b.get_char(k) {
            return false;
        }
        k += 1;
    }
    proof {
        assert(a@ =~= b@);
    }
    true
}

/// Maps a weekday token to its weekday: full names and their three-letter
/// abbreviations.
pub fn weekday_from(s: &str) -> (r: Result<Weekday, ParseError>)
    ensures
        match weekday_of_token(s@) {
            Some(w) => r == Ok::<Weekday, ParseError>(w),
            None => r matches Err(ParseError::UnknownWeekday(t)) && t@ == s@,
        },
{
    if str_eq(s, "monday") || str_eq(s, "mon") {
        Ok(Weekday::Monday)
    } else if str_eq(s, "tuesday") || str_eq(s, "tue") {
        Ok(Weekday::Tuesday)
    } else if str_eq(s, "wednesday") || str_eq(s, "wed") {
        Ok(Weekday::Wednesday)
    } else if str_eq(s, "thursday") || str_eq(s, "thu") {
        Ok(Weekday::Thursday)
    } else if str_eq(s, "friday") || str_eq(s, "fri") {
        Ok(Weekday::Friday)
    } else if str_eq(s, "saturday") || str_eq(s, "sat") {
        Ok(Weekday::Saturday)
    } else if str_eq(s, "sunday") || str_eq(s, "sun") {
        Ok(Weekday::Sunday)
    } else {
        Err(ParseError::UnknownWeekday(s.to_owned()))
    }
}

/// Maps an am/pm token to its marker.
pub fn am_or_pm_from(s: &str) -> (r: Result<AMPM, ParseError>)
    ensures
        match ampm_of_token(s@) {
            Some(a) => r == Ok::<AMPM, ParseError>(a),
            None => r matches Err(ParseError::UnknownAMPM(t)) && t@ == s@,
        },
{
    if str_eq(s, "am") {
        Ok(AMPM::AM)
    } else if str_eq(s, "pm") {
        Ok(AMPM::PM)
    } else {
        Err(ParseError::UnknownAMPM(s.to_owned()))
    }
}

/// Maps a shortcut-day token to its day.
pub fn shortcut_day_from(s: &str) -> (r: Result<ShortcutDay, ParseError>)
    ensures
        match shortcut_day_of_token(s@) {
            Some(d) => r == Ok::<ShortcutDay, ParseError>(d),
            None => r matches Err(ParseError::UnknownShortcutDay(t)) && t@ == s@,
        },
{
    if str_eq(s, "today") {
        Ok(ShortcutDay::Today)
    } else if str_eq(s, "yesterday") {
        Ok(ShortcutDay::Yesterday)
    } else if str_eq(s, "tomorrow") {
        Ok(ShortcutDay::Tomorrow)
    } else {
        Err(ParseError::UnknownShortcutDay(s.to_owned()))
    }
}

/// Maps a modifier token to its modifier.
pub fn modifier_from(s: &str) -> (r: Result<Modifier, ParseError>)
    ensures
        match modifier_of_token(s@) {
            Some(m) => r == Ok::<Modifier, ParseError>(m),
            None => r matches Err(ParseError::UnknownModifier(t)) && t@ == s@,
        },
{
    if str_eq(s, "last") {
        Ok(Modifier::Last)
    } else if str_eq(s, "next") {
        Ok(Modifier::Next)
    } else {
        Err(ParseError::UnknownModifier(s.to_owned()))
    }
}

/// Maps a quantifier token to its unit: full names, plurals, and one-letter
/// abbreviations.
pub fn quantifier_from(s: &str) -> (r: Result<Quantifier, ParseError>)
    ensures
        match quantifier_of_token(s@) {
            Some(q) => r == Ok::<Quantifier, ParseError>(q),
            None => r matches Err(ParseError::UnknownQuantifier(t)) && t@ == s@,
        },
{
    if str_eq(s, "min") {
        Ok(Quantifier::Min)
    } else if str_eq(s, "hours") || str_eq(s, "hour") || str_eq(s, "h") {
        Ok(Quantifier::Hours)
    } else if str_eq(s, "days") || str_eq(s, "day") || str_eq(s, "d") {
        Ok(Quantifier::Days)
    } else if str_eq(s, "weeks") || str_eq(s, "week") || str_eq(s, "w") {
        Ok(Quantifier::Weeks)
    } else if str_eq(s, "months") || str_eq(s, "month") {
        Ok(Quantifier::Months)
    } else {
        Err(ParseError::UnknownQuantifier(s.to_owned()))
    }
}


/// How an executable parse result realizes a parse outcome: the clue itself,
/// a grammar mismatch, or the typed error carrying the offending token of
/// the input.
pub open spec fn outcome_to_result(
    sv: Seq<char>,
    o: SOutcome,
    r: Result<TimeClue, ParseError>,
) -> bool {
    match o {
        SOutcome::Mismatch => r == Err::<TimeClue, ParseError>(ParseError::GrammarMismatch),
        SOutcome::BadAmPm { a, b } => r matches Err(ParseError::UnknownAMPM(t)) && t@
            == sv.subrange(a, b),
        SOutcome::IntTooBig { a, b } => r matches Err(ParseError::ParseInt(t)) && t@
            == sv.subrange(a, b),
        SOutcome::Clue(c) => r == Ok::<TimeClue, ParseError>(c),
    }
}

/// What parsing the characters of an input comes to: the grammar runs on
/// their lowercased bytes.
pub open spec fn spec_parse(sv: Seq<char>) -> SOutcome {
    s_outcome(lower_seq(chars_as_bytes(sv)))
}

/// Converts an am/pm span: the marker it names, or the unknown-token error
/// carrying that span of the input.
fn conv_ampm_x(s: &str, low: &[u8], ap: Option<(usize, usize)>) -> (r: Result<
    Option<AMPM>,
    ParseError,
>)
    requires
        s.is_ascii(),
        low@.len() == s@.len(),
        ap matches Some(sp) ==> sp.0 + 2 == sp.1 && sp.1 <= low@.len(),
    ensures
        match s_conv_ampm(low@, span_view(ap)) {
            Ok(m) => r == Ok::<Option<AMPM>, ParseError>(m),
            Err((a, b)) => r matches Err(ParseError::UnknownAMPM(t)) && t@ == s@.subrange(a, b),
        },
{
    match ap {
        None => Ok(None),
        Some((a, b)) => {
            if let Some(_) = eat_kw(low, a, "am") {
                Ok(Some(AMPM::AM))
            } else if let Some(_) = eat_kw(low, a, "pm") {
                Ok(Some(AMPM::PM))
            } else {
                Err(ParseError::UnknownAMPM(s.substring_ascii(a, b).to_owned()))
            }
        },
    }
}

/// Converts a raw clock time: its fields and marker, or the unknown-am/pm
/// error.
fn conv_time_x(s: &str, low: &[u8], t: ETime) -> (r: Result<(HMS, Option<AMPM>), ParseError>)
    requires
        s.is_ascii(),
        low@.len() == s@.len(),
        etime_wf(t, low@),
    ensures
        match s_conv_time(low@, time_view(t)) {
            Ok(v) => r == Ok::<(HMS, Option<AMPM>), ParseError>(v),
            Err((a, b)) => r matches Err(ParseError::UnknownAMPM(tok)) && tok@ == s@.subrange(
                a,
                b,
            ),
        },
{
    match conv_ampm_x(s, low, t.ap) {
        Ok(ap) => Ok(((t.h, t.m, t.s), ap)),
        Err(e) => Err(e),
    }
}

/// Converts a recognized raw phrase into its time clue, or into the typed
/// error its tokens provoke.
fn convert_x(s: &str, low: &[u8], raw: ERaw) -> (r: Result<TimeClue, ParseError>)
    requires
        s.is_ascii(),
        low@.len() == s@.len(),
        raw_wf(raw, low@),
    ensures
        outcome_to_result(s@, s_convert(low@, raw_view(raw)), r),
{
    match raw {
        ERaw::RNow => Ok(TimeClue::Now),
        ERaw::RTime(t) => match conv_time_x(s, low, t) {
            Ok((hms, ap)) => Ok(TimeClue::Time(hms, ap)),
            Err(e) => Err(e),
        },
        ERaw::RRel { a, b, q } => match parse_usize(low, a, b) {
            Some(n) => Ok(TimeClue::Relative(n, q)),
            None => Err(ParseError::ParseInt(s.substring_ascii(a, b).to_owned())),
        },
        ERaw::RFut { a, b, q } => match parse_usize(low, a, b) {
            Some(n) => Ok(TimeClue::RelativeFuture(n, q)),
            None => Err(ParseError::ParseInt(s.substring_ascii(a, b).to_owned())),
        },
        ERaw::RDay(d) => {
            let conv: Result<(Option<HMS>, Option<AMPM>), ParseError> = match d.t {
                None => Ok((None, None)),
                Some(t) => match conv_time_x(s, low, t) {
                    Ok((hms, ap)) => Ok((Some(hms), ap)),
                    Err(e) => Err(e),
                },
            };
            match conv {
                Err(e) => Err(e),
                Ok((hms_maybe, ap)) => match d.kind {
                    SDayKind::ModWeekday(md, w) => Ok(TimeClue::RelativeDayAt(md, w, hms_maybe, ap)),
                    SDayKind::SameWeekday(w) => Ok(TimeClue::SameWeekDayAt(w, hms_maybe, ap)),
                    SDayKind::Shortcut(dd) => Ok(TimeClue::ShortcutDayAt(dd, hms_maybe, ap)),
                },
            }
        },
        ERaw::RIso { y, mo, d, h, mi, s: sec } => Ok(TimeClue::ISO((y, mo, d), (h, mi, sec))),
    }
}

/// The grammar engine: recognizes one phrase and yields its time clue.
pub struct TimeParser;

impl TimeParser {
    /// Parses one phrase. The grammar reads the lowercased bytes of the
    /// input, so matching is case-insensitive; an input with any character
    /// beyond ASCII matches no production.
    pub fn parse(s: &str) -> (r: Result<TimeClue, ParseError>)
        ensures
            s.is_ascii() ==> outcome_to_result(s@, spec_parse(s@), r),
            !s.is_ascii() ==> r == Err::<TimeClue, ParseError>(ParseError::GrammarMismatch),
    {
        if !s.is_ascii() {
            return Err(ParseError::GrammarMismatch);
        }
        let bytes: &[u8] = s.as_bytes();
        proof {
            broadcast use vstd::string::is_ascii_spec_bytes;

            assert(bytes@ =~= chars_as_bytes(s@));
        }
        let low_v = to_lower_x(bytes);
        let low: &[u8] = low_v.as_slice();
        match raw_x(low) {
            None => Err(ParseError::GrammarMismatch),
            Some((raw, e)) => {
                let e2 = skip_ws_x(low, e);
                if e2 != low.len() {
                    Err(ParseError::GrammarMismatch)
                } else {
                    convert_x(s, low, raw)
                }
            },
        }
    }
}

/// Parses a time clue from `s`. Prefer the crate-level entry points when the
/// goal is a concrete instant; this is for callers wanting to inspect or
/// re-evaluate the parsed structure themselves.
pub fn parse_time_clue_from_str(s: &str) -> (r: Result<TimeClue, ParseError>)
    ensures
        s.is_ascii() ==> outcome_to_result(s@, spec_parse(s@), r),
        !s.is_ascii() ==> r == Err::<TimeClue, ParseError>(ParseError::GrammarMismatch),
{
    TimeParser::parse(s)
}

} // verus!
