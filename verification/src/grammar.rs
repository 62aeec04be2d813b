//! The surface grammar of time phrases.
//!
//! The grammar works on the lowercased bytes of the input. Tokens may be
//! separated by any number of spaces, including none, so "2 min ago",
//! "2min ago" and "2minago" read the same. The productions, tried in
//! order, are:
//!
//! - `now`
//! - a count, a unit and `ago` ("2 min ago")
//! - `in`, a count and a unit ("in 2 min")
//! - an ISO date-time: four-digit year, `-`, month, `-`, day, `t`, clock
//!   time ("2020-12-25T19:43:42", seconds and minutes optional)
//! - a date: day, `/` or `-`, month, `/` or `-`, four-digit year
//! - a day phrase: `last`/`next` weekday, a bare weekday, or
//!   today/yesterday/tomorrow, each optionally followed by `at` and a clock
//!   time
//! - a clock time: one or two digit hour, optional `:` minutes and `:`
//!   seconds, optional two-letter am/pm token ("9:30", "7pm")
//!
//! A production must consume the whole input (trailing spaces aside) to
//! count as a match; everything else is a grammar mismatch. The functions
//! named `sp_*` are the specification of the grammar; each executable
//! function is proved to return exactly what its specification says.
//!
//! Matching is positional and produces a raw phrase first — numbers as
//! spans, the am/pm token as a span — and the raw phrase is converted to a
//! [`crate::parser::TimeClue`] afterwards, which is where an overlarge
//! count or an unknown am/pm token is reported.

use vstd::prelude::*;
use crate::parser::{Modifier, Quantifier, ShortcutDay, TimeClue};
use crate::unified::Weekday;

verus! {

/// A space, the one whitespace byte the grammar skips between tokens.
pub open spec fn is_space(c: u8) -> bool {
    c == 32
}

/// An ASCII digit.
pub open spec fn is_digit(c: u8) -> bool {
    48 <= c <= 57
}

/// A lowercase ASCII letter (the input is lowercased before matching).
pub open spec fn is_alpha(c: u8) -> bool {
    97 <= c <= 122
}

/// The byte with any uppercase ASCII letter lowercased.
pub open spec fn lower_byte(c: u8) -> u8 {
    if 65 <= c <= 90 {
        (c + 32) as u8
    } else {
        c
    }
}

/// The sequence with every byte lowercased.
pub open spec fn lower_seq(s: Seq<u8>) -> Seq<u8> {
    s.map(|k: int, c: u8| lower_byte(c))
}

/// The bytes of a sequence of ASCII characters.
pub open spec fn chars_as_bytes(sv: Seq<char>) -> Seq<u8> {
    Seq::new(sv.len(), |k: int| sv[k] as u8)
}

/// First position at or after `i` holding no space, up to the length.
pub open spec fn skip_ws(s: Seq<u8>, i: int) -> int
    decreases s.len() - i,
{
    if 0 <= i < s.len() && is_space(s[i]) {
        skip_ws(s, i + 1)
    } else {
        i
    }
}

/// End of the run of digits starting at `i`: the first position at or after
/// `i` holding no digit.
pub open spec fn digits_end(s: Seq<u8>, i: int) -> int
    decreases s.len() - i,
{
    if 0 <= i < s.len() && is_digit(s[i]) {
        digits_end(s, i + 1)
    } else {
        i
    }
}

pub proof fn lemma_digits_end_props(s: Seq<u8>, i: int)
    requires
        0 <= i <= s.len(),
    ensures
        i <= digits_end(s, i) <= s.len(),
        forall|k: int| i <= k < digits_end(s, i) ==> is_digit(s[k]),
        digits_end(s, i) < s.len() ==> !is_digit(s[digits_end(s, i)]),
    decreases s.len() - i,
{
    if i < s.len() && is_digit(s[i]) {
        lemma_digits_end_props(s, i + 1);
    }
}

/// Value of the decimal digits in positions `i` up to `j`.
pub open spec fn val(s: Seq<u8>, i: int, j: int) -> int
    decreases j - i,
{
    if j <= i {
        0
    } else {
        val(s, i, j - 1) * 10 + (s[j - 1] - 48)
    }
}

pub proof fn lemma_val_nonneg(s: Seq<u8>, i: int, j: int)
    requires
        forall|k: int| i <= k < j ==> is_digit(s[k]),
        0 <= i,
        j <= s.len(),
    ensures
        0 <= val(s, i, j),
    decreases j - i,
{
    if i < j {
        lemma_val_nonneg(s, i, j - 1);
    }
}

/// Whether the characters of `kw` occur, as bytes, in `s` at `i`: each byte
/// must equal the character's code point, so only ASCII characters can
/// match at all.
pub open spec fn lit_at(s: Seq<u8>, i: int, kw: Seq<char>) -> bool {
    &&& 0 <= i
    &&& i + kw.len() <= s.len()
    &&& forall|k: int| 0 <= k < kw.len() ==> s[i + k] as u32 == kw[k] as u32
}

/// A raw clock time: hour, minute and second values, and the span of the
/// am/pm token if one was given.
pub struct STime {
    pub h: int,
    pub m: int,
    pub s: int,
    pub ap: Option<(int, int)>,
}

/// The head of a day phrase.
pub enum SDayKind {
    ModWeekday(Modifier, Weekday),
    SameWeekday(Weekday),
    Shortcut(ShortcutDay),
}

/// A raw day phrase: its head and its optional clock time.
pub struct SDayAt {
    pub kind: SDayKind,
    pub t: Option<STime>,
}

/// A raw phrase as the grammar recognizes it, before conversion: counts are
/// kept as spans of the input.
pub enum SRaw {
    RNow,
    RTime(STime),
    RRel { a: int, b: int, q: Quantifier },
    RFut { a: int, b: int, q: Quantifier },
    RDay(SDayAt),
    RIso { y: int, mo: int, d: int, h: int, mi: int, s: int },
}

/// What parsing an input comes to.
pub enum SOutcome {
    /// No production matches the whole input.
    Mismatch,
    /// The phrase matched, but the two-letter token in am/pm position, at
    /// this span of the input, is neither "am" nor "pm".
    BadAmPm { a: int, b: int },
    /// The phrase matched, but the count at this span of the input does not
    /// fit the count type.
    IntTooBig { a: int, b: int },
    /// The phrase parses to this time clue.
    Clue(TimeClue),
}

/// A number token of one or two digits: its value and its end.
pub open spec fn sp_num2(s: Seq<u8>, i: int) -> Option<(int, int)> {
    let e = digits_end(s, i);
    if i < e && e - i <= 2 {
        Some((val(s, i, e), e))
    } else {
        None
    }
}

/// `:` followed by a one or two digit number, spaces allowed around the
/// colon.
pub open spec fn sp_colon_num(s: Seq<u8>, i: int) -> Option<(int, int)> {
    let c = skip_ws(s, i);
    if c < s.len() && s[c] == 58 {
        sp_num2(s, skip_ws(s, c + 1))
    } else {
        None
    }
}

/// A two-letter token in am/pm position: its span.
pub open spec fn sp_ampm_tok(s: Seq<u8>, i: int) -> Option<(int, int)> {
    let a = skip_ws(s, i);
    if a + 2 <= s.len() && is_alpha(s[a]) && is_alpha(s[a + 1]) {
        Some((a, a + 2))
    } else {
        None
    }
}

/// The end of a clock time: its values so far and the optional two-letter
/// am/pm token.
pub open spec fn sp_time_fin(s: Seq<u8>, h: int, m: int, sec: int, i2: int) -> Option<
    (STime, int),
> {
    match sp_ampm_tok(s, i2) {
        None => Some((STime { h, m, s: sec, ap: None }, i2)),
        Some((a, b)) => Some((STime { h, m, s: sec, ap: Some((a, b)) }, b)),
    }
}

/// A clock time: hour, optional `:` minutes and `:` seconds, optional
/// two-letter am/pm token. Minutes and seconds default to zero.
pub open spec fn sp_time(s: Seq<u8>, i: int) -> Option<(STime, int)> {
    match sp_num2(s, i) {
        None => None,
        Some((h, i1)) => match sp_colon_num(s, i1) {
            None => sp_time_fin(s, h, 0, 0, i1),
            Some((m, im)) => match sp_colon_num(s, im) {
                None => sp_time_fin(s, h, m, 0, im),
                Some((sec, ise)) => sp_time_fin(s, h, m, sec, ise),
            },
        },
    }
}

/// A clock time with no am/pm position, as it occurs inside an ISO
/// date-time.
pub open spec fn sp_time_no_ampm(s: Seq<u8>, i: int) -> Option<(int, int, int, int)> {
    match sp_num2(s, i) {
        None => None,
        Some((h, i1)) => match sp_colon_num(s, i1) {
            None => Some((h, 0, 0, i1)),
            Some((m, im)) => match sp_colon_num(s, im) {
                None => Some((h, m, 0, im)),
                Some((sec, ise)) => Some((h, m, sec, ise)),
            },
        },
    }
}

/// A weekday name, full or three-letter; longer names are tried first.
pub open spec fn sp_weekday(s: Seq<u8>, i: int) -> Option<(Weekday, int)> {
    if lit_at(s, i, "monday"@) {
        Some((Weekday::Monday, i + "monday"@.len()))
    } else if lit_at(s, i, "mon"@) {
        Some((Weekday::Monday, i + "mon"@.len()))
    } else if lit_at(s, i, "tuesday"@) {
        Some((Weekday::Tuesday, i + "tuesday"@.len()))
    } else if lit_at(s, i, "tue"@) {
        Some((Weekday::Tuesday, i + "tue"@.len()))
    } else if lit_at(s, i, "wednesday"@) {
        Some((Weekday::Wednesday, i + "wednesday"@.len()))
    } else if lit_at(s, i, "wed"@) {
        Some((Weekday::Wednesday, i + "wed"@.len()))
    } else if lit_at(s, i, "thursday"@) {
        Some((Weekday::Thursday, i + "thursday"@.len()))
    } else if lit_at(s, i, "thu"@) {
        Some((Weekday::Thursday, i + "thu"@.len()))
    } else if lit_at(s, i, "friday"@) {
        Some((Weekday::Friday, i + "friday"@.len()))
    } else if lit_at(s, i, "fri"@) {
        Some((Weekday::Friday, i + "fri"@.len()))
    } else if lit_at(s, i, "saturday"@) {
        Some((Weekday::Saturday, i + "saturday"@.len()))
    } else if lit_at(s, i, "sat"@) {
        Some((Weekday::Saturday, i + "sat"@.len()))
    } else if lit_at(s, i, "sunday"@) {
        Some((Weekday::Sunday, i + "sunday"@.len()))
    } else if lit_at(s, i, "sun"@) {
        Some((Weekday::Sunday, i + "sun"@.len()))
    } else {
        None
    }
}

/// A unit name; longer names are tried first.
pub open spec fn sp_quantifier(s: Seq<u8>, i: int) -> Option<(Quantifier, int)> {
    if lit_at(s, i, "months"@) {
        Some((Quantifier::Months, i + "months"@.len()))
    } else if lit_at(s, i, "month"@) {
        Some((Quantifier::Months, i + "month"@.len()))
    } else if lit_at(s, i, "min"@) {
        Some((Quantifier::Min, i + "min"@.len()))
    } else if lit_at(s, i, "hours"@) {
        Some((Quantifier::Hours, i + "hours"@.len()))
    } else if lit_at(s, i, "hour"@) {
        Some((Quantifier::Hours, i + "hour"@.len()))
    } else if lit_at(s, i, "h"@) {
        Some((Quantifier::Hours, i + "h"@.len()))
    } else if lit_at(s, i, "days"@) {
        Some((Quantifier::Days, i + "days"@.len()))
    } else if lit_at(s, i, "day"@) {
        Some((Quantifier::Days, i + "day"@.len()))
    } else if lit_at(s, i, "d"@) {
        Some((Quantifier::Days, i + "d"@.len()))
    } else if lit_at(s, i, "weeks"@) {
        Some((Quantifier::Weeks, i + "weeks"@.len()))
    } else if lit_at(s, i, "week"@) {
        Some((Quantifier::Weeks, i + "week"@.len()))
    } else if lit_at(s, i, "w"@) {
        Some((Quantifier::Weeks, i + "w"@.len()))
    } else {
        None
    }
}

/// `last` or `next`.
pub open spec fn sp_modifier(s: Seq<u8>, i: int) -> Option<(Modifier, int)> {
    if lit_at(s, i, "last"@) {
        Some((Modifier::Last, i + "last"@.len()))
    } else if lit_at(s, i, "next"@) {
        Some((Modifier::Next, i + "next"@.len()))
    } else {
        None
    }
}

/// `today`, `yesterday` or `tomorrow`.
pub open spec fn sp_shortcut(s: Seq<u8>, i: int) -> Option<(ShortcutDay, int)> {
    if lit_at(s, i, "today"@) {
        Some((ShortcutDay::Today, i + "today"@.len()))
    } else if lit_at(s, i, "yesterday"@) {
        Some((ShortcutDay::Yesterday, i + "yesterday"@.len()))
    } else if lit_at(s, i, "tomorrow"@) {
        Some((ShortcutDay::Tomorrow, i + "tomorrow"@.len()))
    } else {
        None
    }
}

/// A count, a unit and `ago`.
pub open spec fn sp_relative(s: Seq<u8>, i: int) -> Option<(SRaw, int)> {
    let e = digits_end(s, i);
    if i < e {
        match sp_quantifier(s, skip_ws(s, e)) {
            None => None,
            Some((q, j)) => {
                let k = skip_ws(s, j);
                if lit_at(s, k, "ago"@) {
                    Some((SRaw::RRel { a: i, b: e, q }, k + "ago"@.len()))
                } else {
                    None
                }
            },
        }
    } else {
        None
    }
}

/// `in`, a count and a unit.
pub open spec fn sp_relative_future(s: Seq<u8>, i: int) -> Option<(SRaw, int)> {
    if lit_at(s, i, "in"@) {
        let a = skip_ws(s, i + "in"@.len());
        let e = digits_end(s, a);
        if a < e {
            match sp_quantifier(s, skip_ws(s, e)) {
                None => None,
                Some((q, j)) => Some((SRaw::RFut { a, b: e, q }, j)),
            }
        } else {
            None
        }
    } else {
        None
    }
}

/// A day phrase: modified weekday, bare weekday or shortcut day, then
/// optionally `at` and a clock time. When `at` appears but no clock time
/// follows, the phrase ends before the `at`.
pub open spec fn sp_day_at(s: Seq<u8>, i: int) -> Option<(SRaw, int)> {
    let head: Option<(SDayKind, int)> = match sp_modifier(s, i) {
        Some((md, j)) => match sp_weekday(s, skip_ws(s, j)) {
            Some((w, k)) => Some((SDayKind::ModWeekday(md, w), k)),
            None => None,
        },
        None => match sp_weekday(s, i) {
            Some((w, j)) => Some((SDayKind::SameWeekday(w), j)),
            None => match sp_shortcut(s, i) {
                Some((d, j)) => Some((SDayKind::Shortcut(d), j)),
                None => None,
            },
        },
    };
    match head {
        None => None,
        Some((kind, j)) => {
            let k = skip_ws(s, j);
            let at_time: Option<(STime, int)> = if lit_at(s, k, "at"@) {
                sp_time(s, skip_ws(s, k + "at"@.len()))
            } else {
                None
            };
            match at_time {
                Some((t, e)) => Some((SRaw::RDay(SDayAt { kind, t: Some(t) }), e)),
                None => Some((SRaw::RDay(SDayAt { kind, t: None }), j)),
            }
        },
    }
}

/// An ISO date-time: four-digit year, `-`, month, `-`, day, `t`, clock
/// time.
pub open spec fn sp_iso(s: Seq<u8>, i: int) -> Option<(SRaw, int)> {
    let e = digits_end(s, i);
    if e - i == 4 {
        let j1 = skip_ws(s, e);
        if j1 < s.len() && s[j1] == 45 {
            match sp_num2(s, skip_ws(s, j1 + 1)) {
                None => None,
                Some((mo, j2)) => {
                    let j3 = skip_ws(s, j2);
                    if j3 < s.len() && s[j3] == 45 {
                        match sp_num2(s, skip_ws(s, j3 + 1)) {
                            None => None,
                            Some((d, j4)) => {
                                let j5 = skip_ws(s, j4);
                                if j5 < s.len() && s[j5] == 116 {
                                    match sp_time_no_ampm(s, skip_ws(s, j5 + 1)) {
                                        None => None,
                                        Some((h, mi, sec, j6)) => Some(
                                            (
                                                SRaw::RIso {
                                                    y: val(s, i, e),
                                                    mo,
                                                    d,
                                                    h,
                                                    mi,
                                                    s: sec,
                                                },
                                                j6,
                                            ),
                                        ),
                                    }
                                } else {
                                    None
                                }
                            },
                        }
                    } else {
                        None
                    }
                },
            }
        } else {
            None
        }
    } else {
        None
    }
}

/// A date alone: day, `/` or `-`, month, `/` or `-`, four-digit year. The
/// clock time defaults to midnight.
pub open spec fn sp_date(s: Seq<u8>, i: int) -> Option<(SRaw, int)> {
    match sp_num2(s, i) {
        None => None,
        Some((d, j1)) => {
            let k1 = skip_ws(s, j1);
            if k1 < s.len() && (s[k1] == 45 || s[k1] == 47) {
                match sp_num2(s, skip_ws(s, k1 + 1)) {
                    None => None,
                    Some((mo, j2)) => {
                        let k2 = skip_ws(s, j2);
                        if k2 < s.len() && (s[k2] == 45 || s[k2] == 47) {
                            let a = skip_ws(s, k2 + 1);
                            let e = digits_end(s, a);
                            if e - a == 4 {
                                Some(
                                    (
                                        SRaw::RIso {
                                            y: val(s, a, e),
                                            mo,
                                            d,
                                            h: 0,
                                            mi: 0,
                                            s: 0,
                                        },
                                        e,
                                    ),
                                )
                            } else {
                                None
                            }
                        } else {
                            None
                        }
                    },
                }
            } else {
                None
            }
        },
    }
}

/// The whole grammar: leading spaces, then the first production that
/// matches, in this order. A production that matches decides the parse;
/// later productions are not tried even if the match then fails to reach
/// the end of the input.
pub open spec fn sp_raw(s: Seq<u8>) -> Option<(SRaw, int)> {
    let i = skip_ws(s, 0);
    if lit_at(s, i, "now"@) {
        Some((SRaw::RNow, i + "now"@.len()))
    } else {
        match sp_relative(s, i) {
            Some(r) => Some(r),
            None => match sp_relative_future(s, i) {
                Some(r) => Some(r),
                None => match sp_iso(s, i) {
                    Some(r) => Some(r),
                    None => match sp_date(s, i) {
                        Some(r) => Some(r),
                        None => match sp_day_at(s, i) {
                            Some(r) => Some(r),
                            None => match sp_time(s, i) {
                                Some((t, e)) => Some((SRaw::RTime(t), e)),
                                None => None,
                            },
                        },
                    },
                },
            },
        }
    }
}

/// The am/pm marker of a converted span: `am`, `pm`, or the offending span.
pub open spec fn s_conv_ampm(s: Seq<u8>, ap: Option<(int, int)>) -> Result<
    Option<crate::parser::AMPM>,
    (int, int),
> {
    match ap {
        None => Ok(None),
        Some((a, b)) => if lit_at(s, a, "am"@) {
            Ok(Some(crate::parser::AMPM::AM))
        } else if lit_at(s, a, "pm"@) {
            Ok(Some(crate::parser::AMPM::PM))
        } else {
            Err((a, b))
        },
    }
}

/// A raw clock time converted: its fields as numbers and its marker, or
/// the span of a bad am/pm token.
pub open spec fn s_conv_time(s: Seq<u8>, t: STime) -> Result<
    ((u32, u32, u32), Option<crate::parser::AMPM>),
    (int, int),
> {
    match s_conv_ampm(s, t.ap) {
        Ok(ap) => Ok(((t.h as u32, t.m as u32, t.s as u32), ap)),
        Err(sp) => Err(sp),
    }
}

/// Conversion of a recognized raw phrase into a time clue, or into the
/// typed error its tokens provoke.
pub open spec fn s_convert(s: Seq<u8>, raw: SRaw) -> SOutcome {
    match raw {
        SRaw::RNow => SOutcome::Clue(TimeClue::Now),
        SRaw::RTime(t) => match s_conv_time(s, t) {
            Ok((hms, ap)) => SOutcome::Clue(TimeClue::Time(hms, ap)),
            Err((a, b)) => SOutcome::BadAmPm { a, b },
        },
        SRaw::RRel { a, b, q } => if val(s, a, b) > usize::MAX {
            SOutcome::IntTooBig { a, b }
        } else {
            SOutcome::Clue(TimeClue::Relative(val(s, a, b) as usize, q))
        },
        SRaw::RFut { a, b, q } => if val(s, a, b) > usize::MAX {
            SOutcome::IntTooBig { a, b }
        } else {
            SOutcome::Clue(TimeClue::RelativeFuture(val(s, a, b) as usize, q))
        },
        SRaw::RDay(dat) => {
            let conv: Result<(Option<(u32, u32, u32)>, Option<crate::parser::AMPM>), (int, int)> =
                match dat.t {
                None => Ok((None, None)),
                Some(t) => match s_conv_time(s, t) {
                    Ok((hms, ap)) => Ok((Some(hms), ap)),
                    Err(sp) => Err(sp),
                },
            };
            match conv {
                Err((a, b)) => SOutcome::BadAmPm { a, b },
                Ok((hms_maybe, ap)) => match dat.kind {
                    SDayKind::ModWeekday(md, w) => SOutcome::Clue(
                        TimeClue::RelativeDayAt(md, w, hms_maybe, ap),
                    ),
                    SDayKind::SameWeekday(w) => SOutcome::Clue(
                        TimeClue::SameWeekDayAt(w, hms_maybe, ap),
                    ),
                    SDayKind::Shortcut(d) => SOutcome::Clue(
                        TimeClue::ShortcutDayAt(d, hms_maybe, ap),
                    ),
                },
            }
        },
        SRaw::RIso { y, mo, d, h, mi, s: sec } => SOutcome::Clue(
            TimeClue::ISO((y as i32, mo as u32, d as u32), (h as u32, mi as u32, sec as u32)),
        ),
    }
}

/// What parsing the lowercased bytes of an input comes to: the first
/// matching production must reach the end of the input, and only then are
/// its tokens converted.
pub open spec fn s_outcome(s: Seq<u8>) -> SOutcome {
    match sp_raw(s) {
        None => SOutcome::Mismatch,
        Some((raw, e)) => if skip_ws(s, e) != s.len() {
            SOutcome::Mismatch
        } else {
            s_convert(s, raw)
        },
    }
}


// ---------------------------------------------------------------------------
// Executable matching. Each function below is proved to return exactly what
// the corresponding `sp_*` specification says of its input.
// ---------------------------------------------------------------------------

/// A raw clock time as executable data: values and the am/pm span.
pub(crate) struct ETime {
    pub h: u32,
    pub m: u32,
    pub s: u32,
    pub ap: Option<(usize, usize)>,
}

/// A raw day phrase as executable data.
pub(crate) struct EDayAt {
    pub kind: SDayKind,
    pub t: Option<ETime>,
}

/// A raw phrase as executable data: counts as spans into the input.
pub(crate) enum ERaw {
    RNow,
    RTime(ETime),
    RRel { a: usize, b: usize, q: Quantifier },
    RFut { a: usize, b: usize, q: Quantifier },
    RDay(EDayAt),
    RIso { y: i32, mo: u32, d: u32, h: u32, mi: u32, s: u32 },
}

/// The specification value of an optional executable span.
pub(crate) open spec fn span_view(ap: Option<(usize, usize)>) -> Option<(int, int)> {
    match ap {
        None => None,
        Some((a, b)) => Some((a as int, b as int)),
    }
}

/// The specification value an executable raw clock time stands for.
pub(crate) open spec fn time_view(t: ETime) -> STime {
    STime {
        h: t.h as int,
        m: t.m as int,
        s: t.s as int,
        ap: span_view(t.ap),
    }
}

/// The specification value an executable raw phrase stands for.
pub(crate) open spec fn raw_view(e: ERaw) -> SRaw {
    match e {
        ERaw::RNow => SRaw::RNow,
        ERaw::RTime(t) => SRaw::RTime(time_view(t)),
        ERaw::RRel { a, b, q } => SRaw::RRel { a: a as int, b: b as int, q },
        ERaw::RFut { a, b, q } => SRaw::RFut { a: a as int, b: b as int, q },
        ERaw::RDay(d) => SRaw::RDay(
            SDayAt {
                kind: d.kind,
                t: match d.t {
                    None => None,
                    Some(t) => Some(time_view(t)),
                },
            },
        ),
        ERaw::RIso { y, mo, d, h, mi, s } => SRaw::RIso {
            y: y as int,
            mo: mo as int,
            d: d as int,
            h: h as int,
            mi: mi as int,
            s: s as int,
        },
    }
}

/// The span bounds an executable raw clock time carries into conversion.
pub(crate) open spec fn etime_wf(t: ETime, s: Seq<u8>) -> bool {
    match t.ap {
        None => true,
        Some((a, b)) => a + 2 == b && b <= s.len(),
    }
}

/// The span bounds an executable raw phrase carries into conversion.
pub(crate) open spec fn raw_wf(e: ERaw, s: Seq<u8>) -> bool {
    match e {
        ERaw::RNow => true,
        ERaw::RTime(t) => etime_wf(t, s),
        ERaw::RRel { a, b, q } => a < b <= s.len() && (forall|k: int|
            a <= k < b ==> is_digit(s[k])),
        ERaw::RFut { a, b, q } => a < b <= s.len() && (forall|k: int|
            a <= k < b ==> is_digit(s[k])),
        ERaw::RDay(d) => match d.t {
            None => true,
            Some(t) => etime_wf(t, s),
        },
        ERaw::RIso { .. } => true,
    }
}

/// First position at or after `i` holding no space.
pub(crate) fn skip_ws_x(s: &[u8], i: usize) -> (j: usize)
    requires
        i <= s@.len(),
    ensures
        j == skip_ws(s@, i as int),
        i <= j <= s@.len(),
{
    let mut j = i;
    while j < s.len() && s[j] == 32
        invariant
            i <= j <= s@.len(),
            skip_ws(s@, i as int) == skip_ws(s@, j as int),
        decreases s@.len() - j,
    {
        j += 1;
    }
    j
}

/// End of the run of digits starting at `i`.
pub(crate) fn digits_end_x(s: &[u8], i: usize) -> (j: usize)
    requires
        i <= s@.len(),
    ensures
        j == digits_end(s@, i as int),
        i <= j <= s@.len(),
{
    let mut j = i;
    while j < s.len() && 48 <= s[j] && s[j] <= 57
        invariant
            i <= j <= s@.len(),
            digits_end(s@, i as int) == digits_end(s@, j as int),
        decreases s@.len() - j,
    {
        j += 1;
    }
    j
}

/// Matches the characters of `kw` at position `i`.
pub(crate) fn eat_kw(s: &[u8], i: usize, kw: &str) -> (r: Option<usize>)
    requires
        i <= s@.len(),
    ensures
        match r {
            Some(j) => lit_at(s@, i as int, kw@) && j == i + kw@.len() && i <= j <= s@.len(),
            None => !lit_at(s@, i as int, kw@),
        },
{
    let n = kw.unicode_len();
    if s.len() - i < n {
        return None;
    }
    let sl = s.len();
    let mut k: usize = 0;
    while k < n
        invariant
            i + n <= sl,
            sl == s@.len(),
            k <= n,
            n == kw@.len(),
            forall|t: int| 0 <= t < k ==> s@[i + t] as u32 == kw@[t] as u32,
        decreases n - k,
    {
        let c = kw.get_char(k);
        if s[i + k] as u32 != c as u32 {
            return None;
        }
        k += 1;
    }
    Some(i + n)
}

/// A number token of one or two digits.
pub(crate) fn num2_x(s: &[u8], i: usize) -> (r: Option<(u32, usize)>)
    requires
        i <= s@.len(),
    ensures
        match r {
            Some((v, j)) => sp_num2(s@, i as int) == Some((v as int, j as int)) && i < j
                <= s@.len() && v <= 99,
            None => sp_num2(s@, i as int) is None,
        },
{
    let e = digits_end_x(s, i);
    proof {
        lemma_digits_end_props(s@, i as int);
    }
    if i < e && e - i <= 2 {
        let v: u32 = if e - i == 1 {
            (s[i] - 48) as u32
        } else {
            (s[i] - 48) as u32 * 10 + (s[i + 1] - 48) as u32
        };
        proof {
            assert(val(s@, i as int, i as int) == 0);
            assert(val(s@, i as int, i as int + 1) == s@[i as int] - 48);
        }
        Some((v, e))
    } else {
        None
    }
}

/// A number token of exactly four digits.
pub(crate) fn num4_x(s: &[u8], i: usize) -> (r: Option<(u32, usize)>)
    requires
        i <= s@.len(),
    ensures
        match r {
            Some((v, j)) => j == digits_end(s@, i as int) && j - i == 4 && v as int == val(
                s@,
                i as int,
                j as int,
            ) && v <= 9999 && i < j <= s@.len(),
            None => digits_end(s@, i as int) - i != 4,
        },
{
    let e = digits_end_x(s, i);
    proof {
        lemma_digits_end_props(s@, i as int);
    }
    if e - i == 4 {
        let v: u32 = (s[i] - 48) as u32 * 1000 + (s[i + 1] - 48) as u32 * 100 + (s[i + 2]
            - 48) as u32 * 10 + (s[i + 3] - 48) as u32;
        proof {
            assert(val(s@, i as int, i as int) == 0);
            assert(val(s@, i as int, i as int + 1) == s@[i as int] - 48);
            assert(val(s@, i as int, i as int + 2) == val(s@, i as int, i as int + 1) * 10 + (
            s@[i as int + 1] - 48));
            assert(val(s@, i as int, i as int + 3) == val(s@, i as int, i as int + 2) * 10 + (
            s@[i as int + 2] - 48));
            assert(val(s@, i as int, i as int + 4) == val(s@, i as int, i as int + 3) * 10 + (
            s@[i as int + 3] - 48));
        }
        Some((v, e))
    } else {
        None
    }
}

/// `:` followed by a one or two digit number.
pub(crate) fn colon_num_x(s: &[u8], i: usize) -> (r: Option<(u32, usize)>)
    requires
        i <= s@.len(),
    ensures
        match r {
            Some((v, j)) => sp_colon_num(s@, i as int) == Some((v as int, j as int)) && i <= j
                <= s@.len() && v <= 99,
            None => sp_colon_num(s@, i as int) is None,
        },
{
    let c = skip_ws_x(s, i);
    if c < s.len() && s[c] == 58 {
        let d0 = skip_ws_x(s, c + 1);
        num2_x(s, d0)
    } else {
        None
    }
}

/// A two-letter token in am/pm position.
pub(crate) fn ampm_tok_x(s: &[u8], i: usize) -> (r: Option<(usize, usize)>)
    requires
        i <= s@.len(),
    ensures
        match r {
            Some((a, b)) => sp_ampm_tok(s@, i as int) == Some((a as int, b as int)) && a + 2 == b
                && b <= s@.len() && i <= a,
            None => sp_ampm_tok(s@, i as int) is None,
        },
{
    let a = skip_ws_x(s, i);
    if s.len() - a >= 2 && 97 <= s[a] && s[a] <= 122 && 97 <= s[a + 1] && s[a + 1] <= 122 {
        Some((a, a + 2))
    } else {
        None
    }
}

/// A clock time with optional am/pm token.
pub(crate) fn time_x(s: &[u8], i: usize) -> (r: Option<(ETime, usize)>)
    requires
        i <= s@.len(),
    ensures
        match r {
            Some((t, j)) => sp_time(s@, i as int) == Some((time_view(t), j as int)) && i <= j
                <= s@.len() && etime_wf(t, s@),
            None => sp_time(s@, i as int) is None,
        },
{
    let (h, i1) = match num2_x(s, i) {
        Some(v) => v,
        None => {
            return None;
        },
    };
    match colon_num_x(s, i1) {
        None => time_fin_x(s, h, 0, 0, i1),
        Some((m, im)) => match colon_num_x(s, im) {
            None => time_fin_x(s, h, m, 0, im),
            Some((sec, ise)) => time_fin_x(s, h, m, sec, ise),
        },
    }
}

/// The end of a clock time: attaches the optional am/pm token.
pub(crate) fn time_fin_x(s: &[u8], h: u32, m: u32, sec: u32, i2: usize) -> (r: Option<
    (ETime, usize),
>)
    requires
        i2 <= s@.len(),
    ensures
        match r {
            Some((t, j)) => sp_time_fin(s@, h as int, m as int, sec as int, i2 as int) == Some(
                (time_view(t), j as int),
            ) && i2 <= j <= s@.len() && etime_wf(t, s@),
            None => sp_time_fin(s@, h as int, m as int, sec as int, i2 as int) is None,
        },
{
    match ampm_tok_x(s, i2) {
        None => Some((ETime { h, m, s: sec, ap: None }, i2)),
        Some((a, b)) => Some((ETime { h, m, s: sec, ap: Some((a, b)) }, b)),
    }
}

/// A clock time with no am/pm position, as inside an ISO date-time.
pub(crate) fn time_no_ampm_x(s: &[u8], i: usize) -> (r: Option<(u32, u32, u32, usize)>)
    requires
        i <= s@.len(),
    ensures
        match r {
            Some((h, m, sec, j)) => sp_time_no_ampm(s@, i as int) == Some(
                (h as int, m as int, sec as int, j as int),
            ) && i <= j <= s@.len(),
            None => sp_time_no_ampm(s@, i as int) is None,
        },
{
    let (h, i1) = match num2_x(s, i) {
        Some(v) => v,
        None => {
            return None;
        },
    };
    match colon_num_x(s, i1) {
        None => Some((h, 0, 0, i1)),
        Some((m, im)) => match colon_num_x(s, im) {
            None => Some((h, m, 0, im)),
            Some((sec, ise)) => Some((h, m, sec, ise)),
        },
    }
}

/// A weekday name.
pub(crate) fn weekday_x(s: &[u8], i: usize) -> (r: Option<(Weekday, usize)>)
    requires
        i <= s@.len(),
    ensures
        match r {
            Some((w, j)) => sp_weekday(s@, i as int) == Some((w, j as int)) && i <= j <= s@.len(),
            None => sp_weekday(s@, i as int) is None,
        },
{
    if let Some(j) = eat_kw(s, i, "monday") {
        return Some((Weekday::Monday, j));
    }
    if let Some(j) = eat_kw(s, i, "mon") {
        return Some((Weekday::Monday, j));
    }
    if let Some(j) = eat_kw(s, i, "tuesday") {
        return Some((Weekday::Tuesday, j));
    }
    if let Some(j) = eat_kw(s, i, "tue") {
        return Some((Weekday::Tuesday, j));
    }
    if let Some(j) = eat_kw(s, i, "wednesday") {
        return Some((Weekday::Wednesday, j));
    }
    if let Some(j) = eat_kw(s, i, "wed") {
        return Some((Weekday::Wednesday, j));
    }
    if let Some(j) = eat_kw(s, i, "thursday") {
        return Some((Weekday::Thursday, j));
    }
    if let Some(j) = eat_kw(s, i, "thu") {
        return Some((Weekday::Thursday, j));
    }
    if let Some(j) = eat_kw(s, i, "friday") {
        return Some((Weekday::Friday, j));
    }
    if let Some(j) = eat_kw(s, i, "fri") {
        return Some((Weekday::Friday, j));
    }
    if let Some(j) = eat_kw(s, i, "saturday") {
        return Some((Weekday::Saturday, j));
    }
    if let Some(j) = eat_kw(s, i, "sat") {
        return Some((Weekday::Saturday, j));
    }
    if let Some(j) = eat_kw(s, i, "sunday") {
        return Some((Weekday::Sunday, j));
    }
    if let Some(j) = eat_kw(s, i, "sun") {
        return Some((Weekday::Sunday, j));
    }
    None
}

/// A unit name.
pub(crate) fn quantifier_x(s: &[u8], i: usize) -> (r: Option<(Quantifier, usize)>)
    requires
        i <= s@.len(),
    ensures
        match r {
            Some((q, j)) => sp_quantifier(s@, i as int) == Some((q, j as int)) && i <= j
                <= s@.len(),
            None => sp_quantifier(s@, i as int) is None,
        },
{
    if let Some(j) = eat_kw(s, i, "months") {
        return Some((Quantifier::Months, j));
    }
    if let Some(j) = eat_kw(s, i, "month") {
        return Some((Quantifier::Months, j));
    }
    if let Some(j) = eat_kw(s, i, "min") {
        return Some((Quantifier::Min, j));
    }
    if let Some(j) = eat_kw(s, i, "hours") {
        return Some((Quantifier::Hours, j));
    }
    if let Some(j) = eat_kw(s, i, "hour") {
        return Some((Quantifier::Hours, j));
    }
    if let Some(j) = eat_kw(s, i, "h") {
        return Some((Quantifier::Hours, j));
    }
    if let Some(j) = eat_kw(s, i, "days") {
        return Some((Quantifier::Days, j));
    }
    if let Some(j) = eat_kw(s, i, "day") {
        return Some((Quantifier::Days, j));
    }
    if let Some(j) = eat_kw(s, i, "d") {
        return Some((Quantifier::Days, j));
    }
    if let Some(j) = eat_kw(s, i, "weeks") {
        return Some((Quantifier::Weeks, j));
    }
    if let Some(j) = eat_kw(s, i, "week") {
        return Some((Quantifier::Weeks, j));
    }
    if let Some(j) = eat_kw(s, i, "w") {
        return Some((Quantifier::Weeks, j));
    }
    None
}

/// `last` or `next`.
pub(crate) fn modifier_x(s: &[u8], i: usize) -> (r: Option<(Modifier, usize)>)
    requires
        i <= s@.len(),
    ensures
        match r {
            Some((m, j)) => sp_modifier(s@, i as int) == Some((m, j as int)) && i <= j <= s@.len(),
            None => sp_modifier(s@, i as int) is None,
        },
{
    if let Some(j) = eat_kw(s, i, "last") {
        return Some((Modifier::Last, j));
    }
    if let Some(j) = eat_kw(s, i, "next") {
        return Some((Modifier::Next, j));
    }
    None
}

/// `today`, `yesterday` or `tomorrow`.
pub(crate) fn shortcut_x(s: &[u8], i: usize) -> (r: Option<(ShortcutDay, usize)>)
    requires
        i <= s@.len(),
    ensures
        match r {
            Some((d, j)) => sp_shortcut(s@, i as int) == Some((d, j as int)) && i <= j <= s@.len(),
            None => sp_shortcut(s@, i as int) is None,
        },
{
    if let Some(j) = eat_kw(s, i, "today") {
        return Some((ShortcutDay::Today, j));
    }
    if let Some(j) = eat_kw(s, i, "yesterday") {
        return Some((ShortcutDay::Yesterday, j));
    }
    if let Some(j) = eat_kw(s, i, "tomorrow") {
        return Some((ShortcutDay::Tomorrow, j));
    }
    None
}

/// A count, a unit and `ago`.
pub(crate) fn relative_x(s: &[u8], i: usize) -> (r: Option<(ERaw, usize)>)
    requires
        i <= s@.len(),
    ensures
        match r {
            Some((raw, j)) => sp_relative(s@, i as int) == Some((raw_view(raw), j as int)) && i
                <= j <= s@.len() && raw_wf(raw, s@),
            None => sp_relative(s@, i as int) is None,
        },
{
    let e = digits_end_x(s, i);
    proof {
        lemma_digits_end_props(s@, i as int);
    }
    if i < e {
        match quantifier_x(s, skip_ws_x(s, e)) {
            None => None,
            Some((q, j)) => {
                let k = skip_ws_x(s, j);
                match eat_kw(s, k, "ago") {
                    Some(j2) => Some((ERaw::RRel { a: i, b: e, q }, j2)),
                    None => None,
                }
            },
        }
    } else {
        None
    }
}

/// `in`, a count and a unit.
pub(crate) fn relative_future_x(s: &[u8], i: usize) -> (r: Option<(ERaw, usize)>)
    requires
        i <= s@.len(),
    ensures
        match r {
            Some((raw, j)) => sp_relative_future(s@, i as int) == Some((raw_view(raw), j as int))
                && i <= j <= s@.len() && raw_wf(raw, s@),
            None => sp_relative_future(s@, i as int) is None,
        },
{
    match eat_kw(s, i, "in") {
        None => None,
        Some(j0) => {
            let a = skip_ws_x(s, j0);
            let e = digits_end_x(s, a);
            proof {
                lemma_digits_end_props(s@, a as int);
            }
            if a < e {
                match quantifier_x(s, skip_ws_x(s, e)) {
                    None => None,
                    Some((q, j)) => Some((ERaw::RFut { a, b: e, q }, j)),
                }
            } else {
                None
            }
        },
    }
}

/// A day phrase: head, then optionally `at` and a clock time.
pub(crate) fn day_at_x(s: &[u8], i: usize) -> (r: Option<(ERaw, usize)>)
    requires
        i <= s@.len(),
    ensures
        match r {
            Some((raw, j)) => sp_day_at(s@, i as int) == Some((raw_view(raw), j as int)) && i <= j
                <= s@.len() && raw_wf(raw, s@),
            None => sp_day_at(s@, i as int) is None,
        },
{
    let head: Option<(SDayKind, usize)> = match modifier_x(s, i) {
        Some((md, j)) => {
            match weekday_x(s, skip_ws_x(s, j)) {
                Some((w, k)) => Some((SDayKind::ModWeekday(md, w), k)),
                None => None,
            }
        },
        None => match weekday_x(s, i) {
            Some((w, j)) => Some((SDayKind::SameWeekday(w), j)),
            None => match shortcut_x(s, i) {
                Some((d, j)) => Some((SDayKind::Shortcut(d), j)),
                None => None,
            },
        },
    };
    match head {
        None => None,
        Some((kind, j)) => {
            let k = skip_ws_x(s, j);
            let at_time: Option<(ETime, usize)> = match eat_kw(s, k, "at") {
                Some(k2) => time_x(s, skip_ws_x(s, k2)),
                None => None,
            };
            match at_time {
                Some((t, e)) => Some((ERaw::RDay(EDayAt { kind, t: Some(t) }), e)),
                None => Some((ERaw::RDay(EDayAt { kind, t: None }), j)),
            }
        },
    }
}

/// An ISO date-time.
pub(crate) fn iso_x(s: &[u8], i: usize) -> (r: Option<(ERaw, usize)>)
    requires
        i <= s@.len(),
    ensures
        match r {
            Some((raw, j)) => sp_iso(s@, i as int) == Some((raw_view(raw), j as int)) && i <= j
                <= s@.len() && raw_wf(raw, s@),
            None => sp_iso(s@, i as int) is None,
        },
{
    let (y, e) = match num4_x(s, i) {
        Some(v) => v,
        None => {
            return None;
        },
    };
    let j1 = skip_ws_x(s, e);
    if !(j1 < s.len() && s[j1] == 45) {
        return None;
    }
    let (mo, j2) = match num2_x(s, skip_ws_x(s, j1 + 1)) {
        Some(v) => v,
        None => {
            return None;
        },
    };
    let j3 = skip_ws_x(s, j2);
    if !(j3 < s.len() && s[j3] == 45) {
        return None;
    }
    let (d, j4) = match num2_x(s, skip_ws_x(s, j3 + 1)) {
        Some(v) => v,
        None => {
            return None;
        },
    };
    let j5 = skip_ws_x(s, j4);
    if !(j5 < s.len() && s[j5] == 116) {
        return None;
    }
    match time_no_ampm_x(s, skip_ws_x(s, j5 + 1)) {
        None => None,
        Some((h, mi, sec, j6)) => Some(
            (ERaw::RIso { y: y as i32, mo, d, h, mi, s: sec }, j6),
        ),
    }
}

/// A date alone, clock time defaulting to midnight.
pub(crate) fn date_x(s: &[u8], i: usize) -> (r: Option<(ERaw, usize)>)
    requires
        i <= s@.len(),
    ensures
        match r {
            Some((raw, j)) => sp_date(s@, i as int) == Some((raw_view(raw), j as int)) && i <= j
                <= s@.len() && raw_wf(raw, s@),
            None => sp_date(s@, i as int) is None,
        },
{
    let (d, j1) = match num2_x(s, i) {
        Some(v) => v,
        None => {
            return None;
        },
    };
    let k1 = skip_ws_x(s, j1);
    if !(k1 < s.len() && (s[k1] == 45 || s[k1] == 47)) {
        return None;
    }
    let (mo, j2) = match num2_x(s, skip_ws_x(s, k1 + 1)) {
        Some(v) => v,
        None => {
            return None;
        },
    };
    let k2 = skip_ws_x(s, j2);
    if !(k2 < s.len() && (s[k2] == 45 || s[k2] == 47)) {
        return None;
    }
    let a = skip_ws_x(s, k2 + 1);
    match num4_x(s, a) {
        Some((y, e)) => Some((ERaw::RIso { y: y as i32, mo, d, h: 0, mi: 0, s: 0 }, e)),
        None => None,
    }
}

/// The whole grammar over lowercased bytes: the first matching production.
pub(crate) fn raw_x(s: &[u8]) -> (r: Option<(ERaw, usize)>)
    ensures
        match r {
            Some((raw, j)) => sp_raw(s@) == Some((raw_view(raw), j as int)) && j <= s@.len()
                && raw_wf(raw, s@),
            None => sp_raw(s@) is None,
        },
{
    let i = skip_ws_x(s, 0);
    if let Some(j) = eat_kw(s, i, "now") {
        return Some((ERaw::RNow, j));
    }
    if let Some(r) = relative_x(s, i) {
        return Some(r);
    }
    if let Some(r) = relative_future_x(s, i) {
        return Some(r);
    }
    if let Some(r) = iso_x(s, i) {
        return Some(r);
    }
    if let Some(r) = date_x(s, i) {
        return Some(r);
    }
    if let Some(r) = day_at_x(s, i) {
        return Some(r);
    }
    match time_x(s, i) {
        Some((t, e)) => Some((ERaw::RTime(t), e)),
        None => None,
    }
}

/// The input bytes with every ASCII uppercase letter lowercased.
pub(crate) fn to_lower_x(b: &[u8]) -> (v: Vec<u8>)
    ensures
        v@ == lower_seq(b@),
{
    let mut v: Vec<u8> = Vec::new();
    let mut k: usize = 0;
    while k < b.len()
        invariant
            k <= b@.len(),
            v@.len() == k,
            forall|t: int| 0 <= t < k ==> v@[t] == lower_byte(b@[t]),
        decreases b@.len() - k,
    {
        let c = b[k];
        if 65 <= c && c <= 90 {
            v.push(c + 32);
        } else {
            v.push(c);
        }
        k += 1;
    }
    proof {
        assert(v@ =~= lower_seq(b@));
    }
    v
}

/// Reads the decimal value of the digit run in `[a, b)`, or reports that it
/// does not fit the count type.
pub(crate) fn parse_usize(s: &[u8], a: usize, b: usize) -> (r: Option<usize>)
    requires
        a < b <= s@.len(),
        forall|k: int| a <= k < b ==> is_digit(s@[k]),
    ensures
        match r {
            Some(v) => v as int == val(s@, a as int, b as int),
            None => val(s@, a as int, b as int) > usize::MAX,
        },
{
    let mut acc: usize = 0;
    let mut over = false;
    let mut k = a;
    while k < b
        invariant
            a <= k <= b,
            b <= s@.len(),
            forall|t: int| a <= t < b ==> is_digit(s@[t]),
            !over ==> acc as int == val(s@, a as int, k as int),
            over ==> val(s@, a as int, k as int) > usize::MAX,
        decreases b - k,
    {
        let d = (s[k] - 48) as usize;
        if !over {
            let step = match acc.checked_mul(10) {
                Some(x) => x.checked_add(d),
                None => None,
            };
            match step {
                Some(y) => {
                    acc = y;
                },
                None => {
                    over = true;
                },
            };
        } else {
            proof {
                lemma_val_nonneg(s@, a as int, k as int);
            }
        }
        k += 1;
    }
    if over {
        None
    } else {
        Some(acc)
    }
}

} // verus!
