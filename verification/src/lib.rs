//! Turns short English time phrases ("last friday at 9", "2 days ago",
//! "2020-12-25T19:43:00") into concrete calendar instants, relative to a
//! caller-supplied reference instant.
//!
//! The pipeline has two stages. The parser recognizes the phrase and builds
//! a [`parser::TimeClue`], pure data carrying raw, unvalidated numbers. The
//! interpreter evaluates that clue against the reference instant and a
//! roll-forward flag, validating ranges as it goes. Both stages carry full
//! contracts: the grammar is specified in [`grammar`], the meaning of every
//! clue in [`interpreter::spec_evaluate`], and the crate-level functions
//! here compose the two.

use vstd::prelude::*;

pub mod grammar;
pub mod interpreter;
pub mod parser;
pub mod unified;

use crate::grammar::SOutcome;
use crate::interpreter::{EvaluationError, evaluate_time_clue, evaluation_in_range, spec_evaluate};
use crate::parser::{ParseError, TimeClue, parse_time_clue_from_str, spec_parse};
use crate::unified::DateTime;

verus! {

/// Any failure of the pipeline: of parsing or of evaluation.
#[derive(Debug, PartialEq)]
pub enum HTPError {
    ParseError(ParseError),
    EvaluationError(EvaluationError),
}

impl From<ParseError> for HTPError {
    fn from(e: ParseError) -> (r: HTPError) {
        HTPError::ParseError(e)
    }
}

impl vstd::std_specs::convert::FromSpecImpl<ParseError> for HTPError {
    open spec fn obeys_from_spec() -> bool {
        true
    }

    open spec fn from_spec(e: ParseError) -> HTPError {
        HTPError::ParseError(e)
    }
}

impl From<EvaluationError> for HTPError {
    fn from(e: EvaluationError) -> (r: HTPError) {
        HTPError::EvaluationError(e)
    }
}

impl vstd::std_specs::convert::FromSpecImpl<EvaluationError> for HTPError {
    open spec fn obeys_from_spec() -> bool {
        true
    }

    open spec fn from_spec(e: EvaluationError) -> HTPError {
        HTPError::EvaluationError(e)
    }
}

/// Whether the whole pipeline stays in range: when the phrase parses to a
/// clue, evaluating that clue against `now` must stay representable.
pub open spec fn pipeline_in_range(sv: Seq<char>, now: int) -> bool {
    spec_parse(sv) matches SOutcome::Clue(c) ==> evaluation_in_range(c, now)
}

/// How a pipeline result realizes what parsing and evaluation specify for
/// the input characters `sv`: a parse failure is returned as that parse
/// error, and a recognized clue is evaluated, yielding the specified
/// instant or the specified evaluation error.
pub open spec fn pipeline_result(
    sv: Seq<char>,
    now: int,
    assume_next_day: bool,
    r: Result<DateTime, HTPError>,
) -> bool {
    match spec_parse(sv) {
        SOutcome::Mismatch => r == Err::<DateTime, HTPError>(
            HTPError::ParseError(ParseError::GrammarMismatch),
        ),
        SOutcome::BadAmPm { a, b } => r matches Err(
            HTPError::ParseError(ParseError::UnknownAMPM(t)),
        ) && t@ == sv.subrange(a, b),
        SOutcome::IntTooBig { a, b } => r matches Err(
            HTPError::ParseError(ParseError::ParseInt(t)),
        ) && t@ == sv.subrange(a, b),
        SOutcome::Clue(c) => match r {
            Ok(d) => spec_evaluate(c, now, assume_next_day) == Ok::<int, EvaluationError>(d@),
            Err(HTPError::EvaluationError(e)) => spec_evaluate(c, now, assume_next_day) == Err::<
                int,
                EvaluationError,
            >(e),
            Err(HTPError::ParseError(_)) => false,
        },
    }
}

/// Same as `parse_time_clue(s, now, false)`.
///
/// Parses a time clue from `s` and evaluates it against the reference
/// instant `now`.
pub fn parse(s: &str, now: DateTime) -> (r: Result<DateTime, HTPError>)
    requires
        s.is_ascii() ==> pipeline_in_range(s@, now@),
    ensures
        s.is_ascii() ==> pipeline_result(s@, now@, false, r),
        !s.is_ascii() ==> r == Err::<DateTime, HTPError>(
            HTPError::ParseError(ParseError::GrammarMismatch),
        ),
{
    parse_time_clue(s, now, false)
}

/// Parses a time clue from `s` and evaluates it against the reference
/// instant `now`.
///
/// `assume_next_day`:
/// * if true: a bare clock time earlier than `now` is interpreted as lying
///   on the following day, e.g. 19:43 is read as tomorrow at 19:43 when the
///   current time is past 19:43.
/// * if false: a bare clock time is interpreted as lying on the current
///   day.
pub fn parse_time_clue(s: &str, now: DateTime, assume_next_day: bool) -> (r: Result<
    DateTime,
    HTPError,
>)
    requires
        s.is_ascii() ==> pipeline_in_range(s@, now@),
    ensures
        s.is_ascii() ==> pipeline_result(s@, now@, assume_next_day, r),
        !s.is_ascii() ==> r == Err::<DateTime, HTPError>(
            HTPError::ParseError(ParseError::GrammarMismatch),
        ),
{
    let time_clue = match parse_time_clue_from_str(s) {
        Ok(c) => c,
        Err(e) => {
            return Err(HTPError::ParseError(e));
        },
    };
    let datetime = match evaluate_time_clue(time_clue, now, assume_next_day) {
        Ok(d) => d,
        Err(e) => {
            return Err(HTPError::EvaluationError(e));
        },
    };
    Ok(datetime)
}

} // verus!
