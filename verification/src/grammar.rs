//! The grammar of fragment identifiers, as functions on sequences of
//! characters.
//!
//! Each production takes a text and gives the value that it reads at the
//! start of the text together with the text that follows, or an error. A
//! choice takes the first alternative that reads; repetitions and runs are
//! as long as they can be. The parsers of [`crate::parsers`] are proved to
//! compute these functions.
//!
//! Two choices of this grammar are worth a word. The bare value of an
//! assertion is any run of digits and letters, so that `[chap01]` is one, not
//! a run of digits only. A local path may have no step, as in `/4!/6:10`,
//! where an offset follows the step behind the redirection at once; what it
//! may not be is empty.
//!
//! ```text
//! fragment        = "epubcfi(" path [range] ")"
//! range           = "," local_path "," local_path
//! path            = step local_path
//! local_path      = {step} (redirected_path | [offset])          (not empty)
//! redirected_path = "!" (path | offset)
//! step            = "/" integer [assertion]
//! offset          = "~" number ["@" number ":" number] [assertion]
//!                 | "@" number ":" [number] [assertion]
//!                 | ":" integer [assertion]
//! assertion       = "[" (parameter {";" parameter} | alphanumerics) "]"
//! parameter       = alphanumerics "=" alphanumerics
//! ```

use crate::error::ParseError;
use crate::lexer::{
    decimal_value, is_suffix, leading_alphanumerics, leading_digits, lemma_run_length,
    scan_number, NumberScanView,
};
use crate::syntax::{
    AssertionView, CharacterOffsetView, FragmentView, LocalPathView, OffsetView, PathView,
    RangeView, RedirectedPathView, SpatialOffsetView, StepView, TemporalOffsetView,
};
use vstd::prelude::*;

verus! {

/// What a production makes of a text: the value read and the text after it,
/// or the reason why nothing was read.
pub type Parsed<T> = Result<(T, Seq<char>), ParseError>;

/// The text that follows `word` at the start of `s`, if `s` starts with it.
pub open spec fn after(s: Seq<char>, word: Seq<char>) -> Option<Seq<char>> {
    if word.is_prefix_of(s) {
        Some(s.skip(word.len() as int))
    } else {
        None
    }
}

/// A production that may be left out. An error that is not recoverable is
/// handed on.
pub open spec fn optional<T>(found: Parsed<T>, s: Seq<char>) -> Parsed<Option<T>> {
    match found {
        Ok((value, rest)) => Ok((Some(value), rest)),
        Err(e) => if e.recoverable() {
            Ok((None, s))
        } else {
            Err(e)
        },
    }
}

/// One or more digits and letters.
pub open spec fn alphanumeric_run(s: Seq<char>) -> Parsed<Seq<char>> {
    let run = leading_alphanumerics(s);
    if run.len() > 0 {
        Ok((run, s.skip(run.len() as int)))
    } else {
        Err(ParseError::Syntax)
    }
}

/// One or more digits, read as a number in base ten that is at most `max`.
pub open spec fn integer(s: Seq<char>, max: nat) -> Parsed<nat> {
    let run = leading_digits(s);
    if run.len() > 0 && decimal_value(run) <= max {
        Ok((decimal_value(run), s.skip(run.len() as int)))
    } else {
        Err(ParseError::Syntax)
    }
}

/// A number in decimal or exponent notation, as the bit pattern of its
/// single-precision value. Which texts start with a number, and with which,
/// is for the lexer to say; a scan counts where it leaves a rest of `s`, as
/// every scan of the lexer does.
pub open spec fn number(s: Seq<char>) -> Parsed<u32> {
    match scan_number(s) {
        NumberScanView::Number(bits, rest) => if is_suffix(rest, s) {
            Ok((bits, rest))
        } else {
            Err(ParseError::Syntax)
        },
        NumberScanView::Absent => Err(ParseError::Syntax),
        NumberScanView::Malformed => Err(ParseError::MalformedNumber),
    }
}

/// `key=value`, both made of digits and letters.
#[verifier::opaque]
pub open spec fn parameter(s: Seq<char>) -> Parsed<(Seq<char>, Seq<char>)> {
    match alphanumeric_run(s) {
        Err(e) => Err(e),
        Ok((key, s1)) => match after(s1, "="@) {
            None => Err(ParseError::Syntax),
            Some(s2) => match alphanumeric_run(s2) {
                Err(e) => Err(e),
                Ok((value, rest)) => Ok(((key, value), rest)),
            },
        },
    }
}

/// As many `;key=value` as follow one another. A `;` that no parameter
/// follows is not read.
#[verifier::opaque]
pub open spec fn more_parameters(s: Seq<char>) -> (Seq<(Seq<char>, Seq<char>)>, Seq<char>)
    decreases s.len(),
    via more_parameters_decreases
{
    match after(s, ";"@) {
        None => (Seq::empty(), s),
        Some(s1) => match parameter(s1) {
            Err(_) => (Seq::empty(), s),
            Ok((pair, s2)) => {
                let (pairs, rest) = more_parameters(s2);
                (seq![pair] + pairs, rest)
            },
        },
    }
}

#[via_fn]
proof fn more_parameters_decreases(s: Seq<char>) {
    if let Some(s1) = after(s, ";"@) {
        lemma_parameter(s1);
    }
}

/// One or more `key=value`, separated by `;`.
#[verifier::opaque]
pub open spec fn parameter1(s: Seq<char>) -> Parsed<Seq<(Seq<char>, Seq<char>)>> {
    match parameter(s) {
        Err(e) => Err(e),
        Ok((pair, s1)) => {
            let (pairs, rest) = more_parameters(s1);
            Ok((seq![pair] + pairs, rest))
        },
    }
}

/// What stands between the brackets of an assertion: a parameter list or,
/// where the text does not start with one, a run of digits and letters.
#[verifier::opaque]
pub open spec fn params_or_value(s: Seq<char>) -> Parsed<
    (Option<Seq<(Seq<char>, Seq<char>)>>, Option<Seq<char>>),
> {
    match parameter1(s) {
        Ok((pairs, rest)) => Ok(((Some(pairs), None), rest)),
        Err(_) => match alphanumeric_run(s) {
            Ok((value, rest)) => Ok(((None, Some(value)), rest)),
            Err(e) => Err(e),
        },
    }
}

/// `[`, a parameter list or a bare value, `]`.
#[verifier::opaque]
pub open spec fn assertion(s: Seq<char>) -> Parsed<AssertionView> {
    match after(s, "["@) {
        None => Err(ParseError::Syntax),
        Some(s1) => match params_or_value(s1) {
            Err(_) => Err(ParseError::Assertion),
            Ok(((parameters, value), s2)) => match after(s2, "]"@) {
                None => Err(ParseError::Assertion),
                Some(rest) => Ok((AssertionView { parameters, value }, rest)),
            },
        },
    }
}

/// An assertion, if `s` starts with one; else nothing is read.
pub open spec fn optional_assertion(s: Seq<char>) -> (Option<AssertionView>, Seq<char>) {
    match assertion(s) {
        Ok((found, rest)) => (Some(found), rest),
        Err(_) => (None, s),
    }
}

/// `/`, an integer up to 255, an optional assertion.
#[verifier::opaque]
pub open spec fn step(s: Seq<char>) -> Parsed<StepView> {
    match after(s, "/"@) {
        None => Err(ParseError::Syntax),
        Some(s1) => match integer(s1, u8::MAX as nat) {
            Err(e) => Err(e),
            Ok((size, s2)) => {
                let (assertion, rest) = optional_assertion(s2);
                Ok((StepView { size: size as u8, assertion }, rest))
            },
        },
    }
}

/// As many steps as follow one another.
#[verifier::opaque]
pub open spec fn steps(s: Seq<char>) -> (Seq<StepView>, Seq<char>)
    decreases s.len(),
    via steps_decreases
{
    match step(s) {
        Err(_) => (Seq::empty(), s),
        Ok((first, s1)) => {
            let (more, rest) = steps(s1);
            (seq![first] + more, rest)
        },
    }
}

#[via_fn]
proof fn steps_decreases(s: Seq<char>) {
    lemma_step(s);
}

/// `:`, an integer up to 4294967295, an optional assertion.
#[verifier::opaque]
pub open spec fn character_offset(s: Seq<char>) -> Parsed<OffsetView> {
    match after(s, ":"@) {
        None => Err(ParseError::Syntax),
        Some(s1) => match integer(s1, u32::MAX as nat) {
            Err(e) => Err(e),
            Ok((point, s2)) => {
                let (assertion, rest) = optional_assertion(s2);
                Ok(
                    (
                        OffsetView::Character(
                            CharacterOffsetView { start_at_point: point as u32, assertion },
                        ),
                        rest,
                    ),
                )
            },
        },
    }
}

/// What follows the numbers of a spatial offset: an optional assertion.
pub open spec fn spatial_offset_from(start: u32, end: Option<u32>, s: Seq<char>) -> (
    OffsetView,
    Seq<char>,
) {
    let (assertion, rest) = optional_assertion(s);
    (
        OffsetView::Spatial(
            SpatialOffsetView { start_at_point: start, end_at_point: end, assertion },
        ),
        rest,
    )
}

/// `@`, a number, `:`, an optional number, an optional assertion.
#[verifier::opaque]
pub open spec fn spatial_offset(s: Seq<char>) -> Parsed<OffsetView> {
    match after(s, "@"@) {
        None => Err(ParseError::Syntax),
        Some(s1) => match number(s1) {
            Err(e) => Err(e),
            Ok((start, s2)) => match after(s2, ":"@) {
                None => Err(ParseError::Syntax),
                Some(s3) => match optional(number(s3), s3) {
                    Err(e) => Err(e),
                    Ok((end, s4)) => Ok(spatial_offset_from(start, end, s4)),
                },
            },
        },
    }
}

/// `@`, a number, `:`, a number.
#[verifier::opaque]
pub open spec fn spatial_range(s: Seq<char>) -> Parsed<(u32, u32)> {
    match after(s, "@"@) {
        None => Err(ParseError::Syntax),
        Some(s1) => match number(s1) {
            Err(e) => Err(e),
            Ok((start, s2)) => match after(s2, ":"@) {
                None => Err(ParseError::Syntax),
                Some(s3) => match number(s3) {
                    Err(e) => Err(e),
                    Ok((end, rest)) => Ok(((start, end), rest)),
                },
            },
        },
    }
}

/// What follows the numbers of a temporal offset: an optional assertion.
pub open spec fn temporal_offset_from(start: u32, range: Option<(u32, u32)>, s: Seq<char>) -> (
    OffsetView,
    Seq<char>,
) {
    let (assertion, rest) = optional_assertion(s);
    (
        OffsetView::Temporal(
            TemporalOffsetView { start_at: start, spatial_range: range, assertion },
        ),
        rest,
    )
}

/// `~`, a number, an optional spatial range, an optional assertion.
#[verifier::opaque]
pub open spec fn temporal_offset(s: Seq<char>) -> Parsed<OffsetView> {
    match after(s, "~"@) {
        None => Err(ParseError::Syntax),
        Some(s1) => match number(s1) {
            Err(e) => Err(e),
            Ok((start, s2)) => match optional(spatial_range(s2), s2) {
                Err(e) => Err(e),
                Ok((range, s3)) => Ok(temporal_offset_from(start, range, s3)),
            },
        },
    }
}

/// The offset that the first character of `s` announces: temporal after `~`,
/// spatial after `@`, character after `:`.
#[verifier::opaque]
pub open spec fn offset(s: Seq<char>) -> Parsed<OffsetView> {
    if after(s, "~"@) is Some {
        temporal_offset(s)
    } else if after(s, "@"@) is Some {
        spatial_offset(s)
    } else if after(s, ":"@) is Some {
        character_offset(s)
    } else {
        Err(ParseError::Offset)
    }
}

/// A step and a local path.
pub open spec fn path(s: Seq<char>) -> Parsed<PathView>
    decreases s.len(), 0nat,
    via path_decreases
{
    match step(s) {
        Err(e) => Err(e),
        Ok((first, s1)) => match local_path(s1) {
            Err(e) => Err(e),
            Ok((local, rest)) => Ok((PathView { step: first, local_path: local }, rest)),
        },
    }
}

#[via_fn]
proof fn path_decreases(s: Seq<char>) {
    lemma_step(s);
}

/// Steps, then a redirection or, where none follows, an optional offset. At
/// least one of the three has to be there.
pub open spec fn local_path(s: Seq<char>) -> Parsed<LocalPathView>
    decreases s.len(), 1nat,
    via local_path_decreases
{
    let (found_steps, s1) = steps(s);
    match redirected_path(s1) {
        Ok((redirected, rest)) => Ok(
            (
                LocalPathView {
                    steps: found_steps,
                    redirected_path: Some(redirected),
                    offset: None,
                },
                rest,
            ),
        ),
        Err(e) => if !e.recoverable() {
            Err(e)
        } else {
            match optional(offset(s1), s1) {
                Err(e) => Err(e),
                Ok((found, rest)) => if found_steps.len() == 0 && found is None {
                    Err(ParseError::Syntax)
                } else {
                    Ok(
                        (
                            LocalPathView {
                                steps: found_steps,
                                redirected_path: None,
                                offset: Some(found),
                            },
                            rest,
                        ),
                    )
                },
            }
        },
    }
}

#[via_fn]
proof fn local_path_decreases(s: Seq<char>) {
    lemma_steps(s);
}

/// `!`, then a path or an offset.
pub open spec fn redirected_path(s: Seq<char>) -> Parsed<RedirectedPathView>
    decreases s.len(), 0nat,
    via redirected_path_decreases
{
    match after(s, "!"@) {
        None => Err(ParseError::Syntax),
        Some(s1) => match path_or_offset(s1) {
            Err(e) => Err(e),
            Ok(((path, offset), rest)) => Ok(
                (
                    RedirectedPathView {
                        offset,
                        path: match path {
                            Some(p) => Some(Box::new(p)),
                            None => None,
                        },
                    },
                    rest,
                ),
            ),
        },
    }
}

#[via_fn]
proof fn redirected_path_decreases(s: Seq<char>) {
    reveal_strlit("!");
}

/// A path or, where the text does not start with one, an offset.
pub open spec fn path_or_offset(s: Seq<char>) -> Parsed<(Option<PathView>, Option<OffsetView>)>
    decreases s.len(), 1nat,
{
    match path(s) {
        Ok((found, rest)) => Ok(((Some(found), None), rest)),
        Err(e) => if !e.recoverable() {
            Err(e)
        } else {
            match offset(s) {
                Ok((found, rest)) => Ok(((None, Some(found)), rest)),
                Err(e) => Err(e),
            }
        },
    }
}

/// `,`, a local path, `,`, a local path.
#[verifier::opaque]
pub open spec fn range(s: Seq<char>) -> Parsed<RangeView> {
    match after(s, ","@) {
        None => Err(ParseError::Syntax),
        Some(s1) => match local_path(s1) {
            Err(e) => Err(e),
            Ok((start_point, s2)) => match after(s2, ","@) {
                None => Err(ParseError::Syntax),
                Some(s3) => match local_path(s3) {
                    Err(e) => Err(e),
                    Ok((end_point, rest)) => Ok((RangeView { start_point, end_point }, rest)),
                },
            },
        },
    }
}

/// `epubcfi(`, a path, an optional range, `)`.
pub open spec fn fragment(s: Seq<char>) -> Parsed<FragmentView> {
    match after(s, "epubcfi"@) {
        None => Err(ParseError::Syntax),
        Some(s1) => match after(s1, "("@) {
            None => Err(ParseError::Syntax),
            Some(s2) => match path(s2) {
                Err(e) => Err(e),
                Ok((path, s3)) => match optional(range(s3), s3) {
                    Err(e) => Err(e),
                    Ok((range, s4)) => match after(s4, ")"@) {
                        None => Err(ParseError::Syntax),
                        Some(rest) => Ok((FragmentView { path, range }, rest)),
                    },
                },
            },
        },
    }
}

/// A fragment that takes up the whole of `s`.
pub open spec fn whole_fragment(s: Seq<char>) -> Result<FragmentView, ParseError> {
    match fragment(s) {
        Err(e) => Err(e),
        Ok((found, rest)) => if rest.len() == 0 {
            Ok(found)
        } else {
            Err(ParseError::IncompleteInput)
        },
    }
}

/// Whether a production, where it reads a value, leaves a rest of `s` that is
/// shorter than `s`.
pub open spec fn consumes<T>(found: Parsed<T>, s: Seq<char>) -> bool {
    found matches Ok((_, rest)) ==> is_suffix(rest, s) && rest.len() < s.len()
}

/// What is left of a rest of `s` is a rest of `s`.
pub proof fn lemma_suffix_transitive(a: Seq<char>, b: Seq<char>, c: Seq<char>)
    requires
        is_suffix(a, b),
        is_suffix(b, c),
    ensures
        is_suffix(a, c),
{
    assert(a =~= c.skip(c.len() - a.len()));
}

/// A text is a rest of itself.
pub proof fn lemma_suffix_reflexive(s: Seq<char>)
    ensures
        is_suffix(s, s),
{
    assert(s.skip(0) =~= s);
}

/// The text after a literal is a rest of the text.
pub proof fn lemma_after(s: Seq<char>, word: Seq<char>)
    ensures
        after(s, word) matches Some(rest) ==> is_suffix(rest, s) && rest.len() + word.len()
            == s.len(),
{
}

/// A run is cut off the start of the text.
pub proof fn lemma_runs(s: Seq<char>)
    ensures
        consumes(alphanumeric_run(s), s),
        forall|max: nat| consumes(#[trigger] integer(s, max), s),
{
    lemma_run_length(s, |c: char| crate::lexer::is_digit(c));
    lemma_run_length(s, |c: char| crate::lexer::is_alphanumeric(c));
}

pub proof fn lemma_parameter(s: Seq<char>)
    ensures
        consumes(parameter(s), s),
{
    reveal(parameter);
    lemma_runs(s);
    if let Ok((_, s1)) = alphanumeric_run(s) {
        lemma_after(s1, "="@);
        if let Some(s2) = after(s1, "="@) {
            lemma_runs(s2);
            lemma_suffix_transitive(s2, s1, s);
            if let Ok((_, rest)) = alphanumeric_run(s2) {
                lemma_suffix_transitive(rest, s2, s);
            }
        }
    }
}

pub proof fn lemma_more_parameters(s: Seq<char>)
    ensures
        is_suffix(more_parameters(s).1, s),
    decreases s.len(),
{
    reveal(more_parameters);
    lemma_suffix_reflexive(s);
    lemma_after(s, ";"@);
    if let Some(s1) = after(s, ";"@) {
        lemma_parameter(s1);
        if let Ok((_, s2)) = parameter(s1) {
            lemma_more_parameters(s2);
            lemma_suffix_transitive(s2, s1, s);
            lemma_suffix_transitive(more_parameters(s2).1, s2, s);
        }
    }
}

/// An assertion that is read is well formed.
pub proof fn lemma_assertion(s: Seq<char>)
    ensures
        consumes(assertion(s), s),
        assertion(s) matches Ok((found, _)) ==> found.wf(),
{
    reveal(parameter1);
    reveal(params_or_value);
    reveal(assertion);
    lemma_after(s, "["@);
    if let Some(s1) = after(s, "["@) {
        lemma_parameter(s1);
        lemma_runs(s1);
        if let Ok((_, s2)) = parameter(s1) {
            lemma_more_parameters(s2);
            lemma_suffix_transitive(more_parameters(s2).1, s2, s1);
        }
        if let Ok((_, s3)) = params_or_value(s1) {
            lemma_after(s3, "]"@);
            if let Some(rest) = after(s3, "]"@) {
                lemma_suffix_transitive(rest, s3, s1);
                lemma_suffix_transitive(rest, s1, s);
            }
        }
    }
}

pub proof fn lemma_optional_assertion(s: Seq<char>)
    ensures
        is_suffix(optional_assertion(s).1, s),
        crate::syntax::optional_wf(optional_assertion(s).0),
{
    lemma_suffix_reflexive(s);
    lemma_assertion(s);
}

/// A step that is read is well formed.
pub proof fn lemma_step(s: Seq<char>)
    ensures
        consumes(step(s), s),
        step(s) matches Ok((found, _)) ==> found.wf(),
{
    reveal(step);
    lemma_after(s, "/"@);
    if let Some(s1) = after(s, "/"@) {
        lemma_runs(s1);
        if let Ok((_, s2)) = integer(s1, u8::MAX as nat) {
            lemma_optional_assertion(s2);
            lemma_suffix_transitive(optional_assertion(s2).1, s2, s1);
            lemma_suffix_transitive(optional_assertion(s2).1, s1, s);
        }
    }
}

pub proof fn lemma_steps(s: Seq<char>)
    ensures
        is_suffix(steps(s).1, s),
        steps(s).0.len() > 0 ==> steps(s).1.len() < s.len(),
        steps(s).0.len() == 0 ==> steps(s).1 == s,
        forall|i: int| 0 <= i < steps(s).0.len() ==> (#[trigger] steps(s).0[i]).wf(),
    decreases s.len(),
{
    reveal(steps);
    lemma_suffix_reflexive(s);
    lemma_step(s);
    if let Ok((first, s1)) = step(s) {
        lemma_steps(s1);
        lemma_suffix_transitive(steps(s1).1, s1, s);
    }
}

/// A number that is read leaves a rest of the text.
pub proof fn lemma_number(s: Seq<char>)
    ensures
        number(s) matches Ok((_, rest)) ==> is_suffix(rest, s),
        optional(number(s), s) matches Ok((_, rest)) ==> is_suffix(rest, s),
{
    lemma_suffix_reflexive(s);
}

pub proof fn lemma_spatial_range(s: Seq<char>)
    ensures
        consumes(spatial_range(s), s),
        optional(spatial_range(s), s) matches Ok((_, rest)) ==> is_suffix(rest, s),
{
    reveal(spatial_range);
    reveal_strlit("@");
    lemma_suffix_reflexive(s);
    lemma_after(s, "@"@);
    if let Some(s1) = after(s, "@"@) {
        lemma_number(s1);
        if let Ok((_, s2)) = number(s1) {
            lemma_suffix_transitive(s2, s1, s);
            lemma_after(s2, ":"@);
            if let Some(s3) = after(s2, ":"@) {
                lemma_suffix_transitive(s3, s2, s);
                lemma_number(s3);
                if let Ok((_, rest)) = number(s3) {
                    lemma_suffix_transitive(rest, s3, s);
                }
            }
        }
    }
}

/// An offset that is read is well formed.
pub proof fn lemma_character_offset(s: Seq<char>)
    ensures
        consumes(character_offset(s), s),
        character_offset(s) matches Ok((found, _)) ==> found.wf(),
{
    reveal(character_offset);
    lemma_after(s, ":"@);
    if let Some(s1) = after(s, ":"@) {
        lemma_runs(s1);
        if let Ok((_, s2)) = integer(s1, u32::MAX as nat) {
            lemma_optional_assertion(s2);
            lemma_suffix_transitive(optional_assertion(s2).1, s2, s1);
            lemma_suffix_transitive(optional_assertion(s2).1, s1, s);
        }
    }
}

/// An offset that is read is well formed.
pub proof fn lemma_spatial_offset(s: Seq<char>)
    ensures
        consumes(spatial_offset(s), s),
        spatial_offset(s) matches Ok((found, _)) ==> found.wf(),
{
    reveal(spatial_offset);
    reveal_strlit("@");
    lemma_after(s, "@"@);
    if let Some(s1) = after(s, "@"@) {
        lemma_number(s1);
        if let Ok((_, s2)) = number(s1) {
            lemma_suffix_transitive(s2, s1, s);
            lemma_after(s2, ":"@);
            if let Some(s3) = after(s2, ":"@) {
                lemma_suffix_transitive(s3, s2, s);
                lemma_number(s3);
                if let Ok((_, s4)) = optional(number(s3), s3) {
                    lemma_suffix_transitive(s4, s3, s);
                    lemma_optional_assertion(s4);
                    lemma_suffix_transitive(optional_assertion(s4).1, s4, s);
                }
            }
        }
    }
}

/// An offset that is read is well formed.
pub proof fn lemma_temporal_offset(s: Seq<char>)
    ensures
        consumes(temporal_offset(s), s),
        temporal_offset(s) matches Ok((found, _)) ==> found.wf(),
{
    reveal(temporal_offset);
    reveal_strlit("~");
    lemma_after(s, "~"@);
    if let Some(s1) = after(s, "~"@) {
        lemma_number(s1);
        if let Ok((_, s2)) = number(s1) {
            lemma_suffix_transitive(s2, s1, s);
            lemma_spatial_range(s2);
            if let Ok((_, s3)) = optional(spatial_range(s2), s2) {
                lemma_suffix_transitive(s3, s2, s);
                lemma_optional_assertion(s3);
                lemma_suffix_transitive(optional_assertion(s3).1, s3, s);
            }
        }
    }
}

/// An offset that is read is well formed.
pub proof fn lemma_offset(s: Seq<char>)
    ensures
        consumes(offset(s), s),
        offset(s) matches Ok((found, _)) ==> found.wf(),
        optional(offset(s), s) matches Ok((_, rest)) ==> is_suffix(rest, s),
{
    reveal(offset);
    lemma_suffix_reflexive(s);
    lemma_temporal_offset(s);
    lemma_spatial_offset(s);
    lemma_character_offset(s);
}

/// A path that is read is well formed and leaves a shorter text.
pub proof fn lemma_path(s: Seq<char>)
    ensures
        consumes(path(s), s),
        path(s) matches Ok((found, _)) ==> found.wf() && !found.local_path.is_empty(),
    decreases s.len(), 0nat,
{
    lemma_step(s);
    if let Ok((_, s1)) = step(s) {
        lemma_local_path(s1);
        if let Ok((_, rest)) = local_path(s1) {
            lemma_suffix_transitive(rest, s1, s);
        }
    }
}

/// A local path that is read is well formed and not empty: it has a step, a
/// redirection or an offset, and leaves a shorter text.
pub proof fn lemma_local_path(s: Seq<char>)
    ensures
        consumes(local_path(s), s),
        local_path(s) matches Ok((found, _)) ==> found.wf() && !found.is_empty(),
    decreases s.len(), 1nat,
{
    lemma_steps(s);
    let (found_steps, s1) = steps(s);
    lemma_redirected_path(s1);
    lemma_offset(s1);
    if let Ok((_, rest)) = local_path(s) {
        lemma_suffix_transitive(rest, s1, s);
    }
}

/// A redirection that is read is well formed and leaves a shorter text.
pub proof fn lemma_redirected_path(s: Seq<char>)
    ensures
        consumes(redirected_path(s), s),
        redirected_path(s) matches Ok((found, _)) ==> found.wf(),
    decreases s.len(), 0nat,
{
    reveal_strlit("!");
    lemma_after(s, "!"@);
    if let Some(s1) = after(s, "!"@) {
        lemma_path_or_offset(s1);
        if let Ok((_, rest)) = path_or_offset(s1) {
            lemma_suffix_transitive(rest, s1, s);
        }
    }
}

/// Exactly one of a path and an offset is read, and it is well formed.
pub proof fn lemma_path_or_offset(s: Seq<char>)
    ensures
        consumes(path_or_offset(s), s),
        path_or_offset(s) matches Ok(((found_path, found_offset), _)) ==> match (
            found_path,
            found_offset,
        ) {
            (Some(p), None) => p.wf(),
            (None, Some(o)) => o.wf(),
            _ => false,
        },
    decreases s.len(), 1nat,
{
    lemma_path(s);
    lemma_offset(s);
}

/// A range that is read is well formed.
pub proof fn lemma_range(s: Seq<char>)
    ensures
        consumes(range(s), s),
        range(s) matches Ok((found, _)) ==> found.wf() && !found.start_point.is_empty()
            && !found.end_point.is_empty(),
        optional(range(s), s) matches Ok((_, rest)) ==> is_suffix(rest, s),
{
    reveal(range);
    lemma_suffix_reflexive(s);
    lemma_after(s, ","@);
    if let Some(s1) = after(s, ","@) {
        lemma_local_path(s1);
        if let Ok((_, s2)) = local_path(s1) {
            lemma_suffix_transitive(s2, s1, s);
            lemma_after(s2, ","@);
            if let Some(s3) = after(s2, ","@) {
                lemma_suffix_transitive(s3, s2, s);
                lemma_local_path(s3);
                if let Ok((_, rest)) = local_path(s3) {
                    lemma_suffix_transitive(rest, s3, s);
                }
            }
        }
    }
}

/// A text that starts with `)` has it as its first character.
proof fn lemma_after_closing(s: Seq<char>)
    ensures
        after(s, ")"@) matches Some(rest) ==> rest.len() + 1 == s.len() && s[0] == ')' && is_suffix(
            rest,
            s,
        ),
{
    reveal_strlit(")");
    if after(s, ")"@) is Some {
        assert(")"@[0] == ')');
        assert(s.subrange(0, 1)[0] == s[0]);
    }
}

/// A fragment that is read is well formed, and the text that it was read
/// from has `)` where the rest begins.
pub proof fn lemma_fragment(s: Seq<char>)
    ensures
        consumes(fragment(s), s),
        fragment(s) matches Ok((found, rest)) ==> found.wf() && s[s.len() - rest.len() - 1] == ')',
{
    lemma_after(s, "epubcfi"@);
    if let Some(s1) = after(s, "epubcfi"@) {
        lemma_after(s1, "("@);
        if let Some(s2) = after(s1, "("@) {
            lemma_suffix_transitive(s2, s1, s);
            lemma_path(s2);
            if let Ok((_, s3)) = path(s2) {
                lemma_suffix_transitive(s3, s2, s);
                lemma_range(s3);
                if let Ok((_, s4)) = optional(range(s3), s3) {
                    lemma_suffix_transitive(s4, s3, s);
                    lemma_after_closing(s4);
                    if let Some(rest) = after(s4, ")"@) {
                        lemma_suffix_transitive(rest, s4, s);
                        assert(s4[0] == s[s.len() - s4.len()]);
                    }
                }
            }
        }
    }
}

} // verus!
