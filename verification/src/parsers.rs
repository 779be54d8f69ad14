//! The parsers: one function for each production of [`crate::grammar`].
//!
//! A parser takes a text and hands back what is left of it together with the
//! value that it read. Where it fails it has read nothing, so the caller can
//! go on with another parser at the same place.

use crate::error::ParseError;
use crate::grammar;
use crate::grammar::Parsed;
use crate::lexer::{alphanumerics, integer_u32, integer_u8, literal, number, NumberScan};
use crate::syntax::{
    Assertion, CharacterOffset, Fragment, LocalPath, Offset, Path, Range, RedirectedPath,
    SpatialOffset, Step, TemporalOffset,
};
use vstd::prelude::*;

verus! {

/// What a parser found, as the grammar speaks of it: the value by its view,
/// the rest as a sequence of characters.
pub open spec fn outcome<T: DeepView>(r: Result<(&str, T), ParseError>) -> Parsed<T::V> {
    match r {
        Ok((rest, value)) => Ok((value.deep_view(), rest@)),
        Err(e) => Err(e),
    }
}

/// Reads `key=value`, where both sides are runs of digits and letters.
pub fn parameter<'a>(input: &'a str) -> (r: Result<(&'a str, (&'a str, &'a str)), ParseError>)
    ensures
        outcome(r) == grammar::parameter(input@),
{
    proof {
        reveal(grammar::parameter);
    }
    let (rest, key) = match alphanumerics(input) {
        Ok(found) => found,
        Err(_) => return Err(ParseError::Syntax),
    };
    let rest = match literal(rest, "=") {
        Ok((rest, _)) => rest,
        Err(_) => return Err(ParseError::Syntax),
    };
    let (rest, value) = match alphanumerics(rest) {
        Ok(found) => found,
        Err(_) => return Err(ParseError::Syntax),
    };
    Ok((rest, (key, value)))
}

/// Reads one or more parameters separated by `;`, in the order of the text.
pub fn parameter1<'a>(input: &'a str) -> (r: Result<(&'a str, Vec<(&'a str, &'a str)>), ParseError>)
    ensures
        outcome(r) == grammar::parameter1(input@),
{
    proof {
        reveal(grammar::parameter1);
        reveal(grammar::more_parameters);
    }
    let (mut rest, first) = match parameter(input) {
        Ok(found) => found,
        Err(e) => return Err(e),
    };
    let mut pairs: Vec<(&'a str, &'a str)> = Vec::new();
    pairs.push(first);
    assert(pairs.deep_view() =~= seq![first.deep_view()]);
    loop
        invariant
            grammar::parameter1(input@) == Ok::<_, ParseError>(
                (
                    pairs.deep_view() + grammar::more_parameters(rest@).0,
                    grammar::more_parameters(rest@).1,
                ),
            ),
        ensures
            grammar::parameter1(input@) == Ok::<_, ParseError>((pairs.deep_view(), rest@)),
        decreases rest@.len(),
    {
        let ghost before = pairs.deep_view();
        proof {
            reveal(grammar::more_parameters);
        }
        let candidate = match literal(rest, ";") {
            Ok((candidate, _)) => candidate,
            Err(_) => {
                assert(before + Seq::empty() =~= before);
                break ;
            },
        };
        let (next, pair) = match parameter(candidate) {
            Ok(found) => found,
            Err(_) => {
                assert(before + Seq::empty() =~= before);
                break ;
            },
        };
        proof {
            grammar::lemma_after(rest@, ";"@);
            grammar::lemma_parameter(candidate@);
        }
        pairs.push(pair);
        assert(pairs.deep_view() =~= before.push(pair.deep_view()));
        assert(before + (seq![pair.deep_view()] + grammar::more_parameters(next@).0)
            =~= pairs.deep_view() + grammar::more_parameters(next@).0);
        rest = next;
    }
    Ok((rest, pairs))
}

/// Reads what stands between the brackets of an assertion: a parameter list
/// or, where the text does not start with one, a run of digits and letters.
pub fn params_or_value<'a>(input: &'a str) -> (r: Result<
    (&'a str, (Option<Vec<(&'a str, &'a str)>>, Option<&'a str>)),
    ParseError,
>)
    ensures
        outcome(r) == grammar::params_or_value(input@),
{
    proof {
        reveal(grammar::params_or_value);
    }
    match parameter1(input) {
        Ok((rest, pairs)) => Ok((rest, (Some(pairs), None))),
        Err(_) => match alphanumerics(input) {
            Ok((rest, value)) => Ok((rest, (None, Some(value)))),
            Err(_) => Err(ParseError::Syntax),
        },
    }
}

/// Copies borrowed parameters into owned ones.
fn owned_parameters(pairs: &Vec<(&str, &str)>) -> (r: Vec<(String, String)>)
    ensures
        r.deep_view() == pairs.deep_view(),
{
    let mut owned: Vec<(String, String)> = Vec::new();
    let mut i: usize = 0;
    while i < pairs.len()
        invariant
            i <= pairs.len(),
            owned.len() == i,
            forall|j: int| 0 <= j < i ==> owned@[j].deep_view() == pairs@[j].deep_view(),
        decreases pairs.len() - i,
    {
        let (key, value) = pairs[i];
        owned.push((key.to_owned(), value.to_owned()));
        i += 1;
    }
    assert(owned.deep_view() =~= pairs.deep_view());
    owned
}

/// Reads an assertion: `[`, a parameter list or a bare value, `]`.
///
/// The error is `Syntax` where the text does not start with `[`, and
/// `Assertion` where the bracket does not hold one of the two forms or is not
/// closed behind it.
pub fn assertion<'a>(input: &'a str) -> (r: Result<(&'a str, Assertion), ParseError>)
    ensures
        outcome(r) == grammar::assertion(input@),
        r matches Ok((_, found)) ==> found@.wf(),
{
    proof {
        reveal(grammar::assertion);
    }
    let rest = match literal(input, "[") {
        Ok((rest, _)) => rest,
        Err(_) => return Err(ParseError::Syntax),
    };
    let (rest, (pairs, bare)) = match params_or_value(rest) {
        Ok(found) => found,
        Err(_) => return Err(ParseError::Assertion),
    };
    let rest = match literal(rest, "]") {
        Ok((rest, _)) => rest,
        Err(_) => return Err(ParseError::Assertion),
    };
    let parameters = match &pairs {
        Some(pairs) => Some(owned_parameters(pairs)),
        None => None,
    };
    let value = match bare {
        Some(bare) => Some(bare.to_owned()),
        None => None,
    };
    proof {
        grammar::lemma_assertion(input@);
    }
    Ok((rest, Assertion::new(parameters, value)))
}

/// Reads an assertion if the text starts with one, and nothing if not.
fn optional_assertion<'a>(input: &'a str) -> (r: (&'a str, Option<Assertion>))
    ensures
        (r.1.deep_view(), r.0@) == grammar::optional_assertion(input@),
        crate::syntax::optional_wf(r.1.deep_view()),
{
    match assertion(input) {
        Ok((rest, found)) => (rest, Some(found)),
        Err(_) => (input, None),
    }
}

/// Reads a step: `/`, an integer up to 255 and an optional assertion.
pub fn step<'a>(input: &'a str) -> (r: Result<(&'a str, Step), ParseError>)
    ensures
        outcome(r) == grammar::step(input@),
        r matches Ok((_, found)) ==> found@.wf(),
{
    proof {
        reveal(grammar::step);
    }
    let rest = match literal(input, "/") {
        Ok((rest, _)) => rest,
        Err(_) => return Err(ParseError::Syntax),
    };
    let (rest, size) = match integer_u8(rest) {
        Ok(found) => found,
        Err(_) => return Err(ParseError::Syntax),
    };
    let (rest, assertion) = optional_assertion(rest);
    Ok((rest, Step::new(size, assertion)))
}

/// Reads a character offset: `:`, an integer up to 4294967295 and an
/// optional assertion.
pub fn character_offset<'a>(input: &'a str) -> (r: Result<(&'a str, Offset), ParseError>)
    ensures
        outcome(r) == grammar::character_offset(input@),
        r matches Ok((_, found)) ==> found@.wf(),
{
    proof {
        reveal(grammar::character_offset);
    }
    let rest = match literal(input, ":") {
        Ok((rest, _)) => rest,
        Err(_) => return Err(ParseError::Syntax),
    };
    let (rest, point) = match integer_u32(rest) {
        Ok(found) => found,
        Err(_) => return Err(ParseError::Syntax),
    };
    let (rest, assertion) = optional_assertion(rest);
    Ok((rest, Offset::Character(CharacterOffset::new(point, assertion))))
}

/// Reads a number and hands back the bit pattern of its value.
///
/// The error is `MalformedNumber` where a number starts and its exponent
/// marker has no digits behind it, and `Syntax` where no number starts.
pub fn number_bits<'a>(input: &'a str) -> (r: Result<(&'a str, u32), ParseError>)
    ensures
        outcome(r) == grammar::number(input@),
{
    match number(input) {
        NumberScan::Number(bits, rest) => Ok((rest, bits)),
        NumberScan::Absent => Err(ParseError::Syntax),
        NumberScan::Malformed => Err(ParseError::MalformedNumber),
    }
}

/// Reads a number if the text starts with one, and nothing if not.
fn optional_number<'a>(input: &'a str) -> (r: Result<(&'a str, Option<u32>), ParseError>)
    ensures
        outcome(r) == grammar::optional(grammar::number(input@), input@),
{
    match number_bits(input) {
        Ok((rest, bits)) => Ok((rest, Some(bits))),
        Err(e) => if e.is_recoverable() {
            Ok((input, None))
        } else {
            Err(e)
        },
    }
}

/// Completes a spatial offset whose numbers have been read: reads the
/// optional assertion that follows them and builds the offset.
pub fn spatial_offset_from<'a>(start: u32, end: Option<u32>, input: &'a str) -> (r: (
    &'a str,
    Offset,
))
    ensures
        (r.1@, r.0@) == grammar::spatial_offset_from(start, end, input@),
        r.1@.wf(),
{
    let (rest, assertion) = optional_assertion(input);
    (rest, Offset::Spatial(SpatialOffset::new(start, end, assertion)))
}

/// Reads a spatial offset: `@`, a number, `:`, an optional number and an
/// optional assertion.
pub fn spatial_offset<'a>(input: &'a str) -> (r: Result<(&'a str, Offset), ParseError>)
    ensures
        outcome(r) == grammar::spatial_offset(input@),
        r matches Ok((_, found)) ==> found@.wf(),
{
    proof {
        reveal(grammar::spatial_offset);
    }
    let rest = match literal(input, "@") {
        Ok((rest, _)) => rest,
        Err(_) => return Err(ParseError::Syntax),
    };
    let (rest, start) = match number_bits(rest) {
        Ok(found) => found,
        Err(e) => return Err(e),
    };
    let rest = match literal(rest, ":") {
        Ok((rest, _)) => rest,
        Err(_) => return Err(ParseError::Syntax),
    };
    let (rest, end) = match optional_number(rest) {
        Ok(found) => found,
        Err(e) => return Err(e),
    };
    Ok(spatial_offset_from(start, end, rest))
}

/// Reads the spatial range of a temporal offset: `@`, a number, `:` and a
/// number.
fn spatial_range<'a>(input: &'a str) -> (r: Result<(&'a str, (u32, u32)), ParseError>)
    ensures
        outcome(r) == grammar::spatial_range(input@),
{
    proof {
        reveal(grammar::spatial_range);
    }
    let rest = match literal(input, "@") {
        Ok((rest, _)) => rest,
        Err(_) => return Err(ParseError::Syntax),
    };
    let (rest, start) = match number_bits(rest) {
        Ok(found) => found,
        Err(e) => return Err(e),
    };
    let rest = match literal(rest, ":") {
        Ok((rest, _)) => rest,
        Err(_) => return Err(ParseError::Syntax),
    };
    let (rest, end) = match number_bits(rest) {
        Ok(found) => found,
        Err(e) => return Err(e),
    };
    Ok((rest, (start, end)))
}

/// Completes a temporal offset whose numbers have been read: reads the
/// optional assertion that follows them and builds the offset.
pub fn temporal_offset_from<'a>(start: u32, range: Option<(u32, u32)>, input: &'a str) -> (r: (
    &'a str,
    Offset,
))
    ensures
        (r.1@, r.0@) == grammar::temporal_offset_from(start, range, input@),
        r.1@.wf(),
{
    let (rest, assertion) = optional_assertion(input);
    (rest, Offset::Temporal(TemporalOffset::new(start, range, assertion)))
}

/// Reads a temporal offset: `~`, a number, an optional spatial range and an
/// optional assertion.
pub fn temporal_offset<'a>(input: &'a str) -> (r: Result<(&'a str, Offset), ParseError>)
    ensures
        outcome(r) == grammar::temporal_offset(input@),
        r matches Ok((_, found)) ==> found@.wf(),
{
    proof {
        reveal(grammar::temporal_offset);
    }
    let rest = match literal(input, "~") {
        Ok((rest, _)) => rest,
        Err(_) => return Err(ParseError::Syntax),
    };
    let (rest, start) = match number_bits(rest) {
        Ok(found) => found,
        Err(e) => return Err(e),
    };
    let (rest, range) = match spatial_range(rest) {
        Ok((rest, range)) => (rest, Some(range)),
        Err(e) => if e.is_recoverable() {
            (rest, None)
        } else {
            return Err(e);
        },
    };
    Ok(temporal_offset_from(start, range, rest))
}

/// Reads an offset of any of the three kinds. The mark that the text starts
/// with decides which: `~`, `@` and `:` are looked for in this order.
///
/// The error is `Offset` where the text starts with none of the marks, and
/// else the error of the offset that the mark announces.
pub fn offset<'a>(input: &'a str) -> (r: Result<(&'a str, Offset), ParseError>)
    ensures
        outcome(r) == grammar::offset(input@),
        r matches Ok((_, found)) ==> found@.wf(),
{
    proof {
        reveal(grammar::offset);
    }
    if literal(input, "~").is_ok() {
        temporal_offset(input)
    } else if literal(input, "@").is_ok() {
        spatial_offset(input)
    } else if literal(input, ":").is_ok() {
        character_offset(input)
    } else {
        Err(ParseError::Offset)
    }
}

/// Reads as many steps as follow one another.
fn steps<'a>(input: &'a str) -> (r: (&'a str, Vec<Step>))
    ensures
        (r.1.deep_view(), r.0@) == grammar::steps(input@),
{
    let mut rest = input;
    let mut found: Vec<Step> = Vec::new();
    assert(found.deep_view() =~= Seq::empty());
    assert(Seq::empty() + grammar::steps(input@).0 =~= grammar::steps(input@).0);
    loop
        invariant
            grammar::steps(input@).0 == found.deep_view() + grammar::steps(rest@).0,
            grammar::steps(input@).1 == grammar::steps(rest@).1,
        ensures
            grammar::steps(input@) == (found.deep_view(), rest@),
        decreases rest@.len(),
    {
        let ghost before = found.deep_view();
        proof {
            reveal(grammar::steps);
        }
        match step(rest) {
            Ok((next, one)) => {
                proof {
                    grammar::lemma_step(rest@);
                }
                found.push(one);
                assert(found.deep_view() =~= before.push(one@));
                assert(before + (seq![one@] + grammar::steps(next@).0) =~= found.deep_view()
                    + grammar::steps(next@).0);
                rest = next;
            },
            Err(_) => {
                assert(before + Seq::empty() =~= before);
                break ;
            },
        }
    }
    (rest, found)
}

/// Reads a local path: steps, then a redirection or, where none follows, an
/// optional offset. A local path without step, redirection and offset is
/// none: the error is then `Syntax`.
pub fn local_path<'a>(input: &'a str) -> (r: Result<(&'a str, LocalPath), ParseError>)
    ensures
        outcome(r) == grammar::local_path(input@),
        r matches Ok((_, found)) ==> found@.wf() && !found@.is_empty(),
    decreases input@.len(), 1nat,
{
    let (rest, found_steps) = steps(input);
    proof {
        grammar::lemma_steps(input@);
        grammar::lemma_local_path(input@);
    }
    match redirected_path(rest) {
        Ok((rest, redirected)) => Ok(
            (rest, LocalPath::new_with_redirected_path(found_steps, redirected)),
        ),
        Err(e) => {
            if !e.is_recoverable() {
                return Err(e);
            }
            match offset(rest) {
                Ok((rest, found)) => Ok(
                    (rest, LocalPath::new_with_offset(found_steps, Some(found))),
                ),
                Err(e) => if !e.is_recoverable() {
                    Err(e)
                } else if found_steps.len() == 0 {
                    Err(ParseError::Syntax)
                } else {
                    Ok((rest, LocalPath::new_with_offset(found_steps, None)))
                },
            }
        },
    }
}

/// Reads a redirection: `!`, then a path or an offset.
pub fn redirected_path<'a>(input: &'a str) -> (r: Result<(&'a str, RedirectedPath), ParseError>)
    ensures
        outcome(r) == grammar::redirected_path(input@),
        r matches Ok((_, found)) ==> found@.wf(),
    decreases input@.len(), 0nat,
{
    let rest = match literal(input, "!") {
        Ok((rest, _)) => rest,
        Err(_) => return Err(ParseError::Syntax),
    };
    proof {
        reveal_strlit("!");
        grammar::lemma_redirected_path(input@);
    }
    let (rest, (path, offset)) = match path_or_offset(rest) {
        Ok(found) => found,
        Err(e) => return Err(e),
    };
    Ok((rest, RedirectedPath::new(Box::new(offset), Box::new(path))))
}

/// Reads a path or, where the text does not start with one, an offset.
/// Exactly one of the two comes back.
pub fn path_or_offset<'a>(input: &'a str) -> (r: Result<
    (&'a str, (Option<Path>, Option<Offset>)),
    ParseError,
>)
    ensures
        outcome(r) == grammar::path_or_offset(input@),
        r matches Ok((_, (found_path, found_offset))) ==> match (found_path, found_offset) {
            (Some(p), None) => p@.wf(),
            (None, Some(o)) => o@.wf(),
            _ => false,
        },
    decreases input@.len(), 1nat,
{
    match path(input) {
        Ok((rest, found)) => Ok((rest, (Some(found), None))),
        Err(e) => {
            if !e.is_recoverable() {
                return Err(e);
            }
            match offset(input) {
                Ok((rest, found)) => Ok((rest, (None, Some(found)))),
                Err(e) => Err(e),
            }
        },
    }
}

/// Reads a path: a step and a local path.
pub fn path<'a>(input: &'a str) -> (r: Result<(&'a str, Path), ParseError>)
    ensures
        outcome(r) == grammar::path(input@),
        r matches Ok((_, found)) ==> found@.wf() && !found@.local_path.is_empty(),
    decreases input@.len(), 0nat,
{
    let (rest, first) = match step(input) {
        Ok(found) => found,
        Err(e) => return Err(e),
    };
    proof {
        grammar::lemma_step(input@);
    }
    let (rest, local) = match local_path(rest) {
        Ok(found) => found,
        Err(e) => return Err(e),
    };
    Ok((rest, Path::new(first, local)))
}

/// Reads a range: `,`, a local path, `,` and a local path.
pub fn range<'a>(input: &'a str) -> (r: Result<(&'a str, Range), ParseError>)
    ensures
        outcome(r) == grammar::range(input@),
        r matches Ok((_, found)) ==> found@.wf(),
{
    proof {
        reveal(grammar::range);
    }
    let rest = match literal(input, ",") {
        Ok((rest, _)) => rest,
        Err(_) => return Err(ParseError::Syntax),
    };
    let (rest, start_point) = match local_path(rest) {
        Ok(found) => found,
        Err(e) => return Err(e),
    };
    let rest = match literal(rest, ",") {
        Ok((rest, _)) => rest,
        Err(_) => return Err(ParseError::Syntax),
    };
    let (rest, end_point) = match local_path(rest) {
        Ok(found) => found,
        Err(e) => return Err(e),
    };
    Ok((rest, Range::new(start_point, end_point)))
}

/// Reads a fragment: `epubcfi(`, a path, an optional range and `)`. What
/// follows the closing parenthesis is handed back unread.
pub fn fragment<'a>(input: &'a str) -> (r: Result<(&'a str, Fragment), ParseError>)
    ensures
        outcome(r) == grammar::fragment(input@),
        r matches Ok((_, found)) ==> found@.wf(),
{
    let rest = match literal(input, "epubcfi") {
        Ok((rest, _)) => rest,
        Err(_) => return Err(ParseError::Syntax),
    };
    let rest = match literal(rest, "(") {
        Ok((rest, _)) => rest,
        Err(_) => return Err(ParseError::Syntax),
    };
    let (rest, path) = match path(rest) {
        Ok(found) => found,
        Err(e) => return Err(e),
    };
    let (rest, range) = match range(rest) {
        Ok((rest, range)) => (rest, Some(range)),
        Err(e) => if e.is_recoverable() {
            (rest, None)
        } else {
            return Err(e);
        },
    };
    let rest = match literal(rest, ")") {
        Ok((rest, _)) => rest,
        Err(_) => return Err(ParseError::Syntax),
    };
    let found = match range {
        Some(range) => Fragment::new_with_range(path, range),
        None => Fragment::new(path),
    };
    Ok((rest, found))
}

/// Parses a whole fragment identifier. The text has to be a fragment from
/// its first character to its last.
///
/// The error is `IncompleteInput` where a fragment is read and characters
/// are left behind it, and else the error of [`fragment`].
pub fn parse_fragment(input: &str) -> (r: Result<Fragment, ParseError>)
    ensures
        match r {
            Ok(found) => grammar::whole_fragment(input@) == Ok::<_, ParseError>(found@)
                && found@.wf(),
            Err(e) => grammar::whole_fragment(input@) == Err::<crate::syntax::FragmentView, _>(e),
        },
{
    match fragment(input) {
        Ok((rest, found)) => if rest.is_empty() {
            Ok(found)
        } else {
            Err(ParseError::IncompleteInput)
        },
        Err(e) => Err(e),
    }
}

} // verus!
