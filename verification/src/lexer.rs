//! The tokens of the notation: literals, runs of digits and of alphanumeric
//! characters, integers and numbers.
//!
//! Each token is cut off the text by a parser of `nom`. This module states
//! what those parsers return and proves what follows from it.

use vstd::prelude::*;

verus! {

#[verifier::external_type_specification]
#[verifier::external_body]
#[verifier::reject_recursive_types(E)]
pub struct ExNomErr<E>(nom::Err<E>);

#[verifier::external_type_specification]
#[verifier::external_body]
#[verifier::reject_recursive_types(I)]
pub struct ExNomError<I>(nom::error::Error<I>);

/// Whether `c` is one of the ASCII digits `0` to `9`.
pub open spec fn is_digit(c: char) -> bool {
    '0' <= c && c <= '9'
}

/// Whether `c` is an ASCII digit or an ASCII letter.
pub open spec fn is_alphanumeric(c: char) -> bool {
    is_digit(c) || ('a' <= c && c <= 'z') || ('A' <= c && c <= 'Z')
}

/// How many characters at the start of `s` belong to `class`, counted up to
/// the first one that does not.
pub open spec fn run_length(s: Seq<char>, class: spec_fn(char) -> bool) -> nat
    decreases s.len(),
{
    if s.len() > 0 && class(s[0]) {
        1 + run_length(s.skip(1), class)
    } else {
        0
    }
}

/// Whether every character of `s` belongs to `class`.
pub open spec fn all_in(s: Seq<char>, class: spec_fn(char) -> bool) -> bool {
    forall|i: int| 0 <= i < s.len() ==> class(#[trigger] s[i])
}

/// The longest run of digits at the start of `s`.
pub open spec fn leading_digits(s: Seq<char>) -> Seq<char> {
    s.take(run_length(s, |c: char| is_digit(c)) as int)
}

/// The longest run of alphanumeric characters at the start of `s`.
pub open spec fn leading_alphanumerics(s: Seq<char>) -> Seq<char> {
    s.take(run_length(s, |c: char| is_alphanumeric(c)) as int)
}

/// The number that the digits `s` denote in base ten; 0 for the empty text.
pub open spec fn decimal_value(s: Seq<char>) -> nat
    decreases s.len(),
{
    if s.len() == 0 {
        0
    } else {
        (decimal_value(s.drop_last()) * 10 + (s.last() as u32 - '0' as u32)) as nat
    }
}

/// The digit that stands for `d`, a number below ten.
pub open spec fn digit_of(d: nat) -> char {
    (('0' as u8 + d) as u8) as char
}

/// `n` written in base ten, without leading zeros.
pub open spec fn decimal(n: nat) -> Seq<char>
    decreases n,
{
    if n < 10 {
        seq![digit_of(n)]
    } else {
        decimal(n / 10).push(digit_of(n % 10))
    }
}

/// Whether `rest` is what remains of `text` after some of its first
/// characters are taken away.
pub open spec fn is_suffix(rest: Seq<char>, text: Seq<char>) -> bool {
    rest.len() <= text.len() && rest == text.skip(text.len() - rest.len())
}

/// A run is no longer than the text, holds only characters of the class, and
/// ends at the end of the text or before a character outside the class.
pub proof fn lemma_run_length(s: Seq<char>, class: spec_fn(char) -> bool)
    ensures
        run_length(s, class) <= s.len(),
        all_in(s.take(run_length(s, class) as int), class),
        run_length(s, class) < s.len() ==> !class(s[run_length(s, class) as int]),
    decreases s.len(),
{
    if s.len() > 0 && class(s[0]) {
        let tail = s.skip(1);
        lemma_run_length(tail, class);
        let n = run_length(tail, class) as int;
        assert forall|i: int| 0 <= i < n + 1 implies class(#[trigger] s.take(n + 1)[i]) by {
            if i > 0 {
                assert(tail.take(n)[i - 1] == s.take(n + 1)[i]);
            }
        }
        if n + 1 < s.len() {
            assert(tail[n] == s[n + 1]);
        }
    }
}

/// A text made of a run of the class and of a remainder that does not start
/// with a character of the class has exactly that run.
pub proof fn lemma_run_of_concat(run: Seq<char>, rest: Seq<char>, class: spec_fn(char) -> bool)
    requires
        all_in(run, class),
        rest.len() > 0 ==> !class(rest[0]),
    ensures
        run_length(run + rest, class) == run.len(),
        (run + rest).take(run.len() as int) == run,
        (run + rest).skip(run.len() as int) == rest,
    decreases run.len(),
{
    let s = run + rest;
    assert(s.take(run.len() as int) =~= run);
    assert(s.skip(run.len() as int) =~= rest);
    if run.len() > 0 {
        assert(s[0] == run[0]);
        let shorter = run.skip(1);
        assert(s.skip(1) =~= shorter + rest);
        assert forall|i: int| 0 <= i < shorter.len() implies class(#[trigger] shorter[i]) by {
            assert(shorter[i] == run[i + 1]);
        }
        lemma_run_of_concat(shorter, rest, class);
    } else {
        assert(s =~= rest);
    }
}

/// The digits of a text that is nothing but digits are the whole text.
pub proof fn lemma_leading_digits_of_digits(digits: Seq<char>, rest: Seq<char>)
    requires
        all_in(digits, |c: char| is_digit(c)),
        rest.len() > 0 ==> !is_digit(rest[0]),
    ensures
        leading_digits(digits + rest) == digits,
        (digits + rest).skip(digits.len() as int) == rest,
{
    lemma_run_of_concat(digits, rest, |c: char| is_digit(c));
}

/// The alphanumeric characters at the start of a text that begins with a run
/// of them, where the run ends the text or a character of another kind
/// follows it, are that run.
pub proof fn lemma_leading_alphanumerics_of_run(run: Seq<char>, rest: Seq<char>)
    requires
        all_in(run, |c: char| is_alphanumeric(c)),
        rest.len() > 0 ==> !is_alphanumeric(rest[0]),
    ensures
        leading_alphanumerics(run + rest) == run,
        (run + rest).skip(run.len() as int) == rest,
{
    lemma_run_of_concat(run, rest, |c: char| is_alphanumeric(c));
}

/// Writing a number in base ten and reading it back gives the number; what
/// is written is one digit at least, and nothing but digits.
pub proof fn lemma_decimal(n: nat)
    ensures
        decimal_value(decimal(n)) == n,
        decimal(n).len() > 0,
        all_in(decimal(n), |c: char| is_digit(c)),
    decreases n,
{
    let class = |c: char| is_digit(c);
    if n < 10 {
        assert(decimal(n).drop_last() =~= Seq::<char>::empty());
        assert(decimal_value(decimal(n).drop_last()) == 0);
    } else {
        lemma_decimal(n / 10);
        let front = decimal(n / 10);
        assert(decimal(n).drop_last() =~= front);
        assert forall|i: int| 0 <= i < decimal(n).len() implies class(#[trigger] decimal(n)[i]) by {
            if i < front.len() {
                assert(decimal(n)[i] == front[i]);
            }
        }
    }
}

/// `nom::bytes::complete::tag`, applied to `word`: when the input starts with
/// `word` it hands back the part after it and the part that matched; in every
/// other case it fails.
#[verifier::external_body]
pub(crate) fn literal<'a>(input: &'a str, word: &str) -> (r: Result<
    (&'a str, &'a str),
    nom::Err<nom::error::Error<&'a str>>,
>)
    ensures
        match r {
            Ok((rest, found)) => word@.is_prefix_of(input@) && found@ == word@ && rest@
                == input@.skip(word@.len() as int),
            Err(_) => !word@.is_prefix_of(input@),
        },
{
    nom::bytes::complete::tag(word)(input)
}

/// `nom::character::complete::alphanumeric1`: splits the longest run of ASCII
/// digits and letters off the start of the input, and fails when the input
/// does not start with one of them.
#[verifier::external_body]
pub(crate) fn alphanumerics<'a>(input: &'a str) -> (r: Result<
    (&'a str, &'a str),
    nom::Err<nom::error::Error<&'a str>>,
>)
    ensures
        match r {
            Ok((rest, run)) => run@ == leading_alphanumerics(input@) && run@.len() > 0 && rest@
                == input@.skip(run@.len() as int),
            Err(_) => leading_alphanumerics(input@).len() == 0,
        },
{
    nom::character::complete::alphanumeric1(input)
}

/// `nom::character::complete::u8`: reads the digits at the start of the input
/// as a number in base ten and hands back the text after them. It fails when
/// the input does not start with a digit and when the number is above 255.
#[verifier::external_body]
pub(crate) fn integer_u8<'a>(input: &'a str) -> (r: Result<
    (&'a str, u8),
    nom::Err<nom::error::Error<&'a str>>,
>)
    ensures
        match r {
            Ok((rest, value)) => leading_digits(input@).len() > 0 && value == decimal_value(
                leading_digits(input@),
            ) && rest@ == input@.skip(leading_digits(input@).len() as int),
            Err(_) => leading_digits(input@).len() == 0 || decimal_value(leading_digits(input@))
                > u8::MAX,
        },
{
    nom::character::complete::u8(input)
}

/// `nom::character::complete::u32`: reads the digits at the start of the
/// input as a number in base ten and hands back the text after them. It fails
/// when the input does not start with a digit and when the number is above
/// 4294967295.
#[verifier::external_body]
pub(crate) fn integer_u32<'a>(input: &'a str) -> (r: Result<
    (&'a str, u32),
    nom::Err<nom::error::Error<&'a str>>,
>)
    ensures
        match r {
            Ok((rest, value)) => leading_digits(input@).len() > 0 && value == decimal_value(
                leading_digits(input@),
            ) && rest@ == input@.skip(leading_digits(input@).len() as int),
            Err(_) => leading_digits(input@).len() == 0 || decimal_value(leading_digits(input@))
                > u32::MAX,
        },
{
    nom::character::complete::u32(input)
}

/// What stands at the start of a text where a number is looked for.
pub enum NumberScan<'a> {
    /// A number, as the bit pattern of its single-precision value, and the
    /// text after it.
    Number(u32, &'a str),
    /// The text does not start with a number.
    Absent,
    /// A number starts, but its exponent marker is not followed by digits.
    Malformed,
}

/// The mathematical value of a [`NumberScan`].
pub enum NumberScanView {
    Number(u32, Seq<char>),
    Absent,
    Malformed,
}

impl<'a> View for NumberScan<'a> {
    type V = NumberScanView;

    open spec fn view(&self) -> NumberScanView {
        match *self {
            NumberScan::Number(bits, rest) => NumberScanView::Number(bits, rest@),
            NumberScan::Absent => NumberScanView::Absent,
            NumberScan::Malformed => NumberScanView::Malformed,
        }
    }
}

/// What `nom::number::complete::float` makes of a text.
pub uninterp spec fn scan_number(text: Seq<char>) -> NumberScanView;

/// `nom::number::complete::float`: reads a number in decimal or exponent
/// notation at the start of the input. The outcome is the one that
/// [`scan_number`] names; the text after a number is a part of the input.
/// `Absent` stands for the parser's `Error`, `Malformed` for its `Failure`.
#[verifier::external_body]
pub(crate) fn number<'a>(input: &'a str) -> (r: NumberScan<'a>)
    ensures
        r@ == scan_number(input@),
        r matches NumberScan::Number(_, rest) ==> is_suffix(rest@, input@),
{
    match nom::number::complete::float::<&str, nom::error::Error<&str>>(input) {
        Ok((rest, value)) => NumberScan::Number(value.to_bits(), rest),
        Err(nom::Err::Failure(_)) => NumberScan::Malformed,
        Err(nom::Err::Error(_)) => NumberScan::Absent,
        Err(nom::Err::Incomplete(_)) => NumberScan::Absent,
    }
}

} // verus!
