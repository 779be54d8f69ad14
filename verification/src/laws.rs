//! What holds of the grammar for every text.

use crate::error::ParseError;
use crate::grammar;
use crate::lexer::{
    all_in, decimal, decimal_value, is_alphanumeric, is_digit, lemma_decimal,
    lemma_leading_alphanumerics_of_run, lemma_leading_digits_of_digits, run_length,
};
use crate::syntax::{AssertionView, StepView};
use vstd::prelude::*;

verus! {

/// A text that starts with a character of one's choosing.
proof fn lemma_after_mark(mark: Seq<char>, rest: Seq<char>)
    ensures
        grammar::after(mark + rest, mark) == Some(rest),
{
    assert((mark + rest).subrange(0, mark.len() as int) =~= mark);
    assert((mark + rest).skip(mark.len() as int) =~= rest);
}

/// A text that starts with another character than the mark does not start
/// with the mark.
proof fn lemma_not_after(s: Seq<char>, mark: Seq<char>)
    requires
        mark.len() == 1,
        s.len() == 0 || s[0] != mark[0],
    ensures
        grammar::after(s, mark) is None,
{
    if mark.is_prefix_of(s) {
        assert(s.subrange(0, 1)[0] == s[0]);
    }
}

/// No assertion is read from a text that does not start with `[`.
proof fn lemma_no_assertion(s: Seq<char>)
    requires
        s.len() == 0 || s[0] != '[',
    ensures
        grammar::optional_assertion(s) == (None::<AssertionView>, s),
{
    reveal(grammar::assertion);
    reveal_strlit("[");
    lemma_not_after(s, "["@);
}

/// A step whose index is written with the digits `digits` has the number
/// that they denote as its size and no assertion, provided that the number is
/// at most 255. Above 255 no step is read.
pub proof fn law_step_reads_digits(digits: Seq<char>)
    requires
        digits.len() > 0,
        all_in(digits, |c: char| is_digit(c)),
    ensures
        decimal_value(digits) <= 255 ==> grammar::step("/"@ + digits) == Ok::<_, ParseError>(
            (StepView { size: decimal_value(digits) as u8, assertion: None }, Seq::<char>::empty()),
        ),
        decimal_value(digits) > 255 ==> grammar::step("/"@ + digits) == Err::<
            (StepView, Seq<char>),
            _,
        >(ParseError::Syntax),
{
    reveal(grammar::step);
    let empty = Seq::<char>::empty();
    lemma_after_mark("/"@, digits);
    lemma_leading_digits_of_digits(digits, empty);
    assert(digits + empty =~= digits);
    lemma_no_assertion(empty);
}

/// For every `n` from 0 to 255, the text made of `/` and of `n` in base ten
/// is read as the step of size `n` without an assertion, and nothing is left
/// of it. For every greater `n` no step is read.
pub proof fn law_step_of_index(n: nat)
    ensures
        n <= 255 ==> grammar::step("/"@ + decimal(n)) == Ok::<_, ParseError>(
            (StepView { size: n as u8, assertion: None }, Seq::<char>::empty()),
        ),
        n > 255 ==> grammar::step("/"@ + decimal(n)) is Err,
{
    lemma_decimal(n);
    law_step_reads_digits(decimal(n));
}

/// `key=value` is read as the pair of `key` and `value` where both are runs
/// of digits and letters and no digit or letter follows.
proof fn lemma_parameter_reads(key: Seq<char>, value: Seq<char>, rest: Seq<char>)
    requires
        key.len() > 0,
        value.len() > 0,
        all_in(key, |c: char| is_alphanumeric(c)),
        all_in(value, |c: char| is_alphanumeric(c)),
        rest.len() > 0 ==> !is_alphanumeric(rest[0]),
    ensures
        grammar::parameter(key + ("="@ + (value + rest))) == Ok::<_, ParseError>(
            ((key, value), rest),
        ),
{
    reveal(grammar::parameter);
    reveal_strlit("=");
    let tail = "="@ + (value + rest);
    assert(tail[0] == '=');
    lemma_leading_alphanumerics_of_run(key, tail);
    lemma_after_mark("="@, value + rest);
    lemma_leading_alphanumerics_of_run(value, rest);
}

/// No further parameter is read where the text does not go on with `;`.
proof fn lemma_no_more_parameters(s: Seq<char>)
    requires
        s.len() == 0 || s[0] != ';',
    ensures
        grammar::more_parameters(s) == (Seq::<(Seq<char>, Seq<char>)>::empty(), s),
{
    reveal(grammar::more_parameters);
    reveal_strlit(";");
    lemma_not_after(s, ";"@);
}

/// An assertion that holds one parameter, `[key=value]`, is read as the list
/// of that one pair, and what follows the bracket is left.
pub proof fn law_assertion_with_one_parameter(key: Seq<char>, value: Seq<char>, rest: Seq<char>)
    requires
        key.len() > 0,
        value.len() > 0,
        all_in(key, |c: char| is_alphanumeric(c)),
        all_in(value, |c: char| is_alphanumeric(c)),
    ensures
        grammar::assertion("["@ + key + "="@ + value + "]"@ + rest) == Ok::<_, ParseError>(
            (AssertionView { parameters: Some(seq![(key, value)]), value: None }, rest),
        ),
{
    reveal(grammar::parameter1);
    let closing = "]"@ + rest;
    let inner = key + ("="@ + (value + closing));
    assert(closing[0] == ']') by {
        reveal_strlit("]");
    }
    lemma_parameter_reads(key, value, closing);
    lemma_no_more_parameters(closing);
    assert(seq![(key, value)] + Seq::empty() =~= seq![(key, value)]);
    lemma_bracketed_parameters(inner, seq![(key, value)], rest);
    assert("["@ + key + "="@ + value + "]"@ + rest =~= "["@ + inner);
}

/// Two parameters with `;` between them are read as the list of the two.
proof fn lemma_two_parameters_read(
    key1: Seq<char>,
    value1: Seq<char>,
    key2: Seq<char>,
    value2: Seq<char>,
    closing: Seq<char>,
)
    requires
        key1.len() > 0,
        value1.len() > 0,
        key2.len() > 0,
        value2.len() > 0,
        all_in(key1, |c: char| is_alphanumeric(c)),
        all_in(value1, |c: char| is_alphanumeric(c)),
        all_in(key2, |c: char| is_alphanumeric(c)),
        all_in(value2, |c: char| is_alphanumeric(c)),
        closing.len() > 0 ==> !is_alphanumeric(closing[0]) && closing[0] != ';',
    ensures
        grammar::parameter1(
            key1 + ("="@ + (value1 + (";"@ + (key2 + ("="@ + (value2 + closing)))))),
        ) == Ok::<_, ParseError>((seq![(key1, value1), (key2, value2)], closing)),
{
    reveal(grammar::parameter1);
    reveal(grammar::more_parameters);
    reveal_strlit(";");
    let second = key2 + ("="@ + (value2 + closing));
    let separated = ";"@ + second;
    assert(separated[0] == ';');
    lemma_parameter_reads(key1, value1, separated);
    lemma_after_mark(";"@, second);
    lemma_parameter_reads(key2, value2, closing);
    lemma_no_more_parameters(closing);
    assert(grammar::more_parameters(separated) == (
        seq![(key2, value2)] + Seq::empty(),
        closing,
    ));
    assert(seq![(key1, value1)] + (seq![(key2, value2)] + Seq::empty()) =~= seq![
        (key1, value1),
        (key2, value2),
    ]);
}

/// A parameter list between brackets is read as an assertion of that list.
proof fn lemma_bracketed_parameters(
    inner: Seq<char>,
    pairs: Seq<(Seq<char>, Seq<char>)>,
    rest: Seq<char>,
)
    requires
        grammar::parameter1(inner) == Ok::<_, ParseError>((pairs, "]"@ + rest)),
    ensures
        grammar::assertion("["@ + inner) == Ok::<_, ParseError>(
            (AssertionView { parameters: Some(pairs), value: None }, rest),
        ),
{
    reveal(grammar::params_or_value);
    reveal(grammar::assertion);
    lemma_after_mark("["@, inner);
    lemma_after_mark("]"@, rest);
}

/// An assertion that holds two parameters, `[key1=value1;key2=value2]`, is
/// read as the list of the two pairs in the order of the text.
pub proof fn law_assertion_with_two_parameters(
    key1: Seq<char>,
    value1: Seq<char>,
    key2: Seq<char>,
    value2: Seq<char>,
    rest: Seq<char>,
)
    requires
        key1.len() > 0,
        value1.len() > 0,
        key2.len() > 0,
        value2.len() > 0,
        all_in(key1, |c: char| is_alphanumeric(c)),
        all_in(value1, |c: char| is_alphanumeric(c)),
        all_in(key2, |c: char| is_alphanumeric(c)),
        all_in(value2, |c: char| is_alphanumeric(c)),
    ensures
        grammar::assertion(
            "["@ + key1 + "="@ + value1 + ";"@ + key2 + "="@ + value2 + "]"@ + rest,
        ) == Ok::<_, ParseError>(
            (
                AssertionView {
                    parameters: Some(seq![(key1, value1), (key2, value2)]),
                    value: None,
                },
                rest,
            ),
        ),
{
    let closing = "]"@ + rest;
    let inner = key1 + ("="@ + (value1 + (";"@ + (key2 + ("="@ + (value2 + closing))))));
    assert(closing[0] == ']') by {
        reveal_strlit("]");
    }
    lemma_two_parameters_read(key1, value1, key2, value2, closing);
    lemma_bracketed_parameters(inner, seq![(key1, value1), (key2, value2)], rest);
    assert("["@ + key1 + "="@ + value1 + ";"@ + key2 + "="@ + value2 + "]"@ + rest =~= "["@
        + inner);
}

/// An assertion that holds a run of digits and letters and nothing else,
/// `[value]`, is read as the bare value `value`, without parameters.
pub proof fn law_assertion_with_value(value: Seq<char>, rest: Seq<char>)
    requires
        value.len() > 0,
        all_in(value, |c: char| is_alphanumeric(c)),
    ensures
        grammar::assertion("["@ + value + "]"@ + rest) == Ok::<_, ParseError>(
            (AssertionView { parameters: None, value: Some(value) }, rest),
        ),
{
    reveal(grammar::params_or_value);
    reveal(grammar::parameter1);
    reveal(grammar::parameter);
    reveal(grammar::assertion);
    reveal_strlit("]");
    reveal_strlit("=");
    let closing = "]"@ + rest;
    let inner = value + closing;
    assert("["@ + value + "]"@ + rest =~= "["@ + inner);
    lemma_after_mark("["@, inner);
    assert(closing[0] == ']');
    lemma_leading_alphanumerics_of_run(value, closing);
    lemma_not_after(closing, "="@);
    lemma_after_mark("]"@, rest);
}

/// An assertion that holds digits and nothing else, `[digits]`, is read as
/// the bare value `digits`, without parameters.
pub proof fn law_assertion_with_digits(digits: Seq<char>, rest: Seq<char>)
    requires
        digits.len() > 0,
        all_in(digits, |c: char| is_digit(c)),
    ensures
        grammar::assertion("["@ + digits + "]"@ + rest) == Ok::<_, ParseError>(
            (AssertionView { parameters: None, value: Some(digits) }, rest),
        ),
{
    law_assertion_with_value(digits, rest);
}

/// An empty bracket is no assertion.
pub proof fn law_empty_bracket_is_rejected(rest: Seq<char>)
    ensures
        grammar::assertion("["@ + "]"@ + rest) == Err::<(AssertionView, Seq<char>), _>(
            ParseError::Assertion,
        ),
{
    reveal(grammar::params_or_value);
    reveal(grammar::parameter1);
    reveal(grammar::parameter);
    reveal(grammar::assertion);
    reveal_strlit("]");
    let closing = "]"@ + rest;
    assert("["@ + "]"@ + rest =~= "["@ + closing);
    lemma_after_mark("["@, closing);
    assert(closing[0] == ']');
    assert(run_length(closing, |c: char| is_alphanumeric(c)) == 0);
}

/// A fragment is read only where a `)` closes it: the character before the
/// rest is `)`. So no fragment is read from a text without `)`, and a text
/// that is a fragment as a whole ends in `)`.
pub proof fn law_fragment_is_closed(s: Seq<char>)
    ensures
        grammar::fragment(s) matches Ok((_, rest)) ==> rest.len() < s.len() && s[s.len()
            - rest.len() - 1] == ')',
        grammar::whole_fragment(s) is Ok ==> s.len() > 0 && s.last() == ')',
        !s.contains(')') ==> grammar::fragment(s) is Err && grammar::whole_fragment(s) is Err,
{
    grammar::lemma_fragment(s);
}

/// What a text starts with where one of the marked productions reads it.
proof fn lemma_first_characters(s: Seq<char>)
    ensures
        grammar::step(s) is Ok ==> s.len() > 0 && s[0] == '/',
        grammar::temporal_offset(s) is Ok ==> s.len() > 0 && s[0] == '~',
        grammar::spatial_offset(s) is Ok ==> s.len() > 0 && s[0] == '@',
        grammar::character_offset(s) is Ok ==> s.len() > 0 && s[0] == ':',
        grammar::redirected_path(s) is Ok ==> s.len() > 0 && s[0] == '!',
{
    reveal(grammar::step);
    reveal(grammar::temporal_offset);
    reveal(grammar::spatial_offset);
    reveal(grammar::character_offset);
    reveal_strlit("/");
    reveal_strlit("~");
    reveal_strlit("@");
    reveal_strlit(":");
    reveal_strlit("!");
    if s.len() > 0 {
        assert(s.subrange(0, 1)[0] == s[0]);
    }
}

/// No text is read by two alternatives of a choice: the three kinds of
/// offset exclude one another, and so do a path and an offset behind `!`, and
/// a redirection and an offset behind the steps of a local path. The order in
/// which the alternatives are tried therefore decides no outcome.
pub proof fn law_alternatives_exclude_one_another(s: Seq<char>)
    ensures
        !(grammar::temporal_offset(s) is Ok && grammar::spatial_offset(s) is Ok),
        !(grammar::temporal_offset(s) is Ok && grammar::character_offset(s) is Ok),
        !(grammar::spatial_offset(s) is Ok && grammar::character_offset(s) is Ok),
        grammar::offset(s) is Ok <==> grammar::temporal_offset(s) is Ok || grammar::spatial_offset(
            s,
        ) is Ok || grammar::character_offset(s) is Ok,
        !(grammar::path(s) is Ok && grammar::offset(s) is Ok),
        !(grammar::redirected_path(s) is Ok && grammar::offset(s) is Ok),
{
    reveal(grammar::offset);
    lemma_first_characters(s);
    reveal_strlit("~");
    reveal_strlit("@");
    reveal_strlit(":");
    if s.len() > 0 {
        assert(s.subrange(0, 1)[0] == s[0]);
        assert(s.subrange(0, 1) =~= seq![s[0]]);
        assert("~"@ =~= seq!['~']);
        assert("@"@ =~= seq!['@']);
        assert(":"@ =~= seq![':']);
    }
}

/// Between the brackets of an assertion a text is not both a parameter list
/// and a bare value: where a parameter list is read, `=` follows the digits
/// and letters at the start of the text, so `]` does not.
pub proof fn law_assertion_forms_exclude_one_another(s: Seq<char>)
    ensures
        !({
            &&& grammar::parameter1(s) is Ok
            &&& grammar::alphanumeric_run(s) matches Ok((_, after_value))
            &&& grammar::after(after_value, "]"@) is Some
        }),
{
    reveal(grammar::parameter1);
    reveal(grammar::parameter);
    reveal_strlit("]");
    reveal_strlit("=");
    if let Ok((_, after_value)) = grammar::alphanumeric_run(s) {
        if after_value.len() > 0 {
            assert(after_value.subrange(0, 1)[0] == after_value[0]);
        }
    }
}

} // verus!
