//! Text rules shared by the decoders: comma-separated fields, ASCII
//! whitespace trimming and base-10 integers.

use vstd::prelude::*;

verus! {

/// The pieces of `s` between occurrences of `sep`, in order; a text without
/// `sep` is one piece, and an empty text is one empty piece.
pub open spec fn split_fields(s: Seq<char>, sep: char) -> Seq<Seq<char>>
    decreases s.len(),
{
    if s.len() == 0 {
        seq![Seq::<char>::empty()]
    } else {
        let rest = split_fields(s.drop_last(), sep);
        if s.last() == sep {
            rest.push(Seq::<char>::empty())
        } else {
            rest.update(rest.len() - 1, rest.last().push(s.last()))
        }
    }
}

/// The pieces of `s` between commas.
pub open spec fn comma_fields(s: Seq<char>) -> Seq<Seq<char>> {
    split_fields(s, ',')
}

/// ASCII whitespace: space, tab, line feed, form feed and carriage return.
pub open spec fn is_ascii_space(c: char) -> bool {
    c == ' ' || c == '\t' || c == '\n' || c == '\x0C' || c == '\r'
}

pub open spec fn trim_start(s: Seq<char>) -> Seq<char>
    decreases s.len(),
{
    if s.len() > 0 && is_ascii_space(s[0]) {
        trim_start(s.drop_first())
    } else {
        s
    }
}

pub open spec fn trim_end(s: Seq<char>) -> Seq<char>
    decreases s.len(),
{
    if s.len() > 0 && is_ascii_space(s.last()) {
        trim_end(s.drop_last())
    } else {
        s
    }
}

/// `s` without its leading and trailing ASCII whitespace.
pub open spec fn trimmed(s: Seq<char>) -> Seq<char> {
    trim_end(trim_start(s))
}

pub open spec fn is_digit(c: char) -> bool {
    '0' <= c && c <= '9'
}

/// One or more decimal digits.
pub open spec fn is_digits(s: Seq<char>) -> bool {
    s.len() > 0 && forall|i: int| 0 <= i < s.len() ==> is_digit(#[trigger] s[i])
}

pub open spec fn digit_value(c: char) -> nat {
    (c as u32 - '0' as u32) as nat
}

/// The value of a run of decimal digits, most significant first.
pub open spec fn digits_value(s: Seq<char>) -> nat
    decreases s.len(),
{
    if s.len() == 0 {
        0
    } else {
        digits_value(s.drop_last()) * 10 + digit_value(s.last())
    }
}

/// `s` without one leading `+`, if it has one.
pub open spec fn without_plus(s: Seq<char>) -> Seq<char> {
    if s.len() > 0 && s[0] == '+' {
        s.drop_first()
    } else {
        s
    }
}

/// The `u32` that `s` writes in base 10: an optional `+`, then digits whose
/// value fits; `None` for any other text.
pub open spec fn parsed_u32(s: Seq<char>) -> Option<u32> {
    let d = without_plus(s);
    if is_digits(d) && digits_value(d) <= u32::MAX {
        Some(digits_value(d) as u32)
    } else {
        None
    }
}

/// The `i32` that `s` writes in base 10: an optional `+` or `-`, then digits
/// whose signed value fits; `None` for any other text.
pub open spec fn parsed_i32(s: Seq<char>) -> Option<i32> {
    if s.len() > 0 && s[0] == '-' {
        let d = s.drop_first();
        if is_digits(d) && digits_value(d) <= 0x8000_0000 {
            Some((-(digits_value(d) as int)) as i32)
        } else {
            None
        }
    } else {
        let d = without_plus(s);
        if is_digits(d) && digits_value(d) <= i32::MAX {
            Some(digits_value(d) as i32)
        } else {
            None
        }
    }
}

/// Relies on std's `str::split` with a `char` pattern: the pieces of the
/// text between occurrences of `sep`, in order.
#[verifier::external_body]
pub(crate) fn split_on(s: &str, sep: char) -> (r: Vec<&str>)
    ensures
        r@.len() == split_fields(s@, sep).len(),
        forall|i: int| 0 <= i < r@.len() ==> (#[trigger] r@[i])@ == split_fields(s@, sep)[i],
{
    s.split(sep).collect()
}

/// Relies on std's `str::trim_ascii`: the text without leading and trailing
/// ASCII whitespace.
#[verifier::external_body]
pub(crate) fn trim_ascii_space(s: &str) -> (r: &str)
    ensures
        r@ == trimmed(s@),
{
    s.trim_ascii()
}

/// Relies on std's `FromStr` for `u32`: an optional `+` followed by base-10
/// digits whose value fits is accepted, anything else is an error.
#[verifier::external_body]
pub(crate) fn parse_u32(s: &str) -> (r: Result<u32, std::num::ParseIntError>)
    ensures
        r matches Ok(v) ==> parsed_u32(s@) == Some(v),
        r is Err ==> parsed_u32(s@) is None,
{
    s.parse::<u32>()
}

/// Relies on std's `FromStr` for `i32`: an optional `+` or `-` followed by
/// base-10 digits whose signed value fits is accepted, anything else is an
/// error.
#[verifier::external_body]
pub(crate) fn parse_i32(s: &str) -> (r: Result<i32, std::num::ParseIntError>)
    ensures
        r matches Ok(v) ==> parsed_i32(s@) == Some(v),
        r is Err ==> parsed_i32(s@) is None,
{
    s.parse::<i32>()
}

} // verus!
