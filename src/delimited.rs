//! Argument lists as an attribute hands them over: wrapped in parentheses.
//! The wrapping is taken off and the rest is parsed as by
//! `macro_helper`; the position of an error counts from the opening
//! parenthesis.
use vstd::prelude::*;
use crate::grammar::{InjectModel, MockModel, char_at, inject_matches, mock_matches};
use crate::macro_helper::{
    self,
    InjectMatch,
    MockMatch,
    ParseError,
    inject_outcome,
    mock_outcome,
};

verus! {

/// What `s` holds between a leading `(` and a trailing `)`, if it is so wrapped.
pub open spec fn unwrapped(s: Seq<char>) -> Option<Seq<char>> {
    if s.len() >= 2 && s[0] == '(' && s[s.len() - 1] == ')' {
        Some(s.subrange(1, s.len() - 1))
    } else {
        None
    }
}

/// Where a text that is not wrapped fails: at its start where it does not
/// open with `(`, else at its end, where `)` is missing.
pub open spec fn unwrapped_error(s: Seq<char>) -> int {
    if char_at(s, 0, '(') {
        s.len() as int
    } else {
        0
    }
}

/// `r` with the position of an error moved `d` characters on.
pub open spec fn shifted<T>(r: Result<T, int>, d: int) -> Result<T, int> {
    match r {
        Ok(v) => Ok(v),
        Err(p) => Err(p + d),
    }
}

/// The inject records of a wrapped argument list.
pub open spec fn wrapped_inject_matches(s: Seq<char>) -> Result<Seq<InjectModel>, int> {
    match unwrapped(s) {
        None => Err(unwrapped_error(s)),
        Some(inner) => shifted(inject_matches(inner), 1),
    }
}

/// The mock records of a wrapped argument list.
pub open spec fn wrapped_mock_matches(s: Seq<char>) -> Result<Seq<MockModel>, int> {
    match unwrapped(s) {
        None => Err(unwrapped_error(s)),
        Some(inner) => shifted(mock_matches(inner), 1),
    }
}

/// Takes off the parentheses round `attr_str`.
fn strip_parens(attr_str: &str) -> (r: Result<&str, ParseError>)
    ensures
        match unwrapped(attr_str@) {
            None => r == Err::<&str, ParseError>(
                ParseError { position: unwrapped_error(attr_str@) as usize },
            ),
            Some(inner) => r matches Ok(t) && t@ == inner,
        },
        attr_str@.len() <= usize::MAX,
{
    let n = attr_str.unicode_len();
    if n == 0 || attr_str.get_char(0) != '(' {
        return Err(ParseError { position: 0 });
    }
    if n < 2 || attr_str.get_char(n - 1) != ')' {
        return Err(ParseError { position: n });
    }
    Ok(attr_str.substring_char(1, n - 1))
}

/// `r` with the position of an error moved one character on.
fn shift_error<T>(r: Result<T, ParseError>) -> (out: Result<T, ParseError>)
    requires
        r matches Err(e) ==> e.position < usize::MAX,
    ensures
        match r {
            Ok(v) => out == Ok::<T, ParseError>(v),
            Err(e) => out == Err::<T, ParseError>(ParseError { position: (e.position + 1) as usize }),
        },
{
    match r {
        Ok(v) => Ok(v),
        Err(e) => Err(ParseError { position: e.position + 1 }),
    }
}

/// Parses an inject argument list wrapped in parentheses, such as
/// `( id_1 = "db_fake" , id_2 = "other_fake" )`.
pub fn get_inject_matches(attr_str: &str) -> (r: Result<Vec<InjectMatch>, ParseError>)
    ensures
        inject_outcome(r) == wrapped_inject_matches(attr_str@),
{
    match strip_parens(attr_str) {
        Err(e) => Err(e),
        Ok(inner) => shift_error(macro_helper::get_inject_matches(inner)),
    }
}

/// Parses a mock argument list wrapped in parentheses, such as
/// `( id_1 = "external_db_call: fn(u32) -> String" )`.
pub fn get_mock_matches(attr_str: &str) -> (r: Result<Vec<MockMatch>, ParseError>)
    ensures
        mock_outcome(r) == wrapped_mock_matches(attr_str@),
{
    match strip_parens(attr_str) {
        Err(e) => Err(e),
        Ok(inner) => shift_error(macro_helper::get_mock_matches(inner)),
    }
}

} // verus!
