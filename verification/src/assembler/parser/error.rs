//! How a parse ends: where, and with what.

use vstd::prelude::*;

verus! {

/// What the parser looked for where it failed.
#[derive(Clone, Copy, Debug, PartialEq, Eq, Structural)]
pub enum ErrorKind {
    /// A fixed word: a mnemonic, the name of a register, the `!` of a
    /// variable or the start of an identifier.
    Tag,
    /// A single character: a sigil, a bracket or a comma.
    Char,
    /// A hexadecimal digit.
    HexDigit,
    /// A number that fits in 16 bits.
    MapRes,
    /// A space or a tab.
    Space,
}

/// A failure of the parser: the input from the place of the failure on, and
/// what was looked for there.
#[derive(Clone, Copy, Debug, PartialEq, Eq)]
pub struct ParseError<'a> {
    pub input: &'a str,
    pub kind: ErrorKind,
}

/// What a parse from a position in a text comes to: the position behind
/// what was parsed and its value, or the position of the failure and what
/// was looked for there.
pub type Parse<V> = Result<(int, V), (int, ErrorKind)>;

/// Whether `result`, the outcome of a parser, is the outcome `expected`.
pub open spec fn parse_is<T: View>(
    result: Result<(usize, T), (usize, ErrorKind)>,
    expected: Parse<T::V>,
) -> bool {
    match result {
        Ok((end, value)) => expected == Ok::<(int, T::V), (int, ErrorKind)>((end as int, value@)),
        Err((at, kind)) => expected == Err::<(int, T::V), (int, ErrorKind)>((at as int, kind)),
    }
}

/// The position at which a parse ended, well or not.
pub open spec fn position_of<V>(parse: Parse<V>) -> int {
    match parse {
        Ok((end, _)) => end,
        Err((at, _)) => at,
    }
}

/// Whether `result`, which holds the rest of `input`, is the outcome
/// `expected` of a parse of `input` from its start.
pub open spec fn result_is<T: View>(
    input: &str,
    result: Result<(&str, T), ParseError>,
    expected: Parse<T::V>,
) -> bool {
    match result {
        Ok((rest, value)) => {
            &&& expected matches Ok((end, tree))
            &&& 0 <= end <= input@.len()
            &&& rest@ == input@.skip(end)
            &&& value@ == tree
        },
        Err(error) => {
            &&& expected matches Err((at, kind))
            &&& 0 <= at <= input@.len()
            &&& error.input@ == input@.skip(at)
            &&& error.kind == kind
        },
    }
}

/// Turns the outcome of a parse of the characters of `input` into one that
/// holds the rest of `input`.
pub(crate) fn finish<'a, T: View>(
    input: &'a str,
    length: usize,
    result: Result<(usize, T), (usize, ErrorKind)>,
    Ghost(expected): Ghost<Parse<T::V>>,
) -> (finished: Result<(&'a str, T), ParseError<'a>>)
    requires
        length == input@.len(),
        parse_is(result, expected),
        0 <= position_of(expected) <= input@.len(),
    ensures
        result_is(input, finished, expected),
{
    match result {
        Ok((end, value)) => Ok((input.substring_char(end, length), value)),
        Err((at, kind)) => Err(ParseError { input: input.substring_char(at, length), kind }),
    }
}

} // verus!
