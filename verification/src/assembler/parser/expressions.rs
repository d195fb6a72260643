//! Expressions: literals, variables and brackets, joined by operators.
//!
//! `*` binds tighter than `+` and `-`, and operators of one rank group from
//! the left. Brackets stay in the tree. Blanks may stand around operators
//! and inside brackets.

use vstd::prelude::*;
use crate::assembler::parser::ast::{Expr, ExprKind, ExprTree, Operator};
use crate::assembler::parser::error::{finish, parse_is, result_is, ErrorKind, Parse, ParseError};
use crate::assembler::parser::scan::{
    blanks, char_at, has_char, lemma_blanks_within, room, skip_blanks, Source,
};
use crate::assembler::parser::types::{
    address_at, advances, hex_literal_at, lemma_words_advance, spec_address, spec_hex_literal,
    spec_variable, variable_at,
};

verus! {

/// The tree of two expressions with an operator between them.
pub open spec fn joined(left: ExprTree, operator: Operator, right: ExprTree) -> ExprTree {
    ExprTree::Binary(Box::new(left), operator, Box::new(right))
}

/// An operator: `+`, `-` or `*`.
pub open spec fn spec_operator(text: Seq<char>, at: int) -> Parse<Operator> {
    if has_char(text, at, '+') {
        Ok((at + 1, Operator::OpPlus))
    } else if has_char(text, at, '-') {
        Ok((at + 1, Operator::OpMinus))
    } else if has_char(text, at, '*') {
        Ok((at + 1, Operator::OpMultiply))
    } else {
        Err((at, ErrorKind::Char))
    }
}

/// The operator of sums that stands in `text` at `at`, if one does: `+` or
/// `-`.
pub open spec fn sum_operator(text: Seq<char>, at: int) -> Option<Operator> {
    match spec_operator(text, at) {
        Ok((_, operator)) => if operator == Operator::OpMultiply {
            None
        } else {
            Some(operator)
        },
        Err(_) => None,
    }
}

/// An expression in round brackets: `(`, an expression, `)`, with blanks
/// inside the brackets as one likes.
pub open spec fn spec_bracketed_expr(text: Seq<char>, at: int) -> Parse<ExprTree>
    decreases room(text, at), 0int,
{
    if !has_char(text, at, '(') {
        Err((at, ErrorKind::Char))
    } else {
        match spec_binary(text, at + 1 + blanks(text, at + 1)) {
            Ok((end, inner)) => {
                let close = end + blanks(text, end);
                if has_char(text, close, ')') {
                    Ok((close + 1, ExprTree::Bracket(Box::new(inner))))
                } else {
                    Err((close, ErrorKind::Char))
                }
            },
            Err(error) => Err(error),
        }
    }
}

/// A factor: an expression in round brackets, a literal or a variable, tried
/// in this order. Where none is found the failure is that of the variable.
pub open spec fn spec_factor(text: Seq<char>, at: int) -> Parse<ExprTree>
    decreases room(text, at), 1int,
{
    match spec_bracketed_expr(text, at) {
        Ok(parsed) => Ok(parsed),
        Err(_) => match spec_hex_literal(text, at) {
            Ok(parsed) => Ok(parsed),
            Err(_) => spec_variable(text, at),
        },
    }
}

/// What follows a product `left` that ends at `at`: as long as `*` and a
/// factor follow, they are joined to the product from the left. Where
/// no factor follows a `*`, the product ends before the `*` and the blanks
/// in front of it.
///
/// A factor is never empty, so the test that it ends behind `at` always
/// holds; it shows that the definition comes to an end.
pub open spec fn spec_term_rest(text: Seq<char>, at: int, left: ExprTree) -> (int, ExprTree)
    decreases room(text, at), 2int,
{
    let operator_at = at + blanks(text, at);
    if has_char(text, operator_at, '*') {
        match spec_factor(text, operator_at + 1 + blanks(text, operator_at + 1)) {
            Ok((end, right)) => if end > at {
                spec_term_rest(text, end, joined(left, Operator::OpMultiply, right))
            } else {
                (at, left)
            },
            Err(_) => (at, left),
        }
    } else {
        (at, left)
    }
}

/// A term: a factor, and the factors that are multiplied to it.
pub open spec fn spec_term(text: Seq<char>, at: int) -> Parse<ExprTree>
    decreases room(text, at), 3int,
{
    match spec_factor(text, at) {
        Ok((end, left)) => if end >= at {
            Ok(spec_term_rest(text, end, left))
        } else {
            Ok((end, left))
        },
        Err(error) => Err(error),
    }
}

/// What follows a sum `left` that ends at `at`: as long as `+` or `-` and
/// a term follow, they are joined to the sum from the left. Where no term
/// follows an operator, the sum ends before the operator and the blanks in
/// front of it.
///
/// A term is never empty, so the test that it ends behind `at` always
/// holds; it shows that the definition comes to an end.
pub open spec fn spec_expr_rest(text: Seq<char>, at: int, left: ExprTree) -> (int, ExprTree)
    decreases room(text, at), 4int,
{
    let operator_at = at + blanks(text, at);
    match sum_operator(text, operator_at) {
        Some(operator) => match spec_term(text, operator_at + 1 + blanks(text, operator_at + 1)) {
            Ok((end, right)) => if end > at {
                spec_expr_rest(text, end, joined(left, operator, right))
            } else {
                (at, left)
            },
            Err(_) => (at, left),
        },
        None => (at, left),
    }
}

/// An expression: a term, and the terms that are added to it or subtracted
/// from it. A single factor is an expression too.
pub open spec fn spec_binary(text: Seq<char>, at: int) -> Parse<ExprTree>
    decreases room(text, at), 5int,
{
    match spec_term(text, at) {
        Ok((end, left)) => if end >= at {
            Ok(spec_expr_rest(text, end, left))
        } else {
            Ok((end, left))
        },
        Err(error) => Err(error),
    }
}

/// An expression in square brackets: `[`, an expression, `]`, with blanks
/// inside the brackets as one likes.
pub open spec fn spec_square_braket_expr(text: Seq<char>, at: int) -> Parse<ExprTree> {
    if !has_char(text, at, '[') {
        Err((at, ErrorKind::Char))
    } else {
        match spec_binary(text, at + 1 + blanks(text, at + 1)) {
            Ok((end, inner)) => {
                let close = end + blanks(text, end);
                if has_char(text, close, ']') {
                    Ok((close + 1, ExprTree::SquareBracket(Box::new(inner))))
                } else {
                    Err((close, ErrorKind::Char))
                }
            },
            Err(error) => Err(error),
        }
    }
}

/// A literal operand: an expression in square brackets or a literal. Where
/// neither is found the failure is that of the literal.
pub open spec fn spec_literal_expr(text: Seq<char>, at: int) -> Parse<ExprTree> {
    match spec_square_braket_expr(text, at) {
        Ok(parsed) => Ok(parsed),
        Err(_) => spec_hex_literal(text, at),
    }
}

/// An address operand: an address, or `&` and an expression in square
/// brackets. Where neither is found the failure is that of the second.
pub open spec fn spec_address_expr(text: Seq<char>, at: int) -> Parse<ExprTree> {
    match spec_address(text, at) {
        Ok(parsed) => Ok(parsed),
        Err(_) => if !has_char(text, at, '&') {
            Err((at, ErrorKind::Char))
        } else {
            spec_square_braket_expr(text, at + 1)
        },
    }
}

/// An expression in round brackets is never empty and never reaches
/// beyond the text.
pub proof fn lemma_bracketed_advances(text: Seq<char>, at: int)
    requires
        0 <= at <= text.len(),
    ensures
        advances(text, at, spec_bracketed_expr(text, at)),
    decreases text.len() - at, 0int,
{
    if has_char(text, at, '(') {
        lemma_blanks_within(text, at + 1);
        let inner_at = at + 1 + blanks(text, at + 1);
        lemma_binary_advances(text, inner_at);
        if let Ok((end, _)) = spec_binary(text, inner_at) {
            lemma_blanks_within(text, end);
        }
    }
}

/// A factor is never empty and never reaches beyond the text.
pub proof fn lemma_factor_advances(text: Seq<char>, at: int)
    requires
        0 <= at <= text.len(),
    ensures
        advances(text, at, spec_factor(text, at)),
    decreases text.len() - at, 1int,
{
    lemma_bracketed_advances(text, at);
    lemma_words_advance(text, at);
}

/// What follows a product ends where the product ended or behind that, and
/// within the text.
pub proof fn lemma_term_rest_advances(text: Seq<char>, at: int, left: ExprTree)
    requires
        0 <= at <= text.len(),
    ensures
        at <= spec_term_rest(text, at, left).0 <= text.len(),
    decreases text.len() - at, 2int,
{
    lemma_blanks_within(text, at);
    let operator_at = at + blanks(text, at);
    if has_char(text, operator_at, '*') {
        lemma_blanks_within(text, operator_at + 1);
        let right_at = operator_at + 1 + blanks(text, operator_at + 1);
        lemma_factor_advances(text, right_at);
        if let Ok((end, right)) = spec_factor(text, right_at) {
            lemma_term_rest_advances(text, end, joined(left, Operator::OpMultiply, right));
        }
    }
}

/// A term is never empty and never reaches beyond the text.
pub proof fn lemma_term_advances(text: Seq<char>, at: int)
    requires
        0 <= at <= text.len(),
    ensures
        advances(text, at, spec_term(text, at)),
    decreases text.len() - at, 3int,
{
    lemma_factor_advances(text, at);
    if let Ok((end, left)) = spec_factor(text, at) {
        lemma_term_rest_advances(text, end, left);
    }
}

/// What follows a sum ends where the sum ended or behind that, and within
/// the text.
pub proof fn lemma_expr_rest_advances(text: Seq<char>, at: int, left: ExprTree)
    requires
        0 <= at <= text.len(),
    ensures
        at <= spec_expr_rest(text, at, left).0 <= text.len(),
    decreases text.len() - at, 4int,
{
    lemma_blanks_within(text, at);
    let operator_at = at + blanks(text, at);
    if let Some(operator) = sum_operator(text, operator_at) {
        lemma_blanks_within(text, operator_at + 1);
        let right_at = operator_at + 1 + blanks(text, operator_at + 1);
        lemma_term_advances(text, right_at);
        if let Ok((end, right)) = spec_term(text, right_at) {
            lemma_expr_rest_advances(text, end, joined(left, operator, right));
        }
    }
}

/// An expression is never empty and never reaches beyond the text. With
/// this and what is said of its parts, the tests in the definitions of the
/// grammar that are there for the sake of termination always hold.
pub proof fn lemma_binary_advances(text: Seq<char>, at: int)
    requires
        0 <= at <= text.len(),
    ensures
        advances(text, at, spec_binary(text, at)),
    decreases text.len() - at, 5int,
{
    lemma_term_advances(text, at);
    if let Ok((end, left)) = spec_term(text, at) {
        lemma_expr_rest_advances(text, end, left);
    }
}

/// An expression in square brackets and a literal operand are never empty
/// and never reach beyond the text.
pub proof fn lemma_literal_advances(text: Seq<char>, at: int)
    requires
        0 <= at <= text.len(),
    ensures
        advances(text, at, spec_square_braket_expr(text, at)),
        advances(text, at, spec_literal_expr(text, at)),
{
    lemma_words_advance(text, at);
    if has_char(text, at, '[') {
        lemma_blanks_within(text, at + 1);
        let inner_at = at + 1 + blanks(text, at + 1);
        lemma_binary_advances(text, inner_at);
        if let Ok((end, _)) = spec_binary(text, inner_at) {
            lemma_blanks_within(text, end);
        }
    }
}

/// An address operand is never empty and never reaches beyond the text.
pub proof fn lemma_address_advances(text: Seq<char>, at: int)
    requires
        0 <= at <= text.len(),
    ensures
        advances(text, at, spec_address_expr(text, at)),
{
    lemma_words_advance(text, at);
    if at < text.len() {
        lemma_literal_advances(text, at + 1);
    }
}

/// Joins two expressions with an operator.
fn join(left: Expr, operator: Operator, right: Expr) -> (expression: Expr)
    ensures
        expression@ == joined(left@, operator, right@),
{
    Expr { kind: ExprKind::Binary(Box::new(left), operator, Box::new(right)) }
}

/// Parses an operator in `source` from `at`.
pub fn operator_at(
    source: &Source,
    at: usize,
) -> (result: Result<
    (usize, Operator),
    (usize, ErrorKind),
>)
    requires
        at <= source@.len(),
    ensures
        parse_is(result, spec_operator(source@, at as int)),
        result matches Ok((end, _)) ==> end == at + 1 && end <= source@.len(),
        result matches Err((place, _)) ==> place == at,
{
    let text = source.chars();
    if char_at(text, at, '+') {
        Ok((at + 1, Operator::OpPlus))
    } else if char_at(text, at, '-') {
        Ok((at + 1, Operator::OpMinus))
    } else if char_at(text, at, '*') {
        Ok((at + 1, Operator::OpMultiply))
    } else {
        Err((at, ErrorKind::Char))
    }
}

/// Parses an expression in round brackets in `source` from `at`.
pub fn bracketed_expr_at(
    source: &Source,
    at: usize,
) -> (result: Result<
    (usize, Expr),
    (usize, ErrorKind),
>)
    requires
        at <= source@.len(),
    ensures
        parse_is(result, spec_bracketed_expr(source@, at as int)),
        result matches Ok((end, _)) ==> at < end <= source@.len(),
        result matches Err((place, _)) ==> at <= place <= source@.len(),
    decreases source@.len() - at, 0int,
{
    let text = source.chars();
    if !char_at(text, at, '(') {
        return Err((at, ErrorKind::Char));
    }
    let inner_at = skip_blanks(text, at + 1);
    let (end, inner) = match binary_at(source, inner_at) {
        Ok(parsed) => parsed,
        Err(error) => {
            return Err(error);
        },
    };
    let close = skip_blanks(text, end);
    if !char_at(text, close, ')') {
        return Err((close, ErrorKind::Char));
    }
    Ok((close + 1, Expr { kind: ExprKind::Bracket(Box::new(inner)) }))
}

/// Parses a factor in `source` from `at`.
pub fn factor_at(source: &Source, at: usize) -> (result: Result<(usize, Expr), (usize, ErrorKind)>)
    requires
        at <= source@.len(),
    ensures
        parse_is(result, spec_factor(source@, at as int)),
        result matches Ok((end, _)) ==> at < end <= source@.len(),
        result matches Err((place, _)) ==> at <= place <= source@.len(),
    decreases source@.len() - at, 1int,
{
    if let Ok(parsed) = bracketed_expr_at(source, at) {
        return Ok(parsed);
    }
    if let Ok(parsed) = hex_literal_at(source, at) {
        return Ok(parsed);
    }
    variable_at(source, at)
}

/// Parses a term in `source` from `at`.
pub fn term_at(source: &Source, at: usize) -> (result: Result<(usize, Expr), (usize, ErrorKind)>)
    requires
        at <= source@.len(),
    ensures
        parse_is(result, spec_term(source@, at as int)),
        result matches Ok((end, _)) ==> at < end <= source@.len(),
        result matches Err((place, _)) ==> at <= place <= source@.len(),
    decreases source@.len() - at, 3int,
{
    let text = source.chars();
    let (first_end, first) = match factor_at(source, at) {
        Ok(parsed) => parsed,
        Err(error) => {
            return Err(error);
        },
    };
    let mut end: usize = first_end;
    let mut node: Expr = first;
    loop
        invariant
            text@ == source@,
            at < end <= source@.len() <= usize::MAX,
            spec_term(source@, at as int) == Ok::<(int, ExprTree), (int, ErrorKind)>(
                spec_term_rest(source@, end as int, node@),
            ),
        ensures
            at < end <= source@.len(),
            spec_term(source@, at as int) == Ok::<(int, ExprTree), (int, ErrorKind)>(
                (end as int, node@),
            ),
        decreases source@.len() - end,
    {
        let operator_at = skip_blanks(text, end);
        if !char_at(text, operator_at, '*') {
            break;
        }
        let right_at = skip_blanks(text, operator_at + 1);
        match factor_at(source, right_at) {
            Ok((right_end, right)) => {
                node = join(node, Operator::OpMultiply, right);
                end = right_end;
            },
            Err(_) => {
                break;
            },
        }
    }
    Ok((end, node))
}

/// Parses an expression in `source` from `at`.
pub fn binary_at(source: &Source, at: usize) -> (result: Result<(usize, Expr), (usize, ErrorKind)>)
    requires
        at <= source@.len(),
    ensures
        parse_is(result, spec_binary(source@, at as int)),
        result matches Ok((end, _)) ==> at < end <= source@.len(),
        result matches Err((place, _)) ==> at <= place <= source@.len(),
    decreases source@.len() - at, 5int,
{
    let text = source.chars();
    let (first_end, first) = match term_at(source, at) {
        Ok(parsed) => parsed,
        Err(error) => {
            return Err(error);
        },
    };
    let mut end: usize = first_end;
    let mut node: Expr = first;
    loop
        invariant
            text@ == source@,
            at < end <= source@.len() <= usize::MAX,
            spec_binary(source@, at as int) == Ok::<(int, ExprTree), (int, ErrorKind)>(
                spec_expr_rest(source@, end as int, node@),
            ),
        ensures
            at < end <= source@.len(),
            spec_binary(source@, at as int) == Ok::<(int, ExprTree), (int, ErrorKind)>(
                (end as int, node@),
            ),
        decreases source@.len() - end,
    {
        let (after, operator) = match operator_at(source, skip_blanks(text, end)) {
            Ok(parsed) => parsed,
            Err(_) => {
                break;
            },
        };
        if operator == Operator::OpMultiply {
            break;
        }
        let right_at = skip_blanks(text, after);
        match term_at(source, right_at) {
            Ok((right_end, right)) => {
                node = join(node, operator, right);
                end = right_end;
            },
            Err(_) => {
                break;
            },
        }
    }
    Ok((end, node))
}

/// Parses an expression in square brackets in `source` from `at`.
pub fn square_braket_expr_at(source: &Source, at: usize) -> (result: Result<
    (usize, Expr),
    (usize, ErrorKind),
>)
    requires
        at <= source@.len(),
    ensures
        parse_is(result, spec_square_braket_expr(source@, at as int)),
        result matches Ok((end, _)) ==> at < end <= source@.len(),
        result matches Err((place, _)) ==> at <= place <= source@.len(),
{
    let text = source.chars();
    if !char_at(text, at, '[') {
        return Err((at, ErrorKind::Char));
    }
    let inner_at = skip_blanks(text, at + 1);
    let (end, inner) = match binary_at(source, inner_at) {
        Ok(parsed) => parsed,
        Err(error) => {
            return Err(error);
        },
    };
    let close = skip_blanks(text, end);
    if !char_at(text, close, ']') {
        return Err((close, ErrorKind::Char));
    }
    Ok((close + 1, Expr { kind: ExprKind::SquareBracket(Box::new(inner)) }))
}

/// Parses a literal operand in `source` from `at`.
pub fn literal_expr_at(
    source: &Source,
    at: usize,
) -> (result: Result<
    (usize, Expr),
    (usize, ErrorKind),
>)
    requires
        at <= source@.len(),
    ensures
        parse_is(result, spec_literal_expr(source@, at as int)),
        result matches Ok((end, _)) ==> at < end <= source@.len(),
        result matches Err((place, _)) ==> at <= place <= source@.len(),
{
    if let Ok(parsed) = square_braket_expr_at(source, at) {
        return Ok(parsed);
    }
    hex_literal_at(source, at)
}

/// Parses an address operand in `source` from `at`.
pub fn address_expr_at(
    source: &Source,
    at: usize,
) -> (result: Result<
    (usize, Expr),
    (usize, ErrorKind),
>)
    requires
        at <= source@.len(),
    ensures
        parse_is(result, spec_address_expr(source@, at as int)),
        result matches Ok((end, _)) ==> at < end <= source@.len(),
        result matches Err((place, _)) ==> at <= place <= source@.len(),
{
    if let Ok(parsed) = address_at(source, at) {
        return Ok(parsed);
    }
    if !char_at(source.chars(), at, '&') {
        return Err((at, ErrorKind::Char));
    }
    square_braket_expr_at(source, at + 1)
}

/// Parses an operator at the start of `input`: `+`, `-` or `*`.
pub fn operator(input: &str) -> (result: Result<(&str, Operator), ParseError>)
    ensures
        result_is(input, result, spec_operator(input@, 0)),
{
    let source = Source::new(input);
    finish(input, source.len(), operator_at(&source, 0), Ghost(spec_operator(input@, 0)))
}

/// Parses an address operand at the start of `input`: an address, or `&`
/// and an expression in square brackets.
pub fn address_expr(input: &str) -> (result: Result<(&str, Expr), ParseError>)
    ensures
        result_is(input, result, spec_address_expr(input@, 0)),
{
    let source = Source::new(input);
    finish(input, source.len(), address_expr_at(&source, 0), Ghost(spec_address_expr(input@, 0)))
}

/// Parses an expression in round brackets at the start of `input`.
pub fn bracketed_expr(input: &str) -> (result: Result<(&str, Expr), ParseError>)
    ensures
        result_is(input, result, spec_bracketed_expr(input@, 0)),
{
    let source = Source::new(input);
    finish(
        input,
        source.len(),
        bracketed_expr_at(&source, 0),
        Ghost(spec_bracketed_expr(input@, 0)),
    )
}

/// Parses an expression at the start of `input`: terms joined by `+` and
/// `-`, each made of factors joined by `*`.
pub fn binary(input: &str) -> (result: Result<(&str, Expr), ParseError>)
    ensures
        result_is(input, result, spec_binary(input@, 0)),
{
    let source = Source::new(input);
    finish(input, source.len(), binary_at(&source, 0), Ghost(spec_binary(input@, 0)))
}

/// Parses a literal operand at the start of `input`: an expression in
/// square brackets or a literal.
pub fn literal_expr(input: &str) -> (result: Result<(&str, Expr), ParseError>)
    ensures
        result_is(input, result, spec_literal_expr(input@, 0)),
{
    let source = Source::new(input);
    finish(input, source.len(), literal_expr_at(&source, 0), Ghost(spec_literal_expr(input@, 0)))
}

/// Parses an expression in square brackets at the start of `input`.
pub fn square_braket_expr(input: &str) -> (result: Result<(&str, Expr), ParseError>)
    ensures
        result_is(input, result, spec_square_braket_expr(input@, 0)),
{
    let source = Source::new(input);
    finish(
        input,
        source.len(),
        square_braket_expr_at(&source, 0),
        Ghost(spec_square_braket_expr(input@, 0)),
    )
}

} // verus!
