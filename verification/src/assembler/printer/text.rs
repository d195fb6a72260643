//! How trees are written down.
//!
//! Numbers are written in hexadecimal with small letters and without
//! leading zeros, names of registers in small letters, operators with one
//! blank on either side, and operands with a comma and one blank between
//! them.

use vstd::prelude::*;
use crate::assembler::parser::ast::{ExprTree, Operator};
use crate::assembler::parser::scan::{is_alpha, is_word};

verus! {

/// The character of a hexadecimal digit.
pub open spec fn digit_char(digit: nat) -> char {
    if digit < 10 {
        (48 + digit) as u8 as char
    } else {
        (87 + digit) as u8 as char
    }
}

/// The hexadecimal digits of `n`, without leading zeros.
pub open spec fn hex_text(n: nat) -> Seq<char>
    decreases n,
{
    if n < 16 {
        seq![digit_char(n)]
    } else {
        hex_text(n / 16).push(digit_char(n % 16))
    }
}

/// The character of an operator.
pub open spec fn operator_char(operator: Operator) -> char {
    match operator {
        Operator::OpPlus => '+',
        Operator::OpMinus => '-',
        Operator::OpMultiply => '*',
    }
}

/// The text of an expression.
pub open spec fn expr_text(tree: ExprTree) -> Seq<char>
    decreases tree,
{
    match tree {
        ExprTree::Address(address) => seq!['&'] + hex_text(address as nat),
        ExprTree::Binary(left, operator, right) => expr_text(*left) + seq![
            ' ',
            operator_char(operator),
            ' ',
        ] + expr_text(*right),
        ExprTree::Bracket(inner) => seq!['('] + expr_text(*inner) + seq![')'],
        ExprTree::HexLiteral(value) => seq!['$'] + hex_text(value as nat),
        ExprTree::SquareBracket(inner) => seq!['['] + expr_text(*inner) + seq![']'],
        ExprTree::Variable(name) => seq!['!'] + name,
    }
}

/// The text of an address operand: an address as it is, an expression in
/// square brackets behind `&`.
pub open spec fn address_text(tree: ExprTree) -> Seq<char> {
    match tree {
        ExprTree::Address(_) => expr_text(tree),
        _ => seq!['&'] + expr_text(tree),
    }
}

/// Whether `name` is an identifier: a letter or `_`, then letters, digits
/// and `_`.
pub open spec fn is_identifier(name: Seq<char>) -> bool {
    &&& name.len() >= 1
    &&& is_alpha(name[0]) || name[0] == '_'
    &&& forall|k: int| 1 <= k < name.len() ==> is_word(#[trigger] name[k])
}

/// Whether a tree is one that the parser builds for a factor: an expression
/// in round brackets, a literal or a variable.
pub open spec fn is_factor(tree: ExprTree) -> bool
    decreases tree, 0int,
{
    match tree {
        ExprTree::Bracket(inner) => is_expression(*inner),
        ExprTree::HexLiteral(_) => true,
        ExprTree::Variable(name) => is_identifier(name),
        _ => false,
    }
}

/// Whether a tree is one that the parser builds for a term: a factor, or a
/// term times a factor.
pub open spec fn is_term(tree: ExprTree) -> bool
    decreases tree, 1int,
{
    is_factor(tree) || match tree {
        ExprTree::Binary(left, operator, right) => operator == Operator::OpMultiply && is_term(
            *left,
        ) && is_factor(*right),
        _ => false,
    }
}

/// Whether a tree is one that the parser builds for an expression: a term,
/// or an expression plus or minus a term.
pub open spec fn is_expression(tree: ExprTree) -> bool
    decreases tree, 2int,
{
    is_term(tree) || match tree {
        ExprTree::Binary(left, operator, right) => operator != Operator::OpMultiply
            && is_expression(*left) && is_term(*right),
        _ => false,
    }
}

/// Whether a tree is one that the parser builds for a literal operand: an
/// expression in square brackets or a literal.
pub open spec fn is_literal_operand(tree: ExprTree) -> bool {
    match tree {
        ExprTree::SquareBracket(inner) => is_expression(*inner),
        ExprTree::HexLiteral(_) => true,
        _ => false,
    }
}

/// Whether a tree is one that the parser builds for an address operand: an
/// address or an expression in square brackets.
pub open spec fn is_address_operand(tree: ExprTree) -> bool {
    match tree {
        ExprTree::SquareBracket(inner) => is_expression(*inner),
        ExprTree::Address(_) => true,
        _ => false,
    }
}

} // verus!
