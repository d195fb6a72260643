//! The parser reads the expressions that the printer writes.
//!
//! This holds of the trees that the parser builds: products group from the
//! left and stand below sums, sums group from the left, and whatever else
//! is meant stands in brackets.

use vstd::prelude::*;
use crate::assembler::parser::ast::{ExprTree, Operator};
use crate::assembler::parser::error::ErrorKind;
use crate::assembler::parser::expressions::{
    joined, spec_address_expr, spec_binary, spec_bracketed_expr, spec_expr_rest, spec_factor,
    spec_literal_expr, spec_square_braket_expr, spec_term, spec_term_rest, sum_operator,
};
use crate::assembler::parser::scan::{blanks, has_char, is_blank, is_word};
use crate::assembler::parser::types::spec_address;
use crate::assembler::printer::text::{
    address_text, expr_text, is_address_operand, is_expression, is_factor, is_literal_operand,
    is_term, operator_char,
};
use crate::assembler::printer::words::{
    lemma_address, lemma_hex_literal, lemma_hex_text_digits, lemma_located_parts,
    lemma_located_whole, lemma_no_blanks, lemma_one_blank, lemma_variable, located, word_ends,
};

verus! {

/// Whether an expression that ends at `end` ends there for good: the text
/// ends, or the next character is no blank, no operator and none of a
/// word.
pub open spec fn expression_ends(text: Seq<char>, end: int) -> bool {
    end >= text.len() || (!is_word(text[end]) && !is_blank(text[end]) && text[end] != '+'
        && text[end] != '-' && text[end] != '*')
}

/// Whether a factor can begin with `c`.
pub open spec fn opens_factor(c: char) -> bool {
    c == '(' || c == '$' || c == '!'
}

/// What the forms of trees are, each said once: a factor is a term, a term
/// is an expression, a product has a term on its left and a factor on its
/// right, and a sum has an expression on its left and a term on its right.
pub proof fn lemma_forms(tree: ExprTree)
    ensures
        is_factor(tree) ==> is_term(tree),
        is_term(tree) ==> is_expression(tree),
        is_factor(tree) ==> !(tree is Binary),
        is_factor(tree) ==> (match tree {
            ExprTree::Bracket(inner) => is_expression(*inner),
            ExprTree::HexLiteral(_) => true,
            ExprTree::Variable(name) => crate::assembler::printer::text::is_identifier(name),
            _ => false,
        }),
        is_term(tree) && !is_factor(tree) ==> (match tree {
            ExprTree::Binary(left, operator, right) => operator == Operator::OpMultiply && is_term(
                *left,
            ) && is_factor(*right),
            _ => false,
        }),
        is_expression(tree) && !is_term(tree) ==> (match tree {
            ExprTree::Binary(left, operator, right) => operator != Operator::OpMultiply
                && is_expression(*left) && is_term(*right),
            _ => false,
        }),
{
}

/// The text of an expression begins with a bracket or a sigil and has two
/// characters at least.
pub proof fn lemma_expression_opens(tree: ExprTree)
    requires
        is_expression(tree),
    ensures
        expr_text(tree).len() >= 2,
        opens_factor(expr_text(tree)[0]),
    decreases tree,
{
    lemma_forms(tree);
    match tree {
        ExprTree::Binary(left, operator, right) => {
            lemma_forms(*left);
            lemma_expression_opens(*left);
            let first = expr_text(*left);
            let rest = seq![' ', operator_char(operator), ' '] + expr_text(*right);
            assert(expr_text(tree) =~= first + rest);
            assert((first + rest)[0] == first[0]);
        },
        ExprTree::HexLiteral(value) => {
            lemma_hex_text_digits(value as nat);
        },
        _ => {},
    }
}

/// Nothing follows a sum that ends for good.
proof fn lemma_sum_ends(text: Seq<char>, end: int, tree: ExprTree)
    requires
        expression_ends(text, end),
    ensures
        spec_expr_rest(text, end, tree) == (end, tree),
        spec_term_rest(text, end, tree) == (end, tree),
{
    lemma_no_blanks(text, end);
}

/// The parser reads a factor that the printer wrote, where no further
/// character of a word follows it.
pub proof fn lemma_factor(text: Seq<char>, at: int, tree: ExprTree)
    requires
        is_factor(tree),
        located(text, at, expr_text(tree)),
        word_ends(text, at + expr_text(tree).len()),
    ensures
        spec_factor(text, at) == Ok::<(int, ExprTree), (int, ErrorKind)>(
            (at + expr_text(tree).len(), tree),
        ),
    decreases tree, 0int,
{
    lemma_forms(tree);
    match tree {
        ExprTree::Bracket(inner) => {
            let inside = expr_text(*inner);
            lemma_located_parts(text, at, seq!['('] + inside, seq![')']);
            lemma_located_parts(text, at, seq!['('], inside);
            let close = at + 1 + inside.len();
            assert(text[at + 0] == seq!['('][0]);
            assert(text[close + 0] == seq![')'][0]);
            lemma_expression_opens(*inner);
            assert(text[at + 1 + 0] == inside[0]);
            lemma_no_blanks(text, at + 1);
            lemma_expression(text, at + 1, *inner);
            lemma_sum_ends(text, close, *inner);
            lemma_no_blanks(text, close);
        },
        ExprTree::HexLiteral(value) => {
            lemma_hex_literal(text, at, value);
            assert(text[at + 0] == expr_text(tree)[0]);
        },
        ExprTree::Variable(name) => {
            lemma_variable(text, at, name);
            assert(text[at + 0] == expr_text(tree)[0]);
        },
        _ => {},
    }
}

/// The parser reads a term that the printer wrote up to its end, and goes
/// on from there with what follows the term.
pub proof fn lemma_term(text: Seq<char>, at: int, tree: ExprTree)
    requires
        is_term(tree),
        located(text, at, expr_text(tree)),
        word_ends(text, at + expr_text(tree).len()),
    ensures
        spec_term(text, at) == Ok::<(int, ExprTree), (int, ErrorKind)>(
            spec_term_rest(text, at + expr_text(tree).len(), tree),
        ),
    decreases tree, 1int,
{
    lemma_forms(tree);
    if is_factor(tree) {
        lemma_factor(text, at, tree);
    } else {
        match tree {
            ExprTree::Binary(left, operator, right) => {
                let first = expr_text(*left);
                let second = expr_text(*right);
                let between = seq![' ', '*', ' '];
                let middle = at + first.len();
                let end = at + expr_text(tree).len();
                lemma_located_parts(text, at, first + between, second);
                lemma_located_parts(text, at, first, between);
                assert(text[middle + 0] == between[0]);
                assert(text[middle + 1] == between[1]);
                assert(text[middle + 2] == between[2]);
                lemma_forms(*right);
                lemma_expression_opens(*right);
                assert(text[middle + 3 + 0] == second[0]);
                lemma_term(text, at, *left);
                lemma_one_blank(text, middle);
                lemma_one_blank(text, middle + 2);
                lemma_factor(text, middle + 3, *right);
                assert(joined(*left, Operator::OpMultiply, *right) == tree);
                assert(spec_term_rest(text, middle, *left) == spec_term_rest(text, end, tree));
            },
            _ => {},
        }
    }
}

/// The parser reads an expression that the printer wrote up to its end,
/// and goes on from there with what follows the expression, where that is
/// no product.
pub proof fn lemma_expression(text: Seq<char>, at: int, tree: ExprTree)
    requires
        is_expression(tree),
        located(text, at, expr_text(tree)),
        word_ends(text, at + expr_text(tree).len()),
        !has_char(
            text,
            at + expr_text(tree).len() + blanks(text, at + expr_text(tree).len()),
            '*',
        ),
    ensures
        spec_binary(text, at) == Ok::<(int, ExprTree), (int, ErrorKind)>(
            spec_expr_rest(text, at + expr_text(tree).len(), tree),
        ),
    decreases tree, 2int,
{
    lemma_forms(tree);
    let end = at + expr_text(tree).len();
    if is_term(tree) {
        lemma_term(text, at, tree);
        assert(spec_term_rest(text, end, tree) == (end, tree));
    } else {
        match tree {
            ExprTree::Binary(left, operator, right) => {
                let first = expr_text(*left);
                let second = expr_text(*right);
                let between = seq![' ', operator_char(operator), ' '];
                let middle = at + first.len();
                lemma_located_parts(text, at, first + between, second);
                lemma_located_parts(text, at, first, between);
                assert(text[middle + 0] == between[0]);
                assert(text[middle + 1] == between[1]);
                assert(text[middle + 2] == between[2]);
                lemma_forms(*right);
                lemma_expression_opens(*right);
                assert(text[middle + 3 + 0] == second[0]);
                lemma_one_blank(text, middle);
                lemma_one_blank(text, middle + 2);
                lemma_expression(text, at, *left);
                lemma_term(text, middle + 3, *right);
                assert(spec_term_rest(text, end, *right) == (end, *right));
                assert(sum_operator(text, middle + 1) == Some(operator));
                assert(joined(*left, operator, *right) == tree);
                assert(spec_expr_rest(text, middle, *left) == spec_expr_rest(text, end, tree));
            },
            _ => {},
        }
    }
}

/// The parser reads an expression that the printer wrote, where the
/// expression ends for good: it builds the tree that was printed and ends
/// behind the text of it.
pub proof fn lemma_expression_round_trip(text: Seq<char>, at: int, tree: ExprTree)
    requires
        is_expression(tree),
        located(text, at, expr_text(tree)),
        expression_ends(text, at + expr_text(tree).len()),
    ensures
        spec_binary(text, at) == Ok::<(int, ExprTree), (int, ErrorKind)>(
            (at + expr_text(tree).len(), tree),
        ),
{
    let end = at + expr_text(tree).len();
    lemma_no_blanks(text, end);
    lemma_expression(text, at, tree);
    lemma_sum_ends(text, end, tree);
}

/// The parser reads an expression in round brackets that the printer
/// wrote, whatever follows it.
pub proof fn lemma_bracketed_round_trip(text: Seq<char>, at: int, tree: ExprTree)
    requires
        tree is Bracket,
        is_factor(tree),
        located(text, at, expr_text(tree)),
    ensures
        spec_bracketed_expr(text, at) == Ok::<(int, ExprTree), (int, ErrorKind)>(
            (at + expr_text(tree).len(), tree),
        ),
{
    let inner = tree->Bracket_0;
    let inside = expr_text(*inner);
    lemma_located_parts(text, at, seq!['('] + inside, seq![')']);
    lemma_located_parts(text, at, seq!['('], inside);
    let close = at + 1 + inside.len();
    assert(text[at + 0] == seq!['('][0]);
    assert(text[close + 0] == seq![')'][0]);
    lemma_expression_opens(*inner);
    assert(text[at + 1 + 0] == inside[0]);
    lemma_no_blanks(text, at + 1);
    lemma_expression_round_trip(text, at + 1, *inner);
    lemma_no_blanks(text, close);
}

/// The parser reads an expression in square brackets that the printer
/// wrote, whatever follows it.
pub proof fn lemma_square_bracket_round_trip(text: Seq<char>, at: int, tree: ExprTree)
    requires
        tree is SquareBracket,
        is_literal_operand(tree),
        located(text, at, expr_text(tree)),
    ensures
        spec_square_braket_expr(text, at) == Ok::<(int, ExprTree), (int, ErrorKind)>(
            (at + expr_text(tree).len(), tree),
        ),
{
    let inner = tree->SquareBracket_0;
    let inside = expr_text(*inner);
    lemma_located_parts(text, at, seq!['['] + inside, seq![']']);
    lemma_located_parts(text, at, seq!['['], inside);
    let close = at + 1 + inside.len();
    assert(text[at + 0] == seq!['['][0]);
    assert(text[close + 0] == seq![']'][0]);
    lemma_expression_opens(*inner);
    assert(text[at + 1 + 0] == inside[0]);
    lemma_no_blanks(text, at + 1);
    lemma_expression_round_trip(text, at + 1, *inner);
    lemma_no_blanks(text, close);
}

/// The parser reads a literal operand that the printer wrote, where no
/// further character of a word follows it.
pub proof fn lemma_literal_round_trip(text: Seq<char>, at: int, tree: ExprTree)
    requires
        is_literal_operand(tree),
        located(text, at, expr_text(tree)),
        word_ends(text, at + expr_text(tree).len()),
    ensures
        spec_literal_expr(text, at) == Ok::<(int, ExprTree), (int, ErrorKind)>(
            (at + expr_text(tree).len(), tree),
        ),
{
    match tree {
        ExprTree::SquareBracket(_) => {
            lemma_square_bracket_round_trip(text, at, tree);
        },
        ExprTree::HexLiteral(value) => {
            lemma_hex_literal(text, at, value);
            assert(text[at + 0] == expr_text(tree)[0]);
        },
        _ => {},
    }
}

/// The parser reads an address operand that the printer wrote, where no
/// further character of a word follows it.
pub proof fn lemma_address_round_trip(text: Seq<char>, at: int, tree: ExprTree)
    requires
        is_address_operand(tree),
        located(text, at, address_text(tree)),
        word_ends(text, at + address_text(tree).len()),
    ensures
        spec_address_expr(text, at) == Ok::<(int, ExprTree), (int, ErrorKind)>(
            (at + address_text(tree).len(), tree),
        ),
{
    match tree {
        ExprTree::SquareBracket(_) => {
            lemma_located_parts(text, at, seq!['&'], expr_text(tree));
            assert(text[at + 0] == seq!['&'][0]);
            assert(text[at + 1 + 0] == expr_text(tree)[0]);
            lemma_square_bracket_round_trip(text, at + 1, tree);
            assert(spec_address(text, at) is Err) by {
                assert(!crate::assembler::parser::scan::is_hex_digit(text[at + 1]));
            }
        },
        ExprTree::Address(value) => {
            lemma_address(text, at, value);
        },
        _ => {},
    }
}

/// Printing an expression and parsing the text gives the expression back,
/// and nothing of the text is left.
pub proof fn lemma_printed_expression(tree: ExprTree)
    requires
        is_expression(tree),
    ensures
        spec_binary(expr_text(tree), 0) == Ok::<(int, ExprTree), (int, ErrorKind)>(
            (expr_text(tree).len() as int, tree),
        ),
{
    lemma_located_whole(expr_text(tree));
    lemma_expression_round_trip(expr_text(tree), 0, tree);
}

/// Printing a literal operand and parsing the text gives the operand back,
/// and nothing of the text is left.
pub proof fn lemma_printed_literal(tree: ExprTree)
    requires
        is_literal_operand(tree),
    ensures
        spec_literal_expr(expr_text(tree), 0) == Ok::<(int, ExprTree), (int, ErrorKind)>(
            (expr_text(tree).len() as int, tree),
        ),
{
    lemma_located_whole(expr_text(tree));
    lemma_literal_round_trip(expr_text(tree), 0, tree);
}

/// Printing an address operand and parsing the text gives the operand
/// back, and nothing of the text is left.
pub proof fn lemma_printed_address(tree: ExprTree)
    requires
        is_address_operand(tree),
    ensures
        spec_address_expr(address_text(tree), 0) == Ok::<(int, ExprTree), (int, ErrorKind)>(
            (address_text(tree).len() as int, tree),
        ),
{
    lemma_located_whole(address_text(tree));
    lemma_address_round_trip(address_text(tree), 0, tree);
}

} // verus!
