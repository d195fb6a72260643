//! The parser reads the operands that the printer writes, in every shape
//! that an instruction can have.

use vstd::prelude::*;
use crate::assembler::parser::ast::{ExprTree, Register};
use crate::assembler::parser::error::ErrorKind;
use crate::assembler::parser::expressions::{spec_address_expr, spec_literal_expr};
use crate::assembler::parser::instructions::formats::{spec_comma, spec_mnemonic, spec_pair};
use crate::assembler::parser::scan::{folded, has_char, has_word, is_blank, is_hex_digit};
use crate::assembler::parser::types::{
    named_register, names, register_name, spec_register, spec_register_pointer,
};
use crate::assembler::parser::instructions::formats::{
    spec_lit, spec_lit_mem, spec_lit_offset_reg, spec_lit_reg, spec_mem_reg, spec_reg,
    spec_reg_lit, spec_reg_mem, spec_reg_ptr_reg, spec_reg_reg,
};
use crate::assembler::printer::expressions::{lemma_address_round_trip, lemma_literal_round_trip};
use crate::assembler::printer::text::{
    address_text, expr_text, is_address_operand, is_literal_operand,
};
use crate::assembler::printer::words::{
    lemma_hex_digits_run, lemma_hex_text_digits, lemma_located_parts, lemma_no_blanks,
    lemma_one_blank, located, word_ends,
};

verus! {

/// The text of an instruction with one operand.
pub open spec fn one_operand(mnemonic: Seq<char>, operand: Seq<char>) -> Seq<char> {
    mnemonic + seq![' '] + operand
}

/// The text of two operands.
pub open spec fn pair_text(first: Seq<char>, second: Seq<char>) -> Seq<char> {
    first + seq![',', ' '] + second
}

/// The text of an instruction with two operands.
pub open spec fn two_operands(mnemonic: Seq<char>, first: Seq<char>, second: Seq<char>) -> Seq<
    char,
> {
    one_operand(mnemonic, pair_text(first, second))
}

/// The text of a register behind `&`.
pub open spec fn pointer_text(register: Register) -> Seq<char> {
    seq!['&'] + register_name(register)
}

/// The names of the registers, letter by letter.
pub proof fn lemma_register_names()
    ensures
        register_name(Register::R1) == seq!['r', '1'],
        register_name(Register::R2) == seq!['r', '2'],
        register_name(Register::R3) == seq!['r', '3'],
        register_name(Register::R4) == seq!['r', '4'],
        register_name(Register::R5) == seq!['r', '5'],
        register_name(Register::R6) == seq!['r', '6'],
        register_name(Register::R7) == seq!['r', '7'],
        register_name(Register::R8) == seq!['r', '8'],
        register_name(Register::Sp) == seq!['s', 'p'],
        register_name(Register::Fp) == seq!['f', 'p'],
        register_name(Register::Ip) == seq!['i', 'p'],
        register_name(Register::Acc) == seq!['a', 'c', 'c'],
{
    reveal_strlit("r1");
    reveal_strlit("r2");
    reveal_strlit("r3");
    reveal_strlit("r4");
    reveal_strlit("r5");
    reveal_strlit("r6");
    reveal_strlit("r7");
    reveal_strlit("r8");
    reveal_strlit("sp");
    reveal_strlit("fp");
    reveal_strlit("ip");
    reveal_strlit("acc");
    assert(register_name(Register::R1) =~= seq!['r', '1']);
    assert(register_name(Register::R2) =~= seq!['r', '2']);
    assert(register_name(Register::R3) =~= seq!['r', '3']);
    assert(register_name(Register::R4) =~= seq!['r', '4']);
    assert(register_name(Register::R5) =~= seq!['r', '5']);
    assert(register_name(Register::R6) =~= seq!['r', '6']);
    assert(register_name(Register::R7) =~= seq!['r', '7']);
    assert(register_name(Register::R8) =~= seq!['r', '8']);
    assert(register_name(Register::Sp) =~= seq!['s', 'p']);
    assert(register_name(Register::Fp) =~= seq!['f', 'p']);
    assert(register_name(Register::Ip) =~= seq!['i', 'p']);
    assert(register_name(Register::Acc) =~= seq!['a', 'c', 'c']);
}

/// Whether `c` is the first letter of the name of a register, in small
/// letters.
pub open spec fn opens_register(c: char) -> bool {
    c == 'r' || c == 's' || c == 'f' || c == 'i' || c == 'a'
}

/// The name of a register has two letters at least and begins with a small
/// letter.
pub proof fn lemma_register_opens(register: Register)
    ensures
        register_name(register).len() >= 2,
        opens_register(register_name(register)[0]),
        !is_blank(register_name(register)[0]),
{
    lemma_register_names();
}

/// The parser reads the name of a register that the printer wrote,
/// whatever follows it.
pub proof fn lemma_register(text: Seq<char>, at: int, register: Register)
    requires
        located(text, at, register_name(register)),
    ensures
        spec_register(text, at) == Ok::<(int, Register), (int, ErrorKind)>(
            (at + register_name(register).len(), register),
        ),
{
    lemma_register_names();
    let name = register_name(register);
    assert(text[at + 0] == name[0]);
    assert(text[at + 1] == name[1]);
    if register == Register::Acc {
        assert(text[at + 2] == name[2]);
    }
    assert(names(text, at, register));
    assert(named_register(text, at) == Some(register));
}

/// The parser reads a register behind `&` that the printer wrote.
pub proof fn lemma_pointer(text: Seq<char>, at: int, register: Register)
    requires
        located(text, at, pointer_text(register)),
    ensures
        spec_register_pointer(text, at) == Ok::<(int, Register), (int, ErrorKind)>(
            (at + pointer_text(register).len(), register),
        ),
{
    lemma_located_parts(text, at, seq!['&'], register_name(register));
    assert(text[at + 0] == seq!['&'][0]);
    lemma_register(text, at + 1, register);
}

/// No register is read where the first character is none of a name.
pub proof fn lemma_no_register(text: Seq<char>, at: int)
    requires
        at < 0 || at >= text.len() || !opens_register(text[at]),
        at < 0 || at >= text.len() || folded(text[at]) == text[at] as int,
    ensures
        spec_register(text, at) is Err,
{
    lemma_register_names();
    if 0 <= at < text.len() {
        assert(text[at + 0] == text[at]);
    }
}

/// No literal operand is read where the first character is neither `[` nor
/// `$`.
pub proof fn lemma_no_literal(text: Seq<char>, at: int)
    requires
        !has_char(text, at, '['),
        !has_char(text, at, '$'),
    ensures
        spec_literal_expr(text, at) is Err,
{
}

/// No address operand and no register behind `&` is read where the first
/// character is not `&`.
pub proof fn lemma_no_address(text: Seq<char>, at: int)
    requires
        !has_char(text, at, '&'),
    ensures
        spec_address_expr(text, at) is Err,
        spec_register_pointer(text, at) is Err,
{
}

/// No address operand is read where `&` stands in front of a character
/// that is neither a hexadecimal digit nor `[`.
pub proof fn lemma_no_address_behind_sigil(text: Seq<char>, at: int)
    requires
        has_char(text, at, '&'),
        at + 1 >= text.len() || (!is_hex_digit(text[at + 1]) && text[at + 1] != '['),
    ensures
        spec_address_expr(text, at) is Err,
{
}

/// The parser reads a mnemonic that the printer wrote, with one blank
/// behind it and the first operand behind that.
pub proof fn lemma_mnemonic(text: Seq<char>, at: int, mnemonic: Seq<char>, operands: Seq<char>)
    requires
        located(text, at, one_operand(mnemonic, operands)),
        operands.len() >= 1,
        !is_blank(operands[0]),
    ensures
        spec_mnemonic(text, at, mnemonic) == Ok::<(int, ()), (int, ErrorKind)>(
            (at + mnemonic.len() + 1, ()),
        ),
        located(text, at + mnemonic.len() + 1, operands),
        located(text, at, mnemonic),
        has_word(text, at, mnemonic),
{
    lemma_located_parts(text, at, mnemonic + seq![' '], operands);
    lemma_located_parts(text, at, mnemonic, seq![' ']);
    let after = at + mnemonic.len();
    assert(text[after + 0] == seq![' '][0]);
    assert(text[after + 1 + 0] == operands[0]);
    lemma_one_blank(text, after);
}

/// The parser reads a comma that the printer wrote, with one blank behind
/// it and the next operand behind that.
pub proof fn lemma_comma(text: Seq<char>, at: int, first: Seq<char>, second: Seq<char>)
    requires
        located(text, at, pair_text(first, second)),
        second.len() >= 1,
        !is_blank(second[0]),
    ensures
        located(text, at, first),
        has_char(text, at + first.len(), ','),
        spec_comma(text, at + first.len()) == Ok::<(int, ()), (int, ErrorKind)>(
            (at + first.len() + 2, ()),
        ),
        located(text, at + first.len() + 2, second),
{
    let between = seq![',', ' '];
    lemma_located_parts(text, at, first + between, second);
    lemma_located_parts(text, at, first, between);
    let comma = at + first.len();
    assert(text[comma + 0] == between[0]);
    assert(text[comma + 1] == between[1]);
    assert(text[comma + 2 + 0] == second[0]);
    lemma_no_blanks(text, comma);
    lemma_one_blank(text, comma + 1);
}

/// The text of a literal operand begins with `[` or `$` and has two
/// characters at least.
pub proof fn lemma_literal_opens(tree: ExprTree)
    requires
        is_literal_operand(tree),
    ensures
        expr_text(tree).len() >= 2,
        expr_text(tree)[0] == '[' || expr_text(tree)[0] == '$',
{
    match tree {
        ExprTree::HexLiteral(value) => {
            lemma_hex_text_digits(value as nat);
        },
        _ => {},
    }
}

/// The text of an address operand begins with `&` and has two characters
/// at least. Behind the `&` stands a hexadecimal digit or `[`.
pub proof fn lemma_address_opens(tree: ExprTree)
    requires
        is_address_operand(tree),
    ensures
        address_text(tree).len() >= 2,
        address_text(tree)[0] == '&',
{
    match tree {
        ExprTree::Address(value) => {
            lemma_hex_text_digits(value as nat);
        },
        _ => {},
    }
}

/// A register behind `&` with a comma behind it is read as no address
/// operand with a comma behind it, unless the register is `acc`, whose
/// name is a number.
pub proof fn lemma_pointer_is_no_address(
    text: Seq<char>,
    at: int,
    register: Register,
    rest: Seq<char>,
)
    requires
        register != Register::Acc,
        located(text, at, pair_text(pointer_text(register), rest)),
        rest.len() >= 1,
        !is_blank(rest[0]),
    ensures
        spec_pair(
            text,
            at,
            |t: Seq<char>, i: int| spec_address_expr(t, i),
            |t: Seq<char>, i: int| spec_register(t, i),
        ) is Err,
{
    lemma_register_names();
    let pointer = pointer_text(register);
    lemma_comma(text, at, pointer, rest);
    assert(text[at + 0] == pointer[0]);
    assert(text[at + 1] == pointer[1]);
    assert(text[at + 2] == pointer[2]);
    if register == Register::Fp {
        lemma_hex_digits_run(text, at + 1, at + 2);
        lemma_no_blanks(text, at + 2);
    } else {
        lemma_no_address_behind_sigil(text, at);
    }
}

/// Where a literal operand that the printer wrote stands, the parser reads
/// it as one, and as nothing else.
pub proof fn lemma_literal_here(text: Seq<char>, at: int, tree: ExprTree)
    requires
        is_literal_operand(tree),
        located(text, at, expr_text(tree)),
        word_ends(text, at + expr_text(tree).len()),
    ensures
        spec_literal_expr(text, at) == Ok::<(int, ExprTree), (int, ErrorKind)>(
            (at + expr_text(tree).len(), tree),
        ),
        spec_register(text, at) is Err,
        spec_address_expr(text, at) is Err,
        spec_register_pointer(text, at) is Err,
        expr_text(tree).len() >= 1,
        !is_blank(expr_text(tree)[0]),
{
    lemma_literal_opens(tree);
    assert(text[at + 0] == expr_text(tree)[0]);
    lemma_literal_round_trip(text, at, tree);
    lemma_no_register(text, at);
    lemma_no_address(text, at);
}

/// Where an address operand that the printer wrote stands, the parser
/// reads it as one, and as no literal operand and no register.
pub proof fn lemma_address_here(text: Seq<char>, at: int, tree: ExprTree)
    requires
        is_address_operand(tree),
        located(text, at, address_text(tree)),
        word_ends(text, at + address_text(tree).len()),
    ensures
        spec_address_expr(text, at) == Ok::<(int, ExprTree), (int, ErrorKind)>(
            (at + address_text(tree).len(), tree),
        ),
        spec_register(text, at) is Err,
        spec_literal_expr(text, at) is Err,
        address_text(tree).len() >= 1,
        !is_blank(address_text(tree)[0]),
{
    lemma_address_opens(tree);
    assert(text[at + 0] == address_text(tree)[0]);
    lemma_address_round_trip(text, at, tree);
    lemma_no_register(text, at);
    lemma_no_literal(text, at);
}

/// Where the name of a register that the printer wrote stands, the parser
/// reads it as one, and as nothing else.
pub proof fn lemma_register_here(text: Seq<char>, at: int, register: Register)
    requires
        located(text, at, register_name(register)),
    ensures
        spec_register(text, at) == Ok::<(int, Register), (int, ErrorKind)>(
            (at + register_name(register).len(), register),
        ),
        spec_literal_expr(text, at) is Err,
        spec_address_expr(text, at) is Err,
        spec_register_pointer(text, at) is Err,
        register_name(register).len() >= 1,
        !is_blank(register_name(register)[0]),
{
    lemma_register_opens(register);
    assert(text[at + 0] == register_name(register)[0]);
    lemma_register(text, at, register);
    lemma_no_literal(text, at);
    lemma_no_address(text, at);
}

/// Where a register behind `&` that the printer wrote stands, the parser
/// reads it as one, and as no literal operand and no register. It reads it
/// as no address operand either, unless the name of the register begins
/// with a hexadecimal digit.
pub proof fn lemma_pointer_here(text: Seq<char>, at: int, register: Register)
    requires
        located(text, at, pointer_text(register)),
    ensures
        spec_register_pointer(text, at) == Ok::<(int, Register), (int, ErrorKind)>(
            (at + pointer_text(register).len(), register),
        ),
        spec_literal_expr(text, at) is Err,
        spec_register(text, at) is Err,
        register != Register::Acc && register != Register::Fp ==> spec_address_expr(text, at) is Err,
        pointer_text(register).len() >= 1,
        !is_blank(pointer_text(register)[0]),
{
    lemma_register_names();
    let pointer = pointer_text(register);
    assert(text[at + 0] == pointer[0]);
    assert(text[at + 1] == pointer[1]);
    lemma_pointer(text, at, register);
    lemma_no_literal(text, at);
    lemma_no_register(text, at);
    if register != Register::Acc && register != Register::Fp {
        lemma_no_address_behind_sigil(text, at);
    }
}

/// The parser reads an instruction with a literal that the printer wrote
/// up to the end of the text, and reads nothing in the shapes that begin
/// or go on with an operand of another kind.
pub proof fn lemma_text_lit(text: Seq<char>, at: int, mnemonic: Seq<char>, a: ExprTree)
    requires
        is_literal_operand(a),
        located(text, at, one_operand(mnemonic, expr_text(a))),
        at + one_operand(mnemonic, expr_text(a)).len() == text.len(),
    ensures
        located(text, at, mnemonic),
        spec_lit(text, at, mnemonic) == Ok::<(int, ExprTree), (int, ErrorKind)>(
            (text.len() as int, a),
        ),
        spec_reg(text, at, mnemonic) is Err,
        spec_mem_reg(text, at, mnemonic) is Err,
        spec_reg_lit(text, at, mnemonic) is Err,
        spec_reg_mem(text, at, mnemonic) is Err,
        spec_reg_reg(text, at, mnemonic) is Err,
        spec_reg_ptr_reg(text, at, mnemonic) is Err,
{
    let first = expr_text(a);
    lemma_literal_opens(a);
    let p = at + mnemonic.len() + 1;
    lemma_mnemonic(text, at, mnemonic, first);
    assert(text[p + 0] == first[0]);
    lemma_literal_here(text, p, a);
    lemma_no_blanks(text, text.len() as int);
}

/// The parser reads an instruction with a register that the printer wrote
/// up to the end of the text, and reads nothing in the shapes that begin
/// or go on with an operand of another kind.
pub proof fn lemma_text_reg(text: Seq<char>, at: int, mnemonic: Seq<char>, a: Register)
    requires
        located(text, at, one_operand(mnemonic, register_name(a))),
        at + one_operand(mnemonic, register_name(a)).len() == text.len(),
    ensures
        located(text, at, mnemonic),
        spec_reg(text, at, mnemonic) == Ok::<(int, Register), (int, ErrorKind)>(
            (text.len() as int, a),
        ),
        spec_lit(text, at, mnemonic) is Err,
        spec_lit_mem(text, at, mnemonic) is Err,
        spec_lit_reg(text, at, mnemonic) is Err,
        spec_mem_reg(text, at, mnemonic) is Err,
        spec_reg_ptr_reg(text, at, mnemonic) is Err,
        spec_lit_offset_reg(text, at, mnemonic) is Err,
{
    let first = register_name(a);
    lemma_register_opens(a);
    let p = at + mnemonic.len() + 1;
    lemma_mnemonic(text, at, mnemonic, first);
    assert(text[p + 0] == first[0]);
    lemma_register_here(text, p, a);
    lemma_no_blanks(text, text.len() as int);
}

/// The parser reads an instruction with a literal and an address that the printer wrote
/// up to the end of the text, and reads nothing in the shapes that begin
/// or go on with an operand of another kind.
pub proof fn lemma_text_lit_mem(
    text: Seq<char>,
    at: int,
    mnemonic: Seq<char>,
    a: ExprTree,
    b: ExprTree,
)
    requires
        is_literal_operand(a),
        is_address_operand(b),
        located(text, at, two_operands(mnemonic, expr_text(a), address_text(b))),
        at + two_operands(mnemonic, expr_text(a), address_text(b)).len() == text.len(),
    ensures
        located(text, at, mnemonic),
        spec_lit_mem(text, at, mnemonic) == Ok::<(int, (ExprTree, ExprTree)), (int, ErrorKind)>(
            (text.len() as int, (a, b)),
        ),
        spec_reg(text, at, mnemonic) is Err,
        spec_lit_reg(text, at, mnemonic) is Err,
        spec_mem_reg(text, at, mnemonic) is Err,
        spec_reg_lit(text, at, mnemonic) is Err,
        spec_reg_mem(text, at, mnemonic) is Err,
        spec_reg_reg(text, at, mnemonic) is Err,
        spec_reg_ptr_reg(text, at, mnemonic) is Err,
{
    let first = expr_text(a);
    lemma_literal_opens(a);
    let p = at + mnemonic.len() + 1;
    let second = address_text(b);
    lemma_address_opens(b);
    let rest = second;
    let operands = pair_text(first, rest);
    assert(operands[0] == first[0]);
    lemma_mnemonic(text, at, mnemonic, operands);
    lemma_comma(text, p, first, rest);
    let q = p + first.len() + 2;
    assert(text[p + 0] == first[0]);
    assert(text[q + 0] == rest[0]);
    lemma_literal_here(text, p, a);
    lemma_address_here(text, q, b);
    lemma_no_blanks(text, text.len() as int);
}

/// The parser reads an instruction with a literal and a register that the printer wrote
/// up to the end of the text, and reads nothing in the shapes that begin
/// or go on with an operand of another kind.
pub proof fn lemma_text_lit_reg(
    text: Seq<char>,
    at: int,
    mnemonic: Seq<char>,
    a: ExprTree,
    b: Register,
)
    requires
        is_literal_operand(a),
        located(text, at, two_operands(mnemonic, expr_text(a), register_name(b))),
        at + two_operands(mnemonic, expr_text(a), register_name(b)).len() == text.len(),
    ensures
        located(text, at, mnemonic),
        spec_lit_reg(text, at, mnemonic) == Ok::<(int, (ExprTree, Register)), (int, ErrorKind)>(
            (text.len() as int, (a, b)),
        ),
        spec_reg(text, at, mnemonic) is Err,
        spec_lit_mem(text, at, mnemonic) is Err,
        spec_mem_reg(text, at, mnemonic) is Err,
        spec_reg_lit(text, at, mnemonic) is Err,
        spec_reg_mem(text, at, mnemonic) is Err,
        spec_reg_reg(text, at, mnemonic) is Err,
        spec_reg_ptr_reg(text, at, mnemonic) is Err,
        spec_lit_offset_reg(text, at, mnemonic) is Err,
{
    let first = expr_text(a);
    lemma_literal_opens(a);
    let p = at + mnemonic.len() + 1;
    let second = register_name(b);
    lemma_register_opens(b);
    let rest = second;
    let operands = pair_text(first, rest);
    assert(operands[0] == first[0]);
    lemma_mnemonic(text, at, mnemonic, operands);
    lemma_comma(text, p, first, rest);
    let q = p + first.len() + 2;
    assert(text[p + 0] == first[0]);
    assert(text[q + 0] == rest[0]);
    lemma_literal_here(text, p, a);
    lemma_register_here(text, q, b);
    lemma_no_blanks(text, text.len() as int);
}

/// The parser reads an instruction with an address and a register that the printer wrote
/// up to the end of the text, and reads nothing in the shapes that begin
/// or go on with an operand of another kind.
pub proof fn lemma_text_mem_reg(
    text: Seq<char>,
    at: int,
    mnemonic: Seq<char>,
    a: ExprTree,
    b: Register,
)
    requires
        is_address_operand(a),
        located(text, at, two_operands(mnemonic, address_text(a), register_name(b))),
        at + two_operands(mnemonic, address_text(a), register_name(b)).len() == text.len(),
    ensures
        located(text, at, mnemonic),
        spec_mem_reg(text, at, mnemonic) == Ok::<(int, (ExprTree, Register)), (int, ErrorKind)>(
            (text.len() as int, (a, b)),
        ),
        spec_lit(text, at, mnemonic) is Err,
        spec_reg(text, at, mnemonic) is Err,
        spec_lit_mem(text, at, mnemonic) is Err,
        spec_lit_reg(text, at, mnemonic) is Err,
        spec_reg_lit(text, at, mnemonic) is Err,
        spec_reg_mem(text, at, mnemonic) is Err,
        spec_reg_reg(text, at, mnemonic) is Err,
        spec_lit_offset_reg(text, at, mnemonic) is Err,
{
    let first = address_text(a);
    lemma_address_opens(a);
    let p = at + mnemonic.len() + 1;
    let second = register_name(b);
    lemma_register_opens(b);
    let rest = second;
    let operands = pair_text(first, rest);
    assert(operands[0] == first[0]);
    lemma_mnemonic(text, at, mnemonic, operands);
    lemma_comma(text, p, first, rest);
    let q = p + first.len() + 2;
    assert(text[p + 0] == first[0]);
    assert(text[q + 0] == rest[0]);
    lemma_address_here(text, p, a);
    lemma_register_here(text, q, b);
    lemma_no_blanks(text, text.len() as int);
}

/// The parser reads an instruction with a register and a literal that the printer wrote
/// up to the end of the text, and reads nothing in the shapes that begin
/// or go on with an operand of another kind.
pub proof fn lemma_text_reg_lit(
    text: Seq<char>,
    at: int,
    mnemonic: Seq<char>,
    a: Register,
    b: ExprTree,
)
    requires
        is_literal_operand(b),
        located(text, at, two_operands(mnemonic, register_name(a), expr_text(b))),
        at + two_operands(mnemonic, register_name(a), expr_text(b)).len() == text.len(),
    ensures
        located(text, at, mnemonic),
        spec_reg_lit(text, at, mnemonic) == Ok::<(int, (Register, ExprTree)), (int, ErrorKind)>(
            (text.len() as int, (a, b)),
        ),
        spec_lit(text, at, mnemonic) is Err,
        spec_lit_mem(text, at, mnemonic) is Err,
        spec_lit_reg(text, at, mnemonic) is Err,
        spec_mem_reg(text, at, mnemonic) is Err,
        spec_reg_mem(text, at, mnemonic) is Err,
        spec_reg_reg(text, at, mnemonic) is Err,
        spec_reg_ptr_reg(text, at, mnemonic) is Err,
        spec_lit_offset_reg(text, at, mnemonic) is Err,
{
    let first = register_name(a);
    lemma_register_opens(a);
    let p = at + mnemonic.len() + 1;
    let second = expr_text(b);
    lemma_literal_opens(b);
    let rest = second;
    let operands = pair_text(first, rest);
    assert(operands[0] == first[0]);
    lemma_mnemonic(text, at, mnemonic, operands);
    lemma_comma(text, p, first, rest);
    let q = p + first.len() + 2;
    assert(text[p + 0] == first[0]);
    assert(text[q + 0] == rest[0]);
    lemma_register_here(text, p, a);
    lemma_literal_here(text, q, b);
    lemma_no_blanks(text, text.len() as int);
}

/// The parser reads an instruction with a register and an address that the printer wrote
/// up to the end of the text, and reads nothing in the shapes that begin
/// or go on with an operand of another kind.
pub proof fn lemma_text_reg_mem(
    text: Seq<char>,
    at: int,
    mnemonic: Seq<char>,
    a: Register,
    b: ExprTree,
)
    requires
        is_address_operand(b),
        located(text, at, two_operands(mnemonic, register_name(a), address_text(b))),
        at + two_operands(mnemonic, register_name(a), address_text(b)).len() == text.len(),
    ensures
        located(text, at, mnemonic),
        spec_reg_mem(text, at, mnemonic) == Ok::<(int, (Register, ExprTree)), (int, ErrorKind)>(
            (text.len() as int, (a, b)),
        ),
        spec_lit(text, at, mnemonic) is Err,
        spec_lit_mem(text, at, mnemonic) is Err,
        spec_lit_reg(text, at, mnemonic) is Err,
        spec_mem_reg(text, at, mnemonic) is Err,
        spec_reg_lit(text, at, mnemonic) is Err,
        spec_reg_reg(text, at, mnemonic) is Err,
        spec_reg_ptr_reg(text, at, mnemonic) is Err,
        spec_lit_offset_reg(text, at, mnemonic) is Err,
{
    let first = register_name(a);
    lemma_register_opens(a);
    let p = at + mnemonic.len() + 1;
    let second = address_text(b);
    lemma_address_opens(b);
    let rest = second;
    let operands = pair_text(first, rest);
    assert(operands[0] == first[0]);
    lemma_mnemonic(text, at, mnemonic, operands);
    lemma_comma(text, p, first, rest);
    let q = p + first.len() + 2;
    assert(text[p + 0] == first[0]);
    assert(text[q + 0] == rest[0]);
    lemma_register_here(text, p, a);
    lemma_address_here(text, q, b);
    lemma_no_blanks(text, text.len() as int);
}

/// The parser reads an instruction with a register and a register that the printer wrote
/// up to the end of the text, and reads nothing in the shapes that begin
/// or go on with an operand of another kind.
pub proof fn lemma_text_reg_reg(
    text: Seq<char>,
    at: int,
    mnemonic: Seq<char>,
    a: Register,
    b: Register,
)
    requires
        located(text, at, two_operands(mnemonic, register_name(a), register_name(b))),
        at + two_operands(mnemonic, register_name(a), register_name(b)).len() == text.len(),
    ensures
        located(text, at, mnemonic),
        spec_reg_reg(text, at, mnemonic) == Ok::<(int, (Register, Register)), (int, ErrorKind)>(
            (text.len() as int, (a, b)),
        ),
        spec_lit(text, at, mnemonic) is Err,
        spec_lit_mem(text, at, mnemonic) is Err,
        spec_lit_reg(text, at, mnemonic) is Err,
        spec_mem_reg(text, at, mnemonic) is Err,
        spec_reg_lit(text, at, mnemonic) is Err,
        spec_reg_mem(text, at, mnemonic) is Err,
        spec_reg_ptr_reg(text, at, mnemonic) is Err,
        spec_lit_offset_reg(text, at, mnemonic) is Err,
{
    let first = register_name(a);
    lemma_register_opens(a);
    let p = at + mnemonic.len() + 1;
    let second = register_name(b);
    lemma_register_opens(b);
    let rest = second;
    let operands = pair_text(first, rest);
    assert(operands[0] == first[0]);
    lemma_mnemonic(text, at, mnemonic, operands);
    lemma_comma(text, p, first, rest);
    let q = p + first.len() + 2;
    assert(text[p + 0] == first[0]);
    assert(text[q + 0] == rest[0]);
    lemma_register_here(text, p, a);
    lemma_register_here(text, q, b);
    lemma_no_blanks(text, text.len() as int);
}

/// The parser reads an instruction with a register behind `&` and a register that the printer wrote
/// up to the end of the text, and reads nothing in the shapes that begin
/// or go on with an operand of another kind.
pub proof fn lemma_text_reg_ptr_reg(
    text: Seq<char>,
    at: int,
    mnemonic: Seq<char>,
    a: Register,
    b: Register,
)
    requires
        a != Register::Acc,
        located(text, at, two_operands(mnemonic, pointer_text(a), register_name(b))),
        at + two_operands(mnemonic, pointer_text(a), register_name(b)).len() == text.len(),
    ensures
        located(text, at, mnemonic),
        spec_reg_ptr_reg(text, at, mnemonic) == Ok::<(int, (Register, Register)), (int, ErrorKind)>(
            (text.len() as int, (a, b)),
        ),
        spec_lit(text, at, mnemonic) is Err,
        spec_reg(text, at, mnemonic) is Err,
        spec_lit_mem(text, at, mnemonic) is Err,
        spec_lit_reg(text, at, mnemonic) is Err,
        spec_mem_reg(text, at, mnemonic) is Err,
        spec_reg_lit(text, at, mnemonic) is Err,
        spec_reg_mem(text, at, mnemonic) is Err,
        spec_reg_reg(text, at, mnemonic) is Err,
        spec_lit_offset_reg(text, at, mnemonic) is Err,
{
    let first = pointer_text(a);
    assert(first[0] == '&');
    let p = at + mnemonic.len() + 1;
    let second = register_name(b);
    lemma_register_opens(b);
    let rest = second;
    let operands = pair_text(first, rest);
    assert(operands[0] == first[0]);
    lemma_mnemonic(text, at, mnemonic, operands);
    lemma_comma(text, p, first, rest);
    let q = p + first.len() + 2;
    assert(text[p + 0] == first[0]);
    assert(text[q + 0] == rest[0]);
    lemma_pointer_here(text, p, a);
    lemma_register_here(text, q, b);
    lemma_pointer_is_no_address(text, p, a, second);
    lemma_no_blanks(text, text.len() as int);
}

/// The parser reads an instruction with a literal, a register behind `&`
/// and a register that the printer wrote up to the end of the text, and
/// reads nothing in the shapes that begin or go on with an operand of
/// another kind.
pub proof fn lemma_text_lit_offset_reg(
    text: Seq<char>,
    at: int,
    mnemonic: Seq<char>,
    a: ExprTree,
    b: Register,
    c: Register,
)
    requires
        is_literal_operand(a),
        b != Register::Acc,
        b != Register::Fp,
        located(text, at, two_operands(mnemonic, expr_text(a), pair_text(pointer_text(b), register_name(c)))),
        at + two_operands(mnemonic, expr_text(a), pair_text(pointer_text(b), register_name(c))).len() == text.len(),
    ensures
        located(text, at, mnemonic),
        spec_lit_offset_reg(text, at, mnemonic) == Ok::<(int, (ExprTree, (Register, Register))), (int, ErrorKind)>(
            (text.len() as int, (a, (b, c))),
        ),
        spec_reg(text, at, mnemonic) is Err,
        spec_lit_mem(text, at, mnemonic) is Err,
        spec_lit_reg(text, at, mnemonic) is Err,
        spec_mem_reg(text, at, mnemonic) is Err,
        spec_reg_lit(text, at, mnemonic) is Err,
        spec_reg_mem(text, at, mnemonic) is Err,
        spec_reg_reg(text, at, mnemonic) is Err,
        spec_reg_ptr_reg(text, at, mnemonic) is Err,
{
    let first = expr_text(a);
    lemma_literal_opens(a);
    let p = at + mnemonic.len() + 1;
    let second = pointer_text(b);
    assert(second[0] == '&');
    let third = register_name(c);
    lemma_register_opens(c);
    let rest = pair_text(second, third);
    assert(rest[0] == second[0]);
    let operands = pair_text(first, rest);
    assert(operands[0] == first[0]);
    lemma_mnemonic(text, at, mnemonic, operands);
    lemma_comma(text, p, first, rest);
    let q = p + first.len() + 2;
    assert(text[p + 0] == first[0]);
    assert(text[q + 0] == rest[0]);
    lemma_literal_here(text, p, a);
    lemma_comma(text, q, second, third);
    let r = q + second.len() + 2;
    assert(text[r + 0] == third[0]);
    lemma_pointer_here(text, q, b);
    lemma_register_here(text, r, c);
    lemma_no_blanks(text, text.len() as int);
}

} // verus!
