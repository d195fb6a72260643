//! Printing: from trees back to text.

use vstd::prelude::*;
use vstd::string::{StrSliceExecFns, StringExecFns};
use crate::assembler::parser::ast::ExprTree;
use crate::assembler::parser::error::ErrorKind;
use crate::assembler::parser::expressions::{binary, spec_binary};
use crate::assembler::parser::instructions::{instruction as parse_instruction, spec_instruction};
use crate::assembler::printer::expressions::lemma_printed_expression;
use crate::assembler::printer::instructions::{is_instruction, lemma_printed_instruction};
use crate::assembler::printer::text::is_expression;
use crate::assembler::parser::ast::{Expr, ExprKind, Instruction, InstructionKind, Operator, Register};
use crate::assembler::parser::types::register_name;
use crate::assembler::printer::formats::{one_operand, pair_text, pointer_text, two_operands};
use crate::assembler::printer::instructions::{instruction_text, mnemonic_of, mnemonic_text};
use crate::assembler::printer::text::{address_text, digit_char, expr_text, hex_text, operator_char};

verus! {

/// The text of a hexadecimal digit.
fn digit_text(digit: u16) -> (text: &'static str)
    requires
        digit < 16,
    ensures
        text@ == seq![digit_char(digit as nat)],
{
    proof {
        reveal_strlit("0");
        reveal_strlit("1");
        reveal_strlit("2");
        reveal_strlit("3");
        reveal_strlit("4");
        reveal_strlit("5");
        reveal_strlit("6");
        reveal_strlit("7");
        reveal_strlit("8");
        reveal_strlit("9");
        reveal_strlit("a");
        reveal_strlit("b");
        reveal_strlit("c");
        reveal_strlit("d");
        reveal_strlit("e");
        reveal_strlit("f");
    }
    let text = if digit == 0 {
        "0"
    } else if digit == 1 {
        "1"
    } else if digit == 2 {
        "2"
    } else if digit == 3 {
        "3"
    } else if digit == 4 {
        "4"
    } else if digit == 5 {
        "5"
    } else if digit == 6 {
        "6"
    } else if digit == 7 {
        "7"
    } else if digit == 8 {
        "8"
    } else if digit == 9 {
        "9"
    } else if digit == 10 {
        "a"
    } else if digit == 11 {
        "b"
    } else if digit == 12 {
        "c"
    } else if digit == 13 {
        "d"
    } else if digit == 14 {
        "e"
    } else {
        "f"
    };
    assert(text@ =~= seq![digit_char(digit as nat)]);
    text
}

/// Appends the hexadecimal digits of `value` to `out`.
fn push_hex(out: &mut String, value: u16)
    ensures
        final(out)@ == old(out)@ + hex_text(value as nat),
    decreases value,
{
    if value >= 16 {
        push_hex(out, value / 16);
    }
    out.append(digit_text(value % 16));
    assert(final(out)@ =~= old(out)@ + hex_text(value as nat));
}

/// The text of an operator.
fn operator_text(operator: Operator) -> (text: &'static str)
    ensures
        text@ == seq![' ', operator_char(operator), ' '],
{
    proof {
        reveal_strlit(" + ");
        reveal_strlit(" - ");
        reveal_strlit(" * ");
    }
    let text = match operator {
        Operator::OpPlus => " + ",
        Operator::OpMinus => " - ",
        Operator::OpMultiply => " * ",
    };
    assert(text@ =~= seq![' ', operator_char(operator), ' ']);
    text
}

/// Appends the text of `expression` to `out`.
pub fn push_expression(out: &mut String, expression: &Expr)
    ensures
        final(out)@ == old(out)@ + expr_text(expression@),
    decreases expression,
{
    proof {
        reveal_strlit("&");
        reveal_strlit("$");
        reveal_strlit("!");
        reveal_strlit("(");
        reveal_strlit(")");
        reveal_strlit("[");
        reveal_strlit("]");
    }
    match &expression.kind {
        ExprKind::Address(address) => {
            out.append("&");
            push_hex(out, *address);
            assert(final(out)@ =~= old(out)@ + expr_text(expression@));
        },
        ExprKind::Binary(left, operator, right) => {
            push_expression(out, left);
            out.append(operator_text(*operator));
            push_expression(out, right);
            assert(final(out)@ =~= old(out)@ + expr_text(expression@));
        },
        ExprKind::Bracket(inner) => {
            out.append("(");
            push_expression(out, inner);
            out.append(")");
            assert(final(out)@ =~= old(out)@ + expr_text(expression@));
        },
        ExprKind::HexLiteral(value) => {
            out.append("$");
            push_hex(out, *value);
            assert(final(out)@ =~= old(out)@ + expr_text(expression@));
        },
        ExprKind::SquareBracket(inner) => {
            out.append("[");
            push_expression(out, inner);
            out.append("]");
            assert(final(out)@ =~= old(out)@ + expr_text(expression@));
        },
        ExprKind::Variable(name) => {
            out.append("!");
            out.append(name.as_str());
            assert(final(out)@ =~= old(out)@ + expr_text(expression@));
        },
    }
}

/// Appends the text of the address operand `address` to `out`.
pub fn push_address(out: &mut String, address: &Expr)
    ensures
        final(out)@ == old(out)@ + address_text(address@),
{
    proof {
        reveal_strlit("&");
    }
    match &address.kind {
        ExprKind::Address(_) => {
            push_expression(out, address);
        },
        _ => {
            out.append("&");
            push_expression(out, address);
            assert(final(out)@ =~= old(out)@ + address_text(address@));
        },
    }
}

/// The name of `register` in small letters.
pub fn name_of(register: Register) -> (name: &'static str)
    ensures
        name@ == register_name(register),
{
    match register {
        Register::R1 => "r1",
        Register::R2 => "r2",
        Register::R3 => "r3",
        Register::R4 => "r4",
        Register::R5 => "r5",
        Register::R6 => "r6",
        Register::R7 => "r7",
        Register::R8 => "r8",
        Register::Sp => "sp",
        Register::Fp => "fp",
        Register::Ip => "ip",
        Register::Acc => "acc",
    }
}

/// Appends the name of `register` behind `&` to `out`.
fn push_pointer(out: &mut String, register: Register)
    ensures
        final(out)@ == old(out)@ + pointer_text(register),
{
    proof {
        reveal_strlit("&");
    }
    out.append("&");
    out.append(name_of(register));
    assert(final(out)@ =~= old(out)@ + pointer_text(register));
}

/// Appends a comma and a blank to `out`.
fn push_comma(out: &mut String)
    ensures
        final(out)@ == old(out)@ + seq![',', ' '],
{
    proof {
        reveal_strlit(", ");
    }
    out.append(", ");
    assert(final(out)@ =~= old(out)@ + seq![',', ' ']);
}

/// Appends a blank to `out`.
fn push_blank(out: &mut String)
    ensures
        final(out)@ == old(out)@ + seq![' '],
{
    proof {
        reveal_strlit(" ");
    }
    out.append(" ");
    assert(final(out)@ =~= old(out)@ + seq![' ']);
}

/// The text of `expression`.
pub fn print_expression(expression: &Expr) -> (text: String)
    ensures
        text@ == expr_text(expression@),
{
    let mut text = String::new();
    push_expression(&mut text, expression);
    assert(text@ =~= expr_text(expression@));
    text
}

/// The text of the address operand `address`.
pub fn print_address_operand(address: &Expr) -> (text: String)
    ensures
        text@ == address_text(address@),
{
    let mut text = String::new();
    push_address(&mut text, address);
    assert(text@ =~= address_text(address@));
    text
}

/// The mnemonic of `instruction`.
pub fn mnemonic_name(instruction: &Instruction) -> (text: &'static str)
    ensures
        text@ == mnemonic_text(mnemonic_of(instruction@)),
{
    match &instruction.kind {
        InstructionKind::AddLitReg(_, _) => "add",
        InstructionKind::AddRegReg(_, _) => "add",
        InstructionKind::AndLitReg(_, _) => "and",
        InstructionKind::AndRegReg(_, _) => "and",
        InstructionKind::CalLit(_) => "cal",
        InstructionKind::CalReg(_) => "cal",
        InstructionKind::DecReg(_) => "dec",
        InstructionKind::Hlt => "hlt",
        InstructionKind::IncReg(_) => "inc",
        InstructionKind::JeqLitMem(_, _) => "jeq",
        InstructionKind::JeqRegMem(_, _) => "jeq",
        InstructionKind::JgeLitMem(_, _) => "jge",
        InstructionKind::JgeRegMem(_, _) => "jge",
        InstructionKind::JgtLitMem(_, _) => "jgt",
        InstructionKind::JgtRegMem(_, _) => "jgt",
        InstructionKind::JleLitMem(_, _) => "jle",
        InstructionKind::JleRegMem(_, _) => "jle",
        InstructionKind::JltLitMem(_, _) => "jlt",
        InstructionKind::JltRegMem(_, _) => "jlt",
        InstructionKind::JneLitMem(_, _) => "jne",
        InstructionKind::JneRegMem(_, _) => "jne",
        InstructionKind::LsfRegLit(_, _) => "lsf",
        InstructionKind::LsfRegReg(_, _) => "lsf",
        InstructionKind::MovLitMem(_, _) => "mov",
        InstructionKind::MovLitOffsetReg(_, _, _) => "mov",
        InstructionKind::MovLitReg(_, _) => "mov",
        InstructionKind::MovMemReg(_, _) => "mov",
        InstructionKind::MovRegMem(_, _) => "mov",
        InstructionKind::MovRegReg(_, _) => "mov",
        InstructionKind::MovRegPtrReg(_, _) => "mov",
        InstructionKind::MulLitReg(_, _) => "mul",
        InstructionKind::MulRegReg(_, _) => "mul",
        InstructionKind::NotReg(_) => "not",
        InstructionKind::OrLitReg(_, _) => "or",
        InstructionKind::OrRegReg(_, _) => "or",
        InstructionKind::PopReg(_) => "pop",
        InstructionKind::PshLit(_) => "psh",
        InstructionKind::PshReg(_) => "psh",
        InstructionKind::Ret => "ret",
        InstructionKind::RsfRegLit(_, _) => "rsf",
        InstructionKind::RsfRegReg(_, _) => "rsf",
        InstructionKind::SubLitReg(_, _) => "sub",
        InstructionKind::SubRegLit(_, _) => "sub",
        InstructionKind::SubRegReg(_, _) => "sub",
        InstructionKind::XorLitReg(_, _) => "xor",
        InstructionKind::XorRegReg(_, _) => "xor",
    }
}

/// The text of an instruction with a literal.
fn print_lit(mnemonic: &str, a: &Expr) -> (text: String)
    ensures
        text@ == one_operand(mnemonic@, expr_text(a@)),
{
    let mut text = String::from_str(mnemonic);
    push_blank(&mut text);
    push_expression(&mut text, a);
    assert(text@ =~= one_operand(mnemonic@, expr_text(a@)));
    text
}

/// The text of an instruction with a register.
fn print_reg(mnemonic: &str, a: Register) -> (text: String)
    ensures
        text@ == one_operand(mnemonic@, register_name(a)),
{
    let mut text = String::from_str(mnemonic);
    push_blank(&mut text);
    text.append(name_of(a));
    assert(text@ =~= one_operand(mnemonic@, register_name(a)));
    text
}

/// The text of an instruction with a literal and an address.
fn print_lit_mem(mnemonic: &str, a: &Expr, b: &Expr) -> (text: String)
    ensures
        text@ == two_operands(mnemonic@, expr_text(a@), address_text(b@)),
{
    let mut text = String::from_str(mnemonic);
    push_blank(&mut text);
    push_expression(&mut text, a);
    push_comma(&mut text);
    push_address(&mut text, b);
    assert(text@ =~= two_operands(mnemonic@, expr_text(a@), address_text(b@)));
    text
}

/// The text of an instruction with a literal and a register.
fn print_lit_reg(mnemonic: &str, a: &Expr, b: Register) -> (text: String)
    ensures
        text@ == two_operands(mnemonic@, expr_text(a@), register_name(b)),
{
    let mut text = String::from_str(mnemonic);
    push_blank(&mut text);
    push_expression(&mut text, a);
    push_comma(&mut text);
    text.append(name_of(b));
    assert(text@ =~= two_operands(mnemonic@, expr_text(a@), register_name(b)));
    text
}

/// The text of an instruction with an address and a register.
fn print_mem_reg(mnemonic: &str, a: &Expr, b: Register) -> (text: String)
    ensures
        text@ == two_operands(mnemonic@, address_text(a@), register_name(b)),
{
    let mut text = String::from_str(mnemonic);
    push_blank(&mut text);
    push_address(&mut text, a);
    push_comma(&mut text);
    text.append(name_of(b));
    assert(text@ =~= two_operands(mnemonic@, address_text(a@), register_name(b)));
    text
}

/// The text of an instruction with a register and a literal.
fn print_reg_lit(mnemonic: &str, a: Register, b: &Expr) -> (text: String)
    ensures
        text@ == two_operands(mnemonic@, register_name(a), expr_text(b@)),
{
    let mut text = String::from_str(mnemonic);
    push_blank(&mut text);
    text.append(name_of(a));
    push_comma(&mut text);
    push_expression(&mut text, b);
    assert(text@ =~= two_operands(mnemonic@, register_name(a), expr_text(b@)));
    text
}

/// The text of an instruction with a register and an address.
fn print_reg_mem(mnemonic: &str, a: Register, b: &Expr) -> (text: String)
    ensures
        text@ == two_operands(mnemonic@, register_name(a), address_text(b@)),
{
    let mut text = String::from_str(mnemonic);
    push_blank(&mut text);
    text.append(name_of(a));
    push_comma(&mut text);
    push_address(&mut text, b);
    assert(text@ =~= two_operands(mnemonic@, register_name(a), address_text(b@)));
    text
}

/// The text of an instruction with a register and a register.
fn print_reg_reg(mnemonic: &str, a: Register, b: Register) -> (text: String)
    ensures
        text@ == two_operands(mnemonic@, register_name(a), register_name(b)),
{
    let mut text = String::from_str(mnemonic);
    push_blank(&mut text);
    text.append(name_of(a));
    push_comma(&mut text);
    text.append(name_of(b));
    assert(text@ =~= two_operands(mnemonic@, register_name(a), register_name(b)));
    text
}

/// The text of an instruction with a register behind `&` and a register.
fn print_reg_ptr_reg(mnemonic: &str, a: Register, b: Register) -> (text: String)
    ensures
        text@ == two_operands(mnemonic@, pointer_text(a), register_name(b)),
{
    let mut text = String::from_str(mnemonic);
    push_blank(&mut text);
    push_pointer(&mut text, a);
    push_comma(&mut text);
    text.append(name_of(b));
    assert(text@ =~= two_operands(mnemonic@, pointer_text(a), register_name(b)));
    text
}

/// The text of an instruction with a literal, a register behind `&` and a register.
fn print_lit_offset_reg(mnemonic: &str, a: &Expr, b: Register, c: Register) -> (text: String)
    ensures
        text@ == two_operands(mnemonic@, expr_text(a@), pair_text(pointer_text(b), register_name(c))),
{
    let mut text = String::from_str(mnemonic);
    push_blank(&mut text);
    push_expression(&mut text, a);
    push_comma(&mut text);
    push_pointer(&mut text, b);
    push_comma(&mut text);
    text.append(name_of(c));
    assert(text@ =~= two_operands(mnemonic@, expr_text(a@), pair_text(pointer_text(b), register_name(c))));
    text
}

/// The text of `instruction`.
pub fn print_instruction(instruction: &Instruction) -> (text: String)
    ensures
        text@ == instruction_text(instruction@),
{
    let mnemonic = mnemonic_name(instruction);
    match &instruction.kind {
        InstructionKind::AddLitReg(a, b) => print_lit_reg(mnemonic, a, *b),
        InstructionKind::AddRegReg(a, b) => print_reg_reg(mnemonic, *a, *b),
        InstructionKind::AndLitReg(a, b) => print_lit_reg(mnemonic, a, *b),
        InstructionKind::AndRegReg(a, b) => print_reg_reg(mnemonic, *a, *b),
        InstructionKind::CalLit(a) => print_lit(mnemonic, a),
        InstructionKind::CalReg(a) => print_reg(mnemonic, *a),
        InstructionKind::DecReg(a) => print_reg(mnemonic, *a),
        InstructionKind::Hlt => String::from_str(mnemonic),
        InstructionKind::IncReg(a) => print_reg(mnemonic, *a),
        InstructionKind::JeqLitMem(a, b) => print_lit_mem(mnemonic, a, b),
        InstructionKind::JeqRegMem(a, b) => print_reg_mem(mnemonic, *a, b),
        InstructionKind::JgeLitMem(a, b) => print_lit_mem(mnemonic, a, b),
        InstructionKind::JgeRegMem(a, b) => print_reg_mem(mnemonic, *a, b),
        InstructionKind::JgtLitMem(a, b) => print_lit_mem(mnemonic, a, b),
        InstructionKind::JgtRegMem(a, b) => print_reg_mem(mnemonic, *a, b),
        InstructionKind::JleLitMem(a, b) => print_lit_mem(mnemonic, a, b),
        InstructionKind::JleRegMem(a, b) => print_reg_mem(mnemonic, *a, b),
        InstructionKind::JltLitMem(a, b) => print_lit_mem(mnemonic, a, b),
        InstructionKind::JltRegMem(a, b) => print_reg_mem(mnemonic, *a, b),
        InstructionKind::JneLitMem(a, b) => print_lit_mem(mnemonic, a, b),
        InstructionKind::JneRegMem(a, b) => print_reg_mem(mnemonic, *a, b),
        InstructionKind::LsfRegLit(a, b) => print_reg_lit(mnemonic, *a, b),
        InstructionKind::LsfRegReg(a, b) => print_reg_reg(mnemonic, *a, *b),
        InstructionKind::MovLitMem(a, b) => print_lit_mem(mnemonic, a, b),
        InstructionKind::MovLitOffsetReg(a, b, c) => print_lit_offset_reg(mnemonic, a, *b, *c),
        InstructionKind::MovLitReg(a, b) => print_lit_reg(mnemonic, a, *b),
        InstructionKind::MovMemReg(a, b) => print_mem_reg(mnemonic, a, *b),
        InstructionKind::MovRegMem(a, b) => print_reg_mem(mnemonic, *a, b),
        InstructionKind::MovRegReg(a, b) => print_reg_reg(mnemonic, *a, *b),
        InstructionKind::MovRegPtrReg(a, b) => print_reg_ptr_reg(mnemonic, *a, *b),
        InstructionKind::MulLitReg(a, b) => print_lit_reg(mnemonic, a, *b),
        InstructionKind::MulRegReg(a, b) => print_reg_reg(mnemonic, *a, *b),
        InstructionKind::NotReg(a) => print_reg(mnemonic, *a),
        InstructionKind::OrLitReg(a, b) => print_lit_reg(mnemonic, a, *b),
        InstructionKind::OrRegReg(a, b) => print_reg_reg(mnemonic, *a, *b),
        InstructionKind::PopReg(a) => print_reg(mnemonic, *a),
        InstructionKind::PshLit(a) => print_lit(mnemonic, a),
        InstructionKind::PshReg(a) => print_reg(mnemonic, *a),
        InstructionKind::Ret => String::from_str(mnemonic),
        InstructionKind::RsfRegLit(a, b) => print_reg_lit(mnemonic, *a, b),
        InstructionKind::RsfRegReg(a, b) => print_reg_reg(mnemonic, *a, *b),
        InstructionKind::SubLitReg(a, b) => print_lit_reg(mnemonic, a, *b),
        InstructionKind::SubRegLit(a, b) => print_reg_lit(mnemonic, *a, b),
        InstructionKind::SubRegReg(a, b) => print_reg_reg(mnemonic, *a, *b),
        InstructionKind::XorLitReg(a, b) => print_lit_reg(mnemonic, a, *b),
        InstructionKind::XorRegReg(a, b) => print_reg_reg(mnemonic, *a, *b),
    }
}

/// Prints `expression` and parses the text. Where the expression is one
/// that the parser builds, what is parsed is the expression, and nothing of
/// the text is left.
pub fn expression_read_back(expression: &Expr) -> (result: Option<Expr>)
    ensures
        match result {
            Some(read) => spec_binary(expr_text(expression@), 0) == Ok::<
                (int, ExprTree),
                (int, ErrorKind),
            >((expr_text(expression@).len() as int, read@)),
            None => !(spec_binary(expr_text(expression@), 0) matches Ok((end, _)) && end
                == expr_text(expression@).len()),
        },
        is_expression(expression@) ==> (result matches Some(read) && read@ == expression@),
{
    let text = print_expression(expression);
    proof {
        if is_expression(expression@) {
            lemma_printed_expression(expression@);
        }
    }
    match binary(text.as_str()) {
        Ok((rest, read)) => if rest.unicode_len() == 0 {
            Some(read)
        } else {
            None
        },
        Err(_) => None,
    }
}

/// Prints `instruction` and parses the text. Where the instruction is one
/// that the parser builds, what is parsed is the instruction, and nothing
/// of the text is left.
pub fn instruction_read_back(instruction: &Instruction) -> (result: Option<Instruction>)
    ensures
        match result {
            Some(read) => spec_instruction(instruction_text(instruction@), 0) == Ok::<
                (int, InstructionKind<ExprTree>),
                (int, ErrorKind),
            >((instruction_text(instruction@).len() as int, read@)),
            None => !(spec_instruction(instruction_text(instruction@), 0) matches Ok((end, _))
                && end == instruction_text(instruction@).len()),
        },
        is_instruction(instruction@) ==> (result matches Some(read) && read@ == instruction@),
{
    let text = print_instruction(instruction);
    proof {
        if is_instruction(instruction@) {
            lemma_printed_instruction(instruction@);
        }
    }
    match parse_instruction(text.as_str()) {
        Ok((rest, read)) => if rest.unicode_len() == 0 {
            Some(read)
        } else {
            None
        },
        Err(_) => None,
    }
}

} // verus!
