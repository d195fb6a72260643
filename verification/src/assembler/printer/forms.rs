//! The parser builds no other trees than those that the printer writes in
//! a way that is read back: products that group from the left and stand
//! below sums, sums that group from the left, and names that are
//! identifiers.

use vstd::prelude::*;
use crate::assembler::parser::ast::{ExprTree, InstructionKind, Operator};
use crate::assembler::parser::error::{position_of, ErrorKind, Parse};
use crate::assembler::parser::expressions::{
    joined, lemma_address_advances, lemma_factor_advances, lemma_literal_advances,
    lemma_term_advances, spec_address_expr, spec_binary, spec_bracketed_expr, spec_expr_rest,
    spec_factor, spec_literal_expr, spec_square_braket_expr, spec_term, spec_term_rest,
    sum_operator,
};
use crate::assembler::parser::ast::Register;
use crate::assembler::parser::instructions::formats::{
    spec_comma, spec_lit, spec_lit_mem, spec_lit_offset_reg, spec_lit_reg, spec_mem_reg,
    spec_mnemonic, spec_reg_lit, spec_reg_mem, spec_reg_ptr_reg,
};
use crate::assembler::parser::instructions::mov::spec_mov;
use crate::assembler::parser::instructions::{
    spec_add, spec_and, spec_cal, spec_dec, spec_hlt, spec_inc, spec_jeq, spec_jge, spec_jgt, spec_jle, spec_jlt, spec_jne, spec_lsf, spec_mul, spec_not, spec_or, spec_pop, spec_psh, spec_ret, spec_rsf, spec_sub, spec_xor,
    spec_instruction,
};
use crate::assembler::parser::scan::{
    blanks, digit_value, folded, has_char, has_word, is_hex_digit, is_word, lemma_blanks_within,
};
use crate::assembler::parser::types::{
    advances, hex_value, lemma_runs_within, lemma_words_advance, register_name, spec_identifier,
    spec_register, spec_register_pointer, word_run,
};
use crate::assembler::printer::formats::lemma_register_names;
use crate::assembler::printer::instructions::{
    instruction_text, is_instruction, lemma_printed_instruction,
};
use crate::assembler::printer::words::lemma_hex_digits_run;
use crate::assembler::printer::expressions::{lemma_forms, lemma_printed_expression};
use crate::assembler::printer::text::{
    expr_text, is_address_operand, is_expression, is_factor, is_identifier, is_literal_operand,
    is_term,
};

verus! {

/// The characters that are counted as those of a word are characters of a
/// word.
pub proof fn lemma_word_run_is_word(text: Seq<char>, at: int, k: int)
    requires
        0 <= at <= k < at + word_run(text, at),
    ensures
        k < text.len(),
        is_word(text[k]),
    decreases k - at,
{
    if k > at {
        lemma_word_run_is_word(text, at + 1, k);
    }
}

/// What the parser reads as an identifier is one.
pub proof fn lemma_identifier_form(text: Seq<char>, at: int)
    requires
        0 <= at <= text.len(),
    ensures
        spec_identifier(text, at) matches Ok((_, name)) ==> is_identifier(name),
{
    if let Ok((end, name)) = spec_identifier(text, at) {
        lemma_runs_within(text, at + 1);
        assert forall|k: int| 1 <= k < name.len() implies is_word(#[trigger] name[k]) by {
            lemma_word_run_is_word(text, at + 1, at + k);
        }
    }
}

/// What the parser reads as an expression in round brackets is a factor.
pub proof fn lemma_bracketed_form(text: Seq<char>, at: int)
    requires
        0 <= at <= text.len(),
    ensures
        spec_bracketed_expr(text, at) matches Ok((_, tree)) ==> is_factor(tree),
    decreases text.len() - at, 0int,
{
    if has_char(text, at, '(') {
        lemma_blanks_within(text, at + 1);
        lemma_binary_form(text, at + 1 + blanks(text, at + 1));
    }
}

/// What the parser reads as a factor is one.
pub proof fn lemma_factor_form(text: Seq<char>, at: int)
    requires
        0 <= at <= text.len(),
    ensures
        spec_factor(text, at) matches Ok((_, tree)) ==> is_factor(tree),
    decreases text.len() - at, 1int,
{
    lemma_bracketed_form(text, at);
    if at < text.len() {
        lemma_identifier_form(text, at + 1);
    }
}

/// What follows a term makes a term of it.
pub proof fn lemma_term_rest_form(text: Seq<char>, at: int, left: ExprTree)
    requires
        0 <= at <= text.len(),
        is_term(left),
    ensures
        is_term(spec_term_rest(text, at, left).1),
    decreases text.len() - at, 2int,
{
    lemma_blanks_within(text, at);
    let operator_at = at + blanks(text, at);
    if has_char(text, operator_at, '*') {
        lemma_blanks_within(text, operator_at + 1);
        let right_at = operator_at + 1 + blanks(text, operator_at + 1);
        lemma_factor_advances(text, right_at);
        lemma_factor_form(text, right_at);
        if let Ok((end, right)) = spec_factor(text, right_at) {
            let product = joined(left, Operator::OpMultiply, right);
            lemma_forms(right);
            assert(is_term(product)) by {
                lemma_forms(product);
                assert(!is_factor(product));
            }
            lemma_term_rest_form(text, end, product);
        }
    }
}

/// What the parser reads as a term is one.
pub proof fn lemma_term_form(text: Seq<char>, at: int)
    requires
        0 <= at <= text.len(),
    ensures
        spec_term(text, at) matches Ok((_, tree)) ==> is_term(tree),
    decreases text.len() - at, 3int,
{
    lemma_factor_advances(text, at);
    lemma_factor_form(text, at);
    if let Ok((end, left)) = spec_factor(text, at) {
        lemma_forms(left);
        lemma_term_rest_form(text, end, left);
    }
}

/// What follows an expression makes an expression of it.
pub proof fn lemma_expr_rest_form(text: Seq<char>, at: int, left: ExprTree)
    requires
        0 <= at <= text.len(),
        is_expression(left),
    ensures
        is_expression(spec_expr_rest(text, at, left).1),
    decreases text.len() - at, 4int,
{
    lemma_blanks_within(text, at);
    let operator_at = at + blanks(text, at);
    if let Some(operator) = sum_operator(text, operator_at) {
        lemma_blanks_within(text, operator_at + 1);
        let right_at = operator_at + 1 + blanks(text, operator_at + 1);
        lemma_term_advances(text, right_at);
        lemma_term_form(text, right_at);
        if let Ok((end, right)) = spec_term(text, right_at) {
            let sum = joined(left, operator, right);
            assert(is_expression(sum)) by {
                lemma_forms(sum);
            }
            lemma_expr_rest_form(text, end, sum);
        }
    }
}

/// What the parser reads as an expression is one: the parser builds no
/// tree that is not read back as it is once it is printed.
pub proof fn lemma_binary_form(text: Seq<char>, at: int)
    requires
        0 <= at <= text.len(),
    ensures
        spec_binary(text, at) matches Ok((_, tree)) ==> is_expression(tree),
    decreases text.len() - at, 5int,
{
    lemma_term_advances(text, at);
    lemma_term_form(text, at);
    if let Ok((end, left)) = spec_term(text, at) {
        lemma_forms(left);
        lemma_expr_rest_form(text, end, left);
    }
}

/// What the parser reads as a literal operand or as an address operand is
/// one.
pub proof fn lemma_operand_forms(text: Seq<char>, at: int)
    requires
        0 <= at <= text.len(),
    ensures
        spec_square_braket_expr(text, at) matches Ok((_, tree)) ==> is_literal_operand(tree)
            && is_address_operand(tree),
        spec_literal_expr(text, at) matches Ok((_, tree)) ==> is_literal_operand(tree),
        spec_address_expr(text, at) matches Ok((_, tree)) ==> is_address_operand(tree),
{
    if has_char(text, at, '[') {
        lemma_blanks_within(text, at + 1);
        lemma_binary_form(text, at + 1 + blanks(text, at + 1));
    }
    if has_char(text, at, '&') && has_char(text, at + 1, '[') {
        lemma_blanks_within(text, at + 2);
        lemma_binary_form(text, at + 2 + blanks(text, at + 2));
    }
}

/// A mnemonic and a comma are never empty and never reach beyond the text.
pub proof fn lemma_marks_advance(text: Seq<char>, at: int, mnemonic: Seq<char>)
    requires
        0 <= at <= text.len(),
    ensures
        spec_mnemonic(text, at, mnemonic) matches Ok((end, _)) ==> at < end <= text.len(),
        advances(text, at, spec_comma(text, at)),
{
    lemma_blanks_within(text, at);
    if has_word(text, at, mnemonic) {
        lemma_blanks_within(text, at + mnemonic.len());
    }
    let comma_at = at + blanks(text, at);
    if comma_at < text.len() {
        lemma_blanks_within(text, comma_at + 1);
    }
}

/// The operand behind an operand and a comma is a literal operand where it
/// is read as one, and an address operand where it is read as one.
proof fn lemma_second_form<A>(text: Seq<char>, at: int, first: Parse<A>)
    requires
        0 <= at <= text.len(),
        advances(text, at, first),
    ensures
        first matches Ok((comma_at, _)) ==> (spec_comma(text, comma_at) matches Ok((second_at, _))
            ==> 0 <= second_at <= text.len() && (spec_literal_expr(text, second_at) matches Ok(
            (_, tree),
        ) ==> is_literal_operand(tree)) && (spec_address_expr(text, second_at) matches Ok((_, tree))
            ==> is_address_operand(tree))),
{
    if let Ok((comma_at, _)) = first {
        lemma_marks_advance(text, comma_at, Seq::empty());
        if let Ok((second_at, _)) = spec_comma(text, comma_at) {
            lemma_operand_forms(text, second_at);
        }
    }
}

/// What the parser reads as the operands of an instruction are operands:
/// a literal operand is one, and an address operand is one.
pub proof fn lemma_shapes_form(text: Seq<char>, at: int, mnemonic: Seq<char>)
    requires
        0 <= at <= text.len(),
    ensures
        spec_lit(text, at, mnemonic) matches Ok((_, a)) ==> is_literal_operand(a),
        spec_lit_mem(text, at, mnemonic) matches Ok((_, (a, b))) ==> is_literal_operand(a)
            && is_address_operand(b),
        spec_lit_reg(text, at, mnemonic) matches Ok((_, (a, _))) ==> is_literal_operand(a),
        spec_lit_offset_reg(text, at, mnemonic) matches Ok((_, (a, _))) ==> is_literal_operand(a),
        spec_mem_reg(text, at, mnemonic) matches Ok((_, (a, _))) ==> is_address_operand(a),
        spec_reg_lit(text, at, mnemonic) matches Ok((_, (_, b))) ==> is_literal_operand(b),
        spec_reg_mem(text, at, mnemonic) matches Ok((_, (_, b))) ==> is_address_operand(b),
{
    lemma_marks_advance(text, at, mnemonic);
    if let Ok((first_at, _)) = spec_mnemonic(text, at, mnemonic) {
        lemma_operand_forms(text, first_at);
        lemma_literal_advances(text, first_at);
        lemma_address_advances(text, first_at);
        lemma_words_advance(text, first_at);
        lemma_second_form(text, first_at, spec_literal_expr(text, first_at));
        lemma_second_form(text, first_at, spec_register(text, first_at));
    }
}

/// Up to four hexadecimal digits spell a number of 16 bits.
proof fn lemma_few_digits(text: Seq<char>, from: int, to: int)
    requires
        0 <= from <= to <= text.len(),
        to - from <= 4,
        forall|k: int| from <= k < to ==> is_hex_digit(#[trigger] text[k]),
    ensures
        hex_value(text, from, to) <= u16::MAX,
{
    reveal_with_fuel(hex_value, 5);
    if to - from >= 1 {
        assert(0 <= digit_value(text[to - 1]) <= 15);
    }
    if to - from >= 2 {
        assert(0 <= digit_value(text[to - 2]) <= 15);
    }
    if to - from >= 3 {
        assert(0 <= digit_value(text[to - 3]) <= 15);
    }
    if to - from >= 4 {
        assert(0 <= digit_value(text[to - 4]) <= 15);
    }
}

/// `&acc` in front of a comma is read as an address operand up to the
/// comma, and `&fp` is read as an address operand up to the `p`.
proof fn lemma_pointer_reads_as_address(text: Seq<char>, at: int)
    requires
        0 <= at <= text.len(),
        spec_register_pointer(text, at) is Ok,
    ensures
        spec_register_pointer(text, at) matches Ok((end, register)) ==> {
            &&& register == Register::Acc && spec_comma(text, end) is Ok ==> position_of(
                spec_address_expr(text, at),
            ) == end && spec_address_expr(text, at) is Ok
            &&& register == Register::Fp ==> spec_address_expr(text, at) is Ok
        },
{
    lemma_register_names();
    if let Ok((end, register)) = spec_register_pointer(text, at) {
        let name = register_name(register);
        assert(has_word(text, at + 1, name));
        assert(folded(text[at + 1 + 0]) == folded(name[0]));
        assert(folded(text[at + 1 + 1]) == folded(name[1]));
        if register == Register::Acc && spec_comma(text, end) is Ok {
            assert(folded(text[at + 1 + 2]) == folded(name[2]));
            lemma_blanks_within(text, end);
            assert(end == at + 4);
            assert(!is_hex_digit(text[end]));
            lemma_hex_digits_run(text, at + 1, end);
            lemma_few_digits(text, at + 1, end);
        }
        if register == Register::Fp {
            lemma_hex_digits_run(text, at + 1, at + 2);
            lemma_few_digits(text, at + 1, at + 2);
        }
    }
}

/// Where `mov` is read with `&acc` in front of a register, it is read with
/// an address in front of the register as well.
proof fn lemma_pointer_or_address(text: Seq<char>, at: int, mnemonic: Seq<char>)
    requires
        0 <= at <= text.len(),
    ensures
        spec_reg_ptr_reg(text, at, mnemonic) matches Ok((_, (pointer, _))) ==> (pointer
            == Register::Acc ==> spec_mem_reg(text, at, mnemonic) is Ok),
{
    lemma_marks_advance(text, at, mnemonic);
    if let Ok((first_at, _)) = spec_mnemonic(text, at, mnemonic) {
        if spec_register_pointer(text, first_at) is Ok {
            lemma_pointer_reads_as_address(text, first_at);
        }
    }
}

/// Where `mov` is read with a literal in front of `&acc` or of `&fp`, it is
/// read with a literal in front of an address as well.
proof fn lemma_offset_or_address(text: Seq<char>, at: int, mnemonic: Seq<char>)
    requires
        0 <= at <= text.len(),
    ensures
        spec_lit_offset_reg(text, at, mnemonic) matches Ok((_, (_, (pointer, _)))) ==> (pointer
            == Register::Acc || pointer == Register::Fp ==> spec_lit_mem(text, at, mnemonic) is Ok),
{
    lemma_marks_advance(text, at, mnemonic);
    if let Ok((first_at, _)) = spec_mnemonic(text, at, mnemonic) {
        lemma_literal_advances(text, first_at);
        if let Ok((comma_at, _)) = spec_literal_expr(text, first_at) {
            lemma_marks_advance(text, comma_at, mnemonic);
            if let Ok((second_at, _)) = spec_comma(text, comma_at) {
                if spec_register_pointer(text, second_at) is Ok {
                    lemma_pointer_reads_as_address(text, second_at);
                }
            }
        }
    }
}

/// What the parser reads as an instruction with `add` is one that is read back
/// as it is once it is printed.
proof fn lemma_add_form(text: Seq<char>, at: int)
    requires
        0 <= at <= text.len(),
    ensures
        spec_add(text, at) matches Ok((_, instruction)) ==> is_instruction(instruction),
{
    lemma_shapes_form(text, at, "add"@);
}

/// What the parser reads as an instruction with `and` is one that is read back
/// as it is once it is printed.
proof fn lemma_and_form(text: Seq<char>, at: int)
    requires
        0 <= at <= text.len(),
    ensures
        spec_and(text, at) matches Ok((_, instruction)) ==> is_instruction(instruction),
{
    lemma_shapes_form(text, at, "and"@);
}

/// What the parser reads as an instruction with `cal` is one that is read back
/// as it is once it is printed.
proof fn lemma_cal_form(text: Seq<char>, at: int)
    requires
        0 <= at <= text.len(),
    ensures
        spec_cal(text, at) matches Ok((_, instruction)) ==> is_instruction(instruction),
{
    lemma_shapes_form(text, at, "cal"@);
}

/// What the parser reads as an instruction with `dec` is one that is read back
/// as it is once it is printed.
proof fn lemma_dec_form(text: Seq<char>, at: int)
    requires
        0 <= at <= text.len(),
    ensures
        spec_dec(text, at) matches Ok((_, instruction)) ==> is_instruction(instruction),
{
    lemma_shapes_form(text, at, "dec"@);
}

/// What the parser reads as an instruction with `hlt` is one that is read back
/// as it is once it is printed.
proof fn lemma_hlt_form(text: Seq<char>, at: int)
    requires
        0 <= at <= text.len(),
    ensures
        spec_hlt(text, at) matches Ok((_, instruction)) ==> is_instruction(instruction),
{
    lemma_shapes_form(text, at, "hlt"@);
}

/// What the parser reads as an instruction with `inc` is one that is read back
/// as it is once it is printed.
proof fn lemma_inc_form(text: Seq<char>, at: int)
    requires
        0 <= at <= text.len(),
    ensures
        spec_inc(text, at) matches Ok((_, instruction)) ==> is_instruction(instruction),
{
    lemma_shapes_form(text, at, "inc"@);
}

/// What the parser reads as an instruction with `jeq` is one that is read back
/// as it is once it is printed.
proof fn lemma_jeq_form(text: Seq<char>, at: int)
    requires
        0 <= at <= text.len(),
    ensures
        spec_jeq(text, at) matches Ok((_, instruction)) ==> is_instruction(instruction),
{
    lemma_shapes_form(text, at, "jeq"@);
}

/// What the parser reads as an instruction with `jge` is one that is read back
/// as it is once it is printed.
proof fn lemma_jge_form(text: Seq<char>, at: int)
    requires
        0 <= at <= text.len(),
    ensures
        spec_jge(text, at) matches Ok((_, instruction)) ==> is_instruction(instruction),
{
    lemma_shapes_form(text, at, "jge"@);
}

/// What the parser reads as an instruction with `jgt` is one that is read back
/// as it is once it is printed.
proof fn lemma_jgt_form(text: Seq<char>, at: int)
    requires
        0 <= at <= text.len(),
    ensures
        spec_jgt(text, at) matches Ok((_, instruction)) ==> is_instruction(instruction),
{
    lemma_shapes_form(text, at, "jgt"@);
}

/// What the parser reads as an instruction with `jle` is one that is read back
/// as it is once it is printed.
proof fn lemma_jle_form(text: Seq<char>, at: int)
    requires
        0 <= at <= text.len(),
    ensures
        spec_jle(text, at) matches Ok((_, instruction)) ==> is_instruction(instruction),
{
    lemma_shapes_form(text, at, "jle"@);
}

/// What the parser reads as an instruction with `jlt` is one that is read back
/// as it is once it is printed.
proof fn lemma_jlt_form(text: Seq<char>, at: int)
    requires
        0 <= at <= text.len(),
    ensures
        spec_jlt(text, at) matches Ok((_, instruction)) ==> is_instruction(instruction),
{
    lemma_shapes_form(text, at, "jlt"@);
}

/// What the parser reads as an instruction with `jne` is one that is read back
/// as it is once it is printed.
proof fn lemma_jne_form(text: Seq<char>, at: int)
    requires
        0 <= at <= text.len(),
    ensures
        spec_jne(text, at) matches Ok((_, instruction)) ==> is_instruction(instruction),
{
    lemma_shapes_form(text, at, "jne"@);
}

/// What the parser reads as an instruction with `lsf` is one that is read back
/// as it is once it is printed.
proof fn lemma_lsf_form(text: Seq<char>, at: int)
    requires
        0 <= at <= text.len(),
    ensures
        spec_lsf(text, at) matches Ok((_, instruction)) ==> is_instruction(instruction),
{
    lemma_shapes_form(text, at, "lsf"@);
}

/// What the parser reads as an instruction with `mov` is one that is read back
/// as it is once it is printed.
proof fn lemma_mov_form(text: Seq<char>, at: int)
    requires
        0 <= at <= text.len(),
    ensures
        spec_mov(text, at) matches Ok((_, instruction)) ==> is_instruction(instruction),
{
    lemma_shapes_form(text, at, "mov"@);
    lemma_pointer_or_address(text, at, "mov"@);
    lemma_offset_or_address(text, at, "mov"@);
}

/// What the parser reads as an instruction with `mul` is one that is read back
/// as it is once it is printed.
proof fn lemma_mul_form(text: Seq<char>, at: int)
    requires
        0 <= at <= text.len(),
    ensures
        spec_mul(text, at) matches Ok((_, instruction)) ==> is_instruction(instruction),
{
    lemma_shapes_form(text, at, "mul"@);
}

/// What the parser reads as an instruction with `not` is one that is read back
/// as it is once it is printed.
proof fn lemma_not_form(text: Seq<char>, at: int)
    requires
        0 <= at <= text.len(),
    ensures
        spec_not(text, at) matches Ok((_, instruction)) ==> is_instruction(instruction),
{
    lemma_shapes_form(text, at, "not"@);
}

/// What the parser reads as an instruction with `or` is one that is read back
/// as it is once it is printed.
proof fn lemma_or_form(text: Seq<char>, at: int)
    requires
        0 <= at <= text.len(),
    ensures
        spec_or(text, at) matches Ok((_, instruction)) ==> is_instruction(instruction),
{
    lemma_shapes_form(text, at, "or"@);
}

/// What the parser reads as an instruction with `pop` is one that is read back
/// as it is once it is printed.
proof fn lemma_pop_form(text: Seq<char>, at: int)
    requires
        0 <= at <= text.len(),
    ensures
        spec_pop(text, at) matches Ok((_, instruction)) ==> is_instruction(instruction),
{
    lemma_shapes_form(text, at, "pop"@);
}

/// What the parser reads as an instruction with `psh` is one that is read back
/// as it is once it is printed.
proof fn lemma_psh_form(text: Seq<char>, at: int)
    requires
        0 <= at <= text.len(),
    ensures
        spec_psh(text, at) matches Ok((_, instruction)) ==> is_instruction(instruction),
{
    lemma_shapes_form(text, at, "psh"@);
}

/// What the parser reads as an instruction with `ret` is one that is read back
/// as it is once it is printed.
proof fn lemma_ret_form(text: Seq<char>, at: int)
    requires
        0 <= at <= text.len(),
    ensures
        spec_ret(text, at) matches Ok((_, instruction)) ==> is_instruction(instruction),
{
    lemma_shapes_form(text, at, "ret"@);
}

/// What the parser reads as an instruction with `rsf` is one that is read back
/// as it is once it is printed.
proof fn lemma_rsf_form(text: Seq<char>, at: int)
    requires
        0 <= at <= text.len(),
    ensures
        spec_rsf(text, at) matches Ok((_, instruction)) ==> is_instruction(instruction),
{
    lemma_shapes_form(text, at, "rsf"@);
}

/// What the parser reads as an instruction with `sub` is one that is read back
/// as it is once it is printed.
proof fn lemma_sub_form(text: Seq<char>, at: int)
    requires
        0 <= at <= text.len(),
    ensures
        spec_sub(text, at) matches Ok((_, instruction)) ==> is_instruction(instruction),
{
    lemma_shapes_form(text, at, "sub"@);
}

/// What the parser reads as an instruction with `xor` is one that is read back
/// as it is once it is printed.
proof fn lemma_xor_form(text: Seq<char>, at: int)
    requires
        0 <= at <= text.len(),
    ensures
        spec_xor(text, at) matches Ok((_, instruction)) ==> is_instruction(instruction),
{
    lemma_shapes_form(text, at, "xor"@);
}

/// What the parser reads as an instruction is one that is read back as it
/// is once it is printed: the parser builds no other instructions.
pub proof fn lemma_instruction_form(text: Seq<char>, at: int)
    requires
        0 <= at <= text.len(),
    ensures
        spec_instruction(text, at) matches Ok((_, instruction)) ==> is_instruction(instruction),
{
    lemma_add_form(text, at);
    lemma_and_form(text, at);
    lemma_cal_form(text, at);
    lemma_dec_form(text, at);
    lemma_hlt_form(text, at);
    lemma_inc_form(text, at);
    lemma_jeq_form(text, at);
    lemma_jge_form(text, at);
    lemma_jgt_form(text, at);
    lemma_jle_form(text, at);
    lemma_jlt_form(text, at);
    lemma_jne_form(text, at);
    lemma_lsf_form(text, at);
    lemma_mov_form(text, at);
    lemma_mul_form(text, at);
    lemma_not_form(text, at);
    lemma_or_form(text, at);
    lemma_pop_form(text, at);
    lemma_psh_form(text, at);
    lemma_ret_form(text, at);
    lemma_rsf_form(text, at);
    lemma_sub_form(text, at);
    lemma_xor_form(text, at);
}

/// An expression that the parser has read, from whatever text, is read
/// again as the same expression once it is printed, and nothing of the
/// printed text is left.
pub proof fn lemma_expression_reads_again(text: Seq<char>, at: int)
    requires
        0 <= at <= text.len(),
    ensures
        spec_binary(text, at) matches Ok((_, tree)) ==> spec_binary(expr_text(tree), 0) == Ok::<
            (int, ExprTree),
            (int, ErrorKind),
        >((expr_text(tree).len() as int, tree)),
{
    lemma_binary_form(text, at);
    if let Ok((_, tree)) = spec_binary(text, at) {
        lemma_printed_expression(tree);
    }
}

/// An instruction that the parser has read, from whatever text, is read
/// again as the same instruction once it is printed, and nothing of the
/// printed text is left.
pub proof fn lemma_instruction_reads_again(text: Seq<char>, at: int)
    requires
        0 <= at <= text.len(),
    ensures
        spec_instruction(text, at) matches Ok((_, instruction)) ==> spec_instruction(
            instruction_text(instruction),
            0,
        ) == Ok::<(int, InstructionKind<ExprTree>), (int, ErrorKind)>(
            (instruction_text(instruction).len() as int, instruction),
        ),
{
    lemma_instruction_form(text, at);
    if let Ok((_, instruction)) = spec_instruction(text, at) {
        lemma_printed_instruction(instruction);
    }
}

} // verus!
