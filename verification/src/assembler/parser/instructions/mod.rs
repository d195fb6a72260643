//! Instructions: each mnemonic with the shapes of operands that it takes.
//!
//! Where a mnemonic takes more than one shape, the shapes are tried in a
//! fixed order and the first that is found counts. Where none is found the
//! failure is that of the last.

use vstd::prelude::*;
use crate::assembler::parser::ast::{ExprTree, Instruction, InstructionKind};
use crate::assembler::parser::error::{finish, parse_is, result_is, ErrorKind, Parse, ParseError};
use crate::assembler::parser::instructions::formats::{
    lit_at, lit_mem_at, lit_reg_at, no_arg_at, reg_at, reg_lit_at, reg_mem_at, reg_reg_at,
    spec_lit, spec_lit_mem, spec_lit_reg, spec_no_arg, spec_reg, spec_reg_lit, spec_reg_mem,
    spec_reg_reg,
};
use crate::assembler::parser::instructions::mov::{mov_at, spec_mov};
use crate::assembler::parser::scan::Source;
use crate::text::characters;

pub mod formats;
pub mod mov;

verus! {

/// `add`: a literal and a register, or two registers.
pub open spec fn spec_add(text: Seq<char>, at: int) -> Parse<InstructionKind<ExprTree>> {
    match spec_lit_reg(text, at, "add"@) {
        Ok((end, (literal, register))) => Ok((end, InstructionKind::AddLitReg(literal, register))),
        Err(_) => match spec_reg_reg(text, at, "add"@) {
            Ok((end, (first, second))) => Ok((end, InstructionKind::AddRegReg(first, second))),
            Err(error) => Err(error),
        },
    }
}

/// `and`: a literal and a register, or two registers.
pub open spec fn spec_and(text: Seq<char>, at: int) -> Parse<InstructionKind<ExprTree>> {
    match spec_lit_reg(text, at, "and"@) {
        Ok((end, (literal, register))) => Ok((end, InstructionKind::AndLitReg(literal, register))),
        Err(_) => match spec_reg_reg(text, at, "and"@) {
            Ok((end, (first, second))) => Ok((end, InstructionKind::AndRegReg(first, second))),
            Err(error) => Err(error),
        },
    }
}

/// `cal`: a literal, or a register.
pub open spec fn spec_cal(text: Seq<char>, at: int) -> Parse<InstructionKind<ExprTree>> {
    match spec_lit(text, at, "cal"@) {
        Ok((end, literal)) => Ok((end, InstructionKind::CalLit(literal))),
        Err(_) => match spec_reg(text, at, "cal"@) {
            Ok((end, register)) => Ok((end, InstructionKind::CalReg(register))),
            Err(error) => Err(error),
        },
    }
}

/// `dec`: a register.
pub open spec fn spec_dec(text: Seq<char>, at: int) -> Parse<InstructionKind<ExprTree>> {
    match spec_reg(text, at, "dec"@) {
        Ok((end, register)) => Ok((end, InstructionKind::DecReg(register))),
        Err(error) => Err(error),
    }
}

/// `hlt`: the mnemonic alone.
pub open spec fn spec_hlt(text: Seq<char>, at: int) -> Parse<InstructionKind<ExprTree>> {
    match spec_no_arg(text, at, "hlt"@) {
        Ok((end, _)) => Ok((end, InstructionKind::Hlt)),
        Err(error) => Err(error),
    }
}

/// `inc`: a register.
pub open spec fn spec_inc(text: Seq<char>, at: int) -> Parse<InstructionKind<ExprTree>> {
    match spec_reg(text, at, "inc"@) {
        Ok((end, register)) => Ok((end, InstructionKind::IncReg(register))),
        Err(error) => Err(error),
    }
}

/// `jeq`: a register and an address, or a literal and an address.
pub open spec fn spec_jeq(text: Seq<char>, at: int) -> Parse<InstructionKind<ExprTree>> {
    match spec_reg_mem(text, at, "jeq"@) {
        Ok((end, (register, address))) => Ok((end, InstructionKind::JeqRegMem(register, address))),
        Err(_) => match spec_lit_mem(text, at, "jeq"@) {
            Ok((end, (literal, address))) => Ok((end, InstructionKind::JeqLitMem(literal, address))),
            Err(error) => Err(error),
        },
    }
}

/// `jge`: a register and an address, or a literal and an address.
pub open spec fn spec_jge(text: Seq<char>, at: int) -> Parse<InstructionKind<ExprTree>> {
    match spec_reg_mem(text, at, "jge"@) {
        Ok((end, (register, address))) => Ok((end, InstructionKind::JgeRegMem(register, address))),
        Err(_) => match spec_lit_mem(text, at, "jge"@) {
            Ok((end, (literal, address))) => Ok((end, InstructionKind::JgeLitMem(literal, address))),
            Err(error) => Err(error),
        },
    }
}

/// `jgt`: a register and an address, or a literal and an address.
pub open spec fn spec_jgt(text: Seq<char>, at: int) -> Parse<InstructionKind<ExprTree>> {
    match spec_reg_mem(text, at, "jgt"@) {
        Ok((end, (register, address))) => Ok((end, InstructionKind::JgtRegMem(register, address))),
        Err(_) => match spec_lit_mem(text, at, "jgt"@) {
            Ok((end, (literal, address))) => Ok((end, InstructionKind::JgtLitMem(literal, address))),
            Err(error) => Err(error),
        },
    }
}

/// `jle`: a register and an address, or a literal and an address.
pub open spec fn spec_jle(text: Seq<char>, at: int) -> Parse<InstructionKind<ExprTree>> {
    match spec_reg_mem(text, at, "jle"@) {
        Ok((end, (register, address))) => Ok((end, InstructionKind::JleRegMem(register, address))),
        Err(_) => match spec_lit_mem(text, at, "jle"@) {
            Ok((end, (literal, address))) => Ok((end, InstructionKind::JleLitMem(literal, address))),
            Err(error) => Err(error),
        },
    }
}

/// `jlt`: a register and an address, or a literal and an address.
pub open spec fn spec_jlt(text: Seq<char>, at: int) -> Parse<InstructionKind<ExprTree>> {
    match spec_reg_mem(text, at, "jlt"@) {
        Ok((end, (register, address))) => Ok((end, InstructionKind::JltRegMem(register, address))),
        Err(_) => match spec_lit_mem(text, at, "jlt"@) {
            Ok((end, (literal, address))) => Ok((end, InstructionKind::JltLitMem(literal, address))),
            Err(error) => Err(error),
        },
    }
}

/// `jne`: a register and an address, or a literal and an address.
pub open spec fn spec_jne(text: Seq<char>, at: int) -> Parse<InstructionKind<ExprTree>> {
    match spec_reg_mem(text, at, "jne"@) {
        Ok((end, (register, address))) => Ok((end, InstructionKind::JneRegMem(register, address))),
        Err(_) => match spec_lit_mem(text, at, "jne"@) {
            Ok((end, (literal, address))) => Ok((end, InstructionKind::JneLitMem(literal, address))),
            Err(error) => Err(error),
        },
    }
}

/// `lsf`: a register and a literal, or two registers.
pub open spec fn spec_lsf(text: Seq<char>, at: int) -> Parse<InstructionKind<ExprTree>> {
    match spec_reg_lit(text, at, "lsf"@) {
        Ok((end, (register, literal))) => Ok((end, InstructionKind::LsfRegLit(register, literal))),
        Err(_) => match spec_reg_reg(text, at, "lsf"@) {
            Ok((end, (first, second))) => Ok((end, InstructionKind::LsfRegReg(first, second))),
            Err(error) => Err(error),
        },
    }
}

/// `mul`: a literal and a register, or two registers.
pub open spec fn spec_mul(text: Seq<char>, at: int) -> Parse<InstructionKind<ExprTree>> {
    match spec_lit_reg(text, at, "mul"@) {
        Ok((end, (literal, register))) => Ok((end, InstructionKind::MulLitReg(literal, register))),
        Err(_) => match spec_reg_reg(text, at, "mul"@) {
            Ok((end, (first, second))) => Ok((end, InstructionKind::MulRegReg(first, second))),
            Err(error) => Err(error),
        },
    }
}

/// `not`: a register.
pub open spec fn spec_not(text: Seq<char>, at: int) -> Parse<InstructionKind<ExprTree>> {
    match spec_reg(text, at, "not"@) {
        Ok((end, register)) => Ok((end, InstructionKind::NotReg(register))),
        Err(error) => Err(error),
    }
}

/// `or`: a literal and a register, or two registers.
pub open spec fn spec_or(text: Seq<char>, at: int) -> Parse<InstructionKind<ExprTree>> {
    match spec_lit_reg(text, at, "or"@) {
        Ok((end, (literal, register))) => Ok((end, InstructionKind::OrLitReg(literal, register))),
        Err(_) => match spec_reg_reg(text, at, "or"@) {
            Ok((end, (first, second))) => Ok((end, InstructionKind::OrRegReg(first, second))),
            Err(error) => Err(error),
        },
    }
}

/// `pop`: a register.
pub open spec fn spec_pop(text: Seq<char>, at: int) -> Parse<InstructionKind<ExprTree>> {
    match spec_reg(text, at, "pop"@) {
        Ok((end, register)) => Ok((end, InstructionKind::PopReg(register))),
        Err(error) => Err(error),
    }
}

/// `psh`: a literal, or a register.
pub open spec fn spec_psh(text: Seq<char>, at: int) -> Parse<InstructionKind<ExprTree>> {
    match spec_lit(text, at, "psh"@) {
        Ok((end, literal)) => Ok((end, InstructionKind::PshLit(literal))),
        Err(_) => match spec_reg(text, at, "psh"@) {
            Ok((end, register)) => Ok((end, InstructionKind::PshReg(register))),
            Err(error) => Err(error),
        },
    }
}

/// `ret`: the mnemonic alone.
pub open spec fn spec_ret(text: Seq<char>, at: int) -> Parse<InstructionKind<ExprTree>> {
    match spec_no_arg(text, at, "ret"@) {
        Ok((end, _)) => Ok((end, InstructionKind::Ret)),
        Err(error) => Err(error),
    }
}

/// `rsf`: a register and a literal, or two registers.
pub open spec fn spec_rsf(text: Seq<char>, at: int) -> Parse<InstructionKind<ExprTree>> {
    match spec_reg_lit(text, at, "rsf"@) {
        Ok((end, (register, literal))) => Ok((end, InstructionKind::RsfRegLit(register, literal))),
        Err(_) => match spec_reg_reg(text, at, "rsf"@) {
            Ok((end, (first, second))) => Ok((end, InstructionKind::RsfRegReg(first, second))),
            Err(error) => Err(error),
        },
    }
}

/// `sub`: a literal and a register, or two registers.
pub open spec fn spec_sub(text: Seq<char>, at: int) -> Parse<InstructionKind<ExprTree>> {
    match spec_lit_reg(text, at, "sub"@) {
        Ok((end, (literal, register))) => Ok((end, InstructionKind::SubLitReg(literal, register))),
        Err(_) => match spec_reg_reg(text, at, "sub"@) {
            Ok((end, (first, second))) => Ok((end, InstructionKind::SubRegReg(first, second))),
            Err(error) => Err(error),
        },
    }
}

/// `xor`: a literal and a register, or two registers.
pub open spec fn spec_xor(text: Seq<char>, at: int) -> Parse<InstructionKind<ExprTree>> {
    match spec_lit_reg(text, at, "xor"@) {
        Ok((end, (literal, register))) => Ok((end, InstructionKind::XorLitReg(literal, register))),
        Err(_) => match spec_reg_reg(text, at, "xor"@) {
            Ok((end, (first, second))) => Ok((end, InstructionKind::XorRegReg(first, second))),
            Err(error) => Err(error),
        },
    }
}

/// An instruction: the mnemonics are tried in the order `add`, `and`, `cal`,
/// `dec`, `hlt`, `inc`, `jeq`, `jge`, `jgt`, `jle`, `jlt`, `jne`, `lsf`, `mov`,
/// `mul`, `not`, `or`, `pop`, `psh`, `ret`, `rsf`, `sub`, `xor`, and the first
/// that reads an instruction counts. Where none does the failure is that of
/// `xor`.
pub open spec fn spec_instruction(text: Seq<char>, at: int) -> Parse<InstructionKind<ExprTree>> {
    match spec_add(text, at) {
        Ok(parsed) => Ok(parsed),
        Err(_) => match spec_and(text, at) {
            Ok(parsed) => Ok(parsed),
            Err(_) => match spec_cal(text, at) {
                Ok(parsed) => Ok(parsed),
                Err(_) => match spec_dec(text, at) {
                    Ok(parsed) => Ok(parsed),
                    Err(_) => match spec_hlt(text, at) {
                        Ok(parsed) => Ok(parsed),
                        Err(_) => match spec_inc(text, at) {
                            Ok(parsed) => Ok(parsed),
                            Err(_) => match spec_jeq(text, at) {
                                Ok(parsed) => Ok(parsed),
                                Err(_) => match spec_jge(text, at) {
                                    Ok(parsed) => Ok(parsed),
                                    Err(_) => match spec_jgt(text, at) {
                                        Ok(parsed) => Ok(parsed),
                                        Err(_) => match spec_jle(text, at) {
                                            Ok(parsed) => Ok(parsed),
                                            Err(_) => match spec_jlt(text, at) {
                                                Ok(parsed) => Ok(parsed),
                                                Err(_) => match spec_jne(text, at) {
                                                    Ok(parsed) => Ok(parsed),
                                                    Err(_) => match spec_lsf(text, at) {
                                                        Ok(parsed) => Ok(parsed),
                                                        Err(_) => match spec_mov(text, at) {
                                                            Ok(parsed) => Ok(parsed),
                                                            Err(_) => match spec_mul(text, at) {
                                                                Ok(parsed) => Ok(parsed),
                                                                Err(_) => match spec_not(text, at) {
                                                                    Ok(parsed) => Ok(parsed),
                                                                    Err(_) => match spec_or(text, at) {
                                                                        Ok(parsed) => Ok(parsed),
                                                                        Err(_) => match spec_pop(text, at) {
                                                                            Ok(parsed) => Ok(parsed),
                                                                            Err(_) => match spec_psh(text, at) {
                                                                                Ok(parsed) => Ok(parsed),
                                                                                Err(_) => match spec_ret(text, at) {
                                                                                    Ok(parsed) => Ok(parsed),
                                                                                    Err(_) => match spec_rsf(text, at) {
                                                                                        Ok(parsed) => Ok(parsed),
                                                                                        Err(_) => match spec_sub(text, at) {
                                                                                            Ok(parsed) => Ok(parsed),
                                                                                            Err(_) => spec_xor(text, at),
                                                                                        },
                                                                                    },
                                                                                },
                                                                            },
                                                                        },
                                                                    },
                                                                },
                                                            },
                                                        },
                                                    },
                                                },
                                            },
                                        },
                                    },
                                },
                            },
                        },
                    },
                },
            },
        },
    }
}

/// Parses an instruction with the mnemonic `add` in `source` from `at`.
pub fn add_at(source: &Source, at: usize) -> (result: Result<
    (usize, Instruction),
    (usize, ErrorKind),
>)
    requires
        at <= source@.len(),
    ensures
        parse_is(result, spec_add(source@, at as int)),
        result matches Ok((end, _)) ==> at <= end <= source@.len(),
        result matches Err((place, _)) ==> at <= place <= source@.len(),
{
    let mnemonic = characters("add");
    if let Ok((end, (literal, register))) = lit_reg_at(source, at, mnemonic.as_slice()) {
        return Ok((end, Instruction { kind: InstructionKind::AddLitReg(literal, register) }));
    }
    match reg_reg_at(source, at, mnemonic.as_slice()) {
        Ok((end, (first, second))) => Ok((end, Instruction { kind: InstructionKind::AddRegReg(first, second) })),
        Err(error) => Err(error),
    }
}

/// Parses an instruction with the mnemonic `and` in `source` from `at`.
pub fn and_at(source: &Source, at: usize) -> (result: Result<
    (usize, Instruction),
    (usize, ErrorKind),
>)
    requires
        at <= source@.len(),
    ensures
        parse_is(result, spec_and(source@, at as int)),
        result matches Ok((end, _)) ==> at <= end <= source@.len(),
        result matches Err((place, _)) ==> at <= place <= source@.len(),
{
    let mnemonic = characters("and");
    if let Ok((end, (literal, register))) = lit_reg_at(source, at, mnemonic.as_slice()) {
        return Ok((end, Instruction { kind: InstructionKind::AndLitReg(literal, register) }));
    }
    match reg_reg_at(source, at, mnemonic.as_slice()) {
        Ok((end, (first, second))) => Ok((end, Instruction { kind: InstructionKind::AndRegReg(first, second) })),
        Err(error) => Err(error),
    }
}

/// Parses an instruction with the mnemonic `cal` in `source` from `at`.
pub fn cal_at(source: &Source, at: usize) -> (result: Result<
    (usize, Instruction),
    (usize, ErrorKind),
>)
    requires
        at <= source@.len(),
    ensures
        parse_is(result, spec_cal(source@, at as int)),
        result matches Ok((end, _)) ==> at <= end <= source@.len(),
        result matches Err((place, _)) ==> at <= place <= source@.len(),
{
    let mnemonic = characters("cal");
    if let Ok((end, literal)) = lit_at(source, at, mnemonic.as_slice()) {
        return Ok((end, Instruction { kind: InstructionKind::CalLit(literal) }));
    }
    match reg_at(source, at, mnemonic.as_slice()) {
        Ok((end, register)) => Ok((end, Instruction { kind: InstructionKind::CalReg(register) })),
        Err(error) => Err(error),
    }
}

/// Parses an instruction with the mnemonic `dec` in `source` from `at`.
pub fn dec_at(source: &Source, at: usize) -> (result: Result<
    (usize, Instruction),
    (usize, ErrorKind),
>)
    requires
        at <= source@.len(),
    ensures
        parse_is(result, spec_dec(source@, at as int)),
        result matches Ok((end, _)) ==> at <= end <= source@.len(),
        result matches Err((place, _)) ==> at <= place <= source@.len(),
{
    let mnemonic = characters("dec");
    match reg_at(source, at, mnemonic.as_slice()) {
        Ok((end, register)) => Ok((end, Instruction { kind: InstructionKind::DecReg(register) })),
        Err(error) => Err(error),
    }
}

/// Parses an instruction with the mnemonic `hlt` in `source` from `at`.
pub fn hlt_at(source: &Source, at: usize) -> (result: Result<
    (usize, Instruction),
    (usize, ErrorKind),
>)
    requires
        at <= source@.len(),
    ensures
        parse_is(result, spec_hlt(source@, at as int)),
        result matches Ok((end, _)) ==> at <= end <= source@.len(),
        result matches Err((place, _)) ==> at <= place <= source@.len(),
{
    let mnemonic = characters("hlt");
    match no_arg_at(source, at, mnemonic.as_slice()) {
        Ok((end, _)) => Ok((end, Instruction { kind: InstructionKind::Hlt })),
        Err(error) => Err(error),
    }
}

/// Parses an instruction with the mnemonic `inc` in `source` from `at`.
pub fn inc_at(source: &Source, at: usize) -> (result: Result<
    (usize, Instruction),
    (usize, ErrorKind),
>)
    requires
        at <= source@.len(),
    ensures
        parse_is(result, spec_inc(source@, at as int)),
        result matches Ok((end, _)) ==> at <= end <= source@.len(),
        result matches Err((place, _)) ==> at <= place <= source@.len(),
{
    let mnemonic = characters("inc");
    match reg_at(source, at, mnemonic.as_slice()) {
        Ok((end, register)) => Ok((end, Instruction { kind: InstructionKind::IncReg(register) })),
        Err(error) => Err(error),
    }
}

/// Parses an instruction with the mnemonic `jeq` in `source` from `at`.
pub fn jeq_at(source: &Source, at: usize) -> (result: Result<
    (usize, Instruction),
    (usize, ErrorKind),
>)
    requires
        at <= source@.len(),
    ensures
        parse_is(result, spec_jeq(source@, at as int)),
        result matches Ok((end, _)) ==> at <= end <= source@.len(),
        result matches Err((place, _)) ==> at <= place <= source@.len(),
{
    let mnemonic = characters("jeq");
    if let Ok((end, (register, address))) = reg_mem_at(source, at, mnemonic.as_slice()) {
        return Ok((end, Instruction { kind: InstructionKind::JeqRegMem(register, address) }));
    }
    match lit_mem_at(source, at, mnemonic.as_slice()) {
        Ok((end, (literal, address))) => Ok((end, Instruction { kind: InstructionKind::JeqLitMem(literal, address) })),
        Err(error) => Err(error),
    }
}

/// Parses an instruction with the mnemonic `jge` in `source` from `at`.
pub fn jge_at(source: &Source, at: usize) -> (result: Result<
    (usize, Instruction),
    (usize, ErrorKind),
>)
    requires
        at <= source@.len(),
    ensures
        parse_is(result, spec_jge(source@, at as int)),
        result matches Ok((end, _)) ==> at <= end <= source@.len(),
        result matches Err((place, _)) ==> at <= place <= source@.len(),
{
    let mnemonic = characters("jge");
    if let Ok((end, (register, address))) = reg_mem_at(source, at, mnemonic.as_slice()) {
        return Ok((end, Instruction { kind: InstructionKind::JgeRegMem(register, address) }));
    }
    match lit_mem_at(source, at, mnemonic.as_slice()) {
        Ok((end, (literal, address))) => Ok((end, Instruction { kind: InstructionKind::JgeLitMem(literal, address) })),
        Err(error) => Err(error),
    }
}

/// Parses an instruction with the mnemonic `jgt` in `source` from `at`.
pub fn jgt_at(source: &Source, at: usize) -> (result: Result<
    (usize, Instruction),
    (usize, ErrorKind),
>)
    requires
        at <= source@.len(),
    ensures
        parse_is(result, spec_jgt(source@, at as int)),
        result matches Ok((end, _)) ==> at <= end <= source@.len(),
        result matches Err((place, _)) ==> at <= place <= source@.len(),
{
    let mnemonic = characters("jgt");
    if let Ok((end, (register, address))) = reg_mem_at(source, at, mnemonic.as_slice()) {
        return Ok((end, Instruction { kind: InstructionKind::JgtRegMem(register, address) }));
    }
    match lit_mem_at(source, at, mnemonic.as_slice()) {
        Ok((end, (literal, address))) => Ok((end, Instruction { kind: InstructionKind::JgtLitMem(literal, address) })),
        Err(error) => Err(error),
    }
}

/// Parses an instruction with the mnemonic `jle` in `source` from `at`.
pub fn jle_at(source: &Source, at: usize) -> (result: Result<
    (usize, Instruction),
    (usize, ErrorKind),
>)
    requires
        at <= source@.len(),
    ensures
        parse_is(result, spec_jle(source@, at as int)),
        result matches Ok((end, _)) ==> at <= end <= source@.len(),
        result matches Err((place, _)) ==> at <= place <= source@.len(),
{
    let mnemonic = characters("jle");
    if let Ok((end, (register, address))) = reg_mem_at(source, at, mnemonic.as_slice()) {
        return Ok((end, Instruction { kind: InstructionKind::JleRegMem(register, address) }));
    }
    match lit_mem_at(source, at, mnemonic.as_slice()) {
        Ok((end, (literal, address))) => Ok((end, Instruction { kind: InstructionKind::JleLitMem(literal, address) })),
        Err(error) => Err(error),
    }
}

/// Parses an instruction with the mnemonic `jlt` in `source` from `at`.
pub fn jlt_at(source: &Source, at: usize) -> (result: Result<
    (usize, Instruction),
    (usize, ErrorKind),
>)
    requires
        at <= source@.len(),
    ensures
        parse_is(result, spec_jlt(source@, at as int)),
        result matches Ok((end, _)) ==> at <= end <= source@.len(),
        result matches Err((place, _)) ==> at <= place <= source@.len(),
{
    let mnemonic = characters("jlt");
    if let Ok((end, (register, address))) = reg_mem_at(source, at, mnemonic.as_slice()) {
        return Ok((end, Instruction { kind: InstructionKind::JltRegMem(register, address) }));
    }
    match lit_mem_at(source, at, mnemonic.as_slice()) {
        Ok((end, (literal, address))) => Ok((end, Instruction { kind: InstructionKind::JltLitMem(literal, address) })),
        Err(error) => Err(error),
    }
}

/// Parses an instruction with the mnemonic `jne` in `source` from `at`.
pub fn jne_at(source: &Source, at: usize) -> (result: Result<
    (usize, Instruction),
    (usize, ErrorKind),
>)
    requires
        at <= source@.len(),
    ensures
        parse_is(result, spec_jne(source@, at as int)),
        result matches Ok((end, _)) ==> at <= end <= source@.len(),
        result matches Err((place, _)) ==> at <= place <= source@.len(),
{
    let mnemonic = characters("jne");
    if let Ok((end, (register, address))) = reg_mem_at(source, at, mnemonic.as_slice()) {
        return Ok((end, Instruction { kind: InstructionKind::JneRegMem(register, address) }));
    }
    match lit_mem_at(source, at, mnemonic.as_slice()) {
        Ok((end, (literal, address))) => Ok((end, Instruction { kind: InstructionKind::JneLitMem(literal, address) })),
        Err(error) => Err(error),
    }
}

/// Parses an instruction with the mnemonic `lsf` in `source` from `at`.
pub fn lsf_at(source: &Source, at: usize) -> (result: Result<
    (usize, Instruction),
    (usize, ErrorKind),
>)
    requires
        at <= source@.len(),
    ensures
        parse_is(result, spec_lsf(source@, at as int)),
        result matches Ok((end, _)) ==> at <= end <= source@.len(),
        result matches Err((place, _)) ==> at <= place <= source@.len(),
{
    let mnemonic = characters("lsf");
    if let Ok((end, (register, literal))) = reg_lit_at(source, at, mnemonic.as_slice()) {
        return Ok((end, Instruction { kind: InstructionKind::LsfRegLit(register, literal) }));
    }
    match reg_reg_at(source, at, mnemonic.as_slice()) {
        Ok((end, (first, second))) => Ok((end, Instruction { kind: InstructionKind::LsfRegReg(first, second) })),
        Err(error) => Err(error),
    }
}

/// Parses an instruction with the mnemonic `mul` in `source` from `at`.
pub fn mul_at(source: &Source, at: usize) -> (result: Result<
    (usize, Instruction),
    (usize, ErrorKind),
>)
    requires
        at <= source@.len(),
    ensures
        parse_is(result, spec_mul(source@, at as int)),
        result matches Ok((end, _)) ==> at <= end <= source@.len(),
        result matches Err((place, _)) ==> at <= place <= source@.len(),
{
    let mnemonic = characters("mul");
    if let Ok((end, (literal, register))) = lit_reg_at(source, at, mnemonic.as_slice()) {
        return Ok((end, Instruction { kind: InstructionKind::MulLitReg(literal, register) }));
    }
    match reg_reg_at(source, at, mnemonic.as_slice()) {
        Ok((end, (first, second))) => Ok((end, Instruction { kind: InstructionKind::MulRegReg(first, second) })),
        Err(error) => Err(error),
    }
}

/// Parses an instruction with the mnemonic `not` in `source` from `at`.
pub fn not_at(source: &Source, at: usize) -> (result: Result<
    (usize, Instruction),
    (usize, ErrorKind),
>)
    requires
        at <= source@.len(),
    ensures
        parse_is(result, spec_not(source@, at as int)),
        result matches Ok((end, _)) ==> at <= end <= source@.len(),
        result matches Err((place, _)) ==> at <= place <= source@.len(),
{
    let mnemonic = characters("not");
    match reg_at(source, at, mnemonic.as_slice()) {
        Ok((end, register)) => Ok((end, Instruction { kind: InstructionKind::NotReg(register) })),
        Err(error) => Err(error),
    }
}

/// Parses an instruction with the mnemonic `or` in `source` from `at`.
pub fn or_at(source: &Source, at: usize) -> (result: Result<
    (usize, Instruction),
    (usize, ErrorKind),
>)
    requires
        at <= source@.len(),
    ensures
        parse_is(result, spec_or(source@, at as int)),
        result matches Ok((end, _)) ==> at <= end <= source@.len(),
        result matches Err((place, _)) ==> at <= place <= source@.len(),
{
    let mnemonic = characters("or");
    if let Ok((end, (literal, register))) = lit_reg_at(source, at, mnemonic.as_slice()) {
        return Ok((end, Instruction { kind: InstructionKind::OrLitReg(literal, register) }));
    }
    match reg_reg_at(source, at, mnemonic.as_slice()) {
        Ok((end, (first, second))) => Ok((end, Instruction { kind: InstructionKind::OrRegReg(first, second) })),
        Err(error) => Err(error),
    }
}

/// Parses an instruction with the mnemonic `pop` in `source` from `at`.
pub fn pop_at(source: &Source, at: usize) -> (result: Result<
    (usize, Instruction),
    (usize, ErrorKind),
>)
    requires
        at <= source@.len(),
    ensures
        parse_is(result, spec_pop(source@, at as int)),
        result matches Ok((end, _)) ==> at <= end <= source@.len(),
        result matches Err((place, _)) ==> at <= place <= source@.len(),
{
    let mnemonic = characters("pop");
    match reg_at(source, at, mnemonic.as_slice()) {
        Ok((end, register)) => Ok((end, Instruction { kind: InstructionKind::PopReg(register) })),
        Err(error) => Err(error),
    }
}

/// Parses an instruction with the mnemonic `psh` in `source` from `at`.
pub fn psh_at(source: &Source, at: usize) -> (result: Result<
    (usize, Instruction),
    (usize, ErrorKind),
>)
    requires
        at <= source@.len(),
    ensures
        parse_is(result, spec_psh(source@, at as int)),
        result matches Ok((end, _)) ==> at <= end <= source@.len(),
        result matches Err((place, _)) ==> at <= place <= source@.len(),
{
    let mnemonic = characters("psh");
    if let Ok((end, literal)) = lit_at(source, at, mnemonic.as_slice()) {
        return Ok((end, Instruction { kind: InstructionKind::PshLit(literal) }));
    }
    match reg_at(source, at, mnemonic.as_slice()) {
        Ok((end, register)) => Ok((end, Instruction { kind: InstructionKind::PshReg(register) })),
        Err(error) => Err(error),
    }
}

/// Parses an instruction with the mnemonic `ret` in `source` from `at`.
pub fn ret_at(source: &Source, at: usize) -> (result: Result<
    (usize, Instruction),
    (usize, ErrorKind),
>)
    requires
        at <= source@.len(),
    ensures
        parse_is(result, spec_ret(source@, at as int)),
        result matches Ok((end, _)) ==> at <= end <= source@.len(),
        result matches Err((place, _)) ==> at <= place <= source@.len(),
{
    let mnemonic = characters("ret");
    match no_arg_at(source, at, mnemonic.as_slice()) {
        Ok((end, _)) => Ok((end, Instruction { kind: InstructionKind::Ret })),
        Err(error) => Err(error),
    }
}

/// Parses an instruction with the mnemonic `rsf` in `source` from `at`.
pub fn rsf_at(source: &Source, at: usize) -> (result: Result<
    (usize, Instruction),
    (usize, ErrorKind),
>)
    requires
        at <= source@.len(),
    ensures
        parse_is(result, spec_rsf(source@, at as int)),
        result matches Ok((end, _)) ==> at <= end <= source@.len(),
        result matches Err((place, _)) ==> at <= place <= source@.len(),
{
    let mnemonic = characters("rsf");
    if let Ok((end, (register, literal))) = reg_lit_at(source, at, mnemonic.as_slice()) {
        return Ok((end, Instruction { kind: InstructionKind::RsfRegLit(register, literal) }));
    }
    match reg_reg_at(source, at, mnemonic.as_slice()) {
        Ok((end, (first, second))) => Ok((end, Instruction { kind: InstructionKind::RsfRegReg(first, second) })),
        Err(error) => Err(error),
    }
}

/// Parses an instruction with the mnemonic `sub` in `source` from `at`.
pub fn sub_at(source: &Source, at: usize) -> (result: Result<
    (usize, Instruction),
    (usize, ErrorKind),
>)
    requires
        at <= source@.len(),
    ensures
        parse_is(result, spec_sub(source@, at as int)),
        result matches Ok((end, _)) ==> at <= end <= source@.len(),
        result matches Err((place, _)) ==> at <= place <= source@.len(),
{
    let mnemonic = characters("sub");
    if let Ok((end, (literal, register))) = lit_reg_at(source, at, mnemonic.as_slice()) {
        return Ok((end, Instruction { kind: InstructionKind::SubLitReg(literal, register) }));
    }
    match reg_reg_at(source, at, mnemonic.as_slice()) {
        Ok((end, (first, second))) => Ok((end, Instruction { kind: InstructionKind::SubRegReg(first, second) })),
        Err(error) => Err(error),
    }
}

/// Parses an instruction with the mnemonic `xor` in `source` from `at`.
pub fn xor_at(source: &Source, at: usize) -> (result: Result<
    (usize, Instruction),
    (usize, ErrorKind),
>)
    requires
        at <= source@.len(),
    ensures
        parse_is(result, spec_xor(source@, at as int)),
        result matches Ok((end, _)) ==> at <= end <= source@.len(),
        result matches Err((place, _)) ==> at <= place <= source@.len(),
{
    let mnemonic = characters("xor");
    if let Ok((end, (literal, register))) = lit_reg_at(source, at, mnemonic.as_slice()) {
        return Ok((end, Instruction { kind: InstructionKind::XorLitReg(literal, register) }));
    }
    match reg_reg_at(source, at, mnemonic.as_slice()) {
        Ok((end, (first, second))) => Ok((end, Instruction { kind: InstructionKind::XorRegReg(first, second) })),
        Err(error) => Err(error),
    }
}

/// Parses an instruction in `source` from `at`.
pub fn instruction_at(source: &Source, at: usize) -> (result: Result<
    (usize, Instruction),
    (usize, ErrorKind),
>)
    requires
        at <= source@.len(),
    ensures
        parse_is(result, spec_instruction(source@, at as int)),
        result matches Ok((end, _)) ==> at <= end <= source@.len(),
        result matches Err((place, _)) ==> at <= place <= source@.len(),
{
    if let Ok(parsed) = add_at(source, at) {
        return Ok(parsed);
    }
    if let Ok(parsed) = and_at(source, at) {
        return Ok(parsed);
    }
    if let Ok(parsed) = cal_at(source, at) {
        return Ok(parsed);
    }
    if let Ok(parsed) = dec_at(source, at) {
        return Ok(parsed);
    }
    if let Ok(parsed) = hlt_at(source, at) {
        return Ok(parsed);
    }
    if let Ok(parsed) = inc_at(source, at) {
        return Ok(parsed);
    }
    if let Ok(parsed) = jeq_at(source, at) {
        return Ok(parsed);
    }
    if let Ok(parsed) = jge_at(source, at) {
        return Ok(parsed);
    }
    if let Ok(parsed) = jgt_at(source, at) {
        return Ok(parsed);
    }
    if let Ok(parsed) = jle_at(source, at) {
        return Ok(parsed);
    }
    if let Ok(parsed) = jlt_at(source, at) {
        return Ok(parsed);
    }
    if let Ok(parsed) = jne_at(source, at) {
        return Ok(parsed);
    }
    if let Ok(parsed) = lsf_at(source, at) {
        return Ok(parsed);
    }
    if let Ok(parsed) = mov_at(source, at) {
        return Ok(parsed);
    }
    if let Ok(parsed) = mul_at(source, at) {
        return Ok(parsed);
    }
    if let Ok(parsed) = not_at(source, at) {
        return Ok(parsed);
    }
    if let Ok(parsed) = or_at(source, at) {
        return Ok(parsed);
    }
    if let Ok(parsed) = pop_at(source, at) {
        return Ok(parsed);
    }
    if let Ok(parsed) = psh_at(source, at) {
        return Ok(parsed);
    }
    if let Ok(parsed) = ret_at(source, at) {
        return Ok(parsed);
    }
    if let Ok(parsed) = rsf_at(source, at) {
        return Ok(parsed);
    }
    if let Ok(parsed) = sub_at(source, at) {
        return Ok(parsed);
    }
    xor_at(source, at)
}

/// Parses an instruction at the start of `input`.
pub fn instruction(input: &str) -> (result: Result<(&str, Instruction), ParseError>)
    ensures
        result_is(input, result, spec_instruction(input@, 0)),
{
    let source = Source::new(input);
    finish(input, source.len(), instruction_at(&source, 0), Ghost(spec_instruction(input@, 0)))
}

} // verus!
