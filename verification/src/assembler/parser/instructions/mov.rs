//! The instruction `mov`, which takes more shapes of operands than any
//! other.
//!
//! The shapes are tried in this order: a literal and an address; a literal,
//! a register behind `&` and a register; a literal and a register; an
//! address and a register; a register and an address; two registers; a
//! register behind `&` and a register.

use vstd::prelude::*;
use crate::assembler::parser::ast::{ExprTree, Instruction, InstructionKind};
use crate::assembler::parser::error::{finish, parse_is, result_is, ErrorKind, Parse, ParseError};
use crate::assembler::parser::instructions::formats::{
    lit_mem_at, lit_offset_reg_at, lit_reg_at, mem_reg_at, reg_mem_at, reg_ptr_reg_at,
    reg_reg_at, spec_lit_mem, spec_lit_offset_reg, spec_lit_reg, spec_mem_reg, spec_reg_mem,
    spec_reg_ptr_reg, spec_reg_reg,
};
use crate::assembler::parser::scan::Source;
use crate::text::characters;

verus! {

/// `mov` with a literal and an address.
pub open spec fn spec_mov_lit_mem(text: Seq<char>, at: int) -> Parse<InstructionKind<ExprTree>> {
    match spec_lit_mem(text, at, "mov"@) {
        Ok((end, (literal, address))) => Ok((end, InstructionKind::MovLitMem(literal, address))),
        Err(error) => Err(error),
    }
}

/// `mov` with a literal, a register behind `&` and a register.
pub open spec fn spec_mov_lit_offset_reg(
    text: Seq<char>,
    at: int,
) -> Parse<InstructionKind<ExprTree>> {
    match spec_lit_offset_reg(text, at, "mov"@) {
        Ok((end, (literal, (pointer, register)))) => Ok((end, InstructionKind::MovLitOffsetReg(literal, pointer, register))),
        Err(error) => Err(error),
    }
}

/// `mov` with a literal and a register.
pub open spec fn spec_mov_lit_reg(text: Seq<char>, at: int) -> Parse<InstructionKind<ExprTree>> {
    match spec_lit_reg(text, at, "mov"@) {
        Ok((end, (literal, register))) => Ok((end, InstructionKind::MovLitReg(literal, register))),
        Err(error) => Err(error),
    }
}

/// `mov` with an address and a register.
pub open spec fn spec_mov_mem_reg(text: Seq<char>, at: int) -> Parse<InstructionKind<ExprTree>> {
    match spec_mem_reg(text, at, "mov"@) {
        Ok((end, (address, register))) => Ok((end, InstructionKind::MovMemReg(address, register))),
        Err(error) => Err(error),
    }
}

/// `mov` with a register and an address.
pub open spec fn spec_mov_reg_mem(text: Seq<char>, at: int) -> Parse<InstructionKind<ExprTree>> {
    match spec_reg_mem(text, at, "mov"@) {
        Ok((end, (register, address))) => Ok((end, InstructionKind::MovRegMem(register, address))),
        Err(error) => Err(error),
    }
}

/// `mov` with two registers.
pub open spec fn spec_mov_reg_reg(text: Seq<char>, at: int) -> Parse<InstructionKind<ExprTree>> {
    match spec_reg_reg(text, at, "mov"@) {
        Ok((end, (first, second))) => Ok((end, InstructionKind::MovRegReg(first, second))),
        Err(error) => Err(error),
    }
}

/// `mov` with a register behind `&` and a register.
pub open spec fn spec_mov_reg_ptr_reg(
    text: Seq<char>,
    at: int,
) -> Parse<InstructionKind<ExprTree>> {
    match spec_reg_ptr_reg(text, at, "mov"@) {
        Ok((end, (pointer, register))) => Ok((end, InstructionKind::MovRegPtrReg(pointer, register))),
        Err(error) => Err(error),
    }
}

/// `mov`: the first of its shapes that is found.
pub open spec fn spec_mov(text: Seq<char>, at: int) -> Parse<InstructionKind<ExprTree>> {
    match spec_mov_lit_mem(text, at) {
        Ok(parsed) => Ok(parsed),
        Err(_) => match spec_mov_lit_offset_reg(text, at) {
            Ok(parsed) => Ok(parsed),
            Err(_) => match spec_mov_lit_reg(text, at) {
                Ok(parsed) => Ok(parsed),
                Err(_) => match spec_mov_mem_reg(text, at) {
                    Ok(parsed) => Ok(parsed),
                    Err(_) => match spec_mov_reg_mem(text, at) {
                        Ok(parsed) => Ok(parsed),
                        Err(_) => match spec_mov_reg_reg(text, at) {
                            Ok(parsed) => Ok(parsed),
                            Err(_) => spec_mov_reg_ptr_reg(text, at),
                        },
                    },
                },
            },
        },
    }
}

/// Parses `mov` with a literal and an address in `source` from `at`.
pub fn mov_lit_mem_at(source: &Source, at: usize) -> (result: Result<
    (usize, Instruction),
    (usize, ErrorKind),
>)
    requires
        at <= source@.len(),
    ensures
        parse_is(result, spec_mov_lit_mem(source@, at as int)),
        result matches Ok((end, _)) ==> at <= end <= source@.len(),
        result matches Err((place, _)) ==> at <= place <= source@.len(),
{
    let mnemonic = characters("mov");
    match lit_mem_at(source, at, mnemonic.as_slice()) {
        Ok((end, (literal, address))) => Ok((end, Instruction { kind: InstructionKind::MovLitMem(literal, address) })),
        Err(error) => Err(error),
    }
}

/// Parses `mov` with a literal, a register behind `&` and a register in `source` from `at`.
pub fn mov_lit_offset_reg_at(source: &Source, at: usize) -> (result: Result<
    (usize, Instruction),
    (usize, ErrorKind),
>)
    requires
        at <= source@.len(),
    ensures
        parse_is(result, spec_mov_lit_offset_reg(source@, at as int)),
        result matches Ok((end, _)) ==> at <= end <= source@.len(),
        result matches Err((place, _)) ==> at <= place <= source@.len(),
{
    let mnemonic = characters("mov");
    match lit_offset_reg_at(source, at, mnemonic.as_slice()) {
        Ok((end, (literal, (pointer, register)))) => Ok((end, Instruction { kind: InstructionKind::MovLitOffsetReg(literal, pointer, register) })),
        Err(error) => Err(error),
    }
}

/// Parses `mov` with a literal and a register in `source` from `at`.
pub fn mov_lit_reg_at(source: &Source, at: usize) -> (result: Result<
    (usize, Instruction),
    (usize, ErrorKind),
>)
    requires
        at <= source@.len(),
    ensures
        parse_is(result, spec_mov_lit_reg(source@, at as int)),
        result matches Ok((end, _)) ==> at <= end <= source@.len(),
        result matches Err((place, _)) ==> at <= place <= source@.len(),
{
    let mnemonic = characters("mov");
    match lit_reg_at(source, at, mnemonic.as_slice()) {
        Ok((end, (literal, register))) => Ok((end, Instruction { kind: InstructionKind::MovLitReg(literal, register) })),
        Err(error) => Err(error),
    }
}

/// Parses `mov` with an address and a register in `source` from `at`.
pub fn mov_mem_reg_at(source: &Source, at: usize) -> (result: Result<
    (usize, Instruction),
    (usize, ErrorKind),
>)
    requires
        at <= source@.len(),
    ensures
        parse_is(result, spec_mov_mem_reg(source@, at as int)),
        result matches Ok((end, _)) ==> at <= end <= source@.len(),
        result matches Err((place, _)) ==> at <= place <= source@.len(),
{
    let mnemonic = characters("mov");
    match mem_reg_at(source, at, mnemonic.as_slice()) {
        Ok((end, (address, register))) => Ok((end, Instruction { kind: InstructionKind::MovMemReg(address, register) })),
        Err(error) => Err(error),
    }
}

/// Parses `mov` with a register and an address in `source` from `at`.
pub fn mov_reg_mem_at(source: &Source, at: usize) -> (result: Result<
    (usize, Instruction),
    (usize, ErrorKind),
>)
    requires
        at <= source@.len(),
    ensures
        parse_is(result, spec_mov_reg_mem(source@, at as int)),
        result matches Ok((end, _)) ==> at <= end <= source@.len(),
        result matches Err((place, _)) ==> at <= place <= source@.len(),
{
    let mnemonic = characters("mov");
    match reg_mem_at(source, at, mnemonic.as_slice()) {
        Ok((end, (register, address))) => Ok((end, Instruction { kind: InstructionKind::MovRegMem(register, address) })),
        Err(error) => Err(error),
    }
}

/// Parses `mov` with two registers in `source` from `at`.
pub fn mov_reg_reg_at(source: &Source, at: usize) -> (result: Result<
    (usize, Instruction),
    (usize, ErrorKind),
>)
    requires
        at <= source@.len(),
    ensures
        parse_is(result, spec_mov_reg_reg(source@, at as int)),
        result matches Ok((end, _)) ==> at <= end <= source@.len(),
        result matches Err((place, _)) ==> at <= place <= source@.len(),
{
    let mnemonic = characters("mov");
    match reg_reg_at(source, at, mnemonic.as_slice()) {
        Ok((end, (first, second))) => Ok((end, Instruction { kind: InstructionKind::MovRegReg(first, second) })),
        Err(error) => Err(error),
    }
}

/// Parses `mov` with a register behind `&` and a register in `source` from `at`.
pub fn mov_reg_ptr_reg_at(source: &Source, at: usize) -> (result: Result<
    (usize, Instruction),
    (usize, ErrorKind),
>)
    requires
        at <= source@.len(),
    ensures
        parse_is(result, spec_mov_reg_ptr_reg(source@, at as int)),
        result matches Ok((end, _)) ==> at <= end <= source@.len(),
        result matches Err((place, _)) ==> at <= place <= source@.len(),
{
    let mnemonic = characters("mov");
    match reg_ptr_reg_at(source, at, mnemonic.as_slice()) {
        Ok((end, (pointer, register))) => Ok((end, Instruction { kind: InstructionKind::MovRegPtrReg(pointer, register) })),
        Err(error) => Err(error),
    }
}

/// Parses an instruction with the mnemonic `mov` in `source` from `at`.
pub fn mov_at(source: &Source, at: usize) -> (result: Result<
    (usize, Instruction),
    (usize, ErrorKind),
>)
    requires
        at <= source@.len(),
    ensures
        parse_is(result, spec_mov(source@, at as int)),
        result matches Ok((end, _)) ==> at <= end <= source@.len(),
        result matches Err((place, _)) ==> at <= place <= source@.len(),
{
    if let Ok(parsed) = mov_lit_mem_at(source, at) {
        return Ok(parsed);
    }
    if let Ok(parsed) = mov_lit_offset_reg_at(source, at) {
        return Ok(parsed);
    }
    if let Ok(parsed) = mov_lit_reg_at(source, at) {
        return Ok(parsed);
    }
    if let Ok(parsed) = mov_mem_reg_at(source, at) {
        return Ok(parsed);
    }
    if let Ok(parsed) = mov_reg_mem_at(source, at) {
        return Ok(parsed);
    }
    if let Ok(parsed) = mov_reg_reg_at(source, at) {
        return Ok(parsed);
    }
    mov_reg_ptr_reg_at(source, at)
}

/// Parses an instruction with the mnemonic `mov` at the start of `input`.
pub fn mov(input: &str) -> (result: Result<(&str, Instruction), ParseError>)
    ensures
        result_is(input, result, spec_mov(input@, 0)),
{
    let source = Source::new(input);
    finish(input, source.len(), mov_at(&source, 0), Ghost(spec_mov(input@, 0)))
}

/// Parses `mov` with a literal and an address at the start of `input`.
pub fn mov_lit_mem(input: &str) -> (result: Result<(&str, Instruction), ParseError>)
    ensures
        result_is(input, result, spec_mov_lit_mem(input@, 0)),
{
    let source = Source::new(input);
    finish(input, source.len(), mov_lit_mem_at(&source, 0), Ghost(spec_mov_lit_mem(input@, 0)))
}

/// Parses `mov` with a literal, a register behind `&` and a register at the start of `input`.
pub fn mov_lit_offset_reg(input: &str) -> (result: Result<(&str, Instruction), ParseError>)
    ensures
        result_is(input, result, spec_mov_lit_offset_reg(input@, 0)),
{
    let source = Source::new(input);
    finish(input, source.len(), mov_lit_offset_reg_at(&source, 0), Ghost(spec_mov_lit_offset_reg(input@, 0)))
}

/// Parses `mov` with a literal and a register at the start of `input`.
pub fn mov_lit_reg(input: &str) -> (result: Result<(&str, Instruction), ParseError>)
    ensures
        result_is(input, result, spec_mov_lit_reg(input@, 0)),
{
    let source = Source::new(input);
    finish(input, source.len(), mov_lit_reg_at(&source, 0), Ghost(spec_mov_lit_reg(input@, 0)))
}

/// Parses `mov` with an address and a register at the start of `input`.
pub fn mov_mem_reg(input: &str) -> (result: Result<(&str, Instruction), ParseError>)
    ensures
        result_is(input, result, spec_mov_mem_reg(input@, 0)),
{
    let source = Source::new(input);
    finish(input, source.len(), mov_mem_reg_at(&source, 0), Ghost(spec_mov_mem_reg(input@, 0)))
}

/// Parses `mov` with a register and an address at the start of `input`.
pub fn mov_reg_mem(input: &str) -> (result: Result<(&str, Instruction), ParseError>)
    ensures
        result_is(input, result, spec_mov_reg_mem(input@, 0)),
{
    let source = Source::new(input);
    finish(input, source.len(), mov_reg_mem_at(&source, 0), Ghost(spec_mov_reg_mem(input@, 0)))
}

/// Parses `mov` with two registers at the start of `input`.
pub fn mov_reg_reg(input: &str) -> (result: Result<(&str, Instruction), ParseError>)
    ensures
        result_is(input, result, spec_mov_reg_reg(input@, 0)),
{
    let source = Source::new(input);
    finish(input, source.len(), mov_reg_reg_at(&source, 0), Ghost(spec_mov_reg_reg(input@, 0)))
}

/// Parses `mov` with a register behind `&` and a register at the start of `input`.
pub fn mov_reg_ptr_reg(input: &str) -> (result: Result<(&str, Instruction), ParseError>)
    ensures
        result_is(input, result, spec_mov_reg_ptr_reg(input@, 0)),
{
    let source = Source::new(input);
    finish(input, source.len(), mov_reg_ptr_reg_at(&source, 0), Ghost(spec_mov_reg_ptr_reg(input@, 0)))
}

} // verus!
