//! What each instruction does where its opcode and its operands can be
//! fetched.
//!
//! The instruction pointer moves past the opcode and the operands first;
//! it wraps at the end of the address space.

use vstd::prelude::*;
use crate::cpu::{is_register_offset, lemma_with_register, operand_offset, Machine, ACC, IP};
use crate::fault::Fault;
use crate::instructions;
use crate::memory_mapper::{read_u16, read_u8, write_u16};

verus! {

/// The address `bytes` bytes behind `address`, wrapping at 16 bits.
pub open spec fn ahead(address: u16, bytes: int) -> u16 {
    ((address + bytes) % 0x1_0000) as u16
}

/// The byte of the program `at` bytes behind the instruction pointer, if
/// it can be read.
pub open spec fn code8(machine: Machine, at: int) -> Result<u8, Fault> {
    read_u8(machine.memory, ahead(machine.register(IP), at))
}

/// The word of the program `at` bytes behind the instruction pointer, if
/// it can be read.
pub open spec fn code16(machine: Machine, at: int) -> Result<u16, Fault> {
    read_u16(machine.memory, ahead(machine.register(IP), at))
}

/// The state with the instruction pointer `bytes` bytes further.
pub open spec fn advanced(machine: Machine, bytes: int) -> Machine {
    machine.with_register(IP, ahead(machine.register(IP), bytes))
}

/// Moving the instruction pointer twice moves it by the sum.
pub proof fn lemma_advanced(machine: Machine, first: int, second: int)
    requires
        machine.wf(),
    ensures
        advanced(machine, first).wf(),
        advanced(machine, first).memory == machine.memory,
        advanced(machine, first).stack_frame_size == machine.stack_frame_size,
        advanced(machine, first).register(IP) == ahead(machine.register(IP), first),
        advanced(advanced(machine, first), second) == advanced(machine, first + second),
        ahead(machine.register(IP), 1) == machine.register(IP).wrapping_add(1),
        ahead(machine.register(IP), 2) == machine.register(IP).wrapping_add(2),
        forall|offset: usize|
            is_register_offset(offset) && offset != IP ==> #[trigger] advanced(
                machine,
                first,
            ).register(offset) == machine.register(offset),
{
    let ip = machine.register(IP);
    lemma_with_register(machine, IP, ahead(ip, first));
    lemma_with_register(advanced(machine, first), IP, ahead(ahead(ip, first), second));
    assert(advanced(advanced(machine, first), second).registers =~= advanced(
        machine,
        first + second,
    ).registers);
}

/// A byte that can be fetched is fetched, and the instruction pointer moves
/// past it.
pub proof fn lemma_fetch(machine: Machine, byte: u8)
    requires
        machine.wf(),
        code8(machine, 0) == Ok::<u8, Fault>(byte),
    ensures
        machine.fetch() == (advanced(machine, 1), Ok::<u8, Fault>(byte)),
        machine.fetch_register_index() == (
            advanced(machine, 1),
            Ok::<usize, Fault>(operand_offset(byte)),
        ),
        is_register_offset(operand_offset(byte)),
{
    lemma_advanced(machine, 0, 1);
    assert(ahead(machine.register(IP), 0) == machine.register(IP));
}

/// A word that can be fetched is fetched, and the instruction pointer moves
/// past it.
pub proof fn lemma_fetch16(machine: Machine, word: u16)
    requires
        machine.wf(),
        code16(machine, 0) == Ok::<u16, Fault>(word),
    ensures
        machine.fetch16() == (advanced(machine, 2), Ok::<u16, Fault>(word)),
{
    lemma_advanced(machine, 0, 2);
    assert(ahead(machine.register(IP), 0) == machine.register(IP));
}

/// A byte and a word of the program are found at the same place after the
/// instruction pointer has moved, counted from where it was.
pub proof fn lemma_code_moves(machine: Machine, moved: int, at: int)
    requires
        machine.wf(),
    ensures
        code8(advanced(machine, moved), at) == code8(machine, moved + at),
        code16(advanced(machine, moved), at) == code16(machine, moved + at),
{
    lemma_advanced(machine, moved, at);
}

/// An opcode, a byte and a byte that can be fetched are fetched in a row.
proof fn lemma_fetch_8_8(machine: Machine, opcode: u8, first: u8, second: u8)
    requires
        machine.wf(),
        code8(machine, 0) == Ok::<u8, Fault>(opcode),
        code8(machine, 1) == Ok::<u8, Fault>(first),
        code8(machine, 2) == Ok::<u8, Fault>(second),
    ensures
        machine.fetch() == (advanced(machine, 1), Ok::<u8, Fault>(opcode)),
        advanced(machine, 1).fetch_register_index() == (
            advanced(machine, 2),
            Ok::<usize, Fault>(operand_offset(first)),
        ),
        advanced(machine, 2).fetch_register_index() == (
            advanced(machine, 3),
            Ok::<usize, Fault>(operand_offset(second)),
        ),
        advanced(machine, 3).wf(),
{
    lemma_fetch(machine, opcode);
    lemma_advanced(machine, 1, 1);
    lemma_code_moves(machine, 1, 0);
    lemma_fetch(advanced(machine, 1), first);
    lemma_advanced(machine, 2, 1);
    lemma_code_moves(machine, 2, 0);
    lemma_fetch(advanced(machine, 2), second);
}

/// An opcode, a word and a byte that can be fetched are fetched in a row.
proof fn lemma_fetch_16_8(machine: Machine, opcode: u8, first: u16, second: u8)
    requires
        machine.wf(),
        code8(machine, 0) == Ok::<u8, Fault>(opcode),
        code16(machine, 1) == Ok::<u16, Fault>(first),
        code8(machine, 3) == Ok::<u8, Fault>(second),
    ensures
        machine.fetch() == (advanced(machine, 1), Ok::<u8, Fault>(opcode)),
        advanced(machine, 1).fetch16() == (advanced(machine, 3), Ok::<u16, Fault>(first)),
        advanced(machine, 3).fetch_register_index() == (
            advanced(machine, 4),
            Ok::<usize, Fault>(operand_offset(second)),
        ),
        advanced(machine, 4).wf(),
{
    lemma_fetch(machine, opcode);
    lemma_advanced(machine, 1, 2);
    lemma_code_moves(machine, 1, 0);
    lemma_fetch16(advanced(machine, 1), first);
    lemma_advanced(machine, 3, 1);
    lemma_code_moves(machine, 3, 0);
    lemma_fetch(advanced(machine, 3), second);
}

/// An opcode, a byte and a word that can be fetched are fetched in a row.
proof fn lemma_fetch_8_16(machine: Machine, opcode: u8, first: u8, second: u16)
    requires
        machine.wf(),
        code8(machine, 0) == Ok::<u8, Fault>(opcode),
        code8(machine, 1) == Ok::<u8, Fault>(first),
        code16(machine, 2) == Ok::<u16, Fault>(second),
    ensures
        machine.fetch() == (advanced(machine, 1), Ok::<u8, Fault>(opcode)),
        advanced(machine, 1).fetch_register_index() == (
            advanced(machine, 2),
            Ok::<usize, Fault>(operand_offset(first)),
        ),
        advanced(machine, 2).fetch16() == (advanced(machine, 4), Ok::<u16, Fault>(second)),
        advanced(machine, 4).wf(),
{
    lemma_fetch(machine, opcode);
    lemma_advanced(machine, 1, 1);
    lemma_code_moves(machine, 1, 0);
    lemma_fetch(advanced(machine, 1), first);
    lemma_advanced(machine, 2, 2);
    lemma_code_moves(machine, 2, 0);
    lemma_fetch16(advanced(machine, 2), second);
}

/// An opcode and two words that can be fetched are fetched in a row.
proof fn lemma_fetch_16_16(machine: Machine, opcode: u8, first: u16, second: u16)
    requires
        machine.wf(),
        code8(machine, 0) == Ok::<u8, Fault>(opcode),
        code16(machine, 1) == Ok::<u16, Fault>(first),
        code16(machine, 3) == Ok::<u16, Fault>(second),
    ensures
        machine.fetch() == (advanced(machine, 1), Ok::<u8, Fault>(opcode)),
        advanced(machine, 1).fetch16() == (advanced(machine, 3), Ok::<u16, Fault>(first)),
        advanced(machine, 3).fetch16() == (advanced(machine, 5), Ok::<u16, Fault>(second)),
        advanced(machine, 5).wf(),
{
    lemma_fetch(machine, opcode);
    lemma_advanced(machine, 1, 2);
    lemma_code_moves(machine, 1, 0);
    lemma_fetch16(advanced(machine, 1), first);
    lemma_advanced(machine, 3, 2);
    lemma_code_moves(machine, 3, 0);
    lemma_fetch16(advanced(machine, 3), second);
}

/// `MOV_LIT_REG`, a literal and a register: the register takes the literal.
pub proof fn lemma_mov_lit_reg(machine: Machine, literal: u16, register: u8)
    requires
        machine.wf(),
        code8(machine, 0) == Ok::<u8, Fault>(instructions::MOV_LIT_REG),
        code16(machine, 1) == Ok::<u16, Fault>(literal),
        code8(machine, 3) == Ok::<u8, Fault>(register),
    ensures
        machine.step() == (
            advanced(machine, 4).with_register(operand_offset(register), literal),
            Ok::<bool, Fault>(false),
        ),
{
    lemma_fetch_16_8(machine, instructions::MOV_LIT_REG, literal, register);
}

/// `MOV_REG_REG` and two registers: the second register takes the value of
/// the first.
pub proof fn lemma_mov_reg_reg(machine: Machine, from: u8, to: u8)
    requires
        machine.wf(),
        code8(machine, 0) == Ok::<u8, Fault>(instructions::MOV_REG_REG),
        code8(machine, 1) == Ok::<u8, Fault>(from),
        code8(machine, 2) == Ok::<u8, Fault>(to),
    ensures
        machine.step() == (
            advanced(machine, 3).with_register(
                operand_offset(to),
                advanced(machine, 3).register(operand_offset(from)),
            ),
            Ok::<bool, Fault>(false),
        ),
{
    lemma_fetch_8_8(machine, instructions::MOV_REG_REG, from, to);
}

/// `MOV_REG_MEM`, a register and an address: the word at the address takes
/// the value of the register, where it can be written.
pub proof fn lemma_mov_reg_mem(machine: Machine, register: u8, address: u16)
    requires
        machine.wf(),
        code8(machine, 0) == Ok::<u8, Fault>(instructions::MOV_REG_MEM),
        code8(machine, 1) == Ok::<u8, Fault>(register),
        code16(machine, 2) == Ok::<u16, Fault>(address),
    ensures
        machine.step() == ({
            let fetched = advanced(machine, 4);
            let (memory, written) = write_u16(
                machine.memory,
                address,
                fetched.register(operand_offset(register)),
            );
            (
                fetched.with_memory(memory),
                match written {
                    Ok(()) => Ok::<bool, Fault>(false),
                    Err(fault) => Err::<bool, Fault>(fault),
                },
            )
        }),
{
    lemma_fetch_8_16(machine, instructions::MOV_REG_MEM, register, address);
    lemma_advanced(machine, 0, 4);
}

/// `MOV_MEM_REG`, an address and a register: the register takes the word at
/// the address, where it can be read.
pub proof fn lemma_mov_mem_reg(machine: Machine, address: u16, register: u8)
    requires
        machine.wf(),
        code8(machine, 0) == Ok::<u8, Fault>(instructions::MOV_MEM_REG),
        code16(machine, 1) == Ok::<u16, Fault>(address),
        code8(machine, 3) == Ok::<u8, Fault>(register),
    ensures
        machine.step() == (match read_u16(machine.memory, address) {
            Ok(value) => (
                advanced(machine, 4).with_register(operand_offset(register), value),
                Ok::<bool, Fault>(false),
            ),
            Err(fault) => (advanced(machine, 4), Err::<bool, Fault>(fault)),
        }),
{
    lemma_fetch_16_8(machine, instructions::MOV_MEM_REG, address, register);
    lemma_advanced(machine, 0, 4);
}

/// `ADD_REG_REG` and two registers: the accumulator takes their sum, which
/// wraps at 16 bits.
pub proof fn lemma_add_reg_reg(machine: Machine, first: u8, second: u8)
    requires
        machine.wf(),
        code8(machine, 0) == Ok::<u8, Fault>(instructions::ADD_REG_REG),
        code8(machine, 1) == Ok::<u8, Fault>(first),
        code8(machine, 2) == Ok::<u8, Fault>(second),
    ensures
        machine.step() == (
            advanced(machine, 3).with_register(
                ACC,
                advanced(machine, 3).register(operand_offset(first)).wrapping_add(
                    advanced(machine, 3).register(operand_offset(second)),
                ),
            ),
            Ok::<bool, Fault>(false),
        ),
{
    lemma_fetch_8_8(machine, instructions::ADD_REG_REG, first, second);
}

/// `JMP_NOT_EQ`, a literal and an address: the instruction pointer takes
/// the address unless the literal equals the accumulator.
pub proof fn lemma_jmp_not_eq(machine: Machine, literal: u16, address: u16)
    requires
        machine.wf(),
        code8(machine, 0) == Ok::<u8, Fault>(instructions::JMP_NOT_EQ),
        code16(machine, 1) == Ok::<u16, Fault>(literal),
        code16(machine, 3) == Ok::<u16, Fault>(address),
    ensures
        machine.step() == (
            if literal != machine.register(ACC) {
                machine.with_register(IP, address)
            } else {
                advanced(machine, 5)
            },
            Ok::<bool, Fault>(false),
        ),
{
    lemma_fetch_16_16(machine, instructions::JMP_NOT_EQ, literal, address);
    lemma_advanced(machine, 0, 5);
    lemma_with_register(advanced(machine, 5), IP, address);
    assert(advanced(machine, 5).with_register(IP, address).registers =~= machine.with_register(
        IP,
        address,
    ).registers);
}

/// `PSH_LIT` and a literal: the literal is pushed.
pub proof fn lemma_psh_lit(machine: Machine, literal: u16)
    requires
        machine.wf(),
        code8(machine, 0) == Ok::<u8, Fault>(instructions::PSH_LIT),
        code16(machine, 1) == Ok::<u16, Fault>(literal),
    ensures
        machine.step() == (
            advanced(machine, 3).push(literal).0,
            match advanced(machine, 3).push(literal).1 {
                Ok(()) => Ok::<bool, Fault>(false),
                Err(fault) => Err::<bool, Fault>(fault),
            },
        ),
{
    lemma_fetch(machine, instructions::PSH_LIT);
    lemma_advanced(machine, 1, 2);
    lemma_code_moves(machine, 1, 0);
    lemma_fetch16(advanced(machine, 1), literal);
}

/// `PSH_REG` and a register: the value of the register is pushed.
pub proof fn lemma_psh_reg(machine: Machine, register: u8)
    requires
        machine.wf(),
        code8(machine, 0) == Ok::<u8, Fault>(instructions::PSH_REG),
        code8(machine, 1) == Ok::<u8, Fault>(register),
    ensures
        machine.step() == ({
            let fetched = advanced(machine, 2);
            let pushed = fetched.push(fetched.register(operand_offset(register)));
            (
                pushed.0,
                match pushed.1 {
                    Ok(()) => Ok::<bool, Fault>(false),
                    Err(fault) => Err::<bool, Fault>(fault),
                },
            )
        }),
{
    lemma_fetch(machine, instructions::PSH_REG);
    lemma_advanced(machine, 1, 1);
    lemma_code_moves(machine, 1, 0);
    lemma_fetch(advanced(machine, 1), register);
}

/// `POP` and a register: the register takes the word that is popped.
pub proof fn lemma_pop_reg(machine: Machine, register: u8)
    requires
        machine.wf(),
        code8(machine, 0) == Ok::<u8, Fault>(instructions::POP),
        code8(machine, 1) == Ok::<u8, Fault>(register),
    ensures
        machine.step() == ({
            let popped = advanced(machine, 2).pop();
            match popped.1 {
                Ok(value) => (
                    popped.0.with_register(operand_offset(register), value),
                    Ok::<bool, Fault>(false),
                ),
                Err(fault) => (popped.0, Err::<bool, Fault>(fault)),
            }
        }),
{
    lemma_fetch(machine, instructions::POP);
    lemma_advanced(machine, 1, 1);
    lemma_code_moves(machine, 1, 0);
    lemma_fetch(advanced(machine, 1), register);
}

/// `CAL_LIT` and an address: the state is saved, with the instruction
/// pointer behind the call, and the instruction pointer takes the address.
pub proof fn lemma_cal_lit(machine: Machine, address: u16)
    requires
        machine.wf(),
        code8(machine, 0) == Ok::<u8, Fault>(instructions::CAL_LIT),
        code16(machine, 1) == Ok::<u16, Fault>(address),
    ensures
        machine.step() == ({
            let saved = advanced(machine, 3).push_state();
            match saved.1 {
                Ok(()) => (saved.0.with_register(IP, address), Ok::<bool, Fault>(false)),
                Err(fault) => (saved.0, Err::<bool, Fault>(fault)),
            }
        }),
{
    lemma_fetch(machine, instructions::CAL_LIT);
    lemma_advanced(machine, 1, 2);
    lemma_code_moves(machine, 1, 0);
    lemma_fetch16(advanced(machine, 1), address);
}

/// `CAL_REG` and a register: the state is saved, with the instruction
/// pointer behind the call, and the instruction pointer takes the value of
/// the register.
pub proof fn lemma_cal_reg(machine: Machine, register: u8)
    requires
        machine.wf(),
        code8(machine, 0) == Ok::<u8, Fault>(instructions::CAL_REG),
        code8(machine, 1) == Ok::<u8, Fault>(register),
    ensures
        machine.step() == ({
            let fetched = advanced(machine, 2);
            let saved = fetched.push_state();
            match saved.1 {
                Ok(()) => (
                    saved.0.with_register(IP, fetched.register(operand_offset(register))),
                    Ok::<bool, Fault>(false),
                ),
                Err(fault) => (saved.0, Err::<bool, Fault>(fault)),
            }
        }),
{
    lemma_fetch(machine, instructions::CAL_REG);
    lemma_advanced(machine, 1, 1);
    lemma_code_moves(machine, 1, 0);
    lemma_fetch(advanced(machine, 1), register);
}

/// `RET`: the state is restored.
pub proof fn lemma_ret(machine: Machine)
    requires
        machine.wf(),
        code8(machine, 0) == Ok::<u8, Fault>(instructions::RET),
    ensures
        machine.step() == ({
            let restored = advanced(machine, 1).pop_state();
            (
                restored.0,
                match restored.1 {
                    Ok(()) => Ok::<bool, Fault>(false),
                    Err(fault) => Err::<bool, Fault>(fault),
                },
            )
        }),
{
    lemma_fetch(machine, instructions::RET);
}

/// `HLT`: the processor is to halt.
pub proof fn lemma_hlt(machine: Machine)
    requires
        machine.wf(),
        code8(machine, 0) == Ok::<u8, Fault>(instructions::HLT),
    ensures
        machine.step() == (advanced(machine, 1), Ok::<bool, Fault>(true)),
{
    lemma_fetch(machine, instructions::HLT);
}

/// Whether the processor carries out the opcode.
pub open spec fn is_carried_out(opcode: u8) -> bool {
    opcode == instructions::MOV_LIT_REG || opcode == instructions::MOV_REG_REG || opcode
        == instructions::MOV_REG_MEM || opcode == instructions::MOV_MEM_REG || opcode
        == instructions::ADD_REG_REG || opcode == instructions::JMP_NOT_EQ || opcode
        == instructions::PSH_LIT || opcode == instructions::PSH_REG || opcode
        == instructions::POP || opcode == instructions::CAL_LIT || opcode
        == instructions::CAL_REG || opcode == instructions::RET || opcode == instructions::HLT
}

/// Any other opcode is skipped: the instruction pointer moves past it, and
/// nothing else changes.
pub proof fn lemma_skipped(machine: Machine, opcode: u8)
    requires
        machine.wf(),
        code8(machine, 0) == Ok::<u8, Fault>(opcode),
        !is_carried_out(opcode),
    ensures
        machine.step() == (advanced(machine, 1), Ok::<bool, Fault>(false)),
{
    lemma_fetch(machine, opcode);
}

/// Where the opcode cannot be fetched, the step fails and nothing changes.
pub proof fn lemma_no_opcode(machine: Machine, fault: Fault)
    requires
        machine.wf(),
        code8(machine, 0) == Err::<u8, Fault>(fault),
    ensures
        machine.step() == (machine, Err::<bool, Fault>(fault)),
{
    assert(ahead(machine.register(IP), 0) == machine.register(IP));
}

} // verus!
