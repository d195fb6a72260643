//! The processor: twelve 16-bit registers, a stack that grows downwards and
//! a fetch, decode and execute loop over mapped memory.
//!
//! All arithmetic on registers and on the stack frame size wraps at 16 bits.
//! An opcode that the processor does not know is skipped.

use vstd::prelude::*;
use crate::device::{join_bytes, lemma_word_bytes, split_word, word_of};
use crate::fault::Fault;
use crate::instructions;
use crate::memory::write_word;
use crate::memory_mapper::{
    all_sent, pending_output, read_u16, read_u8, write_u16, MemoryMapper, RegionState,
};
use crate::text::{characters, spells};

verus! {

/// The number of registers.
pub const REGISTER_COUNT: usize = 12;

/// The size of the register file in bytes: two for each register.
pub const REGISTER_FILE_SIZE: usize = 24;

/// The offset of the instruction pointer in the register file.
pub const IP: usize = 0;

/// The offset of the accumulator in the register file.
pub const ACC: usize = 2;

/// The offset of `r1` in the register file.
pub const R1: usize = 4;

/// The offset of `r2` in the register file.
pub const R2: usize = 6;

/// The offset of `r3` in the register file.
pub const R3: usize = 8;

/// The offset of `r4` in the register file.
pub const R4: usize = 10;

/// The offset of `r5` in the register file.
pub const R5: usize = 12;

/// The offset of `r6` in the register file.
pub const R6: usize = 14;

/// The offset of `r7` in the register file.
pub const R7: usize = 16;

/// The offset of `r8` in the register file.
pub const R8: usize = 18;

/// The offset of the stack pointer in the register file.
pub const SP: usize = 20;

/// The offset of the frame pointer in the register file.
pub const FP: usize = 22;

/// The address at which the stack starts: the highest even address.
pub const STACK_START: u16 = 0xFFFE;

/// The offset in the register file of the register called `name`.
pub open spec fn offset_of(name: Seq<char>) -> Option<usize> {
    if name == "ip"@ {
        Some(IP)
    } else if name == "acc"@ {
        Some(ACC)
    } else if name == "r1"@ {
        Some(R1)
    } else if name == "r2"@ {
        Some(R2)
    } else if name == "r3"@ {
        Some(R3)
    } else if name == "r4"@ {
        Some(R4)
    } else if name == "r5"@ {
        Some(R5)
    } else if name == "r6"@ {
        Some(R6)
    } else if name == "r7"@ {
        Some(R7)
    } else if name == "r8"@ {
        Some(R8)
    } else if name == "sp"@ {
        Some(SP)
    } else if name == "fp"@ {
        Some(FP)
    } else {
        None
    }
}

/// Each of the twelve names has its own register, in the order `ip`, `acc`,
/// `r1` to `r8`, `sp`, `fp`.
pub proof fn lemma_register_offsets()
    ensures
        offset_of("ip"@) == Some(IP),
        offset_of("acc"@) == Some(ACC),
        offset_of("r1"@) == Some(R1),
        offset_of("r2"@) == Some(R2),
        offset_of("r3"@) == Some(R3),
        offset_of("r4"@) == Some(R4),
        offset_of("r5"@) == Some(R5),
        offset_of("r6"@) == Some(R6),
        offset_of("r7"@) == Some(R7),
        offset_of("r8"@) == Some(R8),
        offset_of("sp"@) == Some(SP),
        offset_of("fp"@) == Some(FP),
{
    reveal_strlit("ip");
    reveal_strlit("acc");
    reveal_strlit("r1");
    reveal_strlit("r2");
    reveal_strlit("r3");
    reveal_strlit("r4");
    reveal_strlit("r5");
    reveal_strlit("r6");
    reveal_strlit("r7");
    reveal_strlit("r8");
    reveal_strlit("sp");
    reveal_strlit("fp");
    let names = seq![
        "ip"@,
        "acc"@,
        "r1"@,
        "r2"@,
        "r3"@,
        "r4"@,
        "r5"@,
        "r6"@,
        "r7"@,
        "r8"@,
        "sp"@,
        "fp"@,
    ];
    assert forall|i: int, j: int| 0 <= i < j < 12 implies #[trigger] names[i] != #[trigger] names[j] by {
        if names[i].len() == names[j].len() {
            assert(names[i][0] != names[j][0] || names[i][1] != names[j][1]);
        }
    }
    assert(names[0] == "ip"@ && names[1] == "acc"@ && names[2] == "r1"@ && names[3] == "r2"@);
    assert(names[4] == "r3"@ && names[5] == "r4"@ && names[6] == "r5"@ && names[7] == "r6"@);
    assert(names[8] == "r7"@ && names[9] == "r8"@ && names[10] == "sp"@ && names[11] == "fp"@);
}

/// Whether `offset` is where a register starts in the register file.
pub open spec fn is_register_offset(offset: usize) -> bool {
    offset % 2 == 0 && offset < REGISTER_FILE_SIZE
}

/// The offset of the register that the operand byte `byte` stands for: the
/// byte is reduced modulo the number of registers, so that every byte
/// stands for one.
pub open spec fn operand_offset(byte: u8) -> usize {
    (2 * (byte as int % 12)) as usize
}

/// The offset in the register file of the register called `name`, if there
/// is one.
pub fn register_offset(name: &str) -> (offset: Option<usize>)
    ensures
        offset == offset_of(name@),
        offset matches Some(o) ==> is_register_offset(o),
{
    let chars = characters(name);
    let chars = chars.as_slice();
    if spells(chars, "ip") {
        Some(IP)
    } else if spells(chars, "acc") {
        Some(ACC)
    } else if spells(chars, "r1") {
        Some(R1)
    } else if spells(chars, "r2") {
        Some(R2)
    } else if spells(chars, "r3") {
        Some(R3)
    } else if spells(chars, "r4") {
        Some(R4)
    } else if spells(chars, "r5") {
        Some(R5)
    } else if spells(chars, "r6") {
        Some(R6)
    } else if spells(chars, "r7") {
        Some(R7)
    } else if spells(chars, "r8") {
        Some(R8)
    } else if spells(chars, "sp") {
        Some(SP)
    } else if spells(chars, "fp") {
        Some(FP)
    } else {
        None
    }
}

/// The state of the processor: the bytes of the register file, the mapped
/// regions, and the number of bytes pushed since the current stack frame
/// began.
pub struct Machine {
    pub registers: Seq<u8>,
    pub memory: Seq<RegionState>,
    pub stack_frame_size: u16,
}

impl Machine {
    /// The register file holds two bytes for each register.
    pub open spec fn wf(self) -> bool {
        self.registers.len() == REGISTER_FILE_SIZE
    }

    /// The state in which a processor starts on `memory`: the stack and the
    /// frame pointer at the start of the stack, everything else zero.
    pub open spec fn initial(memory: Seq<RegionState>) -> Machine {
        Machine {
            registers: Seq::new(REGISTER_FILE_SIZE as nat, |i: int| 0u8),
            memory,
            stack_frame_size: 0,
        }.with_register(SP, STACK_START).with_register(FP, STACK_START)
    }

    /// The value of the register at `offset`: its two bytes, high byte
    /// first.
    pub open spec fn register(self, offset: usize) -> u16 {
        word_of(self.registers[offset as int], self.registers[offset + 1])
    }

    /// The state with the register at `offset` set to `value`.
    pub open spec fn with_register(self, offset: usize, value: u16) -> Machine {
        Machine {
            registers: write_word(self.registers, offset, value).0,
            memory: self.memory,
            stack_frame_size: self.stack_frame_size,
        }
    }

    /// The state with other contents of the mapped regions.
    pub open spec fn with_memory(self, memory: Seq<RegionState>) -> Machine {
        Machine { registers: self.registers, memory, stack_frame_size: self.stack_frame_size }
    }

    /// The state with another stack frame size.
    pub open spec fn with_frame_size(self, stack_frame_size: u16) -> Machine {
        Machine { registers: self.registers, memory: self.memory, stack_frame_size }
    }

    /// What `get_register` returns for `name`.
    pub open spec fn get_register(self, name: Seq<char>) -> Result<u16, Fault> {
        match offset_of(name) {
            Some(offset) => Ok(self.register(offset)),
            None => Err(Fault::UnknownRegister),
        }
    }

    /// The state after `set_register`, and what it returns.
    pub open spec fn set_register(
        self,
        name: Seq<char>,
        value: u16,
    ) -> (Machine, Result<(), Fault>) {
        match offset_of(name) {
            Some(offset) => (self.with_register(offset, value), Ok(())),
            None => (self, Err(Fault::UnknownRegister)),
        }
    }

    /// The state after `fetch`, and what it returns: the byte at the
    /// instruction pointer, which then points one byte further. Where the
    /// byte cannot be read nothing changes.
    pub open spec fn fetch(self) -> (Machine, Result<u8, Fault>) {
        let address = self.register(IP);
        match read_u8(self.memory, address) {
            Ok(byte) => (self.with_register(IP, address.wrapping_add(1)), Ok(byte)),
            Err(fault) => (self, Err(fault)),
        }
    }

    /// The state after `fetch16`, and what it returns: the word at the
    /// instruction pointer, which then points two bytes further. Where the
    /// word cannot be read nothing changes.
    pub open spec fn fetch16(self) -> (Machine, Result<u16, Fault>) {
        let address = self.register(IP);
        match read_u16(self.memory, address) {
            Ok(word) => (self.with_register(IP, address.wrapping_add(2)), Ok(word)),
            Err(fault) => (self, Err(fault)),
        }
    }

    /// The state after `fetch_register_index`, and what it returns: the
    /// offset of the register that the fetched byte stands for.
    pub open spec fn fetch_register_index(self) -> (Machine, Result<usize, Fault>) {
        let (after, fetched) = self.fetch();
        match fetched {
            Ok(byte) => (after, Ok(operand_offset(byte))),
            Err(fault) => (after, Err(fault)),
        }
    }

    /// The state after `push`, and what it returns: the word is written at
    /// the stack pointer, which then moves down by two, and the frame grows
    /// by two. Where the write fails only the memory may have changed.
    pub open spec fn push(self, value: u16) -> (Machine, Result<(), Fault>) {
        let address = self.register(SP);
        let (memory, written) = write_u16(self.memory, address, value);
        match written {
            Ok(()) => (
                self.with_memory(memory).with_register(SP, address.wrapping_sub(2)).with_frame_size(
                    self.stack_frame_size.wrapping_add(2),
                ),
                Ok(()),
            ),
            Err(fault) => (self.with_memory(memory), Err(fault)),
        }
    }

    /// The state after `pop`, and what it returns: the stack pointer moves
    /// up by two, the frame shrinks by two, and the word that the stack
    /// pointer then points to is read.
    pub open spec fn pop(self) -> (Machine, Result<u16, Fault>) {
        let address = self.register(SP).wrapping_add(2);
        (
            self.with_register(SP, address).with_frame_size(self.stack_frame_size.wrapping_sub(2)),
            read_u16(self.memory, address),
        )
    }

    /// The state after the value of the register at `offset` is pushed, and
    /// what the push returns. Nothing is done after a failure.
    pub open spec fn then_push_register(
        before: (Machine, Result<(), Fault>),
        offset: usize,
    ) -> (Machine, Result<(), Fault>) {
        match before.1 {
            Ok(()) => before.0.push(before.0.register(offset)),
            Err(_) => before,
        }
    }

    /// The state after a word is popped into the register at `offset`, and
    /// what that returns. Nothing is done after a failure.
    pub open spec fn then_pop_register(
        before: (Machine, Result<(), Fault>),
        offset: usize,
    ) -> (Machine, Result<(), Fault>) {
        match before.1 {
            Ok(()) => {
                let (after, popped) = before.0.pop();
                match popped {
                    Ok(value) => (after.with_register(offset, value), Ok(())),
                    Err(fault) => (after, Err(fault)),
                }
            },
            Err(_) => before,
        }
    }

    /// The state after `count` words are popped and dropped, and what that
    /// returns. It ends at the first pop that fails.
    pub open spec fn discard(self, count: nat) -> (Machine, Result<(), Fault>)
        decreases count,
    {
        if count == 0 {
            (self, Ok(()))
        } else {
            let (after, popped) = self.pop();
            match popped {
                Ok(_) => after.discard((count - 1) as nat),
                Err(fault) => (after, Err(fault)),
            }
        }
    }

    /// The state after `push_state`, and what it returns: `r1` to `r8`, the
    /// instruction pointer and then the size of the frame, the ten words
    /// included, are pushed; a new frame begins where the stack pointer then
    /// is. It ends at the first push that fails.
    pub open spec fn push_state(self) -> (Machine, Result<(), Fault>) {
        let saved = Self::then_push_register((self, Ok(())), R1);
        let saved = Self::then_push_register(saved, R2);
        let saved = Self::then_push_register(saved, R3);
        let saved = Self::then_push_register(saved, R4);
        let saved = Self::then_push_register(saved, R5);
        let saved = Self::then_push_register(saved, R6);
        let saved = Self::then_push_register(saved, R7);
        let saved = Self::then_push_register(saved, R8);
        let saved = Self::then_push_register(saved, IP);
        match saved.1 {
            Ok(()) => {
                let (framed, pushed) = saved.0.push(saved.0.stack_frame_size.wrapping_add(2));
                match pushed {
                    Ok(()) => (
                        framed.with_register(FP, framed.register(SP)).with_frame_size(0),
                        Ok(()),
                    ),
                    Err(fault) => (framed, Err(fault)),
                }
            },
            Err(_) => saved,
        }
    }

    /// The state after `pop_state`, and what it returns. The stack pointer
    /// goes back to the frame pointer; the size of the frame is popped, then
    /// the instruction pointer and `r8` down to `r1`, then the number of
    /// arguments and that many words, which are dropped; the frame pointer
    /// moves up by the size of the frame. It ends at the first pop that
    /// fails.
    pub open spec fn pop_state(self) -> (Machine, Result<(), Fault>) {
        let frame_pointer = self.register(FP);
        let (unwound, popped) = self.with_register(SP, frame_pointer).pop();
        match popped {
            Ok(frame_size) => {
                let restored = Self::then_pop_register(
                    (unwound.with_frame_size(frame_size), Ok(())),
                    IP,
                );
                let restored = Self::then_pop_register(restored, R8);
                let restored = Self::then_pop_register(restored, R7);
                let restored = Self::then_pop_register(restored, R6);
                let restored = Self::then_pop_register(restored, R5);
                let restored = Self::then_pop_register(restored, R4);
                let restored = Self::then_pop_register(restored, R3);
                let restored = Self::then_pop_register(restored, R2);
                let restored = Self::then_pop_register(restored, R1);
                match restored.1 {
                    Ok(()) => {
                        let (counted, arguments) = restored.0.pop();
                        match arguments {
                            Ok(count) => {
                                let (dropped, result) = counted.discard(count as nat);
                                match result {
                                    Ok(()) => (
                                        dropped.with_register(
                                            FP,
                                            frame_pointer.wrapping_add(frame_size),
                                        ),
                                        Ok(()),
                                    ),
                                    Err(fault) => (dropped, Err(fault)),
                                }
                            },
                            Err(fault) => (counted, Err(fault)),
                        }
                    },
                    Err(_) => restored,
                }
            },
            Err(fault) => (unwound, Err(fault)),
        }
    }

    /// Move a literal into a register: a word, then the register.
    pub open spec fn mov_lit_reg(self) -> (Machine, Result<bool, Fault>) {
        let (one, literal) = self.fetch16();
        match literal {
            Ok(literal) => {
                let (two, register) = one.fetch_register_index();
                match register {
                    Ok(register) => (two.with_register(register, literal), Ok(false)),
                    Err(fault) => (two, Err(fault)),
                }
            },
            Err(fault) => (one, Err(fault)),
        }
    }

    /// Move a register into a register: the source, then the destination.
    pub open spec fn mov_reg_reg(self) -> (Machine, Result<bool, Fault>) {
        let (one, from) = self.fetch_register_index();
        match from {
            Ok(from) => {
                let (two, to) = one.fetch_register_index();
                match to {
                    Ok(to) => (two.with_register(to, two.register(from)), Ok(false)),
                    Err(fault) => (two, Err(fault)),
                }
            },
            Err(fault) => (one, Err(fault)),
        }
    }

    /// Move a register into memory: the register, then the address.
    pub open spec fn mov_reg_mem(self) -> (Machine, Result<bool, Fault>) {
        let (one, register) = self.fetch_register_index();
        match register {
            Ok(register) => {
                let (two, address) = one.fetch16();
                match address {
                    Ok(address) => {
                        let (memory, written) = write_u16(two.memory, address, two.register(register));
                        match written {
                            Ok(()) => (two.with_memory(memory), Ok(false)),
                            Err(fault) => (two.with_memory(memory), Err(fault)),
                        }
                    },
                    Err(fault) => (two, Err(fault)),
                }
            },
            Err(fault) => (one, Err(fault)),
        }
    }

    /// Move memory into a register: the address, then the register.
    pub open spec fn mov_mem_reg(self) -> (Machine, Result<bool, Fault>) {
        let (one, address) = self.fetch16();
        match address {
            Ok(address) => {
                let (two, register) = one.fetch_register_index();
                match register {
                    Ok(register) => match read_u16(two.memory, address) {
                        Ok(value) => (two.with_register(register, value), Ok(false)),
                        Err(fault) => (two, Err(fault)),
                    },
                    Err(fault) => (two, Err(fault)),
                }
            },
            Err(fault) => (one, Err(fault)),
        }
    }

    /// Add two registers into the accumulator; the sum wraps at 16 bits.
    pub open spec fn add_reg_reg(self) -> (Machine, Result<bool, Fault>) {
        let (one, first) = self.fetch_register_index();
        match first {
            Ok(first) => {
                let (two, second) = one.fetch_register_index();
                match second {
                    Ok(second) => (
                        two.with_register(ACC, two.register(first).wrapping_add(two.register(second))),
                        Ok(false),
                    ),
                    Err(fault) => (two, Err(fault)),
                }
            },
            Err(fault) => (one, Err(fault)),
        }
    }

    /// Jump to an address unless a literal equals the accumulator: the
    /// literal, then the address.
    pub open spec fn jmp_not_eq(self) -> (Machine, Result<bool, Fault>) {
        let (one, literal) = self.fetch16();
        match literal {
            Ok(literal) => {
                let (two, address) = one.fetch16();
                match address {
                    Ok(address) => if literal != two.register(ACC) {
                        (two.with_register(IP, address), Ok(false))
                    } else {
                        (two, Ok(false))
                    },
                    Err(fault) => (two, Err(fault)),
                }
            },
            Err(fault) => (one, Err(fault)),
        }
    }

    /// Push a literal.
    pub open spec fn psh_lit(self) -> (Machine, Result<bool, Fault>) {
        let (one, literal) = self.fetch16();
        match literal {
            Ok(literal) => {
                let (two, pushed) = one.push(literal);
                match pushed {
                    Ok(()) => (two, Ok(false)),
                    Err(fault) => (two, Err(fault)),
                }
            },
            Err(fault) => (one, Err(fault)),
        }
    }

    /// Push a register.
    pub open spec fn psh_reg(self) -> (Machine, Result<bool, Fault>) {
        let (one, register) = self.fetch_register_index();
        match register {
            Ok(register) => {
                let (two, pushed) = one.push(one.register(register));
                match pushed {
                    Ok(()) => (two, Ok(false)),
                    Err(fault) => (two, Err(fault)),
                }
            },
            Err(fault) => (one, Err(fault)),
        }
    }

    /// Pop into a register.
    pub open spec fn pop_reg(self) -> (Machine, Result<bool, Fault>) {
        let (one, register) = self.fetch_register_index();
        match register {
            Ok(register) => {
                let (two, popped) = one.pop();
                match popped {
                    Ok(value) => (two.with_register(register, value), Ok(false)),
                    Err(fault) => (two, Err(fault)),
                }
            },
            Err(fault) => (one, Err(fault)),
        }
    }

    /// Save the state and go on at `address`.
    pub open spec fn call(self, address: u16) -> (Machine, Result<bool, Fault>) {
        let (saved, result) = self.push_state();
        match result {
            Ok(()) => (saved.with_register(IP, address), Ok(false)),
            Err(fault) => (saved, Err(fault)),
        }
    }

    /// Call the routine at a literal address.
    pub open spec fn cal_lit(self) -> (Machine, Result<bool, Fault>) {
        let (one, address) = self.fetch16();
        match address {
            Ok(address) => one.call(address),
            Err(fault) => (one, Err(fault)),
        }
    }

    /// Call the routine at the address that a register holds.
    pub open spec fn cal_reg(self) -> (Machine, Result<bool, Fault>) {
        let (one, register) = self.fetch_register_index();
        match register {
            Ok(register) => one.call(one.register(register)),
            Err(fault) => (one, Err(fault)),
        }
    }

    /// Return from a routine.
    pub open spec fn ret(self) -> (Machine, Result<bool, Fault>) {
        let (restored, result) = self.pop_state();
        match result {
            Ok(()) => (restored, Ok(false)),
            Err(fault) => (restored, Err(fault)),
        }
    }

    /// The state after `execute`, and what it returns: whether the processor
    /// is to halt. An opcode that the processor does not carry out changes
    /// nothing.
    pub open spec fn execute(self, instruction: u8) -> (Machine, Result<bool, Fault>) {
        if instruction == instructions::MOV_LIT_REG {
            self.mov_lit_reg()
        } else if instruction == instructions::MOV_REG_REG {
            self.mov_reg_reg()
        } else if instruction == instructions::MOV_REG_MEM {
            self.mov_reg_mem()
        } else if instruction == instructions::MOV_MEM_REG {
            self.mov_mem_reg()
        } else if instruction == instructions::ADD_REG_REG {
            self.add_reg_reg()
        } else if instruction == instructions::JMP_NOT_EQ {
            self.jmp_not_eq()
        } else if instruction == instructions::PSH_LIT {
            self.psh_lit()
        } else if instruction == instructions::PSH_REG {
            self.psh_reg()
        } else if instruction == instructions::POP {
            self.pop_reg()
        } else if instruction == instructions::CAL_LIT {
            self.cal_lit()
        } else if instruction == instructions::CAL_REG {
            self.cal_reg()
        } else if instruction == instructions::RET {
            self.ret()
        } else if instruction == instructions::HLT {
            (self, Ok(true))
        } else {
            (self, Ok(false))
        }
    }

    /// The state after `step`, and what it returns: an opcode is fetched and
    /// executed.
    pub open spec fn step(self) -> (Machine, Result<bool, Fault>) {
        let (fetched, instruction) = self.fetch();
        match instruction {
            Ok(instruction) => fetched.execute(instruction),
            Err(fault) => (fetched, Err(fault)),
        }
    }

    /// The state after `run` with room for `steps` steps, and what it
    /// returns. It ends at the first step that halts or fails, and after
    /// `steps` steps if none did.
    pub open spec fn run(self, steps: nat) -> (Machine, Result<bool, Fault>)
        decreases steps,
    {
        if steps == 0 {
            (self, Ok(false))
        } else {
            let (after, result) = self.step();
            match result {
                Ok(false) => after.run((steps - 1) as nat),
                _ => (after, result),
            }
        }
    }

    /// The byte that is shown for `address`: what is read there, and zero
    /// where nothing can be read or the address lies beyond the address
    /// space.
    pub open spec fn shown_byte(self, address: int) -> u8 {
        if 0 <= address <= u16::MAX {
            match read_u8(self.memory, address as u16) {
                Ok(byte) => byte,
                Err(_) => 0,
            }
        } else {
            0
        }
    }
}

/// Setting a register keeps the register file at its size, and the register
/// then holds the value.
pub proof fn lemma_with_register(machine: Machine, offset: usize, value: u16)
    requires
        machine.wf(),
        is_register_offset(offset),
    ensures
        machine.with_register(offset, value).wf(),
        machine.with_register(offset, value).register(offset) == value,
        forall|other: usize|
            is_register_offset(other) && other != offset ==> #[trigger] machine.with_register(
                offset,
                value,
            ).register(other) == machine.register(other),
{
    lemma_word_bytes(value, 0, 0);
}

/// A processor starts with the stack pointer and the frame pointer at the
/// start of the stack, with zero in every other register and with a frame
/// of size zero.
pub proof fn lemma_initial(memory: Seq<RegionState>)
    ensures
        Machine::initial(memory).wf(),
        Machine::initial(memory).memory == memory,
        Machine::initial(memory).stack_frame_size == 0,
        Machine::initial(memory).register(SP) == STACK_START,
        Machine::initial(memory).register(FP) == STACK_START,
        forall|offset: usize|
            is_register_offset(offset) && offset != SP && offset != FP
                ==> #[trigger] Machine::initial(memory).register(offset) == 0,
{
    let blank = Machine {
        registers: Seq::new(REGISTER_FILE_SIZE as nat, |i: int| 0u8),
        memory,
        stack_frame_size: 0,
    };
    lemma_with_register(blank, SP, STACK_START);
    lemma_with_register(blank.with_register(SP, STACK_START), FP, STACK_START);
    assert forall|offset: usize|
        is_register_offset(offset) && offset != SP && offset
            != FP implies #[trigger] Machine::initial(memory).register(offset) == 0 by {
        assert(blank.register(offset) == 0);
        assert(blank.with_register(SP, STACK_START).register(offset) == blank.register(offset));
    }
}

/// A register that was set by its name is read back by that name.
pub proof fn lemma_register_round_trip(machine: Machine, name: Seq<char>, value: u16)
    requires
        machine.wf(),
        offset_of(name) is Some,
    ensures
        machine.set_register(name, value).1 is Ok,
        machine.set_register(name, value).0.get_register(name) == Ok::<u16, Fault>(value),
        machine.set_register(name, value).0.wf(),
{
    lemma_with_register(machine, offset_of(name)->0, value);
}

/// The number of bytes that are shown where `num_bytes` are asked for:
/// eight where no number is given, and one at least.
pub open spec fn shown_count(num_bytes: Option<usize>) -> nat {
    match num_bytes {
        Some(n) => if n == 0 {
            1
        } else {
            n as nat
        },
        None => 8,
    }
}

/// The processor.
pub struct CPU {
    memory: MemoryMapper,
    registers: [u8; 24],
    stack_frame_size: u16,
}

impl View for CPU {
    type V = Machine;

    closed spec fn view(&self) -> Machine {
        Machine {
            registers: self.registers@,
            memory: self.memory@,
            stack_frame_size: self.stack_frame_size,
        }
    }
}

impl CPU {
    /// Creates a processor on the given memory.
    pub fn new(memory: MemoryMapper) -> (result: Result<CPU, Fault>)
        ensures
            result matches Ok(cpu) && cpu@ == Machine::initial(memory@),
            Machine::initial(memory@).wf(),
    {
        proof {
            lemma_initial(memory@);
        }
        let mut cpu = CPU { memory, registers: [0u8; 24], stack_frame_size: 0 };
        assert(cpu@.registers =~= Seq::new(REGISTER_FILE_SIZE as nat, |i: int| 0u8));
        cpu.write_register(SP, STACK_START);
        cpu.write_register(FP, STACK_START);
        Ok(cpu)
    }

    /// The value of the register at `offset` of the register file.
    fn read_register(&self, offset: usize) -> (value: u16)
        requires
            is_register_offset(offset),
        ensures
            value == self@.register(offset),
            self@.wf(),
    {
        join_bytes(self.registers[offset], self.registers[offset + 1])
    }

    /// Sets the register at `offset` of the register file to `value`.
    fn write_register(&mut self, offset: usize, value: u16)
        requires
            is_register_offset(offset),
        ensures
            final(self)@ == old(self)@.with_register(offset, value),
            final(self)@.wf(),
    {
        let (high, low) = split_word(value);
        self.registers[offset] = high;
        self.registers[offset + 1] = low;
        assert(final(self)@.registers =~= write_word(old(self)@.registers, offset, value).0);
    }

    /// Gets the value in the register called `name`.
    pub fn get_register(&self, name: &str) -> (result: Result<u16, Fault>)
        ensures
            result == self@.get_register(name@),
            self@.wf(),
    {
        match register_offset(name) {
            Some(offset) => Ok(self.read_register(offset)),
            None => Err(Fault::UnknownRegister),
        }
    }

    /// Sets the register called `name` to `value`.
    pub fn set_register(&mut self, name: &str, value: u16) -> (result: Result<(), Fault>)
        ensures
            final(self)@ == old(self)@.set_register(name@, value).0,
            result == old(self)@.set_register(name@, value).1,
            final(self)@.wf(),
    {
        match register_offset(name) {
            Some(offset) => {
                self.write_register(offset, value);
                Ok(())
            },
            None => Err(Fault::UnknownRegister),
        }
    }

    /// Fetches the byte at the instruction pointer and moves the instruction
    /// pointer past it.
    pub fn fetch(&mut self) -> (result: Result<u8, Fault>)
        ensures
            final(self)@ == old(self)@.fetch().0,
            result == old(self)@.fetch().1,
            result is Ok ==> final(self)@.register(IP) == old(self)@.register(IP).wrapping_add(1),
            final(self)@.wf(),
    {
        let address = self.read_register(IP);
        let byte = self.memory.get_u8(address)?;
        self.write_register(IP, address.wrapping_add(1));
        proof {
            lemma_with_register(old(self)@, IP, address.wrapping_add(1));
        }
        Ok(byte)
    }

    /// Fetches the word at the instruction pointer and moves the instruction
    /// pointer past it.
    pub fn fetch16(&mut self) -> (result: Result<u16, Fault>)
        ensures
            final(self)@ == old(self)@.fetch16().0,
            result == old(self)@.fetch16().1,
            result is Ok ==> final(self)@.register(IP) == old(self)@.register(IP).wrapping_add(2),
            final(self)@.wf(),
    {
        let address = self.read_register(IP);
        let word = self.memory.get_u16(address)?;
        self.write_register(IP, address.wrapping_add(2));
        proof {
            lemma_with_register(old(self)@, IP, address.wrapping_add(2));
        }
        Ok(word)
    }

    /// Fetches a byte that stands for a register and returns the offset of
    /// that register in the register file: twice the byte modulo twelve.
    pub fn fetch_register_index(&mut self) -> (result: Result<usize, Fault>)
        ensures
            final(self)@ == old(self)@.fetch_register_index().0,
            result == old(self)@.fetch_register_index().1,
            result matches Ok(offset) ==> is_register_offset(offset),
            old(self)@.fetch().1 matches Ok(byte) ==> result matches Ok(offset) && offset == 2 * (byte
                as int % 12),
            final(self)@.wf(),
    {
        let byte = self.fetch()?;
        Ok((byte as usize % REGISTER_COUNT) * 2)
    }

    /// Pushes `value` onto the stack and moves the stack pointer down.
    pub fn push(&mut self, value: u16) -> (result: Result<(), Fault>)
        ensures
            final(self)@ == old(self)@.push(value).0,
            result == old(self)@.push(value).1,
            final(self)@.wf(),
    {
        let address = self.read_register(SP);
        self.memory.set_u16(address, value)?;
        self.write_register(SP, address.wrapping_sub(2));
        self.stack_frame_size = self.stack_frame_size.wrapping_add(2);
        Ok(())
    }

    /// Moves the stack pointer up and returns the word that it then points
    /// to.
    pub fn pop(&mut self) -> (result: Result<u16, Fault>)
        ensures
            final(self)@ == old(self)@.pop().0,
            result == old(self)@.pop().1,
            final(self)@.wf(),
    {
        let address = self.read_register(SP).wrapping_add(2);
        self.write_register(SP, address);
        self.stack_frame_size = self.stack_frame_size.wrapping_sub(2);
        self.memory.get_u16(address)
    }

    /// Pushes the value of the register at `offset`.
    fn push_register(&mut self, offset: usize) -> (result: Result<(), Fault>)
        requires
            is_register_offset(offset),
        ensures
            (final(self)@, result) == Machine::then_push_register((old(self)@, Ok(())), offset),
            final(self)@.wf(),
    {
        let value = self.read_register(offset);
        self.push(value)
    }

    /// Pops a word into the register at `offset`.
    fn pop_register(&mut self, offset: usize) -> (result: Result<(), Fault>)
        requires
            is_register_offset(offset),
        ensures
            (final(self)@, result) == Machine::then_pop_register((old(self)@, Ok(())), offset),
            final(self)@.wf(),
    {
        let value = self.pop()?;
        self.write_register(offset, value);
        Ok(())
    }

    /// Pushes the state of the processor onto the stack and begins a new
    /// stack frame.
    pub fn push_state(&mut self) -> (result: Result<(), Fault>)
        ensures
            final(self)@ == old(self)@.push_state().0,
            result == old(self)@.push_state().1,
            final(self)@.wf(),
    {
        self.push_register(R1)?;
        self.push_register(R2)?;
        self.push_register(R3)?;
        self.push_register(R4)?;
        self.push_register(R5)?;
        self.push_register(R6)?;
        self.push_register(R7)?;
        self.push_register(R8)?;
        self.push_register(IP)?;
        self.push(self.stack_frame_size.wrapping_add(2))?;
        let frame_pointer = self.read_register(SP);
        self.write_register(FP, frame_pointer);
        self.stack_frame_size = 0;
        Ok(())
    }

    /// Pops the state of the processor from the stack and goes back to the
    /// stack frame of the caller.
    #[verifier::loop_isolation(false)]
    pub fn pop_state(&mut self) -> (result: Result<(), Fault>)
        ensures
            final(self)@ == old(self)@.pop_state().0,
            result == old(self)@.pop_state().1,
            final(self)@.wf(),
    {
        let frame_pointer = self.read_register(FP);
        self.write_register(SP, frame_pointer);
        let frame_size = self.pop()?;
        self.stack_frame_size = frame_size;
        self.pop_register(IP)?;
        self.pop_register(R8)?;
        self.pop_register(R7)?;
        self.pop_register(R6)?;
        self.pop_register(R5)?;
        self.pop_register(R4)?;
        self.pop_register(R3)?;
        self.pop_register(R2)?;
        self.pop_register(R1)?;
        let count = self.pop()?;
        let ghost counted = self@;
        let mut dropped: u16 = 0;
        while dropped < count
            invariant
                dropped <= count,
                self@.wf(),
                self@.discard((count - dropped) as nat) == counted.discard(count as nat),
            decreases count - dropped,
        {
            match self.pop() {
                Ok(_) => {},
                Err(fault) => {
                    return Err(fault);
                },
            }
            dropped += 1;
        }
        self.write_register(FP, frame_pointer.wrapping_add(frame_size));
        Ok(())
    }

    /// Executes the given instruction. Returns true if the processor should
    /// halt.
    pub fn execute(&mut self, instruction: u8) -> (result: Result<bool, Fault>)
        ensures
            final(self)@ == old(self)@.execute(instruction).0,
            result == old(self)@.execute(instruction).1,
            final(self)@.wf(),
    {
        if instruction == instructions::MOV_LIT_REG {
            let literal = self.fetch16()?;
            let register = self.fetch_register_index()?;
            self.write_register(register, literal);
        } else if instruction == instructions::MOV_REG_REG {
            let register_from = self.fetch_register_index()?;
            let register_to = self.fetch_register_index()?;
            let value = self.read_register(register_from);
            self.write_register(register_to, value);
        } else if instruction == instructions::MOV_REG_MEM {
            let register = self.fetch_register_index()?;
            let address = self.fetch16()?;
            let value = self.read_register(register);
            self.memory.set_u16(address, value)?;
        } else if instruction == instructions::MOV_MEM_REG {
            let address = self.fetch16()?;
            let register_to = self.fetch_register_index()?;
            let value = self.memory.get_u16(address)?;
            self.write_register(register_to, value);
        } else if instruction == instructions::ADD_REG_REG {
            let register1 = self.fetch_register_index()?;
            let register2 = self.fetch_register_index()?;
            let value1 = self.read_register(register1);
            let value2 = self.read_register(register2);
            self.write_register(ACC, value1.wrapping_add(value2));
        } else if instruction == instructions::JMP_NOT_EQ {
            let literal = self.fetch16()?;
            let address = self.fetch16()?;
            if literal != self.read_register(ACC) {
                self.write_register(IP, address);
            }
        } else if instruction == instructions::PSH_LIT {
            let literal = self.fetch16()?;
            self.push(literal)?;
        } else if instruction == instructions::PSH_REG {
            let register = self.fetch_register_index()?;
            let value = self.read_register(register);
            self.push(value)?;
        } else if instruction == instructions::POP {
            let register = self.fetch_register_index()?;
            let value = self.pop()?;
            self.write_register(register, value);
        } else if instruction == instructions::CAL_LIT {
            let address = self.fetch16()?;
            self.push_state()?;
            self.write_register(IP, address);
        } else if instruction == instructions::CAL_REG {
            let register = self.fetch_register_index()?;
            let address = self.read_register(register);
            self.push_state()?;
            self.write_register(IP, address);
        } else if instruction == instructions::RET {
            self.pop_state()?;
        } else if instruction == instructions::HLT {
            return Ok(true);
        }
        Ok(false)
    }

    /// Executes the next instruction. Returns true if the processor should
    /// halt.
    pub fn step(&mut self) -> (result: Result<bool, Fault>)
        ensures
            final(self)@ == old(self)@.step().0,
            result == old(self)@.step().1,
            final(self)@.wf(),
    {
        let instruction = self.fetch()?;
        self.execute(instruction)
    }

    /// Runs the processor until an instruction halts it or fails, for at
    /// most `max_steps` steps. Returns true if the processor has halted and
    /// false if the steps ran out first.
    pub fn run(&mut self, max_steps: usize) -> (result: Result<bool, Fault>)
        ensures
            final(self)@ == old(self)@.run(max_steps as nat).0,
            result == old(self)@.run(max_steps as nat).1,
            final(self)@.wf(),
    {
        let mut steps: usize = 0;
        while steps < max_steps
            invariant
                steps <= max_steps,
                self@.wf(),
                self@.run((max_steps - steps) as nat) == old(self)@.run(max_steps as nat),
            decreases max_steps - steps,
        {
            let halt = self.step()?;
            if halt {
                return Ok(true);
            }
            steps += 1;
        }
        Ok(false)
    }

    /// The bytes in memory from `address` on: as many as `num_bytes` says,
    /// eight where it says nothing, and one at least. A byte that cannot
    /// be read is given as zero.
    pub fn view_memory_at(&mut self, address: u16, num_bytes: Option<usize>) -> (bytes: Vec<u8>)
        ensures
            final(self)@ == old(self)@,
            bytes@.len() == shown_count(num_bytes),
            forall|i: int| 0 <= i < bytes@.len() ==> bytes@[i] == old(self)@.shown_byte(address + i),
    {
        let count: usize = match num_bytes {
            Some(0) => 1,
            Some(n) => n,
            None => 8,
        };
        let mut bytes: Vec<u8> = Vec::new();
        let mut i: usize = 0;
        while i < count
            invariant
                i <= count,
                bytes@.len() == i,
                self@ == old(self)@,
                forall|k: int| 0 <= k < i ==> bytes@[k] == old(self)@.shown_byte(address + k),
            decreases count - i,
        {
            let byte: u8 = if i <= (u16::MAX - address) as usize {
                match self.memory.get_u8(address + i as u16) {
                    Ok(byte) => byte,
                    Err(_) => 0,
                }
            } else {
                0
            };
            bytes.push(byte);
            i += 1;
        }
        bytes
    }

    /// Hands out the bytes that the mapped screens have yet to send to the
    /// terminal and forgets them.
    pub fn take_output(&mut self) -> (output: Vec<u8>)
        ensures
            output@ == pending_output(old(self)@.memory, old(self)@.memory.len() as int),
            final(self)@ == old(self)@.with_memory(all_sent(old(self)@.memory)),
            final(self)@.wf(),
    {
        self.memory.take_output()
    }
}

} // verus!
