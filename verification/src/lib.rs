//! A 16-bit virtual machine and the front end of its assembler.
//!
//! The machine is a register-based, stack-oriented processor over a 64 KiB
//! address space whose accesses are dispatched to mapped devices. The
//! assembler front end turns assembly text into a tree of instructions.

pub mod fault;
pub mod text;
pub mod device;
pub mod memory;
pub mod screen_device;
pub mod memory_mapper;
pub mod instructions;
pub mod cpu;
pub mod stack_frame;
pub mod instruction_set;
pub mod assembler;
