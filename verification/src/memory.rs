//! A flat buffer of bytes.

use vstd::prelude::*;
use crate::device::{Device, high_byte, join_bytes, low_byte, split_word, word_of, lemma_word_bytes};
use crate::fault::Fault;

verus! {

/// A buffer of bytes of fixed size, read and written by offset.
pub struct Memory {
    memory: Vec<u8>,
}

impl View for Memory {
    type V = Seq<u8>;

    closed spec fn view(&self) -> Seq<u8> {
        self.memory@
    }
}

/// What reading the byte at `address` of the bytes `bytes` returns.
pub open spec fn read_byte(bytes: Seq<u8>, address: usize) -> Result<u8, Fault> {
    if address < bytes.len() {
        Ok(bytes[address as int])
    } else {
        Err(Fault::OutOfRange { address })
    }
}

/// What reading the big-endian word at `address` of the bytes `bytes` returns.
pub open spec fn read_word(bytes: Seq<u8>, address: usize) -> Result<u16, Fault> {
    if address + 1 < bytes.len() {
        Ok(word_of(bytes[address as int], bytes[address + 1]))
    } else {
        Err(Fault::OutOfRange { address })
    }
}

/// The bytes after writing the byte `value` at `address`, and what the write returns.
pub open spec fn write_byte(
    bytes: Seq<u8>,
    address: usize,
    value: u8,
) -> (Seq<u8>, Result<(), Fault>) {
    if address < bytes.len() {
        (bytes.update(address as int, value), Ok(()))
    } else {
        (bytes, Err(Fault::OutOfRange { address }))
    }
}

/// The bytes after writing the word `value` at `address`, high byte first,
/// and what the write returns.
pub open spec fn write_word(
    bytes: Seq<u8>,
    address: usize,
    value: u16,
) -> (Seq<u8>, Result<(), Fault>) {
    if address + 1 < bytes.len() {
        (
            bytes.update(address as int, high_byte(value)).update(address + 1, low_byte(value)),
            Ok(()),
        )
    } else {
        (bytes, Err(Fault::OutOfRange { address }))
    }
}

/// A word that was written is read back at the same address, and a write
/// succeeds exactly where a read does.
pub proof fn lemma_memory_round_trip(bytes: Seq<u8>, address: usize, value: u16)
    ensures
        write_word(bytes, address, value).1 is Ok <==> address + 1 < bytes.len(),
        write_word(bytes, address, value).1 is Ok <==> read_word(bytes, address) is Ok,
        write_word(bytes, address, value).1 is Ok ==> read_word(
            write_word(bytes, address, value).0,
            address,
        ) == Ok::<u16, Fault>(value),
        write_word(bytes, address, value).0.len() == bytes.len(),
{
    lemma_word_bytes(value, 0, 0);
}

impl Memory {
    /// A memory of `size` bytes, all zero.
    pub fn new(size: usize) -> (memory: Memory)
        ensures
            memory@ == Seq::new(size as nat, |i: int| 0u8),
    {
        let memory = Memory { memory: vec![0u8; size] };
        assert(memory@ =~= Seq::new(size as nat, |i: int| 0u8));
        memory
    }
}

impl Device for Memory {
    open spec fn spec_get_u8(state: Seq<u8>, address: usize) -> Result<u8, Fault> {
        read_byte(state, address)
    }

    open spec fn spec_get_u16(state: Seq<u8>, address: usize) -> Result<u16, Fault> {
        read_word(state, address)
    }

    open spec fn spec_set_u8(
        state: Seq<u8>,
        address: usize,
        value: u8,
    ) -> (Seq<u8>, Result<(), Fault>) {
        write_byte(state, address, value)
    }

    open spec fn spec_set_u16(
        state: Seq<u8>,
        address: usize,
        value: u16,
    ) -> (Seq<u8>, Result<(), Fault>) {
        write_word(state, address, value)
    }

    fn get_u16(&self, address: usize) -> (result: Result<u16, Fault>) {
        if address < self.memory.len() && address + 1 < self.memory.len() {
            Ok(join_bytes(self.memory[address], self.memory[address + 1]))
        } else {
            Err(Fault::OutOfRange { address })
        }
    }

    fn get_u8(&self, address: usize) -> (result: Result<u8, Fault>) {
        if address < self.memory.len() {
            Ok(self.memory[address])
        } else {
            Err(Fault::OutOfRange { address })
        }
    }

    fn set_u16(&mut self, address: usize, value: u16) -> (result: Result<(), Fault>) {
        if address < self.memory.len() && address + 1 < self.memory.len() {
            let (high, low) = split_word(value);
            self.memory[address] = high;
            self.memory[address + 1] = low;
            Ok(())
        } else {
            Err(Fault::OutOfRange { address })
        }
    }

    fn set_u8(&mut self, address: usize, value: u8) -> (result: Result<(), Fault>) {
        if address < self.memory.len() {
            self.memory[address] = value;
            Ok(())
        } else {
            Err(Fault::OutOfRange { address })
        }
    }
}

} // verus!
