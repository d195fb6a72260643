//! The interface that everything addressable by the machine offers.

use vstd::prelude::*;
use crate::fault::Fault;

verus! {

/// The 16-bit word whose high byte is `high` and whose low byte is `low`.
pub open spec fn word_of(high: u8, low: u8) -> u16 {
    (high as int * 256 + low as int) as u16
}

/// The high byte of `value`.
pub open spec fn high_byte(value: u16) -> u8 {
    (value / 256) as u8
}

/// The low byte of `value`.
pub open spec fn low_byte(value: u16) -> u8 {
    (value % 256) as u8
}

/// Splitting a word into its bytes and joining them again gives the word
/// back, and the other way round.
pub proof fn lemma_word_bytes(value: u16, high: u8, low: u8)
    ensures
        word_of(high_byte(value), low_byte(value)) == value,
        high_byte(word_of(high, low)) == high,
        low_byte(word_of(high, low)) == low,
{
}

/// The bytes of a word are its upper and its lower eight bits.
pub proof fn lemma_bytes_are_bits(value: u16)
    ensures
        high_byte(value) == (value >> 8) as u8,
        low_byte(value) == (value & 0xFF) as u8,
{
    assert(value / 256 == value >> 8) by (bit_vector);
    assert(value % 256 == value & 0xFF) by (bit_vector);
}

/// Joins two bytes into a big-endian word.
pub fn join_bytes(high: u8, low: u8) -> (value: u16)
    ensures
        value == word_of(high, low),
{
    (high as u16) * 256 + (low as u16)
}

/// Splits a word into its high and its low byte.
pub fn split_word(value: u16) -> (bytes: (u8, u8))
    ensures
        bytes.0 == high_byte(value),
        bytes.1 == low_byte(value),
{
    ((value / 256) as u8, (value % 256) as u8)
}

/// Something that can be read and written by address, a byte or a
/// big-endian 16-bit word at a time.
///
/// The state of a device is its view. What an access returns and how it
/// changes the state is given by the four spec functions; a write may change
/// the state even where it fails.
pub trait Device: View {
    /// What reading a byte at `address` returns.
    spec fn spec_get_u8(state: Self::V, address: usize) -> Result<u8, Fault>;

    /// What reading a word at `address` returns.
    spec fn spec_get_u16(state: Self::V, address: usize) -> Result<u16, Fault>;

    /// The state after writing a byte at `address`, and what the write returns.
    spec fn spec_set_u8(state: Self::V, address: usize, value: u8) -> (Self::V, Result<(), Fault>);

    /// The state after writing a word at `address`, and what the write returns.
    spec fn spec_set_u16(
        state: Self::V,
        address: usize,
        value: u16,
    ) -> (Self::V, Result<(), Fault>);

    /// Reads the word at `address`.
    fn get_u16(&self, address: usize) -> (result: Result<u16, Fault>)
        ensures
            result == Self::spec_get_u16(self@, address),
    ;

    /// Reads the byte at `address`.
    fn get_u8(&self, address: usize) -> (result: Result<u8, Fault>)
        ensures
            result == Self::spec_get_u8(self@, address),
    ;

    /// Writes the word `value` at `address`.
    fn set_u16(&mut self, address: usize, value: u16) -> (result: Result<(), Fault>)
        ensures
            final(self)@ == Self::spec_set_u16(old(self)@, address, value).0,
            result == Self::spec_set_u16(old(self)@, address, value).1,
    ;

    /// Writes the byte `value` at `address`.
    fn set_u8(&mut self, address: usize, value: u8) -> (result: Result<(), Fault>)
        ensures
            final(self)@ == Self::spec_set_u8(old(self)@, address, value).0,
            result == Self::spec_set_u8(old(self)@, address, value).1,
    ;
}

} // verus!
