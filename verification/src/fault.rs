//! The ways in which an operation of the machine can fail.

use vstd::prelude::*;

verus! {

/// Why an access to a device, to mapped memory or to the register file failed.
#[allow(inconsistent_fields)]
#[derive(Clone, Copy, Debug, PartialEq, Eq, Structural)]
pub enum Fault {
    /// A device was asked for a byte at an address that it does not hold.
    OutOfRange { address: usize },
    /// No mapped region contains the address.
    Unmapped { address: u16 },
    /// The name is not that of a register.
    UnknownRegister,
    /// The screen was handed a byte that is no character on its own.
    NotACharacter { value: u8 },
}

} // verus!
