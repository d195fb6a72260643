//! A write-only device that turns stores into control sequences for a
//! terminal.
//!
//! The device does not write to the terminal itself. It collects the bytes
//! that are to be sent, in order, and hands them out on request.

use vstd::prelude::*;
use crate::device::{Device, high_byte, low_byte, split_word};
use crate::fault::Fault;

verus! {

/// The escape byte that starts a control sequence.
pub const ESCAPE: u8 = 0x1b;

/// The command byte that clears the screen.
pub const COMMAND_CLEAR: u8 = 0xFF;

/// The command byte that switches to bold.
pub const COMMAND_BOLD: u8 = 0x01;

/// The command byte that switches back to regular attributes.
pub const COMMAND_REGULAR: u8 = 0x02;

/// The decimal digits of `n` in ASCII, without leading zeros.
pub open spec fn decimal(n: nat) -> Seq<u8>
    decreases n,
{
    if n < 10 {
        seq![(48 + n) as u8]
    } else {
        decimal(n / 10).push((48 + n % 10) as u8)
    }
}

/// The control sequence of a command byte: clear, bold, regular, or nothing
/// for any other byte.
pub open spec fn command_sequence(command: u8) -> Seq<u8> {
    if command == COMMAND_CLEAR {
        seq![ESCAPE, 0x5b, 0x32, 0x4a]
    } else if command == COMMAND_BOLD {
        seq![ESCAPE, 0x5b, 0x31, 0x6d]
    } else if command == COMMAND_REGULAR {
        seq![ESCAPE, 0x5b, 0x30, 0x6d]
    } else {
        Seq::empty()
    }
}

/// The terminal column of the cell at `address`: twice its place in a row of
/// sixteen, counted from one.
pub open spec fn column_of(address: usize) -> nat {
    (2 * ((address % 16) + 1)) as nat
}

/// The terminal row of the cell at `address`, counted from one.
pub open spec fn row_of(address: usize) -> nat {
    ((address / 16) + 1) as nat
}

/// The control sequence that moves the cursor to the cell at `address`:
/// escape, `[`, the row, `;`, the column, `H`.
pub open spec fn cursor_sequence(address: usize) -> Seq<u8> {
    seq![ESCAPE, 0x5b] + decimal(row_of(address)) + seq![0x3bu8] + decimal(column_of(address))
        + seq![0x48u8]
}

/// The pending bytes after a byte is stored at `address`, and what the store
/// returns. The cursor is moved first; a byte above 0x7F is no character on
/// its own and is refused after that.
pub open spec fn put_character(
    pending: Seq<u8>,
    address: usize,
    value: u8,
) -> (Seq<u8>, Result<(), Fault>) {
    let moved = pending + cursor_sequence(address);
    if value < 0x80 {
        (moved.push(value), Ok(()))
    } else {
        (moved, Err(Fault::NotACharacter { value }))
    }
}

/// The pending bytes after a word is stored at `address`, and what the store
/// returns: the high byte is carried out as a command, then the low byte is
/// put on the screen.
pub open spec fn put_word(
    pending: Seq<u8>,
    address: usize,
    value: u16,
) -> (Seq<u8>, Result<(), Fault>) {
    put_character(pending + command_sequence(high_byte(value)), address, low_byte(value))
}

/// A screen of rows of sixteen cells.
pub struct ScreenDevice {
    pending: Vec<u8>,
}

impl View for ScreenDevice {
    type V = Seq<u8>;

    /// The bytes that are yet to be sent to the terminal.
    closed spec fn view(&self) -> Seq<u8> {
        self.pending@
    }
}

/// Appends the decimal digits of `n` to `out`.
fn push_decimal(out: &mut Vec<u8>, n: usize)
    ensures
        final(out)@ == old(out)@ + decimal(n as nat),
    decreases n,
{
    if n >= 10 {
        push_decimal(out, n / 10);
    }
    let digit: u8 = (n % 10) as u8;
    out.push(48 + digit);
    assert(final(out)@ =~= old(out)@ + decimal(n as nat));
}

impl ScreenDevice {
    /// A screen with nothing to send.
    pub fn new() -> (screen: ScreenDevice)
        ensures
            screen@ == Seq::<u8>::empty(),
    {
        ScreenDevice { pending: Vec::new() }
    }

    /// Hands out the bytes that are to be sent to the terminal and forgets
    /// them.
    pub fn take_output(&mut self) -> (output: Vec<u8>)
        ensures
            output@ == old(self)@,
            final(self)@ == Seq::<u8>::empty(),
    {
        let mut output: Vec<u8> = Vec::new();
        core::mem::swap(&mut self.pending, &mut output);
        output
    }

    fn erase_screen(&mut self)
        ensures
            final(self)@ == old(self)@ + command_sequence(COMMAND_CLEAR),
    {
        self.pending.push(ESCAPE);
        self.pending.push(0x5b);
        self.pending.push(0x32);
        self.pending.push(0x4a);
        assert(final(self)@ =~= old(self)@ + command_sequence(COMMAND_CLEAR));
    }

    fn set_bold(&mut self)
        ensures
            final(self)@ == old(self)@ + command_sequence(COMMAND_BOLD),
    {
        self.pending.push(ESCAPE);
        self.pending.push(0x5b);
        self.pending.push(0x31);
        self.pending.push(0x6d);
        assert(final(self)@ =~= old(self)@ + command_sequence(COMMAND_BOLD));
    }

    fn set_regular(&mut self)
        ensures
            final(self)@ == old(self)@ + command_sequence(COMMAND_REGULAR),
    {
        self.pending.push(ESCAPE);
        self.pending.push(0x5b);
        self.pending.push(0x30);
        self.pending.push(0x6d);
        assert(final(self)@ =~= old(self)@ + command_sequence(COMMAND_REGULAR));
    }

    fn move_to(&mut self, address: usize)
        ensures
            final(self)@ == old(self)@ + cursor_sequence(address),
    {
        let x: usize = (address % 16) + 1;
        let y: usize = (address / 16) + 1;
        self.pending.push(ESCAPE);
        self.pending.push(0x5b);
        push_decimal(&mut self.pending, y);
        self.pending.push(0x3b);
        push_decimal(&mut self.pending, x * 2);
        self.pending.push(0x48);
        assert(final(self)@ =~= old(self)@ + cursor_sequence(address));
    }
}

impl Device for ScreenDevice {
    /// Nothing can be read back from the screen: every byte reads as zero.
    open spec fn spec_get_u8(state: Seq<u8>, address: usize) -> Result<u8, Fault> {
        Ok(0u8)
    }

    /// Nothing can be read back from the screen: every word reads as zero.
    open spec fn spec_get_u16(state: Seq<u8>, address: usize) -> Result<u16, Fault> {
        Ok(0u16)
    }

    open spec fn spec_set_u8(
        state: Seq<u8>,
        address: usize,
        value: u8,
    ) -> (Seq<u8>, Result<(), Fault>) {
        put_character(state, address, value)
    }

    open spec fn spec_set_u16(
        state: Seq<u8>,
        address: usize,
        value: u16,
    ) -> (Seq<u8>, Result<(), Fault>) {
        put_word(state, address, value)
    }

    fn get_u16(&self, address: usize) -> (result: Result<u16, Fault>) {
        Ok(0)
    }

    fn get_u8(&self, address: usize) -> (result: Result<u8, Fault>) {
        Ok(0)
    }

    fn set_u16(&mut self, address: usize, value: u16) -> (result: Result<(), Fault>) {
        let (command, character) = split_word(value);
        if command == COMMAND_CLEAR {
            self.erase_screen();
        } else if command == COMMAND_BOLD {
            self.set_bold();
        } else if command == COMMAND_REGULAR {
            self.set_regular();
        } else {
            assert(self@ =~= old(self)@ + command_sequence(command));
        }
        self.set_u8(address, character)
    }

    fn set_u8(&mut self, address: usize, value: u8) -> (result: Result<(), Fault>) {
        self.move_to(address);
        if value < 0x80 {
            self.pending.push(value);
            Ok(())
        } else {
            Err(Fault::NotACharacter { value })
        }
    }
}

} // verus!
