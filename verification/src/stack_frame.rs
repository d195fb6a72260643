//! What holds of the stack: a word that is pushed is the word that is
//! popped, and a return undoes a call.
//!
//! These facts need the words of the stack to be held by a memory. A screen
//! reads as zero whatever was written to it, so a word pushed there is lost.

use vstd::prelude::*;
use crate::cpu::{
    is_register_offset, lemma_with_register, Machine, ACC, FP, IP, R1, R2, R3, R4, R5, R6, R7, R8,
    SP,
};
use crate::fault::Fault;
use crate::memory_mapper::{
    apart, holds_word, lemma_word_round_trip, lemma_write_elsewhere, read_u16, RegionState,
};

verus! {

/// The address `bytes` bytes below `address`, wrapping at 16 bits. A
/// negative number of bytes gives an address above.
#[verifier::opaque]
pub open spec fn below(address: u16, bytes: int) -> u16 {
    ((address - bytes) % 0x1_0000) as u16
}

/// Going down by no byte stays, going down twice goes down by the sum, and
/// going down or up by two is what the wrapping operations do.
pub proof fn lemma_below(address: u16, first: int, second: int)
    ensures
        below(address, 0) == address,
        below(below(address, first), second) == below(address, first + second),
        below(address, 2) == address.wrapping_sub(2),
        below(address, -2) == address.wrapping_add(2),
{
    reveal(below);
}

/// Addresses that lie an even number of bytes apart, fewer than 24, are
/// those of two words that share no byte.
pub proof fn lemma_below_apart(address: u16, first: int, second: int)
    requires
        first != second,
        (first - second) % 2 == 0,
        -24 < first - second < 24,
    ensures
        apart(below(address, first), below(address, second)),
{
    reveal(below);
}

/// A size that grew by `bytes` bytes, wrapping at 16 bits.
#[verifier::opaque]
pub open spec fn grown(size: u16, bytes: int) -> u16 {
    ((size + bytes) % 0x1_0000) as u16
}

/// Growing by no byte stays, growing twice grows by the sum, and growing
/// or shrinking by two is what the wrapping operations do.
pub proof fn lemma_grown(size: u16, first: int, second: int)
    ensures
        grown(size, 0) == size,
        grown(grown(size, first), second) == grown(size, first + second),
        grown(size, 2) == size.wrapping_add(2),
        grown(size, -2) == size.wrapping_sub(2),
{
    reveal(grown);
}

/// Whether two states have the same values in all registers but the stack
/// pointer.
pub open spec fn same_registers_but_sp(a: Machine, b: Machine) -> bool {
    forall|offset: usize|
        is_register_offset(offset) && offset != SP ==> #[trigger] a.register(offset) == b.register(
            offset,
        )
}

/// A push onto a word that a memory holds succeeds. It moves the stack
/// pointer down by two and lets the frame grow by two; the word is then
/// read at the old stack pointer, and every other word that a memory holds
/// reads as before.
pub proof fn lemma_push(machine: Machine, value: u16)
    requires
        machine.wf(),
        holds_word(machine.memory, machine.register(SP)),
    ensures
        machine.push(value).1 is Ok,
        machine.push(value).0.wf(),
        machine.push(value).0.register(SP) == below(machine.register(SP), 2),
        machine.push(value).0.stack_frame_size == grown(machine.stack_frame_size, 2),
        same_registers_but_sp(machine.push(value).0, machine),
        read_u16(machine.push(value).0.memory, machine.register(SP)) == Ok::<u16, Fault>(value),
        holds_word(machine.push(value).0.memory, machine.register(SP)),
        forall|other: u16|
            holds_word(machine.memory, other) && apart(machine.register(SP), other) ==> holds_word(
                machine.push(value).0.memory,
                other,
            ) && #[trigger] read_u16(machine.push(value).0.memory, other) == read_u16(
                machine.memory,
                other,
            ),
{
    let address = machine.register(SP);
    lemma_below(address, 0, 0);
    lemma_grown(machine.stack_frame_size, 0, 0);
    lemma_word_round_trip(machine.memory, address, value);
    lemma_with_register(machine, SP, address.wrapping_sub(2));
    assert forall|other: u16|
        holds_word(machine.memory, other) && apart(address, other) implies holds_word(
        machine.push(value).0.memory,
        other,
    ) && #[trigger] read_u16(machine.push(value).0.memory, other) == read_u16(
        machine.memory,
        other,
    ) by {
        lemma_write_elsewhere(machine.memory, address, value, other);
    }
}

/// A pop moves the stack pointer up by two, lets the frame shrink by two,
/// and returns the word that the stack pointer then points to. It changes
/// nothing else.
pub proof fn lemma_pop(machine: Machine)
    requires
        machine.wf(),
    ensures
        machine.pop().0.wf(),
        machine.pop().0.register(SP) == below(machine.register(SP), -2),
        machine.pop().0.stack_frame_size == grown(machine.stack_frame_size, -2),
        machine.pop().0.memory == machine.memory,
        same_registers_but_sp(machine.pop().0, machine),
        machine.pop().1 == read_u16(machine.memory, below(machine.register(SP), -2)),
{
    lemma_below(machine.register(SP), 0, 0);
    lemma_grown(machine.stack_frame_size, 0, 0);
    lemma_with_register(machine, SP, machine.register(SP).wrapping_add(2));
}

/// A word that is pushed onto a stack held by a memory is the word that the
/// next pop returns, and the pop puts all registers and the size of the
/// frame back to what they were before the push.
pub proof fn lemma_push_pop(machine: Machine, value: u16)
    requires
        machine.wf(),
        holds_word(machine.memory, machine.register(SP)),
    ensures
        machine.push(value).1 is Ok,
        machine.push(value).0.pop().1 == Ok::<u16, Fault>(value),
        machine.push(value).0.pop().0.registers == machine.registers,
        machine.push(value).0.pop().0.stack_frame_size == machine.stack_frame_size,
        machine.push(value).0.pop().0.memory == machine.push(value).0.memory,
{
    let sp = machine.register(SP);
    lemma_push(machine, value);
    let pushed = machine.push(value).0;
    lemma_pop(pushed);
    lemma_below(sp, 2, -2);
    lemma_grown(machine.stack_frame_size, 2, -2);
    let popped = pushed.pop().0;
    assert(popped.registers =~= machine.registers) by {
        crate::device::lemma_word_bytes(sp, machine.registers[SP as int], machine.registers[SP + 1]);
        assert(popped.register(SP) == sp);
        crate::device::lemma_word_bytes(sp, popped.registers[SP as int], popped.registers[SP + 1]);
    }
}

/// The address of a word of the frame that a call builds when the stack
/// pointer is at `sp`: word 0 is the number of arguments, which the caller
/// pushed last; words 1 to 8 are those that `r1` to `r8` are saved in; word
/// 9 takes the instruction pointer and word 10 the size of the frame.
pub open spec fn frame_word(sp: u16, k: int) -> u16 {
    below(sp, 2 * k - 2)
}

/// The register that is saved in word `k` of the frame, for `k` from 1 to 9.
pub open spec fn saved_offset(k: int) -> usize {
    if k == 9 {
        IP
    } else {
        (2 + 2 * k) as usize
    }
}

/// What a call that begins in the state `origin` saves in word `k` of the
/// frame, for `k` from 1 to 10.
pub open spec fn saved_word(origin: Machine, k: int) -> u16 {
    if k == 10 {
        grown(origin.stack_frame_size, 20)
    } else {
        origin.register(saved_offset(k))
    }
}

/// Whether a memory holds the eleven words of the frame of a call made with
/// the stack pointer at `sp`.
pub open spec fn holds_frame(memory: Seq<RegionState>, sp: u16) -> bool {
    forall|k: int| 0 <= k <= 10 ==> holds_word(memory, #[trigger] frame_word(sp, k))
}

/// Whether words 1 to `count` of the frame hold what a call from `origin`
/// saves in them.
pub open spec fn frame_saved(memory: Seq<RegionState>, origin: Machine, count: int) -> bool {
    forall|k: int|
        1 <= k <= count ==> read_u16(memory, #[trigger] frame_word(origin.register(SP), k)) == Ok::<
            u16,
            Fault,
        >(saved_word(origin, k))
}

/// Whether `now` is the state of a call that began in `origin` once it has
/// saved the first `count` words.
#[verifier::opaque]
spec fn saving(origin: Machine, now: Machine, count: int) -> bool {
    let sp = origin.register(SP);
    &&& now.wf()
    &&& now.register(SP) == below(sp, 2 * count)
    &&& now.stack_frame_size == grown(origin.stack_frame_size, 2 * count)
    &&& same_registers_but_sp(now, origin)
    &&& holds_frame(now.memory, sp)
    &&& read_u16(now.memory, frame_word(sp, 0)) == read_u16(origin.memory, frame_word(sp, 0))
    &&& frame_saved(now.memory, origin, count)
}

/// Saving one more word keeps the call on its way.
proof fn lemma_save(origin: Machine, now: Machine, count: int, value: u16)
    requires
        0 <= count < 10,
        saving(origin, now, count),
        value == saved_word(origin, count + 1),
    ensures
        now.push(value).1 is Ok,
        saving(origin, now.push(value).0, count + 1),
{
    reveal(saving);
    let sp = origin.register(SP);
    let top = now.register(SP);
    let next = now.push(value).0;
    assert(top == frame_word(sp, count + 1));
    lemma_push(now, value);
    lemma_below(sp, 2 * count, 2);
    lemma_grown(origin.stack_frame_size, 2 * count, 2);
    assert forall|k: int| 0 <= k <= 10 implies holds_word(
        next.memory,
        #[trigger] frame_word(sp, k),
    ) by {
        if k != count + 1 {
            lemma_below_apart(sp, 2 * count, 2 * k - 2);
            assert(read_u16(next.memory, frame_word(sp, k)) == read_u16(
                now.memory,
                frame_word(sp, k),
            ));
        }
    }
    assert(read_u16(next.memory, frame_word(sp, 0)) == read_u16(now.memory, frame_word(sp, 0))) by {
        lemma_below_apart(sp, 2 * count, -2);
    }
    assert forall|k: int| 1 <= k <= count + 1 implies read_u16(
        next.memory,
        #[trigger] frame_word(sp, k),
    ) == Ok::<u16, Fault>(saved_word(origin, k)) by {
        if k != count + 1 {
            lemma_below_apart(sp, 2 * count, 2 * k - 2);
            assert(read_u16(next.memory, frame_word(sp, k)) == read_u16(
                now.memory,
                frame_word(sp, k),
            ));
        }
    }
    assert(same_registers_but_sp(next, origin));
}

/// The state of a call from `machine` once the first `count` registers
/// are saved, and whether saving them went well.
spec fn saved_registers(machine: Machine, count: nat) -> (Machine, Result<(), Fault>)
    decreases count,
{
    if count == 0 {
        (machine, Ok(()))
    } else {
        Machine::then_push_register(
            saved_registers(machine, (count - 1) as nat),
            saved_offset(count as int),
        )
    }
}

/// A call saves the nine registers one after the other, then the size of
/// the frame.
proof fn lemma_call_unfolds(machine: Machine)
    ensures
        machine.push_state() == (match saved_registers(machine, 9).1 {
            Ok(()) => {
                let saved = saved_registers(machine, 9).0;
                let (framed, pushed) = saved.push(saved.stack_frame_size.wrapping_add(2));
                match pushed {
                    Ok(()) => (
                        framed.with_register(FP, framed.register(SP)).with_frame_size(0),
                        Ok(()),
                    ),
                    Err(fault) => (framed, Err(fault)),
                }
            },
            Err(_) => saved_registers(machine, 9),
        }),
{
    reveal_with_fuel(saved_registers, 10);
}

/// Saving the registers of a call on a stack held by a memory goes well.
proof fn lemma_saved_registers(machine: Machine, count: nat)
    requires
        count <= 9,
        machine.wf(),
        holds_frame(machine.memory, machine.register(SP)),
    ensures
        saved_registers(machine, count).1 is Ok,
        saving(machine, saved_registers(machine, count).0, count as int),
    decreases count,
{
    if count == 0 {
        reveal(saving);
        lemma_below(machine.register(SP), 0, 0);
        lemma_grown(machine.stack_frame_size, 0, 0);
    } else {
        lemma_saved_registers(machine, (count - 1) as nat);
        let before = saved_registers(machine, (count - 1) as nat).0;
        let offset = saved_offset(count as int);
        assert(before.register(offset) == saved_word(machine, count as int)) by {
            reveal(saving);
        }
        lemma_save(machine, before, count - 1, before.register(offset));
    }
}

/// A call on a stack held by a memory succeeds. It saves `r1` to `r8`, the
/// instruction pointer and the size of the frame in words 1 to 10 of the
/// frame, leaves the count of arguments in word 0 as it was, moves the
/// stack pointer down by twenty bytes and the frame pointer to it, and
/// begins a frame of size zero. The other registers stay as they were.
pub proof fn lemma_call(machine: Machine)
    requires
        machine.wf(),
        holds_frame(machine.memory, machine.register(SP)),
    ensures
        machine.push_state().1 is Ok,
        machine.push_state().0.wf(),
        machine.push_state().0.register(SP) == below(machine.register(SP), 20),
        machine.push_state().0.register(FP) == below(machine.register(SP), 20),
        machine.push_state().0.stack_frame_size == 0,
        forall|offset: usize|
            is_register_offset(offset) && offset != SP && offset != FP
                ==> #[trigger] machine.push_state().0.register(offset) == machine.register(offset),
        holds_frame(machine.push_state().0.memory, machine.register(SP)),
        frame_saved(machine.push_state().0.memory, machine, 10),
        read_u16(machine.push_state().0.memory, frame_word(machine.register(SP), 0)) == read_u16(
            machine.memory,
            frame_word(machine.register(SP), 0),
        ),
{
    lemma_call_unfolds(machine);
    lemma_saved_registers(machine, 9);
    let saved = saved_registers(machine, 9).0;
    let size = saved.stack_frame_size.wrapping_add(2);
    assert(size == saved_word(machine, 10)) by {
        reveal(saving);
        lemma_grown(machine.stack_frame_size, 18, 2);
        lemma_grown(saved.stack_frame_size, 0, 0);
    }
    lemma_save(machine, saved, 9, size);
    lemma_frame_begins(machine, saved.push(size).0);
}

/// Where the ten words are saved, moving the frame pointer to the stack
/// pointer leaves them saved.
proof fn lemma_frame_begins(origin: Machine, framed: Machine)
    requires
        saving(origin, framed, 10),
    ensures
        ({
            let called = framed.with_register(FP, framed.register(SP)).with_frame_size(0);
            &&& called.wf()
            &&& called.register(SP) == below(origin.register(SP), 20)
            &&& called.register(FP) == below(origin.register(SP), 20)
            &&& called.stack_frame_size == 0
            &&& forall|offset: usize|
                is_register_offset(offset) && offset != SP && offset != FP
                    ==> #[trigger] called.register(offset) == origin.register(offset)
            &&& holds_frame(called.memory, origin.register(SP))
            &&& frame_saved(called.memory, origin, 10)
            &&& read_u16(called.memory, frame_word(origin.register(SP), 0)) == read_u16(
                origin.memory,
                frame_word(origin.register(SP), 0),
            )
        }),
{
    reveal(saving);
    let sp = framed.register(SP);
    lemma_with_register(framed, FP, sp);
    let moved = framed.with_register(FP, sp);
    let called = moved.with_frame_size(0);
    assert(called.registers == moved.registers);
    assert forall|offset: usize|
        is_register_offset(offset) && offset != SP && offset
            != FP implies #[trigger] called.register(offset) == origin.register(offset) by {
        assert(moved.register(offset) == framed.register(offset));
    }
}

/// Whether `now` is the state of a return from `called` to `origin` once it
/// has popped `count` words of the frame: the registers whose words are
/// popped hold what they held in `origin`.
#[verifier::opaque]
spec fn restoring(origin: Machine, called: Machine, now: Machine, count: int) -> bool {
    let sp = origin.register(SP);
    &&& now.wf()
    &&& now.memory == called.memory
    &&& now.register(SP) == below(sp, 20 - 2 * count)
    &&& now.stack_frame_size == grown(origin.stack_frame_size, 22 - 2 * count)
    &&& now.register(FP) == below(sp, 20)
    &&& now.register(ACC) == called.register(ACC)
    &&& forall|k: int|
        11 - count <= k <= 9 ==> now.register(#[trigger] saved_offset(k)) == origin.register(
            saved_offset(k),
        )
}

/// Restoring one more register keeps the return on its way.
proof fn lemma_restore(
    origin: Machine,
    called: Machine,
    before: (Machine, Result<(), Fault>),
    count: int,
)
    requires
        1 <= count < 10,
        before.1 is Ok,
        restoring(origin, called, before.0, count),
        frame_saved(called.memory, origin, 10),
    ensures
        Machine::then_pop_register(before, saved_offset(10 - count)).1 is Ok,
        restoring(
            origin,
            called,
            Machine::then_pop_register(before, saved_offset(10 - count)).0,
            count + 1,
        ),
{
    let now = before.0;
    reveal(restoring);
    let sp = origin.register(SP);
    let offset = saved_offset(10 - count);
    lemma_pop(now);
    lemma_below(sp, 20 - 2 * count, -2);
    lemma_grown(origin.stack_frame_size, 22 - 2 * count, -2);
    let (popped, value) = now.pop();
    assert(below(now.register(SP), -2) == frame_word(sp, 10 - count));
    assert(value == Ok::<u16, Fault>(saved_word(origin, 10 - count)));
    lemma_with_register(popped, offset, origin.register(offset));
    let next = popped.with_register(offset, origin.register(offset));
    assert forall|k: int| 10 - count <= k <= 9 implies next.register(#[trigger] saved_offset(k))
        == origin.register(saved_offset(k)) by {
        if k != 10 - count {
            assert(popped.register(saved_offset(k)) == now.register(saved_offset(k)));
        }
    }
}

/// Twenty bytes down and a size that grew by twenty bytes add up to where
/// the address and the size add up to.
proof fn lemma_frame_pointer(sp: u16, size: u16)
    ensures
        below(sp, 20).wrapping_add(grown(size, 20)) == sp.wrapping_add(size),
{
    reveal(below);
    reveal(grown);
}

/// A return from the state `called` to the state `origin` in which the
/// call was made, with a count of arguments of zero. Whatever the routine
/// has done to the registers, as long as the frame pointer and the words of
/// the frame are as the call left them: `r1` to `r8` and the instruction
/// pointer hold what they held in `origin`, the accumulator keeps what the
/// routine left in it, the stack pointer is one word above where it was in
/// `origin`, the frame pointer is the stack pointer of `origin` plus its
/// size of the frame, and the size of the frame is that of `origin`.
pub proof fn lemma_return(origin: Machine, called: Machine)
    requires
        origin.wf(),
        called.wf(),
        called.register(FP) == below(origin.register(SP), 20),
        frame_saved(called.memory, origin, 10),
        read_u16(called.memory, frame_word(origin.register(SP), 0)) == Ok::<u16, Fault>(0u16),
    ensures
        called.pop_state().1 is Ok,
        called.pop_state().0.wf(),
        forall|k: int|
            1 <= k <= 9 ==> called.pop_state().0.register(#[trigger] saved_offset(k))
                == origin.register(saved_offset(k)),
        called.pop_state().0.register(ACC) == called.register(ACC),
        called.pop_state().0.register(SP) == below(origin.register(SP), -2),
        called.pop_state().0.register(FP) == origin.register(SP).wrapping_add(
            origin.stack_frame_size,
        ),
        called.pop_state().0.stack_frame_size == origin.stack_frame_size,
        called.pop_state().0.memory == called.memory,
{
    let sp = origin.register(SP);
    let ok: Result<(), Fault> = Ok(());
    let frame_pointer = called.register(FP);
    lemma_with_register(called, SP, frame_pointer);
    let unwinding = called.with_register(SP, frame_pointer);
    lemma_pop(unwinding);
    lemma_below(sp, 20, -2);
    let (unwound, popped) = unwinding.pop();
    assert(below(unwinding.register(SP), -2) == frame_word(sp, 10));
    assert(popped == Ok::<u16, Fault>(saved_word(origin, 10)));
    let frame_size = saved_word(origin, 10);
    let r0 = unwound.with_frame_size(frame_size);
    assert(restoring(origin, called, r0, 1)) by {
        reveal(restoring);
        assert(r0.registers == unwound.registers);
        assert(unwound.register(FP) == unwinding.register(FP));
        assert(unwound.register(ACC) == unwinding.register(ACC));
    }
    let r1 = Machine::then_pop_register((r0, ok), IP);
    lemma_restore(origin, called, (r0, ok), 1);
    let r2 = Machine::then_pop_register(r1, R8);
    lemma_restore(origin, called, r1, 2);
    let r3 = Machine::then_pop_register(r2, R7);
    lemma_restore(origin, called, r2, 3);
    let r4 = Machine::then_pop_register(r3, R6);
    lemma_restore(origin, called, r3, 4);
    let r5 = Machine::then_pop_register(r4, R5);
    lemma_restore(origin, called, r4, 5);
    let r6 = Machine::then_pop_register(r5, R4);
    lemma_restore(origin, called, r5, 6);
    let r7 = Machine::then_pop_register(r6, R3);
    lemma_restore(origin, called, r6, 7);
    let r8 = Machine::then_pop_register(r7, R2);
    lemma_restore(origin, called, r7, 8);
    let r9 = Machine::then_pop_register(r8, R1);
    lemma_restore(origin, called, r8, 9);
    assert(restoring(origin, called, r9.0, 10));
    lemma_return_end(origin, called, r9.0, frame_pointer, frame_size);
    let (counted, arguments) = r9.0.pop();
    let returned = counted.with_register(FP, frame_pointer.wrapping_add(frame_size));
    assert(counted.discard(0) == (counted, ok));
    assert(called.pop_state() == (returned, ok));
}

/// The end of a return: the count of arguments is popped, and the frame
/// pointer moves up by the size of the frame.
proof fn lemma_return_end(
    origin: Machine,
    called: Machine,
    restored: Machine,
    frame_pointer: u16,
    frame_size: u16,
)
    requires
        restoring(origin, called, restored, 10),
        frame_pointer == below(origin.register(SP), 20),
        frame_size == grown(origin.stack_frame_size, 20),
        read_u16(called.memory, frame_word(origin.register(SP), 0)) == Ok::<u16, Fault>(0u16),
    ensures
        restored.pop().1 == Ok::<u16, Fault>(0u16),
        ({
            let returned = restored.pop().0.with_register(
                FP,
                frame_pointer.wrapping_add(frame_size),
            );
            &&& returned.wf()
            &&& forall|k: int|
                1 <= k <= 9 ==> returned.register(#[trigger] saved_offset(k)) == origin.register(
                    saved_offset(k),
                )
            &&& returned.register(ACC) == called.register(ACC)
            &&& returned.register(SP) == below(origin.register(SP), -2)
            &&& returned.register(FP) == origin.register(SP).wrapping_add(origin.stack_frame_size)
            &&& returned.stack_frame_size == origin.stack_frame_size
            &&& returned.memory == called.memory
        }),
{
    reveal(restoring);
    let sp = origin.register(SP);
    lemma_pop(restored);
    lemma_below(sp, 0, -2);
    lemma_grown(origin.stack_frame_size, 2, -2);
    let counted = restored.pop().0;
    assert(below(restored.register(SP), -2) == frame_word(sp, 0));
    lemma_frame_pointer(sp, origin.stack_frame_size);
    lemma_with_register(counted, FP, frame_pointer.wrapping_add(frame_size));
    let returned = counted.with_register(FP, frame_pointer.wrapping_add(frame_size));
    assert forall|k: int| 1 <= k <= 9 implies returned.register(#[trigger] saved_offset(k))
        == origin.register(saved_offset(k)) by {
        assert(counted.register(saved_offset(k)) == restored.register(saved_offset(k)));
    }
    assert(counted.register(ACC) == restored.register(ACC));
}

/// The registers that a call saves and the accumulator are all registers
/// but the stack and the frame pointer.
proof fn lemma_all_saved(origin: Machine, returned: Machine)
    requires
        forall|k: int|
            1 <= k <= 9 ==> returned.register(#[trigger] saved_offset(k)) == origin.register(
                saved_offset(k),
            ),
        returned.register(ACC) == origin.register(ACC),
    ensures
        forall|offset: usize|
            is_register_offset(offset) && offset != SP && offset != FP
                ==> #[trigger] returned.register(offset) == origin.register(offset),
{
    assert forall|offset: usize|
        is_register_offset(offset) && offset != SP && offset
            != FP implies #[trigger] returned.register(offset) == origin.register(offset) by {
        if offset != ACC {
            let k: int = if offset == IP {
                9
            } else {
                (offset - 2) / 2
            };
            assert(saved_offset(k) == offset);
        }
    }
}

/// A return undoes a call. After `push_state` and then `pop_state`, with
/// the stack held by a memory and a count of arguments of zero on top of
/// it, every register but the stack and the frame pointer holds what it
/// held before, the instruction pointer among them. The stack pointer is
/// one word higher, since the count of arguments is gone from the stack.
/// The frame pointer is the old stack pointer plus the old size of the
/// frame: where the frame pointer was that before the call, it is restored
/// as well. The size of the frame is what it was.
pub proof fn lemma_call_return(machine: Machine)
    requires
        machine.wf(),
        holds_frame(machine.memory, machine.register(SP)),
        read_u16(machine.memory, frame_word(machine.register(SP), 0)) == Ok::<u16, Fault>(0u16),
    ensures
        machine.push_state().1 is Ok,
        machine.push_state().0.pop_state().1 is Ok,
        forall|offset: usize|
            is_register_offset(offset) && offset != SP && offset != FP
                ==> #[trigger] machine.push_state().0.pop_state().0.register(offset)
                == machine.register(offset),
        machine.push_state().0.pop_state().0.register(SP) == below(machine.register(SP), -2),
        machine.push_state().0.pop_state().0.register(FP) == machine.register(SP).wrapping_add(
            machine.stack_frame_size,
        ),
        machine.push_state().0.pop_state().0.stack_frame_size == machine.stack_frame_size,
        machine.push_state().0.pop_state().0.memory == machine.push_state().0.memory,
        machine.push_state().0.pop_state().0.wf(),
{
    lemma_call(machine);
    lemma_return(machine, machine.push_state().0);
    lemma_all_saved(machine, machine.push_state().0.pop_state().0);
}

} // verus!
