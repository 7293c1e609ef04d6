//! Proved general facts about the instruction semantics.

use crate::state::{
    add_regs, op_c, op_n, op_nnn, op_y, opcode_at, step_of, wf_state, State, StepResult,
    FLAG_REGISTER, MEMORY_SIZE, REGISTER_COUNT, STACK_CAPACITY,
};
use vstd::prelude::*;

verus! {

/// `Add(x, y)` puts the 8-bit-wrapped sum of registers `x` and `y` into
/// register `x`, records in the flag register whether the sum overflowed,
/// and leaves every other register — in particular `y` — unchanged. Holds
/// for every target `x` other than the flag register, whose stored sum the
/// flag write would overwrite.
pub proof fn lemma_add_updates(regs: Seq<u8>, x: int, y: int)
    requires
        regs.len() == REGISTER_COUNT,
        0 <= x < FLAG_REGISTER,
        0 <= y < REGISTER_COUNT,
    ensures
        add_regs(regs, x, y)[x] == (regs[x] + regs[y]) % 0x100,
        add_regs(regs, x, y)[FLAG_REGISTER as int] == (if regs[x] + regs[y] >= 0x100 {
            1u8
        } else {
            0u8
        }),
        forall|j: int|
            0 <= j < REGISTER_COUNT && j != x && j != FLAG_REGISTER ==> add_regs(regs, x, y)[j]
                == regs[j],
{
}

/// Adding a register to itself doubles it modulo 256, and sets the flag
/// exactly when the doubled value reaches 256. Holds for every register
/// other than the flag register itself.
pub proof fn lemma_add_doubles(regs: Seq<u8>, x: int)
    requires
        regs.len() == REGISTER_COUNT,
        0 <= x < FLAG_REGISTER,
    ensures
        add_regs(regs, x, x)[x] == (2 * regs[x]) % 0x100,
        add_regs(regs, x, x)[FLAG_REGISTER as int] == (if 2 * regs[x] >= 0x100 {
            1u8
        } else {
            0u8
        }),
{
    lemma_add_updates(regs, x, x);
}

/// A call immediately followed by the return it jumps to restores the
/// program counter to the instruction after the call, with the registers,
/// the memory and the call stack exactly as before the pair.
///
/// The hypotheses say that the word at the program counter really dispatches
/// as a call (class `0x2` and not the return pattern, which is matched
/// first), that the call target holds a return instruction, and that stack
/// and memory leave room for the two fetches and the push.
pub proof fn lemma_call_return_round_trip(s: State)
    requires
        wf_state(s),
        s.stack.len() < STACK_CAPACITY,
        s.pc + 2 <= MEMORY_SIZE,
        op_c(opcode_at(s.mem, s.pc)) == 0x2,
        !(op_y(opcode_at(s.mem, s.pc)) == 0xE && op_n(opcode_at(s.mem, s.pc)) == 0xE),
        op_nnn(opcode_at(s.mem, s.pc)) + 2 <= MEMORY_SIZE,
        op_y(opcode_at(s.mem, op_nnn(opcode_at(s.mem, s.pc)))) == 0xE,
        op_n(opcode_at(s.mem, op_nnn(opcode_at(s.mem, s.pc)))) == 0xE,
    ensures
        (step_of(s) matches StepResult::Next(t) && step_of(t) matches StepResult::Next(u) && u.pc
            == s.pc + 2 && u.stack == s.stack && u.regs == s.regs && u.mem == s.mem),
{
    let op = opcode_at(s.mem, s.pc);
    assert(op != 0);
    let t = (match step_of(s) {
        StepResult::Next(t) => t,
        _ => s,
    });
    assert(t.stack == s.stack.push((s.pc + 2) as u16));
    let op2 = opcode_at(s.mem, t.pc);
    assert(op2 != 0) by {
        assert(op_n(op2) == 0xE);
    }
    assert(t.stack.last() == (s.pc + 2) as u16);
    assert(t.stack.drop_last() =~= s.stack);
}

/// The halt instruction only advances the program counter past itself: the
/// machine that [`step_of`] reports as halted has the registers, memory and
/// call stack of the machine that fetched the halt word, and execution takes
/// no further step from it.
pub proof fn lemma_halt_stops(s: State)
    requires
        wf_state(s),
        s.pc + 2 <= MEMORY_SIZE,
        opcode_at(s.mem, s.pc) == 0,
    ensures
        (step_of(s) matches StepResult::Halted(t) && t.regs == s.regs && t.mem == s.mem && t.stack
            == s.stack && t.pc == s.pc + 2),
{
}

} // verus!
