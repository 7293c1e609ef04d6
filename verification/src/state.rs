//! Mathematical model of the machine.
//!
//! [`State`] is the ghost image of the executable CPU: register bank, memory,
//! call stack and program counter as plain sequences and integers. The spec
//! function [`step_of`] gives the meaning of one fetch-decode-execute step,
//! and [`iter_step`] / [`run_outcome`] lift it to whole executions. The
//! executable code in [`crate::cpu`] is verified against these definitions.

use crate::fault::Fault;
use vstd::prelude::*;

verus! {

/// Number of addressable bytes of memory.
pub const MEMORY_SIZE: usize = 4096;

/// Number of general-purpose registers.
pub const REGISTER_COUNT: usize = 16;

/// Index of the register reserved for the carry/overflow flag.
pub const FLAG_REGISTER: usize = 15;

/// Greatest number of return addresses the call stack can hold.
pub const STACK_CAPACITY: usize = 16;

/// Ghost image of the whole machine: what the executable CPU looks like to
/// the specifications.
pub ghost struct State {
    /// The register bank, one byte per register.
    pub regs: Seq<u8>,
    /// The flat memory.
    pub mem: Seq<u8>,
    /// Pending return addresses, oldest first.
    pub stack: Seq<u16>,
    /// The program counter: index into `mem` of the next fetch.
    pub pc: int,
}

/// Well-formedness of a machine state: the containers have their fixed
/// sizes, the stack is within capacity, and the program counter fits in the
/// 16-bit range that return addresses are stored in.
pub open spec fn wf_state(s: State) -> bool {
    &&& s.regs.len() == REGISTER_COUNT
    &&& s.mem.len() == MEMORY_SIZE
    &&& s.stack.len() <= STACK_CAPACITY
    &&& 0 <= s.pc <= 0xFFFF
}

/// The 16-bit instruction word at `pc`: the byte at `pc` is the high byte,
/// the byte at `pc + 1` the low byte.
pub open spec fn opcode_at(mem: Seq<u8>, pc: int) -> int
    recommends
        0 <= pc,
        pc + 1 < mem.len(),
{
    mem[pc] * 0x100 + mem[pc + 1]
}

/// Instruction class: bits 15-12 of the instruction word.
pub open spec fn op_c(op: int) -> int {
    op / 0x1000
}

/// First register operand: bits 11-8 of the instruction word.
pub open spec fn op_x(op: int) -> int {
    (op / 0x100) % 0x10
}

/// Second register operand: bits 7-4 of the instruction word.
pub open spec fn op_y(op: int) -> int {
    (op / 0x10) % 0x10
}

/// Sub-opcode discriminant: bits 3-0 of the instruction word.
pub open spec fn op_n(op: int) -> int {
    op % 0x10
}

/// 12-bit address field: bits 11-0 of the instruction word.
pub open spec fn op_nnn(op: int) -> int {
    op % 0x1000
}

/// The register bank after `Add(x, y)`: the 8-bit-wrapped sum of registers
/// `x` and `y` lands in register `x`, then the flag register records whether
/// the sum overflowed eight bits. The flag write comes second, so for
/// `x == FLAG_REGISTER` it overwrites the stored sum.
pub open spec fn add_regs(regs: Seq<u8>, x: int, y: int) -> Seq<u8>
    recommends
        regs.len() == REGISTER_COUNT,
        0 <= x < REGISTER_COUNT,
        0 <= y < REGISTER_COUNT,
{
    let sum = regs[x] + regs[y];
    let flag: u8 = if sum >= 0x100 {
        1u8
    } else {
        0u8
    };
    regs.update(x, (sum % 0x100) as u8).update(FLAG_REGISTER as int, flag)
}

/// Outcome of one step of the machine.
pub ghost enum StepResult {
    /// Execution goes on from the carried state.
    Next(State),
    /// A halt instruction was executed; the carried state is final.
    Halted(State),
    /// A fatal fault was detected; the carried state is final.
    Faulted(State, Fault),
}

/// One fetch-decode-execute step from `s`.
///
/// If a full instruction word cannot be fetched the machine faults with the
/// unadvanced program counter. Otherwise the counter is advanced past the
/// word before dispatch, so a call pushes the address of the following
/// instruction and all other fault reports carry the advanced counter.
/// Dispatch checks the patterns in order: halt `0x0000` first, then return
/// (low byte `0xEE`), then call (class `0x2`), then register add (class
/// `0x8`, sub-op `0x4`); any other word is an unimplemented opcode.
pub open spec fn step_of(s: State) -> StepResult
    recommends
        wf_state(s),
{
    if s.pc + 2 > MEMORY_SIZE {
        StepResult::Faulted(s, Fault::OutOfBounds { pc: s.pc as u16 })
    } else {
        let op = opcode_at(s.mem, s.pc);
        let t = State { regs: s.regs, mem: s.mem, stack: s.stack, pc: s.pc + 2 };
        if op == 0 {
            StepResult::Halted(t)
        } else if op_y(op) == 0xE && op_n(op) == 0xE {
            if t.stack.len() > 0 {
                StepResult::Next(
                    State {
                        regs: t.regs,
                        mem: t.mem,
                        stack: t.stack.drop_last(),
                        pc: t.stack.last() as int,
                    },
                )
            } else {
                StepResult::Faulted(t, Fault::StackUnderflow { pc: t.pc as u16 })
            }
        } else if op_c(op) == 0x2 {
            if t.stack.len() < STACK_CAPACITY {
                StepResult::Next(
                    State {
                        regs: t.regs,
                        mem: t.mem,
                        stack: t.stack.push(t.pc as u16),
                        pc: op_nnn(op),
                    },
                )
            } else {
                StepResult::Faulted(t, Fault::StackOverflow { pc: t.pc as u16 })
            }
        } else if op_c(op) == 0x8 && op_n(op) == 0x4 {
            StepResult::Next(
                State {
                    regs: add_regs(t.regs, op_x(op), op_y(op)),
                    mem: t.mem,
                    stack: t.stack,
                    pc: t.pc,
                },
            )
        } else {
            StepResult::Faulted(t, Fault::UnimplementedOpcode { pc: t.pc as u16, opcode: op as u16 })
        }
    }
}

/// Well-formedness is preserved by every ordinary step.
pub proof fn lemma_step_preserves_wf(s: State, t: State)
    requires
        wf_state(s),
        step_of(s) == StepResult::Next(t),
    ensures
        wf_state(t),
{
}

/// The state after `n` uninterrupted ordinary steps from `s`, or `None` if
/// the machine halts or faults strictly within those `n` steps.
pub open spec fn iter_step(s: State, n: nat) -> Option<State>
    decreases n,
{
    if n == 0 {
        Some(s)
    } else {
        match step_of(s) {
            StepResult::Next(t) => iter_step(t, (n - 1) as nat),
            _ => None,
        }
    }
}

/// Execution from `s0` stops with outcome `out`: some number of ordinary
/// steps reaches a state whose own step is `out`.
pub open spec fn run_outcome(s0: State, out: StepResult) -> bool {
    exists|n: nat| (#[trigger] iter_step(s0, n)) matches Some(s) && step_of(s) == out
}

/// One more ordinary step extends a finished iteration.
pub proof fn lemma_iter_step_extend(s0: State, n: nat, s: State, t: State)
    requires
        iter_step(s0, n) == Some(s),
        step_of(s) == StepResult::Next(t),
    ensures
        iter_step(s0, n + 1) == Some(t),
    decreases n,
{
    reveal_with_fuel(iter_step, 2);
    if n == 0 {
    } else {
        match step_of(s0) {
            StepResult::Next(u) => lemma_iter_step_extend(u, (n - 1) as nat, s, t),
            _ => {},
        }
    }
}

/// Two finished iterations from the same start that both end in a state
/// whose own step is terminal end at the same step count in the same state.
pub proof fn lemma_iter_step_terminal_unique(s0: State, n1: nat, n2: nat, s1: State, s2: State)
    requires
        iter_step(s0, n1) == Some(s1),
        iter_step(s0, n2) == Some(s2),
        !(step_of(s1) is Next),
        !(step_of(s2) is Next),
    ensures
        n1 == n2,
        s1 == s2,
    decreases n1,
{
    if n1 == 0 {
        if n2 != 0 {
            assert(step_of(s0) is Next);
        }
    } else {
        if n2 == 0 {
            assert(step_of(s0) is Next);
        } else {
            match step_of(s0) {
                StepResult::Next(t) => {
                    lemma_iter_step_terminal_unique(t, (n1 - 1) as nat, (n2 - 1) as nat, s1, s2);
                },
                _ => {},
            }
        }
    }
}

/// The machine is deterministic: execution from a given state stops with at
/// most one halt or fault outcome. Together with [`crate::cpu::CPU::run`]'s
/// contract this pins the result and the final machine state of a run
/// completely.
pub proof fn lemma_run_outcome_unique(s0: State, out1: StepResult, out2: StepResult)
    requires
        run_outcome(s0, out1),
        run_outcome(s0, out2),
        !(out1 is Next),
        !(out2 is Next),
    ensures
        out1 == out2,
{
    let n1 = choose|n: nat|
        (#[trigger] iter_step(s0, n)) matches Some(s) && step_of(s) == out1;
    let n2 = choose|n: nat|
        (#[trigger] iter_step(s0, n)) matches Some(s) && step_of(s) == out2;
    match (iter_step(s0, n1), iter_step(s0, n2)) {
        (Some(s1), Some(s2)) => {
            lemma_iter_step_terminal_unique(s0, n1, n2, s1, s2);
        },
        _ => {},
    }
}

/// Component `i` of the termination measure of the run loop: positions below
/// the stack depth count down from the pushed return addresses, the position
/// at the depth counts down from the program counter, and the rest are zero.
/// The offset `0x10002` keeps every active component strictly positive.
pub open spec fn level(s: State, i: int) -> int {
    if i < s.stack.len() {
        0x10002 - s.stack[i]
    } else if i == s.stack.len() {
        0x10002 - s.pc
    } else {
        0
    }
}

/// Every ordinary step shrinks the measure lexicographically: components
/// below the current stack depth keep their values, and the component at the
/// depth strictly decreases. An add advances the counter at the same depth;
/// a call moves the counter component down by two and opens a deeper one; a
/// return zeroes the component at the old depth while the one below it keeps
/// the value the matching call gave it.
pub proof fn lemma_step_level_decreases(s: State, t: State)
    requires
        wf_state(s),
        step_of(s) == StepResult::Next(t),
    ensures
        forall|i: int| 0 <= i < s.stack.len() ==> level(t, i) == level(s, i),
        level(t, s.stack.len() as int) < level(s, s.stack.len() as int),
        level(s, s.stack.len() as int) >= 0,
{
    let op = opcode_at(s.mem, s.pc);
    if op_y(op) == 0xE && op_n(op) == 0xE {
        assert(t.stack == s.stack.drop_last());
        assert(forall|i: int| 0 <= i < s.stack.len() - 1 ==> t.stack[i] == s.stack[i]);
    } else if op_c(op) == 0x2 {
        assert(t.stack == s.stack.push((s.pc + 2) as u16));
        assert(forall|i: int| 0 <= i < s.stack.len() ==> t.stack[i] == s.stack[i]);
    } else {
        assert(t.stack == s.stack);
    }
}

} // verus!
