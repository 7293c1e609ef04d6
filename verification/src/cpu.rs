//! The executable machine.
//!
//! [`CPU`] owns the register bank, memory, call stack and program counter.
//! A host seeds registers and memory with a program, calls [`CPU::run`], and
//! reads the registers back once the run stops. Every method is specified
//! against the ghost model in [`crate::state`].

use crate::fault::Fault;
use crate::state::{
    add_regs, iter_step, lemma_iter_step_extend, lemma_step_level_decreases, level, op_c, op_n,
    op_nnn, op_x, op_y, opcode_at, run_outcome, step_of, wf_state, State, StepResult,
    FLAG_REGISTER, MEMORY_SIZE, REGISTER_COUNT, STACK_CAPACITY,
};
use vstd::prelude::*;

verus! {

/// The machine: registers, memory, call stack and program counter.
///
/// The fields are public so that a host can preload a program and read the
/// final registers directly; [`CPU::wf`] says what a usable machine looks
/// like, and every method keeps it.
pub struct CPU {
    /// The sixteen 8-bit general-purpose registers. Index [`FLAG_REGISTER`]
    /// is reserved for the carry/overflow flag.
    pub registers: Vec<u8>,
    /// The program counter: index into `memory` of the next fetch.
    pub position_in_memory: usize,
    /// The flat byte-addressable memory of [`MEMORY_SIZE`] bytes.
    pub memory: Vec<u8>,
    /// The call stack: pending return addresses, oldest first. Its length
    /// plays the role of the stack pointer.
    pub stack: Vec<u16>,
}

impl View for CPU {
    type V = State;

    open spec fn view(&self) -> State {
        State {
            regs: self.registers@,
            mem: self.memory@,
            stack: self.stack@,
            pc: self.position_in_memory as int,
        }
    }
}

/// A vector of `n` zero bytes.
fn zero_bytes(n: usize) -> (v: Vec<u8>)
    ensures
        v@.len() == n,
        forall|i: int| 0 <= i < n ==> v@[i] == 0u8,
{
    let mut v: Vec<u8> = Vec::new();
    while v.len() < n
        invariant
            v@.len() <= n,
            forall|i: int| 0 <= i < v@.len() ==> v@[i] == 0u8,
        decreases n - v@.len(),
    {
        v.push(0u8);
    }
    v
}

impl CPU {
    /// The machine is in a usable state: containers have their fixed sizes
    /// and the program counter is in the 16-bit range.
    pub open spec fn wf(self) -> bool {
        wf_state(self@)
    }

    /// A fresh machine: all registers and memory bytes zero, empty call
    /// stack, program counter at zero.
    pub fn new() -> (cpu: CPU)
        ensures
            cpu.wf(),
            cpu@.pc == 0,
            cpu@.stack == Seq::<u16>::empty(),
            forall|i: int| 0 <= i < REGISTER_COUNT ==> cpu@.regs[i] == 0u8,
            forall|i: int| 0 <= i < MEMORY_SIZE ==> cpu@.mem[i] == 0u8,
    {
        CPU {
            registers: zero_bytes(REGISTER_COUNT),
            position_in_memory: 0,
            memory: zero_bytes(MEMORY_SIZE),
            stack: Vec::new(),
        }
    }

    /// Fetch the instruction word at the program counter: two consecutive
    /// memory bytes, high byte first. Reads only; the counter is advanced by
    /// the caller.
    pub fn read_opcode(&self) -> (op: u16)
        requires
            self.wf(),
            self@.pc + 2 <= MEMORY_SIZE,
        ensures
            op == opcode_at(self@.mem, self@.pc),
    {
        let p = self.position_in_memory;
        let op_byte_1 = self.memory[p] as u16;
        let op_byte_2 = self.memory[p + 1] as u16;
        let op = (op_byte_1 << 8) | op_byte_2;
        proof {
            assert(op == op_byte_1 * 0x100 + op_byte_2) by (bit_vector)
                requires
                    op == (op_byte_1 << 8) | op_byte_2,
                    op_byte_1 < 0x100,
                    op_byte_2 < 0x100,
            ;
        }
        op
    }

    /// `Add(x, y)`: store the 8-bit-wrapped sum of registers `x` and `y`
    /// into register `x`, then overwrite the flag register with 1 if the sum
    /// overflowed eight bits and with 0 otherwise. Memory, call stack and
    /// program counter are untouched.
    pub fn add(&mut self, x: u8, y: u8)
        requires
            old(self).wf(),
            x < REGISTER_COUNT,
            y < REGISTER_COUNT,
        ensures
            final(self).wf(),
            final(self)@.regs == add_regs(old(self)@.regs, x as int, y as int),
            final(self)@.mem == old(self)@.mem,
            final(self)@.stack == old(self)@.stack,
            final(self)@.pc == old(self)@.pc,
    {
        let arg1 = self.registers[x as usize];
        let arg2 = self.registers[y as usize];

        let sum: u16 = arg1 as u16 + arg2 as u16;
        let result: u8 = (sum % 0x100) as u8;
        self.registers[x as usize] = result;

        if sum >= 0x100 {
            self.registers[FLAG_REGISTER] = 1;
        } else {
            self.registers[FLAG_REGISTER] = 0;
        }
    }

    /// `Call(addr)`: push the current program counter onto the call stack as
    /// the return address, then jump to `addr`. Exactly when the stack
    /// already holds [`STACK_CAPACITY`] addresses the call fails with
    /// [`Fault::StackOverflow`] and the machine is unchanged.
    pub fn call_subroutine(&mut self, addr: u16) -> (r: Result<(), Fault>)
        requires
            old(self).wf(),
        ensures
            final(self).wf(),
            old(self)@.stack.len() < STACK_CAPACITY ==> {
                &&& r == Ok::<(), Fault>(())
                &&& final(self)@.stack == old(self)@.stack.push(old(self)@.pc as u16)
                &&& final(self)@.pc == addr as int
                &&& final(self)@.regs == old(self)@.regs
                &&& final(self)@.mem == old(self)@.mem
            },
            old(self)@.stack.len() >= STACK_CAPACITY ==> {
                &&& r == Err::<(), Fault>(Fault::StackOverflow { pc: old(self)@.pc as u16 })
                &&& final(self)@ == old(self)@
            },
    {
        if self.stack.len() >= STACK_CAPACITY {
            return Err(Fault::StackOverflow { pc: self.position_in_memory as u16 });
        }
        self.stack.push(self.position_in_memory as u16);
        self.position_in_memory = addr as usize;
        Ok(())
    }

    /// `Return`: pop the most recent return address off the call stack into
    /// the program counter. Exactly when the stack is empty the return fails
    /// with [`Fault::StackUnderflow`] and the machine is unchanged.
    pub fn return_from_subroutine(&mut self) -> (r: Result<(), Fault>)
        requires
            old(self).wf(),
        ensures
            final(self).wf(),
            old(self)@.stack.len() > 0 ==> {
                &&& r == Ok::<(), Fault>(())
                &&& final(self)@.stack == old(self)@.stack.drop_last()
                &&& final(self)@.pc == old(self)@.stack.last() as int
                &&& final(self)@.regs == old(self)@.regs
                &&& final(self)@.mem == old(self)@.mem
            },
            old(self)@.stack.len() == 0 ==> {
                &&& r == Err::<(), Fault>(Fault::StackUnderflow { pc: old(self)@.pc as u16 })
                &&& final(self)@ == old(self)@
            },
    {
        match self.stack.pop() {
            Some(call_addr) => {
                self.position_in_memory = call_addr as usize;
                Ok(())
            },
            None => Err(Fault::StackUnderflow { pc: self.position_in_memory as u16 }),
        }
    }

    /// One atomic step: fetch the instruction word at the program counter,
    /// advance the counter past it, and dispatch. Returns `Ok(false)` when
    /// execution goes on, `Ok(true)` when the halt instruction was executed,
    /// and the fault when the step faulted. The result and the new machine
    /// state are exactly what [`step_of`] says for the old state.
    pub fn step(&mut self) -> (r: Result<bool, Fault>)
        requires
            old(self).wf(),
        ensures
            final(self).wf(),
            (match step_of(old(self)@) {
                StepResult::Next(t) => r == Ok::<bool, Fault>(false) && final(self)@ == t,
                StepResult::Halted(t) => r == Ok::<bool, Fault>(true) && final(self)@ == t,
                StepResult::Faulted(t, f) => r == Err::<bool, Fault>(f) && final(self)@ == t,
            }),
    {
        let pc = self.position_in_memory;
        if pc + 2 > MEMORY_SIZE {
            return Err(Fault::OutOfBounds { pc: pc as u16 });
        }

        let opcode = self.read_opcode();
        self.position_in_memory = pc + 2;

        let c = ((opcode & 0xF000) >> 12) as u8;
        let x = ((opcode & 0x0F00) >> 8) as u8;
        let y = ((opcode & 0x00F0) >> 4) as u8;
        let n = (opcode & 0x000F) as u8;
        let nnn = opcode & 0x0FFF;

        proof {
            assert(((opcode & 0xF000) >> 12) == opcode / 0x1000 && ((opcode & 0x0F00) >> 8) == (
            opcode / 0x100) % 0x10 && ((opcode & 0x00F0) >> 4) == (opcode / 0x10) % 0x10 && (opcode
                & 0x000F) == opcode % 0x10 && (opcode & 0x0FFF) == opcode % 0x1000 && opcode
                / 0x1000 < 0x10 && (opcode / 0x100) % 0x10 < 0x10 && (opcode / 0x10) % 0x10 < 0x10)
                by (bit_vector);
            assert(c == op_c(opcode as int));
            assert(x == op_x(opcode as int));
            assert(y == op_y(opcode as int));
            assert(n == op_n(opcode as int));
            assert(nnn == op_nnn(opcode as int));
        }

        if opcode == 0 {
            Ok(true)
        } else if y == 0xE && n == 0xE {
            match self.return_from_subroutine() {
                Ok(()) => Ok(false),
                Err(f) => Err(f),
            }
        } else if c == 0x2 {
            match self.call_subroutine(nnn) {
                Ok(()) => Ok(false),
                Err(f) => Err(f),
            }
        } else if c == 0x8 && n == 0x4 {
            self.add(x, y);
            Ok(false)
        } else {
            Err(Fault::UnimplementedOpcode { pc: self.position_in_memory as u16, opcode })
        }
    }

    /// Run the fetch-decode-execute loop until the halt instruction stops it
    /// or a fatal fault aborts it. On `Ok` the machine executed a halt; on
    /// `Err` the returned fault says what went wrong and where. Either way
    /// the final machine state is exactly the one the spec-level execution
    /// from the initial state reaches, and — since no instruction writes
    /// memory — the loaded program is untouched.
    #[verifier::loop_isolation(false)]
    pub fn run(&mut self) -> (r: Result<(), Fault>)
        requires
            old(self).wf(),
        ensures
            final(self).wf(),
            final(self)@.mem == old(self)@.mem,
            (match r {
                Ok(()) => run_outcome(old(self)@, StepResult::Halted(final(self)@)),
                Err(f) => run_outcome(old(self)@, StepResult::Faulted(final(self)@, f)),
            }),
    {
        let ghost init: State = self@;
        proof {
            assert(iter_step(init, 0) == Some(init));
        }
        loop
            invariant
                self.wf(),
                self@.mem == init.mem,
                exists|n: nat| iter_step(init, n) == Some(self@),
            decreases
                level(self@, 0),
                level(self@, 1),
                level(self@, 2),
                level(self@, 3),
                level(self@, 4),
                level(self@, 5),
                level(self@, 6),
                level(self@, 7),
                level(self@, 8),
                level(self@, 9),
                level(self@, 10),
                level(self@, 11),
                level(self@, 12),
                level(self@, 13),
                level(self@, 14),
                level(self@, 15),
                level(self@, 16),
        {
            let ghost pre: State = self@;
            let ghost n0: nat = choose|n: nat| iter_step(init, n) == Some(pre);
            match self.step() {
                Ok(false) => {
                    proof {
                        lemma_iter_step_extend(init, n0, pre, self@);
                        lemma_step_level_decreases(pre, self@);
                    }
                },
                Ok(true) => {
                    proof {
                        assert(iter_step(init, n0) == Some(pre) && step_of(pre)
                            == StepResult::Halted(self@));
                    }
                    return Ok(());
                },
                Err(f) => {
                    proof {
                        assert(iter_step(init, n0) == Some(pre) && step_of(pre)
                            == StepResult::Faulted(self@, f));
                    }
                    return Err(f);
                },
            }
        }
    }
}

} // verus!
