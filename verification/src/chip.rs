//! The CPU core: registers, coprocessor 0, instruction codec and execution.

use vstd::prelude::*;

pub mod assembler;
pub mod cp0;
pub mod disassembler;
pub mod execute;
pub mod isa;
pub mod laws;
pub mod lenience;
pub mod register;
pub mod roundtrip;
pub mod semantics;
pub mod text;

pub use self::cp0::{Cp0, Cp0Register, Cp0State, ExceptionCause};
pub use self::isa::{op, op_i, op_j, op_r, op_syscall, InsFormat, Instruction, Opcode};
pub use self::register::Register;

use self::cp0::CP0_REGISTER_COUNT;
use self::register::REGISTER_COUNT;
use crate::word;

verus! {

/// A CPU core.
pub struct Cpu {
    /// The general-purpose registers.
    pub reg: [word; REGISTER_COUNT],
    /// The address of the instruction that is executed next.
    pub pc: word,
    /// High word of the last product, or the last remainder.
    pub hi: word,
    /// Low word of the last product, or the last quotient.
    pub lo: word,
    /// Coprocessor 0, which records exceptions.
    pub cp0: Cp0,
    /// The pending jump: where the program counter goes once the branch delay slot
    /// has been executed. Branches and jumps set it; a step consumes it.
    pub after_delay: Option<word>,
}

/// The state of a core, as a mathematical value.
pub struct CpuState {
    pub reg: Seq<word>,
    pub pc: word,
    pub hi: word,
    pub lo: word,
    pub cp0: Cp0State,
    pub after_delay: Option<word>,
}

impl View for Cpu {
    type V = CpuState;

    open spec fn view(&self) -> CpuState {
        CpuState {
            reg: self.reg@,
            pc: self.pc,
            hi: self.hi,
            lo: self.lo,
            cp0: self.cp0@,
            after_delay: self.after_delay,
        }
    }
}

impl CpuState {
    /// What every core's state satisfies: the register files have their sizes.
    pub open spec fn valid(self) -> bool {
        self.reg.len() == REGISTER_COUNT && self.cp0.reg.len() == CP0_REGISTER_COUNT
    }

    /// The state after reset: everything zero, nothing pending.
    pub open spec fn reset() -> CpuState {
        CpuState {
            reg: Seq::new(REGISTER_COUNT as nat, |i: int| 0u32),
            pc: 0,
            hi: 0,
            lo: 0,
            cp0: Cp0State::reset(),
            after_delay: None,
        }
    }

    /// The value of register `r`.
    pub open spec fn get(self, r: Register) -> word {
        self.reg[r.index() as int]
    }

    /// The state with register `r` set to `v`.
    pub open spec fn set(self, r: Register, v: word) -> CpuState {
        CpuState { reg: self.reg.update(r.index() as int, v), ..self }
    }

    /// The state with a jump to `target` pending.
    pub open spec fn jump_later(self, target: word) -> CpuState {
        CpuState { after_delay: Some(target), ..self }
    }

    /// The state after an exception is raised: coprocessor 0 records the cause and
    /// the program counter, and the program counter goes to the exception handler.
    /// The registers and a pending jump stay as they are.
    pub open spec fn raise(self, cause: ExceptionCause) -> CpuState {
        CpuState { pc: self.cp0.exception_handler, cp0: self.cp0.record(cause, self.pc), ..self }
    }
}

impl Default for Cpu {
    /// A core after reset.
    fn default() -> (c: Cpu)
        ensures
            c@ == CpuState::reset(),
    {
        let c = Cpu {
            reg: [0;REGISTER_COUNT],
            pc: 0,
            hi: 0,
            lo: 0,
            cp0: Cp0::default(),
            after_delay: None,
        };
        assert(c.reg@ =~= Seq::new(REGISTER_COUNT as nat, |i: int| 0u32));
        c
    }
}

impl Cpu {
    /// The state of every core is valid.
    pub proof fn lemma_valid(&self)
        ensures
            self@.valid(),
    {
    }

    /// Reads register `r`.
    pub fn get(&self, r: Register) -> (v: word)
        ensures
            v == self@.get(r),
    {
        self.reg[r.index()]
    }

    /// Writes `v` to register `r`.
    pub fn set(&mut self, r: Register, v: word)
        ensures
            final(self)@ == old(self)@.set(r, v),
    {
        self.reg[r.index()] = v;
    }
}

impl core::ops::Index<Register> for Cpu {
    type Output = word;

    fn index(&self, index: Register) -> (out: &word)
        ensures
            *out == self@.get(index),
    {
        &self.reg[index.index()]
    }
}

impl vstd::std_specs::core::IndexSpecImpl<Register> for Cpu {
    open spec fn index_req(&self, index: &Register) -> bool {
        true
    }
}

impl core::ops::IndexMut<Register> for Cpu {
    fn index_mut(&mut self, index: Register) -> (out: &mut word)
        ensures
            *out == old(self)@.get(index),
            final(self)@ == old(self)@.set(index, *final(out)),
    {
        &mut self.reg[index.index()]
    }
}

} // verus!
