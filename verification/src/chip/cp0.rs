//! Coprocessor 0: the registers that record an exception, and the exception causes.

use vstd::prelude::*;

use crate::word;

verus! {

/// The registers of coprocessor 0 that this model uses.
#[derive(Clone, Copy, Debug, PartialEq, Eq, Structural)]
pub enum Cp0Register {
    /// Register 8: the address at which an address error occurred.
    BadVAddr,
    /// Register 12: interrupt mask and enable bits.
    Status,
    /// Register 13: the cause of the most recent exception, in bits 2 to 6.
    Cause,
    /// Register 14, the EPC: the program counter at which the most recent exception
    /// occurred.
    ExPC,
}

/// How many registers coprocessor 0 has.
pub const CP0_REGISTER_COUNT: usize = 16;

impl Cp0Register {
    /// The register's number.
    pub open spec fn spec_index(self) -> usize {
        match self {
            Cp0Register::BadVAddr => 8,
            Cp0Register::Status => 12,
            Cp0Register::Cause => 13,
            Cp0Register::ExPC => 14,
        }
    }

    /// The register's number.
    #[verifier::when_used_as_spec(spec_index)]
    pub fn index(self) -> (i: usize)
        ensures
            i == self.spec_index(),
            i < CP0_REGISTER_COUNT,
    {
        match self {
            Cp0Register::BadVAddr => 8,
            Cp0Register::Status => 12,
            Cp0Register::Cause => 13,
            Cp0Register::ExPC => 14,
        }
    }

    /// Whether `i` is the number of a register that this model uses.
    pub open spec fn is_index(i: usize) -> bool {
        i == 8 || i == 12 || i == 13 || i == 14
    }

    /// The register with the given number, which must be one that this model uses.
    pub fn from_index(i: usize) -> (r: Cp0Register)
        requires
            Self::is_index(i),
        ensures
            r.index() == i,
    {
        match i {
            8 => Cp0Register::BadVAddr,
            12 => Cp0Register::Status,
            13 => Cp0Register::Cause,
            _ => Cp0Register::ExPC,
        }
    }
}

/// Why an exception was raised.
#[derive(Clone, Copy, Debug, PartialEq, Eq, Structural)]
pub enum ExceptionCause {
    /// Hardware interrupt.
    Int,
    /// Address error on a load or an instruction fetch.
    AdEL,
    /// Address error on a store.
    AdES,
    /// Bus error on an instruction fetch.
    Ibe,
    /// Bus error on a data reference.
    Dbe,
    /// The `syscall` instruction.
    Sys,
    /// The `break` instruction.
    Bp,
    /// A word that is no instruction this core executes.
    Ri,
    /// An instruction for a coprocessor that is not there.
    CpU,
    /// Signed overflow in `add`, `addi` or `sub`.
    Ov,
    /// A trap instruction whose condition held.
    Tr,
    /// Floating-point exception.
    Fpe,
}

impl ExceptionCause {
    /// The cause's code, as the Cause register holds it.
    pub open spec fn spec_code(self) -> u8 {
        match self {
            ExceptionCause::Int => 0,
            ExceptionCause::AdEL => 4,
            ExceptionCause::AdES => 5,
            ExceptionCause::Ibe => 6,
            ExceptionCause::Dbe => 7,
            ExceptionCause::Sys => 8,
            ExceptionCause::Bp => 9,
            ExceptionCause::Ri => 10,
            ExceptionCause::CpU => 11,
            ExceptionCause::Ov => 12,
            ExceptionCause::Tr => 13,
            ExceptionCause::Fpe => 15,
        }
    }

    /// The cause's code, as the Cause register holds it.
    #[verifier::when_used_as_spec(spec_code)]
    pub fn code(self) -> (c: u8)
        ensures
            c == self.spec_code(),
            c < 16,
    {
        match self {
            ExceptionCause::Int => 0,
            ExceptionCause::AdEL => 4,
            ExceptionCause::AdES => 5,
            ExceptionCause::Ibe => 6,
            ExceptionCause::Dbe => 7,
            ExceptionCause::Sys => 8,
            ExceptionCause::Bp => 9,
            ExceptionCause::Ri => 10,
            ExceptionCause::CpU => 11,
            ExceptionCause::Ov => 12,
            ExceptionCause::Tr => 13,
            ExceptionCause::Fpe => 15,
        }
    }

    /// The cause with the given code, if the code stands for one.
    pub open spec fn spec_from_code(code: usize) -> Option<ExceptionCause> {
        match code {
            0 => Some(ExceptionCause::Int),
            4 => Some(ExceptionCause::AdEL),
            5 => Some(ExceptionCause::AdES),
            6 => Some(ExceptionCause::Ibe),
            7 => Some(ExceptionCause::Dbe),
            8 => Some(ExceptionCause::Sys),
            9 => Some(ExceptionCause::Bp),
            10 => Some(ExceptionCause::Ri),
            11 => Some(ExceptionCause::CpU),
            12 => Some(ExceptionCause::Ov),
            13 => Some(ExceptionCause::Tr),
            15 => Some(ExceptionCause::Fpe),
            _ => None,
        }
    }

    /// A description of the cause for people to read.
    pub open spec fn spec_friendly_name(self) -> &'static str {
        match self {
            ExceptionCause::Int => "Hardware Interrupt",
            ExceptionCause::AdEL => "Load from Illegal Address",
            ExceptionCause::AdES => "Store to Illegal Address",
            ExceptionCause::Ibe => "Bus Error on Instruction Fetch",
            ExceptionCause::Dbe => "Bus Error on Data Reference",
            ExceptionCause::Sys => "Syscall",
            ExceptionCause::Bp => "Breakpoint",
            ExceptionCause::Ri => "Reserved Instruction",
            ExceptionCause::CpU => "Unimplemented Coprocessor",
            ExceptionCause::Ov => "Arithmetic Overflow",
            ExceptionCause::Tr => "Trap",
            ExceptionCause::Fpe => "Floating Point Exception",
        }
    }

    /// A description of the cause for people to read.
    #[verifier::when_used_as_spec(spec_friendly_name)]
    pub fn friendly_name(self) -> (s: &'static str)
        ensures
            s == self.spec_friendly_name(),
    {
        match self {
            ExceptionCause::Int => "Hardware Interrupt",
            ExceptionCause::AdEL => "Load from Illegal Address",
            ExceptionCause::AdES => "Store to Illegal Address",
            ExceptionCause::Ibe => "Bus Error on Instruction Fetch",
            ExceptionCause::Dbe => "Bus Error on Data Reference",
            ExceptionCause::Sys => "Syscall",
            ExceptionCause::Bp => "Breakpoint",
            ExceptionCause::Ri => "Reserved Instruction",
            ExceptionCause::CpU => "Unimplemented Coprocessor",
            ExceptionCause::Ov => "Arithmetic Overflow",
            ExceptionCause::Tr => "Trap",
            ExceptionCause::Fpe => "Floating Point Exception",
        }
    }
}

impl TryFrom<usize> for ExceptionCause {
    type Error = &'static str;

    /// The cause with the given code; a code that stands for none is an error.
    fn try_from(code: usize) -> (r: Result<Self, &'static str>) {
        match code {
            0 => Ok(ExceptionCause::Int),
            4 => Ok(ExceptionCause::AdEL),
            5 => Ok(ExceptionCause::AdES),
            6 => Ok(ExceptionCause::Ibe),
            7 => Ok(ExceptionCause::Dbe),
            8 => Ok(ExceptionCause::Sys),
            9 => Ok(ExceptionCause::Bp),
            10 => Ok(ExceptionCause::Ri),
            11 => Ok(ExceptionCause::CpU),
            12 => Ok(ExceptionCause::Ov),
            13 => Ok(ExceptionCause::Tr),
            15 => Ok(ExceptionCause::Fpe),
            _ => Err("unknown cause"),
        }
    }
}

impl vstd::std_specs::convert::TryFromSpecImpl<usize> for ExceptionCause {
    open spec fn obeys_try_from_spec() -> bool {
        true
    }

    open spec fn try_from_spec(code: usize) -> Result<Self, &'static str> {
        match ExceptionCause::spec_from_code(code) {
            Some(cause) => Ok(cause),
            None => Err("unknown cause"),
        }
    }
}

/// The state of coprocessor 0.
pub struct Cp0 {
    /// While this is set, the host must not step the core. Nothing in the core sets
    /// it; a host may, for instance to end a program.
    pub halt: bool,
    /// The register file.
    pub reg: [word; CP0_REGISTER_COUNT],
    /// The address that the program counter is set to when an exception is raised.
    pub exception_handler: word,
}

/// The state of coprocessor 0, as a mathematical value.
pub struct Cp0State {
    pub halt: bool,
    pub reg: Seq<word>,
    pub exception_handler: word,
}

impl View for Cp0 {
    type V = Cp0State;

    open spec fn view(&self) -> Cp0State {
        Cp0State { halt: self.halt, reg: self.reg@, exception_handler: self.exception_handler }
    }
}

impl Default for Cp0 {
    /// Coprocessor 0 after reset: not halted, every register zero, the exception
    /// handler at address zero.
    fn default() -> (c: Cp0)
        ensures
            c@ == Cp0State::reset(),
    {
        let c = Cp0 { halt: false, reg: [0;CP0_REGISTER_COUNT], exception_handler: 0 };
        assert(c.reg@ =~= Seq::new(CP0_REGISTER_COUNT as nat, |i: int| 0u32));
        c
    }
}

impl Cp0State {
    /// The state after reset.
    pub open spec fn reset() -> Cp0State {
        Cp0State {
            halt: false,
            reg: Seq::new(CP0_REGISTER_COUNT as nat, |i: int| 0u32),
            exception_handler: 0,
        }
    }

    /// The state after an exception with the given cause is recorded for the
    /// instruction at `pc`: EPC holds `pc`, and the cause's code is or-ed into bits 2
    /// to 6 of Cause.
    pub open spec fn record(self, cause: ExceptionCause, pc: word) -> Cp0State {
        Cp0State {
            reg: self.reg.update(Cp0Register::ExPC.index() as int, pc).update(
                Cp0Register::Cause.index() as int,
                self.reg[Cp0Register::Cause.index() as int] | ((cause.code() as word) << 2),
            ),
            ..self
        }
    }
}

impl core::ops::Index<Cp0Register> for Cp0 {
    type Output = word;

    fn index(&self, index: Cp0Register) -> (out: &word)
        ensures
            *out == self@.reg[index.index() as int],
    {
        &self.reg[index.index()]
    }
}

impl vstd::std_specs::core::IndexSpecImpl<Cp0Register> for Cp0 {
    open spec fn index_req(&self, index: &Cp0Register) -> bool {
        true
    }
}

impl core::ops::IndexMut<Cp0Register> for Cp0 {
    fn index_mut(&mut self, index: Cp0Register) -> (out: &mut word)
        ensures
            *out == old(self)@.reg[index.index() as int],
            final(self)@ == (Cp0State {
                reg: old(self)@.reg.update(index.index() as int, *final(out)),
                ..old(self)@
            }),
    {
        &mut self.reg[index.index()]
    }
}

} // verus!
