//! Execution: one instruction, and one step of the core.

use vstd::prelude::*;

use crate::chip::cp0::{Cp0Register, ExceptionCause};
use crate::chip::isa::Instruction;
use crate::chip::register::Register;
use crate::chip::semantics::{
    add_checked, divide_signed, divide_unsigned, execute_function, fetch, flag, load_byte,
    load_word, multiply_signed, multiply_unsigned, spec_execute, spec_step,
    store_byte, store_word, sub_checked, Outcome,
};
use crate::chip::{Cpu, CpuState};
use crate::mem::Memory;
use crate::{signed, smear_bit, word, wrap, WORD_BYTES};

verus! {

/// The value of a word read as a signed number.
fn signed_of(w: word) -> (r: i64)
    ensures
        r == signed(w),
{
    if w < 0x8000_0000 {
        w as i64
    } else {
        w as i64 - 0x1_0000_0000
    }
}

/// The word that holds a number in two's complement.
fn word_of(i: i64) -> (r: word)
    requires
        -0x1_0000_0000 <= i <= 0xFFFF_FFFF,
    ensures
        r == wrap(i as int),
{
    if i >= 0 {
        i as word
    } else {
        (i + 0x1_0000_0000) as word
    }
}

/// Signed addition that reports overflow.
fn add_signed(a: word, b: word) -> (r: Option<word>)
    ensures
        r == add_checked(a, b),
{
    reveal(add_checked);
    let sum = signed_of(a) + signed_of(b);
    if -0x8000_0000 <= sum && sum <= 0x7FFF_FFFF {
        Some(word_of(sum))
    } else {
        None
    }
}

/// Signed subtraction that reports overflow.
fn sub_signed(a: word, b: word) -> (r: Option<word>)
    ensures
        r == sub_checked(a, b),
{
    reveal(sub_checked);
    let difference = signed_of(a) - signed_of(b);
    if -0x8000_0000 <= difference && difference <= 0x7FFF_FFFF {
        Some(word_of(difference))
    } else {
        None
    }
}

/// High and low word of a signed 64-bit product.
fn mul_signed(a: word, b: word) -> (r: (word, word))
    ensures
        r == multiply_signed(a, b),
{
    reveal(multiply_signed);
    let x = signed_of(a);
    let y = signed_of(b);
    assert(-0x4000_0000_0000_0000 <= x * y <= 0x4000_0000_0000_0000) by (nonlinear_arith)
        requires
            -0x8000_0000 <= x <= 0x7FFF_FFFF,
            -0x8000_0000 <= y <= 0x7FFF_FFFF,
    ;
    let p: i64 = x * y;
    let u: u64 = if p >= 0 {
        p as u64
    } else {
        ((p + 0x4000_0000_0000_0000) + 0x4000_0000_0000_0000) as u64 + 0x8000_0000_0000_0000
    };
    ((u / 0x1_0000_0000) as word, (u % 0x1_0000_0000) as word)
}

/// High and low word of an unsigned 64-bit product.
fn mul_unsigned(a: word, b: word) -> (r: (word, word))
    ensures
        r == multiply_unsigned(a, b),
{
    reveal(multiply_unsigned);
    assert(0 <= a * b <= 0xFFFF_FFFE_0000_0001) by (nonlinear_arith)
        requires
            0 <= a <= 0xFFFF_FFFF,
            0 <= b <= 0xFFFF_FFFF,
    ;
    let p: u64 = (a as u64) * (b as u64);
    ((p / 0x1_0000_0000) as word, (p % 0x1_0000_0000) as word)
}

/// Remainder and quotient of a signed division.
fn div_signed(a: word, b: word) -> (r: (word, word))
    ensures
        r == divide_signed(a, b),
{
    reveal(divide_signed);
    if b == 0 {
        return (0, 0xFFFF_FFFF);
    }
    let x = signed_of(a);
    let y = signed_of(b);
    let mx: u32 = if x < 0 {
        (-x) as u32
    } else {
        x as u32
    };
    let my: u32 = if y < 0 {
        (-y) as u32
    } else {
        y as u32
    };
    let q = (mx / my) as i64;
    let m = (mx % my) as i64;
    let quotient = if (x < 0) != (y < 0) {
        -q
    } else {
        q
    };
    let remainder = if x < 0 {
        -m
    } else {
        m
    };
    (word_of(remainder), word_of(quotient))
}

/// Remainder and quotient of an unsigned division.
fn div_unsigned(a: word, b: word) -> (r: (word, word))
    ensures
        r == divide_unsigned(a, b),
{
    reveal(divide_unsigned);
    if b == 0 {
        (0, 0xFFFF_FFFF)
    } else {
        (a % b, a / b)
    }
}

/// 1 if the condition holds, 0 if not.
fn flag_of(condition: bool) -> (r: word)
    ensures
        r == flag(condition),
{
    if condition {
        1
    } else {
        0
    }
}

impl Cpu {
    /// Raises an exception: records its cause and the program counter in coprocessor
    /// 0, and sends the program counter to the exception handler.
    pub fn exception(&mut self, cause: ExceptionCause)
        ensures
            final(self)@ == old(self)@.raise(cause),
    {
        let pc = self.pc;
        let before = self.cp0.reg[Cp0Register::Cause.index()];
        self.cp0.reg[Cp0Register::ExPC.index()] = pc;
        self.cp0.reg[Cp0Register::Cause.index()] = before | ((cause.code() as word) << 2);
        self.pc = self.cp0.exception_handler;
    }

    /// Raises an exception and hands its cause back.
    fn raise(&mut self, cause: ExceptionCause) -> (raised: Option<ExceptionCause>)
        ensures
            final(self)@ == old(self)@.raise(cause),
            raised == Some(cause),
    {
        self.exception(cause);
        Some(cause)
    }

    /// Writes a register; no exception.
    fn write(&mut self, r: Register, v: word) -> (raised: Option<ExceptionCause>)
        ensures
            final(self)@ == old(self)@.set(r, v),
            raised is None,
    {
        self.set(r, v);
        None
    }

    /// Writes HI and LO; no exception.
    fn write_hi_lo(&mut self, hi_lo: (word, word)) -> (raised: Option<ExceptionCause>)
        ensures
            final(self)@ == (CpuState { hi: hi_lo.0, lo: hi_lo.1, ..old(self)@ }),
            raised is None,
    {
        self.hi = hi_lo.0;
        self.lo = hi_lo.1;
        None
    }

    /// Leaves a jump to `target` pending; no exception.
    fn jump_later(&mut self, target: word) -> (raised: Option<ExceptionCause>)
        ensures
            final(self)@ == old(self)@.jump_later(target),
            raised is None,
    {
        self.after_delay = Some(target);
        None
    }

    /// Executes an instruction with primary opcode 0x00 and a function code below
    /// 0x18: shifts, register jumps, `syscall`, `break` and the moves from HI and LO.
    fn do_function_low(&mut self, ins: word) -> (raised: Option<ExceptionCause>)
        requires
            Instruction(ins).funct() < 0x18,
        ensures
            final(self)@ == execute_function(old(self)@, Seq::empty(), ins).cpu,
            raised == execute_function(old(self)@, Seq::empty(), ins).raised,
    {
        let i = Instruction(ins);
        let rs = self.get(i.rs());
        let rt = self.get(i.rt());
        let rd = i.rd();
        match i.funct() {
            0x00 => self.write(rd, rt << i.shamt()),
            0x02 => self.write(rd, rt >> i.shamt()),
            0x08 => self.jump_later(rs),
            0x09 => {
                self.set(Register::ra, self.pc.wrapping_add(8));
                self.jump_later(self.get(i.rs()))
            },
            0x0c => self.raise(ExceptionCause::Sys),
            0x0d => self.raise(ExceptionCause::Bp),
            0x10 => self.write(rd, self.hi),
            0x12 => self.write(rd, self.lo),
            _ => self.raise(ExceptionCause::Ri),
        }
    }

    /// Executes an instruction with primary opcode 0x00 and a function code from 0x18
    /// to 0x1f: multiplication and division.
    fn do_function_multiply(&mut self, ins: word) -> (raised: Option<ExceptionCause>)
        requires
            0x18 <= Instruction(ins).funct() < 0x20,
        ensures
            final(self)@ == execute_function(old(self)@, Seq::empty(), ins).cpu,
            raised == execute_function(old(self)@, Seq::empty(), ins).raised,
    {
        let i = Instruction(ins);
        let rs = self.get(i.rs());
        let rt = self.get(i.rt());
        match i.funct() {
            0x18 => self.write_hi_lo(mul_signed(rs, rt)),
            0x19 => self.write_hi_lo(mul_unsigned(rs, rt)),
            0x1a => self.write_hi_lo(div_signed(rs, rt)),
            0x1b => self.write_hi_lo(div_unsigned(rs, rt)),
            _ => self.raise(ExceptionCause::Ri),
        }
    }

    /// Executes an instruction with primary opcode 0x00 and a function code from 0x20
    /// to 0x23: addition and subtraction.
    fn do_function_add(&mut self, ins: word) -> (raised: Option<ExceptionCause>)
        requires
            0x20 <= Instruction(ins).funct() < 0x24,
        ensures
            final(self)@ == execute_function(old(self)@, Seq::empty(), ins).cpu,
            raised == execute_function(old(self)@, Seq::empty(), ins).raised,
    {
        let i = Instruction(ins);
        let rs = self.get(i.rs());
        let rt = self.get(i.rt());
        let rd = i.rd();
        match i.funct() {
            0x20 => match add_signed(rs, rt) {
                Some(sum) => self.write(rd, sum),
                None => self.raise(ExceptionCause::Ov),
            },
            0x21 => self.write(rd, rs.wrapping_add(rt)),
            0x22 => match sub_signed(rs, rt) {
                Some(difference) => self.write(rd, difference),
                None => self.raise(ExceptionCause::Ov),
            },
            _ => self.write(rd, rs.wrapping_sub(rt)),
        }
    }

    /// Executes an instruction with primary opcode 0x00 and a function code of 0x24
    /// or more: logic, comparisons and `teq`.
    fn do_function_logic(&mut self, ins: word) -> (raised: Option<ExceptionCause>)
        requires
            Instruction(ins).funct() >= 0x24,
        ensures
            final(self)@ == execute_function(old(self)@, Seq::empty(), ins).cpu,
            raised == execute_function(old(self)@, Seq::empty(), ins).raised,
    {
        let i = Instruction(ins);
        let rs = self.get(i.rs());
        let rt = self.get(i.rt());
        let rd = i.rd();
        match i.funct() {
            0x24 => self.write(rd, rs & rt),
            0x25 => self.write(rd, rs | rt),
            0x26 => self.write(rd, rs ^ rt),
            0x27 => self.write(rd, !(rs | rt)),
            0x2a => self.write(rd, flag_of(signed_of(rs) < signed_of(rt))),
            0x2b => self.write(rd, flag_of(rs < rt)),
            0x34 => if rs == rt {
                self.raise(ExceptionCause::Tr)
            } else {
                None
            },
            _ => self.raise(ExceptionCause::Ri),
        }
    }

    /// Executes an instruction with primary opcode 0x00.
    fn do_function(&mut self, ins: word) -> (raised: Option<ExceptionCause>)
        ensures
            final(self)@ == execute_function(old(self)@, Seq::empty(), ins).cpu,
            raised == execute_function(old(self)@, Seq::empty(), ins).raised,
    {
        let funct = Instruction(ins).funct();
        if funct < 0x18 {
            self.do_function_low(ins)
        } else if funct < 0x20 {
            self.do_function_multiply(ins)
        } else if funct < 0x24 {
            self.do_function_add(ins)
        } else {
            self.do_function_logic(ins)
        }
    }

    /// Reads a byte as a load does: an address outside the memory reads as zero.
    pub fn get_byte(mem: &Memory, addr: word) -> (b: u8)
        ensures
            b == load_byte(mem@, addr),
    {
        match mem.get_byte(addr) {
            Some(b) => b,
            None => 0,
        }
    }

    /// Reads a word as a load does: an address that is misaligned or outside the
    /// memory reads as zero.
    pub fn get_word(mem: &Memory, addr: word) -> (w: word)
        ensures
            w == load_word(mem@, addr),
    {
        match mem.get_word(addr) {
            Some(w) => w,
            None => 0,
        }
    }

    /// Writes a byte as a store does: a store to an address outside the memory does
    /// nothing.
    pub fn set_byte(mem: &mut Memory, addr: word, val: u8)
        ensures
            final(mem)@ == store_byte(old(mem)@, addr, val),
    {
        let _ = mem.set_byte(addr, val);
    }

    /// Writes a word as a store does: a store to an address that is misaligned or
    /// outside the memory does nothing.
    pub fn set_word(mem: &mut Memory, addr: word, val: word)
        ensures
            final(mem)@ == store_word(old(mem)@, addr, val),
    {
        let _ = mem.set_word(addr, val);
    }

    /// Executes the instruction word `ins` and says which exception it raised, if any.
    /// The program counter is left alone, except that an exception sends it to the
    /// exception handler.
    pub fn execute(&mut self, ins: word, mem: &mut Memory) -> (raised: Option<ExceptionCause>)
        ensures
            (Outcome { cpu: final(self)@, mem: final(mem)@, raised }) == spec_execute(
                old(self)@,
                old(mem)@,
                ins,
            ),
    {
        let i = Instruction(ins);
        let rs = self.get(i.rs());
        let rt = self.get(i.rt());
        let imm = i.imm();
        let se_imm = smear_bit(imm, 15);
        let addr = rs.wrapping_add(se_imm);
        match i.opcode() {
            0x00 => self.do_function(ins),
            0x02 => self.jump_later(i.target() << 2),
            0x03 => {
                self.set(Register::ra, self.pc.wrapping_add(8));
                self.jump_later(i.target() << 2)
            },
            0x04 => if rs == rt {
                self.jump_later(self.pc.wrapping_add(se_imm << 2).wrapping_add(4))
            } else {
                None
            },
            0x05 => if rs != rt {
                self.jump_later(self.pc.wrapping_add(se_imm << 2).wrapping_add(4))
            } else {
                None
            },
            0x08 => match add_signed(rs, se_imm) {
                Some(sum) => self.write(i.rt(), sum),
                None => self.raise(ExceptionCause::Ov),
            },
            0x09 => self.write(i.rt(), rs.wrapping_add(se_imm)),
            0x0a => self.write(i.rt(), flag_of(signed_of(rs) < signed_of(se_imm))),
            0x0b => self.write(i.rt(), flag_of(rs < se_imm)),
            0x0c => self.write(i.rt(), rs & imm),
            0x0d => self.write(i.rt(), rs | imm),
            0x0e => self.write(i.rt(), rs ^ imm),
            0x0f => self.write(i.rt(), imm << 16),
            0x23 => self.write(i.rt(), Cpu::get_word(mem, addr)),
            0x24 => self.write(i.rt(), Cpu::get_byte(mem, addr) as word),
            0x25 => self.write(i.rt(), Cpu::get_word(mem, addr) & 0xFFFF),
            0x28 => {
                let low = #[verifier::truncate]
                ((rt & 0xFF) as u8);
                Cpu::set_byte(mem, addr, low);
                None
            },
            0x29 => {
                Cpu::set_word(mem, addr, rt & 0xFFFF);
                None
            },
            0x2b => {
                Cpu::set_word(mem, addr, rt);
                None
            },
            _ => self.raise(ExceptionCause::Ri),
        }
    }

    /// Executes the instruction word `ins`.
    pub fn do_instruction(&mut self, ins: word, mem: &mut Memory)
        ensures
            final(self)@ == spec_execute(old(self)@, old(mem)@, ins).cpu,
            final(mem)@ == spec_execute(old(self)@, old(mem)@, ins).mem,
    {
        let _ = self.execute(ins, mem);
    }

    /// Fetches the word at the program counter; where there is none to fetch, the
    /// all-zero word.
    fn fetch_word(&self, mem: &Memory) -> (ins: word)
        ensures
            ins == fetch(mem@, self@.pc),
    {
        Cpu::get_word(mem, self.pc)
    }

    /// Steps the core by one instruction and says which exception the instruction
    /// raised, if any. A branch or jump takes effect only after the instruction that
    /// follows it, the one in its delay slot, has been executed.
    pub fn step(&mut self, mem: &mut Memory) -> (raised: Option<ExceptionCause>)
        ensures
            (final(self)@, final(mem)@) == spec_step(old(self)@, old(mem)@),
            raised == spec_execute(
                CpuState { after_delay: None, ..old(self)@ },
                old(mem)@,
                fetch(old(mem)@, old(self)@.pc),
            ).raised,
    {
        let ins = self.fetch_word(mem);
        let pending = self.after_delay;
        let next_pc = match pending {
            Some(target) => target,
            None => self.pc.wrapping_add(WORD_BYTES),
        };
        self.after_delay = None;
        let raised = self.execute(ins, mem);
        match raised {
            Some(_) => {
                self.after_delay = pending;
            },
            None => {
                self.pc = next_pc;
            },
        }
        raised
    }

    /// Steps the core by one instruction. A branch or jump takes effect only after the
    /// instruction that follows it, the one in its delay slot, has been executed.
    pub fn tick(&mut self, mem: &mut Memory)
        ensures
            (final(self)@, final(mem)@) == spec_step(old(self)@, old(mem)@),
    {
        let _ = self.step(mem);
    }

    /// Steps the core by one instruction, as `tick` does.
    pub fn tick_branch_delay(&mut self, mem: &mut Memory)
        ensures
            (final(self)@, final(mem)@) == spec_step(old(self)@, old(mem)@),
    {
        let _ = self.step(mem);
    }
}

} // verus!
