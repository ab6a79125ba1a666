//! What each instruction does, as mathematics: a function from the state of the core
//! and the memory, and an instruction word, to the state afterwards.

use vstd::prelude::*;

use crate::chip::cp0::ExceptionCause;
use crate::chip::isa::Instruction;
use crate::chip::register::Register;
use crate::chip::CpuState;
use crate::mem::{spec_get_byte, spec_get_word, spec_set_byte, spec_set_word, Pages};
use crate::{signed, spec_smear_bit, word, wrap};

verus! {

/// What executing one instruction leads to.
pub struct Outcome {
    /// The core afterwards.
    pub cpu: CpuState,
    /// The memory afterwards.
    pub mem: Pages,
    /// The exception that the instruction raised, if it raised one.
    pub raised: Option<ExceptionCause>,
}

/// The instruction completed without an exception.
pub open spec fn done(cpu: CpuState, mem: Pages) -> Outcome {
    Outcome { cpu, mem, raised: None }
}

/// The instruction raised an exception, and changed nothing else.
pub open spec fn raised(cpu: CpuState, mem: Pages, cause: ExceptionCause) -> Outcome {
    Outcome { cpu: cpu.raise(cause), mem, raised: Some(cause) }
}

/// A 16-bit immediate, sign-extended to a word.
pub open spec fn sign_extend(imm: word) -> word {
    spec_smear_bit(imm, 15)
}

/// The sum of two words read as signed numbers, or `None` if it overflows the signed
/// range.
#[verifier::opaque]
pub open spec fn add_checked(a: word, b: word) -> Option<word> {
    let sum = signed(a) + signed(b);
    if -0x8000_0000 <= sum <= 0x7FFF_FFFF {
        Some(wrap(sum))
    } else {
        None
    }
}

/// The difference of two words read as signed numbers, or `None` if it overflows the
/// signed range.
#[verifier::opaque]
pub open spec fn sub_checked(a: word, b: word) -> Option<word> {
    let difference = signed(a) - signed(b);
    if -0x8000_0000 <= difference <= 0x7FFF_FFFF {
        Some(wrap(difference))
    } else {
        None
    }
}

/// Absolute value.
pub open spec fn magnitude(i: int) -> int {
    if i < 0 {
        -i
    } else {
        i
    }
}

/// Quotient of `a` by a non-zero `b`, rounded toward zero.
pub open spec fn quotient(a: int, b: int) -> int {
    let q = magnitude(a) / magnitude(b);
    if (a < 0) != (b < 0) {
        -q
    } else {
        q
    }
}

/// Remainder of `a` by a non-zero `b`; it has the sign of `a`.
pub open spec fn remainder(a: int, b: int) -> int {
    let r = magnitude(a) % magnitude(b);
    if a < 0 {
        -r
    } else {
        r
    }
}

/// HI and LO after a signed division of `a` by `b`: remainder and quotient. Division
/// by zero raises nothing; it leaves zero in HI and all bits set in LO.
#[verifier::opaque]
pub open spec fn divide_signed(a: word, b: word) -> (word, word) {
    if b == 0 {
        (0, 0xFFFF_FFFF)
    } else {
        (wrap(remainder(signed(a), signed(b))), wrap(quotient(signed(a), signed(b))))
    }
}

/// HI and LO after an unsigned division of `a` by `b`: remainder and quotient.
/// Division by zero raises nothing; it leaves zero in HI and all bits set in LO.
#[verifier::opaque]
pub open spec fn divide_unsigned(a: word, b: word) -> (word, word) {
    if b == 0 {
        (0, 0xFFFF_FFFF)
    } else {
        (a % b, a / b)
    }
}

/// HI and LO that hold the 64-bit two's-complement form of `product`: its high and low
/// words.
pub open spec fn split_product(product: int) -> (word, word) {
    (wrap(product / 0x1_0000_0000), wrap(product))
}

/// HI and LO after a signed multiplication: the 64-bit product of the two words read as
/// signed numbers.
#[verifier::opaque]
pub open spec fn multiply_signed(a: word, b: word) -> (word, word) {
    split_product(signed(a) * signed(b))
}

/// HI and LO after an unsigned multiplication: the 64-bit product of the two words.
#[verifier::opaque]
pub open spec fn multiply_unsigned(a: word, b: word) -> (word, word) {
    split_product(a * b)
}

/// 1 if the condition holds, 0 if not.
pub open spec fn flag(condition: bool) -> word {
    if condition {
        1
    } else {
        0
    }
}

/// The target of a taken branch at `pc`: the address of the delay slot plus the
/// sign-extended immediate as a count of words.
pub open spec fn branch_target(pc: word, imm: word) -> word {
    pc.wrapping_add(sign_extend(imm) << 2).wrapping_add(4)
}

/// The address that a load or store refers to: base register plus sign-extended
/// immediate, wrapping.
pub open spec fn effective_address(base: word, imm: word) -> word {
    base.wrapping_add(sign_extend(imm))
}

/// The word that a load reads at `addr`. An address that is misaligned or outside the
/// memory reads as zero.
pub open spec fn load_word(mem: Pages, addr: word) -> word {
    match spec_get_word(mem, addr) {
        Some(w) => w,
        None => 0,
    }
}

/// The byte that a load reads at `addr`. An address outside the memory reads as zero.
pub open spec fn load_byte(mem: Pages, addr: word) -> u8 {
    match spec_get_byte(mem, addr) {
        Some(b) => b,
        None => 0,
    }
}

/// The memory after a word is stored at `addr`. A store to an address that is
/// misaligned or outside the memory changes nothing.
pub open spec fn store_word(mem: Pages, addr: word, val: word) -> Pages {
    match spec_set_word(mem, addr, val) {
        Some(m) => m,
        None => mem,
    }
}

/// The memory after a byte is stored at `addr`. A store to an address outside the
/// memory changes nothing.
pub open spec fn store_byte(mem: Pages, addr: word, val: u8) -> Pages {
    match spec_set_byte(mem, addr, val) {
        Some(m) => m,
        None => mem,
    }
}

/// The word at `pc` as a step fetches it. Where nothing can be fetched (a program
/// counter that is misaligned or outside the memory), the step executes the all-zero
/// word, which does nothing.
pub open spec fn fetch(mem: Pages, pc: word) -> word {
    load_word(mem, pc)
}

/// What an instruction with primary opcode 0x00 does; the function code decides.
pub open spec fn execute_function(cpu: CpuState, mem: Pages, ins: word) -> Outcome {
    let i = Instruction(ins);
    let rs = cpu.get(i.rs());
    let rt = cpu.get(i.rt());
    match i.funct() {
        // sll
        0x00 => done(cpu.set(i.rd(), rt << i.shamt()), mem),
        // srl
        0x02 => done(cpu.set(i.rd(), rt >> i.shamt()), mem),
        // jr
        0x08 => done(cpu.jump_later(rs), mem),
        // jalr
        0x09 => {
            let linked = cpu.set(Register::ra, cpu.pc.wrapping_add(8));
            done(linked.jump_later(linked.get(i.rs())), mem)
        },
        // syscall
        0x0c => raised(cpu, mem, ExceptionCause::Sys),
        // break
        0x0d => raised(cpu, mem, ExceptionCause::Bp),
        // mfhi
        0x10 => done(cpu.set(i.rd(), cpu.hi), mem),
        // mflo
        0x12 => done(cpu.set(i.rd(), cpu.lo), mem),
        // mult
        0x18 => {
            let (hi, lo) = multiply_signed(rs, rt);
            done(CpuState { hi, lo, ..cpu }, mem)
        },
        // multu
        0x19 => {
            let (hi, lo) = multiply_unsigned(rs, rt);
            done(CpuState { hi, lo, ..cpu }, mem)
        },
        // div
        0x1a => {
            let (hi, lo) = divide_signed(rs, rt);
            done(CpuState { hi, lo, ..cpu }, mem)
        },
        // divu
        0x1b => {
            let (hi, lo) = divide_unsigned(rs, rt);
            done(CpuState { hi, lo, ..cpu }, mem)
        },
        // add
        0x20 => match add_checked(rs, rt) {
            Some(sum) => done(cpu.set(i.rd(), sum), mem),
            None => raised(cpu, mem, ExceptionCause::Ov),
        },
        // addu
        0x21 => done(cpu.set(i.rd(), rs.wrapping_add(rt)), mem),
        // sub
        0x22 => match sub_checked(rs, rt) {
            Some(difference) => done(cpu.set(i.rd(), difference), mem),
            None => raised(cpu, mem, ExceptionCause::Ov),
        },
        // subu
        0x23 => done(cpu.set(i.rd(), rs.wrapping_sub(rt)), mem),
        // and
        0x24 => done(cpu.set(i.rd(), rs & rt), mem),
        // or
        0x25 => done(cpu.set(i.rd(), rs | rt), mem),
        // xor
        0x26 => done(cpu.set(i.rd(), rs ^ rt), mem),
        // nor
        0x27 => done(cpu.set(i.rd(), !(rs | rt)), mem),
        // slt
        0x2a => done(cpu.set(i.rd(), flag(signed(rs) < signed(rt))), mem),
        // sltu
        0x2b => done(cpu.set(i.rd(), flag(rs < rt)), mem),
        // teq
        0x34 => if rs == rt {
            raised(cpu, mem, ExceptionCause::Tr)
        } else {
            done(cpu, mem)
        },
        _ => raised(cpu, mem, ExceptionCause::Ri),
    }
}

/// What executing the instruction word `ins` does to the core and the memory.
///
/// Branches and jumps do not touch the program counter: they leave their target in
/// `after_delay`. A word that is no instruction which this core executes raises the
/// reserved-instruction exception. An instruction that raises an exception changes
/// nothing but what `CpuState::raise` describes.
pub open spec fn spec_execute(cpu: CpuState, mem: Pages, ins: word) -> Outcome {
    let i = Instruction(ins);
    let rs = cpu.get(i.rs());
    let rt = cpu.get(i.rt());
    let imm = i.imm();
    let addr = effective_address(rs, imm);
    match i.opcode() {
        0x00 => execute_function(cpu, mem, ins),
        // j
        0x02 => done(cpu.jump_later(i.target() << 2), mem),
        // jal
        0x03 => done(
            cpu.set(Register::ra, cpu.pc.wrapping_add(8)).jump_later(i.target() << 2),
            mem,
        ),
        // beq
        0x04 => if rs == rt {
            done(cpu.jump_later(branch_target(cpu.pc, imm)), mem)
        } else {
            done(cpu, mem)
        },
        // bne
        0x05 => if rs != rt {
            done(cpu.jump_later(branch_target(cpu.pc, imm)), mem)
        } else {
            done(cpu, mem)
        },
        // addi
        0x08 => match add_checked(rs, sign_extend(imm)) {
            Some(sum) => done(cpu.set(i.rt(), sum), mem),
            None => raised(cpu, mem, ExceptionCause::Ov),
        },
        // addiu
        0x09 => done(cpu.set(i.rt(), rs.wrapping_add(sign_extend(imm))), mem),
        // slti
        0x0a => done(cpu.set(i.rt(), flag(signed(rs) < signed(sign_extend(imm)))), mem),
        // sltiu
        0x0b => done(cpu.set(i.rt(), flag(rs < sign_extend(imm))), mem),
        // andi
        0x0c => done(cpu.set(i.rt(), rs & imm), mem),
        // ori
        0x0d => done(cpu.set(i.rt(), rs | imm), mem),
        // xori
        0x0e => done(cpu.set(i.rt(), rs ^ imm), mem),
        // lui
        0x0f => done(cpu.set(i.rt(), imm << 16), mem),
        // lw
        0x23 => done(cpu.set(i.rt(), load_word(mem, addr)), mem),
        // lbu
        0x24 => done(cpu.set(i.rt(), load_byte(mem, addr) as word), mem),
        // lhu
        0x25 => done(cpu.set(i.rt(), load_word(mem, addr) & 0xFFFF), mem),
        // sb
        0x28 => done(cpu, store_byte(mem, addr, (rt & 0xFF) as u8)),
        // sh
        0x29 => done(cpu, store_word(mem, addr, rt & 0xFFFF)),
        // sw
        0x2b => done(cpu, store_word(mem, addr, rt)),
        _ => raised(cpu, mem, ExceptionCause::Ri),
    }
}

/// One step of the core.
///
/// The step fetches the word at the program counter and executes it. A jump that was
/// pending when the step began takes effect at its end: the program counter goes to
/// the pending target, or to the next word if nothing was pending. A branch or jump
/// that the step executes only leaves its target pending, so the instruction after it
/// is executed before control is transferred.
///
/// Where the instruction raises an exception, the program counter goes to the
/// exception handler instead, and a jump that was pending stays pending: the step
/// that follows consumes it.
pub open spec fn spec_step(cpu: CpuState, mem: Pages) -> (CpuState, Pages) {
    let pending = cpu.after_delay;
    let out = spec_execute(CpuState { after_delay: None, ..cpu }, mem, fetch(mem, cpu.pc));
    if out.raised is Some {
        (CpuState { after_delay: pending, ..out.cpu }, out.mem)
    } else {
        (
            CpuState {
                pc: match pending {
                    Some(target) => target,
                    None => cpu.pc.wrapping_add(4),
                },
                ..out.cpu
            },
            out.mem,
        )
    }
}

} // verus!
