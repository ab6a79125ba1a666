//! Laws of the core: what holds of execution and of the codec for every state and
//! every instruction word.

use vstd::prelude::*;

use crate::chip::cp0::ExceptionCause;
use crate::chip::disassembler::{
    decimal_text, operands_text, register_text, separator, spec_disassembly,
};
use crate::chip::isa::{
    find_key, funct_of, lemma_field_ranges, opcode_of, row_of, spec_instruction,
    spec_instruction_info, InsFormat, Instruction, INSTRUCTION_COUNT,
};
use crate::chip::semantics::{
    add_checked, branch_target, fetch, sign_extend, spec_execute, spec_step, sub_checked,
};
use crate::chip::CpuState;
use crate::chip::register::{lemma_register_index, Register};
use crate::mem::{valid_pages, Pages};
use crate::{lemma_smear_low_half, lemma_wrapping_add, signed, word, wrap};

verus! {

/// Executing an instruction keeps the state of the core and the contents of the
/// memory valid.
pub proof fn lemma_execute_keeps_valid(cpu: CpuState, mem: Pages, ins: word)
    requires
        cpu.valid(),
        valid_pages(mem),
    ensures
        spec_execute(cpu, mem, ins).cpu.valid(),
        valid_pages(spec_execute(cpu, mem, ins).mem),
{
    let i = Instruction(ins);
    lemma_register_index(i.spec_rd());
    lemma_register_index(i.spec_rt());
    lemma_register_index(Register::ra);
}

/// A step keeps the state of the core and the contents of the memory valid.
pub proof fn lemma_step_keeps_valid(cpu: CpuState, mem: Pages)
    requires
        cpu.valid(),
        valid_pages(mem),
    ensures
        spec_step(cpu, mem).0.valid(),
        valid_pages(spec_step(cpu, mem).1),
{
    lemma_execute_keeps_valid(CpuState { after_delay: None, ..cpu }, mem, fetch(mem, cpu.pc));
}

/// Whether `ins` is the instruction `add`.
pub open spec fn is_add(ins: word) -> bool {
    opcode_of(ins) == 0 && funct_of(ins) == 0x20
}

/// Whether `ins` is the instruction `addu`.
pub open spec fn is_addu(ins: word) -> bool {
    opcode_of(ins) == 0 && funct_of(ins) == 0x21
}

/// Whether a number lies in the range of a signed 32-bit word.
pub open spec fn fits_signed(i: int) -> bool {
    -0x8000_0000 <= i <= 0x7FFF_FFFF
}

/// `add` raises the overflow exception exactly when the sum of its operands, read as
/// signed numbers, leaves the signed range. When it does not, the destination holds
/// the sum in two's complement and nothing else changes; when it does, no register
/// changes.
pub proof fn lemma_add_raises_on_overflow(cpu: CpuState, mem: Pages, ins: word)
    requires
        cpu.valid(),
        is_add(ins),
    ensures
        ({
            let i = Instruction(ins);
            let sum = signed(cpu.get(i.rs())) + signed(cpu.get(i.rt()));
            let out = spec_execute(cpu, mem, ins);
            &&& out.raised == Some(ExceptionCause::Ov) <==> !fits_signed(sum)
            &&& out.raised is None <==> fits_signed(sum)
            &&& fits_signed(sum) ==> out.cpu == cpu.set(i.rd(), wrap(sum))
            &&& !fits_signed(sum) ==> out.cpu == cpu.raise(ExceptionCause::Ov) && out.cpu.reg
                == cpu.reg
            &&& out.mem == mem
        }),
{
    reveal(add_checked);
}

/// The number that a 16-bit immediate stands for when it is read as signed.
pub open spec fn signed_half(imm: word) -> int {
    if imm < 0x8000 {
        imm as int
    } else {
        imm as int - 0x1_0000
    }
}

/// Sign extension keeps the number: the sign-extended immediate, read as a signed
/// word, is the immediate read as a signed 16-bit number.
pub proof fn lemma_sign_extend_keeps_the_number(ins: word)
    ensures
        signed(sign_extend(Instruction(ins).spec_imm())) == signed_half(
            Instruction(ins).spec_imm(),
        ),
        -0x8000 <= signed_half(Instruction(ins).spec_imm()) <= 0x7FFF,
{
    lemma_field_ranges(ins);
    lemma_smear_low_half(Instruction(ins).spec_imm());
}

/// Whether `ins` is the instruction `addi`.
pub open spec fn is_addi(ins: word) -> bool {
    opcode_of(ins) == 0x08
}

/// Whether `ins` is the instruction `addiu`.
pub open spec fn is_addiu(ins: word) -> bool {
    opcode_of(ins) == 0x09
}

/// `addi` adds the immediate as a signed 16-bit number, and raises the overflow
/// exception exactly when the sum leaves the signed range; then no register changes.
pub proof fn lemma_addi_raises_on_overflow(cpu: CpuState, mem: Pages, ins: word)
    requires
        cpu.valid(),
        is_addi(ins),
    ensures
        ({
            let i = Instruction(ins);
            let sum = signed(cpu.get(i.rs())) + signed_half(i.spec_imm());
            let out = spec_execute(cpu, mem, ins);
            &&& out.raised == Some(ExceptionCause::Ov) <==> !fits_signed(sum)
            &&& out.raised is None <==> fits_signed(sum)
            &&& fits_signed(sum) ==> out.cpu == cpu.set(i.rt(), wrap(sum))
            &&& !fits_signed(sum) ==> out.cpu == cpu.raise(ExceptionCause::Ov) && out.cpu.reg
                == cpu.reg
            &&& out.mem == mem
        }),
{
    reveal(add_checked);
    lemma_sign_extend_keeps_the_number(ins);
}

/// `addiu` adds the immediate as a signed 16-bit number and wraps; it never raises an
/// exception.
pub proof fn lemma_addiu_wraps(cpu: CpuState, mem: Pages, ins: word)
    requires
        cpu.valid(),
        is_addiu(ins),
    ensures
        ({
            let i = Instruction(ins);
            let out = spec_execute(cpu, mem, ins);
            &&& out.raised is None
            &&& out.cpu == cpu.set(i.rt(), wrap(cpu.get(i.rs()) + signed_half(i.spec_imm())))
            &&& out.mem == mem
        }),
{
    let i = Instruction(ins);
    lemma_sign_extend_keeps_the_number(ins);
    lemma_wrapping_add(cpu.get(i.rs()), sign_extend(i.spec_imm()));
}

/// `addu` never raises an exception: the destination holds the sum of its operands
/// modulo 2^32, which is also the two's-complement form of their signed sum.
pub proof fn lemma_addu_wraps(cpu: CpuState, mem: Pages, ins: word)
    requires
        cpu.valid(),
        is_addu(ins),
    ensures
        ({
            let i = Instruction(ins);
            let a = cpu.get(i.rs());
            let b = cpu.get(i.rt());
            let out = spec_execute(cpu, mem, ins);
            &&& out.raised is None
            &&& out.cpu == cpu.set(i.rd(), wrap(a + b))
            &&& wrap(a + b) == wrap(signed(a) + signed(b))
            &&& out.mem == mem
        }),
{
    let i = Instruction(ins);
    lemma_wrapping_add(cpu.get(i.rs()), cpu.get(i.rt()));
}

/// The target that a branch or jump leaves pending, told from the state before it is
/// executed; `None` for an instruction that is no branch or jump, or a branch that is
/// not taken.
pub open spec fn target_before(cpu: CpuState, ins: word) -> Option<word> {
    let i = Instruction(ins);
    let rs = cpu.get(i.spec_rs());
    let rt = cpu.get(i.spec_rt());
    match i.spec_opcode() {
        0x00 => if i.spec_funct() == 0x08 || i.spec_funct() == 0x09 {
            Some(rs)
        } else {
            None
        },
        0x02 => Some(i.spec_target() << 2),
        0x03 => Some(i.spec_target() << 2),
        0x04 => if rs == rt {
            Some(branch_target(cpu.pc, i.spec_imm()))
        } else {
            None
        },
        0x05 => if rs != rt {
            Some(branch_target(cpu.pc, i.spec_imm()))
        } else {
            None
        },
        _ => None,
    }
}

/// Whether `ins` is `jalr` with the return address register as its source. It links
/// first and jumps then, so that it jumps to the address it has just linked.
pub open spec fn is_jalr_through_ra(ins: word) -> bool {
    opcode_of(ins) == 0 && funct_of(ins) == 0x09 && Instruction(ins).spec_rs() == Register::ra
}

/// A branch or jump takes its target from the state in which it is executed: what it
/// leaves pending is told by the registers and the program counter before it, whatever
/// the instruction in its delay slot does to them afterwards. The one exception is
/// `jalr` through the return address register, which jumps to its own return address.
pub proof fn lemma_target_is_taken_before(cpu: CpuState, mem: Pages, ins: word)
    requires
        cpu.valid(),
        cpu.after_delay is None,
    ensures
        !is_jalr_through_ra(ins) ==> spec_execute(cpu, mem, ins).cpu.after_delay == target_before(
            cpu,
            ins,
        ),
        is_jalr_through_ra(ins) ==> spec_execute(cpu, mem, ins).cpu.after_delay == Some(
            cpu.pc.wrapping_add(8),
        ),
{
    let i = Instruction(ins);
    lemma_field_ranges(ins);
    lemma_register_index(i.spec_rs());
    lemma_register_index(i.spec_rt());
    lemma_register_index(i.spec_rd());
    lemma_register_index(Register::ra);
    reveal(add_checked);
    reveal(sub_checked);
    if i.spec_rs() != Register::ra {
        assert(i.spec_rs().spec_index() != Register::ra.spec_index()) by {
            reveal(Register::spec_index);
        }
    }
}

/// The delay slot. Let a step (a `tick`) execute a branch or jump that is taken, with
/// nothing pending beforehand, and let the next step execute an instruction that
/// raises no exception. Then after the two steps the program counter is the target that the
/// branch or jump computed from the state it was executed in, and the registers, HI,
/// LO and the memory are what the second instruction made of the state that the
/// first one left.
pub proof fn lemma_delay_slot(cpu: CpuState, mem: Pages)
    requires
        cpu.valid(),
        cpu.after_delay is None,
        spec_execute(cpu, mem, fetch(mem, cpu.pc)).raised is None,
        spec_execute(cpu, mem, fetch(mem, cpu.pc)).cpu.after_delay is Some,
        ({
            let (between, mem1) = spec_step(cpu, mem);
            spec_execute(
                CpuState { after_delay: None, ..between },
                mem1,
                fetch(mem1, between.pc),
            ).raised is None
        }),
    ensures
        ({
            let first = spec_execute(cpu, mem, fetch(mem, cpu.pc));
            let target = first.cpu.after_delay->0;
            let (between, mem1) = spec_step(cpu, mem);
            let slot = fetch(mem1, cpu.pc.wrapping_add(4));
            let second = spec_execute(CpuState { after_delay: None, ..between }, mem1, slot);
            let (after, mem2) = spec_step(between, mem1);
            &&& between.pc == cpu.pc.wrapping_add(4)
            &&& between.reg == first.cpu.reg
            &&& mem1 == first.mem
            &&& after.pc == target
            &&& after.reg == second.cpu.reg
            &&& after.hi == second.cpu.hi
            &&& after.lo == second.cpu.lo
            &&& mem2 == second.mem
        }),
{
}

/// The text of an instruction in the register format without a shift amount holds its
/// three registers and nothing after them; the shift amount field of the word does not
/// show in it.
pub proof fn lemma_no_shift_amount_in_text(ins: word)
    requires
        spec_instruction_info(ins) matches Some((_, format)) && format == InsFormat::R(false),
    ensures
        ({
            let i = Instruction(ins);
            let name = match spec_instruction_info(ins) {
                Some((name, _)) => name,
                None => "",
            };
            let registers = register_text(i.rd()) + separator() + register_text(i.rs())
                + separator() + register_text(i.rt());
            &&& spec_disassembly(ins) == Some(name@ + seq![' '] + registers)
            &&& operands_text(InsFormat::R(true), ins) == registers + separator() + decimal_text(
                i.shamt(),
            )
        }),
{
}

/// The row of the instruction table for the instruction that executing `ins`
/// performs, or `None` for a word that is executed as a reserved instruction.
pub open spec fn executed_row(ins: word) -> Option<usize> {
    match Instruction(ins).spec_opcode() {
        0x00 => match Instruction(ins).spec_funct() {
            0x00 => Some(0),
            0x02 => Some(1),
            0x08 => Some(2),
            0x09 => Some(3),
            0x0c => Some(4),
            0x0d => Some(5),
            0x10 => Some(6),
            0x12 => Some(7),
            0x18 => Some(8),
            0x19 => Some(9),
            0x1a => Some(10),
            0x1b => Some(11),
            0x20 => Some(12),
            0x21 => Some(13),
            0x22 => Some(14),
            0x23 => Some(15),
            0x24 => Some(16),
            0x25 => Some(17),
            0x26 => Some(18),
            0x27 => Some(19),
            0x2a => Some(20),
            0x2b => Some(21),
            0x34 => Some(22),
            _ => None,
        },
        0x02 => Some(24),
        0x03 => Some(25),
        0x04 => Some(26),
        0x05 => Some(27),
        0x08 => Some(28),
        0x09 => Some(29),
        0x0a => Some(30),
        0x0b => Some(31),
        0x0c => Some(32),
        0x0d => Some(33),
        0x0e => Some(34),
        0x0f => Some(35),
        0x23 => Some(36),
        0x24 => Some(37),
        0x25 => Some(38),
        0x28 => Some(39),
        0x29 => Some(40),
        0x2b => Some(41),
        _ => None,
    }
}

/// No two rows of the table before the last are selected alike; the last row, `nop`,
/// is selected as the first is.
proof fn lemma_rows_differ(i: usize, k: usize)
    requires
        k < i < INSTRUCTION_COUNT - 1,
    ensures
        spec_instruction(k).0 != spec_instruction(i).0,
{
    reveal(spec_instruction);
}

/// The decoder finds row `i` for its own selector.
proof fn lemma_find_row(i: usize, from: usize)
    requires
        from <= i < INSTRUCTION_COUNT - 1,
    ensures
        find_key(spec_instruction(i).0, from) == Some(i),
    decreases i - from,
{
    if from < i {
        lemma_rows_differ(i, from);
        lemma_find_row(i, (from + 1) as usize);
    }
}

/// The executor and the table agree. Every word that is executed as an instruction
/// is decoded as that instruction by the table, and every word that raises the
/// reserved-instruction exception is one that is executed as no instruction; a word
/// that the table does not know is among them.
pub proof fn lemma_executor_follows_table(cpu: CpuState, mem: Pages, ins: word)
    requires
        cpu.valid(),
    ensures
        executed_row(ins) matches Some(i) ==> row_of(ins) == Some(i),
        spec_execute(cpu, mem, ins).raised == Some(ExceptionCause::Ri) <==> executed_row(ins)
            is None,
        row_of(ins) is None ==> spec_execute(cpu, mem, ins).raised == Some(ExceptionCause::Ri),
{
    lemma_field_ranges(ins);
    match executed_row(ins) {
        Some(i) => {
            lemma_find_row(i, 0);
            assert(spec_instruction(i).0 == Instruction(ins).spec_key()) by {
                reveal(spec_instruction);
            }
        },
        None => {},
    }
    reveal(add_checked);
    reveal(sub_checked);
}

} // verus!
