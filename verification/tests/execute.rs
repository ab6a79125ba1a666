use mips_emulator::chip::{
    op, op_i, op_j, op_r, op_syscall, Cp0Register, Cpu, ExceptionCause, Register,
};
use mips_emulator::mem::Memory;

fn machine() -> (Cpu, Memory) {
    (Cpu::default(), Memory::default())
}

fn run_r(funct: u8, rs: u32, rt: u32, shamt: u8) -> Cpu {
    let (mut cpu, mut mem) = machine();
    cpu[Register::t1] = rs;
    cpu[Register::t2] = rt;
    cpu.do_instruction(op_r(funct, Register::t0, Register::t1, Register::t2, shamt), &mut mem);
    cpu
}

fn run_i(opcode: u8, rs: u32, imm: i16) -> Cpu {
    let (mut cpu, mut mem) = machine();
    cpu[Register::t1] = rs;
    cpu.do_instruction(op(opcode, op_i(Register::t1, Register::t0, imm)), &mut mem);
    cpu
}

#[test]
fn shifts_are_logical() {
    assert_eq!(run_r(0x00, 0, 0x8000_0001, 1)[Register::t0], 2);
    assert_eq!(run_r(0x00, 0, 1, 31)[Register::t0], 0x8000_0000);
    assert_eq!(run_r(0x02, 0, 0x8000_0000, 31)[Register::t0], 1);
    assert_eq!(run_r(0x02, 0, 0xFFFF_FFFF, 4)[Register::t0], 0x0FFF_FFFF);
    assert_eq!(run_r(0x00, 0, 0x1234_5678, 0)[Register::t0], 0x1234_5678);
}

#[test]
fn add_wraps_or_raises() {
    let cpu = run_r(0x20, 5, 0xFFFF_FFFD, 0);
    assert_eq!(cpu[Register::t0], 2);
    assert_eq!(cpu.cp0[Cp0Register::Cause], 0);

    // 0x7FFF_FFFF + 1 leaves the signed range
    let (mut cpu, mut mem) = machine();
    cpu.pc = 0x40;
    cpu.cp0.exception_handler = 0x80;
    cpu[Register::t0] = 77;
    cpu[Register::t1] = 0x7FFF_FFFF;
    cpu[Register::t2] = 1;
    let raised =
        cpu.execute(op_r(0x20, Register::t0, Register::t1, Register::t2, 0), &mut mem);
    assert_eq!(raised, Some(ExceptionCause::Ov));
    assert_eq!(cpu[Register::t0], 77);
    assert_eq!(cpu.cp0[Cp0Register::ExPC], 0x40);
    assert_eq!(cpu.cp0[Cp0Register::Cause], 12 << 2);
    assert_eq!(cpu.pc, 0x80);

    // the most negative sum that still fits
    assert_eq!(run_r(0x20, 0x8000_0000, 0, 0)[Register::t0], 0x8000_0000);
    // one below it does not
    let cpu = run_r(0x20, 0x8000_0000, 0xFFFF_FFFF, 0);
    assert_eq!(cpu.cp0[Cp0Register::Cause], 12 << 2);
    assert_eq!(cpu[Register::t0], 0);
}

#[test]
fn addu_never_raises() {
    let cpu = run_r(0x21, 0x7FFF_FFFF, 1, 0);
    assert_eq!(cpu[Register::t0], 0x8000_0000);
    assert_eq!(cpu.cp0[Cp0Register::Cause], 0);
    assert_eq!(run_r(0x21, 0xFFFF_FFFF, 2, 0)[Register::t0], 1);
}

#[test]
fn sub_wraps_or_raises() {
    assert_eq!(run_r(0x22, 3, 5, 0)[Register::t0], 0xFFFF_FFFE);
    let cpu = run_r(0x22, 0x8000_0000, 1, 0);
    assert_eq!(cpu.cp0[Cp0Register::Cause], 12 << 2);
    assert_eq!(cpu[Register::t0], 0);
    assert_eq!(run_r(0x23, 0x8000_0000, 1, 0)[Register::t0], 0x7FFF_FFFF);
    assert_eq!(run_r(0x23, 0, 1, 0)[Register::t0], 0xFFFF_FFFF);
}

#[test]
fn logic() {
    assert_eq!(run_r(0x24, 0b1100, 0b1010, 0)[Register::t0], 0b1000);
    assert_eq!(run_r(0x25, 0b1100, 0b1010, 0)[Register::t0], 0b1110);
    assert_eq!(run_r(0x26, 0b1100, 0b1010, 0)[Register::t0], 0b0110);
    assert_eq!(run_r(0x27, 0b1100, 0b1010, 0)[Register::t0], 0xFFFF_FFF1);
}

#[test]
fn comparisons() {
    // -1 < 1 signed, but not unsigned
    assert_eq!(run_r(0x2a, 0xFFFF_FFFF, 1, 0)[Register::t0], 1);
    assert_eq!(run_r(0x2b, 0xFFFF_FFFF, 1, 0)[Register::t0], 0);
    assert_eq!(run_r(0x2a, 1, 0xFFFF_FFFF, 0)[Register::t0], 0);
    assert_eq!(run_r(0x2b, 1, 0xFFFF_FFFF, 0)[Register::t0], 1);
    assert_eq!(run_r(0x2a, 7, 7, 0)[Register::t0], 0);
}

#[test]
fn multiplication() {
    // -2 * 3 = -6
    let cpu = run_r(0x18, 0xFFFF_FFFE, 3, 0);
    assert_eq!((cpu.hi, cpu.lo), (0xFFFF_FFFF, 0xFFFF_FFFA));
    // unsigned: 0xFFFFFFFE * 3 = 0x2_FFFF_FFFA
    let cpu = run_r(0x19, 0xFFFF_FFFE, 3, 0);
    assert_eq!((cpu.hi, cpu.lo), (2, 0xFFFF_FFFA));
    // the largest products
    let cpu = run_r(0x18, 0x8000_0000, 0x8000_0000, 0);
    assert_eq!((cpu.hi, cpu.lo), (0x4000_0000, 0));
    let cpu = run_r(0x19, 0xFFFF_FFFF, 0xFFFF_FFFF, 0);
    assert_eq!((cpu.hi, cpu.lo), (0xFFFF_FFFE, 1));
    // the destination register is left alone
    assert_eq!(cpu[Register::t0], 0);
}

#[test]
fn division() {
    // -7 / 2 = -3 remainder -1
    let cpu = run_r(0x1a, 0xFFFF_FFF9, 2, 0);
    assert_eq!((cpu.hi, cpu.lo), (0xFFFF_FFFF, 0xFFFF_FFFD));
    // 7 / -2 = -3 remainder 1
    let cpu = run_r(0x1a, 7, 0xFFFF_FFFE, 0);
    assert_eq!((cpu.hi, cpu.lo), (1, 0xFFFF_FFFD));
    // unsigned
    let cpu = run_r(0x1b, 0xFFFF_FFF9, 2, 0);
    assert_eq!((cpu.hi, cpu.lo), (1, 0x7FFF_FFFC));
    // the quotient that does not fit wraps
    let cpu = run_r(0x1a, 0x8000_0000, 0xFFFF_FFFF, 0);
    assert_eq!((cpu.hi, cpu.lo), (0, 0x8000_0000));
}

#[test]
fn division_by_zero_raises_nothing() {
    for funct in [0x1a, 0x1b] {
        let cpu = run_r(funct, 1234, 0, 0);
        assert_eq!((cpu.hi, cpu.lo), (0, 0xFFFF_FFFF));
        assert_eq!(cpu.cp0[Cp0Register::Cause], 0);
        assert_eq!(cpu.pc, 0);
    }
}

#[test]
fn moves_from_hi_and_lo() {
    let (mut cpu, mut mem) = machine();
    cpu.hi = 11;
    cpu.lo = 22;
    cpu.do_instruction(op_r(0x10, Register::t0, Register::zero, Register::zero, 0), &mut mem);
    cpu.do_instruction(op_r(0x12, Register::t1, Register::zero, Register::zero, 0), &mut mem);
    assert_eq!((cpu[Register::t0], cpu[Register::t1]), (11, 22));
}

#[test]
fn immediates_are_extended_as_the_instruction_asks() {
    // addi and addiu sign-extend
    assert_eq!(run_i(0x08, 32, -16)[Register::t0], 16);
    assert_eq!(run_i(0x09, 0, -1)[Register::t0], 0xFFFF_FFFF);
    // slti compares signed, sltiu unsigned, both against the sign-extended immediate
    assert_eq!(run_i(0x0a, 0xFFFF_FFFE, -1)[Register::t0], 1);
    assert_eq!(run_i(0x0a, 5, -1)[Register::t0], 0);
    assert_eq!(run_i(0x0b, 5, -1)[Register::t0], 1);
    assert_eq!(run_i(0x0b, 0xFFFF_FFFF, -1)[Register::t0], 0);
    // the logical ones zero-extend
    assert_eq!(run_i(0x0c, 0xFFFF_FFFF, -1)[Register::t0], 0x0000_FFFF);
    assert_eq!(run_i(0x0d, 0x1_0000, -1)[Register::t0], 0x0001_FFFF);
    assert_eq!(run_i(0x0e, 0xFFFF_FFFF, -1)[Register::t0], 0xFFFF_0000);
    assert_eq!(run_i(0x0f, 0xFFFF_FFFF, 0x1234)[Register::t0], 0x1234_0000);
}

#[test]
fn addi_near_the_edge() {
    let word = op(0x08, op_i(Register::t0, Register::t0, 0x7fff));
    assert_eq!(Cpu::get_instruction_info(word).unwrap().0, "addi");

    let (mut cpu, mut mem) = machine();
    cpu[Register::t0] = 1;
    cpu.do_instruction(word, &mut mem);
    assert_eq!(cpu[Register::t0], 0x8000);

    let (mut cpu, mut mem) = machine();
    cpu[Register::t0] = 0x7fff_ffff;
    let raised = cpu.execute(word, &mut mem);
    assert_eq!(raised, Some(ExceptionCause::Ov));
    assert_eq!(cpu[Register::t0], 0x7fff_ffff);
    assert_eq!(cpu.cp0[Cp0Register::Cause], 12 << 2);
}

#[test]
fn jumps_leave_their_target_pending() {
    let (mut cpu, mut mem) = machine();
    cpu.pc = 0x100;
    cpu.do_instruction(op(0x02, op_j(0x0040_0020)), &mut mem);
    assert_eq!(cpu.after_delay, Some(0x0040_0020));
    assert_eq!(cpu.pc, 0x100);
    assert_eq!(cpu[Register::ra], 0);

    cpu.after_delay = None;
    cpu.do_instruction(op(0x03, op_j(0x40)), &mut mem);
    assert_eq!(cpu.after_delay, Some(0x40));
    assert_eq!(cpu[Register::ra], 0x108);

    // jr and jalr take the target from a register
    cpu[Register::t1] = 0x2000;
    cpu.do_instruction(op_r(0x08, Register::zero, Register::t1, Register::zero, 0), &mut mem);
    assert_eq!(cpu.after_delay, Some(0x2000));
    cpu[Register::ra] = 0;
    cpu.do_instruction(op_r(0x09, Register::zero, Register::t1, Register::zero, 0), &mut mem);
    assert_eq!(cpu.after_delay, Some(0x2000));
    assert_eq!(cpu[Register::ra], 0x108);
}

#[test]
fn branches() {
    let (mut cpu, mut mem) = machine();
    cpu.pc = 0x100;
    cpu[Register::t1] = 5;
    cpu[Register::t2] = 5;
    // beq taken, 3 words forward of the delay slot
    cpu.do_instruction(op(0x04, op_i(Register::t1, Register::t2, 3)), &mut mem);
    assert_eq!(cpu.after_delay, Some(0x100 + 4 + 12));
    // bne not taken
    cpu.after_delay = None;
    cpu.do_instruction(op(0x05, op_i(Register::t1, Register::t2, 3)), &mut mem);
    assert_eq!(cpu.after_delay, None);
    // bne taken, backwards
    cpu[Register::t2] = 6;
    cpu.do_instruction(op(0x05, op_i(Register::t1, Register::t2, -4)), &mut mem);
    assert_eq!(cpu.after_delay, Some(0x100 + 4 - 16));
    // beq not taken
    cpu.after_delay = None;
    cpu.do_instruction(op(0x04, op_i(Register::t1, Register::t2, 3)), &mut mem);
    assert_eq!(cpu.after_delay, None);
    assert_eq!(cpu.pc, 0x100);
}

#[test]
fn loads_and_stores() {
    let (mut cpu, mut mem) = machine();
    cpu[Register::t1] = 0x1000;
    cpu[Register::t2] = 0xAABB_CCDD;
    // sw at 0x1000 + 8
    cpu.do_instruction(op(0x2b, op_i(Register::t1, Register::t2, 8)), &mut mem);
    assert_eq!(mem.get_word(0x1008), Some(0xAABB_CCDD));
    assert_eq!(mem.get_byte(0x1008), Some(0xDD));
    assert_eq!(mem.get_byte(0x100B), Some(0xAA));
    // lw
    cpu.do_instruction(op(0x23, op_i(Register::t1, Register::t3, 8)), &mut mem);
    assert_eq!(cpu[Register::t3], 0xAABB_CCDD);
    // lhu keeps the low half of the word
    cpu.do_instruction(op(0x25, op_i(Register::t1, Register::t3, 8)), &mut mem);
    assert_eq!(cpu[Register::t3], 0xCCDD);
    // lbu at 0x1000 + 9
    cpu.do_instruction(op(0x24, op_i(Register::t1, Register::t3, 9)), &mut mem);
    assert_eq!(cpu[Register::t3], 0xCC);
    // sb with a negative offset
    cpu.do_instruction(op(0x28, op_i(Register::t1, Register::t2, -1)), &mut mem);
    assert_eq!(mem.get_byte(0x0FFF), Some(0xDD));
    // sh writes the low half as a whole word
    cpu.do_instruction(op(0x29, op_i(Register::t1, Register::t2, 8)), &mut mem);
    assert_eq!(mem.get_word(0x1008), Some(0x0000_CCDD));
}

#[test]
fn failed_accesses_read_zero_and_write_nothing() {
    let (mut cpu, mut mem) = machine();
    mem.set_word(0x1000, 0x1122_3344).unwrap();
    cpu[Register::t1] = 0x1001;
    cpu[Register::t3] = 99;
    // a misaligned lw
    cpu.do_instruction(op(0x23, op_i(Register::t1, Register::t3, 0)), &mut mem);
    assert_eq!(cpu[Register::t3], 0);
    // a misaligned sw
    cpu[Register::t2] = 0xFFFF_FFFF;
    cpu.do_instruction(op(0x2b, op_i(Register::t1, Register::t2, 0)), &mut mem);
    assert_eq!(mem.get_word(0x1000), Some(0x1122_3344));
    // outside the memory
    cpu[Register::t1] = 0x0010_0000;
    cpu[Register::t3] = 99;
    cpu.do_instruction(op(0x24, op_i(Register::t1, Register::t3, 0)), &mut mem);
    assert_eq!(cpu[Register::t3], 0);
    cpu.do_instruction(op(0x28, op_i(Register::t1, Register::t2, 0)), &mut mem);
    assert_eq!(cpu.cp0[Cp0Register::Cause], 0);
    // the address wraps round
    cpu[Register::t1] = 0xFFFF_FFFC;
    cpu.do_instruction(op(0x23, op_i(Register::t1, Register::t3, 0x1004)), &mut mem);
    assert_eq!(cpu[Register::t3], 0x1122_3344);
}

#[test]
fn syscall_break_and_trap() {
    let (mut cpu, mut mem) = machine();
    cpu.pc = 0x24;
    cpu.cp0.exception_handler = 0x200;
    cpu.after_delay = Some(0x44);
    cpu[Register::v0] = 17;
    assert_eq!(cpu.execute(op_syscall(0) | 0x0c, &mut mem), Some(ExceptionCause::Sys));
    assert_eq!(cpu.cp0[Cp0Register::ExPC], 0x24);
    assert_eq!(cpu.cp0[Cp0Register::Cause], 8 << 2);
    assert_eq!(cpu.pc, 0x200);
    assert_eq!(cpu.after_delay, Some(0x44));
    assert_eq!(cpu[Register::v0], 17);
    assert!(!cpu.cp0.halt);

    // a second exception is or-ed into Cause
    assert_eq!(cpu.execute(op_syscall(3) | 0x0d, &mut mem), Some(ExceptionCause::Bp));
    assert_eq!(cpu.cp0[Cp0Register::Cause], (8 << 2) | (9 << 2));
    assert_eq!(cpu.cp0[Cp0Register::ExPC], 0x200);

    // teq
    let (mut cpu, mut mem) = machine();
    cpu[Register::t1] = 4;
    cpu[Register::t2] = 5;
    let teq = op_r(0x34, Register::zero, Register::t1, Register::t2, 0);
    assert_eq!(cpu.execute(teq, &mut mem), None);
    cpu[Register::t2] = 4;
    assert_eq!(cpu.execute(teq, &mut mem), Some(ExceptionCause::Tr));
    assert_eq!(cpu.cp0[Cp0Register::Cause], 13 << 2);
}

#[test]
fn unknown_words_are_reserved_instructions() {
    for word in [
        op_r(0x3f, Register::t0, Register::t1, Register::t2, 0),
        op(0x3f, 0),
        op(0x10, 0),
        op(0x30, op_i(Register::t0, Register::t1, 0)),
        op(0x38, op_i(Register::t0, Register::t1, 0)),
    ] {
        let (mut cpu, mut mem) = machine();
        cpu.pc = 8;
        cpu.cp0.exception_handler = 0x180;
        cpu[Register::t1] = 1;
        assert_eq!(cpu.execute(word, &mut mem), Some(ExceptionCause::Ri));
        assert_eq!(cpu.cp0[Cp0Register::Cause], 10 << 2);
        assert_eq!(cpu.cp0[Cp0Register::ExPC], 8);
        assert_eq!(cpu.pc, 0x180);
        assert_eq!(cpu[Register::t0], 0);
    }
}

fn load(mem: &mut Memory, words: &[u32]) {
    for (i, w) in words.iter().enumerate() {
        mem.set_word(4 * i as u32, *w).unwrap();
    }
}

#[test]
fn the_delay_slot_runs_before_the_branch_takes_effect() {
    let (mut cpu, mut mem) = machine();
    load(
        &mut mem,
        &[
            op(0x04, op_i(Register::zero, Register::zero, 1)),
            op(0x09, op_i(Register::t0, Register::t0, 1)),
            op(0x09, op_i(Register::t0, Register::t0, 100)),
        ],
    );
    cpu.tick_branch_delay(&mut mem);
    assert_eq!(cpu.pc, 4);
    assert_eq!(cpu.after_delay, Some(8));
    cpu.tick_branch_delay(&mut mem);
    assert_eq!(cpu[Register::t0], 1);
    assert_eq!(cpu.pc, 8);
    assert_eq!(cpu.after_delay, None);
    cpu.tick_branch_delay(&mut mem);
    assert_eq!(cpu[Register::t0], 101);
    assert_eq!(cpu.pc, 12);
}

#[test]
fn a_branch_over_one_instruction() {
    let (mut cpu, mut mem) = machine();
    load(
        &mut mem,
        &[
            op(0x04, op_i(Register::zero, Register::zero, 2)),
            op(0x09, op_i(Register::t0, Register::t0, 1)),
            op(0x09, op_i(Register::t0, Register::t0, 100)),
        ],
    );
    cpu.tick_branch_delay(&mut mem);
    cpu.tick_branch_delay(&mut mem);
    assert_eq!(cpu[Register::t0], 1);
    assert_eq!(cpu.pc, 12);
}

#[test]
fn the_target_is_computed_when_the_jump_executes() {
    // jr $t1, and in the delay slot an instruction that changes $t1
    let (mut cpu, mut mem) = machine();
    load(
        &mut mem,
        &[
            op_r(0x08, Register::zero, Register::t1, Register::zero, 0),
            op(0x09, op_i(Register::t1, Register::t1, 0x40)),
        ],
    );
    cpu[Register::t1] = 0x300;
    cpu.tick_branch_delay(&mut mem);
    cpu.tick_branch_delay(&mut mem);
    assert_eq!(cpu[Register::t1], 0x340);
    assert_eq!(cpu.pc, 0x300);
}

#[test]
fn jal_links_past_the_delay_slot() {
    let (mut cpu, mut mem) = machine();
    load(&mut mem, &[0, 0, op(0x03, op_j(0x80)), 0]);
    cpu.pc = 8;
    cpu.tick_branch_delay(&mut mem);
    assert_eq!(cpu[Register::ra], 16);
    assert_eq!(cpu.pc, 12);
    cpu.tick_branch_delay(&mut mem);
    assert_eq!(cpu.pc, 0x80);
}

#[test]
fn an_exception_in_the_delay_slot_keeps_the_jump_pending() {
    let (mut cpu, mut mem) = machine();
    load(&mut mem, &[op(0x02, op_j(0x40)), op_syscall(0) | 0x0c]);
    mem.set_word(0x100, op(0x09, op_i(Register::t0, Register::t0, 7))).unwrap();
    cpu.cp0.exception_handler = 0x100;
    cpu.tick_branch_delay(&mut mem);
    cpu.tick_branch_delay(&mut mem);
    assert_eq!(cpu.pc, 0x100);
    assert_eq!(cpu.cp0[Cp0Register::ExPC], 4);
    assert_eq!(cpu.after_delay, Some(0x40));
    // the step that follows executes the handler's first instruction and consumes it
    cpu.tick_branch_delay(&mut mem);
    assert_eq!(cpu[Register::t0], 7);
    assert_eq!(cpu.pc, 0x40);
    assert_eq!(cpu.after_delay, None);
}

#[test]
fn tick_runs_the_delay_slot_too() {
    let (mut cpu, mut mem) = machine();
    mem.set_word(0, 0x1000_0001).unwrap(); // beq $zero, $zero, +1
    mem.set_word(4, 0x2508_0001).unwrap(); // addiu $t0, $t0, 1
    mem.set_word(8, 0x2508_0064).unwrap(); // addiu $t0, $t0, 100
    cpu.tick(&mut mem);
    assert_eq!(cpu.pc, 4);
    assert_eq!(cpu.after_delay, Some(8));
    cpu.tick(&mut mem);
    assert_eq!(cpu[Register::t0], 1);
    assert_eq!(cpu.reg[8], 1);
    assert_eq!(cpu.pc, 8);
    assert_eq!(cpu.after_delay, None);

    // tick, tick_branch_delay and step are the same step
    let program = [
        op(0x03, op_j(0x10)),
        op(0x09, op_i(Register::t1, Register::t1, 5)),
        0,
        0,
        op_r(0x08, Register::zero, Register::ra, Register::zero, 0),
        op(0x09, op_i(Register::t1, Register::t1, 7)),
    ];
    let (mut a, mut mem_a) = machine();
    let (mut b, mut mem_b) = machine();
    let (mut c, mut mem_c) = machine();
    load(&mut mem_a, &program);
    load(&mut mem_b, &program);
    load(&mut mem_c, &program);
    for _ in 0..6 {
        a.tick(&mut mem_a);
        b.tick_branch_delay(&mut mem_b);
        assert_eq!(c.step(&mut mem_c), None);
        assert_eq!((a.pc, a.reg, a.after_delay), (b.pc, b.reg, b.after_delay));
        assert_eq!((a.pc, a.reg, a.after_delay), (c.pc, c.reg, c.after_delay));
    }
    assert_eq!(a[Register::t1], 12);
    assert_eq!(a[Register::ra], 8);
    assert_eq!(a.pc, 16);

    // an exception sends the program counter to the handler
    let (mut cpu, mut mem) = machine();
    load(&mut mem, &[op_syscall(0) | 0x0c]);
    cpu.cp0.exception_handler = 0x180;
    cpu.tick(&mut mem);
    assert_eq!(cpu.pc, 0x180);
}

#[test]
fn a_step_that_cannot_fetch_does_nothing_but_advance() {
    let (mut cpu, mut mem) = machine();
    cpu.pc = 0x0010_0000;
    cpu[Register::zero] = 5;
    cpu.tick_branch_delay(&mut mem);
    assert_eq!(cpu.pc, 0x0010_0004);
    assert_eq!(cpu[Register::zero], 5);
    cpu.pc = 0xFFFF_FFFC;
    cpu.tick(&mut mem);
    assert_eq!(cpu.pc, 0);
    cpu.pc = 2;
    cpu.tick(&mut mem);
    assert_eq!(cpu.pc, 6);
}

#[test]
fn exception_records_and_redirects() {
    let mut cpu = Cpu::default();
    cpu.pc = 0x1234;
    cpu.cp0.exception_handler = 0x8000_0080;
    cpu[Register::a0] = 3;
    cpu.exception(ExceptionCause::AdEL);
    assert_eq!(cpu.cp0[Cp0Register::ExPC], 0x1234);
    assert_eq!(cpu.cp0[Cp0Register::Cause], 16);
    assert_eq!(cpu.pc, 0x8000_0080);
    assert_eq!(cpu[Register::a0], 3);
    assert_eq!(cpu.cp0[Cp0Register::Status], 0);
    assert_eq!(cpu.cp0[Cp0Register::BadVAddr], 0);
}

#[test]
fn a_fresh_core_is_all_zero() {
    let cpu = Cpu::default();
    assert_eq!(cpu.reg, [0; 32]);
    assert_eq!((cpu.pc, cpu.hi, cpu.lo), (0, 0, 0));
    assert_eq!(cpu.after_delay, None);
    assert_eq!(cpu.cp0.reg, [0; 16]);
    assert_eq!(cpu.cp0.exception_handler, 0);
    assert!(!cpu.cp0.halt);
    let mut cpu = cpu;
    cpu.set(Register::s3, 9);
    assert_eq!(cpu.get(Register::s3), 9);
    assert_eq!(cpu.reg[19], 9);
    cpu.cp0[Cp0Register::Status] = 4;
    assert_eq!(cpu.cp0.reg[12], 4);
}
