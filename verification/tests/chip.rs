use mips_emulator::chip::{op, op_i, op_r, Cpu, Register};
use mips_emulator::mem::Memory;

#[test]
fn basic_computation() {
    let mut cpu = Cpu::default();
    let mut mem = Memory::default();

    cpu[Register::t1] = 32;
    cpu[Register::t2] = 3;
    cpu.do_instruction(op_r(0x20, Register::t0, Register::t1, Register::t2, 0), &mut mem);
    assert_eq!(cpu[Register::t0], 32 + 3);

    cpu[Register::t4] = 10;
    cpu.do_instruction(op_r(0x00, Register::t3, Register::zero, Register::t4, 2), &mut mem);
    assert_eq!(cpu[Register::t3], 10 << 2);
}

#[test]
fn sign_ext() {
    let mut cpu = Cpu::default();
    let mut mem = Memory::default();

    cpu[Register::t1] = 32;
    cpu.do_instruction(op(0x09, op_i(Register::t1, Register::t1, -16)), &mut mem);

    println!("{:08x}", cpu[Register::t1]);
    assert_eq!(cpu[Register::t1], 16);
}

#[test]
fn lenient_parsing() {
    assert_eq!(
        Cpu::from_assembly("add $t0 $t0 $t0").unwrap(),
        Cpu::from_assembly("add $t0, $t0, $t0").unwrap()
    );
}

#[test]
fn chip_basic_computation() {
    let mut cpu = Cpu::default();
    let mut mem = Memory::default();

    cpu[Register::t1] = 32;
    cpu[Register::t2] = 3;
    cpu.do_instruction(op_r(0x20, Register::t0, Register::t1, Register::t2, 0), &mut mem);
    assert_eq!(cpu[Register::t0], 32 + 3);

    cpu[Register::t4] = 10;
    cpu.do_instruction(op_r(0x00, Register::t3, Register::zero, Register::t4, 2), &mut mem);
    assert_eq!(cpu[Register::t3], 10 << 2);
}

#[test]
fn chip_sign_ext() {
    let mut cpu = Cpu::default();
    let mut mem = Memory::default();

    cpu[Register::t1] = 32;
    cpu.do_instruction(op(0x09, op_i(Register::t1, Register::t1, -16)), &mut mem);

    println!("{:08x}", cpu[Register::t1]);
    assert_eq!(cpu[Register::t1], 16);
}

#[test]
fn a_negative_immediate_assembles() {
    assert_eq!(Cpu::from_assembly("addiu $t1, $t1, -16"), Ok(0x2529_FFF0));
    assert_eq!(
        Cpu::from_assembly("addiu $t1, $t1, -16"),
        Ok(op(0x09, op_i(Register::t1, Register::t1, -16)))
    );
    let mut cpu = Cpu::default();
    let mut mem = Memory::default();
    cpu[Register::t1] = 32;
    cpu.do_instruction(Cpu::from_assembly("addiu $t1, $t1, -16").unwrap(), &mut mem);
    assert_eq!(cpu[Register::t1], 16);
}
