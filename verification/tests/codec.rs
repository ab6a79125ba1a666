use mips_emulator::chip::assembler::{
    assemble_line, immediate, literal, maybe_comma, register, AsmError,
};
use mips_emulator::chip::text::{digit_value, is_space, parse_number, slice_eq, tokenize};
use mips_emulator::chip::{
    op, op_i, op_j, op_r, op_syscall, Cp0Register, Cpu, ExceptionCause, InsFormat, Instruction,
    Opcode, Register,
};
use mips_emulator::{bits_span, smear_bit};

#[test]
fn bit_fields() {
    assert_eq!(bits_span(0xABCD_1234, 0, 16), 0x1234);
    assert_eq!(bits_span(0xABCD_1234, 16, 16), 0xABCD);
    assert_eq!(bits_span(0xABCD_1234, 28, 4), 0xA);
    assert_eq!(bits_span(0xFFFF_FFFF, 31, 1), 1);
    assert_eq!(bits_span(0xFFFF_FFFF, 0, 31), 0x7FFF_FFFF);
    assert_eq!(bits_span(0xFFFF_FFFF, 5, 0), 0);
    assert_eq!(smear_bit(0b0101, 2), 0xFFFF_FFFD);
    assert_eq!(smear_bit(0b0101, 1), 0b01);
    assert_eq!(smear_bit(0x8000, 15), 0xFFFF_8000);
    assert_eq!(smear_bit(0x7FFF, 15), 0x7FFF);
    assert_eq!(smear_bit(0x1_7FFF, 15), 0x7FFF);
    assert_eq!(smear_bit(0x8000_0001, 31), 0x8000_0001);
    assert_eq!(smear_bit(1, 0), 0xFFFF_FFFF);
}

#[test]
fn instruction_fields() {
    // opcode 0x2b, rs 29, rt 31, imm 0xFFFC
    let i = Instruction(0xAFBF_FFFC);
    assert_eq!(i.opcode(), 0x2b);
    assert_eq!(i.rs(), Register::sp);
    assert_eq!(i.rt(), Register::ra);
    assert_eq!(i.imm(), 0xFFFC);
    assert_eq!(i.key(), Opcode::General(0x2b));
    // add $t0, $t1, $t2
    let i = Instruction(0x012A_4020);
    assert_eq!(i.opcode(), 0);
    assert_eq!((i.rs(), i.rt(), i.rd()), (Register::t1, Register::t2, Register::t0));
    assert_eq!(i.shamt(), 0);
    assert_eq!(i.funct(), 0x20);
    assert_eq!(i.key(), Opcode::Function(0x20));
    assert_eq!(Instruction(0x0000_07C0).shamt(), 31);
    assert_eq!(Instruction(0x0BFF_FFFF).target(), 0x03FF_FFFF);
    assert_eq!(Instruction(0x03FF_FFCC).code(), 0xF_FFFF);
    assert_eq!(Instruction(0x4080_0000).key(), Opcode::Coprocessor(0, 4));
    assert_eq!(Instruction(0x4C00_0000).key(), Opcode::Coprocessor(3, 0));
    assert_eq!(Instruction(0x5000_0000).key(), Opcode::General(0x14));
}

#[test]
fn builders() {
    assert_eq!(op(0x09, 0), 0x2400_0000);
    assert_eq!(op(0x3f, 1), 0xFC00_0001);
    assert_eq!(op_r(0x20, Register::t0, Register::t1, Register::t2, 0), 0x012A_4020);
    assert_eq!(op_r(0x00, Register::t3, Register::zero, Register::t4, 2), 0x000C_5880);
    assert_eq!(op_r(0, Register::ra, Register::ra, Register::ra, 31), 0x03FF_FFC0);
    assert_eq!(op_i(Register::t1, Register::t1, -16), 0x0129_FFF0);
    assert_eq!(op_i(Register::sp, Register::ra, 0x7FFF), 0x03BF_7FFF);
    assert_eq!(op_i(Register::zero, Register::zero, -32768), 0x8000);
    assert_eq!(op_j(0x0040_0020), 0x0010_0008);
    assert_eq!(op_j(7), 1);
    assert_eq!(op_syscall(1), 0x40);
    assert_eq!(op_syscall(0xF_FFFF), 0x03FF_FFC0);
}

#[test]
fn the_table_decodes_every_instruction() {
    let functions = [
        (0x00, "sll", InsFormat::R(true)),
        (0x02, "srl", InsFormat::R(true)),
        (0x08, "jr", InsFormat::J),
        (0x09, "jalr", InsFormat::J),
        (0x0c, "syscall", InsFormat::Sys),
        (0x0d, "break", InsFormat::Sys),
        (0x10, "mfhi", InsFormat::R(false)),
        (0x12, "mflo", InsFormat::R(false)),
        (0x18, "mult", InsFormat::R(false)),
        (0x19, "multu", InsFormat::R(false)),
        (0x1a, "div", InsFormat::R(false)),
        (0x1b, "divu", InsFormat::R(false)),
        (0x20, "add", InsFormat::R(false)),
        (0x21, "addu", InsFormat::R(false)),
        (0x22, "sub", InsFormat::R(false)),
        (0x23, "subu", InsFormat::R(false)),
        (0x24, "and", InsFormat::R(false)),
        (0x25, "or", InsFormat::R(false)),
        (0x26, "xor", InsFormat::R(false)),
        (0x27, "nor", InsFormat::R(false)),
        (0x2a, "slt", InsFormat::R(false)),
        (0x2b, "sltu", InsFormat::R(false)),
        (0x34, "teq", InsFormat::R(false)),
    ];
    for (funct, name, format) in functions {
        let word = op_r(funct, Register::t0, Register::t1, Register::t2, 3);
        assert_eq!(Cpu::get_instruction_info(word), Some((name, format)));
    }
    let generals = [
        (0x02, "j", InsFormat::J),
        (0x03, "jal", InsFormat::J),
        (0x04, "beq", InsFormat::I),
        (0x05, "bne", InsFormat::I),
        (0x08, "addi", InsFormat::I),
        (0x09, "addiu", InsFormat::I),
        (0x0a, "slti", InsFormat::I),
        (0x0b, "sltiu", InsFormat::I),
        (0x0c, "andi", InsFormat::I),
        (0x0d, "ori", InsFormat::I),
        (0x0e, "xori", InsFormat::I),
        (0x0f, "lui", InsFormat::I),
        (0x23, "lw", InsFormat::I),
        (0x24, "lbu", InsFormat::I),
        (0x25, "lhu", InsFormat::I),
        (0x28, "sb", InsFormat::I),
        (0x29, "sh", InsFormat::I),
        (0x2b, "sw", InsFormat::I),
        (0x30, "ll", InsFormat::I),
        (0x38, "sc", InsFormat::I),
    ];
    for (opcode, name, format) in generals {
        assert_eq!(Cpu::get_instruction_info(op(opcode, 0x0123_4567)), Some((name, format)));
    }
    // mfc0 is opcode 0x10 with zero in bits 25..21
    assert_eq!(Cpu::get_instruction_info(0x4008_6000), Some(("mfc0", InsFormat::R(true))));
    assert_eq!(Cpu::get_instruction_info(0x4088_6000), None);
    assert_eq!(Cpu::get_instruction_info(0x4400_0000), None);
    // the all-zero word is sll, not nop
    assert_eq!(Cpu::get_instruction_info(0), Some(("sll", InsFormat::R(true))));
    // words that are in no row
    for word in [0x0000_0001u32, 0x0000_003F, 0x0400_0000, 0x1800_0000, 0xFC00_0000] {
        assert_eq!(Cpu::get_instruction_info(word), None);
        assert_eq!(Cpu::get_disassembly(word), None);
    }
}

fn text(word: u32) -> String {
    Cpu::get_disassembly(word).unwrap()
}

#[test]
fn disassembly_formats() {
    assert_eq!(text(op_r(0x00, Register::t3, Register::zero, Register::t4, 2)), "sll $t3, $zero, $t4, 2");
    assert_eq!(text(op_r(0x02, Register::v0, Register::a0, Register::k1, 31)), "srl $v0, $a0, $k1, 31");
    assert_eq!(text(0), "sll $zero, $zero, $zero, 0");
    assert_eq!(text(op_r(0x20, Register::t0, Register::t1, Register::t2, 0)), "add $t0, $t1, $t2");
    assert_eq!(text(op(0x09, op_i(Register::t1, Register::t1, -16))), "addiu $t1, $t1, 0xFFF0");
    assert_eq!(text(op(0x23, op_i(Register::sp, Register::ra, 0))), "lw $ra, $sp, 0x0");
    assert_eq!(text(op(0x0f, op_i(Register::zero, Register::gp, 0x1AB))), "lui $gp, $zero, 0x1AB");
    assert_eq!(text(op(0x02, op_j(0x40))), "j 0x00000040");
    assert_eq!(text(op(0x03, op_j(0x0FFF_FFFC))), "jal 0x0FFFFFFC");
    assert_eq!(text(op(0x02, 0)), "j 0x00000000");
    assert_eq!(text(op_syscall(0) | 0x0c), "syscall 0x0");
    assert_eq!(text(op_syscall(0xBEEF) | 0x0d), "break 0xBEEF");
    assert_eq!(text(op_syscall(0xF_FFFF) | 0x0c), "syscall 0xFFFFF");
    // jr $ra, shown in the jump format
    assert_eq!(text(0x03E0_0008), "jr 0x0F800020");
    assert_eq!(text(0x4008_6080), "mfc0 $t4, $zero, $t0, 2");
}

#[test]
fn register_format_without_shift_amount_hides_it() {
    let plain = op_r(0x21, Register::s0, Register::s1, Register::s2, 0);
    let with_shamt = op_r(0x21, Register::s0, Register::s1, Register::s2, 17);
    assert_eq!(text(plain), "addu $s0, $s1, $s2");
    assert_eq!(text(with_shamt), "addu $s0, $s1, $s2");
    assert_eq!(text(with_shamt).split(' ').count(), 4);
}

#[test]
fn every_register_is_shown_by_its_name() {
    let names = [
        "zero", "at", "v0", "v1", "a0", "a1", "a2", "a3", "t0", "t1", "t2", "t3", "t4", "t5",
        "t6", "t7", "s0", "s1", "s2", "s3", "s4", "s5", "s6", "s7", "t8", "t9", "k0", "k1", "gp",
        "sp", "fp", "ra",
    ];
    for (i, name) in names.iter().enumerate() {
        let r = Register::from_index(i as u8);
        assert_eq!(r.index(), i);
        assert_eq!(r.name(), *name);
        assert_eq!(format!("{:?}", r), *name);
        assert_eq!(Register::parse(name.as_bytes()), Some(r));
        assert_eq!(Register::parse(i.to_string().as_bytes()), Some(r));
        assert_eq!(text(op_r(0x24, r, r, r, 0)), format!("and ${0}, ${0}, ${0}", name));
        assert_eq!(Cpu::from_assembly(&format!("and ${0} ${0} ${0}", name)), Ok(op_r(0x24, r, r, r, 0)));
    }
    assert_eq!(Register::parse(b"007"), Some(Register::a3));
    assert_eq!(Register::parse(b"0000000000000000000031"), Some(Register::ra));
    for bad in [&b"32"[..], b"", b"T0", b"t10", b"zer", b"zeroo", b"+1", b"-1", b"1a", b"256", b"99999999999"] {
        assert_eq!(Register::parse(bad), None);
    }
}

#[test]
fn assembler_formats() {
    assert_eq!(Cpu::from_assembly("add $t0, $t1, $t2"), Ok(0x012A_4020));
    assert_eq!(Cpu::from_assembly("sll $t3, $zero, $t4, 2"), Ok(0x000C_5880));
    assert_eq!(Cpu::from_assembly("addiu $t1, $t1, 0xFFF0"), Ok(0x2529_FFF0));
    assert_eq!(Cpu::from_assembly("addiu $t1, $t1, 65520"), Ok(0x2529_FFF0));
    assert_eq!(Cpu::from_assembly("lw $ra, $sp, 4"), Ok(0x8FBF_0004));
    assert_eq!(Cpu::from_assembly("j 0x40"), Ok(0x0800_0010));
    assert_eq!(Cpu::from_assembly("jal 0x0FFFFFFC"), Ok(0x0FFF_FFFF));
    assert_eq!(Cpu::from_assembly("syscall"), Ok(0x0000_000C));
    assert_eq!(Cpu::from_assembly("break 5"), Ok(0x0000_014D));
    assert_eq!(Cpu::from_assembly("nop"), Ok(0));
    assert_eq!(Cpu::from_assembly("nop 1"), Ok(0x40));
    assert_eq!(Cpu::from_assembly("teq $zero, $t1, $t2"), Ok(0x012A_0034));
    assert_eq!(Cpu::from_assembly("jr 0x0F800020"), Ok(0x03E0_0008));
    assert_eq!(Cpu::from_assembly("jalr 0"), Ok(9));
    assert_eq!(Cpu::from_assembly("mfc0 $t4, $zero, $t0, 2"), Ok(0x4008_6080));
    assert_eq!(Cpu::from_assembly("ll $t0, $t1, 8"), Ok(0xC128_0008));
}

#[test]
fn assembler_is_lenient_about_space_and_commas() {
    let expected = Ok(0x012A_4020);
    for line in [
        "add $t0 $t1 $t2",
        "add $t0, $t1, $t2",
        "add $t0, $t1, $t2,",
        "  add\t$t0,\r\n$t1 \x0C $t2  ",
        "add $8 $9, $10",
        "add $08 $t1, $010",
    ] {
        assert_eq!(Cpu::from_assembly(line), expected);
    }
    assert_eq!(Cpu::from_assembly("sll $t3 $zero $t4 2,"), Ok(0x000C_5880));
}

#[test]
fn literals() {
    let with_imm = |lit: &str| Cpu::from_assembly(&format!("ori $zero, $zero, {}", lit));
    assert_eq!(with_imm("0"), Ok(0x3400_0000));
    assert_eq!(with_imm("0x1f"), Ok(0x3400_001F));
    assert_eq!(with_imm("0x1F"), Ok(0x3400_001F));
    assert_eq!(with_imm("0o17"), Ok(0x3400_000F));
    assert_eq!(with_imm("0b101"), Ok(0x3400_0005));
    assert_eq!(with_imm("0017"), Ok(0x3400_0011));
    assert_eq!(with_imm("+17"), Ok(0x3400_0011));
    assert_eq!(with_imm("0x+a"), Ok(0x3400_000A));
    assert_eq!(with_imm("65535"), Ok(0x3400_FFFF));
    // a negative number, down to -32768
    assert_eq!(with_imm("-16"), Ok(0x3400_FFF0));
    assert_eq!(with_imm("-16,"), Ok(0x3400_FFF0));
    assert_eq!(with_imm("-1"), Ok(0x3400_FFFF));
    assert_eq!(with_imm("-0"), Ok(0x3400_0000));
    assert_eq!(with_imm("-0032768"), Ok(0x3400_8000));
    // the same immediates as 16-bit patterns
    assert_eq!(with_imm("0xFFF0"), with_imm("-16"));
    assert_eq!(with_imm("32768"), with_imm("-32768"));
    for bad in ["", "0x", "0X10", "1_000", "0b2", "0o8", "0xG", "+", "++1", "12a", "4294967296", "0x100000000", "$t0", "1,,", "-", "--1", "-+1", "-0x10", "- 1", "-1a", "-,"] {
        let expected = if bad.is_empty() {
            "missing immediate value"
        } else {
            "invalid literal"
        };
        assert_eq!(with_imm(bad).err(), Some(expected), "{:?}", bad);
    }
    for far in ["65536", "0x10000", "0xFFFF7FFF", "0xFFFFFFF0", "4294967295", "-32769", "-99999999999999999999"] {
        assert_eq!(with_imm(far), Err("literal out of range"), "{:?}", far);
    }
    // only the immediate of the immediate format is signed
    assert_eq!(Cpu::from_assembly("sll $t0, $t1, $t2, -1"), Err("invalid literal"));
    assert_eq!(Cpu::from_assembly("j -4"), Err("invalid literal"));
    assert_eq!(Cpu::from_assembly("syscall -1"), Err("invalid literal"));
}

#[test]
fn immediates() {
    assert_eq!(immediate(b"-16"), Ok(-16));
    assert_eq!(immediate(b"0xFFF0"), Ok(-16));
    assert_eq!(immediate(b"65520,"), Ok(-16));
    assert_eq!(immediate(b"32767"), Ok(32767));
    assert_eq!(immediate(b"-32768"), Ok(-32768));
    assert_eq!(immediate(b"0"), Ok(0));
    assert_eq!(immediate(b"-32769"), Err(AsmError::OutOfRange));
    assert_eq!(immediate(b"65536"), Err(AsmError::OutOfRange));
    assert_eq!(immediate(b"-"), Err(AsmError::InvalidLiteral));
    assert_eq!(immediate(b"x"), Err(AsmError::InvalidLiteral));
    for n in [-32768i32, -12345, -256, -1, 0, 1, 255, 32767] {
        let line = format!("addi $a0, $a1, {}", n);
        assert_eq!(Cpu::from_assembly(&line), Ok(op(0x08, op_i(Register::a1, Register::a0, n as i16))));
    }
}

#[test]
fn spacing_and_commas_make_no_difference() {
    let plain = "addi $t0 $t1 -5";
    let expected = Cpu::from_assembly(plain);
    assert_eq!(expected, Ok(0x2128_FFFB));
    for line in [
        "addi $t0, $t1, -5",
        "addi $t0, $t1 -5,",
        "   addi\t\t$t0,\r\n $t1,   -5   ",
        "addi\x0C$t0 $t1, -5",
    ] {
        assert_eq!(Cpu::from_assembly(line), expected, "{:?}", line);
    }
    // a failing line fails alike
    assert_eq!(Cpu::from_assembly("addi $t0 $t9"), Err("missing immediate value"));
    assert_eq!(Cpu::from_assembly("  addi   $t0,\t$t9, "), Err("missing immediate value"));
}

#[test]
fn assembler_errors() {
    let cases = [
        ("", AsmError::MissingMnemonic),
        (" \t ", AsmError::MissingMnemonic),
        ("addd $t0, $t1, $t2", AsmError::UnknownMnemonic),
        ("ADD $t0, $t1, $t2", AsmError::UnknownMnemonic),
        ("add, $t0, $t1, $t2", AsmError::UnknownMnemonic),
        ("$t0", AsmError::UnknownMnemonic),
        ("add", AsmError::MissingRd),
        ("add $t0", AsmError::MissingRs),
        ("add $t0, $t1", AsmError::MissingRt),
        ("addi", AsmError::MissingRt),
        ("addi $t0", AsmError::MissingRs),
        ("sll $t0, $t1, $t2", AsmError::MissingShift),
        ("addi $t0, $t1", AsmError::MissingImmediate),
        ("j", AsmError::MissingAddress),
        ("add t0, $t1, $t2", AsmError::MissingPrefix),
        ("add $t0 , $t1, $t2", AsmError::MissingPrefix),
        ("add $t0, 5, $t2", AsmError::MissingPrefix),
        ("add $t0, $t1, $tx", AsmError::UnknownRegister),
        ("add $t0,$t1,$t2", AsmError::UnknownRegister),
        ("add $32, $t1, $t2", AsmError::UnknownRegister),
        ("add $, $t1, $t2", AsmError::UnknownRegister),
        ("add $t0,, $t1, $t2", AsmError::UnknownRegister),
        ("sll $t0, $t1, $t2, x", AsmError::InvalidLiteral),
        ("j $ra", AsmError::InvalidLiteral),
        ("syscall ,", AsmError::InvalidLiteral),
        ("sll $t0, $t1, $t2, 32", AsmError::OutOfRange),
        ("sll $t0, $t1, $t2, 256", AsmError::OutOfRange),
        ("j 0x10000000", AsmError::OutOfRange),
        ("syscall 0x100000", AsmError::OutOfRange),
        ("add $t0, $t1, $t2, 0", AsmError::TooManyArguments),
        ("add $t0, $t1, $t2 # sum", AsmError::TooManyArguments),
        ("syscall 1 2", AsmError::TooManyArguments),
        ("nop 0 0", AsmError::TooManyArguments),
        ("j 4 4", AsmError::TooManyArguments),
        // the first error in the line is the one reported
        ("add $t0, t1, $t2, 0", AsmError::MissingPrefix),
        ("sll $tx, $t1", AsmError::UnknownRegister),
        ("addi $t0, $t1, 99999999999 extra", AsmError::InvalidLiteral),
    ];
    for (line, error) in cases {
        assert_eq!(assemble_line(line.as_bytes()), Err(error), "{:?}", line);
        assert_eq!(Cpu::from_assembly(line), Err(error.message()), "{:?}", line);
    }
    let messages = [
        (AsmError::MissingMnemonic, "missing mnemonic"),
        (AsmError::UnknownMnemonic, "unknown mnemonic"),
        (AsmError::MissingRd, "missing rd register"),
        (AsmError::MissingRs, "missing rs register"),
        (AsmError::MissingRt, "missing rt register"),
        (AsmError::MissingShift, "missing shift value"),
        (AsmError::MissingImmediate, "missing immediate value"),
        (AsmError::MissingAddress, "missing address"),
        (AsmError::MissingPrefix, "register name missing $ prefix"),
        (AsmError::UnknownRegister, "unknown register"),
        (AsmError::InvalidLiteral, "invalid literal"),
        (AsmError::OutOfRange, "literal out of range"),
        (AsmError::TooManyArguments, "too many arguments"),
    ];
    for (error, message) in messages {
        assert_eq!(error.message(), message);
    }
}

#[test]
fn assembling_a_disassembly_gives_the_word_back() {
    let registers = [Register::zero, Register::t0, Register::s7, Register::ra];
    let mut words = vec![0u32, 0x03E0_0008, 0x0000_000C, 0x03FF_FFCD, 0x4008_6080];
    for funct in [0x00u8, 0x02] {
        for (k, r) in registers.iter().enumerate() {
            words.push(op_r(funct, *r, registers[(k + 1) % 4], registers[(k + 2) % 4], (k * 10 + 1) as u8));
        }
    }
    for funct in [0x10u8, 0x12, 0x18, 0x19, 0x1a, 0x1b, 0x20, 0x21, 0x22, 0x23, 0x24, 0x25, 0x26, 0x27, 0x2a, 0x2b, 0x34] {
        words.push(op_r(funct, Register::a0, Register::k1, Register::fp, 0));
    }
    for opcode in [0x04u8, 0x05, 0x08, 0x09, 0x0a, 0x0b, 0x0c, 0x0d, 0x0e, 0x0f, 0x23, 0x24, 0x25, 0x28, 0x29, 0x2b, 0x30, 0x38] {
        for imm in [0i16, 1, 9, 10, 255, 0x7FFF, -1, -32768] {
            words.push(op(opcode, op_i(Register::gp, Register::v1, imm)));
        }
    }
    for opcode in [0x02u8, 0x03] {
        for target in [0u32, 4, 0x0040_0020, 0x0FFF_FFFC] {
            words.push(op(opcode, op_j(target)));
        }
    }
    for funct in [0x08u32, 0x09, 0x0c, 0x0d] {
        for code in [0u32, 1, 0xABCDE, 0xF_FFFF] {
            words.push(op_syscall(code) | funct);
        }
    }
    for word in words {
        let text = Cpu::get_disassembly(word).unwrap();
        assert_eq!(Cpu::from_assembly(&text), Ok(word), "{}", text);
    }
    // the shift amount that the text does not show comes back as zero
    let hidden = op_r(0x20, Register::t0, Register::t1, Register::t2, 9);
    let text = Cpu::get_disassembly(hidden).unwrap();
    assert_eq!(Cpu::from_assembly(&text), Ok(op_r(0x20, Register::t0, Register::t1, Register::t2, 0)));
    // the function code that the text of a coprocessor instruction does not show
    // comes back as zero
    let text = Cpu::get_disassembly(0x4008_6081).unwrap();
    assert_eq!(Cpu::from_assembly(&text), Ok(0x4008_6080));
}

#[test]
fn causes() {
    let all = [
        (ExceptionCause::Int, 0, "Hardware Interrupt"),
        (ExceptionCause::AdEL, 4, "Load from Illegal Address"),
        (ExceptionCause::AdES, 5, "Store to Illegal Address"),
        (ExceptionCause::Ibe, 6, "Bus Error on Instruction Fetch"),
        (ExceptionCause::Dbe, 7, "Bus Error on Data Reference"),
        (ExceptionCause::Sys, 8, "Syscall"),
        (ExceptionCause::Bp, 9, "Breakpoint"),
        (ExceptionCause::Ri, 10, "Reserved Instruction"),
        (ExceptionCause::CpU, 11, "Unimplemented Coprocessor"),
        (ExceptionCause::Ov, 12, "Arithmetic Overflow"),
        (ExceptionCause::Tr, 13, "Trap"),
        (ExceptionCause::Fpe, 15, "Floating Point Exception"),
    ];
    for (cause, code, name) in all {
        assert_eq!(cause.code(), code);
        assert_eq!(cause.friendly_name(), name);
        assert_eq!(ExceptionCause::try_from(code as usize), Ok(cause));
    }
    for code in [1usize, 2, 3, 14, 16, 255, usize::MAX] {
        assert_eq!(ExceptionCause::try_from(code), Err("unknown cause"));
    }
}

#[test]
fn registers_from_text() {
    assert_eq!(Register::try_from("sp"), Ok(Register::sp));
    assert_eq!(Register::try_from("29"), Ok(Register::sp));
    assert_eq!(Register::try_from("zero"), Ok(Register::zero));
    assert_eq!(Register::try_from("$sp"), Err("unknown register"));
    assert_eq!(Register::try_from(""), Err("unknown register"));
    assert_eq!(Register::try_from("32"), Err("unknown register"));
    assert_eq!(Register::try_from("ｔ0"), Err("unknown register"));
}

#[test]
fn coprocessor_registers_by_number() {
    let all = [
        (Cp0Register::BadVAddr, 8),
        (Cp0Register::Status, 12),
        (Cp0Register::Cause, 13),
        (Cp0Register::ExPC, 14),
    ];
    for (register, number) in all {
        assert_eq!(register.index(), number);
        assert_eq!(Cp0Register::from_index(number), register);
    }
}

#[test]
fn lines_are_cut_at_whitespace() {
    assert_eq!(tokenize(b"  add $t0,\t$t1 \r\n $t2 "), vec![(2, 5), (6, 10), (11, 14), (18, 21)]);
    assert_eq!(tokenize(b""), vec![]);
    assert_eq!(tokenize(b" \x0C\n"), vec![]);
    assert_eq!(tokenize(b"x"), vec![(0, 1)]);
    // a vertical tab is no whitespace
    assert_eq!(tokenize(b"a\x0Bb"), vec![(0, 3)]);
    for b in 0u8..=255 {
        assert_eq!(is_space(b), b" \t\n\x0C\r".contains(&b));
    }
    assert!(slice_eq(b"abc", b"abc"));
    assert!(!slice_eq(b"abc", b"abd"));
    assert!(!slice_eq(b"abc", b"ab"));
    assert!(slice_eq(b"", b""));
}

#[test]
fn digits_and_numbers() {
    assert_eq!(digit_value(b'0', 2), Some(0));
    assert_eq!(digit_value(b'2', 2), None);
    assert_eq!(digit_value(b'7', 8), Some(7));
    assert_eq!(digit_value(b'8', 8), None);
    assert_eq!(digit_value(b'9', 10), Some(9));
    assert_eq!(digit_value(b'a', 10), None);
    assert_eq!(digit_value(b'a', 16), Some(10));
    assert_eq!(digit_value(b'F', 16), Some(15));
    assert_eq!(digit_value(b'g', 16), None);
    assert_eq!(digit_value(b'/', 16), None);
    assert_eq!(parse_number(b"0", 10, 0), Some(0));
    assert_eq!(parse_number(b"4294967295", 10, u32::MAX), Some(u32::MAX));
    assert_eq!(parse_number(b"4294967296", 10, u32::MAX), None);
    assert_eq!(parse_number(b"ffffffff", 16, u32::MAX), Some(u32::MAX));
    assert_eq!(parse_number(b"100000000", 16, u32::MAX), None);
    assert_eq!(parse_number(b"31", 10, 31), Some(31));
    assert_eq!(parse_number(b"32", 10, 31), None);
    assert_eq!(parse_number(b"", 10, 31), None);
    assert_eq!(parse_number(b"1 ", 10, 31), None);
    assert_eq!(parse_number(b"0000000000000000000000000000000000000101", 2, 31), Some(5));
}

#[test]
fn operands() {
    assert_eq!(maybe_comma(b"$t0,"), b"$t0");
    assert_eq!(maybe_comma(b"$t0"), b"$t0");
    assert_eq!(maybe_comma(b"$t0,,"), b"$t0,");
    assert_eq!(maybe_comma(b","), b"");
    assert_eq!(maybe_comma(b""), b"");
    assert_eq!(register(b"$ra,"), Ok(Register::ra));
    assert_eq!(register(b"$31"), Ok(Register::ra));
    assert_eq!(register(b"ra"), Err(AsmError::MissingPrefix));
    assert_eq!(register(b","), Err(AsmError::MissingPrefix));
    assert_eq!(register(b"$$ra"), Err(AsmError::UnknownRegister));
    assert_eq!(literal(b"0x10,"), Ok(16));
    assert_eq!(literal(b"0o10"), Ok(8));
    assert_eq!(literal(b"0b10"), Ok(2));
    assert_eq!(literal(b"10"), Ok(10));
    assert_eq!(literal(b"0x"), Err(AsmError::InvalidLiteral));
    assert_eq!(Cpu::INSTRUCTION_BYTES, 4);
}
