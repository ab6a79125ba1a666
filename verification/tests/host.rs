use mips_emulator::chip::assembler::AsmError;
use mips_emulator::chip::{Cp0Register, Cpu, Register};
use mips_emulator::mem::Memory;
use mips_emulator::monitor::{replace_control_char, MemoryInterpretation};
use mips_emulator::program::{
    assemble, assemble_source, assemble_statement, end_of_line, reset_cpu, reset_mem,
    statement_of,
};

#[test]
fn a_program_assembles_line_by_line() {
    let source = "# a small program\n\
                  .text\n\
                  \n\
                  addiu $t0, $zero, 5   # five\n\
                  \t  add $t1, $t0, $t0\r\n\
                  syscall#now\n\
                  nop";
    assert_eq!(assemble(source), Ok(vec![0x2408_0005, 0x0108_4820, 0x0000_000C, 0]));
    assert_eq!(assemble(""), Ok(vec![]));
    assert_eq!(assemble("\n\n  \n# nothing\n"), Ok(vec![]));
    assert_eq!(assemble("nop\n"), Ok(vec![0]));
}

#[test]
fn errors_come_with_their_line_numbers() {
    let source = "nop\nfoo $t0\n\n  # note\nadd $t0, $t1\nnop\nj\n";
    assert_eq!(
        assemble(source),
        Err(vec![(2, "unknown mnemonic"), (5, "missing rt register"), (7, "missing address")])
    );
    assert_eq!(
        assemble_source(source.as_bytes()),
        Err(vec![(2, AsmError::UnknownMnemonic), (5, AsmError::MissingRt), (7, AsmError::MissingAddress)])
    );
    assert_eq!(assemble("add"), Err(vec![(1, "missing rd register")]));
}

#[test]
fn statements() {
    assert_eq!(statement_of(b"  add $t0 # c"), Some((2, 10)));
    assert_eq!(statement_of(b"add"), Some((0, 3)));
    assert_eq!(statement_of(b""), None);
    assert_eq!(statement_of(b" \t "), None);
    assert_eq!(statement_of(b"  # c"), None);
    assert_eq!(statement_of(b".data"), None);
    assert_eq!(statement_of(b"a.b#"), Some((0, 3)));
}

#[test]
fn typed_text_becomes_bytes() {
    assert_eq!(
        MemoryInterpretation::Instruction.str_to_bytes("addiu $t1, $t1, 0xFFF0"),
        Ok(vec![0xF0, 0xFF, 0x29, 0x25])
    );
    assert_eq!(MemoryInterpretation::Instruction.str_to_bytes("bogus"), Err("unknown mnemonic"));
    assert_eq!(MemoryInterpretation::Text.str_to_bytes("hi!"), Ok(vec![0x68, 0x69, 0x21]));
    assert_eq!(MemoryInterpretation::Text.str_to_bytes("é"), Ok(vec![0xC3, 0xA9]));
    assert_eq!(MemoryInterpretation::Text.str_to_bytes(""), Ok(vec![]));
}

#[test]
fn control_characters_are_shown_by_their_pictures() {
    assert_eq!(replace_control_char('\0'), '\u{2400}');
    assert_eq!(replace_control_char('\n'), '\u{240A}');
    assert_eq!(replace_control_char('\u{1F}'), '\u{241F}');
    assert_eq!(replace_control_char('\u{7F}'), '\u{2421}');
    assert_eq!(replace_control_char(' '), ' ');
    assert_eq!(replace_control_char('~'), '~');
    assert_eq!(replace_control_char('\u{80}'), '\u{80}');
    assert_eq!(replace_control_char('é'), 'é');
    for c in 0u32..0x20 {
        let shown = replace_control_char(char::from_u32(c).unwrap());
        assert_eq!(shown as u32, c + 0x2400);
    }
}

#[test]
fn reset_brings_the_core_to_the_start() {
    let mut cpu = Cpu::default();
    cpu.pc = 0x44;
    cpu.after_delay = Some(8);
    cpu.cp0.halt = true;
    cpu.cp0.exception_handler = 0x80;
    cpu.cp0[Cp0Register::Cause] = 32;
    cpu[Register::t0] = 7;
    cpu.hi = 3;
    reset_cpu(&mut cpu);
    assert!(!cpu.cp0.halt);
    assert_eq!(cpu[Register::gp], 0x1800);
    assert_eq!(cpu[Register::sp], 0x3FFC);
    assert_eq!(cpu.pc, 0);
    assert_eq!(cpu.after_delay, None);
    // the rest is kept
    assert_eq!(cpu[Register::t0], 7);
    assert_eq!(cpu.hi, 3);
    assert_eq!(cpu.cp0.exception_handler, 0x80);
    assert_eq!(cpu.cp0[Cp0Register::Cause], 32);
}

#[test]
fn reset_loads_the_program() {
    let mut mem = Memory::default();
    mem.set_word(0x9_0000, 1).unwrap();
    mem.set_word(0x0, 0xFFFF_FFFF).unwrap();
    reset_mem(&mut mem, &[0x0C, 0, 0, 0, 1], &[b'h', b'i', 0]);
    assert_eq!(mem.get_word(0), Some(0x0C));
    assert_eq!(mem.get_byte(4), Some(1));
    assert_eq!(mem.get_slice(0x2000, 3), Some(vec![b'h', b'i', 0]));
    assert_eq!(mem.get_word(0x9_0000), Some(0));
    // page 0 holds both images, page 2 is the display; nothing else is allocated
    for (i, page) in mem.0.iter().enumerate() {
        assert_eq!(page.is_some(), i == 0 || i == 2);
    }
    // an image that is larger than a page is left out
    reset_mem(&mut mem, &vec![1u8; 0x8001], &[5]);
    assert_eq!(mem.get_byte(0), Some(0));
    assert_eq!(mem.get_byte(0x2000), Some(5));
}

#[test]
fn lines_end_at_line_feeds() {
    let source = b"ab\ncd\n\nef";
    assert_eq!(end_of_line(source, 0), 2);
    assert_eq!(end_of_line(source, 2), 2);
    assert_eq!(end_of_line(source, 3), 5);
    assert_eq!(end_of_line(source, 6), 6);
    assert_eq!(end_of_line(source, 7), 9);
    assert_eq!(end_of_line(source, 9), 9);
    assert_eq!(end_of_line(b"", 0), 0);
}

#[test]
fn a_line_gives_a_word_an_error_or_nothing() {
    assert_eq!(assemble_statement(b"  syscall 2 # two"), Some(Ok(0x8C)));
    assert_eq!(assemble_statement(b"syscall x"), Some(Err(AsmError::InvalidLiteral)));
    assert_eq!(assemble_statement(b"   "), None);
    assert_eq!(assemble_statement(b"# syscall"), None);
    assert_eq!(assemble_statement(b".word 5"), None);
}
