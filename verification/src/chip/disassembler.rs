//! The disassembler: from an instruction word to its canonical assembly text.

use vstd::prelude::*;
use vstd::string::StringExecFns;

use crate::chip::isa::{spec_instruction_info, InsFormat, Instruction};
use crate::chip::Cpu;
use crate::word;

verus! {

/// The character that stands for a digit from 0 to 15; letters are upper case.
pub open spec fn digit_char(d: int) -> char {
    if d < 10 {
        (0x30 + d) as char
    } else {
        (0x41 + d - 10) as char
    }
}

/// `v` in decimal, most significant digit first.
pub open spec fn decimal_digits(v: nat) -> Seq<char>
    decreases v,
{
    if v < 10 {
        seq![digit_char(v as int)]
    } else {
        decimal_digits(v / 10).push(digit_char((v % 10) as int))
    }
}

/// `v` in upper-case hexadecimal, most significant digit first, padded with zeros on
/// the left to at least `width` digits. There is always at least one digit.
pub open spec fn hex_digits(v: nat, width: nat) -> Seq<char>
    decreases v, width,
{
    if v < 16 && width <= 1 {
        seq![digit_char(v as int)]
    } else {
        hex_digits(
            v / 16,
            if width == 0 {
                0
            } else {
                (width - 1) as nat
            },
        ).push(digit_char((v % 16) as int))
    }
}

/// `v` in decimal.
pub open spec fn decimal_text(v: word) -> Seq<char> {
    decimal_digits(v as nat)
}

/// `v` in upper-case hexadecimal after the prefix `0x`, with at least `width` digits.
pub open spec fn hex_text(v: word, width: nat) -> Seq<char> {
    seq!['0', 'x'] + hex_digits(v as nat, width)
}

/// A register operand: `$` and the register's name.
pub open spec fn register_text(r: crate::chip::Register) -> Seq<char> {
    seq!['$'] + r.spec_name()@
}

/// The separator between two operands.
pub open spec fn separator() -> Seq<char> {
    seq![',', ' ']
}

/// The operands of `ins` as text, laid out as `format` asks:
///
/// - register format with a shift amount: `$rd, $rs, $rt, shamt`, the shift amount in
///   decimal;
/// - register format without one: `$rd, $rs, $rt`;
/// - immediate format: `$rt, $rs, imm`, the immediate as an unsigned 16-bit number in
///   hexadecimal;
/// - jump format: the target as a byte address in hexadecimal, eight digits wide;
/// - `syscall` format: the payload in hexadecimal.
pub open spec fn operands_text(format: InsFormat, ins: word) -> Seq<char> {
    let i = Instruction(ins);
    match format {
        InsFormat::R(shift) => {
            let registers = register_text(i.rd()) + separator() + register_text(i.rs())
                + separator() + register_text(i.rt());
            if shift {
                registers + separator() + decimal_text(i.shamt())
            } else {
                registers
            }
        },
        InsFormat::I => register_text(i.rt()) + separator() + register_text(i.rs()) + separator()
            + hex_text(i.imm(), 1),
        InsFormat::J => hex_text(i.target() << 2, 8),
        InsFormat::Sys => hex_text(i.code(), 1),
    }
}

/// The assembly text of `ins`: its mnemonic, a space, and its operands. A word that
/// is no known instruction has none.
pub open spec fn spec_disassembly(ins: word) -> Option<Seq<char>> {
    match spec_instruction_info(ins) {
        Some((name, format)) => Some(name@ + seq![' '] + operands_text(format, ins)),
        None => None,
    }
}

/// The one-character string of a digit from 0 to 15.
fn digit_str(d: u32) -> (s: &'static str)
    requires
        d < 16,
    ensures
        s@ == seq![digit_char(d as int)],
{
    proof {
        reveal_strlit("0");
        reveal_strlit("1");
        reveal_strlit("2");
        reveal_strlit("3");
        reveal_strlit("4");
        reveal_strlit("5");
        reveal_strlit("6");
        reveal_strlit("7");
        reveal_strlit("8");
        reveal_strlit("9");
        reveal_strlit("A");
        reveal_strlit("B");
        reveal_strlit("C");
        reveal_strlit("D");
        reveal_strlit("E");
        reveal_strlit("F");
    }
    let s = match d {
        0 => "0",
        1 => "1",
        2 => "2",
        3 => "3",
        4 => "4",
        5 => "5",
        6 => "6",
        7 => "7",
        8 => "8",
        9 => "9",
        10 => "A",
        11 => "B",
        12 => "C",
        13 => "D",
        14 => "E",
        _ => "F",
    };
    assert(s@ =~= seq![digit_char(d as int)]);
    s
}

/// Appends `v` in decimal.
fn push_decimal(text: &mut String, v: u32)
    ensures
        final(text)@ == old(text)@ + decimal_digits(v as nat),
    decreases v,
{
    if v < 10 {
        text.append(digit_str(v));
    } else {
        let ghost before = text@;
        push_decimal(text, v / 10);
        text.append(digit_str(v % 10));
        assert(text@ =~= before + decimal_digits(v as nat));
    }
}

/// Appends `v` in hexadecimal, with at least `width` digits.
fn push_hex_digits(text: &mut String, v: u32, width: usize)
    ensures
        final(text)@ == old(text)@ + hex_digits(v as nat, width as nat),
    decreases v, width,
{
    if v < 16 && width <= 1 {
        text.append(digit_str(v));
    } else {
        let ghost before = text@;
        push_hex_digits(text, v / 16, if width == 0 {
            0
        } else {
            width - 1
        });
        text.append(digit_str(v % 16));
        assert(text@ =~= before + hex_digits(v as nat, width as nat));
    }
}

/// Appends `v` in hexadecimal after the prefix `0x`.
fn push_hex(text: &mut String, v: u32, width: usize)
    ensures
        final(text)@ == old(text)@ + hex_text(v, width as nat),
{
    proof {
        reveal_strlit("0x");
    }
    let ghost before = text@;
    text.append("0x");
    push_hex_digits(text, v, width);
    assert(text@ =~= before + hex_text(v, width as nat));
}

/// Appends a register operand.
fn push_register(text: &mut String, r: crate::chip::Register)
    ensures
        final(text)@ == old(text)@ + register_text(r),
{
    proof {
        reveal_strlit("$");
    }
    let ghost before = text@;
    text.append("$");
    text.append(r.name());
    assert(text@ =~= before + register_text(r));
}

/// Appends the separator between two operands.
fn push_separator(text: &mut String)
    ensures
        final(text)@ == old(text)@ + separator(),
{
    proof {
        reveal_strlit(", ");
    }
    text.append(", ");
    assert(text@ =~= old(text)@ + separator());
}

/// The first two register operands of a format that has three operands, each with
/// the separator after it.
pub open spec fn leading_registers_text(first: crate::chip::Register, second: crate::chip::Register) -> Seq<
    char,
> {
    register_text(first) + separator() + register_text(second) + separator()
}

/// Appends two register operands, each with the separator after it.
fn push_leading_registers(text: &mut String, first: crate::chip::Register, second: crate::chip::Register)
    ensures
        final(text)@ == old(text)@ + leading_registers_text(first, second),
{
    push_register(text, first);
    push_separator(text);
    push_register(text, second);
    push_separator(text);
    assert(text@ =~= old(text)@ + leading_registers_text(first, second));
}

/// Appends the operands of the register format.
fn push_operands_r(text: &mut String, shift: bool, ins: word)
    ensures
        final(text)@ == old(text)@ + operands_text(InsFormat::R(shift), ins),
{
    let i = Instruction(ins);
    push_leading_registers(text, i.rd(), i.rs());
    push_register(text, i.rt());
    let ghost registers = register_text(i.rd()) + separator() + register_text(i.rs())
        + separator() + register_text(i.rt());
    assert(text@ =~= old(text)@ + registers);
    if shift {
        push_separator(text);
        push_decimal(text, i.shamt());
        assert(text@ =~= old(text)@ + (registers + separator() + decimal_text(i.shamt())));
    }
}

/// Appends the operands of the immediate format.
fn push_operands_i(text: &mut String, ins: word)
    ensures
        final(text)@ == old(text)@ + operands_text(InsFormat::I, ins),
{
    let i = Instruction(ins);
    push_leading_registers(text, i.rt(), i.rs());
    push_hex(text, i.imm(), 1);
    assert(text@ =~= old(text)@ + (register_text(i.rt()) + separator() + register_text(i.rs())
        + separator() + hex_text(i.imm(), 1)));
}

/// Appends the operands of `ins`.
fn push_operands(text: &mut String, format: InsFormat, ins: word)
    ensures
        final(text)@ == old(text)@ + operands_text(format, ins),
{
    let i = Instruction(ins);
    match format {
        InsFormat::R(shift) => push_operands_r(text, shift, ins),
        InsFormat::I => push_operands_i(text, ins),
        InsFormat::J => push_hex(text, i.target() << 2, 8),
        InsFormat::Sys => push_hex(text, i.code(), 1),
    }
}

impl Cpu {
    /// Disassembles `ins` into its canonical text, or `None` for a word that is no
    /// known instruction.
    pub fn get_disassembly(ins: word) -> (r: Option<String>)
        ensures
            match spec_disassembly(ins) {
                Some(t) => r matches Some(s) && s@ == t,
                None => r is None,
            },
    {
        match Cpu::get_instruction_info(ins) {
            Some((name, format)) => {
                proof {
                    reveal_strlit(" ");
                }
                let mut text = String::from_str(name);
                text.append(" ");
                push_operands(&mut text, format, ins);
                assert(text@ =~= name@ + seq![' '] + operands_text(format, ins));
                Some(text)
            },
            None => None,
        }
    }
}

} // verus!
