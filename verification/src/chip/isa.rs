//! Instruction words: their bit fields, the table of known instructions, and the
//! encoders that put a word together.

use vstd::prelude::*;
use vstd::string::StringSliceAdditionalSpecFns;

use crate::chip::register::Register;
use crate::chip::text::slice_eq;
use crate::chip::Cpu;
use crate::{bits_span, spec_bits_span, word};

verus! {

/// How an instruction lays out its operands, in the word and in assembly text.
#[derive(Clone, Copy, Debug, PartialEq, Eq, Structural)]
pub enum InsFormat {
    /// Register format: a destination `rd` and two sources `rs` and `rt`. The flag says
    /// whether the instruction also takes a shift amount.
    R(bool),
    /// Immediate format: two registers `rt` and `rs` and a 16-bit immediate.
    I,
    /// Jump format: a 26-bit word index.
    J,
    /// The format of `syscall` and `break`: a 20-bit payload.
    Sys,
}

/// What selects an instruction: the bits of a word that say which instruction it is.
#[derive(Clone, Copy, Debug, PartialEq, Eq, Structural)]
pub enum Opcode {
    /// A primary opcode (bits 31..26) other than 0x00 and the coprocessor opcodes.
    General(u8),
    /// Primary opcode 0x00 together with a function code (bits 5..0).
    Function(u8),
    /// A coprocessor opcode: the coprocessor's number `n` (primary opcode 0x10 + `n`)
    /// and the operation, which is held in bits 25..21.
    Coprocessor(u8, u8),
}

/// An instruction word, seen through its bit fields.
#[derive(Clone, Copy)]
pub struct Instruction(pub word);

/// Primary opcode, bits 31..26.
pub open spec fn opcode_of(ins: word) -> word {
    spec_bits_span(ins, 26, 6)
}

/// First source register field, bits 25..21.
pub open spec fn rs_of(ins: word) -> word {
    spec_bits_span(ins, 21, 5)
}

/// Second source register field (destination in the immediate format), bits 20..16.
pub open spec fn rt_of(ins: word) -> word {
    spec_bits_span(ins, 16, 5)
}

/// Destination register field of the register format, bits 15..11.
pub open spec fn rd_of(ins: word) -> word {
    spec_bits_span(ins, 11, 5)
}

/// Shift amount, bits 10..6.
pub open spec fn shamt_of(ins: word) -> word {
    spec_bits_span(ins, 6, 5)
}

/// Function code, bits 5..0.
pub open spec fn funct_of(ins: word) -> word {
    spec_bits_span(ins, 0, 6)
}

/// Immediate, bits 15..0.
pub open spec fn imm_of(ins: word) -> word {
    spec_bits_span(ins, 0, 16)
}

/// Jump target as a word index, bits 25..0.
pub open spec fn target_of(ins: word) -> word {
    spec_bits_span(ins, 0, 26)
}

/// Payload of `syscall` and `break`, bits 25..6.
pub open spec fn code_of(ins: word) -> word {
    spec_bits_span(ins, 6, 20)
}

/// Each field is as wide as its bit count allows and no wider.
pub proof fn lemma_field_ranges(ins: word)
    by (bit_vector)
    ensures
        opcode_of(ins) < 64,
        rs_of(ins) < 32,
        rt_of(ins) < 32,
        rd_of(ins) < 32,
        shamt_of(ins) < 32,
        funct_of(ins) < 64,
        imm_of(ins) < 0x1_0000,
        target_of(ins) < 0x400_0000,
        code_of(ins) < 0x10_0000,
{
}

/// Each field, written as a shift and a mask.
pub proof fn lemma_fields_as_masks(ins: word)
    by (bit_vector)
    ensures
        opcode_of(ins) == (ins >> 26) & 0x3f,
        rs_of(ins) == (ins >> 21) & 0x1f,
        rt_of(ins) == (ins >> 16) & 0x1f,
        rd_of(ins) == (ins >> 11) & 0x1f,
        shamt_of(ins) == (ins >> 6) & 0x1f,
        funct_of(ins) == ins & 0x3f,
        imm_of(ins) == ins & 0xffff,
        target_of(ins) == ins & 0x3ff_ffff,
        code_of(ins) == (ins >> 6) & 0xf_ffff,
{
}

impl Instruction {
    /// Primary opcode.
    pub open spec fn spec_opcode(&self) -> u8 {
        opcode_of(self.0) as u8
    }

    /// First source register.
    pub open spec fn spec_rs(&self) -> Register {
        Register::spec_from_index(rs_of(self.0) as int)
    }

    /// Second source register, or the destination in the immediate format.
    pub open spec fn spec_rt(&self) -> Register {
        Register::spec_from_index(rt_of(self.0) as int)
    }

    /// Destination register of the register format.
    pub open spec fn spec_rd(&self) -> Register {
        Register::spec_from_index(rd_of(self.0) as int)
    }

    /// Shift amount.
    pub open spec fn spec_shamt(&self) -> word {
        shamt_of(self.0)
    }

    /// Function code.
    pub open spec fn spec_funct(&self) -> u8 {
        funct_of(self.0) as u8
    }

    /// 16-bit immediate, zero-extended.
    pub open spec fn spec_imm(&self) -> word {
        imm_of(self.0)
    }

    /// Jump target as a word index.
    pub open spec fn spec_target(&self) -> word {
        target_of(self.0)
    }

    /// Payload of `syscall` and `break`.
    pub open spec fn spec_code(&self) -> word {
        code_of(self.0)
    }

    /// Primary opcode.
    #[verifier::when_used_as_spec(spec_opcode)]
    pub fn opcode(&self) -> (r: u8)
        ensures
            r == self.spec_opcode(),
            r == opcode_of(self.0),
            r < 64,
    {
        proof {
            lemma_field_ranges(self.0);
        }
        bits_span(self.0, 26, 6) as u8
    }

    /// First source register.
    #[verifier::when_used_as_spec(spec_rs)]
    pub fn rs(&self) -> (r: Register)
        ensures
            r == self.spec_rs(),
            r.index() == rs_of(self.0),
    {
        proof {
            lemma_field_ranges(self.0);
        }
        Register::from_index(bits_span(self.0, 21, Register::NUM_BITS) as u8)
    }

    /// Second source register, or the destination in the immediate format.
    #[verifier::when_used_as_spec(spec_rt)]
    pub fn rt(&self) -> (r: Register)
        ensures
            r == self.spec_rt(),
            r.index() == rt_of(self.0),
    {
        proof {
            lemma_field_ranges(self.0);
        }
        Register::from_index(bits_span(self.0, 16, Register::NUM_BITS) as u8)
    }

    /// Destination register of the register format.
    #[verifier::when_used_as_spec(spec_rd)]
    pub fn rd(&self) -> (r: Register)
        ensures
            r == self.spec_rd(),
            r.index() == rd_of(self.0),
    {
        proof {
            lemma_field_ranges(self.0);
        }
        Register::from_index(bits_span(self.0, 11, Register::NUM_BITS) as u8)
    }

    /// Shift amount.
    #[verifier::when_used_as_spec(spec_shamt)]
    pub fn shamt(&self) -> (r: word)
        ensures
            r == self.spec_shamt(),
            r < 32,
    {
        proof {
            lemma_field_ranges(self.0);
        }
        bits_span(self.0, 6, 5)
    }

    /// Function code.
    #[verifier::when_used_as_spec(spec_funct)]
    pub fn funct(&self) -> (r: u8)
        ensures
            r == self.spec_funct(),
            r == funct_of(self.0),
            r < 64,
    {
        proof {
            lemma_field_ranges(self.0);
        }
        bits_span(self.0, 0, 6) as u8
    }

    /// 16-bit immediate, zero-extended.
    #[verifier::when_used_as_spec(spec_imm)]
    pub fn imm(&self) -> (r: word)
        ensures
            r == self.spec_imm(),
            r < 0x1_0000,
    {
        proof {
            lemma_field_ranges(self.0);
        }
        bits_span(self.0, 0, 16)
    }

    /// Jump target as a word index.
    #[verifier::when_used_as_spec(spec_target)]
    pub fn target(&self) -> (r: word)
        ensures
            r == self.spec_target(),
            r < 0x400_0000,
    {
        proof {
            lemma_field_ranges(self.0);
        }
        bits_span(self.0, 0, 26)
    }

    /// Payload of `syscall` and `break`.
    #[verifier::when_used_as_spec(spec_code)]
    pub fn code(&self) -> (r: word)
        ensures
            r == self.spec_code(),
            r < 0x10_0000,
    {
        proof {
            lemma_field_ranges(self.0);
        }
        bits_span(self.0, 6, 20)
    }

    /// What selects the instruction of this word: the function code under primary
    /// opcode 0x00, coprocessor number and operation under opcodes 0x10 to 0x13, and
    /// the primary opcode itself otherwise.
    pub open spec fn spec_key(&self) -> Opcode {
        let o = opcode_of(self.0);
        if o == 0 {
            Opcode::Function(funct_of(self.0) as u8)
        } else if 0x10 <= o <= 0x13 {
            Opcode::Coprocessor((o - 0x10) as u8, rs_of(self.0) as u8)
        } else {
            Opcode::General(o as u8)
        }
    }

    /// What selects the instruction of this word.
    #[verifier::when_used_as_spec(spec_key)]
    pub fn key(&self) -> (k: Opcode)
        ensures
            k == self.spec_key(),
    {
        proof {
            lemma_field_ranges(self.0);
        }
        let o = self.opcode();
        if o == 0 {
            Opcode::Function(self.funct())
        } else if 0x10 <= o && o <= 0x13 {
            Opcode::Coprocessor(o - 0x10, bits_span(self.0, 21, 5) as u8)
        } else {
            Opcode::General(o)
        }
    }
}

/// Number of rows in the instruction table.
pub const INSTRUCTION_COUNT: usize = 45;

/// Row `i` of the instruction table: what selects the instruction, its mnemonic and
/// its format. Rows past the end repeat the last row.
///
/// The last row makes `nop` a second name for function code 0x00; decoding never
/// yields it, because `sll` comes first.
#[verifier::opaque]
pub open spec fn spec_instruction(i: usize) -> (Opcode, &'static str, InsFormat) {
    match i {
        0 => (Opcode::Function(0x00), "sll", InsFormat::R(true)),
        1 => (Opcode::Function(0x02), "srl", InsFormat::R(true)),
        2 => (Opcode::Function(0x08), "jr", InsFormat::J),
        3 => (Opcode::Function(0x09), "jalr", InsFormat::J),
        4 => (Opcode::Function(0x0c), "syscall", InsFormat::Sys),
        5 => (Opcode::Function(0x0d), "break", InsFormat::Sys),
        6 => (Opcode::Function(0x10), "mfhi", InsFormat::R(false)),
        7 => (Opcode::Function(0x12), "mflo", InsFormat::R(false)),
        8 => (Opcode::Function(0x18), "mult", InsFormat::R(false)),
        9 => (Opcode::Function(0x19), "multu", InsFormat::R(false)),
        10 => (Opcode::Function(0x1a), "div", InsFormat::R(false)),
        11 => (Opcode::Function(0x1b), "divu", InsFormat::R(false)),
        12 => (Opcode::Function(0x20), "add", InsFormat::R(false)),
        13 => (Opcode::Function(0x21), "addu", InsFormat::R(false)),
        14 => (Opcode::Function(0x22), "sub", InsFormat::R(false)),
        15 => (Opcode::Function(0x23), "subu", InsFormat::R(false)),
        16 => (Opcode::Function(0x24), "and", InsFormat::R(false)),
        17 => (Opcode::Function(0x25), "or", InsFormat::R(false)),
        18 => (Opcode::Function(0x26), "xor", InsFormat::R(false)),
        19 => (Opcode::Function(0x27), "nor", InsFormat::R(false)),
        20 => (Opcode::Function(0x2a), "slt", InsFormat::R(false)),
        21 => (Opcode::Function(0x2b), "sltu", InsFormat::R(false)),
        22 => (Opcode::Function(0x34), "teq", InsFormat::R(false)),
        23 => (Opcode::Coprocessor(0, 0x00), "mfc0", InsFormat::R(true)),
        24 => (Opcode::General(0x02), "j", InsFormat::J),
        25 => (Opcode::General(0x03), "jal", InsFormat::J),
        26 => (Opcode::General(0x04), "beq", InsFormat::I),
        27 => (Opcode::General(0x05), "bne", InsFormat::I),
        28 => (Opcode::General(0x08), "addi", InsFormat::I),
        29 => (Opcode::General(0x09), "addiu", InsFormat::I),
        30 => (Opcode::General(0x0a), "slti", InsFormat::I),
        31 => (Opcode::General(0x0b), "sltiu", InsFormat::I),
        32 => (Opcode::General(0x0c), "andi", InsFormat::I),
        33 => (Opcode::General(0x0d), "ori", InsFormat::I),
        34 => (Opcode::General(0x0e), "xori", InsFormat::I),
        35 => (Opcode::General(0x0f), "lui", InsFormat::I),
        36 => (Opcode::General(0x23), "lw", InsFormat::I),
        37 => (Opcode::General(0x24), "lbu", InsFormat::I),
        38 => (Opcode::General(0x25), "lhu", InsFormat::I),
        39 => (Opcode::General(0x28), "sb", InsFormat::I),
        40 => (Opcode::General(0x29), "sh", InsFormat::I),
        41 => (Opcode::General(0x2b), "sw", InsFormat::I),
        42 => (Opcode::General(0x30), "ll", InsFormat::I),
        43 => (Opcode::General(0x38), "sc", InsFormat::I),
        _ => (Opcode::Function(0x00), "nop", InsFormat::Sys),
    }
}

/// Row `i` of the instruction table.
#[verifier::when_used_as_spec(spec_instruction)]
pub fn instruction(i: usize) -> (row: (Opcode, &'static str, InsFormat))
    requires
        i < INSTRUCTION_COUNT,
    ensures
        row == spec_instruction(i),
{
    reveal(spec_instruction);
    match i {
        0 => (Opcode::Function(0x00), "sll", InsFormat::R(true)),
        1 => (Opcode::Function(0x02), "srl", InsFormat::R(true)),
        2 => (Opcode::Function(0x08), "jr", InsFormat::J),
        3 => (Opcode::Function(0x09), "jalr", InsFormat::J),
        4 => (Opcode::Function(0x0c), "syscall", InsFormat::Sys),
        5 => (Opcode::Function(0x0d), "break", InsFormat::Sys),
        6 => (Opcode::Function(0x10), "mfhi", InsFormat::R(false)),
        7 => (Opcode::Function(0x12), "mflo", InsFormat::R(false)),
        8 => (Opcode::Function(0x18), "mult", InsFormat::R(false)),
        9 => (Opcode::Function(0x19), "multu", InsFormat::R(false)),
        10 => (Opcode::Function(0x1a), "div", InsFormat::R(false)),
        11 => (Opcode::Function(0x1b), "divu", InsFormat::R(false)),
        12 => (Opcode::Function(0x20), "add", InsFormat::R(false)),
        13 => (Opcode::Function(0x21), "addu", InsFormat::R(false)),
        14 => (Opcode::Function(0x22), "sub", InsFormat::R(false)),
        15 => (Opcode::Function(0x23), "subu", InsFormat::R(false)),
        16 => (Opcode::Function(0x24), "and", InsFormat::R(false)),
        17 => (Opcode::Function(0x25), "or", InsFormat::R(false)),
        18 => (Opcode::Function(0x26), "xor", InsFormat::R(false)),
        19 => (Opcode::Function(0x27), "nor", InsFormat::R(false)),
        20 => (Opcode::Function(0x2a), "slt", InsFormat::R(false)),
        21 => (Opcode::Function(0x2b), "sltu", InsFormat::R(false)),
        22 => (Opcode::Function(0x34), "teq", InsFormat::R(false)),
        23 => (Opcode::Coprocessor(0, 0x00), "mfc0", InsFormat::R(true)),
        24 => (Opcode::General(0x02), "j", InsFormat::J),
        25 => (Opcode::General(0x03), "jal", InsFormat::J),
        26 => (Opcode::General(0x04), "beq", InsFormat::I),
        27 => (Opcode::General(0x05), "bne", InsFormat::I),
        28 => (Opcode::General(0x08), "addi", InsFormat::I),
        29 => (Opcode::General(0x09), "addiu", InsFormat::I),
        30 => (Opcode::General(0x0a), "slti", InsFormat::I),
        31 => (Opcode::General(0x0b), "sltiu", InsFormat::I),
        32 => (Opcode::General(0x0c), "andi", InsFormat::I),
        33 => (Opcode::General(0x0d), "ori", InsFormat::I),
        34 => (Opcode::General(0x0e), "xori", InsFormat::I),
        35 => (Opcode::General(0x0f), "lui", InsFormat::I),
        36 => (Opcode::General(0x23), "lw", InsFormat::I),
        37 => (Opcode::General(0x24), "lbu", InsFormat::I),
        38 => (Opcode::General(0x25), "lhu", InsFormat::I),
        39 => (Opcode::General(0x28), "sb", InsFormat::I),
        40 => (Opcode::General(0x29), "sh", InsFormat::I),
        41 => (Opcode::General(0x2b), "sw", InsFormat::I),
        42 => (Opcode::General(0x30), "ll", InsFormat::I),
        43 => (Opcode::General(0x38), "sc", InsFormat::I),
        _ => (Opcode::Function(0x00), "nop", InsFormat::Sys),
    }
}

/// The first row at or after `from` that `key` selects.
pub open spec fn find_key(key: Opcode, from: usize) -> Option<usize>
    decreases INSTRUCTION_COUNT - from,
{
    if from >= INSTRUCTION_COUNT {
        None
    } else if spec_instruction(from).0 == key {
        Some(from)
    } else {
        find_key(key, (from + 1) as usize)
    }
}

/// The first row at or after `from` whose mnemonic is spelled by exactly the bytes
/// `name`.
pub open spec fn find_mnemonic(name: Seq<u8>, from: usize) -> Option<usize>
    decreases INSTRUCTION_COUNT - from,
{
    if from >= INSTRUCTION_COUNT {
        None
    } else if spec_instruction(from).1.spec_bytes() == name {
        Some(from)
    } else {
        find_mnemonic(name, (from + 1) as usize)
    }
}

/// The table row that decodes `ins`, if there is one.
pub open spec fn row_of(ins: word) -> Option<usize> {
    find_key(Instruction(ins).spec_key(), 0)
}

/// Mnemonic and format of `ins`, or `None` for a word that is no known instruction.
pub open spec fn spec_instruction_info(ins: word) -> Option<(&'static str, InsFormat)> {
    match row_of(ins) {
        Some(i) => Some((spec_instruction(i).1, spec_instruction(i).2)),
        None => None,
    }
}

/// Looks up the table row that `key` selects.
pub fn lookup_key(key: Opcode) -> (r: Option<usize>)
    ensures
        r is Some <==> find_key(key, 0) is Some,
        r matches Some(i) ==> find_key(key, 0) == Some(i) && i < INSTRUCTION_COUNT,
{
    let mut i: usize = 0;
    while i < INSTRUCTION_COUNT
        invariant
            i <= INSTRUCTION_COUNT,
            find_key(key, 0) == find_key(key, i),
        decreases INSTRUCTION_COUNT - i,
    {
        if instruction(i).0 == key {
            return Some(i);
        }
        i += 1;
    }
    None
}

/// Looks up the table row with the given mnemonic.
pub fn lookup_mnemonic(name: &[u8]) -> (r: Option<usize>)
    ensures
        r is Some <==> find_mnemonic(name@, 0) is Some,
        r matches Some(i) ==> find_mnemonic(name@, 0) == Some(i) && i < INSTRUCTION_COUNT,
{
    let mut i: usize = 0;
    while i < INSTRUCTION_COUNT
        invariant
            i <= INSTRUCTION_COUNT,
            find_mnemonic(name@, 0) == find_mnemonic(name@, i),
        decreases INSTRUCTION_COUNT - i,
    {
        if slice_eq(name, instruction(i).1.as_bytes()) {
            return Some(i);
        }
        i += 1;
    }
    None
}

impl Cpu {
    /// Size of an instruction in bytes.
    pub const INSTRUCTION_BYTES: usize = 4;

    /// Decodes `ins` as far as its mnemonic and format: those of the first table row
    /// that the word's opcode selects.
    pub fn get_instruction_info(ins: word) -> (r: Option<(&'static str, InsFormat)>)
        ensures
            r == spec_instruction_info(ins),
    {
        match lookup_key(Instruction(ins).key()) {
            Some(i) => {
                let row = instruction(i);
                Some((row.1, row.2))
            },
            None => None,
        }
    }
}

/// Low 16 bits of the two's-complement form of `imm`.
pub open spec fn spec_low_half(imm: i16) -> word {
    if imm >= 0 {
        imm as word
    } else {
        (imm + 0x1_0000) as word
    }
}

/// A word with primary opcode `o` over the operand bits `x`.
pub open spec fn spec_op(o: u8, x: word) -> word {
    ((o as word) << 26) | x
}

/// Operand bits of the register format, over function code `f`.
pub open spec fn spec_op_r(f: u8, rd: Register, rs: Register, rt: Register, shamt: u8) -> word {
    ((rs.index() as word) << 21) | ((rt.index() as word) << 16) | ((rd.index() as word) << 11)
        | ((shamt as word) << 6) | (f as word)
}

/// Operand bits of the immediate format.
pub open spec fn spec_op_i(rs: Register, rt: Register, imm: i16) -> word {
    ((rs.index() as word) << 21) | ((rt.index() as word) << 16) | spec_low_half(imm)
}

/// Operand bits of the jump format: the byte address as a word index.
pub open spec fn spec_op_j(addr: word) -> word {
    addr >> 2
}

/// Operand bits of `syscall` and `break`: the payload in bits 25..6.
pub open spec fn spec_op_syscall(code: word) -> word {
    code << 6
}

/// Puts primary opcode `o` over the operand bits `x`.
#[verifier::when_used_as_spec(spec_op)]
pub fn op(o: u8, x: word) -> (r: word)
    ensures
        r == spec_op(o, x),
{
    ((o as word) << 26) | x
}

/// Builds a register-format word with primary opcode 0x00.
#[verifier::when_used_as_spec(spec_op_r)]
pub fn op_r(f: u8, rd: Register, rs: Register, rt: Register, shamt: u8) -> (r: word)
    ensures
        r == spec_op_r(f, rd, rs, rt, shamt),
{
    ((rs.index() as word) << 21) | ((rt.index() as word) << 16) | ((rd.index() as word) << 11)
        | ((shamt as word) << 6) | (f as word)
}

/// Builds the operand bits of an immediate-format word.
#[verifier::when_used_as_spec(spec_op_i)]
pub fn op_i(rs: Register, rt: Register, imm: i16) -> (r: word)
    ensures
        r == spec_op_i(rs, rt, imm),
{
    let low: word = if imm >= 0 {
        imm as word
    } else {
        (imm as i32 + 0x1_0000) as word
    };
    ((rs.index() as word) << 21) | ((rt.index() as word) << 16) | low
}

/// Builds the operand bits of a jump to byte address `addr`.
#[verifier::when_used_as_spec(spec_op_j)]
pub fn op_j(addr: word) -> (r: word)
    ensures
        r == spec_op_j(addr),
{
    addr >> 2
}

/// Builds the operand bits of `syscall` or `break` with payload `code`.
#[verifier::when_used_as_spec(spec_op_syscall)]
pub fn op_syscall(code: word) -> (r: word)
    ensures
        r == spec_op_syscall(code),
{
    code << 6
}

} // verus!
