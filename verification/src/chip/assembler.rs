//! The one-line assembler: from a line of assembly text to an instruction word.

use vstd::prelude::*;
use vstd::string::StringSliceAdditionalSpecFns;

use crate::chip::isa::{
    find_mnemonic, instruction, lookup_mnemonic, op_i, op_j, op_r, op_syscall, spec_instruction,
    spec_op_i, spec_op_j, spec_op_r, spec_op_syscall, InsFormat, Opcode,
};
use crate::chip::register::Register;
use crate::chip::text::{is_digits, is_number, number_value, parse_number, tokenize, tokens};
use crate::chip::Cpu;
use crate::word;

verus! {

/// Why a line could not be assembled.
#[derive(Clone, Copy, Debug, PartialEq, Eq, Structural)]
pub enum AsmError {
    /// The line holds no token at all.
    MissingMnemonic,
    /// The first token is no mnemonic of the instruction table.
    UnknownMnemonic,
    /// The line ends where the `rd` register should stand.
    MissingRd,
    /// The line ends where the `rs` register should stand.
    MissingRs,
    /// The line ends where the `rt` register should stand.
    MissingRt,
    /// The line ends where the shift amount should stand.
    MissingShift,
    /// The line ends where the immediate should stand.
    MissingImmediate,
    /// The line ends where the jump address should stand.
    MissingAddress,
    /// A register operand does not begin with `$`.
    MissingPrefix,
    /// A register operand names no register.
    UnknownRegister,
    /// A literal is not a number, or is too large for a word.
    InvalidLiteral,
    /// A number does not fit the field it is meant for.
    OutOfRange,
    /// Tokens are left over after the last operand.
    TooManyArguments,
}

impl AsmError {
    /// The error as a short message.
    pub open spec fn spec_message(self) -> &'static str {
        match self {
            AsmError::MissingMnemonic => "missing mnemonic",
            AsmError::UnknownMnemonic => "unknown mnemonic",
            AsmError::MissingRd => "missing rd register",
            AsmError::MissingRs => "missing rs register",
            AsmError::MissingRt => "missing rt register",
            AsmError::MissingShift => "missing shift value",
            AsmError::MissingImmediate => "missing immediate value",
            AsmError::MissingAddress => "missing address",
            AsmError::MissingPrefix => "register name missing $ prefix",
            AsmError::UnknownRegister => "unknown register",
            AsmError::InvalidLiteral => "invalid literal",
            AsmError::OutOfRange => "literal out of range",
            AsmError::TooManyArguments => "too many arguments",
        }
    }

    /// The error as a short message.
    #[verifier::when_used_as_spec(spec_message)]
    pub fn message(self) -> (m: &'static str)
        ensures
            m == self.spec_message(),
    {
        match self {
            AsmError::MissingMnemonic => "missing mnemonic",
            AsmError::UnknownMnemonic => "unknown mnemonic",
            AsmError::MissingRd => "missing rd register",
            AsmError::MissingRs => "missing rs register",
            AsmError::MissingRt => "missing rt register",
            AsmError::MissingShift => "missing shift value",
            AsmError::MissingImmediate => "missing immediate value",
            AsmError::MissingAddress => "missing address",
            AsmError::MissingPrefix => "register name missing $ prefix",
            AsmError::UnknownRegister => "unknown register",
            AsmError::InvalidLiteral => "invalid literal",
            AsmError::OutOfRange => "literal out of range",
            AsmError::TooManyArguments => "too many arguments",
        }
    }
}

/// An operand token without the one comma that may trail it.
pub open spec fn strip_comma(tok: Seq<u8>) -> Seq<u8> {
    if tok.len() > 0 && tok.last() == 0x2C {
        tok.drop_last()
    } else {
        tok
    }
}

/// The radix that the start of a literal announces: `0x` hexadecimal, `0o` octal, `0b`
/// binary, and decimal without any of them.
pub open spec fn literal_radix(s: Seq<u8>) -> u8 {
    if s.len() >= 2 && s[0] == 0x30 && s[1] == 0x78 {
        16
    } else if s.len() >= 2 && s[0] == 0x30 && s[1] == 0x6F {
        8
    } else if s.len() >= 2 && s[0] == 0x30 && s[1] == 0x62 {
        2
    } else {
        10
    }
}

/// The digits of a literal: what follows the radix prefix and an optional `+`.
pub open spec fn literal_digits(s: Seq<u8>) -> Seq<u8> {
    let body = if literal_radix(s) == 10 {
        s
    } else {
        s.skip(2)
    };
    if body.len() > 0 && body[0] == 0x2B {
        body.skip(1)
    } else {
        body
    }
}

/// What a register operand stands for: after an optional trailing comma is dropped, a
/// `$` and then a register name or number.
pub open spec fn spec_register(tok: Seq<u8>) -> Result<Register, AsmError> {
    let s = strip_comma(tok);
    if s.len() == 0 || s[0] != 0x24 {
        Err(AsmError::MissingPrefix)
    } else {
        match Register::spec_parse(s.skip(1)) {
            Some(r) => Ok(r),
            None => Err(AsmError::UnknownRegister),
        }
    }
}

/// What a literal operand stands for: after an optional trailing comma is dropped, a
/// number in the radix that its prefix announces, which must fit a word.
pub open spec fn spec_literal(tok: Seq<u8>) -> Result<word, AsmError> {
    let s = strip_comma(tok);
    let digits = literal_digits(s);
    let radix = literal_radix(s);
    if is_number(digits, radix) && number_value(digits, radix) <= 0xFFFF_FFFF {
        Ok(number_value(digits, radix) as word)
    } else {
        Err(AsmError::InvalidLiteral)
    }
}

/// The register operand that stands at position `k` of the line, `missing` being the
/// error for a line that ends before it.
pub open spec fn spec_register_at(toks: Seq<Seq<u8>>, k: int, missing: AsmError) -> Result<
    Register,
    AsmError,
> {
    if k >= toks.len() {
        Err(missing)
    } else {
        spec_register(toks[k])
    }
}

/// What a literal operand stands for when it may be at most `limit`.
pub open spec fn spec_limited_literal(tok: Seq<u8>, limit: word) -> Result<word, AsmError> {
    match spec_literal(tok) {
        Ok(v) => if v <= limit {
            Ok(v)
        } else {
            Err(AsmError::OutOfRange)
        },
        Err(e) => Err(e),
    }
}

/// The literal operand that stands at position `k` of the line, which may be at most
/// `limit`; `missing` is the error for a line that ends before it.
pub open spec fn spec_literal_at(toks: Seq<Seq<u8>>, k: int, missing: AsmError, limit: word) -> Result<
    word,
    AsmError,
> {
    if k >= toks.len() {
        Err(missing)
    } else {
        spec_limited_literal(toks[k], limit)
    }
}

/// Largest shift amount.
pub const MAX_SHAMT: word = 31;

/// Largest jump address, as a byte address: the jump field holds 26 bits of word index.
pub const MAX_TARGET: word = 0x0FFF_FFFF;

/// Largest payload of `syscall` and `break`.
pub const MAX_CODE: word = 0xF_FFFF;

/// Largest 16-bit pattern.
pub const MAX_HALF: word = 0xFFFF;

/// Largest magnitude of a negative 16-bit number.
pub const MAX_NEGATIVE: word = 0x8000;

/// The 16-bit two's-complement number that the low half of `v` holds.
pub open spec fn spec_half_of(v: word) -> i16 {
    if v % 0x1_0000 < 0x8000 {
        (v % 0x1_0000) as i16
    } else {
        (v % 0x1_0000 - 0x1_0000) as i16
    }
}

/// What the immediate operand of the immediate format stands for. The immediate is a
/// signed 16-bit number, and there are two ways to write it:
///
/// - a `-` and decimal digits that denote at most 32768 stand for that negative
///   number;
/// - a literal of at most 0xFFFF stands for the number whose 16-bit two's-complement
///   form it is, so that `0xFFF0` and `-16` are the same immediate.
///
/// In either form an optional trailing comma is dropped first.
pub open spec fn spec_immediate(tok: Seq<u8>) -> Result<i16, AsmError> {
    let s = strip_comma(tok);
    if s.len() > 0 && s[0] == 0x2D {
        let digits = s.skip(1);
        if !is_number(digits, 10) {
            Err(AsmError::InvalidLiteral)
        } else if number_value(digits, 10) > MAX_NEGATIVE {
            Err(AsmError::OutOfRange)
        } else {
            Ok((-number_value(digits, 10)) as i16)
        }
    } else {
        match spec_limited_literal(tok, MAX_HALF) {
            Ok(v) => Ok(spec_half_of(v)),
            Err(e) => Err(e),
        }
    }
}

/// The immediate operand that stands at position `k` of the line.
pub open spec fn spec_immediate_at(toks: Seq<Seq<u8>>, k: int) -> Result<i16, AsmError> {
    if k >= toks.len() {
        Err(AsmError::MissingImmediate)
    } else {
        spec_immediate(toks[k])
    }
}

/// The bits that say which instruction a word is.
pub open spec fn spec_key_bits(key: Opcode) -> word {
    match key {
        Opcode::General(o) => (o as word) << 26,
        Opcode::Function(f) => f as word,
        Opcode::Coprocessor(n, b) => (((0x10 + n) as word) << 26) | ((b as word) << 21),
    }
}

/// The operand bits that the tokens after the mnemonic give in format `format`,
/// together with the number of operands taken. Operands are read from left to right,
/// and the first one that is missing or wrong decides the error.
pub open spec fn spec_operands(format: InsFormat, toks: Seq<Seq<u8>>) -> Result<(word, int), AsmError> {
    match format {
        InsFormat::R(shift) => match spec_register_at(toks, 1, AsmError::MissingRd) {
            Err(e) => Err(e),
            Ok(rd) => match spec_register_at(toks, 2, AsmError::MissingRs) {
                Err(e) => Err(e),
                Ok(rs) => match spec_register_at(toks, 3, AsmError::MissingRt) {
                    Err(e) => Err(e),
                    Ok(rt) => if shift {
                        match spec_literal_at(toks, 4, AsmError::MissingShift, MAX_SHAMT) {
                            Err(e) => Err(e),
                            Ok(shamt) => Ok((spec_op_r(0, rd, rs, rt, shamt as u8), 4)),
                        }
                    } else {
                        Ok((spec_op_r(0, rd, rs, rt, 0), 3))
                    },
                },
            },
        },
        InsFormat::I => match spec_register_at(toks, 1, AsmError::MissingRt) {
            Err(e) => Err(e),
            Ok(rt) => match spec_register_at(toks, 2, AsmError::MissingRs) {
                Err(e) => Err(e),
                Ok(rs) => match spec_immediate_at(toks, 3) {
                    Err(e) => Err(e),
                    Ok(imm) => Ok((spec_op_i(rs, rt, imm), 3)),
                },
            },
        },
        InsFormat::J => match spec_literal_at(toks, 1, AsmError::MissingAddress, MAX_TARGET) {
            Err(e) => Err(e),
            Ok(addr) => Ok((spec_op_j(addr), 1)),
        },
        InsFormat::Sys => if toks.len() > 1 {
            match spec_limited_literal(toks[1], MAX_CODE) {
                Err(e) => Err(e),
                Ok(code) => Ok((spec_op_syscall(code), 1)),
            }
        } else {
            Ok((0, 0))
        },
    }
}

/// The word that a line made of the tokens `toks` assembles to.
pub open spec fn spec_assemble_tokens(toks: Seq<Seq<u8>>) -> Result<word, AsmError> {
    if toks.len() == 0 {
        Err(AsmError::MissingMnemonic)
    } else {
        match find_mnemonic(toks[0], 0) {
            None => Err(AsmError::UnknownMnemonic),
            Some(i) => match spec_operands(spec_instruction(i).2, toks) {
                Err(e) => Err(e),
                Ok((bits, count)) => if toks.len() > 1 + count {
                    Err(AsmError::TooManyArguments)
                } else {
                    Ok(spec_key_bits(spec_instruction(i).0) | bits)
                },
            },
        }
    }
}

/// The word that a line of assembly text stands for, or the first error in it.
///
/// The line is cut into tokens at whitespace. The first token is the mnemonic, which
/// must be in the instruction table; its row decides which operands follow. Each
/// operand may carry one trailing comma.
pub open spec fn spec_assemble(line: Seq<u8>) -> Result<word, AsmError> {
    spec_assemble_tokens(tokens(line))
}

/// Drops the comma that may trail an operand.
pub fn maybe_comma(tok: &[u8]) -> (r: &[u8])
    ensures
        r@ == strip_comma(tok@),
{
    let n = tok.len();
    if n > 0 && tok[n - 1] == 0x2C {
        let r = &tok[0..n - 1];
        assert(r@ =~= tok@.drop_last());
        r
    } else {
        tok
    }
}

/// Reads a register operand.
pub fn register(tok: &[u8]) -> (r: Result<Register, AsmError>)
    ensures
        r == spec_register(tok@),
{
    let s = maybe_comma(tok);
    if s.len() == 0 || s[0] != 0x24 {
        return Err(AsmError::MissingPrefix);
    }
    let name = &s[1..s.len()];
    assert(name@ =~= s@.skip(1));
    match Register::parse(name) {
        Some(r) => Ok(r),
        None => Err(AsmError::UnknownRegister),
    }
}

/// Reads a literal operand.
pub fn literal(tok: &[u8]) -> (r: Result<word, AsmError>)
    ensures
        r == spec_literal(tok@),
{
    let s = maybe_comma(tok);
    let n = s.len();
    let radix: u8 = if n >= 2 && s[0] == 0x30 && s[1] == 0x78 {
        16
    } else if n >= 2 && s[0] == 0x30 && s[1] == 0x6F {
        8
    } else if n >= 2 && s[0] == 0x30 && s[1] == 0x62 {
        2
    } else {
        10
    };
    let body = if radix == 10 {
        s
    } else {
        let b = &s[2..n];
        assert(b@ =~= s@.skip(2));
        b
    };
    let digits = if body.len() > 0 && body[0] == 0x2B {
        let d = &body[1..body.len()];
        assert(d@ =~= body@.skip(1));
        d
    } else {
        body
    };
    match parse_number(digits, radix, 0xFFFF_FFFF) {
        Some(v) => Ok(v),
        None => Err(AsmError::InvalidLiteral),
    }
}

/// The bits that say which instruction a word is.
#[verifier::when_used_as_spec(spec_key_bits)]
pub fn key_bits(key: Opcode) -> (r: word)
    ensures
        r == spec_key_bits(key),
{
    match key {
        Opcode::General(o) => (o as word) << 26,
        Opcode::Function(f) => f as word,
        Opcode::Coprocessor(n, b) => ((0x10 + n as word) << 26) | ((b as word) << 21),
    }
}

/// Whether `toks` marks the tokens of `line`, each by where it starts and ends.
pub open spec fn marks_tokens(toks: Seq<(usize, usize)>, line: Seq<u8>) -> bool {
    &&& toks.len() == tokens(line).len()
    &&& forall|k: int|
        0 <= k < toks.len() ==> (#[trigger] toks[k]).0 <= toks[k].1 <= line.len()
            && line.subrange(toks[k].0 as int, toks[k].1 as int) == tokens(line)[k]
}

/// Reads the register operand at position `k` of the line.
fn register_at(line: &[u8], toks: &Vec<(usize, usize)>, k: usize, missing: AsmError) -> (r: Result<
    Register,
    AsmError,
>)
    requires
        marks_tokens(toks@, line@),
    ensures
        r == spec_register_at(tokens(line@), k as int, missing),
{
    if k >= toks.len() {
        return Err(missing);
    }
    let (start, end) = toks[k];
    register(&line[start..end])
}

/// Reads a literal operand that may be at most `limit`.
pub fn limited_literal(tok: &[u8], limit: word) -> (r: Result<word, AsmError>)
    ensures
        r == spec_limited_literal(tok@, limit),
{
    match literal(tok) {
        Ok(v) => if v <= limit {
            Ok(v)
        } else {
            Err(AsmError::OutOfRange)
        },
        Err(e) => Err(e),
    }
}

/// Reads the literal operand at position `k` of the line.
fn literal_at(line: &[u8], toks: &Vec<(usize, usize)>, k: usize, missing: AsmError, limit: word) -> (r:
    Result<word, AsmError>)
    requires
        marks_tokens(toks@, line@),
    ensures
        r == spec_literal_at(tokens(line@), k as int, missing, limit),
{
    if k >= toks.len() {
        return Err(missing);
    }
    let (start, end) = toks[k];
    limited_literal(&line[start..end], limit)
}

/// The 16-bit two's-complement number that the low half of `v` holds.
#[verifier::when_used_as_spec(spec_half_of)]
pub fn half_of(v: word) -> (h: i16)
    ensures
        h == spec_half_of(v),
{
    let low = v % 0x1_0000;
    if low < 0x8000 {
        low as i16
    } else {
        (low as i32 - 0x1_0000) as i16
    }
}

/// Reads the immediate operand of the immediate format.
pub fn immediate(tok: &[u8]) -> (r: Result<i16, AsmError>)
    ensures
        r == spec_immediate(tok@),
{
    let s = maybe_comma(tok);
    if s.len() > 0 && s[0] == 0x2D {
        let digits = &s[1..s.len()];
        assert(digits@ =~= s@.skip(1));
        if !is_digits(digits, 10) {
            return Err(AsmError::InvalidLiteral);
        }
        match parse_number(digits, 10, MAX_NEGATIVE) {
            Some(n) => Ok((-(n as i32)) as i16),
            None => Err(AsmError::OutOfRange),
        }
    } else {
        match limited_literal(tok, MAX_HALF) {
            Ok(v) => Ok(half_of(v)),
            Err(e) => Err(e),
        }
    }
}

/// Reads the immediate operand at position `k` of the line.
fn immediate_at(line: &[u8], toks: &Vec<(usize, usize)>, k: usize) -> (r: Result<i16, AsmError>)
    requires
        marks_tokens(toks@, line@),
    ensures
        r == spec_immediate_at(tokens(line@), k as int),
{
    if k >= toks.len() {
        return Err(AsmError::MissingImmediate);
    }
    let (start, end) = toks[k];
    immediate(&line[start..end])
}

/// Reads the operands that follow the mnemonic and packs them into operand bits.
fn operands(format: InsFormat, line: &[u8], toks: &Vec<(usize, usize)>) -> (r: Result<
    (word, usize),
    AsmError,
>)
    requires
        marks_tokens(toks@, line@),
    ensures
        match r {
            Ok((bits, count)) => spec_operands(format, tokens(line@)) == Ok::<(word, int), AsmError>(
                (bits, count as int),
            ),
            Err(e) => spec_operands(format, tokens(line@)) == Err::<(word, int), AsmError>(e),
        },
{
    match format {
        InsFormat::R(shift) => {
            let rd = match register_at(line, toks, 1, AsmError::MissingRd) {
                Ok(r) => r,
                Err(e) => {
                    return Err(e);
                },
            };
            let rs = match register_at(line, toks, 2, AsmError::MissingRs) {
                Ok(r) => r,
                Err(e) => {
                    return Err(e);
                },
            };
            let rt = match register_at(line, toks, 3, AsmError::MissingRt) {
                Ok(r) => r,
                Err(e) => {
                    return Err(e);
                },
            };
            if shift {
                match literal_at(line, toks, 4, AsmError::MissingShift, MAX_SHAMT) {
                    Ok(shamt) => Ok((op_r(0, rd, rs, rt, shamt as u8), 4)),
                    Err(e) => Err(e),
                }
            } else {
                Ok((op_r(0, rd, rs, rt, 0), 3))
            }
        },
        InsFormat::I => {
            let rt = match register_at(line, toks, 1, AsmError::MissingRt) {
                Ok(r) => r,
                Err(e) => {
                    return Err(e);
                },
            };
            let rs = match register_at(line, toks, 2, AsmError::MissingRs) {
                Ok(r) => r,
                Err(e) => {
                    return Err(e);
                },
            };
            match immediate_at(line, toks, 3) {
                Ok(imm) => Ok((op_i(rs, rt, imm), 3)),
                Err(e) => Err(e),
            }
        },
        InsFormat::J => match literal_at(line, toks, 1, AsmError::MissingAddress, MAX_TARGET) {
            Ok(addr) => Ok((op_j(addr), 1)),
            Err(e) => Err(e),
        },
        InsFormat::Sys => if toks.len() > 1 {
            let (start, end) = toks[1];
            match limited_literal(&line[start..end], MAX_CODE) {
                Ok(code) => Ok((op_syscall(code), 1)),
                Err(e) => Err(e),
            }
        } else {
            Ok((0, 0))
        },
    }
}

/// Assembles one line of source, given as bytes.
pub fn assemble_line(line: &[u8]) -> (r: Result<word, AsmError>)
    ensures
        r == spec_assemble(line@),
{
    let toks = tokenize(line);
    if toks.len() == 0 {
        return Err(AsmError::MissingMnemonic);
    }
    let (start, end) = toks[0];
    let row = match lookup_mnemonic(&line[start..end]) {
        Some(i) => instruction(i),
        None => {
            return Err(AsmError::UnknownMnemonic);
        },
    };
    match operands(row.2, line, &toks) {
        Ok((bits, count)) => if toks.len() > 1 + count {
            Err(AsmError::TooManyArguments)
        } else {
            Ok(key_bits(row.0) | bits)
        },
        Err(e) => Err(e),
    }
}

impl Cpu {
    /// Assembles one line of source into an instruction word. On failure the result
    /// is the message of the first error in the line.
    pub fn from_assembly(s: &str) -> (r: Result<word, &'static str>)
        ensures
            match spec_assemble(s.spec_bytes()) {
                Ok(w) => r == Ok::<word, &'static str>(w),
                Err(e) => r == Err::<word, &'static str>(e.spec_message()),
            },
    {
        match assemble_line(s.as_bytes()) {
            Ok(w) => Ok(w),
            Err(e) => Err(e.message()),
        }
    }
}

/// Commas are optional: an operand reads the same with one comma after it as without.
pub proof fn lemma_trailing_comma_is_optional(tok: Seq<u8>)
    requires
        tok.len() > 0,
        tok.last() != 0x2C,
    ensures
        strip_comma(tok.push(0x2C)) == tok,
        strip_comma(tok) == tok,
        spec_register(tok.push(0x2C)) == spec_register(tok),
        spec_literal(tok.push(0x2C)) == spec_literal(tok),
        spec_immediate(tok.push(0x2C)) == spec_immediate(tok),
{
    assert(tok.push(0x2C).drop_last() =~= tok);
}

} // verus!
