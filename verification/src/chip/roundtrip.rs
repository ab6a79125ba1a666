//! Assembling what the disassembler wrote gives the word back.
//!
//! The law is `lemma_assemble_disassembly`, at the end of this file. Its proof goes in
//! these steps:
//!
//! - the text of an instruction is ASCII, so that its bytes are its characters;
//! - a text whose parts stand one space apart is cut into those parts again
//!   (`lemma_tokens_join`);
//! - the mnemonic of a row is found in that row, and a register's name reads as that
//!   register, because no two of them are spelled alike (`lemma_find_mnemonic`,
//!   `lemma_register_parse`);
//! - the digits that are written for a number read as that number
//!   (`lemma_decimal_digits`, `lemma_hex_digits`);
//! - the fields of a word, put back where they came from, make the word again (the
//!   lemmas named `lemma_pack_..`).

use vstd::prelude::*;
use vstd::string::StringSliceAdditionalSpecFns;

use crate::chip::assembler::{
    spec_assemble, spec_half_of, spec_immediate, spec_immediate_at, spec_key_bits,
    spec_limited_literal, spec_literal, spec_literal_at, spec_operands, spec_register,
    spec_register_at, AsmError, MAX_CODE, MAX_SHAMT, MAX_TARGET,
};
use crate::chip::disassembler::{
    decimal_digits, decimal_text, digit_char, hex_digits, hex_text, operands_text, register_text,
    separator, spec_disassembly,
};
use crate::chip::isa::{
    find_key, find_mnemonic, funct_of, lemma_field_ranges, lemma_fields_as_masks, opcode_of, rd_of,
    row_of, rs_of, rt_of, spec_instruction, spec_instruction_info, spec_low_half, spec_op_i,
    spec_op_j, spec_op_r, spec_op_syscall, InsFormat, Instruction, Opcode, INSTRUCTION_COUNT,
};
use crate::word;
use crate::chip::register::{lemma_register_from_index, lemma_register_index, Register};
use vstd::utf8::{encode_utf8, is_ascii_chars};

use crate::chip::text::{
    is_number, lemma_token_end_of_run, lemma_tokens_shift, number_value, spec_digit_value,
    spec_is_space, token_end, tokens, tokens_from,
};

verus! {

/// The bytes of a text that holds ASCII characters only: one byte for each character.
pub open spec fn ascii_bytes(chars: Seq<char>) -> Seq<u8> {
    Seq::new(chars.len(), |i: int| chars[i] as u8)
}

/// Whether a character is a lower-case letter or a digit.
pub open spec fn is_name_char(c: char) -> bool {
    'a' <= c <= 'z' || '0' <= c <= '9'
}

/// Whether a text is made of lower-case letters and digits only.
pub open spec fn is_name(chars: Seq<char>) -> bool {
    forall|i: int| 0 <= i < chars.len() ==> is_name_char(#[trigger] chars[i])
}

/// Whether a byte is neither whitespace nor outside ASCII.
pub open spec fn is_solid(b: u8) -> bool {
    0x21 <= b <= 0x7E
}

/// Whether a run of bytes holds no whitespace and nothing outside ASCII.
pub open spec fn is_solid_run(s: Seq<u8>) -> bool {
    forall|i: int| 0 <= i < s.len() ==> is_solid(#[trigger] s[i])
}

/// A string of lower-case letters and digits is stored as one byte for each
/// character.
pub proof fn lemma_name_bytes(s: &str)
    requires
        is_name(s@),
    ensures
        s.spec_bytes() == ascii_bytes(s@),
        is_solid_run(ascii_bytes(s@)),
{
    vstd::utf8::is_ascii_chars_encode_utf8(s@);
    assert(s.spec_bytes() =~= ascii_bytes(s@));
}

/// A run of bytes without whitespace is one token.
pub proof fn lemma_tokens_single(a: Seq<u8>)
    requires
        a.len() > 0,
        is_solid_run(a),
    ensures
        tokens(a) == seq![a],
{
    assert(!spec_is_space(a[0]));
    assert forall|k: int| 1 <= k < a.len() implies !spec_is_space(#[trigger] a[k]) by {
        assert(is_solid(a[k]));
    }
    lemma_token_end_of_run(a, 1, a.len() as int);
    assert(a.subrange(0, a.len() as int) =~= a);
    assert(tokens_from(a, a.len() as int) =~= Seq::<Seq<u8>>::empty());
    assert(tokens(a) =~= seq![a]);
}

/// A run of bytes without whitespace, followed by a space, is the first token of a
/// line; the other tokens are those of what follows the space.
pub proof fn lemma_tokens_cons(a: Seq<u8>, rest: Seq<u8>)
    requires
        a.len() > 0,
        is_solid_run(a),
    ensures
        tokens(a + seq![0x20u8] + rest) == seq![a] + tokens(rest),
{
    let p = a + seq![0x20u8];
    let s = p + rest;
    let n = a.len() as int;
    assert(s[0] == a[0]);
    assert(is_solid(a[0]));
    assert forall|k: int| 1 <= k < n implies !spec_is_space(#[trigger] s[k]) by {
        assert(s[k] == a[k]);
        assert(is_solid(a[k]));
    }
    assert(s[n] == 0x20u8);
    lemma_token_end_of_run(s, 1, n);
    assert(s.subrange(0, n) =~= a);
    assert(tokens_from(s, n) == tokens_from(s, n + 1));
    lemma_tokens_shift(p, rest, 0);
}

/// Whether a byte is a decimal digit or an upper-case hexadecimal digit.
pub open spec fn is_digit_byte(b: u8) -> bool {
    0x30 <= b <= 0x39 || 0x41 <= b <= 0x46
}

/// The byte of a digit's character is that digit again, in any radix above it.
proof fn lemma_digit_char(d: int, radix: u8)
    requires
        0 <= d < radix <= 16,
    ensures
        spec_digit_value(digit_char(d) as u8, radix) == Some(d as u8),
        is_digit_byte(digit_char(d) as u8),
        '0' <= digit_char(d) <= 'F',
        radix == 10 ==> 0x30 <= digit_char(d) as u8 <= 0x39,
{
}

/// The decimal digits of a number are a number, and denote it.
pub proof fn lemma_decimal_digits(v: nat)
    ensures
        ({
            let d = ascii_bytes(decimal_digits(v));
            &&& d.len() >= 1
            &&& is_number(d, 10)
            &&& number_value(d, 10) == v
            &&& forall|k: int| 0 <= k < d.len() ==> 0x30 <= #[trigger] d[k] <= 0x39
            &&& is_ascii_chars(decimal_digits(v))
        }),
    decreases v,
{
    let d = ascii_bytes(decimal_digits(v));
    if v < 10 {
        lemma_digit_char(v as int, 10);
        assert(d =~= seq![digit_char(v as int) as u8]);
        assert(d.drop_last() =~= Seq::<u8>::empty());
        assert(number_value(d.drop_last(), 10) == 0);
    } else {
        lemma_decimal_digits(v / 10);
        lemma_digit_char((v % 10) as int, 10);
        let front = ascii_bytes(decimal_digits(v / 10));
        assert(d =~= front.push(digit_char((v % 10) as int) as u8));
        assert(d.drop_last() =~= front);
    }
}

/// The hexadecimal digits of a number are a number, and denote it, however many zeros
/// pad them on the left.
pub proof fn lemma_hex_digits(v: nat, width: nat)
    ensures
        ({
            let d = ascii_bytes(hex_digits(v, width));
            &&& d.len() >= 1
            &&& is_number(d, 16)
            &&& number_value(d, 16) == v
            &&& forall|k: int| 0 <= k < d.len() ==> is_digit_byte(#[trigger] d[k])
            &&& is_ascii_chars(hex_digits(v, width))
        }),
    decreases v, width,
{
    let d = ascii_bytes(hex_digits(v, width));
    if v < 16 && width <= 1 {
        lemma_digit_char(v as int, 16);
        assert(d =~= seq![digit_char(v as int) as u8]);
        assert(d.drop_last() =~= Seq::<u8>::empty());
        assert(number_value(d.drop_last(), 16) == 0);
    } else {
        let narrower: nat = if width == 0 {
            0
        } else {
            (width - 1) as nat
        };
        lemma_hex_digits(v / 16, narrower);
        lemma_digit_char((v % 16) as int, 16);
        let front = ascii_bytes(hex_digits(v / 16, narrower));
        assert(d =~= front.push(digit_char((v % 16) as int) as u8));
        assert(d.drop_last() =~= front);
    }
}

/// Byte `k` of `s`, or zero past its end.
pub open spec fn byte_or_zero(s: Seq<u8>, k: int) -> int {
    if 0 <= k < s.len() {
        s[k] as int
    } else {
        0
    }
}

/// A number that tells short names apart: it is made of the length of `s` and of its
/// first four bytes.
pub open spec fn fingerprint(s: Seq<u8>) -> int {
    s.len() + 8 * (byte_or_zero(s, 0) + 256 * (byte_or_zero(s, 1) + 256 * (byte_or_zero(s, 2) + 256
        * byte_or_zero(s, 3))))
}

/// The fingerprint of each register's name.
pub open spec fn register_print(r: Register) -> int {
    match r {
        Register::zero => 14958144468,
        Register::at => 238346,
        Register::v0 => 99250,
        Register::v1 => 101298,
        Register::a0 => 99082,
        Register::a1 => 101130,
        Register::a2 => 103178,
        Register::a3 => 105226,
        Register::t0 => 99234,
        Register::t1 => 101282,
        Register::t2 => 103330,
        Register::t3 => 105378,
        Register::t4 => 107426,
        Register::t5 => 109474,
        Register::t6 => 111522,
        Register::t7 => 113570,
        Register::s0 => 99226,
        Register::s1 => 101274,
        Register::s2 => 103322,
        Register::s3 => 105370,
        Register::s4 => 107418,
        Register::s5 => 109466,
        Register::s6 => 111514,
        Register::s7 => 113562,
        Register::t8 => 115618,
        Register::t9 => 117666,
        Register::k0 => 99162,
        Register::k1 => 101210,
        Register::gp => 230202,
        Register::sp => 230298,
        Register::fp => 230194,
        Register::ra => 199570,
    }
}

/// The fingerprint of each mnemonic of the instruction table.
pub open spec fn mnemonic_print(i: usize) -> int {
    match i {
        0 => 56845211,
        1 => 56857499,
        2 => 234322,
        3 => 15357643604,
        4 => 13348096927,
        5 => 13072306965,
        6 => 14147597164,
        7 => 14955000684,
        8 => 15626120044,
        9 => 15626120045,
        10 => 62081827,
        11 => 15765556004,
        12 => 52634379,
        13 => 15756108556,
        14 => 51620763,
        15 => 15755094940,
        16 => 52654859,
        17 => 234362,
        18 => 59997123,
        19 => 59997043,
        20 => 61039515,
        21 => 15764513692,
        22 => 59452323,
        23 => 6494565228,
        24 => 849,
        25 => 56822611,
        26 => 59452179,
        27 => 53179155,
        28 => 14145495820,
        29 => 14145495821,
        30 => 14153900956,
        31 => 14153900957,
        32 => 14145516300,
        33 => 55284603,
        34 => 14152858564,
        35 => 55290723,
        36 => 244578,
        37 => 61543267,
        38 => 61555555,
        39 => 201626,
        40 => 213914,
        41 => 244634,
        42 => 222050,
        43 => 203674,
        _ => 58948467,
    }
}

/// What holds of every register's name: it is made of one to four lower-case letters
/// and digits, not of digits alone, and has the fingerprint that `register_print`
/// gives.
pub proof fn lemma_register_name(r: Register)
    ensures
        is_name(r.spec_name()@),
        1 <= r.spec_name()@.len() <= 4,
        'a' <= r.spec_name()@[0] <= 'z',
        fingerprint(ascii_bytes(r.spec_name()@)) == register_print(r),
{
    reveal(Register::spec_name);
    reveal_strlit("zero");
    reveal_strlit("at");
    reveal_strlit("v0");
    reveal_strlit("v1");
    reveal_strlit("a0");
    reveal_strlit("a1");
    reveal_strlit("a2");
    reveal_strlit("a3");
    reveal_strlit("t0");
    reveal_strlit("t1");
    reveal_strlit("t2");
    reveal_strlit("t3");
    reveal_strlit("t4");
    reveal_strlit("t5");
    reveal_strlit("t6");
    reveal_strlit("t7");
    reveal_strlit("s0");
    reveal_strlit("s1");
    reveal_strlit("s2");
    reveal_strlit("s3");
    reveal_strlit("s4");
    reveal_strlit("s5");
    reveal_strlit("s6");
    reveal_strlit("s7");
    reveal_strlit("t8");
    reveal_strlit("t9");
    reveal_strlit("k0");
    reveal_strlit("k1");
    reveal_strlit("gp");
    reveal_strlit("sp");
    reveal_strlit("fp");
    reveal_strlit("ra");
}

/// What holds of every mnemonic of the instruction table: it is made of one to seven
/// lower-case letters and digits, and has the fingerprint that `mnemonic_print` gives.
pub proof fn lemma_mnemonic(i: usize)
    requires
        i < INSTRUCTION_COUNT,
    ensures
        is_name(spec_instruction(i).1@),
        1 <= spec_instruction(i).1@.len() <= 7,
        fingerprint(ascii_bytes(spec_instruction(i).1@)) == mnemonic_print(i),
{
    reveal(spec_instruction);
    reveal_strlit("sll");
    reveal_strlit("srl");
    reveal_strlit("jr");
    reveal_strlit("jalr");
    reveal_strlit("syscall");
    reveal_strlit("break");
    reveal_strlit("mfhi");
    reveal_strlit("mflo");
    reveal_strlit("mult");
    reveal_strlit("multu");
    reveal_strlit("div");
    reveal_strlit("divu");
    reveal_strlit("add");
    reveal_strlit("addu");
    reveal_strlit("sub");
    reveal_strlit("subu");
    reveal_strlit("and");
    reveal_strlit("or");
    reveal_strlit("xor");
    reveal_strlit("nor");
    reveal_strlit("slt");
    reveal_strlit("sltu");
    reveal_strlit("teq");
    reveal_strlit("mfc0");
    reveal_strlit("j");
    reveal_strlit("jal");
    reveal_strlit("beq");
    reveal_strlit("bne");
    reveal_strlit("addi");
    reveal_strlit("addiu");
    reveal_strlit("slti");
    reveal_strlit("sltiu");
    reveal_strlit("andi");
    reveal_strlit("ori");
    reveal_strlit("xori");
    reveal_strlit("lui");
    reveal_strlit("lw");
    reveal_strlit("lbu");
    reveal_strlit("lhu");
    reveal_strlit("sb");
    reveal_strlit("sh");
    reveal_strlit("sw");
    reveal_strlit("ll");
    reveal_strlit("sc");
    reveal_strlit("nop");
}

/// Looking a mnemonic of the table up by its spelling finds its own row: no two rows
/// spell their mnemonics alike.
pub proof fn lemma_find_mnemonic(i: usize, from: usize)
    requires
        from <= i < INSTRUCTION_COUNT,
    ensures
        find_mnemonic(ascii_bytes(spec_instruction(i).1@), from) == Some(i),
    decreases i - from,
{
    lemma_mnemonic(i);
    lemma_mnemonic(from);
    lemma_name_bytes(spec_instruction(i).1);
    lemma_name_bytes(spec_instruction(from).1);
    if from < i {
        assert(mnemonic_print(from) != mnemonic_print(i));
        lemma_find_mnemonic(i, (from + 1) as usize);
    }
}

/// Looking a register up by its name finds that register: no two registers are named
/// alike.
pub proof fn lemma_register_named(r: Register, from: int)
    requires
        0 <= from <= r.spec_index(),
    ensures
        Register::spec_named(ascii_bytes(r.spec_name()@), from) == Some(r),
    decreases r.spec_index() - from,
{
    let candidate = Register::spec_from_index(from);
    lemma_register_index(r);
    lemma_register_from_index(from);
    lemma_register_name(r);
    lemma_register_name(candidate);
    lemma_name_bytes(r.spec_name());
    lemma_name_bytes(candidate.spec_name());
    if from < r.spec_index() {
        assert(candidate != r);
        assert(register_print(candidate) != register_print(r));
        lemma_register_named(r, from + 1);
    }
}

/// A register's name reads as that register.
pub proof fn lemma_register_parse(r: Register)
    ensures
        Register::spec_parse(ascii_bytes(r.spec_name()@)) == Some(r),
{
    lemma_register_index(r);
    lemma_register_named(r, 0);
}

/// A text that is spelled as no register's name is found among the names nowhere.
pub proof fn lemma_register_not_named(s: Seq<u8>, from: int)
    requires
        0 <= from,
        forall|r: Register| fingerprint(s) != #[trigger] register_print(r),
    ensures
        Register::spec_named(s, from) is None,
    decreases 32 - from,
{
    if from < 32 {
        let candidate = Register::spec_from_index(from);
        lemma_register_name(candidate);
        lemma_name_bytes(candidate.spec_name());
        lemma_register_not_named(s, from + 1);
    }
}

/// What names no register: the empty text, a number above 31, a name in upper case.
pub proof fn lemma_not_registers()
    ensures
        Register::spec_parse(Seq::<u8>::empty()) is None,
        Register::spec_parse(seq![0x33u8, 0x32u8]) is None,
        Register::spec_parse(seq![0x54u8, 0x30u8]) is None,
{
    let empty = Seq::<u8>::empty();
    let thirty_two = seq![0x33u8, 0x32u8];
    let upper = seq![0x54u8, 0x30u8];
    lemma_register_not_named(empty, 0);
    lemma_register_not_named(thirty_two, 0);
    lemma_register_not_named(upper, 0);
    assert(number_value(thirty_two, 10) == 32) by {
        assert(thirty_two.drop_last() =~= seq![0x33u8]);
        assert(seq![0x33u8].drop_last() =~= Seq::<u8>::empty());
        assert(number_value(Seq::<u8>::empty(), 10) == 0);
        assert(number_value(seq![0x33u8], 10) == 3);
    }
    assert(!is_number(upper, 10)) by {
        assert(spec_digit_value(upper[0], 10) is None);
    }
}

/// The bytes of a register operand as the disassembler writes it: a `$`, then the
/// name, which is not empty and ends in a letter or a digit.
proof fn lemma_register_text(r: Register)
    ensures
        ({
            let name = ascii_bytes(r.spec_name()@);
            let written = ascii_bytes(register_text(r));
            &&& written == seq![0x24u8] + name
            &&& name.len() > 0
            &&& is_solid_run(name)
            &&& name.last() != 0x2Cu8
        }),
{
    let name = ascii_bytes(r.spec_name()@);
    lemma_register_name(r);
    lemma_name_bytes(r.spec_name());
    assert(ascii_bytes(register_text(r)) =~= seq![0x24u8] + name);
    assert(is_name_char(r.spec_name()@[r.spec_name()@.len() - 1]));
}

/// A `$` and a name, with or without a comma after them, read as the register that
/// the name reads as.
proof fn lemma_register_token(name: Seq<u8>, r: Register, comma: bool)
    requires
        name.len() > 0,
        is_solid_run(name),
        name.last() != 0x2Cu8,
        Register::spec_parse(name) == Some(r),
    ensures
        ({
            let written = seq![0x24u8] + name;
            let tok = if comma {
                written.push(0x2Cu8)
            } else {
                written
            };
            &&& spec_register(tok) == Ok::<Register, AsmError>(r)
            &&& is_solid_run(tok)
            &&& tok.len() > 0
        }),
{
    let written = seq![0x24u8] + name;
    assert(written.skip(1) =~= name);
    assert(written.push(0x2Cu8).drop_last() =~= written);
    assert(written.last() == name.last());
    assert forall|k: int| 0 <= k < written.len() implies is_solid(#[trigger] written[k]) by {
        if k > 0 {
            assert(is_solid(name[k - 1]));
        }
    }
}

/// A register operand as the disassembler writes it, with or without a comma after
/// it, reads as that register.
pub proof fn lemma_register_operand(r: Register, comma: bool)
    ensures
        ({
            let written = ascii_bytes(register_text(r));
            let tok = if comma {
                written.push(0x2Cu8)
            } else {
                written
            };
            &&& spec_register(tok) == Ok::<Register, AsmError>(r)
            &&& is_solid_run(tok)
            &&& tok.len() > 0
        }),
{
    lemma_register_text(r);
    lemma_register_parse(r);
    lemma_register_token(ascii_bytes(r.spec_name()@), r, comma);
}

/// A shift amount as the disassembler writes it reads as that number.
pub proof fn lemma_decimal_operand(v: word)
    ensures
        spec_literal(ascii_bytes(decimal_text(v))) == Ok::<word, AsmError>(v),
        is_solid_run(ascii_bytes(decimal_text(v))),
        ascii_bytes(decimal_text(v)).len() > 0,
{
    lemma_decimal_digits(v as nat);
}

/// A hexadecimal literal as the disassembler writes it reads as that number.
pub proof fn lemma_hex_operand(v: word, width: nat)
    ensures
        spec_literal(ascii_bytes(hex_text(v, width))) == Ok::<word, AsmError>(v),
        is_solid_run(ascii_bytes(hex_text(v, width))),
        ascii_bytes(hex_text(v, width)).len() > 0,
{
    lemma_hex_digits(v as nat, width);
    let digits = ascii_bytes(hex_digits(v as nat, width));
    let tok = ascii_bytes(hex_text(v, width));
    assert(tok =~= seq![0x30u8, 0x78u8] + digits);
    assert(tok.skip(2) =~= digits);
    assert(is_digit_byte(digits[digits.len() - 1]));
    assert(is_digit_byte(digits[0]));
    assert forall|k: int| 0 <= k < tok.len() implies is_solid(#[trigger] tok[k]) by {
        if k >= 2 {
            assert(is_digit_byte(digits[k - 2]));
        }
    }
}

/// An immediate as the disassembler writes it reads as the number whose 16-bit form
/// it is.
pub proof fn lemma_hex_immediate(imm: word)
    requires
        imm <= 0xFFFF,
    ensures
        spec_immediate(ascii_bytes(hex_text(imm, 1))) == Ok::<i16, AsmError>(spec_half_of(imm)),
        is_solid_run(ascii_bytes(hex_text(imm, 1))),
        ascii_bytes(hex_text(imm, 1)).len() > 0,
{
    lemma_hex_operand(imm, 1);
    lemma_hex_digits(imm as nat, 1);
    let digits = ascii_bytes(hex_digits(imm as nat, 1));
    let tok = ascii_bytes(hex_text(imm, 1));
    assert(tok =~= seq![0x30u8, 0x78u8] + digits);
    assert(is_digit_byte(digits[digits.len() - 1]));
    assert(tok.last() == digits.last());
}

/// A `-` and the decimal digits of a number from 0 to 32768 read as that number,
/// negated: the immediate is signed.
pub proof fn lemma_negative_immediate(n: nat)
    requires
        n <= 0x8000,
    ensures
        spec_immediate(seq![0x2Du8] + ascii_bytes(decimal_digits(n))) == Ok::<i16, AsmError>(
            (-(n as int)) as i16,
        ),
{
    lemma_decimal_digits(n);
    let digits = ascii_bytes(decimal_digits(n));
    let tok = seq![0x2Du8] + digits;
    assert(tok.skip(1) =~= digits);
    assert(tok.last() == digits.last());
    assert(0x30 <= digits[digits.len() - 1] <= 0x39);
}

/// A line made of the given tokens, one space between each two of them.
pub open spec fn join(toks: Seq<Seq<u8>>) -> Seq<u8>
    decreases toks.len(),
{
    if toks.len() == 0 {
        Seq::empty()
    } else if toks.len() == 1 {
        toks[0]
    } else {
        toks[0] + seq![0x20u8] + join(toks.drop_first())
    }
}

/// Cutting a line that was joined from tokens gives the tokens back.
pub proof fn lemma_tokens_join(toks: Seq<Seq<u8>>)
    requires
        toks.len() >= 1,
        forall|k: int| 0 <= k < toks.len() ==> (#[trigger] toks[k]).len() > 0 && is_solid_run(toks[k]),
    ensures
        tokens(join(toks)) == toks,
    decreases toks.len(),
{
    if toks.len() == 1 {
        lemma_tokens_single(toks[0]);
        assert(toks =~= seq![toks[0]]);
    } else {
        let rest = toks.drop_first();
        assert forall|k: int| 0 <= k < rest.len() implies (#[trigger] rest[k]).len() > 0
            && is_solid_run(rest[k]) by {
            assert(rest[k] == toks[k + 1]);
        }
        lemma_tokens_join(rest);
        lemma_tokens_cons(toks[0], join(rest));
        assert(toks =~= seq![toks[0]] + rest);
    }
}

/// The row that decodes a word is selected by the word's opcode.
pub proof fn lemma_find_key(key: Opcode, from: usize)
    ensures
        find_key(key, from) matches Some(i) ==> from <= i < INSTRUCTION_COUNT && spec_instruction(
            i,
        ).0 == key,
    decreases INSTRUCTION_COUNT - from,
{
    if from < INSTRUCTION_COUNT && spec_instruction(from).0 != key {
        lemma_find_key(key, (from + 1) as usize);
    }
}

/// Whether a row of the table may pair the given selector with the given format.
pub open spec fn is_row_shape(key: Opcode, format: InsFormat) -> bool {
    match key {
        Opcode::Function(_) => format != InsFormat::I,
        Opcode::General(_) => format == InsFormat::I || format == InsFormat::J,
        Opcode::Coprocessor(n, _) => n == 0 && format == InsFormat::R(true),
    }
}

/// Every row of the table pairs its selector with a format that fits it.
pub proof fn lemma_row_shape(i: usize)
    requires
        i < INSTRUCTION_COUNT,
    ensures
        is_row_shape(spec_instruction(i).0, spec_instruction(i).2),
{
    reveal(spec_instruction);
}

/// The word that assembling the text of `ins` gives: `ins` itself, but with the shift
/// amount cleared where the text does not show it.
pub open spec fn canonical(ins: word) -> word {
    match spec_instruction_info(ins) {
        Some((_, InsFormat::R(false))) => ins & 0xFFFF_F83Fu32,
        _ => ins,
    }
}

/// Putting the fields of a word with primary opcode 0x00 back together, in the
/// register format.
proof fn lemma_pack_function_r(ins: u32, a: u32, b: u32, c: u32, d: u32, f: u32)
    by (bit_vector)
    requires
        (ins >> 26) & 0x3f == 0,
        a == (ins >> 21) & 0x1f,
        b == (ins >> 16) & 0x1f,
        c == (ins >> 11) & 0x1f,
        d == (ins >> 6) & 0x1f,
        f == ins & 0x3f,
    ensures
        f | (((((a << 21) | (b << 16)) | (c << 11)) | (d << 6)) | 0) == ins,
        f | (((((a << 21) | (b << 16)) | (c << 11)) | (0u32 << 6)) | 0) == ins & 0xFFFF_F83Fu32,
{
}

/// Putting the fields of a coprocessor word back together, in the register format.
proof fn lemma_pack_coprocessor_r(ins: u32, o: u32, a: u32, b: u32, c: u32, d: u32)
    by (bit_vector)
    requires
        o == (ins >> 26) & 0x3f,
        a == (ins >> 21) & 0x1f,
        b == (ins >> 16) & 0x1f,
        c == (ins >> 11) & 0x1f,
        d == (ins >> 6) & 0x1f,
        ins & 0x3f == 0,
    ensures
        ((o << 26) | (a << 21)) | (((((a << 21) | (b << 16)) | (c << 11)) | (d << 6)) | 0) == ins,
{
}

/// Putting the fields of a word back together, in the immediate format.
proof fn lemma_pack_general_i(ins: u32, o: u32, a: u32, b: u32, imm: u32)
    by (bit_vector)
    requires
        o == (ins >> 26) & 0x3f,
        a == (ins >> 21) & 0x1f,
        b == (ins >> 16) & 0x1f,
        imm == ins & 0xffff,
    ensures
        (o << 26) | (((a << 21) | (b << 16)) | imm) == ins,
{
}

/// Putting the fields of a word back together, in the jump format.
proof fn lemma_pack_j(ins: u32, o: u32, f: u32, t: u32)
    by (bit_vector)
    requires
        o == (ins >> 26) & 0x3f,
        f == ins & 0x3f,
        t == ins & 0x3ff_ffff,
    ensures
        (t << 2) <= 0x0FFF_FFFFu32,
        (o << 26) | ((t << 2) >> 2) == ins,
        o == 0 ==> f | ((t << 2) >> 2) == ins,
{
}

/// Putting the fields of a word with primary opcode 0x00 back together, in the
/// format of `syscall`.
proof fn lemma_pack_function_sys(ins: u32, f: u32, code: u32)
    by (bit_vector)
    requires
        (ins >> 26) & 0x3f == 0,
        f == ins & 0x3f,
        code == (ins >> 6) & 0xf_ffff,
    ensures
        f | (code << 6) == ins,
{
}

/// The bytes of the mnemonic of row `i`.
pub open spec fn mnemonic_bytes(i: usize) -> Seq<u8> {
    ascii_bytes(spec_instruction(i).1@)
}

/// A register operand as the disassembler writes it, with a comma after it if it is
/// not the last operand.
pub open spec fn register_token(r: Register, comma: bool) -> Seq<u8> {
    if comma {
        ascii_bytes(register_text(r)).push(0x2Cu8)
    } else {
        ascii_bytes(register_text(r))
    }
}

/// The tokens of the text of an instruction in the register format.
pub open spec fn tokens_r(i: usize, rd: Register, rs: Register, rt: Register, shift: bool, shamt: word) -> Seq<
    Seq<u8>,
> {
    if shift {
        seq![
            mnemonic_bytes(i),
            register_token(rd, true),
            register_token(rs, true),
            register_token(rt, true),
            ascii_bytes(decimal_text(shamt)),
        ]
    } else {
        seq![
            mnemonic_bytes(i),
            register_token(rd, true),
            register_token(rs, true),
            register_token(rt, false),
        ]
    }
}

/// The tokens of the text of an instruction in the immediate format.
pub open spec fn tokens_i(i: usize, rt: Register, rs: Register, imm: word) -> Seq<Seq<u8>> {
    seq![
        mnemonic_bytes(i),
        register_token(rt, true),
        register_token(rs, true),
        ascii_bytes(hex_text(imm, 1)),
    ]
}

/// The tokens of the text of an instruction with one hexadecimal operand.
pub open spec fn tokens_hex(i: usize, v: word, width: nat) -> Seq<Seq<u8>> {
    seq![mnemonic_bytes(i), ascii_bytes(hex_text(v, width))]
}

/// The mnemonic of a row is a token that the assembler finds in that row.
proof fn lemma_mnemonic_token(i: usize)
    requires
        i < INSTRUCTION_COUNT,
    ensures
        mnemonic_bytes(i).len() > 0,
        is_solid_run(mnemonic_bytes(i)),
        find_mnemonic(mnemonic_bytes(i), 0) == Some(i),
{
    lemma_mnemonic(i);
    lemma_name_bytes(spec_instruction(i).1);
    lemma_find_mnemonic(i, 0);
}

/// A line whose first token is the mnemonic of row `i`, and whose other tokens are
/// operands that give `bits`, assembles to the row's selector bits over `bits`.
proof fn lemma_assemble_tokens(toks: Seq<Seq<u8>>, i: usize, bits: word, count: int)
    requires
        i < INSTRUCTION_COUNT,
        toks.len() == 1 + count,
        forall|k: int| 0 <= k < toks.len() ==> (#[trigger] toks[k]).len() > 0 && is_solid_run(toks[k]),
        find_mnemonic(toks[0], 0) == Some(i),
        spec_operands(spec_instruction(i).2, toks) == Ok::<(word, int), AsmError>((bits, count)),
    ensures
        spec_assemble(join(toks)) == Ok::<word, AsmError>(
            spec_key_bits(spec_instruction(i).0) | bits,
        ),
{
    lemma_tokens_join(toks);
}

/// The operands of a line in the register format.
proof fn lemma_operands_r(
    toks: Seq<Seq<u8>>,
    rd: Register,
    rs: Register,
    rt: Register,
    shift: bool,
    shamt: word,
)
    requires
        toks.len() == (if shift {
            5int
        } else {
            4int
        }),
        spec_register(toks[1]) == Ok::<Register, AsmError>(rd),
        spec_register(toks[2]) == Ok::<Register, AsmError>(rs),
        spec_register(toks[3]) == Ok::<Register, AsmError>(rt),
        shift ==> spec_literal(toks[4]) == Ok::<word, AsmError>(shamt),
        shamt < 32,
    ensures
        spec_operands(InsFormat::R(shift), toks) == Ok::<(word, int), AsmError>(
            (
                spec_op_r(
                    0,
                    rd,
                    rs,
                    rt,
                    if shift {
                        shamt as u8
                    } else {
                        0
                    },
                ),
                toks.len() - 1,
            ),
        ),
{
    assert(spec_register_at(toks, 1, AsmError::MissingRd) == Ok::<Register, AsmError>(rd));
    assert(spec_register_at(toks, 2, AsmError::MissingRs) == Ok::<Register, AsmError>(rs));
    assert(spec_register_at(toks, 3, AsmError::MissingRt) == Ok::<Register, AsmError>(rt));
    if shift {
        assert(spec_literal_at(toks, 4, AsmError::MissingShift, MAX_SHAMT) == Ok::<
            word,
            AsmError,
        >(shamt));
    }
}

/// The operands of a line in the immediate format.
proof fn lemma_operands_i(toks: Seq<Seq<u8>>, rt: Register, rs: Register, imm: i16)
    requires
        toks.len() == 4,
        spec_register(toks[1]) == Ok::<Register, AsmError>(rt),
        spec_register(toks[2]) == Ok::<Register, AsmError>(rs),
        spec_immediate(toks[3]) == Ok::<i16, AsmError>(imm),
    ensures
        spec_operands(InsFormat::I, toks) == Ok::<(word, int), AsmError>(
            (spec_op_i(rs, rt, imm), 3),
        ),
{
    assert(spec_register_at(toks, 1, AsmError::MissingRt) == Ok::<Register, AsmError>(rt));
    assert(spec_register_at(toks, 2, AsmError::MissingRs) == Ok::<Register, AsmError>(rs));
    assert(spec_immediate_at(toks, 3) == Ok::<i16, AsmError>(imm));
}

/// Whether `tok` can be a token: it is not empty and holds no whitespace.
pub open spec fn is_token(tok: Seq<u8>) -> bool {
    tok.len() > 0 && is_solid_run(tok)
}

/// Four or five tokens in a row are tokens each.
proof fn lemma_all_tokens(toks: Seq<Seq<u8>>)
    requires
        2 <= toks.len() <= 5,
        is_token(toks[0]),
        is_token(toks[1]),
        toks.len() > 2 ==> is_token(toks[2]),
        toks.len() > 3 ==> is_token(toks[3]),
        toks.len() > 4 ==> is_token(toks[4]),
    ensures
        forall|k: int| 0 <= k < toks.len() ==> (#[trigger] toks[k]).len() > 0 && is_solid_run(toks[k]),
{
    assert forall|k: int| 0 <= k < toks.len() implies (#[trigger] toks[k]).len() > 0
        && is_solid_run(toks[k]) by {
        if k == 0 {
        } else if k == 1 {
        } else if k == 2 {
        } else if k == 3 {
        } else {
        }
    }
}

/// A line that is joined from the tokens of a text in the register format with a
/// shift amount assembles to the row's selector bits over the operand bits.
proof fn lemma_assemble_r_shift(i: usize, rd: Register, rs: Register, rt: Register, shamt: word)
    requires
        i < INSTRUCTION_COUNT,
        spec_instruction(i).2 == InsFormat::R(true),
        shamt < 32,
    ensures
        spec_assemble(join(tokens_r(i, rd, rs, rt, true, shamt))) == Ok::<word, AsmError>(
            spec_key_bits(spec_instruction(i).0) | spec_op_r(0, rd, rs, rt, shamt as u8),
        ),
{
    let toks = tokens_r(i, rd, rs, rt, true, shamt);
    lemma_mnemonic_token(i);
    lemma_register_operand(rd, true);
    lemma_register_operand(rs, true);
    lemma_register_operand(rt, true);
    lemma_decimal_operand(shamt);
    lemma_all_tokens(toks);
    lemma_operands_r(toks, rd, rs, rt, true, shamt);
    lemma_assemble_tokens(toks, i, spec_op_r(0, rd, rs, rt, shamt as u8), 4);
}

/// A line that is joined from the tokens of a text in the register format without a
/// shift amount assembles to the row's selector bits over the operand bits.
proof fn lemma_assemble_r_plain(i: usize, rd: Register, rs: Register, rt: Register)
    requires
        i < INSTRUCTION_COUNT,
        spec_instruction(i).2 == InsFormat::R(false),
    ensures
        spec_assemble(join(tokens_r(i, rd, rs, rt, false, 0))) == Ok::<word, AsmError>(
            spec_key_bits(spec_instruction(i).0) | spec_op_r(0, rd, rs, rt, 0),
        ),
{
    let toks = tokens_r(i, rd, rs, rt, false, 0);
    lemma_mnemonic_token(i);
    lemma_register_operand(rd, true);
    lemma_register_operand(rs, true);
    lemma_register_operand(rt, false);
    lemma_all_tokens(toks);
    lemma_operands_r(toks, rd, rs, rt, false, 0);
    lemma_assemble_tokens(toks, i, spec_op_r(0, rd, rs, rt, 0), 3);
}

/// A line that is joined from the tokens of a text in the register format assembles
/// to the row's selector bits over the operand bits of the registers and the shift
/// amount.
proof fn lemma_assemble_r(i: usize, rd: Register, rs: Register, rt: Register, shift: bool, shamt: word)
    requires
        i < INSTRUCTION_COUNT,
        spec_instruction(i).2 == InsFormat::R(shift),
        shamt < 32,
    ensures
        spec_assemble(join(tokens_r(i, rd, rs, rt, shift, shamt))) == Ok::<word, AsmError>(
            spec_key_bits(spec_instruction(i).0) | spec_op_r(
                0,
                rd,
                rs,
                rt,
                if shift {
                    shamt as u8
                } else {
                    0
                },
            ),
        ),
{
    if shift {
        lemma_assemble_r_shift(i, rd, rs, rt, shamt);
    } else {
        lemma_assemble_r_plain(i, rd, rs, rt);
        assert(tokens_r(i, rd, rs, rt, false, shamt) == tokens_r(i, rd, rs, rt, false, 0));
    }
}

/// A line that is joined from the tokens of a text in the immediate format assembles
/// to the row's selector bits over the operand bits of the registers and the
/// immediate.
proof fn lemma_assemble_i(i: usize, rt: Register, rs: Register, imm: word)
    requires
        i < INSTRUCTION_COUNT,
        spec_instruction(i).2 == InsFormat::I,
        imm <= 0xFFFF,
    ensures
        spec_assemble(join(tokens_i(i, rt, rs, imm))) == Ok::<word, AsmError>(
            spec_key_bits(spec_instruction(i).0) | spec_op_i(rs, rt, spec_half_of(imm)),
        ),
{
    let toks = tokens_i(i, rt, rs, imm);
    lemma_mnemonic_token(i);
    lemma_register_operand(rt, true);
    lemma_register_operand(rs, true);
    lemma_hex_immediate(imm);
    lemma_all_tokens(toks);
    lemma_operands_i(toks, rt, rs, spec_half_of(imm));
    lemma_assemble_tokens(toks, i, spec_op_i(rs, rt, spec_half_of(imm)), 3);
}

/// The immediate is signed. A line in the immediate format whose immediate is written
/// as a `-` and the decimal digits of a number from 0 to 32768 assembles to the word
/// that holds that number, negated, in its low 16 bits in two's complement.
pub proof fn lemma_assemble_negative_immediate(i: usize, rt: Register, rs: Register, n: nat)
    requires
        i < INSTRUCTION_COUNT,
        spec_instruction(i).2 == InsFormat::I,
        n <= 0x8000,
    ensures
        spec_assemble(
            join(
                seq![
                    mnemonic_bytes(i),
                    register_token(rt, true),
                    register_token(rs, true),
                    seq![0x2Du8] + ascii_bytes(decimal_digits(n)),
                ],
            ),
        ) == Ok::<word, AsmError>(
            spec_key_bits(spec_instruction(i).0) | spec_op_i(rs, rt, (-(n as int)) as i16),
        ),
{
    let immediate = seq![0x2Du8] + ascii_bytes(decimal_digits(n));
    let toks = seq![
        mnemonic_bytes(i),
        register_token(rt, true),
        register_token(rs, true),
        immediate,
    ];
    lemma_mnemonic_token(i);
    lemma_register_operand(rt, true);
    lemma_register_operand(rs, true);
    lemma_negative_immediate(n);
    lemma_decimal_digits(n);
    assert(is_token(immediate)) by {
        let digits = ascii_bytes(decimal_digits(n));
        assert forall|k: int| 0 <= k < immediate.len() implies is_solid(#[trigger] immediate[k]) by {
            if k > 0 {
                assert(immediate[k] == digits[k - 1]);
                assert(0x30 <= digits[k - 1] <= 0x39);
            }
        }
    }
    lemma_all_tokens(toks);
    lemma_operands_i(toks, rt, rs, (-(n as int)) as i16);
    lemma_assemble_tokens(toks, i, spec_op_i(rs, rt, (-(n as int)) as i16), 3);
}

/// A line that is joined from the tokens of a text in the jump format assembles to
/// the row's selector bits over the address as a word index.
proof fn lemma_assemble_j(i: usize, addr: word)
    requires
        i < INSTRUCTION_COUNT,
        spec_instruction(i).2 == InsFormat::J,
        addr <= MAX_TARGET,
    ensures
        spec_assemble(join(tokens_hex(i, addr, 8))) == Ok::<word, AsmError>(
            spec_key_bits(spec_instruction(i).0) | spec_op_j(addr),
        ),
{
    let toks = tokens_hex(i, addr, 8);
    lemma_mnemonic_token(i);
    lemma_hex_operand(addr, 8);
    assert(spec_literal_at(toks, 1, AsmError::MissingAddress, MAX_TARGET) == Ok::<word, AsmError>(
        addr,
    ));
    lemma_all_tokens(toks);
    lemma_assemble_tokens(toks, i, spec_op_j(addr), 1);
}

/// A line that is joined from the tokens of a text in the format of `syscall`
/// assembles to the row's selector bits over the payload.
proof fn lemma_assemble_sys(i: usize, code: word)
    requires
        i < INSTRUCTION_COUNT,
        spec_instruction(i).2 == InsFormat::Sys,
        code <= MAX_CODE,
    ensures
        spec_assemble(join(tokens_hex(i, code, 1))) == Ok::<word, AsmError>(
            spec_key_bits(spec_instruction(i).0) | spec_op_syscall(code),
        ),
{
    let toks = tokens_hex(i, code, 1);
    lemma_mnemonic_token(i);
    lemma_hex_operand(code, 1);
    assert(spec_limited_literal(toks[1], MAX_CODE) == Ok::<word, AsmError>(code));
    lemma_all_tokens(toks);
    lemma_assemble_tokens(toks, i, spec_op_syscall(code), 1);
}

/// Whether the text of `ins` assembles to a word that decodes as `ins` does. The text
/// of a coprocessor instruction does not show the function code of the word, so the
/// function code must be zero, which is what the assembler puts there.
pub open spec fn shows_all_fields(ins: word) -> bool {
    Instruction(ins).spec_key() is Coprocessor ==> funct_of(ins) == 0
}

/// Two ASCII texts in a row are an ASCII text.
proof fn lemma_ascii_concat(a: Seq<char>, b: Seq<char>)
    requires
        is_ascii_chars(a),
        is_ascii_chars(b),
    ensures
        is_ascii_chars(a + b),
{
    assert forall|k: int| 0 <= k < (a + b).len() implies '\0' <= #[trigger] (a + b)[k] <= '\u{7f}' by {
        if k < a.len() {
            assert((a + b)[k] == a[k]);
        } else {
            assert((a + b)[k] == b[k - a.len()]);
        }
    }
}

/// A name is an ASCII text.
proof fn lemma_name_is_ascii(name: Seq<char>)
    requires
        is_name(name),
    ensures
        is_ascii_chars(name),
{
    assert forall|k: int| 0 <= k < name.len() implies '\0' <= #[trigger] name[k] <= '\u{7f}' by {
        assert(is_name_char(name[k]));
    }
}

/// A register operand is an ASCII text.
proof fn lemma_register_is_ascii(r: Register)
    ensures
        is_ascii_chars(register_text(r)),
{
    lemma_register_name(r);
    lemma_name_is_ascii(r.spec_name()@);
    lemma_ascii_concat(seq!['$'], r.spec_name()@);
}

/// A hexadecimal literal is an ASCII text.
proof fn lemma_hex_is_ascii(v: word, width: nat)
    ensures
        is_ascii_chars(hex_text(v, width)),
{
    lemma_hex_digits(v as nat, width);
    lemma_ascii_concat(seq!['0', 'x'], hex_digits(v as nat, width));
}

/// Three register operands with separators between them are an ASCII text.
proof fn lemma_registers_are_ascii(a: Register, b: Register, c: Register)
    ensures
        is_ascii_chars(
            register_text(a) + separator() + register_text(b) + separator() + register_text(c),
        ),
        is_ascii_chars(register_text(a) + separator() + register_text(b) + separator()),
{
    lemma_register_is_ascii(a);
    lemma_register_is_ascii(b);
    lemma_register_is_ascii(c);
    lemma_ascii_concat(register_text(a), separator());
    lemma_ascii_concat(register_text(a) + separator(), register_text(b));
    lemma_ascii_concat(register_text(a) + separator() + register_text(b), separator());
    lemma_ascii_concat(
        register_text(a) + separator() + register_text(b) + separator(),
        register_text(c),
    );
}

/// The operands of an instruction are an ASCII text.
proof fn lemma_operands_are_ascii(format: InsFormat, ins: word)
    ensures
        is_ascii_chars(operands_text(format, ins)),
{
    let i = Instruction(ins);
    match format {
        InsFormat::R(shift) => {
            lemma_registers_are_ascii(i.spec_rd(), i.spec_rs(), i.spec_rt());
            if shift {
                let registers = register_text(i.spec_rd()) + separator() + register_text(
                    i.spec_rs(),
                ) + separator() + register_text(i.spec_rt());
                lemma_decimal_digits(i.spec_shamt() as nat);
                lemma_ascii_concat(registers, separator());
                lemma_ascii_concat(registers + separator(), decimal_text(i.spec_shamt()));
            }
        },
        InsFormat::I => {
            lemma_registers_are_ascii(i.spec_rt(), i.spec_rs(), i.spec_rs());
            lemma_hex_is_ascii(i.spec_imm(), 1);
            lemma_ascii_concat(
                register_text(i.spec_rt()) + separator() + register_text(i.spec_rs())
                    + separator(),
                hex_text(i.spec_imm(), 1),
            );
        },
        InsFormat::J => {
            lemma_hex_is_ascii(i.spec_target() << 2, 8);
        },
        InsFormat::Sys => {
            lemma_hex_is_ascii(i.spec_code(), 1);
        },
    }
}

/// The text of an instruction is ASCII: it is stored as one byte for each character.
pub proof fn lemma_disassembly_is_ascii(ins: word)
    requires
        spec_disassembly(ins) is Some,
    ensures
        is_ascii_chars(spec_disassembly(ins)->0),
        encode_utf8(spec_disassembly(ins)->0) == ascii_bytes(spec_disassembly(ins)->0),
{
    let row = row_of(ins)->0;
    let name = spec_instruction(row).1@;
    let format = spec_instruction(row).2;
    lemma_find_key(Instruction(ins).spec_key(), 0);
    lemma_mnemonic(row);
    lemma_name_is_ascii(name);
    lemma_operands_are_ascii(format, ins);
    lemma_ascii_concat(name, seq![' ']);
    lemma_ascii_concat(name + seq![' '], operands_text(format, ins));
    let text = spec_disassembly(ins)->0;
    vstd::utf8::is_ascii_chars_encode_utf8(text);
    assert(encode_utf8(text) =~= ascii_bytes(text));
}

/// The line joined from two tokens.
proof fn lemma_join_2(a: Seq<u8>, b: Seq<u8>)
    ensures
        join(seq![a, b]) == a + seq![0x20u8] + b,
{
    assert(seq![a, b].drop_first() =~= seq![b]);
    assert(join(seq![b]) == b);
}

/// The line joined from three tokens.
proof fn lemma_join_3(a: Seq<u8>, b: Seq<u8>, c: Seq<u8>)
    ensures
        join(seq![a, b, c]) == a + seq![0x20u8] + (b + seq![0x20u8] + c),
{
    assert(seq![a, b, c].drop_first() =~= seq![b, c]);
    lemma_join_2(b, c);
}

/// The line joined from four tokens.
proof fn lemma_join_4(a: Seq<u8>, b: Seq<u8>, c: Seq<u8>, d: Seq<u8>)
    ensures
        join(seq![a, b, c, d]) == a + seq![0x20u8] + (b + seq![0x20u8] + (c + seq![0x20u8] + d)),
{
    assert(seq![a, b, c, d].drop_first() =~= seq![b, c, d]);
    lemma_join_3(b, c, d);
}

/// The line joined from five tokens.
proof fn lemma_join_5(a: Seq<u8>, b: Seq<u8>, c: Seq<u8>, d: Seq<u8>, e: Seq<u8>)
    ensures
        join(seq![a, b, c, d, e]) == a + seq![0x20u8] + (b + seq![0x20u8] + (c + seq![0x20u8] + (d
            + seq![0x20u8] + e))),
{
    assert(seq![a, b, c, d, e].drop_first() =~= seq![b, c, d, e]);
    lemma_join_4(b, c, d, e);
}

/// The bytes of a text in the register format with a shift amount are the line joined
/// from its tokens.
proof fn lemma_text_r_shift(name: Seq<char>, rd: Seq<char>, rs: Seq<char>, rt: Seq<char>, shamt: Seq<
    char,
>)
    ensures
        ascii_bytes(
            name + seq![' '] + (rd + separator() + rs + separator() + rt + separator() + shamt),
        ) == join(
            seq![
                ascii_bytes(name),
                ascii_bytes(rd).push(0x2Cu8),
                ascii_bytes(rs).push(0x2Cu8),
                ascii_bytes(rt).push(0x2Cu8),
                ascii_bytes(shamt),
            ],
        ),
{
    lemma_join_5(
        ascii_bytes(name),
        ascii_bytes(rd).push(0x2Cu8),
        ascii_bytes(rs).push(0x2Cu8),
        ascii_bytes(rt).push(0x2Cu8),
        ascii_bytes(shamt),
    );
    assert(ascii_bytes(
        name + seq![' '] + (rd + separator() + rs + separator() + rt + separator() + shamt),
    ) =~= ascii_bytes(name) + seq![0x20u8] + (ascii_bytes(rd).push(0x2Cu8) + seq![0x20u8] + (
    ascii_bytes(rs).push(0x2Cu8) + seq![0x20u8] + (ascii_bytes(rt).push(0x2Cu8) + seq![0x20u8]
        + ascii_bytes(shamt)))));
}

/// The bytes of a text in the register format without a shift amount are the line
/// joined from its tokens.
proof fn lemma_text_r_plain(name: Seq<char>, rd: Seq<char>, rs: Seq<char>, rt: Seq<char>)
    ensures
        ascii_bytes(name + seq![' '] + (rd + separator() + rs + separator() + rt)) == join(
            seq![
                ascii_bytes(name),
                ascii_bytes(rd).push(0x2Cu8),
                ascii_bytes(rs).push(0x2Cu8),
                ascii_bytes(rt),
            ],
        ),
{
    lemma_join_4(
        ascii_bytes(name),
        ascii_bytes(rd).push(0x2Cu8),
        ascii_bytes(rs).push(0x2Cu8),
        ascii_bytes(rt),
    );
    assert(ascii_bytes(name + seq![' '] + (rd + separator() + rs + separator() + rt))
        =~= ascii_bytes(name) + seq![0x20u8] + (ascii_bytes(rd).push(0x2Cu8) + seq![0x20u8] + (
    ascii_bytes(rs).push(0x2Cu8) + seq![0x20u8] + ascii_bytes(rt))));
}

/// The bytes of a text in the immediate format are the line joined from its tokens.
proof fn lemma_text_i(name: Seq<char>, rt: Seq<char>, rs: Seq<char>, imm: Seq<char>)
    ensures
        ascii_bytes(name + seq![' '] + (rt + separator() + rs + separator() + imm)) == join(
            seq![
                ascii_bytes(name),
                ascii_bytes(rt).push(0x2Cu8),
                ascii_bytes(rs).push(0x2Cu8),
                ascii_bytes(imm),
            ],
        ),
{
    lemma_join_4(
        ascii_bytes(name),
        ascii_bytes(rt).push(0x2Cu8),
        ascii_bytes(rs).push(0x2Cu8),
        ascii_bytes(imm),
    );
    assert(ascii_bytes(name + seq![' '] + (rt + separator() + rs + separator() + imm))
        =~= ascii_bytes(name) + seq![0x20u8] + (ascii_bytes(rt).push(0x2Cu8) + seq![0x20u8] + (
    ascii_bytes(rs).push(0x2Cu8) + seq![0x20u8] + ascii_bytes(imm))));
}

/// The bytes of a text with one operand are the line joined from its two tokens.
proof fn lemma_text_one(name: Seq<char>, operand: Seq<char>)
    ensures
        ascii_bytes(name + seq![' '] + operand) == join(
            seq![ascii_bytes(name), ascii_bytes(operand)],
        ),
{
    lemma_join_2(ascii_bytes(name), ascii_bytes(operand));
    assert(ascii_bytes(name + seq![' '] + operand) =~= ascii_bytes(name) + seq![0x20u8]
        + ascii_bytes(operand));
}

/// The selector bits of a word over the operand bits of its register-format fields
/// are the word itself, but for the shift amount where that is left out.
proof fn lemma_bits_r(ins: word, key: Opcode, shift: bool)
    requires
        key == Instruction(ins).spec_key(),
        is_row_shape(key, InsFormat::R(shift)),
        shows_all_fields(ins),
    ensures
        spec_key_bits(key) | spec_op_r(
            0,
            Instruction(ins).spec_rd(),
            Instruction(ins).spec_rs(),
            Instruction(ins).spec_rt(),
            if shift {
                Instruction(ins).spec_shamt() as u8
            } else {
                0
            },
        ) == (if shift {
            ins
        } else {
            ins & 0xFFFF_F83Fu32
        }),
{
    let i = Instruction(ins);
    let (rd, rs, rt) = (i.spec_rd(), i.spec_rs(), i.spec_rt());
    let shamt = i.spec_shamt();
    lemma_field_ranges(ins);
    lemma_fields_as_masks(ins);
    lemma_register_from_index(rd_of(ins) as int);
    lemma_register_from_index(rs_of(ins) as int);
    lemma_register_from_index(rt_of(ins) as int);
    let (a, b, c) = (rs.spec_index() as u32, rt.spec_index() as u32, rd.spec_index() as u32);
    match key {
        Opcode::Function(f) => {
            lemma_pack_function_r(ins, a, b, c, shamt, f as u32);
        },
        Opcode::Coprocessor(n, op) => {
            lemma_pack_coprocessor_r(ins, opcode_of(ins), a, b, c, shamt);
        },
        Opcode::General(_) => {},
    }
}

/// The selector bits of a word over the operand bits of its immediate-format fields
/// are the word itself.
proof fn lemma_bits_i(ins: word, key: Opcode)
    requires
        key == Instruction(ins).spec_key(),
        is_row_shape(key, InsFormat::I),
    ensures
        spec_key_bits(key) | spec_op_i(
            Instruction(ins).spec_rs(),
            Instruction(ins).spec_rt(),
            spec_half_of(Instruction(ins).spec_imm()),
        ) == ins,
{
    let i = Instruction(ins);
    let (rs, rt) = (i.spec_rs(), i.spec_rt());
    let imm = i.spec_imm();
    lemma_field_ranges(ins);
    lemma_fields_as_masks(ins);
    lemma_register_from_index(rs_of(ins) as int);
    lemma_register_from_index(rt_of(ins) as int);
    assert(spec_low_half(spec_half_of(imm)) == imm);
    lemma_pack_general_i(
        ins,
        opcode_of(ins),
        rs.spec_index() as u32,
        rt.spec_index() as u32,
        imm,
    );
}

/// The text of a word in the register format, as bytes, is the line joined from its
/// tokens.
proof fn lemma_text_tokens_r(ins: word, row: usize, shift: bool)
    ensures
        ascii_bytes(
            spec_instruction(row).1@ + seq![' '] + operands_text(InsFormat::R(shift), ins),
        ) == join(
            tokens_r(
                row,
                Instruction(ins).spec_rd(),
                Instruction(ins).spec_rs(),
                Instruction(ins).spec_rt(),
                shift,
                Instruction(ins).spec_shamt(),
            ),
        ),
{
    let i = Instruction(ins);
    let name = spec_instruction(row).1@;
    let (rd, rs, rt) = (
        register_text(i.spec_rd()),
        register_text(i.spec_rs()),
        register_text(i.spec_rt()),
    );
    if shift {
        lemma_text_r_shift(name, rd, rs, rt, decimal_text(i.spec_shamt()));
    } else {
        lemma_text_r_plain(name, rd, rs, rt);
    }
}

/// The round trip for a word in the register format.
proof fn lemma_round_trip_r(ins: word, row: usize, shift: bool)
    requires
        row < INSTRUCTION_COUNT,
        spec_instruction(row).0 == Instruction(ins).spec_key(),
        spec_instruction(row).2 == InsFormat::R(shift),
        shows_all_fields(ins),
    ensures
        spec_assemble(
            ascii_bytes(
                spec_instruction(row).1@ + seq![' '] + operands_text(InsFormat::R(shift), ins),
            ),
        ) == Ok::<word, AsmError>(
            if shift {
                ins
            } else {
                ins & 0xFFFF_F83Fu32
            },
        ),
{
    let i = Instruction(ins);
    lemma_row_shape(row);
    lemma_field_ranges(ins);
    lemma_text_tokens_r(ins, row, shift);
    lemma_assemble_r(row, i.spec_rd(), i.spec_rs(), i.spec_rt(), shift, i.spec_shamt());
    lemma_bits_r(ins, spec_instruction(row).0, shift);
}

/// The text of a word in the immediate format, as bytes, is the line joined from its
/// tokens.
proof fn lemma_text_tokens_i(ins: word, row: usize)
    ensures
        ascii_bytes(spec_instruction(row).1@ + seq![' '] + operands_text(InsFormat::I, ins))
            == join(
            tokens_i(
                row,
                Instruction(ins).spec_rt(),
                Instruction(ins).spec_rs(),
                Instruction(ins).spec_imm(),
            ),
        ),
{
    let i = Instruction(ins);
    lemma_text_i(
        spec_instruction(row).1@,
        register_text(i.spec_rt()),
        register_text(i.spec_rs()),
        hex_text(i.spec_imm(), 1),
    );
}

/// The round trip for a word in the immediate format.
proof fn lemma_round_trip_i(ins: word, row: usize)
    requires
        row < INSTRUCTION_COUNT,
        spec_instruction(row).0 == Instruction(ins).spec_key(),
        spec_instruction(row).2 == InsFormat::I,
    ensures
        spec_assemble(
            ascii_bytes(spec_instruction(row).1@ + seq![' '] + operands_text(InsFormat::I, ins)),
        ) == Ok::<word, AsmError>(ins),
{
    let i = Instruction(ins);
    lemma_row_shape(row);
    lemma_field_ranges(ins);
    lemma_text_tokens_i(ins, row);
    lemma_assemble_i(row, i.spec_rt(), i.spec_rs(), i.spec_imm());
    lemma_bits_i(ins, spec_instruction(row).0);
}

/// The round trip for a word in the jump format.
proof fn lemma_round_trip_j(ins: word, row: usize)
    requires
        row < INSTRUCTION_COUNT,
        spec_instruction(row).0 == Instruction(ins).spec_key(),
        spec_instruction(row).2 == InsFormat::J,
    ensures
        spec_assemble(
            ascii_bytes(spec_instruction(row).1@ + seq![' '] + operands_text(InsFormat::J, ins)),
        ) == Ok::<word, AsmError>(ins),
{
    let i = Instruction(ins);
    let target = i.spec_target();
    lemma_row_shape(row);
    lemma_field_ranges(ins);
    lemma_fields_as_masks(ins);
    lemma_pack_j(ins, opcode_of(ins), funct_of(ins), target);
    lemma_text_one(spec_instruction(row).1@, hex_text(target << 2, 8));
    lemma_assemble_j(row, target << 2);
}

/// The round trip for a word in the format of `syscall`.
proof fn lemma_round_trip_sys(ins: word, row: usize)
    requires
        row < INSTRUCTION_COUNT,
        spec_instruction(row).0 == Instruction(ins).spec_key(),
        spec_instruction(row).2 == InsFormat::Sys,
    ensures
        spec_assemble(
            ascii_bytes(spec_instruction(row).1@ + seq![' '] + operands_text(InsFormat::Sys, ins)),
        ) == Ok::<word, AsmError>(ins),
{
    let i = Instruction(ins);
    let code = i.spec_code();
    lemma_row_shape(row);
    lemma_field_ranges(ins);
    lemma_fields_as_masks(ins);
    lemma_pack_function_sys(ins, funct_of(ins), code);
    lemma_text_one(spec_instruction(row).1@, hex_text(code, 1));
    lemma_assemble_sys(row, code);
}

/// Assembling the text of a word gives the word back.
///
/// For every word that the disassembler has a text for, the assembler accepts that
/// text, and the word that it assembles to is the word disassembled. One thing is
/// lost on the way: the text of an instruction in the register format without a shift
/// amount does not show the shift amount field, and assembles to a word with zero in
/// it.
pub proof fn lemma_assemble_disassembly(ins: word)
    requires
        spec_disassembly(ins) is Some,
        shows_all_fields(ins),
    ensures
        spec_assemble(ascii_bytes(spec_disassembly(ins)->0)) == Ok::<word, AsmError>(
            canonical(ins),
        ),
        spec_assemble(encode_utf8(spec_disassembly(ins)->0)) == Ok::<word, AsmError>(
            canonical(ins),
        ),
{
    let row = row_of(ins)->0;
    lemma_find_key(Instruction(ins).spec_key(), 0);
    lemma_disassembly_is_ascii(ins);
    match spec_instruction(row).2 {
        InsFormat::R(shift) => lemma_round_trip_r(ins, row, shift),
        InsFormat::I => lemma_round_trip_i(ins, row),
        InsFormat::J => lemma_round_trip_j(ins, row),
        InsFormat::Sys => lemma_round_trip_sys(ins, row),
    }
}

/// The same law for the strings that the library hands out and takes in: where `text`
/// is what `Cpu::get_disassembly` returns for `ins`, `Cpu::from_assembly` returns for
/// `text` the word that `canonical` gives.
pub proof fn lemma_from_assembly_of_disassembly(ins: word, text: &str)
    requires
        spec_disassembly(ins) == Some(text@),
        shows_all_fields(ins),
    ensures
        spec_assemble(text.spec_bytes()) == Ok::<word, AsmError>(canonical(ins)),
{
    lemma_assemble_disassembly(ins);
}

} // verus!
