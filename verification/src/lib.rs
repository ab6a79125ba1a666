//! A toy emulator for a subset of the MIPS I instruction set: a paged memory,
//! a table-driven instruction codec (decoder, disassembler, one-line assembler)
//! and a CPU core with a coprocessor 0 and a branch delay slot.

use vstd::prelude::*;

pub mod bresenham;
pub mod chip;
pub mod mem;
pub mod monitor;
pub mod program;
pub mod syscall;

verus! {

/// A machine word: addresses, register values and instructions are all 32 bits wide.
#[allow(non_camel_case_types)]
pub type word = u32;

/// Number of bytes in a word.
pub const WORD_BYTES: word = 4;

/// The `length`-bit field of `w` whose lowest bit is bit `start_bit` (bit 0 being the
/// least significant), moved down to bit 0.
pub open spec fn spec_bits_span(w: word, start_bit: usize, length: usize) -> word {
    (w >> start_bit) & (((1u32 << length) - 1) as u32)
}

/// Extracts a span of bits from a word.
pub fn bits_span(w: word, start_bit: usize, length: usize) -> (r: word)
    requires
        start_bit < 32,
        length < 32,
    ensures
        r == spec_bits_span(w, start_bit, length),
{
    assert(1u32 << length >= 1) by (bit_vector)
        requires
            length < 32,
    ;
    let mask: u32 = (1u32 << length) - 1;
    (w >> start_bit) & mask
}

/// The word whose bits `0..=bit` are all set (every bit, when `bit` is 31 or more).
pub open spec fn spec_low_mask(bit: usize) -> word {
    if bit >= 31 {
        0xFFFF_FFFFu32
    } else {
        ((1u32 << ((bit + 1) as usize)) - 1) as u32
    }
}

/// `w` with bit `bit` copied into every bit above it; the bits below are kept.
pub open spec fn spec_smear_bit(w: word, bit: usize) -> word {
    if (w >> bit) & 1 == 1 {
        w | !spec_low_mask(bit)
    } else {
        w & spec_low_mask(bit)
    }
}

/// "Smears" the given bit over all higher bits, which sign-extends a field that is
/// `bit + 1` bits wide.
pub fn smear_bit(w: word, bit: usize) -> (r: word)
    requires
        bit < 32,
    ensures
        r == spec_smear_bit(w, bit),
{
    let shift: usize = 32 - (bit + 1);
    let r = #[verifier::truncate]
    ((#[verifier::truncate]
    ((w << shift) as i32) >> shift) as u32);
    assert(r == spec_smear_bit(w, bit)) by (bit_vector)
        requires
            bit < 32,
            shift == 32 - (bit + 1),
            r == (((w << shift) as i32 >> shift) as u32),
    ;
    r
}

/// The value of a word read as a two's-complement signed number.
pub open spec fn signed(w: word) -> int {
    if w < 0x8000_0000 {
        w as int
    } else {
        w as int - 0x1_0000_0000
    }
}

/// The word that holds `i` in two's complement, that is `i` modulo 2^32.
pub open spec fn wrap(i: int) -> word {
    (i % 0x1_0000_0000) as u32
}

/// Adding with wraparound is adding modulo 2^32, whether the words are read as signed
/// or as unsigned numbers.
pub proof fn lemma_wrapping_add(a: word, b: word)
    ensures
        a.wrapping_add(b) == wrap(a + b),
        a.wrapping_add(b) == wrap(a + signed(b)),
        a.wrapping_add(b) == wrap(signed(a) + signed(b)),
{
}

/// Sign extension of a 16-bit field is the 16-bit two's-complement value, wrapped to a
/// word.
pub proof fn lemma_smear_low_half(imm: word)
    requires
        imm < 0x1_0000,
    ensures
        spec_smear_bit(imm, 15) == (if imm < 0x8000 {
            imm
        } else {
            (imm + 0xFFFF_0000) as u32
        }),
{
    assert(spec_smear_bit(imm, 15) == (if imm < 0x8000 {
        imm
    } else {
        (imm + 0xFFFF_0000) as u32
    })) by (bit_vector)
        requires
            imm < 0x1_0000,
    ;
}

} // verus!
