//! Helpers for showing and editing memory: turning what a user typed into bytes, and
//! making control characters visible.

use vstd::prelude::*;
use vstd::string::{StrSliceExecFns, StringSliceAdditionalSpecFns};

use crate::chip::assembler::{assemble_line, spec_assemble};
use crate::mem::word_to_le;

verus! {

/// How a stretch of memory is read and written by a person.
#[derive(Clone, Copy, Debug, PartialEq, Eq, Structural)]
pub enum MemoryInterpretation {
    /// As instructions, one word each.
    Instruction,
    /// As text.
    Text,
}

impl MemoryInterpretation {
    /// The bytes that `typed` stands for: the little-endian word of the instruction
    /// that it assembles to, or the text itself.
    pub open spec fn spec_str_to_bytes(self, typed: Seq<u8>) -> Result<Seq<u8>, &'static str> {
        match self {
            MemoryInterpretation::Instruction => match spec_assemble(typed) {
                Ok(w) => Ok(word_to_le(w)),
                Err(e) => Err(e.spec_message()),
            },
            MemoryInterpretation::Text => Ok(typed),
        }
    }

    /// Turns what was typed into the bytes to store.
    pub fn str_to_bytes(&self, typed: &str) -> (r: Result<Vec<u8>, &'static str>)
        ensures
            match self.spec_str_to_bytes(typed.spec_bytes()) {
                Ok(bytes) => r matches Ok(v) && v@ == bytes,
                Err(message) => r matches Err(m) && m == message,
            },
    {
        match self {
            MemoryInterpretation::Instruction => match assemble_line(typed.as_bytes()) {
                Ok(w) => {
                    let mut bytes: Vec<u8> = Vec::new();
                    bytes.push((w % 0x100) as u8);
                    bytes.push(((w / 0x100) % 0x100) as u8);
                    bytes.push(((w / 0x1_0000) % 0x100) as u8);
                    bytes.push((w / 0x100_0000) as u8);
                    assert(bytes@ =~= word_to_le(w));
                    Ok(bytes)
                },
                Err(e) => Err(e.message()),
            },
            MemoryInterpretation::Text => Ok(typed.as_bytes_vec()),
        }
    }
}

/// The character that shows `c`: a control character is shown by its picture in the
/// block of control pictures, which begins at U+2400, the character DEL by U+2421, and
/// every other character by itself.
pub open spec fn spec_replace_control_char(c: char) -> char {
    if c as u32 <= 0x1F {
        (c as u32 + 0x2400) as char
    } else if c as u32 == 0x7F {
        '\u{2421}'
    } else {
        c
    }
}

/// Replaces a control character by its picture.
pub fn replace_control_char(c: char) -> (r: char)
    ensures
        r == spec_replace_control_char(c),
{
    match c {
        '\u{0}' => '\u{2400}',
        '\u{1}' => '\u{2401}',
        '\u{2}' => '\u{2402}',
        '\u{3}' => '\u{2403}',
        '\u{4}' => '\u{2404}',
        '\u{5}' => '\u{2405}',
        '\u{6}' => '\u{2406}',
        '\u{7}' => '\u{2407}',
        '\u{8}' => '\u{2408}',
        '\u{9}' => '\u{2409}',
        '\u{A}' => '\u{240A}',
        '\u{B}' => '\u{240B}',
        '\u{C}' => '\u{240C}',
        '\u{D}' => '\u{240D}',
        '\u{E}' => '\u{240E}',
        '\u{F}' => '\u{240F}',
        '\u{10}' => '\u{2410}',
        '\u{11}' => '\u{2411}',
        '\u{12}' => '\u{2412}',
        '\u{13}' => '\u{2413}',
        '\u{14}' => '\u{2414}',
        '\u{15}' => '\u{2415}',
        '\u{16}' => '\u{2416}',
        '\u{17}' => '\u{2417}',
        '\u{18}' => '\u{2418}',
        '\u{19}' => '\u{2419}',
        '\u{1A}' => '\u{241A}',
        '\u{1B}' => '\u{241B}',
        '\u{1C}' => '\u{241C}',
        '\u{1D}' => '\u{241D}',
        '\u{1E}' => '\u{241E}',
        '\u{1F}' => '\u{241F}',
        '\u{7F}' => '\u{2421}',
        _ => c,
    }
}

} // verus!
