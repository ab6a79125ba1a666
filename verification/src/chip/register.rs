//! The 32 general-purpose registers and their conventional names.

use vstd::prelude::*;
use vstd::string::StringSliceAdditionalSpecFns;

use crate::chip::text::{decimal_value, is_decimal, parse_number, slice_eq};

verus! {

/// A general-purpose register, named as assembly programmers name it. The variants are
/// in numeric order: `zero` is register 0 and `ra` is register 31.
#[allow(non_camel_case_types)]
#[derive(Clone, Copy, Debug, PartialEq, Eq, Structural)]
pub enum Register {
    /// Always-zero register by convention; this model does not wire it to zero.
    zero,
    /// Assembler temporary.
    at,
    /// Results.
    v0,
    v1,
    /// Arguments.
    a0,
    a1,
    a2,
    a3,
    /// Temporaries.
    t0,
    t1,
    t2,
    t3,
    t4,
    t5,
    t6,
    t7,
    /// Saved temporaries.
    s0,
    s1,
    s2,
    s3,
    s4,
    s5,
    s6,
    s7,
    /// More temporaries.
    t8,
    t9,
    /// Reserved for the kernel.
    k0,
    k1,
    /// Global pointer.
    gp,
    /// Stack pointer.
    sp,
    /// Frame pointer.
    fp,
    /// Return address.
    ra,
}

/// How many general-purpose registers there are.
pub const REGISTER_COUNT: usize = 32;

impl Register {
    /// Width in bits of a register field in an instruction word.
    pub const NUM_BITS: usize = 5;

    /// The register's number, 0 to 31.
    #[verifier::opaque]
    pub open spec fn spec_index(self) -> usize {
        match self {
            Register::zero => 0,
            Register::at => 1,
            Register::v0 => 2,
            Register::v1 => 3,
            Register::a0 => 4,
            Register::a1 => 5,
            Register::a2 => 6,
            Register::a3 => 7,
            Register::t0 => 8,
            Register::t1 => 9,
            Register::t2 => 10,
            Register::t3 => 11,
            Register::t4 => 12,
            Register::t5 => 13,
            Register::t6 => 14,
            Register::t7 => 15,
            Register::s0 => 16,
            Register::s1 => 17,
            Register::s2 => 18,
            Register::s3 => 19,
            Register::s4 => 20,
            Register::s5 => 21,
            Register::s6 => 22,
            Register::s7 => 23,
            Register::t8 => 24,
            Register::t9 => 25,
            Register::k0 => 26,
            Register::k1 => 27,
            Register::gp => 28,
            Register::sp => 29,
            Register::fp => 30,
            Register::ra => 31,
        }
    }

    /// The register's number, 0 to 31.
    #[verifier::when_used_as_spec(spec_index)]
    pub fn index(self) -> (i: usize)
        ensures
            i == self.spec_index(),
            i < REGISTER_COUNT,
    {
        reveal(Register::spec_index);
        match self {
            Register::zero => 0,
            Register::at => 1,
            Register::v0 => 2,
            Register::v1 => 3,
            Register::a0 => 4,
            Register::a1 => 5,
            Register::a2 => 6,
            Register::a3 => 7,
            Register::t0 => 8,
            Register::t1 => 9,
            Register::t2 => 10,
            Register::t3 => 11,
            Register::t4 => 12,
            Register::t5 => 13,
            Register::t6 => 14,
            Register::t7 => 15,
            Register::s0 => 16,
            Register::s1 => 17,
            Register::s2 => 18,
            Register::s3 => 19,
            Register::s4 => 20,
            Register::s5 => 21,
            Register::s6 => 22,
            Register::s7 => 23,
            Register::t8 => 24,
            Register::t9 => 25,
            Register::k0 => 26,
            Register::k1 => 27,
            Register::gp => 28,
            Register::sp => 29,
            Register::fp => 30,
            Register::ra => 31,
        }
    }

    /// The register with the given number; numbers above 31 stand for no register and
    /// are mapped to `ra` only to keep the function total.
    #[verifier::opaque]
    pub open spec fn spec_from_index(i: int) -> Register {
        if i == 0 {
            Register::zero
        } else if i == 1 {
            Register::at
        } else if i == 2 {
            Register::v0
        } else if i == 3 {
            Register::v1
        } else if i == 4 {
            Register::a0
        } else if i == 5 {
            Register::a1
        } else if i == 6 {
            Register::a2
        } else if i == 7 {
            Register::a3
        } else if i == 8 {
            Register::t0
        } else if i == 9 {
            Register::t1
        } else if i == 10 {
            Register::t2
        } else if i == 11 {
            Register::t3
        } else if i == 12 {
            Register::t4
        } else if i == 13 {
            Register::t5
        } else if i == 14 {
            Register::t6
        } else if i == 15 {
            Register::t7
        } else if i == 16 {
            Register::s0
        } else if i == 17 {
            Register::s1
        } else if i == 18 {
            Register::s2
        } else if i == 19 {
            Register::s3
        } else if i == 20 {
            Register::s4
        } else if i == 21 {
            Register::s5
        } else if i == 22 {
            Register::s6
        } else if i == 23 {
            Register::s7
        } else if i == 24 {
            Register::t8
        } else if i == 25 {
            Register::t9
        } else if i == 26 {
            Register::k0
        } else if i == 27 {
            Register::k1
        } else if i == 28 {
            Register::gp
        } else if i == 29 {
            Register::sp
        } else if i == 30 {
            Register::fp
        } else {
            Register::ra
        }
    }

    /// The register with the given number.
    pub fn from_index(i: u8) -> (r: Register)
        requires
            i < REGISTER_COUNT,
        ensures
            r == Self::spec_from_index(i as int),
            r.index() == i,
    {
        reveal(Register::spec_index);
        reveal(Register::spec_from_index);
        match i {
            0 => Register::zero,
            1 => Register::at,
            2 => Register::v0,
            3 => Register::v1,
            4 => Register::a0,
            5 => Register::a1,
            6 => Register::a2,
            7 => Register::a3,
            8 => Register::t0,
            9 => Register::t1,
            10 => Register::t2,
            11 => Register::t3,
            12 => Register::t4,
            13 => Register::t5,
            14 => Register::t6,
            15 => Register::t7,
            16 => Register::s0,
            17 => Register::s1,
            18 => Register::s2,
            19 => Register::s3,
            20 => Register::s4,
            21 => Register::s5,
            22 => Register::s6,
            23 => Register::s7,
            24 => Register::t8,
            25 => Register::t9,
            26 => Register::k0,
            27 => Register::k1,
            28 => Register::gp,
            29 => Register::sp,
            30 => Register::fp,
            _ => Register::ra,
        }
    }

    /// The register's name, without the `$` that assembly source puts in front of it.
    #[verifier::opaque]
    pub open spec fn spec_name(self) -> &'static str {
        match self {
            Register::zero => "zero",
            Register::at => "at",
            Register::v0 => "v0",
            Register::v1 => "v1",
            Register::a0 => "a0",
            Register::a1 => "a1",
            Register::a2 => "a2",
            Register::a3 => "a3",
            Register::t0 => "t0",
            Register::t1 => "t1",
            Register::t2 => "t2",
            Register::t3 => "t3",
            Register::t4 => "t4",
            Register::t5 => "t5",
            Register::t6 => "t6",
            Register::t7 => "t7",
            Register::s0 => "s0",
            Register::s1 => "s1",
            Register::s2 => "s2",
            Register::s3 => "s3",
            Register::s4 => "s4",
            Register::s5 => "s5",
            Register::s6 => "s6",
            Register::s7 => "s7",
            Register::t8 => "t8",
            Register::t9 => "t9",
            Register::k0 => "k0",
            Register::k1 => "k1",
            Register::gp => "gp",
            Register::sp => "sp",
            Register::fp => "fp",
            Register::ra => "ra",
        }
    }

    /// The register's name, without the `$` that assembly source puts in front of it.
    #[verifier::when_used_as_spec(spec_name)]
    pub fn name(self) -> (s: &'static str)
        ensures
            s == self.spec_name(),
    {
        reveal(Register::spec_name);
        match self {
            Register::zero => "zero",
            Register::at => "at",
            Register::v0 => "v0",
            Register::v1 => "v1",
            Register::a0 => "a0",
            Register::a1 => "a1",
            Register::a2 => "a2",
            Register::a3 => "a3",
            Register::t0 => "t0",
            Register::t1 => "t1",
            Register::t2 => "t2",
            Register::t3 => "t3",
            Register::t4 => "t4",
            Register::t5 => "t5",
            Register::t6 => "t6",
            Register::t7 => "t7",
            Register::s0 => "s0",
            Register::s1 => "s1",
            Register::s2 => "s2",
            Register::s3 => "s3",
            Register::s4 => "s4",
            Register::s5 => "s5",
            Register::s6 => "s6",
            Register::s7 => "s7",
            Register::t8 => "t8",
            Register::t9 => "t9",
            Register::k0 => "k0",
            Register::k1 => "k1",
            Register::gp => "gp",
            Register::sp => "sp",
            Register::fp => "fp",
            Register::ra => "ra",
        }
    }

    /// The bytes of the register's name.
    pub open spec fn name_bytes(self) -> Seq<u8> {
        self.spec_name().spec_bytes()
    }

    /// The first register, counting from number `from`, whose name is exactly `s`.
    pub open spec fn spec_named(s: Seq<u8>, from: int) -> Option<Register>
        decreases REGISTER_COUNT - from,
    {
        if from < 0 || from >= REGISTER_COUNT {
            None
        } else if Self::spec_from_index(from).name_bytes() == s {
            Some(Self::spec_from_index(from))
        } else {
            Self::spec_named(s, from + 1)
        }
    }

    /// What a register operand names, the leading `$` already taken off: one of the 32
    /// names, or a register number written in decimal digits (0 to 31, leading zeros
    /// allowed). Anything else names no register.
    pub open spec fn spec_parse(s: Seq<u8>) -> Option<Register> {
        match Self::spec_named(s, 0) {
            Some(r) => Some(r),
            None => if is_decimal(s) && decimal_value(s) < REGISTER_COUNT {
                Some(Self::spec_from_index(decimal_value(s)))
            } else {
                None
            },
        }
    }

    /// Looks a register up by name or by decimal number.
    pub fn parse(s: &[u8]) -> (r: Option<Register>)
        ensures
            r == Self::spec_parse(s@),
    {
        let mut i: u8 = 0;
        while i < 32
            invariant
                i <= 32,
                Self::spec_named(s@, 0) == Self::spec_named(s@, i as int),
            decreases 32 - i,
        {
            let candidate = Register::from_index(i);
            if slice_eq(s, candidate.name().as_bytes()) {
                return Some(candidate);
            }
            i += 1;
        }
        match parse_number(s, 10, 31) {
            Some(n) => Some(Register::from_index(n as u8)),
            None => None,
        }
    }
}

impl<'a> TryFrom<&'a str> for Register {
    type Error = &'static str;

    /// Looks a register up by name or by decimal number; a text that names no
    /// register is an error.
    fn try_from(s: &'a str) -> (r: Result<Self, &'static str>) {
        match Register::parse(s.as_bytes()) {
            Some(r) => Ok(r),
            None => Err("unknown register"),
        }
    }
}

impl<'a> vstd::std_specs::convert::TryFromSpecImpl<&'a str> for Register {
    open spec fn obeys_try_from_spec() -> bool {
        true
    }

    open spec fn try_from_spec(s: &'a str) -> Result<Self, &'static str> {
        match Register::spec_parse(s.spec_bytes()) {
            Some(r) => Ok(r),
            None => Err("unknown register"),
        }
    }
}

/// Numbering the registers and looking a number up again gives the register back.
pub proof fn lemma_register_index(r: Register)
    ensures
        r.spec_index() < 32,
        Register::spec_from_index(r.spec_index() as int) == r,
{
    reveal(Register::spec_index);
    reveal(Register::spec_from_index);
}

/// Looking a register number up and numbering the register gives the number back.
pub proof fn lemma_register_from_index(i: int)
    requires
        0 <= i < 32,
    ensures
        Register::spec_from_index(i).spec_index() == i,
{
    reveal(Register::spec_index);
    reveal(Register::spec_from_index);
}

} // verus!
