//! Byte-level reading of assembly text: whitespace-separated tokens and numbers.

use vstd::prelude::*;

verus! {

/// ASCII whitespace: space, tab, line feed, form feed and carriage return.
pub open spec fn spec_is_space(b: u8) -> bool {
    b == 0x20 || b == 0x09 || b == 0x0A || b == 0x0C || b == 0x0D
}

/// Whether `b` is ASCII whitespace.
#[verifier::when_used_as_spec(spec_is_space)]
pub fn is_space(b: u8) -> (r: bool)
    ensures
        r == spec_is_space(b),
{
    b == 0x20 || b == 0x09 || b == 0x0A || b == 0x0C || b == 0x0D
}

/// The value of `b` as a digit in the given radix (2, 8, 10 or 16), if it is one.
/// Hexadecimal digits may be written in either case.
pub open spec fn spec_digit_value(b: u8, radix: u8) -> Option<u8> {
    let v: int = if 0x30 <= b <= 0x39 {
        b - 0x30
    } else if 0x61 <= b <= 0x66 {
        b - 0x61 + 10
    } else if 0x41 <= b <= 0x46 {
        b - 0x41 + 10
    } else {
        255
    };
    if v < radix {
        Some(v as u8)
    } else {
        None
    }
}

/// The value of `b` as a digit in the given radix, if it is one.
#[verifier::when_used_as_spec(spec_digit_value)]
pub fn digit_value(b: u8, radix: u8) -> (r: Option<u8>)
    ensures
        r == spec_digit_value(b, radix),
{
    let v: u8 = if 0x30 <= b && b <= 0x39 {
        b - 0x30
    } else if 0x61 <= b && b <= 0x66 {
        b - 0x61 + 10
    } else if 0x41 <= b && b <= 0x46 {
        b - 0x41 + 10
    } else {
        255
    };
    if v < radix {
        Some(v)
    } else {
        None
    }
}

/// Whether `s` is a non-empty run of digits of the given radix.
pub open spec fn is_number(s: Seq<u8>, radix: u8) -> bool {
    s.len() > 0 && forall|k: int| 0 <= k < s.len() ==> spec_digit_value(#[trigger] s[k], radix) is Some
}

/// The number that a run of digits denotes, most significant digit first.
pub open spec fn number_value(s: Seq<u8>, radix: u8) -> int
    decreases s.len(),
{
    if s.len() == 0 {
        0
    } else {
        number_value(s.drop_last(), radix) * radix + match spec_digit_value(s.last(), radix) {
            Some(d) => d as int,
            None => 0,
        }
    }
}

/// Whether `s` is a non-empty run of decimal digits.
pub open spec fn is_decimal(s: Seq<u8>) -> bool {
    is_number(s, 10)
}

/// The number that a run of decimal digits denotes.
pub open spec fn decimal_value(s: Seq<u8>) -> int {
    number_value(s, 10)
}

/// A run of digits denotes at least as much as any of its prefixes.
pub proof fn lemma_number_value_grows(s: Seq<u8>, radix: u8, k: int)
    requires
        radix >= 1,
        0 <= k <= s.len(),
    ensures
        0 <= number_value(s.subrange(0, k), radix) <= number_value(s, radix),
    decreases s.len() - k,
{
    if k == s.len() {
        assert(s.subrange(0, k) =~= s);
        lemma_number_value_nonnegative(s, radix);
    } else {
        lemma_number_value_grows(s, radix, k + 1);
        let longer = s.subrange(0, k + 1);
        assert(longer.drop_last() =~= s.subrange(0, k));
        lemma_number_value_nonnegative(s.subrange(0, k), radix);
        assert(number_value(longer, radix) >= number_value(s.subrange(0, k), radix) * radix);
        assert(number_value(s.subrange(0, k), radix) * radix >= number_value(s.subrange(0, k), radix))
            by (nonlinear_arith)
            requires
                radix >= 1,
                number_value(s.subrange(0, k), radix) >= 0,
        ;
    }
}

/// A run of digits never denotes a negative number.
pub proof fn lemma_number_value_nonnegative(s: Seq<u8>, radix: u8)
    ensures
        number_value(s, radix) >= 0,
    decreases s.len(),
{
    if s.len() > 0 {
        lemma_number_value_nonnegative(s.drop_last(), radix);
        assert(number_value(s.drop_last(), radix) * radix >= 0) by (nonlinear_arith)
            requires
                number_value(s.drop_last(), radix) >= 0,
                radix >= 0,
        ;
    }
}

/// Whether a slice is a non-empty run of digits of the given radix.
pub fn is_digits(s: &[u8], radix: u8) -> (r: bool)
    ensures
        r == is_number(s@, radix),
{
    if s.len() == 0 {
        return false;
    }
    let mut i: usize = 0;
    while i < s.len()
        invariant
            i <= s.len(),
            forall|k: int| 0 <= k < i ==> spec_digit_value(#[trigger] s@[k], radix) is Some,
        decreases s.len() - i,
    {
        if digit_value(s[i], radix).is_none() {
            return false;
        }
        i += 1;
    }
    true
}

/// Reads a whole slice as a number in the given radix. The result is `None` when the
/// slice is empty, holds anything but digits, or denotes more than `limit`.
pub fn parse_number(s: &[u8], radix: u8, limit: u32) -> (r: Option<u32>)
    requires
        1 <= radix <= 16,
    ensures
        r is Some <==> is_number(s@, radix) && number_value(s@, radix) <= limit,
        r matches Some(v) ==> v == number_value(s@, radix),
{
    if s.len() == 0 {
        return None;
    }
    let mut acc: u64 = 0;
    let mut i: usize = 0;
    while i < s.len()
        invariant
            1 <= radix <= 16,
            i <= s.len(),
            acc == number_value(s@.subrange(0, i as int), radix),
            acc <= limit,
            forall|k: int| 0 <= k < i ==> spec_digit_value(#[trigger] s@[k], radix) is Some,
        decreases s.len() - i,
    {
        match digit_value(s[i], radix) {
            None => {
                return None;
            },
            Some(d) => {
                proof {
                    let longer = s@.subrange(0, i + 1);
                    assert(longer.drop_last() =~= s@.subrange(0, i as int));
                    assert(longer.last() == s@[i as int]);
                    assert(acc * radix <= 0xFFFF_FFFF * 16) by (nonlinear_arith)
                        requires
                            acc <= 0xFFFF_FFFF,
                            radix <= 16,
                    ;
                }
                let next: u64 = acc * (radix as u64) + (d as u64);
                if next > limit as u64 {
                    proof {
                        lemma_number_value_grows(s@, radix, i + 1);
                    }
                    return None;
                }
                acc = next;
                i += 1;
            },
        }
    }
    assert(s@.subrange(0, i as int) =~= s@);
    Some(acc as u32)
}

/// Where the run of non-space bytes that covers position `i` ends: the first position
/// at or after `i` that holds a space or lies past the end.
pub open spec fn token_end(s: Seq<u8>, i: int) -> int
    decreases s.len() - i,
{
    if 0 <= i < s.len() && !spec_is_space(s[i]) {
        token_end(s, i + 1)
    } else {
        i
    }
}

/// `token_end` stops within the text, at the first space it meets.
pub proof fn lemma_token_end(s: Seq<u8>, i: int)
    requires
        0 <= i <= s.len(),
    ensures
        i <= token_end(s, i) <= s.len(),
        forall|k: int| i <= k < token_end(s, i) ==> !spec_is_space(#[trigger] s[k]),
        token_end(s, i) < s.len() ==> spec_is_space(s[token_end(s, i)]),
    decreases s.len() - i,
{
    if i < s.len() && !spec_is_space(s[i]) {
        lemma_token_end(s, i + 1);
    }
}

/// The tokens of `s` from position `i` on: the maximal runs of non-space bytes, in
/// order. `i` must not lie inside a token that began earlier.
pub open spec fn tokens_from(s: Seq<u8>, i: int) -> Seq<Seq<u8>>
    decreases s.len() - i,
{
    if i < 0 || i >= s.len() {
        Seq::empty()
    } else if spec_is_space(s[i]) {
        tokens_from(s, i + 1)
    } else {
        proof {
            lemma_token_end(s, i + 1);
        }
        seq![s.subrange(i, token_end(s, i + 1))] + tokens_from(s, token_end(s, i + 1))
    }
}

/// The tokens of a line: what is left when it is cut at every run of ASCII whitespace.
pub open spec fn tokens(s: Seq<u8>) -> Seq<Seq<u8>> {
    tokens_from(s, 0)
}

/// From a position inside a run of bytes without whitespace, a token ends where the
/// run ends.
pub proof fn lemma_token_end_of_run(s: Seq<u8>, i: int, end: int)
    requires
        0 <= i <= end <= s.len(),
        forall|k: int| i <= k < end ==> !spec_is_space(#[trigger] s[k]),
        end < s.len() ==> spec_is_space(s[end]),
    ensures
        token_end(s, i) == end,
    decreases end - i,
{
    if i < end {
        lemma_token_end_of_run(s, i + 1, end);
    }
}

/// The end of a token does not depend on what stands before the token.
pub proof fn lemma_token_end_shift(p: Seq<u8>, rest: Seq<u8>, i: int)
    requires
        0 <= i <= rest.len(),
    ensures
        token_end(p + rest, p.len() + i) == p.len() + token_end(rest, i),
    decreases rest.len() - i,
{
    let s = p + rest;
    if i < rest.len() {
        assert(s[p.len() + i] == rest[i]);
        if !spec_is_space(rest[i]) {
            lemma_token_end_shift(p, rest, i + 1);
        }
    }
}

/// The tokens after a position do not depend on what stands before it.
pub proof fn lemma_tokens_shift(p: Seq<u8>, rest: Seq<u8>, i: int)
    requires
        0 <= i <= rest.len(),
    ensures
        tokens_from(p + rest, p.len() + i) == tokens_from(rest, i),
    decreases rest.len() - i,
{
    let s = p + rest;
    if i < rest.len() {
        assert(s[p.len() + i] == rest[i]);
        if spec_is_space(rest[i]) {
            lemma_tokens_shift(p, rest, i + 1);
        } else {
            lemma_token_end_shift(p, rest, i + 1);
            lemma_token_end(rest, i + 1);
            let e = token_end(rest, i + 1);
            lemma_tokens_shift(p, rest, e);
            assert(s.subrange(p.len() + i, p.len() + e) =~= rest.subrange(i, e));
        }
    }
}

/// Cuts a line into its tokens. Each token is given by the positions where it starts
/// and where it ends.
pub fn tokenize(s: &[u8]) -> (toks: Vec<(usize, usize)>)
    ensures
        toks@.len() == tokens(s@).len(),
        forall|k: int|
            0 <= k < toks@.len() ==> (#[trigger] toks@[k]).0 <= toks@[k].1 <= s@.len()
                && s@.subrange(toks@[k].0 as int, toks@[k].1 as int) == tokens(s@)[k],
{
    let mut toks: Vec<(usize, usize)> = Vec::new();
    let mut i: usize = 0;
    while i < s.len()
        invariant
            i <= s.len(),
            tokens(s@) =~= Seq::new(
                toks@.len(),
                |k: int| s@.subrange(toks@[k].0 as int, toks@[k].1 as int),
            ) + tokens_from(s@, i as int),
            forall|k: int| 0 <= k < toks@.len() ==> (#[trigger] toks@[k]).0 <= toks@[k].1 <= s@.len(),
        decreases s.len() - i,
    {
        if is_space(s[i]) {
            i += 1;
        } else {
            let start = i;
            i += 1;
            while i < s.len() && !is_space(s[i])
                invariant
                    start < i <= s.len(),
                    token_end(s@, start + 1) == token_end(s@, i as int),
                decreases s.len() - i,
            {
                i += 1;
            }
            proof {
                lemma_token_end(s@, start + 1);
                let before = Seq::new(
                    toks@.len(),
                    |k: int| s@.subrange(toks@[k].0 as int, toks@[k].1 as int),
                );
                let after = Seq::new(
                    toks@.len() + 1,
                    |k: int| s@.subrange(toks@.push((start, i))[k].0 as int, toks@.push((start, i))[k].1 as int),
                );
                assert(after =~= before + seq![s@.subrange(start as int, i as int)]);
            }
            toks.push((start, i));
        }
    }
    toks
}

/// Whether two byte slices hold the same bytes.
pub fn slice_eq(a: &[u8], b: &[u8]) -> (r: bool)
    ensures
        r == (a@ == b@),
{
    if a.len() != b.len() {
        return false;
    }
    let mut i: usize = 0;
    while i < a.len()
        invariant
            i <= a.len(),
            a.len() == b.len(),
            forall|k: int| 0 <= k < i ==> a@[k] == b@[k],
        decreases a.len() - i,
    {
        if a[i] != b[i] {
            return false;
        }
        i += 1;
    }
    assert(a@ =~= b@);
    true
}

} // verus!
