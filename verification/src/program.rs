//! Whole programs: assembling a source text line by line, and bringing a core and a
//! memory back to the state in which a program starts.

use vstd::prelude::*;
use vstd::string::StringSliceAdditionalSpecFns;

use crate::chip::assembler::{assemble_line, spec_assemble, AsmError};
use crate::chip::text::{is_space, spec_is_space};
use crate::chip::{Cpu, CpuState, Register};
use crate::mem::{empty_pages, spec_write_slice, Memory, Pages};
use crate::word;

verus! {

/// Where the line that covers position `i` ends: the first position at or after `i`
/// that holds a line feed or lies past the end.
pub open spec fn line_end(s: Seq<u8>, i: int) -> int
    decreases s.len() - i,
{
    if 0 <= i < s.len() && s[i] != 0x0A {
        line_end(s, i + 1)
    } else {
        i
    }
}

/// `line_end` stops within the text.
pub proof fn lemma_line_end(s: Seq<u8>, i: int)
    requires
        0 <= i <= s.len(),
    ensures
        i <= line_end(s, i) <= s.len(),
        forall|k: int| i <= k < line_end(s, i) ==> #[trigger] s[k] != 0x0A,
        line_end(s, i) < s.len() ==> s[line_end(s, i)] == 0x0A,
    decreases s.len() - i,
{
    if i < s.len() && s[i] != 0x0A {
        lemma_line_end(s, i + 1);
    }
}

/// The first position at or after `i` that does not hold whitespace, or the end.
pub open spec fn skip_spaces(s: Seq<u8>, i: int) -> int
    decreases s.len() - i,
{
    if 0 <= i < s.len() && spec_is_space(s[i]) {
        skip_spaces(s, i + 1)
    } else {
        i
    }
}

/// The first position at or after `i` that holds a `#`, or the end.
pub open spec fn comment_start(s: Seq<u8>, i: int) -> int
    decreases s.len() - i,
{
    if 0 <= i < s.len() && s[i] != 0x23 {
        comment_start(s, i + 1)
    } else {
        i
    }
}

/// The statement that a source line holds, if it holds one. A line holds none when it
/// is blank, or when the first thing on it is a `#`, which begins a comment, or a `.`,
/// which begins a directive. Otherwise the statement is the line from its first
/// non-blank byte up to the first `#`.
pub open spec fn statement(line: Seq<u8>) -> Option<Seq<u8>> {
    let start = skip_spaces(line, 0);
    if start >= line.len() || line[start] == 0x23 || line[start] == 0x2E {
        None
    } else {
        Some(line.subrange(start, comment_start(line, start)))
    }
}

/// What assembling a source line gives: nothing where the line holds no statement, and
/// else the word that the statement assembles to, or its error.
pub open spec fn line_result(line: Seq<u8>) -> Option<Result<word, AsmError>> {
    match statement(line) {
        None => None,
        Some(text) => Some(spec_assemble(text)),
    }
}

/// What assembling the lines of `s` from position `i` on gives, `i` being the start of
/// line number `number`: the words of the statements that assemble, in order, and the
/// errors of those that do not, each with the number of its line.
#[verifier::opaque]
pub open spec fn assemble_from(s: Seq<u8>, i: int, number: int) -> (Seq<word>, Seq<(int, AsmError)>)
    decreases s.len() + 1 - i,
{
    if i < 0 || i >= s.len() {
        (Seq::empty(), Seq::empty())
    } else {
        let end = line_end(s, i);
        let rest = {
            proof {
                lemma_line_end(s, i);
            }
            assemble_from(s, line_end(s, i) + 1, number + 1)
        };
        match line_result(s.subrange(i, end)) {
            None => rest,
            Some(Ok(w)) => (seq![w] + rest.0, rest.1),
            Some(Err(e)) => (rest.0, seq![(number, e)] + rest.1),
        }
    }
}

/// What `assemble_from` gives, written out for one line.
proof fn lemma_assemble_from(s: Seq<u8>, i: int, number: int)
    requires
        0 <= i,
    ensures
        i >= s.len() ==> assemble_from(s, i, number) == (
            Seq::<word>::empty(),
            Seq::<(int, AsmError)>::empty(),
        ),
        i < s.len() ==> ({
            let end = line_end(s, i);
            let rest = assemble_from(s, end + 1, number + 1);
            &&& i <= end <= s.len()
            &&& assemble_from(s, i, number) == (match line_result(s.subrange(i, end)) {
                None => rest,
                Some(Ok(w)) => (seq![w] + rest.0, rest.1),
                Some(Err(e)) => (rest.0, seq![(number, e)] + rest.1),
            })
        }),
{
    reveal_with_fuel(assemble_from, 1);
    if i < s.len() {
        lemma_line_end(s, i);
    }
}

/// What assembling a source text gives. Lines are counted from 1.
pub open spec fn spec_assemble_source(s: Seq<u8>) -> (Seq<word>, Seq<(int, AsmError)>) {
    assemble_from(s, 0, 1)
}

/// A list of errors with the line numbers as mathematical integers.
pub open spec fn numbered(errors: Seq<(usize, AsmError)>) -> Seq<(int, AsmError)> {
    Seq::new(errors.len(), |k: int| (errors[k].0 as int, errors[k].1))
}

/// What has been assembled so far, followed by what assembling the rest gives.
pub open spec fn followed_by(
    code: Seq<word>,
    errors: Seq<(int, AsmError)>,
    rest: (Seq<word>, Seq<(int, AsmError)>),
) -> (Seq<word>, Seq<(int, AsmError)>) {
    (code + rest.0, errors + rest.1)
}

/// A word that is put in front of the rest can as well be put behind what came
/// before.
proof fn lemma_word_moves_over(
    code: Seq<word>,
    errors: Seq<(int, AsmError)>,
    w: word,
    rest: (Seq<word>, Seq<(int, AsmError)>),
)
    ensures
        followed_by(code, errors, (seq![w] + rest.0, rest.1)) == followed_by(
            code.push(w),
            errors,
            rest,
        ),
{
    assert(code + (seq![w] + rest.0) =~= code.push(w) + rest.0);
}

/// An error that is put in front of the rest can as well be put behind what came
/// before.
proof fn lemma_error_moves_over(
    code: Seq<word>,
    errors: Seq<(usize, AsmError)>,
    number: usize,
    e: AsmError,
    rest: (Seq<word>, Seq<(int, AsmError)>),
)
    ensures
        followed_by(code, numbered(errors), (rest.0, seq![(number as int, e)] + rest.1))
            == followed_by(code, numbered(errors.push((number, e))), rest),
{
    assert(numbered(errors.push((number, e))) =~= numbered(errors).push((number as int, e)));
    assert(numbered(errors) + (seq![(number as int, e)] + rest.1) =~= numbered(errors).push(
        (number as int, e),
    ) + rest.1);
}

/// With nothing left to assemble, what has been assembled is the whole.
proof fn lemma_nothing_follows(code: Seq<word>, errors: Seq<(usize, AsmError)>)
    ensures
        followed_by(
            code,
            numbered(errors),
            (Seq::<word>::empty(), Seq::<(int, AsmError)>::empty()),
        ) == (code, numbered(errors)),
        errors.len() == 0 ==> numbered(errors) == Seq::<(int, AsmError)>::empty(),
{
    assert(code + Seq::<word>::empty() =~= code);
    assert(numbered(errors) + Seq::<(int, AsmError)>::empty() =~= numbered(errors));
    if errors.len() == 0 {
        assert(numbered(errors) =~= Seq::<(int, AsmError)>::empty());
    }
}

/// Assembles a source text, given as bytes. The result is the program, one word for
/// each statement, if every statement assembles; otherwise it is the list of the
/// errors, each with the number of its line, counted from 1.
pub fn assemble_source(source: &[u8]) -> (r: Result<Vec<word>, Vec<(usize, AsmError)>>)
    ensures
        match r {
            Ok(code) => spec_assemble_source(source@) == (code@, Seq::<(int, AsmError)>::empty()),
            Err(errors) => errors@.len() > 0 && spec_assemble_source(source@).1 == numbered(
                errors@,
            ),
        },
{
    let mut code: Vec<word> = Vec::new();
    let mut errors: Vec<(usize, AsmError)> = Vec::new();
    let mut i: usize = 0;
    let mut lines_before: usize = 0;
    proof {
        assert(Seq::<word>::empty() + spec_assemble_source(source@).0 =~= spec_assemble_source(
            source@,
        ).0);
        assert(numbered(errors@) + spec_assemble_source(source@).1 =~= spec_assemble_source(
            source@,
        ).1);
    }
    while i < source.len()
        invariant
            i <= source.len(),
            lines_before <= i,
            spec_assemble_source(source@) == followed_by(
                code@,
                numbered(errors@),
                assemble_from(source@, i as int, lines_before + 1),
            ),
        decreases source.len() - i,
    {
        let start = i;
        let end = end_of_line(source, start);
        let ghost rest = assemble_from(source@, end + 1, lines_before + 2);
        proof {
            lemma_assemble_from(source@, start as int, lines_before + 1);
            lemma_assemble_from(source@, end + 1, lines_before + 2);
            lemma_assemble_from(source@, end as int, lines_before + 1);
        }
        match assemble_statement(&source[start..end]) {
            None => {},
            Some(Ok(w)) => {
                proof {
                    lemma_word_moves_over(code@, numbered(errors@), w, rest);
                }
                code.push(w);
            },
            Some(Err(e)) => {
                proof {
                    lemma_error_moves_over(code@, errors@, (lines_before + 1) as usize, e, rest);
                }
                errors.push((lines_before + 1, e));
            },
        }
        if end == source.len() {
            i = end;
        } else {
            i = end + 1;
            lines_before += 1;
        }
    }
    proof {
        lemma_assemble_from(source@, i as int, lines_before + 1);
        lemma_nothing_follows(code@, errors@);
    }
    if errors.len() == 0 {
        Ok(code)
    } else {
        Err(errors)
    }
}

/// Assembles the statement on a line, if the line holds one.
pub fn assemble_statement(line: &[u8]) -> (r: Option<Result<word, AsmError>>)
    ensures
        r == line_result(line@),
{
    match statement_of(line) {
        None => None,
        Some((from, to)) => Some(assemble_line(&line[from..to])),
    }
}

/// Finds where the line that begins at `start` ends.
pub fn end_of_line(source: &[u8], start: usize) -> (end: usize)
    requires
        start <= source@.len(),
    ensures
        start <= end <= source@.len(),
        end == line_end(source@, start as int),
{
    let mut end = start;
    while end < source.len() && source[end] != 0x0A
        invariant
            start <= end <= source.len(),
            line_end(source@, start as int) == line_end(source@, end as int),
        decreases source.len() - end,
    {
        end += 1;
    }
    end
}

/// Finds the statement on a line: where it starts and where it ends, if the line holds
/// one.
pub fn statement_of(line: &[u8]) -> (r: Option<(usize, usize)>)
    ensures
        match r {
            Some((from, to)) => from <= to <= line@.len() && statement(line@) == Some(
                line@.subrange(from as int, to as int),
            ),
            None => statement(line@) is None,
        },
{
    let mut from: usize = 0;
    while from < line.len() && is_space(line[from])
        invariant
            from <= line.len(),
            skip_spaces(line@, 0) == skip_spaces(line@, from as int),
        decreases line.len() - from,
    {
        from += 1;
    }
    if from >= line.len() || line[from] == 0x23 || line[from] == 0x2E {
        return None;
    }
    let mut to: usize = from;
    while to < line.len() && line[to] != 0x23
        invariant
            from <= to <= line.len(),
            comment_start(line@, from as int) == comment_start(line@, to as int),
        decreases line.len() - to,
    {
        to += 1;
    }
    Some((from, to))
}

/// Assembles a source text. The result is the program, one word for each statement,
/// if every statement assembles; otherwise it is the list of the errors, each as the
/// number of its line, counted from 1, and a message.
pub fn assemble(source: &str) -> (r: Result<Vec<word>, Vec<(usize, &'static str)>>)
    ensures
        match r {
            Ok(code) => spec_assemble_source(source.spec_bytes()) == (
                code@,
                Seq::<(int, AsmError)>::empty(),
            ),
            Err(errors) => {
                let expected = spec_assemble_source(source.spec_bytes()).1;
                &&& errors@.len() > 0
                &&& errors@.len() == expected.len()
                &&& forall|k: int|
                    0 <= k < errors@.len() ==> (#[trigger] errors@[k]).0 == expected[k].0
                        && errors@[k].1 == expected[k].1.spec_message()
            },
        },
{
    match assemble_source(source.as_bytes()) {
        Ok(code) => Ok(code),
        Err(errors) => {
            let mut messages: Vec<(usize, &'static str)> = Vec::new();
            let mut k: usize = 0;
            while k < errors.len()
                invariant
                    k <= errors@.len(),
                    messages@.len() == k,
                    forall|j: int|
                        0 <= j < k ==> (#[trigger] messages@[j]).0 == errors@[j].0 && messages@[j].1
                            == errors@[j].1.spec_message(),
                decreases errors@.len() - k,
            {
                let (line, error) = errors[k];
                messages.push((line, error.message()));
                k += 1;
            }
            Err(messages)
        },
    }
}

/// The memory after `data` is written from `addr` on where that can be done, and the
/// memory unchanged where it cannot.
pub open spec fn written(m: Pages, addr: word, data: Seq<u8>) -> Pages {
    match spec_write_slice(m, addr, data) {
        Some(after) => after,
        None => m,
    }
}

/// Where a program's instructions are loaded.
pub const TEXT_BASE: word = 0x00_0000;

/// Where a program's data is loaded.
pub const DATA_BASE: word = 0x00_2000;

/// Where the memory-mapped display begins.
pub const MMIO_BASE: word = 0x01_0000;

/// The global pointer that a program starts with.
pub const INITIAL_GP: word = 0x1800;

/// The stack pointer that a program starts with.
pub const INITIAL_SP: word = 0x3FFC;

/// The core as a program finds it at its start: not halted, global pointer and stack
/// pointer set, the program counter at the first instruction, no jump pending. The
/// other registers keep what they held.
pub open spec fn spec_reset_cpu(cpu: CpuState) -> CpuState {
    let pointers = cpu.set(Register::gp, INITIAL_GP).set(Register::sp, INITIAL_SP);
    CpuState {
        pc: TEXT_BASE,
        after_delay: None,
        cp0: crate::chip::Cp0State { halt: false, ..cpu.cp0 },
        ..pointers
    }
}

/// The memory as a program finds it at its start: empty but for the program's
/// instructions at `TEXT_BASE`, its data at `DATA_BASE`, and the page of the display,
/// which is allocated. An image that does not fit into one page is left out.
pub open spec fn spec_reset_mem(text: Seq<u8>, data: Seq<u8>) -> Pages {
    written(written(written(empty_pages(), TEXT_BASE, text), DATA_BASE, data), MMIO_BASE, seq![0u8])
}

/// Brings a core back to the start of a program.
pub fn reset_cpu(cpu: &mut Cpu)
    ensures
        final(cpu)@ == spec_reset_cpu(old(cpu)@),
{
    cpu.cp0.halt = false;
    cpu.set(Register::gp, INITIAL_GP);
    cpu.set(Register::sp, INITIAL_SP);
    cpu.pc = TEXT_BASE;
    cpu.after_delay = None;
}

/// Clears a memory and loads a program into it.
pub fn reset_mem(mem: &mut Memory, text: &[u8], data: &[u8])
    ensures
        final(mem)@ == spec_reset_mem(text@, data@),
{
    mem.clear();
    let _ = mem.set_slice(TEXT_BASE, text);
    let _ = mem.set_slice(DATA_BASE, data);
    let _ = mem.set_byte(MMIO_BASE, 0);
}

} // verus!
