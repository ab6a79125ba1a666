//! The assembler is lenient: how much whitespace stands around the words of a line,
//! and whether a comma trails an operand, makes no difference to what the line
//! assembles to.

use vstd::prelude::*;

use crate::chip::assembler::{
    spec_assemble, spec_assemble_tokens, spec_immediate, spec_limited_literal, spec_literal,
    spec_operands, spec_register, strip_comma,
};
use crate::chip::isa::InsFormat;
use crate::chip::text::{
    lemma_token_end, lemma_token_end_of_run, lemma_tokens_shift, spec_is_space, token_end, tokens,
    tokens_from,
};

verus! {

/// Whether `gap` is a run of whitespace; it may be empty.
pub open spec fn is_gap(gap: Seq<u8>) -> bool {
    forall|k: int| 0 <= k < gap.len() ==> spec_is_space(#[trigger] gap[k])
}

/// Whether `word` can stand as a word of a line: it is not empty and holds no
/// whitespace.
pub open spec fn is_word(word: Seq<u8>) -> bool {
    word.len() > 0 && forall|k: int| 0 <= k < word.len() ==> !spec_is_space(#[trigger] word[k])
}

/// The line in which the words stand in order, with a gap before each and one after
/// the last: gap, word, gap, word, and so on to the last gap.
pub open spec fn laid_out(words: Seq<Seq<u8>>, gaps: Seq<Seq<u8>>) -> Seq<u8>
    decreases words.len(),
{
    if gaps.len() == 0 {
        Seq::empty()
    } else if words.len() == 0 {
        gaps[0]
    } else {
        gaps[0] + words[0] + laid_out(words.drop_first(), gaps.drop_first())
    }
}

/// Whether words and gaps make a line: there is one gap more than there are words,
/// and the gaps between two words are not empty.
pub open spec fn makes_line(words: Seq<Seq<u8>>, gaps: Seq<Seq<u8>>) -> bool {
    &&& gaps.len() == words.len() + 1
    &&& forall|k: int| 0 <= k < words.len() ==> is_word(#[trigger] words[k])
    &&& forall|k: int| 0 <= k < gaps.len() ==> is_gap(#[trigger] gaps[k])
    &&& forall|k: int| 0 < k < words.len() ==> (#[trigger] gaps[k]).len() > 0
}

/// Whether two lists of words are the same line but for the commas: the mnemonics are
/// the same, and each operand of the one is the same as that of the other once the
/// comma that may trail it is dropped.
pub open spec fn same_but_for_commas(a: Seq<Seq<u8>>, b: Seq<Seq<u8>>) -> bool {
    &&& a.len() == b.len()
    &&& a.len() > 0 ==> a[0] == b[0]
    &&& forall|k: int| 1 <= k < a.len() ==> strip_comma(#[trigger] a[k]) == strip_comma(b[k])
}

/// From any position in a run of whitespace on, there are no tokens.
proof fn lemma_no_tokens_in_gap(gap: Seq<u8>, i: int)
    requires
        is_gap(gap),
        0 <= i,
    ensures
        tokens_from(gap, i) == Seq::<Seq<u8>>::empty(),
    decreases gap.len() - i,
{
    if i < gap.len() {
        assert(spec_is_space(gap[i]));
        lemma_no_tokens_in_gap(gap, i + 1);
    }
}

/// Whitespace before a position that is reached is skipped.
proof fn lemma_skip_gap(s: Seq<u8>, i: int, end: int)
    requires
        0 <= i <= end <= s.len(),
        forall|k: int| i <= k < end ==> spec_is_space(#[trigger] s[k]),
    ensures
        tokens_from(s, i) == tokens_from(s, end),
    decreases end - i,
{
    if i < end {
        assert(spec_is_space(s[i]));
        lemma_skip_gap(s, i + 1, end);
    }
}

/// Whether `rest` is empty or begins with whitespace.
pub open spec fn begins_with_gap(rest: Seq<u8>) -> bool {
    rest.len() == 0 || spec_is_space(rest[0])
}

/// A gap, a word, and a rest that does not run into the word are cut into the word
/// and the tokens of the rest.
proof fn lemma_tokens_gap_word(gap: Seq<u8>, word: Seq<u8>, rest: Seq<u8>)
    requires
        is_gap(gap),
        is_word(word),
        begins_with_gap(rest),
    ensures
        tokens(gap + word + rest) == seq![word] + tokens(rest),
{
    let head = gap + word;
    let s = head + rest;
    let g = gap.len() as int;
    let e = g + word.len();
    assert forall|k: int| 0 <= k < g implies spec_is_space(#[trigger] s[k]) by {
        assert(s[k] == gap[k]);
    }
    lemma_skip_gap(s, 0, g);
    assert(s[g] == word[0]);
    assert forall|k: int| g + 1 <= k < e implies !spec_is_space(#[trigger] s[k]) by {
        assert(s[k] == word[k - g]);
    }
    if e < s.len() {
        assert(s[e] == rest[0]);
    }
    lemma_token_end_of_run(s, g + 1, e);
    assert(s.subrange(g, e) =~= word);
    lemma_tokens_shift(head, rest, 0);
}

/// What is laid out from words and gaps that make a line begins with whitespace
/// whenever a word stands before it.
proof fn lemma_laid_out_begins_with_gap(words: Seq<Seq<u8>>, gaps: Seq<Seq<u8>>)
    requires
        gaps.len() == words.len() + 1,
        forall|k: int| 0 <= k < gaps.len() ==> is_gap(#[trigger] gaps[k]),
        words.len() > 0 ==> gaps[0].len() > 0,
    ensures
        begins_with_gap(laid_out(words, gaps)),
{
    if words.len() > 0 {
        let line = laid_out(words, gaps);
        assert(line[0] == gaps[0][0]);
        assert(is_gap(gaps[0]));
    } else {
        assert(is_gap(gaps[0]));
    }
}

/// A line that is laid out from words and gaps is cut into those words again, however
/// wide the gaps are.
pub proof fn lemma_tokens_laid_out(words: Seq<Seq<u8>>, gaps: Seq<Seq<u8>>)
    requires
        makes_line(words, gaps),
    ensures
        tokens(laid_out(words, gaps)) == words,
    decreases words.len(),
{
    if words.len() == 0 {
        lemma_no_tokens_in_gap(gaps[0], 0);
        assert(words =~= Seq::<Seq<u8>>::empty());
    } else {
        let later_words = words.drop_first();
        let later_gaps = gaps.drop_first();
        assert forall|k: int| 0 <= k < later_words.len() implies is_word(
            #[trigger] later_words[k],
        ) by {
            assert(later_words[k] == words[k + 1]);
        }
        assert forall|k: int| 0 <= k < later_gaps.len() implies is_gap(#[trigger] later_gaps[k]) by {
            assert(later_gaps[k] == gaps[k + 1]);
        }
        assert forall|k: int| 0 < k < later_words.len() implies (#[trigger] later_gaps[k]).len()
            > 0 by {
            assert(later_gaps[k] == gaps[k + 1]);
        }
        assert(later_words.len() > 0 ==> later_gaps[0].len() > 0) by {
            assert(later_gaps[0] == gaps[1]);
        }
        lemma_tokens_laid_out(later_words, later_gaps);
        lemma_laid_out_begins_with_gap(later_words, later_gaps);
        lemma_tokens_gap_word(gaps[0], words[0], laid_out(later_words, later_gaps));
        assert(words =~= seq![words[0]] + later_words);
    }
}

/// Operands that are the same but for a trailing comma read the same, whatever they
/// are read as.
proof fn lemma_operand_reads_the_same(a: Seq<u8>, b: Seq<u8>)
    requires
        strip_comma(a) == strip_comma(b),
    ensures
        spec_register(a) == spec_register(b),
        spec_literal(a) == spec_literal(b),
        spec_immediate(a) == spec_immediate(b),
        forall|limit: u32| spec_limited_literal(a, limit) == spec_limited_literal(b, limit),
{
}

/// Lines that are the same but for the commas have the same operands.
proof fn lemma_operands_the_same(format: InsFormat, a: Seq<Seq<u8>>, b: Seq<Seq<u8>>)
    requires
        same_but_for_commas(a, b),
    ensures
        spec_operands(format, a) == spec_operands(format, b),
{
    if a.len() > 1 {
        lemma_operand_reads_the_same(a[1], b[1]);
    }
    if a.len() > 2 {
        lemma_operand_reads_the_same(a[2], b[2]);
    }
    if a.len() > 3 {
        lemma_operand_reads_the_same(a[3], b[3]);
    }
    if a.len() > 4 {
        lemma_operand_reads_the_same(a[4], b[4]);
    }
}

/// Lines that are the same but for the commas assemble alike.
pub proof fn lemma_commas_are_optional(a: Seq<Seq<u8>>, b: Seq<Seq<u8>>)
    requires
        same_but_for_commas(a, b),
    ensures
        spec_assemble_tokens(a) == spec_assemble_tokens(b),
{
    lemma_operands_the_same(InsFormat::R(true), a, b);
    lemma_operands_the_same(InsFormat::R(false), a, b);
    lemma_operands_the_same(InsFormat::I, a, b);
    lemma_operands_the_same(InsFormat::J, a, b);
    lemma_operands_the_same(InsFormat::Sys, a, b);
}

/// The assembler is lenient. Take two lines, each laid out from words with gaps of
/// whitespace of any width between and around them. If the lines have the same
/// mnemonic and the same operands but for the one comma that may trail each operand,
/// they assemble to the same word, or fail with the same error.
pub proof fn lemma_assembler_is_lenient(
    words: Seq<Seq<u8>>,
    gaps: Seq<Seq<u8>>,
    other_words: Seq<Seq<u8>>,
    other_gaps: Seq<Seq<u8>>,
)
    requires
        makes_line(words, gaps),
        makes_line(other_words, other_gaps),
        same_but_for_commas(words, other_words),
    ensures
        spec_assemble(laid_out(words, gaps)) == spec_assemble(laid_out(other_words, other_gaps)),
{
    lemma_tokens_laid_out(words, gaps);
    lemma_tokens_laid_out(other_words, other_gaps);
    lemma_commas_are_optional(words, other_words);
}

/// Where the whitespace that begins at `i` ends: the first position at or after `i`
/// that holds no whitespace or lies past the end.
pub open spec fn gap_end(s: Seq<u8>, i: int) -> int
    decreases s.len() - i,
{
    if 0 <= i < s.len() && spec_is_space(s[i]) {
        gap_end(s, i + 1)
    } else {
        i
    }
}

/// `gap_end` stops within the text, where the whitespace ends.
pub proof fn lemma_gap_end(s: Seq<u8>, i: int)
    requires
        0 <= i <= s.len(),
    ensures
        i <= gap_end(s, i) <= s.len(),
        forall|k: int| i <= k < gap_end(s, i) ==> spec_is_space(#[trigger] s[k]),
        gap_end(s, i) < s.len() ==> !spec_is_space(s[gap_end(s, i)]),
        i < s.len() && spec_is_space(s[i]) ==> gap_end(s, i) > i,
    decreases s.len() - i,
{
    if i < s.len() && spec_is_space(s[i]) {
        lemma_gap_end(s, i + 1);
    }
}

/// The gaps of `s` from position `i` on: the runs of whitespace before, between and
/// after its tokens. `i` must not lie inside a token.
pub open spec fn gaps_from(s: Seq<u8>, i: int) -> Seq<Seq<u8>>
    decreases s.len() - i,
{
    if i < 0 || i >= s.len() {
        seq![Seq::<u8>::empty()]
    } else {
        let g = gap_end(s, i);
        if g >= s.len() {
            seq![s.subrange(i, s.len() as int)]
        } else {
            proof {
                lemma_gap_end(s, i);
                lemma_token_end(s, g + 1);
            }
            seq![s.subrange(i, g)] + gaps_from(s, token_end(s, g + 1))
        }
    }
}

/// From a position that is not inside a token on, a line is laid out from its tokens
/// and its gaps.
proof fn lemma_laid_out_from(s: Seq<u8>, i: int)
    requires
        0 <= i <= s.len(),
    ensures
        makes_line(tokens_from(s, i), gaps_from(s, i)),
        laid_out(tokens_from(s, i), gaps_from(s, i)) == s.subrange(i, s.len() as int),
        i < s.len() && spec_is_space(s[i]) ==> gaps_from(s, i)[0].len() > 0,
    decreases s.len() - i,
{
    let n = s.len() as int;
    if i >= n {
        assert(tokens_from(s, i) =~= Seq::<Seq<u8>>::empty());
        assert(s.subrange(i, n) =~= Seq::<u8>::empty());
        assert(is_gap(gaps_from(s, i)[0]));
    } else {
        let g = gap_end(s, i);
        lemma_gap_end(s, i);
        lemma_skip_gap(s, i, g);
        let gap = s.subrange(i, g);
        assert(is_gap(gap)) by {
            assert forall|k: int| 0 <= k < gap.len() implies spec_is_space(#[trigger] gap[k]) by {
                assert(gap[k] == s[i + k]);
            }
        }
        if g >= n {
            assert(tokens_from(s, g) =~= Seq::<Seq<u8>>::empty());
            assert(gaps_from(s, i)[0] == gap);
        } else {
            lemma_token_end(s, g + 1);
            let e = token_end(s, g + 1);
            let word = s.subrange(g, e);
            let words = tokens_from(s, i);
            let gaps = gaps_from(s, i);
            let later_words = tokens_from(s, e);
            let later_gaps = gaps_from(s, e);
            lemma_laid_out_from(s, e);
            assert(words == seq![word] + later_words);
            assert(gaps == seq![gap] + later_gaps);
            assert(is_word(word)) by {
                assert forall|k: int| 0 <= k < word.len() implies !spec_is_space(
                    #[trigger] word[k],
                ) by {
                    assert(word[k] == s[g + k]);
                }
            }
            assert(words.drop_first() =~= later_words);
            assert(gaps.drop_first() =~= later_gaps);
            assert forall|k: int| 0 <= k < words.len() implies is_word(#[trigger] words[k]) by {
                if k > 0 {
                    assert(words[k] == later_words[k - 1]);
                }
            }
            assert forall|k: int| 0 <= k < gaps.len() implies is_gap(#[trigger] gaps[k]) by {
                if k > 0 {
                    assert(gaps[k] == later_gaps[k - 1]);
                }
            }
            assert forall|k: int| 0 < k < words.len() implies (#[trigger] gaps[k]).len() > 0 by {
                assert(gaps[k] == later_gaps[k - 1]);
                if k == 1 {
                    assert(later_words.len() > 0);
                    assert(e < n) by {
                        if e >= n {
                            assert(tokens_from(s, e) =~= Seq::<Seq<u8>>::empty());
                        }
                    }
                }
            }
            assert(laid_out(words, gaps) =~= s.subrange(i, n)) by {
                assert(laid_out(words, gaps) == gap + word + laid_out(later_words, later_gaps));
                assert(gap + word + s.subrange(e, n) =~= s.subrange(i, n));
            }
        }
    }
}

/// The gaps of a line.
pub open spec fn gaps(line: Seq<u8>) -> Seq<Seq<u8>> {
    gaps_from(line, 0)
}

/// Every line is laid out from its tokens and its gaps, so that the law of lenience
/// speaks of every line there is.
pub proof fn lemma_every_line_is_laid_out(line: Seq<u8>)
    ensures
        makes_line(tokens(line), gaps(line)),
        laid_out(tokens(line), gaps(line)) == line,
{
    lemma_laid_out_from(line, 0);
    assert(line.subrange(0, line.len() as int) =~= line);
}

/// The same law for any two lines: if their tokens are the same but for the commas
/// after the operands, the lines assemble to the same word, or fail with the same
/// error. Whitespace does not show in the tokens of a line, so its amount and kind
/// make no difference.
pub proof fn lemma_lines_assemble_alike(line: Seq<u8>, other: Seq<u8>)
    requires
        same_but_for_commas(tokens(line), tokens(other)),
    ensures
        spec_assemble(line) == spec_assemble(other),
{
    lemma_commas_are_optional(tokens(line), tokens(other));
}

} // verus!
