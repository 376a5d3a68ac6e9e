//! What holds of every parse.
//!
//! The laws are stated over [`spec_parse_instruction`], which
//! [`parse_instruction`](crate::parser::parse_instruction) computes.

use crate::chars::{
    ascii_lower, is_alpha, is_newline, is_space, is_whitespace, lemma_ascii_lower_alpha, letters,
    line_text, lowercase, spaces, whitespace,
};
use crate::error::{ParseErrorKind, ParseErrorView};
use crate::instruction::{is_argument, From, InstructionKind, InstructionView, Run};
use crate::parser::spec_parse_instruction;
use crate::runs::{
    all_in, lemma_run_len, lemma_run_len_concat, lemma_run_len_none, lemma_run_split,
    lemma_skip_subclass, lemma_skip_while, lemma_without_trailing, skip_while, take_while,
};
use crate::tokens::{lemma_argument_shape, spec_argument, spec_keyword, spec_trimmed_line};
use vstd::prelude::*;

verus! {

/// A keyword that names an instruction is made of letters, and of at least one.
pub proof fn lemma_known_keyword(word: Seq<char>, kind: InstructionKind)
    requires
        InstructionKind::spec_lookup(word) == Some(kind),
    ensures
        word.len() > 0,
        all_in(word, letters()),
{
    reveal_strlit("from");
    reveal_strlit("run");
    assert(lowercase(word).len() == word.len());
    assert forall|i: int| 0 <= i < word.len() implies letters().contains(#[trigger] word[i]) by {
        assert(lowercase(word)[i] == ascii_lower(word[i]));
        lemma_ascii_lower_alpha(word[i]);
    }
}

/// The name of a kind is a keyword for that kind.
pub proof fn lemma_name_is_keyword(kind: InstructionKind)
    ensures
        InstructionKind::spec_lookup(kind.spec_name()) == Some(kind),
{
    reveal_strlit("from");
    reveal_strlit("run");
    assert(lowercase(From::NAME@) =~= From::NAME@);
    assert(lowercase(Run::NAME@) =~= Run::NAME@);
    assert(Run::NAME@.len() != From::NAME@.len());
}

/// An argument between whitespace is read back as it stands.
///
/// Whitespace in front of the argument is skipped, line terminators
/// included. Behind the argument the rest of its line must be blank; where
/// more text follows, the argument is not empty and a line terminator ends
/// its line. Without one the text behind would belong to the argument, and an
/// empty argument would let the next line be taken in its place.
pub proof fn lemma_argument(
    pad: Seq<char>,
    arg: Seq<char>,
    trail: Seq<char>,
    rest: Seq<char>,
)
    requires
        all_in(pad, whitespace()),
        is_argument(arg),
        all_in(trail, whitespace()),
        rest.len() > 0 ==> !is_whitespace(rest[0]) && arg.len() > 0 && exists|i: int|
            0 <= i < trail.len() && is_newline(#[trigger] trail[i]),
    ensures
        spec_argument(pad + arg + trail + rest) == (rest, arg),
{
    let text = arg + trail + rest;
    let input = pad + arg + trail + rest;
    assert(input =~= pad + text);
    if arg.len() == 0 {
        assert(input =~= (pad + trail) + Seq::<char>::empty());
        lemma_run_split(pad + trail, Seq::<char>::empty(), whitespace());
        let front = skip_while(input, whitespace());
        assert(front =~= Seq::<char>::empty());
        assert(spec_trimmed_line(front).0 =~= Seq::<char>::empty());
        assert(spec_trimmed_line(front).1 =~= Seq::<char>::empty());
        assert(spec_argument(input).0 =~= rest);
        assert(spec_argument(input).1 =~= arg);
    } else {
        assert(text[0] == arg.first());
        lemma_run_split(pad, text, whitespace());
        lemma_skip_while(trail, line_text());
        let blanks = take_while(trail, line_text());
        let after = skip_while(trail, line_text());
        assert(text =~= (arg + blanks) + (after + rest));
        assert(all_in(arg + blanks, line_text()));
        if after.len() == 0 {
            assert(blanks =~= trail);
            if rest.len() > 0 {
                let i = choose|i: int| 0 <= i < trail.len() && is_newline(#[trigger] trail[i]);
                assert(line_text().contains(blanks[i]));
            }
        } else {
            assert((after + rest)[0] == after[0]);
        }
        lemma_run_split(arg + blanks, after + rest, line_text());
        assert forall|i: int| 0 <= i < blanks.len() implies whitespace().contains(
            #[trigger] blanks[i],
        ) by {
            assert(blanks[i] == trail[i]);
        }
        lemma_without_trailing(arg, blanks, whitespace());
        assert forall|i: int| 0 <= i < after.len() implies whitespace().contains(
            #[trigger] after[i],
        ) by {
            assert(after[i] == trail[i + blanks.len()]);
        }
        lemma_run_split(after, rest, whitespace());
    }
}

/// An instruction line is read back as it stands, however it is decorated
/// with whitespace and whatever the case of its keyword.
///
/// The line is made of whitespace `lead`, a keyword `word` for `kind`, at
/// least one blank `gap`, whitespace `pad`, the argument `arg`, and
/// whitespace `trail`; `rest` is the text behind it. Where `rest` is not
/// empty it starts with no whitespace, the argument is not empty and `trail`
/// holds a line terminator.
pub proof fn lemma_parse_line(
    lead: Seq<char>,
    word: Seq<char>,
    gap: Seq<char>,
    pad: Seq<char>,
    arg: Seq<char>,
    trail: Seq<char>,
    rest: Seq<char>,
    kind: InstructionKind,
)
    requires
        all_in(lead, whitespace()),
        InstructionKind::spec_lookup(word) == Some(kind),
        gap.len() > 0,
        all_in(gap, spaces()),
        all_in(pad, whitespace()),
        is_argument(arg),
        all_in(trail, whitespace()),
        rest.len() > 0 ==> !is_whitespace(rest[0]) && arg.len() > 0 && exists|i: int|
            0 <= i < trail.len() && is_newline(#[trigger] trail[i]),
    ensures
        spec_parse_instruction(lead + word + gap + pad + arg + trail + rest) == Ok::<
            (Seq<char>, InstructionView),
            ParseErrorView,
        >((rest, kind.instruction(arg))),
{
    let input = lead + word + gap + pad + arg + trail + rest;
    let tail = pad + arg + trail + rest;
    let line = word + (gap + tail);
    assert(input =~= lead + line);
    lemma_known_keyword(word, kind);
    assert(line[0] == word[0]);
    assert(letters().contains(word[0]));
    lemma_run_split(lead, line, whitespace());
    assert((gap + tail)[0] == gap[0]);
    assert(spaces().contains(gap[0]));
    lemma_run_split(word, gap + tail, letters());
    lemma_run_len_concat(gap, tail, spaces());
    assert(spec_keyword(input) == Ok::<(Seq<char>, Seq<char>), ParseErrorView>(
        (skip_while(tail, spaces()), word),
    ));
    assert(spaces().subset_of(whitespace()));
    lemma_skip_subclass(tail, spaces(), whitespace());
    assert(spec_argument(skip_while(tail, spaces())) == spec_argument(tail));
    lemma_argument(pad, arg, trail, rest);
}

/// Parsing `"FROM "` followed by an argument gives a `FROM` instruction with
/// exactly that argument, and leaves nothing.
///
/// An argument is any single line without whitespace at its ends, so every
/// image reference is one.
pub proof fn lemma_from_line(image: Seq<char>)
    requires
        is_argument(image),
    ensures
        spec_parse_instruction("FROM "@ + image) == Ok::<
            (Seq<char>, InstructionView),
            ParseErrorView,
        >((Seq::<char>::empty(), InstructionView::From { image })),
{
    reveal_strlit("FROM ");
    reveal_strlit("FROM");
    reveal_strlit("from");
    let empty = Seq::<char>::empty();
    assert(lowercase("FROM"@) =~= "from"@);
    assert("FROM "@ + image =~= empty + "FROM"@ + seq![' '] + empty + image + empty + empty);
    lemma_parse_line(empty, "FROM"@, seq![' '], empty, image, empty, empty, InstructionKind::From);
}

/// The case of the keyword's letters does not matter: every keyword for a
/// kind, followed by a space and an argument, gives the instruction of that
/// kind with that argument, and leaves nothing.
pub proof fn lemma_keyword_case(word: Seq<char>, kind: InstructionKind, arg: Seq<char>)
    requires
        lowercase(word) == kind.spec_name(),
        is_argument(arg),
    ensures
        spec_parse_instruction(word + seq![' '] + arg) == Ok::<
            (Seq<char>, InstructionView),
            ParseErrorView,
        >((Seq::<char>::empty(), kind.instruction(arg))),
{
    reveal_strlit("from");
    reveal_strlit("run");
    assert(Run::NAME@.len() != From::NAME@.len());
    let empty = Seq::<char>::empty();
    assert(word + seq![' '] + arg =~= empty + word + seq![' '] + empty + arg + empty + empty);
    lemma_parse_line(empty, word, seq![' '], empty, arg, empty, empty, kind);
}

/// Whitespace around the parts of an instruction line is insignificant: the
/// decorated line parses as the plain one, made of the keyword, one space
/// and the argument.
pub proof fn lemma_whitespace_insignificant(
    lead: Seq<char>,
    word: Seq<char>,
    gap: Seq<char>,
    pad: Seq<char>,
    arg: Seq<char>,
    trail: Seq<char>,
    kind: InstructionKind,
)
    requires
        all_in(lead, whitespace()),
        InstructionKind::spec_lookup(word) == Some(kind),
        gap.len() > 0,
        all_in(gap, spaces()),
        all_in(pad, whitespace()),
        is_argument(arg),
        all_in(trail, whitespace()),
    ensures
        spec_parse_instruction(lead + word + gap + pad + arg + trail) == spec_parse_instruction(
            word + seq![' '] + arg,
        ),
{
    let empty = Seq::<char>::empty();
    assert(lead + word + gap + pad + arg + trail =~= lead + word + gap + pad + arg + trail
        + empty);
    lemma_parse_line(lead, word, gap, pad, arg, trail, empty, kind);
    assert(word + seq![' '] + arg =~= empty + word + seq![' '] + empty + arg + empty + empty);
    lemma_parse_line(empty, word, seq![' '], empty, arg, empty, empty, kind);
}

/// A word of letters that names no instruction is reported as unrecognized,
/// with the text from the word on, however it starts: a longer word that
/// begins like a keyword is no keyword.
pub proof fn lemma_unrecognized(lead: Seq<char>, word: Seq<char>, tail: Seq<char>)
    requires
        all_in(lead, whitespace()),
        word.len() > 0,
        all_in(word, letters()),
        InstructionKind::spec_lookup(word) is None,
        tail.len() > 0,
        is_space(tail[0]),
    ensures
        spec_parse_instruction(lead + word + tail) == Err::<
            (Seq<char>, InstructionView),
            ParseErrorView,
        >(ParseErrorView { kind: ParseErrorKind::UnrecognizedInstruction, at: word + tail }),
{
    let line = word + tail;
    assert(lead + word + tail =~= lead + line);
    assert(line[0] == word[0]);
    assert(letters().contains(word[0]));
    lemma_run_split(lead, line, whitespace());
    lemma_run_split(word, tail, letters());
    lemma_run_len(tail, spaces());
}

/// A text that does not start, behind its whitespace, with letters followed
/// by a blank is reported as a malformed keyword, with the text from the
/// place where the letter or the blank is missing.
///
/// `word` holds the letters that stand there, if any, and `tail` what
/// follows them: nothing, or a character that is neither a letter nor a
/// blank. A line terminator directly behind the letters is such a character.
pub proof fn lemma_malformed_keyword(lead: Seq<char>, word: Seq<char>, tail: Seq<char>)
    requires
        all_in(lead, whitespace()),
        all_in(word, letters()),
        tail.len() > 0 ==> !is_alpha(tail[0]) && !is_space(tail[0]),
        tail.len() > 0 && word.len() == 0 ==> !is_newline(tail[0]),
    ensures
        spec_parse_instruction(lead + word + tail) == Err::<
            (Seq<char>, InstructionView),
            ParseErrorView,
        >(ParseErrorView { kind: ParseErrorKind::MalformedKeyword, at: tail }),
{
    let line = word + tail;
    assert(lead + word + tail =~= lead + line);
    if word.len() > 0 {
        assert(line[0] == word[0]);
        assert(letters().contains(word[0]));
    } else {
        assert(line =~= tail);
    }
    lemma_run_split(lead, line, whitespace());
    lemma_run_split(word, tail, letters());
    lemma_run_len_none(tail, spaces());
}

/// Whitespace in front of a text, blank lines included, changes nothing in
/// what parsing it gives, be it an instruction or a failure.
pub proof fn lemma_leading_whitespace(lead: Seq<char>, input: Seq<char>)
    requires
        all_in(lead, whitespace()),
    ensures
        spec_parse_instruction(lead + input) == spec_parse_instruction(input),
{
    lemma_run_len_concat(lead, input, whitespace());
}

/// Every instruction that parsing gives is well formed, and parsing consumes
/// text: what is left is a proper suffix of the input, and it is empty or
/// starts with a character that is no whitespace. The argument is a piece of
/// the input, taken from the part that was consumed.
pub proof fn lemma_parsed_instruction(input: Seq<char>)
    requires
        spec_parse_instruction(input) is Ok,
    ensures
        ({
            let (rest, instruction) = spec_parse_instruction(input)->Ok_0;
            &&& instruction.wf()
            &&& rest.len() < input.len()
            &&& rest == input.skip(input.len() - rest.len())
            &&& rest.len() > 0 ==> !is_whitespace(rest[0])
            &&& exists|from: int|
                0 <= from && from + instruction.argument().len() <= input.len() - rest.len()
                    && instruction.argument() == #[trigger] input.subrange(
                    from,
                    from + instruction.argument().len(),
                )
        }),
{
    let start = skip_while(input, whitespace());
    lemma_run_len(input, whitespace());
    let behind = skip_while(start, letters());
    lemma_run_len(start, letters());
    let gap_end = skip_while(behind, spaces());
    lemma_run_len(behind, spaces());
    lemma_argument_shape(gap_end);
    let (rest, arg) = spec_argument(gap_end);
    assert(rest =~= input.skip(input.len() - rest.len()));
    let inner = choose|from: int|
        0 <= from && from + arg.len() <= gap_end.len() - rest.len() && arg
            == #[trigger] gap_end.subrange(from, from + arg.len());
    let from = input.len() - gap_end.len() + inner;
    assert(arg =~= input.subrange(from, from + arg.len()));
}

/// Writing a parsed instruction out as a line and parsing that line gives the
/// same instruction again, with nothing left.
pub proof fn lemma_round_trip(input: Seq<char>)
    requires
        spec_parse_instruction(input) is Ok,
    ensures
        ({
            let instruction = spec_parse_instruction(input)->Ok_0.1;
            spec_parse_instruction(instruction.line()) == Ok::<
                (Seq<char>, InstructionView),
                ParseErrorView,
            >((Seq::<char>::empty(), instruction))
        }),
{
    let instruction = spec_parse_instruction(input)->Ok_0.1;
    lemma_parsed_instruction(input);
    lemma_line_parses(instruction);
}

/// A well-formed instruction, written out as a line, parses to itself.
pub proof fn lemma_line_parses(instruction: InstructionView)
    requires
        instruction.wf(),
    ensures
        spec_parse_instruction(instruction.line()) == Ok::<
            (Seq<char>, InstructionView),
            ParseErrorView,
        >((Seq::<char>::empty(), instruction)),
{
    let kind = instruction.kind();
    let arg = instruction.argument();
    let empty = Seq::<char>::empty();
    lemma_name_is_keyword(kind);
    assert(instruction.line() =~= empty + kind.spec_name() + seq![' '] + empty + arg + empty
        + empty);
    lemma_parse_line(empty, kind.spec_name(), seq![' '], empty, arg, empty, empty, kind);
}

} // verus!
