//! The instruction parser.

use crate::chars::whitespace;
use crate::error::{ParseError, ParseErrorKind, ParseErrorView};
use crate::instruction::{From, Instruction, InstructionKind, InstructionView, Run};
use crate::laws::lemma_parsed_instruction;
use crate::runs::skip_while;
use crate::tokens::{
    keyword, lemma_argument_shape, skip_whitespace, spec_argument, spec_keyword, trimmed_line, ws,
};
use vstd::prelude::*;

verus! {

/// The mathematical value of a parse result.
pub open spec fn parsed_view<'a>(
    res: Result<(&'a str, Instruction<'a>), ParseError<'a>>,
) -> Result<(Seq<char>, InstructionView), ParseErrorView> {
    match res {
        Ok((rest, instruction)) => Ok((rest@, instruction@)),
        Err(e) => Err(e@),
    }
}

/// What [`parse_instruction`] makes of `input`.
///
/// A keyword is read, with the blanks behind it. The keyword selects the kind
/// of the instruction, and the argument is read by that kind's rule. A
/// keyword that names no instruction is reported with the text from the
/// keyword on.
pub open spec fn spec_parse_instruction(input: Seq<char>) -> Result<
    (Seq<char>, InstructionView),
    ParseErrorView,
> {
    match spec_keyword(input) {
        Err(e) => Err(e),
        Ok((rest, word)) => match InstructionKind::spec_lookup(word) {
            None => Err(
                ParseErrorView {
                    kind: ParseErrorKind::UnrecognizedInstruction,
                    at: skip_while(input, whitespace()),
                },
            ),
            Some(kind) => Ok((spec_argument(rest).0, kind.instruction(spec_argument(rest).1))),
        },
    }
}

impl<'a> From<'a> {
    /// Reads the argument of a `FROM` instruction: the rest of the line,
    /// without the whitespace around it.
    pub fn parse(input: &'a str) -> (res: Result<(&'a str, Instruction<'a>), ParseError<'a>>)
        ensures
            parsed_view(res) == Ok::<(Seq<char>, InstructionView), ParseErrorView>(
                (spec_argument(input@).0, InstructionView::From { image: spec_argument(input@).1 }),
            ),
            res matches Ok((_, instruction)) && instruction@.wf(),
    {
        proof {
            lemma_argument_shape(input@);
        }
        match ws(trimmed_line, input) {
            Ok((rest, image)) => Ok((rest, Instruction::From(From::new(image)))),
            Err(e) => Err(e),
        }
    }
}

impl<'a> Run<'a> {
    /// Reads the argument of a `RUN` instruction: the rest of the line,
    /// without the whitespace around it.
    pub fn parse(input: &'a str) -> (res: Result<(&'a str, Instruction<'a>), ParseError<'a>>)
        ensures
            parsed_view(res) == Ok::<(Seq<char>, InstructionView), ParseErrorView>(
                (
                    spec_argument(input@).0,
                    InstructionView::Run { command: spec_argument(input@).1 },
                ),
            ),
            res matches Ok((_, instruction)) && instruction@.wf(),
    {
        proof {
            lemma_argument_shape(input@);
        }
        match ws(trimmed_line, input) {
            Ok((rest, command)) => Ok((rest, Instruction::Run(Run::new(command)))),
            Err(e) => Err(e),
        }
    }
}

impl InstructionKind {
    /// Reads the argument of an instruction of this kind, by the rule of the kind.
    pub fn parse<'a>(self, input: &'a str) -> (res: Result<
        (&'a str, Instruction<'a>),
        ParseError<'a>,
    >)
        ensures
            parsed_view(res) == Ok::<(Seq<char>, InstructionView), ParseErrorView>(
                (spec_argument(input@).0, self.instruction(spec_argument(input@).1)),
            ),
            res matches Ok((_, instruction)) && instruction@.wf(),
    {
        match self {
            InstructionKind::From => From::parse(input),
            InstructionKind::Run => Run::parse(input),
        }
    }
}

/// Parses the first instruction of `input`.
///
/// On success the result holds the instruction and the text behind it, from
/// the first character that is no whitespace. Parsing again from that text
/// reads the next instruction.
pub fn parse_instruction<'a>(input: &'a str) -> (res: Result<
    (&'a str, Instruction<'a>),
    ParseError<'a>,
>)
    ensures
        parsed_view(res) == spec_parse_instruction(input@),
        res matches Ok((rest, instruction)) ==> instruction@.wf(),
        res matches Ok((rest, instruction)) ==> rest@.len() < input@.len() && rest@
            == input@.skip(input@.len() - rest@.len()),
{
    proof {
        if spec_parse_instruction(input@) is Ok {
            lemma_parsed_instruction(input@);
        }
    }
    match keyword(input) {
        Err(e) => Err(e),
        Ok((rest, word)) => match InstructionKind::lookup(word) {
            Some(kind) => kind.parse(rest),
            None => Err(
                ParseError::new(ParseErrorKind::UnrecognizedInstruction, skip_whitespace(input)),
            ),
        },
    }
}

} // verus!
