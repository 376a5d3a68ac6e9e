//! The instructions of a build script.

use crate::chars::{is_whitespace, line_text, lowercase, lowercase_eq};
use crate::runs::all_in;
use vstd::prelude::*;

verus! {

/// An argument as the parser hands it out: one line of text, with no
/// whitespace at either end. It may be empty.
pub open spec fn is_argument(text: Seq<char>) -> bool {
    &&& all_in(text, line_text())
    &&& text.len() > 0 ==> !is_whitespace(text.first()) && !is_whitespace(text.last())
}

/// `FROM`: names the image that a build starts from.
#[derive(Debug, PartialEq)]
pub struct From<'a> {
    pub image: &'a str,
}

/// `RUN`: a command that is run while the image is built.
#[derive(Debug, PartialEq)]
pub struct Run<'a> {
    pub command: &'a str,
}

/// One instruction of a build script. Its text is borrowed from the script.
#[derive(Debug, PartialEq)]
pub enum Instruction<'a> {
    From(From<'a>),
    Run(Run<'a>),
}

/// The instructions of a build script, in the order of the script.
pub struct Dockerfile<'a> {
    pub instructions: Vec<Instruction<'a>>,
}

/// The mathematical value of an [`Instruction`].
pub enum InstructionView {
    From { image: Seq<char> },
    Run { command: Seq<char> },
}

impl InstructionView {
    /// The argument of the instruction.
    pub open spec fn argument(self) -> Seq<char> {
        match self {
            InstructionView::From { image } => image,
            InstructionView::Run { command } => command,
        }
    }

    /// The kind of the instruction.
    pub open spec fn kind(self) -> InstructionKind {
        match self {
            InstructionView::From { .. } => InstructionKind::From,
            InstructionView::Run { .. } => InstructionKind::Run,
        }
    }

    /// The argument is one line of text with no whitespace at either end.
    pub open spec fn wf(self) -> bool {
        is_argument(self.argument())
    }

    /// The instruction written out as a line: its keyword, one space, its argument.
    pub open spec fn line(self) -> Seq<char> {
        self.kind().spec_name() + seq![' '] + self.argument()
    }
}

impl<'a> View for From<'a> {
    type V = InstructionView;

    open spec fn view(&self) -> InstructionView {
        InstructionView::From { image: self.image@ }
    }
}

impl<'a> View for Run<'a> {
    type V = InstructionView;

    open spec fn view(&self) -> InstructionView {
        InstructionView::Run { command: self.command@ }
    }
}

impl<'a> View for Instruction<'a> {
    type V = InstructionView;

    open spec fn view(&self) -> InstructionView {
        match self {
            Instruction::From(from) => from@,
            Instruction::Run(run) => run@,
        }
    }
}

impl<'a> View for Dockerfile<'a> {
    type V = Seq<InstructionView>;

    open spec fn view(&self) -> Seq<InstructionView> {
        self.instructions@.map_values(|instruction: Instruction<'a>| instruction@)
    }
}

impl<'a> From<'a> {
    /// The keyword of the instruction, in lower case.
    pub const NAME: &'static str = "from";

    /// A `FROM` instruction for `image`.
    pub fn new(image: &'a str) -> (from: Self)
        ensures
            from.image == image,
            from@ == (InstructionView::From { image: image@ }),
    {
        Self { image }
    }
}

impl<'a> Run<'a> {
    /// The keyword of the instruction, in lower case.
    pub const NAME: &'static str = "run";

    /// A `RUN` instruction for `command`.
    pub fn new(command: &'a str) -> (run: Self)
        ensures
            run.command == command,
            run@ == (InstructionView::Run { command: command@ }),
    {
        Self { command }
    }
}

impl<'a> Instruction<'a> {
    /// The kind of the instruction.
    pub fn kind(&self) -> (kind: InstructionKind)
        ensures
            kind == self@.kind(),
    {
        match self {
            Instruction::From(_) => InstructionKind::From,
            Instruction::Run(_) => InstructionKind::Run,
        }
    }

    /// The argument of the instruction: the image of a `FROM`, the command of a `RUN`.
    pub fn argument(&self) -> (argument: &'a str)
        ensures
            argument@ == self@.argument(),
    {
        match self {
            Instruction::From(from) => from.image,
            Instruction::Run(run) => run.command,
        }
    }
}

/// The kinds of instruction that the parser knows: its registry.
#[derive(Debug, Clone, Copy, PartialEq, Eq, Structural)]
pub enum InstructionKind {
    From,
    Run,
}

impl InstructionKind {
    /// The keyword of this kind, in lower case.
    pub open spec fn spec_name(self) -> Seq<char> {
        match self {
            InstructionKind::From => From::NAME@,
            InstructionKind::Run => Run::NAME@,
        }
    }

    /// The kind that `keyword` names, whatever the case of its letters.
    pub open spec fn spec_lookup(keyword: Seq<char>) -> Option<InstructionKind> {
        if lowercase(keyword) == From::NAME@ {
            Some(InstructionKind::From)
        } else if lowercase(keyword) == Run::NAME@ {
            Some(InstructionKind::Run)
        } else {
            None
        }
    }

    /// The instruction of this kind with the argument `argument`.
    pub open spec fn instruction(self, argument: Seq<char>) -> InstructionView {
        match self {
            InstructionKind::From => InstructionView::From { image: argument },
            InstructionKind::Run => InstructionView::Run { command: argument },
        }
    }

    /// The keyword of this kind, in lower case.
    pub fn name(self) -> (name: &'static str)
        ensures
            name@ == self.spec_name(),
    {
        match self {
            InstructionKind::From => From::NAME,
            InstructionKind::Run => Run::NAME,
        }
    }

    /// Looks `keyword` up among the known instructions, ignoring the case of
    /// its letters.
    pub fn lookup(keyword: &str) -> (kind: Option<InstructionKind>)
        ensures
            kind == Self::spec_lookup(keyword@),
    {
        if lowercase_eq(keyword, From::NAME) {
            Some(InstructionKind::From)
        } else if lowercase_eq(keyword, Run::NAME) {
            Some(InstructionKind::Run)
        } else {
            None
        }
    }
}

} // verus!
