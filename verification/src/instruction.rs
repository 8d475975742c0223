//! The typed formatting instructions that one source file is turned into.

use vstd::prelude::*;

verus! {

/// What an instruction asks the compositor to set.
#[derive(Clone, Copy, Debug, PartialEq, Eq, Structural)]
pub enum FormatType {
    /// A heading, set large at the top of the page.
    Title,
    /// A blank line. It takes a line slot like any body line.
    Newline,
    /// A line of body text.
    Text,
}

/// One classified source line.
#[derive(Debug, PartialEq, Eq)]
pub struct Instruction {
    /// The text to set. For a title this is the heading without its marker;
    /// for the other kinds it is the source line as it was read.
    pub data: String,
    /// The kind of the instruction.
    pub kind: FormatType,
}

/// The mathematical value of an [`Instruction`].
pub struct InstructionView {
    pub data: Seq<char>,
    pub kind: FormatType,
}

impl View for Instruction {
    type V = InstructionView;

    open spec fn view(&self) -> InstructionView {
        InstructionView { data: self.data@, kind: self.kind }
    }
}

impl DeepView for Instruction {
    type V = InstructionView;

    open spec fn deep_view(&self) -> InstructionView {
        self@
    }
}

impl Clone for Instruction {
    fn clone(&self) -> (r: Instruction)
        ensures
            r@ == self@,
    {
        Instruction { data: self.data.clone(), kind: self.kind }
    }
}

impl Instruction {
    /// Builds an instruction of the given kind.
    pub fn new(data: String, kind: FormatType) -> (r: Instruction)
        ensures
            r@ == (InstructionView { data: data@, kind }),
    {
        Instruction { data, kind }
    }

    /// Tells whether this is a title.
    pub fn is_title(&self) -> (r: bool)
        ensures
            r == (self@.kind == FormatType::Title),
    {
        self.kind == FormatType::Title
    }
}

/// A group: the instructions of one source file, in line order.
pub type DocumentGroup = Vec<Instruction>;

} // verus!
