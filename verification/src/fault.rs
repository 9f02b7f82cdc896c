//! The errors that end a story.

use vstd::prelude::*;
use crate::numeral::decimal;
use crate::numeral::decimal_text;
use crate::text::append;
use crate::text::chars_of;
use crate::text::copy_range;

verus! {

/// What went wrong.
#[derive(Clone, Copy, Debug, PartialEq, Eq, Structural)]
pub enum FaultKind {
    /// A line did not split on `delimiter` into the number of fields that
    /// its command takes.
    MalformedToken { delimiter: char },
    /// A variable was read, written or referenced that no assignment line of
    /// the script declares.
    UndeclaredVariable,
    /// A jump named a label that the script does not hold.
    UndefinedLabel,
    /// A condition holds no relational operator, or does not split into
    /// exactly two sides on the one it holds.
    MalformedExpression,
    /// An ordering comparison between sides that are not both numbers.
    TypeError,
    /// A branch of a conditional opens a quote and does not close it.
    UnterminatedQuote,
    /// A typed-input line asks for a mode other than `i` or `s`.
    InvalidInputMode,
}

/// A fatal error: its kind, the line of the script it was met on, counted
/// from one, and the text at fault.
#[derive(Debug)]
pub struct Fault {
    pub kind: FaultKind,
    pub line: usize,
    pub text: Vec<char>,
}

/// The mathematical model of a `Fault`.
pub ghost struct FaultView {
    pub kind: FaultKind,
    pub line: usize,
    pub text: Seq<char>,
}

impl View for Fault {
    type V = FaultView;

    open spec fn view(&self) -> FaultView {
        FaultView { kind: self.kind, line: self.line, text: self.text@ }
    }
}

/// The fault of kind `kind` on line `line` about `text`.
pub fn fault(kind: FaultKind, line: usize, text: &[char]) -> (r: Fault)
    ensures
        r@ == (FaultView { kind, line, text: text@ }),
{
    let copy = copy_range(text, 0, text.len());
    assert(copy@ == text@);
    Fault { kind, line, text: copy }
}

impl FaultKind {
    /// The kind in words.
    pub open spec fn words(self) -> Seq<char> {
        match self {
            FaultKind::MalformedToken { delimiter } => "wrong number of fields between "@.push(
                delimiter,
            ),
            FaultKind::UndeclaredVariable => "undeclared variable"@,
            FaultKind::UndefinedLabel => "undefined label"@,
            FaultKind::MalformedExpression => "malformed expression"@,
            FaultKind::TypeError => "texts cannot be ordered"@,
            FaultKind::UnterminatedQuote => "unterminated quote"@,
            FaultKind::InvalidInputMode => "input mode is neither i nor s"@,
        }
    }

    /// The kind in words.
    pub fn describe(self) -> (r: Vec<char>)
        ensures
            r@ == self.words(),
    {
        match self {
            FaultKind::MalformedToken { delimiter } => {
                let mut out = chars_of("wrong number of fields between ");
                out.push(delimiter);
                out
            },
            FaultKind::UndeclaredVariable => chars_of("undeclared variable"),
            FaultKind::UndefinedLabel => chars_of("undefined label"),
            FaultKind::MalformedExpression => chars_of("malformed expression"),
            FaultKind::TypeError => chars_of("texts cannot be ordered"),
            FaultKind::UnterminatedQuote => chars_of("unterminated quote"),
            FaultKind::InvalidInputMode => chars_of("input mode is neither i nor s"),
        }
    }
}

/// The message of a fault: the number of the line, the kind in words and
/// the text at fault.
pub open spec fn message_spec(f: FaultView) -> Seq<char> {
    "line "@ + decimal(f.line as nat) + ": "@ + f.kind.words() + ": "@ + f.text
}

impl Fault {
    /// The message that reports the fault.
    pub fn message(&self) -> (r: Vec<char>)
        ensures
            r@ == message_spec(self@),
    {
        let mut out = chars_of("line ");
        let number = decimal_text(self.line);
        append(&mut out, number.as_slice());
        let colon = chars_of(": ");
        append(&mut out, colon.as_slice());
        let words = self.kind.describe();
        append(&mut out, words.as_slice());
        append(&mut out, colon.as_slice());
        append(&mut out, self.text.as_slice());
        out
    }
}

} // verus!
