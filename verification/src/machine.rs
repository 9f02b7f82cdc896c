//! The state of a story that is being told, what the host is asked to do,
//! and what it hands back.

use vstd::prelude::*;
use crate::expr::Numbers;
use crate::expr::Operator;
use crate::text::views;

verus! {

/// What a line of the script is, as its first character says.
#[derive(Clone, Copy, Debug, PartialEq, Eq, Structural)]
pub enum LineKind {
    /// An empty line, or one that begins with a line break: nothing to do.
    Empty,
    /// `:name` declares a label.
    Label,
    /// `*` begins a comment.
    Comment,
    /// `|` puts out an empty line.
    Blank,
    /// `#name` jumps to a label.
    Goto,
    /// `!condition:then:else` branches on a comparison.
    Conditional,
    /// `@name=expression` assigns to a variable.
    Assignment,
    /// `?prompt:#label` is one option of a menu.
    Question,
    /// `^i prompt:@name` and `^s prompt:@name` ask for an answer.
    Input,
    /// `~` waits for the reader.
    Pause,
    /// A grave accent clears the display.
    Clear,
    /// Any other line is put out.
    Text,
}

/// What `line` is.
pub open spec fn classify_spec(line: Seq<char>) -> LineKind {
    if line.len() == 0 || line[0] == '\n' || line[0] == '\r' {
        LineKind::Empty
    } else if line[0] == ':' {
        LineKind::Label
    } else if line[0] == '*' {
        LineKind::Comment
    } else if line[0] == '|' {
        LineKind::Blank
    } else if line[0] == '#' {
        LineKind::Goto
    } else if line[0] == '!' {
        LineKind::Conditional
    } else if line[0] == '@' {
        LineKind::Assignment
    } else if line[0] == '?' {
        LineKind::Question
    } else if line[0] == '^' {
        LineKind::Input
    } else if line[0] == '~' {
        LineKind::Pause
    } else if line[0] == '`' {
        LineKind::Clear
    } else {
        LineKind::Text
    }
}

/// What `line` is.
pub fn classify(line: &[char]) -> (r: LineKind)
    ensures
        r == classify_spec(line@),
{
    if line.len() == 0 {
        return LineKind::Empty;
    }
    let first = line[0];
    if first == '\n' || first == '\r' {
        LineKind::Empty
    } else if first == ':' {
        LineKind::Label
    } else if first == '*' {
        LineKind::Comment
    } else if first == '|' {
        LineKind::Blank
    } else if first == '#' {
        LineKind::Goto
    } else if first == '!' {
        LineKind::Conditional
    } else if first == '@' {
        LineKind::Assignment
    } else if first == '?' {
        LineKind::Question
    } else if first == '^' {
        LineKind::Input
    } else if first == '~' {
        LineKind::Pause
    } else if first == '`' {
        LineKind::Clear
    } else {
        LineKind::Text
    }
}

/// What the host is to do for the reader.
#[derive(Debug)]
pub enum Action {
    /// Put out this text as one line.
    Print(Vec<char>),
    /// Clear the display.
    Clear,
}

/// The mathematical model of an `Action`.
pub ghost enum ActionView {
    Print(Seq<char>),
    Clear,
}

impl View for Action {
    type V = ActionView;

    open spec fn view(&self) -> ActionView {
        match self {
            Action::Print(text) => ActionView::Print(text@),
            Action::Clear => ActionView::Clear,
        }
    }
}

/// The models of a list of actions, in order.
pub open spec fn action_views(actions: Seq<Action>) -> Seq<ActionView> {
    Seq::new(actions.len(), |i: int| actions[i]@)
}

/// What the story waits for before it goes on.
#[derive(Debug)]
pub enum Waiting {
    /// Nothing: the next line can be run.
    Nothing,
    /// The arithmetic on the two sides of a condition.
    Numbers {
        left: Vec<char>,
        operator: Operator,
        right: Vec<char>,
        then_branch: Vec<char>,
        else_branch: Option<Vec<char>>,
    },
    /// The arithmetic on the text that is assigned to `name`.
    Value { name: Vec<char>, text: Vec<char> },
    /// The reader's choice among the targets of a menu.
    Choice { targets: Vec<Vec<char>> },
    /// The reader's answer for the variable `name`.
    Input { name: Vec<char>, numeric: bool, prompt: Vec<char> },
    /// A line from the reader, whatever it holds.
    Continue,
}

/// The mathematical model of a `Waiting`.
pub ghost enum WaitingView {
    Nothing,
    Numbers {
        left: Seq<char>,
        operator: Operator,
        right: Seq<char>,
        then_branch: Seq<char>,
        else_branch: Option<Seq<char>>,
    },
    Value { name: Seq<char>, text: Seq<char> },
    Choice { targets: Seq<Seq<char>> },
    Input { name: Seq<char>, numeric: bool, prompt: Seq<char> },
    Continue,
}

impl View for Waiting {
    type V = WaitingView;

    open spec fn view(&self) -> WaitingView {
        match self {
            Waiting::Nothing => WaitingView::Nothing,
            Waiting::Numbers { left, operator, right, then_branch, else_branch } => {
                WaitingView::Numbers {
                    left: left@,
                    operator: *operator,
                    right: right@,
                    then_branch: then_branch@,
                    else_branch: match else_branch {
                        Some(branch) => Some(branch@),
                        None => None,
                    },
                }
            },
            Waiting::Value { name, text } => WaitingView::Value { name: name@, text: text@ },
            Waiting::Choice { targets } => WaitingView::Choice { targets: views(targets@) },
            Waiting::Input { name, numeric, prompt } => WaitingView::Input {
                name: name@,
                numeric: *numeric,
                prompt: prompt@,
            },
            Waiting::Continue => WaitingView::Continue,
        }
    }
}

/// What the host hands to the story.
#[derive(Debug)]
pub enum Event {
    /// Go on with the next line.
    Step,
    /// What the arithmetic found of the two sides of the condition; `None`
    /// where a side is not a number.
    Numbers(Option<Numbers>),
    /// What the arithmetic computed from the text of the assignment,
    /// written out; `None` where the text is not arithmetic.
    Value(Option<Vec<char>>),
    /// A line that the reader entered.
    Line(Vec<char>),
}

/// The mathematical model of an `Event`.
pub ghost enum EventView {
    Step,
    Numbers(Option<Numbers>),
    Value(Option<Seq<char>>),
    Line(Seq<char>),
}

impl View for Event {
    type V = EventView;

    open spec fn view(&self) -> EventView {
        match self {
            Event::Step => EventView::Step,
            Event::Numbers(numbers) => EventView::Numbers(*numbers),
            Event::Value(value) => EventView::Value(
                match value {
                    Some(text) => Some(text@),
                    None => None,
                },
            ),
            Event::Line(text) => EventView::Line(text@),
        }
    }
}

} // verus!
