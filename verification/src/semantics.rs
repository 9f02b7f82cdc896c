//! What a story does: the state of the machine, and the step that takes a
//! state and an event to the next state and the actions for the host.
//!
//! Everything here is ghost code. The executable machine is held to it.

use vstd::prelude::*;
use crate::expr::expression_of;
use crate::expr::evaluate_spec;
use crate::expr::located_operator;
use crate::expr::verdict;
use crate::expr::Numbers;
use crate::expr::Operator;
use crate::fault::FaultKind;
use crate::fault::FaultView;
use crate::interpolate::interpolation;
use crate::machine::classify_spec;
use crate::machine::ActionView;
use crate::machine::EventView;
use crate::machine::LineKind;
use crate::machine::WaitingView;
use crate::numeral::answer_spec;
use crate::numeral::decimal;
use crate::numeral::Answer;
use crate::script::declared_in;
use crate::script::labels_of;
use crate::store::undeclared;
use crate::text::after_first_spec;
use crate::text::has_alphabetic_spec;
use crate::text::strip_end_spec;
use crate::text::trim_spec;
use crate::text::without_spec;
use crate::tokens::iftokenize_spec;
use crate::tokens::malformed_token;
use crate::tokens::tokenize_spec;

verus! {

/// The state of a story: the script, what it declares, the program counter
/// and what the story waits for.
pub ghost struct State {
    pub lines: Seq<Seq<char>>,
    pub labels: Map<Seq<char>, usize>,
    pub variables: Map<Seq<char>, Seq<char>>,
    pub index: usize,
    pub waiting: WaitingView,
}

/// What a step leads to: the next state, and the actions for the host in
/// the order in which it is to perform them.
pub ghost struct Outcome {
    pub state: State,
    pub actions: Seq<ActionView>,
}

/// What the reader is told before a pause.
pub open spec fn continue_prompt() -> Seq<char> {
    "\nPress Enter to Continue."@
}

/// What the reader is told after an answer to a menu that is no number.
pub open spec fn number_wanted() -> Seq<char> {
    "You must use a number"@
}

/// What the reader is told after an answer that had to be numeric and is
/// not.
pub open spec fn only_numbers() -> Seq<char> {
    "You may only enter in a Number. Please try again."@
}

/// How a menu of `count` options asks for the choice.
pub open spec fn choice_prompt(count: nat) -> Seq<char> {
    "Enter a number from 1 to "@ + decimal(count)
}

/// How the option of number `number` is put out.
pub open spec fn numbered(number: nat, prompt: Seq<char>) -> Seq<char> {
    decimal(number) + ". "@ + prompt
}

/// The label that a jump written as `text` names: `text` without the
/// markers of jumps and of labels.
pub open spec fn goto_target(text: Seq<char>) -> Seq<char> {
    without_spec(without_spec(text, '#'), ':')
}

/// Whether `line` is an option of a menu.
pub open spec fn is_question(line: Seq<char>) -> bool {
    line.len() > 0 && line[0] == '?'
}

/// Where the run of menu options that begins at `from` ends.
pub open spec fn menu_end(lines: Seq<Seq<char>>, from: int) -> int
    decreases lines.len() - from,
{
    if from < 0 || from >= lines.len() || !is_question(lines[from]) {
        from
    } else {
        menu_end(lines, from + 1)
    }
}

/// A menu: what is put out for each option, and where each option leads.
pub ghost struct Menu {
    pub prompts: Seq<Seq<char>>,
    pub targets: Seq<Seq<char>>,
}

/// The menu made of the lines from `from` up to, not including, `upto`.
/// Each line must split on `:` into a prompt and a target, and the first
/// that does not is the fault.
pub open spec fn menu_of(lines: Seq<Seq<char>>, from: int, upto: int) -> Result<Menu, FaultView>
    decreases upto - from,
{
    if upto <= from || upto > lines.len() || from < 0 {
        Ok(Menu { prompts: Seq::empty(), targets: Seq::empty() })
    } else {
        match menu_of(lines, from, upto - 1) {
            Err(f) => Err(f),
            Ok(before) => match tokenize_spec(lines[upto - 1], ':') {
                None => Err(malformed_token(lines[upto - 1], ':', upto as usize)),
                Some(fields) => Ok(
                    Menu {
                        prompts: before.prompts.push(
                            numbered((upto - from) as nat, after_first_spec(fields.0)),
                        ),
                        targets: before.targets.push(without_spec(fields.1, '#')),
                    },
                ),
            },
        }
    }
}

/// The run of menu options that begins at `from` ends at or behind `from`
/// and within the script.
pub proof fn lemma_menu_end_bounds(lines: Seq<Seq<char>>, from: int)
    requires
        0 <= from <= lines.len(),
    ensures
        from <= menu_end(lines, from) <= lines.len(),
    decreases lines.len() - from,
{
    if from < lines.len() && is_question(lines[from]) {
        lemma_menu_end_bounds(lines, from + 1);
    }
}

/// A menu that is at fault up to one line is at fault, in the same way, up
/// to every later line.
pub proof fn lemma_menu_fault_stays(lines: Seq<Seq<char>>, from: int, mid: int, upto: int)
    requires
        0 <= from <= mid <= upto <= lines.len(),
        menu_of(lines, from, mid) is Err,
    ensures
        menu_of(lines, from, upto) == menu_of(lines, from, mid),
    decreases upto - mid,
{
    if mid < upto {
        lemma_menu_fault_stays(lines, from, mid, upto - 1);
    }
}

/// The actions that put out each of `texts` as a line.
pub open spec fn prints(texts: Seq<Seq<char>>) -> Seq<ActionView> {
    Seq::new(texts.len(), |i: int| ActionView::Print(texts[i]))
}

impl State {
    /// The state in which a script begins.
    pub open spec fn initial(lines: Seq<Seq<char>>) -> State {
        State {
            lines,
            labels: labels_of(lines),
            variables: declared_in(lines),
            index: 0,
            waiting: WaitingView::Nothing,
        }
    }

    /// The invariant of the machine: the program counter is the index of a
    /// line or the length of the script, every label leads to a line, and a
    /// story that waits for something waits on a line or, for the choice of
    /// a menu, behind one.
    pub open spec fn well_formed(self) -> bool {
        &&& self.lines.len() <= usize::MAX
        &&& self.index <= self.lines.len()
        &&& forall|name: Seq<char>| #[trigger]
            self.labels.contains_key(name) ==> self.labels[name] < self.lines.len()
        &&& match self.waiting {
            WaitingView::Nothing => true,
            WaitingView::Choice { targets } => self.index > 0,
            _ => self.index < self.lines.len(),
        }
    }

    /// Whether the story is over: nothing is waited for and no line is left.
    pub open spec fn finished(self) -> bool {
        self.waiting is Nothing && self.index >= self.lines.len()
    }

    /// The number of the line that the program counter is on, counted from
    /// one.
    pub open spec fn number(self) -> usize {
        if self.index < usize::MAX {
            (self.index + 1) as usize
        } else {
            self.index
        }
    }

    /// The state after the line is done: the program counter is on the next
    /// line and nothing is waited for.
    pub open spec fn advanced(self) -> State {
        State {
            index: if self.index < self.lines.len() && self.index < usize::MAX {
                (self.index + 1) as usize
            } else {
                self.index
            },
            waiting: WaitingView::Nothing,
            ..self
        }
    }

    /// The same state, waiting for `waiting`.
    pub open spec fn awaiting(self, waiting: WaitingView) -> State {
        State { waiting, ..self }
    }

    /// Nothing happens.
    pub open spec fn quiet(self) -> Result<Outcome, FaultView> {
        Ok(Outcome { state: self, actions: Seq::empty() })
    }

    /// The line is done without a word.
    pub open spec fn passed(self) -> Result<Outcome, FaultView> {
        Ok(Outcome { state: self.advanced(), actions: Seq::empty() })
    }

    /// `text` is put out and the line is done.
    pub open spec fn printed(self, text: Seq<char>) -> Result<Outcome, FaultView> {
        Ok(Outcome { state: self.advanced(), actions: seq![ActionView::Print(text)] })
    }

    /// A jump to the label `target`, reported on line `line` where the
    /// script does not hold that label.
    pub open spec fn jump(self, target: Seq<char>, line: usize) -> Result<Outcome, FaultView> {
        if self.labels.contains_key(target) {
            Ok(
                Outcome {
                    state: State {
                        index: self.labels[target],
                        waiting: WaitingView::Nothing,
                        ..self
                    },
                    actions: Seq::empty(),
                },
            )
        } else {
            Err(FaultView { kind: FaultKind::UndefinedLabel, line, text: target })
        }
    }

    /// `text` is interpolated and put out, and the line is done.
    pub open spec fn print_line(self, text: Seq<char>) -> Result<Outcome, FaultView> {
        match interpolation(text, self.variables, self.number()) {
            Ok(done) => self.printed(done),
            Err(f) => Err(f),
        }
    }

    /// The beginning of an assignment to `name`: the expression is
    /// interpolated, the variable must be declared, and the story waits for
    /// the arithmetic on what is assigned.
    pub open spec fn begin_assignment(self, name: Seq<char>, expression: Seq<char>) -> Result<
        Outcome,
        FaultView,
    > {
        match interpolation(expression, self.variables, self.number()) {
            Err(f) => Err(f),
            Ok(text) => if self.variables.contains_key(name) {
                Ok(
                    Outcome {
                        state: self.awaiting(WaitingView::Value { name, text }),
                        actions: Seq::empty(),
                    },
                )
            } else {
                Err(undeclared(name, self.number()))
            },
        }
    }

    /// The end of an assignment: `name` holds `value` and the line is done.
    pub open spec fn store(self, name: Seq<char>, value: Seq<char>) -> Result<Outcome, FaultView> {
        if self.variables.contains_key(name) {
            Ok(
                Outcome {
                    state: State { variables: self.variables.insert(name, value), ..self }.advanced(),
                    actions: Seq::empty(),
                },
            )
        } else {
            Err(undeclared(name, self.number()))
        }
    }

    /// An assignment line. A line that does not split on `=` into a name
    /// and an expression is put out as it stands.
    pub open spec fn assignment_line(self, line: Seq<char>) -> Result<Outcome, FaultView> {
        match tokenize_spec(line, '=') {
            Some(fields) => self.begin_assignment(after_first_spec(fields.0), fields.1),
            None => self.print_line(line),
        }
    }

    /// The beginning of a conditional: the line splits on `:` into the
    /// condition and one or two branches, the condition is interpolated and
    /// split into its sides, and the story waits for the arithmetic on them.
    pub open spec fn begin_conditional(self, line: Seq<char>) -> Result<Outcome, FaultView> {
        match iftokenize_spec(line, ':') {
            None => Err(malformed_token(line, ':', self.number())),
            Some(fields) => match interpolation(
                after_first_spec(fields.1),
                self.variables,
                self.number(),
            ) {
                Err(f) => Err(f),
                Ok(condition) => match expression_of(condition, located_operator(condition)) {
                    None => Err(
                        FaultView {
                            kind: FaultKind::MalformedExpression,
                            line: self.number(),
                            text: condition,
                        },
                    ),
                    Some(e) => Ok(
                        Outcome {
                            state: self.awaiting(
                                WaitingView::Numbers {
                                    left: e.0,
                                    operator: e.1,
                                    right: e.2,
                                    then_branch: trim_spec(fields.2),
                                    else_branch: if fields.0 == 3 {
                                        Some(trim_spec(fields.3))
                                    } else {
                                        None
                                    },
                                },
                            ),
                            actions: Seq::empty(),
                        },
                    ),
                },
            },
        }
    }

    /// A branch of a conditional: a jump, an assignment, a quoted text that
    /// is put out as it stands, or a text that is interpolated and put out.
    pub open spec fn branch(self, text: Seq<char>) -> Result<Outcome, FaultView> {
        if text.len() > 0 && text[0] == '#' {
            self.jump(goto_target(text), self.number())
        } else if text.len() > 0 && text[0] == '@' {
            match tokenize_spec(text, '=') {
                Some(fields) => self.begin_assignment(after_first_spec(fields.0), fields.1),
                None => Err(malformed_token(text, '=', self.number())),
            }
        } else if text.len() > 0 && text[0] == '"' {
            let quoted = after_first_spec(text);
            if quoted.len() > 0 && quoted.last() == '"' {
                self.printed(strip_end_spec(quoted, '"'))
            } else {
                Err(FaultView { kind: FaultKind::UnterminatedQuote, line: self.number(), text })
            }
        } else {
            self.print_line(text)
        }
    }

    /// The end of a conditional: the comparison is decided, and the branch
    /// that it chooses is run. Without an else-branch a condition that does
    /// not hold only ends the line.
    pub open spec fn decide(
        self,
        left: Seq<char>,
        operator: Operator,
        right: Seq<char>,
        then_branch: Seq<char>,
        else_branch: Option<Seq<char>>,
        numbers: Option<Numbers>,
    ) -> Result<Outcome, FaultView> {
        match verdict(left, operator, right, numbers) {
            None => Err(
                FaultView {
                    kind: FaultKind::TypeError,
                    line: self.number(),
                    text: left + operator.symbol() + right,
                },
            ),
            Some(holds) => if holds {
                self.branch(then_branch)
            } else {
                match else_branch {
                    Some(text) => self.branch(text),
                    None => self.passed(),
                }
            },
        }
    }

    /// The beginning of a menu: the run of options that begins on this line
    /// is put out, numbered from one, then the request for a choice, and
    /// the story waits behind the run for that choice.
    pub open spec fn begin_menu(self) -> Result<Outcome, FaultView> {
        let end = menu_end(self.lines, self.index as int);
        match menu_of(self.lines, self.index as int, end) {
            Err(f) => Err(f),
            Ok(menu) => Ok(
                Outcome {
                    state: State {
                        index: end as usize,
                        waiting: WaitingView::Choice { targets: menu.targets },
                        ..self
                    },
                    actions: prints(menu.prompts.push(choice_prompt(menu.targets.len()))),
                },
            ),
        }
    }

    /// The reader's answer to a menu. An answer that picks an option is a
    /// jump to the target of that option. Any other answer changes nothing:
    /// the choice is asked for again.
    pub open spec fn pick(self, targets: Seq<Seq<char>>, answer: Seq<char>) -> Result<
        Outcome,
        FaultView,
    > {
        if targets.len() > usize::MAX {
            self.quiet()
        } else {
            match answer_spec(answer, targets.len() as usize) {
                Answer::Unreadable => Ok(
                    Outcome {
                        state: self,
                        actions: seq![
                            ActionView::Print(number_wanted()),
                            ActionView::Print(choice_prompt(targets.len())),
                        ],
                    },
                ),
                Answer::OutOfRange => Ok(
                    Outcome {
                        state: self,
                        actions: seq![ActionView::Print(choice_prompt(targets.len()))],
                    },
                ),
                Answer::Pick(number) => self.jump(targets[number - 1], self.index),
            }
        }
    }

    /// The beginning of a typed input: the line splits on `:` into the
    /// prompt with its mode and the reference to a variable, the variable
    /// must be declared, the mode must be `i` or `s`, the prompt is put out
    /// and the story waits for the answer.
    pub open spec fn begin_input(self, line: Seq<char>) -> Result<Outcome, FaultView> {
        match tokenize_spec(line, ':') {
            None => Err(malformed_token(line, ':', self.number())),
            Some(fields) => {
                let name = after_first_spec(fields.1);
                if !self.variables.contains_key(name) {
                    Err(undeclared(name, self.number()))
                } else if fields.0.len() >= 2 && (fields.0[1] == 'i' || fields.0[1] == 's') {
                    let prompt = seq!['\n'] + fields.0.subrange(2, fields.0.len() as int);
                    Ok(
                        Outcome {
                            state: self.awaiting(
                                WaitingView::Input { name, numeric: fields.0[1] == 'i', prompt },
                            ),
                            actions: seq![ActionView::Print(prompt)],
                        },
                    )
                } else {
                    Err(
                        FaultView {
                            kind: FaultKind::InvalidInputMode,
                            line: self.number(),
                            text: line,
                        },
                    )
                }
            },
        }
    }

    /// The reader's answer to a typed input. An answer that has to be
    /// numeric and holds an alphabetic character changes nothing: the reader
    /// is told so and asked again. Any other answer is stored.
    pub open spec fn answer(
        self,
        name: Seq<char>,
        numeric: bool,
        prompt: Seq<char>,
        answer: Seq<char>,
    ) -> Result<Outcome, FaultView> {
        if numeric && has_alphabetic_spec(answer) {
            Ok(
                Outcome {
                    state: self,
                    actions: seq![ActionView::Print(only_numbers()), ActionView::Print(prompt)],
                },
            )
        } else {
            self.store(name, answer)
        }
    }

    /// The line that the program counter is on is run.
    pub open spec fn run_line(self) -> Result<Outcome, FaultView> {
        let line = self.lines[self.index as int];
        match classify_spec(line) {
            LineKind::Empty | LineKind::Label | LineKind::Comment => self.passed(),
            LineKind::Blank => self.printed(Seq::empty()),
            LineKind::Goto => self.jump(goto_target(line), self.number()),
            LineKind::Conditional => self.begin_conditional(line),
            LineKind::Assignment => self.assignment_line(line),
            LineKind::Question => self.begin_menu(),
            LineKind::Input => self.begin_input(line),
            LineKind::Pause => Ok(
                Outcome {
                    state: self.awaiting(WaitingView::Continue),
                    actions: seq![ActionView::Print(continue_prompt())],
                },
            ),
            LineKind::Clear => Ok(
                Outcome { state: self.advanced(), actions: seq![ActionView::Clear] },
            ),
            LineKind::Text => self.print_line(line),
        }
    }

    /// One step of the story. An event that is not the one that the story
    /// waits for changes nothing, and so does a step of a story that is
    /// over.
    pub open spec fn step(self, event: EventView) -> Result<Outcome, FaultView> {
        match self.waiting {
            WaitingView::Nothing => match event {
                EventView::Step => if self.index < self.lines.len() {
                    self.run_line()
                } else {
                    self.quiet()
                },
                _ => self.quiet(),
            },
            WaitingView::Numbers { left, operator, right, then_branch, else_branch } => match event {
                EventView::Numbers(numbers) => self.decide(
                    left,
                    operator,
                    right,
                    then_branch,
                    else_branch,
                    numbers,
                ),
                _ => self.quiet(),
            },
            WaitingView::Value { name, text } => match event {
                EventView::Value(computed) => self.store(name, evaluate_spec(text, computed)),
                _ => self.quiet(),
            },
            WaitingView::Choice { targets } => match event {
                EventView::Line(answer) => self.pick(targets, answer),
                _ => self.quiet(),
            },
            WaitingView::Input { name, numeric, prompt } => match event {
                EventView::Line(answer) => self.answer(name, numeric, prompt, answer),
                _ => self.quiet(),
            },
            WaitingView::Continue => match event {
                EventView::Line(_) => Ok(
                    Outcome { state: self.advanced(), actions: seq![ActionView::Clear] },
                ),
                _ => self.quiet(),
            },
        }
    }
}

} // verus!
