//! The machine that tells a story: it holds the script and the state, and
//! goes from event to event. The host performs the actions that a step
//! hands out, and hands in what the story waits for.

use vstd::prelude::*;
use crate::expr::compare;
use crate::expr::evaluate;
use crate::expr::get_expression;
use crate::expr::option_view;
use crate::expr::Numbers;
use crate::expr::Operator;
use crate::fault::fault;
use crate::fault::Fault;
use crate::fault::FaultKind;
use crate::fault::FaultView;
use crate::machine::action_views;
use crate::machine::classify;
use crate::machine::Action;
use crate::machine::ActionView;
use crate::machine::Event;
use crate::machine::LineKind;
use crate::machine::Waiting;
use crate::numeral::decimal_text;
use crate::numeral::read_answer;
use crate::numeral::Answer;
use crate::script::declared_in;
use crate::script::labels_of;
use crate::semantics::choice_prompt;
use crate::laws::law_initial_state_is_well_formed;
use crate::laws::law_step_keeps_well_formed;
use crate::semantics::lemma_menu_end_bounds;
use crate::semantics::lemma_menu_fault_stays;
use crate::semantics::menu_end;
use crate::semantics::menu_of;
use crate::semantics::numbered;
use crate::semantics::prints;
use crate::semantics::Menu;
use crate::semantics::Outcome;
use crate::semantics::State;
use crate::store::Labels;
use crate::store::Variables;
use crate::text::after_first;
use crate::text::append;
use crate::text::chars_of;
use crate::text::copy;
use crate::text::copy_range;
use crate::text::has_alphabetic;
use crate::text::strip_end;
use crate::text::trim;
use crate::text::views;
use crate::text::without;
use crate::tokens::iftokenize;
use crate::tokens::tokenize;

verus! {

/// Whether a step did what the semantics ask: on success the machine is in
/// the next state and the actions are the expected ones; on a fault the
/// fault is the expected one and the machine is as it was.
pub open spec fn realizes(
    before: State,
    result: Result<Vec<Action>, Fault>,
    after: State,
    expected: Result<Outcome, FaultView>,
) -> bool {
    match expected {
        Ok(outcome) => result matches Ok(actions) && after == outcome.state && action_views(
            actions@,
        ) == outcome.actions,
        Err(f) => result matches Err(got) && got@ == f && after == before,
    }
}

/// No action.
fn no_actions() -> (r: Vec<Action>)
    ensures
        action_views(r@) == Seq::<ActionView>::empty(),
{
    let r: Vec<Action> = Vec::new();
    assert(action_views(r@) == Seq::<ActionView>::empty());
    r
}

/// The one action `action`.
fn one_action(action: Action) -> (r: Vec<Action>)
    ensures
        action_views(r@) == seq![action@],
{
    let mut r: Vec<Action> = Vec::new();
    r.push(action);
    assert(action_views(r@) == seq![action@]);
    r
}

/// The two actions `first` and `second`.
fn two_actions(first: Action, second: Action) -> (r: Vec<Action>)
    ensures
        action_views(r@) == seq![first@, second@],
{
    let mut r: Vec<Action> = Vec::new();
    r.push(first);
    r.push(second);
    assert(action_views(r@) == seq![first@, second@]);
    r
}

/// A copy of what a story waits for.
fn copy_waiting(waiting: &Waiting) -> (r: Waiting)
    ensures
        r@ == waiting@,
{
    match waiting {
        Waiting::Nothing => Waiting::Nothing,
        Waiting::Numbers { left, operator, right, then_branch, else_branch } => Waiting::Numbers {
            left: copy(left.as_slice()),
            operator: *operator,
            right: copy(right.as_slice()),
            then_branch: copy(then_branch.as_slice()),
            else_branch: match else_branch {
                Some(branch) => Some(copy(branch.as_slice())),
                None => None,
            },
        },
        Waiting::Value { name, text } => Waiting::Value {
            name: copy(name.as_slice()),
            text: copy(text.as_slice()),
        },
        Waiting::Choice { targets } => {
            let mut copies: Vec<Vec<char>> = Vec::new();
            let mut i: usize = 0;
            while i < targets.len()
                invariant
                    i <= targets.len(),
                    views(copies@) == views(targets@).take(i as int),
                decreases targets.len() - i,
            {
                let ghost before = views(copies@);
                copies.push(copy(targets[i].as_slice()));
                assert(views(copies@) == before.push(targets@[i as int]@));
                i += 1;
            }
            assert(views(targets@).take(targets.len() as int) == views(targets@));
            Waiting::Choice { targets: copies }
        },
        Waiting::Input { name, numeric, prompt } => Waiting::Input {
            name: copy(name.as_slice()),
            numeric: *numeric,
            prompt: copy(prompt.as_slice()),
        },
        Waiting::Continue => Waiting::Continue,
    }
}

/// The machine that tells a story.
pub struct Renderer {
    lines: Vec<Vec<char>>,
    variables: Variables,
    labels: Labels,
    index: usize,
    waiting: Waiting,
}

impl Renderer {
    /// The state of the machine.
    pub closed spec fn view(&self) -> State {
        State {
            lines: views(self.lines@),
            labels: self.labels@,
            variables: self.variables@,
            index: self.index,
            waiting: self.waiting@,
        }
    }

    /// The machine of the script without a line.
    pub fn new() -> (r: Self)
        ensures
            r@ == State::initial(Seq::empty()),
            r@.well_formed(),
    {
        let lines: Vec<Vec<char>> = Vec::new();
        assert(views(lines@) == Seq::<Seq<char>>::empty());
        Renderer::load(lines)
    }

    /// The machine of the script `lines` before its first step: the labels
    /// and the variables that the script declares are known, and the
    /// program counter is on the first line.
    pub fn load(lines: Vec<Vec<char>>) -> (r: Self)
        ensures
            r@ == State::initial(views(lines@)),
            r@.well_formed(),
    {
        let mut labels = Labels::new();
        let mut variables = Variables::new();
        let n: usize = lines.len();
        let mut i: usize = 0;
        while i < n
            invariant
                n == lines.len(),
                i <= n,
                labels@ == labels_of(views(lines@).take(i as int)),
                variables@ == declared_in(views(lines@).take(i as int)),
            decreases n - i,
        {
            let ghost upto = views(lines@).take(i + 1);
            assert(upto.drop_last() == views(lines@).take(i as int));
            assert(upto.last() == lines@[i as int]@);
            let line = lines[i].as_slice();
            if line.len() > 0 && line[0] == ':' {
                let name = after_first(line);
                labels.insert(name.as_slice(), i);
            } else if line.len() > 0 && line[0] == '@' {
                match tokenize(line, '=', i + 1) {
                    Ok(fields) => {
                        let name = after_first(fields.0.as_slice());
                        variables.declare(name.as_slice());
                    },
                    Err(_) => {},
                }
            }
            i += 1;
        }
        assert(views(lines@).take(n as int) == views(lines@));
        proof {
            law_initial_state_is_well_formed(views(lines@));
        }
        Renderer { lines, variables, labels, index: 0, waiting: Waiting::Nothing }
    }

    /// The number of lines of the script.
    pub fn line_count(&self) -> (r: usize)
        ensures
            r == self@.lines.len(),
    {
        self.lines.len()
    }

    /// The program counter: the index of the line that is run next.
    pub fn index(&self) -> (r: usize)
        ensures
            r == self@.index,
    {
        self.index
    }

    /// What the story waits for.
    pub fn waiting(&self) -> (r: &Waiting)
        ensures
            r@ == self@.waiting,
    {
        &self.waiting
    }

    /// Whether the story is over.
    pub fn finished(&self) -> (r: bool)
        ensures
            r == self@.finished(),
    {
        matches!(self.waiting, Waiting::Nothing) && self.index >= self.lines.len()
    }

    /// The value of the variable `name`, if it is declared.
    pub fn variable(&self, name: &[char]) -> (r: Option<Vec<char>>)
        ensures
            self@.variables.contains_key(name@) ==> option_view(r) == Some(
                self@.variables[name@],
            ),
            !self@.variables.contains_key(name@) ==> r is None,
    {
        match self.variables.get(name, 0) {
            Ok(value) => Some(value),
            Err(_) => None,
        }
    }

    /// The index of the line that declares the label `name`, if one does.
    pub fn label(&self, name: &[char]) -> (r: Option<usize>)
        ensures
            self@.labels.contains_key(name@) ==> r == Some(self@.labels[name@]),
            !self@.labels.contains_key(name@) ==> r is None,
    {
        self.labels.get(name)
    }

    /// The number of the line that the program counter is on.
    fn number(&self) -> (r: usize)
        ensures
            r == self@.number(),
    {
        if self.index < usize::MAX {
            self.index + 1
        } else {
            self.index
        }
    }

    /// Ends the line.
    fn advance(&mut self)
        ensures
            final(self)@ == old(self)@.advanced(),
    {
        if self.index < self.lines.len() {
            self.index = self.index + 1;
        }
        self.waiting = Waiting::Nothing;
    }

    /// Ends the line without a word.
    fn pass(&mut self) -> (r: Result<Vec<Action>, Fault>)
        ensures
            realizes(old(self)@, r, final(self)@, old(self)@.passed()),
    {
        self.advance();
        Ok(no_actions())
    }

    /// Puts out `text` and ends the line.
    fn print(&mut self, text: Vec<char>) -> (r: Result<Vec<Action>, Fault>)
        ensures
            realizes(old(self)@, r, final(self)@, old(self)@.printed(text@)),
    {
        self.advance();
        Ok(one_action(Action::Print(text)))
    }

    /// Jumps to the label `target`.
    fn jump(&mut self, target: &[char], line: usize) -> (r: Result<Vec<Action>, Fault>)
        ensures
            realizes(old(self)@, r, final(self)@, old(self)@.jump(target@, line)),
    {
        match self.labels.get(target) {
            Some(index) => {
                self.index = index;
                self.waiting = Waiting::Nothing;
                Ok(no_actions())
            },
            None => Err(fault(FaultKind::UndefinedLabel, line, target)),
        }
    }

    /// The label that a jump written as `text` names.
    fn target_of(text: &[char]) -> (r: Vec<char>)
        ensures
            r@ == crate::semantics::goto_target(text@),
    {
        let bare = without(text, '#');
        without(bare.as_slice(), ':')
    }

    /// Interpolates `text`, puts it out and ends the line.
    fn print_line(&mut self, text: &[char]) -> (r: Result<Vec<Action>, Fault>)
        ensures
            realizes(old(self)@, r, final(self)@, old(self)@.print_line(text@)),
    {
        let number = self.number();
        match self.variables.interpolate(text, number) {
            Ok(done) => self.print(done),
            Err(f) => Err(f),
        }
    }

    /// Begins an assignment to `name`.
    fn begin_assignment(&mut self, name: Vec<char>, expression: &[char]) -> (r: Result<
        Vec<Action>,
        Fault,
    >)
        ensures
            realizes(
                old(self)@,
                r,
                final(self)@,
                old(self)@.begin_assignment(name@, expression@),
            ),
    {
        let number = self.number();
        let text = match self.variables.interpolate(expression, number) {
            Ok(text) => text,
            Err(f) => {
                return Err(f);
            },
        };
        if !self.variables.contains(name.as_slice()) {
            return Err(fault(FaultKind::UndeclaredVariable, number, name.as_slice()));
        }
        self.waiting = Waiting::Value { name, text };
        Ok(no_actions())
    }

    /// Ends an assignment: `name` holds `value`.
    fn store(&mut self, name: &[char], value: Vec<char>) -> (r: Result<Vec<Action>, Fault>)
        ensures
            realizes(old(self)@, r, final(self)@, old(self)@.store(name@, value@)),
    {
        let number = self.number();
        match self.variables.set(name, value, number) {
            Ok(()) => {
                self.advance();
                Ok(no_actions())
            },
            Err(f) => Err(f),
        }
    }

    /// Runs an assignment line.
    fn assignment_line(&mut self, line: &[char]) -> (r: Result<Vec<Action>, Fault>)
        ensures
            realizes(old(self)@, r, final(self)@, old(self)@.assignment_line(line@)),
    {
        let number = self.number();
        match tokenize(line, '=', number) {
            Ok(fields) => {
                let name = after_first(fields.0.as_slice());
                self.begin_assignment(name, fields.1.as_slice())
            },
            Err(_) => self.print_line(line),
        }
    }

    /// Begins a conditional.
    fn begin_conditional(&mut self, line: &[char]) -> (r: Result<Vec<Action>, Fault>)
        ensures
            realizes(old(self)@, r, final(self)@, old(self)@.begin_conditional(line@)),
    {
        let number = self.number();
        let fields = match iftokenize(line, ':', number) {
            Ok(fields) => fields,
            Err(f) => {
                return Err(f);
            },
        };
        let written = after_first(fields.1.as_slice());
        let condition = match self.variables.interpolate(written.as_slice(), number) {
            Ok(condition) => condition,
            Err(f) => {
                return Err(f);
            },
        };
        let sides = match get_expression(condition.as_slice(), number) {
            Ok(sides) => sides,
            Err(f) => {
                return Err(f);
            },
        };
        let then_branch = trim(fields.2.as_slice());
        let else_branch = if fields.0 == 3 {
            Some(trim(fields.3.as_slice()))
        } else {
            None
        };
        self.waiting = Waiting::Numbers {
            left: sides.0,
            operator: sides.1,
            right: sides.2,
            then_branch,
            else_branch,
        };
        Ok(no_actions())
    }

    /// Runs a branch of a conditional.
    fn branch(&mut self, text: &[char]) -> (r: Result<Vec<Action>, Fault>)
        ensures
            realizes(old(self)@, r, final(self)@, old(self)@.branch(text@)),
    {
        let number = self.number();
        if text.len() > 0 && text[0] == '#' {
            let target = Renderer::target_of(text);
            self.jump(target.as_slice(), number)
        } else if text.len() > 0 && text[0] == '@' {
            match tokenize(text, '=', number) {
                Ok(fields) => {
                    let name = after_first(fields.0.as_slice());
                    self.begin_assignment(name, fields.1.as_slice())
                },
                Err(f) => Err(f),
            }
        } else if text.len() > 0 && text[0] == '"' {
            let quoted = after_first(text);
            if quoted.len() > 0 && quoted[quoted.len() - 1] == '"' {
                let bare = strip_end(quoted.as_slice(), '"');
                self.print(bare)
            } else {
                Err(fault(FaultKind::UnterminatedQuote, number, text))
            }
        } else {
            self.print_line(text)
        }
    }

    /// Ends a conditional.
    fn decide(
        &mut self,
        left: &[char],
        operator: Operator,
        right: &[char],
        then_branch: &[char],
        else_branch: Option<Vec<char>>,
        numbers: Option<Numbers>,
    ) -> (r: Result<Vec<Action>, Fault>)
        ensures
            realizes(
                old(self)@,
                r,
                final(self)@,
                old(self)@.decide(
                    left@,
                    operator,
                    right@,
                    then_branch@,
                    option_view(else_branch),
                    numbers,
                ),
            ),
    {
        let number = self.number();
        let holds = match compare(left, operator, right, numbers, number) {
            Ok(holds) => holds,
            Err(f) => {
                return Err(f);
            },
        };
        if holds {
            self.branch(then_branch)
        } else {
            match else_branch {
                Some(text) => self.branch(text.as_slice()),
                None => self.pass(),
            }
        }
    }

    /// How a menu of `count` options asks for the choice.
    fn choice_request(count: usize) -> (r: Vec<char>)
        ensures
            r@ == choice_prompt(count as nat),
    {
        let mut out = chars_of("Enter a number from 1 to ");
        let written = decimal_text(count);
        append(&mut out, written.as_slice());
        out
    }

    /// Begins a menu.
    fn begin_menu(&mut self) -> (r: Result<Vec<Action>, Fault>)
        requires
            old(self).index < old(self).lines.len(),
        ensures
            realizes(old(self)@, r, final(self)@, old(self)@.begin_menu()),
    {
        let ghost lines = views(self.lines@);
        let start: usize = self.index;
        let n: usize = self.lines.len();
        let mut at: usize = start;
        let mut actions: Vec<Action> = Vec::new();
        let mut targets: Vec<Vec<char>> = Vec::new();
        let ghost mut prompts: Seq<Seq<char>> = Seq::empty();
        assert(action_views(actions@) == prints(prompts));
        assert(views(targets@) == Seq::<Seq<char>>::empty());
        while at < n && self.lines[at].len() > 0 && self.lines[at][0] == '?'
            invariant
                self@ == old(self)@,
                lines == views(self.lines@),
                n == self.lines.len(),
                start == self.index,
                start <= at <= n,
                menu_end(lines, start as int) == menu_end(lines, at as int),
                menu_of(lines, start as int, at as int) == Ok::<Menu, FaultView>(
                    Menu { prompts, targets: views(targets@) },
                ),
                action_views(actions@) == prints(prompts),
                prompts.len() == targets.len(),
                targets.len() == at - start,
            decreases n - at,
        {
            let line = self.lines[at].as_slice();
            assert(lines[at as int] == line@);
            proof {
                lemma_menu_end_bounds(lines, at + 1);
            }
            match tokenize(line, ':', at + 1) {
                Err(f) => {
                    proof {
                        lemma_menu_fault_stays(
                            lines,
                            start as int,
                            at + 1,
                            menu_end(lines, start as int),
                        );
                    }
                    return Err(f);
                },
                Ok(fields) => {
                    let mut prompt = decimal_text(at - start + 1);
                    let stop = chars_of(". ");
                    append(&mut prompt, stop.as_slice());
                    let shown = after_first(fields.0.as_slice());
                    append(&mut prompt, shown.as_slice());
                    assert(prompt@ == numbered((at + 1 - start) as nat, shown@));
                    let target = without(fields.1.as_slice(), '#');
                    let ghost before_actions = action_views(actions@);
                    let ghost before_targets = views(targets@);
                    let ghost before_prompts = prompts;
                    let ghost shown_prompt = prompt@;
                    proof {
                        prompts = prompts.push(prompt@);
                    }
                    actions.push(Action::Print(prompt));
                    targets.push(target);
                    assert(views(targets@) == before_targets.push(target@));
                    assert(action_views(actions@) == before_actions.push(
                        ActionView::Print(shown_prompt),
                    ));
                    assert(prints(prompts) == prints(before_prompts).push(
                        ActionView::Print(shown_prompt),
                    ));
                },
            }
            at += 1;
        }
        let request = Renderer::choice_request(targets.len());
        let ghost before_actions = action_views(actions@);
        let ghost before_prompts = prompts;
        let ghost shown_request = request@;
        proof {
            prompts = prompts.push(request@);
        }
        actions.push(Action::Print(request));
        assert(action_views(actions@) == before_actions.push(ActionView::Print(shown_request)));
        assert(prints(prompts) == prints(before_prompts).push(ActionView::Print(shown_request)));
        self.index = at;
        self.waiting = Waiting::Choice { targets };
        Ok(actions)
    }

    /// Takes the reader's answer to a menu.
    fn pick(&mut self, targets: &Vec<Vec<char>>, answer: &[char]) -> (r: Result<
        Vec<Action>,
        Fault,
    >)
        ensures
            realizes(old(self)@, r, final(self)@, old(self)@.pick(views(targets@), answer@)),
    {
        match read_answer(answer, targets.len()) {
            Answer::Unreadable => Ok(
                two_actions(
                    Action::Print(chars_of("You must use a number")),
                    Action::Print(Renderer::choice_request(targets.len())),
                ),
            ),
            Answer::OutOfRange => Ok(
                one_action(Action::Print(Renderer::choice_request(targets.len()))),
            ),
            Answer::Pick(number) => {
                let line = self.index;
                self.jump(targets[number - 1].as_slice(), line)
            },
        }
    }

    /// Begins a typed input.
    fn begin_input(&mut self, line: &[char]) -> (r: Result<Vec<Action>, Fault>)
        ensures
            realizes(old(self)@, r, final(self)@, old(self)@.begin_input(line@)),
    {
        let number = self.number();
        let fields = match tokenize(line, ':', number) {
            Ok(fields) => fields,
            Err(f) => {
                return Err(f);
            },
        };
        let name = after_first(fields.1.as_slice());
        if !self.variables.contains(name.as_slice()) {
            return Err(fault(FaultKind::UndeclaredVariable, number, name.as_slice()));
        }
        let spec = fields.0.as_slice();
        if spec.len() >= 2 && (spec[1] == 'i' || spec[1] == 's') {
            let mut prompt: Vec<char> = Vec::new();
            prompt.push('\n');
            let asked = copy_range(spec, 2, spec.len());
            append(&mut prompt, asked.as_slice());
            let shown = copy(prompt.as_slice());
            self.waiting = Waiting::Input { name, numeric: spec[1] == 'i', prompt };
            Ok(one_action(Action::Print(shown)))
        } else {
            Err(fault(FaultKind::InvalidInputMode, number, line))
        }
    }

    /// Takes the reader's answer to a typed input.
    fn answer(&mut self, name: &[char], numeric: bool, prompt: Vec<char>, answer: Vec<char>) -> (r:
        Result<Vec<Action>, Fault>)
        ensures
            realizes(
                old(self)@,
                r,
                final(self)@,
                old(self)@.answer(name@, numeric, prompt@, answer@),
            ),
    {
        if numeric && has_alphabetic(answer.as_slice()) {
            Ok(
                two_actions(
                    Action::Print(chars_of("You may only enter in a Number. Please try again.")),
                    Action::Print(prompt),
                ),
            )
        } else {
            self.store(name, answer)
        }
    }

    /// Runs the line that the program counter is on.
    fn run_line(&mut self) -> (r: Result<Vec<Action>, Fault>)
        requires
            old(self).index < old(self).lines.len(),
        ensures
            realizes(old(self)@, r, final(self)@, old(self)@.run_line()),
    {
        let line = copy(self.lines[self.index].as_slice());
        assert(line@ == self@.lines[self.index as int]);
        match classify(line.as_slice()) {
            LineKind::Empty | LineKind::Label | LineKind::Comment => self.pass(),
            LineKind::Blank => self.print(Vec::new()),
            LineKind::Goto => {
                let number = self.number();
                let target = Renderer::target_of(line.as_slice());
                self.jump(target.as_slice(), number)
            },
            LineKind::Conditional => self.begin_conditional(line.as_slice()),
            LineKind::Assignment => self.assignment_line(line.as_slice()),
            LineKind::Question => self.begin_menu(),
            LineKind::Input => self.begin_input(line.as_slice()),
            LineKind::Pause => {
                self.waiting = Waiting::Continue;
                Ok(one_action(Action::Print(chars_of("\nPress Enter to Continue."))))
            },
            LineKind::Clear => {
                self.advance();
                Ok(one_action(Action::Clear))
            },
            LineKind::Text => self.print_line(line.as_slice()),
        }
    }

    /// One step of the story: takes `event`, changes the state and hands
    /// out the actions for the host, as the semantics say. A fault leaves
    /// the machine as it was. The invariant of the machine is kept.
    pub fn step(&mut self, event: Event) -> (r: Result<Vec<Action>, Fault>)
        ensures
            realizes(old(self)@, r, final(self)@, old(self)@.step(event@)),
            old(self)@.well_formed() ==> final(self)@.well_formed(),
    {
        proof {
            if self@.well_formed() {
                law_step_keeps_well_formed(self@, event@);
            }
        }
        let waiting = copy_waiting(&self.waiting);
        match waiting {
            Waiting::Nothing => match event {
                Event::Step => if self.index < self.lines.len() {
                    self.run_line()
                } else {
                    Ok(no_actions())
                },
                _ => Ok(no_actions()),
            },
            Waiting::Numbers { left, operator, right, then_branch, else_branch } => match event {
                Event::Numbers(numbers) => self.decide(
                    left.as_slice(),
                    operator,
                    right.as_slice(),
                    then_branch.as_slice(),
                    else_branch,
                    numbers,
                ),
                _ => Ok(no_actions()),
            },
            Waiting::Value { name, text } => match event {
                Event::Value(computed) => {
                    let value = evaluate(text, computed);
                    self.store(name.as_slice(), value)
                },
                _ => Ok(no_actions()),
            },
            Waiting::Choice { targets } => match event {
                Event::Line(answer) => self.pick(&targets, answer.as_slice()),
                _ => Ok(no_actions()),
            },
            Waiting::Input { name, numeric, prompt } => match event {
                Event::Line(answer) => self.answer(name.as_slice(), numeric, prompt, answer),
                _ => Ok(no_actions()),
            },
            Waiting::Continue => match event {
                Event::Line(_) => {
                    self.advance();
                    Ok(one_action(Action::Clear))
                },
                _ => Ok(no_actions()),
            },
        }
    }
}

} // verus!
