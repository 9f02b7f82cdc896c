//! What holds of every story, proved from the semantics.

use vstd::prelude::*;
use crate::fault::FaultView;
use crate::interpolate::boundary;
use crate::interpolate::law_lone_reference_is_its_value;
use crate::interpolate::reference_to;
use crate::machine::classify_spec;
use crate::machine::ActionView;
use crate::machine::EventView;
use crate::machine::LineKind;
use crate::machine::WaitingView;
use crate::numeral::answer_spec;
use crate::numeral::Answer;
use crate::script::labels_of;
use crate::script::lemma_labels_sound;
use crate::semantics::goto_target;
use crate::semantics::lemma_menu_end_bounds;
use crate::semantics::only_numbers;
use crate::semantics::Outcome;
use crate::semantics::State;
use crate::text::find_from;
use crate::text::has_alphabetic_spec;
use crate::text::lemma_find_from;
use crate::text::occurs_at;
use crate::text::split_spec;

verus! {

/// A script begins in a state that keeps the invariant of the machine.
pub proof fn law_initial_state_is_well_formed(lines: Seq<Seq<char>>)
    requires
        lines.len() <= usize::MAX,
    ensures
        State::initial(lines).well_formed(),
{
    assert forall|name: Seq<char>| #[trigger]
        labels_of(lines).contains_key(name) implies labels_of(lines)[name] < lines.len() by {
        lemma_labels_sound(lines, name);
    }
}

/// Every step keeps the invariant of the machine: the program counter
/// stays the index of a line or the length of the script, whatever the
/// event.
pub proof fn law_step_keeps_well_formed(state: State, event: EventView)
    requires
        state.well_formed(),
    ensures
        state.step(event) matches Ok(next) ==> next.state.well_formed(),
{
    if state.waiting is Nothing && event is Step && state.index < state.lines.len() {
        lemma_menu_end_bounds(state.lines, state.index as int);
        if classify_spec(state.lines[state.index as int]) == LineKind::Question {
            lemma_menu_end_bounds(state.lines, state.index + 1);
        }
    }
}

/// A fault changes nothing, and a step that is not a fault leaves the
/// script and its labels as they were.
pub proof fn law_step_keeps_the_script(state: State, event: EventView)
    ensures
        state.step(event) matches Ok(next) ==> next.state.lines == state.lines
            && next.state.labels == state.labels,
{
}

/// A jump sets the program counter to the line that declares the label,
/// and does nothing else.
pub proof fn law_goto_lands_on_the_label(state: State)
    requires
        state.waiting is Nothing,
        state.index < state.lines.len(),
        classify_spec(state.lines[state.index as int]) == LineKind::Goto,
        state.labels.contains_key(goto_target(state.lines[state.index as int])),
    ensures
        state.step(EventView::Step) == Ok::<Outcome, FaultView>(
            Outcome {
                state: State {
                    index: state.labels[goto_target(state.lines[state.index as int])],
                    ..state
                },
                actions: Seq::empty(),
            },
        ),
{
}

/// The line of a label does nothing but hand on to the next line.
pub proof fn law_label_line_hands_on(state: State)
    requires
        state.well_formed(),
        state.waiting is Nothing,
        state.index < state.lines.len(),
        classify_spec(state.lines[state.index as int]) == LineKind::Label,
    ensures
        state.step(EventView::Step) == Ok::<Outcome, FaultView>(
            Outcome {
                state: State { index: (state.index + 1) as usize, ..state },
                actions: Seq::empty(),
            },
        ),
{
}

/// The answer that picks an option of a menu leads to the target of that
/// option, and of no other.
pub proof fn law_choice_leads_to_its_target(
    state: State,
    targets: Seq<Seq<char>>,
    answer: Seq<char>,
    number: usize,
)
    requires
        state.waiting == (WaitingView::Choice { targets }),
        targets.len() <= usize::MAX,
        answer_spec(answer, targets.len() as usize) == Answer::Pick(number),
        state.labels.contains_key(targets[number - 1]),
    ensures
        1 <= number <= targets.len(),
        state.step(EventView::Line(answer)) == Ok::<Outcome, FaultView>(
            Outcome {
                state: State {
                    index: state.labels[targets[number - 1]],
                    waiting: WaitingView::Nothing,
                    ..state
                },
                actions: Seq::empty(),
            },
        ),
{
}

/// An answer to a menu that picks no option changes nothing: the story
/// goes on waiting for the choice.
pub proof fn law_unfit_choice_changes_nothing(
    state: State,
    targets: Seq<Seq<char>>,
    answer: Seq<char>,
)
    requires
        state.waiting == (WaitingView::Choice { targets }),
        targets.len() <= usize::MAX,
        !(answer_spec(answer, targets.len() as usize) is Pick),
    ensures
        state.step(EventView::Line(answer)) matches Ok(next) && next.state == state,
{
}

/// An answer that has to be numeric and holds an alphabetic character
/// changes nothing: no variable is written, the reader is told so and is
/// asked again.
pub proof fn law_unfit_answer_changes_nothing(
    state: State,
    name: Seq<char>,
    prompt: Seq<char>,
    answer: Seq<char>,
)
    requires
        state.waiting == (WaitingView::Input { name, numeric: true, prompt }),
        has_alphabetic_spec(answer),
    ensures
        state.step(EventView::Line(answer)) == Ok::<Outcome, FaultView>(
            Outcome {
                state,
                actions: seq![ActionView::Print(only_numbers()), ActionView::Print(prompt)],
            },
        ),
{
}

/// An answer that is fit is what the variable holds afterwards.
pub proof fn law_fit_answer_is_stored(
    state: State,
    name: Seq<char>,
    numeric: bool,
    prompt: Seq<char>,
    answer: Seq<char>,
)
    requires
        state.waiting == (WaitingView::Input { name, numeric, prompt }),
        state.variables.contains_key(name),
        !(numeric && has_alphabetic_spec(answer)),
    ensures
        state.step(EventView::Line(answer)) matches Ok(next) && next.state.variables
            == state.variables.insert(name, answer) && next.state.waiting is Nothing,
{
}

/// An assignment stores what the arithmetic computed, and the text itself
/// where it computed nothing.
pub proof fn law_assignment_is_stored(
    state: State,
    name: Seq<char>,
    text: Seq<char>,
    computed: Option<Seq<char>>,
)
    requires
        state.waiting == (WaitingView::Value { name, text }),
        state.variables.contains_key(name),
    ensures
        state.step(EventView::Value(computed)) matches Ok(next) && next.state.variables[name] == (
        match computed {
            Some(number) => number,
            None => text,
        }) && next.state.waiting is Nothing,
{
}

/// The round trip of an assignment: a line that is nothing but the
/// reference to a declared variable puts out the value that the variable
/// holds, and ends the line.
pub proof fn law_reference_line_puts_out_the_value(state: State, name: Seq<char>)
    requires
        state.waiting is Nothing,
        state.index < state.lines.len(),
        state.lines[state.index as int] == reference_to(name),
        name.len() > 0,
        forall|i: int| 0 <= i < name.len() ==> !boundary(name[i]),
        state.variables.contains_key(name),
    ensures
        state.step(EventView::Step) == state.printed(state.variables[name]),
{
    let line = reference_to(name);
    let equals = seq!['='];
    assert(line[0] == '@');
    lemma_find_from(line, equals, 0);
    assert forall|at: int| 0 <= at implies !occurs_at(line, equals, at) by {
        if occurs_at(line, equals, at) {
            assert(line.subrange(at, at + 1)[0] == line[at]);
            if at > 0 {
                assert(line[at] == name[at - 1]);
            }
        }
    }
    assert(find_from(line, equals, 0) is None);
    assert(split_spec(line, equals).len() == 1);
    law_lone_reference_is_its_value(name, state.variables, state.number());
}

} // verus!
