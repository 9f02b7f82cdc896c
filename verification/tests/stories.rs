use float_cmp::ApproxEq;
use float_cmp::F64Margin;
use story_engine::expr::Numbers;
use story_engine::expr::Order;
use story_engine::expr::TOLERANCE_ULPS;
use story_engine::fault::Fault;
use story_engine::fault::FaultKind;
use story_engine::machine::classify;
use story_engine::machine::Action;
use story_engine::machine::Event;
use story_engine::machine::LineKind;
use story_engine::machine::Waiting;
use story_engine::renderer::Renderer;
use story_engine::text::chars_of;
use story_engine::text::string_of;

fn value_for(text: &[char]) -> Option<Vec<char>> {
    match tinyexpr::interp(&string_of(text)) {
        Ok(v) => Some(chars_of(&v.to_string())),
        Err(_) => None,
    }
}

fn numbers_for(left: &[char], right: &[char]) -> Option<Numbers> {
    let a = tinyexpr::interp(&string_of(left)).ok()?;
    let b = tinyexpr::interp(&string_of(right)).ok()?;
    let close = a.approx_eq(b, F64Margin { ulps: TOLERANCE_ULPS, epsilon: 0.0 });
    let order = match a.partial_cmp(&b) {
        Some(std::cmp::Ordering::Less) => Order::Less,
        Some(std::cmp::Ordering::Equal) => Order::Equal,
        Some(std::cmp::Ordering::Greater) => Order::Greater,
        None => Order::Unordered,
    };
    Some(Numbers { close, order })
}

fn load(script: &[&str]) -> Renderer {
    Renderer::load(script.iter().map(|l| chars_of(l)).collect())
}

fn show(actions: Vec<Action>) -> Vec<String> {
    actions
        .into_iter()
        .map(|a| match a {
            Action::Print(text) => string_of(&text),
            Action::Clear => "<clear>".to_string(),
        })
        .collect()
}

struct Told {
    shown: Vec<String>,
    visited: Vec<usize>,
    fault: Option<Fault>,
    story: Renderer,
}

fn tell(script: &[&str], answers: &[&str], steps: usize) -> Told {
    let mut story = load(script);
    let mut answers = answers.iter();
    let mut shown = Vec::new();
    let mut visited = Vec::new();
    let mut fault = None;
    for _ in 0..steps {
        if story.finished() {
            break;
        }
        let event = match story.waiting() {
            Waiting::Nothing => Event::Step,
            Waiting::Numbers { left, right, .. } => Event::Numbers(numbers_for(left, right)),
            Waiting::Value { text, .. } => Event::Value(value_for(text)),
            _ => match answers.next() {
                Some(line) => Event::Line(chars_of(line)),
                None => break,
            },
        };
        visited.push(story.index());
        match story.step(event) {
            Ok(actions) => shown.extend(show(actions)),
            Err(f) => {
                fault = Some(f);
                break;
            }
        }
    }
    Told { shown, visited, fault, story }
}

fn value_of(story: &Renderer, name: &str) -> Option<String> {
    story.variable(&chars_of(name)).map(|v| string_of(&v))
}

#[test]
fn classify_goes_by_the_first_character() {
    assert_eq!(classify(&chars_of("")), LineKind::Empty);
    assert_eq!(classify(&chars_of("\r")), LineKind::Empty);
    assert_eq!(classify(&chars_of(":a")), LineKind::Label);
    assert_eq!(classify(&chars_of("* note")), LineKind::Comment);
    assert_eq!(classify(&chars_of("|")), LineKind::Blank);
    assert_eq!(classify(&chars_of("#a")), LineKind::Goto);
    assert_eq!(classify(&chars_of("!1==1:#a")), LineKind::Conditional);
    assert_eq!(classify(&chars_of("@x=1")), LineKind::Assignment);
    assert_eq!(classify(&chars_of("?a:#b")), LineKind::Question);
    assert_eq!(classify(&chars_of("^i n:@n")), LineKind::Input);
    assert_eq!(classify(&chars_of("~")), LineKind::Pause);
    assert_eq!(classify(&chars_of("`")), LineKind::Clear);
    assert_eq!(classify(&chars_of("Once upon a time")), LineKind::Text);
}

#[test]
fn load_indexes_labels_and_variables() {
    let story = load(&[":start", "text", "@x=1", ":end", "@bad", ":start", "@name=Ann"]);
    assert_eq!(story.label(&chars_of("start")), Some(5));
    assert_eq!(story.label(&chars_of("end")), Some(3));
    assert_eq!(story.label(&chars_of("text")), None);
    assert_eq!(value_of(&story, "x"), Some("0".to_string()));
    assert_eq!(value_of(&story, "name"), Some("0".to_string()));
    assert_eq!(value_of(&story, "bad"), None);
    assert_eq!(story.index(), 0);
    assert_eq!(story.line_count(), 7);
    assert!(!story.finished());
    assert!(matches!(story.waiting(), Waiting::Nothing));
}

#[test]
fn load_sees_declarations_behind_their_use() {
    let story = load(&["#later", "skipped", ":later", "@late=1"]);
    assert_eq!(story.label(&chars_of("later")), Some(2));
    assert_eq!(value_of(&story, "late"), Some("0".to_string()));
}

#[test]
fn new_machine_is_finished() {
    let mut story = Renderer::new();
    assert!(story.finished());
    assert_eq!(story.line_count(), 0);
    assert!(story.step(Event::Step).unwrap().is_empty());
    assert!(story.finished());
}

#[test]
fn plain_lines_are_put_out_in_order() {
    let told = tell(&["one", "", "* a comment", "|", "two"], &[], 100);
    assert_eq!(told.shown, vec!["one", "", "two"]);
    assert_eq!(told.visited, vec![0, 1, 2, 3, 4]);
    assert!(told.story.finished());
    assert_eq!(told.story.index(), 5);
}

#[test]
fn goto_round_trip_sequences_the_program_counter() {
    let told = tell(&[":a", "#a"], &[], 6);
    assert_eq!(told.visited, vec![0, 1, 0, 1, 0, 1]);
    assert!(told.shown.is_empty());
    assert!(told.fault.is_none());
    assert_eq!(told.story.index(), 0);
}

#[test]
fn goto_jumps_forward_and_falls_through() {
    let told = tell(&["#end", "skipped", ":end", "shown"], &[], 100);
    assert_eq!(told.shown, vec!["shown"]);
    assert_eq!(told.visited, vec![0, 2, 3]);
    assert!(told.story.finished());
}

#[test]
fn goto_strips_its_decoration() {
    let told = tell(&["#:end", "skipped", ":end", "shown"], &[], 100);
    assert_eq!(told.shown, vec!["shown"]);
}

#[test]
fn goto_fails_on_undefined_label() {
    let told = tell(&["first", "#nowhere"], &[], 100);
    let fault = told.fault.unwrap();
    assert_eq!(fault.kind, FaultKind::UndefinedLabel);
    assert_eq!(fault.line, 2);
    assert_eq!(string_of(&fault.text), "nowhere");
    assert_eq!(told.story.index(), 1);
    assert_eq!(told.shown, vec!["first"]);
}

#[test]
fn assignment_round_trip() {
    let told = tell(&["@x=5", "@x"], &[], 100);
    assert_eq!(told.shown, vec!["5"]);
    assert_eq!(value_of(&told.story, "x"), Some("5".to_string()));
    let told = tell(&["@x=2+3", "@x"], &[], 100);
    assert_eq!(told.shown, vec!["5"]);
}

#[test]
fn assignment_keeps_text_that_is_not_arithmetic() {
    let told = tell(&["@name=hello", "say @name!"], &[], 100);
    assert_eq!(told.shown, vec!["say hello!"]);
}

#[test]
fn assignment_interpolates_its_expression() {
    let told = tell(&["@x=4", "@y=(@x+1)*2", "@y and @x"], &[], 100);
    assert_eq!(told.shown, vec!["10 and 4"]);
}

#[test]
fn assignment_fails_on_undeclared_reference() {
    let told = tell(&["@x=4", "@y=@x*2"], &[], 100);
    let fault = told.fault.unwrap();
    assert_eq!(fault.kind, FaultKind::UndeclaredVariable);
    assert_eq!(fault.line, 2);
    assert_eq!(string_of(&fault.text), "x*2");
    assert_eq!(value_of(&told.story, "y"), Some("0".to_string()));
}

#[test]
fn assignment_waits_for_the_arithmetic() {
    let mut story = load(&["@x=1+1"]);
    assert!(story.step(Event::Step).unwrap().is_empty());
    match story.waiting() {
        Waiting::Value { name, text } => {
            assert_eq!(string_of(name), "x");
            assert_eq!(string_of(text), "1+1");
        }
        _ => panic!("the story should wait for a value"),
    }
    assert_eq!(story.index(), 0);
    assert!(story.step(Event::Step).unwrap().is_empty());
    assert_eq!(value_of(&story, "x"), Some("0".to_string()));
    assert!(story.step(Event::Value(Some(chars_of("2")))).unwrap().is_empty());
    assert_eq!(value_of(&story, "x"), Some("2".to_string()));
    assert_eq!(story.index(), 1);
    assert!(story.finished());
}

#[test]
fn malformed_assignment_line_is_put_out() {
    let told = tell(&["@x=1", "@x is the value", "@ alone"], &[], 100);
    assert_eq!(told.shown, vec!["1 is the value", "@ alone"]);
}

#[test]
fn print_fails_on_undeclared_variable() {
    let told = tell(&["fine", "Hello @nobody"], &[], 100);
    let fault = told.fault.unwrap();
    assert_eq!(fault.kind, FaultKind::UndeclaredVariable);
    assert_eq!(fault.line, 2);
    assert_eq!(string_of(&fault.text), "nobody");
}

#[test]
fn conditional_runs_then_branch() {
    let told = tell(&["@x=3", "!@x>2:\"big\":\"small\"", "after"], &[], 100);
    assert_eq!(told.shown, vec!["big", "after"]);
}

#[test]
fn conditional_runs_else_branch() {
    let told = tell(&["@x=1", "!@x>2:\"big\":\"small\"", "after"], &[], 100);
    assert_eq!(told.shown, vec!["small", "after"]);
}

#[test]
fn conditional_without_else_only_advances() {
    let told = tell(&["!1==2:\"never\"", "after"], &[], 100);
    assert_eq!(told.shown, vec!["after"]);
    assert_eq!(told.visited, vec![0, 0, 1]);
}

#[test]
fn conditional_jumps() {
    let told = tell(&["!1==1: #yes : #no", "skipped", ":no", "no", ":yes", "yes"], &[], 100);
    assert_eq!(told.shown, vec!["yes"]);
    let told = tell(&["!1!=1: #yes : #no", "skipped", ":no", "no", "#end", ":yes", "yes", ":end"], &[], 100);
    assert_eq!(told.shown, vec!["no"]);
}

#[test]
fn conditional_assigns() {
    let told = tell(&["@x=1", "!@x==1:@x=@x+41", "@x"], &[], 100);
    assert_eq!(told.shown, vec!["42"]);
}

#[test]
fn conditional_prints_interpolated_text() {
    let told = tell(&["@x=7", "!abc==abc:x is @x"], &[], 100);
    assert_eq!(told.shown, vec!["x is 7"]);
}

#[test]
fn conditional_prints_quoted_text_as_it_stands() {
    let told = tell(&["@x=7", "!1==1:\"x is @x\"\""], &[], 100);
    assert_eq!(told.shown, vec!["x is @x"]);
}

#[test]
fn conditional_fails_on_unterminated_quote() {
    let told = tell(&["!1==1:\"open"], &[], 100);
    let fault = told.fault.unwrap();
    assert_eq!(fault.kind, FaultKind::UnterminatedQuote);
    assert_eq!(fault.line, 1);
    assert_eq!(string_of(&fault.text), "\"open");
    let told = tell(&["!1==1:\""], &[], 100);
    assert_eq!(told.fault.unwrap().kind, FaultKind::UnterminatedQuote);
}

#[test]
fn conditional_fails_on_ordering_of_texts() {
    let told = tell(&["!abc<def:\"x\""], &[], 100);
    let fault = told.fault.unwrap();
    assert_eq!(fault.kind, FaultKind::TypeError);
    assert_eq!(fault.line, 1);
    assert_eq!(string_of(&fault.text), "abc<def");
    assert_eq!(told.story.index(), 0);
    assert!(matches!(told.story.waiting(), Waiting::Numbers { .. }));
}

#[test]
fn conditional_fails_on_malformed_expression() {
    let told = tell(&["!abc:\"x\""], &[], 100);
    let fault = told.fault.unwrap();
    assert_eq!(fault.kind, FaultKind::MalformedExpression);
    assert_eq!(fault.line, 1);
    assert_eq!(string_of(&fault.text), "abc");
}

#[test]
fn conditional_fails_on_wrong_field_count() {
    let told = tell(&["ok", "!1==1"], &[], 100);
    let fault = told.fault.unwrap();
    assert_eq!(fault.kind, FaultKind::MalformedToken { delimiter: ':' });
    assert_eq!(fault.line, 2);
    assert_eq!(string_of(&fault.text), "!1==1");
}

#[test]
fn conditional_assignment_fails_when_undeclared_or_malformed() {
    let told = tell(&["!1==1:@y=3"], &[], 100);
    let fault = told.fault.unwrap();
    assert_eq!(fault.kind, FaultKind::UndeclaredVariable);
    assert_eq!(string_of(&fault.text), "y");
    let told = tell(&["!1==1:@y"], &[], 100);
    let fault = told.fault.unwrap();
    assert_eq!(fault.kind, FaultKind::MalformedToken { delimiter: '=' });
    assert_eq!(string_of(&fault.text), "@y");
}

const MENU: [&str; 8] =
    ["?First:#one", "?Second:#two", ":one", "chose one", "#end", ":two", "chose two", ":end"];

#[test]
fn menu_second_choice_jumps_to_second_target() {
    let told = tell(&MENU, &["2"], 100);
    assert_eq!(told.shown, vec!["1. First", "2. Second", "Enter a number from 1 to 2", "chose two"]);
    assert_eq!(told.visited, vec![0, 2, 5, 6, 7]);
    assert!(told.story.finished());
}

#[test]
fn menu_first_choice_jumps_to_first_target() {
    let told = tell(&MENU, &["1"], 100);
    assert_eq!(told.shown, vec!["1. First", "2. Second", "Enter a number from 1 to 2", "chose one"]);
}

#[test]
fn menu_asks_again_after_unfit_answers() {
    let told = tell(&MENU, &["abc", "0", "3", "", "-1", "1"], 100);
    assert_eq!(
        told.shown,
        vec![
            "1. First",
            "2. Second",
            "Enter a number from 1 to 2",
            "You must use a number",
            "Enter a number from 1 to 2",
            "Enter a number from 1 to 2",
            "Enter a number from 1 to 2",
            "You must use a number",
            "Enter a number from 1 to 2",
            "Enter a number from 1 to 2",
            "chose one",
        ]
    );
}

#[test]
fn menu_waits_behind_its_run() {
    let mut story = load(&MENU);
    story.step(Event::Step).unwrap();
    assert_eq!(story.index(), 2);
    match story.waiting() {
        Waiting::Choice { targets } => {
            let targets: Vec<String> = targets.iter().map(|t| string_of(t)).collect();
            assert_eq!(targets, vec!["one", "two"]);
        }
        _ => panic!("the story should wait for a choice"),
    }
    assert!(story.step(Event::Line(chars_of("x"))).is_ok());
    assert_eq!(story.index(), 2);
    assert!(matches!(story.waiting(), Waiting::Choice { .. }));
}

#[test]
fn menu_at_the_end_of_the_script() {
    let told = tell(&[":a", "?Again:#a", "?Stop:#b"], &["2"], 100);
    let fault = told.fault.unwrap();
    assert_eq!(fault.kind, FaultKind::UndefinedLabel);
    assert_eq!(fault.line, 3);
    assert_eq!(string_of(&fault.text), "b");
}

#[test]
fn menu_fails_on_malformed_option() {
    let told = tell(&["?First:#one", "?Second", ":one"], &["1"], 100);
    let fault = told.fault.unwrap();
    assert_eq!(fault.kind, FaultKind::MalformedToken { delimiter: ':' });
    assert_eq!(fault.line, 2);
    assert_eq!(string_of(&fault.text), "?Second");
    assert_eq!(told.story.index(), 0);
    assert!(told.shown.is_empty());
}

#[test]
fn numeric_input_asks_again_and_keeps_the_variable() {
    let mut story = load(&["@n=0", "^i How many?:@n", "@n"]);
    story.step(Event::Step).unwrap();
    story.step(Event::Value(value_for(&chars_of("0")))).unwrap();
    assert_eq!(show(story.step(Event::Step).unwrap()), vec!["\n How many?"]);
    assert!(matches!(story.waiting(), Waiting::Input { numeric: true, .. }));
    let again = show(story.step(Event::Line(chars_of("abc"))).unwrap());
    assert_eq!(again, vec!["You may only enter in a Number. Please try again.", "\n How many?"]);
    assert_eq!(value_of(&story, "n"), Some("0".to_string()));
    assert_eq!(story.index(), 1);
    assert!(matches!(story.waiting(), Waiting::Input { numeric: true, .. }));
    assert!(story.step(Event::Line(chars_of("12"))).unwrap().is_empty());
    assert_eq!(value_of(&story, "n"), Some("12".to_string()));
    assert_eq!(story.index(), 2);
    assert_eq!(show(story.step(Event::Step).unwrap()), vec!["12"]);
}

#[test]
fn numeric_input_scenario() {
    let told = tell(&["@n=0", "^i How many?:@n", "@n"], &["abc", "1x", "12"], 100);
    assert_eq!(
        told.shown,
        vec![
            "\n How many?",
            "You may only enter in a Number. Please try again.",
            "\n How many?",
            "You may only enter in a Number. Please try again.",
            "\n How many?",
            "12",
        ]
    );
}

#[test]
fn string_input_takes_any_answer() {
    let told = tell(&["@s=0", "^s Name?:@s", "Hi @s"], &["Ann"], 100);
    assert_eq!(told.shown, vec!["\n Name?", "Hi Ann"]);
}

#[test]
fn input_fails_on_invalid_mode() {
    let told = tell(&["@s=0", "^x Name?:@s"], &["Ann"], 100);
    let fault = told.fault.unwrap();
    assert_eq!(fault.kind, FaultKind::InvalidInputMode);
    assert_eq!(fault.line, 2);
    assert_eq!(string_of(&fault.text), "^x Name?:@s");
    let told = tell(&["@s=0", "^:@s"], &["Ann"], 100);
    assert_eq!(told.fault.unwrap().kind, FaultKind::InvalidInputMode);
}

#[test]
fn input_fails_on_undeclared_variable() {
    let told = tell(&["^s Name?:@s"], &["Ann"], 100);
    let fault = told.fault.unwrap();
    assert_eq!(fault.kind, FaultKind::UndeclaredVariable);
    assert_eq!(fault.line, 1);
    assert_eq!(string_of(&fault.text), "s");
}

#[test]
fn input_fails_on_wrong_field_count() {
    let told = tell(&["@s=0", "^s Name?"], &["Ann"], 100);
    let fault = told.fault.unwrap();
    assert_eq!(fault.kind, FaultKind::MalformedToken { delimiter: ':' });
    assert_eq!(fault.line, 2);
}

#[test]
fn pause_waits_then_clears() {
    let told = tell(&["~", "`", "end"], &["anything"], 100);
    assert_eq!(told.shown, vec!["\nPress Enter to Continue.", "<clear>", "<clear>", "end"]);
    assert_eq!(told.visited, vec![0, 0, 1, 2]);
}

#[test]
fn events_that_are_not_awaited_change_nothing() {
    let mut story = load(&["~", "end"]);
    assert!(story.step(Event::Line(chars_of("x"))).unwrap().is_empty());
    assert!(story.step(Event::Value(None)).unwrap().is_empty());
    assert!(story.step(Event::Numbers(None)).unwrap().is_empty());
    assert_eq!(story.index(), 0);
    story.step(Event::Step).unwrap();
    assert!(matches!(story.waiting(), Waiting::Continue));
    assert!(story.step(Event::Step).unwrap().is_empty());
    assert!(matches!(story.waiting(), Waiting::Continue));
    assert_eq!(story.index(), 0);
}

#[test]
fn fault_message_of_a_story() {
    let told = tell(&["first", "#nowhere"], &[], 100);
    assert_eq!(string_of(&told.fault.unwrap().message()), "line 2: undefined label: nowhere");
}
