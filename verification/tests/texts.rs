use story_engine::fault::FaultKind;
use story_engine::interpolate::is_boundary;
use story_engine::interpolate::parse_variables;
use story_engine::numeral::decimal_text;
use story_engine::numeral::read_answer;
use story_engine::numeral::Answer;
use story_engine::store::Labels;
use story_engine::store::Variables;
use story_engine::text::after_first;
use story_engine::text::chars_of;
use story_engine::text::find;
use story_engine::text::has_alphabetic;
use story_engine::text::join;
use story_engine::text::replace;
use story_engine::text::same_text;
use story_engine::text::split;
use story_engine::text::string_of;
use story_engine::text::strip_end;
use story_engine::text::trim;
use story_engine::text::without;
use story_engine::tokens::iftokenize;
use story_engine::tokens::tokenize;

fn tc(s: &str) -> Vec<char> {
    chars_of(s)
}

fn ts(t: &[char]) -> String {
    string_of(t)
}

fn pieces(text: &str, pattern: &str) -> Vec<String> {
    split(&tc(text), &tc(pattern)).iter().map(|p| ts(p)).collect()
}

#[test]
fn chars_and_strings_round_trip() {
    assert_eq!(tc("héllo"), vec!['h', 'é', 'l', 'l', 'o']);
    assert_eq!(ts(&tc("héllo wörld")), "héllo wörld");
    assert_eq!(ts(&tc("")), "");
}

#[test]
fn same_text_compares_characters() {
    assert!(same_text(&tc("abc"), &tc("abc")));
    assert!(!same_text(&tc("abc"), &tc("abd")));
    assert!(!same_text(&tc("abc"), &tc("ab")));
    assert!(same_text(&tc(""), &tc("")));
}

#[test]
fn find_gives_first_occurrence() {
    assert_eq!(find(&tc("a==b==c"), &tc("=="), 0), Some(1));
    assert_eq!(find(&tc("a==b==c"), &tc("=="), 2), Some(4));
    assert_eq!(find(&tc("a==b==c"), &tc("=="), 5), None);
    assert_eq!(find(&tc("abc"), &tc("abcd"), 0), None);
    assert_eq!(find(&tc("abc"), &tc("c"), 2), Some(2));
}

#[test]
fn split_cuts_at_each_occurrence() {
    assert_eq!(pieces("a:b:c", ":"), vec!["a", "b", "c"]);
    assert_eq!(pieces("a::b", ":"), vec!["a", "", "b"]);
    assert_eq!(pieces(":a", ":"), vec!["", "a"]);
    assert_eq!(pieces("a:", ":"), vec!["a", ""]);
    assert_eq!(pieces("", ":"), vec![""]);
    assert_eq!(pieces("abc", ":"), vec!["abc"]);
    assert_eq!(pieces("aaa", "aa"), vec!["", "a"]);
    assert_eq!(pieces("1<=2", "<="), vec!["1", "2"]);
}

#[test]
fn split_on_empty_pattern_keeps_the_text() {
    assert_eq!(pieces("abc", ""), vec!["abc"]);
}

#[test]
fn join_puts_separator_between() {
    let parts = vec![tc("a"), tc("b"), tc("c")];
    assert_eq!(ts(&join(&parts, &tc(", "))), "a, b, c");
    assert_eq!(ts(&join(&vec![tc("a")], &tc(", "))), "a");
    assert_eq!(ts(&join(&Vec::new(), &tc(", "))), "");
}

#[test]
fn replace_replaces_every_occurrence() {
    assert_eq!(ts(&replace(&tc("@x and @x"), &tc("@x"), &tc("5"))), "5 and 5");
    assert_eq!(ts(&replace(&tc("nothing"), &tc("@x"), &tc("5"))), "nothing");
    assert_eq!(ts(&replace(&tc("aaa"), &tc("aa"), &tc("b"))), "ba");
}

#[test]
fn without_removes_a_character() {
    assert_eq!(ts(&without(&tc("#a#b#"), '#')), "ab");
    assert_eq!(ts(&without(&tc("plain"), '#')), "plain");
}

#[test]
fn trim_removes_white_space_at_both_ends() {
    assert_eq!(ts(&trim(&tc("  #label \t"))), "#label");
    assert_eq!(ts(&trim(&tc("a b"))), "a b");
    assert_eq!(ts(&trim(&tc("   "))), "");
    assert_eq!(ts(&trim(&tc(""))), "");
    assert_eq!(ts(&trim(&tc("\u{a0}x\u{2003}"))), "x");
}

#[test]
fn strip_end_removes_trailing_run() {
    assert_eq!(ts(&strip_end(&tc("hi\"\""), '"')), "hi");
    assert_eq!(ts(&strip_end(&tc("\"hi"), '"')), "\"hi");
    assert_eq!(ts(&strip_end(&tc("\"\""), '"')), "");
}

#[test]
fn after_first_drops_the_marker() {
    assert_eq!(ts(&after_first(&tc(":start"))), "start");
    assert_eq!(ts(&after_first(&tc("@"))), "");
    assert_eq!(ts(&after_first(&tc(""))), "");
}

#[test]
fn has_alphabetic_finds_letters() {
    assert!(has_alphabetic(&tc("abc")));
    assert!(has_alphabetic(&tc("12a")));
    assert!(has_alphabetic(&tc("é")));
    assert!(!has_alphabetic(&tc("123")));
    assert!(!has_alphabetic(&tc("-1.5 ")));
    assert!(!has_alphabetic(&tc("")));
}

#[test]
fn decimal_text_writes_numerals() {
    assert_eq!(ts(&decimal_text(0)), "0");
    assert_eq!(ts(&decimal_text(7)), "7");
    assert_eq!(ts(&decimal_text(10)), "10");
    assert_eq!(ts(&decimal_text(12345)), "12345");
    assert_eq!(ts(&decimal_text(usize::MAX)), usize::MAX.to_string());
}

#[test]
fn read_answer_picks_options() {
    assert_eq!(read_answer(&tc("1"), 2), Answer::Pick(1));
    assert_eq!(read_answer(&tc("2"), 2), Answer::Pick(2));
    assert_eq!(read_answer(&tc("+2"), 2), Answer::Pick(2));
    assert_eq!(read_answer(&tc("002"), 2), Answer::Pick(2));
}

#[test]
fn read_answer_rejects_out_of_range() {
    assert_eq!(read_answer(&tc("0"), 2), Answer::OutOfRange);
    assert_eq!(read_answer(&tc("3"), 2), Answer::OutOfRange);
    assert_eq!(read_answer(&tc("-1"), 2), Answer::OutOfRange);
    assert_eq!(read_answer(&tc("99999999999999999999999999999999"), 2), Answer::OutOfRange);
    assert_eq!(read_answer(&tc("1"), 0), Answer::OutOfRange);
}

#[test]
fn read_answer_rejects_what_is_no_number() {
    assert_eq!(read_answer(&tc("abc"), 2), Answer::Unreadable);
    assert_eq!(read_answer(&tc(""), 2), Answer::Unreadable);
    assert_eq!(read_answer(&tc("+"), 2), Answer::Unreadable);
    assert_eq!(read_answer(&tc("1.0"), 2), Answer::Unreadable);
    assert_eq!(read_answer(&tc(" 1"), 2), Answer::Unreadable);
    assert_eq!(read_answer(&tc("1a"), 2), Answer::Unreadable);
}

#[test]
fn tokenize_splits_into_two_fields() {
    let (left, right) = tokenize(&tc("@x=2+3"), '=', 1).unwrap();
    assert_eq!(ts(&left), "@x");
    assert_eq!(ts(&right), "2+3");
    let (left, right) = tokenize(&tc("=5"), '=', 1).unwrap();
    assert_eq!(ts(&left), "");
    assert_eq!(ts(&right), "5");
}

#[test]
fn tokenize_fails_on_other_counts() {
    let fault = tokenize(&tc("@x"), '=', 4).unwrap_err();
    assert_eq!(fault.kind, FaultKind::MalformedToken { delimiter: '=' });
    assert_eq!(fault.line, 4);
    assert_eq!(ts(&fault.text), "@x");
    let fault = tokenize(&tc("a=b=c"), '=', 9).unwrap_err();
    assert_eq!(fault.kind, FaultKind::MalformedToken { delimiter: '=' });
    assert_eq!(fault.line, 9);
    assert_eq!(ts(&fault.text), "a=b=c");
}

#[test]
fn iftokenize_takes_two_or_three_fields() {
    let (count, a, b, c) = iftokenize(&tc("!1==1:#yes"), ':', 1).unwrap();
    assert_eq!(count, 2);
    assert_eq!((ts(&a), ts(&b), ts(&c)), ("!1==1".to_string(), "#yes".to_string(), "".to_string()));
    let (count, a, b, c) = iftokenize(&tc("!1==1:#yes:#no"), ':', 1).unwrap();
    assert_eq!(count, 3);
    assert_eq!(
        (ts(&a), ts(&b), ts(&c)),
        ("!1==1".to_string(), "#yes".to_string(), "#no".to_string())
    );
}

#[test]
fn iftokenize_fails_on_other_counts() {
    let fault = iftokenize(&tc("!1==1"), ':', 3).unwrap_err();
    assert_eq!(fault.kind, FaultKind::MalformedToken { delimiter: ':' });
    assert_eq!(fault.line, 3);
    assert_eq!(ts(&fault.text), "!1==1");
    let fault = iftokenize(&tc("!a:b:c:d"), ':', 3).unwrap_err();
    assert_eq!(fault.kind, FaultKind::MalformedToken { delimiter: ':' });
}

#[test]
fn variables_declare_get_set() {
    let mut vars = Variables::new();
    assert!(!vars.contains(&tc("x")));
    vars.declare(&tc("x"));
    assert!(vars.contains(&tc("x")));
    assert_eq!(ts(&vars.get(&tc("x"), 1).unwrap()), "0");
    vars.set(&tc("x"), tc("hello"), 1).unwrap();
    assert_eq!(ts(&vars.get(&tc("x"), 1).unwrap()), "hello");
    vars.declare(&tc("y"));
    vars.set(&tc("y"), tc("7"), 1).unwrap();
    assert_eq!(ts(&vars.get(&tc("x"), 1).unwrap()), "hello");
    assert_eq!(ts(&vars.get(&tc("y"), 1).unwrap()), "7");
    vars.declare(&tc("x"));
    assert_eq!(ts(&vars.get(&tc("x"), 1).unwrap()), "0");
    assert_eq!(ts(&vars.get(&tc("y"), 1).unwrap()), "7");
}

#[test]
fn variables_fail_when_undeclared() {
    let mut vars = Variables::new();
    vars.declare(&tc("x"));
    let fault = vars.get(&tc("y"), 12).unwrap_err();
    assert_eq!(fault.kind, FaultKind::UndeclaredVariable);
    assert_eq!(fault.line, 12);
    assert_eq!(ts(&fault.text), "y");
    let fault = vars.set(&tc("y"), tc("1"), 13).unwrap_err();
    assert_eq!(fault.kind, FaultKind::UndeclaredVariable);
    assert_eq!(fault.line, 13);
    assert!(!vars.contains(&tc("y")));
    assert_eq!(ts(&vars.get(&tc("x"), 1).unwrap()), "0");
}

#[test]
fn labels_last_binding_counts() {
    let mut labels = Labels::new();
    assert_eq!(labels.get(&tc("a")), None);
    labels.insert(&tc("a"), 3);
    labels.insert(&tc("b"), 5);
    assert_eq!(labels.get(&tc("a")), Some(3));
    labels.insert(&tc("a"), 9);
    assert_eq!(labels.get(&tc("a")), Some(9));
    assert_eq!(labels.get(&tc("b")), Some(5));
}

#[test]
fn boundary_characters_end_a_name() {
    for c in "+-<>=().!#:;^/\\@[]".chars() {
        assert!(is_boundary(c));
    }
    for c in " \t\n\r\u{a0}\u{2003}\u{3000}".chars() {
        assert!(is_boundary(c));
    }
    for c in "aZ09_,\0\"'?*|~`".chars() {
        assert!(!is_boundary(c));
    }
}

fn names(text: &str) -> Vec<String> {
    parse_variables(&tc(text)).iter().map(|n| ts(n)).collect()
}

#[test]
fn parse_variables_finds_references_in_order() {
    assert_eq!(names("Hello @name, you are @age."), vec!["name,", "age"]);
    assert_eq!(names("@a+@b==@c"), vec!["a", "b", "c"]);
    assert_eq!(names("no references"), Vec::<String>::new());
    assert_eq!(names(""), Vec::<String>::new());
}

#[test]
fn parse_variables_ends_names_at_white_space() {
    assert_eq!(names("@a\tb"), vec!["a"]);
    assert_eq!(names("@a\u{a0}@b\n@c d"), vec!["a", "b", "c"]);
    assert_eq!(names("@\tx"), Vec::<String>::new());
    assert_eq!(names("@a\0b"), vec!["a\0b"]);
}

#[test]
fn parse_variables_keeps_each_name_once() {
    assert_eq!(names("@x @y @x @y @z"), vec!["x", "y", "z"]);
}

#[test]
fn parse_variables_skips_bare_markers() {
    assert_eq!(names("a@ b @x"), vec!["x"]);
    assert_eq!(names("@@x"), vec!["x"]);
    assert_eq!(names("mail@"), Vec::<String>::new());
    assert_eq!(names("@"), Vec::<String>::new());
}

#[test]
fn interpolate_substitutes_values() {
    let mut vars = Variables::new();
    vars.declare(&tc("x"));
    vars.declare(&tc("name"));
    vars.set(&tc("x"), tc("5"), 1).unwrap();
    vars.set(&tc("name"), tc("Ann"), 1).unwrap();
    assert_eq!(ts(&vars.interpolate(&tc("@name has @x and @x."), 1).unwrap()), "Ann has 5 and 5.");
    assert_eq!(ts(&vars.interpolate(&tc("@x+1==6"), 1).unwrap()), "5+1==6");
}

#[test]
fn interpolate_leaves_no_marker() {
    let mut vars = Variables::new();
    for (name, value) in [("a", "1"), ("b", "two"), ("c", "3"), ("ab", "4")] {
        vars.declare(&tc(name));
        vars.set(&tc(name), tc(value), 1).unwrap();
    }
    let done = ts(&vars.interpolate(&tc("@a; @b and @a+@b; (@c)"), 1).unwrap());
    assert_eq!(done, "1; two and 1+two; (3)");
    assert!(!done.contains('@'));
    assert!(parse_variables(&tc(&done)).is_empty());
    assert_eq!(ts(&vars.interpolate(&tc("@a @ab"), 1).unwrap()), "1 1b");
}

#[test]
fn interpolate_keeps_text_without_references() {
    let mut vars = Variables::new();
    vars.declare(&tc("x"));
    assert_eq!(ts(&vars.interpolate(&tc("plain text"), 1).unwrap()), "plain text");
    assert_eq!(ts(&vars.interpolate(&tc(""), 1).unwrap()), "");
    assert_eq!(ts(&vars.interpolate(&tc("a@ b"), 1).unwrap()), "a@ b");
    let once = vars.interpolate(&tc("twice the same"), 1).unwrap();
    assert_eq!(ts(&vars.interpolate(&once, 1).unwrap()), "twice the same");
}

#[test]
fn interpolate_fails_on_undeclared_reference() {
    let mut vars = Variables::new();
    vars.declare(&tc("x"));
    let fault = vars.interpolate(&tc("@x and @missing and @other"), 8).unwrap_err();
    assert_eq!(fault.kind, FaultKind::UndeclaredVariable);
    assert_eq!(fault.line, 8);
    assert_eq!(ts(&fault.text), "missing");
}

#[test]
fn fault_message_names_line_and_text() {
    let fault = tokenize(&tc("@x"), '=', 4).unwrap_err();
    assert_eq!(ts(&fault.message()), "line 4: wrong number of fields between =: @x");
    let vars = Variables::new();
    let fault = vars.get(&tc("y"), 12).unwrap_err();
    assert_eq!(ts(&fault.message()), "line 12: undeclared variable: y");
}
