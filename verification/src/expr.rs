//! Relational expressions: finding the operator, splitting the two sides,
//! and deciding the comparison.
//!
//! The arithmetic on the two sides is done in floating point by the host.
//! What it found comes in as a `Numbers` value, and the decision is taken
//! here for every such value.

use vstd::prelude::*;
use regex::Regex;
use crate::fault::Fault;
use crate::fault::FaultKind;
use crate::fault::FaultView;
use crate::fault::fault;
use crate::text::append;
use crate::text::find;
use crate::text::find_from;
use crate::text::lemma_find_from;
use crate::text::lemma_split_has_a_piece;
use crate::text::same_text;
use crate::text::split;
use crate::text::split_spec;
use crate::text::views;

verus! {

/// The error with which `regex` refuses a pattern.
#[verifier::external_type_specification]
#[verifier::external_body]
pub struct ExRegexError(regex::Error);

/// Whether `regex` accepts `pattern`.
pub uninterp spec fn regex_compiles(pattern: Seq<char>) -> bool;

/// The text of the first match of `pattern` in `text` as `regex` finds it.
pub uninterp spec fn regex_first_match(pattern: Seq<char>, text: Seq<char>) -> Option<Seq<char>>;

/// The model of a text that may be absent.
pub open spec fn option_view(o: Option<Vec<char>>) -> Option<Seq<char>> {
    match o {
        Some(v) => Some(v@),
        None => None,
    }
}

/// `Regex::new` followed by `Regex::find`: compiles `pattern` and hands out
/// the text of its first match in `text`, if there is one. Whether the
/// pattern compiles depends on the pattern alone, and what is found on the
/// pattern and the text alone; the two spec functions above name these.
#[verifier::external_body]
fn find_first(pattern: &str, text: &[char]) -> (r: Result<Option<Vec<char>>, regex::Error>)
    ensures
        r is Ok <==> regex_compiles(pattern@),
        r matches Ok(found) ==> option_view(found) == regex_first_match(pattern@, text@),
{
    let haystack: String = text.iter().collect();
    let re = Regex::new(pattern)?;
    Ok(re.find(&haystack).map(|m| m.as_str().chars().collect()))
}

/// The relational operators, in the order in which the pattern tries them.
#[derive(Clone, Copy, Debug, PartialEq, Eq, Structural)]
pub enum Operator {
    NotEqual,
    Equal,
    AtMost,
    AtLeast,
    Less,
    Greater,
}

impl Operator {
    /// How the operator is written.
    pub open spec fn symbol(self) -> Seq<char> {
        match self {
            Operator::NotEqual => seq!['!', '='],
            Operator::Equal => seq!['=', '='],
            Operator::AtMost => seq!['<', '='],
            Operator::AtLeast => seq!['>', '='],
            Operator::Less => seq!['<'],
            Operator::Greater => seq!['>'],
        }
    }

    /// How the operator is written.
    pub fn text(self) -> (r: Vec<char>)
        ensures
            r@ == self.symbol(),
    {
        let mut out: Vec<char> = Vec::new();
        match self {
            Operator::NotEqual => {
                out.push('!');
                out.push('=');
            },
            Operator::Equal => {
                out.push('=');
                out.push('=');
            },
            Operator::AtMost => {
                out.push('<');
                out.push('=');
            },
            Operator::AtLeast => {
                out.push('>');
                out.push('=');
            },
            Operator::Less => {
                out.push('<');
            },
            Operator::Greater => {
                out.push('>');
            },
        }
        assert(out@ =~= self.symbol());
        out
    }
}

/// The operator that `symbol` writes, if it writes one.
pub open spec fn operator_of(symbol: Seq<char>) -> Option<Operator> {
    if symbol == Operator::NotEqual.symbol() {
        Some(Operator::NotEqual)
    } else if symbol == Operator::Equal.symbol() {
        Some(Operator::Equal)
    } else if symbol == Operator::AtMost.symbol() {
        Some(Operator::AtMost)
    } else if symbol == Operator::AtLeast.symbol() {
        Some(Operator::AtLeast)
    } else if symbol == Operator::Less.symbol() {
        Some(Operator::Less)
    } else if symbol == Operator::Greater.symbol() {
        Some(Operator::Greater)
    } else {
        None
    }
}

/// The operator that `symbol` writes, if it writes one.
pub fn parse_operator(symbol: &[char]) -> (r: Option<Operator>)
    ensures
        r == operator_of(symbol@),
{
    let candidates = [
        Operator::NotEqual,
        Operator::Equal,
        Operator::AtMost,
        Operator::AtLeast,
        Operator::Less,
        Operator::Greater,
    ];
    let mut i: usize = 0;
    while i < 6
        invariant
            i <= 6,
            candidates@ == seq![
                Operator::NotEqual,
                Operator::Equal,
                Operator::AtMost,
                Operator::AtLeast,
                Operator::Less,
                Operator::Greater,
            ],
            forall|j: int| 0 <= j < i ==> symbol@ != (#[trigger] candidates@[j]).symbol(),
        decreases 6 - i,
    {
        let written = candidates[i].text();
        if same_text(symbol, written.as_slice()) {
            return Some(candidates[i]);
        }
        i += 1;
    }
    assert(symbol@ != candidates@[0].symbol());
    assert(symbol@ != candidates@[1].symbol());
    assert(symbol@ != candidates@[2].symbol());
    assert(symbol@ != candidates@[3].symbol());
    assert(symbol@ != candidates@[4].symbol());
    assert(symbol@ != candidates@[5].symbol());
    None
}

/// The pattern that finds the operator of an expression.
pub open spec fn operator_pattern() -> Seq<char> {
    "!=|==|<=|>=|<|>"@
}

/// The operator that the pattern finds in `text`: the first match of the
/// pattern as `regex` searches for it, and none where `regex` refuses the
/// pattern.
pub open spec fn located_operator(text: Seq<char>) -> Option<Seq<char>> {
    if regex_compiles(operator_pattern()) {
        regex_first_match(operator_pattern(), text)
    } else {
        None
    }
}

/// Whether `operator` is written somewhere in `text`.
pub open spec fn writes(text: Seq<char>, operator: Operator) -> bool {
    find_from(text, operator.symbol(), 0) is Some
}

/// Whether a relational operator is written somewhere in `text`.
pub open spec fn holds_operator(text: Seq<char>) -> bool {
    writes(text, Operator::NotEqual) || writes(text, Operator::Equal) || writes(
        text,
        Operator::AtMost,
    ) || writes(text, Operator::AtLeast) || writes(text, Operator::Less) || writes(
        text,
        Operator::Greater,
    )
}

/// Whether `operator` is written somewhere in `text`.
fn is_written(text: &[char], operator: Operator) -> (r: bool)
    ensures
        r == writes(text@, operator),
{
    let symbol = operator.text();
    find(text, symbol.as_slice(), 0).is_some()
}

/// Whether a relational operator is written somewhere in `text`.
pub fn has_operator(text: &[char]) -> (r: bool)
    ensures
        r == holds_operator(text@),
{
    is_written(text, Operator::NotEqual) || is_written(text, Operator::Equal) || is_written(
        text,
        Operator::AtMost,
    ) || is_written(text, Operator::AtLeast) || is_written(text, Operator::Less) || is_written(
        text,
        Operator::Greater,
    )
}

/// The two sides and the operator of `text`, given the operator that was
/// found in it. `text` must hold exactly one operator: it must split on the
/// one that was found into exactly two sides, and neither side may hold an
/// operator of its own.
pub open spec fn expression_of(text: Seq<char>, found: Option<Seq<char>>) -> Option<
    (Seq<char>, Operator, Seq<char>),
> {
    match found {
        Some(symbol) => match operator_of(symbol) {
            Some(operator) => {
                let sides = split_spec(text, symbol);
                if sides.len() == 2 && !holds_operator(sides[0]) && !holds_operator(sides[1]) {
                    Some((sides[0], operator, sides[1]))
                } else {
                    None
                }
            },
            None => None,
        },
        None => None,
    }
}

/// The model of an expression.
pub open spec fn expression_view(e: (Vec<char>, Operator, Vec<char>)) -> (
    Seq<char>,
    Operator,
    Seq<char>,
) {
    (e.0@, e.1, e.2@)
}

/// Splits `text` into its two sides on the operator `found` in it. Fails
/// with `MalformedExpression` where nothing was found, where what was found
/// is no operator, and where `text` holds more than the one operator.
pub fn expression_from(text: &[char], found: Option<Vec<char>>, line: usize) -> (r: Result<
    (Vec<char>, Operator, Vec<char>),
    Fault,
>)
    ensures
        match expression_of(text@, option_view(found)) {
            Some(e) => r matches Ok(got) && expression_view(got) == e,
            None => r matches Err(f) && f@ == (FaultView {
                kind: FaultKind::MalformedExpression,
                line,
                text: text@,
            }),
        },
{
    let symbol = match found {
        Some(symbol) => symbol,
        None => {
            return Err(fault(FaultKind::MalformedExpression, line, text));
        },
    };
    let operator = match parse_operator(symbol.as_slice()) {
        Some(operator) => operator,
        None => {
            return Err(fault(FaultKind::MalformedExpression, line, text));
        },
    };
    let mut sides = split(text, symbol.as_slice());
    if sides.len() != 2 {
        return Err(fault(FaultKind::MalformedExpression, line, text));
    }
    let ghost both = views(sides@);
    let right = sides.pop().unwrap();
    let left = sides.pop().unwrap();
    assert(left@ == both[0] && right@ == both[1]);
    if has_operator(left.as_slice()) || has_operator(right.as_slice()) {
        return Err(fault(FaultKind::MalformedExpression, line, text));
    }
    Ok((left, operator, right))
}

/// An expression holds exactly one operator: the text is the left side,
/// the operator that was found and the right side, one after the other,
/// and neither side holds an operator.
pub proof fn law_expression_has_one_operator(text: Seq<char>, found: Option<Seq<char>>)
    requires
        expression_of(text, found) is Some,
    ensures
        ({
            let e = expression_of(text, found)->Some_0;
            &&& found == Some(e.1.symbol())
            &&& text == e.0 + e.1.symbol() + e.2
            &&& !holds_operator(e.0)
            &&& !holds_operator(e.2)
        }),
{
    let symbol = found->Some_0;
    let e = expression_of(text, found)->Some_0;
    assert(symbol == e.1.symbol());
    assert(symbol.len() > 0);
    lemma_find_from(text, symbol, 0);
    let at = find_from(text, symbol, 0)->Some_0;
    let rest = at + symbol.len();
    lemma_split_has_a_piece(text, symbol, rest);
    lemma_find_from(text, symbol, rest);
    match find_from(text, symbol, rest) {
        Some(next) => {
            lemma_split_has_a_piece(text, symbol, next + symbol.len());
        },
        None => {},
    }
    assert(e.0 == text.subrange(0, at));
    assert(e.2 == text.subrange(rest, text.len() as int));
    assert(text.subrange(at, rest) == symbol);
    assert(text =~= e.0 + symbol + e.2);
}

/// Finds the operator of `text` and splits `text` on it into its two sides.
pub fn get_expression(text: &[char], line: usize) -> (r: Result<
    (Vec<char>, Operator, Vec<char>),
    Fault,
>)
    ensures
        match expression_of(text@, located_operator(text@)) {
            Some(e) => r matches Ok(got) && expression_view(got) == e,
            None => r matches Err(f) && f@ == (FaultView {
                kind: FaultKind::MalformedExpression,
                line,
                text: text@,
            }),
        },
{
    match find_first("!=|==|<=|>=|<|>", text) {
        Ok(found) => expression_from(text, found, line),
        Err(_) => Err(fault(FaultKind::MalformedExpression, line, text)),
    }
}

/// How the left side of a comparison stands to the right one as a number.
#[derive(Clone, Copy, Debug, PartialEq, Eq, Structural)]
pub enum Order {
    Less,
    Equal,
    Greater,
    /// Neither less, equal nor greater: one of the two is not a number in
    /// the arithmetic's own sense.
    Unordered,
}

/// What the arithmetic found of two sides that both evaluate to a number.
#[derive(Clone, Copy, Debug, PartialEq, Eq, Structural)]
pub struct Numbers {
    /// The two values are equal within the tolerance.
    pub close: bool,
    /// How the left value stands to the right one.
    pub order: Order,
}

/// The tolerance of a numeric equality, in units in the last place. The
/// absolute tolerance is zero.
pub const TOLERANCE_ULPS: i64 = 16;

/// What a comparison says. `numbers` is `None` where a side is not a number:
/// the sides are then compared as texts, and ordered they cannot be.
pub open spec fn verdict(
    left: Seq<char>,
    operator: Operator,
    right: Seq<char>,
    numbers: Option<Numbers>,
) -> Option<bool> {
    match numbers {
        Some(n) => Some(
            match operator {
                Operator::Equal => n.close,
                Operator::NotEqual => !n.close,
                Operator::AtMost => n.order == Order::Less || n.order == Order::Equal,
                Operator::AtLeast => n.order == Order::Greater || n.order == Order::Equal,
                Operator::Less => n.order == Order::Less,
                Operator::Greater => n.order == Order::Greater,
            },
        ),
        None => match operator {
            Operator::Equal => Some(left == right),
            Operator::NotEqual => Some(left != right),
            _ => None,
        },
    }
}

/// Decides the comparison of `left` and `right` by `operator`. Fails with
/// `TypeError`, about the whole expression, where an ordering is asked of
/// sides that are not both numbers.
pub fn compare(
    left: &[char],
    operator: Operator,
    right: &[char],
    numbers: Option<Numbers>,
    line: usize,
) -> (r: Result<bool, Fault>)
    ensures
        match verdict(left@, operator, right@, numbers) {
            Some(b) => r == Ok::<bool, Fault>(b),
            None => r matches Err(f) && f@ == (FaultView {
                kind: FaultKind::TypeError,
                line,
                text: left@ + operator.symbol() + right@,
            }),
        },
{
    match numbers {
        Some(n) => Ok(
            match operator {
                Operator::Equal => n.close,
                Operator::NotEqual => !n.close,
                Operator::AtMost => matches!(n.order, Order::Less | Order::Equal),
                Operator::AtLeast => matches!(n.order, Order::Greater | Order::Equal),
                Operator::Less => matches!(n.order, Order::Less),
                Operator::Greater => matches!(n.order, Order::Greater),
            },
        ),
        None => match operator {
            Operator::Equal => Ok(same_text(left, right)),
            Operator::NotEqual => Ok(!same_text(left, right)),
            _ => {
                let mut whole: Vec<char> = Vec::new();
                append(&mut whole, left);
                let written = operator.text();
                append(&mut whole, written.as_slice());
                append(&mut whole, right);
                Err(fault(FaultKind::TypeError, line, whole.as_slice()))
            },
        },
    }
}

/// The value of an assignment: what the arithmetic computed from `text`,
/// written out, and `text` itself where it computed nothing.
pub open spec fn evaluate_spec(text: Seq<char>, computed: Option<Seq<char>>) -> Seq<char> {
    match computed {
        Some(number) => number,
        None => text,
    }
}

/// The value that an assignment of `text` stores.
pub fn evaluate(text: Vec<char>, computed: Option<Vec<char>>) -> (r: Vec<char>)
    ensures
        r@ == evaluate_spec(text@, option_view(computed)),
{
    match computed {
        Some(number) => number,
        None => text,
    }
}

} // verus!
