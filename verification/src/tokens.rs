//! The tokenizers: a line cut into its fields on a delimiter.

use vstd::prelude::*;
use crate::fault::Fault;
use crate::fault::FaultKind;
use crate::fault::FaultView;
use crate::fault::fault;
use crate::text::split;
use crate::text::split_spec;
use crate::text::views;

verus! {

/// The two fields of `line`, where it splits on `delimiter` into exactly two.
pub open spec fn tokenize_spec(line: Seq<char>, delimiter: char) -> Option<(Seq<char>, Seq<char>)> {
    let fields = split_spec(line, seq![delimiter]);
    if fields.len() == 2 {
        Some((fields[0], fields[1]))
    } else {
        None
    }
}

/// The number of fields of `line` and the fields themselves, where it
/// splits on `delimiter` into two or into three. With two fields the third
/// is empty.
pub open spec fn iftokenize_spec(line: Seq<char>, delimiter: char) -> Option<
    (usize, Seq<char>, Seq<char>, Seq<char>),
> {
    let fields = split_spec(line, seq![delimiter]);
    if fields.len() == 2 {
        Some((2usize, fields[0], fields[1], Seq::empty()))
    } else if fields.len() == 3 {
        Some((3usize, fields[0], fields[1], fields[2]))
    } else {
        None
    }
}

/// The fault of a line, numbered `number`, that has the wrong number of
/// fields.
pub open spec fn malformed_token(line: Seq<char>, delimiter: char, number: usize) -> FaultView {
    FaultView { kind: FaultKind::MalformedToken { delimiter }, line: number, text: line }
}

/// The fields of `line` between the occurrences of `delimiter`.
fn fields_of(line: &[char], delimiter: char) -> (r: Vec<Vec<char>>)
    ensures
        views(r@) == split_spec(line@, seq![delimiter]),
{
    let mut pattern: Vec<char> = Vec::new();
    pattern.push(delimiter);
    assert(pattern@ == seq![delimiter]);
    split(line, pattern.as_slice())
}

/// Splits `line` on `delimiter` into exactly two fields. `number` is the
/// number of the line, for the fault.
pub fn tokenize(line: &[char], delimiter: char, number: usize) -> (r: Result<
    (Vec<char>, Vec<char>),
    Fault,
>)
    ensures
        match tokenize_spec(line@, delimiter) {
            Some(fields) => r matches Ok(got) && (got.0@, got.1@) == fields,
            None => r matches Err(f) && f@ == malformed_token(line@, delimiter, number),
        },
{
    let mut fields = fields_of(line, delimiter);
    if fields.len() != 2 {
        return Err(fault(FaultKind::MalformedToken { delimiter }, number, line));
    }
    let ghost all = views(fields@);
    let second = fields.pop().unwrap();
    let first = fields.pop().unwrap();
    assert(first@ == all[0] && second@ == all[1]);
    Ok((first, second))
}

/// Splits `line` on `delimiter` into two or three fields, and says how many
/// there were. `number` is the number of the line, for the fault.
pub fn iftokenize(line: &[char], delimiter: char, number: usize) -> (r: Result<
    (usize, Vec<char>, Vec<char>, Vec<char>),
    Fault,
>)
    ensures
        match iftokenize_spec(line@, delimiter) {
            Some(fields) => r matches Ok(got) && (got.0, got.1@, got.2@, got.3@) == fields,
            None => r matches Err(f) && f@ == malformed_token(line@, delimiter, number),
        },
{
    let mut fields = fields_of(line, delimiter);
    let count = fields.len();
    if count < 2 || count > 3 {
        return Err(fault(FaultKind::MalformedToken { delimiter }, number, line));
    }
    let ghost all = views(fields@);
    let third = if count == 3 {
        fields.pop().unwrap()
    } else {
        Vec::new()
    };
    let second = fields.pop().unwrap();
    let first = fields.pop().unwrap();
    assert(first@ == all[0] && second@ == all[1]);
    assert(count == 3 ==> third@ == all[2]);
    Ok((count, first, second, third))
}

} // verus!
