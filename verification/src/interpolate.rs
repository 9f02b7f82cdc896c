//! Interpolation: the references to variables in a text, and the text with
//! the values put in their place.
//!
//! A reference is the marker `@` followed by a name, and a name is a run of
//! characters, as long as it can be and not empty, that holds no boundary
//! character.

use vstd::prelude::*;
use crate::fault::Fault;
use crate::fault::FaultView;
use crate::store::Variables;
use crate::store::undeclared;
use crate::text::append;
use crate::text::copy_range;
use crate::text::find_from;
use crate::text::is_whitespace;
use crate::text::join_spec;
use crate::text::occurs_at;
use crate::text::replace;
use crate::text::replace_spec;
use crate::text::split_from;
use crate::text::split_spec;
use crate::text::same_text;
use crate::text::views;
use crate::text::whitespace;

verus! {

/// The characters that end a name: white space, and the characters
/// `+ - < > = ( ) . ! # : ; ^ / \ @ [ ]`.
pub open spec fn boundary(c: char) -> bool {
    whitespace(c) || c == '+' || c == '-' || c == '<' || c == '>' || c == '=' || c == '(' || c
        == ')' || c == '.' || c == '!' || c == '#' || c == ':' || c == ';' || c == '^' || c == '/'
        || c == '\\' || c == '@' || c == '[' || c == ']'
}

/// Whether `c` ends a name.
pub fn is_boundary(c: char) -> (r: bool)
    ensures
        r == boundary(c),
{
    is_whitespace(c) || c == '+' || c == '-' || c == '<' || c == '>' || c == '=' || c == '(' || c
        == ')' || c == '.' || c == '!' || c == '#' || c == ':' || c == ';' || c == '^' || c == '/'
        || c == '\\' || c == '@' || c == '[' || c == ']'
}

/// Where the run of name characters that begins at `from` ends.
pub open spec fn name_end(text: Seq<char>, from: int) -> int
    decreases text.len() - from,
{
    if from < 0 || from >= text.len() || boundary(text[from]) {
        from
    } else {
        name_end(text, from + 1)
    }
}

/// The names referenced in `text` from position `from` on, in the order in
/// which they stand there.
pub open spec fn references_from(text: Seq<char>, from: int) -> Seq<Seq<char>>
    decreases text.len() - from,
{
    if from < 0 || from >= text.len() {
        Seq::empty()
    } else if text[from] == '@' {
        let end = name_end(text, from + 1);
        if from + 1 < end <= text.len() {
            seq![text.subrange(from + 1, end)] + references_from(text, end)
        } else {
            references_from(text, from + 1)
        }
    } else {
        references_from(text, from + 1)
    }
}

/// The names referenced in `text`, in the order in which they stand there.
pub open spec fn references(text: Seq<char>) -> Seq<Seq<char>> {
    references_from(text, 0)
}

/// `names` with each name kept where it stands first and dropped where it
/// comes again.
pub open spec fn distinct(names: Seq<Seq<char>>) -> Seq<Seq<char>>
    decreases names.len(),
{
    if names.len() == 0 {
        Seq::empty()
    } else {
        let before = distinct(names.drop_last());
        if before.contains(names.last()) {
            before
        } else {
            before.push(names.last())
        }
    }
}

/// Whether `list` holds `name`.
fn holds(list: &Vec<Vec<char>>, name: &[char]) -> (r: bool)
    ensures
        r == views(list@).contains(name@),
{
    let mut i: usize = 0;
    while i < list.len()
        invariant
            i <= list.len(),
            forall|j: int| 0 <= j < i ==> (#[trigger] views(list@)[j]) != name@,
        decreases list.len() - i,
    {
        if same_text(list[i].as_slice(), name) {
            assert(views(list@)[i as int] == name@);
            return true;
        }
        i += 1;
    }
    false
}

/// The names that `text` references, each once, in the order in which they
/// are first met.
pub fn parse_variables(text: &[char]) -> (r: Vec<Vec<char>>)
    ensures
        views(r@) == distinct(references(text@)),
{
    let n: usize = text.len();
    let mut out: Vec<Vec<char>> = Vec::new();
    let ghost mut met: Seq<Seq<char>> = Seq::empty();
    let mut at: usize = 0;
    assert(views(out@) == distinct(met));
    while at < n
        invariant
            n == text.len(),
            at <= n,
            references(text@) == met + references_from(text@, at as int),
            views(out@) == distinct(met),
        decreases n - at,
    {
        if text[at] != '@' {
            at += 1;
            continue;
        }
        let mut end: usize = at + 1;
        while end < n && !is_boundary(text[end])
            invariant
                n == text.len(),
                at + 1 <= end <= n,
                name_end(text@, at + 1) == name_end(text@, end as int),
            decreases n - end,
        {
            end += 1;
        }
        if end == at + 1 {
            at += 1;
            continue;
        }
        let name = copy_range(text, at + 1, end);
        let ghost before = views(out@);
        assert(met.push(name@) + references_from(text@, end as int) == met + (seq![name@]
            + references_from(text@, end as int)));
        assert(met.push(name@).drop_last() == met);
        if !holds(&out, name.as_slice()) {
            out.push(name);
            assert(views(out@) == before.push(name@));
        }
        proof {
            met = met.push(name@);
        }
        at = end;
    }
    assert(met + Seq::<Seq<char>>::empty() == met);
    out
}

/// How a reference to `name` is written.
pub open spec fn reference_to(name: Seq<char>) -> Seq<char> {
    seq!['@'] + name
}

/// `text` after the references to each of `names`, one name after the other
/// in their order, have been replaced by the value of the name.
pub open spec fn substitute(
    text: Seq<char>,
    names: Seq<Seq<char>>,
    values: Map<Seq<char>, Seq<char>>,
) -> Seq<char>
    decreases names.len(),
{
    if names.len() == 0 {
        text
    } else {
        replace_spec(
            substitute(text, names.drop_last(), values),
            reference_to(names.last()),
            values[names.last()],
        )
    }
}

/// The first of `names`, from position `from` on, that has no value.
pub open spec fn first_undeclared(
    names: Seq<Seq<char>>,
    values: Map<Seq<char>, Seq<char>>,
    from: int,
) -> Option<Seq<char>>
    decreases names.len() - from,
{
    if from < 0 || from >= names.len() {
        None
    } else if !values.contains_key(names[from]) {
        Some(names[from])
    } else {
        first_undeclared(names, values, from + 1)
    }
}

/// `text` with the values of the variables it references put in. Where a
/// referenced name has no value, the fault of the first such name.
pub open spec fn interpolation(
    text: Seq<char>,
    values: Map<Seq<char>, Seq<char>>,
    line: usize,
) -> Result<Seq<char>, FaultView> {
    let names = distinct(references(text));
    match first_undeclared(names, values, 0) {
        Some(name) => Err(undeclared(name, line)),
        None => Ok(substitute(text, names, values)),
    }
}

impl Variables {
    /// Puts the values of the variables that `text` references in their
    /// place. Fails with `UndeclaredVariable`, about the first referenced
    /// name that is not declared; `line` is the line to report.
    pub fn interpolate(&self, text: &[char], line: usize) -> (r: Result<Vec<char>, Fault>)
        ensures
            match interpolation(text@, self@, line) {
                Ok(done) => r matches Ok(got) && got@ == done,
                Err(f) => r matches Err(got) && got@ == f,
            },
    {
        let names = parse_variables(text);
        let mut out: Vec<char> = copy_range(text, 0, text.len());
        assert(out@ == text@);
        let mut i: usize = 0;
        while i < names.len()
            invariant
                i <= names.len(),
                views(names@) == distinct(references(text@)),
                out@ == substitute(text@, views(names@).take(i as int), self@),
                first_undeclared(views(names@), self@, 0) == first_undeclared(
                    views(names@),
                    self@,
                    i as int,
                ),
            decreases names.len() - i,
        {
            let name = names[i].as_slice();
            assert(views(names@)[i as int] == name@);
            let value = match self.get(name, line) {
                Ok(value) => value,
                Err(f) => {
                    return Err(f);
                },
            };
            let mut reference: Vec<char> = Vec::new();
            reference.push('@');
            append(&mut reference, name);
            assert(reference@ == reference_to(name@));
            assert(views(names@).take(i + 1).drop_last() == views(names@).take(i as int));
            out = replace(out.as_slice(), reference.as_slice(), value.as_slice());
            i += 1;
        }
        assert(views(names@).take(names.len() as int) == views(names@));
        Ok(out)
    }
}

/// A text without the marker references nothing.
pub proof fn lemma_unmarked_references_nothing(text: Seq<char>, from: int)
    requires
        forall|i: int| 0 <= i < text.len() ==> text[i] != '@',
    ensures
        references_from(text, from) == Seq::<Seq<char>>::empty(),
    decreases text.len() - from,
{
    if 0 <= from < text.len() {
        lemma_unmarked_references_nothing(text, from + 1);
    }
}

/// Interpolation leaves a text that references nothing as it is, whatever
/// the variables hold.
pub proof fn law_interpolation_keeps_plain_text(
    text: Seq<char>,
    values: Map<Seq<char>, Seq<char>>,
    line: usize,
)
    requires
        references(text).len() == 0,
    ensures
        interpolation(text, values, line) == Ok::<Seq<char>, FaultView>(text),
{
}

/// Interpolation leaves a text without the marker as it is, whatever the
/// variables hold.
pub proof fn law_interpolation_keeps_unmarked_text(
    text: Seq<char>,
    values: Map<Seq<char>, Seq<char>>,
    line: usize,
)
    requires
        forall|i: int| 0 <= i < text.len() ==> text[i] != '@',
    ensures
        interpolation(text, values, line) == Ok::<Seq<char>, FaultView>(text),
{
    lemma_unmarked_references_nothing(text, 0);
}

/// `distinct` keeps exactly the names that it is given.
pub proof fn lemma_distinct_same_names(names: Seq<Seq<char>>, name: Seq<char>)
    ensures
        distinct(names).contains(name) <==> names.contains(name),
    decreases names.len(),
{
    if names.len() > 0 {
        let front = names.drop_last();
        let before = distinct(front);
        lemma_distinct_same_names(front, name);
        if names.contains(name) {
            let i = choose|i: int| 0 <= i < names.len() && names[i] == name;
            if i < names.len() - 1 {
                assert(front[i] == name);
            }
        }
        if front.contains(name) {
            let i = choose|i: int| 0 <= i < front.len() && front[i] == name;
            assert(names[i] == name);
        }
        if before.contains(names.last()) {
        } else {
            let after = before.push(names.last());
            assert(after[after.len() - 1] == names.last());
            if before.contains(name) {
                let i = choose|i: int| 0 <= i < before.len() && before[i] == name;
                assert(after[i] == name);
            }
            if after.contains(name) {
                let i = choose|i: int| 0 <= i < after.len() && after[i] == name;
                if i < before.len() {
                    assert(before[i] == name);
                }
            }
        }
        assert(names[names.len() - 1] == names.last());
    }
}

/// No name is undeclared exactly where every name has a value; and a name
/// that is found undeclared is one of the names and has none.
pub proof fn lemma_first_undeclared(
    names: Seq<Seq<char>>,
    values: Map<Seq<char>, Seq<char>>,
    from: int,
)
    requires
        0 <= from,
    ensures
        match first_undeclared(names, values, from) {
            Some(name) => names.contains(name) && !values.contains_key(name),
            None => forall|i: int| from <= i < names.len() ==> values.contains_key(names[i]),
        },
    decreases names.len() - from,
{
    if from < names.len() {
        if values.contains_key(names[from]) {
            lemma_first_undeclared(names, values, from + 1);
        }
    }
}

/// Interpolation is total: it succeeds exactly where every name that the
/// text references is declared, and where it fails, it fails about a
/// referenced name that is not.
pub proof fn law_interpolation_total(
    text: Seq<char>,
    values: Map<Seq<char>, Seq<char>>,
    line: usize,
)
    ensures
        interpolation(text, values, line) is Ok <==> (forall|i: int|
            0 <= i < references(text).len() ==> values.contains_key(#[trigger] references(text)[i])),
        interpolation(text, values, line) matches Err(f) ==> f.line == line && references(
            text,
        ).contains(f.text) && !values.contains_key(f.text),
{
    let all = references(text);
    let names = distinct(all);
    lemma_first_undeclared(names, values, 0);
    match first_undeclared(names, values, 0) {
        Some(name) => {
            lemma_distinct_same_names(all, name);
            let i = choose|i: int| 0 <= i < all.len() && all[i] == name;
            assert(!values.contains_key(all[i]));
        },
        None => {
            assert forall|i: int| 0 <= i < all.len() implies values.contains_key(
                #[trigger] all[i],
            ) by {
                lemma_distinct_same_names(all, all[i]);
                assert(all.contains(all[i]));
                let j = choose|j: int| 0 <= j < names.len() && names[j] == all[i];
                assert(values.contains_key(names[j]));
            }
        },
    }
}

/// A run of name characters that reaches the end of the text ends there.
pub proof fn lemma_name_runs_to_the_end(text: Seq<char>, from: int)
    requires
        0 <= from <= text.len(),
        forall|i: int| from <= i < text.len() ==> !boundary(text[i]),
    ensures
        name_end(text, from) == text.len(),
    decreases text.len() - from,
{
    if from < text.len() {
        lemma_name_runs_to_the_end(text, from + 1);
    }
}

/// A text that is nothing but the reference to one declared variable is
/// interpolated to the value of that variable.
pub proof fn law_lone_reference_is_its_value(
    name: Seq<char>,
    values: Map<Seq<char>, Seq<char>>,
    line: usize,
)
    requires
        name.len() > 0,
        forall|i: int| 0 <= i < name.len() ==> !boundary(name[i]),
        values.contains_key(name),
    ensures
        interpolation(reference_to(name), values, line) == Ok::<Seq<char>, FaultView>(
            values[name],
        ),
{
    let text = reference_to(name);
    let n = text.len() as int;
    assert forall|i: int| 1 <= i < text.len() implies !boundary(text[i]) by {
        assert(text[i] == name[i - 1]);
    }
    lemma_name_runs_to_the_end(text, 1);
    assert(text.subrange(1, n) == name);
    assert(references_from(text, n) == Seq::<Seq<char>>::empty());
    assert(references(text) == seq![name]) by {
        assert(seq![name] + Seq::<Seq<char>>::empty() == seq![name]);
    }
    let all = seq![name];
    assert(all.drop_last() == Seq::<Seq<char>>::empty());
    assert(distinct(all.drop_last()) == Seq::<Seq<char>>::empty());
    assert(!distinct(all.drop_last()).contains(name));
    assert(distinct(all) == Seq::<Seq<char>>::empty().push(name));
    assert(distinct(all) == all);
    assert(first_undeclared(all, values, 1) is None);
    assert(first_undeclared(all, values, 0) is None);
    assert(substitute(text, all.drop_last(), values) == text);
    assert(substitute(text, all, values) == replace_spec(text, text, values[name]));
    assert(text.subrange(0, n) == text);
    assert(occurs_at(text, text, 0));
    assert(find_from(text, text, 0) == Some(0int));
    assert(find_from(text, text, n) is None);
    assert(split_from(text, text, n) == seq![text.subrange(n, n)]);
    let empty = Seq::<char>::empty();
    assert(text.subrange(n, n) == empty);
    assert(text.subrange(0, 0) == empty);
    assert(split_spec(text, text) == seq![empty, empty]) by {
        assert(seq![empty] + seq![empty] == seq![empty, empty]);
    }
    let parts = seq![empty, empty];
    assert(parts.drop_last() == seq![empty]);
    assert(join_spec(parts.drop_last(), values[name]) == empty);
    assert(join_spec(parts, values[name]) == empty + values[name] + empty);
    assert(empty + values[name] + empty == values[name]);
}

/// `name` is referenced in `text` at position `at`: the marker stands
/// there, `name` follows it, `name` is not empty and holds no boundary
/// character, and behind it the text ends or a boundary character stands.
pub open spec fn referenced_at(text: Seq<char>, at: int, name: Seq<char>) -> bool {
    &&& 0 <= at < text.len()
    &&& text[at] == '@'
    &&& name.len() > 0
    &&& at + 1 + name.len() <= text.len()
    &&& text.subrange(at + 1, at + 1 + name.len()) == name
    &&& forall|i: int| 0 <= i < name.len() ==> !boundary(#[trigger] name[i])
    &&& (at + 1 + name.len() == text.len() || boundary(text[at + 1 + name.len()]))
}

/// A run of name characters lies within the text, holds no boundary
/// character, and ends where the text ends or a boundary character stands.
pub proof fn lemma_name_end(text: Seq<char>, from: int)
    requires
        0 <= from <= text.len(),
    ensures
        from <= name_end(text, from) <= text.len(),
        forall|i: int| from <= i < name_end(text, from) ==> !boundary(#[trigger] text[i]),
        name_end(text, from) == text.len() || boundary(text[name_end(text, from)]),
    decreases text.len() - from,
{
    if from < text.len() && !boundary(text[from]) {
        lemma_name_end(text, from + 1);
    }
}

/// Each of the references from `from` on is referenced at a position that
/// is not before `from`.
pub proof fn lemma_references_are_names(text: Seq<char>, from: int, k: int)
    requires
        0 <= from,
        0 <= k < references_from(text, from).len(),
    ensures
        exists|at: int|
            from <= at && #[trigger] referenced_at(text, at, references_from(text, from)[k]),
    decreases text.len() - from,
{
    if from < text.len() {
        if text[from] == '@' {
            let end = name_end(text, from + 1);
            lemma_name_end(text, from + 1);
            if from + 1 < end {
                let name = text.subrange(from + 1, end);
                if k == 0 {
                    assert forall|i: int| 0 <= i < name.len() implies !boundary(
                        #[trigger] name[i],
                    ) by {
                        assert(name[i] == text[from + 1 + i]);
                    }
                    assert(references_from(text, from)[0] == name);
                    assert(name.len() == end - from - 1);
                    assert(text.subrange(from + 1, from + 1 + name.len()) == name);
                    assert(referenced_at(text, from, name));
                } else {
                    lemma_references_are_names(text, end, k - 1);
                    let later = references_from(text, end)[k - 1];
                    assert(later == references_from(text, from)[k]);
                    let at = choose|at: int| end <= at && #[trigger] referenced_at(text, at, later);
                    assert(referenced_at(text, at, references_from(text, from)[k]));
                }
            } else {
                lemma_references_are_names(text, from + 1, k);
                let later = references_from(text, from + 1)[k];
                let at = choose|at: int| from + 1 <= at && #[trigger] referenced_at(text, at, later);
                assert(referenced_at(text, at, references_from(text, from)[k]));
            }
        } else {
            lemma_references_are_names(text, from + 1, k);
            let later = references_from(text, from + 1)[k];
            let at = choose|at: int| from + 1 <= at && #[trigger] referenced_at(text, at, later);
            assert(referenced_at(text, at, references_from(text, from)[k]));
        }
    }
}

/// Every name that is found in a text is a name: it is not empty, it holds
/// no white space and no other boundary character, and it stands in the
/// text behind a marker and before a boundary character or the end.
pub proof fn law_found_names_are_names(text: Seq<char>, name: Seq<char>)
    requires
        distinct(references(text)).contains(name),
    ensures
        exists|at: int| #[trigger] referenced_at(text, at, name),
        name.len() > 0,
        forall|i: int| 0 <= i < name.len() ==> !whitespace(#[trigger] name[i]),
{
    lemma_distinct_same_names(references(text), name);
    let k = choose|k: int| 0 <= k < references(text).len() && references(text)[k] == name;
    lemma_references_are_names(text, 0, k);
    let at = choose|at: int| 0 <= at && #[trigger] referenced_at(text, at, name);
    assert(referenced_at(text, at, name));
    assert forall|i: int| 0 <= i < name.len() implies !whitespace(#[trigger] name[i]) by {
        assert(!boundary(name[i]));
    }
}

} // verus!
