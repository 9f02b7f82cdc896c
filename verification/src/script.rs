//! What a script declares: its labels and its variables.

use vstd::prelude::*;
use crate::store::initial_value;
use crate::text::after_first_spec;
use crate::tokens::tokenize_spec;

verus! {

/// The label that `line` declares, if it declares one.
pub open spec fn label_of(line: Seq<char>) -> Option<Seq<char>> {
    if line.len() > 0 && line[0] == ':' {
        Some(after_first_spec(line))
    } else {
        None
    }
}

/// The variable that `line` declares, if it declares one: the name on the
/// left of an assignment line that splits on `=` into exactly two fields.
pub open spec fn declaration_of(line: Seq<char>) -> Option<Seq<char>> {
    if line.len() > 0 && line[0] == '@' {
        match tokenize_spec(line, '=') {
            Some(fields) => Some(after_first_spec(fields.0)),
            None => None,
        }
    } else {
        None
    }
}

/// The label table of a script: each label with the index of the line that
/// declares it, and with the index of the last such line where several do.
pub open spec fn labels_of(lines: Seq<Seq<char>>) -> Map<Seq<char>, usize>
    decreases lines.len(),
{
    if lines.len() == 0 {
        Map::empty()
    } else {
        let before = labels_of(lines.drop_last());
        match label_of(lines.last()) {
            Some(name) => before.insert(name, (lines.len() - 1) as usize),
            None => before,
        }
    }
}

/// The variable store of a script before its first line is run: each
/// declared variable with the initial value.
pub open spec fn declared_in(lines: Seq<Seq<char>>) -> Map<Seq<char>, Seq<char>>
    decreases lines.len(),
{
    if lines.len() == 0 {
        Map::empty()
    } else {
        let before = declared_in(lines.drop_last());
        match declaration_of(lines.last()) {
            Some(name) => before.insert(name, initial_value()),
            None => before,
        }
    }
}

/// Every label of the table is declared by the line it is bound to, and no
/// later line declares it again.
pub proof fn lemma_labels_sound(lines: Seq<Seq<char>>, name: Seq<char>)
    requires
        lines.len() <= usize::MAX,
        labels_of(lines).contains_key(name),
    ensures
        0 <= labels_of(lines)[name] < lines.len(),
        label_of(lines[labels_of(lines)[name] as int]) == Some(name),
        forall|j: int|
            labels_of(lines)[name] < j < lines.len() ==> label_of(#[trigger] lines[j]) != Some(
                name,
            ),
    decreases lines.len(),
{
    if lines.len() > 0 {
        let front = lines.drop_last();
        if label_of(lines.last()) == Some(name) {
        } else {
            lemma_labels_sound(front, name);
            let at = labels_of(front)[name];
            assert(front[at as int] == lines[at as int]);
            assert forall|j: int| at < j < lines.len() implies label_of(#[trigger] lines[j])
                != Some(name) by {
                if j < front.len() {
                    assert(front[j] == lines[j]);
                }
            }
        }
    }
}

/// The loader binds every label that a line of the script declares: to the
/// index of that line, or, where later lines declare the same label, to the
/// index of the last of them.
pub proof fn law_every_label_is_bound(lines: Seq<Seq<char>>, at: int)
    requires
        lines.len() <= usize::MAX,
        0 <= at < lines.len(),
        lines[at].len() > 0,
        lines[at][0] == ':',
    ensures
        labels_of(lines).contains_key(after_first_spec(lines[at])),
        at <= labels_of(lines)[after_first_spec(lines[at])] < lines.len(),
        lines[labels_of(lines)[after_first_spec(lines[at])] as int] == lines[at],
        (forall|j: int| at < j < lines.len() ==> lines[j] != lines[at]) ==> labels_of(
            lines,
        )[after_first_spec(lines[at])] == at,
    decreases lines.len(),
{
    let name = after_first_spec(lines[at]);
    let front = lines.drop_last();
    if at < lines.len() - 1 {
        assert(front[at] == lines[at]);
        law_every_label_is_bound(front, at);
        let bound = labels_of(front)[name];
        assert(front[bound as int] == lines[bound as int]);
        if label_of(lines.last()) == Some(name) {
            lemma_same_label_same_line(lines.last(), lines[at]);
        } else {
            if forall|j: int| at < j < lines.len() ==> lines[j] != lines[at] {
                assert forall|j: int| at < j < front.len() implies front[j] != front[at] by {
                    assert(front[j] == lines[j]);
                }
            }
        }
    }
}

/// Two lines that declare the same label are the same line of text.
pub proof fn lemma_same_label_same_line(a: Seq<char>, b: Seq<char>)
    requires
        label_of(a) is Some,
        label_of(a) == label_of(b),
    ensures
        a == b,
{
    assert(after_first_spec(a) == after_first_spec(b));
    assert(after_first_spec(a).len() == a.len() - 1);
    assert(after_first_spec(b).len() == b.len() - 1);
    assert(a.len() == b.len());
    assert forall|i: int| 0 <= i < a.len() implies a[i] == b[i] by {
        if i > 0 {
            assert(after_first_spec(a)[i - 1] == a[i]);
            assert(after_first_spec(b)[i - 1] == b[i]);
        }
    }
    assert(a =~= b);
}

/// The table binds no label but those that the lines of the script declare.
pub proof fn law_only_declared_labels_are_bound(lines: Seq<Seq<char>>, name: Seq<char>)
    requires
        lines.len() <= usize::MAX,
        labels_of(lines).contains_key(name),
    ensures
        exists|at: int| 0 <= at < lines.len() && label_of(#[trigger] lines[at]) == Some(name),
{
    lemma_labels_sound(lines, name);
    let at = labels_of(lines)[name] as int;
    assert(label_of(lines[at]) == Some(name));
}

/// The loader declares every variable that an assignment line of the script
/// names, and each declared variable starts with the initial value.
pub proof fn law_every_declaration_is_stored(lines: Seq<Seq<char>>, at: int)
    requires
        0 <= at < lines.len(),
        declaration_of(lines[at]) is Some,
    ensures
        declared_in(lines).contains_key(declaration_of(lines[at])->Some_0),
        declared_in(lines)[declaration_of(lines[at])->Some_0] == initial_value(),
    decreases lines.len(),
{
    let front = lines.drop_last();
    if at < lines.len() - 1 {
        assert(front[at] == lines[at]);
        law_every_declaration_is_stored(front, at);
    }
}

/// The store holds no variable but those that the assignment lines of the
/// script declare, and each of them with the initial value.
pub proof fn law_only_declarations_are_stored(lines: Seq<Seq<char>>, name: Seq<char>)
    requires
        declared_in(lines).contains_key(name),
    ensures
        declared_in(lines)[name] == initial_value(),
        exists|at: int|
            0 <= at < lines.len() && declaration_of(#[trigger] lines[at]) == Some(name),
    decreases lines.len(),
{
    if lines.len() > 0 {
        let front = lines.drop_last();
        if declaration_of(lines.last()) == Some(name) {
            assert(declaration_of(lines[lines.len() - 1]) == Some(name));
        } else {
            law_only_declarations_are_stored(front, name);
            let at = choose|at: int|
                0 <= at < front.len() && declaration_of(#[trigger] front[at]) == Some(name);
            assert(front[at] == lines[at]);
        }
    }
}

} // verus!
