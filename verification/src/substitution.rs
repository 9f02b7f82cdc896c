//! What interpolation leaves behind: where every marker of a text begins a
//! reference and no value holds a marker, no marker is left.

use vstd::prelude::*;
use crate::interpolate::boundary;
use crate::interpolate::distinct;
use crate::interpolate::first_undeclared;
use crate::interpolate::interpolation;
use crate::interpolate::law_found_names_are_names;
use crate::interpolate::lemma_distinct_same_names;
use crate::interpolate::lemma_first_undeclared;
use crate::interpolate::lemma_name_end;
use crate::interpolate::lemma_unmarked_references_nothing;
use crate::interpolate::name_end;
use crate::interpolate::reference_to;
use crate::interpolate::referenced_at;
use crate::interpolate::references;
use crate::interpolate::references_from;
use crate::interpolate::substitute;
use crate::text::find_from;
use crate::text::join_spec;
use crate::text::lemma_find_from;
use crate::text::lemma_split_has_a_piece;
use crate::text::occurs_at;
use crate::text::split_from;

verus! {

/// `text` holds no marker.
pub open spec fn unmarked(text: Seq<char>) -> bool {
    forall|i: int| 0 <= i < text.len() ==> text[i] != '@'
}

/// At position `at` of `text` stands a reference to one of `names`.
pub open spec fn begins_one(text: Seq<char>, names: Seq<Seq<char>>, at: int) -> bool {
    exists|k: int| 0 <= k < names.len() && #[trigger] occurs_at(text, reference_to(names[k]), at)
}

/// Every marker of `text` begins a reference to one of `names`.
pub open spec fn all_begin(text: Seq<char>, names: Seq<Seq<char>>) -> bool {
    forall|p: int| 0 <= p < text.len() && #[trigger] text[p] == '@' ==> begins_one(text, names, p)
}

/// Joining a first piece and at least one more puts the separator behind
/// the first piece.
pub proof fn lemma_join_first(first: Seq<char>, rest: Seq<Seq<char>>, separator: Seq<char>)
    requires
        rest.len() >= 1,
    ensures
        join_spec(seq![first] + rest, separator) == first + separator + join_spec(rest, separator),
    decreases rest.len(),
{
    let whole = seq![first] + rest;
    if rest.len() == 1 {
        assert(whole.drop_last() == seq![first]);
        assert(whole.last() == rest[0]);
        assert(join_spec(seq![first], separator) == first);
        assert(join_spec(rest, separator) == rest[0]);
    } else {
        assert(whole.drop_last() == seq![first] + rest.drop_last());
        assert(whole.last() == rest.last());
        lemma_join_first(first, rest.drop_last(), separator);
        assert(join_spec(whole, separator) == join_spec(whole.drop_last(), separator) + separator
            + whole.last());
        assert(join_spec(rest, separator) == join_spec(rest.drop_last(), separator) + separator
            + rest.last());
        assert(join_spec(whole, separator) =~= first + separator + join_spec(rest, separator));
    }
}

/// Replacing the references to `name` by a value without a marker leaves
/// only markers that begin a reference to one of the other names.
pub proof fn lemma_replace_keeps_marks(
    text: Seq<char>,
    name: Seq<char>,
    value: Seq<char>,
    rest: Seq<Seq<char>>,
    from: int,
)
    requires
        0 <= from <= text.len(),
        unmarked(name),
        unmarked(value),
        forall|k: int| 0 <= k < rest.len() ==> unmarked(#[trigger] rest[k]),
        forall|p: int|
            from <= p < text.len() && #[trigger] text[p] == '@' ==> occurs_at(
                text,
                reference_to(name),
                p,
            ) || begins_one(text, rest, p),
    ensures
        all_begin(join_spec(split_from(text, reference_to(name), from), value), rest),
    decreases text.len() - from,
{
    let pat = reference_to(name);
    let out = join_spec(split_from(text, pat, from), value);
    assert(pat.len() == name.len() + 1);
    assert(pat[0] == '@');
    lemma_find_from(text, pat, from);
    match find_from(text, pat, from) {
        None => {
            let tail = text.subrange(from, text.len() as int);
            assert(split_from(text, pat, from) == seq![tail]);
            assert(out == tail);
            assert forall|j: int| 0 <= j < out.len() && #[trigger] out[j] == '@' implies begins_one(
                out,
                rest,
                j,
            ) by {
                let p = from + j;
                assert(text[p] == '@');
                assert(!occurs_at(text, pat, p));
                assert(begins_one(text, rest, p));
                let k = choose|k: int|
                    0 <= k < rest.len() && #[trigger] occurs_at(text, reference_to(rest[k]), p);
                let r = reference_to(rest[k]);
                assert(out.subrange(j, j + r.len()) =~= text.subrange(p, p + r.len()));
                assert(occurs_at(out, r, j));
            }
        },
        Some(at) => {
            let next = at + pat.len();
            let gap = text.subrange(from, at);
            let later = split_from(text, pat, next);
            lemma_split_has_a_piece(text, pat, next);
            assert(split_from(text, pat, from) == seq![gap] + later);
            lemma_join_first(gap, later, value);
            let tail = join_spec(later, value);
            assert(out == gap + value + tail);
            lemma_replace_keeps_marks(text, name, value, rest, next);
            assert(text[at] == '@') by {
                assert(text.subrange(at, at + pat.len())[0] == text[at]);
            }
            assert forall|j: int| 0 <= j < out.len() && #[trigger] out[j] == '@' implies begins_one(
                out,
                rest,
                j,
            ) by {
                if j < gap.len() {
                    let p = from + j;
                    assert(out[j] == gap[j]);
                    assert(gap[j] == text[p]);
                    assert(text[p] == '@');
                    assert(!occurs_at(text, pat, p));
                    assert(begins_one(text, rest, p));
                    let k = choose|k: int|
                        0 <= k < rest.len() && #[trigger] occurs_at(text, reference_to(rest[k]), p);
                    let m = rest[k];
                    let r = reference_to(m);
                    if p + r.len() > at {
                        let d = at - p;
                        assert(text.subrange(p, p + r.len())[d] == text[at]);
                        assert(r[d] == m[d - 1]);
                        assert(unmarked(m));
                        assert(false);
                    }
                    assert(out.subrange(j, j + r.len()) =~= text.subrange(p, p + r.len()));
                    assert(occurs_at(out, r, j));
                } else if j < gap.len() + value.len() {
                    assert(out[j] == value[j - gap.len()]);
                    assert(false);
                } else {
                    let j2 = j - gap.len() - value.len();
                    assert(out[j] == tail[j2]);
                    assert(tail[j2] == '@');
                    assert(begins_one(tail, rest, j2));
                    let k = choose|k: int|
                        0 <= k < rest.len() && #[trigger] occurs_at(
                            tail,
                            reference_to(rest[k]),
                            j2,
                        );
                    let r = reference_to(rest[k]);
                    assert(out.subrange(j, j + r.len()) =~= tail.subrange(j2, j2 + r.len()));
                    assert(occurs_at(out, r, j));
                }
            }
        },
    }
}

/// After the first `done` names have been put in, every marker that is
/// left begins a reference to one of the names that are still to come.
pub proof fn lemma_substitute_keeps_marks(
    text: Seq<char>,
    names: Seq<Seq<char>>,
    values: Map<Seq<char>, Seq<char>>,
    done: int,
)
    requires
        0 <= done <= names.len(),
        forall|k: int| 0 <= k < names.len() ==> unmarked(#[trigger] names[k]),
        forall|k: int| 0 <= k < names.len() ==> unmarked(values[#[trigger] names[k]]),
        all_begin(text, names),
    ensures
        all_begin(substitute(text, names.take(done), values), names.skip(done)),
    decreases done,
{
    if done == 0 {
        assert(names.take(0) == Seq::<Seq<char>>::empty());
        assert(names.skip(0) == names);
    } else {
        let before = substitute(text, names.take(done - 1), values);
        let name = names[done - 1];
        let rest = names.skip(done);
        let earlier = names.skip(done - 1);
        lemma_substitute_keeps_marks(text, names, values, done - 1);
        assert(names.take(done).drop_last() == names.take(done - 1));
        assert(names.take(done).last() == name);
        assert forall|k: int| 0 <= k < rest.len() implies unmarked(#[trigger] rest[k]) by {
            assert(rest[k] == names[done + k]);
        }
        assert forall|p: int| 0 <= p < before.len() && #[trigger] before[p] == '@' implies occurs_at(
            before,
            reference_to(name),
            p,
        ) || begins_one(before, rest, p) by {
            assert(begins_one(before, earlier, p));
            let k = choose|k: int|
                0 <= k < earlier.len() && #[trigger] occurs_at(
                    before,
                    reference_to(earlier[k]),
                    p,
                );
            if k == 0 {
                assert(earlier[0] == name);
            } else {
                assert(earlier[k] == rest[k - 1]);
                assert(occurs_at(before, reference_to(rest[k - 1]), p));
            }
        }
        lemma_replace_keeps_marks(before, name, values[name], rest, 0);
    }
}

/// A marker that begins a reference begins the reference to a name that
/// the text references.
pub proof fn lemma_marker_is_found(text: Seq<char>, from: int, at: int)
    requires
        0 <= from <= at,
        at + 1 < text.len(),
        text[at] == '@',
        !boundary(text[at + 1]),
    ensures
        references_from(text, from).contains(text.subrange(at + 1, name_end(text, at + 1))),
    decreases at - from,
{
    let name = text.subrange(at + 1, name_end(text, at + 1));
    lemma_name_end(text, at + 2);
    if from == at {
        assert(references_from(text, from)[0] == name);
    } else if text[from] == '@' {
        let end = name_end(text, from + 1);
        lemma_name_end(text, from + 1);
        if from + 1 < end {
            assert(boundary(text[at]));
            assert(end <= at);
            lemma_marker_is_found(text, end, at);
            let later = references_from(text, end);
            let k = choose|k: int| 0 <= k < later.len() && later[k] == name;
            assert(references_from(text, from)[k + 1] == name);
        } else {
            lemma_marker_is_found(text, from + 1, at);
        }
    } else {
        lemma_marker_is_found(text, from + 1, at);
    }
}

/// Interpolation leaves no marker behind: where every marker of the text
/// begins a reference, every referenced name is declared, and no value of
/// a referenced name holds a marker, interpolation succeeds, and what it
/// gives holds no marker and so references nothing.
pub proof fn law_interpolation_leaves_no_marker(
    text: Seq<char>,
    values: Map<Seq<char>, Seq<char>>,
    line: usize,
)
    requires
        forall|p: int|
            0 <= p < text.len() && #[trigger] text[p] == '@' ==> p + 1 < text.len() && !boundary(
                text[p + 1],
            ),
        forall|i: int|
            0 <= i < references(text).len() ==> values.contains_key(#[trigger] references(text)[i])
                && unmarked(values[references(text)[i]]),
    ensures
        interpolation(text, values, line) matches Ok(done) && unmarked(done) && references(
            done,
        ).len() == 0,
{
    let all = references(text);
    let names = distinct(all);
    assert forall|k: int| 0 <= k < names.len() implies unmarked(#[trigger] names[k])
        && values.contains_key(names[k]) && unmarked(values[names[k]]) by {
        let name = names[k];
        assert(names.contains(name));
        law_found_names_are_names(text, name);
        let at = choose|at: int| #[trigger] referenced_at(text, at, name);
        assert forall|i: int| 0 <= i < name.len() implies name[i] != '@' by {
            assert(!boundary(name[i]));
        }
        lemma_distinct_same_names(all, name);
        let i = choose|i: int| 0 <= i < all.len() && all[i] == name;
        assert(values.contains_key(all[i]));
    }
    lemma_first_undeclared(names, values, 0);
    assert(first_undeclared(names, values, 0) is None) by {
        if first_undeclared(names, values, 0) is Some {
            let name = first_undeclared(names, values, 0)->Some_0;
            let k = choose|k: int| 0 <= k < names.len() && names[k] == name;
            assert(values.contains_key(names[k]));
        }
    }
    assert forall|p: int| 0 <= p < text.len() && #[trigger] text[p] == '@' implies begins_one(
        text,
        names,
        p,
    ) by {
        lemma_name_end(text, p + 1);
        let end = name_end(text, p + 1);
        let name = text.subrange(p + 1, end);
        lemma_marker_is_found(text, 0, p);
        lemma_distinct_same_names(all, name);
        let k = choose|k: int| 0 <= k < names.len() && names[k] == name;
        let r = reference_to(names[k]);
        assert(text.subrange(p, p + r.len()) =~= r);
        assert(occurs_at(text, r, p));
    }
    lemma_substitute_keeps_marks(text, names, values, names.len() as int);
    assert(names.take(names.len() as int) == names);
    let done = substitute(text, names, values);
    assert forall|i: int| 0 <= i < done.len() implies done[i] != '@' by {
        if done[i] == '@' {
            assert(begins_one(done, names.skip(names.len() as int), i));
        }
    }
    lemma_unmarked_references_nothing(done, 0);
}

} // verus!
