//! Text as a sequence of characters.
//!
//! Every line of a story, every name and every value is a `Vec<char>` whose
//! mathematical model is the `Seq<char>` of its view. This module holds the
//! operations on such texts that the rest of the crate is built from:
//! searching, splitting, joining, replacing and trimming.

use vstd::prelude::*;
use vstd::slice::slice_subrange;
use vstd::slice::slice_to_vec;

verus! {

/// `String::push` appends one character.
pub assume_specification[ String::push ](s: &mut String, ch: char)
    ensures
        final(s)@ == old(s)@.push(ch),
;

/// The models of a list of texts, in order.
pub open spec fn views(texts: Seq<Vec<char>>) -> Seq<Seq<char>> {
    Seq::new(texts.len(), |i: int| texts[i]@)
}

/// The characters of a string slice.
pub fn chars_of(s: &str) -> (r: Vec<char>)
    ensures
        r@ == s@,
{
    broadcast use vstd::string::group_string_axioms;

    let mut out: Vec<char> = Vec::new();
    for c in it: s.chars()
        invariant
            it.seq() == s@,
            out@ == s@.take(it.index()),
    {
        out.push(c);
    }
    out
}

/// The string made of the characters of `text`.
pub fn string_of(text: &[char]) -> (r: String)
    ensures
        r@ == text@,
{
    let mut out = String::new();
    let mut i: usize = 0;
    while i < text.len()
        invariant
            i <= text.len(),
            out@ == text@.take(i as int),
        decreases text.len() - i,
    {
        out.push(text[i]);
        i += 1;
    }
    out
}

/// A copy of the characters of `text` from position `from` up to, not
/// including, position `to`.
pub fn copy_range(text: &[char], from: usize, to: usize) -> (r: Vec<char>)
    requires
        from <= to <= text@.len(),
    ensures
        r@ == text@.subrange(from as int, to as int),
{
    slice_to_vec(slice_subrange(text, from, to))
}

/// `text` without its first character, the marker of a line or of a name.
pub open spec fn after_first_spec(text: Seq<char>) -> Seq<char> {
    if text.len() > 0 {
        text.subrange(1, text.len() as int)
    } else {
        text
    }
}

/// `text` without its first character.
pub fn after_first(text: &[char]) -> (r: Vec<char>)
    ensures
        r@ == after_first_spec(text@),
{
    if text.len() > 0 {
        copy_range(text, 1, text.len())
    } else {
        Vec::new()
    }
}

/// A copy of `text`.
pub fn copy(text: &[char]) -> (r: Vec<char>)
    ensures
        r@ == text@,
{
    let r = copy_range(text, 0, text.len());
    assert(r@ == text@);
    r
}

/// Appends the characters of `more` to `out`.
pub fn append(out: &mut Vec<char>, more: &[char])
    ensures
        final(out)@ == old(out)@ + more@,
{
    let mut i: usize = 0;
    while i < more.len()
        invariant
            i <= more.len(),
            out@ == old(out)@ + more@.take(i as int),
        decreases more.len() - i,
    {
        out.push(more[i]);
        i += 1;
    }
}

/// Whether two texts hold the same characters.
pub fn same_text(a: &[char], b: &[char]) -> (r: bool)
    ensures
        r == (a@ == b@),
{
    if a.len() != b.len() {
        return false;
    }
    let mut i: usize = 0;
    while i < a.len()
        invariant
            i <= a.len(),
            a.len() == b.len(),
            a@.take(i as int) == b@.take(i as int),
        decreases a.len() - i,
    {
        if a[i] != b[i] {
            return false;
        }
        assert(a@.take(i + 1) == a@.take(i as int).push(a@[i as int]));
        assert(b@.take(i + 1) == b@.take(i as int).push(b@[i as int]));
        i += 1;
    }
    assert(a@.take(a.len() as int) == a@);
    assert(b@.take(b.len() as int) == b@);
    true
}

/// `pattern` stands in `text` at position `at`.
pub open spec fn occurs_at(text: Seq<char>, pattern: Seq<char>, at: int) -> bool {
    &&& 0 <= at
    &&& at + pattern.len() <= text.len()
    &&& text.subrange(at, at + pattern.len()) == pattern
}

/// The first position at or after `from` where `pattern` stands in `text`.
pub open spec fn find_from(text: Seq<char>, pattern: Seq<char>, from: int) -> Option<int>
    decreases text.len() + 1 - from,
{
    if from < 0 || from + pattern.len() > text.len() {
        None
    } else if occurs_at(text, pattern, from) {
        Some(from)
    } else {
        find_from(text, pattern, from + 1)
    }
}

/// What `find_from` finds is the least occurrence that is not before `from`.
pub proof fn lemma_find_from(text: Seq<char>, pattern: Seq<char>, from: int)
    requires
        0 <= from,
    ensures
        match find_from(text, pattern, from) {
            Some(at) => {
                &&& from <= at
                &&& occurs_at(text, pattern, at)
                &&& forall|j: int| from <= j < at ==> !occurs_at(text, pattern, j)
            },
            None => forall|j: int| from <= j ==> !occurs_at(text, pattern, j),
        },
    decreases text.len() + 1 - from,
{
    if from + pattern.len() > text.len() {
    } else if occurs_at(text, pattern, from) {
    } else {
        lemma_find_from(text, pattern, from + 1);
    }
}

/// Whether `pattern` stands in `text` at position `at`.
pub fn matches_at(text: &[char], pattern: &[char], at: usize) -> (r: bool)
    ensures
        r == occurs_at(text@, pattern@, at as int),
{
    if pattern.len() > text.len() || at > text.len() - pattern.len() {
        return false;
    }
    let ghost window = text@.subrange(at as int, at + pattern.len());
    let mut k: usize = 0;
    while k < pattern.len()
        invariant
            k <= pattern.len(),
            at + pattern.len() <= text.len(),
            window == text@.subrange(at as int, at + pattern.len()),
            forall|j: int| 0 <= j < k ==> window[j] == pattern@[j],
        decreases pattern.len() - k,
    {
        if text[at + k] != pattern[k] {
            assert(window[k as int] != pattern@[k as int]);
            return false;
        }
        k += 1;
    }
    assert(window =~= pattern@);
    true
}

/// The first position at or after `from` where `pattern` stands in `text`.
pub fn find(text: &[char], pattern: &[char], from: usize) -> (r: Option<usize>)
    ensures
        match r {
            Some(at) => find_from(text@, pattern@, from as int) == Some(at as int),
            None => find_from(text@, pattern@, from as int) is None,
        },
{
    if pattern.len() > text.len() {
        return None;
    }
    let last: usize = text.len() - pattern.len();
    let mut i: usize = from;
    while i <= last
        invariant
            from <= i,
            last == text.len() - pattern.len(),
            find_from(text@, pattern@, from as int) == find_from(text@, pattern@, i as int),
        decreases last + 1 - i,
    {
        if matches_at(text, pattern, i) {
            return Some(i);
        }
        if i == last {
            assert(find_from(text@, pattern@, i + 1) is None);
            return None;
        }
        i += 1;
    }
    None
}

/// The pieces of `text` from position `from` on, cut at each occurrence of
/// `pattern`, the occurrences taken from the left and not overlapping.
pub open spec fn split_from(text: Seq<char>, pattern: Seq<char>, from: int) -> Seq<Seq<char>>
    recommends
        0 <= from <= text.len(),
    decreases text.len() - from,
{
    match find_from(text, pattern, from) {
        Some(at) => if pattern.len() > 0 && from <= at && at + pattern.len() <= text.len() {
            seq![text.subrange(from, at)] + split_from(text, pattern, at + pattern.len())
        } else {
            seq![text.subrange(from, text.len() as int)]
        },
        None => seq![text.subrange(from, text.len() as int)],
    }
}

/// A split has at least one piece.
pub proof fn lemma_split_has_a_piece(text: Seq<char>, pattern: Seq<char>, from: int)
    ensures
        split_from(text, pattern, from).len() >= 1,
    decreases text.len() - from,
{
    match find_from(text, pattern, from) {
        Some(at) => {
            if pattern.len() > 0 && from <= at && at + pattern.len() <= text.len() {
                lemma_split_has_a_piece(text, pattern, at + pattern.len());
            }
        },
        None => {},
    }
}

/// The pieces of `text` between the occurrences of `pattern`. There is always
/// at least one piece; a text without an occurrence is its own single piece,
/// and so is every text when `pattern` is empty.
pub open spec fn split_spec(text: Seq<char>, pattern: Seq<char>) -> Seq<Seq<char>> {
    split_from(text, pattern, 0)
}

/// Cuts `text` at each occurrence of `pattern`.
pub fn split(text: &[char], pattern: &[char]) -> (r: Vec<Vec<char>>)
    ensures
        views(r@) == split_spec(text@, pattern@),
{
    let mut parts: Vec<Vec<char>> = Vec::new();
    let mut from: usize = 0;
    loop
        invariant
            from <= text.len(),
            split_spec(text@, pattern@) == views(parts@) + split_from(text@, pattern@, from as int),
        decreases text.len() - from,
    {
        let ghost before = views(parts@);
        proof {
            lemma_find_from(text@, pattern@, from as int);
        }
        match find(text, pattern, from) {
            Some(at) => {
                if pattern.len() == 0 {
                    parts.push(copy_range(text, from, text.len()));
                    assert(views(parts@) == before.push(text@.subrange(from as int, text.len() as int)));
                    return parts;
                }
                parts.push(copy_range(text, from, at));
                assert(views(parts@) == before.push(text@.subrange(from as int, at as int)));
                from = at + pattern.len();
            },
            None => {
                parts.push(copy_range(text, from, text.len()));
                assert(views(parts@) == before.push(text@.subrange(from as int, text.len() as int)));
                return parts;
            },
        }
    }
}

/// The pieces put together again with `separator` between each two.
pub open spec fn join_spec(parts: Seq<Seq<char>>, separator: Seq<char>) -> Seq<char>
    decreases parts.len(),
{
    if parts.len() == 0 {
        Seq::empty()
    } else if parts.len() == 1 {
        parts[0]
    } else {
        join_spec(parts.drop_last(), separator) + separator + parts.last()
    }
}

/// Puts the pieces together with `separator` between each two.
pub fn join(parts: &Vec<Vec<char>>, separator: &[char]) -> (r: Vec<char>)
    ensures
        r@ == join_spec(views(parts@), separator@),
{
    let mut out: Vec<char> = Vec::new();
    let mut i: usize = 0;
    while i < parts.len()
        invariant
            i <= parts.len(),
            out@ == join_spec(views(parts@).take(i as int), separator@),
        decreases parts.len() - i,
    {
        let ghost done = views(parts@).take(i as int);
        let ghost next = views(parts@).take(i + 1);
        assert(next.drop_last() == done);
        assert(next.last() == parts@[i as int]@);
        if i > 0 {
            append(&mut out, separator);
        }
        append(&mut out, parts[i].as_slice());
        i += 1;
    }
    assert(views(parts@).take(parts.len() as int) == views(parts@));
    out
}

/// `text` with every occurrence of `pattern`, taken from the left and not
/// overlapping, replaced by `with`.
pub open spec fn replace_spec(text: Seq<char>, pattern: Seq<char>, with: Seq<char>) -> Seq<char> {
    join_spec(split_spec(text, pattern), with)
}

/// Replaces every occurrence of `pattern` in `text` by `with`.
pub fn replace(text: &[char], pattern: &[char], with: &[char]) -> (r: Vec<char>)
    ensures
        r@ == replace_spec(text@, pattern@, with@),
{
    let parts = split(text, pattern);
    join(&parts, with)
}

/// `text` without any occurrence of the character `c`.
pub open spec fn without_spec(text: Seq<char>, c: char) -> Seq<char> {
    replace_spec(text, seq![c], Seq::empty())
}

/// Removes every occurrence of the character `c` from `text`.
pub fn without(text: &[char], c: char) -> (r: Vec<char>)
    ensures
        r@ == without_spec(text@, c),
{
    let mut pattern: Vec<char> = Vec::new();
    pattern.push(c);
    assert(pattern@ == seq![c]);
    let nothing: Vec<char> = Vec::new();
    replace(text, pattern.as_slice(), nothing.as_slice())
}

/// Whether `c` is white space as Unicode defines it.
pub uninterp spec fn whitespace(c: char) -> bool;

/// Whether `c` is alphabetic as Unicode defines it.
pub uninterp spec fn alphabetic(c: char) -> bool;

/// `char::is_whitespace` of the standard library: the answer depends on the
/// character alone, and `whitespace` is the name of that answer.
#[verifier::external_body]
pub(crate) fn is_whitespace(c: char) -> (r: bool)
    ensures
        r == whitespace(c),
{
    c.is_whitespace()
}

/// `char::is_alphabetic` of the standard library: the answer depends on the
/// character alone, and `alphabetic` is the name of that answer.
#[verifier::external_body]
fn is_alphabetic(c: char) -> (r: bool)
    ensures
        r == alphabetic(c),
{
    c.is_alphabetic()
}

/// Whether some character of `text` is alphabetic.
pub open spec fn has_alphabetic_spec(text: Seq<char>) -> bool {
    exists|i: int| 0 <= i < text.len() && alphabetic(#[trigger] text[i])
}

/// Whether some character of `text` is alphabetic.
pub fn has_alphabetic(text: &[char]) -> (r: bool)
    ensures
        r == has_alphabetic_spec(text@),
{
    let mut i: usize = 0;
    while i < text.len()
        invariant
            i <= text.len(),
            forall|j: int| 0 <= j < i ==> !alphabetic(#[trigger] text@[j]),
        decreases text.len() - i,
    {
        if is_alphabetic(text[i]) {
            return true;
        }
        i += 1;
    }
    false
}

/// `text` without the white space it begins with.
pub open spec fn trim_start_spec(text: Seq<char>) -> Seq<char>
    decreases text.len(),
{
    if text.len() > 0 && whitespace(text[0]) {
        trim_start_spec(text.subrange(1, text.len() as int))
    } else {
        text
    }
}

/// `text` without the white space it ends with.
pub open spec fn trim_end_spec(text: Seq<char>) -> Seq<char>
    decreases text.len(),
{
    if text.len() > 0 && whitespace(text.last()) {
        trim_end_spec(text.drop_last())
    } else {
        text
    }
}

/// `text` without the white space at either end.
pub open spec fn trim_spec(text: Seq<char>) -> Seq<char> {
    trim_end_spec(trim_start_spec(text))
}

/// Removes the white space at both ends of `text`.
pub fn trim(text: &[char]) -> (r: Vec<char>)
    ensures
        r@ == trim_spec(text@),
{
    let n: usize = text.len();
    let mut start: usize = 0;
    assert(text@.subrange(0, n as int) == text@);
    while start < n
        invariant
            n == text.len(),
            start <= n,
            trim_start_spec(text@) == trim_start_spec(text@.subrange(start as int, n as int)),
        ensures
            start <= n,
            trim_start_spec(text@) == text@.subrange(start as int, n as int),
        decreases n - start,
    {
        let ghost rest = text@.subrange(start as int, n as int);
        if !is_whitespace(text[start]) {
            assert(!whitespace(rest[0]));
            break;
        }
        assert(rest.subrange(1, rest.len() as int) == text@.subrange(start + 1, n as int));
        start += 1;
    }
    let mut end: usize = n;
    while end > start
        invariant
            n == text.len(),
            start <= end <= n,
            trim_spec(text@) == trim_end_spec(text@.subrange(start as int, end as int)),
        ensures
            start <= end <= n,
            trim_spec(text@) == text@.subrange(start as int, end as int),
        decreases end - start,
    {
        let ghost rest = text@.subrange(start as int, end as int);
        if !is_whitespace(text[end - 1]) {
            assert(!whitespace(rest.last()));
            break;
        }
        assert(rest.drop_last() == text@.subrange(start as int, end - 1));
        end -= 1;
    }
    copy_range(text, start, end)
}

/// `text` without the run of the character `c` that it ends with.
pub open spec fn strip_end_spec(text: Seq<char>, c: char) -> Seq<char>
    decreases text.len(),
{
    if text.len() > 0 && text.last() == c {
        strip_end_spec(text.drop_last(), c)
    } else {
        text
    }
}

/// Removes every `c` that `text` ends with.
pub fn strip_end(text: &[char], c: char) -> (r: Vec<char>)
    ensures
        r@ == strip_end_spec(text@, c),
{
    let mut end: usize = text.len();
    assert(text@.subrange(0, end as int) == text@);
    while end > 0
        invariant
            end <= text.len(),
            strip_end_spec(text@, c) == strip_end_spec(text@.subrange(0, end as int), c),
        ensures
            end <= text.len(),
            strip_end_spec(text@, c) == text@.subrange(0, end as int),
        decreases end,
    {
        let ghost rest = text@.subrange(0, end as int);
        if text[end - 1] != c {
            assert(rest.last() != c);
            break;
        }
        assert(rest.drop_last() == text@.subrange(0, end - 1));
        end -= 1;
    }
    copy_range(text, 0, end)
}

} // verus!
