//! The variable store and the label table.
//!
//! Both are kept as lists of entries in which the first entry of a name is
//! the one that counts. Their mathematical model is the map from names to
//! what the names are bound to.

use vstd::prelude::*;
use crate::fault::Fault;
use crate::fault::FaultKind;
use crate::fault::FaultView;
use crate::fault::fault;
use crate::text::copy_range;
use crate::text::same_text;

verus! {

/// The map that a list of entries stands for: each name is bound to what
/// its first entry holds.
pub open spec fn bindings<V>(entries: Seq<(Seq<char>, V)>) -> Map<Seq<char>, V>
    decreases entries.len(),
{
    if entries.len() == 0 {
        Map::empty()
    } else {
        bindings(entries.drop_first()).insert(entries[0].0, entries[0].1)
    }
}

/// A name that no entry holds is not bound.
pub proof fn lemma_bindings_absent<V>(entries: Seq<(Seq<char>, V)>, name: Seq<char>)
    requires
        forall|j: int| 0 <= j < entries.len() ==> (#[trigger] entries[j]).0 != name,
    ensures
        !bindings(entries).contains_key(name),
    decreases entries.len(),
{
    if entries.len() > 0 {
        let rest = entries.drop_first();
        assert forall|j: int| 0 <= j < rest.len() implies (#[trigger] rest[j]).0 != name by {
            assert(rest[j] == entries[j + 1]);
        }
        lemma_bindings_absent(rest, name);
    }
}

/// A name is bound to what its first entry holds.
pub proof fn lemma_bindings_first<V>(entries: Seq<(Seq<char>, V)>, at: int)
    requires
        0 <= at < entries.len(),
        forall|j: int| 0 <= j < at ==> (#[trigger] entries[j]).0 != entries[at].0,
    ensures
        bindings(entries).contains_key(entries[at].0),
        bindings(entries)[entries[at].0] == entries[at].1,
    decreases at,
{
    if at > 0 {
        let rest = entries.drop_first();
        assert(rest[at - 1] == entries[at]);
        assert forall|j: int| 0 <= j < at - 1 implies (#[trigger] rest[j]).0 != rest[at - 1].0 by {
            assert(rest[j] == entries[j + 1]);
        }
        lemma_bindings_first(rest, at - 1);
        assert(entries[0].0 != entries[at].0);
    }
}

/// Writing into the first entry of a name binds the name anew and leaves
/// the other names as they were.
pub proof fn lemma_bindings_update<V>(entries: Seq<(Seq<char>, V)>, at: int, value: V)
    requires
        0 <= at < entries.len(),
        forall|j: int| 0 <= j < at ==> (#[trigger] entries[j]).0 != entries[at].0,
    ensures
        bindings(entries.update(at, (entries[at].0, value))) == bindings(entries).insert(
            entries[at].0,
            value,
        ),
    decreases at,
{
    let name = entries[at].0;
    let after = entries.update(at, (name, value));
    if at == 0 {
        assert(after.drop_first() == entries.drop_first());
        assert(bindings(after) == bindings(entries).insert(name, value));
    } else {
        let rest = entries.drop_first();
        assert(rest[at - 1] == entries[at]);
        assert forall|j: int| 0 <= j < at - 1 implies (#[trigger] rest[j]).0 != rest[at - 1].0 by {
            assert(rest[j] == entries[j + 1]);
        }
        lemma_bindings_update(rest, at - 1, value);
        assert(after.drop_first() == rest.update(at - 1, (name, value)));
        assert(entries[0].0 != name);
        assert(after[0] == entries[0]);
        assert(bindings(after) == bindings(entries).insert(name, value));
    }
}

/// A new entry at the end binds a name that was not bound before.
pub proof fn lemma_bindings_push<V>(entries: Seq<(Seq<char>, V)>, name: Seq<char>, value: V)
    requires
        forall|j: int| 0 <= j < entries.len() ==> (#[trigger] entries[j]).0 != name,
    ensures
        bindings(entries.push((name, value))) == bindings(entries).insert(name, value),
    decreases entries.len(),
{
    let after = entries.push((name, value));
    if entries.len() == 0 {
        assert(after.drop_first() == entries);
        assert(bindings(after) == bindings(entries).insert(name, value));
    } else {
        let rest = entries.drop_first();
        assert forall|j: int| 0 <= j < rest.len() implies (#[trigger] rest[j]).0 != name by {
            assert(rest[j] == entries[j + 1]);
        }
        lemma_bindings_push(rest, name, value);
        assert(after.drop_first() == rest.push((name, value)));
        assert(entries[0].0 != name);
        assert(after[0] == entries[0]);
        assert(bindings(after) == bindings(entries).insert(name, value));
    }
}

/// The text that a variable holds when it is declared.
pub open spec fn initial_value() -> Seq<char> {
    seq!['0']
}

/// The variable store: each declared name with its value, a text.
pub struct Variables {
    entries: Vec<(Vec<char>, Vec<char>)>,
}

/// The fault of a variable `name` that is not declared.
pub open spec fn undeclared(name: Seq<char>, line: usize) -> FaultView {
    FaultView { kind: FaultKind::UndeclaredVariable, line, text: name }
}

impl Variables {
    /// The entries as names and values.
    pub closed spec fn entries(&self) -> Seq<(Seq<char>, Seq<char>)> {
        Seq::new(self.entries@.len(), |i: int| (self.entries@[i].0@, self.entries@[i].1@))
    }

    /// The map from each declared name to its value.
    pub closed spec fn view(&self) -> Map<Seq<char>, Seq<char>> {
        bindings(self.entries())
    }

    /// The store with no variable.
    pub fn new() -> (r: Self)
        ensures
            r@ == Map::<Seq<char>, Seq<char>>::empty(),
    {
        let r = Variables { entries: Vec::new() };
        assert(r.entries() == Seq::<(Seq<char>, Seq<char>)>::empty());
        r
    }

    /// Where the first entry of `name` stands.
    fn position(&self, name: &[char]) -> (r: Option<usize>)
        ensures
            match r {
                Some(at) => {
                    &&& at < self.entries().len()
                    &&& self.entries()[at as int].0 == name@
                    &&& forall|j: int| 0 <= j < at ==> (#[trigger] self.entries()[j]).0 != name@
                },
                None => forall|j: int|
                    0 <= j < self.entries().len() ==> (#[trigger] self.entries()[j]).0 != name@,
            },
    {
        let mut i: usize = 0;
        while i < self.entries.len()
            invariant
                i <= self.entries.len(),
                self.entries().len() == self.entries.len(),
                forall|j: int| 0 <= j < i ==> (#[trigger] self.entries()[j]).0 != name@,
            decreases self.entries.len() - i,
        {
            if same_text(self.entries[i].0.as_slice(), name) {
                return Some(i);
            }
            i += 1;
        }
        None
    }

    /// Whether `name` is declared.
    pub fn contains(&self, name: &[char]) -> (r: bool)
        ensures
            r == self@.contains_key(name@),
    {
        match self.position(name) {
            Some(at) => {
                proof {
                    lemma_bindings_first(self.entries(), at as int);
                }
                true
            },
            None => {
                proof {
                    lemma_bindings_absent(self.entries(), name@);
                }
                false
            },
        }
    }

    /// The value of `name`. Fails with `UndeclaredVariable` where `name` is
    /// not declared; `line` is the line to report.
    pub fn get(&self, name: &[char], line: usize) -> (r: Result<Vec<char>, Fault>)
        ensures
            self@.contains_key(name@) ==> (r matches Ok(value) && value@ == self@[name@]),
            !self@.contains_key(name@) ==> (r matches Err(f) && f@ == undeclared(name@, line)),
    {
        match self.position(name) {
            Some(at) => {
                proof {
                    lemma_bindings_first(self.entries(), at as int);
                }
                let held = &self.entries[at].1;
                Ok(copy_range(held.as_slice(), 0, held.len()))
            },
            None => {
                proof {
                    lemma_bindings_absent(self.entries(), name@);
                }
                Err(fault(FaultKind::UndeclaredVariable, line, name))
            },
        }
    }

    /// Binds `name` to `value`, whether or not it was bound before.
    fn bind(&mut self, name: &[char], value: Vec<char>)
        ensures
            final(self)@ == old(self)@.insert(name@, value@),
    {
        let ghost before = self.entries();
        match self.position(name) {
            Some(at) => {
                proof {
                    lemma_bindings_update(before, at as int, value@);
                }
                let key = copy_range(name, 0, name.len());
                self.entries.set(at, (key, value));
                assert forall|i: int| 0 <= i < before.len() implies self.entries()[i]
                    == before.update(at as int, (name@, value@))[i] by {
                    if i != at {
                        assert(self.entries@[i] == old(self).entries@[i]);
                    }
                }
                assert(self.entries() == before.update(at as int, (name@, value@)));
            },
            None => {
                proof {
                    lemma_bindings_push(before, name@, value@);
                }
                let key = copy_range(name, 0, name.len());
                self.entries.push((key, value));
                assert forall|i: int| 0 <= i < before.len() + 1 implies self.entries()[i]
                    == before.push((name@, value@))[i] by {
                    if i < before.len() {
                        assert(self.entries@[i] == old(self).entries@[i]);
                    }
                }
                assert(self.entries() == before.push((name@, value@)));
            },
        }
    }

    /// Declares `name`: from now on it holds the initial value, also where
    /// it was declared before and held another.
    pub fn declare(&mut self, name: &[char])
        ensures
            final(self)@ == old(self)@.insert(name@, initial_value()),
    {
        let mut zero: Vec<char> = Vec::new();
        zero.push('0');
        assert(zero@ == initial_value());
        self.bind(name, zero);
    }

    /// Gives the declared variable `name` the value `value`. Fails with
    /// `UndeclaredVariable`, and changes nothing, where `name` is not
    /// declared; `line` is the line to report.
    pub fn set(&mut self, name: &[char], value: Vec<char>, line: usize) -> (r: Result<(), Fault>)
        ensures
            old(self)@.contains_key(name@) ==> r is Ok && final(self)@ == old(self)@.insert(
                name@,
                value@,
            ),
            !old(self)@.contains_key(name@) ==> final(self)@ == old(self)@ && (r matches Err(f)
                && f@ == undeclared(name@, line)),
    {
        if self.contains(name) {
            self.bind(name, value);
            Ok(())
        } else {
            Err(fault(FaultKind::UndeclaredVariable, line, name))
        }
    }
}

/// The label table: each label with the index of the line that declares it.
pub struct Labels {
    entries: Vec<(Vec<char>, usize)>,
}

impl Labels {
    /// The entries as names and line indices.
    pub closed spec fn entries(&self) -> Seq<(Seq<char>, usize)> {
        Seq::new(self.entries@.len(), |i: int| (self.entries@[i].0@, self.entries@[i].1))
    }

    /// The map from each label to its line index.
    pub closed spec fn view(&self) -> Map<Seq<char>, usize> {
        bindings(self.entries())
    }

    /// The table with no label.
    pub fn new() -> (r: Self)
        ensures
            r@ == Map::<Seq<char>, usize>::empty(),
    {
        let r = Labels { entries: Vec::new() };
        assert(r.entries() == Seq::<(Seq<char>, usize)>::empty());
        r
    }

    /// Where the first entry of `name` stands.
    fn position(&self, name: &[char]) -> (r: Option<usize>)
        ensures
            match r {
                Some(at) => {
                    &&& at < self.entries().len()
                    &&& self.entries()[at as int].0 == name@
                    &&& forall|j: int| 0 <= j < at ==> (#[trigger] self.entries()[j]).0 != name@
                },
                None => forall|j: int|
                    0 <= j < self.entries().len() ==> (#[trigger] self.entries()[j]).0 != name@,
            },
    {
        let mut i: usize = 0;
        while i < self.entries.len()
            invariant
                i <= self.entries.len(),
                self.entries().len() == self.entries.len(),
                forall|j: int| 0 <= j < i ==> (#[trigger] self.entries()[j]).0 != name@,
            decreases self.entries.len() - i,
        {
            if same_text(self.entries[i].0.as_slice(), name) {
                return Some(i);
            }
            i += 1;
        }
        None
    }

    /// The line index of the label `name`, if the table holds it.
    pub fn get(&self, name: &[char]) -> (r: Option<usize>)
        ensures
            self@.contains_key(name@) ==> r == Some(self@[name@]),
            !self@.contains_key(name@) ==> r is None,
    {
        match self.position(name) {
            Some(at) => {
                proof {
                    lemma_bindings_first(self.entries(), at as int);
                }
                Some(self.entries[at].1)
            },
            None => {
                proof {
                    lemma_bindings_absent(self.entries(), name@);
                }
                None
            },
        }
    }

    /// Binds the label `name` to the line index `index`. A label that was
    /// bound before is bound anew.
    pub fn insert(&mut self, name: &[char], index: usize)
        ensures
            final(self)@ == old(self)@.insert(name@, index),
    {
        let ghost before = self.entries();
        match self.position(name) {
            Some(at) => {
                proof {
                    lemma_bindings_update(before, at as int, index);
                }
                let key = copy_range(name, 0, name.len());
                self.entries.set(at, (key, index));
                assert forall|i: int| 0 <= i < before.len() implies self.entries()[i]
                    == before.update(at as int, (name@, index))[i] by {
                    if i != at {
                        assert(self.entries@[i] == old(self).entries@[i]);
                    }
                }
                assert(self.entries() == before.update(at as int, (name@, index)));
            },
            None => {
                proof {
                    lemma_bindings_push(before, name@, index);
                }
                let key = copy_range(name, 0, name.len());
                self.entries.push((key, index));
                assert forall|i: int| 0 <= i < before.len() + 1 implies self.entries()[i]
                    == before.push((name@, index))[i] by {
                    if i < before.len() {
                        assert(self.entries@[i] == old(self).entries@[i]);
                    }
                }
                assert(self.entries() == before.push((name@, index)));
            },
        }
    }
}

} // verus!
