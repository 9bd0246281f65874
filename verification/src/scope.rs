//! A finite map from names to values, kept as a list of bindings. Where a
//! name occurs more than once in the list, its last binding is the one that
//! counts.

use vstd::prelude::*;
use vstd::string::StringExecFns;
use crate::node::{Literal, LiteralView};

verus! {

pub struct Scope {
    entries: Vec<(String, Literal)>,
}

/// The map that a list of bindings stands for.
pub open spec fn bindings_map(entries: Seq<(Seq<char>, LiteralView)>) -> Map<
    Seq<char>,
    LiteralView,
>
    decreases entries.len(),
{
    if entries.len() == 0 {
        Map::empty()
    } else {
        bindings_map(entries.drop_last()).insert(entries.last().0, entries.last().1)
    }
}

proof fn lemma_absent(entries: Seq<(Seq<char>, LiteralView)>, name: Seq<char>)
    requires
        forall|i: int| 0 <= i < entries.len() ==> entries[i].0 != name,
    ensures
        !bindings_map(entries).contains_key(name),
    decreases entries.len(),
{
    if entries.len() > 0 {
        lemma_absent(entries.drop_last(), name);
    }
}

proof fn lemma_last_wins(entries: Seq<(Seq<char>, LiteralView)>, name: Seq<char>, at: int)
    requires
        0 <= at < entries.len(),
        entries[at].0 == name,
        forall|i: int| at < i < entries.len() ==> entries[i].0 != name,
    ensures
        bindings_map(entries).contains_key(name),
        bindings_map(entries)[name] == entries[at].1,
    decreases entries.len(),
{
    if at < entries.len() - 1 {
        lemma_last_wins(entries.drop_last(), name, at);
    }
}

proof fn lemma_rebind(
    entries: Seq<(Seq<char>, LiteralView)>,
    name: Seq<char>,
    at: int,
    value: LiteralView,
)
    requires
        0 <= at < entries.len(),
        entries[at].0 == name,
        forall|i: int| at < i < entries.len() ==> entries[i].0 != name,
    ensures
        bindings_map(entries.update(at, (name, value))) == bindings_map(entries).insert(
            name,
            value,
        ),
    decreases entries.len(),
{
    let updated = entries.update(at, (name, value));
    if at < entries.len() - 1 {
        lemma_rebind(entries.drop_last(), name, at, value);
        assert(updated.drop_last() =~= entries.drop_last().update(at, (name, value)));
    } else {
        assert(updated.drop_last() =~= entries.drop_last());
    }
}

impl Scope {
    spec fn pairs(&self) -> Seq<(Seq<char>, LiteralView)> {
        Seq::new(self.entries.len() as nat, |i: int| (self.entries[i].0@, self.entries[i].1@))
    }

    pub closed spec fn view(&self) -> Map<Seq<char>, LiteralView> {
        bindings_map(self.pairs())
    }

    pub fn new() -> (scope: Scope)
        ensures
            scope@ == Map::<Seq<char>, LiteralView>::empty(),
    {
        let scope = Scope { entries: Vec::new() };
        scope
    }

    /// The index of the last binding of `name`.
    fn position(&self, name: &str) -> (found: Option<usize>)
        ensures
            match found {
                Some(at) => at < self.entries.len() && self.entries[at as int].0@ == name@
                    && forall|i: int| at < i < self.entries.len() ==> self.entries[i].0@ != name@,
                None => forall|i: int| 0 <= i < self.entries.len() ==> self.entries[i].0@ != name@,
            },
    {
        let key = String::from_str(name);
        let mut i: usize = self.entries.len();
        while i > 0
            invariant
                i <= self.entries.len(),
                key@ == name@,
                forall|j: int| i <= j < self.entries.len() ==> self.entries[j].0@ != name@,
            decreases i,
        {
            i -= 1;
            if self.entries[i].0 == key {
                return Some(i);
            }
        }
        None
    }

    pub fn contains(&self, name: &str) -> (r: bool)
        ensures
            r == self@.contains_key(name@),
    {
        match self.position(name) {
            Some(at) => {
                proof {
                    lemma_last_wins(self.pairs(), name@, at as int);
                }
                true
            },
            None => {
                proof {
                    lemma_absent(self.pairs(), name@);
                }
                false
            },
        }
    }

    /// A copy of the value bound to `name`.
    pub fn get(&self, name: &str) -> (value: Option<Literal>)
        ensures
            match value {
                Some(v) => self@.contains_key(name@) && self@[name@] == v@,
                None => !self@.contains_key(name@),
            },
    {
        match self.position(name) {
            Some(at) => {
                proof {
                    lemma_last_wins(self.pairs(), name@, at as int);
                }
                Some(self.entries[at].1.duplicate())
            },
            None => {
                proof {
                    lemma_absent(self.pairs(), name@);
                }
                None
            },
        }
    }

    /// Binds `name` to `value`, in place of what it was bound to.
    pub fn set(&mut self, name: &str, value: Literal)
        ensures
            final(self)@ == old(self)@.insert(name@, value@),
    {
        match self.position(name) {
            Some(at) => {
                let key = String::from_str(name);
                self.entries[at] = (key, value);
                proof {
                    lemma_rebind(old(self).pairs(), name@, at as int, value@);
                    assert(self.pairs() =~= old(self).pairs().update(at as int, (name@, value@)));
                }
            },
            None => {
                self.entries.push((String::from_str(name), value));
                proof {
                    assert(self.pairs().drop_last() =~= old(self).pairs());
                }
            },
        }
    }

    /// A copy that holds the same bindings.
    pub fn duplicate(&self) -> (copy: Scope)
        ensures
            copy@ == self@,
    {
        let mut entries: Vec<(String, Literal)> = Vec::new();
        let mut i: usize = 0;
        while i < self.entries.len()
            invariant
                i <= self.entries.len(),
                entries.len() == i,
                forall|j: int|
                    0 <= j < i ==> entries[j].0@ == self.entries[j].0@ && entries[j].1@
                        == self.entries[j].1@,
            decreases self.entries.len() - i,
        {
            entries.push((self.entries[i].0.clone(), self.entries[i].1.duplicate()));
            i += 1;
        }
        let copy = Scope { entries };
        assert(copy.pairs() =~= self.pairs());
        copy
    }
}

} // verus!
