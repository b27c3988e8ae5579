//! A mapping from header names to values, kept as pairs in the order in which
//! the names were first given. Names are compared without regard to the case
//! of their letters.

use crate::entries::{
    collapse, distinct_names, has_name, lemma_collapse_distinct, lemma_position_unique,
    lemma_put_distinct, put, same_name, value_of,
};
use crate::transport::names_match;
use vstd::prelude::*;

verus! {

/// A mapping from names to text values. No name stands in it twice, in any
/// spelling; putting a name that is there replaces its value and leaves its
/// place and spelling.
#[derive(Debug)]
pub struct HeaderTable {
    entries: Vec<(String, String)>,
}

impl View for HeaderTable {
    type V = Seq<(Seq<char>, Seq<char>)>;

    closed spec fn view(&self) -> Seq<(Seq<char>, Seq<char>)> {
        self.entries.deep_view()
    }
}

impl HeaderTable {
    #[verifier::type_invariant]
    spec fn well_formed(self) -> bool {
        distinct_names(self.entries.deep_view())
    }

    /// A table without entries.
    pub fn new() -> (table: HeaderTable)
        ensures
            table@ == Seq::<(Seq<char>, Seq<char>)>::empty(),
    {
        let table = HeaderTable { entries: Vec::new() };
        assert(table@ =~= Seq::empty());
        table
    }

    /// The number of names in the table.
    pub fn len(&self) -> (count: usize)
        ensures
            count == self@.len(),
            distinct_names(self@),
    {
        proof {
            use_type_invariant(self);
        }
        self.entries.len()
    }

    /// The value that `name` carries, if the table holds the name.
    pub fn get(&self, name: &str) -> (value: Option<&String>)
        ensures
            has_name(self@, name@) ==> (value matches Some(v) && v@ == value_of(self@, name@)),
            !has_name(self@, name@) ==> value is None,
    {
        proof {
            use_type_invariant(self);
        }
        let mut i: usize = 0;
        while i < self.entries.len()
            invariant
                i <= self.entries.len(),
                distinct_names(self@),
                forall|j: int| 0 <= j < i ==> !same_name((#[trigger] self@[j]).0, name@),
            decreases self.entries.len() - i,
        {
            if names_match(self.entries[i].0.as_str(), name) {
                proof {
                    assert(self@[i as int].0 == self.entries[i as int].0@);
                    lemma_position_unique(self@, name@, i as int);
                }
                return Some(&self.entries[i].1);
            }
            i += 1;
        }
        None
    }

    /// The pair at place `at`, counted from zero, if there is one.
    pub fn entry(&self, at: usize) -> (pair: Option<(&String, &String)>)
        ensures
            at < self@.len() ==> (pair matches Some((name, value)) && name@ == self@[at as int].0
                && value@ == self@[at as int].1),
            at >= self@.len() ==> pair is None,
    {
        if at < self.entries.len() {
            Some((&self.entries[at].0, &self.entries[at].1))
        } else {
            None
        }
    }

    /// This table with `name` given the value `value`.
    fn with(self, name: String, value: String) -> (table: HeaderTable)
        ensures
            table@ == put(self@, name@, value@),
            distinct_names(table@),
    {
        proof {
            use_type_invariant(&self);
            lemma_put_distinct(self@, name@, value@);
        }
        let ghost before = self@;
        let mut entries = self.entries;
        let mut i: usize = 0;
        while i < entries.len()
            invariant
                i <= entries.len(),
                entries.deep_view() == before,
                before == self@,
                distinct_names(before),
                forall|j: int| 0 <= j < i ==> !same_name((#[trigger] before[j]).0, name@),
            decreases entries.len() - i,
        {
            if names_match(entries[i].0.as_str(), name.as_str()) {
                let kept = entries[i].0.clone();
                proof {
                    assert(before[i as int].0 == kept@);
                    lemma_position_unique(before, name@, i as int);
                    assert(put(before, name@, value@) == before.update(i as int, (kept@, value@)));
                }
                entries[i] = (kept, value);
                assert(entries.deep_view() =~= before.update(i as int, (kept@, value@)));
                return HeaderTable { entries };
            }
            i += 1;
        }
        assert(!has_name(before, name@));
        entries.push((name, value));
        assert(entries.deep_view() =~= before.push((name@, value@)));
        HeaderTable { entries }
    }

    /// Gives `name` the value `value`: a name that is there keeps its place and
    /// spelling and takes the new value; a new name goes to the end.
    pub fn insert(&mut self, name: String, value: String)
        ensures
            final(self)@ == put(old(self)@, name@, value@),
            distinct_names(final(self)@),
    {
        let mut current = HeaderTable::new();
        std::mem::swap(self, &mut current);
        *self = current.with(name, value);
    }

    /// The table made by putting the pairs one after another, so that a later
    /// pair overrides an earlier one with the same name.
    pub fn from_pairs(pairs: Vec<(String, String)>) -> (table: HeaderTable)
        ensures
            table@ == collapse(pairs.deep_view()),
            distinct_names(table@),
    {
        let mut table = HeaderTable::new();
        let mut i: usize = 0;
        assert(pairs.deep_view().take(0) =~= Seq::empty());
        proof {
            lemma_collapse_distinct(pairs.deep_view().take(0));
        }
        while i < pairs.len()
            invariant
                i <= pairs.len(),
                table@ == collapse(pairs.deep_view().take(i as int)),
                distinct_names(table@),
            decreases pairs.len() - i,
        {
            let name = pairs[i].0.clone();
            let value = pairs[i].1.clone();
            proof {
                let next = pairs.deep_view().take(i + 1);
                assert(next.drop_last() =~= pairs.deep_view().take(i as int));
                assert(next.last() == (name@, value@));
            }
            table.insert(name, value);
            i += 1;
        }
        assert(pairs.deep_view().take(pairs.len() as int) =~= pairs.deep_view());
        table
    }

    /// The pairs of the table, in its order.
    pub fn into_pairs(self) -> (pairs: Vec<(String, String)>)
        ensures
            pairs.deep_view() == self@,
            distinct_names(self@),
    {
        proof {
            use_type_invariant(&self);
        }
        self.entries
    }
}

} // verus!
