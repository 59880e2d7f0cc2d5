//! A result row: column names with their decoded values, in column order.

use vstd::prelude::*;
use crate::name_map::{distinct_keys, inserted, lemma_mapped, lookup, mapped, NameMap};
use crate::value::{CanonicalValue, ValueView};

verus! {

/// The model of a row: its columns in order, each name once.
pub type RowView = Seq<(Seq<char>, ValueView)>;

/// The models of the values of an association list.
pub open spec fn value_views(s: Seq<(Seq<char>, CanonicalValue)>) -> RowView {
    mapped(s, |v: CanonicalValue| v@)
}

/// One row of a query's result. A column name occurs once: where a query
/// yields a name again, the later value takes the place of the earlier one.
#[derive(Debug)]
pub struct Row {
    columns: NameMap<CanonicalValue>,
}

impl View for Row {
    type V = RowView;

    closed spec fn view(&self) -> RowView {
        value_views(self.columns@)
    }
}

impl Row {
    /// A row without columns.
    pub fn new() -> (row: Row)
        ensures
            row@ == Seq::<(Seq<char>, ValueView)>::empty(),
    {
        let row = Row { columns: NameMap::new() };
        assert(row@ =~= Seq::<(Seq<char>, ValueView)>::empty());
        row
    }

    /// The number of columns. Names never repeat.
    pub fn len(&self) -> (n: usize)
        ensures
            n == self@.len(),
            distinct_keys(self@),
    {
        let n = self.columns.len();
        proof {
            lemma_mapped(self.columns@, |v: CanonicalValue| v@, Seq::empty());
        }
        n
    }

    /// Sets the value of the column `name`: a column that exists keeps its
    /// place, a new one goes to the end.
    pub fn insert(&mut self, name: String, value: CanonicalValue)
        ensures
            final(self)@ == inserted(old(self)@, name@, value@),
            distinct_keys(final(self)@),
    {
        let ghost before = self.columns@;
        self.columns.insert(name, value);
        proof {
            lemma_mapped(before, |v: CanonicalValue| v@, name@);
        }
    }

    /// The value of the column `name`.
    pub fn get(&self, name: &str) -> (found: Option<&CanonicalValue>)
        ensures
            match found {
                Some(value) => lookup(self@, name@) == Some(value@),
                None => lookup(self@, name@) is None,
            },
    {
        let found = self.columns.get(name);
        proof {
            lemma_mapped(self.columns@, |v: CanonicalValue| v@, name@);
        }
        found
    }

    /// The name of the column at `index`.
    pub fn name_at(&self, index: usize) -> (name: &str)
        requires
            index < self@.len(),
        ensures
            name@ == self@[index as int].0,
    {
        self.columns.key_at(index)
    }

    /// The value of the column at `index`.
    pub fn value_at(&self, index: usize) -> (value: &CanonicalValue)
        requires
            index < self@.len(),
        ensures
            value@ == self@[index as int].1,
    {
        self.columns.value_at(index)
    }
}

} // verus!
