//! Ordered lists of named values: the parameters that a route binds, the
//! pairs of a query string.

use crate::text::bytes_eq;
use vstd::prelude::*;

verus! {

/// The views of a list of name and value pairs.
pub open spec fn pairs(v: Seq<(Vec<u8>, Vec<u8>)>) -> Seq<(Seq<u8>, Seq<u8>)> {
    v.map_values(|e: (Vec<u8>, Vec<u8>)| (e.0@, e.1@))
}

/// The value of the first pair named `name`, if there is one.
pub open spec fn first_value(list: Seq<(Seq<u8>, Seq<u8>)>, name: Seq<u8>) -> Option<Seq<u8>>
    decreases list.len(),
{
    if list.len() == 0 {
        None
    } else if list[0].0 == name {
        Some(list[0].1)
    } else {
        first_value(list.drop_first(), name)
    }
}

/// Whether one of the pairs is named `name`.
pub open spec fn has_name(list: Seq<(Seq<u8>, Seq<u8>)>, name: Seq<u8>) -> bool {
    exists|i: int| 0 <= i < list.len() && (#[trigger] list[i]).0 == name
}

/// How many different names the pairs have.
pub open spec fn distinct_names(list: Seq<(Seq<u8>, Seq<u8>)>) -> nat
    decreases list.len(),
{
    if list.len() == 0 {
        0
    } else {
        let front = list.drop_last();
        if has_name(front, list.last().0) {
            distinct_names(front)
        } else {
            distinct_names(front) + 1
        }
    }
}

/// An ordered mapping from names to values. Pairs keep the order in which
/// they were added; a name that occurs twice is found at its first pair.
#[derive(Clone, Debug, PartialEq, Eq)]
pub struct ParamMap {
    pub entries: Vec<(Vec<u8>, Vec<u8>)>,
}

impl View for ParamMap {
    type V = Seq<(Seq<u8>, Seq<u8>)>;

    open spec fn view(&self) -> Seq<(Seq<u8>, Seq<u8>)> {
        pairs(self.entries@)
    }
}

impl ParamMap {
    /// A mapping without pairs.
    pub fn new() -> (map: ParamMap)
        ensures
            map@ == Seq::<(Seq<u8>, Seq<u8>)>::empty(),
    {
        let map = ParamMap { entries: Vec::new() };
        assert(map@ =~= Seq::<(Seq<u8>, Seq<u8>)>::empty());
        map
    }

    /// Adds a pair behind those already held.
    pub fn push(&mut self, name: Vec<u8>, value: Vec<u8>)
        ensures
            final(self)@ == old(self)@.push((name@, value@)),
    {
        self.entries.push((name, value));
        assert(self@ =~= old(self)@.push((name@, value@)));
    }

    /// The number of pairs.
    pub fn len(&self) -> (n: usize)
        ensures
            n == self@.len(),
    {
        self.entries.len()
    }

    /// Whether no pair is held.
    pub fn is_empty(&self) -> (empty: bool)
        ensures
            empty == (self@.len() == 0),
    {
        self.entries.len() == 0
    }

    /// A copy with the same pairs in the same order.
    pub fn copy(&self) -> (other: ParamMap)
        ensures
            other@ == self@,
    {
        let mut other = ParamMap::new();
        let mut i: usize = 0;
        while i < self.entries.len()
            invariant
                i <= self.entries.len(),
                other@ == self@.take(i as int),
            decreases self.entries.len() - i,
        {
            other.push(self.entries[i].0.clone(), self.entries[i].1.clone());
            assert(self@.take(i + 1) =~= self@.take(i as int).push(self@[i as int]));
            i += 1;
        }
        assert(self@.take(i as int) =~= self@);
        other
    }

    /// Whether one of the first `upto` pairs has the name of pair `at`.
    fn named_before(&self, at: usize, upto: usize) -> (seen: bool)
        requires
            upto <= at < self.entries.len(),
        ensures
            seen == has_name(self@.take(upto as int), self@[at as int].0),
    {
        let mut j: usize = 0;
        while j < upto
            invariant
                j <= upto <= at < self.entries.len(),
                !has_name(self@.take(j as int), self@[at as int].0),
            decreases upto - j,
        {
            if bytes_eq(self.entries[j].0.as_slice(), self.entries[at].0.as_slice()) {
                assert(self@.take(upto as int)[j as int].0 == self@[at as int].0);
                return true;
            }
            assert forall|k: int| 0 <= k < j + 1 implies (#[trigger] self@.take(j + 1)[k]).0
                != self@[at as int].0 by {
                if k < j {
                    assert(self@.take(j as int)[k].0 != self@[at as int].0);
                }
            }
            j += 1;
        }
        false
    }

    /// How many different names the pairs have.
    pub fn name_count(&self) -> (n: usize)
        ensures
            n == distinct_names(self@),
    {
        let mut n: usize = 0;
        let mut i: usize = 0;
        assert(self@.take(0) =~= Seq::<(Seq<u8>, Seq<u8>)>::empty());
        while i < self.entries.len()
            invariant
                i <= self.entries.len(),
                n <= i,
                n == distinct_names(self@.take(i as int)),
            decreases self.entries.len() - i,
        {
            let seen = self.named_before(i, i);
            assert(self@.take(i + 1).drop_last() =~= self@.take(i as int));
            assert(self@.take(i + 1).last() == self@[i as int]);
            if !seen {
                n += 1;
            }
            i += 1;
        }
        assert(self@.take(i as int) =~= self@);
        n
    }

    /// The value bound to `name`: that of the first pair with this name.
    pub fn get(&self, name: &[u8]) -> (value: Option<&Vec<u8>>)
        ensures
            match value {
                Some(v) => first_value(self@, name@) == Some(v@),
                None => first_value(self@, name@) is None,
            },
    {
        let mut i: usize = 0;
        assert(self@.skip(0) =~= self@);
        while i < self.entries.len()
            invariant
                i <= self.entries.len(),
                first_value(self@, name@) == first_value(self@.skip(i as int), name@),
            decreases self.entries.len() - i,
        {
            let ghost rest = self@.skip(i as int);
            assert(rest[0] == self@[i as int]);
            assert(rest.drop_first() =~= self@.skip(i + 1));
            if bytes_eq(self.entries[i].0.as_slice(), name) {
                return Some(&self.entries[i].1);
            }
            i += 1;
        }
        None
    }
}

} // verus!
