//! Small maps from names to texts that keep the order in which names were
//! first set.

use crate::http::Header;
use crate::text::str_equal;
use vstd::prelude::*;
use vstd::string::*;

verus! {

/// Names with their values, in order.
pub type Pairs = Seq<(Seq<char>, Seq<char>)>;

/// The index of the first pair named `name`, or the number of pairs when
/// there is none.
pub open spec fn position(pairs: Pairs, name: Seq<char>) -> int
    decreases pairs.len(),
{
    if pairs.len() == 0 {
        0
    } else if pairs[0].0 == name {
        0
    } else {
        1 + position(pairs.drop_first(), name)
    }
}

/// The value under `name`, if there is one.
pub open spec fn lookup(pairs: Pairs, name: Seq<char>) -> Option<Seq<char>> {
    if position(pairs, name) < pairs.len() {
        Some(pairs[position(pairs, name)].1)
    } else {
        None
    }
}

/// The pairs with `name` set to `value`: in place where the name is there
/// already, at the end where it is new.
pub open spec fn put(pairs: Pairs, name: Seq<char>, value: Seq<char>) -> Pairs {
    if position(pairs, name) < pairs.len() {
        pairs.update(position(pairs, name), (name, value))
    } else {
        pairs.push((name, value))
    }
}

/// Whether no two pairs share a name.
pub open spec fn distinct_names(pairs: Pairs) -> bool {
    forall|i: int, j: int| 0 <= i < j < pairs.len() ==> (#[trigger] pairs[i]).0 != (
    #[trigger] pairs[j]).0
}

/// [`position`] is in range, no earlier pair has the name, and the pair
/// there has it.
pub proof fn lemma_position(pairs: Pairs, name: Seq<char>)
    ensures
        0 <= position(pairs, name) <= pairs.len(),
        forall|j: int| 0 <= j < position(pairs, name) ==> pairs[j].0 != name,
        position(pairs, name) < pairs.len() ==> pairs[position(pairs, name)].0 == name,
    decreases pairs.len(),
{
    if pairs.len() == 0 {
    } else if pairs[0].0 == name {
    } else {
        let rest = pairs.drop_first();
        lemma_position(rest, name);
        assert forall|j: int| 0 <= j < position(pairs, name) implies pairs[j].0 != name by {
            if j > 0 {
                assert(pairs[j] == rest[j - 1]);
            }
        }
        if position(rest, name) < rest.len() {
            assert(pairs[position(pairs, name)] == rest[position(rest, name)]);
        }
    }
}

/// A place that no pair of that name precedes, and where such a pair
/// stands or the pairs end, is the [`position`].
pub proof fn lemma_position_is(pairs: Pairs, name: Seq<char>, k: int)
    requires
        0 <= k <= pairs.len(),
        forall|j: int| 0 <= j < k ==> pairs[j].0 != name,
        k < pairs.len() ==> pairs[k].0 == name,
    ensures
        position(pairs, name) == k,
{
    lemma_position(pairs, name);
    let p = position(pairs, name);
    if p < k {
        assert(pairs[p].0 == name);
    } else if p > k {
        assert(pairs[k].0 != name);
    }
}

/// Setting a name keeps names distinct, makes the name's value the one
/// set, and leaves every other name as it was.
pub proof fn lemma_put(pairs: Pairs, name: Seq<char>, value: Seq<char>, other: Seq<char>)
    requires
        distinct_names(pairs),
    ensures
        distinct_names(put(pairs, name, value)),
        lookup(put(pairs, name, value), name) == Some(value),
        other != name ==> lookup(put(pairs, name, value), other) == lookup(pairs, other),
{
    lemma_position(pairs, name);
    lemma_position(pairs, other);
    let p = position(pairs, name);
    let q = position(pairs, other);
    let after = put(pairs, name, value);
    assert forall|j: int| 0 <= j < p implies after[j].0 != name by {
        assert(after[j] == pairs[j]);
    }
    lemma_position_is(after, name, p);
    if other != name {
        assert forall|j: int| 0 <= j < q implies after[j].0 != other by {
            if j < pairs.len() && j != p {
                assert(after[j] == pairs[j]);
            }
        }
        if q < pairs.len() {
            assert(after[q] == pairs[q]);
            lemma_position_is(after, other, q);
        } else {
            lemma_position_is(after, other, after.len() as int);
        }
    }
    assert forall|i: int, j: int| 0 <= i < j < after.len() implies (#[trigger] after[i]).0 != (
    #[trigger] after[j]).0 by {
        if p < pairs.len() {
            if i == p {
                assert(after[j] == pairs[j]);
                assert(pairs[p].0 != pairs[j].0);
            } else if j == p {
                assert(after[i] == pairs[i]);
                assert(pairs[i].0 != pairs[p].0);
            } else {
                assert(after[i] == pairs[i] && after[j] == pairs[j]);
            }
        } else {
            if j == pairs.len() {
                assert(after[i] == pairs[i]);
            } else {
                assert(after[i] == pairs[i] && after[j] == pairs[j]);
            }
        }
    }
}

/// A map from names to texts. Each name occurs once; the names keep the
/// order in which they were first set.
#[derive(Debug)]
pub struct StringMap {
    entries: Vec<Header>,
}

impl DeepView for StringMap {
    type V = Pairs;

    closed spec fn deep_view(&self) -> Pairs {
        self.entries.deep_view()
    }
}

impl Clone for StringMap {
    fn clone(&self) -> (r: Self)
        ensures
            r.deep_view() == self.deep_view(),
    {
        let mut entries: Vec<Header> = Vec::new();
        let mut i: usize = 0;
        while i < self.entries.len()
            invariant
                i <= self.entries.len(),
                entries.len() == i,
                forall|k: int|
                    0 <= k < i ==> (#[trigger] entries[k]).deep_view()
                        == self.entries[k].deep_view(),
            decreases self.entries.len() - i,
        {
            entries.push(
                Header {
                    name: self.entries[i].name.clone(),
                    value: self.entries[i].value.clone(),
                },
            );
            i += 1;
        }
        assert(entries.deep_view() =~= self.entries.deep_view());
        StringMap { entries }
    }
}

impl StringMap {
    /// An empty map.
    pub fn new() -> (r: Self)
        ensures
            r.deep_view() == Pairs::empty(),
    {
        let r = StringMap { entries: Vec::new() };
        assert(r.entries.deep_view() =~= Pairs::empty());
        r
    }

    /// The number of names.
    pub fn len(&self) -> (r: usize)
        ensures
            r == self.deep_view().len(),
    {
        self.entries.len()
    }

    /// The pair at `index`.
    pub fn entry(&self, index: usize) -> (r: &Header)
        requires
            index < self.deep_view().len(),
        ensures
            r.deep_view() == self.deep_view()[index as int],
    {
        &self.entries[index]
    }

    fn index_of(&self, name: &str) -> (r: usize)
        ensures
            r == position(self.deep_view(), name@),
            r <= self.entries.len(),
    {
        let mut i: usize = 0;
        while i < self.entries.len()
            invariant
                i <= self.entries.len(),
                forall|j: int| 0 <= j < i ==> self.deep_view()[j].0 != name@,
            decreases self.entries.len() - i,
        {
            if str_equal(self.entries[i].name.as_str(), name) {
                proof {
                    lemma_position_is(self.deep_view(), name@, i as int);
                }
                return i;
            }
            i += 1;
        }
        proof {
            lemma_position_is(self.deep_view(), name@, i as int);
        }
        i
    }

    /// The value under `name`, if there is one.
    pub fn get(&self, name: &str) -> (r: Option<&str>)
        ensures
            r.deep_view() == lookup(self.deep_view(), name@),
    {
        let i = self.index_of(name);
        if i < self.entries.len() {
            Some(self.entries[i].value.as_str())
        } else {
            None
        }
    }

    /// Sets `name` to `value`.
    pub fn insert(&mut self, name: &str, value: &str)
        ensures
            final(self).deep_view() == put(old(self).deep_view(), name@, value@),
    {
        let i = self.index_of(name);
        let ghost before = self.deep_view();
        let entry = Header { name: name.to_owned(), value: value.to_owned() };
        if i < self.entries.len() {
            self.entries.set(i, entry);
            assert(self.entries.deep_view() =~= before.update(i as int, (name@, value@)));
        } else {
            self.entries.push(entry);
            assert(self.entries.deep_view() =~= before.push((name@, value@)));
        }
    }
}

} // verus!
