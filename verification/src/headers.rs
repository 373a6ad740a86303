//! Request headers: an ordered list of name and value in which no name
//! stands twice, so that it reads as a mapping where the last write wins.

use vstd::prelude::*;
use vstd::string::*;

verus! {

/// A header as two sequences of characters: name, value.
pub type HeaderModel = (Seq<char>, Seq<char>);

/// No name stands twice.
pub open spec fn names_distinct(pairs: Seq<HeaderModel>) -> bool {
    forall|i: int, j: int| 0 <= i < j < pairs.len() ==> pairs[i].0 != pairs[j].0
}

/// Some entry has this name.
pub open spec fn has_name(pairs: Seq<HeaderModel>, name: Seq<char>) -> bool {
    exists|i: int| 0 <= i < pairs.len() && pairs[i].0 == name
}

/// The entry at `i` has this name and none before it has.
pub open spec fn is_first_named(pairs: Seq<HeaderModel>, name: Seq<char>, i: int) -> bool {
    &&& 0 <= i < pairs.len()
    &&& pairs[i].0 == name
    &&& forall|j: int| 0 <= j < i ==> pairs[j].0 != name
}

/// The place of the first entry with this name, where there is one.
pub open spec fn index_of_name(pairs: Seq<HeaderModel>, name: Seq<char>) -> int {
    choose|i: int| is_first_named(pairs, name, i)
}

/// The value stored under a name.
pub open spec fn value_of(pairs: Seq<HeaderModel>, name: Seq<char>) -> Option<Seq<char>> {
    if has_name(pairs, name) {
        Some(pairs[index_of_name(pairs, name)].1)
    } else {
        None
    }
}

/// The list after a write: an entry of that name keeps its place and takes
/// the new value; a new name goes to the end.
pub open spec fn with_header(pairs: Seq<HeaderModel>, name: Seq<char>, value: Seq<char>) -> Seq<
    HeaderModel,
> {
    if has_name(pairs, name) {
        pairs.update(index_of_name(pairs, name), (name, value))
    } else {
        pairs.push((name, value))
    }
}

/// Where an entry has the name, one of them is the first.
pub proof fn lemma_first_named_exists(pairs: Seq<HeaderModel>, name: Seq<char>, i: int)
    requires
        0 <= i < pairs.len(),
        pairs[i].0 == name,
    ensures
        is_first_named(pairs, name, index_of_name(pairs, name)),
    decreases i,
{
    if forall|j: int| 0 <= j < i ==> pairs[j].0 != name {
        assert(is_first_named(pairs, name, i));
    } else {
        let j = choose|j: int| 0 <= j < i && pairs[j].0 == name;
        lemma_first_named_exists(pairs, name, j);
    }
}

/// Only one place is the first of its name.
pub proof fn lemma_first_named_unique(pairs: Seq<HeaderModel>, name: Seq<char>, i: int)
    requires
        is_first_named(pairs, name, i),
    ensures
        has_name(pairs, name),
        index_of_name(pairs, name) == i,
{
    let k = index_of_name(pairs, name);
    assert(is_first_named(pairs, name, k));
}

/// A write keeps the names distinct.
pub proof fn lemma_write_keeps_distinct(pairs: Seq<HeaderModel>, name: Seq<char>, value: Seq<char>)
    requires
        names_distinct(pairs),
    ensures
        names_distinct(with_header(pairs, name, value)),
{
    let after = with_header(pairs, name, value);
    if has_name(pairs, name) {
        let w = choose|i: int| 0 <= i < pairs.len() && pairs[i].0 == name;
        lemma_first_named_exists(pairs, name, w);
        assert forall|i: int, j: int| 0 <= i < j < after.len() implies after[i].0 != after[j].0 by {
            assert(after[i].0 == pairs[i].0);
            assert(after[j].0 == pairs[j].0);
        }
    } else {
        assert forall|i: int, j: int| 0 <= i < j < after.len() implies after[i].0 != after[j].0 by {
            if j == pairs.len() {
                assert(after[i].0 == pairs[i].0);
            }
        }
    }
}

/// The last write wins: after a write the name reads as the new value, and
/// every other name reads as before.
pub proof fn lemma_last_write_wins(
    pairs: Seq<HeaderModel>,
    name: Seq<char>,
    value: Seq<char>,
    other: Seq<char>,
)
    ensures
        value_of(with_header(pairs, name, value), name) == Some(value),
        other != name ==> value_of(with_header(pairs, name, value), other) == value_of(
            pairs,
            other,
        ),
{
    let after = with_header(pairs, name, value);
    if has_name(pairs, name) {
        let w = choose|i: int| 0 <= i < pairs.len() && pairs[i].0 == name;
        lemma_first_named_exists(pairs, name, w);
    }
    let k = if has_name(pairs, name) {
        index_of_name(pairs, name)
    } else {
        pairs.len() as int
    };
    assert(is_first_named(after, name, k)) by {
        assert forall|j: int| 0 <= j < k implies after[j].0 != name by {
            assert(after[j] == pairs[j]);
        }
    }
    lemma_first_named_unique(after, name, k);
    if other != name {
        if has_name(pairs, other) {
            let w = choose|i: int| 0 <= i < pairs.len() && pairs[i].0 == other;
            lemma_first_named_exists(pairs, other, w);
            let m = index_of_name(pairs, other);
            assert(after[m] == pairs[m]);
            assert(is_first_named(after, other, m)) by {
                assert forall|j: int| 0 <= j < m implies after[j].0 != other by {
                    if j != k {
                        assert(after[j] == pairs[j]);
                    }
                }
            }
            lemma_first_named_unique(after, other, m);
        } else {
            if has_name(after, other) {
                let n = choose|i: int| 0 <= i < after.len() && after[i].0 == other;
                assert(n != k);
                assert(after[n] == pairs[n]);
                assert(false);
            }
        }
    }
}

/// The headers of a request.
pub struct Headers {
    entries: Vec<(String, String)>,
}

impl Headers {
    /// The entries in order, each as sequences of characters.
    pub closed spec fn pairs(&self) -> Seq<HeaderModel> {
        Seq::new(self.entries@.len(), |i: int| (self.entries@[i].0@, self.entries@[i].1@))
    }

    /// No name stands twice. It holds of `new()` and every write keeps it.
    pub open spec fn wf(&self) -> bool {
        names_distinct(self.pairs())
    }

    /// No headers.
    pub fn new() -> (headers: Self)
        ensures
            headers.pairs() == Seq::<HeaderModel>::empty(),
            headers.wf(),
    {
        let headers = Headers { entries: Vec::new() };
        assert(headers.pairs() =~= Seq::<HeaderModel>::empty());
        headers
    }

    /// Number of entries.
    pub fn len(&self) -> (n: usize)
        ensures
            n == self.pairs().len(),
    {
        self.entries.len()
    }

    /// The place of the first entry named `name`.
    pub fn find(&self, name: &String) -> (found: Option<usize>)
        ensures
            found is Some == has_name(self.pairs(), name@),
            found is Some ==> found->0 == index_of_name(self.pairs(), name@),
            found is Some ==> is_first_named(self.pairs(), name@, found->0 as int),
    {
        let mut i: usize = 0;
        while i < self.entries.len()
            invariant
                i <= self.entries.len(),
                forall|j: int| 0 <= j < i ==> self.pairs()[j].0 != name@,
            decreases self.entries.len() - i,
        {
            if self.entries[i].0 == *name {
                proof {
                    assert(self.pairs()[i as int].0 == name@);
                    lemma_first_named_unique(self.pairs(), name@, i as int);
                }
                return Some(i);
            }
            assert(self.pairs()[i as int].0 != name@);
            i += 1;
        }
        None
    }

    /// The value stored under `name`.
    pub fn get(&self, name: &String) -> (value: Option<&String>)
        ensures
            match value {
                Some(v) => value_of(self.pairs(), name@) == Some(v@),
                None => value_of(self.pairs(), name@) is None,
            },
    {
        match self.find(name) {
            Some(i) => Some(&self.entries[i].1),
            None => None,
        }
    }

    /// Name and value of the entry at `index`.
    pub fn entry(&self, index: usize) -> (pair: (&String, &String))
        requires
            index < self.pairs().len(),
        ensures
            (pair.0@, pair.1@) == self.pairs()[index as int],
    {
        (&self.entries[index].0, &self.entries[index].1)
    }

    /// A second list with the same entries.
    pub fn copy(&self) -> (twin: Self)
        ensures
            twin.pairs() == self.pairs(),
    {
        let mut entries: Vec<(String, String)> = Vec::new();
        let mut i: usize = 0;
        while i < self.entries.len()
            invariant
                i <= self.entries.len(),
                entries@.len() == i,
                forall|j: int|
                    0 <= j < i ==> entries@[j].0@ == self.entries@[j].0@ && entries@[j].1@
                        == self.entries@[j].1@,
            decreases self.entries.len() - i,
        {
            entries.push((self.entries[i].0.clone(), self.entries[i].1.clone()));
            i += 1;
        }
        let twin = Headers { entries };
        assert(twin.pairs() =~= self.pairs());
        twin
    }

    /// Writes a header: a name already there takes the new value in place, a
    /// new name is added at the end.
    pub fn insert(&mut self, name: String, value: String)
        ensures
            final(self).pairs() == with_header(old(self).pairs(), name@, value@),
            old(self).wf() ==> final(self).wf(),
    {
        let ghost before = self.pairs();
        proof {
            if names_distinct(before) {
                lemma_write_keeps_distinct(before, name@, value@);
            }
        }
        match self.find(&name) {
            Some(i) => {
                self.entries.set(i, (name, value));
                assert(self.pairs() =~= with_header(before, name@, value@));
            },
            None => {
                self.entries.push((name, value));
                assert(self.pairs() =~= with_header(before, name@, value@));
            },
        }
    }
}

} // verus!
