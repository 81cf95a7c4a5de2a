//! A table of text keyed by text: at most one row per key, kept in the
//! order in which the database would list it.

use vstd::prelude::*;
use crate::order::{
    lemma_asymmetric,
    lemma_connected,
    lemma_irreflexive,
    lemma_transitive,
    precedes,
    str_precedes,
};

verus! {

/// Whether the keys of `rows` strictly ascend.
pub open spec fn ascending(rows: Seq<(Seq<char>, Seq<char>)>) -> bool {
    forall|i: int, j: int|
        0 <= i < j < rows.len() ==> precedes((#[trigger] rows[i]).0, (#[trigger] rows[j]).0)
}

/// Whether `rows` is `table` listed by ascending key: every row is an
/// entry of the table, and every key of the table has its row.
pub open spec fn listing(rows: Seq<(Seq<char>, Seq<char>)>, table: Map<Seq<char>, Seq<char>>) -> bool {
    &&& ascending(rows)
    &&& forall|i: int|
        0 <= i < rows.len() ==> table.contains_pair((#[trigger] rows[i]).0, rows[i].1)
    &&& forall|key: Seq<char>| #[trigger]
        table.contains_key(key) ==> exists|i: int| 0 <= i < rows.len() && (#[trigger] rows[i]).0 == key
}

/// In an ascending sequence, the rows from the first one that does not
/// come before `key` onwards are those whose key is not before `key`, and
/// `key` can only be found at that place.
pub proof fn lemma_place(rows: Seq<(Seq<char>, Seq<char>)>, place: int, key: Seq<char>)
    requires
        ascending(rows),
        0 <= place <= rows.len(),
        forall|i: int| 0 <= i < place ==> precedes((#[trigger] rows[i]).0, key),
        place < rows.len() ==> !precedes(rows[place].0, key),
    ensures
        forall|i: int| place <= i < rows.len() ==> !precedes((#[trigger] rows[i]).0, key),
        forall|i: int| 0 <= i < rows.len() && i != place ==> (#[trigger] rows[i]).0 != key,
        forall|i: int|
            place < i < rows.len() && !precedes(key, rows[place].0) ==> precedes(
                key,
                (#[trigger] rows[i]).0,
            ),
{
    assert forall|i: int| place <= i < rows.len() implies !precedes((#[trigger] rows[i]).0, key) by {
        if i > place && precedes(rows[i].0, key) {
            lemma_transitive(rows[place].0, rows[i].0, key);
        }
    }
    assert forall|i: int| 0 <= i < rows.len() && i != place implies (#[trigger] rows[i]).0
        != key by {
        lemma_irreflexive(key);
        if i > place && rows[i].0 == key {
            assert(precedes(rows[place].0, rows[i].0));
        }
    }
    assert forall|i: int| place < i < rows.len() && !precedes(key, rows[place].0) implies precedes(
        key,
        (#[trigger] rows[i]).0,
    ) by {
        lemma_connected(key, rows[place].0);
        assert(precedes(rows[place].0, rows[i].0));
    }
}

/// A listing without its last row lists the table without that row's
/// key.
pub proof fn lemma_listing_drop_last(
    rows: Seq<(Seq<char>, Seq<char>)>,
    table: Map<Seq<char>, Seq<char>>,
)
    requires
        listing(rows, table),
        rows.len() > 0,
    ensures
        listing(rows.drop_last(), table.remove(rows.last().0)),
{
    let front = rows.drop_last();
    let rest = table.remove(rows.last().0);
    lemma_irreflexive(rows.last().0);
    assert forall|key: Seq<char>| #[trigger] rest.contains_key(key) implies exists|k: int|
        0 <= k < front.len() && (#[trigger] front[k]).0 == key by {
        assert(table.contains_key(key));
        let k = choose|k: int| 0 <= k < rows.len() && (#[trigger] rows[k]).0 == key;
        assert(front[k].0 == key);
    }
    assert forall|k: int| 0 <= k < front.len() implies rest.contains_pair(
        (#[trigger] front[k]).0,
        front[k].1,
    ) by {
        assert(front[k] == rows[k]);
        assert(precedes(rows[k].0, rows[rows.len() - 1].0));
    }
    assert forall|k: int, l: int| 0 <= k < l < front.len() implies precedes(
        (#[trigger] front[k]).0,
        (#[trigger] front[l]).0,
    ) by {
        assert(front[k] == rows[k] && front[l] == rows[l]);
    }
}

/// A table has one listing only.
pub proof fn lemma_listing_unique(
    first: Seq<(Seq<char>, Seq<char>)>,
    second: Seq<(Seq<char>, Seq<char>)>,
    table: Map<Seq<char>, Seq<char>>,
)
    requires
        listing(first, table),
        listing(second, table),
    ensures
        first == second,
    decreases first.len(),
{
    if first.len() == 0 {
        if second.len() > 0 {
            assert(table.contains_key(second[0].0));
        }
        assert(first =~= second);
    } else if second.len() == 0 {
        assert(table.contains_key(first[0].0));
    } else {
        let a = first.last();
        let b = second.last();
        assert(table.contains_key(a.0));
        assert(table.contains_key(b.0));
        let i = choose|i: int| 0 <= i < second.len() && (#[trigger] second[i]).0 == a.0;
        let j = choose|j: int| 0 <= j < first.len() && (#[trigger] first[j]).0 == b.0;
        if a.0 != b.0 {
            assert(precedes(second[i].0, b.0));
            assert(precedes(first[j].0, a.0));
            lemma_asymmetric(a.0, b.0);
        }
        assert(a == b);
        lemma_listing_drop_last(first, table);
        lemma_listing_drop_last(second, table);
        lemma_listing_unique(first.drop_last(), second.drop_last(), table.remove(a.0));
        assert(first =~= first.drop_last().push(a));
        assert(second =~= second.drop_last().push(b));
    }
}

/// A table held in memory.
pub struct Table {
    rows: Vec<(String, String)>,
    model: Ghost<Map<Seq<char>, Seq<char>>>,
}

impl View for Table {
    type V = Map<Seq<char>, Seq<char>>;

    /// The value stored under each key.
    closed spec fn view(&self) -> Map<Seq<char>, Seq<char>> {
        self.model@
    }
}

impl Table {
    /// The rows in the order in which they are kept.
    pub closed spec fn entries(&self) -> Seq<(Seq<char>, Seq<char>)> {
        Seq::new(self.rows.len() as nat, |i: int| (self.rows[i].0@, self.rows[i].1@))
    }

    /// The rows are the listing of the table, which is finite.
    pub open spec fn wf(&self) -> bool {
        &&& listing(self.entries(), self@)
        &&& self@.dom().finite()
        &&& self@.dom().len() == self.entries().len()
    }

    pub fn new() -> (table: Table)
        ensures
            table.wf(),
            table@ == Map::<Seq<char>, Seq<char>>::empty(),
            table.entries() == Seq::<(Seq<char>, Seq<char>)>::empty(),
    {
        let table = Table { rows: Vec::new(), model: Ghost(Map::empty()) };
        assert(table.entries() =~= Seq::empty());
        table
    }

    /// How many rows the table holds.
    pub fn len(&self) -> (count: usize)
        ensures
            count == self.entries().len(),
    {
        self.rows.len()
    }

    /// The row at `index` of the listing, if it has that many rows.
    pub fn row(&self, index: usize) -> (row: Option<(&str, &str)>)
        ensures
            match row {
                Some(pair) => index < self.entries().len() && (pair.0@, pair.1@)
                    == self.entries()[index as int],
                None => index >= self.entries().len(),
            },
    {
        if index < self.rows.len() {
            Some((self.rows[index].0.as_str(), self.rows[index].1.as_str()))
        } else {
            None
        }
    }

    /// The index of the first row whose key does not come before `key`.
    fn place(&self, key: &str) -> (place: usize)
        ensures
            place <= self.entries().len(),
            forall|i: int| 0 <= i < place ==> precedes((#[trigger] self.entries()[i]).0, key@),
            place < self.entries().len() ==> !precedes(self.entries()[place as int].0, key@),
    {
        let mut place: usize = 0;
        while place < self.rows.len() && str_precedes(self.rows[place].0.as_str(), key)
            invariant
                place <= self.rows.len(),
                forall|i: int| 0 <= i < place ==> precedes((#[trigger] self.entries()[i]).0, key@),
            decreases self.rows.len() - place,
        {
            place += 1;
        }
        place
    }

    /// The value stored under `key`, if there is one.
    pub fn get(&self, key: &str) -> (value: Option<&str>)
        requires
            self.wf(),
        ensures
            match value {
                Some(text) => self@.contains_pair(key@, text@),
                None => !self@.contains_key(key@),
            },
    {
        let place = self.place(key);
        proof {
            lemma_place(self.entries(), place as int, key@);
        }
        if place < self.rows.len() && !str_precedes(key, self.rows[place].0.as_str()) {
            proof {
                lemma_connected(key@, self.entries()[place as int].0);
            }
            Some(self.rows[place].1.as_str())
        } else {
            proof {
                if place < self.rows.len() {
                    lemma_irreflexive(key@);
                }
            }
            None
        }
    }

    /// Stores `value` under `key`, in place of what was stored there.
    pub fn put(&mut self, key: String, value: String)
        requires
            old(self).wf(),
        ensures
            final(self).wf(),
            final(self)@ == old(self)@.insert(key@, value@),
    {
        let place = self.place(key.as_str());
        let ghost before = self.entries();
        let ghost table = self@;
        let ghost pair = (key@, value@);
        proof {
            lemma_place(before, place as int, key@);
            lemma_irreflexive(key@);
        }
        if place < self.rows.len() && !str_precedes(key.as_str(), self.rows[place].0.as_str()) {
            proof {
                lemma_connected(key@, before[place as int].0);
            }
            self.rows.set(place, (key, value));
            self.model = Ghost(table.insert(pair.0, pair.1));
            proof {
                let after = self.entries();
                assert(after =~= before.update(place as int, pair));
                assert(table.contains_key(pair.0));
                assert(table.dom().insert(pair.0) =~= table.dom());
                assert forall|k: Seq<char>| #[trigger] self@.contains_key(k) implies exists|i: int|
                    0 <= i < after.len() && (#[trigger] after[i]).0 == k by {
                    if k == pair.0 {
                        assert(after[place as int].0 == k);
                    } else {
                        assert(table.contains_key(k));
                        let i = choose|i: int| 0 <= i < before.len() && (#[trigger] before[i]).0 == k;
                        assert(after[i].0 == k);
                    }
                }
                assert forall|i: int, j: int| 0 <= i < j < after.len() implies precedes(
                    (#[trigger] after[i]).0,
                    (#[trigger] after[j]).0,
                ) by {
                    assert(after[i].0 == before[i].0 && after[j].0 == before[j].0);
                }
                assert forall|i: int| 0 <= i < after.len() implies self@.contains_pair(
                    (#[trigger] after[i]).0,
                    after[i].1,
                ) by {
                    if i != place {
                        assert(after[i] == before[i]);
                    }
                }
            }
        } else {
            self.rows.insert(place, (key, value));
            self.model = Ghost(table.insert(pair.0, pair.1));
            proof {
                let after = self.entries();
                assert(after =~= before.insert(place as int, pair));
                assert(!table.contains_key(pair.0)) by {
                    if table.contains_key(pair.0) {
                        let i = choose|i: int|
                            0 <= i < before.len() && (#[trigger] before[i]).0 == pair.0;
                        assert(i == place);
                    }
                }
                assert forall|k: Seq<char>| #[trigger] self@.contains_key(k) implies exists|i: int|
                    0 <= i < after.len() && (#[trigger] after[i]).0 == k by {
                    if k == pair.0 {
                        assert(after[place as int].0 == k);
                    } else {
                        assert(table.contains_key(k));
                        let i = choose|i: int| 0 <= i < before.len() && (#[trigger] before[i]).0 == k;
                        if i < place {
                            assert(after[i].0 == k);
                        } else {
                            assert(after[i + 1].0 == k);
                        }
                    }
                }
                assert forall|i: int, j: int| 0 <= i < j < after.len() implies precedes(
                    (#[trigger] after[i]).0,
                    (#[trigger] after[j]).0,
                ) by {
                    if j < place {
                        assert(after[i] == before[i] && after[j] == before[j]);
                    } else if j == place {
                        assert(after[i] == before[i]);
                    } else if i < place {
                        assert(after[i] == before[i] && after[j] == before[j - 1]);
                        assert(precedes(before[i].0, pair.0));
                        if !precedes(pair.0, before[j - 1].0) {
                            lemma_connected(pair.0, before[j - 1].0);
                        } else {
                            lemma_transitive(before[i].0, pair.0, before[j - 1].0);
                        }
                    } else if i == place {
                        assert(after[j] == before[j - 1]);
                        if !precedes(pair.0, before[j - 1].0) {
                            lemma_connected(pair.0, before[j - 1].0);
                        }
                    } else {
                        assert(after[i] == before[i - 1] && after[j] == before[j - 1]);
                    }
                }
                assert forall|i: int| 0 <= i < after.len() implies self@.contains_pair(
                    (#[trigger] after[i]).0,
                    after[i].1,
                ) by {
                    if i < place {
                        assert(after[i] == before[i]);
                    } else if i > place {
                        assert(after[i] == before[i - 1]);
                    }
                }
            }
        }
    }

    /// Removes the row stored under `key`, if there is one.
    pub fn remove(&mut self, key: &str)
        requires
            old(self).wf(),
        ensures
            final(self).wf(),
            final(self)@ == old(self)@.remove(key@),
    {
        let place = self.place(key);
        let ghost before = self.entries();
        let ghost table = self@;
        proof {
            lemma_place(before, place as int, key@);
            lemma_irreflexive(key@);
        }
        if place < self.rows.len() && !str_precedes(key, self.rows[place].0.as_str()) {
            proof {
                lemma_connected(key@, before[place as int].0);
            }
            self.rows.remove(place);
            self.model = Ghost(table.remove(key@));
            proof {
                let after = self.entries();
                assert(after =~= before.remove(place as int));
                assert(table.contains_key(key@));
                assert forall|k: Seq<char>| #[trigger] self@.contains_key(k) implies exists|i: int|
                    0 <= i < after.len() && (#[trigger] after[i]).0 == k by {
                    assert(table.contains_key(k));
                    let i = choose|i: int| 0 <= i < before.len() && (#[trigger] before[i]).0 == k;
                    if i < place {
                        assert(after[i].0 == k);
                    } else {
                        assert(after[i - 1].0 == k);
                    }
                }
                assert forall|i: int, j: int| 0 <= i < j < after.len() implies precedes(
                    (#[trigger] after[i]).0,
                    (#[trigger] after[j]).0,
                ) by {
                    let a = if i < place { i } else { i + 1 };
                    let b = if j < place { j } else { j + 1 };
                    assert(after[i] == before[a] && after[j] == before[b]);
                }
                assert forall|i: int| 0 <= i < after.len() implies self@.contains_pair(
                    (#[trigger] after[i]).0,
                    after[i].1,
                ) by {
                    let a = if i < place { i } else { i + 1 };
                    assert(after[i] == before[a]);
                }
            }
        } else {
            proof {
                assert(!table.contains_key(key@)) by {
                    if table.contains_key(key@) {
                        let i = choose|i: int|
                            0 <= i < before.len() && (#[trigger] before[i]).0 == key@;
                        assert(i == place);
                    }
                }
                assert(table.remove(key@) =~= table);
            }
        }
    }
}

} // verus!
