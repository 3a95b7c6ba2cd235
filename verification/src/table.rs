//! A small keyed table: the model of the process-wide maps from an
//! identifier to a value. Each key occurs at most once.

use vstd::prelude::*;

verus! {

/// One row of a table.
pub struct Row<V> {
    pub key: String,
    pub value: V,
}

/// The keys of a run of rows, in order.
pub open spec fn row_keys<V>(rows: Seq<Row<V>>) -> Seq<Seq<char>> {
    rows.map_values(|r: Row<V>| r.key@)
}

/// The map that a run of rows with distinct keys stands for.
pub open spec fn rows_map<V>(rows: Seq<Row<V>>) -> Map<Seq<char>, V> {
    Map::new(
        |k: Seq<char>| row_keys(rows).contains(k),
        |k: Seq<char>| rows[row_keys(rows).index_of(k)].value,
    )
}

/// In a run of rows with distinct keys, the row at `i` is the one its key
/// maps to.
pub proof fn lemma_row_at<V>(rows: Seq<Row<V>>, i: int)
    requires
        row_keys(rows).no_duplicates(),
        0 <= i < rows.len(),
    ensures
        rows_map(rows).contains_key(rows[i].key@),
        rows_map(rows)[rows[i].key@] == rows[i].value,
{
    let keys = row_keys(rows);
    assert(keys[i] == rows[i].key@);
    assert(keys.contains(rows[i].key@));
    let j = keys.index_of(rows[i].key@);
    assert(0 <= j < keys.len() && keys[j] == rows[i].key@);
    assert(j == i);
}

/// A key that no row holds is not in the map.
pub proof fn lemma_row_absent<V>(rows: Seq<Row<V>>, key: Seq<char>)
    requires
        forall|j: int| 0 <= j < rows.len() ==> rows[j].key@ != key,
    ensures
        !rows_map(rows).contains_key(key),
{
    let keys = row_keys(rows);
    if keys.contains(key) {
        let j = choose|j: int| 0 <= j < keys.len() && keys[j] == key;
        assert(rows[j].key@ == key);
    }
}

/// A map from identifiers to values, held as rows with distinct keys.
pub struct Table<V> {
    rows: Vec<Row<V>>,
}

impl<V> View for Table<V> {
    type V = Map<Seq<char>, V>;

    closed spec fn view(&self) -> Map<Seq<char>, V> {
        rows_map(self.rows@)
    }
}

impl<V> Table<V> {
    #[verifier::type_invariant]
    spec fn distinct_keys(&self) -> bool {
        row_keys(self.rows@).no_duplicates()
    }

    /// The empty table.
    pub fn new() -> (r: Self)
        ensures
            r@ == Map::<Seq<char>, V>::empty(),
    {
        let r = Table { rows: Vec::new() };
        assert(r@ =~= Map::<Seq<char>, V>::empty()) by {
            assert forall|k: Seq<char>| !r@.contains_key(k) by {
                lemma_row_absent(r.rows@, k);
            }
        }
        r
    }

    fn find(&self, key: &String) -> (r: Option<usize>)
        ensures
            match r {
                Some(i) => i < self.rows@.len() && self.rows@[i as int].key@ == key@,
                None => forall|j: int| 0 <= j < self.rows@.len() ==> self.rows@[j].key@ != key@,
            },
    {
        let mut i: usize = 0;
        while i < self.rows.len()
            invariant
                i <= self.rows@.len(),
                forall|j: int| 0 <= j < i ==> self.rows@[j].key@ != key@,
            decreases self.rows@.len() - i,
        {
            if self.rows[i].key == *key {
                return Some(i);
            }
            i = i + 1;
        }
        None
    }

    /// The value stored under a key, if there is one.
    pub fn get(&self, key: &String) -> (r: Option<&V>)
        ensures
            match r {
                Some(v) => self@.contains_key(key@) && self@[key@] == *v,
                None => !self@.contains_key(key@),
            },
    {
        proof {
            use_type_invariant(self);
        }
        match self.find(key) {
            Some(i) => {
                proof {
                    lemma_row_at(self.rows@, i as int);
                }
                Some(&self.rows[i].value)
            },
            None => {
                proof {
                    lemma_row_absent(self.rows@, key@);
                }
                None
            },
        }
    }

    /// Stores a value under a key, in place of what was stored there.
    pub fn upsert(&mut self, key: String, value: V)
        ensures
            final(self)@ == old(self)@.insert(key@, value),
    {
        proof {
            use_type_invariant(&*self);
        }
        let ghost before = self.rows@;
        let ghost k = key@;
        let found = self.find(&key);
        let mut taken = Table { rows: Vec::new() };
        core::mem::swap(self, &mut taken);
        let mut rows = taken.rows;
        match found {
            Some(i) => {
                rows.set(i, Row { key, value });
                proof {
                    let after = rows@;
                    assert(row_keys(after) =~= row_keys(before));
                    assert forall|q: Seq<char>| #[trigger]
                        rows_map(before).insert(k, value).contains_key(q) implies rows_map(
                        after,
                    ).contains_key(q) && rows_map(after)[q] == rows_map(before).insert(k, value)[q] by {
                        assert(row_keys(before)[i as int] == k);
                        let j = row_keys(before).index_of(q);
                        assert(row_keys(before)[j] == q);
                        lemma_row_at(before, j);
                        lemma_row_at(after, j);
                        lemma_row_at(after, i as int);
                    }
                    assert(rows_map(after) =~= rows_map(before).insert(k, value));
                }
            },
            None => {
                rows.push(Row { key, value });
                proof {
                    let after = rows@;
                    let n = before.len() as int;
                    assert(row_keys(after) =~= row_keys(before).push(k));
                    assert(row_keys(after).no_duplicates()) by {
                        assert forall|a: int, b: int|
                            0 <= a < row_keys(after).len() && 0 <= b < row_keys(after).len() && a
                                != b implies row_keys(after)[a] != row_keys(after)[b] by {
                            if a < n {
                                assert(row_keys(after)[a] == before[a].key@);
                            }
                            if b < n {
                                assert(row_keys(after)[b] == before[b].key@);
                            }
                        }
                    }
                    assert forall|q: Seq<char>|
                        rows_map(after).contains_key(q) <==> #[trigger] rows_map(before).insert(
                            k,
                            value,
                        ).contains_key(q) by {
                        if row_keys(after).contains(q) {
                            let j = choose|j: int|
                                0 <= j < row_keys(after).len() && row_keys(after)[j] == q;
                            if j < n {
                                assert(row_keys(before)[j] == q);
                            }
                        }
                        if row_keys(before).contains(q) {
                            let j = row_keys(before).index_of(q);
                            assert(row_keys(after)[j] == q);
                        }
                        if q == k {
                            assert(row_keys(after)[n] == q);
                        }
                    }
                    assert forall|q: Seq<char>| #[trigger]
                        rows_map(after).contains_key(q) implies rows_map(after)[q] == rows_map(
                        before,
                    ).insert(k, value)[q] by {
                        if q == k {
                            lemma_row_at(after, n);
                        } else {
                            let j = row_keys(before).index_of(q);
                            assert(row_keys(before)[j] == q);
                            lemma_row_at(before, j);
                            lemma_row_at(after, j);
                        }
                    }
                    assert(rows_map(after) =~= rows_map(before).insert(k, value));
                }
            },
        }
        *self = Table { rows };
    }

    /// Removes what is stored under a key, if anything is.
    pub fn remove(&mut self, key: &String)
        ensures
            final(self)@ == old(self)@.remove(key@),
    {
        proof {
            use_type_invariant(&*self);
        }
        let ghost before = self.rows@;
        let ghost k = key@;
        let found = self.find(key);
        let mut taken = Table { rows: Vec::new() };
        core::mem::swap(self, &mut taken);
        let mut rows = taken.rows;
        match found {
            Some(i) => {
                let _ = rows.remove(i);
                proof {
                    let after = rows@;
                    let n = i as int;
                    assert(after =~= before.remove(n));
                    assert forall|a: int| 0 <= a < after.len() implies #[trigger] row_keys(
                        after,
                    )[a] == (if a < n {
                        row_keys(before)[a]
                    } else {
                        row_keys(before)[a + 1]
                    }) by {}
                    assert(row_keys(after).no_duplicates());
                    assert forall|q: Seq<char>|
                        rows_map(after).contains_key(q) <==> #[trigger] rows_map(before).remove(
                            k,
                        ).contains_key(q) by {
                        if row_keys(after).contains(q) {
                            let j = choose|j: int|
                                0 <= j < row_keys(after).len() && row_keys(after)[j] == q;
                            let j0 = if j < n {
                                j
                            } else {
                                j + 1
                            };
                            assert(row_keys(before)[j0] == q);
                            assert(row_keys(before)[n] == k);
                        }
                        if row_keys(before).contains(q) && q != k {
                            let j = row_keys(before).index_of(q);
                            assert(row_keys(before)[j] == q);
                            assert(row_keys(before)[n] == k);
                            let j1 = if j < n {
                                j
                            } else {
                                j - 1
                            };
                            assert(row_keys(after)[j1] == q);
                        }
                    }
                    assert forall|q: Seq<char>| #[trigger]
                        rows_map(after).contains_key(q) implies rows_map(after)[q] == rows_map(
                        before,
                    ).remove(k)[q] by {
                        let j = row_keys(after).index_of(q);
                        assert(row_keys(after)[j] == q);
                        let j0 = if j < n {
                            j
                        } else {
                            j + 1
                        };
                        assert(row_keys(before)[n] == k);
                        assert(row_keys(before)[j0] == q);
                        assert(after[j] == before[j0]);
                        lemma_row_at(after, j);
                        lemma_row_at(before, j0);
                    }
                    assert(rows_map(after) =~= rows_map(before).remove(k));
                }
            },
            None => {
                proof {
                    lemma_row_absent(before, k);
                    assert(rows_map(before) =~= rows_map(before).remove(k));
                }
            },
        }
        *self = Table { rows };
    }
}

} // verus!
