//! The mathematical model of a store: a table of entries in ascending order
//! of key, and what reading and writing do to it.

use vstd::prelude::*;

verus! {

/// What a store holds: entries of key and value, in ascending order of key.
pub type Table = Seq<(i64, Seq<u8>)>;

/// No key occurs twice, and the entries stand in ascending order of key.
pub open spec fn sorted(t: Table) -> bool {
    forall|i: int, j: int| 0 <= i < j < t.len() ==> t[i].0 < t[j].0
}

/// `p` parts the table into the entries below `key` and those at or above it.
pub open spec fn splits(t: Table, key: i64, p: int) -> bool {
    &&& 0 <= p <= t.len()
    &&& forall|i: int| 0 <= i < p ==> (#[trigger] t[i]).0 < key
    &&& forall|i: int| p <= i < t.len() ==> (#[trigger] t[i]).0 >= key
}

/// The index at which `key` stands in a sorted table, or would be inserted.
pub open spec fn position(t: Table, key: i64) -> int {
    choose|p: int| splits(t, key, p)
}

/// Whether the table has an entry for `key`.
pub open spec fn holds(t: Table, key: i64) -> bool {
    position(t, key) < t.len() && t[position(t, key)].0 == key
}

/// The value stored under `key`, if there is one.
pub open spec fn lookup(t: Table, key: i64) -> Option<Seq<u8>> {
    if holds(t, key) {
        Some(t[position(t, key)].1)
    } else {
        None
    }
}

/// The table after `value` is stored under `key`.
pub open spec fn upsert(t: Table, key: i64, value: Seq<u8>) -> Table {
    if holds(t, key) {
        t.update(position(t, key), (key, value))
    } else {
        t.insert(position(t, key), (key, value))
    }
}

/// The table after the entry for `key`, if any, is taken out.
pub open spec fn remove(t: Table, key: i64) -> Table {
    if holds(t, key) {
        t.remove(position(t, key))
    } else {
        t
    }
}

/// An index that parts the table as `splits` says is the position of the key.
pub proof fn lemma_position_unique(t: Table, key: i64, p: int)
    requires
        splits(t, key, p),
    ensures
        position(t, key) == p,
{
    let q = position(t, key);
    assert(splits(t, key, q));
    if q < p {
        assert(t[q].0 < key);
    } else if p < q {
        assert(t[p].0 < key);
    }
}

/// In a sorted table every key has a position.
pub proof fn lemma_position_exists(t: Table, key: i64)
    requires
        sorted(t),
    ensures
        splits(t, key, position(t, key)),
    decreases t.len(),
{
    if t.len() == 0 {
        assert(splits(t, key, 0));
    } else if t.last().0 < key {
        assert(splits(t, key, t.len() as int)) by {
            assert forall|i: int| 0 <= i < t.len() implies (#[trigger] t[i]).0 < key by {
                if i < t.len() - 1 {
                    assert(t[i].0 < t[t.len() - 1].0);
                }
            }
        }
    } else {
        let front = t.drop_last();
        assert(sorted(front)) by {
            assert forall|i: int, j: int| 0 <= i < j < front.len() implies front[i].0
                < front[j].0 by {
                assert(t[i].0 < t[j].0);
            }
        }
        lemma_position_exists(front, key);
        let p = position(front, key);
        assert(splits(t, key, p)) by {
            assert forall|i: int| 0 <= i < p implies (#[trigger] t[i]).0 < key by {
                assert(front[i].0 < key);
            }
            assert forall|i: int| p <= i < t.len() implies (#[trigger] t[i]).0 >= key by {
                if i < t.len() - 1 {
                    assert(front[i].0 >= key);
                }
            }
        }
    }
}

/// In a sorted table the entry at index `i` is the one found under its key.
pub proof fn lemma_lookup_at(t: Table, i: int)
    requires
        sorted(t),
        0 <= i < t.len(),
    ensures
        position(t, t[i].0) == i,
        holds(t, t[i].0),
        lookup(t, t[i].0) == Some(t[i].1),
{
    assert(splits(t, t[i].0, i)) by {
        assert forall|j: int| 0 <= j < i implies (#[trigger] t[j]).0 < t[i].0 by {}
        assert forall|j: int| i <= j < t.len() implies (#[trigger] t[j]).0 >= t[i].0 by {
            if i < j {
                assert(t[i].0 < t[j].0);
            }
        }
    }
    lemma_position_unique(t, t[i].0, i);
}

/// A key that no entry of a sorted table has is not found.
pub proof fn lemma_lookup_absent(t: Table, key: i64)
    requires
        sorted(t),
        forall|i: int| 0 <= i < t.len() ==> (#[trigger] t[i]).0 != key,
    ensures
        !holds(t, key),
        lookup(t, key) is None,
{
    lemma_position_exists(t, key);
}

/// Storing under a key keeps the table sorted, is read back under that key,
/// and leaves what every other key reads.
pub proof fn lemma_upsert(t: Table, key: i64, value: Seq<u8>)
    requires
        sorted(t),
    ensures
        sorted(upsert(t, key, value)),
        lookup(upsert(t, key, value), key) == Some(value),
        forall|other: i64|
            other != key ==> #[trigger] lookup(upsert(t, key, value), other) == lookup(t, other),
{
    lemma_position_exists(t, key);
    let p = position(t, key);
    let u = upsert(t, key, value);
    if holds(t, key) {
        assert(sorted(u)) by {
            assert forall|i: int, j: int| 0 <= i < j < u.len() implies u[i].0 < u[j].0 by {
                assert(t[i].0 < t[j].0);
            }
        }
        lemma_lookup_at(u, p);
        assert forall|other: i64| other != key implies #[trigger] lookup(u, other) == lookup(
            t,
            other,
        ) by {
            lemma_position_exists(t, other);
            let q = position(t, other);
            assert(splits(u, other, q)) by {
                assert forall|i: int| 0 <= i < q implies (#[trigger] u[i]).0 < other by {
                    assert(t[i].0 < other);
                }
                assert forall|i: int| q <= i < u.len() implies (#[trigger] u[i]).0
                    >= other by {
                    assert(t[i].0 >= other);
                }
            }
            lemma_position_unique(u, other, q);
        }
    } else {
        assert forall|i: int| p <= i < t.len() implies (#[trigger] t[i]).0 > key by {
            assert(t[i].0 >= key);
            if i > p {
                assert(t[p].0 < t[i].0);
            }
        }
        assert(sorted(u)) by {
            assert forall|i: int, j: int| 0 <= i < j < u.len() implies u[i].0 < u[j].0 by {
                if j < p {
                    assert(t[i].0 < t[j].0);
                } else if j == p {
                    assert(t[i].0 < key);
                } else if i < p {
                    assert(t[i].0 < key);
                    assert(t[j - 1].0 > key);
                } else if i == p {
                    assert(t[j - 1].0 > key);
                } else {
                    assert(t[i - 1].0 < t[j - 1].0);
                }
            }
        }
        lemma_lookup_at(u, p);
        assert forall|other: i64| other != key implies #[trigger] lookup(u, other) == lookup(
            t,
            other,
        ) by {
            lemma_position_exists(t, other);
            let q = position(t, other);
            if other < key {
                if q > p {
                    assert(t[p].0 < other);
                    assert(t[p].0 > key);
                }
                assert(splits(u, other, q)) by {
                    assert forall|i: int| 0 <= i < q implies (#[trigger] u[i]).0 < other by {
                        assert(t[i].0 < other);
                    }
                    assert forall|i: int| q <= i < u.len() implies (#[trigger] u[i]).0
                        >= other by {
                        if i < p {
                            assert(t[i].0 >= other);
                        } else if i > p {
                            assert(t[i - 1].0 > key);
                        }
                    }
                }
                lemma_position_unique(u, other, q);
                if q == p {
                    if q < t.len() {
                        assert(t[q].0 > key);
                    }
                }
            } else {
                if q < p {
                    assert(t[q].0 >= other);
                    assert(t[q].0 < key);
                }
                assert(splits(u, other, q + 1)) by {
                    assert forall|i: int| 0 <= i < q + 1 implies (#[trigger] u[i]).0
                        < other by {
                        if i < p {
                            assert(t[i].0 < key);
                        } else if i > p {
                            assert(t[i - 1].0 < other);
                        }
                    }
                    assert forall|i: int| q + 1 <= i < u.len() implies (#[trigger] u[i]).0
                        >= other by {
                        assert(t[i - 1].0 >= other);
                    }
                }
                lemma_position_unique(u, other, q + 1);
            }
        }
    }
}

/// Taking a key out keeps the table sorted, leaves nothing under that key,
/// and leaves what every other key reads.
pub proof fn lemma_remove(t: Table, key: i64)
    requires
        sorted(t),
    ensures
        sorted(remove(t, key)),
        lookup(remove(t, key), key) is None,
        forall|other: i64|
            other != key ==> #[trigger] lookup(remove(t, key), other) == lookup(t, other),
{
    lemma_position_exists(t, key);
    let p = position(t, key);
    let u = remove(t, key);
    if holds(t, key) {
        assert(sorted(u)) by {
            assert forall|i: int, j: int| 0 <= i < j < u.len() implies u[i].0 < u[j].0 by {
                let a = if i < p { i } else { i + 1 };
                let b = if j < p { j } else { j + 1 };
                assert(t[a].0 < t[b].0);
            }
        }
        assert forall|i: int| 0 <= i < u.len() implies (#[trigger] u[i]).0 != key by {
            if i < p {
                assert(t[i].0 < t[p].0);
            } else {
                assert(t[p].0 < t[i + 1].0);
            }
        }
        lemma_lookup_absent(u, key);
        assert forall|other: i64| other != key implies #[trigger] lookup(u, other) == lookup(
            t,
            other,
        ) by {
            lemma_position_exists(t, other);
            let q = position(t, other);
            if other < key {
                if q > p {
                    assert(t[p].0 < other);
                }
                assert(splits(u, other, q)) by {
                    assert forall|i: int| 0 <= i < q implies (#[trigger] u[i]).0 < other by {
                        assert(t[i].0 < other);
                    }
                    assert forall|i: int| q <= i < u.len() implies (#[trigger] u[i]).0
                        >= other by {
                        if i < p {
                            assert(t[i].0 >= other);
                        } else {
                            assert(t[p].0 < t[i + 1].0);
                        }
                    }
                }
                lemma_position_unique(u, other, q);
                if q == p {
                    if q < u.len() {
                        assert(t[p].0 < t[p + 1].0);
                    }
                }
            } else {
                if q <= p {
                    assert(t[p].0 >= other);
                }
                assert(splits(u, other, q - 1)) by {
                    assert forall|i: int| 0 <= i < q - 1 implies (#[trigger] u[i]).0
                        < other by {
                        if i < p {
                            assert(t[i].0 < t[p].0);
                        } else {
                            assert(t[i + 1].0 < other);
                        }
                    }
                    assert forall|i: int| q - 1 <= i < u.len() implies (#[trigger] u[i]).0
                        >= other by {
                        assert(t[i + 1].0 >= other);
                    }
                }
                lemma_position_unique(u, other, q - 1);
            }
        }
    } else {
        assert(lookup(u, key) is None);
    }
}

/// Two sorted tables in which every key reads the same are the same table.
pub proof fn lemma_extensional(s: Table, t: Table)
    requires
        sorted(s),
        sorted(t),
        forall|key: i64| lookup(s, key) == lookup(t, key),
    ensures
        s == t,
    decreases s.len(),
{
    if s.len() == 0 {
        if t.len() > 0 {
            lemma_lookup_at(t, 0);
            lemma_lookup_absent(s, t[0].0);
            assert(lookup(s, t[0].0) == lookup(t, t[0].0));
        }
        assert(s =~= t);
    } else {
        let n = s.len() - 1;
        lemma_lookup_at(s, n);
        assert(lookup(t, s[n].0) == lookup(s, s[n].0));
        assert(holds(t, s[n].0));
        lemma_position_exists(t, s[n].0);
        let m = t.len() - 1;
        lemma_lookup_at(t, m);
        assert(lookup(s, t[m].0) == lookup(t, t[m].0));
        assert(holds(s, t[m].0));
        lemma_position_exists(s, t[m].0);
        let j = position(t, s[n].0);
        let i = position(s, t[m].0);
        if j < m {
            assert(t[j].0 < t[m].0);
            if i < n {
                assert(s[i].0 < s[n].0);
            }
        }
        assert(j == m);
        assert(s[n] == t[m]);
        let sf = s.drop_last();
        let tf = t.drop_last();
        assert(sorted(sf)) by {
            assert forall|a: int, b: int| 0 <= a < b < sf.len() implies sf[a].0 < sf[b].0 by {
                assert(s[a].0 < s[b].0);
            }
        }
        assert(sorted(tf)) by {
            assert forall|a: int, b: int| 0 <= a < b < tf.len() implies tf[a].0 < tf[b].0 by {
                assert(t[a].0 < t[b].0);
            }
        }
        assert forall|key: i64| lookup(sf, key) == lookup(tf, key) by {
            lemma_drop_last(s, key);
            lemma_drop_last(t, key);
            assert(lookup(s, key) == lookup(t, key));
        }
        lemma_extensional(sf, tf);
        assert(s =~= sf.push(s[n]));
        assert(t =~= tf.push(t[m]));
    }
}

/// Without its last entry a sorted table reads the same under every key but
/// the last.
proof fn lemma_drop_last(t: Table, key: i64)
    requires
        sorted(t),
        t.len() > 0,
    ensures
        lookup(t.drop_last(), key) == if key == t.last().0 {
            None
        } else {
            lookup(t, key)
        },
{
    let last = t.last().0;
    lemma_lookup_at(t, t.len() - 1);
    assert(t.drop_last() =~= remove(t, last));
    lemma_remove(t, last);
}

} // verus!
