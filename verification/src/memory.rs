//! The storage engine that keeps everything in memory, and its transactions.
//! A transaction works on a copy of the store; a commit checks that no key it
//! touched has changed in the store since, and only then writes.

use vstd::prelude::*;
use vstd::slice::*;
use vstd::string::*;
use crate::error::Error;
use crate::storage::{
    DatastoreAdapter, SimpleTransaction, StorageAdapter, StorageAdapterName, StorageVariant,
    TransactionStatus, conflicts, entry_views,
};
use crate::table::{
    Table, holds, lemma_position_unique, lemma_remove, lemma_upsert, lookup, position, remove,
    sorted, splits, upsert,
};

verus! {

/// The index at which `key` stands, or would be inserted.
fn find(entries: &Vec<(i64, Vec<u8>)>, key: i64) -> (p: usize)
    requires
        sorted(entry_views(entries@)),
    ensures
        p <= entries.len(),
        p as int == position(entry_views(entries@), key),
        splits(entry_views(entries@), key, p as int),
{
    let ghost t = entry_views(entries@);
    let mut p: usize = 0;
    while p < entries.len() && entries[p].0 < key
        invariant
            p <= entries.len(),
            t == entry_views(entries@),
            forall|i: int| 0 <= i < p ==> (#[trigger] t[i]).0 < key,
        decreases entries.len() - p,
    {
        p += 1;
    }
    proof {
        assert forall|i: int| p <= i < t.len() implies (#[trigger] t[i]).0 >= key by {
            assert(t[p as int].0 >= key);
            if p < i {
                assert(t[p as int].0 < t[i].0);
            }
        }
        lemma_position_unique(t, key, p as int);
    }
    p
}

/// A copy of the value stored under `key`.
fn read(entries: &Vec<(i64, Vec<u8>)>, key: i64) -> (value: Option<Vec<u8>>)
    requires
        sorted(entry_views(entries@)),
    ensures
        match value {
            Some(bytes) => lookup(entry_views(entries@), key) == Some(bytes@),
            None => lookup(entry_views(entries@), key) is None,
        },
{
    let p = find(entries, key);
    if p < entries.len() && entries[p].0 == key {
        assert(entry_views(entries@)[p as int].1 == entries@[p as int].1@);
        Some(slice_to_vec(entries[p].1.as_slice()))
    } else {
        None
    }
}

/// Stores `value` under `key`.
fn write(entries: &mut Vec<(i64, Vec<u8>)>, key: i64, value: Vec<u8>)
    requires
        sorted(entry_views(old(entries)@)),
    ensures
        entry_views(final(entries)@) == upsert(entry_views(old(entries)@), key, value@),
        sorted(entry_views(final(entries)@)),
{
    let p = find(entries, key);
    proof {
        lemma_upsert(entry_views(entries@), key, value@);
    }
    if p < entries.len() && entries[p].0 == key {
        entries.set(p, (key, value));
    } else {
        entries.insert(p, (key, value));
    }
    assert(entry_views(entries@) =~= upsert(entry_views(old(entries)@), key, value@));
}

/// Takes out the entry for `key`, if there is one.
fn erase(entries: &mut Vec<(i64, Vec<u8>)>, key: i64)
    requires
        sorted(entry_views(old(entries)@)),
    ensures
        entry_views(final(entries)@) == remove(entry_views(old(entries)@), key),
        sorted(entry_views(final(entries)@)),
{
    let p = find(entries, key);
    proof {
        lemma_remove(entry_views(entries@), key);
    }
    if p < entries.len() && entries[p].0 == key {
        entries.remove(p);
    }
    assert(entry_views(entries@) =~= remove(entry_views(old(entries)@), key));
}

/// A copy of a list of entries.
fn clone_entries(entries: &Vec<(i64, Vec<u8>)>) -> (copy: Vec<(i64, Vec<u8>)>)
    ensures
        entry_views(copy@) == entry_views(entries@),
{
    let mut copy: Vec<(i64, Vec<u8>)> = Vec::new();
    let mut i: usize = 0;
    while i < entries.len()
        invariant
            i <= entries.len(),
            copy@.len() == i,
            forall|j: int|
                0 <= j < i ==> copy@[j].0 == entries@[j].0 && copy@[j].1@ == entries@[j].1@,
        decreases entries.len() - i,
    {
        copy.push((entries[i].0, slice_to_vec(entries[i].1.as_slice())));
        i += 1;
    }
    assert(entry_views(copy@) =~= entry_views(entries@));
    copy
}

/// Whether two values read from a store are the same.
fn same_value(a: &Option<Vec<u8>>, b: &Option<Vec<u8>>) -> (equal: bool)
    ensures
        equal == (match (*a, *b) {
            (Some(x), Some(y)) => x@ == y@,
            (None, None) => true,
            _ => false,
        }),
{
    match (a, b) {
        (Some(x), Some(y)) => {
            if x.len() != y.len() {
                return false;
            }
            let mut i: usize = 0;
            while i < x.len()
                invariant
                    i <= x.len(),
                    x.len() == y.len(),
                    *a == Some(*x),
                    *b == Some(*y),
                    forall|j: int| 0 <= j < i ==> x@[j] == y@[j],
                decreases x.len() - i,
            {
                if x[i] != y[i] {
                    return false;
                }
                i += 1;
            }
            assert(x@ =~= y@);
            true
        },
        (None, None) => true,
        _ => false,
    }
}

/// What a list of keys holds after one more is added.
proof fn lemma_push_contains(keys: Seq<i64>, added: i64)
    ensures
        forall|key: i64|
            #[trigger] keys.push(added).contains(key) == (keys.contains(key) || key == added),
{
    assert forall|key: i64|
        #[trigger] keys.push(added).contains(key) == (keys.contains(key) || key
            == added) by {
        if keys.contains(key) {
            let j = choose|j: int| 0 <= j < keys.len() && keys[j] == key;
            assert(keys.push(added)[j] == key);
        }
        if key == added {
            assert(keys.push(added)[keys.len() as int] == key);
        }
    }
}

/// The storage engine that keeps its entries in memory and loses them when
/// it is dropped.
#[derive(Debug)]
pub struct MemoryEngine {
    entries: Vec<(i64, Vec<u8>)>,
}

impl MemoryEngine {
    /// What the engine holds.
    pub closed spec fn table(&self) -> Table {
        entry_views(self.entries@)
    }

    /// The entries stand in ascending order of key.
    pub closed spec fn wf(&self) -> bool {
        sorted(entry_views(self.entries@))
    }

    /// The engine that holds nothing.
    pub fn new() -> (engine: MemoryEngine)
        ensures
            engine.wf(),
            engine.table() == Seq::<(i64, Seq<u8>)>::empty(),
    {
        let engine = MemoryEngine { entries: Vec::new() };
        assert(engine.table() =~= Seq::<(i64, Seq<u8>)>::empty());
        engine
    }

    /// The engine that holds the given entries, where they stand in
    /// ascending order of key with no key twice; nothing where they do not.
    pub fn from_entries(entries: Vec<(i64, Vec<u8>)>) -> (engine: Option<MemoryEngine>)
        ensures
            match engine {
                Some(e) => e.wf() && e.table() == entry_views(entries@),
                None => !sorted(entry_views(entries@)),
            },
    {
        let ghost t = entry_views(entries@);
        let mut i: usize = 1;
        while i < entries.len()
            invariant
                1 <= i,
                t == entry_views(entries@),
                forall|a: int, b: int| 0 <= a < b < i && b < t.len() ==> t[a].0 < t[b].0,
            decreases entries.len() - i,
        {
            if entries[i - 1].0 >= entries[i].0 {
                assert(!(t[i - 1].0 < t[i as int].0));
                return None;
            }
            proof {
                assert forall|a: int, b: int| 0 <= a < b < i + 1 && b < t.len() implies t[a].0
                    < t[b].0 by {
                    if b == i && a < i - 1 {
                        assert(t[a].0 < t[i - 1].0);
                    }
                }
            }
            i += 1;
        }
        Some(MemoryEngine { entries })
    }

    /// A copy of the entries, in ascending order of key.
    pub fn entries(&self) -> (entries: Vec<(i64, Vec<u8>)>)
        ensures
            entry_views(entries@) == self.table(),
    {
        clone_entries(&self.entries)
    }

    /// The number of entries.
    pub fn len(&self) -> (n: usize)
        ensures
            n == self.table().len(),
    {
        self.entries.len()
    }
}

/// A transaction of the in-memory engine: the store as it was when the
/// transaction was opened, the same with the transaction's own writes, and
/// the keys that it has touched.
#[derive(Debug)]
pub struct MemoryTransaction {
    read_write: bool,
    status: TransactionStatus,
    origin: Vec<(i64, Vec<u8>)>,
    working: Vec<(i64, Vec<u8>)>,
    touched: Vec<i64>,
}

impl MemoryTransaction {
    /// Whether the transaction can still be used.
    pub fn is_open(&self) -> (open: bool)
        ensures
            open == (self.status() is Open),
    {
        match self.status {
            TransactionStatus::Open => true,
            _ => false,
        }
    }

    /// Whether the transaction is open, committed or rolled back.
    pub fn state(&self) -> (status: TransactionStatus)
        ensures
            status == self.status(),
    {
        self.status
    }
}

impl SimpleTransaction for MemoryTransaction {
    closed spec fn wf(&self) -> bool {
        &&& sorted(entry_views(self.origin@))
        &&& sorted(entry_views(self.working@))
        &&& forall|key: i64|
            !self.touched@.contains(key) ==> lookup(entry_views(self.working@), key) == lookup(
                entry_views(self.origin@),
                key,
            )
    }

    closed spec fn status(&self) -> TransactionStatus {
        self.status
    }

    closed spec fn read_write(&self) -> bool {
        self.read_write
    }

    closed spec fn origin(&self) -> Table {
        entry_views(self.origin@)
    }

    closed spec fn table(&self) -> Table {
        entry_views(self.working@)
    }

    closed spec fn touched(&self) -> Set<i64> {
        Set::new(|key: i64| self.touched@.contains(key))
    }

    open spec fn dependable(&self) -> bool {
        true
    }

    fn get(&self, key: i64) -> (found: Result<Option<Vec<u8>>, Error>) {
        if !self.is_open() {
            return Err(Error::TransactionStateError);
        }
        Ok(read(&self.working, key))
    }

    fn scan(&self) -> (entries: Result<Vec<(i64, Vec<u8>)>, Error>) {
        if !self.is_open() {
            return Err(Error::TransactionStateError);
        }
        Ok(clone_entries(&self.working))
    }

    fn put(&mut self, key: i64, value: Vec<u8>) -> (done: Result<(), Error>) {
        if !self.is_open() {
            return Err(Error::TransactionStateError);
        }
        if !self.read_write {
            return Err(Error::TransactionReadOnly);
        }
        proof {
            lemma_upsert(entry_views(self.working@), key, value@);
        }
        write(&mut self.working, key, value);
        self.touched.push(key);
        proof {
            lemma_push_contains(old(self).touched@, key);
        }
        assert(self.touched() =~= old(self).touched().insert(key));
        Ok(())
    }

    fn delete(&mut self, key: i64) -> (done: Result<(), Error>) {
        if !self.is_open() {
            return Err(Error::TransactionStateError);
        }
        if !self.read_write {
            return Err(Error::TransactionReadOnly);
        }
        proof {
            lemma_remove(entry_views(self.working@), key);
        }
        erase(&mut self.working, key);
        self.touched.push(key);
        proof {
            lemma_push_contains(old(self).touched@, key);
        }
        assert(self.touched() =~= old(self).touched().insert(key));
        Ok(())
    }

    fn rollback(&mut self) -> (done: Result<(), Error>) {
        if !self.is_open() {
            return Err(Error::TransactionStateError);
        }
        self.status = TransactionStatus::RolledBack;
        Ok(())
    }
}

impl DatastoreAdapter for StorageAdapter<MemoryEngine> {
    type Transaction = MemoryTransaction;

    open spec fn wf(&self) -> bool {
        self.db_instance.wf()
    }

    open spec fn table(&self) -> Table {
        self.db_instance.table()
    }

    open spec fn dependable(&self) -> bool {
        true
    }

    open spec fn location(&self) -> Seq<char> {
        self.path@
    }

    proof fn lemma_sorted(&self) {
    }

    fn transaction(&self, rw: bool) -> (opened: Result<MemoryTransaction, Error>) {
        let tx = MemoryTransaction {
            read_write: rw,
            status: TransactionStatus::Open,
            origin: clone_entries(&self.db_instance.entries),
            working: clone_entries(&self.db_instance.entries),
            touched: Vec::new(),
        };
        assert(tx.touched() =~= Set::<i64>::empty());
        Ok(tx)
    }

    fn commit(&mut self, tx: &mut MemoryTransaction) -> (done: Result<(), Error>) {
        if !tx.is_open() {
            return Err(Error::TransactionStateError);
        }
        let ghost before = self.table();
        let ghost origin = tx.origin();
        let ghost seen = tx.table();
        let mut i: usize = 0;
        while i < tx.touched.len()
            invariant
                i <= tx.touched.len(),
                self.wf(),
                tx.wf(),
                *self == *old(self),
                *tx == *old(tx),
                tx.status() is Open,
                before == self.table(),
                origin == tx.origin(),
                forall|j: int|
                    0 <= j < i ==> lookup(before, #[trigger] tx.touched@[j]) == lookup(
                        origin,
                        tx.touched@[j],
                    ),
            decreases tx.touched.len() - i,
        {
            let key = tx.touched[i];
            let now = read(&self.db_instance.entries, key);
            let then = read(&tx.origin, key);
            if !same_value(&now, &then) {
                assert(tx.touched().contains(key));
                assert(lookup(before, key) != lookup(origin, key));
                tx.status = TransactionStatus::RolledBack;
                return Err(Error::StorageConflict);
            }
            i += 1;
        }
        assert(!conflicts(before, origin, tx.touched())) by {
            assert forall|key: i64| tx.touched().contains(key) implies lookup(before, key)
                == lookup(origin, key) by {
                let j = choose|j: int| 0 <= j < tx.touched@.len() && tx.touched@[j] == key;
                assert(tx.touched@[j] == key);
            }
        }
        let mut i: usize = 0;
        while i < tx.touched.len()
            invariant
                i <= tx.touched.len(),
                self.wf(),
                tx.wf(),
                seen == tx.table(),
                tx.status() is Open,
                tx.touched() == old(tx).touched(),
                self.path == old(self).path,
                forall|key: i64|
                    #[trigger] lookup(self.table(), key) == if tx.touched@.take(i as int).contains(
                        key,
                    ) {
                        lookup(seen, key)
                    } else {
                        lookup(before, key)
                    },
            decreases tx.touched.len() - i,
        {
            let key = tx.touched[i];
            let ghost table = self.table();
            proof {
                if lookup(seen, key) is Some {
                    lemma_upsert(table, key, lookup(seen, key).unwrap());
                }
                lemma_remove(table, key);
                assert(tx.touched@.take(i + 1) =~= tx.touched@.take(i as int).push(key));
            }
            match read(&tx.working, key) {
                Some(value) => {
                    write(&mut self.db_instance.entries, key, value);
                },
                None => {
                    erase(&mut self.db_instance.entries, key);
                },
            }
            assert forall|other: i64|
                #[trigger] lookup(self.table(), other) == if tx.touched@.take(i + 1).contains(
                    other,
                ) {
                    lookup(seen, other)
                } else {
                    lookup(before, other)
                } by {
                if other != key {
                    assert(lookup(self.table(), other) == lookup(table, other));
                    assert(tx.touched@.take(i + 1).contains(other) == tx.touched@.take(
                        i as int,
                    ).contains(other));
                } else {
                    assert(tx.touched@.take(i + 1).last() == key);
                }
            }
            i += 1;
        }
        assert(tx.touched@.take(i as int) =~= tx.touched@);
        tx.status = TransactionStatus::Committed;
        Ok(())
    }

    fn path(&self) -> (location: &str) {
        self.path.as_str()
    }
}

/// An adapter in front of a new in-memory engine.
pub fn memory_adapter(path: String) -> (adapter: StorageAdapter<MemoryEngine>)
    ensures
        adapter.wf(),
        adapter.dependable(),
        adapter.table() == Seq::<(i64, Seq<u8>)>::empty(),
        adapter.location() == path@,
        adapter.name == StorageAdapterName::EchoDB,
        adapter.variant == StorageVariant::KeyValueStore,
{
    StorageAdapter {
        name: StorageAdapterName::EchoDB,
        path,
        db_instance: MemoryEngine::new(),
        variant: StorageVariant::KeyValueStore,
    }
}

} // verus!
