//! The storage contract that the engine depends on: an adapter that owns one
//! storage engine, and the transactions opened against it.

use vstd::prelude::*;
use crate::error::Error;
use crate::table::{Table, lookup, remove, sorted, upsert};

verus! {

/// The family of storage engines that an adapter fronts.
#[derive(Clone, Copy, Debug, PartialEq, Eq, Structural)]
pub enum StorageVariant {
    RelationalStore,
    KeyValueStore,
}

/// The storage engines that an adapter may front.
#[derive(Clone, Copy, Debug, PartialEq, Eq, Structural)]
pub enum StorageAdapterName {
    RocksDB,
    ReDB,
    EchoDB,
}

/// One storage engine and what identifies it. The adapter owns the engine
/// for as long as it lives; every transaction is opened against it.
#[derive(Debug)]
pub struct StorageAdapter<T> {
    pub name: StorageAdapterName,
    pub path: String,
    pub db_instance: T,
    pub variant: StorageVariant,
}

impl<T> StorageAdapter<T> {
    /// The adapter of `db_instance`, which lives at the resolved location
    /// `path`.
    pub fn new(
        name: StorageAdapterName,
        path: String,
        db_instance: T,
        variant: StorageVariant,
    ) -> (adapter: Result<Self, Error>)
        ensures
            adapter == Ok::<Self, Error>(StorageAdapter { name, path, db_instance, variant }),
    {
        Ok(StorageAdapter { name, path, db_instance, variant })
    }
}

/// The life of a transaction: it is open until it is committed or rolled
/// back, once, and closed from then on.
#[derive(Clone, Copy, Debug, PartialEq, Eq, Structural)]
pub enum TransactionStatus {
    Open,
    Committed,
    RolledBack,
}

/// The table that a commit leaves in the store: the keys that the
/// transaction touched read as the transaction saw them, every other key as
/// the store held it.
pub open spec fn merged(store: Table, seen: Table, touched: Set<i64>, after: Table) -> bool {
    &&& sorted(after)
    &&& forall|key: i64|
        #[trigger] lookup(after, key) == if touched.contains(key) {
            lookup(seen, key)
        } else {
            lookup(store, key)
        }
}

/// Whether a key that the transaction touched no longer reads in the store as
/// it did when the transaction was opened.
pub open spec fn conflicts(store: Table, origin: Table, touched: Set<i64>) -> bool {
    exists|key: i64| touched.contains(key) && #[trigger] lookup(store, key) != lookup(origin, key)
}

/// A transaction against one adapter.
pub trait SimpleTransaction: Sized {
    /// The representation is consistent.
    spec fn wf(&self) -> bool;

    /// Whether the transaction is open, committed or rolled back.
    spec fn status(&self) -> TransactionStatus;

    /// Whether the transaction may write.
    spec fn read_write(&self) -> bool;

    /// What the store held when the transaction was opened.
    spec fn origin(&self) -> Table;

    /// What the transaction reads now: the origin with its own writes.
    spec fn table(&self) -> Table;

    /// The keys that the transaction has written or deleted.
    spec fn touched(&self) -> Set<i64>;

    /// Whether the backend fails for no other reason than those that the
    /// contracts name.
    spec fn dependable(&self) -> bool;

    /// The value stored under `key`.
    fn get(&self, key: i64) -> (found: Result<Option<Vec<u8>>, Error>)
        requires
            self.wf(),
        ensures
            match found {
                Ok(Some(value)) => self.status() is Open && lookup(self.table(), key) == Some(
                    value@,
                ),
                Ok(None) => self.status() is Open && lookup(self.table(), key) is None,
                Err(e) => if self.status() is Open {
                    e == Error::StorageFailure && !self.dependable()
                } else {
                    e == Error::TransactionStateError
                },
            },
    ;

    /// Every entry, in ascending order of key.
    fn scan(&self) -> (entries: Result<Vec<(i64, Vec<u8>)>, Error>)
        requires
            self.wf(),
        ensures
            match entries {
                Ok(list) => self.status() is Open && entry_views(list@) == self.table(),
                Err(e) => if self.status() is Open {
                    e == Error::StorageFailure && !self.dependable()
                } else {
                    e == Error::TransactionStateError
                },
            },
    ;

    /// Stores `value` under `key`.
    fn put(&mut self, key: i64, value: Vec<u8>) -> (done: Result<(), Error>)
        requires
            old(self).wf(),
        ensures
            final(self).wf(),
            final(self).status() == old(self).status(),
            final(self).read_write() == old(self).read_write(),
            final(self).origin() == old(self).origin(),
            final(self).dependable() == old(self).dependable(),
            match done {
                Ok(()) => {
                    &&& old(self).status() is Open
                    &&& old(self).read_write()
                    &&& final(self).table() == upsert(old(self).table(), key, value@)
                    &&& final(self).touched() == old(self).touched().insert(key)
                },
                Err(e) => {
                    &&& final(self).table() == old(self).table()
                    &&& final(self).touched() == old(self).touched()
                    &&& e == write_failure(old(self).status(), old(self).read_write())
                    &&& e == Error::StorageFailure ==> !old(self).dependable()
                },
            },
    ;

    /// Takes out the entry for `key`, if there is one.
    fn delete(&mut self, key: i64) -> (done: Result<(), Error>)
        requires
            old(self).wf(),
        ensures
            final(self).wf(),
            final(self).status() == old(self).status(),
            final(self).read_write() == old(self).read_write(),
            final(self).origin() == old(self).origin(),
            final(self).dependable() == old(self).dependable(),
            match done {
                Ok(()) => {
                    &&& old(self).status() is Open
                    &&& old(self).read_write()
                    &&& final(self).table() == remove(old(self).table(), key)
                    &&& final(self).touched() == old(self).touched().insert(key)
                },
                Err(e) => {
                    &&& final(self).table() == old(self).table()
                    &&& final(self).touched() == old(self).touched()
                    &&& e == write_failure(old(self).status(), old(self).read_write())
                    &&& e == Error::StorageFailure ==> !old(self).dependable()
                },
            },
    ;

    /// Gives up the transaction and everything it wrote.
    fn rollback(&mut self) -> (done: Result<(), Error>)
        requires
            old(self).wf(),
        ensures
            final(self).wf(),
            match done {
                Ok(()) => old(self).status() is Open && final(self).status() is RolledBack,
                Err(e) => {
                    &&& e == Error::TransactionStateError
                    &&& !(old(self).status() is Open)
                    &&& final(self).status() == old(self).status()
                },
            },
    ;
}

/// The error of a write that the transaction refuses or the backend fails.
pub open spec fn write_failure(status: TransactionStatus, read_write: bool) -> Error {
    if !(status is Open) {
        Error::TransactionStateError
    } else if !read_write {
        Error::TransactionReadOnly
    } else {
        Error::StorageFailure
    }
}

/// The table that a list of entries stands for.
pub open spec fn entry_views(entries: Seq<(i64, Vec<u8>)>) -> Table {
    Seq::new(entries.len(), |i: int| (entries[i].0, entries[i].1@))
}

/// What every storage backend offers to the engine.
pub trait DatastoreAdapter: Sized {
    type Transaction: SimpleTransaction;

    /// The representation is consistent.
    spec fn wf(&self) -> bool;

    /// What the store holds: the writes of every committed transaction.
    spec fn table(&self) -> Table;

    /// Whether the backend fails for no other reason than those that the
    /// contracts name.
    spec fn dependable(&self) -> bool;

    /// A consistent store holds a sorted table.
    proof fn lemma_sorted(&self)
        requires
            self.wf(),
        ensures
            sorted(self.table()),
    ;

    /// Opens a transaction on what the store holds now. With `rw` false the
    /// transaction reads but refuses every write.
    fn transaction(&self, rw: bool) -> (opened: Result<Self::Transaction, Error>)
        requires
            self.wf(),
        ensures
            match opened {
                Ok(tx) => {
                    &&& tx.wf()
                    &&& tx.status() is Open
                    &&& tx.read_write() == rw
                    &&& tx.origin() == self.table()
                    &&& tx.table() == self.table()
                    &&& tx.touched() == Set::<i64>::empty()
                    &&& tx.dependable() == self.dependable()
                },
                Err(e) => e == Error::StorageFailure && !self.dependable(),
            },
    ;

    /// Makes the writes of an open transaction part of the store, unless a
    /// key that it touched was changed in the store since it was opened.
    fn commit(&mut self, tx: &mut Self::Transaction) -> (done: Result<(), Error>)
        requires
            old(self).wf(),
            old(tx).wf(),
        ensures
            final(self).wf(),
            final(tx).wf(),
            final(self).dependable() == old(self).dependable(),
            match done {
                Ok(()) => {
                    &&& old(tx).status() is Open
                    &&& !conflicts(old(self).table(), old(tx).origin(), old(tx).touched())
                    &&& final(tx).status() is Committed
                    &&& merged(
                        old(self).table(),
                        old(tx).table(),
                        old(tx).touched(),
                        final(self).table(),
                    )
                },
                Err(e) => {
                    &&& final(self).table() == old(self).table()
                    &&& e == commit_failure(
                        old(tx).status(),
                        conflicts(old(self).table(), old(tx).origin(), old(tx).touched()),
                    )
                    &&& e == Error::StorageFailure ==> !old(self).dependable()
                    &&& final(tx).status() == if old(tx).status() is Open {
                        TransactionStatus::RolledBack
                    } else {
                        old(tx).status()
                    }
                },
            },
    ;

    /// Where the store lives.
    fn path(&self) -> (location: &str)
        ensures
            location@ == self.location(),
    ;

    /// The text that `path` returns.
    spec fn location(&self) -> Seq<char>;
}

/// The error of a commit that the transaction's state or a conflict refuses,
/// or that the backend fails.
pub open spec fn commit_failure(status: TransactionStatus, conflict: bool) -> Error {
    if !(status is Open) {
        Error::TransactionStateError
    } else if conflict {
        Error::StorageConflict
    } else {
        Error::StorageFailure
    }
}

} // verus!
