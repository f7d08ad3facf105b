//! Transactions: scoped units of work over a database.
//!
//! All reads and writes go through a transaction. A read-only transaction
//! observes the snapshot committed when it began; a read-write transaction
//! additionally accumulates pending changes that become visible to others
//! only when it commits. The engine admits one read-write transaction at a
//! time. A transaction ends exactly once: by commit, or by abort — the
//! rollback path for everything not committed.

use crate::cursor::RoCursor;
use crate::database::Database;
use crate::error::{Error, ErrorKind, Op, EEXIST, ENOENT};
use crate::store::{contains_key, map_of, sorted_kvs, Store};
use vstd::prelude::*;

verus! {

/// Write options, passed to the engine unchanged.
#[derive(Clone, Copy, Debug, Default, Eq, PartialEq, Structural)]
pub struct WriteFlags {
    /// Insert the new entry only if the key does not already appear in
    /// the database.
    pub no_overwrite: bool,
}

impl WriteFlags {
    /// No options.
    pub fn empty() -> (r: WriteFlags)
        ensures
            r == (WriteFlags { no_overwrite: false }),
    {
        WriteFlags { no_overwrite: false }
    }

    /// Fail instead of replacing an entry whose key is already present.
    pub fn no_overwrite() -> (r: WriteFlags)
        ensures
            r == (WriteFlags { no_overwrite: true }),
    {
        WriteFlags { no_overwrite: true }
    }

    /// The option bits the engine receives.
    pub fn bits(&self) -> (r: u32)
        ensures
            r == (if self.no_overwrite {
                1u32
            } else {
                0u32
            }),
    {
        if self.no_overwrite {
            1
        } else {
            0
        }
    }
}

/// A database transaction: the shared capability of the read-only and
/// read-write variants.
pub trait Transaction: Sized {
    /// The entries this transaction observes, in key order: its snapshot,
    /// with its own pending changes applied.
    spec fn ordered(&self) -> Seq<(Seq<u8>, Seq<u8>)>;

    /// The observed entries are strictly ordered by key.
    open spec fn wf(&self) -> bool {
        sorted_kvs(self.ordered())
    }

    /// Gets an item from the database: the value stored under `key`, or a
    /// not-found failure when the key is absent — an error for exactly the
    /// keys outside the transaction's view.
    fn get(&self, db: &Database, key: &[u8]) -> (r: Result<Vec<u8>, Error>)
        requires
            self.wf(),
        ensures
            contains_key(self.ordered(), key@) ==> (r matches Ok(v) && v@ == map_of(
                self.ordered(),
            )[key@]),
            !contains_key(self.ordered(), key@) ==> (r matches Err(e) && e.code == ENOENT && e.kind
                == ErrorKind::NotFound && e.op is TxnGet),
    ;

    /// Opens a read-only cursor over this transaction's view of the
    /// database.
    fn open_ro_cursor(&self, db: &Database) -> (r: Result<RoCursor, Error>)
        requires
            self.wf(),
        ensures
            r matches Ok(c) && c.wf() && c.entries() == self.ordered() && c.state() is Fresh,
    ;
}

/// A read-only transaction: a consistent snapshot fixed at begin time.
#[derive(Debug)]
pub struct RoTransaction {
    store: Store,
}

impl Transaction for RoTransaction {
    closed spec fn ordered(&self) -> Seq<(Seq<u8>, Seq<u8>)> {
        self.store@
    }

    fn get(&self, db: &Database, key: &[u8]) -> (r: Result<Vec<u8>, Error>) {
        match self.store.get(key) {
            Some(v) => Ok(v),
            None => Err(Error::new(ENOENT, Op::TxnGet)),
        }
    }

    fn open_ro_cursor(&self, db: &Database) -> (r: Result<RoCursor, Error>) {
        Ok(RoCursor::open(self.store.duplicate()))
    }
}

impl RoTransaction {
    /// Begins a read-only transaction over the given snapshot. Prefer
    /// `Database::begin_ro_txn`.
    pub(crate) fn begin(store: Store) -> (t: RoTransaction)
        ensures
            t.ordered() == store@,
    {
        RoTransaction { store }
    }

    /// Ends the transaction. A read-only transaction has nothing to
    /// persist, so committing it always succeeds.
    pub fn commit(self) -> (r: Result<(), Error>)
        ensures
            r is Ok,
    {
        Ok(())
    }

    /// Ends the transaction without persisting anything.
    pub fn abort(self) {
    }
}

/// A read-write transaction: a snapshot plus pending changes, exclusive
/// while open.
#[derive(Debug)]
pub struct RwTransaction {
    store: Store,
}

impl Transaction for RwTransaction {
    closed spec fn ordered(&self) -> Seq<(Seq<u8>, Seq<u8>)> {
        self.store@
    }

    fn get(&self, db: &Database, key: &[u8]) -> (r: Result<Vec<u8>, Error>) {
        match self.store.get(key) {
            Some(v) => Ok(v),
            None => Err(Error::new(ENOENT, Op::TxnGet)),
        }
    }

    fn open_ro_cursor(&self, db: &Database) -> (r: Result<RoCursor, Error>) {
        Ok(RoCursor::open(self.store.duplicate()))
    }
}

impl RwTransaction {
    /// Begins a read-write transaction over the given snapshot. Prefer
    /// `Database::begin_rw_txn`.
    pub(crate) fn begin(store: Store) -> (t: RwTransaction)
        ensures
            t.ordered() == store@,
    {
        RwTransaction { store }
    }

    /// Stores an item. With the no-overwrite option, an already-present
    /// key fails and the stored value stays as it was; otherwise the key
    /// now holds `data`, visible to this transaction at once and to
    /// others after commit.
    pub fn put(&mut self, db: &Database, key: &[u8], data: &[u8], flags: WriteFlags) -> (r: Result<
        (),
        Error,
    >)
        requires
            old(self).wf(),
        ensures
            final(self).wf(),
            flags.no_overwrite && contains_key(old(self).ordered(), key@) ==> (r matches Err(e)
                && e.code == EEXIST && e.kind == ErrorKind::AlreadyExists && e.op is TxnPut
                && final(self).ordered() == old(self).ordered()),
            !(flags.no_overwrite && contains_key(old(self).ordered(), key@)) ==> (r is Ok && map_of(
                final(self).ordered(),
            ) == map_of(old(self).ordered()).insert(key@, data@)),
    {
        if flags.no_overwrite {
            if let Some(_i) = self.store.find(key) {
                return Err(Error::new(EEXIST, Op::TxnPut));
            }
        }
        self.store.set(key, data);
        Ok(())
    }

    /// Deletes an item: an absent key fails not-found; a present key is
    /// removed, so later gets fail not-found.
    pub fn del(&mut self, db: &Database, key: &[u8]) -> (r: Result<(), Error>)
        requires
            old(self).wf(),
        ensures
            final(self).wf(),
            !contains_key(old(self).ordered(), key@) ==> (r matches Err(e) && e.code == ENOENT
                && e.kind == ErrorKind::NotFound && e.op is TxnDel && final(self).ordered() == old(self).ordered()),
            contains_key(old(self).ordered(), key@) ==> (r is Ok && map_of(final(self).ordered())
                == map_of(old(self).ordered()).remove(key@)),
    {
        if self.store.remove(key) {
            Ok(())
        } else {
            Err(Error::new(ENOENT, Op::TxnDel))
        }
    }

    /// Commits the transaction: its pending changes become the database's
    /// committed contents, and the writer slot is released. A stale
    /// database (compacted away under this handle) refuses the commit.
    /// Either way the transaction is consumed and no rollback follows.
    pub fn commit(self, db: &mut Database) -> (r: Result<(), Error>)
        requires
            old(db).wf(),
            self.wf(),
        ensures
            final(db).wf(),
            old(db).is_stale() ==> (r matches Err(e) && e.code == crate::error::ESTALE && e.kind
                == ErrorKind::StaleHandle && e.op is TxnCommit && *final(db) == *old(db)),
            !old(db).is_stale() ==> (r is Ok && final(db).log() == old(db).log().push(
                self.ordered(),
            ) && final(db).snapshot() == self.ordered() && !final(db).has_writer() && !final(db).is_stale() && final(db).config() == old(db).config()),
    {
        db.apply_commit(self.store)
    }

    /// Ends the transaction without persisting anything: its pending
    /// changes are discarded and the writer slot is released.
    pub fn abort(self, db: &mut Database)
        ensures
            final(db).log() == old(db).log(),
            !final(db).has_writer(),
            final(db).is_stale() == old(db).is_stale(),
            final(db).config() == old(db).config(),
    {
        db.release_writer()
    }
}

/// What a round trip stores: after a key is put and the change committed,
/// the map every later snapshot reads holds exactly the stored value
/// under that key.
pub proof fn lemma_put_then_get(m: Map<Seq<u8>, Seq<u8>>, k: Seq<u8>, v: Seq<u8>)
    ensures
        m.insert(k, v).contains_key(k),
        m.insert(k, v)[k] == v,
{
}

/// What a delete removes: after a present key is deleted, the map the
/// transaction reads no longer holds it, so a later get fails not-found.
pub proof fn lemma_del_then_get(m: Map<Seq<u8>, Seq<u8>>, k: Seq<u8>)
    ensures
        !m.remove(k).contains_key(k),
{
}

} // verus!
