//! The database handle and its lifecycle.
//!
//! A database is opened from a builder holding the configuration — flags,
//! cache size, path, file mode. The handle owns the committed history of
//! the append-only file (the last entry is the live contents), tracks
//! whether a read-write transaction is outstanding, and tracks whether
//! compaction has made the handle stale. Compacting succeeds but leaves
//! the existing handle permanently refusing new transactions until it is
//! reopened: that is the engine's contract, preserved here.

use crate::error::{Error, ErrorKind, Op, EBUSY, EINVAL, ESTALE};
use crate::store::{map_of, sorted_kvs, Store};
use vstd::string::StringSliceAdditionalSpecFns;
use crate::transaction::{RoTransaction, RwTransaction, Transaction};
use vstd::prelude::*;

verus! {

/// Database options, passed to the engine unchanged at open.
#[derive(Clone, Copy, Debug, Default, Eq, PartialEq, Structural)]
pub struct DatabaseFlags {
    /// Don't flush system buffers to disk when committing a transaction.
    /// A system crash can then corrupt the database or lose the last
    /// transactions if buffers are not yet flushed to disk.
    pub no_sync: bool,
    /// Open the database in read-only mode.
    pub read_only: bool,
    /// Keys are strings to be compared in reverse order, from the end of
    /// the strings to the beginning; passed through to the engine, which
    /// alone interprets it.
    pub reverse_key: bool,
}

impl DatabaseFlags {
    /// No options.
    pub fn empty() -> (r: DatabaseFlags)
        ensures
            r == (DatabaseFlags { no_sync: false, read_only: false, reverse_key: false }),
    {
        DatabaseFlags { no_sync: false, read_only: false, reverse_key: false }
    }

    /// Only the no-sync option.
    pub fn no_sync() -> (r: DatabaseFlags)
        ensures
            r == (DatabaseFlags { no_sync: true, read_only: false, reverse_key: false }),
    {
        DatabaseFlags { no_sync: true, read_only: false, reverse_key: false }
    }

    /// Only the read-only option.
    pub fn read_only() -> (r: DatabaseFlags)
        ensures
            r == (DatabaseFlags { no_sync: false, read_only: true, reverse_key: false }),
    {
        DatabaseFlags { no_sync: false, read_only: true, reverse_key: false }
    }

    /// Only the reverse-key option.
    pub fn reverse_key() -> (r: DatabaseFlags)
        ensures
            r == (DatabaseFlags { no_sync: false, read_only: false, reverse_key: true }),
    {
        DatabaseFlags { no_sync: false, read_only: false, reverse_key: true }
    }

    /// The option bits the engine receives at open.
    pub fn bits(&self) -> (r: u32)
        ensures
            r == self.spec_bits(),
    {
        let mut bits: u32 = 0;
        if self.no_sync {
            bits = bits + 0x02;
        }
        if self.read_only {
            bits = bits + 0x04;
        }
        if self.reverse_key {
            bits = bits + 0x08;
        }
        bits
    }

    /// The option bits the engine receives at open.
    pub open spec fn spec_bits(&self) -> int {
        (if self.no_sync {
            0x02u32
        } else {
            0u32
        }) + (if self.read_only {
            0x04u32
        } else {
            0u32
        }) + (if self.reverse_key {
            0x08u32
        } else {
            0u32
        })
    }
}

/// A path can be handed to the engine when no byte of it is the string
/// terminator the native boundary reserves.
pub open spec fn representable_path(path: &str) -> bool {
    forall|i: int| 0 <= i < path.spec_bytes().len() ==> path.spec_bytes()[i] != 0
}

/// The configuration a database is opened with.
pub struct DatabaseBuilder {
    /// The option flags.
    pub flags: DatabaseFlags,
    /// The entry cache size, in pages; zero leaves the engine's default.
    pub cache_size: u32,
    /// The path of the database file.
    pub path: String,
    /// The file mode the database file is created with.
    pub mode: u32,
}

impl DatabaseBuilder {
    /// A copy of this configuration.
    fn duplicate(&self) -> (r: DatabaseBuilder)
        ensures
            r == *self,
    {
        DatabaseBuilder {
            flags: self.flags,
            cache_size: self.cache_size,
            path: self.path.clone(),
            mode: self.mode,
        }
    }

    /// Opens an existing database or creates a new one.
    ///
    /// The database file is created with mode 644.
    pub fn open(&mut self, path: &str) -> (r: Result<Database, Error>)
        ensures
            final(self).flags == old(self).flags,
            final(self).cache_size == old(self).cache_size,
            final(self).path@ == path@,
            final(self).mode == 0o644,
            !representable_path(path) ==> (r matches Err(e) && e.code == 0 && e.kind
                == ErrorKind::Other && (e.op matches Op::Other(s) && s@ == "Invalid path: "@
                + path@)),
            representable_path(path) ==> (r matches Ok(db) && db.wf() && db.log().len() == 1
                && db.snapshot().len() == 0 && !db.has_writer() && !db.is_stale() && db.config()
                == *final(self)),
    {
        self.open_with_permissions(path, 0o644)
    }

    /// Opens an existing database or creates a new one with the provided
    /// file permissions.
    ///
    /// A fresh handle observes the committed contents of the file and has
    /// neither a writer outstanding nor a stale mark. A path the native
    /// boundary cannot represent is refused.
    pub fn open_with_permissions(&mut self, path: &str, mode: u32) -> (r: Result<Database, Error>)
        ensures
            final(self).flags == old(self).flags,
            final(self).cache_size == old(self).cache_size,
            final(self).path@ == path@,
            final(self).mode == mode,
            !representable_path(path) ==> (r matches Err(e) && e.code == 0 && e.kind
                == ErrorKind::Other && (e.op matches Op::Other(s) && s@ == "Invalid path: "@
                + path@)),
            representable_path(path) ==> (r matches Ok(db) && db.wf() && db.log().len() == 1
                && db.snapshot().len() == 0 && !db.has_writer() && !db.is_stale() && db.config()
                == *final(self)),
    {
        self.path = String::from_str(path);
        self.mode = mode;

        let bs = path.as_bytes();
        let n = bs.len();
        let mut i: usize = 0;
        while i < n
            invariant
                0 <= i <= n,
                n == path.spec_bytes().len(),
                bs@ == path.spec_bytes(),
                forall|j: int| 0 <= j < i ==> path.spec_bytes()[j] != 0,
                self.path@ == path@,
                self.mode == mode,
                self.flags == old(self).flags,
                self.cache_size == old(self).cache_size,
            decreases n - i,
        {
            if bs[i] == 0 {
                let message = String::from_str("Invalid path: ").concat(path);
                return Err(Error::other(message));
            }
            i += 1;
        }

        let store = Store::new();
        let mut history: Vec<Store> = Vec::new();
        history.push(store);
        let db = Database {
            history,
            writer_active: false,
            stale: false,
            builder: self.duplicate(),
        };
        proof {
            assert(db.log().len() == 1);
            assert(db.snapshot() == db.log()[0]);
        }
        Ok(db)
    }

    /// Sets the provided options for the database.
    pub fn set_flags(&mut self, flags: DatabaseFlags) -> (r: &mut DatabaseBuilder)
        ensures
            *r == (DatabaseBuilder {
                flags,
                cache_size: old(self).cache_size,
                path: old(self).path,
                mode: old(self).mode,
            }),
            *final(self) == *final(r),
    {
        self.flags = flags;
        self
    }

    /// Sets the cache size for database entries, in pages. More than the
    /// configured number of pages may exist in the cache: dirty pages and
    /// pages referenced by cursors are excluded from cache expiration,
    /// which is in least-recently-used order.
    pub fn set_cache_size(&mut self, cache_size: u32) -> (r: &mut DatabaseBuilder)
        ensures
            *r == (DatabaseBuilder {
                flags: old(self).flags,
                cache_size,
                path: old(self).path,
                mode: old(self).mode,
            }),
            *final(self) == *final(r),
    {
        self.cache_size = cache_size;
        self
    }
}

/// An open handle to an append-only database.
pub struct Database {
    history: Vec<Store>,
    writer_active: bool,
    stale: bool,
    builder: DatabaseBuilder,
}

impl Database {
    /// The committed history of the file: every committed state in order,
    /// the last one live.
    pub closed spec fn log(&self) -> Seq<Seq<(Seq<u8>, Seq<u8>)>> {
        Seq::new(self.history@.len(), |i: int| self.history@[i]@)
    }

    /// The live committed contents, in key order.
    pub open spec fn snapshot(&self) -> Seq<(Seq<u8>, Seq<u8>)> {
        self.log().last()
    }

    /// The live committed contents, as the map they denote.
    pub open spec fn kv(&self) -> Map<Seq<u8>, Seq<u8>> {
        map_of(self.snapshot())
    }

    /// Whether a read-write transaction is outstanding.
    pub closed spec fn has_writer(&self) -> bool {
        self.writer_active
    }

    /// Whether compaction has invalidated this handle for new
    /// transactions.
    pub closed spec fn is_stale(&self) -> bool {
        self.stale
    }

    /// The configuration this handle was opened with.
    pub closed spec fn config(&self) -> DatabaseBuilder {
        self.builder
    }

    /// The handle holds at least one committed state, each with strictly
    /// ascending keys.
    pub open spec fn wf(&self) -> bool {
        &&& self.log().len() >= 1
        &&& forall|i: int| 0 <= i < self.log().len() ==> sorted_kvs(#[trigger] self.log()[i])
    }

    /// Creates a new builder for specifying options for opening a
    /// database.
    pub fn new() -> (r: DatabaseBuilder)
        ensures
            r.flags == (DatabaseFlags { no_sync: false, read_only: false, reverse_key: false }),
            r.cache_size == 0,
            r.path@ == Seq::<char>::empty(),
            r.mode == 0o644,
    {
        DatabaseBuilder {
            flags: DatabaseFlags::empty(),
            cache_size: 0,
            path: String::new(),
            mode: 0o644,
        }
    }

    /// A copy of the live committed contents.
    fn current_copy(&self) -> (s: Store)
        requires
            self.wf(),
        ensures
            s@ == self.snapshot(),
            sorted_kvs(s@),
    {
        let n = self.history.len();
        let s = self.history[n - 1].duplicate();
        proof {
            assert(self.log()[n - 1] == self.history@[n - 1 as int]@);
        }
        s
    }

    /// Creates a read-only transaction: a consistent snapshot of the live
    /// contents, unless the handle is stale.
    pub fn begin_ro_txn(&self) -> (r: Result<RoTransaction, Error>)
        requires
            self.wf(),
        ensures
            self.is_stale() ==> (r matches Err(e) && e.code == ESTALE && e.kind
                == ErrorKind::StaleHandle && e.op is TxnBegin),
            !self.is_stale() ==> (r matches Ok(t) && t.wf() && t.ordered() == self.snapshot()),
    {
        if self.stale {
            Err(Error::new(ESTALE, Op::TxnBegin))
        } else {
            Ok(RoTransaction::begin(self.current_copy()))
        }
    }

    /// Creates a read-write transaction. At most one may be outstanding:
    /// while one is, another attempt fails busy. A stale handle refuses
    /// new transactions altogether.
    pub fn begin_rw_txn(&mut self) -> (r: Result<RwTransaction, Error>)
        requires
            old(self).wf(),
        ensures
            final(self).wf(),
            old(self).is_stale() ==> (r matches Err(e) && e.code == ESTALE && e.kind
                == ErrorKind::StaleHandle && e.op is TxnBegin && *final(self) == *old(self)),
            !old(self).is_stale() && old(self).has_writer() ==> (r matches Err(e) && e.code
                == EBUSY && e.kind == ErrorKind::Busy && e.op is TxnBegin && *final(self) == *old(self)),
            !old(self).is_stale() && !old(self).has_writer() ==> (r matches Ok(t) && t.wf()
                && t.ordered() == old(self).snapshot() && final(self).log() == old(self).log()
                && final(self).has_writer() && !final(self).is_stale() && final(self).config()
                == old(self).config()),
    {
        if self.stale {
            Err(Error::new(ESTALE, Op::TxnBegin))
        } else if self.writer_active {
            Err(Error::new(EBUSY, Op::TxnBegin))
        } else {
            let t = RwTransaction::begin(self.current_copy());
            self.writer_active = true;
            Ok(t)
        }
    }

    /// Installs a committed transaction's contents as the live state and
    /// releases the writer slot; a stale handle refuses the commit.
    pub(crate) fn apply_commit(&mut self, store: Store) -> (r: Result<(), Error>)
        requires
            old(self).wf(),
            sorted_kvs(store@),
        ensures
            final(self).wf(),
            old(self).is_stale() ==> (r matches Err(e) && e.code == ESTALE && e.kind
                == ErrorKind::StaleHandle && e.op is TxnCommit && *final(self) == *old(self)),
            !old(self).is_stale() ==> (r is Ok && final(self).log() == old(self).log().push(
                store@,
            ) && final(self).snapshot() == store@ && !final(self).has_writer() && !final(self).is_stale() && final(self).config() == old(self).config()),
    {
        if self.stale {
            Err(Error::new(ESTALE, Op::TxnCommit))
        } else {
            let ghost prior = *self;
            self.history.push(store);
            self.writer_active = false;
            proof {
                assert(self.log() =~= prior.log().push(store@));
            }
            Ok(())
        }
    }

    /// Releases the writer slot without installing anything: the abort
    /// path of a read-write transaction.
    pub(crate) fn release_writer(&mut self)
        ensures
            final(self).log() == old(self).log(),
            !final(self).has_writer(),
            final(self).is_stale() == old(self).is_stale(),
            final(self).config() == old(self).config(),
            old(self).wf() ==> final(self).wf(),
    {
        self.writer_active = false;
    }

    /// Atomically replaces the engine handle with a fresh one opened
    /// against the same configuration: the committed contents of the file
    /// are observed again, the stale mark is cleared, and no transaction
    /// is outstanding on the fresh handle.
    pub fn reopen(&mut self) -> (r: Result<(), Error>)
        requires
            old(self).wf(),
        ensures
            r is Ok,
            final(self).wf(),
            final(self).log() == old(self).log(),
            !final(self).has_writer(),
            !final(self).is_stale(),
            final(self).config() == old(self).config(),
    {
        self.stale = false;
        self.writer_active = false;
        Ok(())
    }

    /// Reverts the last committed change, restoring the state before it.
    /// Fails when there is nothing to revert, or the handle is stale.
    pub fn revert(&mut self) -> (r: Result<(), Error>)
        requires
            old(self).wf(),
        ensures
            final(self).wf(),
            old(self).is_stale() ==> (r matches Err(e) && e.code == ESTALE && e.kind
                == ErrorKind::StaleHandle && e.op is Revert && *final(self) == *old(self)),
            !old(self).is_stale() && old(self).log().len() == 1 ==> (r matches Err(e) && e.code
                == EINVAL && e.kind == ErrorKind::InvalidArgument && e.op is Revert && *final(self) == *old(self)),
            !old(self).is_stale() && old(self).log().len() > 1 ==> (r is Ok && final(self).log()
                == old(self).log().drop_last() && final(self).has_writer() == old(self).has_writer() && !final(self).is_stale() && final(self).config() == old(self).config()),
    {
        if self.stale {
            Err(Error::new(ESTALE, Op::Revert))
        } else if self.history.len() <= 1 {
            Err(Error::new(EINVAL, Op::Revert))
        } else {
            let ghost prior = *self;
            self.history.pop();
            proof {
                assert(self.log() =~= prior.log().drop_last());
            }
            Ok(())
        }
    }

    /// Compacts the database: the file is rewritten to hold the live
    /// contents densely, so earlier committed states are gone. When
    /// compaction completes, this handle is permanently stale for new
    /// transactions — the engine requires the caller to reopen the file
    /// and perform new requests against the compacted database.
    pub fn compact(&mut self) -> (r: Result<(), Error>)
        requires
            old(self).wf(),
        ensures
            final(self).wf(),
            old(self).is_stale() ==> (r matches Err(e) && e.code == ESTALE && e.kind
                == ErrorKind::StaleHandle && e.op is Compact && *final(self) == *old(self)),
            !old(self).is_stale() ==> (r is Ok && final(self).log().len() == 1 && final(self).snapshot() == old(self).snapshot() && final(self).is_stale() && final(self).has_writer() == old(self).has_writer() && final(self).config() == old(self).config()),
    {
        if self.stale {
            Err(Error::new(ESTALE, Op::Compact))
        } else {
            let cur = self.current_copy();
            let mut history: Vec<Store> = Vec::new();
            history.push(cur);
            self.history = history;
            self.stale = true;
            proof {
                assert(self.log() =~= seq![old(self).snapshot()]);
            }
            Ok(())
        }
    }

    /// Flushes data buffers to disk. Data is always written to disk on
    /// commit, but the operating system may keep it buffered; a database
    /// opened with the no-sync option accepts this call all the same.
    pub fn sync(&self) -> (r: Result<(), Error>)
        requires
            self.wf(),
        ensures
            self.is_stale() ==> (r matches Err(e) && e.code == ESTALE && e.kind
                == ErrorKind::StaleHandle && e.op is Sync),
            !self.is_stale() ==> r is Ok,
    {
        if self.stale {
            Err(Error::new(ESTALE, Op::Sync))
        } else {
            Ok(())
        }
    }

    /// Closes the database handle, exactly once, consuming it. The caller
    /// must not hold a transaction or cursor derived from this handle.
    pub fn close(self) {
    }
}

} // verus!
