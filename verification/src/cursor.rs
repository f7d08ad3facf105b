//! Cursors and iterators over the ordered entries of a database.
//!
//! A cursor is a movable position in the key order, scoped to the
//! transaction that opened it; every retrieval is a positioned get in one
//! of four movement modes. An iterator is a lazy, forward-only, finite
//! stream built on a cursor: each step performs one positioned get with
//! the step's mode and then switches permanently to the continuation
//! mode, and a step that fails by running past the end quietly ends the
//! stream.

use crate::error::{kind_of_code, Error, ErrorKind, Op, EINVAL, ENOENT};
use crate::keys;
use crate::store::{
    contains_key, key_index, lemma_lower_bound_bounds, lemma_lower_bound_past_all,
    lemma_lower_bound_suffix, lemma_sorted_suffix, lower_bound, sorted_kvs, Store,
};
use vstd::prelude::*;
use vstd::slice::slice_to_vec;

verus! {

/// The four movement modes of a positioned cursor get.
#[derive(Clone, Copy, Debug, Eq, PartialEq, Structural)]
pub enum Position {
    /// Read relative to the cursor's present position: with a key, seek to
    /// the first entry at or after that key; without one, read the entry
    /// the cursor stands on.
    Current,
    /// Seek to the given key exactly; fails when the key is absent, and
    /// leaves the cursor undefined for later relative moves.
    Exact,
    /// Move to the lowest key in the database.
    First,
    /// Advance to the entry immediately following the current position;
    /// on a fresh cursor, move to the first entry.
    Next,
}

/// Where a cursor stands between positioned gets.
#[derive(Clone, Copy, Debug, Eq, PartialEq, Structural)]
pub enum CursorState {
    /// Freshly opened: nowhere yet.
    Fresh,
    /// Standing on the entry at this index.
    At(usize),
    /// Undefined, after a seek that failed.
    Invalid,
}

/// The view of an optional key argument.
pub open spec fn opt_view(key: Option<&[u8]>) -> Option<Seq<u8>> {
    match key {
        Some(k) => Some(k@),
        None => None,
    }
}

/// The entry a positioned get in mode `pos` retrieves, if any: the
/// cursor's four-mode movement rule.
pub open spec fn step_target(
    entries: Seq<(Seq<u8>, Seq<u8>)>,
    state: CursorState,
    key: Option<Seq<u8>>,
    pos: Position,
) -> Option<int> {
    match pos {
        Position::First => if entries.len() > 0 {
            Some(0int)
        } else {
            None
        },
        Position::Exact => match key {
            Some(k) => if contains_key(entries, k) {
                Some(key_index(entries, k))
            } else {
                None
            },
            None => None,
        },
        Position::Current => match key {
            Some(k) => if lower_bound(entries, k) < entries.len() {
                Some(lower_bound(entries, k))
            } else {
                None
            },
            None => match state {
                CursorState::At(i) => Some(i as int),
                _ => None,
            },
        },
        Position::Next => match state {
            CursorState::Fresh => if entries.len() > 0 {
                Some(0int)
            } else {
                None
            },
            CursorState::At(i) => if i + 1 < entries.len() {
                Some(i as int + 1)
            } else {
                None
            },
            CursorState::Invalid => None,
        },
    }
}

/// Where the cursor stands after a positioned get: on the retrieved entry
/// on success; after a failed seek, undefined; after a failed relative
/// move, where it was.
pub open spec fn step_state(
    entries: Seq<(Seq<u8>, Seq<u8>)>,
    state: CursorState,
    key: Option<Seq<u8>>,
    pos: Position,
) -> CursorState {
    match step_target(entries, state, key, pos) {
        Some(i) => CursorState::At(i as usize),
        None => match pos {
            Position::First => CursorState::Invalid,
            Position::Exact => match key {
                Some(_) => CursorState::Invalid,
                None => state,
            },
            Position::Current => match key {
                Some(_) => CursorState::Invalid,
                None => state,
            },
            Position::Next => match state {
                CursorState::Fresh => CursorState::Invalid,
                _ => state,
            },
        },
    }
}

/// The raw system code a failed positioned get reports: seeking past the
/// contents is a no-such-entry failure, while a get that lacks the key or
/// the position it needs is an invalid-argument failure.
pub open spec fn step_code(state: CursorState, key: Option<Seq<u8>>, pos: Position) -> i32 {
    match pos {
        Position::First => ENOENT,
        Position::Exact => match key {
            Some(_) => ENOENT,
            None => EINVAL,
        },
        Position::Current => match key {
            Some(_) => ENOENT,
            None => EINVAL,
        },
        Position::Next => match state {
            CursorState::Invalid => EINVAL,
            _ => ENOENT,
        },
    }
}

/// One positioned get against the modelled contents: the shared engine of
/// cursors and iterators.
fn step_exec(store: &Store, state: CursorState, key: Option<&[u8]>, pos: Position) -> (r: (
    CursorState,
    Result<(Vec<u8>, Vec<u8>), Error>,
))
    requires
        sorted_kvs(store@),
        state matches CursorState::At(i) ==> i < store@.len(),
    ensures
        r.0 == step_state(store@, state, opt_view(key), pos),
        r.0 matches CursorState::At(i) ==> i < store@.len(),
        step_target(store@, state, opt_view(key), pos) matches Some(i) ==> (r.0
            matches CursorState::At(j) && j == i),
        match step_target(store@, state, opt_view(key), pos) {
            Some(i) => (r.1 matches Ok(p) && p.0@ == store@[i].0 && p.1@ == store@[i].1),
            None => (r.1 matches Err(e) && e.code == step_code(state, opt_view(key), pos)
                && e.kind == kind_of_code(step_code(state, opt_view(key), pos)) && e.op
                == Op::CurGet(pos)),
        },
{
    let n = store.len();
    match pos {
        Position::First => {
            if n > 0 {
                (CursorState::At(0), Ok(store.entry_at(0)))
            } else {
                (CursorState::Invalid, Err(Error::new(ENOENT, Op::CurGet(Position::First))))
            }
        },
        Position::Exact => match key {
            Some(k) => match store.find(k) {
                Some(i) => (CursorState::At(i), Ok(store.entry_at(i))),
                None => (CursorState::Invalid, Err(
                    Error::new(ENOENT, Op::CurGet(Position::Exact)),
                )),
            },
            None => (state, Err(Error::new(EINVAL, Op::CurGet(Position::Exact)))),
        },
        Position::Current => match key {
            Some(k) => {
                let i = store.seek(k);
                if i < n {
                    (CursorState::At(i), Ok(store.entry_at(i)))
                } else {
                    (CursorState::Invalid, Err(
                        Error::new(ENOENT, Op::CurGet(Position::Current)),
                    ))
                }
            },
            None => match state {
                CursorState::At(i) => (state, Ok(store.entry_at(i))),
                _ => (state, Err(Error::new(EINVAL, Op::CurGet(Position::Current)))),
            },
        },
        Position::Next => match state {
            CursorState::Fresh => {
                if n > 0 {
                    (CursorState::At(0), Ok(store.entry_at(0)))
                } else {
                    (CursorState::Invalid, Err(Error::new(ENOENT, Op::CurGet(Position::Next))))
                }
            },
            CursorState::At(i) => {
                if i + 1 < n {
                    (CursorState::At(i + 1), Ok(store.entry_at(i + 1)))
                } else {
                    (state, Err(Error::new(ENOENT, Op::CurGet(Position::Next))))
                }
            },
            CursorState::Invalid => (state, Err(Error::new(EINVAL, Op::CurGet(Position::Next)))),
        },
    }
}

/// A read-only cursor for navigating the entries within a database,
/// scoped to the transaction it was opened in.
pub struct RoCursor {
    store: Store,
    state: CursorState,
}

impl RoCursor {
    /// The entries this cursor ranges over: the opening transaction's
    /// snapshot, pending changes included.
    pub closed spec fn entries(&self) -> Seq<(Seq<u8>, Seq<u8>)> {
        self.store@
    }

    /// Where the cursor stands.
    pub closed spec fn state(&self) -> CursorState {
        self.state
    }

    /// The cursor ranges over strictly ordered entries and stands inside
    /// them.
    pub open spec fn wf(&self) -> bool {
        &&& sorted_kvs(self.entries())
        &&& (self.state() matches CursorState::At(i) ==> i < self.entries().len())
    }

    /// The entries a plain iteration from this cursor continues with:
    /// everything after the current position, or everything for a fresh
    /// cursor.
    pub open spec fn continuation(&self) -> Seq<(Seq<u8>, Seq<u8>)> {
        match self.state() {
            CursorState::Fresh => self.entries(),
            CursorState::At(i) => self.entries().skip(i as int + 1),
            CursorState::Invalid => Seq::empty(),
        }
    }

    /// Opens a cursor over the given contents. Prefer
    /// `Transaction::open_ro_cursor`.
    pub(crate) fn open(store: Store) -> (c: RoCursor)
        ensures
            c.entries() == store@,
            c.state() is Fresh,
    {
        RoCursor { store, state: CursorState::Fresh }
    }

    /// Retrieves a key/value pair by one positioned get in the movement
    /// mode `pos`. The returned key is the key of the entry the engine
    /// positioned on.
    pub fn get(&mut self, key: Option<&[u8]>, data: Option<&[u8]>, pos: Position) -> (r: Result<
        (Option<Vec<u8>>, Vec<u8>),
        Error,
    >)
        requires
            old(self).wf(),
        ensures
            final(self).wf(),
            final(self).entries() == old(self).entries(),
            final(self).state() == step_state(
                old(self).entries(),
                old(self).state(),
                opt_view(key),
                pos,
            ),
            match step_target(old(self).entries(), old(self).state(), opt_view(key), pos) {
                Some(i) => (r matches Ok(p) && p.0 matches Some(k0) && k0@ == old(self).entries()[i].0 && p.1@ == old(self).entries()[i].1),
                None => (r matches Err(e) && e.code == step_code(
                    old(self).state(),
                    opt_view(key),
                    pos,
                ) && e.kind == kind_of_code(
                    step_code(old(self).state(), opt_view(key), pos),
                ) && e.op == Op::CurGet(pos)),
            },
    {
        let (state, res) = step_exec(&self.store, self.state, key, pos);
        self.state = state;
        match res {
            Ok(p) => Ok((Some(p.0), p.1)),
            Err(e) => Err(e),
        }
    }

    /// Iterates over the entries that follow the cursor's position, to the
    /// end of the database. A fresh cursor iterates from the first entry.
    pub fn iter(&mut self) -> (it: Iter)
        requires
            old(self).wf(),
        ensures
            *final(self) == *old(self),
            it.wf(),
            it.entries() == old(self).entries(),
            it.remaining() == old(self).continuation(),
    {
        let it = Iter::new(
            self.store.duplicate(),
            self.state,
            Position::Next,
            Position::Next,
            None,
        );
        proof {
            if self.state() is Invalid {
                assert(it.remaining() =~= self.continuation());
            }
        }
        it
    }

    /// Iterates over all entries, from the beginning of the database,
    /// wherever the cursor has moved before.
    pub fn iter_start(&mut self) -> (it: Iter)
        requires
            old(self).wf(),
        ensures
            *final(self) == *old(self),
            it.wf(),
            it.entries() == old(self).entries(),
            it.remaining() == old(self).entries(),
    {
        let it = Iter::new(
            self.store.duplicate(),
            self.state,
            Position::First,
            Position::Next,
            None,
        );
        proof {
            assert(it.remaining() =~= self.entries());
        }
        it
    }

    /// Iterates over the entries whose keys are at or after `key`, in
    /// ascending order. A key past every entry yields nothing. The seek
    /// tolerates an absent key; any other seek failure would be a defect
    /// of this layer, and is proved not to arise.
    pub fn iter_from(&mut self, key: &[u8]) -> (it: Iter)
        requires
            old(self).wf(),
        ensures
            final(self).wf(),
            final(self).entries() == old(self).entries(),
            it.wf(),
            it.entries() == old(self).entries(),
            it.remaining() == old(self).entries().skip(
                lower_bound(old(self).entries(), key@),
            ),
    {
        if let Err(err) = self.get(Some(key), None, Position::Exact) {
            if !matches!(err.kind(), ErrorKind::NotFound) {
                vstd::pervasive::unreached::<()>();
            }
        }
        let it = Iter::new(
            self.store.duplicate(),
            self.state,
            Position::Current,
            Position::Next,
            Some(slice_to_vec(key)),
        );
        it
    }
}

/// An iterator over the entries of a database: the movement mode of the
/// present step, the mode of every later step, and a starting key the
/// first step consumes.
pub struct Iter {
    store: Store,
    state: CursorState,
    curr: Position,
    next: Position,
    from: Option<Vec<u8>>,
}

impl Iter {
    /// The entries this iterator ranges over.
    pub closed spec fn entries(&self) -> Seq<(Seq<u8>, Seq<u8>)> {
        self.store@
    }

    /// The position the present step retrieves, as an index into the
    /// entries; everything from here on is still to be yielded.
    closed spec fn start(&self) -> int {
        match self.curr {
            Position::First => 0,
            Position::Next => match self.state {
                CursorState::Fresh => 0,
                CursorState::At(i) => i as int + 1,
                CursorState::Invalid => self.entries().len() as int,
            },
            Position::Current => match self.from {
                Some(k) => lower_bound(self.entries(), k@),
                None => self.entries().len() as int,
            },
            Position::Exact => self.entries().len() as int,
        }
    }

    /// The entries this iterator has yet to yield, in order.
    pub closed spec fn remaining(&self) -> Seq<(Seq<u8>, Seq<u8>)> {
        self.entries().skip(self.start())
    }

    /// The iterator's invariant: ordered entries, a position inside them,
    /// advance-to-next as the fixed continuation mode, and a starting key
    /// exactly while the first step is a seek.
    pub closed spec fn wf(&self) -> bool {
        &&& sorted_kvs(self.entries())
        &&& (self.state matches CursorState::At(i) ==> i < self.entries().len())
        &&& self.next == Position::Next
        &&& (self.curr == Position::Current <==> self.from is Some)
        &&& self.curr != Position::Exact
    }

    /// Builds an iterator over the given contents from the cursor state it
    /// continues from.
    fn new(store: Store, state: CursorState, curr: Position, next: Position, from: Option<Vec<u8>>)
        -> (it: Iter)
        requires
            sorted_kvs(store@),
            state matches CursorState::At(i) ==> i < store@.len(),
            next == Position::Next,
            curr == Position::Current <==> from is Some,
            curr != Position::Exact,
        ensures
            it.wf(),
            it.entries() == store@,
            it == (Iter { store, state, curr, next, from }),
    {
        Iter { store, state, curr, next, from }
    }

    /// Yields the next key/value pair, or nothing once the entries are
    /// exhausted. Each step performs one positioned get in the step's
    /// mode, then switches to the continuation mode for good. A step that
    /// runs past the end ends the stream; any other failure would be a
    /// defect of this layer, and is proved not to arise.
    pub fn next(&mut self) -> (r: Option<(Vec<u8>, Vec<u8>)>)
        requires
            old(self).wf(),
        ensures
            final(self).wf(),
            final(self).entries() == old(self).entries(),
            old(self).remaining().len() == 0 ==> r is None && final(self).remaining().len() == 0,
            old(self).remaining().len() > 0 ==> (r matches Some(p) && p.0@ == old(self).remaining()[0].0 && p.1@ == old(self).remaining()[0].1 && final(self).remaining()
                == old(self).remaining().skip(1)),
    {
        let from: Option<Vec<u8>> = match &self.from {
            Some(k) => Some(slice_to_vec(k.as_slice())),
            None => None,
        };
        self.from = None;
        let curr = self.curr;
        self.curr = self.next;
        let key_arg: Option<&[u8]> = match &from {
            Some(k) => Some(k.as_slice()),
            None => None,
        };
        let ghost prior = *old(self);
        let (state, res) = step_exec(&self.store, self.state, key_arg, curr);
        self.state = state;
        proof {
            match prior.from {
                Some(k0) => {
                    crate::store::lemma_lower_bound_bounds(prior.entries(), k0@);
                    assert(opt_view(key_arg) == Some(k0@));
                },
                None => {
                    assert(opt_view(key_arg) is None);
                },
            }
            let t = step_target(prior.entries(), prior.state, opt_view(key_arg), curr);
            assert(0 <= prior.start() <= prior.entries().len());
            if prior.remaining().len() > 0 {
                assert(t == Some(prior.start()));
                assert(self.start() == prior.start() + 1);
                assert(self.remaining() =~= prior.remaining().skip(1));
            } else {
                assert(t is None);
                assert(self.remaining().len() == 0);
            }
        }
        match res {
            Ok(p) => Some(p),
            Err(e) => match e.kind() {
                ErrorKind::InvalidArgument | ErrorKind::NotFound => None,
                _ => vstd::pervasive::unreached::<Option<(Vec<u8>, Vec<u8>)>>(),
            },
        }
    }
}

/// What iterating from a key yields: exactly the entries whose keys are
/// at or after `k`, in ascending order — the entries left out are
/// exactly those strictly before `k`, and a key after every entry yields
/// nothing.
pub proof fn lemma_iter_from_yields_tail(s: Seq<(Seq<u8>, Seq<u8>)>, k: Seq<u8>)
    requires
        sorted_kvs(s),
    ensures
        sorted_kvs(s.skip(lower_bound(s, k))),
        forall|i: int|
            lower_bound(s, k) <= i < s.len() ==> keys::lex_le(k, (#[trigger] s[i]).0),
        forall|i: int| 0 <= i < lower_bound(s, k) ==> keys::lex_lt((#[trigger] s[i]).0, k),
        (forall|i: int| 0 <= i < s.len() ==> keys::lex_lt((#[trigger] s[i]).0, k)) ==> s.skip(
            lower_bound(s, k),
        ).len() == 0,
{
    lemma_lower_bound_bounds(s, k);
    lemma_lower_bound_suffix(s, k);
    lemma_sorted_suffix(s, lower_bound(s, k));
    if forall|i: int| 0 <= i < s.len() ==> keys::lex_lt((#[trigger] s[i]).0, k) {
        lemma_lower_bound_past_all(s, k);
    }
}

/// What a fresh cursor over an empty database yields: nothing, whether
/// the iteration is plain, from the start, or from any key.
pub proof fn lemma_empty_database_yields_nothing(c: RoCursor)
    requires
        c.wf(),
        c.entries().len() == 0,
    ensures
        c.continuation().len() == 0,
        forall|k: Seq<u8>|
            c.entries().skip(#[trigger] lower_bound(c.entries(), k)).len() == 0,
{
    assert forall|k: Seq<u8>|
        c.entries().skip(#[trigger] lower_bound(c.entries(), k)).len() == 0 by {
        lemma_lower_bound_bounds(c.entries(), k);
    }
}

} // verus!
