//! The verified model of a database's observable contents.
//!
//! To its clients the engine is an ordered map from byte keys to byte
//! values: a sequence of entries with strictly ascending keys. This module
//! holds that model as verified data — the sequence itself, the map it
//! denotes, and the lower-bound position a cursor seeks to — together with
//! the executable operations the transaction and cursor layers are built
//! from.

use crate::keys;
use vstd::map::*;
use vstd::pervasive::VecAdditionalExecFns;
use vstd::prelude::*;
use vstd::slice::slice_to_vec;

verus! {

/// The entries have strictly ascending keys (so each key occurs once).
pub open spec fn sorted_kvs(s: Seq<(Seq<u8>, Seq<u8>)>) -> bool {
    forall|i: int, j: int|
        0 <= i < j < s.len() ==> keys::lex_lt(#[trigger] s[i].0, #[trigger] s[j].0)
}

/// Whether some entry holds the key `k`.
pub open spec fn contains_key(s: Seq<(Seq<u8>, Seq<u8>)>, k: Seq<u8>) -> bool {
    exists|i: int| 0 <= i < s.len() && (#[trigger] s[i]).0 == k
}

/// The index of the entry holding the key `k`.
pub open spec fn key_index(s: Seq<(Seq<u8>, Seq<u8>)>, k: Seq<u8>) -> int {
    choose|i: int| 0 <= i < s.len() && (#[trigger] s[i]).0 == k
}

/// The value stored under the key `k`.
pub open spec fn value_of(s: Seq<(Seq<u8>, Seq<u8>)>, k: Seq<u8>) -> Seq<u8> {
    s[key_index(s, k)].1
}

/// The map a sequence of entries denotes.
pub open spec fn map_of(s: Seq<(Seq<u8>, Seq<u8>)>) -> Map<Seq<u8>, Seq<u8>> {
    Map::new(|k: Seq<u8>| contains_key(s, k), |k: Seq<u8>| value_of(s, k))
}

/// The position of the first entry whose key is at or after `k`: where a
/// cursor seeking to `k` comes to rest.
pub open spec fn lower_bound(s: Seq<(Seq<u8>, Seq<u8>)>, k: Seq<u8>) -> int
    decreases s.len(),
{
    if s.len() == 0 {
        0
    } else if keys::lex_lt(s[0].0, k) {
        1 + lower_bound(s.skip(1), k)
    } else {
        0
    }
}

/// A key occurs at one index only.
pub proof fn lemma_key_unique(s: Seq<(Seq<u8>, Seq<u8>)>, i: int, j: int)
    requires
        sorted_kvs(s),
        0 <= i < s.len(),
        0 <= j < s.len(),
        s[i].0 == s[j].0,
    ensures
        i == j,
{
    if i < j {
        assert(keys::lex_lt(s[i].0, s[j].0));
        keys::lemma_lex_lt_irreflexive(s[i].0);
    } else if j < i {
        assert(keys::lex_lt(s[j].0, s[i].0));
        keys::lemma_lex_lt_irreflexive(s[i].0);
    }
}

/// The entry at index `i` is the one its key denotes in the map.
pub proof fn lemma_entry_at(s: Seq<(Seq<u8>, Seq<u8>)>, i: int)
    requires
        sorted_kvs(s),
        0 <= i < s.len(),
    ensures
        contains_key(s, s[i].0),
        key_index(s, s[i].0) == i,
        value_of(s, s[i].0) == s[i].1,
        map_of(s).contains_key(s[i].0),
        map_of(s)[s[i].0] == s[i].1,
{
    assert(contains_key(s, s[i].0));
    let j = key_index(s, s[i].0);
    assert(0 <= j < s.len() && s[j].0 == s[i].0);
    lemma_key_unique(s, i, j);
}

/// Bounds and prefix of the lower-bound position.
pub proof fn lemma_lower_bound_bounds(s: Seq<(Seq<u8>, Seq<u8>)>, k: Seq<u8>)
    ensures
        0 <= lower_bound(s, k) <= s.len(),
        forall|i: int| 0 <= i < lower_bound(s, k) ==> keys::lex_lt((#[trigger] s[i]).0, k),
        lower_bound(s, k) < s.len() ==> !keys::lex_lt(s[lower_bound(s, k)].0, k),
    decreases s.len(),
{
    if s.len() > 0 && keys::lex_lt(s[0].0, k) {
        lemma_lower_bound_bounds(s.skip(1), k);
        assert forall|i: int| 0 <= i < lower_bound(s, k) implies keys::lex_lt(
            (#[trigger] s[i]).0,
            k,
        ) by {
            if i >= 1 {
                assert(s.skip(1)[i - 1] == s[i]);
            }
        }
        if lower_bound(s, k) < s.len() {
            assert(s.skip(1)[lower_bound(s, k) - 1] == s[lower_bound(s, k)]);
        }
    }
}

/// In a sorted sequence, every entry at or after the lower bound is at or
/// after `k` in the key order.
pub proof fn lemma_lower_bound_suffix(s: Seq<(Seq<u8>, Seq<u8>)>, k: Seq<u8>)
    requires
        sorted_kvs(s),
    ensures
        forall|i: int|
            lower_bound(s, k) <= i < s.len() ==> keys::lex_le(k, (#[trigger] s[i]).0),
{
    lemma_lower_bound_bounds(s, k);
    let lb = lower_bound(s, k);
    assert forall|i: int| lb <= i < s.len() implies keys::lex_le(k, (#[trigger] s[i]).0) by {
        if i == lb {
            keys::lemma_lex_lt_total(k, s[i].0);
        } else {
            assert(keys::lex_lt(s[lb].0, s[i].0));
            keys::lemma_lex_lt_total(k, s[i].0);
            if keys::lex_lt(s[i].0, k) {
                keys::lemma_lex_lt_transitive(s[lb].0, s[i].0, k);
            }
        }
    }
}

/// A sorted sequence holds `k` exactly when the entry at the lower bound
/// does.
pub proof fn lemma_lower_bound_finds(s: Seq<(Seq<u8>, Seq<u8>)>, k: Seq<u8>)
    requires
        sorted_kvs(s),
    ensures
        contains_key(s, k) <==> (lower_bound(s, k) < s.len() && s[lower_bound(s, k)].0 == k),
{
    lemma_lower_bound_bounds(s, k);
    let lb = lower_bound(s, k);
    if contains_key(s, k) {
        let j = key_index(s, k);
        assert(0 <= j < s.len() && s[j].0 == k);
        if j < lb {
            keys::lemma_lex_lt_irreflexive(k);
        } else if j > lb {
            assert(keys::lex_lt(s[lb].0, s[j].0));
        }
    }
}

/// The characterization the executable search uses: a position whose
/// prefix is strictly below `k` and whose own entry is not is the lower
/// bound.
pub proof fn lemma_lower_bound_is(s: Seq<(Seq<u8>, Seq<u8>)>, k: Seq<u8>, i: int)
    requires
        0 <= i <= s.len(),
        forall|j: int| 0 <= j < i ==> keys::lex_lt((#[trigger] s[j]).0, k),
        i < s.len() ==> !keys::lex_lt(s[i].0, k),
    ensures
        lower_bound(s, k) == i,
    decreases i,
{
    if i == 0 {
    } else {
        assert(keys::lex_lt(s[0].0, k));
        assert forall|j: int| 0 <= j < i - 1 implies keys::lex_lt(
            (#[trigger] s.skip(1)[j]).0,
            k,
        ) by {
            assert(s.skip(1)[j] == s[j + 1]);
        }
        if i - 1 < s.skip(1).len() {
            assert(s.skip(1)[i - 1] == s[i]);
        }
        lemma_lower_bound_is(s.skip(1), k, i - 1);
    }
}

/// A suffix of a sorted sequence is sorted.
pub proof fn lemma_sorted_suffix(s: Seq<(Seq<u8>, Seq<u8>)>, n: int)
    requires
        sorted_kvs(s),
        0 <= n <= s.len(),
    ensures
        sorted_kvs(s.skip(n)),
{
    assert forall|i: int, j: int| 0 <= i < j < s.skip(n).len() implies keys::lex_lt(
        (#[trigger] s.skip(n)[i]).0,
        (#[trigger] s.skip(n)[j]).0,
    ) by {
        assert(s.skip(n)[i] == s[i + n]);
        assert(s.skip(n)[j] == s[j + n]);
    }
}

/// A key after every entry has the whole sequence before its lower bound.
pub proof fn lemma_lower_bound_past_all(s: Seq<(Seq<u8>, Seq<u8>)>, k: Seq<u8>)
    requires
        forall|i: int| 0 <= i < s.len() ==> keys::lex_lt((#[trigger] s[i]).0, k),
    ensures
        lower_bound(s, k) == s.len(),
{
    lemma_lower_bound_is(s, k, s.len() as int);
}

/// The committed map and the key order together pin the entries: two
/// sorted sequences denoting the same map are the same sequence. So a
/// contract that fixes the map a database holds also fixes exactly which
/// entries its cursors and iterators yield, and in what order.
pub proof fn lemma_sorted_map_determines_entries(
    s1: Seq<(Seq<u8>, Seq<u8>)>,
    s2: Seq<(Seq<u8>, Seq<u8>)>,
)
    requires
        sorted_kvs(s1),
        sorted_kvs(s2),
        map_of(s1) == map_of(s2),
    ensures
        s1 == s2,
    decreases s1.len(),
{
    if s1.len() == 0 {
        if s2.len() > 0 {
            lemma_entry_at(s2, 0);
            assert(map_of(s1).contains_key(s2[0].0));
            assert(false);
        }
        assert(s1 =~= s2);
    } else if s2.len() == 0 {
        lemma_entry_at(s1, 0);
        assert(map_of(s2).contains_key(s1[0].0));
        assert(false);
    } else {
        lemma_entry_at(s1, 0);
        lemma_entry_at(s2, 0);
        assert(map_of(s2).contains_key(s1[0].0));
        assert(contains_key(s2, s1[0].0));
        let j = key_index(s2, s1[0].0);
        assert(0 <= j < s2.len() && s2[j].0 == s1[0].0);
        assert(map_of(s1).contains_key(s2[0].0));
        assert(contains_key(s1, s2[0].0));
        let i = key_index(s1, s2[0].0);
        assert(0 <= i < s1.len() && s1[i].0 == s2[0].0);
        if j > 0 {
            assert(keys::lex_lt(s2[0].0, s2[j].0));
            if i > 0 {
                assert(keys::lex_lt(s1[0].0, s1[i].0));
                keys::lemma_lex_lt_transitive(s1[0].0, s2[0].0, s1[0].0);
            }
            keys::lemma_lex_lt_irreflexive(s1[0].0);
            assert(false);
        }
        assert(s2[0].0 == s1[0].0);
        assert(map_of(s1)[s1[0].0] == s1[0].1);
        assert(map_of(s2)[s1[0].0] == s2[0].1);
        assert(s1[0].1 == s2[0].1);

        let t1 = s1.skip(1);
        let t2 = s2.skip(1);
        assert(t1 =~= s1.remove(0));
        assert(t2 =~= s2.remove(0));
        lemma_sorted_suffix(s1, 1);
        lemma_sorted_suffix(s2, 1);
        sorted_remove_map_fact(s1, t1, s1[0].0, 0);
        sorted_remove_map_fact(s2, t2, s1[0].0, 0);
        lemma_sorted_map_determines_entries(t1, t2);
        assert forall|k: int| 0 <= k < s1.len() implies s1[k] == s2[k] by {
            if k >= 1 {
                assert(t1[k - 1] == s1[k]);
                assert(t2[k - 1] == s2[k]);
            }
        }
        assert(s1 =~= s2);
    }
}

/// The observable contents of one open database: entries with strictly
/// ascending keys.
#[derive(Debug)]
pub struct Store {
    items: Vec<(Vec<u8>, Vec<u8>)>,
}

impl View for Store {
    type V = Seq<(Seq<u8>, Seq<u8>)>;

    closed spec fn view(&self) -> Seq<(Seq<u8>, Seq<u8>)> {
        Seq::new(self.items@.len(), |i: int| (self.items@[i].0@, self.items@[i].1@))
    }
}

impl Store {
    /// A store with nothing in it.
    pub fn new() -> (s: Store)
        ensures
            s@.len() == 0,
            sorted_kvs(s@),
            map_of(s@) =~= Map::<Seq<u8>, Seq<u8>>::empty(),
    {
        Store { items: Vec::new() }
    }

    /// How many entries the store holds.
    pub fn len(&self) -> (n: usize)
        ensures
            n == self@.len(),
    {
        self.items.len()
    }

    /// The entry at a position, key and value both copied out.
    pub fn entry_at(&self, i: usize) -> (r: (Vec<u8>, Vec<u8>))
        requires
            i < self@.len(),
        ensures
            r.0@ == self@[i as int].0,
            r.1@ == self@[i as int].1,
    {
        let key = slice_to_vec(self.items[i].0.as_slice());
        let value = slice_to_vec(self.items[i].1.as_slice());
        (key, value)
    }

    /// The position of the first entry whose key is at or after `key`.
    pub fn seek(&self, key: &[u8]) -> (i: usize)
        ensures
            i == lower_bound(self@, key@),
    {
        let n = self.items.len();
        let mut i: usize = 0;
        loop
            invariant
                0 <= i <= n,
                n == self@.len(),
                n == self.items@.len(),
                forall|j: int| 0 <= j < i ==> keys::lex_lt((#[trigger] self@[j]).0, key@),
            ensures
                0 <= i <= n,
                forall|j: int| 0 <= j < i ==> keys::lex_lt((#[trigger] self@[j]).0, key@),
                i < n ==> !keys::lex_lt(self@[i as int].0, key@),
            decreases n - i,
        {
            if i >= n {
                break ;
            }
            if !keys::bytes_lt(self.items[i].0.as_slice(), key) {
                break ;
            }
            i += 1;
        }
        proof {
            lemma_lower_bound_is(self@, key@, i as int);
        }
        i
    }

    /// The position of the entry holding exactly `key`, if it is present.
    pub fn find(&self, key: &[u8]) -> (r: Option<usize>)
        requires
            sorted_kvs(self@),
        ensures
            match r {
                Some(i) => contains_key(self@, key@) && key_index(self@, key@) == i && i
                    < self@.len() && self@[i as int].0 == key@,
                None => !contains_key(self@, key@),
            },
    {
        let i = self.seek(key);
        proof {
            lemma_lower_bound_finds(self@, key@);
        }
        if i < self.items.len() && keys::bytes_eq(self.items[i].0.as_slice(), key) {
            proof {
                lemma_entry_at(self@, i as int);
            }
            Some(i)
        } else {
            None
        }
    }

    /// The value stored under `key`, if the key is present.
    pub fn get(&self, key: &[u8]) -> (r: Option<Vec<u8>>)
        requires
            sorted_kvs(self@),
        ensures
            contains_key(self@, key@) ==> (r matches Some(v) && v@ == map_of(self@)[key@]),
            !contains_key(self@, key@) ==> r is None,
    {
        match self.find(key) {
            Some(i) => {
                let value = slice_to_vec(self.items[i].1.as_slice());
                proof {
                    lemma_entry_at(self@, i as int);
                }
                Some(value)
            },
            None => None,
        }
    }

    /// Stores `value` under `key`, replacing what was there.
    pub fn set(&mut self, key: &[u8], value: &[u8])
        requires
            sorted_kvs(old(self)@),
        ensures
            sorted_kvs(final(self)@),
            map_of(final(self)@) == map_of(old(self)@).insert(key@, value@),
            contains_key(old(self)@, key@) ==> final(self)@ == old(self)@.update(
                key_index(old(self)@, key@),
                (key@, value@),
            ),
            !contains_key(old(self)@, key@) ==> final(self)@ == old(self)@.insert(
                lower_bound(old(self)@, key@),
                (key@, value@),
            ),
    {
        let ghost prior = self@;
        let pair = (slice_to_vec(key), slice_to_vec(value));
        let i = self.seek(key);
        proof {
            lemma_lower_bound_bounds(prior, key@);
            lemma_lower_bound_suffix(prior, key@);
            lemma_lower_bound_finds(prior, key@);
        }
        if i < self.items.len() && keys::bytes_eq(self.items[i].0.as_slice(), key) {
            self.items.set(i, pair);
            proof {
                lemma_entry_at(prior, i as int);
                assert(self@ =~= prior.update(i as int, (key@, value@)));
                let cur = self@;
                assert forall|x: int, y: int| 0 <= x < y < cur.len() implies keys::lex_lt(
                    (#[trigger] cur[x]).0,
                    (#[trigger] cur[y]).0,
                ) by {
                    assert(cur[x].0 == prior[x].0);
                    assert(cur[y].0 == prior[y].0);
                }
                assert forall|k: Seq<u8>| true implies #[trigger] contains_key(cur, k)
                    == contains_key(prior, k) by {
                    if contains_key(cur, k) {
                        let j = key_index(cur, k);
                        assert(cur[j].0 == prior[j].0);
                        assert(contains_key(prior, k));
                    }
                    if contains_key(prior, k) {
                        let j = key_index(prior, k);
                        assert(cur[j].0 == prior[j].0);
                        assert(contains_key(cur, k));
                    }
                }
                assert forall|k: Seq<u8>| contains_key(cur, k) && k != key@ implies value_of(
                    cur,
                    k,
                ) == value_of(prior, k) by {
                    let j = key_index(cur, k);
                    assert(cur[j].0 == k);
                    assert(j != i);
                    assert(prior[j].0 == k);
                    lemma_key_unique(prior, j, key_index(prior, k));
                }
                lemma_entry_at(cur, i as int);
                assert(map_of(cur) =~= map_of(prior).insert(key@, value@));
            }
        } else {
            assert(!contains_key(prior, key@));
            self.items.insert(i, pair);
            proof {
                assert(self@ =~= prior.insert(i as int, (key@, value@)));
                let cur = self@;
                assert forall|x: int, y: int| 0 <= x < y < cur.len() implies keys::lex_lt(
                    (#[trigger] cur[x]).0,
                    (#[trigger] cur[y]).0,
                ) by {
                    if y < i {
                        assert(cur[x] == prior[x] && cur[y] == prior[y]);
                    } else if x < i && y == i {
                        assert(cur[x] == prior[x]);
                        assert(keys::lex_lt(prior[x].0, key@));
                    } else if x < i && y > i {
                        assert(cur[x] == prior[x] && cur[y] == prior[y - 1]);
                    } else if x == i {
                        assert(cur[y] == prior[y - 1]);
                        assert(keys::lex_le(key@, prior[y - 1].0));
                        assert(prior[y - 1].0 != key@);
                    } else {
                        assert(cur[x] == prior[x - 1] && cur[y] == prior[y - 1]);
                    }
                }
                sorted_insert_map_fact(prior, cur, key@, value@, i as int);
            }
        }
    }

    /// Removes the entry under `key`; reports whether one was there.
    pub fn remove(&mut self, key: &[u8]) -> (r: bool)
        requires
            sorted_kvs(old(self)@),
        ensures
            sorted_kvs(final(self)@),
            r == contains_key(old(self)@, key@),
            map_of(final(self)@) == map_of(old(self)@).remove(key@),
            r ==> final(self)@ == old(self)@.remove(key_index(old(self)@, key@)),
            !r ==> final(self)@ == old(self)@,
    {
        let ghost prior = self@;
        match self.find(key) {
            Some(i) => {
                self.items.remove(i);
                proof {
                    assert(self@ =~= prior.remove(i as int));
                    let cur = self@;
                    assert forall|x: int, y: int| 0 <= x < y < cur.len() implies keys::lex_lt(
                        (#[trigger] cur[x]).0,
                        (#[trigger] cur[y]).0,
                    ) by {
                        let px: int = if x < i {
                            x
                        } else {
                            x + 1
                        };
                        let py: int = if y < i {
                            y
                        } else {
                            y + 1
                        };
                        assert(cur[x] == prior[px] && cur[y] == prior[py]);
                    }
                    sorted_remove_map_fact(prior, cur, key@, i as int);
                }
                true
            },
            None => {
                proof {
                    assert(map_of(self@) =~= map_of(prior).remove(key@));
                }
                false
            },
        }
    }

    /// A copy of the store holding the same entries.
    pub fn duplicate(&self) -> (r: Store)
        ensures
            r@ == self@,
    {
        let n = self.items.len();
        let mut items: Vec<(Vec<u8>, Vec<u8>)> = Vec::new();
        let mut i: usize = 0;
        while i < n
            invariant
                0 <= i <= n,
                n == self.items@.len(),
                items@.len() == i,
                forall|j: int|
                    0 <= j < i ==> (#[trigger] items@[j]).0@ == self.items@[j].0@ && items@[j].1@
                        == self.items@[j].1@,
            decreases n - i,
        {
            let k = slice_to_vec(self.items[i].0.as_slice());
            let v = slice_to_vec(self.items[i].1.as_slice());
            items.push((k, v));
            i += 1;
        }
        let r = Store { items };
        proof {
            assert(r@ =~= self@);
        }
        r
    }
}

/// After an insertion of a fresh key at its lower bound, the denoted map
/// is the old map with that key bound.
proof fn sorted_insert_map_fact(
    prior: Seq<(Seq<u8>, Seq<u8>)>,
    cur: Seq<(Seq<u8>, Seq<u8>)>,
    k: Seq<u8>,
    v: Seq<u8>,
    i: int,
)
    requires
        sorted_kvs(prior),
        sorted_kvs(cur),
        !contains_key(prior, k),
        0 <= i <= prior.len(),
        cur == prior.insert(i, (k, v)),
    ensures
        map_of(cur) == map_of(prior).insert(k, v),
{
    assert(cur[i].0 == k && cur[i].1 == v);
    lemma_entry_at(cur, i);
    assert forall|q: Seq<u8>| q != k implies #[trigger] contains_key(cur, q) == contains_key(
        prior,
        q,
    ) by {
        if contains_key(cur, q) {
            let j = key_index(cur, q);
            let pj: int = if j < i {
                j
            } else {
                j - 1
            };
            assert(j != i);
            assert(cur[j] == prior[pj]);
            assert(contains_key(prior, q));
        }
        if contains_key(prior, q) {
            let j = key_index(prior, q);
            let cj: int = if j < i {
                j
            } else {
                j + 1
            };
            assert(cur[cj] == prior[j]);
            assert(contains_key(cur, q));
        }
    }
    assert forall|q: Seq<u8>| q != k && contains_key(cur, q) implies #[trigger] value_of(cur, q)
        == value_of(prior, q) by {
        let j = key_index(cur, q);
        assert(cur[j].0 == q);
        let pj: int = if j < i {
            j
        } else {
            j - 1
        };
        assert(j != i);
        assert(cur[j] == prior[pj]);
        lemma_entry_at(prior, pj);
    }
    assert(map_of(cur) =~= map_of(prior).insert(k, v));
}

/// After removal of the entry holding `k`, the denoted map is the old map
/// without that key.
proof fn sorted_remove_map_fact(
    prior: Seq<(Seq<u8>, Seq<u8>)>,
    cur: Seq<(Seq<u8>, Seq<u8>)>,
    k: Seq<u8>,
    i: int,
)
    requires
        sorted_kvs(prior),
        sorted_kvs(cur),
        0 <= i < prior.len(),
        prior[i].0 == k,
        cur == prior.remove(i),
    ensures
        map_of(cur) == map_of(prior).remove(k),
{
    assert forall|q: Seq<u8>| true implies #[trigger] contains_key(cur, q) == (contains_key(
        prior,
        q,
    ) && q != k) by {
        if contains_key(cur, q) {
            let j = key_index(cur, q);
            let pj: int = if j < i {
                j
            } else {
                j + 1
            };
            assert(cur[j] == prior[pj]);
            assert(contains_key(prior, q));
            if q == k {
                assert(prior[pj].0 == prior[i].0);
                lemma_key_unique(prior, pj, i);
            }
        }
        if contains_key(prior, q) && q != k {
            let j = key_index(prior, q);
            assert(prior[j].0 == q);
            assert(j != i);
            let cj: int = if j < i {
                j
            } else {
                j - 1
            };
            assert(cur[cj] == prior[j]);
            assert(contains_key(cur, q));
        }
    }
    assert forall|q: Seq<u8>| contains_key(cur, q) implies #[trigger] value_of(cur, q) == value_of(
        prior,
        q,
    ) by {
        let j = key_index(cur, q);
        assert(cur[j].0 == q);
        let pj: int = if j < i {
            j
        } else {
            j + 1
        };
        assert(cur[j] == prior[pj]);
        lemma_entry_at(prior, pj);
    }
    assert(map_of(cur) =~= map_of(prior).remove(k));
}

} // verus!
