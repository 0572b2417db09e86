//! Per-shard storage: the value model, the typed responses, and the shard
//! `Store` whose contents are specified as a map from key bytes to values.
//!
//! A shard owns its keys exclusively; every operation that names a key runs
//! against exactly one `Store`. The request types in the submodules carry
//! verified `handle` functions over a `Store`.

use std::collections::VecDeque;
use vstd::prelude::*;
use vstd::string::*;

pub mod engine;
pub mod get_storage;
pub mod list_left_blocking_pop_storage;
pub mod list_left_pop_storage;
pub mod list_left_push_storage;
pub mod list_length_storage;
pub mod list_range_storage;
pub mod list_right_push_storage;
pub mod set_storage;

verus! {

/// One stored value: a byte string or a list of byte strings.
#[derive(Debug)]
pub enum StorageValue {
    Str(Vec<u8>),
    List(VecDeque<Vec<u8>>),
}

/// Mathematical model of a stored value.
pub enum ValueModel {
    StrV(Seq<u8>),
    ListV(Seq<Seq<u8>>),
}

pub open spec fn value_model(v: StorageValue) -> ValueModel {
    match v {
        StorageValue::Str(s) => ValueModel::StrV(s@),
        StorageValue::List(d) => ValueModel::ListV(Seq::new(d@.len(), |i: int| d@[i]@)),
    }
}

/// A reply from a shard to the command layer.
#[derive(Debug)]
pub enum StorageResponse {
    KeyValue { value: Vec<u8> },
    ValueFromList { value: Vec<u8>, list_name: Vec<u8> },
    Null,
    Success,
    ListLength(usize),
    ListValues { values: Vec<Vec<u8>> },
    Failed(Vec<u8>),
}

/// Mathematical model of a shard reply.
pub enum ResponseModel {
    KeyValueV(Seq<u8>),
    ValueFromListV(Seq<u8>, Seq<u8>),
    NullV,
    SuccessV,
    ListLengthV(int),
    ListValuesV(Seq<Seq<u8>>),
    FailedV(Seq<u8>),
}

pub open spec fn response_model(r: StorageResponse) -> ResponseModel {
    match r {
        StorageResponse::KeyValue { value } => ResponseModel::KeyValueV(value@),
        StorageResponse::ValueFromList { value, list_name } => ResponseModel::ValueFromListV(
            value@,
            list_name@,
        ),
        StorageResponse::Null => ResponseModel::NullV,
        StorageResponse::Success => ResponseModel::SuccessV,
        StorageResponse::ListLength(n) => ResponseModel::ListLengthV(n as int),
        StorageResponse::ListValues { values } => ResponseModel::ListValuesV(
            Seq::new(values@.len(), |i: int| values@[i]@),
        ),
        StorageResponse::Failed(m) => ResponseModel::FailedV(m@),
    }
}

pub open spec fn distinct_keys<T>(s: Seq<(Vec<u8>, T)>) -> bool {
    forall|i: int, j: int| 0 <= i < j < s.len() ==> (#[trigger] s[i]).0@ != (#[trigger] s[j]).0@
}

/// Association lookup: the value stored beside key `k`, scanning from the
/// end of the table.
pub open spec fn lookup_pair<T>(s: Seq<(Vec<u8>, T)>, k: Seq<u8>) -> Option<T>
    decreases s.len(),
{
    if s.len() == 0 {
        None
    } else if s.last().0@ == k {
        Some(s.last().1)
    } else {
        lookup_pair(s.drop_last(), k)
    }
}

pub proof fn lemma_lookup_matches<T>(s: Seq<(Vec<u8>, T)>, k: Seq<u8>)
    ensures
        lookup_pair(s, k) is Some <==> exists|j: int| 0 <= j < s.len() && (#[trigger] s[j]).0@ == k,
    decreases s.len(),
{
    if s.len() > 0 {
        lemma_lookup_matches(s.drop_last(), k);
        if s.last().0@ == k {
            assert(s[s.len() - 1].0@ == k);
        } else {
            assert(forall|j: int|
                0 <= j < s.len() - 1 ==> (#[trigger] s.drop_last()[j]) == s[j]);
            if exists|j: int| 0 <= j < s.len() && (#[trigger] s[j]).0@ == k {
                let j = choose|j: int| 0 <= j < s.len() && (#[trigger] s[j]).0@ == k;
                assert(j < s.len() - 1);
                assert(s.drop_last()[j].0@ == k);
            }
        }
    }
}

pub proof fn lemma_lookup_at_index<T>(s: Seq<(Vec<u8>, T)>, i: int, k: Seq<u8>)
    requires
        distinct_keys(s),
        0 <= i < s.len(),
        s[i].0@ == k,
    ensures
        lookup_pair(s, k) == Some(s[i].1),
    decreases s.len(),
{
    if i == s.len() - 1 {
    } else {
        assert(s.last().0@ != k);
        assert(forall|j: int| 0 <= j < s.len() - 1 ==> (#[trigger] s.drop_last()[j]) == s[j]);
        lemma_lookup_at_index(s.drop_last(), i, k);
    }
}

pub proof fn lemma_lookup_update<T>(s: Seq<(Vec<u8>, T)>, i: int, e: (Vec<u8>, T), k: Seq<u8>)
    requires
        distinct_keys(s),
        0 <= i < s.len(),
        s[i].0@ == e.0@,
    ensures
        lookup_pair(s.update(i, e), k) == if k == e.0@ {
            Some(e.1)
        } else {
            lookup_pair(s, k)
        },
    decreases s.len(),
{
    let s2 = s.update(i, e);
    if i == s.len() - 1 {
        assert(s2.last() == e);
        assert(s2.drop_last() =~= s.drop_last());
        if k != e.0@ {
            assert(s.last().0@ == e.0@);
        }
    } else {
        assert(s2.last() == s.last());
        assert(s2.drop_last() =~= s.drop_last().update(i, e));
        assert(forall|j: int| 0 <= j < s.len() - 1 ==> (#[trigger] s.drop_last()[j]) == s[j]);
        lemma_lookup_update(s.drop_last(), i, e, k);
        if k == e.0@ {
            assert(s.last().0@ != k);
        }
    }
}

pub proof fn lemma_lookup_push<T>(s: Seq<(Vec<u8>, T)>, e: (Vec<u8>, T), k: Seq<u8>)
    ensures
        lookup_pair(s.push(e), k) == if k == e.0@ {
            Some(e.1)
        } else {
            lookup_pair(s, k)
        },
{
    assert(s.push(e).last() == e);
    assert(s.push(e).drop_last() =~= s);
}

pub proof fn lemma_lookup_remove<T>(s: Seq<(Vec<u8>, T)>, i: int, k: Seq<u8>)
    requires
        distinct_keys(s),
        0 <= i < s.len(),
    ensures
        lookup_pair(s.remove(i), k) == if k == s[i].0@ {
            None::<T>
        } else {
            lookup_pair(s, k)
        },
    decreases s.len(),
{
    let s2 = s.remove(i);
    if i == s.len() - 1 {
        assert(s2 =~= s.drop_last());
        if k == s[i].0@ {
            lemma_lookup_matches(s2, k);
            assert(forall|j: int| 0 <= j < s2.len() ==> (#[trigger] s2[j]) == s[j]);
            if exists|j: int| 0 <= j < s2.len() && (#[trigger] s2[j]).0@ == k {
                let j = choose|j: int| 0 <= j < s2.len() && (#[trigger] s2[j]).0@ == k;
                assert(s[j].0@ == k && s[i].0@ == k && j < i);
                assert(false);
            }
        }
    } else {
        assert(s2.last() == s.last());
        assert(s2.drop_last() =~= s.drop_last().remove(i));
        assert(forall|j: int| 0 <= j < s.len() - 1 ==> (#[trigger] s.drop_last()[j]) == s[j]);
        lemma_lookup_remove(s.drop_last(), i, k);
        if k == s[i].0@ {
            assert(s.last().0@ != k);
        }
    }
}

/// The contents of one shard: the key/value map and the registry of pending
/// expirations (at most one per key, keyed by the owning key).
pub struct Store {
    entries: Vec<(Vec<u8>, StorageValue)>,
    ttl: Vec<(Vec<u8>, u64)>,
}

impl Store {
    /// The key/value map this shard holds.
    pub closed spec fn map_view(&self) -> Map<Seq<u8>, ValueModel> {
        Map::new(
            |k: Seq<u8>| lookup_pair(self.entries@, k) is Some,
            |k: Seq<u8>| value_model(lookup_pair(self.entries@, k)->0),
        )
    }

    /// The pending-expiration registry: key to expiration delay.
    pub closed spec fn ttl_view(&self) -> Map<Seq<u8>, u64> {
        Map::new(
            |k: Seq<u8>| lookup_pair(self.ttl@, k) is Some,
            |k: Seq<u8>| lookup_pair(self.ttl@, k)->0,
        )
    }

    /// Every key appears at most once in each table.
    pub closed spec fn wf(&self) -> bool {
        distinct_keys(self.entries@) && distinct_keys(self.ttl@)
    }

    pub fn new() -> (r: Store)
        ensures
            r.wf(),
            r.map_view() == Map::<Seq<u8>, ValueModel>::empty(),
            r.ttl_view() == Map::<Seq<u8>, u64>::empty(),
    {
        let r = Store { entries: Vec::new(), ttl: Vec::new() };
        proof {
            assert(r.map_view() =~= Map::<Seq<u8>, ValueModel>::empty());
            assert(r.ttl_view() =~= Map::<Seq<u8>, u64>::empty());
        }
        r
    }

    /// Index of the entry holding `key`, if any.
    fn find_index(&self, key: &[u8]) -> (r: Option<usize>)
        requires
            self.wf(),
        ensures
            match r {
                Some(i) => i < self.entries@.len() && self.entries@[i as int].0@ == key@
                    && self.map_view().contains_key(key@) && self.map_view()[key@] == value_model(
                    self.entries@[i as int].1,
                ),
                None => !self.map_view().contains_key(key@),
            },
    {
        let n = self.entries.len();
        let mut i: usize = 0;
        while i < n
            invariant
                i <= n,
                n == self.entries@.len(),
                self.wf(),
                forall|j: int| 0 <= j < i ==> (#[trigger] self.entries@[j]).0@ != key@,
            decreases n - i,
        {
            if bytes_eq(self.entries[i].0.as_slice(), key) {
                proof {
                    lemma_lookup_at_index(self.entries@, i as int, key@);
                }
                return Some(i);
            }
            i = i + 1;
        }
        proof {
            lemma_lookup_matches(self.entries@, key@);
        }
        None
    }

    /// A reference to the value under `key`, if present.
    pub fn get_value(&self, key: &[u8]) -> (r: Option<&StorageValue>)
        requires
            self.wf(),
        ensures
            match r {
                Some(v) => self.map_view().contains_key(key@) && self.map_view()[key@]
                    == value_model(*v),
                None => !self.map_view().contains_key(key@),
            },
    {
        match self.find_index(key) {
            Some(i) => Some(&self.entries[i].1),
            None => None,
        }
    }

    /// Inserts or overwrites the value under `key`.
    pub fn put_value(&mut self, key: Vec<u8>, value: StorageValue)
        requires
            old(self).wf(),
        ensures
            final(self).wf(),
            final(self).map_view() == old(self).map_view().insert(key@, value_model(value)),
            final(self).ttl_view() == old(self).ttl_view(),
    {
        let ghost pre = self.entries@;
        let ghost ge: (Vec<u8>, StorageValue) = (key, value);
        match self.find_index(key.as_slice()) {
            Some(i) => {
                let slot = &mut self.entries[i];
                slot.0 = key;
                slot.1 = value;
                proof {
                    assert(self.entries@ =~= pre.update(i as int, ge));
                    assert(distinct_keys(self.entries@)) by {
                        assert(forall|j: int|
                            0 <= j < pre.len() && j != i ==> (#[trigger] self.entries@[j])
                                == pre[j]);
                        assert(self.entries@[i as int].0@ == pre[i as int].0@);
                    }
                    assert(self.map_view() =~= old(self).map_view().insert(
                        ge.0@,
                        value_model(ge.1),
                    )) by {
                        assert forall|k: Seq<u8>| true implies lookup_pair(self.entries@, k) == (
                        if k == ge.0@ {
                            Some(ge.1)
                        } else {
                            lookup_pair(pre, k)
                        }) by {
                            lemma_lookup_update(pre, i as int, ge, k);
                        }
                    }
                    assert(self.ttl_view() =~= old(self).ttl_view());
                }
            },
            None => {
                self.entries.push((key, value));
                proof {
                    assert(lookup_pair(pre, ge.0@) is None) by {
                        lemma_lookup_matches(pre, ge.0@);
                    }
                    assert(distinct_keys(self.entries@)) by {
                        assert(forall|j: int|
                            0 <= j < pre.len() ==> (#[trigger] self.entries@[j]) == pre[j]);
                        lemma_lookup_matches(pre, ge.0@);
                    }
                    assert(self.map_view() =~= old(self).map_view().insert(
                        ge.0@,
                        value_model(ge.1),
                    )) by {
                        assert forall|k: Seq<u8>| true implies lookup_pair(self.entries@, k) == (
                        if k == ge.0@ {
                            Some(ge.1)
                        } else {
                            lookup_pair(pre, k)
                        }) by {
                            lemma_lookup_push(pre, ge, k);
                        }
                    }
                    assert(self.ttl_view() =~= old(self).ttl_view());
                }
            },
        }
    }

    /// Removes `key` and its value, if present.
    pub fn remove_value(&mut self, key: &[u8])
        requires
            old(self).wf(),
        ensures
            final(self).wf(),
            final(self).map_view() == old(self).map_view().remove(key@),
            final(self).ttl_view() == old(self).ttl_view(),
    {
        let ghost pre = self.entries@;
        match self.find_index(key) {
            Some(i) => {
                let _ = self.entries.remove(i);
                proof {
                    assert(self.entries@ =~= pre.remove(i as int));
                    assert(distinct_keys(self.entries@)) by {
                        assert(forall|j: int|
                            0 <= j < i ==> (#[trigger] self.entries@[j]) == pre[j]);
                        assert(forall|j: int|
                            i <= j < self.entries@.len() ==> (#[trigger] self.entries@[j]) == pre[j
                                + 1]);
                    }
                    assert(self.map_view() =~= old(self).map_view().remove(key@)) by {
                        assert forall|k: Seq<u8>| true implies lookup_pair(self.entries@, k) == (
                        if k == key@ {
                            None::<StorageValue>
                        } else {
                            lookup_pair(pre, k)
                        }) by {
                            lemma_lookup_remove(pre, i as int, k);
                        }
                    }
                    assert(self.ttl_view() =~= old(self).ttl_view());
                }
            },
            None => {
                proof {
                    assert(self.map_view() =~= old(self).map_view().remove(key@));
                }
            },
        }
    }

    fn ttl_find_index(&self, key: &[u8]) -> (r: Option<usize>)
        requires
            self.wf(),
        ensures
            match r {
                Some(i) => i < self.ttl@.len() && self.ttl@[i as int].0@ == key@
                    && self.ttl_view().contains_key(key@),
                None => !self.ttl_view().contains_key(key@),
            },
    {
        let n = self.ttl.len();
        let mut i: usize = 0;
        while i < n
            invariant
                i <= n,
                n == self.ttl@.len(),
                self.wf(),
                forall|j: int| 0 <= j < i ==> (#[trigger] self.ttl@[j]).0@ != key@,
            decreases n - i,
        {
            if bytes_eq(self.ttl[i].0.as_slice(), key) {
                proof {
                    lemma_lookup_at_index(self.ttl@, i as int, key@);
                }
                return Some(i);
            }
            i = i + 1;
        }
        proof {
            lemma_lookup_matches(self.ttl@, key@);
        }
        None
    }

    /// Whether a pending expiration is registered for `key`.
    pub fn has_ttl(&self, key: &[u8]) -> (r: bool)
        requires
            self.wf(),
        ensures
            r == self.ttl_view().contains_key(key@),
    {
        match self.ttl_find_index(key) {
            Some(_) => true,
            None => false,
        }
    }

    /// Registers the expiration delay for `key`, replacing any previous one.
    pub fn set_ttl(&mut self, key: Vec<u8>, expiration_in_ms: u64)
        requires
            old(self).wf(),
        ensures
            final(self).wf(),
            final(self).ttl_view() == old(self).ttl_view().insert(key@, expiration_in_ms),
            final(self).map_view() == old(self).map_view(),
    {
        let ghost pre = self.ttl@;
        let ghost ge: (Vec<u8>, u64) = (key, expiration_in_ms);
        match self.ttl_find_index(key.as_slice()) {
            Some(i) => {
                let slot = &mut self.ttl[i];
                slot.0 = key;
                slot.1 = expiration_in_ms;
                proof {
                    assert(self.ttl@ =~= pre.update(i as int, ge));
                    assert(distinct_keys(self.ttl@)) by {
                        assert(forall|j: int|
                            0 <= j < pre.len() && j != i ==> (#[trigger] self.ttl@[j]) == pre[j]);
                        assert(self.ttl@[i as int].0@ == pre[i as int].0@);
                    }
                    assert(self.ttl_view() =~= old(self).ttl_view().insert(
                        ge.0@,
                        expiration_in_ms,
                    )) by {
                        assert forall|k: Seq<u8>| true implies lookup_pair(self.ttl@, k) == (
                        if k == ge.0@ {
                            Some(expiration_in_ms)
                        } else {
                            lookup_pair(pre, k)
                        }) by {
                            lemma_lookup_update(pre, i as int, ge, k);
                        }
                    }
                    assert(self.map_view() =~= old(self).map_view());
                }
            },
            None => {
                self.ttl.push((key, expiration_in_ms));
                proof {
                    assert(distinct_keys(self.ttl@)) by {
                        assert(forall|j: int|
                            0 <= j < pre.len() ==> (#[trigger] self.ttl@[j]) == pre[j]);
                        lemma_lookup_matches(pre, ge.0@);
                    }
                    assert(self.ttl_view() =~= old(self).ttl_view().insert(
                        ge.0@,
                        expiration_in_ms,
                    )) by {
                        assert forall|k: Seq<u8>| true implies lookup_pair(self.ttl@, k) == (
                        if k == ge.0@ {
                            Some(expiration_in_ms)
                        } else {
                            lookup_pair(pre, k)
                        }) by {
                            lemma_lookup_push(pre, ge, k);
                        }
                    }
                    assert(self.map_view() =~= old(self).map_view());
                }
            },
        }
    }

    /// Drops the pending-expiration registration for `key`, if any.
    pub fn clear_ttl(&mut self, key: &[u8])
        requires
            old(self).wf(),
        ensures
            final(self).wf(),
            final(self).ttl_view() == old(self).ttl_view().remove(key@),
            final(self).map_view() == old(self).map_view(),
    {
        let ghost pre = self.ttl@;
        match self.ttl_find_index(key) {
            Some(i) => {
                let _ = self.ttl.remove(i);
                proof {
                    assert(self.ttl@ =~= pre.remove(i as int));
                    assert(distinct_keys(self.ttl@)) by {
                        assert(forall|j: int| 0 <= j < i ==> (#[trigger] self.ttl@[j]) == pre[j]);
                        assert(forall|j: int|
                            i <= j < self.ttl@.len() ==> (#[trigger] self.ttl@[j]) == pre[j + 1]);
                    }
                    assert(self.ttl_view() =~= old(self).ttl_view().remove(key@)) by {
                        assert forall|k: Seq<u8>| true implies lookup_pair(self.ttl@, k) == (
                        if k == key@ {
                            None::<u64>
                        } else {
                            lookup_pair(pre, k)
                        }) by {
                            lemma_lookup_remove(pre, i as int, k);
                        }
                    }
                    assert(self.map_view() =~= old(self).map_view());
                }
            },
            None => {
                proof {
                    assert(self.ttl_view() =~= old(self).ttl_view().remove(key@));
                }
            },
        }
    }
}

impl Store {
    /// Removes and returns the value under `key`, if present.
    pub fn take_value(&mut self, key: &[u8]) -> (r: Option<StorageValue>)
        requires
            old(self).wf(),
        ensures
            final(self).wf(),
            final(self).map_view() == old(self).map_view().remove(key@),
            final(self).ttl_view() == old(self).ttl_view(),
            match r {
                Some(v) => old(self).map_view().contains_key(key@) && old(self).map_view()[key@]
                    == value_model(v),
                None => !old(self).map_view().contains_key(key@),
            },
    {
        let ghost pre = self.entries@;
        match self.find_index(key) {
            Some(i) => {
                let entry = self.entries.remove(i);
                proof {
                    assert(self.entries@ =~= pre.remove(i as int));
                    assert(distinct_keys(self.entries@)) by {
                        assert(forall|j: int|
                            0 <= j < i ==> (#[trigger] self.entries@[j]) == pre[j]);
                        assert(forall|j: int|
                            i <= j < self.entries@.len() ==> (#[trigger] self.entries@[j]) == pre[j
                                + 1]);
                    }
                    assert(self.map_view() =~= old(self).map_view().remove(key@)) by {
                        assert forall|k: Seq<u8>| true implies lookup_pair(self.entries@, k) == (
                        if k == key@ {
                            None::<StorageValue>
                        } else {
                            lookup_pair(pre, k)
                        }) by {
                            lemma_lookup_remove(pre, i as int, k);
                        }
                    }
                    assert(self.ttl_view() =~= old(self).ttl_view());
                }
                Some(entry.1)
            },
            None => {
                proof {
                    assert(self.map_view() =~= old(self).map_view().remove(key@));
                }
                None
            },
        }
    }

    /// Fired expiration: removes the key's value and its registry entry.
    pub fn remove_expired(&mut self, key: &[u8])
        requires
            old(self).wf(),
        ensures
            final(self).wf(),
            final(self).map_view() == old(self).map_view().remove(key@),
            final(self).ttl_view() == old(self).ttl_view().remove(key@),
    {
        self.remove_value(key);
        self.clear_ttl(key);
    }
}

/// The element-wise byte views of a sequence of byte vectors.
pub open spec fn seq_views(vs: Seq<Vec<u8>>) -> Seq<Seq<u8>> {
    Seq::new(vs.len(), |i: int| vs[i]@)
}

/// The error text for a list operation applied to a key of another kind.
pub open spec fn msg_not_a_list(k: Seq<u8>) -> Seq<u8> {
    "'".spec_bytes() + k + "' is not a list.".spec_bytes()
}

/// The error text for a range query on an absent key.
pub open spec fn msg_no_list(k: Seq<u8>) -> Seq<u8> {
    "No list found with name '".spec_bytes() + k + "'".spec_bytes()
}

pub fn not_a_list_msg(key: &[u8]) -> (r: Vec<u8>)
    ensures
        r@ == msg_not_a_list(key@),
{
    let mut v = "'".as_bytes_vec();
    crate::protocol::parser::append_slice(&mut v, key);
    let tail = "' is not a list.".as_bytes_vec();
    crate::protocol::parser::append_slice(&mut v, tail.as_slice());
    v
}

pub fn no_list_msg(key: &[u8]) -> (r: Vec<u8>)
    ensures
        r@ == msg_no_list(key@),
{
    let mut v = "No list found with name '".as_bytes_vec();
    crate::protocol::parser::append_slice(&mut v, key);
    let tail = "'".as_bytes_vec();
    crate::protocol::parser::append_slice(&mut v, tail.as_slice());
    v
}

/// Byte-string equality.
pub fn bytes_eq(a: &[u8], b: &[u8]) -> (r: bool)
    ensures
        r == (a@ == b@),
{
    if a.len() != b.len() {
        assert(a@ != b@) by {
            assert(a@.len() != b@.len());
        }
        return false;
    }
    let n = a.len();
    let mut i: usize = 0;
    while i < n
        invariant
            i <= n,
            n == a@.len() == b@.len(),
            forall|j: int| 0 <= j < i ==> a@[j] == b@[j],
        decreases n - i,
    {
        if a[i] != b[i] {
            return false;
        }
        i = i + 1;
    }
    assert(a@ =~= b@);
    true
}

} // verus!
