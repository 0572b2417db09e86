//! LPUSH against one shard: insert values at the head, one by one in
//! argument order, so the last argument ends up first. A string under the
//! key is an error and nothing changes. A successful push asks the runtime
//! to wake one waiter on the key.

use crate::storage::{ResponseModel, Store, StorageResponse, StorageValue, ValueModel, seq_views};
use std::collections::VecDeque;
use vstd::prelude::*;
use vstd::seq_lib::*;
use vstd::slice::slice_to_vec;
use vstd::string::*;

verus! {

pub struct ListLeftPushStorage {
    pub key: Vec<u8>,
    pub values: Vec<Vec<u8>>,
}

/// The error text for a left push onto a string value.
pub open spec fn msg_left_push_string() -> Seq<u8> {
    "Can't execute Left Push for a String value, should be List".spec_bytes()
}

/// What LPUSH does to the map and what it returns: the values end up before
/// the old list, in reverse argument order.
pub open spec fn spec_lpush(m: Map<Seq<u8>, ValueModel>, k: Seq<u8>, vs: Seq<Seq<u8>>) -> (
    Map<Seq<u8>, ValueModel>,
    ResponseModel,
) {
    if !m.contains_key(k) {
        (
            m.insert(k, ValueModel::ListV(vs.reverse())),
            ResponseModel::ListLengthV(vs.len() as int),
        )
    } else {
        match m[k] {
            ValueModel::ListV(l) => (
                m.insert(k, ValueModel::ListV(vs.reverse() + l)),
                ResponseModel::ListLengthV(l.len() + vs.len() as int),
            ),
            ValueModel::StrV(_) => (m, ResponseModel::FailedV(msg_left_push_string())),
        }
    }
}

impl ListLeftPushStorage {
    pub fn key(&self) -> (r: &[u8])
        ensures
            r@ == self.key@,
    {
        self.key.as_slice()
    }

    /// Pushes per `spec_lpush`; the second result says whether one waiter on
    /// the key must be woken.
    pub fn handle(&self, stored_data: &mut Store) -> (r: (StorageResponse, bool))
        requires
            old(stored_data).wf(),
        ensures
            final(stored_data).wf(),
            final(stored_data).map_view() == spec_lpush(
                old(stored_data).map_view(),
                self.key@,
                seq_views(self.values@),
            ).0,
            crate::storage::response_model(r.0) == spec_lpush(
                old(stored_data).map_view(),
                self.key@,
                seq_views(self.values@),
            ).1,
            final(stored_data).ttl_view() == old(stored_data).ttl_view(),
            r.1 == !(r.0 is Failed),
    {
        let ghost m0 = stored_data.map_view();
        match stored_data.take_value(self.key.as_slice()) {
            None => {
                let mut deque: VecDeque<Vec<u8>> = VecDeque::new();
                let mut j: usize = 0;
                while j < self.values.len()
                    invariant
                        j <= self.values@.len(),
                        deque@.len() == j,
                        forall|i: int|
                            0 <= i < j ==> (#[trigger] deque@[i])@ == self.values@[j - 1 - i]@,
                    decreases self.values@.len() - j,
                {
                    let v = slice_to_vec(self.values[j].as_slice());
                    deque.push_front(v);
                    j = j + 1;
                }
                let length = deque.len();
                proof {
                    assert(Seq::new(deque@.len(), |i: int| deque@[i]@) =~= seq_views(
                        self.values@,
                    ).reverse());
                }
                let key_copy = slice_to_vec(self.key.as_slice());
                stored_data.put_value(key_copy, StorageValue::List(deque));
                proof {
                    assert(stored_data.map_view() =~= spec_lpush(
                        m0,
                        self.key@,
                        seq_views(self.values@),
                    ).0);
                }
                (StorageResponse::ListLength(length), true)
            },
            Some(v) => match v {
                StorageValue::Str(s) => {
                    let key_copy = slice_to_vec(self.key.as_slice());
                    stored_data.put_value(key_copy, StorageValue::Str(s));
                    proof {
                        assert(stored_data.map_view() =~= m0);
                    }
                    (
                        StorageResponse::Failed(
                            "Can't execute Left Push for a String value, should be List"
                                .as_bytes_vec(),
                        ),
                        false,
                    )
                },
                StorageValue::List(original_values) => {
                    let ghost l0 = Seq::new(
                        original_values@.len(),
                        |i: int| original_values@[i]@,
                    );
                    let mut deque = original_values;
                    let mut j: usize = 0;
                    while j < self.values.len()
                        invariant
                            j <= self.values@.len(),
                            deque@.len() == l0.len() + j,
                            forall|i: int|
                                0 <= i < j ==> (#[trigger] deque@[i])@ == self.values@[j - 1 - i]@,
                            forall|i: int|
                                j <= i < l0.len() + j ==> (#[trigger] deque@[i])@ == l0[i - j],
                        decreases self.values@.len() - j,
                    {
                        let v = slice_to_vec(self.values[j].as_slice());
                        deque.push_front(v);
                        j = j + 1;
                    }
                    let length = deque.len();
                    proof {
                        assert(Seq::new(deque@.len(), |i: int| deque@[i]@) =~= seq_views(
                            self.values@,
                        ).reverse() + l0);
                    }
                    let key_copy = slice_to_vec(self.key.as_slice());
                    stored_data.put_value(key_copy, StorageValue::List(deque));
                    proof {
                        assert(stored_data.map_view() =~= spec_lpush(
                            m0,
                            self.key@,
                            seq_views(self.values@),
                        ).0);
                    }
                    (StorageResponse::ListLength(length), true)
                },
            },
        }
    }
}

} // verus!
