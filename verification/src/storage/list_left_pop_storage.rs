//! LPOP against one shard: pop from the head, one element or up to a count.
//! A list left empty by the pop is removed from the map entirely.

use crate::storage::{
    msg_not_a_list, ResponseModel, Store, StorageResponse, StorageValue, ValueModel,
};
use vstd::prelude::*;
use vstd::slice::slice_to_vec;

verus! {

pub struct ListLeftPopStorage {
    pub key: Vec<u8>,
    /// Without a count, one element is popped and returned alone; with a
    /// count, up to that many elements come back as a batch.
    pub count: Option<usize>,
}

/// What LPOP does to the map and what it returns.
pub open spec fn spec_lpop(m: Map<Seq<u8>, ValueModel>, k: Seq<u8>, count: Option<int>) -> (
    Map<Seq<u8>, ValueModel>,
    ResponseModel,
) {
    if !m.contains_key(k) {
        (m, ResponseModel::NullV)
    } else {
        match m[k] {
            ValueModel::StrV(_) => (m, ResponseModel::FailedV(msg_not_a_list(k))),
            ValueModel::ListV(l) => match count {
                Option::None => if l.len() == 0 {
                    (m.remove(k), ResponseModel::NullV)
                } else if l.len() == 1 {
                    (m.remove(k), ResponseModel::KeyValueV(l[0]))
                } else {
                    (
                        m.insert(k, ValueModel::ListV(l.drop_first())),
                        ResponseModel::KeyValueV(l[0]),
                    )
                },
                Option::Some(c) => if c == 0 {
                    (m, ResponseModel::ListValuesV(Seq::empty()))
                } else {
                    let t = if c < l.len() {
                        c
                    } else {
                        l.len() as int
                    };
                    let rest = l.skip(t);
                    (
                        if rest.len() == 0 {
                            m.remove(k)
                        } else {
                            m.insert(k, ValueModel::ListV(rest))
                        },
                        ResponseModel::ListValuesV(l.take(t)),
                    )
                },
            },
        }
    }
}

impl ListLeftPopStorage {
    pub fn key(&self) -> (r: &[u8])
        ensures
            r@ == self.key@,
    {
        self.key.as_slice()
    }

    /// Pops per `spec_lpop`; the expiration registry is untouched.
    pub fn handle(&self, stored_data: &mut Store) -> (r: StorageResponse)
        requires
            old(stored_data).wf(),
        ensures
            final(stored_data).wf(),
            final(stored_data).map_view() == spec_lpop(
                old(stored_data).map_view(),
                self.key@,
                match self.count {
                    Option::None => Option::None,
                    Option::Some(c) => Option::Some(c as int),
                },
            ).0,
            crate::storage::response_model(r) == spec_lpop(
                old(stored_data).map_view(),
                self.key@,
                match self.count {
                    Option::None => Option::None,
                    Option::Some(c) => Option::Some(c as int),
                },
            ).1,
            final(stored_data).ttl_view() == old(stored_data).ttl_view(),
    {
        let ghost m0 = stored_data.map_view();
        match stored_data.take_value(self.key.as_slice()) {
            None => StorageResponse::Null,
            Some(v) => match v {
                StorageValue::Str(s) => {
                    let key_copy = slice_to_vec(self.key.as_slice());
                    stored_data.put_value(key_copy, StorageValue::Str(s));
                    proof {
                        assert(stored_data.map_view() =~= m0);
                    }
                    StorageResponse::Failed(crate::storage::not_a_list_msg(self.key.as_slice()))
                },
                StorageValue::List(values) => {
                    let ghost l0 = Seq::new(values@.len(), |i: int| values@[i]@);
                    let mut deque = values;
                    match self.count {
                        None => {
                            match deque.pop_front() {
                                None => {
                                    // The list was already empty: drop the key.
                                    StorageResponse::Null
                                },
                                Some(head) => {
                                    if deque.len() > 0 {
                                        proof {
                                            assert(Seq::new(deque@.len(), |i: int| deque@[i]@)
                                                =~= l0.drop_first());
                                        }
                                        let key_copy = slice_to_vec(self.key.as_slice());
                                        stored_data.put_value(
                                            key_copy,
                                            StorageValue::List(deque),
                                        );
                                        proof {
                                            assert(stored_data.map_view() =~= m0.insert(
                                                self.key@,
                                                ValueModel::ListV(l0.drop_first()),
                                            ));
                                        }
                                    }
                                    StorageResponse::KeyValue { value: head }
                                },
                            }
                        },
                        Some(count) => {
                            if count == 0 {
                                let key_copy = slice_to_vec(self.key.as_slice());
                                stored_data.put_value(key_copy, StorageValue::List(deque));
                                proof {
                                    assert(stored_data.map_view() =~= m0);
                                }
                                let out_values: Vec<Vec<u8>> = Vec::new();
                                proof {
                                    assert(Seq::new(out_values@.len(), |i: int| out_values@[i]@)
                                        =~= Seq::<Seq<u8>>::empty());
                                }
                                StorageResponse::ListValues { values: out_values }
                            } else {
                                let total = deque.len();
                                let t = if count < total {
                                    count
                                } else {
                                    total
                                };
                                let mut out: Vec<Vec<u8>> = Vec::new();
                                let mut j: usize = 0;
                                while j < t
                                    invariant
                                        j <= t <= l0.len(),
                                        out@.len() == j,
                                        forall|i: int|
                                            0 <= i < j ==> (#[trigger] out@[i])@ == l0[i],
                                        deque@.len() == l0.len() - j,
                                        forall|i: int|
                                            0 <= i < deque@.len() ==> (#[trigger] deque@[i])@
                                                == l0[i + j],
                                    decreases t - j,
                                {
                                    match deque.pop_front() {
                                        Some(popped) => {
                                            out.push(popped);
                                        },
                                        None => {
                                            // Unreachable: the loop stays within the length.
                                            proof {
                                                assert(false);
                                            }
                                        },
                                    }
                                    j = j + 1;
                                }
                                proof {
                                    assert(Seq::new(out@.len(), |i: int| out@[i]@) =~= l0.take(
                                        t as int,
                                    ));
                                }
                                if deque.len() > 0 {
                                    proof {
                                        assert(Seq::new(deque@.len(), |i: int| deque@[i]@)
                                            =~= l0.skip(t as int));
                                    }
                                    let key_copy = slice_to_vec(self.key.as_slice());
                                    stored_data.put_value(key_copy, StorageValue::List(deque));
                                    proof {
                                        assert(stored_data.map_view() =~= m0.insert(
                                            self.key@,
                                            ValueModel::ListV(l0.skip(t as int)),
                                        ));
                                    }
                                } else {
                                    proof {
                                        assert(l0.skip(t as int).len() == 0);
                                    }
                                }
                                StorageResponse::ListValues { values: out }
                            }
                        },
                    }
                },
            },
        }
    }
}

} // verus!
