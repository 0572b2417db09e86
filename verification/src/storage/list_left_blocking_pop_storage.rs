//! BLPOP against one shard, split into the two shard-local steps of the
//! blocking protocol: an attempt that inspects the list without consuming,
//! and a commit that performs the pop once the reply is wanted. The runtime
//! acquires its wait ticket before calling `handle`, so a push that arrives
//! after a failed attempt cannot be missed.

use crate::storage::{
    msg_not_a_list, ResponseModel, Store, StorageResponse, StorageValue, ValueModel,
};
use vstd::prelude::*;
use vstd::slice::slice_to_vec;

verus! {

pub struct ListLeftBlockingPopStorage {
    pub key: Vec<u8>,
}

/// What one attempt sees: an immediate reply, or nothing yet — the caller
/// must wait for a push and try again.
pub open spec fn spec_blpop_check(m: Map<Seq<u8>, ValueModel>, k: Seq<u8>) -> Option<
    ResponseModel,
> {
    if !m.contains_key(k) {
        Option::None
    } else {
        match m[k] {
            ValueModel::StrV(_) => Option::Some(ResponseModel::FailedV(msg_not_a_list(k))),
            ValueModel::ListV(l) => if l.len() == 0 {
                Option::None
            } else {
                Option::Some(ResponseModel::ValueFromListV(l[0], k))
            },
        }
    }
}

/// What the commit does to the map: pop the head, and drop the key when the
/// pop empties the list. Anything else is left alone.
pub open spec fn spec_blpop_commit(m: Map<Seq<u8>, ValueModel>, k: Seq<u8>) -> Map<
    Seq<u8>,
    ValueModel,
> {
    if m.contains_key(k) {
        match m[k] {
            ValueModel::ListV(l) => if l.len() == 0 {
                m
            } else if l.len() == 1 {
                m.remove(k)
            } else {
                m.insert(k, ValueModel::ListV(l.drop_first()))
            },
            ValueModel::StrV(_) => m,
        }
    } else {
        m
    }
}

impl ListLeftBlockingPopStorage {
    pub fn key(&self) -> (r: &[u8])
        ensures
            r@ == self.key@,
    {
        self.key.as_slice()
    }

    /// One attempt of the acquire-then-check protocol: read-only; `None`
    /// means the caller must await its ticket and try again.
    pub fn handle(&self, stored_data: &Store) -> (r: Option<StorageResponse>)
        requires
            stored_data.wf(),
        ensures
            match r {
                Option::Some(resp) => spec_blpop_check(stored_data.map_view(), self.key@)
                    == Option::Some(crate::storage::response_model(resp)),
                Option::None => spec_blpop_check(stored_data.map_view(), self.key@) is None,
            },
    {
        match stored_data.get_value(self.key.as_slice()) {
            None => None,
            Some(v) => match v {
                StorageValue::Str(_) => Some(
                    StorageResponse::Failed(crate::storage::not_a_list_msg(self.key.as_slice())),
                ),
                StorageValue::List(values) => {
                    if values.len() == 0 {
                        None
                    } else {
                        let head = slice_to_vec(values[0].as_slice());
                        let list_name = slice_to_vec(self.key.as_slice());
                        Some(StorageResponse::ValueFromList { value: head, list_name })
                    }
                },
            },
        }
    }

    /// The pop itself, run after the reply was accepted: removes the head
    /// and drops the key if that empties the list.
    pub fn commit(&self, stored_data: &mut Store)
        requires
            old(stored_data).wf(),
        ensures
            final(stored_data).wf(),
            final(stored_data).map_view() == spec_blpop_commit(
                old(stored_data).map_view(),
                self.key@,
            ),
            final(stored_data).ttl_view() == old(stored_data).ttl_view(),
    {
        let ghost m0 = stored_data.map_view();
        match stored_data.take_value(self.key.as_slice()) {
            None => {
                proof {
                    assert(stored_data.map_view() =~= m0);
                }
            },
            Some(v) => match v {
                StorageValue::Str(s) => {
                    let key_copy = slice_to_vec(self.key.as_slice());
                    stored_data.put_value(key_copy, StorageValue::Str(s));
                    proof {
                        assert(stored_data.map_view() =~= m0);
                    }
                },
                StorageValue::List(values) => {
                    let ghost l0 = Seq::new(values@.len(), |i: int| values@[i]@);
                    let mut deque = values;
                    match deque.pop_front() {
                        None => {
                            let key_copy = slice_to_vec(self.key.as_slice());
                            proof {
                                assert(Seq::new(deque@.len(), |i: int| deque@[i]@) =~= l0);
                            }
                            stored_data.put_value(key_copy, StorageValue::List(deque));
                            proof {
                                assert(stored_data.map_view() =~= m0);
                            }
                        },
                        Some(_) => {
                            if deque.len() > 0 {
                                proof {
                                    assert(Seq::new(deque@.len(), |i: int| deque@[i]@)
                                        =~= l0.drop_first());
                                }
                                let key_copy = slice_to_vec(self.key.as_slice());
                                stored_data.put_value(key_copy, StorageValue::List(deque));
                                proof {
                                    assert(stored_data.map_view() =~= m0.insert(
                                        self.key@,
                                        ValueModel::ListV(l0.drop_first()),
                                    ));
                                }
                            } else {
                                proof {
                                    assert(stored_data.map_view() =~= m0.remove(self.key@));
                                }
                            }
                        },
                    }
                },
            },
        }
    }
}

} // verus!
