//! LRANGE against one shard: a read-only slice of the list between two
//! indexes, after the protocol's index normalization. Negative indexes count
//! from the tail; out-of-range indexes are clamped.

use crate::storage::{
    msg_no_list, msg_not_a_list, ResponseModel, Store, StorageResponse, StorageValue, ValueModel,
};
use vstd::prelude::*;
use vstd::slice::slice_to_vec;

verus! {

pub struct ListRangeStorage {
    pub key: Vec<u8>,
    pub start: i32,
    pub end: i32,
}

/// Index normalization: negative indexes are taken from the tail and floored
/// at zero; nonnegative ones are clamped to the length for a start index and
/// to the last position for an end index.
pub open spec fn spec_norm_index(index: int, len: int, start_index: bool) -> int {
    if index < 0 {
        if index + len < 0 {
            0
        } else {
            index + len
        }
    } else if start_index {
        if index < len {
            index
        } else {
            len
        }
    } else {
        if index < len - 1 {
            index
        } else {
            len - 1
        }
    }
}

/// What LRANGE returns; it never changes the map.
pub open spec fn spec_lrange(m: Map<Seq<u8>, ValueModel>, k: Seq<u8>, start: int, end: int)
    -> ResponseModel {
    if !m.contains_key(k) {
        ResponseModel::FailedV(msg_no_list(k))
    } else {
        match m[k] {
            ValueModel::StrV(_) => ResponseModel::FailedV(msg_not_a_list(k)),
            ValueModel::ListV(l) => if l.len() == 0 {
                ResponseModel::ListValuesV(Seq::empty())
            } else {
                let s = spec_norm_index(start, l.len() as int, true);
                let e = spec_norm_index(end, l.len() as int, false);
                if s == l.len() || s > e {
                    ResponseModel::ListValuesV(Seq::empty())
                } else {
                    ResponseModel::ListValuesV(l.subrange(s, e + 1))
                }
            },
        }
    }
}

impl ListRangeStorage {
    pub fn key(&self) -> (r: &[u8])
        ensures
            r@ == self.key@,
    {
        self.key.as_slice()
    }

    /// Resolves one raw index against a list length.
    pub fn normalize_list_range_index(index: i32, values_len_usize: usize, start_index: bool) -> (r:
        usize)
        requires
            start_index || index < 0 || values_len_usize > 0,
        ensures
            r as int == spec_norm_index(index as int, values_len_usize as int, start_index),
            r <= values_len_usize,
    {
        let len: i128 = values_len_usize as i128;
        let idx: i128 = index as i128;
        let n: i128 = if idx < 0 {
            if idx + len < 0 {
                0
            } else {
                idx + len
            }
        } else if start_index {
            if idx < len {
                idx
            } else {
                len
            }
        } else {
            if idx < len - 1 {
                idx
            } else {
                len - 1
            }
        };
        assert(0 <= n <= len);
        n as usize
    }

    /// Read-only: replies per `spec_lrange` and changes nothing.
    pub fn handle(&self, stored_data: &Store) -> (r: StorageResponse)
        requires
            stored_data.wf(),
        ensures
            crate::storage::response_model(r) == spec_lrange(
                stored_data.map_view(),
                self.key@,
                self.start as int,
                self.end as int,
            ),
    {
        match stored_data.get_value(self.key.as_slice()) {
            None => StorageResponse::Failed(crate::storage::no_list_msg(self.key.as_slice())),
            Some(v) => match v {
                StorageValue::Str(_) => StorageResponse::Failed(
                    crate::storage::not_a_list_msg(self.key.as_slice()),
                ),
                StorageValue::List(values) => {
                    let ghost l0 = Seq::new(values@.len(), |i: int| values@[i]@);
                    let len = values.len();
                    if len == 0 {
                        let out_values: Vec<Vec<u8>> = Vec::new();
                        proof {
                            assert(Seq::new(out_values@.len(), |i: int| out_values@[i]@)
                                =~= Seq::<Seq<u8>>::empty());
                        }
                        StorageResponse::ListValues { values: out_values }
                    } else {
                        let s = Self::normalize_list_range_index(self.start, len, true);
                        let e = Self::normalize_list_range_index(self.end, len, false);
                        if s == len || s > e {
                            let out_values: Vec<Vec<u8>> = Vec::new();
                            proof {
                                assert(Seq::new(out_values@.len(), |i: int| out_values@[i]@)
                                    =~= Seq::<Seq<u8>>::empty());
                            }
                            StorageResponse::ListValues { values: out_values }
                        } else {
                            let mut out: Vec<Vec<u8>> = Vec::new();
                            let mut idx: usize = s;
                            while idx <= e
                                invariant
                                    s <= idx <= e + 1,
                                    e < l0.len() <= usize::MAX,
                                    l0 == Seq::new(values@.len(), |i: int| values@[i]@),
                                    out@.len() == idx - s,
                                    forall|i: int|
                                        0 <= i < out@.len() ==> (#[trigger] out@[i])@ == l0[s + i],
                                decreases e + 1 - idx,
                            {
                                let element = slice_to_vec(values[idx].as_slice());
                                out.push(element);
                                idx = idx + 1;
                            }
                            proof {
                                assert(Seq::new(out@.len(), |i: int| out@[i]@) =~= l0.subrange(
                                    s as int,
                                    e + 1,
                                ));
                            }
                            StorageResponse::ListValues { values: out }
                        }
                    }
                },
            },
        }
    }
}

} // verus!
