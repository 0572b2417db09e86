//! LLEN against one shard: the list's length, zero when the key is absent,
//! an error when the key holds a string.

use crate::storage::{msg_not_a_list, ResponseModel, Store, StorageResponse, StorageValue, ValueModel};
use vstd::prelude::*;

verus! {

pub struct ListLengthStorage {
    pub key: Vec<u8>,
}

/// What LLEN returns.
pub open spec fn spec_llen(m: Map<Seq<u8>, ValueModel>, k: Seq<u8>) -> ResponseModel {
    if !m.contains_key(k) {
        ResponseModel::ListLengthV(0)
    } else {
        match m[k] {
            ValueModel::ListV(l) => ResponseModel::ListLengthV(l.len() as int),
            ValueModel::StrV(_) => ResponseModel::FailedV(msg_not_a_list(k)),
        }
    }
}

impl ListLengthStorage {
    pub fn key(&self) -> (r: &[u8])
        ensures
            r@ == self.key@,
    {
        self.key.as_slice()
    }

    /// Read-only: replies per `spec_llen` and changes nothing.
    pub fn handle(&self, stored_data: &Store) -> (r: StorageResponse)
        requires
            stored_data.wf(),
        ensures
            crate::storage::response_model(r) == spec_llen(stored_data.map_view(), self.key@),
    {
        match stored_data.get_value(self.key.as_slice()) {
            Some(v) => match v {
                StorageValue::List(values) => StorageResponse::ListLength(values.len()),
                StorageValue::Str(_) => StorageResponse::Failed(
                    crate::storage::not_a_list_msg(self.key.as_slice()),
                ),
            },
            None => StorageResponse::ListLength(0),
        }
    }
}

} // verus!
