//! GET against one shard: the stored string under a key, with absent keys
//! and keys of another kind both read as null.

use crate::storage::{ResponseModel, Store, StorageResponse, StorageValue, ValueModel};
use vstd::prelude::*;
use vstd::slice::slice_to_vec;

verus! {

pub struct GetStorage {
    pub key: Vec<u8>,
}

/// What GET returns: the string under the key, or null when the key is
/// absent or holds a list.
pub open spec fn spec_get(m: Map<Seq<u8>, ValueModel>, k: Seq<u8>) -> ResponseModel {
    if !m.contains_key(k) {
        ResponseModel::NullV
    } else {
        match m[k] {
            ValueModel::StrV(v) => ResponseModel::KeyValueV(v),
            ValueModel::ListV(_) => ResponseModel::NullV,
        }
    }
}

impl GetStorage {
    pub fn key(&self) -> (r: &[u8])
        ensures
            r@ == self.key@,
    {
        self.key.as_slice()
    }

    /// Read-only: replies per `spec_get` and changes nothing.
    pub fn handle(&self, stored_data: &Store) -> (r: StorageResponse)
        requires
            stored_data.wf(),
        ensures
            crate::storage::response_model(r) == spec_get(stored_data.map_view(), self.key@),
    {
        match stored_data.get_value(self.key.as_slice()) {
            Some(v) => match v {
                StorageValue::Str(value) => StorageResponse::KeyValue {
                    value: slice_to_vec(value.as_slice()),
                },
                StorageValue::List(_) => StorageResponse::Null,
            },
            None => StorageResponse::Null,
        }
    }
}

} // verus!
