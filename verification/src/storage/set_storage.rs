//! SET against one shard: store a string value, clear any pending
//! expiration, and register a fresh one when a delay was given. The timer
//! work itself is the runtime's: the returned effects say what to do.

use crate::storage::{Store, StorageResponse, StorageValue, ValueModel};
use vstd::prelude::*;
use vstd::slice::slice_to_vec;

verus! {

pub struct SetStorage {
    pub key: Vec<u8>,
    pub value: Vec<u8>,
    /// Zero means the key persists; a positive delay arms an expiration.
    pub expiration_in_ms: u64,
}

/// What the runtime must do after a SET: abort the key's previous
/// expiration task, and arm a new one for the given delay.
pub struct SetEffects {
    pub cancel_previous_ttl: bool,
    pub arm_ttl: bool,
}

impl SetStorage {
    pub fn key(&self) -> (r: &[u8])
        ensures
            r@ == self.key@,
    {
        self.key.as_slice()
    }

    /// Stores the string under the key. The map afterwards holds exactly the
    /// new string; the expiration registry holds the key exactly when a
    /// positive delay was given; the reply is success.
    pub fn handle(&self, stored_data: &mut Store) -> (r: (StorageResponse, SetEffects))
        requires
            old(stored_data).wf(),
        ensures
            final(stored_data).wf(),
            final(stored_data).map_view() == old(stored_data).map_view().insert(
                self.key@,
                ValueModel::StrV(self.value@),
            ),
            final(stored_data).ttl_view() == if self.expiration_in_ms > 0 {
                old(stored_data).ttl_view().insert(self.key@, self.expiration_in_ms)
            } else {
                old(stored_data).ttl_view().remove(self.key@)
            },
            r.0 is Success,
            r.1.cancel_previous_ttl == old(stored_data).ttl_view().contains_key(self.key@),
            r.1.arm_ttl == (self.expiration_in_ms > 0),
    {
        let key_copy = slice_to_vec(self.key.as_slice());
        let value_copy = slice_to_vec(self.value.as_slice());
        stored_data.put_value(key_copy, StorageValue::Str(value_copy));
        let cancel_previous_ttl = stored_data.has_ttl(self.key.as_slice());
        stored_data.clear_ttl(self.key.as_slice());
        let arm_ttl = self.expiration_in_ms > 0;
        if arm_ttl {
            let key_for_ttl = slice_to_vec(self.key.as_slice());
            stored_data.set_ttl(key_for_ttl, self.expiration_in_ms);
            proof {
                assert(stored_data.ttl_view() =~= old(stored_data).ttl_view().insert(
                    self.key@,
                    self.expiration_in_ms,
                ));
            }
        }
        (StorageResponse::Success, SetEffects { cancel_previous_ttl, arm_ttl })
    }
}

} // verus!
