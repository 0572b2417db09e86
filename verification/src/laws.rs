//! Cross-operation laws of the storage semantics, each proved once and for
//! all over the specification functions that the operations' own contracts
//! are stated with.

use crate::storage::get_storage::spec_get;
use crate::storage::list_left_blocking_pop_storage::spec_blpop_check;
use crate::storage::list_left_pop_storage::spec_lpop;
use crate::storage::list_length_storage::spec_llen;
use crate::storage::list_range_storage::spec_lrange;
use crate::storage::list_right_push_storage::spec_rpush;
use crate::storage::{msg_no_list, ResponseModel, ValueModel};
use vstd::prelude::*;

verus! {

/// Blocking-pop liveness, shard-locally: a right push of at least one value
/// onto an absent or empty list leaves the key in a state where the next
/// blocking-pop attempt succeeds with the first pushed value. A successful
/// push also wakes every waiter on the key (the push handlers return the
/// wake request), and a woken waiter re-runs its attempt, so a pop waiting
/// on the key before the push cannot miss it.
pub proof fn lemma_blpop_liveness(m: Map<Seq<u8>, ValueModel>, k: Seq<u8>, vs: Seq<Seq<u8>>)
    requires
        vs.len() > 0,
        !m.contains_key(k) || m[k] == ValueModel::ListV(Seq::<Seq<u8>>::empty()),
    ensures
        spec_blpop_check(spec_rpush(m, k, vs).0, k) == Option::Some(
            ResponseModel::ValueFromListV(vs[0], k),
        ),
{
    let m2 = spec_rpush(m, k, vs).0;
    if m.contains_key(k) {
        assert(Seq::<Seq<u8>>::empty() + vs =~= vs);
    }
    assert(m2[k] == ValueModel::ListV(vs));
}

/// Expiration monotonicity: immediately after a SET the key reads back as
/// the stored string, and after its expiration fires (which removes the
/// key) it reads back as null.
pub proof fn lemma_ttl_monotonicity(m: Map<Seq<u8>, ValueModel>, k: Seq<u8>, v: Seq<u8>)
    ensures
        spec_get(m.insert(k, ValueModel::StrV(v)), k) == ResponseModel::KeyValueV(v),
        spec_get(m.insert(k, ValueModel::StrV(v)).remove(k), k) == ResponseModel::NullV,
{
}

/// List-emptying removal: popping the last element of a list (one element
/// without a count, or at least the whole list with one) removes the key,
/// so its length reads as zero and a range query reports the list as
/// absent.
pub proof fn lemma_list_emptying_removal(
    m: Map<Seq<u8>, ValueModel>,
    k: Seq<u8>,
    count: Option<int>,
)
    requires
        m.contains_key(k),
        m[k] is ListV,
        m[k]->ListV_0.len() >= 1,
        match count {
            Option::None => m[k]->ListV_0.len() == 1,
            Option::Some(c) => c >= m[k]->ListV_0.len(),
        },
    ensures
        spec_llen(spec_lpop(m, k, count).0, k) == ResponseModel::ListLengthV(0),
        spec_lrange(spec_lpop(m, k, count).0, k, 0, -1) == ResponseModel::FailedV(msg_no_list(k)),
{
    let l = m[k]->ListV_0;
    let m2 = spec_lpop(m, k, count).0;
    match count {
        Option::None => {
            assert(m2 == m.remove(k));
        },
        Option::Some(c) => {
            assert(l.skip(l.len() as int).len() == 0);
            assert(m2 == m.remove(k));
        },
    }
    assert(!m2.contains_key(k));
}

} // verus!
