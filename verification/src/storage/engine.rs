//! The sharded storage engine: a fixed set of shards, a stable byte-string
//! hash, and routing of every keyed request to the one shard that owns the
//! key. Shard locality is the engine's contract: executing a request leaves
//! every other shard untouched.

use crate::storage::get_storage::{spec_get, GetStorage};
use crate::storage::list_left_blocking_pop_storage::{
    spec_blpop_check, spec_blpop_commit, ListLeftBlockingPopStorage,
};
use crate::storage::list_left_pop_storage::{spec_lpop, ListLeftPopStorage};
use crate::storage::list_left_push_storage::{spec_lpush, ListLeftPushStorage};
use crate::storage::list_length_storage::{spec_llen, ListLengthStorage};
use crate::storage::list_range_storage::{spec_lrange, ListRangeStorage};
use crate::storage::list_right_push_storage::{spec_rpush, ListRightPushStorage};
use crate::storage::set_storage::{SetEffects, SetStorage};
use crate::storage::{
    response_model, seq_views, ResponseModel, Store, StorageResponse, ValueModel,
};
use vstd::prelude::*;

verus! {

/// A keyed request for one shard. The blocking pop has its own two-step
/// entry points on the engine, since its reply may have to wait for a push.
pub enum StorageRequest {
    Get(GetStorage),
    SetValue(SetStorage),
    RPush(ListRightPushStorage),
    LPush(ListLeftPushStorage),
    LPop(ListLeftPopStorage),
    LLen(ListLengthStorage),
    LRange(ListRangeStorage),
}

/// Model of a keyed request.
pub enum RequestModel {
    GetV(Seq<u8>),
    SetV(Seq<u8>, Seq<u8>, u64),
    RPushV(Seq<u8>, Seq<Seq<u8>>),
    LPushV(Seq<u8>, Seq<Seq<u8>>),
    LPopV(Seq<u8>, Option<int>),
    LLenV(Seq<u8>),
    LRangeV(Seq<u8>, int, int),
}

pub open spec fn request_model(r: StorageRequest) -> RequestModel {
    match r {
        StorageRequest::Get(g) => RequestModel::GetV(g.key@),
        StorageRequest::SetValue(s) => RequestModel::SetV(s.key@, s.value@, s.expiration_in_ms),
        StorageRequest::RPush(p) => RequestModel::RPushV(p.key@, seq_views(p.values@)),
        StorageRequest::LPush(p) => RequestModel::LPushV(p.key@, seq_views(p.values@)),
        StorageRequest::LPop(p) => RequestModel::LPopV(
            p.key@,
            match p.count {
                Option::None => Option::None,
                Option::Some(c) => Option::Some(c as int),
            },
        ),
        StorageRequest::LLen(l) => RequestModel::LLenV(l.key@),
        StorageRequest::LRange(l) => RequestModel::LRangeV(l.key@, l.start as int, l.end as int),
    }
}

pub open spec fn request_model_key(r: RequestModel) -> Seq<u8> {
    match r {
        RequestModel::GetV(k) => k,
        RequestModel::SetV(k, _, _) => k,
        RequestModel::RPushV(k, _) => k,
        RequestModel::LPushV(k, _) => k,
        RequestModel::LPopV(k, _) => k,
        RequestModel::LLenV(k) => k,
        RequestModel::LRangeV(k, _, _) => k,
    }
}

/// What a request does to the one shard that owns its key, and what it
/// returns.
pub open spec fn spec_apply(m: Map<Seq<u8>, ValueModel>, r: RequestModel) -> (
    Map<Seq<u8>, ValueModel>,
    ResponseModel,
) {
    match r {
        RequestModel::GetV(k) => (m, spec_get(m, k)),
        RequestModel::SetV(k, v, _) => (m.insert(k, ValueModel::StrV(v)), ResponseModel::SuccessV),
        RequestModel::RPushV(k, vs) => spec_rpush(m, k, vs),
        RequestModel::LPushV(k, vs) => spec_lpush(m, k, vs),
        RequestModel::LPopV(k, c) => spec_lpop(m, k, c),
        RequestModel::LLenV(k) => (m, spec_llen(m, k)),
        RequestModel::LRangeV(k, s, e) => (m, spec_lrange(m, k, s, e)),
    }
}

impl StorageRequest {
    /// The key whose shard must execute this request.
    pub fn key(&self) -> (r: &[u8])
        ensures
            r@ == request_model_key(request_model(*self)),
    {
        match self {
            StorageRequest::Get(g) => g.key.as_slice(),
            StorageRequest::SetValue(s) => s.key.as_slice(),
            StorageRequest::RPush(p) => p.key.as_slice(),
            StorageRequest::LPush(p) => p.key.as_slice(),
            StorageRequest::LPop(p) => p.key.as_slice(),
            StorageRequest::LLen(l) => l.key.as_slice(),
            StorageRequest::LRange(l) => l.key.as_slice(),
        }
    }
}

/// What the runtime must do after a request: wake waiters on the key after a
/// push, and retime the key's expiration after a SET.
pub struct EngineEffects {
    pub notify_all_waiters: bool,
    pub notify_one_waiter: bool,
    pub cancel_previous_ttl: bool,
    pub arm_ttl: bool,
}

/// The stable byte-string hash used for shard selection
/// (Fowler–Noll–Vo 1a, 64 bits).
pub open spec fn spec_hash_bytes(s: Seq<u8>) -> u64
    decreases s.len(),
{
    if s.len() == 0 {
        14695981039346656037u64
    } else {
        vstd::wrapping::u64_specs::wrapping_mul(
            spec_hash_bytes(s.drop_last()) ^ (s.last() as u64),
            1099511628211u64,
        )
    }
}

/// The shard that owns a key, among `n` shards.
pub open spec fn spec_shard_index(key: Seq<u8>, n: int) -> int {
    spec_hash_bytes(key) as int % n
}

/// Hashes a key for shard selection.
pub fn hash_bytes(key: &[u8]) -> (r: u64)
    ensures
        r == spec_hash_bytes(key@),
{
    let n = key.len();
    let mut h: u64 = 14695981039346656037u64;
    let mut i: usize = 0;
    while i < n
        invariant
            i <= n,
            n == key@.len(),
            h == spec_hash_bytes(key@.subrange(0, i as int)),
        decreases n - i,
    {
        let b = key[i];
        proof {
            assert(key@.subrange(0, i + 1).drop_last() =~= key@.subrange(0, i as int));
        }
        h = (h ^ (b as u64)).wrapping_mul(1099511628211u64);
        i = i + 1;
    }
    proof {
        assert(key@.subrange(0, n as int) =~= key@);
    }
    h
}

/// The sharded engine: one `Store` per shard.
pub struct StorageEngine {
    storage_shards: Vec<Store>,
}

impl StorageEngine {
    /// The key/value map of each shard, in shard order.
    pub closed spec fn shards_view(&self) -> Seq<Map<Seq<u8>, ValueModel>> {
        Seq::new(self.storage_shards@.len(), |i: int| self.storage_shards@[i].map_view())
    }

    /// The pending-expiration registry of each shard, in shard order.
    pub closed spec fn ttl_views(&self) -> Seq<Map<Seq<u8>, u64>> {
        Seq::new(self.storage_shards@.len(), |i: int| self.storage_shards@[i].ttl_view())
    }

    pub closed spec fn wf(&self) -> bool {
        self.storage_shards@.len() >= 1 && forall|i: int|
            0 <= i < self.storage_shards@.len() ==> (#[trigger] self.storage_shards@[i]).wf()
    }

    pub open spec fn shard_count(&self) -> int {
        self.shards_view().len() as int
    }

    /// A well-formed engine has at least one shard.
    pub proof fn lemma_wf_shard_count(&self)
        requires
            self.wf(),
        ensures
            self.shard_count() >= 1,
            self.ttl_views().len() == self.shard_count(),
    {
    }

    /// Builds an engine with the given shard count, raised to one if zero.
    pub fn new(shards: usize) -> (r: StorageEngine)
        ensures
            r.wf(),
            r.shard_count() == if shards == 0 {
                1int
            } else {
                shards as int
            },
            forall|i: int|
                0 <= i < r.shard_count() ==> #[trigger] r.shards_view()[i] == Map::<
                    Seq<u8>,
                    ValueModel,
                >::empty(),
            forall|i: int|
                0 <= i < r.shard_count() ==> #[trigger] r.ttl_views()[i] == Map::<
                    Seq<u8>,
                    u64,
                >::empty(),
    {
        let count: usize = if shards == 0 {
            1
        } else {
            shards
        };
        let mut storage_shards: Vec<Store> = Vec::new();
        let mut i: usize = 0;
        while i < count
            invariant
                i <= count,
                storage_shards@.len() == i,
                forall|j: int| 0 <= j < i ==> (#[trigger] storage_shards@[j]).wf(),
                forall|j: int|
                    0 <= j < i ==> (#[trigger] storage_shards@[j]).map_view() == Map::<
                        Seq<u8>,
                        ValueModel,
                    >::empty(),
                forall|j: int|
                    0 <= j < i ==> (#[trigger] storage_shards@[j]).ttl_view() == Map::<
                        Seq<u8>,
                        u64,
                    >::empty(),
            decreases count - i,
        {
            storage_shards.push(Store::new());
            i = i + 1;
        }
        StorageEngine { storage_shards }
    }

    /// The index of the shard that owns `key`.
    pub fn find_shard_for_key(&self, key: &[u8]) -> (r: usize)
        requires
            self.wf(),
        ensures
            r as int == spec_shard_index(key@, self.shard_count()),
            r < self.shard_count(),
    {
        let h = hash_bytes(key);
        let n = self.storage_shards.len();
        let idx = (h % (n as u64)) as usize;
        idx
    }

    /// Executes a keyed request on the shard that owns its key. Every other
    /// shard is untouched; the owning shard and the reply follow
    /// `spec_apply`; only a SET may change the expiration registry.
    pub fn execute(&mut self, storage_request: StorageRequest) -> (r: (
        StorageResponse,
        EngineEffects,
    ))
        requires
            old(self).wf(),
        ensures
            final(self).wf(),
            final(self).shard_count() == old(self).shard_count(),
            ({
                let rm = request_model(storage_request);
                let idx = spec_shard_index(request_model_key(rm), old(self).shard_count());
                &&& forall|j: int|
                    0 <= j < old(self).shard_count() && j != idx
                        ==> #[trigger] final(self).shards_view()[j] == old(self).shards_view()[j]
                &&& forall|j: int|
                    0 <= j < old(self).shard_count() && j != idx
                        ==> #[trigger] final(self).ttl_views()[j] == old(self).ttl_views()[j]
                &&& final(self).shards_view()[idx] == spec_apply(
                    old(self).shards_view()[idx],
                    rm,
                ).0
                &&& response_model(r.0) == spec_apply(old(self).shards_view()[idx], rm).1
                &&& final(self).ttl_views()[idx] == (match rm {
                    RequestModel::SetV(k, _, e) => if e > 0 {
                        old(self).ttl_views()[idx].insert(k, e)
                    } else {
                        old(self).ttl_views()[idx].remove(k)
                    },
                    _ => old(self).ttl_views()[idx],
                })
                &&& r.1.notify_all_waiters == (rm is RPushV && !(r.0 is Failed))
                &&& r.1.notify_one_waiter == (rm is LPushV && !(r.0 is Failed))
                &&& r.1.arm_ttl == (rm matches RequestModel::SetV(_, _, e) && e > 0)
                &&& r.1.cancel_previous_ttl == (rm matches RequestModel::SetV(k, _, _) && old(
                    self,
                ).ttl_views()[idx].contains_key(k))
            }),
    {
        let idx = self.find_shard_for_key(storage_request.key());
        let ghost pre = self.storage_shards@;
        let shard = &mut self.storage_shards[idx];
        let result = match storage_request {
            StorageRequest::Get(g) => {
                let resp = g.handle(shard);
                (
                    resp,
                    EngineEffects {
                        notify_all_waiters: false,
                        notify_one_waiter: false,
                        cancel_previous_ttl: false,
                        arm_ttl: false,
                    },
                )
            },
            StorageRequest::SetValue(s) => {
                let (resp, effects) = s.handle(shard);
                (
                    resp,
                    EngineEffects {
                        notify_all_waiters: false,
                        notify_one_waiter: false,
                        cancel_previous_ttl: effects.cancel_previous_ttl,
                        arm_ttl: effects.arm_ttl,
                    },
                )
            },
            StorageRequest::RPush(p) => {
                let (resp, notify) = p.handle(shard);
                (
                    resp,
                    EngineEffects {
                        notify_all_waiters: notify,
                        notify_one_waiter: false,
                        cancel_previous_ttl: false,
                        arm_ttl: false,
                    },
                )
            },
            StorageRequest::LPush(p) => {
                let (resp, notify) = p.handle(shard);
                (
                    resp,
                    EngineEffects {
                        notify_all_waiters: false,
                        notify_one_waiter: notify,
                        cancel_previous_ttl: false,
                        arm_ttl: false,
                    },
                )
            },
            StorageRequest::LPop(p) => {
                let resp = p.handle(shard);
                (
                    resp,
                    EngineEffects {
                        notify_all_waiters: false,
                        notify_one_waiter: false,
                        cancel_previous_ttl: false,
                        arm_ttl: false,
                    },
                )
            },
            StorageRequest::LLen(l) => {
                let resp = l.handle(shard);
                (
                    resp,
                    EngineEffects {
                        notify_all_waiters: false,
                        notify_one_waiter: false,
                        cancel_previous_ttl: false,
                        arm_ttl: false,
                    },
                )
            },
            StorageRequest::LRange(l) => {
                let resp = l.handle(shard);
                (
                    resp,
                    EngineEffects {
                        notify_all_waiters: false,
                        notify_one_waiter: false,
                        cancel_previous_ttl: false,
                        arm_ttl: false,
                    },
                )
            },
        };
        proof {
            assert(forall|j: int|
                0 <= j < pre.len() && j != idx ==> self.storage_shards@[j] == pre[j]);
            assert(self.shards_view() =~= old(self).shards_view().update(
                idx as int,
                self.storage_shards@[idx as int].map_view(),
            ));
            assert(self.ttl_views() =~= old(self).ttl_views().update(
                idx as int,
                self.storage_shards@[idx as int].ttl_view(),
            ));
        }
        result
    }

    /// One BLPOP attempt on the owning shard: read-only; `None` means the
    /// caller must wait on the key's notifier and try again.
    pub fn blpop_attempt(&self, request: &ListLeftBlockingPopStorage) -> (r: Option<
        StorageResponse,
    >)
        requires
            self.wf(),
        ensures
            ({
                let idx = spec_shard_index(request.key@, self.shard_count());
                match r {
                    Option::Some(resp) => spec_blpop_check(self.shards_view()[idx], request.key@)
                        == Option::Some(response_model(resp)),
                    Option::None => spec_blpop_check(self.shards_view()[idx], request.key@)
                        is None,
                }
            }),
    {
        let idx = self.find_shard_for_key(request.key.as_slice());
        request.handle(&self.storage_shards[idx])
    }

    /// The committed BLPOP pop on the owning shard.
    pub fn blpop_commit(&mut self, request: &ListLeftBlockingPopStorage)
        requires
            old(self).wf(),
        ensures
            final(self).wf(),
            final(self).shard_count() == old(self).shard_count(),
            ({
                let idx = spec_shard_index(request.key@, old(self).shard_count());
                &&& forall|j: int|
                    0 <= j < old(self).shard_count() && j != idx
                        ==> #[trigger] final(self).shards_view()[j] == old(self).shards_view()[j]
                &&& final(self).shards_view()[idx] == spec_blpop_commit(
                    old(self).shards_view()[idx],
                    request.key@,
                )
                &&& final(self).ttl_views() == old(self).ttl_views()
            }),
    {
        let idx = self.find_shard_for_key(request.key.as_slice());
        let ghost pre = self.storage_shards@;
        let shard = &mut self.storage_shards[idx];
        request.commit(shard);
        proof {
            assert(forall|j: int|
                0 <= j < pre.len() && j != idx ==> self.storage_shards@[j] == pre[j]);
            assert(self.shards_view() =~= old(self).shards_view().update(
                idx as int,
                self.storage_shards@[idx as int].map_view(),
            ));
            assert(self.ttl_views() =~= old(self).ttl_views());
        }
    }

    /// A fired expiration for `key`: removes it from its owning shard.
    pub fn expire_key(&mut self, key: &[u8])
        requires
            old(self).wf(),
        ensures
            final(self).wf(),
            final(self).shard_count() == old(self).shard_count(),
            ({
                let idx = spec_shard_index(key@, old(self).shard_count());
                &&& forall|j: int|
                    0 <= j < old(self).shard_count() && j != idx
                        ==> #[trigger] final(self).shards_view()[j] == old(self).shards_view()[j]
                &&& forall|j: int|
                    0 <= j < old(self).shard_count() && j != idx
                        ==> #[trigger] final(self).ttl_views()[j] == old(self).ttl_views()[j]
                &&& final(self).shards_view()[idx] == old(self).shards_view()[idx].remove(key@)
                &&& final(self).ttl_views()[idx] == old(self).ttl_views()[idx].remove(key@)
            }),
    {
        let idx = self.find_shard_for_key(key);
        let ghost pre = self.storage_shards@;
        let shard = &mut self.storage_shards[idx];
        shard.remove_expired(key);
        proof {
            assert(forall|j: int|
                0 <= j < pre.len() && j != idx ==> self.storage_shards@[j] == pre[j]);
            assert(self.shards_view() =~= old(self).shards_view().update(
                idx as int,
                self.storage_shards@[idx as int].map_view(),
            ));
            assert(self.ttl_views() =~= old(self).ttl_views().update(
                idx as int,
                self.storage_shards@[idx as int].ttl_view(),
            ));
        }
    }
}

} // verus!
