//! GET: the stored string under a key; absent keys and keys holding a list
//! both read as a null bulk string.

use crate::command::expect_cmd_array;
use crate::protocol::redis_serialization_protocol::{FrameModel, RedisType};
use crate::storage::engine::{
    spec_apply, spec_shard_index, RequestModel, StorageEngine, StorageRequest,
};
use crate::storage::get_storage::{spec_get, GetStorage};
use crate::storage::{ResponseModel, StorageResponse};
use vstd::prelude::*;
use vstd::slice::slice_to_vec;
use vstd::string::*;

verus! {

pub struct GetCommand {
    pub key: Vec<u8>,
}

/// What GET parsing accepts: a bulk-string key.
pub open spec fn spec_parse_get(f: FrameModel) -> Result<Seq<u8>, Seq<u8>> {
    match f {
        FrameModel::Arr(els) => if els.len() < 2 {
            Err("No enough arguments for GET command".spec_bytes())
        } else {
            match els[1] {
                FrameModel::Bulk(k) => Ok(k),
                _ => Err("GET argument is not a BulkString".spec_bytes()),
            }
        },
        _ => Err(crate::command::msg_not_array()),
    }
}

/// The reply frame for a GET response.
pub open spec fn spec_get_reply(resp: ResponseModel) -> FrameModel {
    match resp {
        ResponseModel::NullV => FrameModel::NullBulk,
        ResponseModel::KeyValueV(v) => FrameModel::Bulk(v),
        _ => FrameModel::Error("Error occurred during GET".spec_bytes()),
    }
}

impl GetCommand {
    pub fn parse(redis_type: &RedisType) -> (r: Result<GetCommand, Vec<u8>>)
        ensures
            match r {
                Ok(cmd) => spec_parse_get(redis_type@) == Ok::<_, Seq<u8>>(cmd.key@),
                Err(m) => spec_parse_get(redis_type@) == Err::<Seq<u8>, _>(m@),
            },
    {
        let elements = match expect_cmd_array(redis_type) {
            Ok(els) => els,
            Err(m) => {
                return Err(m);
            },
        };
        proof {
            crate::protocol::redis_serialization_protocol::lemma_frame_models_index(elements@);
        }
        if elements.len() < 2 {
            return Err("No enough arguments for GET command".as_bytes_vec());
        }
        match &elements[1] {
            RedisType::BulkString(key) => Ok(GetCommand { key: slice_to_vec(key.as_slice()) }),
            _ => Err("GET argument is not a BulkString".as_bytes_vec()),
        }
    }

    /// Routes the read to the key's shard and renders the reply. No shard
    /// changes.
    pub fn execute(&self, engine: &mut StorageEngine) -> (r: RedisType)
        requires
            old(engine).wf(),
        ensures
            final(engine).wf(),
            final(engine).shards_view() == old(engine).shards_view(),
            final(engine).ttl_views() == old(engine).ttl_views(),
            r@ == spec_get_reply(
                spec_get(
                    old(engine).shards_view()[spec_shard_index(
                        self.key@,
                        old(engine).shard_count(),
                    )],
                    self.key@,
                ),
            ),
    {
        proof {
            old(engine).lemma_wf_shard_count();
        }
        let request = StorageRequest::Get(GetStorage { key: slice_to_vec(self.key.as_slice()) });
        let (resp, _effects) = engine.execute(request);
        proof {
            engine.lemma_wf_shard_count();
            assert(engine.shards_view() =~= old(engine).shards_view());
            assert(engine.ttl_views() =~= old(engine).ttl_views());
        }
        match resp {
            StorageResponse::KeyValue { value } => RedisType::BulkString(value),
            StorageResponse::Null => RedisType::NullBulkString,
            _ => RedisType::SimpleError("Error occurred during GET".as_bytes_vec()),
        }
    }
}

} // verus!
