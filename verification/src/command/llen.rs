//! LLEN: the length of the list under a key; zero when absent, an error
//! when the key holds a string.

use crate::command::{expect_cmd_array, len_to_i64, spec_int_reply};
use crate::protocol::redis_serialization_protocol::{FrameModel, RedisType};
use crate::storage::engine::{spec_shard_index, StorageEngine, StorageRequest};
use crate::storage::list_length_storage::{spec_llen, ListLengthStorage};
use crate::storage::{ResponseModel, StorageResponse};
use vstd::prelude::*;
use vstd::slice::slice_to_vec;
use vstd::string::*;

verus! {

pub struct LLenCommand {
    pub key: Vec<u8>,
}

/// What LLEN parsing accepts: a bulk-string key.
pub open spec fn spec_parse_llen(f: FrameModel) -> Result<Seq<u8>, Seq<u8>> {
    match f {
        FrameModel::Arr(els) => if els.len() < 2 {
            Err("Not enough arguments for LLEN command".spec_bytes())
        } else {
            match els[1] {
                FrameModel::Bulk(k) => Ok(k),
                _ => Err("LLEN argument is not a BulkString".spec_bytes()),
            }
        },
        _ => Err(crate::command::msg_not_array()),
    }
}

/// The reply frame for an LLEN response.
pub open spec fn spec_llen_reply(resp: ResponseModel) -> FrameModel {
    match resp {
        ResponseModel::ListLengthV(n) => spec_int_reply(n),
        ResponseModel::FailedV(m) => FrameModel::Error(m),
        _ => FrameModel::Error("Unknown error occurred during LLEN".spec_bytes()),
    }
}

impl LLenCommand {
    pub fn parse(redis_type: &RedisType) -> (r: Result<LLenCommand, Vec<u8>>)
        ensures
            match r {
                Ok(cmd) => spec_parse_llen(redis_type@) == Ok::<_, Seq<u8>>(cmd.key@),
                Err(m) => spec_parse_llen(redis_type@) == Err::<Seq<u8>, _>(m@),
            },
    {
        let elements = match expect_cmd_array(redis_type) {
            Ok(els) => els,
            Err(m) => {
                return Err(m);
            },
        };
        proof {
            crate::protocol::redis_serialization_protocol::lemma_frame_models_index(elements@);
        }
        if elements.len() < 2 {
            return Err("Not enough arguments for LLEN command".as_bytes_vec());
        }
        match &elements[1] {
            RedisType::BulkString(key) => Ok(LLenCommand { key: slice_to_vec(key.as_slice()) }),
            _ => Err("LLEN argument is not a BulkString".as_bytes_vec()),
        }
    }

    /// Routes the read to the key's shard and renders the reply. No shard
    /// changes.
    pub fn execute(&self, engine: &mut StorageEngine) -> (r: RedisType)
        requires
            old(engine).wf(),
        ensures
            final(engine).wf(),
            final(engine).shards_view() == old(engine).shards_view(),
            final(engine).ttl_views() == old(engine).ttl_views(),
            r@ == spec_llen_reply(
                spec_llen(
                    old(engine).shards_view()[spec_shard_index(
                        self.key@,
                        old(engine).shard_count(),
                    )],
                    self.key@,
                ),
            ),
    {
        proof {
            old(engine).lemma_wf_shard_count();
        }
        let request = StorageRequest::LLen(
            ListLengthStorage { key: slice_to_vec(self.key.as_slice()) },
        );
        let (resp, _effects) = engine.execute(request);
        proof {
            engine.lemma_wf_shard_count();
            assert(engine.shards_view() =~= old(engine).shards_view());
            assert(engine.ttl_views() =~= old(engine).ttl_views());
        }
        match resp {
            StorageResponse::ListLength(len) => RedisType::Integer(len_to_i64(len)),
            StorageResponse::Failed(msg) => RedisType::SimpleError(msg),
            _ => RedisType::SimpleError("Unknown error occurred during LLEN".as_bytes_vec()),
        }
    }
}

} // verus!
