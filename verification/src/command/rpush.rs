//! RPUSH: append values to the tail of a list, creating it if absent, and
//! reply with the new length.

use crate::command::{collect_values, expect_cmd_array, len_to_i64, spec_collect_values, spec_push_reply};
use crate::protocol::redis_serialization_protocol::{FrameModel, RedisType};
use crate::storage::engine::{spec_shard_index, EngineEffects, StorageEngine, StorageRequest};
use crate::storage::list_right_push_storage::{spec_rpush, ListRightPushStorage};
use crate::storage::{ResponseModel, StorageResponse};
use vstd::prelude::*;
use vstd::slice::slice_to_vec;
use vstd::string::*;

verus! {

pub struct RPushCommand {
    pub key: Vec<u8>,
    pub values: Vec<Vec<u8>>,
}

/// What RPUSH parsing accepts: a bulk key and one or more values, each a
/// bulk string or an integer.
pub open spec fn spec_parse_rpush(f: FrameModel) -> Result<(Seq<u8>, Seq<Seq<u8>>), Seq<u8>> {
    match f {
        FrameModel::Arr(els) => if els.len() < 3 {
            Err("Not enough arguments for RPUSH command".spec_bytes())
        } else {
            match els[1] {
                FrameModel::Bulk(k) => match spec_collect_values(els, 2) {
                    Ok(vs) => Ok((k, vs)),
                    Err(_) => Err("RPUSH argument is not BulkString or Integer".spec_bytes()),
                },
                _ => Err("RPUSH key is not BulkString".spec_bytes()),
            }
        },
        _ => Err(crate::command::msg_not_array()),
    }
}

impl RPushCommand {
    pub fn parse(redis_type: &RedisType) -> (r: Result<RPushCommand, Vec<u8>>)
        ensures
            match r {
                Ok(cmd) => spec_parse_rpush(redis_type@) == Ok::<_, Seq<u8>>(
                    (cmd.key@, crate::storage::seq_views(cmd.values@)),
                ),
                Err(m) => spec_parse_rpush(redis_type@) == Err::<(Seq<u8>, Seq<Seq<u8>>), _>(m@),
            },
    {
        let elements = match expect_cmd_array(redis_type) {
            Ok(els) => els,
            Err(m) => {
                return Err(m);
            },
        };
        proof {
            crate::protocol::redis_serialization_protocol::lemma_frame_models_index(elements@);
        }
        if elements.len() < 3 {
            return Err("Not enough arguments for RPUSH command".as_bytes_vec());
        }
        match &elements[1] {
            RedisType::BulkString(key) => match collect_values(elements, 2) {
                Ok(values) => Ok(RPushCommand { key: slice_to_vec(key.as_slice()), values }),
                Err(_) => Err("RPUSH argument is not BulkString or Integer".as_bytes_vec()),
            },
            _ => Err("RPUSH key is not BulkString".as_bytes_vec()),
        }
    }

    /// Pushes on the key's shard and renders the new-length reply. The
    /// returned effects say whether to wake all waiters on the key.
    pub fn execute(&self, engine: &mut StorageEngine) -> (r: (RedisType, EngineEffects))
        requires
            old(engine).wf(),
        ensures
            final(engine).wf(),
            final(engine).shard_count() == old(engine).shard_count(),
            ({
                let idx = spec_shard_index(self.key@, old(engine).shard_count());
                let outcome = spec_rpush(
                    old(engine).shards_view()[idx],
                    self.key@,
                    crate::storage::seq_views(self.values@),
                );
                &&& forall|j: int|
                    0 <= j < old(engine).shard_count() && j != idx
                        ==> #[trigger] final(engine).shards_view()[j] == old(
                        engine,
                    ).shards_view()[j]
                &&& final(engine).ttl_views() == old(engine).ttl_views()
                &&& final(engine).shards_view()[idx] == outcome.0
                &&& r.0@ == spec_push_reply(
                    outcome.1,
                    "Unknown error occurred during RPUSH".spec_bytes(),
                )
                &&& r.1.notify_all_waiters == !(outcome.1 is FailedV)
            }),
    {
        proof {
            old(engine).lemma_wf_shard_count();
        }
        let request = StorageRequest::RPush(
            ListRightPushStorage {
                key: slice_to_vec(self.key.as_slice()),
                values: crate::command::clone_values(&self.values),
            },
        );
        let (resp, effects) = engine.execute(request);
        proof {
            engine.lemma_wf_shard_count();
            assert(engine.ttl_views() =~= old(engine).ttl_views());
        }
        let reply = match resp {
            StorageResponse::ListLength(len) => RedisType::Integer(len_to_i64(len)),
            StorageResponse::Failed(msg) => RedisType::SimpleError(msg),
            _ => RedisType::SimpleError("Unknown error occurred during RPUSH".as_bytes_vec()),
        };
        (reply, effects)
    }
}

} // verus!
