//! LPOP: pop one element from the head of a list, or up to a count of
//! elements. The null reply takes the shape of the request: a null bulk
//! string without a count, a null array with one.

use crate::command::{bulk_array, expect_cmd_array, spec_bulk_array, wrap_msg};
use crate::numbers::{digits_val, signed_body, valid_u64};
use crate::protocol::redis_serialization_protocol::{FrameModel, RedisType};
use crate::storage::engine::{spec_shard_index, StorageEngine, StorageRequest};
use crate::storage::list_left_pop_storage::{spec_lpop, ListLeftPopStorage};
use crate::storage::{ResponseModel, StorageResponse};
use vstd::prelude::*;
use vstd::slice::slice_to_vec;
use vstd::string::*;

verus! {

pub struct LPopCommand {
    pub key: Vec<u8>,
    pub count: Option<usize>,
}

/// Valid count text: unsigned decimal that fits the machine word.
pub open spec fn spec_valid_count(c: Seq<u8>) -> bool {
    valid_u64(c) && digits_val(signed_body(c)) <= usize::MAX
}

/// What LPOP parsing accepts: a bulk key and an optional bulk count in
/// unsigned decimal.
pub open spec fn spec_parse_lpop(f: FrameModel) -> Result<(Seq<u8>, Option<int>), Seq<u8>> {
    match f {
        FrameModel::Arr(els) => if els.len() < 2 {
            Err("Not enough arguments for LPOP command".spec_bytes())
        } else {
            match els[1] {
                FrameModel::Bulk(k) => if els.len() >= 3 {
                    match els[2] {
                        FrameModel::Bulk(c) => if spec_valid_count(c) {
                            Ok((k, Option::Some(digits_val(signed_body(c)))))
                        } else {
                            Err(
                                "Failed to parse LPOP count parameter '".spec_bytes() + c
                                    + "' as unsigned integer".spec_bytes(),
                            )
                        },
                        _ => Err("LPOP count is not BulkString".spec_bytes()),
                    }
                } else {
                    Ok((k, Option::None))
                },
                _ => Err("LPOP key is not BulkString".spec_bytes()),
            }
        },
        _ => Err(crate::command::msg_not_array()),
    }
}

/// The reply frame for an LPOP response.
pub open spec fn spec_lpop_reply(resp: ResponseModel, with_count: bool) -> FrameModel {
    match resp {
        ResponseModel::KeyValueV(v) => FrameModel::Bulk(v),
        ResponseModel::ListValuesV(vs) => spec_bulk_array(vs),
        ResponseModel::NullV => if with_count {
            FrameModel::NullArr
        } else {
            FrameModel::NullBulk
        },
        ResponseModel::FailedV(m) => FrameModel::Error(m),
        _ => FrameModel::Error("Unknown error occurred during LPOP".spec_bytes()),
    }
}

impl LPopCommand {
    pub open spec fn model(&self) -> (Seq<u8>, Option<int>) {
        (
            self.key@,
            match self.count {
                Option::Some(c) => Option::Some(c as int),
                Option::None => Option::None,
            },
        )
    }

    pub fn parse(redis_type: &RedisType) -> (r: Result<LPopCommand, Vec<u8>>)
        ensures
            match r {
                Ok(cmd) => spec_parse_lpop(redis_type@) == Ok::<_, Seq<u8>>(cmd.model()),
                Err(m) => spec_parse_lpop(redis_type@) == Err::<(Seq<u8>, Option<int>), _>(m@),
            },
    {
        let elements = match expect_cmd_array(redis_type) {
            Ok(els) => els,
            Err(m) => {
                return Err(m);
            },
        };
        proof {
            crate::protocol::redis_serialization_protocol::lemma_frame_models_index(elements@);
        }
        if elements.len() < 2 {
            return Err("Not enough arguments for LPOP command".as_bytes_vec());
        }
        let key: Vec<u8> = match &elements[1] {
            RedisType::BulkString(k) => slice_to_vec(k.as_slice()),
            _ => {
                return Err("LPOP key is not BulkString".as_bytes_vec());
            },
        };
        if elements.len() >= 3 {
            match &elements[2] {
                RedisType::BulkString(count_str) => {
                    match crate::numbers::parse_u64(count_str.as_slice()) {
                        Some(c) => {
                            if c <= usize::MAX as u64 {
                                Ok(LPopCommand { key, count: Some(c as usize) })
                            } else {
                                Err(
                                    wrap_msg(
                                        "Failed to parse LPOP count parameter '",
                                        count_str.as_slice(),
                                        "' as unsigned integer",
                                    ),
                                )
                            }
                        },
                        None => Err(
                            wrap_msg(
                                "Failed to parse LPOP count parameter '",
                                count_str.as_slice(),
                                "' as unsigned integer",
                            ),
                        ),
                    }
                },
                _ => Err("LPOP count is not BulkString".as_bytes_vec()),
            }
        } else {
            Ok(LPopCommand { key, count: None })
        }
    }

    /// Pops on the key's shard and renders the reply.
    pub fn execute(&self, engine: &mut StorageEngine) -> (r: RedisType)
        requires
            old(engine).wf(),
        ensures
            final(engine).wf(),
            final(engine).shard_count() == old(engine).shard_count(),
            ({
                let idx = spec_shard_index(self.key@, old(engine).shard_count());
                let outcome = spec_lpop(
                    old(engine).shards_view()[idx],
                    self.key@,
                    self.model().1,
                );
                &&& forall|j: int|
                    0 <= j < old(engine).shard_count() && j != idx
                        ==> #[trigger] final(engine).shards_view()[j] == old(
                        engine,
                    ).shards_view()[j]
                &&& final(engine).ttl_views() == old(engine).ttl_views()
                &&& final(engine).shards_view()[idx] == outcome.0
                &&& r@ == spec_lpop_reply(outcome.1, self.count is Some)
            }),
    {
        proof {
            old(engine).lemma_wf_shard_count();
        }
        let request = StorageRequest::LPop(
            ListLeftPopStorage { key: slice_to_vec(self.key.as_slice()), count: self.count },
        );
        let (resp, _effects) = engine.execute(request);
        proof {
            engine.lemma_wf_shard_count();
            assert(engine.ttl_views() =~= old(engine).ttl_views());
        }
        match resp {
            StorageResponse::KeyValue { value } => RedisType::BulkString(value),
            StorageResponse::ListValues { values } => bulk_array(values),
            StorageResponse::Null => {
                if self.count.is_some() {
                    RedisType::NullArray
                } else {
                    RedisType::NullBulkString
                }
            },
            StorageResponse::Failed(msg) => RedisType::SimpleError(msg),
            _ => RedisType::SimpleError("Unknown error occurred during LPOP".as_bytes_vec()),
        }
    }
}

} // verus!
