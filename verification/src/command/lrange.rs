//! LRANGE: the elements of a list between two indexes, inclusive, after
//! index normalization. Strictly read-only.

use crate::command::{bulk_array, expect_cmd_array, spec_bulk_array, wrap_msg};
use crate::numbers::{signed_val, valid_i64};
use crate::protocol::redis_serialization_protocol::{FrameModel, RedisType};
use crate::storage::engine::{spec_shard_index, StorageEngine, StorageRequest};
use crate::storage::list_range_storage::{spec_lrange, ListRangeStorage};
use crate::storage::{ResponseModel, StorageResponse};
use vstd::prelude::*;
use vstd::slice::slice_to_vec;
use vstd::string::*;

verus! {

pub struct LRange {
    pub key: Vec<u8>,
    pub start: i32,
    pub end: i32,
}

/// Valid index text: signed decimal fitting a 32-bit integer.
pub open spec fn spec_valid_index(c: Seq<u8>) -> bool {
    valid_i64(c, true) && i32::MIN <= signed_val(c) <= i32::MAX
}

/// What LRANGE parsing accepts: bulk key and two signed decimal indexes.
pub open spec fn spec_parse_lrange(f: FrameModel) -> Result<(Seq<u8>, int, int), Seq<u8>> {
    match f {
        FrameModel::Arr(els) => if els.len() < 4 {
            Err("Not enough arguments for LRANGE command".spec_bytes())
        } else {
            match (els[1], els[2], els[3]) {
                (FrameModel::Bulk(k), FrameModel::Bulk(s), FrameModel::Bulk(e)) => {
                    if !spec_valid_index(s) {
                        Err(
                            "Failed to parse LRANGE start parameter '".spec_bytes() + s
                                + "' as integer".spec_bytes(),
                        )
                    } else if !spec_valid_index(e) {
                        Err(
                            "Failed to parse LRANGE end parameter '".spec_bytes() + e
                                + "' as integer".spec_bytes(),
                        )
                    } else {
                        Ok((k, signed_val(s), signed_val(e)))
                    }
                },
                _ => Err(
                    "LRANGE incorrect parameter types, expected BulkString, BulkString, BulkString".spec_bytes(),
                ),
            }
        },
        _ => Err(crate::command::msg_not_array()),
    }
}

/// The reply frame for an LRANGE response.
pub open spec fn spec_lrange_reply(resp: ResponseModel) -> FrameModel {
    match resp {
        ResponseModel::ListValuesV(vs) => spec_bulk_array(vs),
        ResponseModel::FailedV(m) => FrameModel::Error(m),
        _ => FrameModel::Error("Unknown error occurred during LRANGE".spec_bytes()),
    }
}

impl LRange {
    pub open spec fn model(&self) -> (Seq<u8>, int, int) {
        (self.key@, self.start as int, self.end as int)
    }

    pub fn parse(redis_type: &RedisType) -> (r: Result<LRange, Vec<u8>>)
        ensures
            match r {
                Ok(cmd) => spec_parse_lrange(redis_type@) == Ok::<_, Seq<u8>>(cmd.model()),
                Err(m) => spec_parse_lrange(redis_type@) == Err::<(Seq<u8>, int, int), _>(m@),
            },
    {
        let elements = match expect_cmd_array(redis_type) {
            Ok(els) => els,
            Err(m) => {
                return Err(m);
            },
        };
        proof {
            crate::protocol::redis_serialization_protocol::lemma_frame_models_index(elements@);
        }
        if elements.len() < 4 {
            return Err("Not enough arguments for LRANGE command".as_bytes_vec());
        }
        match (&elements[1], &elements[2], &elements[3]) {
            (
                RedisType::BulkString(key),
                RedisType::BulkString(start_str),
                RedisType::BulkString(end_str),
            ) => {
                let start = match Self::parse_index(start_str) {
                    Some(v) => v,
                    None => {
                        return Err(
                            wrap_msg(
                                "Failed to parse LRANGE start parameter '",
                                start_str.as_slice(),
                                "' as integer",
                            ),
                        );
                    },
                };
                let end = match Self::parse_index(end_str) {
                    Some(v) => v,
                    None => {
                        return Err(
                            wrap_msg(
                                "Failed to parse LRANGE end parameter '",
                                end_str.as_slice(),
                                "' as integer",
                            ),
                        );
                    },
                };
                Ok(LRange { key: slice_to_vec(key.as_slice()), start, end })
            },
            _ => Err(
                "LRANGE incorrect parameter types, expected BulkString, BulkString, BulkString".as_bytes_vec(),
            ),
        }
    }

    fn parse_index(s: &Vec<u8>) -> (r: Option<i32>)
        ensures
            match r {
                Some(v) => spec_valid_index(s@) && v as int == signed_val(s@),
                None => !spec_valid_index(s@),
            },
    {
        match crate::numbers::parse_i64(s.as_slice(), true) {
            Some(v) => {
                if i32::MIN as i64 <= v && v <= i32::MAX as i64 {
                    Some(v as i32)
                } else {
                    None
                }
            },
            None => None,
        }
    }

    /// Routes the read to the key's shard and renders the reply. No shard
    /// changes.
    pub fn execute(&self, engine: &mut StorageEngine) -> (r: RedisType)
        requires
            old(engine).wf(),
        ensures
            final(engine).wf(),
            final(engine).shards_view() == old(engine).shards_view(),
            final(engine).ttl_views() == old(engine).ttl_views(),
            r@ == spec_lrange_reply(
                spec_lrange(
                    old(engine).shards_view()[spec_shard_index(
                        self.key@,
                        old(engine).shard_count(),
                    )],
                    self.key@,
                    self.start as int,
                    self.end as int,
                ),
            ),
    {
        proof {
            old(engine).lemma_wf_shard_count();
        }
        let request = StorageRequest::LRange(
            ListRangeStorage {
                key: slice_to_vec(self.key.as_slice()),
                start: self.start,
                end: self.end,
            },
        );
        let (resp, _effects) = engine.execute(request);
        proof {
            engine.lemma_wf_shard_count();
            assert(engine.shards_view() =~= old(engine).shards_view());
            assert(engine.ttl_views() =~= old(engine).ttl_views());
        }
        match resp {
            StorageResponse::ListValues { values } => bulk_array(values),
            StorageResponse::Failed(msg) => RedisType::SimpleError(msg),
            _ => RedisType::SimpleError("Unknown error occurred during LRANGE".as_bytes_vec()),
        }
    }
}

} // verus!
