//! SET: store a string, optionally with an `EX` (seconds) or `PX`
//! (milliseconds) expiration. An unrecognized or incomplete option group is
//! ignored and the key persists, as the wire protocol's callers expect.

use crate::command::{expect_cmd_array, spec_upper, wrap_msg};
use crate::numbers::{digits_val, signed_body, valid_u64};
use crate::protocol::redis_serialization_protocol::{FrameModel, RedisType};
use crate::storage::engine::{spec_shard_index, StorageEngine, StorageRequest};
use crate::storage::set_storage::SetStorage;
use crate::storage::{ResponseModel, StorageResponse, ValueModel};
use vstd::prelude::*;
use vstd::slice::slice_to_vec;
use vstd::string::*;

verus! {

pub struct SetCommand {
    pub key: Vec<u8>,
    pub value: Vec<u8>,
    pub expiration_in_ms: u64,
}

/// Seconds scaled to milliseconds, saturating at the 64-bit limit.
pub open spec fn spec_sat_ms(v: int) -> u64 {
    if v * 1000 <= u64::MAX {
        (v * 1000) as u64
    } else {
        u64::MAX
    }
}

/// Milliseconds capped at the 64-bit limit.
pub open spec fn spec_cap_u64(v: int) -> u64 {
    if v <= u64::MAX {
        v as u64
    } else {
        u64::MAX
    }
}

/// What SET parsing accepts: bulk key and value, then an optional
/// expiration pair whose value must be unsigned decimal text.
pub open spec fn spec_parse_set(f: FrameModel) -> Result<(Seq<u8>, Seq<u8>, u64), Seq<u8>> {
    match f {
        FrameModel::Arr(els) => if els.len() < 3 {
            Err("Not enough arguments for SET command".spec_bytes())
        } else {
            match (els[1], els[2]) {
                (FrameModel::Bulk(k), FrameModel::Bulk(v)) => {
                    if els.len() >= 5 && els[3] is Bulk && els[4] is Bulk {
                        let arg = spec_upper(els[3]->Bulk_0);
                        let av = els[4]->Bulk_0;
                        if arg == "EX".spec_bytes() {
                            if valid_u64(av) {
                                Ok((k, v, spec_sat_ms(digits_val(signed_body(av)))))
                            } else {
                                Err(
                                    "Can't convert EX value '".spec_bytes() + av
                                        + "' to number".spec_bytes(),
                                )
                            }
                        } else if arg == "PX".spec_bytes() {
                            if valid_u64(av) {
                                Ok((k, v, spec_cap_u64(digits_val(signed_body(av)))))
                            } else {
                                Err(
                                    "Can't convert PX value '".spec_bytes() + av
                                        + "' to number".spec_bytes(),
                                )
                            }
                        } else {
                            Ok((k, v, 0))
                        }
                    } else {
                        Ok((k, v, 0))
                    }
                },
                _ => Err("SET arguments are not BulkString".spec_bytes()),
            }
        },
        _ => Err(crate::command::msg_not_array()),
    }
}

/// The reply frame for a SET response.
pub open spec fn spec_set_reply(resp: ResponseModel) -> FrameModel {
    match resp {
        ResponseModel::SuccessV => FrameModel::Simple("OK".spec_bytes()),
        _ => FrameModel::Error("Error occurred during SET".spec_bytes()),
    }
}

impl SetCommand {
    pub open spec fn model(&self) -> (Seq<u8>, Seq<u8>, u64) {
        (self.key@, self.value@, self.expiration_in_ms)
    }

    pub fn parse(redis_type: &RedisType) -> (r: Result<SetCommand, Vec<u8>>)
        ensures
            match r {
                Ok(cmd) => spec_parse_set(redis_type@) == Ok::<_, Seq<u8>>(cmd.model()),
                Err(m) => spec_parse_set(redis_type@) == Err::<(Seq<u8>, Seq<u8>, u64), _>(m@),
            },
    {
        let elements = match expect_cmd_array(redis_type) {
            Ok(els) => els,
            Err(m) => {
                return Err(m);
            },
        };
        proof {
            crate::protocol::redis_serialization_protocol::lemma_frame_models_index(elements@);
        }
        if elements.len() < 3 {
            return Err("Not enough arguments for SET command".as_bytes_vec());
        }
        let key: Vec<u8> = match &elements[1] {
            RedisType::BulkString(k) => slice_to_vec(k.as_slice()),
            _ => {
                return Err("SET arguments are not BulkString".as_bytes_vec());
            },
        };
        let value: Vec<u8> = match &elements[2] {
            RedisType::BulkString(v) => slice_to_vec(v.as_slice()),
            _ => {
                return Err("SET arguments are not BulkString".as_bytes_vec());
            },
        };
        let mut expiration_in_ms: u64 = 0;
        if elements.len() >= 5 {
            let arg_bulk: Option<&Vec<u8>> = match &elements[3] {
                RedisType::BulkString(a) => Some(a),
                _ => None,
            };
            let val_bulk: Option<&Vec<u8>> = match &elements[4] {
                RedisType::BulkString(a) => Some(a),
                _ => None,
            };
            match (arg_bulk, val_bulk) {
                (Some(arg), Some(arg_value)) => {
                    let upper = crate::command::ascii_uppercase(arg.as_slice());
                    let ghost ub = upper@;
                    if crate::storage::bytes_eq(upper.as_slice(), "EX".as_bytes()) {
                        match crate::numbers::parse_u64(arg_value.as_slice()) {
                            Some(seconds) => {
                                if seconds > u64::MAX / 1000 {
                                    expiration_in_ms = u64::MAX;
                                    proof {
                                        assert(seconds * 1000 > u64::MAX) by (nonlinear_arith)
                                            requires
                                                seconds > u64::MAX / 1000,
                                        ;
                                    }
                                } else {
                                    proof {
                                        assert(seconds * 1000 <= u64::MAX) by (nonlinear_arith)
                                            requires
                                                seconds <= u64::MAX / 1000,
                                        ;
                                    }
                                    expiration_in_ms = seconds * 1000;
                                }
                            },
                            None => {
                                return Err(
                                    wrap_msg(
                                        "Can't convert EX value '",
                                        arg_value.as_slice(),
                                        "' to number",
                                    ),
                                );
                            },
                        }
                    } else if crate::storage::bytes_eq(upper.as_slice(), "PX".as_bytes()) {
                        match crate::numbers::parse_u64(arg_value.as_slice()) {
                            Some(ms) => {
                                expiration_in_ms = ms;
                            },
                            None => {
                                return Err(
                                    wrap_msg(
                                        "Can't convert PX value '",
                                        arg_value.as_slice(),
                                        "' to number",
                                    ),
                                );
                            },
                        }
                    }
                },
                _ => {},
            }
        }
        Ok(SetCommand { key, value, expiration_in_ms })
    }

    /// Stores the string on the key's shard and renders the reply. The
    /// returned effects tell the runtime what to do about expiration timers.
    pub fn execute(&self, engine: &mut StorageEngine) -> (r: (
        RedisType,
        crate::storage::engine::EngineEffects,
    ))
        requires
            old(engine).wf(),
        ensures
            final(engine).wf(),
            final(engine).shard_count() == old(engine).shard_count(),
            ({
                let idx = spec_shard_index(self.key@, old(engine).shard_count());
                &&& forall|j: int|
                    0 <= j < old(engine).shard_count() && j != idx
                        ==> #[trigger] final(engine).shards_view()[j] == old(
                        engine,
                    ).shards_view()[j]
                &&& forall|j: int|
                    0 <= j < old(engine).shard_count() && j != idx
                        ==> #[trigger] final(engine).ttl_views()[j] == old(engine).ttl_views()[j]
                &&& final(engine).shards_view()[idx] == old(engine).shards_view()[idx].insert(
                    self.key@,
                    ValueModel::StrV(self.value@),
                )
                &&& final(engine).ttl_views()[idx] == (if self.expiration_in_ms > 0 {
                    old(engine).ttl_views()[idx].insert(self.key@, self.expiration_in_ms)
                } else {
                    old(engine).ttl_views()[idx].remove(self.key@)
                })
                &&& r.0@ == FrameModel::Simple("OK".spec_bytes())
                &&& r.1.arm_ttl == (self.expiration_in_ms > 0)
                &&& r.1.cancel_previous_ttl == old(engine).ttl_views()[idx].contains_key(
                    self.key@,
                )
            }),
    {
        proof {
            old(engine).lemma_wf_shard_count();
        }
        let request = StorageRequest::SetValue(
            SetStorage {
                key: slice_to_vec(self.key.as_slice()),
                value: slice_to_vec(self.value.as_slice()),
                expiration_in_ms: self.expiration_in_ms,
            },
        );
        let (resp, effects) = engine.execute(request);
        proof {
            engine.lemma_wf_shard_count();
        }
        let reply = match resp {
            StorageResponse::Success => RedisType::SimpleString("OK".as_bytes_vec()),
            _ => RedisType::SimpleError("Error occurred during SET".as_bytes_vec()),
        };
        (reply, effects)
    }
}

} // verus!
