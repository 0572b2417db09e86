//! BLPOP: pop the head of the first non-empty list among several keys,
//! blocking up to a timeout given in decimal seconds (zero blocks without
//! limit). The immediate attempt over all keys is verified here; waiting
//! for a push is the runtime's part, re-running the attempt after each wake.

use crate::command::{expect_cmd_array, wrap_msg};
use crate::numbers::{
    all_digits, all_digits_check, any_nonzero_digit, digits_val, parse_digits_bounded,
};
use crate::protocol::redis_serialization_protocol::{FrameModel, RedisType};
use crate::storage::engine::{spec_shard_index, StorageEngine};
use crate::storage::list_left_blocking_pop_storage::{
    spec_blpop_check, spec_blpop_commit, ListLeftBlockingPopStorage,
};
use crate::storage::{ResponseModel, StorageResponse, ValueModel};
use vstd::prelude::*;
use vstd::slice::{slice_subrange, slice_to_vec};
use vstd::string::*;

verus! {

pub struct BlockingLeftPopCommand {
    pub keys: Vec<Vec<u8>>,
    /// Milliseconds to wait; zero blocks without limit.
    pub timeout_ms: u64,
}

/// First occurrence of a byte at or after `from`.
pub open spec fn find_byte(s: Seq<u8>, b: u8, from: int) -> Option<int>
    decreases s.len() - from,
{
    if from >= s.len() {
        None
    } else if s[from] == b {
        Some(from)
    } else {
        find_byte(s, b, from + 1)
    }
}

/// The timeout text without its optional sign.
pub open spec fn timeout_body(s: Seq<u8>) -> Seq<u8> {
    if s.len() > 0 && (s[0] == 43 || s[0] == 45) {
        s.drop_first()
    } else {
        s
    }
}

pub open spec fn timeout_int_part(s: Seq<u8>) -> Seq<u8> {
    let b = timeout_body(s);
    match find_byte(b, 46, 0) {
        Option::None => b,
        Option::Some(p) => b.subrange(0, p),
    }
}

pub open spec fn timeout_frac_part(s: Seq<u8>) -> Seq<u8> {
    let b = timeout_body(s);
    match find_byte(b, 46, 0) {
        Option::None => Seq::empty(),
        Option::Some(p) => b.subrange(p + 1, b.len() as int),
    }
}

/// Decimal-seconds text: an optional sign, digits with at most one point,
/// and at least one digit.
pub open spec fn valid_timeout(s: Seq<u8>) -> bool {
    all_digits(timeout_int_part(s)) && all_digits(timeout_frac_part(s)) && timeout_int_part(
        s,
    ).len() + timeout_frac_part(s).len() > 0
}

/// The first three fractional digits as milliseconds.
pub open spec fn frac_ms(f: Seq<u8>) -> int {
    (if f.len() >= 1 {
        (f[0] - 48) * 100
    } else {
        0
    }) + (if f.len() >= 2 {
        (f[1] - 48) * 10
    } else {
        0
    }) + (if f.len() >= 3 {
        (f[2] - 48) as int
    } else {
        0
    })
}

/// Timeout seconds converted to milliseconds with truncation below one
/// millisecond, saturating at the 64-bit limit.
pub open spec fn spec_timeout_ms(s: Seq<u8>) -> u64 {
    let v = digits_val(timeout_int_part(s)) * 1000 + frac_ms(timeout_frac_part(s));
    if v <= u64::MAX {
        v as u64
    } else {
        u64::MAX
    }
}

/// A minus sign before any nonzero digit.
pub open spec fn timeout_is_negative(s: Seq<u8>) -> bool {
    s.len() > 0 && s[0] == 45 && (digits_val(timeout_int_part(s)) > 0 || digits_val(
        timeout_frac_part(s),
    ) > 0)
}

pub open spec fn msg_timeout_not_number() -> Seq<u8> {
    "BLPOP 'timeout' must be a finite, non-negative numbe".spec_bytes()
}

pub open spec fn msg_timeout_negative() -> Seq<u8> {
    "BLPOP 'timeout' must be a finite, non-negative number".spec_bytes()
}

/// The keys named by the request, each a bulk string.
pub open spec fn spec_collect_keys(els: Seq<FrameModel>, from: int, to: int) -> Result<
    Seq<Seq<u8>>,
    (),
>
    decreases to - from,
{
    if from >= to {
        Ok(Seq::empty())
    } else {
        match els[from] {
            FrameModel::Bulk(k) => match spec_collect_keys(els, from + 1, to) {
                Ok(rest) => Ok(seq![k] + rest),
                Err(e) => Err(e),
            },
            _ => Err(()),
        }
    }
}

/// What BLPOP parsing accepts: one or more bulk keys and a final bulk
/// timeout in decimal seconds, not negative.
pub open spec fn spec_parse_blpop(f: FrameModel) -> Result<(Seq<Seq<u8>>, u64), Seq<u8>> {
    match f {
        FrameModel::Arr(els) => if els.len() < 3 {
            Err(
                "Incomplete BLPOP command, expected at least 3 values: 'BLPOP key timeout'".spec_bytes(),
            )
        } else {
            match spec_collect_keys(els, 1, els.len() - 1) {
                Err(_) => Err("BLPOP incorrect list key, not BulkString".spec_bytes()),
                Ok(keys) => match els[els.len() - 1] {
                    FrameModel::Bulk(t) => if !valid_timeout(t) {
                        Err(msg_timeout_not_number())
                    } else if timeout_is_negative(t) {
                        Err(msg_timeout_negative())
                    } else {
                        Ok((keys, spec_timeout_ms(t)))
                    },
                    _ => Err("BLPOP incorrect 'timeout' argument".spec_bytes()),
                },
            }
        },
        _ => Err(crate::command::msg_not_array()),
    }
}

/// The outcome of one pass over the keys: the first shard answer found, in
/// key order, or nothing when every list is absent or empty.
pub open spec fn spec_blpop_immediate(
    shards: Seq<Map<Seq<u8>, ValueModel>>,
    n: int,
    keys: Seq<Seq<u8>>,
    i: int,
) -> Option<(int, ResponseModel)>
    decreases keys.len() - i,
{
    if i >= keys.len() {
        Option::None
    } else {
        match spec_blpop_check(shards[spec_shard_index(keys[i], n)], keys[i]) {
            Option::Some(r) => Option::Some((i, r)),
            Option::None => spec_blpop_immediate(shards, n, keys, i + 1),
        }
    }
}

/// The reply frame for a BLPOP answer: the key and the popped value.
pub open spec fn spec_blpop_reply(resp: ResponseModel) -> FrameModel {
    match resp {
        ResponseModel::ValueFromListV(v, k) => FrameModel::Arr(
            seq![FrameModel::Bulk(k), FrameModel::Bulk(v)],
        ),
        ResponseModel::FailedV(m) => FrameModel::Error(m),
        _ => FrameModel::Error("Unknown error occurred during BLPOP".spec_bytes()),
    }
}

/// Reads a decimal-seconds timeout as milliseconds.
pub fn parse_timeout(s: &[u8]) -> (r: Result<u64, Vec<u8>>)
    ensures
        match r {
            Ok(ms) => valid_timeout(s@) && !timeout_is_negative(s@) && ms == spec_timeout_ms(s@),
            Err(m) => if valid_timeout(s@) && timeout_is_negative(s@) {
                m@ == msg_timeout_negative()
            } else {
                !valid_timeout(s@) && m@ == msg_timeout_not_number()
            },
        },
{
    let n = s.len();
    let negative_sign = n > 0 && s[0] == 45;
    let start: usize = if n > 0 && (s[0] == 43 || s[0] == 45) {
        1
    } else {
        0
    };
    let body = slice_subrange(s, start, n);
    proof {
        assert(body@ =~= timeout_body(s@));
    }
    // Find the decimal point, if any.
    let blen = body.len();
    let mut dot: Option<usize> = None;
    let mut i: usize = 0;
    while i < blen && dot.is_none()
        invariant
            i <= blen,
            blen == body@.len(),
            match dot {
                Some(p) => p == i && i < blen && find_byte(body@, 46, 0) == Some(p as int),
                None => find_byte(body@, 46, 0) == find_byte(body@, 46, i as int),
            },
        decreases blen - i, (if dot is None { 1int } else { 0int }),
    {
        if body[i] == 46 {
            dot = Some(i);
        } else {
            i = i + 1;
        }
    }
    let (int_part, frac_part) = match dot {
        Some(p) => (slice_subrange(body, 0, p), slice_subrange(body, p + 1, blen)),
        None => (body, slice_subrange(body, blen, blen)),
    };
    proof {
        if dot is Some {
            assert(find_byte(body@, 46, 0) == Some(dot->0 as int));
            assert(int_part@ =~= timeout_int_part(s@));
            assert(frac_part@ =~= timeout_frac_part(s@));
        } else {
            assert(find_byte(body@, 46, 0) is None);
            assert(int_part@ =~= timeout_int_part(s@));
            assert(frac_part@ =~= timeout_frac_part(s@));
        }
    }
    if !all_digits_check(int_part) || !all_digits_check(frac_part) {
        return Err(
            "BLPOP 'timeout' must be a finite, non-negative numbe".as_bytes_vec(),
        );
    }
    if int_part.len() + frac_part.len() == 0 {
        return Err(
            "BLPOP 'timeout' must be a finite, non-negative numbe".as_bytes_vec(),
        );
    }
    if negative_sign {
        if any_nonzero_digit(int_part) || any_nonzero_digit(frac_part) {
            return Err(
                "BLPOP 'timeout' must be a finite, non-negative number".as_bytes_vec(),
            );
        }
    }
    // Milliseconds from the first three fractional digits.
    let mut fms: u64 = 0;
    if frac_part.len() >= 1 {
        fms = fms + ((frac_part[0] - 48) as u64) * 100;
    }
    if frac_part.len() >= 2 {
        fms = fms + ((frac_part[1] - 48) as u64) * 10;
    }
    if frac_part.len() >= 3 {
        fms = fms + ((frac_part[2] - 48) as u64);
    }
    proof {
        crate::numbers::lemma_digits_val_nonneg(int_part@);
        assert(fms == frac_ms(timeout_frac_part(s@)));
    }
    let bound: u64 = (u64::MAX - fms) / 1000;
    assert(bound >= 9) by (nonlinear_arith)
        requires
            bound == (u64::MAX - fms) / 1000,
            fms <= 999,
    ;
    if int_part.len() == 0 {
        return Ok(fms);
    }
    match parse_digits_bounded(int_part, 0, bound) {
        Some(v) => {
            proof {
                assert(int_part@.subrange(0, int_part@.len() as int) =~= int_part@);
                assert(v * 1000 + fms <= u64::MAX) by (nonlinear_arith)
                    requires
                        v <= (u64::MAX - fms) / 1000,
                        fms <= 999,
                ;
            }
            Ok(v * 1000 + fms)
        },
        None => {
            // The integer part alone exceeds the representable range:
            // saturate.
            proof {
                assert(int_part@.subrange(0, int_part@.len() as int) =~= int_part@);
                let ival = digits_val(int_part@);
                assert(ival > bound);
                assert(ival * 1000 + fms > u64::MAX) by (nonlinear_arith)
                    requires
                        ival > (u64::MAX - fms) / 1000,
                        fms <= 999,
                        ival >= 0,
                ;
            }
            Ok(u64::MAX)
        },
    }
}

/// Collects the named keys from the request elements.
fn collect_keys(elements: &Vec<RedisType>, from: usize, to: usize) -> (r: Result<
    Vec<Vec<u8>>,
    (),
>)
    requires
        from <= to <= elements@.len(),
    ensures
        match r {
            Ok(ks) => spec_collect_keys(
                crate::protocol::redis_serialization_protocol::frame_models(elements@),
                from as int,
                to as int,
            ) == Ok::<_, ()>(crate::storage::seq_views(ks@)),
            Err(_) => spec_collect_keys(
                crate::protocol::redis_serialization_protocol::frame_models(elements@),
                from as int,
                to as int,
            ) is Err,
        },
    decreases to - from,
{
    let ghost models = crate::protocol::redis_serialization_protocol::frame_models(elements@);
    proof {
        crate::protocol::redis_serialization_protocol::lemma_frame_models_index(elements@);
    }
    if from == to {
        let ks: Vec<Vec<u8>> = Vec::new();
        proof {
            assert(crate::storage::seq_views(ks@) =~= Seq::<Seq<u8>>::empty());
        }
        return Ok(ks);
    }
    let head: Vec<u8> = match &elements[from] {
        RedisType::BulkString(k) => slice_to_vec(k.as_slice()),
        _ => {
            return Err(());
        },
    };
    match collect_keys(elements, from + 1, to) {
        Ok(rest) => {
            let mut ks = rest;
            ks.insert(0, head);
            proof {
                assert(ks@.subrange(1, ks@.len() as int) =~= ks@.drop_first());
                assert(crate::storage::seq_views(ks@) =~= seq![ks@[0]@]
                    + crate::storage::seq_views(ks@.drop_first()));
                assert(crate::storage::seq_views(ks@.drop_first()) =~= spec_collect_keys(
                    models,
                    from + 1,
                    to as int,
                )->Ok_0);
            }
            Ok(ks)
        },
        Err(e) => Err(e),
    }
}

/// Renders one shard's blocking-pop answer as its reply frame.
pub fn blpop_reply_frame(response: StorageResponse) -> (r: RedisType)
    ensures
        r@ == spec_blpop_reply(crate::storage::response_model(response)),
{
    match response {
        StorageResponse::ValueFromList { value, list_name } => {
            let ghost lv = list_name@;
            let ghost vv = value@;
            let mut reply_elements: Vec<RedisType> = Vec::new();
            reply_elements.push(RedisType::BulkString(list_name));
            reply_elements.push(RedisType::BulkString(value));
            proof {
                crate::protocol::redis_serialization_protocol::lemma_frame_models_index(
                    reply_elements@,
                );
                assert(reply_elements@.len() == 2);
                assert(crate::protocol::redis_serialization_protocol::frame_model(
                    reply_elements@[0],
                ) == FrameModel::Bulk(lv));
                assert(crate::protocol::redis_serialization_protocol::frame_model(
                    reply_elements@[1],
                ) == FrameModel::Bulk(vv));
                assert(crate::protocol::redis_serialization_protocol::frame_models(
                    reply_elements@,
                ) =~= seq![FrameModel::Bulk(lv), FrameModel::Bulk(vv)]);
            }
            RedisType::Array(reply_elements)
        },
        StorageResponse::Failed(msg) => RedisType::SimpleError(msg),
        _ => RedisType::SimpleError("Unknown error occurred during BLPOP".as_bytes_vec()),
    }
}

impl BlockingLeftPopCommand {
    pub open spec fn model(&self) -> (Seq<Seq<u8>>, u64) {
        (crate::storage::seq_views(self.keys@), self.timeout_ms)
    }

    pub fn parse(redis_type: &RedisType) -> (r: Result<BlockingLeftPopCommand, Vec<u8>>)
        ensures
            match r {
                Ok(cmd) => spec_parse_blpop(redis_type@) == Ok::<_, Seq<u8>>(cmd.model()),
                Err(m) => spec_parse_blpop(redis_type@) == Err::<(Seq<Seq<u8>>, u64), _>(m@),
            },
    {
        let elements = match expect_cmd_array(redis_type) {
            Ok(els) => els,
            Err(m) => {
                return Err(m);
            },
        };
        proof {
            crate::protocol::redis_serialization_protocol::lemma_frame_models_index(elements@);
        }
        if elements.len() < 3 {
            return Err(
                "Incomplete BLPOP command, expected at least 3 values: 'BLPOP key timeout'".as_bytes_vec(),
            );
        }
        let keys = match collect_keys(elements, 1, elements.len() - 1) {
            Ok(ks) => ks,
            Err(_) => {
                return Err("BLPOP incorrect list key, not BulkString".as_bytes_vec());
            },
        };
        match &elements[elements.len() - 1] {
            RedisType::BulkString(timeout_str) => {
                match parse_timeout(timeout_str.as_slice()) {
                    Ok(timeout_ms) => Ok(BlockingLeftPopCommand { keys, timeout_ms }),
                    Err(m) => Err(m),
                }
            },
            _ => Err("BLPOP incorrect 'timeout' argument".as_bytes_vec()),
        }
    }

    /// One pass over the keys in order: the first shard with an answer
    /// wins. A popped value is committed and replied with its key; a
    /// wrong-kind key is replied as an error without touching state; `None`
    /// asks the runtime to wait for a push on any of the keys and re-run.
    pub fn try_immediate(&self, engine: &mut StorageEngine) -> (r: Option<RedisType>)
        requires
            old(engine).wf(),
        ensures
            final(engine).wf(),
            final(engine).shard_count() == old(engine).shard_count(),
            final(engine).ttl_views() == old(engine).ttl_views(),
            ({
                let outcome = spec_blpop_immediate(
                    old(engine).shards_view(),
                    old(engine).shard_count(),
                    crate::storage::seq_views(self.keys@),
                    0,
                );
                match r {
                    Option::None => outcome is None && final(engine).shards_view() == old(
                        engine,
                    ).shards_view(),
                    Option::Some(reply) => outcome matches Option::Some((w, resp))
                        && reply@ == spec_blpop_reply(resp) && (if resp is ValueFromListV {
                        ({
                            let key = crate::storage::seq_views(self.keys@)[w];
                            let idx = spec_shard_index(key, old(engine).shard_count());
                            final(engine).shards_view() == old(engine).shards_view().update(
                                idx,
                                spec_blpop_commit(old(engine).shards_view()[idx], key),
                            )
                        })
                    } else {
                        final(engine).shards_view() == old(engine).shards_view()
                    }),
                }
            }),
    {
        proof {
            old(engine).lemma_wf_shard_count();
        }
        let ghost kvs = crate::storage::seq_views(self.keys@);
        let n = self.keys.len();
        let mut i: usize = 0;
        while i < n
            invariant
                i <= n,
                n == self.keys@.len(),
                kvs == crate::storage::seq_views(self.keys@),
                engine.wf(),
                *engine == *old(engine),
                spec_blpop_immediate(
                    old(engine).shards_view(),
                    old(engine).shard_count(),
                    kvs,
                    0,
                ) == spec_blpop_immediate(
                    old(engine).shards_view(),
                    old(engine).shard_count(),
                    kvs,
                    i as int,
                ),
            decreases n - i,
        {
            let request = ListLeftBlockingPopStorage {
                key: slice_to_vec(self.keys[i].as_slice()),
            };
            match engine.blpop_attempt(&request) {
                Some(resp) => {
                    let popped = matches!(resp, StorageResponse::ValueFromList { .. });
                    if popped {
                        engine.blpop_commit(&request);
                        proof {
                            engine.lemma_wf_shard_count();
                            assert(engine.shards_view() =~= old(engine).shards_view().update(
                                spec_shard_index(kvs[i as int], old(engine).shard_count()),
                                spec_blpop_commit(
                                    old(engine).shards_view()[spec_shard_index(
                                        kvs[i as int],
                                        old(engine).shard_count(),
                                    )],
                                    kvs[i as int],
                                ),
                            ));
                            assert(engine.ttl_views() =~= old(engine).ttl_views());
                        }
                    }
                    return Some(blpop_reply_frame(resp));
                },
                None => {},
            }
            i = i + 1;
        }
        None
    }
}

} // verus!
