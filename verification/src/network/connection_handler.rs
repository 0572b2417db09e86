//! The connection session, minus the socket: drain complete frames from a
//! read buffer, dispatch each one, and collect the encoded replies in
//! submission order. The buffer-integrity and pipelining laws live here.

use crate::command::blpop::BlockingLeftPopCommand;
use crate::command::dispatch::{dispatch_and_execute, spec_session_step, DispatchOutcome};
use crate::protocol::parser::{spec_parse, try_parse_frame};
use crate::protocol::redis_serialization_protocol::{spec_encode, FrameModel, RedisType};
use crate::storage::engine::StorageEngine;
use crate::storage::ValueModel;
use vstd::prelude::*;
use vstd::slice::slice_subrange;
use vstd::string::*;

verus! {

/// Hard cap on a connection's read buffer: a request larger than this is
/// answered with an error and the connection closes.
pub const MAX_REQUEST_SIZE: usize = 65536;

/// Initial capacity a connection read buffer starts with.
pub const INITIAL_READ_CAPACITY: usize = 1024;

/// The error frame written when the read buffer exceeds the cap.
pub fn too_large_reply() -> (r: RedisType)
    ensures
        r@ == FrameModel::Error("Request too large".spec_bytes()),
{
    RedisType::SimpleError("Request too large".as_bytes_vec())
}

/// The frame written when a blocking pop's deadline passes with no push on
/// any of its keys: a null array.
pub fn blpop_timeout_reply() -> (r: RedisType)
    ensures
        r@ == FrameModel::NullArr,
{
    RedisType::NullArray
}

/// Draining one buffer: every complete frame in order is dispatched and its
/// reply encoded, until the bytes run out (`NeedMore`: nothing further is
/// consumed and nothing is dropped) or a blocking pop must wait. The result
/// is the final shard contents, the concatenated replies, and exactly how
/// many bytes were consumed.
pub open spec fn spec_process(
    shards: Seq<Map<Seq<u8>, ValueModel>>,
    n: int,
    s: Seq<u8>,
) -> (Seq<Map<Seq<u8>, ValueModel>>, Seq<u8>, int)
    decreases s.len(),
{
    match spec_parse(s) {
        Option::None => (shards, Seq::empty(), 0),
        Option::Some((f, c)) => if 1 <= c <= s.len() {
            match spec_session_step(shards, n, f) {
                Option::None => (shards, Seq::empty(), 0),
                Option::Some((sh2, reply)) => {
                    let rec = spec_process(sh2, n, s.skip(c));
                    (rec.0, spec_encode(reply) + rec.1, c + rec.2)
                },
            }
        } else {
            (shards, Seq::empty(), 0)
        },
    }
}

/// Incomplete input consumes nothing: when no complete frame is present the
/// session leaves the buffer, the store, and the output untouched.
pub proof fn lemma_need_more_consumes_nothing(
    shards: Seq<Map<Seq<u8>, ValueModel>>,
    n: int,
    s: Seq<u8>,
)
    requires
        spec_parse(s) is None,
    ensures
        spec_process(shards, n, s) == (shards, Seq::<u8>::empty(), 0int),
{
}

/// Pipelining: feeding the encodings of two requests back to back produces
/// exactly the two replies, in order, consuming exactly both encodings.
pub proof fn lemma_pipelining(
    shards: Seq<Map<Seq<u8>, ValueModel>>,
    n: int,
    a: FrameModel,
    b: FrameModel,
)
    requires
        crate::protocol::redis_serialization_protocol::wf_frame(a),
        crate::protocol::redis_serialization_protocol::wf_frame(b),
        spec_session_step(shards, n, a) is Some,
        spec_session_step((spec_session_step(shards, n, a)->0).0, n, b) is Some,
    ensures
        ({
            let (sh1, ra) = spec_session_step(shards, n, a)->0;
            let (sh2, rb) = spec_session_step(sh1, n, b)->0;
            spec_process(shards, n, spec_encode(a) + spec_encode(b)) == (
                sh2,
                spec_encode(ra) + spec_encode(rb),
                spec_encode(a).len() + spec_encode(b).len() as int,
            )
        }),
{
    let u = spec_encode(a) + spec_encode(b);
    let ea = spec_encode(a);
    let eb = spec_encode(b);
    crate::protocol::parser::lemma_parse_encode(a, eb);
    crate::protocol::parser::lemma_parse_consumed_bounds(u);
    assert(spec_parse(u) == Some((a, ea.len() as int)));
    let (sh1, ra) = spec_session_step(shards, n, a)->0;
    let (sh2, rb) = spec_session_step(sh1, n, b)->0;
    assert(u.skip(ea.len() as int) =~= eb);
    crate::protocol::parser::lemma_round_trip(b);
    crate::protocol::parser::lemma_parse_consumed_bounds(eb);
    assert(spec_parse(eb) == Some((b, eb.len() as int)));
    let rec2 = spec_process(sh2, n, eb.skip(eb.len() as int));
    assert(eb.skip(eb.len() as int) =~= Seq::<u8>::empty());
    assert(spec_parse(Seq::<u8>::empty()) is None);
    assert(rec2 == (sh2, Seq::<u8>::empty(), 0int));
    assert(spec_process(sh1, n, eb) == (sh2, spec_encode(rb), eb.len() as int)) by {
        assert(spec_encode(rb) + Seq::<u8>::empty() =~= spec_encode(rb));
    }
    assert(spec_process(shards, n, u) == (
        sh2,
        spec_encode(ra) + spec_encode(rb),
        ea.len() + eb.len() as int,
    ));
}

/// Drains every complete frame from the front of `input`: dispatches each
/// in order, appends the encoded replies in the same order, and reports
/// exactly how many bytes were consumed. Stops at incomplete input
/// (consuming none of it) or at a blocking pop, which is handed back with
/// the store unchanged so the runtime can wait and retry.
pub fn process_input(engine: &mut StorageEngine, input: &[u8]) -> (r: (
    Vec<u8>,
    usize,
    Option<BlockingLeftPopCommand>,
))
    requires
        old(engine).wf(),
    ensures
        final(engine).wf(),
        final(engine).shard_count() == old(engine).shard_count(),
        ({
            let rec = spec_process(
                old(engine).shards_view(),
                old(engine).shard_count(),
                input@,
            );
            &&& final(engine).shards_view() == rec.0
            &&& r.0@ == rec.1
            &&& r.1 as int == rec.2
            &&& r.1 <= input@.len()
        }),
        match r.2 {
            Some(cmd) => spec_parse(input@.skip(r.1 as int)) matches Some((f, c))
                && spec_session_step(
                final(engine).shards_view(),
                final(engine).shard_count(),
                f,
            ) is None && crate::command::blpop::spec_parse_blpop(f) == Ok::<_, Seq<u8>>(
                cmd.model(),
            ),
            None => spec_parse(input@.skip(r.1 as int)) is None,
        },
{
    let mut out: Vec<u8> = Vec::new();
    let mut consumed: usize = 0;
    let n = input.len();
    proof {
        assert(input@.skip(0) =~= input@);
    }
    loop
        invariant
            engine.wf(),
            engine.shard_count() == old(engine).shard_count(),
            consumed <= n,
            n == input@.len(),
            ({
                let rec_rest = spec_process(
                    engine.shards_view(),
                    engine.shard_count(),
                    input@.skip(consumed as int),
                );
                let rec = spec_process(
                    old(engine).shards_view(),
                    old(engine).shard_count(),
                    input@,
                );
                &&& rec.0 == rec_rest.0
                &&& rec.1 == out@ + rec_rest.1
                &&& rec.2 == consumed + rec_rest.2
            }),
        decreases n - consumed,
    {
        let rest = slice_subrange(input, consumed, n);
        match try_parse_frame(rest) {
            None => {
                return (out, consumed, None);
            },
            Some((frame, c)) => {
                match dispatch_and_execute(engine, &frame) {
                    DispatchOutcome::Reply(reply) => {
                        let ghost pre_out = out@;
                        reply.encode_into(&mut out);
                        proof {
                            assert(input@.skip(consumed as int).skip(c as int) =~= input@.skip(
                                consumed + c,
                            ));
                            assert(pre_out + (spec_encode(reply@) + spec_process(
                                engine.shards_view(),
                                engine.shard_count(),
                                input@.skip(consumed + c),
                            ).1) =~= out@ + spec_process(
                                engine.shards_view(),
                                engine.shard_count(),
                                input@.skip(consumed + c),
                            ).1);
                        }
                        consumed = consumed + c;
                    },
                    DispatchOutcome::Blocked(cmd) => {
                        return (out, consumed, Some(cmd));
                    },
                }
            },
        }
    }
}

} // verus!
