//! Dispatch: one parsed frame in, one reply out (or a pending blocking
//! pop). The specification `spec_session_step` is the denotation of one
//! request against the sharded store; the executable dispatcher is proved
//! to follow it, and the session layer builds pipelining on top of it.

use crate::command::blpop::{
    spec_blpop_immediate, spec_blpop_reply, spec_parse_blpop, BlockingLeftPopCommand,
};
use crate::command::command_meta::{spec_command_reply, CommandCommand};
use crate::command::echo::{spec_echo_reply, spec_parse_echo, EchoCommand};
use crate::command::get::{spec_get_reply, spec_parse_get, GetCommand};
use crate::command::llen::{spec_llen_reply, spec_parse_llen, LLenCommand};
use crate::command::lpop::{spec_lpop_reply, spec_parse_lpop, LPopCommand};
use crate::command::lpush::{spec_parse_lpush, LPushCommand};
use crate::command::lrange::{spec_lrange_reply, spec_parse_lrange, LRange};
use crate::command::ping::{spec_parse_ping, spec_ping_reply, PingCommand};
use crate::command::rpush::{spec_parse_rpush, RPushCommand};
use crate::command::set::{spec_parse_set, SetCommand};
use crate::command::{spec_command_name, spec_push_reply, upper_first_bulk_string};
use crate::protocol::redis_serialization_protocol::{FrameModel, RedisType};
use crate::storage::engine::{spec_shard_index, StorageEngine};
use crate::storage::get_storage::spec_get;
use crate::storage::list_left_pop_storage::spec_lpop;
use crate::storage::list_left_push_storage::spec_lpush;
use crate::storage::list_length_storage::spec_llen;
use crate::storage::list_range_storage::spec_lrange;
use crate::storage::list_right_push_storage::spec_rpush;
use crate::storage::ValueModel;
use vstd::prelude::*;
use vstd::string::*;

verus! {

/// The outcome of dispatching one frame: a reply to write, or a blocking
/// pop that found nothing and must wait for a push.
pub enum DispatchOutcome {
    Reply(RedisType),
    Blocked(BlockingLeftPopCommand),
}

pub open spec fn msg_bad_format() -> Seq<u8> {
    "Incorrect command type format".spec_bytes()
}

pub open spec fn msg_unknown_command(name: Seq<u8>) -> Seq<u8> {
    "Command type is not defined or unknown ".spec_bytes() + name
}

/// The command named by a request frame.
pub enum CommandKind {
    InvalidFrameKind,
    PingKind,
    EchoKind,
    CommandKind,
    SetKind,
    GetKind,
    RPushKind,
    LPushKind,
    LPopKind,
    LLenKind,
    LRangeKind,
    BlpopKind,
    UnknownKind,
    BadFormatKind,
}

/// Which command a frame names, by its upper-cased first bulk string.
pub open spec fn spec_kind(f: FrameModel) -> CommandKind {
    if f is Invalid {
        CommandKind::InvalidFrameKind
    } else {
        match spec_command_name(f) {
        Option::None => CommandKind::BadFormatKind,
        Option::Some(name) => if name == "PING".spec_bytes() {
            CommandKind::PingKind
        } else if name == "ECHO".spec_bytes() {
            CommandKind::EchoKind
        } else if name == "COMMAND".spec_bytes() {
            CommandKind::CommandKind
        } else if name == "SET".spec_bytes() {
            CommandKind::SetKind
        } else if name == "GET".spec_bytes() {
            CommandKind::GetKind
        } else if name == "RPUSH".spec_bytes() {
            CommandKind::RPushKind
        } else if name == "LPUSH".spec_bytes() {
            CommandKind::LPushKind
        } else if name == "LPOP".spec_bytes() {
            CommandKind::LPopKind
        } else if name == "LLEN".spec_bytes() {
            CommandKind::LLenKind
        } else if name == "LRANGE".spec_bytes() {
            CommandKind::LRangeKind
        } else if name == "BLPOP".spec_bytes() {
            CommandKind::BlpopKind
        } else {
            CommandKind::UnknownKind
        },
        }
    }
}

/// Reads the command kind off a frame.
pub fn command_kind(redis_type: &RedisType) -> (r: (CommandKind, Option<Vec<u8>>))
    ensures
        r.0 == spec_kind(redis_type@),
        match r.1 {
            Some(name) => spec_command_name(redis_type@) == Option::Some(name@),
            None => spec_command_name(redis_type@) is None,
        },
{
    if matches!(redis_type, RedisType::InvalidType(_)) {
        return (CommandKind::InvalidFrameKind, None);
    }
    let name = match upper_first_bulk_string(redis_type) {
        Some(n) => n,
        None => {
            return (CommandKind::BadFormatKind, None);
        },
    };
    let kind = {
        let s = name.as_slice();
        if crate::storage::bytes_eq(s, "PING".as_bytes()) {
            CommandKind::PingKind
        } else if crate::storage::bytes_eq(s, "ECHO".as_bytes()) {
            CommandKind::EchoKind
        } else if crate::storage::bytes_eq(s, "COMMAND".as_bytes()) {
            CommandKind::CommandKind
        } else if crate::storage::bytes_eq(s, "SET".as_bytes()) {
            CommandKind::SetKind
        } else if crate::storage::bytes_eq(s, "GET".as_bytes()) {
            CommandKind::GetKind
        } else if crate::storage::bytes_eq(s, "RPUSH".as_bytes()) {
            CommandKind::RPushKind
        } else if crate::storage::bytes_eq(s, "LPUSH".as_bytes()) {
            CommandKind::LPushKind
        } else if crate::storage::bytes_eq(s, "LPOP".as_bytes()) {
            CommandKind::LPopKind
        } else if crate::storage::bytes_eq(s, "LLEN".as_bytes()) {
            CommandKind::LLenKind
        } else if crate::storage::bytes_eq(s, "LRANGE".as_bytes()) {
            CommandKind::LRangeKind
        } else if crate::storage::bytes_eq(s, "BLPOP".as_bytes()) {
            CommandKind::BlpopKind
        } else {
            CommandKind::UnknownKind
        }
    };
    (kind, Some(name))
}

/// One request against the sharded store: the new shard contents and the
/// reply frame. `None` is a blocking pop that must wait.
pub open spec fn spec_session_step(
    shards: Seq<Map<Seq<u8>, ValueModel>>,
    n: int,
    f: FrameModel,
) -> Option<(Seq<Map<Seq<u8>, ValueModel>>, FrameModel)> {
    match spec_kind(f) {
        // A semantically invalid frame is echoed back as a simple error,
        // and the connection goes on.
        CommandKind::InvalidFrameKind => Option::Some((shards, FrameModel::Error(f->Invalid_0))),
        CommandKind::BadFormatKind => Option::Some((shards, FrameModel::Error(msg_bad_format()))),
        CommandKind::PingKind => {
            match spec_parse_ping(f) {
                Ok(m) => Option::Some((shards, spec_ping_reply(m))),
                Err(e) => Option::Some((shards, FrameModel::Error(e))),
            }
        },
        CommandKind::EchoKind => {
            match spec_parse_echo(f) {
                Ok(a) => Option::Some((shards, spec_echo_reply(a))),
                Err(e) => Option::Some((shards, FrameModel::Error(e))),
            }
        },
        CommandKind::CommandKind => Option::Some((shards, spec_command_reply())),
        CommandKind::SetKind => {
            match spec_parse_set(f) {
                Ok((k, v, _e)) => {
                    let idx = spec_shard_index(k, n);
                    Option::Some(
                        (
                            shards.update(idx, shards[idx].insert(k, ValueModel::StrV(v))),
                            FrameModel::Simple("OK".spec_bytes()),
                        ),
                    )
                },
                Err(e) => Option::Some((shards, FrameModel::Error(e))),
            }
        },
        CommandKind::GetKind => {
            match spec_parse_get(f) {
                Ok(k) => Option::Some(
                    (shards, spec_get_reply(spec_get(shards[spec_shard_index(k, n)], k))),
                ),
                Err(e) => Option::Some((shards, FrameModel::Error(e))),
            }
        },
        CommandKind::RPushKind => {
            match spec_parse_rpush(f) {
                Ok((k, vs)) => {
                    let idx = spec_shard_index(k, n);
                    let outcome = spec_rpush(shards[idx], k, vs);
                    Option::Some(
                        (
                            shards.update(idx, outcome.0),
                            spec_push_reply(
                                outcome.1,
                                "Unknown error occurred during RPUSH".spec_bytes(),
                            ),
                        ),
                    )
                },
                Err(e) => Option::Some((shards, FrameModel::Error(e))),
            }
        },
        CommandKind::LPushKind => {
            match spec_parse_lpush(f) {
                Ok((k, vs)) => {
                    let idx = spec_shard_index(k, n);
                    let outcome = spec_lpush(shards[idx], k, vs);
                    Option::Some(
                        (
                            shards.update(idx, outcome.0),
                            spec_push_reply(
                                outcome.1,
                                "Unknown error occurred during LPUSH".spec_bytes(),
                            ),
                        ),
                    )
                },
                Err(e) => Option::Some((shards, FrameModel::Error(e))),
            }
        },
        CommandKind::LPopKind => {
            match spec_parse_lpop(f) {
                Ok((k, count)) => {
                    let idx = spec_shard_index(k, n);
                    let outcome = spec_lpop(shards[idx], k, count);
                    Option::Some(
                        (shards.update(idx, outcome.0), spec_lpop_reply(outcome.1, count is Some)),
                    )
                },
                Err(e) => Option::Some((shards, FrameModel::Error(e))),
            }
        },
        CommandKind::LLenKind => {
            match spec_parse_llen(f) {
                Ok(k) => Option::Some(
                    (shards, spec_llen_reply(spec_llen(shards[spec_shard_index(k, n)], k))),
                ),
                Err(e) => Option::Some((shards, FrameModel::Error(e))),
            }
        },
        CommandKind::LRangeKind => {
            match spec_parse_lrange(f) {
                Ok((k, s, e)) => Option::Some(
                    (
                        shards,
                        spec_lrange_reply(spec_lrange(shards[spec_shard_index(k, n)], k, s, e)),
                    ),
                ),
                Err(e) => Option::Some((shards, FrameModel::Error(e))),
            }
        },
        CommandKind::BlpopKind => {
            match spec_parse_blpop(f) {
                Ok((keys, _t)) => match spec_blpop_immediate(shards, n, keys, 0) {
                    Option::None => Option::None,
                    Option::Some((w, resp)) => {
                        if resp is ValueFromListV {
                            let key = keys[w];
                            let idx = spec_shard_index(key, n);
                            Option::Some(
                                (
                                    shards.update(
                                        idx,
                                        crate::storage::list_left_blocking_pop_storage::spec_blpop_commit(
                                            shards[idx],
                                            key,
                                        ),
                                    ),
                                    spec_blpop_reply(resp),
                                ),
                            )
                        } else {
                            Option::Some((shards, spec_blpop_reply(resp)))
                        }
                    },
                },
                Err(e) => Option::Some((shards, FrameModel::Error(e))),
            }
        },
        CommandKind::UnknownKind => Option::Some(
            (shards, FrameModel::Error(msg_unknown_command(spec_command_name(f)->0))),
        ),
    }
}

/// What dispatching one frame guarantees: the engine followed
/// `spec_session_step`, and only a successful SET retimed an expiration.
pub open spec fn spec_dispatch_post(
    pre: StorageEngine,
    post: StorageEngine,
    f: FrameModel,
    r: DispatchOutcome,
) -> bool {
    &&& post.wf()
    &&& post.shard_count() == pre.shard_count()
    &&& match r {
        DispatchOutcome::Reply(reply) => spec_session_step(pre.shards_view(), pre.shard_count(), f)
            == Option::Some((post.shards_view(), reply@)),
        DispatchOutcome::Blocked(cmd) => spec_session_step(pre.shards_view(), pre.shard_count(), f)
            is None && post.shards_view() == pre.shards_view() && post.ttl_views()
            == pre.ttl_views() && spec_parse_blpop(f) == Ok::<_, Seq<u8>>(cmd.model()),
    }
    &&& if spec_kind(f) is SetKind && spec_parse_set(f) is Ok {
        ({
            let (k, _v, e) = spec_parse_set(f)->Ok_0;
            let idx = spec_shard_index(k, pre.shard_count());
            &&& forall|j: int|
                0 <= j < pre.shard_count() && j != idx ==> #[trigger] post.ttl_views()[j]
                    == pre.ttl_views()[j]
            &&& post.ttl_views()[idx] == (if e > 0 {
                pre.ttl_views()[idx].insert(k, e)
            } else {
                pre.ttl_views()[idx].remove(k)
            })
        })
    } else {
        post.ttl_views() == pre.ttl_views()
    }
}

fn step_ping(engine: &mut StorageEngine, redis_type: &RedisType) -> (r: DispatchOutcome)
    requires
        old(engine).wf(),
        spec_kind(redis_type@) is PingKind,
    ensures
        spec_dispatch_post(*old(engine), *final(engine), redis_type@, r),
{
    match PingCommand::parse(redis_type) {
        Ok(cmd) => DispatchOutcome::Reply(cmd.reply()),
        Err(m) => DispatchOutcome::Reply(RedisType::SimpleError(m)),
    }
}

fn step_echo(engine: &mut StorageEngine, redis_type: &RedisType) -> (r: DispatchOutcome)
    requires
        old(engine).wf(),
        spec_kind(redis_type@) is EchoKind,
    ensures
        spec_dispatch_post(*old(engine), *final(engine), redis_type@, r),
{
    match EchoCommand::parse(redis_type) {
        Ok(cmd) => DispatchOutcome::Reply(cmd.reply()),
        Err(m) => DispatchOutcome::Reply(RedisType::SimpleError(m)),
    }
}

fn step_command(engine: &mut StorageEngine, redis_type: &RedisType) -> (r: DispatchOutcome)
    requires
        old(engine).wf(),
        spec_kind(redis_type@) is CommandKind,
    ensures
        spec_dispatch_post(*old(engine), *final(engine), redis_type@, r),
{
    match CommandCommand::parse(redis_type) {
        Ok(cmd) => DispatchOutcome::Reply(cmd.reply()),
        Err(m) => DispatchOutcome::Reply(RedisType::SimpleError(m)),
    }
}

fn step_set(engine: &mut StorageEngine, redis_type: &RedisType) -> (r: DispatchOutcome)
    requires
        old(engine).wf(),
        spec_kind(redis_type@) is SetKind,
    ensures
        spec_dispatch_post(*old(engine), *final(engine), redis_type@, r),
{
    proof {
        old(engine).lemma_wf_shard_count();
    }
    match SetCommand::parse(redis_type) {
        Ok(cmd) => {
            let (reply, _effects) = cmd.execute(engine);
            proof {
                let idx = spec_shard_index(cmd.key@, old(engine).shard_count());
                assert(engine.shards_view() =~= old(engine).shards_view().update(
                    idx,
                    old(engine).shards_view()[idx].insert(cmd.key@, ValueModel::StrV(cmd.value@)),
                ));
            }
            DispatchOutcome::Reply(reply)
        },
        Err(m) => DispatchOutcome::Reply(RedisType::SimpleError(m)),
    }
}

fn step_get(engine: &mut StorageEngine, redis_type: &RedisType) -> (r: DispatchOutcome)
    requires
        old(engine).wf(),
        spec_kind(redis_type@) is GetKind,
    ensures
        spec_dispatch_post(*old(engine), *final(engine), redis_type@, r),
{
    proof {
        old(engine).lemma_wf_shard_count();
    }
    match GetCommand::parse(redis_type) {
        Ok(cmd) => DispatchOutcome::Reply(cmd.execute(engine)),
        Err(m) => DispatchOutcome::Reply(RedisType::SimpleError(m)),
    }
}

fn step_rpush(engine: &mut StorageEngine, redis_type: &RedisType) -> (r: DispatchOutcome)
    requires
        old(engine).wf(),
        spec_kind(redis_type@) is RPushKind,
    ensures
        spec_dispatch_post(*old(engine), *final(engine), redis_type@, r),
{
    proof {
        old(engine).lemma_wf_shard_count();
    }
    match RPushCommand::parse(redis_type) {
        Ok(cmd) => {
            let (reply, _effects) = cmd.execute(engine);
            proof {
                let idx = spec_shard_index(cmd.key@, old(engine).shard_count());
                assert(engine.shards_view() =~= old(engine).shards_view().update(
                    idx,
                    spec_rpush(
                        old(engine).shards_view()[idx],
                        cmd.key@,
                        crate::storage::seq_views(cmd.values@),
                    ).0,
                ));
            }
            DispatchOutcome::Reply(reply)
        },
        Err(m) => DispatchOutcome::Reply(RedisType::SimpleError(m)),
    }
}

fn step_lpush(engine: &mut StorageEngine, redis_type: &RedisType) -> (r: DispatchOutcome)
    requires
        old(engine).wf(),
        spec_kind(redis_type@) is LPushKind,
    ensures
        spec_dispatch_post(*old(engine), *final(engine), redis_type@, r),
{
    proof {
        old(engine).lemma_wf_shard_count();
    }
    match LPushCommand::parse(redis_type) {
        Ok(cmd) => {
            let (reply, _effects) = cmd.execute(engine);
            proof {
                let idx = spec_shard_index(cmd.key@, old(engine).shard_count());
                assert(engine.shards_view() =~= old(engine).shards_view().update(
                    idx,
                    spec_lpush(
                        old(engine).shards_view()[idx],
                        cmd.key@,
                        crate::storage::seq_views(cmd.values@),
                    ).0,
                ));
            }
            DispatchOutcome::Reply(reply)
        },
        Err(m) => DispatchOutcome::Reply(RedisType::SimpleError(m)),
    }
}

fn step_lpop(engine: &mut StorageEngine, redis_type: &RedisType) -> (r: DispatchOutcome)
    requires
        old(engine).wf(),
        spec_kind(redis_type@) is LPopKind,
    ensures
        spec_dispatch_post(*old(engine), *final(engine), redis_type@, r),
{
    proof {
        old(engine).lemma_wf_shard_count();
    }
    match LPopCommand::parse(redis_type) {
        Ok(cmd) => {
            let reply = cmd.execute(engine);
            proof {
                let idx = spec_shard_index(cmd.key@, old(engine).shard_count());
                assert(engine.shards_view() =~= old(engine).shards_view().update(
                    idx,
                    spec_lpop(old(engine).shards_view()[idx], cmd.key@, cmd.model().1).0,
                ));
            }
            DispatchOutcome::Reply(reply)
        },
        Err(m) => DispatchOutcome::Reply(RedisType::SimpleError(m)),
    }
}

fn step_llen(engine: &mut StorageEngine, redis_type: &RedisType) -> (r: DispatchOutcome)
    requires
        old(engine).wf(),
        spec_kind(redis_type@) is LLenKind,
    ensures
        spec_dispatch_post(*old(engine), *final(engine), redis_type@, r),
{
    proof {
        old(engine).lemma_wf_shard_count();
    }
    match LLenCommand::parse(redis_type) {
        Ok(cmd) => DispatchOutcome::Reply(cmd.execute(engine)),
        Err(m) => DispatchOutcome::Reply(RedisType::SimpleError(m)),
    }
}

fn step_lrange(engine: &mut StorageEngine, redis_type: &RedisType) -> (r: DispatchOutcome)
    requires
        old(engine).wf(),
        spec_kind(redis_type@) is LRangeKind,
    ensures
        spec_dispatch_post(*old(engine), *final(engine), redis_type@, r),
{
    proof {
        old(engine).lemma_wf_shard_count();
    }
    match LRange::parse(redis_type) {
        Ok(cmd) => DispatchOutcome::Reply(cmd.execute(engine)),
        Err(m) => DispatchOutcome::Reply(RedisType::SimpleError(m)),
    }
}

fn step_blpop(engine: &mut StorageEngine, redis_type: &RedisType) -> (r: DispatchOutcome)
    requires
        old(engine).wf(),
        spec_kind(redis_type@) is BlpopKind,
    ensures
        spec_dispatch_post(*old(engine), *final(engine), redis_type@, r),
{
    proof {
        old(engine).lemma_wf_shard_count();
    }
    match BlockingLeftPopCommand::parse(redis_type) {
        Ok(cmd) => {
            match cmd.try_immediate(engine) {
                Some(reply) => {
                    proof {
                        let keys = crate::storage::seq_views(cmd.keys@);
                        let outcome = spec_blpop_immediate(
                            old(engine).shards_view(),
                            old(engine).shard_count(),
                            keys,
                            0,
                        );
                        match outcome {
                            Option::Some((w, resp)) => {
                                if !(resp is ValueFromListV) {
                                    assert(engine.shards_view() == old(engine).shards_view());
                                }
                            },
                            Option::None => {},
                        }
                    }
                    DispatchOutcome::Reply(reply)
                },
                None => DispatchOutcome::Blocked(cmd),
            }
        },
        Err(m) => DispatchOutcome::Reply(RedisType::SimpleError(m)),
    }
}

/// Dispatches one frame: parses the named command, runs it on the engine,
/// and renders the reply, all per `spec_session_step`. A blocking pop with
/// nothing to take comes back as `Blocked` with the engine untouched.
pub fn dispatch_and_execute(engine: &mut StorageEngine, redis_type: &RedisType) -> (r:
    DispatchOutcome)
    requires
        old(engine).wf(),
    ensures
        spec_dispatch_post(*old(engine), *final(engine), redis_type@, r),
{
    let (kind, name) = command_kind(redis_type);
    match kind {
        CommandKind::InvalidFrameKind => {
            let reason: Vec<u8> = match redis_type {
                RedisType::InvalidType(m) => vstd::slice::slice_to_vec(m.as_slice()),
                _ => Vec::new(),
            };
            DispatchOutcome::Reply(RedisType::SimpleError(reason))
        },
        CommandKind::BadFormatKind => DispatchOutcome::Reply(
            RedisType::SimpleError("Incorrect command type format".as_bytes_vec()),
        ),
        CommandKind::PingKind => step_ping(engine, redis_type),
        CommandKind::EchoKind => step_echo(engine, redis_type),
        CommandKind::CommandKind => step_command(engine, redis_type),
        CommandKind::SetKind => step_set(engine, redis_type),
        CommandKind::GetKind => step_get(engine, redis_type),
        CommandKind::RPushKind => step_rpush(engine, redis_type),
        CommandKind::LPushKind => step_lpush(engine, redis_type),
        CommandKind::LPopKind => step_lpop(engine, redis_type),
        CommandKind::LLenKind => step_llen(engine, redis_type),
        CommandKind::LRangeKind => step_lrange(engine, redis_type),
        CommandKind::BlpopKind => {
            step_blpop(engine, redis_type)
        },
        CommandKind::UnknownKind => {
            let name_bytes = match name {
                Some(n) => n,
                None => Vec::new(),
            };
            let msg = crate::protocol::parser::msg_with_content(
                "Command type is not defined or unknown ",
                name_bytes.as_slice(),
            );
            DispatchOutcome::Reply(RedisType::SimpleError(msg))
        },
    }
}

} // verus!
