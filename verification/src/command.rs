//! The typed command model: each supported command parses itself out of a
//! RESP frame, executes against the storage engine, and renders its reply
//! frame. Dispatch is by the first bulk string of the request array,
//! matched without regard to ASCII case.

use crate::protocol::redis_serialization_protocol::{FrameModel, RedisType};
use crate::storage::ResponseModel;
use vstd::prelude::*;
use vstd::string::*;

pub mod blpop;
pub mod dispatch;
pub mod command_meta;
pub mod echo;
pub mod get;
pub mod llen;
pub mod lpop;
pub mod lpush;
pub mod lrange;
pub mod ping;
pub mod rpush;
pub mod set;

pub use blpop::BlockingLeftPopCommand;
pub use command_meta::CommandCommand;
pub use dispatch::{dispatch_and_execute, DispatchOutcome};
pub use echo::EchoCommand;
pub use get::GetCommand;
pub use llen::LLenCommand;
pub use lpop::LPopCommand;
pub use lpush::LPushCommand;
pub use lrange::LRange;
pub use ping::PingCommand;
pub use rpush::RPushCommand;
pub use set::SetCommand;

verus! {

/// A byte mapped to upper case when it is a lower-case ASCII letter.
pub open spec fn spec_ascii_upper(b: u8) -> u8 {
    if 97 <= b && b <= 122 {
        (b - 32) as u8
    } else {
        b
    }
}

/// A byte string mapped to ASCII upper case.
pub open spec fn spec_upper(s: Seq<u8>) -> Seq<u8> {
    Seq::new(s.len(), |i: int| spec_ascii_upper(s[i]))
}

/// ASCII-upper-cases a byte string.
pub fn ascii_uppercase(s: &[u8]) -> (r: Vec<u8>)
    ensures
        r@ == spec_upper(s@),
{
    let n = s.len();
    let mut out: Vec<u8> = Vec::new();
    let mut i: usize = 0;
    while i < n
        invariant
            i <= n,
            n == s@.len(),
            out@.len() == i,
            forall|j: int| 0 <= j < i ==> out@[j] == spec_ascii_upper(#[trigger] s@[j]),
        decreases n - i,
    {
        let b = s[i];
        if 97 <= b && b <= 122 {
            out.push(b - 32);
        } else {
            out.push(b);
        }
        i = i + 1;
    }
    proof {
        assert(out@ =~= spec_upper(s@));
    }
    out
}

/// A message of the shape `prefix + offending bytes + suffix`.
pub fn wrap_msg(prefix: &str, mid: &[u8], suffix: &str) -> (r: Vec<u8>)
    ensures
        r@ == prefix.spec_bytes() + mid@ + suffix.spec_bytes(),
{
    let mut v = prefix.as_bytes_vec();
    crate::protocol::parser::append_slice(&mut v, mid);
    let tail = suffix.as_bytes_vec();
    crate::protocol::parser::append_slice(&mut v, tail.as_slice());
    v
}

/// The error text for a request that is not a RESP array.
pub open spec fn msg_not_array() -> Seq<u8> {
    "Unsupported request, expected Array".spec_bytes()
}

/// The request's elements, when the request is an array.
pub fn expect_cmd_array(redis_type: &RedisType) -> (r: Result<&Vec<RedisType>, Vec<u8>>)
    ensures
        match r {
            Ok(els) => redis_type@ matches FrameModel::Arr(fs) && fs
                == crate::protocol::redis_serialization_protocol::frame_models(els@),
            Err(m) => !(redis_type@ is Arr) && m@ == msg_not_array(),
        },
{
    match redis_type {
        RedisType::Array(elements) => Ok(elements),
        _ => Err("Unsupported request, expected Array".as_bytes_vec()),
    }
}

/// Push arguments from `from` on: bulk strings are taken as they are, and
/// integers are written out in decimal; anything else is a parse error.
pub open spec fn spec_collect_values(els: Seq<FrameModel>, from: int) -> Result<Seq<Seq<u8>>, ()>
    decreases els.len() - from,
{
    if from >= els.len() {
        Ok(Seq::empty())
    } else {
        match els[from] {
            FrameModel::Bulk(v) => match spec_collect_values(els, from + 1) {
                Ok(rest) => Ok(seq![v] + rest),
                Err(e) => Err(e),
            },
            FrameModel::Int(i) => match spec_collect_values(els, from + 1) {
                Ok(rest) => Ok(seq![crate::numbers::dec_int(i)] + rest),
                Err(e) => Err(e),
            },
            _ => Err(()),
        }
    }
}

/// Collects push arguments, stringifying integer frames.
pub fn collect_values(elements: &Vec<RedisType>, from: usize) -> (r: Result<Vec<Vec<u8>>, ()>)
    requires
        from <= elements@.len(),
    ensures
        match r {
            Ok(vs) => spec_collect_values(
                crate::protocol::redis_serialization_protocol::frame_models(elements@),
                from as int,
            ) == Ok::<_, ()>(crate::storage::seq_views(vs@)),
            Err(_) => spec_collect_values(
                crate::protocol::redis_serialization_protocol::frame_models(elements@),
                from as int,
            ) is Err,
        },
    decreases elements@.len() - from,
{
    let ghost models = crate::protocol::redis_serialization_protocol::frame_models(elements@);
    proof {
        crate::protocol::redis_serialization_protocol::lemma_frame_models_index(elements@);
    }
    if from == elements.len() {
        let vs: Vec<Vec<u8>> = Vec::new();
        proof {
            assert(crate::storage::seq_views(vs@) =~= Seq::<Seq<u8>>::empty());
        }
        return Ok(vs);
    }
    let head: Vec<u8> = match &elements[from] {
        RedisType::BulkString(v) => vstd::slice::slice_to_vec(v.as_slice()),
        RedisType::Integer(i) => crate::numbers::i64_dec(*i),
        _ => {
            return Err(());
        },
    };
    match collect_values(elements, from + 1) {
        Ok(rest) => {
            let mut vs = rest;
            vs.insert(0, head);
            proof {
                assert(vs@.subrange(1, vs@.len() as int) =~= vs@.drop_first());
                assert(crate::storage::seq_views(vs@) =~= seq![vs@[0]@] + crate::storage::seq_views(
                    vs@.drop_first(),
                ));
                assert(crate::storage::seq_views(vs@.drop_first())
                    =~= spec_collect_values(models, from + 1)->Ok_0);
            }
            Ok(vs)
        },
        Err(e) => Err(e),
    }
}

/// A deep copy of a batch of byte strings.
pub fn clone_values(vs: &Vec<Vec<u8>>) -> (r: Vec<Vec<u8>>)
    ensures
        crate::storage::seq_views(r@) == crate::storage::seq_views(vs@),
{
    let n = vs.len();
    let mut out: Vec<Vec<u8>> = Vec::new();
    let mut i: usize = 0;
    while i < n
        invariant
            i <= n,
            n == vs@.len(),
            out@.len() == i,
            forall|j: int| 0 <= j < i ==> (#[trigger] out@[j])@ == vs@[j]@,
        decreases n - i,
    {
        out.push(vstd::slice::slice_to_vec(vs[i].as_slice()));
        i = i + 1;
    }
    proof {
        assert(crate::storage::seq_views(out@) =~= crate::storage::seq_views(vs@));
    }
    out
}

/// An integer reply for a list length, held to the signed 64-bit range.
pub open spec fn spec_int_reply(n: int) -> FrameModel {
    FrameModel::Int(
        if n <= i64::MAX {
            n
        } else {
            i64::MAX as int
        },
    )
}

/// A list length as a signed 64-bit reply value.
pub fn len_to_i64(n: usize) -> (r: i64)
    ensures
        spec_int_reply(n as int) == FrameModel::Int(r as int),
{
    if (n as u64) <= (i64::MAX as u64) {
        n as i64
    } else {
        i64::MAX
    }
}

/// The reply frame for a push response.
pub open spec fn spec_push_reply(resp: ResponseModel, unknown: Seq<u8>) -> FrameModel {
    match resp {
        ResponseModel::ListLengthV(n) => spec_int_reply(n),
        ResponseModel::FailedV(m) => FrameModel::Error(m),
        _ => FrameModel::Error(unknown),
    }
}

/// An array frame of bulk strings.
pub open spec fn spec_bulk_array(vs: Seq<Seq<u8>>) -> FrameModel {
    FrameModel::Arr(Seq::new(vs.len(), |i: int| FrameModel::Bulk(vs[i])))
}

/// Renders a batch of byte strings as an array of bulk strings.
pub fn bulk_array(values: Vec<Vec<u8>>) -> (r: RedisType)
    ensures
        r@ == spec_bulk_array(crate::storage::seq_views(values@)),
{
    let ghost vs = values@;
    let mut out: Vec<RedisType> = Vec::new();
    let mut i: usize = 0;
    let n = values.len();
    let mut rest = values;
    while i < n
        invariant
            i <= n,
            n == vs.len(),
            rest@.len() == n - i,
            forall|j: int| 0 <= j < n - i ==> (#[trigger] rest@[j])@ == vs[j + i]@,
            out@.len() == i,
            forall|j: int|
                0 <= j < i ==> ((#[trigger] out@[j]) matches RedisType::BulkString(b) && b@
                    == vs[j]@),
        decreases n - i,
    {
        let head = rest.remove(0);
        out.push(RedisType::BulkString(head));
        i = i + 1;
    }
    proof {
        crate::protocol::redis_serialization_protocol::lemma_frame_models_index(out@);
        assert forall|j: int| 0 <= j < out@.len() implies
            crate::protocol::redis_serialization_protocol::frame_models(out@)[j]
                == FrameModel::Bulk(vs[j]@) by {
            assert(crate::protocol::redis_serialization_protocol::frame_models(out@)[j]
                == crate::protocol::redis_serialization_protocol::frame_model(out@[j]));
        }
        assert(crate::protocol::redis_serialization_protocol::frame_models(out@) =~= Seq::new(
            crate::storage::seq_views(vs).len(),
            |i: int| FrameModel::Bulk(crate::storage::seq_views(vs)[i]),
        ));
    }
    RedisType::Array(out)
}

/// The upper-cased name of the command, when the request is an array whose
/// first element is a bulk string.
pub open spec fn spec_command_name(f: FrameModel) -> Option<Seq<u8>> {
    match f {
        FrameModel::Arr(els) => if els.len() > 0 {
            match els[0] {
                FrameModel::Bulk(name) => Option::Some(spec_upper(name)),
                _ => Option::None,
            }
        } else {
            Option::None
        },
        _ => Option::None,
    }
}

pub fn upper_first_bulk_string(redis_type: &RedisType) -> (r: Option<Vec<u8>>)
    ensures
        match r {
            Some(name) => spec_command_name(redis_type@) == Option::Some(name@),
            None => spec_command_name(redis_type@) is None,
        },
{
    match redis_type {
        RedisType::Array(elements) => {
            if elements.len() == 0 {
                return None;
            }
            proof {
                crate::protocol::redis_serialization_protocol::lemma_frame_models_index(
                    elements@,
                );
            }
            match &elements[0] {
                RedisType::BulkString(cmd) => Some(ascii_uppercase(cmd.as_slice())),
                _ => None,
            }
        },
        _ => None,
    }
}

} // verus!
