//! PING: replies `PONG`, or echoes its single bulk-string argument.

use crate::command::expect_cmd_array;
use crate::protocol::redis_serialization_protocol::{FrameModel, RedisType};
use vstd::prelude::*;
use vstd::string::*;

verus! {

pub struct PingCommand {
    pub argument: Option<Vec<u8>>,
}

/// What PING parsing accepts: no argument, or one bulk string.
pub open spec fn spec_parse_ping(f: FrameModel) -> Result<Option<Seq<u8>>, Seq<u8>> {
    match f {
        FrameModel::Arr(els) => if els.len() == 1 {
            Ok(Option::None)
        } else if els.len() == 2 {
            match els[1] {
                FrameModel::Bulk(a) => Ok(Option::Some(a)),
                _ => Err("PING argument should be BulkString".spec_bytes()),
            }
        } else {
            Err("Incorrect number of arguments for PING command".spec_bytes())
        },
        _ => Err(crate::command::msg_not_array()),
    }
}

/// The PING reply: `PONG`, or the argument as a bulk string.
pub open spec fn spec_ping_reply(argument: Option<Seq<u8>>) -> FrameModel {
    match argument {
        Option::Some(a) => FrameModel::Bulk(a),
        Option::None => FrameModel::Simple("PONG".spec_bytes()),
    }
}

impl PingCommand {
    pub open spec fn model(&self) -> Option<Seq<u8>> {
        match self.argument {
            Option::Some(a) => Option::Some(a@),
            Option::None => Option::None,
        }
    }

    pub fn parse(redis_type: &RedisType) -> (r: Result<PingCommand, Vec<u8>>)
        ensures
            match r {
                Ok(cmd) => spec_parse_ping(redis_type@) == Ok::<_, Seq<u8>>(cmd.model()),
                Err(m) => spec_parse_ping(redis_type@) == Err::<Option<Seq<u8>>, _>(m@),
            },
    {
        let elements = match expect_cmd_array(redis_type) {
            Ok(els) => els,
            Err(m) => {
                return Err(m);
            },
        };
        proof {
            crate::protocol::redis_serialization_protocol::lemma_frame_models_index(elements@);
        }
        if elements.len() == 1 {
            Ok(PingCommand { argument: None })
        } else if elements.len() == 2 {
            match &elements[1] {
                RedisType::BulkString(arg) => Ok(
                    PingCommand { argument: Some(vstd::slice::slice_to_vec(arg.as_slice())) },
                ),
                _ => Err("PING argument should be BulkString".as_bytes_vec()),
            }
        } else {
            Err("Incorrect number of arguments for PING command".as_bytes_vec())
        }
    }

    /// The reply frame, with no storage involved.
    pub fn reply(&self) -> (r: RedisType)
        ensures
            r@ == spec_ping_reply(self.model()),
    {
        match &self.argument {
            Some(arg) => RedisType::BulkString(vstd::slice::slice_to_vec(arg.as_slice())),
            None => RedisType::SimpleString("PONG".as_bytes_vec()),
        }
    }
}

} // verus!
