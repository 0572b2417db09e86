//! ECHO: replies its single bulk-string argument unchanged.

use crate::command::expect_cmd_array;
use crate::protocol::redis_serialization_protocol::{FrameModel, RedisType};
use vstd::prelude::*;
use vstd::string::*;

verus! {

pub struct EchoCommand {
    pub argument: Vec<u8>,
}

/// What ECHO parsing accepts: exactly one bulk-string argument.
pub open spec fn spec_parse_echo(f: FrameModel) -> Result<Seq<u8>, Seq<u8>> {
    match f {
        FrameModel::Arr(els) => if els.len() != 2 {
            Err("No argument for ECHO command".spec_bytes())
        } else {
            match els[1] {
                FrameModel::Bulk(a) => Ok(a),
                _ => Err("ECHO argument is not a BulkString".spec_bytes()),
            }
        },
        _ => Err(crate::command::msg_not_array()),
    }
}

/// The ECHO reply: the argument as a bulk string.
pub open spec fn spec_echo_reply(argument: Seq<u8>) -> FrameModel {
    FrameModel::Bulk(argument)
}

impl EchoCommand {
    pub fn parse(redis_type: &RedisType) -> (r: Result<EchoCommand, Vec<u8>>)
        ensures
            match r {
                Ok(cmd) => spec_parse_echo(redis_type@) == Ok::<_, Seq<u8>>(cmd.argument@),
                Err(m) => spec_parse_echo(redis_type@) == Err::<Seq<u8>, _>(m@),
            },
    {
        let elements = match expect_cmd_array(redis_type) {
            Ok(els) => els,
            Err(m) => {
                return Err(m);
            },
        };
        proof {
            crate::protocol::redis_serialization_protocol::lemma_frame_models_index(elements@);
        }
        if elements.len() != 2 {
            return Err("No argument for ECHO command".as_bytes_vec());
        }
        match &elements[1] {
            RedisType::BulkString(arg) => Ok(
                EchoCommand { argument: vstd::slice::slice_to_vec(arg.as_slice()) },
            ),
            _ => Err("ECHO argument is not a BulkString".as_bytes_vec()),
        }
    }

    /// The reply frame, with no storage involved.
    pub fn reply(&self) -> (r: RedisType)
        ensures
            r@ == spec_echo_reply(self.argument@),
    {
        RedisType::BulkString(vstd::slice::slice_to_vec(self.argument.as_slice()))
    }
}

} // verus!
