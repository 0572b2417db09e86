//! COMMAND: replies an empty array; every request form is accepted.

use crate::protocol::redis_serialization_protocol::{FrameModel, RedisType};
use vstd::prelude::*;

verus! {

pub struct CommandCommand;

/// The COMMAND reply: an empty array.
pub open spec fn spec_command_reply() -> FrameModel {
    FrameModel::Arr(Seq::empty())
}

impl CommandCommand {
    pub fn parse(_redis_type: &RedisType) -> (r: Result<CommandCommand, Vec<u8>>)
        ensures
            r is Ok,
    {
        Ok(CommandCommand)
    }

    /// The reply frame, with no storage involved.
    pub fn reply(&self) -> (r: RedisType)
        ensures
            r@ == spec_command_reply(),
    {
        let elements: Vec<RedisType> = Vec::new();
        proof {
            assert(crate::protocol::redis_serialization_protocol::frame_models(elements@)
                =~= Seq::<FrameModel>::empty());
        }
        RedisType::Array(elements)
    }
}

} // verus!
