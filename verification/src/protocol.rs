pub mod parser;
pub mod redis_serialization_protocol;
