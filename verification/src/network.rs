pub mod connection_handler;
pub mod dispatcher;
