//! A multiplexed, reconnecting packet transport, written so that every
//! decision it takes is a verified function from state and event to next
//! state and action. The surrounding program performs the I/O.

pub mod codegen;
pub mod config;
pub mod framer;
pub mod handler;
pub mod packet;
pub mod plain;
pub mod protobuf;
pub mod reconnect;
pub mod stream;
pub mod task;
