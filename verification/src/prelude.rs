//! What services built on this library use most, grouped as they use it.

pub use crate::{AppError, RequestId};

pub mod consts;
pub mod iggy_client;
pub mod jsonrpc;
pub mod migrations;
pub mod postgres;
pub mod rabbitmq;
pub mod redis_client;
pub mod tools;
