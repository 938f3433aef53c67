//! The Redis client.

pub use crate::redis_client::{Redis, RedisError};
