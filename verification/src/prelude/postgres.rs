//! The PostgreSQL pools.

pub use crate::postgres::{Connected as PostgresConnected, PostgresError, PostgresPools};
