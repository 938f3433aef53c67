//! What a migration run is asked to do.

pub use crate::migrations::{action_from_arg, Action};
