//! Topics and the request/answer messages of the Iggy consumers.

pub use crate::iggy_client::rpc::{RpcMessageTrait, RpcRequestMeta};
pub use crate::iggy_client::TopicConfig;
