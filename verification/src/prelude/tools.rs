//! Naming of streams, topics, consumers and queues.

pub use crate::{
    skw_get_back_topic_name, skw_get_consumer_name, skw_get_queue_name, skw_get_stream_name, skw_get_stream_topic_name,
    skw_is_valid_name,
};
