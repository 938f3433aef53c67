//! RabbitMQ queues and how their deliveries are settled.

pub use crate::rabbitmq::{QueueConfig, RabbitMqError, TaskOutcome};
