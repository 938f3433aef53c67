use std::marker::PhantomData;
use std::sync::Arc;

use vstd::prelude::*;

use crate::config::{Config, ConfigReady};
use crate::text::concat2;
use crate::{dashed, skw_get_queue_name};
use crate::prelude::consts::VERSION;

verus! {

#[verifier::external_type_specification]
#[verifier::external_body]
pub struct ExLapinConnection(lapin::Connection);

#[verifier::external_type_specification]
#[verifier::external_body]
pub struct ExLapinError(lapin::Error);

/// Errors of the RabbitMQ client.
#[derive(Debug)]
pub enum RabbitMqError {
    Custom(String),
    Lapin(lapin::Error),
}

/// The states of a RabbitMQ client: configured, then connected.
pub trait RabbitMqStates {}

#[derive(Debug, Clone)]
pub struct Loaded;

#[derive(Debug, Clone)]
pub struct Connected;

impl RabbitMqStates for Loaded {}

impl RabbitMqStates for Connected {}

/// A RabbitMQ client, in state `S`.
#[derive(Debug)]
pub struct RabbitMq<S: RabbitMqStates> {
    connection: Option<Arc<lapin::Connection>>,
    _state: PhantomData<S>,
}

impl<S: RabbitMqStates> RabbitMq<S> {
    pub closed spec fn connection_of(&self) -> Option<Arc<lapin::Connection>> {
        self.connection
    }

    /// A client that is not connected yet.
    pub fn new(_cfg: &Config<ConfigReady>) -> (r: RabbitMq<Loaded>)
        ensures
            r.connection_of() is None,
    {
        RabbitMq::<Loaded> { connection: None, _state: PhantomData }
    }
}

impl RabbitMq<Loaded> {
    /// The client once `connection` is open.
    pub fn connected(self, connection: Arc<lapin::Connection>) -> (r: RabbitMq<Connected>)
        ensures
            r.connection_of() == Some(connection),
    {
        RabbitMq::<Connected> { connection: Some(connection), _state: PhantomData }
    }
}

impl RabbitMq<Connected> {
    /// The connection.
    pub fn inner(&self) -> (r: Option<Arc<lapin::Connection>>)
        ensures
            r == self.connection_of(),
    {
        match &self.connection {
            Some(c) => Some(crate::sync::arc_clone(c)),
            None => None,
        }
    }
}

/// A queue to consume tasks from or publish them to.
#[derive(Debug, Clone, PartialEq, Eq)]
pub struct QueueConfig {
    pub name: String,
    pub durable: bool,
    pub prefetch_count: u16,
}

impl QueueConfig {
    /// The durable queue of this version named after `base`, with up to 10 unacknowledged
    /// deliveries.
    pub fn new(base: &str) -> (r: Self)
        ensures
            r.name@ == dashed(base@, VERSION@),
            r.durable,
            r.prefetch_count == 10,
    {
        Self { name: skw_get_queue_name(base), durable: true, prefetch_count: 10 }
    }

    /// The same queue with another limit of unacknowledged deliveries.
    pub fn prefetch(self, prefetch_count: u16) -> (r: Self)
        ensures
            r.name == self.name,
            r.durable == self.durable,
            r.prefetch_count == prefetch_count,
    {
        let mut q = self;
        q.prefetch_count = prefetch_count;
        q
    }
}

/// Outcome of processing one task; drives whether the delivery is acknowledged.
#[derive(Debug, Clone, Copy, PartialEq, Eq)]
pub enum TaskOutcome {
    Ack,
    /// `requeue: true` asks the broker to redeliver (retry); `false` drops the message
    /// (or routes it to a dead-letter exchange if one is configured).
    Nack { requeue: bool },
}

/// How a delivery is settled: a task that could not be read is nack'd with `requeue`, so
/// the broker redelivers it; otherwise as its handler decided.
pub open spec fn settle_spec(handled: Option<TaskOutcome>) -> TaskOutcome {
    match handled {
        Some(o) => o,
        None => TaskOutcome::Nack { requeue: true },
    }
}

/// How to settle a delivery, given the handler's outcome, or `None` where the payload did
/// not read as a task.
pub fn settle_delivery(handled: Option<TaskOutcome>) -> (r: TaskOutcome)
    ensures
        r == settle_spec(handled),
{
    match handled {
        Some(o) => o,
        None => TaskOutcome::Nack { requeue: true },
    }
}

/// The result of a publish, given whether the broker acknowledged it and how its
/// confirmation reads.
pub fn publish_confirmation(queue_name: &str, acked: bool, confirmation: &str) -> (r: Result<(), RabbitMqError>)
    ensures
        acked ==> r is Ok,
        !acked ==> (r matches Err(RabbitMqError::Custom(m)) && m@ == "broker did not confirm publish to "@
            + queue_name@ + ": "@ + confirmation@),
{
    if acked {
        Ok(())
    } else {
        let a = concat2("broker did not confirm publish to ", queue_name);
        let b = concat2(a.as_str(), ": ");
        let c = concat2(b.as_str(), confirmation);
        Err(RabbitMqError::Custom(c))
    }
}

impl From<lapin::Error> for RabbitMqError {
    fn from(e: lapin::Error) -> (r: RabbitMqError) {
        RabbitMqError::Lapin(e)
    }
}

impl vstd::std_specs::convert::FromSpecImpl<lapin::Error> for RabbitMqError {
    open spec fn obeys_from_spec() -> bool {
        true
    }

    open spec fn from_spec(e: lapin::Error) -> RabbitMqError {
        RabbitMqError::Lapin(e)
    }
}

impl<S: RabbitMqStates> Clone for RabbitMq<S> {
    /// Another handle to the same connection.
    fn clone(&self) -> (r: Self)
        ensures
            r.connection_of() == self.connection_of(),
    {
        RabbitMq {
            connection: match &self.connection {
                Some(c) => Some(crate::sync::arc_clone(c)),
                None => None,
            },
            _state: PhantomData,
        }
    }
}

/// A delivery whose task was read is settled exactly as its handler decided, an ack as an
/// ack and a nack with the requeue the handler asked for; one whose task could not be read
/// is nack'd with requeue.
pub proof fn lemma_settle_follows_handler(o: TaskOutcome)
    ensures
        settle_spec(Some(o)) == o,
        settle_spec(Some(TaskOutcome::Nack { requeue: false })) == (TaskOutcome::Nack { requeue: false }),
        settle_spec(None) == (TaskOutcome::Nack { requeue: true }),
{
}

} // verus!
