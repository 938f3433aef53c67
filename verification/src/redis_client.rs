use std::marker::PhantomData;

use vstd::prelude::*;


use crate::config::{Config, ConfigReady};

verus! {

#[verifier::external_type_specification]
#[verifier::external_body]
pub struct ExRedisConnectionManager(redis::aio::ConnectionManager);

/// `Clone` of a redis connection manager, derived over the `Arc` of its internals: another
/// handle to the same managed connection. The contract claims that it stands for the same
/// value.
pub assume_specification[ <redis::aio::ConnectionManager as Clone>::clone ](
    c: &redis::aio::ConnectionManager,
) -> (r: redis::aio::ConnectionManager)
    ensures
        r == *c,
;

/// Errors of the Redis client.
#[derive(Debug)]
pub enum RedisError {
    Custom(String),
    /// An error of the Redis client, by its message.
    Redis(String),
}

/// The states of a Redis client: configured, then connected.
pub trait RedisStates {}

#[derive(Debug, Clone)]
pub struct Loaded;

#[derive(Debug, Clone)]
pub struct Connected;

impl RedisStates for Loaded {}

impl RedisStates for Connected {}

/// A Redis client, in state `S`.
#[derive(Debug)]
pub struct Redis<S: RedisStates> {
    connection: Option<redis::aio::ConnectionManager>,
    _state: PhantomData<S>,
}

impl<S: RedisStates> Redis<S> {
    /// The connection manager the client holds, once connected.
    pub closed spec fn connection_of(&self) -> Option<redis::aio::ConnectionManager> {
        self.connection
    }

    /// A client that is not connected yet.
    pub fn new(_cfg: &Config<ConfigReady>) -> (r: Redis<Loaded>)
        ensures
            r.connection_of() is None,
    {
        Redis::<Loaded> { connection: None, _state: PhantomData }
    }
}

impl Redis<Loaded> {
    /// The client once `manager` manages its connection.
    pub fn connected(self, manager: redis::aio::ConnectionManager) -> (r: Redis<Connected>)
        ensures
            r.connection_of() == Some(manager),
    {
        Redis::<Connected> { connection: Some(manager), _state: PhantomData }
    }
}

impl Redis<Connected> {
    /// A handle to the managed connection.
    pub fn inner(&self) -> (r: Option<redis::aio::ConnectionManager>)
        ensures
            r == self.connection_of(),
    {
        match &self.connection {
            Some(c) => Some(c.clone()),
            None => None,
        }
    }
}

impl<S: RedisStates> Clone for Redis<S> {
    /// Another handle to the same managed connection.
    fn clone(&self) -> (r: Self)
        ensures
            r.connection_of() == self.connection_of(),
    {
        Redis {
            connection: match &self.connection {
                Some(c) => Some(c.clone()),
                None => None,
            },
            _state: PhantomData,
        }
    }
}

} // verus!
