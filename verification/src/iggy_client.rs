use std::marker::PhantomData;
use std::sync::Arc;

use vstd::prelude::*;


use crate::config::{Config, ConfigReady};
use crate::json::{field_of, str_of, u64_of, JsonValue};
use crate::text::owned;
use crate::AppError;

pub mod rpc;

verus! {

#[verifier::external_type_specification]
#[verifier::external_body]
pub struct ExIggyClient(iggy::prelude::IggyClient);

/// Errors of the Iggy client.
#[derive(Debug)]
pub enum IggyError {
    Custom(String),
    /// An error of the Iggy SDK, by its message.
    Iggy(String),
}

/// The states of an Iggy client: configured, then connected.
pub trait IggyStates {}

#[derive(Debug, Clone)]
pub struct Loaded;

#[derive(Debug, Clone)]
pub struct Connected;

impl IggyStates for Loaded {}

impl IggyStates for Connected {}

/// An Iggy client, in state `S`.
#[derive(Debug)]
pub struct Iggy<S: IggyStates> {
    client: Option<Arc<iggy::prelude::IggyClient>>,
    _state: PhantomData<S>,
}

impl<S: IggyStates> Iggy<S> {
    pub closed spec fn client_of(&self) -> Option<Arc<iggy::prelude::IggyClient>> {
        self.client
    }

    /// A client that is not connected yet.
    pub fn new(_cfg: &Config<ConfigReady>) -> (r: Iggy<Loaded>)
        ensures
            r.client_of() is None,
    {
        Iggy::<Loaded> { client: None, _state: PhantomData }
    }
}

impl Iggy<Loaded> {
    /// The client once `client` is connected.
    pub fn connected(self, client: Arc<iggy::prelude::IggyClient>) -> (r: Iggy<Connected>)
        ensures
            r.client_of() == Some(client),
    {
        Iggy::<Connected> { client: Some(client), _state: PhantomData }
    }
}

impl Iggy<Connected> {
    /// The connected client.
    pub fn inner(&self) -> (r: Option<Arc<iggy::prelude::IggyClient>>)
        ensures
            r == self.client_of(),
    {
        match &self.client {
            Some(c) => Some(crate::sync::arc_clone(c)),
            None => None,
        }
    }
}

/// How a topic's messages are compressed.
#[derive(Debug, Clone, Copy, PartialEq, Eq)]
pub enum Compression {
    NoCompression,
    Gzip,
}

/// How long a topic keeps its messages.
#[derive(Debug, Clone, Copy, PartialEq, Eq)]
pub enum TopicExpiry {
    ServerDefault,
    ExpireDuration { secs: u64 },
    NeverExpire,
}

/// How much a topic may hold.
#[derive(Debug, Clone, Copy, PartialEq, Eq)]
pub enum TopicSize {
    ServerDefault,
    Custom(u64),
    Unlimited,
}

/// The settings of a topic to create.
#[derive(Debug, Clone, PartialEq, Eq)]
pub struct TopicConfig {
    pub custom_name: Option<String>,
    pub partitions_count: u32,
    pub compression_algorithm: Compression,
    pub message_expiry: TopicExpiry,
    pub max_topic_size: TopicSize,
}

pub open spec fn ascii_lower_seq(s: Seq<char>) -> Seq<char> {
    s.map_values(|c: char| crate::ascii_lower(c))
}

/// What a text names as compression: gzip for `gzip`, none for `none`, case aside; nothing
/// for any other text.
pub open spec fn compression_of_text(s: Seq<char>) -> Option<Compression> {
    if ascii_lower_seq(s) == seq!['g', 'z', 'i', 'p'] {
        Some(Compression::Gzip)
    } else if ascii_lower_seq(s) == seq!['n', 'o', 'n', 'e'] {
        Some(Compression::NoCompression)
    } else {
        None
    }
}

/// `CompressionAlgorithm::from_str` of iggy. The contract claims what its source shows: it
/// lower-cases the text and reads `gzip` as gzip and `none` as none, anything else as an
/// error. No text other than an ASCII one lower-cases to either word (the characters that
/// lower-case to ASCII letters are the ASCII capitals and the Kelvin sign, which becomes `k`),
/// so ASCII case is the only case that matters.
#[verifier::external_body]
fn compression_from_str(s: &str) -> (r: Option<Compression>)
    ensures
        r == compression_of_text(s@),
{
    match s.parse::<iggy::prelude::CompressionAlgorithm>() {
        Ok(iggy::prelude::CompressionAlgorithm::None) => Some(Compression::NoCompression),
        Ok(iggy::prelude::CompressionAlgorithm::Gzip) => Some(Compression::Gzip),
        Err(_) => None,
    }
}

/// What a size in bytes means for a topic: 0 is the server's default, `u64::MAX` no limit.
pub open spec fn topic_size_of(value: u64) -> TopicSize {
    if value == 0 {
        TopicSize::ServerDefault
    } else if value == u64::MAX {
        TopicSize::Unlimited
    } else {
        TopicSize::Custom(value)
    }
}

/// `MaxTopicSize::from(u64)` of iggy, read back: the contract claims what its source
/// shows, 0 for the server's default, `u64::MAX` for no limit, else that many bytes.
#[verifier::external_body]
fn topic_size_from(value: u64) -> (r: TopicSize)
    ensures
        r == topic_size_of(value),
{
    match iggy::prelude::MaxTopicSize::from(value) {
        iggy::prelude::MaxTopicSize::ServerDefault => TopicSize::ServerDefault,
        iggy::prelude::MaxTopicSize::Custom(b) => TopicSize::Custom(b.as_bytes_u64()),
        iggy::prelude::MaxTopicSize::Unlimited => TopicSize::Unlimited,
    }
}

/// A topic configuration can be read from `v` without failing: where `v` is an object,
/// its `messageExpiry` is a non-negative integer.
pub open spec fn topic_config_readable(v: JsonValue) -> bool {
    v is Object ==> match field_of(v, seq!['m', 'e', 's', 's', 'a', 'g', 'e', 'E', 'x', 'p', 'i', 'r', 'y']) {
        Some(e) => u64_of(e) is Some,
        None => false,
    }
}

/// The integer under `key`, if there is one.
pub open spec fn u64_field(v: JsonValue, key: Seq<char>) -> Option<u64> {
    match field_of(v, key) {
        Some(x) => u64_of(x),
        None => None,
    }
}

/// The string under `key`, if there is one.
pub open spec fn str_field(v: JsonValue, key: Seq<char>) -> Option<Seq<char>> {
    match field_of(v, key) {
        Some(x) => str_of(x),
        None => None,
    }
}

pub open spec fn custom_name_key() -> Seq<char> {
    seq!['c', 'u', 's', 't', 'o', 'm', 'N', 'a', 'm', 'e']
}

pub open spec fn partitions_key() -> Seq<char> {
    seq!['p', 'a', 'r', 't', 'i', 't', 'i', 'o', 'n', 's', 'C', 'o', 'u', 'n', 't']
}

pub open spec fn compression_key() -> Seq<char> {
    seq!['c', 'o', 'm', 'p', 'r', 'e', 's', 's', 'i', 'o', 'n', 'A', 'l', 'g', 'o', 'r', 'i', 't', 'h', 'm']
}

pub open spec fn expiry_key() -> Seq<char> {
    seq!['m', 'e', 's', 's', 'a', 'g', 'e', 'E', 'x', 'p', 'i', 'r', 'y']
}

pub open spec fn max_size_key() -> Seq<char> {
    seq!['m', 'a', 'x', 'T', 'o', 'p', 'i', 'c', 'S', 'i', 'z', 'e']
}

/// The topic configuration that a JSON object describes.
pub open spec fn topic_config_matches(v: JsonValue, t: TopicConfig) -> bool {
    &&& match str_field(v, custom_name_key()) {
        Some(n) => if n.len() > 0 {
            t.custom_name matches Some(c) && c@ == n
        } else {
            t.custom_name is None
        },
        None => t.custom_name is None,
    }
    &&& t.partitions_count as int == (match u64_field(v, partitions_key()) {
        Some(n) => n as int,
        None => 0,
    }) % 0x1_0000_0000
    &&& t.compression_algorithm == (match str_field(v, compression_key()) {
        Some(s) => match compression_of_text(s) {
            Some(c) => c,
            None => Compression::NoCompression,
        },
        None => Compression::NoCompression,
    })
    &&& t.message_expiry == TopicExpiry::ExpireDuration { secs: u64_field(v, expiry_key())->Some_0 }
    &&& t.max_topic_size == topic_size_of(
        match u64_field(v, max_size_key()) {
            Some(n) => n,
            None => 0,
        },
    )
}

impl TopicConfig {
    /// The topic configuration that the JSON object `v` describes: `customName` (where a
    /// non-empty string), `partitionsCount` (0 where absent, cut to 32 bits),
    /// `compressionAlgorithm` (none where absent or unknown), `messageExpiry` in seconds,
    /// and `maxTopicSize` in bytes (the server's default where absent). A value that is
    /// not an object is refused with "invalid topic config".
    pub fn try_from_value(v: &JsonValue) -> (r: Result<TopicConfig, AppError>)
        requires
            topic_config_readable(*v),
        ensures
            match r {
                Ok(t) => v is Object && topic_config_matches(*v, t),
                Err(e) => !(v is Object) && (e matches AppError::Custom(m) && m@ == "invalid topic config"@),
            },
    {
        match v {
            JsonValue::Object(_) => {},
            _ => {
                return Err(AppError::Custom(owned("invalid topic config")));
            },
        }
        proof {
            reveal_strlit("customName");
            reveal_strlit("partitionsCount");
            reveal_strlit("compressionAlgorithm");
            reveal_strlit("messageExpiry");
            reveal_strlit("maxTopicSize");
            assert("customName"@ =~= custom_name_key());
            assert("partitionsCount"@ =~= partitions_key());
            assert("compressionAlgorithm"@ =~= compression_key());
            assert("messageExpiry"@ =~= expiry_key());
            assert("maxTopicSize"@ =~= max_size_key());
        }
        let custom_name = match v.get("customName") {
            Some(x) => match x.as_str() {
                Some(s) => if !s.is_empty() {
                    Some(owned(s))
                } else {
                    None
                },
                None => None,
            },
            None => None,
        };
        let partitions = match v.get("partitionsCount") {
            Some(x) => match x.as_u64() {
                Some(n) => n,
                None => 0,
            },
            None => 0,
        };
        let partitions_count = (partitions % 0x1_0000_0000) as u32;
        let compression_algorithm = match v.get("compressionAlgorithm") {
            Some(x) => match x.as_str() {
                Some(s) => match compression_from_str(s) {
                    Some(c) => c,
                    None => Compression::NoCompression,
                },
                None => Compression::NoCompression,
            },
            None => Compression::NoCompression,
        };
        let secs = v.get("messageExpiry").unwrap().as_u64().unwrap();
        let size = match v.get("maxTopicSize") {
            Some(x) => match x.as_u64() {
                Some(n) => n,
                None => 0,
            },
            None => 0,
        };
        let max_topic_size = topic_size_from(size);
        Ok(TopicConfig {
            custom_name,
            partitions_count,
            compression_algorithm,
            message_expiry: TopicExpiry::ExpireDuration { secs },
            max_topic_size,
        })
    }
}

impl<S: IggyStates> Clone for Iggy<S> {
    /// Another handle to the same client.
    fn clone(&self) -> (r: Self)
        ensures
            r.client_of() == self.client_of(),
    {
        Iggy {
            client: match &self.client {
                Some(c) => Some(crate::sync::arc_clone(c)),
                None => None,
            },
            _state: PhantomData,
        }
    }
}

} // verus!
