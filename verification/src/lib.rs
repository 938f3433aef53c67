//! Shared plumbing of the services: configuration, naming of streams, topics and
//! queues, and the decisions of the message consumers and HTTP gateways.

use vstd::prelude::*;

pub mod config;
pub mod iggy_client;
pub mod json;
pub mod jsonrpc;
pub mod migrations;
pub mod postgres;
pub mod prelude;
pub mod rabbitmq;
pub mod redis_client;
pub mod sync;
pub mod text;

use crate::config::{Config, ConfigReady};
use crate::prelude::consts::{IGGY_STREAM_PREFIX, SERVICE_NAME_PATH, VERSION};
use crate::text::{chars_of, concat2, owned, string_from_chars};

verus! {

/// The identifier of a request.
pub type RequestId = String;

#[verifier::external_type_specification]
#[verifier::external_body]
pub struct ExReqwestError(reqwest::Error);

#[verifier::external_type_specification]
#[verifier::external_body]
pub struct ExSerdeJsonError(serde_json::Error);

#[verifier::external_type_specification]
#[verifier::external_body]
pub struct ExSerdeJsonValue(serde_json::Value);

/// The errors of a service.
#[derive(Debug)]
pub enum AppError {
    /// A failure described by its message.
    Custom(String),
    /// A failed database migration, by its message.
    Migration(String),
    Postgres(crate::postgres::PostgresError),
    Iggy(crate::iggy_client::IggyError),
    RabbitMq(crate::rabbitmq::RabbitMqError),
    Redis(crate::redis_client::RedisError),
    Reqwest(reqwest::Error),
    Service(crate::jsonrpc::ServiceHttpError),
    Serde(serde_json::Error),
}

// ---------------------------------------------------------------------------
// Names of streams, topics, consumers and queues
// ---------------------------------------------------------------------------

/// `a`, a dash, then `b`.
pub open spec fn dashed(a: Seq<char>, b: Seq<char>) -> Seq<char> {
    a + seq!['-'] + b
}

/// `s` without the prefix `p`, where it starts with it.
pub open spec fn strip_prefix(s: Seq<char>, p: Seq<char>) -> Seq<char> {
    if p.len() <= s.len() && s.take(p.len() as int) == p {
        s.skip(p.len() as int)
    } else {
        s
    }
}

/// `s` without the suffix `p`, where it ends with it.
pub open spec fn strip_suffix(s: Seq<char>, p: Seq<char>) -> Seq<char> {
    if p.len() <= s.len() && s.skip(s.len() - p.len()) == p {
        s.take(s.len() - p.len())
    } else {
        s
    }
}

/// The ASCII lower-case form of a character; other characters stay as they are.
pub open spec fn ascii_lower(c: char) -> char {
    if 'A' <= c && c <= 'Z' {
        ((c as u32) + 32) as char
    } else {
        c
    }
}

/// The topic part of a service name: lower-cased, without a leading `skw-` and then
/// without a trailing `-service`.
pub open spec fn service_topic_base(service: Seq<char>) -> Seq<char> {
    strip_suffix(
        strip_prefix(service.map_values(|c: char| ascii_lower(c)), seq!['s', 'k', 'w', '-']),
        seq!['-', 's', 'e', 'r', 'v', 'i', 'c', 'e'],
    )
}

/// The characters a service name may hold: ASCII letters and digits, `_`, `-` and `.`.
pub open spec fn name_char(c: char) -> bool {
    ('a' <= c && c <= 'z') || ('A' <= c && c <= 'Z') || ('0' <= c && c <= '9') || c == '_' || c
        == '-' || c == '.'
}

/// A non-empty name made of allowed characters only.
pub open spec fn valid_name(s: Seq<char>) -> bool {
    s.len() > 0 && forall|i: int| 0 <= i < s.len() ==> name_char(#[trigger] s[i])
}

/// `s` followed by a dash and the package version.
fn with_version(s: &str) -> (r: String)
    ensures
        r@ == dashed(s@, VERSION@),
{
    let a = concat2(s, "-");
    proof {
        reveal_strlit("-");
    }
    let r = concat2(a.as_str(), VERSION);
    assert(r@ =~= dashed(s@, VERSION@));
    r
}

/// The stream of this service generation: the configured prefix and the version.
pub fn skw_get_stream_name(config: &Config<ConfigReady>) -> (r: String)
    requires
        config.str_at(IGGY_STREAM_PREFIX@) is Some,
    ensures
        r@ == dashed(config.str_at(IGGY_STREAM_PREFIX@)->Some_0, VERSION@),
{
    with_version(config.expect_str(IGGY_STREAM_PREFIX))
}

/// The topic that services answer the gateway on.
pub fn skw_get_back_topic_name() -> (r: String)
    ensures
        r@ == dashed(seq!['g', 'a', 't', 'e', '-', 'b', 'a', 'c', 'k'], VERSION@),
{
    proof {
        reveal_strlit("gate-back");
    }
    with_version("gate-back")
}

/// The consumer (group) name for a topic or queue.
pub fn skw_get_consumer_name(topic: &str) -> (r: String)
    ensures
        r@ == seq!['c', 'o', 'n', 's', 'u', 'm', 'e', 'r', '-'] + topic@,
{
    proof {
        reveal_strlit("consumer-");
    }
    concat2("consumer-", topic)
}

/// The versioned name of a queue.
pub fn skw_get_queue_name(base: &str) -> (r: String)
    ensures
        r@ == dashed(base@, VERSION@),
{
    with_version(base)
}

/// `s` in ASCII lower case.
fn to_ascii_lowercase(s: &str) -> (r: Vec<char>)
    ensures
        r@ == s@.map_values(|c: char| ascii_lower(c)),
{
    let cs = chars_of(s);
    let mut out: Vec<char> = Vec::new();
    let mut i: usize = 0;
    while i < cs.len()
        invariant
            i <= cs@.len(),
            cs@ == s@,
            out@ == cs@.take(i as int).map_values(|c: char| ascii_lower(c)),
        decreases cs@.len() - i,
    {
        let c = cs[i];
        let l = if 'A' <= c && c <= 'Z' {
            ((c as u8) + 32) as char
        } else {
            c
        };
        assert(l == ascii_lower(c)) by {
            if 'A' <= c && c <= 'Z' {
                assert(((c as u8) + 32) as char == ((c as u32) + 32) as char);
            }
        }
        out.push(l);
        assert(cs@.take(i + 1).map_values(|c: char| ascii_lower(c)) =~= cs@.take(i as int).map_values(
            |c: char| ascii_lower(c),
        ).push(l));
        i = i + 1;
    }
    assert(cs@.take(cs@.len() as int) =~= cs@);
    out
}

/// `s` without the prefix `p`, where it starts with it.
fn strip_prefix_chars(s: Vec<char>, p: &Vec<char>) -> (r: Vec<char>)
    ensures
        r@ == strip_prefix(s@, p@),
{
    if p.len() > s.len() {
        return s;
    }
    let mut i: usize = 0;
    while i < p.len()
        invariant
            p@.len() <= s@.len(),
            i <= p@.len(),
            forall|k: int| 0 <= k < i ==> s@[k] == p@[k],
        decreases p@.len() - i,
    {
        if s[i] != p[i] {
            assert(s@.take(p@.len() as int)[i as int] != p@[i as int]);
            return s;
        }
        i = i + 1;
    }
    assert(s@.take(p@.len() as int) =~= p@);
    let mut out: Vec<char> = Vec::new();
    let mut j: usize = p.len();
    while j < s.len()
        invariant
            p@.len() <= j <= s@.len(),
            out@ == s@.subrange(p@.len() as int, j as int),
        decreases s@.len() - j,
    {
        out.push(s[j]);
        assert(s@.subrange(p@.len() as int, j + 1) =~= s@.subrange(p@.len() as int, j as int).push(
            s@[j as int],
        ));
        j = j + 1;
    }
    assert(out@ =~= s@.skip(p@.len() as int));
    out
}

/// `s` without the suffix `p`, where it ends with it.
fn strip_suffix_chars(s: Vec<char>, p: &Vec<char>) -> (r: Vec<char>)
    ensures
        r@ == strip_suffix(s@, p@),
{
    if p.len() > s.len() {
        return s;
    }
    let start = s.len() - p.len();
    let mut i: usize = 0;
    while i < p.len()
        invariant
            p@.len() <= s@.len(),
            s@.len() == s.len(),
            start == s@.len() - p@.len(),
            i <= p@.len(),
            forall|k: int| 0 <= k < i ==> s@[start + k] == p@[k],
        decreases p@.len() - i,
    {
        if s[start + i] != p[i] {
            assert(s@.skip(start as int)[i as int] != p@[i as int]);
            return s;
        }
        i = i + 1;
    }
    assert(s@.skip(start as int) =~= p@);
    let mut out: Vec<char> = Vec::new();
    let mut j: usize = 0;
    while j < start
        invariant
            start <= s@.len(),
            j <= start,
            out@ == s@.take(j as int),
        decreases start - j,
    {
        out.push(s[j]);
        assert(s@.take(j + 1) =~= s@.take(j as int).push(s@[j as int]));
        j = j + 1;
    }
    out
}

/// The stream topic of this service: its configured name, lower-cased, without the
/// `skw-` prefix and the `-service` suffix, followed by the version.
pub fn skw_get_stream_topic_name(config: &Config<ConfigReady>) -> (r: String)
    requires
        config.str_at(SERVICE_NAME_PATH@) is Some,
    ensures
        r@ == dashed(service_topic_base(config.str_at(SERVICE_NAME_PATH@)->Some_0), VERSION@),
{
    let srv = to_ascii_lowercase(config.expect_str(SERVICE_NAME_PATH));
    let prefix = vec!['s', 'k', 'w', '-'];
    let suffix = vec!['-', 's', 'e', 'r', 'v', 'i', 'c', 'e'];
    assert(prefix@ =~= seq!['s', 'k', 'w', '-']);
    assert(suffix@ =~= seq!['-', 's', 'e', 'r', 'v', 'i', 'c', 'e']);
    let srv = strip_prefix_chars(srv, &prefix);
    let srv = strip_suffix_chars(srv, &suffix);
    let base = string_from_chars(&srv);
    with_version(base.as_str())
}

/// The name itself where it is a valid service name: non-empty, and made of ASCII
/// letters, digits, `_`, `-` and `.` only.
pub fn skw_is_valid_name(name: &str) -> (r: Option<String>)
    ensures
        r is Some <==> valid_name(name@),
        r matches Some(s) ==> s@ == name@,
{
    let cs = chars_of(name);
    if cs.len() == 0 {
        return None;
    }
    let mut i: usize = 0;
    while i < cs.len()
        invariant
            i <= cs@.len(),
            cs@ == name@,
            forall|k: int| 0 <= k < i ==> name_char(#[trigger] cs@[k]),
        decreases cs@.len() - i,
    {
        let c = cs[i];
        if !(('a' <= c && c <= 'z') || ('A' <= c && c <= 'Z') || ('0' <= c && c <= '9') || c == '_'
            || c == '-' || c == '.') {
            assert(!name_char(cs@[i as int]));
            return None;
        }
        i = i + 1;
    }
    Some(owned(name))
}

impl From<crate::jsonrpc::ServiceHttpError> for AppError {
    fn from(e: crate::jsonrpc::ServiceHttpError) -> (r: AppError) {
        AppError::Service(e)
    }
}

impl vstd::std_specs::convert::FromSpecImpl<crate::jsonrpc::ServiceHttpError> for AppError {
    open spec fn obeys_from_spec() -> bool {
        true
    }

    open spec fn from_spec(e: crate::jsonrpc::ServiceHttpError) -> AppError {
        AppError::Service(e)
    }
}

impl From<crate::postgres::PostgresError> for AppError {
    fn from(e: crate::postgres::PostgresError) -> (r: AppError) {
        AppError::Postgres(e)
    }
}

impl vstd::std_specs::convert::FromSpecImpl<crate::postgres::PostgresError> for AppError {
    open spec fn obeys_from_spec() -> bool {
        true
    }

    open spec fn from_spec(e: crate::postgres::PostgresError) -> AppError {
        AppError::Postgres(e)
    }
}

impl From<crate::iggy_client::IggyError> for AppError {
    fn from(e: crate::iggy_client::IggyError) -> (r: AppError) {
        AppError::Iggy(e)
    }
}

impl vstd::std_specs::convert::FromSpecImpl<crate::iggy_client::IggyError> for AppError {
    open spec fn obeys_from_spec() -> bool {
        true
    }

    open spec fn from_spec(e: crate::iggy_client::IggyError) -> AppError {
        AppError::Iggy(e)
    }
}

impl From<crate::rabbitmq::RabbitMqError> for AppError {
    fn from(e: crate::rabbitmq::RabbitMqError) -> (r: AppError) {
        AppError::RabbitMq(e)
    }
}

impl vstd::std_specs::convert::FromSpecImpl<crate::rabbitmq::RabbitMqError> for AppError {
    open spec fn obeys_from_spec() -> bool {
        true
    }

    open spec fn from_spec(e: crate::rabbitmq::RabbitMqError) -> AppError {
        AppError::RabbitMq(e)
    }
}

impl From<crate::redis_client::RedisError> for AppError {
    fn from(e: crate::redis_client::RedisError) -> (r: AppError) {
        AppError::Redis(e)
    }
}

impl vstd::std_specs::convert::FromSpecImpl<crate::redis_client::RedisError> for AppError {
    open spec fn obeys_from_spec() -> bool {
        true
    }

    open spec fn from_spec(e: crate::redis_client::RedisError) -> AppError {
        AppError::Redis(e)
    }
}

impl From<reqwest::Error> for AppError {
    fn from(e: reqwest::Error) -> (r: AppError) {
        AppError::Reqwest(e)
    }
}

impl vstd::std_specs::convert::FromSpecImpl<reqwest::Error> for AppError {
    open spec fn obeys_from_spec() -> bool {
        true
    }

    open spec fn from_spec(e: reqwest::Error) -> AppError {
        AppError::Reqwest(e)
    }
}

impl From<serde_json::Error> for AppError {
    fn from(e: serde_json::Error) -> (r: AppError) {
        AppError::Serde(e)
    }
}

impl vstd::std_specs::convert::FromSpecImpl<serde_json::Error> for AppError {
    open spec fn obeys_from_spec() -> bool {
        true
    }

    open spec fn from_spec(e: serde_json::Error) -> AppError {
        AppError::Serde(e)
    }
}

proof fn lemma_name_char_code(c: char)
    ensures
        name_char(c) <==> ((48 <= c as u32 && c as u32 <= 57) || (65 <= c as u32 && c as u32 <= 90) || (97
            <= c as u32 && c as u32 <= 122) || c as u32 == 95 || c as u32 == 45 || c as u32 == 46),
{
}

/// The characters allowed in a name are exactly the ASCII letters (codes 65 to 90 and 97 to
/// 122), the ASCII digits (48 to 57), `_` (95), `-` (45) and `.` (46); upper and lower case
/// are allowed alike. So a name is valid exactly when it is not empty and each of its
/// characters is one of these.
pub proof fn lemma_name_chars(c: char, s: Seq<char>)
    ensures
        name_char(c) <==> ((48 <= c as u32 && c as u32 <= 57) || (65 <= c as u32 && c as u32 <= 90) || (97
            <= c as u32 && c as u32 <= 122) || c as u32 == 95 || c as u32 == 45 || c as u32 == 46),
        name_char(c) <==> name_char(ascii_lower(c)),
        valid_name(s) <==> (s.len() > 0 && forall|i: int|
            0 <= i < s.len() ==> ((48 <= (#[trigger] s[i]) as u32 && s[i] as u32 <= 57) || (65 <= s[i] as u32
                && s[i] as u32 <= 90) || (97 <= s[i] as u32 && s[i] as u32 <= 122) || s[i] as u32 == 95 || s[i]
                as u32 == 45 || s[i] as u32 == 46)),
{
    lemma_name_char_code(c);
    assert forall|i: int| 0 <= i < s.len() implies name_char(#[trigger] s[i]) <==> ((48 <= s[i] as u32 && s[i]
        as u32 <= 57) || (65 <= s[i] as u32 && s[i] as u32 <= 90) || (97 <= s[i] as u32 && s[i] as u32 <= 122)
        || s[i] as u32 == 95 || s[i] as u32 == 45 || s[i] as u32 == 46) by {
        lemma_name_char_code(s[i]);
    }
}

} // verus!
