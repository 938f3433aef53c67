use vstd::prelude::*;

verus! {

pub const DEFAULT_ENVIRONMENT: &'static str = "dev";

pub const IGGY_STREAM_PREFIX: &'static str = "/iggy/streamPrefix";

pub const IGGY_URL_PATH: &'static str = "/iggy/url";

pub const RABBITMQ_URL_PATH: &'static str = "/rabbitmq/url";

pub const REDIS_URL_PATH: &'static str = "/redis/url";

pub const IGGY_HEADER_SIGNATURE: &'static str = "signature";

pub const IGGY_HEADER_HTTP_METHOD: &'static str = "http-method";

pub const IGGY_HEADER_HTTP_PATH: &'static str = "http-path";

pub const IGGY_HEADER_API_KEY: &'static str = "api-key";

/// Set when the service had a signature and answers with an error (BadRequest, NotFound, ...).
pub const IGGY_HEADER_SERVICE_ERROR: &'static str = "err-response-code";

/// Request-timing headers, stamped by the service on the back-topic response message.
pub const IGGY_HEADER_TS_SERVICE_RECEIVED: &'static str = "ts-service-received";

pub const IGGY_HEADER_TS_SERVICE_SENT: &'static str = "ts-service-sent";

pub const JSON_ENV_OVERRIDES_PATH: &'static str = "/envOverrides";

pub const SERVICE_BIND_ADDRESS: &'static str = "/service/bindAddress";

pub const SERVICE_NAME_PATH: &'static str = "/service/name";

pub const GATE_TOPICS_MAP: &'static str = "/topicsMap";

pub const TLS_CERT_PATH: &'static str = "/service/tls/certPath";

pub const TLS_KEY_PATH: &'static str = "/service/tls/keyPath";

pub const INTERNAL_URL_PREFIX: &'static str = "/internal";

} // verus!

verus! {

/// The version of this package, as its manifest states it.
pub const VERSION: &'static str = "0.1.0";

} // verus!

verus! {

/// How long the gateway waits for a service's answer, in microseconds: a request older than
/// this is not worth answering any more.
pub const BACK_MESSAGE_TIMEOUT_MICROS: u64 = 30_000_000;

} // verus!
