use vstd::prelude::*;

use crate::config::{Config, ConfigReady};
use crate::jsonrpc::{service_error_name, ServiceHttpError};
use crate::prelude::consts::{
    BACK_MESSAGE_TIMEOUT_MICROS, IGGY_HEADER_SERVICE_ERROR, IGGY_HEADER_SIGNATURE,
    IGGY_HEADER_TS_SERVICE_RECEIVED, IGGY_HEADER_TS_SERVICE_SENT, IGGY_STREAM_PREFIX,
    SERVICE_NAME_PATH,
};
use crate::text::{concat2, owned};
use crate::AppError;
use crate::{
    skw_get_back_topic_name, skw_get_consumer_name, skw_get_stream_name, skw_get_stream_topic_name,
};

verus! {

/// What a service learns of the HTTP request behind an RPC message.
#[derive(Debug, Clone, PartialEq, Eq)]
pub struct RpcRequestMeta {
    pub http_method: String,
    pub http_path: String,
    pub signature: String,
    pub api_key: Option<String>,
}

/// An RPC message that a service consumes: the HTTP request it came from, and the method
/// it calls.
pub trait RpcMessageTrait: Sized {
    type RpcMethod;

    spec fn signature_view(&self) -> Seq<char>;

    spec fn http_method_view(&self) -> Seq<char>;

    spec fn http_path_view(&self) -> Seq<char>;

    spec fn api_key_view(&self) -> Option<Seq<char>>;

    fn signature(&self) -> (r: &str)
        ensures
            r@ == self.signature_view(),
    ;

    fn http_method(&self) -> (r: &str)
        ensures
            r@ == self.http_method_view(),
    ;

    fn http_path(&self) -> (r: &str)
        ensures
            r@ == self.http_path_view(),
    ;

    fn api_key(&self) -> (r: Option<&str>)
        ensures
            match r {
                Some(k) => self.api_key_view() == Some(k@),
                None => self.api_key_view() is None,
            },
    ;

    fn into_rpc_method(self) -> Result<Self::RpcMethod, ServiceHttpError>;

    /// What the message tells of its HTTP request.
    fn meta(&self) -> (r: RpcRequestMeta)
        ensures
            r.http_method@ == self.http_method_view(),
            r.http_path@ == self.http_path_view(),
            r.signature@ == self.signature_view(),
            match r.api_key {
                Some(k) => self.api_key_view() == Some(k@),
                None => self.api_key_view() is None,
            },
    {
        RpcRequestMeta {
            http_method: owned(self.http_method()),
            http_path: owned(self.http_path()),
            signature: owned(self.signature()),
            api_key: match self.api_key() {
                Some(k) => Some(owned(k)),
                None => None,
            },
        }
    }
}

// ---------------------------------------------------------------------------
// Settings of the consumer
// ---------------------------------------------------------------------------

/// What `iggy::prelude::IggyDuration::from_str` makes of a text: the duration as whole
/// seconds and the nanoseconds beyond them, or the parse error's message.
pub uninterp spec fn iggy_duration_from_str(s: Seq<char>) -> Result<(u64, u32), Seq<char>>;

/// The texts that iggy reads as a zero duration without parsing them: `0`, `unlimited`,
/// `disabled` and `none`, ASCII and case aside.
pub open spec fn zero_duration_text(s: Seq<char>) -> bool {
    let l = crate::iggy_client::ascii_lower_seq(s);
    &&& vstd::utf8::is_ascii_chars(s)
    &&& (l == seq!['0'] || l == seq!['u', 'n', 'l', 'i', 'm', 'i', 't', 'e', 'd'] || l == seq![
        'd',
        'i',
        's',
        'a',
        'b',
        'l',
        'e',
        'd',
    ] || l == seq!['n', 'o', 'n', 'e'])
}

/// The most significant digits a duration text may hold (see `significant_digit_count`).
/// With no more, the numbers in it add up to less than 10^11, and at most 31,557,600
/// seconds (a year) per unit the total stays below 2^62 seconds.
pub const MAX_DURATION_DIGITS: usize = 11;

/// Whether `c` ends a number of a duration text: a letter (of a unit), `µ` or the decimal
/// point. Any other character either continues the number (a digit, white space) or is
/// refused by the parser.
pub open spec fn ends_number(c: char) -> bool {
    ('a' <= c && c <= 'z') || ('A' <= c && c <= 'Z') || c == '.' || c == '\u{b5}'
}

/// Going through `s` from the left: how many digits count towards the size of its numbers
/// (every digit of a number from its first one other than zero on), and whether the number
/// at hand has had a digit other than zero yet.
pub open spec fn digit_scan(s: Seq<char>) -> (nat, bool)
    decreases s.len(),
{
    if s.len() == 0 {
        (0, false)
    } else {
        let p = digit_scan(s.drop_last());
        let c = s.last();
        if ('1' <= c && c <= '9') || (c == '0' && p.1) {
            (p.0 + 1, true)
        } else if ends_number(c) {
            (p.0, false)
        } else {
            p
        }
    }
}

/// How many significant digits the numbers of `s` have: leading zeros do not count, so each
/// number is below 10 to the power of its count.
pub open spec fn significant_digit_count(s: Seq<char>) -> nat {
    digit_scan(s).0
}

/// Whether a duration text is small enough in digits to be read (see `MAX_DURATION_DIGITS`).
pub open spec fn duration_digits_fit(s: Seq<char>) -> bool {
    significant_digit_count(s) <= MAX_DURATION_DIGITS
}

/// Counts the significant digits of `s`.
fn count_significant_digits(s: &str) -> (r: usize)
    ensures
        r == significant_digit_count(s@),
{
    let cs = crate::text::chars_of(s);
    let mut n: usize = 0;
    let mut started = false;
    let mut i: usize = 0;
    while i < cs.len()
        invariant
            i <= cs@.len(),
            cs@ == s@,
            n <= i,
            (n as nat, started) == digit_scan(cs@.take(i as int)),
        decreases cs@.len() - i,
    {
        assert(cs@.take(i + 1).drop_last() =~= cs@.take(i as int));
        let c = cs[i];
        if ('1' <= c && c <= '9') || (c == '0' && started) {
            n = n + 1;
            started = true;
        } else if ('a' <= c && c <= 'z') || ('A' <= c && c <= 'Z') || c == '.' || c == '\u{b5}' {
            started = false;
        }
        i = i + 1;
    }
    assert(cs@.take(cs@.len() as int) =~= cs@);
    n
}

/// `IggyDuration::from_str` of iggy, read as whole seconds and the nanoseconds beyond them.
/// The contract claims that the result is the one that function gives (named
/// `iggy_duration_from_str`), and, as its source shows, that `0`, `unlimited`, `disabled`
/// and `none` (ASCII, case aside) read as zero and that `1ms` reads as one millisecond
/// (humantime's unit table). The parse (humantime's `parse_duration`) panics where the
/// seconds it adds up reach `u64::MAX` with a full second of nanoseconds left over; a text
/// of at most `MAX_DURATION_DIGITS` significant digits never comes near that total, so it
/// is all that is admitted.
#[verifier::external_body]
fn duration_from_str(s: &str) -> (r: Result<(u64, u32), String>)
    requires
        duration_digits_fit(s@),
    ensures
        match r {
            Ok(d) => iggy_duration_from_str(s@) matches Ok(x) && x == d,
            Err(e) => iggy_duration_from_str(s@) matches Err(x) && x == e@,
        },
        zero_duration_text(s@) ==> r is Ok && r->Ok_0 == (0u64, 0u32),
        s@ == seq!['1', 'm', 's'] ==> r is Ok && r->Ok_0 == (0u64, 1_000_000u32),
{
    match s.parse::<iggy::prelude::IggyDuration>() {
        Ok(d) => Ok((d.get_duration().as_secs(), d.get_duration().subsec_nanos())),
        Err(e) => Err(e.to_string()),
    }
}

/// How the consumer polls: the poll interval (whole seconds and the nanoseconds beyond
/// them) and how many messages one poll fetches.
#[derive(Debug, Clone, Copy, PartialEq, Eq)]
pub struct ConsumerSettings {
    pub poll_interval_secs: u64,
    pub poll_interval_nanos: u32,
    pub batch_length: u32,
}

/// The poll interval the consumer uses: the given one, else one millisecond.
pub open spec fn poll_interval_text(pool_interval: Option<Seq<char>>) -> Seq<char> {
    match pool_interval {
        Some(i) => i,
        None => seq!['1', 'm', 's'],
    }
}

/// The consumer's settings: the poll interval read as a duration (one millisecond where
/// none is given), and the batch length (1 where none is given). An interval that does not
/// read is refused with "invalid pool interval: {interval}; error:{error}"; one with more
/// than `MAX_DURATION_DIGITS` significant digits is refused unread, with the error
/// "too many digits".
pub fn consumer_settings(pool_interval: Option<&str>, batch_size: Option<u32>) -> (r: Result<ConsumerSettings, AppError>)
    ensures
        match r {
            Ok(s) => {
                &&& (pool_interval matches Some(i) ==> duration_digits_fit(i@))
                &&& iggy_duration_from_str(
                    poll_interval_text(
                        match pool_interval {
                            Some(i) => Some(i@),
                            None => None,
                        },
                    ),
                ) matches Ok(x) && x == (s.poll_interval_secs, s.poll_interval_nanos)
                &&& s.batch_length == match batch_size {
                    Some(b) => b,
                    None => 1,
                }
            },
            Err(e) => match pool_interval {
                Some(i) => if duration_digits_fit(i@) {
                    iggy_duration_from_str(i@) matches Err(m) && (e matches AppError::Custom(t)
                        && t@ == "invalid pool interval: "@ + i@ + "; error:"@ + m)
                } else {
                    e matches AppError::Custom(t) && t@ == "invalid pool interval: "@ + i@
                        + "; error:too many digits"@
                },
                None => false,
            },
        },
        pool_interval is None ==> r is Ok && r->Ok_0.poll_interval_secs == 0 && r->Ok_0.poll_interval_nanos
            == 1_000_000,
{
    let interval = match pool_interval {
        Some(i) => {
            if count_significant_digits(i) > MAX_DURATION_DIGITS {
                let a = concat2("invalid pool interval: ", i);
                return Err(AppError::Custom(concat2(a.as_str(), "; error:too many digits")));
            }
            match duration_from_str(i) {
                Ok(d) => d,
                Err(e) => {
                    let a = concat2("invalid pool interval: ", i);
                    let b = concat2(a.as_str(), "; error:");
                    let c = concat2(b.as_str(), e.as_str());
                    return Err(AppError::Custom(c));
                },
            }
        },
        None => {
            proof {
                reveal_strlit("1ms");
                assert("1ms"@ =~= seq!['1', 'm', 's']);
                reveal_with_fuel(digit_scan, 4);
            }
            match duration_from_str("1ms") {
                Ok(d) => d,
                Err(e) => {
                    return Err(AppError::Custom(e));
                },
            }
        },
    };
    let batch_length = match batch_size {
        Some(b) => b,
        None => 1,
    };
    Ok(ConsumerSettings { poll_interval_secs: interval.0, poll_interval_nanos: interval.1, batch_length })
}

/// Where the consumer reads and answers.
#[derive(Debug, Clone, PartialEq, Eq)]
pub struct ConsumerNames {
    pub stream: String,
    pub topic: String,
    pub back_topic: String,
    pub consumer: String,
}

/// The stream and topic the service consumes, the topic it answers on, and its consumer
/// group, as the configuration names them.
pub fn consumer_names(config: &Config<ConfigReady>) -> (r: ConsumerNames)
    requires
        config.str_at(IGGY_STREAM_PREFIX@) is Some,
        config.str_at(SERVICE_NAME_PATH@) is Some,
    ensures
        r.stream@ == crate::dashed(config.str_at(IGGY_STREAM_PREFIX@)->Some_0, crate::prelude::consts::VERSION@),
        r.topic@ == crate::dashed(
            crate::service_topic_base(config.str_at(SERVICE_NAME_PATH@)->Some_0),
            crate::prelude::consts::VERSION@,
        ),
        r.back_topic@ == crate::dashed(seq!['g', 'a', 't', 'e', '-', 'b', 'a', 'c', 'k'], crate::prelude::consts::VERSION@),
        r.consumer@ == seq!['c', 'o', 'n', 's', 'u', 'm', 'e', 'r', '-'] + r.topic@,
{
    let stream = skw_get_stream_name(config);
    let topic = skw_get_stream_topic_name(config);
    let back_topic = skw_get_back_topic_name();
    let consumer = skw_get_consumer_name(topic.as_str());
    ConsumerNames { stream, topic, back_topic, consumer }
}

// ---------------------------------------------------------------------------
// Handling one message
// ---------------------------------------------------------------------------

/// A message sent at `sent_micros` (microseconds since the epoch) is stale at `now_nanos`
/// (nanoseconds since the epoch) when more than the gateway's timeout has passed since; a
/// message from the future is not.
pub open spec fn is_stale(now_nanos: u128, sent_micros: u64) -> bool {
    now_nanos - sent_micros * 1000 > BACK_MESSAGE_TIMEOUT_MICROS * 1000
}

/// Whether a message is too old to be answered: whoever sent it has stopped waiting.
pub fn message_is_stale(now_nanos: u128, sent_micros: u64) -> (r: bool)
    ensures
        r == is_stale(now_nanos, sent_micros),
{
    let sent_nanos: u128 = (sent_micros as u128) * 1000;
    let age: u128 = if now_nanos > sent_nanos {
        now_nanos - sent_nanos
    } else {
        0
    };
    age > (BACK_MESSAGE_TIMEOUT_MICROS as u128) * 1000
}

/// A message that is stale stays stale as time passes.
pub proof fn lemma_stale_stays_stale(now: u128, later: u128, sent_micros: u64)
    requires
        now <= later,
        is_stale(now, sent_micros),
    ensures
        is_stale(later, sent_micros),
{
}

/// A header key or value can be made of a text of 1 to 255 bytes.
pub open spec fn header_text_ok(s: Seq<char>) -> bool {
    1 <= vstd::utf8::encode_utf8(s).len() <= 255
}

/// An ASCII text of 1 to 255 characters can be made a header key or value.
pub proof fn lemma_ascii_header_text_ok(s: Seq<char>)
    requires
        vstd::utf8::is_ascii_chars(s),
        1 <= s.len() <= 255,
    ensures
        header_text_ok(s),
{
    vstd::utf8::is_ascii_chars_encode_utf8(s);
}

/// The names of the headers a service sets on its answers can be made header keys, and
/// so can the name of every service error.
pub proof fn lemma_reply_header_names_ok(e: ServiceHttpError)
    ensures
        header_text_ok(IGGY_HEADER_SIGNATURE@),
        header_text_ok(IGGY_HEADER_TS_SERVICE_RECEIVED@),
        header_text_ok(IGGY_HEADER_TS_SERVICE_SENT@),
        header_text_ok(IGGY_HEADER_SERVICE_ERROR@),
        header_text_ok(service_error_name(e)),
{
    reveal_strlit("signature");
    reveal_strlit("ts-service-received");
    reveal_strlit("ts-service-sent");
    reveal_strlit("err-response-code");
    lemma_ascii_header_text_ok(IGGY_HEADER_SIGNATURE@);
    lemma_ascii_header_text_ok(IGGY_HEADER_TS_SERVICE_RECEIVED@);
    lemma_ascii_header_text_ok(IGGY_HEADER_TS_SERVICE_SENT@);
    lemma_ascii_header_text_ok(IGGY_HEADER_SERVICE_ERROR@);
    lemma_ascii_header_text_ok(service_error_name(e));
}

/// `HeaderKey::from_str` of iggy, for its verdict only. The contract claims what its source
/// shows: a text of 1 to 255 bytes is accepted, any other is refused with "Invalid header
/// value".
#[verifier::external_body]
fn check_header_key(s: &str) -> (r: Result<(), String>)
    ensures
        r is Ok <==> header_text_ok(s@),
        r matches Err(e) ==> e@ == "Invalid header value"@,
{
    match s.parse::<iggy::prelude::HeaderKey>() {
        Ok(_) => Ok(()),
        Err(e) => Err(e.to_string()),
    }
}

/// `HeaderValue::from_str` of iggy, for its verdict only. The contract claims what its
/// source shows: a text of 1 to 255 bytes is accepted, any other is refused with "Invalid
/// header value".
#[verifier::external_body]
fn check_header_value(s: &str) -> (r: Result<(), String>)
    ensures
        r is Ok <==> header_text_ok(s@),
        r matches Err(e) ==> e@ == "Invalid header value"@,
{
    match s.parse::<iggy::prelude::HeaderValue>() {
        Ok(_) => Ok(()),
        Err(e) => Err(e.to_string()),
    }
}

/// A header, checked as iggy checks one.
fn header(key: &str, value: &str) -> (r: Result<(String, String), AppError>)
    ensures
        match r {
            Ok(h) => header_text_ok(key@) && header_text_ok(value@) && h.0@ == key@ && h.1@ == value@,
            Err(e) => !(header_text_ok(key@) && header_text_ok(value@)) && (e matches AppError::Custom(m)
                && m@ == "Invalid header value"@),
        },
{
    match check_header_key(key) {
        Ok(()) => {},
        Err(e) => {
            return Err(AppError::Custom(e));
        },
    }
    match check_header_value(value) {
        Ok(()) => {},
        Err(e) => {
            return Err(AppError::Custom(e));
        },
    }
    Ok((owned(key), owned(value)))
}

/// The headers are the given keys and values, in order.
pub open spec fn headers_are(h: Seq<(String, String)>, kv: Seq<(Seq<char>, Seq<char>)>) -> bool {
    &&& h.len() == kv.len()
    &&& forall|i: int| 0 <= i < h.len() ==> (#[trigger] h[i]).0@ == kv[i].0 && h[i].1@ == kv[i].1
}

/// `r` is what `request_headers` gives for `signature`: the signature itself as the one
/// header, or, for a signature that iggy does not take as a header value (empty, or
/// longer than 255 bytes), the error "Invalid header value".
pub open spec fn request_headers_result(signature: Seq<char>, r: Result<Vec<(String, String)>, AppError>) -> bool {
    &&& (r is Ok <==> header_text_ok(signature))
    &&& match r {
        Ok(h) => headers_are(h@, seq![(IGGY_HEADER_SIGNATURE@, signature)]),
        Err(e) => e matches AppError::Custom(m) && m@ == "Invalid header value"@,
    }
}

/// The headers of the answer to a request with `signature`: the signature itself. A
/// signature that iggy does not take as a header value fails the consumer.
pub fn request_headers(signature: &str) -> (r: Result<Vec<(String, String)>, AppError>)
    ensures
        request_headers_result(signature@, r),
{
    proof {
        lemma_reply_header_names_ok(ServiceHttpError::NotFound);
    }
    let h = header(IGGY_HEADER_SIGNATURE, signature)?;
    let mut v: Vec<(String, String)> = Vec::new();
    v.push(h);
    Ok(v)
}

/// The message a service sends back on the back topic.
#[derive(Debug, Clone, PartialEq, Eq)]
pub struct ServiceReply {
    pub headers: Vec<(String, String)>,
    pub payload: Vec<u8>,
}

/// The timing headers can be made: both times are texts iggy takes as header values.
pub open spec fn timing_ok(ts_received: Seq<char>, ts_sent: Seq<char>) -> bool {
    header_text_ok(ts_received) && header_text_ok(ts_sent)
}

/// `r` is what `service_reply` gives for a request whose answer starts with the headers
/// `given`: those headers followed by the times the request was received and answered;
/// then, where the handler answered, its serialised response as payload (a serialisation
/// error fails the consumer with its message), and where it failed, the error's name under
/// `err-response-code` and `{}` as payload. A time that iggy does not take as a header
/// value fails the consumer with "Invalid header value".
pub open spec fn service_reply_result(
    given: Seq<(Seq<char>, Seq<char>)>,
    ts_received: Seq<char>,
    ts_sent: Seq<char>,
    outcome: Result<Result<Vec<u8>, String>, ServiceHttpError>,
    r: Result<ServiceReply, AppError>,
) -> bool {
    if !timing_ok(ts_received, ts_sent) {
        r matches Err(AppError::Custom(m)) && m@ == "Invalid header value"@
    } else {
        match outcome {
            Ok(Ok(payload)) => r matches Ok(reply) && reply.payload@ == payload@ && headers_are(
                reply.headers@,
                given + seq![
                    (IGGY_HEADER_TS_SERVICE_RECEIVED@, ts_received),
                    (IGGY_HEADER_TS_SERVICE_SENT@, ts_sent),
                ],
            ),
            Ok(Err(m)) => r matches Err(AppError::Custom(t)) && t@ == m@,
            Err(e) => r matches Ok(reply) && reply.payload@ == seq![123u8, 125u8] && headers_are(
                reply.headers@,
                given + seq![
                    (IGGY_HEADER_TS_SERVICE_RECEIVED@, ts_received),
                    (IGGY_HEADER_TS_SERVICE_SENT@, ts_sent),
                    (IGGY_HEADER_SERVICE_ERROR@, service_error_name(e)),
                ],
            ),
        }
    }
}

/// The answer to a request, after the headers it starts with (see `service_reply_result`).
pub fn service_reply(
    headers: Vec<(String, String)>,
    ts_received: &str,
    ts_sent: &str,
    outcome: Result<Result<Vec<u8>, String>, ServiceHttpError>,
) -> (r: Result<ServiceReply, AppError>)
    ensures
        service_reply_result(headers_view(headers@), ts_received@, ts_sent@, outcome, r),
{
    proof {
        lemma_reply_header_names_ok(ServiceHttpError::NotFound);
        if let Err(e) = outcome {
            lemma_reply_header_names_ok(e);
        }
    }
    let ghost given = headers_view(headers@);
    let mut headers = headers;
    let h1 = header(IGGY_HEADER_TS_SERVICE_RECEIVED, ts_received)?;
    let h2 = header(IGGY_HEADER_TS_SERVICE_SENT, ts_sent)?;
    headers.push(h1);
    headers.push(h2);
    match outcome {
        Ok(Ok(payload)) => {
            assert(headers_view(headers@) =~= given + seq![
                (IGGY_HEADER_TS_SERVICE_RECEIVED@, ts_received@),
                (IGGY_HEADER_TS_SERVICE_SENT@, ts_sent@),
            ]);
            Ok(ServiceReply { headers, payload })
        },
        Ok(Err(m)) => Err(AppError::Custom(m)),
        Err(e) => {
            let h3 = header(IGGY_HEADER_SERVICE_ERROR, e.name())?;
            headers.push(h3);
            assert(headers_view(headers@) =~= given + seq![
                (IGGY_HEADER_TS_SERVICE_RECEIVED@, ts_received@),
                (IGGY_HEADER_TS_SERVICE_SENT@, ts_sent@),
                (IGGY_HEADER_SERVICE_ERROR@, service_error_name(e)),
            ]);
            let mut payload: Vec<u8> = Vec::new();
            payload.push(123u8);
            payload.push(125u8);
            assert(payload@ =~= seq![123u8, 125u8]);
            Ok(ServiceReply { headers, payload })
        },
    }
}

/// The keys and values of headers, as text.
pub open spec fn headers_view(h: Seq<(String, String)>) -> Seq<(Seq<char>, Seq<char>)> {
    h.map_values(|p: (String, String)| (p.0@, p.1@))
}

// ---------------------------------------------------------------------------
// The consumer, message by message
// ---------------------------------------------------------------------------

/// Where the consumer stands with the message at hand.
#[derive(Debug)]
pub enum ConsumerPhase {
    /// Waiting for the next message.
    Polling,
    /// A message received in time is to be read as a request.
    Decoding,
    /// The request was read and its handler is to run; its answer starts with `headers`.
    Handling { headers: Vec<(String, String)> },
    /// The answer is being sent.
    Sending,
    /// The consumer failed and stops.
    Stopped,
}

/// What happened since the consumer's last step.
#[derive(Debug)]
pub enum ConsumerEvent {
    /// Receiving a message failed.
    ReceiveFailed,
    /// A message was received at `now_nanos` (since the Unix epoch); it was sent at
    /// `sent_micros`.
    Received { now_nanos: u128, sent_micros: u64 },
    /// The message does not read as a request.
    DecodeFailed,
    /// The message reads as a request with this signature.
    Decoded { signature: String },
    /// The handler finished: the times the request was received and answered, and what it
    /// gave (its serialised answer or the serialisation error, or the service's error).
    Handled { ts_received: String, ts_sent: String, outcome: Result<Result<Vec<u8>, String>, ServiceHttpError> },
    /// The answer was sent, or sending it failed.
    Sent,
}

/// What the consumer is to do next.
#[derive(Debug)]
pub enum ConsumerAction {
    /// Go on with the next message; receiving this one failed.
    SkipFailedReceive,
    /// Go on with the next message; this one is too old to be answered.
    SkipStale,
    /// Read the message as a request.
    Decode,
    /// Go on with the next message; this one is no request.
    SkipUndecodable,
    /// Run the handler on the request.
    RunHandler,
    /// Send this answer on the back topic.
    Send(ServiceReply),
    /// Go on with the next message.
    Next,
    /// Stop the consumer with this error.
    Stop(AppError),
    /// The event does not belong to this phase; nothing changes.
    Ignore,
}

/// `r` is the consumer's next phase and action after `event` in `phase`: a failed receive
/// or a message that is no request is passed over; a stale message is passed over unread;
/// a request gets its headers or, where its signature cannot be a header value, stops the
/// consumer; a finished handler gets its answer sent or, where the answer cannot be built,
/// stops the consumer; once sent, the consumer waits for the next message.
pub open spec fn consumer_step_result(
    phase: ConsumerPhase,
    event: ConsumerEvent,
    r: (ConsumerPhase, ConsumerAction),
) -> bool {
    match phase {
        ConsumerPhase::Polling => match event {
            ConsumerEvent::ReceiveFailed => r.0 is Polling && r.1 is SkipFailedReceive,
            ConsumerEvent::Received { now_nanos, sent_micros } => if is_stale(now_nanos, sent_micros) {
                r.0 is Polling && r.1 is SkipStale
            } else {
                r.0 is Decoding && r.1 is Decode
            },
            _ => r.0 == phase && r.1 is Ignore,
        },
        ConsumerPhase::Decoding => match event {
            ConsumerEvent::DecodeFailed => r.0 is Polling && r.1 is SkipUndecodable,
            ConsumerEvent::Decoded { signature } => match r {
                (ConsumerPhase::Handling { headers }, ConsumerAction::RunHandler) => request_headers_result(
                    signature@,
                    Ok(headers),
                ),
                (ConsumerPhase::Stopped, ConsumerAction::Stop(e)) => request_headers_result(signature@, Err(e)),
                _ => false,
            },
            _ => r.0 == phase && r.1 is Ignore,
        },
        ConsumerPhase::Handling { headers } => match event {
            ConsumerEvent::Handled { ts_received, ts_sent, outcome } => match r {
                (ConsumerPhase::Sending, ConsumerAction::Send(reply)) => service_reply_result(
                    headers_view(headers@),
                    ts_received@,
                    ts_sent@,
                    outcome,
                    Ok(reply),
                ),
                (ConsumerPhase::Stopped, ConsumerAction::Stop(e)) => service_reply_result(
                    headers_view(headers@),
                    ts_received@,
                    ts_sent@,
                    outcome,
                    Err(e),
                ),
                _ => false,
            },
            _ => r.0 == phase && r.1 is Ignore,
        },
        ConsumerPhase::Sending => match event {
            ConsumerEvent::Sent => r.0 is Polling && r.1 is Next,
            _ => r.0 == phase && r.1 is Ignore,
        },
        ConsumerPhase::Stopped => r.0 == phase && r.1 is Ignore,
    }
}

/// The consumer's next phase and action after `event` in `phase` (see
/// `consumer_step_result`).
pub fn consumer_step(phase: ConsumerPhase, event: ConsumerEvent) -> (r: (ConsumerPhase, ConsumerAction))
    ensures
        consumer_step_result(phase, event, r),
{
    match phase {
        ConsumerPhase::Polling => match event {
            ConsumerEvent::ReceiveFailed => (ConsumerPhase::Polling, ConsumerAction::SkipFailedReceive),
            ConsumerEvent::Received { now_nanos, sent_micros } => {
                if message_is_stale(now_nanos, sent_micros) {
                    (ConsumerPhase::Polling, ConsumerAction::SkipStale)
                } else {
                    (ConsumerPhase::Decoding, ConsumerAction::Decode)
                }
            },
            _ => (ConsumerPhase::Polling, ConsumerAction::Ignore),
        },
        ConsumerPhase::Decoding => match event {
            ConsumerEvent::DecodeFailed => (ConsumerPhase::Polling, ConsumerAction::SkipUndecodable),
            ConsumerEvent::Decoded { signature } => match request_headers(signature.as_str()) {
                Ok(headers) => (ConsumerPhase::Handling { headers }, ConsumerAction::RunHandler),
                Err(e) => (ConsumerPhase::Stopped, ConsumerAction::Stop(e)),
            },
            _ => (ConsumerPhase::Decoding, ConsumerAction::Ignore),
        },
        ConsumerPhase::Handling { headers } => match event {
            ConsumerEvent::Handled { ts_received, ts_sent, outcome } => {
                match service_reply(headers, ts_received.as_str(), ts_sent.as_str(), outcome) {
                    Ok(reply) => (ConsumerPhase::Sending, ConsumerAction::Send(reply)),
                    Err(e) => (ConsumerPhase::Stopped, ConsumerAction::Stop(e)),
                }
            },
            _ => (ConsumerPhase::Handling { headers }, ConsumerAction::Ignore),
        },
        ConsumerPhase::Sending => match event {
            ConsumerEvent::Sent => (ConsumerPhase::Polling, ConsumerAction::Next),
            _ => (ConsumerPhase::Sending, ConsumerAction::Ignore),
        },
        ConsumerPhase::Stopped => (ConsumerPhase::Stopped, ConsumerAction::Ignore),
    }
}

/// A handler runs only on a request read from a message received in time: the consumer
/// reads a message only when it has just received it and found it not stale, and runs the
/// handler only on a message it read.
pub proof fn lemma_handler_runs_only_on_fresh_messages(
    phase: ConsumerPhase,
    event: ConsumerEvent,
    r: (ConsumerPhase, ConsumerAction),
)
    requires
        consumer_step_result(phase, event, r),
    ensures
        r.1 is Decode ==> phase is Polling && (event matches ConsumerEvent::Received { now_nanos, sent_micros }
            && !is_stale(now_nanos, sent_micros)),
        r.1 is RunHandler ==> phase is Decoding && event is Decoded,
{
}

/// Only a failed signature or answer stops the consumer: a failed receive, a stale message,
/// a message that is no request and a sent answer never do, and once stopped it stays so.
pub proof fn lemma_consumer_stops_only_on_failed_answers(
    phase: ConsumerPhase,
    event: ConsumerEvent,
    r: (ConsumerPhase, ConsumerAction),
)
    requires
        consumer_step_result(phase, event, r),
    ensures
        r.1 is Stop ==> (phase is Decoding && event is Decoded) || (phase is Handling && event is Handled),
        r.0 is Stopped <==> (r.1 is Stop || phase is Stopped),
{
}

/// A failed request's answer carries, after the request's own headers and the two times, the
/// header `err-response-code` holding the name of the very error its handler failed with,
/// from which that error reads back; its payload is `{}`.
pub proof fn lemma_reply_names_the_error(
    given: Seq<(Seq<char>, Seq<char>)>,
    ts_received: Seq<char>,
    ts_sent: Seq<char>,
    e: ServiceHttpError,
    reply: ServiceReply,
)
    requires
        service_reply_result(given, ts_received, ts_sent, Err(e), Ok(reply)),
    ensures
        reply.headers@.len() == given.len() + 3,
        reply.headers@.last().0@ == IGGY_HEADER_SERVICE_ERROR@,
        reply.headers@.last().1@ == service_error_name(e),
        forall|f: ServiceHttpError| reply.headers@.last().1@ == #[trigger] service_error_name(f) ==> f == e,
        reply.payload@ == seq![123u8, 125u8],
{
    let kv = given + seq![
        (IGGY_HEADER_TS_SERVICE_RECEIVED@, ts_received),
        (IGGY_HEADER_TS_SERVICE_SENT@, ts_sent),
        (IGGY_HEADER_SERVICE_ERROR@, service_error_name(e)),
    ];
    let n = reply.headers@.len() - 1;
    assert(reply.headers@[n].0@ == kv[n].0 && reply.headers@[n].1@ == kv[n].1);
    assert forall|f: ServiceHttpError| reply.headers@.last().1@ == #[trigger] service_error_name(f) implies f == e by {
        crate::jsonrpc::lemma_service_error_name_round_trip(f, e);
    }
}

/// A request that its handler answered gets, as the payload of its reply, exactly the
/// serialised answer, and as headers its own headers followed by the times it was received
/// and answered, under `ts-service-received` and `ts-service-sent`, in that order.
pub proof fn lemma_reply_carries_the_answer(
    given: Seq<(Seq<char>, Seq<char>)>,
    ts_received: Seq<char>,
    ts_sent: Seq<char>,
    payload: Vec<u8>,
    reply: ServiceReply,
)
    requires
        service_reply_result(given, ts_received, ts_sent, Ok(Ok(payload)), Ok(reply)),
    ensures
        reply.payload@ == payload@,
        reply.headers@.len() == given.len() + 2,
        forall|i: int| 0 <= i < given.len() ==> (#[trigger] reply.headers@[i]).0@ == given[i].0 && reply.headers@[i].1@
            == given[i].1,
        reply.headers@[given.len() as int].0@ == IGGY_HEADER_TS_SERVICE_RECEIVED@,
        reply.headers@[given.len() as int].1@ == ts_received,
        reply.headers@[given.len() + 1int].0@ == IGGY_HEADER_TS_SERVICE_SENT@,
        reply.headers@[given.len() + 1int].1@ == ts_sent,
{
    let kv = given + seq![(IGGY_HEADER_TS_SERVICE_RECEIVED@, ts_received), (IGGY_HEADER_TS_SERVICE_SENT@, ts_sent)];
    assert forall|i: int| 0 <= i < given.len() implies (#[trigger] reply.headers@[i]).0@ == given[i].0
        && reply.headers@[i].1@ == given[i].1 by {
        assert(kv[i] == given[i]);
    }
    assert(kv[given.len() as int] == (IGGY_HEADER_TS_SERVICE_RECEIVED@, ts_received));
    assert(kv[given.len() + 1int] == (IGGY_HEADER_TS_SERVICE_SENT@, ts_sent));
    assert(reply.headers@[given.len() as int].0@ == kv[given.len() as int].0);
    assert(reply.headers@[given.len() + 1int].0@ == kv[given.len() + 1int].0);
}

/// The answer to a request carries one header, `signature`, holding the request's own
/// signature, whenever that signature can be a header value.
pub proof fn lemma_request_headers_hold_the_signature(signature: Seq<char>, r: Result<Vec<(String, String)>, AppError>)
    requires
        request_headers_result(signature, r),
        header_text_ok(signature),
    ensures
        r matches Ok(h) && h@.len() == 1 && h@[0].0@ == IGGY_HEADER_SIGNATURE@ && h@[0].1@ == signature,
{
    let h = r->Ok_0;
    assert(h@[0].0@ == seq![(IGGY_HEADER_SIGNATURE@, signature)][0].0);
}

} // verus!
