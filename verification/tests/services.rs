use skw::config::{Config, ConfigReady};
use skw::iggy_client::rpc::{
    consumer_names, consumer_settings, consumer_step, message_is_stale, request_headers, service_reply,
    ConsumerAction, ConsumerEvent, ConsumerPhase, ConsumerSettings,
};
use skw::iggy_client::{Compression, Iggy, TopicConfig, TopicExpiry, TopicSize};
use skw::json::{JsonNumber, JsonValue};
use skw::jsonrpc::{internal_request_body, JsonRpcErrorResponse, JsonRpcResponse, ServiceHttpError};
use skw::migrations::{action_from_arg, Action};
use skw::postgres::{schema_settings, PostgresPools, SchemaSettings, MASTER_CONFIG_PATH, SLAVE_CONFIG_PATH};
use skw::rabbitmq::{publish_confirmation, settle_delivery, QueueConfig, RabbitMq, RabbitMqError, TaskOutcome};
use skw::redis_client::Redis;
use skw::AppError;

fn s(x: &str) -> String {
    x.to_string()
}

fn st(x: &str) -> JsonValue {
    JsonValue::String(s(x))
}

fn num(n: u64) -> JsonValue {
    JsonValue::Number(JsonNumber::PosInt(n))
}

fn obj(entries: Vec<(&str, JsonValue)>) -> JsonValue {
    JsonValue::Object(entries.into_iter().map(|(k, v)| (s(k), v)).collect())
}

fn cfg(doc: JsonValue) -> Config<ConfigReady> {
    Config::new("test").load_document(doc, s("/srv"))
}

fn custom(e: &AppError) -> Option<String> {
    match e {
        AppError::Custom(m) => Some(m.clone()),
        _ => None,
    }
}

#[test]
fn topic_config_reads_all_fields() {
    let v = obj(vec![
        ("customName", st("orders")),
        ("partitionsCount", num(3)),
        ("compressionAlgorithm", st("GZip")),
        ("messageExpiry", num(3600)),
        ("maxTopicSize", num(1024)),
    ]);
    let t = TopicConfig::try_from_value(&v).unwrap();
    assert_eq!(
        t,
        TopicConfig {
            custom_name: Some(s("orders")),
            partitions_count: 3,
            compression_algorithm: Compression::Gzip,
            message_expiry: TopicExpiry::ExpireDuration { secs: 3600 },
            max_topic_size: TopicSize::Custom(1024),
        }
    );
}

#[test]
fn topic_config_defaults() {
    let v = obj(vec![
        ("customName", st("")),
        ("compressionAlgorithm", st("lz4")),
        ("messageExpiry", num(0)),
    ]);
    let t = TopicConfig::try_from_value(&v).unwrap();
    assert_eq!(t.custom_name, None);
    assert_eq!(t.partitions_count, 0);
    assert_eq!(t.compression_algorithm, Compression::NoCompression);
    assert_eq!(t.max_topic_size, TopicSize::ServerDefault);
    let big = obj(vec![("messageExpiry", num(1)), ("maxTopicSize", num(u64::MAX)), ("partitionsCount", num(4_294_967_297))]);
    let t = TopicConfig::try_from_value(&big).unwrap();
    assert_eq!(t.max_topic_size, TopicSize::Unlimited);
    assert_eq!(t.partitions_count, 1);
}

#[test]
fn topic_config_refuses_non_object() {
    let e = TopicConfig::try_from_value(&st("x")).unwrap_err();
    assert_eq!(custom(&e), Some(s("invalid topic config")));
}

#[test]
fn consumer_settings_parse_interval() {
    assert_eq!(
        consumer_settings(Some("5s"), Some(10)).unwrap(),
        ConsumerSettings { poll_interval_secs: 5, poll_interval_nanos: 0, batch_length: 10 }
    );
    assert_eq!(
        consumer_settings(None, None).unwrap(),
        ConsumerSettings { poll_interval_secs: 0, poll_interval_nanos: 1_000_000, batch_length: 1 }
    );
    let u = consumer_settings(Some("Unlimited"), None).unwrap();
    assert_eq!((u.poll_interval_secs, u.poll_interval_nanos), (0, 0));
    let e = consumer_settings(Some("soon"), None).unwrap_err();
    assert!(custom(&e).unwrap().starts_with("invalid pool interval: soon; error:"));
}

#[test]
fn consumer_settings_keep_sub_microsecond_intervals() {
    let s = consumer_settings(Some("1s 500ns"), Some(3)).unwrap();
    assert_eq!((s.poll_interval_secs, s.poll_interval_nanos, s.batch_length), (1, 500, 3));
    let s = consumer_settings(Some("99999999999ns"), None).unwrap();
    assert_eq!((s.poll_interval_secs, s.poll_interval_nanos), (99, 999_999_999));
    let s = consumer_settings(Some("000000000001ms"), None).unwrap();
    assert_eq!((s.poll_interval_secs, s.poll_interval_nanos), (0, 1_000_000));
    let s = consumer_settings(Some("00 100000000000 0us"), None).unwrap_err();
    assert_eq!(custom(&s), Some(String::from("invalid pool interval: 00 100000000000 0us; error:too many digits")));
}

#[test]
fn consumer_settings_refuse_too_many_digits() {
    let e = consumer_settings(Some("18446744073709551615s 500ms 500ms"), None).unwrap_err();
    assert_eq!(
        custom(&e),
        Some(s("invalid pool interval: 18446744073709551615s 500ms 500ms; error:too many digits"))
    );
    let e = consumer_settings(Some("100000000000ns"), None).unwrap_err();
    assert_eq!(custom(&e), Some(s("invalid pool interval: 100000000000ns; error:too many digits")));
}

#[test]
fn consumer_names_follow_config() {
    let c = cfg(obj(vec![
        ("iggy", obj(vec![("streamPrefix", st("skw"))])),
        ("service", obj(vec![("name", st("skw-orders-service"))])),
    ]));
    let n = consumer_names(&c);
    assert_eq!(n.stream, "skw-0.1.0");
    assert_eq!(n.topic, "orders-0.1.0");
    assert_eq!(n.back_topic, "gate-back-0.1.0");
    assert_eq!(n.consumer, "consumer-orders-0.1.0");
}

#[test]
fn staleness_uses_timeout() {
    let sent: u64 = 1_000_000;
    let sent_ns = 1_000_000_000u128;
    assert!(!message_is_stale(sent_ns, sent));
    assert!(!message_is_stale(sent_ns + 30_000_000_000, sent));
    assert!(message_is_stale(sent_ns + 30_000_000_001, sent));
    assert!(!message_is_stale(0, sent));
}

#[test]
fn request_headers_hold_signature() {
    assert_eq!(request_headers("abc").unwrap(), vec![(s("signature"), s("abc"))]);
    let e = request_headers("").unwrap_err();
    assert_eq!(custom(&e), Some(s("Invalid header value")));
    let long = "x".repeat(256);
    assert!(request_headers(&long).is_err());
    assert!(request_headers(&"x".repeat(255)).is_ok());
}

#[test]
fn reply_with_payload() {
    let h = request_headers("sig").unwrap();
    let r = service_reply(h, "t1", "t2", Ok(Ok(b"{\"ok\":1}".to_vec()))).unwrap();
    assert_eq!(
        r.headers,
        vec![(s("signature"), s("sig")), (s("ts-service-received"), s("t1")), (s("ts-service-sent"), s("t2"))]
    );
    assert_eq!(r.payload, b"{\"ok\":1}".to_vec());
}

#[test]
fn reply_with_service_error() {
    let h = request_headers("sig").unwrap();
    let r = service_reply(h, "t1", "t2", Err(ServiceHttpError::Forbidden)).unwrap();
    assert_eq!(r.headers[3], (s("err-response-code"), s("Forbidden")));
    assert_eq!(r.payload, b"{}".to_vec());
}

#[test]
fn reply_fails_on_serialisation_error_or_bad_header() {
    let e = service_reply(vec![], "t1", "t2", Ok(Err(s("boom")))).unwrap_err();
    assert_eq!(custom(&e), Some(s("boom")));
    let e = service_reply(vec![], "", "t2", Ok(Ok(vec![1]))).unwrap_err();
    assert_eq!(custom(&e), Some(s("Invalid header value")));
}

#[test]
fn service_errors_round_trip() {
    for e in [
        ServiceHttpError::NotFound,
        ServiceHttpError::Forbidden,
        ServiceHttpError::BadRequest,
        ServiceHttpError::UnprocessableEntity,
    ] {
        assert_eq!(ServiceHttpError::from_name(e.name()), Some(e));
        assert_eq!(ServiceHttpError::from_status(e.status()), Some(e));
    }
    assert_eq!(ServiceHttpError::NotFound.status(), 404);
    assert_eq!(ServiceHttpError::UnprocessableEntity.name(), "UnprocessableEntity");
    assert_eq!(ServiceHttpError::from_name("notfound"), None);
    assert_eq!(ServiceHttpError::from_status(200), None);
    assert_eq!(ServiceHttpError::from_status(500), None);
}

#[test]
fn rpc_responses_pick_status() {
    let (status, body) = JsonRpcResponse::new(1u8, s("done")).into_response();
    assert_eq!((status, body), (200, s("done")));
    let (status, body) = JsonRpcErrorResponse::new((), AppError::Service(ServiceHttpError::BadRequest)).into_response();
    assert_eq!((status, body.as_str()), (400, "{}"));
    let (status, _) = JsonRpcErrorResponse::new((), AppError::Custom(s("x"))).into_response();
    assert_eq!(status, 500);
}

#[test]
fn internal_body_takes_params() {
    let req = obj(vec![("Params", obj(vec![("id", num(7))])), ("Other", JsonValue::Null)]);
    let body = internal_request_body("GetOrder", req);
    assert_eq!(body, obj(vec![("Method", st("GetOrder")), ("Params", obj(vec![("id", num(7))]))]));
    let body = internal_request_body("Ping", st("Ping"));
    assert_eq!(body, obj(vec![("Method", st("Ping")), ("Params", JsonValue::Null)]));
}

#[test]
fn queue_config_defaults_and_prefetch() {
    let q = QueueConfig::new("emails");
    assert_eq!(q, QueueConfig { name: s("emails-0.1.0"), durable: true, prefetch_count: 10 });
    let q = q.prefetch(1);
    assert_eq!(q.prefetch_count, 1);
    assert_eq!(q.name, "emails-0.1.0");
}

#[test]
fn deliveries_settle_by_outcome() {
    assert_eq!(settle_delivery(None), TaskOutcome::Nack { requeue: true });
    assert_eq!(settle_delivery(Some(TaskOutcome::Ack)), TaskOutcome::Ack);
    assert_eq!(settle_delivery(Some(TaskOutcome::Nack { requeue: true })), TaskOutcome::Nack { requeue: true });
}

#[test]
fn publish_confirmation_reports_nack() {
    assert!(publish_confirmation("q-0.1.0", true, "Ack(None)").is_ok());
    match publish_confirmation("q-0.1.0", false, "Nack(None)") {
        Err(RabbitMqError::Custom(m)) => assert_eq!(m, "broker did not confirm publish to q-0.1.0: Nack(None)"),
        other => panic!("unexpected {:?}", other),
    }
}

#[test]
fn postgres_pools_read_urls() {
    let c = cfg(obj(vec![(
        "postgres",
        obj(vec![
            ("master", obj(vec![("url", st("postgres://m")), ("createServiceSchema", JsonValue::Bool(true)), ("setSearchPathByService", JsonValue::Bool(false))])),
        ]),
    )]));
    let pools = PostgresPools::<skw::postgres::Loaded>::new(&c);
    assert_eq!(pools.master_url(), Some("postgres://m"));
    assert_eq!(pools.slave_url(), None);
    let connected = pools.connected();
    assert_eq!(connected.master_url(), Some("postgres://m"));
    assert_eq!(
        schema_settings(&c, MASTER_CONFIG_PATH),
        Some(SchemaSettings { create_schema: true, set_search_path: false })
    );
    assert_eq!(schema_settings(&c, SLAVE_CONFIG_PATH), None);
}

#[test]
fn after_connect_statements() {
    let both = SchemaSettings { create_schema: true, set_search_path: true };
    assert_eq!(
        both.after_connect_statement("orders"),
        Some(s("CREATE SCHEMA IF NOT EXISTS \"orders\"; SET search_path = 'orders';"))
    );
    let path = SchemaSettings { create_schema: false, set_search_path: true };
    assert_eq!(path.after_connect_statement("orders"), Some(s("SET search_path = 'orders'")));
    let none = SchemaSettings { create_schema: false, set_search_path: false };
    assert_eq!(none.after_connect_statement("orders"), None);
}

#[test]
fn migration_actions() {
    assert_eq!(action_from_arg("up"), Ok(Action::Up));
    assert_eq!(action_from_arg("down"), Ok(Action::Down));
    assert_eq!(action_from_arg("Up"), Err(s("cannot parse command line arg")));
}

#[test]
fn clients_start_unconnected() {
    let c = cfg(obj(vec![]));
    let iggy = Iggy::<skw::iggy_client::Loaded>::new(&c);
    let rabbit = RabbitMq::<skw::rabbitmq::Loaded>::new(&c);
    let redis = Redis::<skw::redis_client::Loaded>::new(&c);
    let _ = (iggy, rabbit, redis);
}

#[test]
fn consumer_passes_over_failed_and_stale_messages() {
    let (p, a) = consumer_step(ConsumerPhase::Polling, ConsumerEvent::ReceiveFailed);
    assert!(matches!(p, ConsumerPhase::Polling));
    assert!(matches!(a, ConsumerAction::SkipFailedReceive));
    let sent: u64 = 1_700_000_000_000_000;
    let sent_ns = sent as u128 * 1000;
    let (p, a) = consumer_step(
        ConsumerPhase::Polling,
        ConsumerEvent::Received { now_nanos: sent_ns + 30_000_000_001, sent_micros: sent },
    );
    assert!(matches!(p, ConsumerPhase::Polling));
    assert!(matches!(a, ConsumerAction::SkipStale));
    let (p, a) = consumer_step(ConsumerPhase::Polling, ConsumerEvent::Received { now_nanos: sent_ns + 5, sent_micros: sent });
    assert!(matches!(p, ConsumerPhase::Decoding));
    assert!(matches!(a, ConsumerAction::Decode));
    let (p, a) = consumer_step(ConsumerPhase::Decoding, ConsumerEvent::DecodeFailed);
    assert!(matches!(p, ConsumerPhase::Polling));
    assert!(matches!(a, ConsumerAction::SkipUndecodable));
}

#[test]
fn consumer_answers_a_request() {
    let (p, a) = consumer_step(ConsumerPhase::Decoding, ConsumerEvent::Decoded { signature: s("sig") });
    assert!(matches!(a, ConsumerAction::RunHandler));
    match &p {
        ConsumerPhase::Handling { headers } => assert_eq!(headers, &vec![(s("signature"), s("sig"))]),
        other => panic!("unexpected phase {other:?}"),
    }
    let (p, a) = consumer_step(
        p,
        ConsumerEvent::Handled { ts_received: s("t1"), ts_sent: s("t2"), outcome: Err(ServiceHttpError::NotFound) },
    );
    assert!(matches!(p, ConsumerPhase::Sending));
    match a {
        ConsumerAction::Send(reply) => {
            assert_eq!(reply.payload, b"{}".to_vec());
            assert_eq!(
                reply.headers,
                vec![
                    (s("signature"), s("sig")),
                    (s("ts-service-received"), s("t1")),
                    (s("ts-service-sent"), s("t2")),
                    (s("err-response-code"), s("NotFound")),
                ]
            );
        }
        other => panic!("unexpected action {other:?}"),
    }
    let (p, a) = consumer_step(p, ConsumerEvent::Sent);
    assert!(matches!(p, ConsumerPhase::Polling));
    assert!(matches!(a, ConsumerAction::Next));
}

#[test]
fn consumer_stops_on_a_bad_signature_or_answer() {
    let (p, a) = consumer_step(ConsumerPhase::Decoding, ConsumerEvent::Decoded { signature: s("") });
    assert!(matches!(p, ConsumerPhase::Stopped));
    match a {
        ConsumerAction::Stop(e) => assert_eq!(custom(&e), Some(s("Invalid header value"))),
        other => panic!("unexpected action {other:?}"),
    }
    let handling = ConsumerPhase::Handling { headers: vec![(s("signature"), s("sig"))] };
    let (p, a) = consumer_step(
        handling,
        ConsumerEvent::Handled { ts_received: s("t1"), ts_sent: s("t2"), outcome: Ok(Err(s("cannot serialise"))) },
    );
    assert!(matches!(p, ConsumerPhase::Stopped));
    match a {
        ConsumerAction::Stop(e) => assert_eq!(custom(&e), Some(s("cannot serialise"))),
        other => panic!("unexpected action {other:?}"),
    }
    let (p, a) = consumer_step(ConsumerPhase::Stopped, ConsumerEvent::Sent);
    assert!(matches!(p, ConsumerPhase::Stopped));
    assert!(matches!(a, ConsumerAction::Ignore));
    let (p, a) = consumer_step(ConsumerPhase::Polling, ConsumerEvent::Sent);
    assert!(matches!(p, ConsumerPhase::Polling));
    assert!(matches!(a, ConsumerAction::Ignore));
}
