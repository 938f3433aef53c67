use skw::config::{Config, ConfigReady};
use skw::json::{JsonNumber, JsonValue};
use skw::{
    skw_get_back_topic_name, skw_get_consumer_name, skw_get_queue_name, skw_get_stream_name,
    skw_get_stream_topic_name, skw_is_valid_name,
};

fn s(x: &str) -> String {
    x.to_string()
}

fn obj(entries: Vec<(&str, JsonValue)>) -> JsonValue {
    JsonValue::Object(entries.into_iter().map(|(k, v)| (s(k), v)).collect())
}

fn service_config(name: &str) -> Config<ConfigReady> {
    let doc = obj(vec![
        ("iggy", obj(vec![("streamPrefix", JsonValue::String(s("skw-stream")))])),
        ("service", obj(vec![("name", JsonValue::String(s(name)))])),
        ("port", JsonValue::Number(JsonNumber::PosInt(8080))),
    ]);
    Config::new("dev").load_document(doc, s("/srv"))
}

#[test]
fn back_topic_name_carries_version() {
    assert_eq!(skw_get_back_topic_name(), "gate-back-0.1.0");
}

#[test]
fn consumer_name_prefixes_topic() {
    assert_eq!(skw_get_consumer_name("orders-0.1.0"), "consumer-orders-0.1.0");
    assert_eq!(skw_get_consumer_name(""), "consumer-");
}

#[test]
fn queue_name_carries_version() {
    assert_eq!(skw_get_queue_name("emails"), "emails-0.1.0");
}

#[test]
fn stream_name_uses_configured_prefix() {
    let cfg = service_config("skw-orders-service");
    assert_eq!(skw_get_stream_name(&cfg), "skw-stream-0.1.0");
}

#[test]
fn stream_topic_name_strips_prefix_and_suffix() {
    assert_eq!(skw_get_stream_topic_name(&service_config("skw-orders-service")), "orders-0.1.0");
    assert_eq!(skw_get_stream_topic_name(&service_config("SKW-Billing-Service")), "billing-0.1.0");
    assert_eq!(skw_get_stream_topic_name(&service_config("gateway")), "gateway-0.1.0");
    assert_eq!(skw_get_stream_topic_name(&service_config("skw-")), "-0.1.0");
    assert_eq!(skw_get_stream_topic_name(&service_config("-service")), "-0.1.0");
    assert_eq!(skw_get_stream_topic_name(&service_config("my-service-x")), "my-service-x-0.1.0");
}

#[test]
fn valid_names_are_kept() {
    assert_eq!(skw_is_valid_name("skw-orders_v1.2"), Some(s("skw-orders_v1.2")));
    assert_eq!(skw_is_valid_name("A"), Some(s("A")));
}

#[test]
fn invalid_names_are_refused() {
    assert_eq!(skw_is_valid_name(""), None);
    assert_eq!(skw_is_valid_name("orders service"), None);
    assert_eq!(skw_is_valid_name("orders/1"), None);
    assert_eq!(skw_is_valid_name("ordérs"), None);
}
