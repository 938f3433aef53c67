use skw::config::{
    convert_env_to_value, env_value_error, Config, ConfigReady, EnvLookup, EnvOverrideError, OverrideError,
    OverrideOutcome,
};
use skw::json::{JsonNumber, JsonValue};

fn s(x: &str) -> String {
    x.to_string()
}

fn st(x: &str) -> JsonValue {
    JsonValue::String(s(x))
}

fn num(n: u64) -> JsonValue {
    JsonValue::Number(JsonNumber::PosInt(n))
}

fn obj(entries: Vec<(&str, JsonValue)>) -> JsonValue {
    JsonValue::Object(entries.into_iter().map(|(k, v)| (s(k), v)).collect())
}

fn sample() -> Config<ConfigReady> {
    let doc = obj(vec![
        ("service", obj(vec![("name", st("skw-orders-service")), ("debug", JsonValue::Bool(true))])),
        ("limits", JsonValue::Array(vec![num(1), num(5_000_000_000), JsonValue::Number(JsonNumber::NegInt(-3))])),
        ("a/b", st("slash")),
        ("m~n", st("tilde")),
        ("", st("empty key")),
        (
            "envOverrides",
            obj(vec![
                ("/service/name", st("SERVICE_NAME")),
                ("/missing", st("MISSING")),
                ("/limits", num(7)),
            ]),
        ),
    ]);
    Config::new("prod").load_document(doc, s("/etc/skw"))
}

#[test]
fn config_file_path_joins_dir_and_env() {
    let cfg = Config::new("prod");
    assert_eq!(cfg.config_file_path("/etc/skw"), "/etc/skw/prod.json");
    assert_eq!(cfg.env(), "prod");
}

#[test]
fn pointer_reads_nested_values() {
    let cfg = sample();
    assert_eq!(cfg.get("/service/name"), Some(&st("skw-orders-service")));
    assert_eq!(cfg.get("/limits/1"), Some(&num(5_000_000_000)));
    assert_eq!(cfg.get("/limits/3"), None);
    assert_eq!(cfg.get("/limits/01"), None);
    assert_eq!(cfg.get("/limits/+1"), None);
    assert_eq!(cfg.get("service/name"), None);
    assert!(matches!(cfg.get(""), Some(JsonValue::Object(_))));
}

#[test]
fn pointer_unescapes_tokens() {
    let cfg = sample();
    assert_eq!(cfg.get("/a~1b"), Some(&st("slash")));
    assert_eq!(cfg.get("/m~0n"), Some(&st("tilde")));
    assert_eq!(cfg.get("/"), Some(&st("empty key")));
}

#[test]
fn expect_accessors_read_typed_values() {
    let cfg = sample();
    assert_eq!(cfg.expect_str("/service/name"), "skw-orders-service");
    assert_eq!(cfg.expect_string("/service/name"), s("skw-orders-service"));
    assert!(cfg.expect_bool("/service/debug"));
    assert_eq!(cfg.expect_u64("/limits/1"), 5_000_000_000);
    assert_eq!(cfg.expect_u32("/limits/1"), 705_032_704);
    assert_eq!(cfg.expect_value_cloned("/limits/2"), JsonValue::Number(JsonNumber::NegInt(-3)));
}

#[test]
fn write_then_read_back() {
    let mut cfg = sample();
    assert!(cfg.replace_at("/service/name", st("billing")));
    assert_eq!(cfg.get("/service/name"), Some(&st("billing")));
    assert!(cfg.replace_at("/limits/0", num(9)));
    assert_eq!(cfg.get("/limits/0"), Some(&num(9)));
    assert_eq!(cfg.get("/limits/1"), Some(&num(5_000_000_000)));
}

#[test]
fn write_to_missing_path_changes_nothing() {
    let mut cfg = sample();
    assert!(!cfg.replace_at("/service/port", num(1)));
    assert_eq!(cfg.get("/service/port"), None);
    assert_eq!(cfg.get("/service/name"), Some(&st("skw-orders-service")));
}

#[test]
fn override_entries_list_keys_and_env_names() {
    let cfg = sample();
    let entries = cfg.override_entries();
    assert_eq!(
        entries,
        vec![
            (s("/service/name"), Some(s("SERVICE_NAME"))),
            (s("/missing"), Some(s("MISSING"))),
            (s("/limits"), None),
        ]
    );
    let empty = Config::new("dev").load_document(obj(vec![]), s("/"));
    assert!(empty.override_entries().is_empty());
}

#[test]
fn env_values_convert_by_kind() {
    assert_eq!(convert_env_to_value(&st("x"), s("hello")), st("hello"));
    assert_eq!(convert_env_to_value(&num(1), s("42")), num(42));
    assert_eq!(convert_env_to_value(&num(1), s("-7")), JsonValue::Number(JsonNumber::NegInt(-7)));
    assert_eq!(convert_env_to_value(&num(1), s("2.5")), JsonValue::Number(JsonNumber::Float(s("2.5"))));
    assert_eq!(convert_env_to_value(&JsonValue::Bool(false), s("true")), JsonValue::Bool(true));
    assert_eq!(convert_env_to_value(&JsonValue::Bool(true), s("false")), JsonValue::Bool(false));
    assert_eq!(
        convert_env_to_value(&JsonValue::Array(vec![]), s("[1, \"a\", {\"k\": [true, null]}]")),
        JsonValue::Array(vec![
            num(1),
            st("a"),
            obj(vec![("k", JsonValue::Array(vec![JsonValue::Bool(true), JsonValue::Null]))]),
        ])
    );
}

#[test]
fn env_values_that_cannot_stand_in() {
    assert_eq!(env_value_error(&st("x"), "anything"), None);
    assert_eq!(env_value_error(&num(1), "42"), None);
    assert_eq!(env_value_error(&num(1), "abc"), Some(EnvOverrideError::InvalidNumber));
    assert_eq!(env_value_error(&num(1), "4x"), Some(EnvOverrideError::InvalidNumber));
    assert_eq!(env_value_error(&num(1), " 4"), Some(EnvOverrideError::InvalidNumber));
    assert_eq!(env_value_error(&JsonValue::Bool(true), "TRUE"), Some(EnvOverrideError::InvalidBoolean));
    assert_eq!(env_value_error(&JsonValue::Bool(true), "yes"), Some(EnvOverrideError::InvalidBoolean));
    assert_eq!(env_value_error(&JsonValue::Array(vec![]), "1,2"), Some(EnvOverrideError::InvalidArray));
    assert_eq!(env_value_error(&JsonValue::Array(vec![]), "{}"), Some(EnvOverrideError::InvalidArray));
    assert_eq!(env_value_error(&JsonValue::Array(vec![]), "[]"), None);
    assert_eq!(env_value_error(&JsonValue::Null, "x"), Some(EnvOverrideError::UnsupportedType));
    assert_eq!(env_value_error(&obj(vec![]), "x"), Some(EnvOverrideError::UnsupportedType));
}

#[test]
fn overrides_apply_in_order() {
    let mut cfg = sample();
    let lookups = vec![
        (s("/service/name"), Some(s("SERVICE_NAME")), EnvLookup::Present(s("skw-billing-service"))),
        (s("/missing"), Some(s("MISSING")), EnvLookup::Present(s("x"))),
        (s("/limits"), Some(s("LIMITS")), EnvLookup::Present(s("[9]"))),
        (s("/limits/0"), Some(s("FIRST")), EnvLookup::Present(s("10"))),
        (s("/service/debug"), Some(s("DEBUG")), EnvLookup::NotPresent),
    ];
    let outs = cfg.override_values_from_env(lookups);
    assert_eq!(
        outs,
        vec![
            OverrideOutcome::Replaced,
            OverrideOutcome::PathMissing,
            OverrideOutcome::Replaced,
            OverrideOutcome::Replaced,
            OverrideOutcome::VariableNotFound,
        ]
    );
    assert_eq!(cfg.get("/service/name"), Some(&st("skw-billing-service")));
    assert_eq!(cfg.get("/limits"), Some(&JsonValue::Array(vec![num(10)])));
    assert_eq!(cfg.get("/service/debug"), Some(&JsonValue::Bool(true)));
    assert_eq!(cfg.get("/missing"), None);
    assert_eq!(cfg.env(), "prod");
}

#[test]
fn overrides_without_replacement_keep_the_document() {
    let mut cfg = sample();
    let before = cfg.get("").unwrap().deep_clone();
    let lookups = vec![
        (s("/service/name"), Some(s("SERVICE_NAME")), EnvLookup::NotPresent),
        (s("/nowhere"), None, EnvLookup::NotPresent),
    ];
    let outs = cfg.try_override_values_from_env(lookups).unwrap();
    assert_eq!(outs, vec![OverrideOutcome::VariableNotFound, OverrideOutcome::PathMissing]);
    assert_eq!(cfg.get(""), Some(&before));
}

#[test]
fn overrides_stop_at_the_first_that_fails() {
    let mut cfg = sample();
    let lookups = vec![
        (s("/service/name"), Some(s("SERVICE_NAME")), EnvLookup::Present(s("renamed"))),
        (s("/service/debug"), Some(s("DEBUG")), EnvLookup::Present(s("yes"))),
        (s("/limits/0"), Some(s("FIRST")), EnvLookup::Present(s("10"))),
    ];
    assert_eq!(
        cfg.try_override_values_from_env(lookups),
        Err(OverrideError::Conversion(s("/service/debug"), EnvOverrideError::InvalidBoolean))
    );
    assert_eq!(cfg.get("/service/name"), Some(&st("skw-orders-service")));
    assert_eq!(cfg.get("/limits/0"), Some(&num(1)));

    let mut cfg = sample();
    let r = cfg.try_override_values_from_env(vec![(s("/service/name"), None, EnvLookup::NotPresent)]);
    assert_eq!(r, Err(OverrideError::NameNotString(s("/service/name"))));
    let r = cfg.try_override_values_from_env(vec![(s("/service/name"), Some(s("NAME")), EnvLookup::NotUnicode)]);
    assert_eq!(r, Err(OverrideError::NotUnicode(s("/service/name"), s("NAME"))));
    let r = cfg.try_override_values_from_env(vec![(s("/limits"), Some(s("LIMITS")), EnvLookup::Present(s("1,2")))]);
    assert_eq!(r, Err(OverrideError::Conversion(s("/limits"), EnvOverrideError::InvalidArray)));
    let r = cfg.try_override_values_from_env(vec![(s(""), Some(s("ALL")), EnvLookup::Present(s("{}")))]);
    assert_eq!(r, Err(OverrideError::Conversion(s(""), EnvOverrideError::UnsupportedType)));
}

#[test]
fn deep_clone_copies_the_document() {
    let cfg = sample();
    let whole = cfg.get("").unwrap();
    assert_eq!(&whole.deep_clone(), whole);
}

#[test]
fn last_override_reads_back() {
    let mut cfg = sample();
    let lookups = vec![
        (s("/limits/1"), Some(s("SECOND")), EnvLookup::Present(s("6"))),
        (s("/service/debug"), Some(s("DEBUG")), EnvLookup::Present(s("false"))),
    ];
    let outs = cfg.override_values_from_env(lookups);
    assert_eq!(outs, vec![OverrideOutcome::Replaced, OverrideOutcome::Replaced]);
    assert_eq!(cfg.get("/service/debug"), Some(&JsonValue::Bool(false)));
    assert_eq!(cfg.get("/limits/1"), Some(&num(6)));
}

#[test]
fn configuration_text_loads_as_its_document() {
    let text = "{\"service\": {\"name\": \"skw-orders-service\", \"port\": 8080}, \"limits\": [1, -2, 2.5]}";
    let cfg = Config::new("prod").load_text(text, s("/etc/skw")).unwrap();
    assert_eq!(cfg.get("/service/name"), Some(&st("skw-orders-service")));
    assert_eq!(cfg.get("/service/port"), Some(&num(8080)));
    assert_eq!(cfg.get("/limits/1"), Some(&JsonValue::Number(JsonNumber::NegInt(-2))));
    assert_eq!(cfg.get("/limits/2"), Some(&JsonValue::Number(JsonNumber::Float(s("2.5")))));
    assert_eq!(cfg.env(), "prod");
    let cfg = Config::new("prod").load("[]", s("/"));
    assert_eq!(cfg.get(""), Some(&JsonValue::Array(vec![])));
    assert!(Config::new("prod").load_text("{not json", s("/")).is_none());
    assert!(Config::new("prod").load_text("", s("/")).is_none());
}

#[test]
fn overriding_twice_is_overriding_once() {
    let lookups = vec![
        (s("/service/name"), Some(s("SERVICE_NAME")), EnvLookup::Present(s("skw-billing-service"))),
        (s("/limits"), Some(s("LIMITS")), EnvLookup::Present(s("[9, {\"a\": 1.5}]"))),
        (s("/service/debug"), Some(s("DEBUG")), EnvLookup::NotPresent),
        (s("/missing"), Some(s("MISSING")), EnvLookup::Present(s("x"))),
    ];
    let mut once = sample();
    let first = once.override_values_from_env(lookups.clone());
    let mut twice = once.clone();
    let second = twice.override_values_from_env(lookups);
    assert_eq!(first, second);
    assert_eq!(twice.get(""), once.get(""));
}

#[test]
fn overriding_twice_differs_where_pointers_meet() {
    let lookups = vec![
        (s("/limits/3"), Some(s("FOURTH")), EnvLookup::Present(s("x"))),
        (s("/limits"), Some(s("LIMITS")), EnvLookup::Present(s("[1, 2, 3, 4]"))),
    ];
    let mut cfg = sample();
    let first = cfg.try_override_values_from_env(lookups.clone()).unwrap();
    assert_eq!(first, vec![OverrideOutcome::PathMissing, OverrideOutcome::Replaced]);
    assert_eq!(
        cfg.try_override_values_from_env(lookups),
        Err(OverrideError::Conversion(s("/limits/3"), EnvOverrideError::InvalidNumber))
    );
}
