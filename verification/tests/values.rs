use es_client::crypto::Encryptor;
use es_client::json::{field, into_array, object_insert, remove_field, take_field, JsonNumber, JsonValue};
use es_client::models::{AppConfig, AuthType, ProfileConfig};
use es_client::state::AppState;
use es_client::clock::{clock_now, rfc3339_seconds_ago};
use es_client::text::{concat2, concat3, path_join, str_eq, str_starts_with, u64_to_decimal};

fn s(t: &str) -> JsonValue {
    JsonValue::String(t.to_string())
}

#[test]
fn object_insert_replaces_or_appends() {
    let mut e: Vec<(String, JsonValue)> = Vec::new();
    object_insert(&mut e, "a".to_string(), s("1"));
    object_insert(&mut e, "b".to_string(), s("2"));
    object_insert(&mut e, "a".to_string(), s("3"));
    assert_eq!(e.len(), 2);
    assert_eq!(e[0].0, "a");
    assert!(matches!(&e[0].1, JsonValue::String(t) if t == "3"));
    assert_eq!(e[1].0, "b");
}

#[test]
fn field_lookups() {
    let v = JsonValue::Object(vec![
        ("k".to_string(), s("first")),
        ("k".to_string(), s("second")),
        ("n".to_string(), JsonValue::Number(JsonNumber::PosInt(1))),
    ]);
    assert!(matches!(field(&v, "k"), Some(JsonValue::String(t)) if t == "first"));
    assert!(field(&v, "missing").is_none());
    assert!(field(&s("x"), "k").is_none());
    assert!(matches!(take_field(s("x"), "k"), JsonValue::Null));
    let mut entries = match v {
        JsonValue::Object(e) => e,
        _ => unreachable!(),
    };
    assert!(matches!(remove_field(&mut entries, "k"), Some(JsonValue::String(t)) if t == "first"));
    assert_eq!(entries.len(), 2);
    assert!(remove_field(&mut entries, "zzz").is_none());
    assert!(into_array(JsonValue::Array(vec![JsonValue::Null])).unwrap().len() == 1);
    assert!(into_array(s("x")).is_none());
}

#[test]
fn numbers() {
    assert_eq!(JsonNumber::PosInt(5).as_u64(), Some(5));
    assert_eq!(JsonNumber::NegInt(-5).as_u64(), None);
    assert_eq!(JsonNumber::PosInt(u64::MAX).as_i64(), None);
    assert_eq!(JsonNumber::PosInt(7).as_i64(), Some(7));
    assert_eq!(JsonNumber::NegInt(-5).as_i64(), Some(-5));
    assert_eq!(JsonNumber::Float(0).as_i64(), None);
    assert!(JsonNumber::Float(0).is_f64());
    assert!(!JsonNumber::PosInt(0).is_f64());
}

#[test]
fn text_helpers() {
    assert_eq!(u64_to_decimal(0), "0");
    assert_eq!(u64_to_decimal(1234567890), "1234567890");
    assert_eq!(u64_to_decimal(u64::MAX), "18446744073709551615");
    assert_eq!(path_join("/home/u", ".es_client"), "/home/u/.es_client");
    assert_eq!(path_join("/home/u/", "x"), "/home/u/x");
    assert_eq!(path_join("/home/u", "/abs"), "/abs");
    assert_eq!(path_join("", "rel"), "rel");
    assert_eq!(concat2("a", "b"), "ab");
    assert_eq!(concat3("a", "b", "c"), "abc");
    assert!(str_eq("é", "é"));
    assert!(!str_eq("a", "ab"));
    assert!(str_starts_with("SELECT 1", "SELECT"));
    assert!(!str_starts_with("SEL", "SELECT"));
}

#[test]
fn models_and_state() {
    let d = AppConfig::default();
    assert_eq!(d.log_level, "info");
    assert_eq!(d.theme, "dark");
    let mut p = ProfileConfig::new("n".to_string(), "h".to_string(), AuthType::Basic).unwrap();
    p.username = Some("u".to_string());
    let q = p.copy();
    assert_eq!(q.name, "n");
    assert_eq!(q.username.as_deref(), Some("u"));
    assert_eq!(q.created_at, p.created_at);
    let state = AppState::new(Encryptor::new(None).unwrap()).unwrap();
    let service = state.config_service.lock().unwrap();
    assert!(service.get_profiles_path().ends_with("/.es_client/profiles.toml"));
}

#[test]
fn profile_at_a_given_time_and_clock() {
    let p = ProfileConfig::new_at("n".to_string(), "h".to_string(), AuthType::ApiKey, 1_700_000_000);
    assert_eq!(p.created_at, 1_700_000_000);
    assert_eq!(p.updated_at, 1_700_000_000);
    assert!(p.username.is_none() && p.password_encrypted.is_none() && p.api_key_encrypted.is_none());
    assert!(p.use_ssl && p.verify_certificate);
    let (secs, nanos) = clock_now().unwrap();
    assert!(secs > 1_600_000_000 && nanos < 1_000_000_000);
    let t = rfc3339_seconds_ago(3600).unwrap();
    assert!(t.ends_with("+00:00"));
}

#[test]
fn state_under_a_given_home() {
    let state = AppState::new_under(Encryptor::new(Some(vec![3u8; 32])).unwrap(), "/home/u");
    let service = state.config_service.lock().unwrap();
    assert_eq!(service.config_dir(), "/home/u/.es_client");
    assert_eq!(service.encryptor().key_bytes(), &[3u8; 32][..]);
}
