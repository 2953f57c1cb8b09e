use es_client::json::{field, JsonNumber, JsonValue};
use es_client::sample::{
    analytics_document, generate_analytics, max_sample_documents, generate_logs, generate_products, log_document,
    pad_zeros, product_document, sample_documents, sample_index_created_message,
    sample_index_exists_message, sample_template, to_ascii_lower, u64_to_hex, SampleTemplate,
};

fn text<'a>(doc: &'a JsonValue, key: &str) -> &'a str {
    match field(doc, key) {
        Some(JsonValue::String(s)) => s.as_str(),
        other => panic!("{} is not text: {:?}", key, other),
    }
}

fn uint(doc: &JsonValue, key: &str) -> u64 {
    match field(doc, key) {
        Some(JsonValue::Number(JsonNumber::PosInt(n))) => *n,
        other => panic!("{} is not an unsigned integer: {:?}", key, other),
    }
}

fn is_string(v: Option<&JsonValue>) -> bool {
    matches!(v, Some(JsonValue::String(_)))
}

fn is_f64(v: Option<&JsonValue>) -> bool {
    match v {
        Some(JsonValue::Number(n)) => n.is_f64(),
        _ => false,
    }
}

fn price(doc: &JsonValue) -> f64 {
    match field(doc, "price") {
        Some(JsonValue::Number(JsonNumber::Float(bits))) => f64::from_bits(*bits),
        other => panic!("price is not a double: {:?}", other),
    }
}

fn keys(doc: &JsonValue) -> Vec<String> {
    match doc {
        JsonValue::Object(entries) => entries.iter().map(|(k, _)| k.clone()).collect(),
        other => panic!("not an object: {:?}", other),
    }
}

#[test]
fn test_generate_products() {
    let products = generate_products(10).unwrap();
    assert_eq!(products.len(), 10);
    assert!(is_string(field(&products[0], "product_id")));
    assert!(is_f64(field(&products[0], "price")));
}

#[test]
fn test_generate_logs() {
    let logs = generate_logs(10).unwrap();
    assert_eq!(logs.len(), 10);
    assert!(is_string(field(&logs[0], "level")));
    assert!(is_string(field(&logs[0], "timestamp")));
}

#[test]
fn test_generate_analytics() {
    let analytics = generate_analytics(10).unwrap();
    assert_eq!(analytics.len(), 10);
    assert!(is_string(field(&analytics[0], "user_id")));
    assert!(is_string(field(&analytics[0], "event_type")));
}

#[test]
fn product_fields_follow_the_position() {
    let p = product_document(0, "T");
    assert_eq!(text(&p, "product_id"), "PROD-00001");
    assert_eq!(text(&p, "name"), "Laptop 1");
    assert_eq!(text(&p, "category"), "Electronics");
    assert_eq!(text(&p, "description"), "High quality laptop for your needs");
    assert_eq!(price(&p), 10.0);
    assert_eq!(uint(&p, "stock"), 0);
    assert_eq!(text(&p, "created_at"), "T");
    assert_eq!(text(&p, "updated_at"), "T");
    match field(&p, "tags") {
        Some(JsonValue::Array(tags)) => {
            let t: Vec<&str> = tags
                .iter()
                .map(|v| match v {
                    JsonValue::String(s) => s.as_str(),
                    _ => panic!("tag is not text"),
                })
                .collect();
            assert_eq!(t, vec!["new", "featured"]);
        }
        other => panic!("tags: {:?}", other),
    }

    let q = product_document(5, "T");
    assert_eq!(text(&q, "name"), "Coffee Maker 6");
    assert_eq!(text(&q, "description"), "High quality coffee maker for your needs");
    assert_eq!(text(&q, "category"), "Electronics");
    assert_eq!(price(&q), 37.5);
    assert_eq!(uint(&q, "stock"), 35);

    let r = product_document(99999, "T");
    assert_eq!(text(&r, "product_id"), "PROD-100000");
    // 10 + (99999 * 5.5) % 500
    assert_eq!(price(&r), 10.0 + (99999f64 * 5.5) % 500.0);
    assert_eq!(uint(&r, "stock"), (99999 * 7) % 100);
}

#[test]
fn product_prices_match_floating_point_formula() {
    for i in [0u64, 1, 2, 3, 90, 91, 181, 182, 1000, 12345, 999_999, 123_456_789_012] {
        let p = product_document(i, "t");
        assert_eq!(price(&p), 10.0 + (i as f64 * 5.5) % 500.0, "i = {}", i);
    }
}

#[test]
fn product_keys_are_sorted() {
    let p = product_document(3, "t");
    let k = keys(&p);
    let mut sorted = k.clone();
    sorted.sort();
    assert_eq!(k, sorted);
    assert_eq!(k.len(), 9);
}

#[test]
fn generated_products_share_one_time_per_document() {
    let products = generate_products(3).unwrap();
    for (i, p) in products.iter().enumerate() {
        assert_eq!(text(p, "created_at"), text(p, "updated_at"));
        assert_eq!(text(p, "product_id"), format!("PROD-{:05}", i + 1));
    }
}

#[test]
fn log_fields_follow_the_position() {
    let l = log_document(0, "T");
    assert_eq!(text(&l, "level"), "INFO");
    assert_eq!(text(&l, "service"), "api-gateway");
    assert_eq!(text(&l, "host"), "host-01");
    assert_eq!(text(&l, "message"), "Request processed successfully - Request #1");
    assert_eq!(text(&l, "user_id"), "user_1");
    assert_eq!(text(&l, "request_id"), "req-00000000");
    assert_eq!(uint(&l, "duration_ms"), 0);
    assert_eq!(text(&l, "timestamp"), "T");

    let m = log_document(255, "T");
    assert_eq!(text(&m, "level"), "DEBUG");
    assert_eq!(text(&m, "request_id"), "req-000000ff");
    assert_eq!(text(&m, "message"), "Payment processed - Request #256");
    assert_eq!(text(&m, "user_id"), "user_6");
    assert_eq!(uint(&m, "duration_ms"), (255 * 13) % 5000);
    let k = keys(&m);
    let mut sorted = k.clone();
    sorted.sort();
    assert_eq!(k, sorted);
}

#[test]
fn analytics_fields_follow_the_position() {
    let a = analytics_document(0, "T");
    assert_eq!(text(&a, "user_id"), "user_1");
    assert_eq!(text(&a, "session_id"), "session_000000");
    assert_eq!(text(&a, "event_type"), "page_view");
    assert_eq!(text(&a, "page_url"), "/home");
    assert_eq!(text(&a, "referrer"), "google.com");
    assert_eq!(text(&a, "device"), "desktop");
    assert_eq!(text(&a, "browser"), "Chrome");
    assert_eq!(text(&a, "country"), "US");
    assert_eq!(text(&a, "city"), "New York");

    let b = analytics_document(104, "T");
    assert_eq!(text(&b, "user_id"), "user_5");
    assert_eq!(text(&b, "session_id"), format!("session_{:06x}", 104 / 5));
    assert_eq!(text(&b, "event_type"), "logout");
    assert_eq!(text(&b, "device"), "tablet");
    assert_eq!(text(&b, "browser"), "Chrome");
    let k = keys(&b);
    let mut sorted = k.clone();
    sorted.sort();
    assert_eq!(k, sorted);
}

#[test]
fn formatting_helpers() {
    assert_eq!(u64_to_hex(0), "0");
    assert_eq!(u64_to_hex(3054), "bee");
    assert_eq!(u64_to_hex(u64::MAX), "ffffffffffffffff");
    assert_eq!(pad_zeros("42", 5), "00042");
    assert_eq!(pad_zeros("123456", 5), "123456");
    assert_eq!(pad_zeros("", 2), "00");
    assert_eq!(to_ascii_lower("Coffee Maker T-Shirt É"), "coffee maker t-shirt É");
}

#[test]
fn templates_by_name() {
    assert_eq!(sample_template("ecommerce_products"), Some(SampleTemplate::EcommerceProducts));
    assert_eq!(sample_template("application_logs"), Some(SampleTemplate::ApplicationLogs));
    assert_eq!(sample_template("user_analytics"), Some(SampleTemplate::UserAnalytics));
    assert_eq!(sample_template("users"), None);
    assert_eq!(sample_template(""), None);
    assert_eq!(sample_documents(SampleTemplate::ApplicationLogs, 4).unwrap().len(), 4);
    let docs = sample_documents(SampleTemplate::UserAnalytics, 2).unwrap();
    assert!(is_string(field(&docs[1], "session_id")));
    assert!(sample_documents(SampleTemplate::EcommerceProducts, 0).unwrap().is_empty());
}

#[test]
fn sample_index_messages() {
    assert_eq!(sample_index_exists_message("products"), "Index 'products' already exists");
    assert_eq!(
        sample_index_created_message("logs", 100),
        "Successfully created index 'logs' with 100 documents"
    );
}

#[test]
fn product_ids_are_distinct() {
    let products = generate_products(120).unwrap();
    let mut ids: Vec<&str> = products.iter().map(|p| text(p, "product_id")).collect();
    ids.sort();
    ids.dedup();
    assert_eq!(ids.len(), 120);
}

#[test]
fn sample_limits() {
    assert_eq!(max_sample_documents(SampleTemplate::EcommerceProducts), 1_000_000_000_000);
    assert_eq!(max_sample_documents(SampleTemplate::ApplicationLogs), 133_333_333_333);
    assert_eq!(max_sample_documents(SampleTemplate::UserAnalytics), 2_222_222_222);
}
