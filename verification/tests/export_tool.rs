use es_client::export::{
    default_query, default_size, default_true, excel_layout, finish_search,
    finish_test_connection, parse_export_format, search_body, CellValue, ESClient,
    ElasticsearchConfig, ExportError, ExportFormat,
};
use es_client::json::{JsonNumber, JsonValue};

fn s(t: &str) -> JsonValue {
    JsonValue::String(t.to_string())
}

fn obj(entries: Vec<(&str, JsonValue)>) -> JsonValue {
    JsonValue::Object(entries.into_iter().map(|(k, v)| (k.to_string(), v)).collect())
}

fn config(use_ssl: bool, verify: bool) -> ElasticsearchConfig {
    ElasticsearchConfig {
        host: "localhost".to_string(),
        port: 9200,
        username: "elastic".to_string(),
        password: "changeme".to_string(),
        use_ssl,
        verify_certificate: verify,
    }
}

#[test]
fn defaults() {
    assert!(default_true());
    assert_eq!(default_size(), 1000);
    match default_query() {
        JsonValue::Object(e) => {
            assert_eq!(e.len(), 1);
            assert_eq!(e[0].0, "match_all");
            assert!(matches!(&e[0].1, JsonValue::Object(inner) if inner.is_empty()));
        }
        other => panic!("{:?}", other),
    }
}

#[test]
fn client_settings() {
    let c = ESClient::new(&config(false, true)).unwrap();
    assert_eq!(c.base_url, "http://localhost:9200");
    assert_eq!(c.auth_header, "Basic ZWxhc3RpYzpjaGFuZ2VtZQ==");
    assert!(!c.accept_invalid_certs);
    assert_eq!(c.timeout_secs, 60);
    assert_eq!(c.search_url("logs"), "http://localhost:9200/logs/_search");
    let secure = ESClient::new(&config(true, false)).unwrap();
    assert_eq!(secure.base_url, "https://localhost:9200");
    assert!(secure.accept_invalid_certs);
    assert!(!ESClient::new(&config(true, true)).unwrap().accept_invalid_certs);
}

#[test]
fn search_request_and_reply() {
    match search_body(default_query(), 25) {
        JsonValue::Object(e) => {
            assert_eq!(e[0].0, "query");
            assert_eq!(e[1].0, "size");
            assert!(matches!(e[1].1, JsonValue::Number(JsonNumber::PosInt(25))));
        }
        other => panic!("{:?}", other),
    }
    assert!(finish_test_connection(200, String::new()).is_ok());
    assert!(matches!(
        finish_test_connection(401, "no".to_string()),
        Err(ExportError::ConnectionFailed(401, t)) if t == "no"
    ));
    let hit = |src: JsonValue| obj(vec![("_id", s("1")), ("_source", src)]);
    let reply = obj(vec![(
        "hits",
        obj(vec![("hits", JsonValue::Array(vec![hit(obj(vec![("a", s("x"))])), hit(s("not an object")), obj(vec![])]))]),
    )]);
    let docs = finish_search(200, String::new(), Some(reply)).unwrap();
    assert_eq!(docs.len(), 1);
    assert!(matches!(
        finish_search(500, "down".to_string(), None),
        Err(ExportError::SearchFailed(500, t)) if t == "down"
    ));
    assert!(matches!(finish_search(200, String::new(), None), Err(ExportError::InvalidJson)));
    assert!(matches!(
        finish_search(200, String::new(), Some(obj(vec![]))),
        Err(ExportError::InvalidSearchResponse)
    ));
}

#[test]
fn spreadsheet_layout() {
    let docs = vec![
        obj(vec![("name", s("a")), ("n", JsonValue::Number(JsonNumber::PosInt(1)))]),
        s("skipped"),
        obj(vec![("flag", JsonValue::Bool(true)), ("name", JsonValue::Null), ("list", JsonValue::Array(vec![]))]),
    ];
    let layout = excel_layout(docs).unwrap();
    assert_eq!(layout.headers, vec!["name", "n", "flag", "list"]);
    let cells: Vec<(u32, u16)> = layout.cells.iter().map(|c| (c.row, c.col)).collect();
    assert_eq!(cells, vec![(1, 0), (1, 1), (3, 0), (3, 2), (3, 3)]);
    assert!(matches!(&layout.cells[0].value, CellValue::Text(t) if t == "a"));
    assert!(matches!(layout.cells[1].value, CellValue::Number(JsonNumber::PosInt(1))));
    assert!(matches!(layout.cells[2].value, CellValue::Empty));
    assert!(matches!(layout.cells[3].value, CellValue::Boolean(true)));
    assert!(matches!(layout.cells[4].value, CellValue::Json(JsonValue::Array(_))));
    assert!(matches!(excel_layout(vec![]), Err(ExportError::NoDocuments)));
}

#[test]
fn export_formats() {
    assert_eq!(parse_export_format("json").unwrap(), ExportFormat::Json);
    assert_eq!(parse_export_format("JSON").unwrap(), ExportFormat::Json);
    assert_eq!(parse_export_format("Excel").unwrap(), ExportFormat::Excel);
    assert_eq!(parse_export_format("xlsx").unwrap(), ExportFormat::Excel);
    assert_eq!(parse_export_format("both").unwrap(), ExportFormat::Both);
    assert_eq!(
        parse_export_format("CSV").unwrap_err(),
        "Invalid format 'csv'. Use 'json', 'excel', or 'both'"
    );
}
