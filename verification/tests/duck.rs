use es_client::duck::{
    column_name_or_unknown, column_type, describe_sql, generic_column_name, join_strings,
    query_row_to_json, quote, result_column_names, starts_with_select, table_row_to_json,
    to_int_json, to_sql_value, DbCell, DbError, DuckDBService, SqlValue,
    CREATE_HISTORY_SEQUENCE_SQL, CREATE_HISTORY_TABLE_SQL,
};
use es_client::json::{field, JsonNumber, JsonValue};

fn s(t: &str) -> JsonValue {
    JsonValue::String(t.to_string())
}

fn obj(entries: Vec<(&str, JsonValue)>) -> JsonValue {
    JsonValue::Object(entries.into_iter().map(|(k, v)| (k.to_string(), v)).collect())
}

fn keys(v: &JsonValue) -> Vec<String> {
    match v {
        JsonValue::Object(e) => e.iter().map(|(k, _)| k.clone()).collect(),
        other => panic!("{:?}", other),
    }
}

#[test]
fn sanitized_names() {
    assert_eq!(DuckDBService::sanitize_column_name("my-table"), "my_table");
    assert_eq!(DuckDBService::sanitize_column_name("user.name"), "user_name");
    assert_eq!(DuckDBService::sanitize_column_name("1abc"), "col_1abc");
    assert_eq!(DuckDBService::sanitize_column_name(""), "col_unnamed");
    assert_eq!(DuckDBService::sanitize_column_name("already_ok"), "already_ok");
    assert_eq!(DuckDBService::sanitize_column_name("naïve"), "naïve");
    assert_eq!(DuckDBService::sanitize_column_name("a b\"c"), "a_b_c");
    assert_eq!(DuckDBService::sanitize_column_name("-"), "_");
    assert_eq!(DuckDBService::sanitize_column_name("٣x"), "col_٣x");
    // Sanitizing twice changes nothing more.
    for n in ["my-table", "1abc", "", "٣x", "a b"] {
        let once = DuckDBService::sanitize_column_name(n);
        assert_eq!(DuckDBService::sanitize_column_name(&once), once);
    }
}

#[test]
fn history_statements_only_when_missing() {
    let db = DuckDBService::new().unwrap();
    assert!(db.db_path().ends_with("/.es_client/data.duckdb"));
    assert!(db.init_tables(true).is_empty());
    let stmts = db.init_tables(false);
    assert_eq!(stmts, vec![CREATE_HISTORY_SEQUENCE_SQL.to_string(), CREATE_HISTORY_TABLE_SQL.to_string()]);
}

#[test]
fn table_schema_from_first_document() {
    let db = DuckDBService::new().unwrap();
    let docs = vec![
        obj(vec![
            ("count", JsonValue::Number(JsonNumber::PosInt(3))),
            ("flag", JsonValue::Bool(true)),
            ("price", JsonValue::Number(JsonNumber::Float(1.5f64.to_bits()))),
            ("tags", JsonValue::Array(vec![])),
            ("user.name", s("x")),
        ]),
        obj(vec![("other", JsonValue::Null)]),
    ];
    let stmts = db.create_data_table("my-table", &docs).unwrap();
    assert_eq!(stmts[0], "DROP TABLE IF EXISTS \"my_table\"");
    assert_eq!(
        stmts[1],
        "CREATE TABLE \"my_table\" (\"count\" BIGINT, \"flag\" BOOLEAN, \"price\" DOUBLE, \"tags\" TEXT, \"user_name\" TEXT)"
    );
    assert_eq!(db.create_data_table("t", &vec![]).unwrap_err(), DbError::NoDocuments);
    let not_object = db.create_data_table("t", &vec![s("x")]).unwrap();
    assert_eq!(not_object[1], "CREATE TABLE \"t\" ()");
}

#[test]
fn select_statements() {
    let db = DuckDBService::new().unwrap();
    assert_eq!(db.query_table("logs", None), "SELECT * FROM \"logs\"");
    assert_eq!(db.query_table("my logs", Some(10)), "SELECT * FROM \"my_logs\" LIMIT 10");
}

#[test]
fn insert_plan_binds_each_object_document() {
    let db = DuckDBService::new().unwrap();
    let docs = vec![
        obj(vec![("a-b", JsonValue::Number(JsonNumber::NegInt(-2))), ("c", s("x"))]),
        s("skipped"),
        obj(vec![("c", JsonValue::Bool(false)), ("extra", JsonValue::Null)]),
    ];
    let plan = db.insert_data("t", docs).unwrap();
    assert_eq!(plan.sql, "INSERT INTO \"t\" (\"a_b\", \"c\") VALUES (?, ?)");
    assert_eq!(plan.rows.len(), 2);
    assert!(matches!(plan.rows[0][0], SqlValue::BigInt(-2)));
    assert!(matches!(&plan.rows[0][1], SqlValue::Text(t) if t == "x"));
    assert!(matches!(plan.rows[1][0], SqlValue::Null));
    assert!(matches!(plan.rows[1][1], SqlValue::Boolean(false)));

    let empty = db.insert_data("t", vec![]).unwrap();
    assert!(empty.rows.is_empty());
    assert_eq!(db.insert_data("t", vec![s("x")]).unwrap_err(), DbError::InvalidDocumentFormat);
}

#[test]
fn values_bind_by_kind() {
    assert!(matches!(to_sql_value(JsonValue::Number(JsonNumber::PosInt(5))), SqlValue::BigInt(5)));
    assert!(matches!(
        to_sql_value(JsonValue::Number(JsonNumber::PosInt(u64::MAX))),
        SqlValue::Double(JsonNumber::PosInt(u64::MAX))
    ));
    assert!(matches!(to_sql_value(JsonValue::Number(JsonNumber::Float(7))), SqlValue::Double(JsonNumber::Float(7))));
    assert!(matches!(to_sql_value(JsonValue::Null), SqlValue::Null));
    assert!(matches!(to_sql_value(JsonValue::Array(vec![])), SqlValue::Json(JsonValue::Array(_))));
    assert_eq!(column_type(&JsonValue::Number(JsonNumber::NegInt(-1))), "BIGINT");
    assert_eq!(column_type(&JsonValue::Number(JsonNumber::Float(0))), "DOUBLE");
    assert_eq!(column_type(&JsonValue::Bool(true)), "BOOLEAN");
    assert_eq!(column_type(&JsonValue::Null), "TEXT");
    assert_eq!(column_type(&obj(vec![])), "TEXT");
}

#[test]
fn table_rows_to_json() {
    let names = vec!["a".to_string(), "b".to_string(), "a".to_string(), "d".to_string()];
    let cells = vec![
        Some(DbCell::BigInt(1)),
        Some(DbCell::Double(f64::NAN.to_bits(), false)),
        Some(DbCell::Text("later".to_string())),
        None,
    ];
    let row = table_row_to_json(&names, cells);
    assert_eq!(keys(&row), vec!["a", "b"]);
    assert!(matches!(field(&row, "a"), Some(JsonValue::String(t)) if t == "later"));
    assert!(matches!(field(&row, "b"), Some(JsonValue::Null)));
    assert!(field(&row, "d").is_none());
    // A 32-bit integer is not read by a table read.
    let r2 = table_row_to_json(&vec!["n".to_string()], vec![Some(DbCell::Int(4))]);
    assert!(matches!(field(&r2, "n"), Some(JsonValue::Null)));
}

#[test]
fn query_rows_to_json() {
    let names = vec!["x".to_string()];
    let row = query_row_to_json(&names, vec![DbCell::Int(-4), DbCell::Boolean(true), DbCell::Other]);
    assert_eq!(keys(&row), vec!["x", "col_1", "col_2"]);
    assert!(matches!(field(&row, "x"), Some(JsonValue::Number(JsonNumber::NegInt(-4)))));
    assert!(matches!(field(&row, "col_1"), Some(JsonValue::Bool(true))));
    assert!(matches!(field(&row, "col_2"), Some(JsonValue::Null)));
    assert!(matches!(to_int_json(7), JsonValue::Number(JsonNumber::PosInt(7))));
}

#[test]
fn column_names_of_results() {
    assert_eq!(describe_sql("SELECT 1"), "DESCRIBE (SELECT 1)");
    assert_eq!(generic_column_name(12), "col_12");
    assert_eq!(result_column_names(vec!["a".to_string()]), vec!["a"]);
    let generic = result_column_names(vec![]);
    assert_eq!(generic.len(), 100);
    assert_eq!(generic[0], "col_0");
    assert_eq!(generic[99], "col_99");
    assert_eq!(column_name_or_unknown(None), "unknown");
    assert_eq!(column_name_or_unknown(Some("c".to_string())), "c");
}

#[test]
fn quoting_and_joining() {
    assert_eq!(quote("t"), "\"t\"");
    assert_eq!(join_strings(&vec!["a".to_string(), "b".to_string(), "c".to_string()], ", "), "a, b, c");
    assert_eq!(join_strings(&vec![], ", "), "");
    assert_eq!(join_strings(&vec!["only".to_string()], "-"), "only");
}

#[test]
fn parquet_export_statements() {
    let db = DuckDBService::new().unwrap();
    let q = db.export_to_parquet("  select * from t ", "/tmp/out.parquet").unwrap();
    assert_eq!(q.sql, "COPY (  select * from t ) TO '/tmp/out.parquet' (FORMAT PARQUET)");
    assert_eq!(q.full_path, "/tmp/out.parquet");
    assert_eq!(q.message, "Exported to /tmp/out.parquet");
    let t = db.export_to_parquet("my-table", "~/x.parquet").unwrap();
    assert_eq!(t.sql, "COPY \"my_table\" TO '~/x.parquet' (FORMAT PARQUET)");
    let rel = db.export_to_parquet("t", "out/x.parquet").unwrap();
    assert!(rel.full_path.ends_with("/out/x.parquet"));
    assert!(rel.full_path.starts_with('/'));
    assert!(starts_with_select("Select 1"));
    assert!(!starts_with_select("selec"));
    assert!(!starts_with_select("my_select"));
}

#[test]
fn insert_columns_are_the_table_columns() {
    let db = DuckDBService::new().unwrap();
    let doc = || obj(vec![("a b", s("x")), ("1st", JsonValue::Bool(true))]);
    let create = db.create_data_table("t", &vec![doc()]).unwrap();
    let insert = db.insert_data("t", vec![doc()]).unwrap();
    assert_eq!(create[1], "CREATE TABLE \"t\" (\"a_b\" TEXT, \"col_1st\" BOOLEAN)");
    assert_eq!(insert.sql, "INSERT INTO \"t\" (\"a_b\", \"col_1st\") VALUES (?, ?)");
}

#[test]
fn parquet_export_with_given_home() {
    let db = DuckDBService::new_under("/home/u");
    assert_eq!(db.db_path(), "/home/u/.es_client/data.duckdb");
    let e = db.parquet_export("t", "out.parquet", Some("/home/u".to_string())).unwrap();
    assert_eq!(e.full_path, "/home/u/out.parquet");
    assert_eq!(e.sql, "COPY \"t\" TO '/home/u/out.parquet' (FORMAT PARQUET)");
    assert_eq!(db.parquet_export("t", "out.parquet", None).unwrap_err(), DbError::HomeDirUnavailable);
    assert_eq!(db.parquet_export("t", "/abs.parquet", None).unwrap().full_path, "/abs.parquet");
    assert!(es_client::duck::absolute_output("~/x"));
    assert!(!es_client::duck::absolute_output("x/~"));
}
