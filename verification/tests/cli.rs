use es_client::cli::{
    confirm_drop, connect_auth_type, connect_profile, drop_table_sql, index_create_settings,
    search_hit_documents, show_table_sql, CliError, after_connection_test, db_command_sql,
    ConnectAction, DbCommand,
};
use es_client::crypto::{EncryptError, Encryptor};
use es_client::json::{JsonNumber, JsonValue};
use es_client::models::AuthType;

fn s(t: &str) -> JsonValue {
    JsonValue::String(t.to_string())
}

fn obj(entries: Vec<(&str, JsonValue)>) -> JsonValue {
    JsonValue::Object(entries.into_iter().map(|(k, v)| (k.to_string(), v)).collect())
}

#[test]
fn connect_builds_an_encrypted_profile() {
    let e = Encryptor::new(Some(vec![1u8; 32])).unwrap();
    let p = connect_profile(
        "dev".to_string(),
        "http://localhost:9200".to_string(),
        Some("elastic".to_string()),
        Some("pw".to_string()),
        None,
        true,
        &e,
    )
    .unwrap();
    assert_eq!(p.name, "dev");
    assert_eq!(p.host, "http://localhost:9200");
    assert_eq!(p.username.as_deref(), Some("elastic"));
    assert_eq!(p.auth_type, AuthType::Basic);
    assert!(p.use_ssl);
    assert!(!p.verify_certificate);
    assert!(p.api_key_encrypted.is_none());
    assert_eq!(e.decrypt(p.password_encrypted.as_ref().unwrap()).unwrap(), "pw");
    assert!(p.created_at > 0);

    let k = connect_profile("k".to_string(), "h".to_string(), None, None, Some("key".to_string()), false, &e).unwrap();
    assert_eq!(k.auth_type, AuthType::ApiKey);
    assert!(k.verify_certificate);
    assert!(k.password_encrypted.is_none());
    assert_eq!(e.decrypt(k.api_key_encrypted.as_ref().unwrap()).unwrap(), "key");

    let short = Encryptor::new(Some(vec![1u8; 8])).unwrap();
    assert!(matches!(
        connect_profile("x".to_string(), "h".to_string(), None, Some("pw".to_string()), None, false, &short),
        Err(CliError::Encryption(EncryptError::EncryptionKey))
    ));
    // Without credentials nothing is encrypted, so no key is needed.
    assert!(connect_profile("x".to_string(), "h".to_string(), None, None, None, false, &short).is_ok());
}

#[test]
fn auth_type_follows_the_api_key() {
    assert_eq!(connect_auth_type(&Some("k".to_string())), AuthType::ApiKey);
    assert_eq!(connect_auth_type(&None), AuthType::Basic);
}

#[test]
fn index_settings_object() {
    match index_create_settings(3, 1) {
        JsonValue::Object(e) => {
            assert_eq!(e[0].0, "number_of_replicas");
            assert!(matches!(e[0].1, JsonValue::Number(JsonNumber::PosInt(1))));
            assert_eq!(e[1].0, "number_of_shards");
            assert!(matches!(e[1].1, JsonValue::Number(JsonNumber::PosInt(3))));
        }
        other => panic!("{:?}", other),
    }
}

#[test]
fn extraction_keeps_every_source() {
    let hits = JsonValue::Array(vec![
        obj(vec![("_source", obj(vec![("a", s("1"))]))]),
        obj(vec![("_id", s("no source"))]),
    ]);
    let reply = obj(vec![("hits", obj(vec![("hits", hits)]))]);
    let docs = search_hit_documents(reply).unwrap();
    assert_eq!(docs.len(), 2);
    assert!(matches!(&docs[0], JsonValue::Object(e) if e.len() == 1));
    assert!(matches!(docs[1], JsonValue::Null));
    assert!(matches!(search_hit_documents(obj(vec![])), Err(CliError::InvalidSearchResponse)));
}

#[test]
fn database_statements() {
    assert_eq!(show_table_sql("logs", 10), "SELECT * FROM logs LIMIT 10");
    assert_eq!(drop_table_sql("logs"), "DROP TABLE IF EXISTS logs");
}

#[test]
fn drop_confirmation() {
    assert!(confirm_drop("y\n"));
    assert!(confirm_drop("  Y "));
    assert!(!confirm_drop("yes"));
    assert!(!confirm_drop(""));
    assert!(!confirm_drop("n"));
}

#[test]
fn connect_saves_only_after_a_passed_test() {
    assert_eq!(after_connection_test(Some(true)), ConnectAction::ShowClusterAndSave);
    assert_eq!(after_connection_test(Some(false)), ConnectAction::ReportFailure);
    assert_eq!(after_connection_test(None), ConnectAction::PassError);
}

#[test]
fn database_subcommand_statements() {
    assert_eq!(db_command_sql(DbCommand::Query("SELECT COUNT(*) FROM t".to_string())), "SELECT COUNT(*) FROM t");
    assert_eq!(db_command_sql(DbCommand::Show("logs".to_string(), 5)), "SELECT * FROM logs LIMIT 5");
    assert_eq!(db_command_sql(DbCommand::Drop("logs".to_string())), "DROP TABLE IF EXISTS logs");
}
