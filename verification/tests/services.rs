use es_client::config::{ConfigError, ConfigService};
use es_client::crypto::{EncryptError, Encryptor};
use es_client::models::{AppConfig, AuthType, ProfileConfig};

fn service() -> ConfigService {
    ConfigService::new(Encryptor::new(None).unwrap()).unwrap()
}

#[test]
fn test_config_service_creation() {
    let service = ConfigService::new(Encryptor::new(None).unwrap());
    assert!(service.is_ok());
}

#[test]
fn services_test_encrypt_decrypt() {
    let service = ConfigService::new(Encryptor::new(None).unwrap()).unwrap();
    let password = "my_secret_password";

    let encrypted = service.encrypt_password(password).unwrap();
    assert_ne!(encrypted, password);

    let decrypted = service.decrypt_password(&encrypted).unwrap();
    assert_eq!(decrypted, password);
}

#[test]
fn test_profile_crud() {
    let service = service();
    let mut profiles: Vec<ProfileConfig> = Vec::new();

    let mut profile = ProfileConfig::new(
        "test_profile".to_string(),
        "https://localhost:9200".to_string(),
        AuthType::Basic,
    ).unwrap();
    profile.username = Some("elastic".to_string());

    service.save_profile(&mut profiles, &profile);

    let loaded = service.get_profile(&profiles, "test_profile").unwrap();
    assert_eq!(loaded.name, "test_profile");
    assert_eq!(loaded.host, "https://localhost:9200");

    service.delete_profile(&mut profiles, "test_profile").unwrap();

    let result = service.get_profile(&profiles, "test_profile");
    assert!(result.is_err());
}

#[test]
fn save_replaces_profile_of_same_name_and_puts_it_last() {
    let service = service();
    let mut profiles = Vec::new();
    let a = ProfileConfig::new("a".to_string(), "http://a:9200".to_string(), AuthType::Basic).unwrap();
    let b = ProfileConfig::new("b".to_string(), "http://b:9200".to_string(), AuthType::ApiKey).unwrap();
    service.save_profile(&mut profiles, &a);
    service.save_profile(&mut profiles, &b);
    let mut a2 = a.clone();
    a2.host = "http://a2:9200".to_string();
    service.save_profile(&mut profiles, &a2);
    assert_eq!(profiles.len(), 2);
    assert_eq!(profiles[0].name, "b");
    assert_eq!(profiles[1].name, "a");
    assert_eq!(profiles[1].host, "http://a2:9200");
    assert_eq!(service.get_profile(&profiles, "a").unwrap().host, "http://a2:9200");
    assert_eq!(service.get_profile(&profiles, "b").unwrap().auth_type, AuthType::ApiKey);
}

#[test]
fn delete_of_missing_profile_fails_and_changes_nothing() {
    let service = service();
    let mut profiles = Vec::new();
    let a = ProfileConfig::new("a".to_string(), "http://a:9200".to_string(), AuthType::Basic).unwrap();
    service.save_profile(&mut profiles, &a);
    match service.delete_profile(&mut profiles, "missing") {
        Err(ConfigError::ProfileNotFound(name)) => assert_eq!(name, "missing"),
        other => panic!("unexpected {:?}", other),
    }
    assert_eq!(profiles.len(), 1);
    assert_eq!(profiles[0].name, "a");
}

#[test]
fn get_profile_returns_first_of_name_and_reports_missing_name() {
    let service = service();
    let mut x = ProfileConfig::new("x".to_string(), "h1".to_string(), AuthType::Basic).unwrap();
    x.use_ssl = false;
    let y = ProfileConfig::new("x".to_string(), "h2".to_string(), AuthType::Basic).unwrap();
    let profiles = vec![x, y];
    assert_eq!(service.get_profile(&profiles, "x").unwrap().host, "h1");
    match service.get_profile(&profiles, "nope") {
        Err(ConfigError::ProfileNotFound(name)) => assert_eq!(name, "nope"),
        other => panic!("unexpected {:?}", other),
    }
}

#[test]
fn delete_removes_every_profile_of_the_name() {
    let service = service();
    let p = |n: &str, h: &str| ProfileConfig::new(n.to_string(), h.to_string(), AuthType::Basic).unwrap();
    let mut profiles = vec![p("x", "1"), p("y", "2"), p("x", "3")];
    service.delete_profile(&mut profiles, "x").unwrap();
    assert_eq!(profiles.len(), 1);
    assert_eq!(profiles[0].name, "y");
}

#[test]
fn new_profile_defaults() {
    let p = ProfileConfig::new("n".to_string(), "h".to_string(), AuthType::ApiKey).unwrap();
    assert!(p.username.is_none());
    assert!(p.password_encrypted.is_none());
    assert!(p.api_key_encrypted.is_none());
    assert!(p.use_ssl);
    assert!(p.verify_certificate);
    assert_eq!(p.created_at, p.updated_at);
    assert!(p.created_at > 1_600_000_000);
}

#[test]
fn config_paths_are_in_config_dir() {
    let service = service();
    let dir = service.config_dir().to_string();
    assert!(dir.ends_with("/.es_client"));
    assert_eq!(service.get_profiles_path(), format!("{}/profiles.toml", dir));
    assert_eq!(service.get_config_path(), format!("{}/config.toml", dir));
}

#[test]
fn app_config_defaults_when_none_saved() {
    let service = service();
    let c = service.load_app_config(None);
    assert_eq!(c.log_level, "info");
    assert_eq!(c.database_path, "~/.es_client/data.duckdb");
    assert_eq!(c.max_memory, "2GB");
    assert_eq!(c.theme, "dark");
    assert!(c.default_profile.is_none());
    assert!(c.recent_profiles.is_empty());
    let mut saved = AppConfig::default();
    saved.theme = "light".to_string();
    assert_eq!(service.load_app_config(Some(saved)).theme, "light");
}

#[test]
fn decrypt_password_rejects_non_hex() {
    let service = service();
    assert_eq!(service.decrypt_password("zz").unwrap_err(), EncryptError::InvalidHex);
}

#[test]
fn config_dir_under_a_given_home() {
    assert_eq!(ConfigService::config_dir_under("/home/u"), "/home/u/.es_client");
    let s = ConfigService::new_under(Encryptor::new(Some(vec![1u8; 32])).unwrap(), "/home/u");
    assert_eq!(s.config_dir(), "/home/u/.es_client");
    assert_eq!(s.get_profiles_path(), "/home/u/.es_client/profiles.toml");
    assert_eq!(s.encryptor().key_bytes(), &[1u8; 32][..]);
}
