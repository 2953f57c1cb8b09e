//! Data carried between the configuration store, the Elasticsearch client
//! and the user interface.
use vstd::prelude::*;
use crate::text::to_owned_string;
use crate::clock::clock_now;

verus! {

/// Authentication scheme used for an Elasticsearch connection.
#[derive(Debug, Clone, Copy, PartialEq, Eq, Structural)]
pub enum AuthType {
    Basic,
    ApiKey,
}

/// A copy of an optional string.
pub fn copy_opt_string(o: &Option<String>) -> (r: Option<String>)
    ensures
        r == *o,
{
    match o {
        Some(s) => Some(s.clone()),
        None => None,
    }
}

/// A saved connection profile. Credentials are kept encrypted, as
/// hexadecimal text; times are whole seconds since the Unix epoch.
#[derive(Debug, Clone)]
pub struct ProfileConfig {
    pub name: String,
    pub host: String,
    pub username: Option<String>,
    /// Encrypted password as hexadecimal text.
    pub password_encrypted: Option<String>,
    /// Encrypted API key as hexadecimal text.
    pub api_key_encrypted: Option<String>,
    pub auth_type: AuthType,
    pub use_ssl: bool,
    pub verify_certificate: bool,
    pub created_at: i64,
    pub updated_at: i64,
}

impl ProfileConfig {
    /// A profile with no credentials, SSL on and certificate checks on,
    /// created and updated now; `None` where the clock reads before the
    /// Unix epoch or past what an `i64` of seconds holds.
    pub fn new(name: String, host: String, auth_type: AuthType) -> (r: Option<ProfileConfig>)
        ensures
            r matches Some(p) ==> p == ProfileConfig::new_at_spec(name, host, auth_type, p.created_at) && p.created_at >= 0,
    {
        match clock_now() {
            Some((secs, _)) => Some(Self::new_at(name, host, auth_type, secs)),
            None => None,
        }
    }

    /// A profile with no credentials, SSL on and certificate checks on,
    /// created and updated at `now` (seconds since the Unix epoch).
    pub open spec fn new_at_spec(name: String, host: String, auth_type: AuthType, now: i64) -> ProfileConfig {
        ProfileConfig {
            name,
            host,
            username: None,
            password_encrypted: None,
            api_key_encrypted: None,
            auth_type,
            use_ssl: true,
            verify_certificate: true,
            created_at: now,
            updated_at: now,
        }
    }

    /// A profile with no credentials, SSL on and certificate checks on,
    /// created and updated at `now` (seconds since the Unix epoch).
    pub fn new_at(name: String, host: String, auth_type: AuthType, now: i64) -> (r: ProfileConfig)
        ensures
            r == ProfileConfig::new_at_spec(name, host, auth_type, now),
    {
        ProfileConfig {
            name,
            host,
            username: None,
            password_encrypted: None,
            api_key_encrypted: None,
            auth_type,
            use_ssl: true,
            verify_certificate: true,
            created_at: now,
            updated_at: now,
        }
    }

    /// A field-by-field copy of the profile.
    pub fn copy(&self) -> (r: ProfileConfig)
        ensures
            r == *self,
    {
        ProfileConfig {
            name: self.name.clone(),
            host: self.host.clone(),
            username: copy_opt_string(&self.username),
            password_encrypted: copy_opt_string(&self.password_encrypted),
            api_key_encrypted: copy_opt_string(&self.api_key_encrypted),
            auth_type: self.auth_type,
            use_ssl: self.use_ssl,
            verify_certificate: self.verify_certificate,
            created_at: self.created_at,
            updated_at: self.updated_at,
        }
    }
}

/// Application settings.
#[derive(Debug, Clone)]
pub struct AppConfig {
    pub default_profile: Option<String>,
    pub log_level: String,
    pub database_path: String,
    pub max_memory: String,
    pub theme: String,
    pub recent_profiles: Vec<String>,
}

impl Default for AppConfig {
    /// The settings used when none are saved.
    fn default() -> (r: AppConfig)
        ensures
            r.default_profile is None,
            r.log_level@ == "info"@,
            r.database_path@ == "~/.es_client/data.duckdb"@,
            r.max_memory@ == "2GB"@,
            r.theme@ == "dark"@,
            r.recent_profiles@.len() == 0,
    {
        AppConfig {
            default_profile: None,
            log_level: to_owned_string("info"),
            database_path: to_owned_string("~/.es_client/data.duckdb"),
            max_memory: to_owned_string("2GB"),
            theme: to_owned_string("dark"),
            recent_profiles: Vec::new(),
        }
    }
}

/// Cluster information reported by Elasticsearch.
#[derive(Debug, Clone)]
pub struct ClusterInfo {
    pub name: String,
    pub cluster_name: String,
    pub cluster_uuid: String,
    pub version: VersionInfo,
}

/// Elasticsearch version information.
#[derive(Debug, Clone)]
pub struct VersionInfo {
    pub number: String,
    pub build_flavor: String,
    pub build_type: String,
}

} // verus!
