//! The state shared by the desktop application's commands.
use vstd::prelude::*;
use crate::config::{ConfigService, ConfigError};
use crate::crypto::Encryptor;
use crate::text::path_join_spec;

verus! {

#[verifier::external_type_specification]
#[verifier::external_body]
#[verifier::reject_recursive_types(T)]
pub struct ExMutex<T: ?Sized>(std::sync::Mutex<T>);

/// Result of taking the lock that `std::sync::Mutex::new` made: the key of
/// the configuration service inside.
pub uninterp spec fn locked_key(m: std::sync::Mutex<ConfigService>) -> Seq<u8>;

/// Result of taking the lock that `std::sync::Mutex::new` made: the
/// configuration directory of the service inside.
pub uninterp spec fn locked_dir(m: std::sync::Mutex<ConfigService>) -> Seq<char>;

/// `std::sync::Mutex::new`: a new, unlocked mutex holding the value, as
/// its documentation says; the value is given by its key and directory.
#[verifier::external_body]
fn mutex_new(value: ConfigService) -> (r: std::sync::Mutex<ConfigService>)
    ensures
        locked_key(r) == value.key(),
        locked_dir(r) == value.dir(),
{
    std::sync::Mutex::new(value)
}

/// The configuration service behind a lock, shared by all commands.
pub struct AppState {
    pub config_service: std::sync::Mutex<ConfigService>,
}

impl AppState {
    /// The shared state over a configuration service with the encryptor,
    /// in `.es_client` under the home directory; fails only when no home
    /// directory can be found.
    pub fn new(encryptor: Encryptor) -> (r: Result<AppState, ConfigError>)
        ensures
            r matches Ok(s) ==> locked_key(s.config_service) == encryptor.key(),
            r matches Ok(s) ==> exists|home: Seq<char>|
                #[trigger] path_join_spec(home, ".es_client"@) == locked_dir(s.config_service),
            r matches Err(e) ==> e == ConfigError::HomeDirUnavailable,
    {
        let service = ConfigService::new(encryptor)?;
        Ok(AppState { config_service: mutex_new(service) })
    }

    /// The shared state over a configuration service with the encryptor,
    /// in `.es_client` under the given home directory.
    pub fn new_under(encryptor: Encryptor, home: &str) -> (r: AppState)
        ensures
            locked_key(r.config_service) == encryptor.key(),
            locked_dir(r.config_service) == path_join_spec(home@, ".es_client"@),
    {
        let service = ConfigService::new_under(encryptor, home);
        AppState { config_service: mutex_new(service) }
    }
}

} // verus!
